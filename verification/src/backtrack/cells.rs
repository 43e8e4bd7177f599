//! The cells of the conversation, as far as going back depends on them.

use crate::backtrack::alignment::{self, RollbackEntry};
use crate::data::Data;
use crate::text::{lines_of, strip_prefix};
use crate::thread::{LocalImageAttachment, PromptContent, TextElement, UserMessage};
use crate::thread::UserMessageModel;
use vstd::prelude::*;

verus! {

/// A prompt in the conversation.
pub struct UserHistoryCell {
    pub message: String,
    pub text_elements: Vec<TextElement>,
    pub local_image_paths: Vec<String>,
    pub remote_image_urls: Vec<String>,
}

/// A cell of the conversation.
pub enum HistoryCell {
    /// The start of a session.
    SessionInfo,
    User(UserHistoryCell),
    /// A message of the agent, or the continuation of one.
    Agent { is_stream_continuation: bool },
    /// A change of files, and the first line of its summary.
    FileChange { heading: Option<String> },
    Other,
}

/// The positions of the prompts since the last start of a session.
pub open spec fn user_positions(cells: Seq<HistoryCell>) -> Seq<int>
    decreases cells.len(),
{
    if cells.len() == 0 {
        Seq::empty()
    } else {
        match cells.last() {
            HistoryCell::SessionInfo => Seq::empty(),
            HistoryCell::User(_) => user_positions(cells.drop_last()).push(cells.len() - 1),
            _ => user_positions(cells.drop_last()),
        }
    }
}

/// The positions of the agent's messages since the last start of a session, each counted once
/// however many cells it takes.
pub open spec fn agent_positions(cells: Seq<HistoryCell>) -> Seq<int>
    decreases cells.len(),
{
    if cells.len() == 0 {
        Seq::empty()
    } else {
        match cells.last() {
            HistoryCell::SessionInfo => Seq::empty(),
            HistoryCell::Agent { is_stream_continuation } => if is_stream_continuation {
                agent_positions(cells.drop_last())
            } else {
                agent_positions(cells.drop_last()).push(cells.len() - 1)
            },
            _ => agent_positions(cells.drop_last()),
        }
    }
}

/// The numbers of a vector of positions.
pub open spec fn positions(v: Seq<usize>) -> Seq<int> {
    v.map_values(|p: usize| p as int)
}

/// Each position is that of a prompt, and they increase.
pub proof fn user_positions_are_prompts(cells: Seq<HistoryCell>)
    ensures
        user_positions(cells).len() <= cells.len(),
        forall|i: int|
            0 <= i < user_positions(cells).len() ==> 0 <= #[trigger] user_positions(cells)[i]
                < cells.len() && cells[user_positions(cells)[i]] is User,
        forall|i: int, j: int|
            0 <= i < j < user_positions(cells).len() ==> #[trigger] user_positions(cells)[i]
                < #[trigger] user_positions(cells)[j],
    decreases cells.len(),
{
    if cells.len() > 0 {
        let before = cells.drop_last();
        user_positions_are_prompts(before);
        let all = user_positions(cells);
        let some = user_positions(before);
        assert forall|i: int| 0 <= i < all.len() implies 0 <= #[trigger] all[i] < cells.len()
            && cells[all[i]] is User by {
            if i < some.len() {
                assert(all[i] == some[i]);
                assert(cells[some[i]] == before[some[i]]);
            }
        }
        assert forall|i: int, j: int| 0 <= i < j < all.len() implies #[trigger] all[i]
            < #[trigger] all[j] by {
            assert(all[i] == some[i]);
            if j < some.len() {
                assert(all[j] == some[j]);
            }
        }
    }
}

/// The positions of the prompts since the last start of a session.
pub fn user_positions_of(cells: &Vec<HistoryCell>) -> (r: Vec<usize>)
    ensures
        positions(r@) == user_positions(cells@),
{
    let mut r: Vec<usize> = Vec::new();
    let mut i: usize = 0;
    assert(cells@.take(0) =~= Seq::empty());
    assert(positions(r@) =~= Seq::empty());
    while i < cells.len()
        invariant
            i <= cells@.len(),
            positions(r@) == user_positions(cells@.take(i as int)),
        decreases cells@.len() - i,
    {
        assert(cells@.take(i + 1).drop_last() =~= cells@.take(i as int));
        let ghost before = r@;
        match &cells[i] {
            HistoryCell::SessionInfo => {
                r = Vec::new();
                assert(positions(r@) =~= Seq::empty());
            },
            HistoryCell::User(_) => {
                r.push(i);
                assert(positions(r@) =~= positions(before).push(i as int));
            },
            _ => {},
        }
        i += 1;
    }
    assert(cells@.take(i as int) =~= cells@);
    r
}

/// How many prompts there are since the last start of a session.
pub fn user_count(cells: &Vec<HistoryCell>) -> (r: usize)
    ensures
        r == user_positions(cells@).len(),
{
    let found = user_positions_of(cells);
    assert(positions(found@).len() == found@.len());
    found.len()
}

/// Whether there is a prompt to go back to.
pub fn has_backtrack_target(cells: &Vec<HistoryCell>) -> (r: bool)
    ensures
        r == (user_positions(cells@).len() > 0),
{
    user_count(cells) > 0
}

/// The position of the prompt with a number.
pub open spec fn prompt_position(cells: Seq<HistoryCell>, nth: int) -> Option<int> {
    if 0 <= nth < user_positions(cells).len() {
        Some(user_positions(cells)[nth])
    } else {
        None
    }
}

/// The position of the prompt with a number.
pub fn nth_user_position(cells: &Vec<HistoryCell>, nth: usize) -> (r: Option<usize>)
    ensures
        match r {
            Some(position) => prompt_position(cells@, nth as int) == Some(position as int)
                && position < cells@.len() && cells@[position as int] is User,
            None => prompt_position(cells@, nth as int) is None,
        },
{
    let found = user_positions_of(cells);
    proof {
        user_positions_are_prompts(cells@);
        assert(positions(found@).len() == found@.len());
    }
    if nth < found.len() {
        assert(positions(found@)[nth as int] == found@[nth as int]);
        Some(found[nth])
    } else {
        None
    }
}

/// How many messages of the agent there are since the last start of a session.
pub fn agent_group_count(cells: &Vec<HistoryCell>) -> (r: usize)
    ensures
        r == agent_positions(cells@).len(),
{
    let mut count: usize = 0;
    let mut i: usize = 0;
    assert(cells@.take(0) =~= Seq::empty());
    while i < cells.len()
        invariant
            i <= cells@.len(),
            count <= i,
            count == agent_positions(cells@.take(i as int)).len(),
        decreases cells@.len() - i,
    {
        assert(cells@.take(i + 1).drop_last() =~= cells@.take(i as int));
        match &cells[i] {
            HistoryCell::SessionInfo => {
                count = 0;
            },
            HistoryCell::Agent { is_stream_continuation } => {
                if !*is_stream_continuation {
                    count += 1;
                }
            },
            _ => {},
        }
        i += 1;
    }
    assert(cells@.take(i as int) =~= cells@);
    count
}

/// The prompt of a cell as the composer holds it. The images get their labels in order; mention
/// bindings are not known from the cell.
pub open spec fn prompt_of(cell: UserHistoryCell, labels: Seq<String>) -> UserMessageModel {
    UserMessageModel {
        text: cell.message@,
        local_images: Seq::new(
            cell.local_image_paths@.len(),
            |i: int| (labels[i]@, cell.local_image_paths@[i]@),
        ),
        remote_image_urls: cell.remote_image_urls.deep_view(),
        text_elements: cell.text_elements.deep_view(),
        mention_bindings: Seq::empty(),
    }
}

/// The prompt of a cell as the composer holds it. `labels` holds the labels of the first image,
/// the second image and so on.
pub fn user_message_from_history_cell(cell: &UserHistoryCell, labels: &Vec<String>) -> (r:
    UserMessage)
    requires
        cell.local_image_paths@.len() <= labels@.len(),
    ensures
        r.deep_view() == prompt_of(*cell, labels@),
{
    let mut local_images: Vec<LocalImageAttachment> = Vec::new();
    let mut i: usize = 0;
    while i < cell.local_image_paths.len()
        invariant
            cell.local_image_paths@.len() <= labels@.len(),
            i <= cell.local_image_paths@.len(),
            local_images@.len() == i,
            forall|k: int|
                0 <= k < i ==> (#[trigger] local_images@[k]).deep_view() == (
                    labels@[k]@,
                    cell.local_image_paths@[k]@,
                ),
        decreases cell.local_image_paths@.len() - i,
    {
        local_images.push(
            LocalImageAttachment {
                placeholder: labels[i].clone(),
                path: cell.local_image_paths[i].clone(),
            },
        );
        i += 1;
    }
    let r = UserMessage {
        text: cell.message.clone(),
        local_images,
        remote_image_urls: cell.remote_image_urls.duplicate(),
        text_elements: cell.text_elements.duplicate(),
        mention_bindings: Vec::new(),
    };
    proof {
        assert(r.local_images.deep_view() =~= prompt_of(*cell, labels@).local_images);
        assert(r.mention_bindings.deep_view() =~= Seq::empty());
    }
    r
}

/// Whether there are labels for the images of every prompt.
pub open spec fn enough_labels(cells: Seq<HistoryCell>, labels: Seq<String>) -> bool {
    forall|i: int|
        0 <= i < cells.len() ==> ((#[trigger] cells[i]) matches HistoryCell::User(cell) ==>
            cell.local_image_paths@.len() <= labels.len())
}

/// The prompts since the last start of a session, as the composer holds them.
pub open spec fn prompts_of(cells: Seq<HistoryCell>, labels: Seq<String>) -> Seq<
    UserMessageModel,
> {
    user_positions(cells).map_values(|p: int| prompt_of(cells[p]->User_0, labels))
}

/// The prompts since the last start of a session, as the composer holds them.
pub fn backtrack_transcript_prompts(cells: &Vec<HistoryCell>, labels: &Vec<String>) -> (r: Vec<
    UserMessage,
>)
    requires
        enough_labels(cells@, labels@),
    ensures
        r.deep_view() == prompts_of(cells@, labels@),
{
    let found = user_positions_of(cells);
    proof {
        user_positions_are_prompts(cells@);
        assert(positions(found@).len() == found@.len());
    }
    let mut r: Vec<UserMessage> = Vec::new();
    let mut i: usize = 0;
    while i < found.len()
        invariant
            enough_labels(cells@, labels@),
            i <= found@.len(),
            positions(found@) == user_positions(cells@),
            forall|k: int|
                0 <= k < user_positions(cells@).len() ==> 0 <= #[trigger] user_positions(cells@)[k]
                    < cells@.len() && cells@[user_positions(cells@)[k]] is User,
            r@.len() == i,
            forall|k: int|
                0 <= k < i ==> (#[trigger] r@[k]).deep_view() == prompt_of(
                    cells@[user_positions(cells@)[k]]->User_0,
                    labels@,
                ),
        decreases found@.len() - i,
    {
        assert(positions(found@)[i as int] == found@[i as int]);
        assert(user_positions(cells@)[i as int] == found@[i as int]);
        match &cells[found[i]] {
            HistoryCell::User(cell) => {
                r.push(user_message_from_history_cell(cell, labels));
            },
            _ => {},
        }
        i += 1;
    }
    assert(r.deep_view() =~= prompts_of(cells@, labels@));
    r
}

/// The headings of the file changes among cells.
pub open spec fn change_headings(cells: Seq<HistoryCell>) -> Seq<Seq<char>>
    decreases cells.len(),
{
    if cells.len() == 0 {
        Seq::empty()
    } else {
        match cells.last() {
            HistoryCell::FileChange { heading: Some(heading) } => change_headings(
                cells.drop_last(),
            ).push(heading@),
            _ => change_headings(cells.drop_last()),
        }
    }
}

/// What happened to the code, from the headings of the file changes: nothing, the one change, or
/// how many changes.
pub open spec fn code_summary(headings: Seq<Seq<char>>) -> Seq<char> {
    if headings.len() == 0 {
        "No code changes"@
    } else if headings.len() == 1 {
        if crate::text::has_prefix(headings[0], "\u{25cf} "@) {
            headings[0].subrange("\u{25cf} "@.len() as int, headings[0].len() as int)
        } else {
            headings[0]
        }
    } else {
        crate::text::decimal(headings.len()) + " code changes"@
    }
}

/// What happened to the code in a range of cells.
pub fn backtrack_code_summary(cells: &Vec<HistoryCell>, start: usize, end: usize) -> (r: String)
    requires
        start <= end <= cells@.len(),
    ensures
        r@ == code_summary(change_headings(cells@.subrange(start as int, end as int))),
{
    let ghost part = cells@.subrange(start as int, end as int);
    let mut headings: Vec<String> = Vec::new();
    let mut i: usize = start;
    assert(part.take(0) =~= Seq::empty());
    assert(headings.deep_view() =~= Seq::empty());
    while i < end
        invariant
            start <= i <= end <= cells@.len(),
            part == cells@.subrange(start as int, end as int),
            headings.deep_view() == change_headings(part.take(i - start)),
        decreases end - i,
    {
        assert(part.take(i + 1 - start).drop_last() =~= part.take(i - start));
        assert(part.take(i + 1 - start).last() == cells@[i as int]);
        let ghost before = headings.deep_view();
        match &cells[i] {
            HistoryCell::FileChange { heading } => {
                if let Some(heading) = heading {
                    headings.push(heading.clone());
                    assert(headings.deep_view() =~= before.push(heading@));
                }
            },
            _ => {},
        }
        i += 1;
    }
    assert(part.take(end - start) =~= part);
    assert(headings@.len() == headings.deep_view().len());
    if headings.len() == 0 {
        "No code changes".to_owned()
    } else if headings.len() == 1 {
        assert(headings.deep_view()[0] == headings@[0]@);
        match strip_prefix(headings[0].as_str(), "\u{25cf} ") {
            Some(rest) => rest,
            None => headings[0].clone(),
        }
    } else {
        let mut r = crate::text::decimal_string(headings.len() as u64);
        r.append(" code changes");
        r
    }
}

/// The first line of a text, or a note where it has none.
pub open spec fn first_line(text: Seq<char>) -> Seq<char> {
    if crate::text::text_lines(text).len() > 0 {
        crate::text::text_lines(text)[0]
    } else {
        "(no prompt)"@
    }
}

/// The first line of a text, or a note where it has none.
pub fn first_line_of(text: &str) -> (r: String)
    ensures
        r@ == first_line(text@),
{
    let lines = lines_of(text);
    assert(lines@.len() == lines.deep_view().len());
    if lines.len() > 0 {
        assert(lines.deep_view()[0] == lines@[0]@);
        lines[0].clone()
    } else {
        "(no prompt)".to_owned()
    }
}

/// Cutting the conversation at a prompt leaves the prompts before it: their number, and where
/// they stand.
pub proof fn cutting_at_a_prompt_keeps_earlier_prompts(cells: Seq<HistoryCell>, nth: int)
    requires
        0 <= nth < user_positions(cells).len(),
    ensures
        user_positions(cells.take(user_positions(cells)[nth])) == user_positions(cells).take(nth),
    decreases cells.len(),
{
    user_positions_are_prompts(cells);
    let p = user_positions(cells)[nth];
    if cells.len() > 0 {
        let before = cells.drop_last();
        let some = user_positions(before);
        if p == cells.len() - 1 {
            assert(cells.take(p) =~= before);
            if cells.last() is User {
                if nth < some.len() {
                    user_positions_are_prompts(before);
                    assert(user_positions(cells)[nth] == some[nth]);
                }
                assert(user_positions(cells).take(nth) =~= some);
            }
        } else {
            assert(nth < some.len());
            assert(user_positions(cells)[nth] == some[nth]);
            cutting_at_a_prompt_keeps_earlier_prompts(before, nth);
            assert(cells.take(p) =~= before.take(p));
            assert(user_positions(cells).take(nth) =~= some.take(nth));
        }
    }
}

/// Every prompt since the last start of a session is counted, and nothing else is.
pub proof fn every_prompt_is_counted(cells: Seq<HistoryCell>, p: int)
    ensures
        user_positions(cells).contains(p) <==> 0 <= p < cells.len() && cells[p] is User && forall|
            q: int,
        |
            p < q < cells.len() ==> !((#[trigger] cells[q]) is SessionInfo),
    decreases cells.len(),
{
    if cells.len() > 0 {
        let before = cells.drop_last();
        let last = cells.len() - 1;
        every_prompt_is_counted(before, p);
        let some = user_positions(before);
        let all = user_positions(cells);
        if cells.last() is SessionInfo {
            assert(cells[last] is SessionInfo);
        } else {
            if cells.last() is User {
                assert(all == some.push(last));
                assert(all[some.len() as int] == last);
                if some.contains(p) {
                    let k = choose|k: int| 0 <= k < some.len() && some[k] == p;
                    assert(all[k] == p);
                }
                if all.contains(p) {
                    let k = choose|k: int| 0 <= k < all.len() && all[k] == p;
                    if k < some.len() {
                        assert(some[k] == p);
                    }
                }
            }
            assert(!(cells[last] is SessionInfo));
            if 0 <= p < last {
                assert(before[p] == cells[p]);
                if forall|q: int| p < q < cells.len() ==> !((#[trigger] cells[q]) is SessionInfo) {
                    assert forall|q: int| p < q < before.len() implies !((
                    #[trigger] before[q]) is SessionInfo) by {
                        assert(cells[q] == before[q]);
                    }
                }
                if forall|q: int| p < q < before.len() ==> !((#[trigger] before[q]) is SessionInfo) {
                    assert forall|q: int| p < q < cells.len() implies !((
                    #[trigger] cells[q]) is SessionInfo) by {
                        if q < last {
                            assert(before[q] == cells[q]);
                        }
                    }
                }
            }
        }
    }
}

/// Every message of the agent since the last start of a session is counted once: by the cell that
/// begins it.
pub proof fn every_answer_is_counted_once(cells: Seq<HistoryCell>, p: int)
    ensures
        agent_positions(cells).contains(p) <==> 0 <= p < cells.len() && cells[p] is Agent
            && !cells[p]->is_stream_continuation && forall|q: int|
            p < q < cells.len() ==> !((#[trigger] cells[q]) is SessionInfo),
        agent_positions(cells).no_duplicates(),
    decreases cells.len(),
{
    if cells.len() > 0 {
        let before = cells.drop_last();
        let last = cells.len() - 1;
        every_answer_is_counted_once(before, p);
        every_answer_is_counted_once(before, last);
        let some = agent_positions(before);
        let all = agent_positions(cells);
        if cells.last() is SessionInfo {
            assert(cells[last] is SessionInfo);
        } else {
            if cells.last() is Agent && !cells.last()->is_stream_continuation {
                assert(all == some.push(last));
                assert(all[some.len() as int] == last);
                assert(!some.contains(last));
                if some.contains(p) {
                    let k = choose|k: int| 0 <= k < some.len() && some[k] == p;
                    assert(all[k] == p);
                }
                if all.contains(p) {
                    let k = choose|k: int| 0 <= k < all.len() && all[k] == p;
                    if k < some.len() {
                        assert(some[k] == p);
                    }
                }
            }
            assert(!(cells[last] is SessionInfo));
            if 0 <= p < last {
                assert(before[p] == cells[p]);
                if forall|q: int| p < q < cells.len() ==> !((#[trigger] cells[q]) is SessionInfo) {
                    assert forall|q: int| p < q < before.len() implies !((
                    #[trigger] before[q]) is SessionInfo) by {
                        assert(cells[q] == before[q]);
                    }
                }
                if forall|q: int| p < q < before.len() ==> !((#[trigger] before[q]) is SessionInfo) {
                    assert forall|q: int| p < q < cells.len() implies !((
                    #[trigger] cells[q]) is SessionInfo) by {
                        if q < last {
                            assert(before[q] == cells[q]);
                        }
                    }
                }
            }
        }
    }
}

/// A prompt that is taken from its cell has the text, the elements and the remote images of the
/// cell, and for each image file an attachment with its path and the label of its place.
pub proof fn prompts_are_taken_from_their_cell(cell: UserHistoryCell, labels: Seq<String>, k: int)
    requires
        cell.local_image_paths@.len() <= labels.len(),
    ensures
        prompt_of(cell, labels).text == cell.message@,
        prompt_of(cell, labels).text_elements == cell.text_elements.deep_view(),
        prompt_of(cell, labels).remote_image_urls == cell.remote_image_urls.deep_view(),
        prompt_of(cell, labels).local_images.len() == cell.local_image_paths@.len(),
        0 <= k < cell.local_image_paths@.len() ==> prompt_of(cell, labels).local_images[k].0
            == labels[k]@ && prompt_of(cell, labels).local_images[k].1
            == cell.local_image_paths@[k]@,
{
}

/// A prompt that is taken from the cell that shows a persisted message fits that message, whatever
/// labels its images have: what the transcript shows can be gone back to.
pub proof fn shown_prompts_fit_their_message(
    cell: UserHistoryCell,
    labels: Seq<String>,
    prompt: UserMessage,
    turn_index: usize,
    content: &PromptContent,
)
    requires
        cell.message@ == content.display.message@,
        cell.text_elements.deep_view() == content.display.text_elements.deep_view(),
        cell.local_image_paths.deep_view() == content.display.local_images.deep_view(),
        cell.remote_image_urls.deep_view() == content.display.remote_image_urls.deep_view(),
        cell.local_image_paths@.len() <= labels.len(),
        prompt.deep_view() == prompt_of(cell, labels),
    ensures
        alignment::fits(prompt, RollbackEntry::PersistedPrompt { turn_index, content }),
{
    alignment::prompts_fit_their_own_message(prompt, turn_index, content);
    let paths = cell.local_image_paths.deep_view();
    let images = content.display.local_images.deep_view();
    assert(paths.len() == cell.local_image_paths@.len());
    assert(images.len() == content.display.local_images@.len());
    assert(prompt.deep_view().local_images == prompt.local_images.deep_view());
    assert(prompt.local_images.deep_view().len() == prompt.local_images@.len());
    assert forall|k: int| 0 <= k < prompt.local_images@.len() implies (
    #[trigger] prompt.local_images@[k]).path@ == content.display.local_images@[k]@ by {
        assert(prompt.local_images.deep_view()[k] == prompt.local_images@[k].deep_view());
        assert(prompt_of(cell, labels).local_images[k].1 == cell.local_image_paths@[k]@);
        assert(paths[k] == images[k]);
    }
}

/// The headings of the changes are those of the cells, in order.
pub proof fn headings_follow_the_cells(first: Seq<HistoryCell>, second: Seq<HistoryCell>)
    ensures
        change_headings(first + second) == change_headings(first) + change_headings(second),
        second.len() == 1 ==> change_headings(second) == (match second[0] {
            HistoryCell::FileChange { heading: Some(heading) } => seq![heading@],
            _ => Seq::empty(),
        }),
    decreases second.len(),
{
    if second.len() == 0 {
        assert(first + second =~= first);
        assert(change_headings(first) + Seq::<Seq<char>>::empty() =~= change_headings(first));
    } else {
        headings_follow_the_cells(first, second.drop_last());
        assert((first + second).drop_last() =~= first + second.drop_last());
        assert(change_headings(first + second) =~= change_headings(first) + change_headings(
            second,
        ));
        if second.len() == 1 {
            assert(second.drop_last() =~= Seq::empty());
            assert(change_headings(second) =~= (match second[0] {
                HistoryCell::FileChange { heading: Some(heading) } => seq![heading@],
                _ => Seq::empty(),
            }));
        }
    }
}

/// One change is named by its heading without the dot before it, more of them by their number.
pub proof fn changes_are_named_or_counted(headings: Seq<Seq<char>>, heading: Seq<char>)
    ensures
        headings.len() == 0 ==> code_summary(headings) == "No code changes"@,
        code_summary(seq!["\u{25cf} "@ + heading]) == heading,
        headings.len() == 1 && !crate::text::has_prefix(headings[0], "\u{25cf} "@) ==> code_summary(
            headings,
        ) == headings[0],
        headings.len() > 1 ==> crate::text::has_prefix(
            code_summary(headings),
            crate::text::decimal(headings.len()),
        ),
{
    let dotted = "\u{25cf} "@ + heading;
    assert(dotted.subrange(0, "\u{25cf} "@.len() as int) =~= "\u{25cf} "@);
    assert(dotted.subrange("\u{25cf} "@.len() as int, dotted.len() as int) =~= heading);
    if headings.len() > 1 {
        let number = crate::text::decimal(headings.len());
        assert(code_summary(headings).subrange(0, number.len() as int) =~= number);
    }
}

/// A prompt is shown by its first line.
pub proof fn prompts_are_shown_by_their_first_line(line: Seq<char>, rest: Seq<char>)
    requires
        !line.contains('\n'),
        !line.contains('\r'),
    ensures
        first_line(line + seq!['\n'] + rest) == line,
        line.len() > 0 ==> first_line(line) == line,
        first_line(Seq::empty()) == "(no prompt)"@,
{
    crate::text::lines_end_at_line_feeds(line, rest);
    if line.len() > 0 {
        assert(line.contains(line.last()));
    }
}

} // verus!
