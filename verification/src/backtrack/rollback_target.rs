//! The persisted turn at which a prompt of the transcript begins.

use crate::backtrack::alignment::{self, align_transcript_prompts, RollbackEntry};
use crate::data::Data;
use crate::text::is_blank;
use crate::thread::{PromptContent, ThreadItem, Turn, TurnStatus, UserMessage, UserMessageDisplay};
use vstd::prelude::*;

verus! {

/// What a rollback to a prompt removes.
#[derive(Debug, PartialEq, Eq)]
pub struct BacktrackRollbackTarget {
    /// The first turn that goes.
    pub before_turn_id: String,
    /// How many user messages go.
    pub legacy_num_turns: u32,
    /// The turns that go, oldest first.
    pub removed_turn_ids: Vec<String>,
}

/// Why a prompt cannot be rolled back.
#[derive(Clone, Copy, PartialEq, Eq, Structural, Debug)]
pub enum RollbackTargetError {
    NotFound,
    Stale,
    InProgress,
    TooManyTurns,
}

impl RollbackTargetError {
    pub open spec fn text(self) -> Seq<char> {
        match self {
            RollbackTargetError::NotFound
                => "the selected prompt was not found in the persisted thread"@,
            RollbackTargetError::Stale
                => "the selected transcript prompt no longer matches the persisted thread"@,
            RollbackTargetError::InProgress
                => "the selected prompt belongs to a turn that is still in progress"@,
            RollbackTargetError::TooManyTurns
                => "the selected prompt requires rolling back too many turns"@,
        }
    }

    /// The message for the user.
    pub fn message(self) -> (r: String)
        ensures
            r@ == self.text(),
    {
        match self {
            RollbackTargetError::NotFound
                => "the selected prompt was not found in the persisted thread".to_owned(),
            RollbackTargetError::Stale
                => "the selected transcript prompt no longer matches the persisted thread".to_owned(),
            RollbackTargetError::InProgress
                => "the selected prompt belongs to a turn that is still in progress".to_owned(),
            RollbackTargetError::TooManyTurns
                => "the selected prompt requires rolling back too many turns".to_owned(),
        }
    }
}

/// The contents of the user messages among items, in order.
pub open spec fn user_contents(items: Seq<ThreadItem>) -> Seq<PromptContent>
    decreases items.len(),
{
    if items.len() == 0 {
        Seq::empty()
    } else {
        match items.last() {
            ThreadItem::UserMessage { content, .. } => user_contents(items.drop_last()).push(
                content,
            ),
            _ => user_contents(items.drop_last()),
        }
    }
}

proof fn lemma_contents_push(items: Seq<ThreadItem>, k: int)
    requires
        0 <= k < items.len(),
    ensures
        user_contents(items.take(k + 1)) == (match items[k] {
            ThreadItem::UserMessage { content, .. } => user_contents(items.take(k)).push(content),
            _ => user_contents(items.take(k)),
        }),
{
    assert(items.take(k + 1).drop_last() =~= items.take(k));
}

/// Whether some item enters review mode.
pub open spec fn enters_review(items: Seq<ThreadItem>) -> bool {
    exists|k: int| 0 <= k < items.len() && (#[trigger] items[k]) is EnteredReviewMode
}

/// Whether some item leaves review mode.
pub open spec fn leaves_review(items: Seq<ThreadItem>) -> bool {
    exists|k: int| 0 <= k < items.len() && (#[trigger] items[k]) is ExitedReviewMode
}

/// Whether a turn is the child of an inline review: it was interrupted without an end, after a
/// completed review, and holds the review's prompt exactly twice.
pub open spec fn hidden_nested_review(previous: Turn, turn: Turn) -> bool {
    let contents = user_contents(turn.items@);
    &&& previous.status == TurnStatus::Completed
    &&& turn.status == TurnStatus::Interrupted
    &&& turn.completed_at is None
    &&& enters_review(previous.items@)
    &&& leaves_review(previous.items@)
    &&& contents.len() == 2
    &&& contents[0].inputs.deep_view() == contents[1].inputs.deep_view()
}

/// Whether some item enters or leaves review mode.
fn has_review_items(items: &Vec<ThreadItem>) -> (r: (bool, bool))
    ensures
        r.0 == enters_review(items@),
        r.1 == leaves_review(items@),
{
    let mut enters = false;
    let mut leaves = false;
    let mut k: usize = 0;
    while k < items.len()
        invariant
            k <= items@.len(),
            enters == exists|i: int| 0 <= i < k && (#[trigger] items@[i]) is EnteredReviewMode,
            leaves == exists|i: int| 0 <= i < k && (#[trigger] items@[i]) is ExitedReviewMode,
        decreases items@.len() - k,
    {
        match &items[k] {
            ThreadItem::EnteredReviewMode { .. } => {
                assert(items@[k as int] is EnteredReviewMode);
                enters = true;
            },
            ThreadItem::ExitedReviewMode { .. } => {
                assert(items@[k as int] is ExitedReviewMode);
                leaves = true;
            },
            _ => {},
        }
        k += 1;
    }
    (enters, leaves)
}

/// Whether the turn is the reconstructed child of an inline review, whose prompt stands in it
/// twice.
pub fn is_hidden_nested_review_turn(previous: &Turn, turn: &Turn) -> (r: bool)
    ensures
        r == hidden_nested_review(*previous, *turn),
{
    let (enters, leaves) = has_review_items(&previous.items);
    if previous.status != TurnStatus::Completed || turn.status != TurnStatus::Interrupted
        || turn.completed_at.is_some() || !enters || !leaves {
        return false;
    }
    let mut contents: Vec<&PromptContent> = Vec::new();
    let mut k: usize = 0;
    assert(turn.items@.take(0) =~= Seq::empty());
    while k < turn.items.len()
        invariant
            k <= turn.items@.len(),
            contents@.len() == user_contents(turn.items@.take(k as int)).len(),
            forall|i: int|
                0 <= i < contents@.len() ==> *(#[trigger] contents@[i]) == user_contents(
                    turn.items@.take(k as int),
                )[i],
        decreases turn.items@.len() - k,
    {
        proof {
            lemma_contents_push(turn.items@, k as int);
        }
        match &turn.items[k] {
            ThreadItem::UserMessage { content, .. } => {
                contents.push(content);
            },
            _ => {},
        }
        k += 1;
    }
    assert(turn.items@.take(k as int) =~= turn.items@);
    contents.len() == 2 && contents[0].inputs.same(&contents[1].inputs)
}

/// Whether review mode is on before item `k`, where `on` says whether it was on at the start.
pub open spec fn reviewing(items: Seq<ThreadItem>, k: int, on: bool) -> bool
    decreases k,
{
    if k <= 0 {
        on
    } else {
        match items[k - 1] {
            ThreadItem::EnteredReviewMode { .. } => true,
            ThreadItem::ExitedReviewMode { .. } => false,
            _ => reviewing(items, k - 1, on),
        }
    }
}

/// Whether review mode is on at the start of turn `t`.
pub open spec fn reviewing_at(turns: Seq<Turn>, t: int) -> bool
    decreases t,
{
    if t <= 0 {
        false
    } else {
        let items = turns[t - 1].items@;
        reviewing(items, items.len() as int, reviewing_at(turns, t - 1))
    }
}

/// Whether turn `t` is the hidden child of an inline review.
pub open spec fn hidden_at(turns: Seq<Turn>, t: int) -> bool {
    0 < t && hidden_nested_review(turns[t - 1], turns[t])
}

/// Whether the transcript shows nothing of a user message.
pub open spec fn shows_nothing(display: UserMessageDisplay) -> bool {
    &&& crate::text::blank(display.message@)
    &&& display.text_elements@.len() == 0
    &&& display.local_images@.len() == 0
    &&& display.remote_image_urls@.len() == 0
}

/// The entries of the first `k` items of turn `t`: its user messages that the transcript shows.
pub open spec fn item_entries(turns: Seq<Turn>, t: int, k: int) -> Seq<RollbackEntry<'static>>
    decreases k,
{
    if k <= 0 {
        Seq::empty()
    } else {
        let items = turns[t].items@;
        let before = item_entries(turns, t, k - 1);
        match items[k - 1] {
            ThreadItem::UserMessage { content, .. } => if reviewing(
                items,
                k - 1,
                reviewing_at(turns, t),
            ) || hidden_at(turns, t) || shows_nothing(content.display) {
                before
            } else {
                before.push(
                    RollbackEntry::PersistedPrompt { turn_index: t as usize, content: &content },
                )
            },
            _ => before,
        }
    }
}

/// The entries of turn `t`: the user messages that the transcript shows, or the turn itself
/// where it holds no user message.
pub open spec fn turn_entries(turns: Seq<Turn>, t: int) -> Seq<RollbackEntry<'static>> {
    if user_contents(turns[t].items@).len() == 0 {
        seq![RollbackEntry::UnpersistedPrompt { turn_index: t as usize }]
    } else {
        item_entries(turns, t, turns[t].items@.len() as int)
    }
}

/// The entries of the first `t` turns.
pub open spec fn entries_of(turns: Seq<Turn>, t: int) -> Seq<RollbackEntry<'static>>
    decreases t,
{
    if t <= 0 {
        Seq::empty()
    } else {
        entries_of(turns, t - 1) + turn_entries(turns, t - 1)
    }
}

proof fn lemma_no_user_entries(turns: Seq<Turn>, t: int, k: int)
    requires
        0 <= k <= turns[t].items@.len(),
        user_contents(turns[t].items@.take(k)).len() == 0,
    ensures
        item_entries(turns, t, k) == Seq::<RollbackEntry<'static>>::empty(),
    decreases k,
{
    if k > 0 {
        lemma_contents_push(turns[t].items@, k - 1);
        lemma_no_user_entries(turns, t, k - 1);
    }
}

/// The places in the persisted turns that can stand for a prompt of the transcript.
pub fn rollback_entries<'a>(turns: &'a Vec<Turn>) -> (entries: Vec<RollbackEntry<'a>>)
    ensures
        entries@ == entries_of(turns@, turns@.len() as int),
{
    let mut entries: Vec<RollbackEntry<'a>> = Vec::new();
    let mut review_mode = false;
    let mut t: usize = 0;
    while t < turns.len()
        invariant
            t <= turns@.len(),
            review_mode == reviewing_at(turns@, t as int),
            entries@ == entries_of(turns@, t as int),
        decreases turns@.len() - t,
    {
        let turn = &turns[t];
        let hidden = t > 0 && is_hidden_nested_review_turn(&turns[t - 1], turn);
        let mut has_user_message = false;
        let mut k: usize = 0;
        let ghost on = review_mode;
        assert(turn.items@.take(0) =~= Seq::empty());
        while k < turn.items.len()
            invariant
                t < turns@.len(),
                *turn == turns@[t as int],
                hidden == hidden_at(turns@, t as int),
                k <= turn.items@.len(),
                on == reviewing_at(turns@, t as int),
                review_mode == reviewing(turn.items@, k as int, on),
                has_user_message == (user_contents(turn.items@.take(k as int)).len() > 0),
                entries@ == entries_of(turns@, t as int) + item_entries(
                    turns@,
                    t as int,
                    k as int,
                ),
            decreases turn.items@.len() - k,
        {
            proof {
                lemma_contents_push(turn.items@, k as int);
            }
            match &turn.items[k] {
                ThreadItem::EnteredReviewMode { .. } => {
                    review_mode = true;
                },
                ThreadItem::ExitedReviewMode { .. } => {
                    review_mode = false;
                },
                ThreadItem::UserMessage { content, .. } => {
                    has_user_message = true;
                    let display = &content.display;
                    let empty = is_blank(display.message.as_str())
                        && display.text_elements.len() == 0 && display.local_images.len() == 0
                        && display.remote_image_urls.len() == 0;
                    if !(review_mode || hidden || empty) {
                        entries.push(RollbackEntry::PersistedPrompt { turn_index: t, content });
                    }
                },
                _ => {},
            }
            k += 1;
        }
        assert(turn.items@.take(k as int) =~= turn.items@);
        if !has_user_message {
            proof {
                lemma_no_user_entries(turns@, t as int, k as int);
            }
            entries.push(RollbackEntry::UnpersistedPrompt { turn_index: t });
        }
        t += 1;
    }
    entries
}


/// Whether two prompts are the same but for their mention bindings.
pub open spec fn same_prompt(a: UserMessage, b: UserMessage) -> bool {
    &&& a.text@ == b.text@
    &&& a.text_elements.deep_view() == b.text_elements.deep_view()
    &&& a.local_images.deep_view() == b.local_images.deep_view()
    &&& a.remote_image_urls.deep_view() == b.remote_image_urls.deep_view()
}

/// Whether two prompts are the same but for their mention bindings.
pub fn prompts_match(left: &UserMessage, right: &UserMessage) -> (r: bool)
    ensures
        r == same_prompt(*left, *right),
{
    left.text == right.text && left.text_elements.same(&right.text_elements)
        && left.local_images.same(&right.local_images) && left.remote_image_urls.same(
        &right.remote_image_urls,
    )
}

/// How many user messages the turns from `from` on hold.
pub open spec fn user_messages_from(turns: Seq<Turn>, from: int) -> nat
    decreases turns.len() - from,
{
    if from < 0 || from >= turns.len() {
        0
    } else {
        user_contents(turns[from].items@).len() + user_messages_from(turns, from + 1)
    }
}

/// The ids of the turns from `from` on.
pub open spec fn turn_ids_from(turns: Seq<Turn>, from: int) -> Seq<Seq<char>> {
    turns.subrange(from, turns.len() as int).map_values(|turn: Turn| turn.id@)
}

/// The best alignment of the prompts with the turns, where there is one.
pub open spec fn alignment_of(turns: Seq<Turn>, prompts: Seq<UserMessage>) -> Option<Seq<usize>> {
    let entries = entries_of(turns, turns.len() as int);
    if exists|a: Seq<usize>| alignment::aligned(prompts, entries, a) {
        Some(choose|a: Seq<usize>| alignment::best_aligned(prompts, entries, a))
    } else {
        None
    }
}

/// The entry that stands for prompt number `selected`.
pub open spec fn entry_for(turns: Seq<Turn>, prompts: Seq<UserMessage>, selected: int) -> Option<
    RollbackEntry<'static>,
> {
    match alignment_of(turns, prompts) {
        Some(alignment) => Some(
            entries_of(turns, turns.len() as int)[alignment[selected] as int],
        ),
        None => None,
    }
}

/// What a rollback to a prompt comes to: the turn that it begins with, or why there is none.
pub open spec fn rollback_turn(
    turns: Seq<Turn>,
    prompts: Seq<UserMessage>,
    newer_user_messages: int,
    prompt: UserMessage,
) -> Result<int, RollbackTargetError> {
    let selected = prompts.len() - 1 - newer_user_messages;
    if selected < 0 {
        Err(RollbackTargetError::NotFound)
    } else if !same_prompt(prompts[selected], prompt) {
        Err(RollbackTargetError::Stale)
    } else {
        match entry_for(turns, prompts, selected) {
            None => Err(RollbackTargetError::Stale),
            Some(entry) => if turns[entry.turn() as int].status == TurnStatus::InProgress {
                Err(RollbackTargetError::InProgress)
            } else {
                Ok(entry.turn() as int)
            },
        }
    }
}

/// Whether a prompt got the mention bindings of the persisted message that stands for it; where
/// none does, it stays as it is.
pub open spec fn bound_prompt(
    turns: Seq<Turn>,
    prompts: Seq<UserMessage>,
    newer_user_messages: int,
    before: UserMessage,
    after: UserMessage,
) -> bool {
    match entry_for(turns, prompts, prompts.len() - 1 - newer_user_messages) {
        Some(RollbackEntry::PersistedPrompt { content, .. }) => after.deep_view() == (
        crate::thread::UserMessageModel {
            mention_bindings: content.mention_bindings.deep_view(),
            ..before.deep_view()
        }),
        _ => after == before,
    }
}

proof fn lemma_item_entry_turns(turns: Seq<Turn>, t: int, k: int)
    requires
        0 <= t <= usize::MAX,
    ensures
        forall|e: int|
            0 <= e < item_entries(turns, t, k).len() ==> (#[trigger] item_entries(
                turns,
                t,
                k,
            )[e]).turn() == t,
    decreases k,
{
    if k > 0 {
        lemma_item_entry_turns(turns, t, k - 1);
        let before = item_entries(turns, t, k - 1);
        assert forall|e: int| 0 <= e < item_entries(turns, t, k).len() implies (
        #[trigger] item_entries(turns, t, k)[e]).turn() == t by {
            if e < before.len() {
                assert(item_entries(turns, t, k)[e] == before[e]);
            }
        }
    }
}

/// Every entry belongs to a turn.
proof fn lemma_entry_turns(turns: Seq<Turn>, t: int)
    requires
        0 <= t <= turns.len() <= usize::MAX,
    ensures
        forall|e: int|
            0 <= e < entries_of(turns, t).len() ==> (#[trigger] entries_of(turns, t)[e]).turn()
                < t,
    decreases t,
{
    if t > 0 {
        lemma_entry_turns(turns, t - 1);
        lemma_item_entry_turns(turns, t - 1, turns[t - 1].items@.len() as int);
        let before = entries_of(turns, t - 1);
        let now = turn_entries(turns, t - 1);
        assert forall|e: int| 0 <= e < entries_of(turns, t).len() implies (#[trigger] entries_of(
            turns,
            t,
        )[e]).turn() < t by {
            if e < before.len() {
                assert(entries_of(turns, t)[e] == before[e]);
            } else {
                assert(entries_of(turns, t)[e] == now[e - before.len()]);
            }
        }
    }
}

/// How many user messages the items hold, up to `limit`.
fn count_user_messages(items: &Vec<ThreadItem>, already: u64, limit: u64) -> (r: u64)
    requires
        already <= limit < u64::MAX,
    ensures
        r == (if already + user_contents(items@).len() <= limit {
            already + user_contents(items@).len()
        } else {
            limit + 1
        }),
{
    let mut count: u64 = already;
    let mut k: usize = 0;
    assert(items@.take(0) =~= Seq::empty());
    while k < items.len()
        invariant
            k <= items@.len(),
            already <= limit < u64::MAX,
            count == (if already + user_contents(items@.take(k as int)).len() <= limit {
                already + user_contents(items@.take(k as int)).len()
            } else {
                limit + 1
            }),
        decreases items@.len() - k,
    {
        proof {
            lemma_contents_push(items@, k as int);
        }
        match &items[k] {
            ThreadItem::UserMessage { .. } => {
                if count <= limit {
                    count = count + 1;
                }
            },
            _ => {},
        }
        k += 1;
    }
    assert(items@.take(k as int) =~= items@);
    count
}

/// Whether a target, or the refusal to name one, is that for a prompt, and what became of the
/// prompt: it takes the mentions of the persisted prompt where it stands for one.
pub open spec fn targeted(
    turns: Seq<Turn>,
    prompts: Seq<UserMessage>,
    newer_user_messages: int,
    before: UserMessage,
    after: UserMessage,
    r: Result<BacktrackRollbackTarget, RollbackTargetError>,
) -> bool {
    match rollback_turn(turns, prompts, newer_user_messages, before) {
        Err(error) => r == Err::<BacktrackRollbackTarget, RollbackTargetError>(error) && after
            == before,
        Ok(t) => {
            &&& bound_prompt(turns, prompts, newer_user_messages, before, after)
            &&& match r {
                Ok(target) => {
                    &&& user_messages_from(turns, t) == target.legacy_num_turns
                    &&& target.before_turn_id@ == turns[t].id@
                    &&& target.removed_turn_ids.deep_view() == turn_ids_from(turns, t)
                },
                Err(error) => error == RollbackTargetError::TooManyTurns && user_messages_from(
                    turns,
                    t,
                ) > u32::MAX,
            }
        },
    }
}

/// Finds the persisted turn at which a prompt of the transcript begins, and what goes when the
/// thread is rolled back there.
///
/// A hook can stop a turn before its user message is persisted, so a turn without a user message
/// is an optional slot for a prompt. Where the prompt was persisted, it gets the mention bindings
/// of the persisted message.
pub fn backtrack_rollback_target(
    turns: &Vec<Turn>,
    transcript_prompts: &Vec<UserMessage>,
    newer_user_messages: usize,
    prompt: &mut UserMessage,
) -> (r: Result<BacktrackRollbackTarget, RollbackTargetError>)
    ensures
        targeted(
            turns@,
            transcript_prompts@,
            newer_user_messages as int,
            *old(prompt),
            *final(prompt),
            r,
        ),
{
    let count: usize = transcript_prompts.len();
    if newer_user_messages >= count {
        return Err(RollbackTargetError::NotFound);
    }
    let selected: usize = count - 1 - newer_user_messages;
    if !prompts_match(&transcript_prompts[selected], prompt) {
        return Err(RollbackTargetError::Stale);
    }
    let entries = rollback_entries(turns);
    let alignment = match align_transcript_prompts(transcript_prompts, &entries) {
        Some(alignment) => alignment,
        None => {
            return Err(RollbackTargetError::Stale);
        },
    };
    proof {
        let chosen = choose|a: Seq<usize>| alignment::best_aligned(transcript_prompts@, entries@, a);
        assert(alignment::best_aligned(transcript_prompts@, entries@, alignment@));
        alignment::best_alignment_is_unique(transcript_prompts@, entries@, alignment@, chosen);
        assert(alignment::aligned(transcript_prompts@, entries@, alignment@));
        let turn_count: usize = turns.len();
        lemma_entry_turns(turns@, turns@.len() as int);
    }
    let entry = entries[alignment[selected]];
    let turn_index: usize = entry.turn_index();
    assert(entry_for(turns@, transcript_prompts@, selected as int) == Some(entry));
    if turns[turn_index].status == TurnStatus::InProgress {
        return Err(RollbackTargetError::InProgress);
    }
    if let RollbackEntry::PersistedPrompt { content, .. } = entry {
        prompt.mention_bindings = content.mention_bindings.duplicate();
    }
    let limit: u64 = u32::MAX as u64;
    let mut messages: u64 = 0;
    let mut t: usize = turns.len();
    let mut removed: Vec<String> = Vec::new();
    while t > turn_index
        invariant
            turn_index <= t <= turns@.len(),
            limit == u32::MAX,
            messages <= limit + 1,
            messages == (if user_messages_from(turns@, t as int) <= limit {
                user_messages_from(turns@, t as int) as int
            } else {
                limit + 1
            }),
        decreases t,
    {
        t -= 1;
        if messages <= limit {
            messages = count_user_messages(&turns[t].items, messages, limit);
        }
    }
    while t < turns.len()
        invariant
            turn_index <= t <= turns@.len(),
            removed@.len() == t - turn_index,
            forall|k: int|
                0 <= k < removed@.len() ==> (#[trigger] removed@[k])@ == turns@[turn_index
                    + k].id@,
        decreases turns@.len() - t,
    {
        removed.push(turns[t].id.clone());
        t += 1;
    }
    if messages > limit {
        return Err(RollbackTargetError::TooManyTurns);
    }
    assert(removed.deep_view() =~= turn_ids_from(turns@, turn_index as int));
    Ok(
        BacktrackRollbackTarget {
            before_turn_id: turns[turn_index].id.clone(),
            legacy_num_turns: messages as u32,
            removed_turn_ids: removed,
        },
    )
}

/// What a rollback removes begins with the turn that it names, and is the end of the thread.
pub proof fn removed_turns_are_the_end(turns: Seq<Turn>, t: int)
    requires
        0 <= t < turns.len(),
    ensures
        turn_ids_from(turns, t).len() == turns.len() - t,
        turn_ids_from(turns, t)[0] == turns[t].id@,
        forall|k: int|
            0 <= k < turns.len() - t ==> (#[trigger] turn_ids_from(turns, t)[k]) == turns[t
                + k].id@,
{
}

/// The rollback to an earlier prompt of the transcript begins no later than that to a newer
/// one.
pub proof fn earlier_prompts_roll_back_further(
    turns: Seq<Turn>,
    prompts: Seq<UserMessage>,
    newer: int,
    fewer: int,
)
    requires
        turns.len() <= usize::MAX,
        0 <= fewer <= newer < prompts.len(),
        rollback_turn(turns, prompts, newer, prompts[prompts.len() - 1 - newer]) is Ok,
        rollback_turn(turns, prompts, fewer, prompts[prompts.len() - 1 - fewer]) is Ok,
        entries_of(turns, turns.len() as int).len() <= usize::MAX,
    ensures
        rollback_turn(turns, prompts, newer, prompts[prompts.len() - 1 - newer])->Ok_0
            <= rollback_turn(turns, prompts, fewer, prompts[prompts.len() - 1 - fewer])->Ok_0,
{
    let entries = entries_of(turns, turns.len() as int);
    let other = choose|a: Seq<usize>| alignment::aligned(prompts, entries, a);
    alignment::aligned_prompts_have_a_best_alignment(prompts, entries, other);
    let a = alignment_of(turns, prompts)->0;
    assert(alignment::best_aligned(prompts, entries, a));
    let i = prompts.len() - 1 - newer;
    let j = prompts.len() - 1 - fewer;
    if i < j {
        alignment::alignment_keeps_order(prompts, entries, a, i, j);
    }
    lemma_entries_ordered(turns, turns.len() as int, a[i] as int, a[j] as int);
}

/// The entries stand in the order of their turns.
proof fn lemma_entries_ordered(turns: Seq<Turn>, t: int, d: int, e: int)
    requires
        0 <= t <= turns.len() <= usize::MAX,
        0 <= d <= e < entries_of(turns, t).len(),
    ensures
        entries_of(turns, t)[d].turn() <= entries_of(turns, t)[e].turn(),
    decreases t,
{
    if t > 0 {
        let before = entries_of(turns, t - 1);
        lemma_entry_turns(turns, t - 1);
        lemma_item_entry_turns(turns, t - 1, turns[t - 1].items@.len() as int);
        if e < before.len() {
            lemma_entries_ordered(turns, t - 1, d, e);
        } else {
            assert(entries_of(turns, t)[e] == turn_entries(turns, t - 1)[e - before.len()]);
            if d < before.len() {
                assert(entries_of(turns, t)[d] == before[d]);
            } else {
                assert(entries_of(turns, t)[d] == turn_entries(turns, t - 1)[d - before.len()]);
            }
        }
    }
}

/// Whether no item of the turns enters or leaves review mode.
pub open spec fn without_reviews(turns: Seq<Turn>) -> bool {
    forall|t: int, k: int|
        0 <= t < turns.len() && 0 <= k < turns[t].items@.len() ==> !((
        #[trigger] turns[t].items@[k]) is EnteredReviewMode) && !(
        turns[t].items@[k] is ExitedReviewMode)
}

proof fn lemma_never_reviewing(turns: Seq<Turn>, t: int, k: int)
    requires
        without_reviews(turns),
        0 <= t < turns.len(),
        0 <= k <= turns[t].items@.len(),
    ensures
        !reviewing(turns[t].items@, k, reviewing_at(turns, t)),
        !reviewing_at(turns, t),
        !hidden_at(turns, t),
    decreases t, k,
{
    if k > 0 {
        lemma_never_reviewing(turns, t, k - 1);
        let item = turns[t].items@[k - 1];
        assert(!(item is EnteredReviewMode));
    } else if t > 0 {
        lemma_never_reviewing(turns, t - 1, turns[t - 1].items@.len() as int);
    }
    if t > 0 {
        assert forall|i: int| 0 <= i < turns[t - 1].items@.len() implies !((
        #[trigger] turns[t - 1].items@[i]) is EnteredReviewMode) by {}
    }
}

proof fn lemma_no_messages(items: Seq<ThreadItem>)
    requires
        forall|k: int| 0 <= k < items.len() ==> !((#[trigger] items[k]) is UserMessage),
    ensures
        user_contents(items).len() == 0,
    decreases items.len(),
{
    if items.len() > 0 {
        assert(!(items[items.len() - 1] is UserMessage));
        lemma_no_messages(items.drop_last());
    }
}

proof fn lemma_one_message(items: Seq<ThreadItem>, at: int)
    requires
        0 <= at < items.len(),
        items[at] is UserMessage,
        forall|k: int|
            0 <= k < items.len() && k != at ==> !((#[trigger] items[k]) is UserMessage),
    ensures
        user_contents(items) == seq![items[at]->UserMessage_content],
    decreases items.len(),
{
    if at < items.len() - 1 {
        assert(!(items[items.len() - 1] is UserMessage));
        lemma_one_message(items.drop_last(), at);
    } else {
        lemma_no_messages(items.drop_last());
    }
}

proof fn lemma_one_item_entry(turns: Seq<Turn>, t: int, at: int, k: int)
    requires
        without_reviews(turns),
        0 <= t < turns.len() <= usize::MAX,
        0 <= at < turns[t].items@.len(),
        turns[t].items@[at] is UserMessage,
        !shows_nothing(turns[t].items@[at]->UserMessage_content.display),
        forall|i: int|
            0 <= i < turns[t].items@.len() && i != at ==> !((
            #[trigger] turns[t].items@[i]) is UserMessage),
        0 <= k <= turns[t].items@.len(),
    ensures
        item_entries(turns, t, k) == (if k <= at {
            Seq::empty()
        } else {
            seq![
                RollbackEntry::PersistedPrompt {
                    turn_index: t as usize,
                    content: &turns[t].items@[at]->UserMessage_content,
                },
            ]
        }),
    decreases k,
{
    if k > 0 {
        lemma_one_item_entry(turns, t, at, k - 1);
        lemma_never_reviewing(turns, t, k - 1);
        if k - 1 == at {
            assert(Seq::<RollbackEntry<'static>>::empty().push(
                RollbackEntry::PersistedPrompt {
                    turn_index: t as usize,
                    content: &turns[t].items@[at]->UserMessage_content,
                },
            ) =~= seq![
                RollbackEntry::PersistedPrompt {
                    turn_index: t as usize,
                    content: &turns[t].items@[at]->UserMessage_content,
                },
            ]);
        } else {
            assert(!(turns[t].items@[k - 1] is UserMessage));
        }
    }
}

/// Whether the persisted user messages are those of the places given: in turn `sources[i]` the
/// item `at[i]`, and no other.
pub open spec fn messages_stand_at(turns: Seq<Turn>, sources: Seq<int>, at: Seq<int>) -> bool {
    &&& sources.len() == at.len()
    &&& forall|i: int, j: int| 0 <= i < j < sources.len() ==> sources[i] < sources[j]
    &&& forall|i: int|
        0 <= i < sources.len() ==> {
            &&& 0 <= #[trigger] sources[i] < turns.len()
            &&& 0 <= at[i] < turns[sources[i]].items@.len()
            &&& turns[sources[i]].items@[at[i]] is UserMessage
        }
    &&& forall|t: int, k: int|
        0 <= t < turns.len() && 0 <= k < turns[t].items@.len() && (
        #[trigger] turns[t].items@[k]) is UserMessage ==> exists|i: int|
            0 <= i < sources.len() && #[trigger] sources[i] == t && at[i] == k
}

/// The content of the user message at a place.
pub open spec fn message_at(turns: Seq<Turn>, t: int, k: int) -> PromptContent {
    turns[t].items@[k]->UserMessage_content
}

proof fn lemma_source_contents(turns: Seq<Turn>, sources: Seq<int>, at: Seq<int>, i: int)
    requires
        messages_stand_at(turns, sources, at),
        0 <= i < sources.len(),
    ensures
        user_contents(turns[sources[i]].items@) == seq![message_at(turns, sources[i], at[i])],
        forall|k: int|
            0 <= k < turns[sources[i]].items@.len() && k != at[i] ==> !((
            #[trigger] turns[sources[i]].items@[k]) is UserMessage),
{
    let t = sources[i];
    assert forall|k: int| 0 <= k < turns[t].items@.len() && k != at[i] implies !((
    #[trigger] turns[t].items@[k]) is UserMessage) by {
        if turns[t].items@[k] is UserMessage {
            let j = choose|j: int| 0 <= j < sources.len() && #[trigger] sources[j] == t && at[j] == k;
            assert(j != i);
            if j < i {
                assert(sources[j] < sources[i]);
            } else {
                assert(sources[i] < sources[j]);
            }
        }
    }
    lemma_one_message(turns[t].items@, at[i]);
}

proof fn lemma_other_contents(turns: Seq<Turn>, sources: Seq<int>, at: Seq<int>, t: int)
    requires
        messages_stand_at(turns, sources, at),
        0 <= t < turns.len(),
        forall|i: int| 0 <= i < sources.len() ==> #[trigger] sources[i] != t,
    ensures
        user_contents(turns[t].items@).len() == 0,
{
    assert forall|k: int| 0 <= k < turns[t].items@.len() implies !((
    #[trigger] turns[t].items@[k]) is UserMessage) by {
        if turns[t].items@[k] is UserMessage {
            let j = choose|j: int| 0 <= j < sources.len() && #[trigger] sources[j] == t && at[j] == k;
            assert(sources[j] == t);
        }
    }
    lemma_no_messages(turns[t].items@);
}

/// Each turn has one entry: its message where it has one.
proof fn lemma_entries_stand_at(turns: Seq<Turn>, sources: Seq<int>, at: Seq<int>, t: int)
    requires
        without_reviews(turns),
        messages_stand_at(turns, sources, at),
        forall|i: int|
            0 <= i < sources.len() ==> !shows_nothing(
                message_at(turns, #[trigger] sources[i], at[i]).display,
            ),
        0 <= t <= turns.len() <= usize::MAX,
    ensures
        entries_of(turns, t).len() == t,
        forall|u: int|
            0 <= u < t ==> (#[trigger] entries_of(turns, t)[u]).turn() == u && (entries_of(
                turns,
                t,
            )[u] is PersistedPrompt <==> exists|i: int|
                0 <= i < sources.len() && #[trigger] sources[i] == u),
        forall|i: int|
            0 <= i < sources.len() && (#[trigger] sources[i]) < t ==> entries_of(
                turns,
                t,
            )[sources[i]] == (RollbackEntry::PersistedPrompt {
                turn_index: sources[i] as usize,
                content: &message_at(turns, sources[i], at[i]),
            }),
    decreases t,
{
    if t > 0 {
        let u = t - 1;
        lemma_entries_stand_at(turns, sources, at, u);
        let before = entries_of(turns, u);
        let all = entries_of(turns, t);
        if exists|i: int| 0 <= i < sources.len() && #[trigger] sources[i] == u {
            let i = choose|i: int| 0 <= i < sources.len() && #[trigger] sources[i] == u;
            lemma_source_contents(turns, sources, at, i);
            lemma_one_item_entry(turns, u, at[i], turns[u].items@.len() as int);
            assert(all =~= before.push(
                RollbackEntry::PersistedPrompt {
                    turn_index: u as usize,
                    content: &message_at(turns, u, at[i]),
                },
            ));
            assert forall|j: int| 0 <= j < sources.len() && (#[trigger] sources[j]) < t implies all[
            sources[j]] == (RollbackEntry::PersistedPrompt {
                turn_index: sources[j] as usize,
                content: &message_at(turns, sources[j], at[j]),
            }) by {
                if sources[j] == u {
                    if j < i {
                        assert(sources[j] < sources[i]);
                    } else if i < j {
                        assert(sources[i] < sources[j]);
                    }
                } else {
                    assert(all[sources[j]] == before[sources[j]]);
                }
            }
        } else {
            lemma_other_contents(turns, sources, at, u);
            assert(all =~= before.push(RollbackEntry::UnpersistedPrompt { turn_index: u as usize }));
        }
        assert forall|v: int| 0 <= v < t implies (#[trigger] all[v]).turn() == v && (
        all[v] is PersistedPrompt <==> exists|i: int|
            0 <= i < sources.len() && #[trigger] sources[i] == v) by {
            if v < u {
                assert(all[v] == before[v]);
            }
        }
    }
}

/// As many messages stand in the turns from one on as places from there on were given.
proof fn lemma_messages_from(turns: Seq<Turn>, sources: Seq<int>, at: Seq<int>, t: int, j: int)
    requires
        messages_stand_at(turns, sources, at),
        0 <= t <= turns.len(),
        0 <= j <= sources.len(),
        j < sources.len() ==> sources[j] >= t,
        j > 0 ==> sources[j - 1] < t,
    ensures
        user_messages_from(turns, t) == sources.len() - j,
    decreases turns.len() - t,
{
    if t < turns.len() {
        if j < sources.len() && sources[j] == t {
            lemma_source_contents(turns, sources, at, j);
            if j + 1 < sources.len() {
                assert(sources[j] < sources[j + 1]);
            }
            lemma_messages_from(turns, sources, at, t + 1, j + 1);
        } else {
            assert forall|i: int| 0 <= i < sources.len() implies #[trigger] sources[i] != t by {
                if i < j {
                    if i < j - 1 {
                        assert(sources[i] < sources[j - 1]);
                    }
                } else if i > j {
                    assert(sources[j] < sources[i]);
                }
            }
            lemma_other_contents(turns, sources, at, t);
            lemma_messages_from(turns, sources, at, t + 1, j);
        }
    } else if j < sources.len() {
        assert(sources[j] < turns.len());
    }
}

proof fn lemma_all_exact(entries: Seq<RollbackEntry>, a: Seq<usize>)
    ensures
        alignment::exact_matches(entries, a) <= a.len(),
        alignment::exact_matches(entries, a) == a.len() <==> forall|i: int|
            0 <= i < a.len() ==> entries[#[trigger] a[i] as int] is PersistedPrompt,
    decreases a.len(),
{
    if a.len() > 0 {
        let front = a.drop_last();
        lemma_all_exact(entries, front);
        if alignment::exact_matches(entries, a) == a.len() {
            assert forall|i: int| 0 <= i < a.len() implies entries[#[trigger] a[
            i] as int] is PersistedPrompt by {
                if i < a.len() - 1 {
                    assert(front[i] == a[i]);
                }
            }
        }
        if forall|i: int| 0 <= i < a.len() ==> entries[#[trigger] a[i] as int] is PersistedPrompt {
            assert forall|i: int| 0 <= i < front.len() implies entries[#[trigger] front[
            i] as int] is PersistedPrompt by {
                assert(front[i] == a[i]);
            }
            assert(entries[a[a.len() - 1] as int] is PersistedPrompt);
        }
    }
}

proof fn lemma_not_earlier(a: Seq<usize>, sources: Seq<int>, i: int, k: int)
    requires
        a.len() == sources.len(),
        forall|x: int, y: int| 0 <= x < y < a.len() ==> a[x] < a[y],
        forall|x: int, y: int| 0 <= x < y < sources.len() ==> sources[x] < sources[y],
        forall|x: int| 0 <= x < a.len() ==> sources.contains((#[trigger] a[x]) as int),
        0 <= i < a.len(),
        0 <= k < sources.len(),
        sources[k] == a[i],
    ensures
        k >= i,
    decreases i,
{
    if i > 0 {
        assert(sources.contains(a[i - 1] as int));
        let l = choose|l: int| 0 <= l < sources.len() && sources[l] == a[i - 1] as int;
        lemma_not_earlier(a, sources, i - 1, l);
        assert(a[i - 1] < a[i]);
        if k < l {
            assert(sources[k] < sources[l]);
        }
    }
}

proof fn lemma_not_later(a: Seq<usize>, sources: Seq<int>, i: int, k: int)
    requires
        a.len() == sources.len(),
        forall|x: int, y: int| 0 <= x < y < a.len() ==> a[x] < a[y],
        forall|x: int, y: int| 0 <= x < y < sources.len() ==> sources[x] < sources[y],
        forall|x: int| 0 <= x < a.len() ==> sources.contains((#[trigger] a[x]) as int),
        0 <= i < a.len(),
        0 <= k < sources.len(),
        sources[k] == a[i],
    ensures
        k <= i,
    decreases a.len() - i,
{
    if i < a.len() - 1 {
        assert(sources.contains(a[i + 1] as int));
        let l = choose|l: int| 0 <= l < sources.len() && sources[l] == a[i + 1] as int;
        lemma_not_later(a, sources, i + 1, l);
        assert(a[i] < a[i + 1]);
        if l < k {
            assert(sources[l] < sources[k]);
        }
    }
}

/// Where each prompt of the transcript was made from a persisted message, and every persisted
/// message has its prompt, the alignment gives each prompt the turn of its own message.
proof fn lemma_own_turns(
    turns: Seq<Turn>,
    prompts: Seq<UserMessage>,
    sources: Seq<int>,
    at: Seq<int>,
)
    requires
        turns.len() <= usize::MAX,
        without_reviews(turns),
        messages_stand_at(turns, sources, at),
        forall|i: int|
            0 <= i < sources.len() ==> !shows_nothing(
                message_at(turns, #[trigger] sources[i], at[i]).display,
            ),
        prompts.len() == sources.len(),
        forall|i: int|
            0 <= i < prompts.len() ==> alignment::prompt_shows(
                #[trigger] prompts[i],
                message_at(turns, sources[i], at[i]).display,
            ),
    ensures
        alignment_of(turns, prompts) matches Some(a) && a.len() == sources.len() && forall|i: int|
            0 <= i < sources.len() ==> (#[trigger] a[i]) == sources[i],
{
    let n = turns.len() as int;
    let entries = entries_of(turns, n);
    lemma_entries_stand_at(turns, sources, at, n);
    let own = Seq::new(sources.len(), |i: int| sources[i] as usize);
    assert(alignment::aligned(prompts, entries, own)) by {
        assert forall|i: int| 0 <= i < own.len() implies (#[trigger] own[i]) < entries.len()
            && alignment::fits(prompts[i], entries[own[i] as int]) by {
            let t = sources[i];
            assert(entries[t] == (RollbackEntry::PersistedPrompt {
                turn_index: t as usize,
                content: &message_at(turns, t, at[i]),
            }));
        }
        assert forall|i: int, j: int, k: int|
            0 <= i && j == i + 1 && j < own.len() && (#[trigger] own[i]) < k < (
            #[trigger] own[j]) implies (#[trigger] entries[k]) is UnpersistedPrompt by {
            assert(entries[k].turn() == k);
            if entries[k] is PersistedPrompt {
                let l = choose|l: int| 0 <= l < sources.len() && #[trigger] sources[l] == k;
                if l < i {
                    assert(sources[l] < sources[i]);
                }
                if l > j {
                    assert(sources[j] < sources[l]);
                }
            }
        }
    }
    alignment::aligned_prompts_have_a_best_alignment(prompts, entries, own);
    let a = alignment_of(turns, prompts)->0;
    assert(alignment::best_aligned(prompts, entries, a));
    lemma_all_exact(entries, own);
    lemma_all_exact(entries, a);
    assert forall|i: int| 0 <= i < own.len() implies entries[#[trigger] own[
    i] as int] is PersistedPrompt by {
        assert(entries[sources[i]] is PersistedPrompt);
    }
    assert(alignment::score_le(
        alignment::score(entries, own),
        alignment::score(entries, a),
    ));
    assert forall|x: int| 0 <= x < a.len() implies sources.contains((#[trigger] a[x]) as int) by {
        let u = a[x] as int;
        assert(entries[u] is PersistedPrompt);
        assert(entries[u].turn() == u);
        let l = choose|l: int| 0 <= l < sources.len() && #[trigger] sources[l] == u;
        assert(sources[l] == u);
    }
    assert forall|x: int, y: int| 0 <= x < y < a.len() implies a[x] < a[y] by {
        alignment::alignment_keeps_order(prompts, entries, a, x, y);
    }
    assert forall|i: int| 0 <= i < sources.len() implies (#[trigger] a[i]) == sources[i] by {
        assert(sources.contains(a[i] as int));
        let k = choose|k: int| 0 <= k < sources.len() && sources[k] == a[i] as int;
        lemma_not_earlier(a, sources, i, k);
        lemma_not_later(a, sources, i, k);
    }
}

/// Going back to a prompt goes back to the turn of its own message, unless that turn is still in
/// progress. Where each prompt of the
/// transcript has the text, the text elements, the remote images and the image files of the
/// persisted message that it was made from, and every persisted message that is shown has its
/// prompt, the rollback begins with the turn of that message. It removes that turn and all later
/// ones, as many user messages as prompts go, and the prompt keeps everything but its mentions,
/// which are those of the message.
pub proof fn prompts_go_back_to_their_own_turn(
    turns: Seq<Turn>,
    prompts: Seq<UserMessage>,
    sources: Seq<int>,
    at: Seq<int>,
    selected: int,
    after: UserMessage,
    r: Result<BacktrackRollbackTarget, RollbackTargetError>,
)
    requires
        turns.len() <= usize::MAX,
        without_reviews(turns),
        messages_stand_at(turns, sources, at),
        forall|i: int|
            0 <= i < sources.len() ==> {
                let display = message_at(turns, #[trigger] sources[i], at[i]).display;
                display.text_elements@.len() > 0 || display.local_images@.len() > 0
                    || display.remote_image_urls@.len() > 0 || !crate::text::blank(
                    display.message@,
                )
            },
        prompts.len() == sources.len(),
        prompts.len() <= u32::MAX,
        forall|i: int|
            0 <= i < prompts.len() ==> {
                let display = message_at(turns, sources[i], at[i]).display;
                &&& (#[trigger] prompts[i]).text@ == display.message@
                &&& prompts[i].text_elements.deep_view() == display.text_elements.deep_view()
                &&& prompts[i].remote_image_urls.deep_view()
                    == display.remote_image_urls.deep_view()
                &&& prompts[i].local_images@.len() == display.local_images@.len()
                &&& forall|k: int|
                    0 <= k < display.local_images@.len() ==> (
                    #[trigger] prompts[i].local_images@[k]).path@ == display.local_images@[k]@
            },
        0 <= selected < prompts.len(),
    ensures
        rollback_turn(turns, prompts, prompts.len() - 1 - selected, prompts[selected]) == (
        if turns[sources[selected]].status == TurnStatus::InProgress {
            Err(RollbackTargetError::InProgress)
        } else {
            Ok::<int, RollbackTargetError>(sources[selected])
        }),
        turns[sources[selected]].status == TurnStatus::InProgress && targeted(
            turns,
            prompts,
            prompts.len() - 1 - selected,
            prompts[selected],
            after,
            r,
        ) ==> r == Err::<BacktrackRollbackTarget, RollbackTargetError>(
            RollbackTargetError::InProgress,
        ) && after == prompts[selected],
        turns[sources[selected]].status != TurnStatus::InProgress && targeted(
            turns,
            prompts,
            prompts.len() - 1 - selected,
            prompts[selected],
            after,
            r,
        ) ==> {
            let t = sources[selected];
            &&& r matches Ok(target)
            &&& target.before_turn_id@ == turns[t].id@
            &&& target.legacy_num_turns == prompts.len() - selected
            &&& target.removed_turn_ids@.len() == turns.len() - t
            &&& forall|k: int|
                0 <= k < turns.len() - t ==> (#[trigger] target.removed_turn_ids@[k])@ == turns[t
                    + k].id@
            &&& after.text@ == prompts[selected].text@
            &&& after.local_images.deep_view() == prompts[selected].local_images.deep_view()
            &&& after.remote_image_urls.deep_view()
                == prompts[selected].remote_image_urls.deep_view()
            &&& after.text_elements.deep_view() == prompts[selected].text_elements.deep_view()
            &&& after.mention_bindings.deep_view() == message_at(
                turns,
                t,
                at[selected],
            ).mention_bindings.deep_view()
        },
{
    assert forall|i: int| 0 <= i < prompts.len() implies alignment::prompt_shows(
        #[trigger] prompts[i],
        message_at(turns, sources[i], at[i]).display,
    ) by {
        let content = message_at(turns, sources[i], at[i]);
        alignment::prompts_fit_their_own_message(prompts[i], 0, &content);
    }
    lemma_own_turns(turns, prompts, sources, at);
    lemma_entries_stand_at(turns, sources, at, turns.len() as int);
    let t = sources[selected];
    let entry = entries_of(turns, turns.len() as int)[t];
    assert(entry == (RollbackEntry::PersistedPrompt {
        turn_index: t as usize,
        content: &message_at(turns, t, at[selected]),
    }));
    assert(entry_for(turns, prompts, selected) == Some(entry));
    if selected > 0 {
        assert(sources[selected - 1] < sources[selected]);
    }
    lemma_messages_from(turns, sources, at, t, selected);
    if targeted(turns, prompts, prompts.len() - 1 - selected, prompts[selected], after, r) {
        if let Ok(target) = r {
            assert(target.removed_turn_ids.deep_view().len() == target.removed_turn_ids@.len());
            assert forall|k: int| 0 <= k < turns.len() - t implies (
            #[trigger] target.removed_turn_ids@[k])@ == turns[t + k].id@ by {
                assert(target.removed_turn_ids.deep_view()[k] == target.removed_turn_ids@[k]@);
            }
        }
    }
}

/// Where every turn stands for a prompt, be it that it persisted the message or that it persisted
/// none, the rollback to a prompt begins with the turn of the same number.
pub proof fn stopped_prompts_go_back_to_their_turn(
    turns: Seq<Turn>,
    prompts: Seq<UserMessage>,
    sources: Seq<int>,
    at: Seq<int>,
    selected: int,
)
    requires
        turns.len() <= usize::MAX,
        without_reviews(turns),
        messages_stand_at(turns, sources, at),
        forall|i: int|
            0 <= i < sources.len() ==> !crate::text::blank(
                message_at(turns, #[trigger] sources[i], at[i]).display.message@,
            ),
        prompts.len() == turns.len(),
        forall|i: int|
            0 <= i < sources.len() ==> alignment::prompt_shows(
                prompts[#[trigger] sources[i]],
                message_at(turns, sources[i], at[i]).display,
            ),
        0 <= selected < prompts.len(),
        turns[selected].status != TurnStatus::InProgress,
    ensures
        rollback_turn(turns, prompts, prompts.len() - 1 - selected, prompts[selected]) == Ok::<
            int,
            RollbackTargetError,
        >(selected),
{
    let n = turns.len() as int;
    let entries = entries_of(turns, n);
    lemma_entries_stand_at(turns, sources, at, n);
    let own = Seq::new(n as nat, |i: int| i as usize);
    let all = Seq::new(n as nat, |i: int| i);
    assert(alignment::aligned(prompts, entries, own)) by {
        assert forall|i: int| 0 <= i < own.len() implies (#[trigger] own[i]) < entries.len()
            && alignment::fits(prompts[i], entries[own[i] as int]) by {
            assert(entries[i].turn() == i);
            if entries[i] is PersistedPrompt {
                let l = choose|l: int| 0 <= l < sources.len() && #[trigger] sources[l] == i;
                assert(entries[sources[l]] == (RollbackEntry::PersistedPrompt {
                    turn_index: sources[l] as usize,
                    content: &message_at(turns, sources[l], at[l]),
                }));
            }
        }
    }
    alignment::aligned_prompts_have_a_best_alignment(prompts, entries, own);
    let a = alignment_of(turns, prompts)->0;
    assert(alignment::best_aligned(prompts, entries, a));
    assert forall|x: int, y: int| 0 <= x < y < a.len() implies a[x] < a[y] by {
        alignment::alignment_keeps_order(prompts, entries, a, x, y);
    }
    assert forall|x: int| 0 <= x < a.len() implies all.contains((#[trigger] a[x]) as int) by {
        assert(all[a[x] as int] == a[x] as int);
    }
    let k = a[selected] as int;
    lemma_not_earlier(a, all, selected, k);
    lemma_not_later(a, all, selected, k);
    assert(entries[k].turn() == k);
}

/// A prompt that the transcript does not have is refused, and so is one that is not the prompt of
/// the transcript any more: another text, other elements or other images. It stays as it is then.
pub proof fn changed_prompts_are_refused(
    turns: Seq<Turn>,
    prompts: Seq<UserMessage>,
    newer: int,
    prompt: UserMessage,
    after: UserMessage,
    r: Result<BacktrackRollbackTarget, RollbackTargetError>,
)
    requires
        0 <= newer,
        targeted(turns, prompts, newer, prompt, after, r),
    ensures
        r is Err && r->Err_0 == RollbackTargetError::NotFound <==> newer >= prompts.len(),
        newer < prompts.len() && (prompt.text@ != prompts[prompts.len() - 1 - newer].text@
            || prompt.text_elements.deep_view() != prompts[prompts.len() - 1
            - newer].text_elements.deep_view() || prompt.remote_image_urls.deep_view()
            != prompts[prompts.len() - 1 - newer].remote_image_urls.deep_view()
            || prompt.local_images.deep_view() != prompts[prompts.len() - 1
            - newer].local_images.deep_view()) ==> r == Err::<
            BacktrackRollbackTarget,
            RollbackTargetError,
        >(RollbackTargetError::Stale),
        r is Err && r->Err_0 != RollbackTargetError::TooManyTurns ==> after == prompt,
{
}

proof fn lemma_item_entry_contents(turns: Seq<Turn>, t: int, k: int)
    requires
        0 <= k <= turns[t].items@.len(),
    ensures
        forall|e: int|
            0 <= e < item_entries(turns, t, k).len() ==> (match (#[trigger] item_entries(
                turns,
                t,
                k,
            )[e]) {
                RollbackEntry::PersistedPrompt { content, .. } => exists|i: int|
                    0 <= i < turns[t].items@.len() && (
                    #[trigger] turns[t].items@[i]) is UserMessage && message_at(turns, t, i)
                        == *content,
                RollbackEntry::UnpersistedPrompt { .. } => false,
            }),
    decreases k,
{
    if k > 0 {
        lemma_item_entry_contents(turns, t, k - 1);
        let before = item_entries(turns, t, k - 1);
        let all = item_entries(turns, t, k);
        assert forall|e: int| 0 <= e < all.len() implies (match (#[trigger] all[e]) {
            RollbackEntry::PersistedPrompt { content, .. } => exists|i: int|
                0 <= i < turns[t].items@.len() && (#[trigger] turns[t].items@[i]) is UserMessage
                    && message_at(turns, t, i) == *content,
            RollbackEntry::UnpersistedPrompt { .. } => false,
        }) by {
            if e < before.len() {
                assert(all[e] == before[e]);
            } else {
                assert(turns[t].items@[k - 1] is UserMessage);
                assert(message_at(turns, t, k - 1) == message_at(turns, t, k - 1));
            }
        }
    }
}

proof fn lemma_some_message(items: Seq<ThreadItem>, at: int)
    requires
        0 <= at < items.len(),
        items[at] is UserMessage,
    ensures
        user_contents(items).len() > 0,
    decreases items.len(),
{
    if at < items.len() - 1 {
        lemma_some_message(items.drop_last(), at);
    }
}

proof fn lemma_unfitting_entries(turns: Seq<Turn>, prompt: UserMessage, at: Seq<int>, t: int)
    requires
        0 <= t <= turns.len(),
        at.len() == turns.len(),
        forall|u: int|
            0 <= u < turns.len() ==> 0 <= #[trigger] at[u] < turns[u].items@.len()
                && turns[u].items@[at[u]] is UserMessage,
        forall|u: int, k: int|
            0 <= u < turns.len() && 0 <= k < turns[u].items@.len() && (
            #[trigger] turns[u].items@[k]) is UserMessage ==> message_at(
                turns,
                u,
                k,
            ).display.message@ != prompt.text@,
    ensures
        forall|e: int|
            0 <= e < entries_of(turns, t).len() ==> !alignment::fits(
                prompt,
                #[trigger] entries_of(turns, t)[e],
            ),
    decreases t,
{
    if t > 0 {
        let u = t - 1;
        lemma_unfitting_entries(turns, prompt, at, u);
        assert(0 <= at[u] < turns[u].items@.len());
        lemma_some_message(turns[u].items@, at[u]);
        lemma_item_entry_contents(turns, u, turns[u].items@.len() as int);
        let before = entries_of(turns, u);
        let now = turn_entries(turns, u);
        assert forall|e: int| 0 <= e < entries_of(turns, t).len() implies !alignment::fits(
            prompt,
            #[trigger] entries_of(turns, t)[e],
        ) by {
            if e < before.len() {
                assert(entries_of(turns, t)[e] == before[e]);
            } else {
                let x = e - before.len();
                assert(entries_of(turns, t)[e] == now[x]);
                assert(now[x] == item_entries(turns, u, turns[u].items@.len() as int)[x]);
                match now[x] {
                    RollbackEntry::PersistedPrompt { content, .. } => {
                        let i = choose|i: int|
                            0 <= i < turns[u].items@.len() && (
                            #[trigger] turns[u].items@[i]) is UserMessage && message_at(turns, u, i)
                                == *content;
                        assert(turns[u].items@[i] is UserMessage);
                    },
                    RollbackEntry::UnpersistedPrompt { .. } => {},
                }
            }
        }
    }
}

/// A transcript with a prompt that no persisted message has the text of is not that of the thread
/// any more, where every turn persisted a message: the rollback is refused as stale.
pub proof fn foreign_prompts_make_the_transcript_stale(
    turns: Seq<Turn>,
    prompts: Seq<UserMessage>,
    at: Seq<int>,
    newer: int,
    foreign: int,
)
    requires
        0 <= newer < prompts.len(),
        0 <= foreign < prompts.len(),
        at.len() == turns.len(),
        forall|u: int|
            0 <= u < turns.len() ==> 0 <= #[trigger] at[u] < turns[u].items@.len()
                && turns[u].items@[at[u]] is UserMessage,
        forall|u: int, k: int|
            0 <= u < turns.len() && 0 <= k < turns[u].items@.len() && (
            #[trigger] turns[u].items@[k]) is UserMessage ==> message_at(
                turns,
                u,
                k,
            ).display.message@ != prompts[foreign].text@,
    ensures
        rollback_turn(turns, prompts, newer, prompts[prompts.len() - 1 - newer]) == Err::<
            int,
            RollbackTargetError,
        >(RollbackTargetError::Stale),
{
    let entries = entries_of(turns, turns.len() as int);
    lemma_unfitting_entries(turns, prompts[foreign], at, turns.len() as int);
    assert forall|a: Seq<usize>| !alignment::aligned(prompts, entries, a) by {
        if alignment::aligned(prompts, entries, a) {
            assert(alignment::fits(prompts[foreign], entries[a[foreign] as int]));
        }
    }
}

/// A message that stands between the beginning and the end of a review in its turn is no prompt,
/// nor is one that shows nothing.
pub proof fn messages_of_reviews_are_no_prompts(turns: Seq<Turn>, t: int, j: int, k: int)
    requires
        0 <= j < k < turns[t].items@.len(),
        turns[t].items@[k] is UserMessage,
    ensures
        turns[t].items@[j] is EnteredReviewMode && (forall|i: int|
            j < i < k ==> !((#[trigger] turns[t].items@[i]) is ExitedReviewMode)) ==> item_entries(
            turns,
            t,
            k + 1,
        ) == item_entries(turns, t, k),
        message_at(turns, t, k).display.message@.len() == 0 && message_at(
            turns,
            t,
            k,
        ).display.local_images@.len() == 0 && message_at(
            turns,
            t,
            k,
        ).display.remote_image_urls@.len() == 0 && message_at(
            turns,
            t,
            k,
        ).display.text_elements@.len() == 0 ==> item_entries(turns, t, k + 1) == item_entries(
            turns,
            t,
            k,
        ),
{
    if turns[t].items@[j] is EnteredReviewMode && (forall|i: int|
        j < i < k ==> !((#[trigger] turns[t].items@[i]) is ExitedReviewMode)) {
        lemma_reviewing_since(turns[t].items@, j, k, reviewing_at(turns, t));
    }
}

proof fn lemma_reviewing_since(items: Seq<ThreadItem>, j: int, k: int, on: bool)
    requires
        0 <= j < k <= items.len(),
        items[j] is EnteredReviewMode,
        forall|i: int| j < i < k ==> !((#[trigger] items[i]) is ExitedReviewMode),
    ensures
        reviewing(items, k, on),
    decreases k,
{
    if k - 1 > j {
        assert(!(items[k - 1] is ExitedReviewMode));
        lemma_reviewing_since(items, j, k - 1, on);
    }
}

/// A rollback to a prompt goes to before the turn of the prompt, and takes away that turn and all
/// after it. It counts their messages of the user, and is refused only where there are too many.
pub proof fn rollbacks_take_the_turn_and_all_after_it(
    turns: Seq<Turn>,
    prompts: Seq<UserMessage>,
    newer: int,
    prompt: UserMessage,
    after: UserMessage,
    r: Result<BacktrackRollbackTarget, RollbackTargetError>,
    t: int,
    k: int,
)
    requires
        targeted(turns, prompts, newer, prompt, after, r),
        rollback_turn(turns, prompts, newer, prompt) == Ok::<int, RollbackTargetError>(t),
        0 <= t <= t + k < turns.len(),
    ensures
        r matches Ok(target) ==> {
            &&& target.before_turn_id@ == turns[t].id@
            &&& target.removed_turn_ids@.len() == turns.len() - t
            &&& target.removed_turn_ids@[k]@ == turns[t + k].id@
            &&& target.legacy_num_turns == user_messages_from(turns, t)
        },
        r is Ok <==> user_messages_from(turns, t) <= u32::MAX,
        r is Err ==> r->Err_0 == RollbackTargetError::TooManyTurns,
        after.text@ == prompt.text@,
        after.local_images.deep_view() == prompt.local_images.deep_view(),
{
    if let Ok(target) = r {
        let ids = target.removed_turn_ids.deep_view();
        assert(ids.len() == turns.len() - t);
        assert(ids[k] == turns[t + k].id@);
    }
    assert(after.deep_view().text == prompt.deep_view().text);
}

/// Each turn counts its messages of the user, once each.
pub proof fn messages_of_all_turns_are_counted(turns: Seq<Turn>, t: int, items: Seq<ThreadItem>, item: ThreadItem)
    requires
        0 <= t < turns.len(),
    ensures
        user_messages_from(turns, t) == user_contents(turns[t].items@).len() + user_messages_from(
            turns,
            t + 1,
        ),
        user_messages_from(turns, turns.len() as int) == 0,
        user_contents(Seq::empty()).len() == 0,
        user_contents(items.push(item)).len() == user_contents(items).len() + (if item
            is UserMessage {
            1nat
        } else {
            0nat
        }),
        item is UserMessage ==> user_contents(items.push(item)).last()
            == item->UserMessage_content,
{
    assert(items.push(item).drop_last() =~= items);
}

} // verus!
