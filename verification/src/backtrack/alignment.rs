//! Aligning the prompts of a transcript with the persisted turns.
//!
//! A turn that persisted no user message may stand for a prompt that a hook stopped, or for
//! something unrelated such as a compaction. It is an optional slot that fits every prompt.

use crate::data::Data;
use crate::thread::{PromptContent, UserMessage, UserMessageDisplay};
use vstd::prelude::*;

verus! {

/// A place in the persisted turns that can stand for a prompt of the transcript.
#[derive(Clone, Copy)]
pub enum RollbackEntry<'a> {
    /// A user message that the turn persisted.
    PersistedPrompt { turn_index: usize, content: &'a PromptContent },
    /// A turn without a user message.
    UnpersistedPrompt { turn_index: usize },
}

impl<'a> RollbackEntry<'a> {
    /// The turn of the entry.
    pub open spec fn turn(self) -> usize {
        match self {
            RollbackEntry::PersistedPrompt { turn_index, .. } => turn_index,
            RollbackEntry::UnpersistedPrompt { turn_index } => turn_index,
        }
    }

    /// The turn of the entry.
    pub fn turn_index(self) -> (r: usize)
        ensures
            r == self.turn(),
    {
        match self {
            RollbackEntry::PersistedPrompt { turn_index, .. } => turn_index,
            RollbackEntry::UnpersistedPrompt { turn_index } => turn_index,
        }
    }
}

/// Whether the transcript shows a persisted user message as this prompt.
pub open spec fn prompt_shows(prompt: UserMessage, display: UserMessageDisplay) -> bool {
    &&& prompt.text@ == display.message@
    &&& prompt.text_elements.deep_view() == display.text_elements.deep_view()
    &&& prompt.remote_image_urls.deep_view() == display.remote_image_urls.deep_view()
    &&& image_paths(prompt) == display.local_images.deep_view()
}

/// The paths of the image files attached to a prompt.
pub open spec fn image_paths(prompt: UserMessage) -> Seq<Seq<char>> {
    prompt.local_images@.map_values(|image: crate::thread::LocalImageAttachment| image.path@)
}

/// Whether the transcript shows this content as the prompt.
pub fn prompt_matches_content(prompt: &UserMessage, content: &PromptContent) -> (r: bool)
    ensures
        r == prompt_shows(*prompt, content.display),
{
    let display = &content.display;
    if !(prompt.text == display.message && prompt.text_elements.same(&display.text_elements)
        && prompt.remote_image_urls.same(&display.remote_image_urls)) {
        return false;
    }
    if prompt.local_images.len() != display.local_images.len() {
        assert(image_paths(*prompt).len() != display.local_images.deep_view().len());
        return false;
    }
    let mut i: usize = 0;
    while i < prompt.local_images.len()
        invariant
            i <= prompt.local_images@.len() == display.local_images@.len(),
            forall|k: int|
                0 <= k < i ==> (#[trigger] prompt.local_images@[k]).path@
                    == display.local_images@[k]@,
            *display == content.display,
        decreases prompt.local_images@.len() - i,
    {
        if !(prompt.local_images[i].path == display.local_images[i]) {
            assert(image_paths(*prompt)[i as int] != display.local_images.deep_view()[i as int]);
            return false;
        }
        i += 1;
    }
    assert(image_paths(*prompt) =~= display.local_images.deep_view());
    true
}

/// Whether an entry can stand for a prompt.
pub open spec fn fits(prompt: UserMessage, entry: RollbackEntry) -> bool {
    match entry {
        RollbackEntry::PersistedPrompt { content, .. } => prompt_shows(prompt, content.display),
        RollbackEntry::UnpersistedPrompt { .. } => true,
    }
}

/// An alignment gives each prompt an entry that fits it, in the order of the entries. Between
/// two entries so given it skips only turns without a user message.
pub open spec fn aligned(
    prompts: Seq<UserMessage>,
    entries: Seq<RollbackEntry>,
    alignment: Seq<usize>,
) -> bool {
    &&& alignment.len() == prompts.len()
    &&& forall|i: int|
        0 <= i < alignment.len() ==> (#[trigger] alignment[i]) < entries.len() && fits(
            prompts[i],
            entries[alignment[i] as int],
        )
    &&& forall|i: int, j: int|
        0 <= i && j == i + 1 && j < alignment.len() ==> (#[trigger] alignment[i]) < (
        #[trigger] alignment[j])
    &&& forall|i: int, j: int, k: int|
        0 <= i && j == i + 1 && j < alignment.len() && (#[trigger] alignment[i]) < k < (
        #[trigger] alignment[j]) ==> (#[trigger] entries[k]) is UnpersistedPrompt
}

/// How many prompts of an alignment stand on a persisted user message.
pub open spec fn exact_matches(entries: Seq<RollbackEntry>, alignment: Seq<usize>) -> nat
    decreases alignment.len(),
{
    if alignment.len() == 0 {
        0
    } else {
        exact_matches(entries, alignment.drop_last()) + exact_weight(
            entries,
            alignment.last() as int,
        )
    }
}

/// One for an entry that holds a persisted user message, zero for another one.
pub open spec fn exact_weight(entries: Seq<RollbackEntry>, entry: int) -> nat {
    if entries[entry] is PersistedPrompt {
        1
    } else {
        0
    }
}

/// The sum of the positions of an alignment: the larger, the newer are its entries.
pub open spec fn position_sum(alignment: Seq<usize>) -> nat
    decreases alignment.len(),
{
    if alignment.len() == 0 {
        0
    } else {
        position_sum(alignment.drop_last()) + alignment.last() as nat
    }
}

/// The score of an alignment: first the exact matches, then the positions.
pub open spec fn score(entries: Seq<RollbackEntry>, alignment: Seq<usize>) -> (nat, nat) {
    (exact_matches(entries, alignment), position_sum(alignment))
}

/// Whether the score `a` is at most the score `b`.
pub open spec fn score_le(a: (nat, nat), b: (nat, nat)) -> bool {
    a.0 < b.0 || (a.0 == b.0 && a.1 <= b.1)
}

/// An alignment that no alignment exceeds in score.
pub open spec fn best_aligned(
    prompts: Seq<UserMessage>,
    entries: Seq<RollbackEntry>,
    alignment: Seq<usize>,
) -> bool {
    &&& aligned(prompts, entries, alignment)
    &&& forall|other: Seq<usize>|
        #[trigger] aligned(prompts, entries, other) ==> score_le(
            score(entries, other),
            score(entries, alignment),
        )
}

// The table of the alignment of the first `i` prompts with entries below `j`, where the entries
// between the last one given and `j` are all without a user message.

spec fn ends_before(
    prompts: Seq<UserMessage>,
    entries: Seq<RollbackEntry>,
    i: nat,
    j: nat,
    alignment: Seq<usize>,
) -> bool {
    &&& aligned(prompts.take(i as int), entries, alignment)
    &&& i > 0 ==> alignment[i - 1] < j
    &&& i > 0 ==> forall|k: int|
        alignment[i - 1] < k < j ==> (#[trigger] entries[k]) is UnpersistedPrompt
}

spec fn plus_match(score: (nat, nat), entry: nat, exact: bool) -> (nat, nat) {
    (
        score.0 + if exact {
            1nat
        } else {
            0
        },
        score.1 + entry,
    )
}

spec fn opt_exceeds(a: Option<(nat, nat)>, b: Option<(nat, nat)>) -> bool {
    match (a, b) {
        (Some(a), Some(b)) => !score_le(a, b),
        (Some(_), None) => true,
        _ => false,
    }
}

#[derive(Clone, Copy)]
enum AlignmentStep {
    Unavailable,
    Match,
    SkipUnpersisted,
}

spec fn with_entry(score: Option<(nat, nat)>, entry: nat, exact: bool) -> Option<(nat, nat)> {
    match score {
        Some(score) => Some(plus_match(score, entry, exact)),
        None => None,
    }
}

spec fn chosen_step(
    prompt: UserMessage,
    entry: RollbackEntry,
    matched: Option<(nat, nat)>,
    skipped: Option<(nat, nat)>,
) -> AlignmentStep {
    match entry {
        RollbackEntry::PersistedPrompt { .. } => if fits(prompt, entry) && matched is Some {
            AlignmentStep::Match
        } else {
            AlignmentStep::Unavailable
        },
        RollbackEntry::UnpersistedPrompt { .. } => if opt_exceeds(matched, skipped) {
            AlignmentStep::Match
        } else if skipped is Some {
            AlignmentStep::SkipUnpersisted
        } else {
            AlignmentStep::Unavailable
        },
    }
}

spec fn best(prompts: Seq<UserMessage>, entries: Seq<RollbackEntry>, i: nat, j: nat) -> Option<
    (nat, nat),
>
    decreases j,
{
    if i == 0 {
        Some((0, 0))
    } else if j == 0 {
        None
    } else {
        let matched = with_entry(
            best(prompts, entries, (i - 1) as nat, (j - 1) as nat),
            (j - 1) as nat,
            entries[j - 1] is PersistedPrompt,
        );
        let skipped = best(prompts, entries, i, (j - 1) as nat);
        match chosen_step(prompts[i - 1], entries[j - 1], matched, skipped) {
            AlignmentStep::Unavailable => None,
            AlignmentStep::Match => matched,
            AlignmentStep::SkipUnpersisted => skipped,
        }
    }
}

spec fn matched(prompts: Seq<UserMessage>, entries: Seq<RollbackEntry>, i: nat, j: nat) -> Option<
    (nat, nat),
> {
    with_entry(
        best(prompts, entries, (i - 1) as nat, (j - 1) as nat),
        (j - 1) as nat,
        entries[j - 1] is PersistedPrompt,
    )
}

spec fn step(
    prompts: Seq<UserMessage>,
    entries: Seq<RollbackEntry>,
    i: nat,
    j: nat,
) -> AlignmentStep {
    if i == 0 || j == 0 {
        AlignmentStep::Unavailable
    } else {
        chosen_step(
            prompts[i - 1],
            entries[j - 1],
            matched(prompts, entries, i, j),
            best(prompts, entries, i, (j - 1) as nat),
        )
    }
}

/// The alignment that the table leads to.
spec fn path(
    prompts: Seq<UserMessage>,
    entries: Seq<RollbackEntry>,
    i: nat,
    j: nat,
) -> Seq<usize>
    decreases j,
{
    if i == 0 || j == 0 {
        Seq::empty()
    } else {
        match step(prompts, entries, i, j) {
            AlignmentStep::Unavailable => Seq::empty(),
            AlignmentStep::Match => path(prompts, entries, (i - 1) as nat, (j - 1) as nat).push(
                (j - 1) as usize,
            ),
            AlignmentStep::SkipUnpersisted => path(prompts, entries, i, (j - 1) as nat),
        }
    }
}

proof fn lemma_path(prompts: Seq<UserMessage>, entries: Seq<RollbackEntry>, i: nat, j: nat)
    requires
        i <= prompts.len(),
        j <= entries.len(),
        entries.len() <= usize::MAX,
        best(prompts, entries, i, j) is Some,
    ensures
        ends_before(prompts, entries, i, j, path(prompts, entries, i, j)),
        score(entries, path(prompts, entries, i, j)) == best(prompts, entries, i, j)->0,
    decreases j,
{
    let p = path(prompts, entries, i, j);
    if i == 0 {
        assert(p =~= Seq::<usize>::empty());
        assert(prompts.take(0).len() == 0);
    } else {
        match step(prompts, entries, i, j) {
            AlignmentStep::Unavailable => {},
            AlignmentStep::Match => {
                let q = path(prompts, entries, (i - 1) as nat, (j - 1) as nat);
                lemma_path(prompts, entries, (i - 1) as nat, (j - 1) as nat);
                assert(p == q.push((j - 1) as usize));
                assert(p.drop_last() =~= q);
                let before = prompts.take(i - 1);
                let now = prompts.take(i as int);
                assert forall|a: int| 0 <= a < p.len() implies (#[trigger] p[a]) < entries.len()
                    && fits(now[a], entries[p[a] as int]) by {
                    if a < i - 1 {
                        assert(q[a] == p[a]);
                        assert(before[a] == now[a]);
                    }
                }
                assert forall|a: int, b: int|
                    0 <= a && b == a + 1 && b < p.len() implies (#[trigger] p[a]) < (
                #[trigger] p[b]) by {
                    assert(q[a] == p[a]);
                    if b < i - 1 {
                        assert(q[b] == p[b]);
                    }
                }
                assert forall|a: int, b: int, k: int|
                    0 <= a && b == a + 1 && b < p.len() && (#[trigger] p[a]) < k < (
                    #[trigger] p[b]) implies (#[trigger] entries[k]) is UnpersistedPrompt by {
                    assert(q[a] == p[a]);
                    if b < i - 1 {
                        assert(q[b] == p[b]);
                    }
                }
                assert(aligned(now, entries, p));
            },
            AlignmentStep::SkipUnpersisted => {
                lemma_path(prompts, entries, i, (j - 1) as nat);
            },
        }
    }
}

proof fn lemma_best(
    prompts: Seq<UserMessage>,
    entries: Seq<RollbackEntry>,
    i: nat,
    j: nat,
    other: Seq<usize>,
)
    requires
        i <= prompts.len(),
        j <= entries.len(),
        ends_before(prompts, entries, i, j, other),
    ensures
        best(prompts, entries, i, j) is Some,
        score_le(score(entries, other), best(prompts, entries, i, j)->0),
    decreases j,
{
    if i > 0 {
        let last = other[i - 1];
        if last == j - 1 {
            let rest = other.drop_last();
            let before = prompts.take(i - 1);
            let now = prompts.take(i as int);
            assert forall|a: int| 0 <= a < rest.len() implies (#[trigger] rest[a]) < entries.len()
                && fits(before[a], entries[rest[a] as int]) by {
                assert(rest[a] == other[a]);
                assert(before[a] == now[a]);
            }
            assert forall|a: int, b: int|
                0 <= a && b == a + 1 && b < rest.len() implies (#[trigger] rest[a]) < (
            #[trigger] rest[b]) by {
                assert(other[a] < other[b]);
            }
            assert forall|a: int, b: int, k: int|
                0 <= a && b == a + 1 && b < rest.len() && (#[trigger] rest[a]) < k < (
                #[trigger] rest[b]) implies (#[trigger] entries[k]) is UnpersistedPrompt by {
                assert(other[a] < k < other[b]);
            }
            if i > 1 {
                assert(rest[i - 2] == other[i - 2]);
                assert(other[i - 2] < other[i - 1]);
                assert forall|k: int| rest[i - 2] < k < j - 1 implies (
                #[trigger] entries[k]) is UnpersistedPrompt by {
                    assert(other[i - 2] < k < other[i - 1]);
                }
            }
            assert(ends_before(prompts, entries, (i - 1) as nat, (j - 1) as nat, rest));
            lemma_best(prompts, entries, (i - 1) as nat, (j - 1) as nat, rest);
            assert(now[i - 1] == prompts[i - 1]);
            assert(fits(prompts[i - 1], entries[j - 1]));
        } else {
            assert(entries[j - 1] is UnpersistedPrompt);
            lemma_best(prompts, entries, i, (j - 1) as nat, other);
        }
    } else {
        assert(other.len() == 0);
    }
}

proof fn lemma_best_bound(prompts: Seq<UserMessage>, entries: Seq<RollbackEntry>, i: nat, j: nat)
    requires
        j <= entries.len(),
    ensures
        best(prompts, entries, i, j) matches Some(s) ==> s.0 <= i && s.1 <= i * entries.len(),
    decreases j,
{
    if i > 0 && j > 0 {
        lemma_best_bound(prompts, entries, (i - 1) as nat, (j - 1) as nat);
        lemma_best_bound(prompts, entries, i, (j - 1) as nat);
        assert((i - 1) * entries.len() + entries.len() == i * entries.len()) by (nonlinear_arith);
    }
    assert(0 <= i * entries.len()) by (nonlinear_arith);
}

/// The score of an alignment while it is computed.
#[derive(Clone, Copy)]
struct AlignmentScore {
    exact_matches: usize,
    position_sum: u128,
}

impl AlignmentScore {
    spec fn model(self) -> (nat, nat) {
        (self.exact_matches as nat, self.position_sum as nat)
    }

    fn with_match(self, entry_index: usize, exact: bool) -> (r: Self)
        requires
            self.exact_matches < usize::MAX,
            self.position_sum + entry_index <= u128::MAX,
        ensures
            r.model() == plus_match(self.model(), entry_index as nat, exact),
    {
        AlignmentScore {
            exact_matches: if exact {
                self.exact_matches + 1
            } else {
                self.exact_matches
            },
            position_sum: self.position_sum + entry_index as u128,
        }
    }

    fn exceeds(self, other: Self) -> (r: bool)
        ensures
            r == !score_le(self.model(), other.model()),
    {
        self.exact_matches > other.exact_matches || (self.exact_matches == other.exact_matches
            && self.position_sum > other.position_sum)
    }
}

spec fn opt_model(score: Option<AlignmentScore>) -> Option<(nat, nat)> {
    match score {
        Some(score) => Some(score.model()),
        None => None,
    }
}

fn option_exceeds(a: Option<AlignmentScore>, b: Option<AlignmentScore>) -> (r: bool)
    ensures
        r == opt_exceeds(opt_model(a), opt_model(b)),
{
    match (a, b) {
        (Some(a), Some(b)) => a.exceeds(b),
        (Some(_), None) => true,
        _ => false,
    }
}

/// One row of the table: the scores of the first `i` prompts from those of the first `i - 1`.
fn align_row<'a>(
    prompts: &Vec<UserMessage>,
    entries: &Vec<RollbackEntry<'a>>,
    i: usize,
    previous: &Vec<Option<AlignmentScore>>,
) -> (r: (Vec<Option<AlignmentScore>>, Vec<AlignmentStep>))
    requires
        1 <= i <= prompts@.len(),
        previous@.len() == entries@.len() + 1,
        forall|j: int|
            0 <= j <= entries@.len() ==> opt_model(#[trigger] previous@[j]) == best(
                prompts@,
                entries@,
                (i - 1) as nat,
                j as nat,
            ),
    ensures
        r.0@.len() == entries@.len() + 1,
        r.1@.len() == entries@.len() + 1,
        forall|j: int|
            0 <= j <= entries@.len() ==> opt_model(#[trigger] r.0@[j]) == best(
                prompts@,
                entries@,
                i as nat,
                j as nat,
            ),
        forall|j: int|
            0 <= j <= entries@.len() ==> (#[trigger] r.1@[j]) == step(
                prompts@,
                entries@,
                i as nat,
                j as nat,
            ),
{
    let mut scores: Vec<Option<AlignmentScore>> = Vec::new();
    let mut steps: Vec<AlignmentStep> = Vec::new();
    scores.push(None);
    steps.push(AlignmentStep::Unavailable);
    let count: usize = entries.len();
    let prompt_count: usize = prompts.len();
    let mut j: usize = 0;
    while j < count
        invariant
            1 <= i <= prompts@.len() == prompt_count,
            count == entries@.len(),
            j <= count,
            previous@.len() == entries@.len() + 1,
            forall|j: int|
                0 <= j <= entries@.len() ==> opt_model(#[trigger] previous@[j]) == best(
                    prompts@,
                    entries@,
                    (i - 1) as nat,
                    j as nat,
                ),
            scores@.len() == j + 1,
            steps@.len() == j + 1,
            forall|k: int|
                0 <= k <= j ==> opt_model(#[trigger] scores@[k]) == best(
                    prompts@,
                    entries@,
                    i as nat,
                    k as nat,
                ),
            forall|k: int|
                0 <= k <= j ==> (#[trigger] steps@[k]) == step(
                    prompts@,
                    entries@,
                    i as nat,
                    k as nat,
                ),
        decreases count - j,
    {
        let entry = entries[j];
        let exact = match entry {
            RollbackEntry::PersistedPrompt { .. } => true,
            RollbackEntry::UnpersistedPrompt { .. } => false,
        };
        proof {
            lemma_best_bound(prompts@, entries@, (i - 1) as nat, j as nat);
            assert((i - 1) * entries@.len() + j <= u128::MAX) by (nonlinear_arith)
                requires
                    1 <= i <= usize::MAX,
                    0 <= j <= entries@.len() <= usize::MAX,
            ;
        }
        let matched = match previous[j] {
            Some(score) => Some(score.with_match(j, exact)),
            None => None,
        };
        assert(opt_model(matched) == crate::backtrack::alignment::matched(
            prompts@,
            entries@,
            i as nat,
            (j + 1) as nat,
        ));
        let (score, step) = match entry {
            RollbackEntry::PersistedPrompt { content, .. } => {
                if matched.is_some() && prompt_matches_content(&prompts[i - 1], content) {
                    (matched, AlignmentStep::Match)
                } else {
                    (None, AlignmentStep::Unavailable)
                }
            },
            RollbackEntry::UnpersistedPrompt { .. } => {
                let skipped = scores[j];
                if option_exceeds(matched, skipped) {
                    (matched, AlignmentStep::Match)
                } else if skipped.is_some() {
                    (skipped, AlignmentStep::SkipUnpersisted)
                } else {
                    (None, AlignmentStep::Unavailable)
                }
            },
        };
        scores.push(score);
        steps.push(step);
        j += 1;
    }
    (scores, steps)
}

/// Whether `scores` and `steps` are the table for the first `rows` prompts.
spec fn table_of(
    prompts: Seq<UserMessage>,
    entries: Seq<RollbackEntry>,
    scores: Seq<Option<AlignmentScore>>,
    steps: Seq<Vec<AlignmentStep>>,
    rows: nat,
) -> bool {
    &&& steps.len() == rows
    &&& scores.len() == entries.len() + 1
    &&& forall|r: int| 0 <= r < rows ==> (#[trigger] steps[r])@.len() == entries.len() + 1
    &&& forall|r: int, j: int|
        0 <= r < rows && 0 <= j <= entries.len() ==> (#[trigger] steps[r]@[j]) == step(
            prompts,
            entries,
            (r + 1) as nat,
            j as nat,
        )
    &&& forall|j: int|
        0 <= j <= entries.len() ==> opt_model(#[trigger] scores[j]) == best(
            prompts,
            entries,
            rows,
            j as nat,
        )
}

/// The column of the highest score, the last one where several share it.
fn best_column(scores: &Vec<Option<AlignmentScore>>) -> (r: Option<usize>)
    ensures
        match r {
            Some(c) => c < scores@.len() && scores@[c as int] is Some && forall|k: int|
                0 <= k < scores@.len() && (#[trigger] scores@[k]) is Some ==> score_le(
                    scores@[k]->0.model(),
                    scores@[c as int]->0.model(),
                ),
            None => forall|k: int| 0 <= k < scores@.len() ==> (#[trigger] scores@[k]) is None,
        },
{
    let mut found: Option<usize> = None;
    let mut j: usize = 0;
    while j < scores.len()
        invariant
            j <= scores@.len(),
            match found {
                Some(c) => c < j && scores@[c as int] is Some && forall|k: int|
                    0 <= k < j && (#[trigger] scores@[k]) is Some ==> score_le(
                        scores@[k]->0.model(),
                        scores@[c as int]->0.model(),
                    ),
                None => forall|k: int| 0 <= k < j ==> (#[trigger] scores@[k]) is None,
            },
        decreases scores@.len() - j,
    {
        if let Some(score) = scores[j] {
            match found {
                None => {
                    found = Some(j);
                },
                Some(c) => {
                    if let Some(highest) = scores[c] {
                        if !highest.exceeds(score) {
                            found = Some(j);
                        }
                    }
                },
            }
        }
        j += 1;
    }
    found
}

/// The alignment that the table of steps leads to from column `start` of its last row.
fn trace_path<'a>(
    prompts: &Vec<UserMessage>,
    entries: &Vec<RollbackEntry<'a>>,
    scores: &Vec<Option<AlignmentScore>>,
    steps: &Vec<Vec<AlignmentStep>>,
    start: usize,
) -> (alignment: Vec<usize>)
    requires
        table_of(prompts@, entries@, scores@, steps@, prompts@.len()),
        start <= entries@.len(),
        best(prompts@, entries@, prompts@.len(), start as nat) is Some,
    ensures
        alignment@ == path(prompts@, entries@, prompts@.len(), start as nat),
{
    let mut alignment: Vec<usize> = Vec::new();
    let count: usize = prompts.len();
    let mut i: usize = 0;
    while i < count
        invariant
            i <= count,
            alignment@.len() == i,
        decreases count - i,
    {
        alignment.push(0);
        i += 1;
    }
    let mut j: usize = start;
    while i > 0
        invariant
            table_of(prompts@, entries@, scores@, steps@, prompts@.len()),
            count == prompts@.len(),
            alignment@.len() == count,
            i <= count,
            j <= start <= entries@.len(),
            best(prompts@, entries@, i as nat, j as nat) is Some,
            path(prompts@, entries@, count as nat, start as nat) == path(
                prompts@,
                entries@,
                i as nat,
                j as nat,
            ) + alignment@.subrange(i as int, count as int),
        decreases i + j,
    {
        assert(j > 0);
        let taken = steps[i - 1][j];
        assert(taken == step(prompts@, entries@, i as nat, j as nat));
        match taken {
            AlignmentStep::Match => {
                let ghost before = alignment@;
                alignment.set(i - 1, j - 1);
                proof {
                    assert(alignment@.subrange(i - 1, count as int) =~= seq![(j - 1) as usize]
                        + before.subrange(i as int, count as int));
                    assert(path(prompts@, entries@, i as nat, j as nat) + before.subrange(
                        i as int,
                        count as int,
                    ) =~= path(prompts@, entries@, (i - 1) as nat, (j - 1) as nat)
                        + alignment@.subrange(i - 1, count as int));
                }
                i -= 1;
                j -= 1;
            },
            _ => {
                j -= 1;
            },
        }
    }
    proof {
        assert(alignment@.subrange(0, count as int) =~= alignment@);
        assert(path(prompts@, entries@, 0, j as nat) + alignment@ =~= alignment@);
    }
    alignment
}

/// The best alignment of the prompts of a transcript with the persisted turns, where there is
/// an alignment at all. Exact matches count most; of the alignments with as many of them, the
/// one with the newest entries is taken.
pub fn align_transcript_prompts<'a>(
    prompts: &Vec<UserMessage>,
    entries: &Vec<RollbackEntry<'a>>,
) -> (r: Option<Vec<usize>>)
    ensures
        match r {
            Some(alignment) => best_aligned(prompts@, entries@, alignment@),
            None => forall|other: Seq<usize>| !#[trigger] aligned(prompts@, entries@, other),
        },
{
    let mut scores: Vec<Option<AlignmentScore>> = Vec::new();
    let mut steps: Vec<Vec<AlignmentStep>> = Vec::new();
    let count: usize = entries.len();
    let mut j: usize = 0;
    scores.push(Some(AlignmentScore { exact_matches: 0, position_sum: 0 }));
    while j < count
        invariant
            j <= count,
            scores@.len() == j + 1,
            forall|k: int|
                0 <= k <= j ==> opt_model(#[trigger] scores@[k]) == best(
                    prompts@,
                    entries@,
                    0,
                    k as nat,
                ),
        decreases count - j,
    {
        scores.push(Some(AlignmentScore { exact_matches: 0, position_sum: 0 }));
        j += 1;
    }
    let mut i: usize = 0;
    while i < prompts.len()
        invariant
            i <= prompts@.len(),
            table_of(prompts@, entries@, scores@, steps@, i as nat),
        decreases prompts@.len() - i,
    {
        let (next, row) = align_row(prompts, entries, i + 1, &scores);
        scores = next;
        steps.push(row);
        i += 1;
    }
    let found = best_column(&scores);
    proof {
        assert(prompts@.take(prompts@.len() as int) =~= prompts@);
        assert forall|other: Seq<usize>| #[trigger]
            aligned(prompts@, entries@, other) implies exists|k: int|
            0 <= k < scores@.len() && (#[trigger] scores@[k]) is Some && score_le(
                score(entries@, other),
                scores@[k]->0.model(),
            ) by {
            let n = prompts@.len();
            let end: nat = if n == 0 {
                0
            } else {
                (other[n - 1] + 1) as nat
            };
            assert(ends_before(prompts@, entries@, n, end, other));
            lemma_best(prompts@, entries@, n, end, other);
            assert(opt_model(scores@[end as int]) == best(prompts@, entries@, n, end));
        }
    }
    match found {
        None => None,
        Some(column) => {
            proof {
                assert(opt_model(scores@[column as int]) == best(
                    prompts@,
                    entries@,
                    prompts@.len(),
                    column as nat,
                ));
                lemma_path(prompts@, entries@, prompts@.len(), column as nat);
            }
            let alignment = trace_path(prompts, entries, &scores, &steps, column);
            Some(alignment)
        },
    }
}


spec fn joined(a: Seq<usize>, b: Seq<usize>, later: bool) -> Seq<usize> {
    Seq::new(
        a.len(),
        |i: int|
            if (a[i] >= b[i]) == later {
                a[i]
            } else {
                b[i]
            },
    )
}

proof fn lemma_increasing(
    prompts: Seq<UserMessage>,
    entries: Seq<RollbackEntry>,
    a: Seq<usize>,
    i: int,
    j: int,
)
    requires
        aligned(prompts, entries, a),
        0 <= i < j < a.len(),
    ensures
        a[i] < a[j],
    decreases j - i,
{
    if i + 1 < j {
        lemma_increasing(prompts, entries, a, i, j - 1);
        assert(a[j - 1] < a[j]);
    }
}

proof fn lemma_joined_aligned(
    prompts: Seq<UserMessage>,
    entries: Seq<RollbackEntry>,
    a: Seq<usize>,
    b: Seq<usize>,
    later: bool,
)
    requires
        aligned(prompts, entries, a),
        aligned(prompts, entries, b),
    ensures
        aligned(prompts, entries, joined(a, b, later)),
{
    let c = joined(a, b, later);
    assert forall|i: int, j: int| 0 <= i && j == i + 1 && j < c.len() implies (#[trigger] c[i]) < (
    #[trigger] c[j]) by {
        assert(a[i] < a[j]);
        assert(b[i] < b[j]);
    }
    assert forall|i: int, j: int, k: int|
        0 <= i && j == i + 1 && j < c.len() && (#[trigger] c[i]) < k < (
        #[trigger] c[j]) implies (#[trigger] entries[k]) is UnpersistedPrompt by {
        assert(a[i] < a[j]);
        assert(b[i] < b[j]);
        if a[i] < k < a[j] {
        } else {
            assert(b[i] < k < b[j]);
        }
    }
}

proof fn lemma_joined_scores(entries: Seq<RollbackEntry>, a: Seq<usize>, b: Seq<usize>)
    requires
        a.len() == b.len(),
    ensures
        exact_matches(entries, joined(a, b, true)) + exact_matches(entries, joined(a, b, false))
            == exact_matches(entries, a) + exact_matches(entries, b),
        position_sum(joined(a, b, true)) + position_sum(joined(a, b, false)) == position_sum(a)
            + position_sum(b),
        position_sum(joined(a, b, true)) >= position_sum(a),
        position_sum(joined(a, b, true)) == position_sum(a) ==> joined(a, b, true) == a,
    decreases a.len(),
{
    if a.len() > 0 {
        let a1 = a.drop_last();
        let b1 = b.drop_last();
        lemma_joined_scores(entries, a1, b1);
        assert(joined(a, b, true).drop_last() =~= joined(a1, b1, true));
        assert(joined(a, b, false).drop_last() =~= joined(a1, b1, false));
        if position_sum(joined(a, b, true)) == position_sum(a) {
            assert(joined(a1, b1, true) == a1);
            assert(joined(a, b, true) =~= joined(a1, b1, true).push(a.last()));
            assert(a =~= a1.push(a.last()));
        }
    } else {
        assert(joined(a, b, true) =~= a);
        assert(joined(a, b, false) =~= b);
    }
}

/// There is at most one best alignment: the prompts and the persisted turns alone decide which
/// turn each prompt belongs to.
pub proof fn best_alignment_is_unique(
    prompts: Seq<UserMessage>,
    entries: Seq<RollbackEntry>,
    a: Seq<usize>,
    b: Seq<usize>,
)
    requires
        best_aligned(prompts, entries, a),
        best_aligned(prompts, entries, b),
    ensures
        a == b,
{
    let later = joined(a, b, true);
    let earlier = joined(a, b, false);
    lemma_joined_aligned(prompts, entries, a, b, true);
    lemma_joined_aligned(prompts, entries, a, b, false);
    lemma_joined_scores(entries, a, b);
    lemma_joined_scores(entries, b, a);
    assert(score_le(score(entries, later), score(entries, a)));
    assert(score_le(score(entries, earlier), score(entries, a)));
    assert(score_le(score(entries, b), score(entries, a)));
    assert(score_le(score(entries, a), score(entries, b)));
    assert(joined(b, a, true) =~= later);
    assert(later == a);
    assert(later == b);
}

/// The column of the highest score among the first `end` columns of the last row.
proof fn lemma_highest_column(
    prompts: Seq<UserMessage>,
    entries: Seq<RollbackEntry>,
    end: nat,
) -> (column: nat)
    requires
        exists|k: nat| k < end && #[trigger] best(prompts, entries, prompts.len(), k) is Some,
    ensures
        column < end,
        best(prompts, entries, prompts.len(), column) is Some,
        forall|k: nat|
            k < end && #[trigger] best(prompts, entries, prompts.len(), k) is Some ==> score_le(
                best(prompts, entries, prompts.len(), k)->0,
                best(prompts, entries, prompts.len(), column)->0,
            ),
    decreases end,
{
    let n = prompts.len();
    let last = (end - 1) as nat;
    if exists|k: nat| k < last && #[trigger] best(prompts, entries, n, k) is Some {
        let column = lemma_highest_column(prompts, entries, last);
        if best(prompts, entries, n, last) is Some && !score_le(
            best(prompts, entries, n, last)->0,
            best(prompts, entries, n, column)->0,
        ) {
            last
        } else {
            column
        }
    } else {
        last
    }
}

/// Where the prompts can be aligned at all, there is a best alignment.
pub proof fn aligned_prompts_have_a_best_alignment(
    prompts: Seq<UserMessage>,
    entries: Seq<RollbackEntry>,
    other: Seq<usize>,
)
    requires
        aligned(prompts, entries, other),
        entries.len() <= usize::MAX,
    ensures
        exists|alignment: Seq<usize>| best_aligned(prompts, entries, alignment),
{
    let n = prompts.len();
    assert(prompts.take(n as int) =~= prompts);
    assert forall|a: Seq<usize>| #[trigger] aligned(prompts, entries, a) implies exists|k: nat|
        k < entries.len() + 1 && #[trigger] best(prompts, entries, n, k) is Some && score_le(
            score(entries, a),
            best(prompts, entries, n, k)->0,
        ) by {
        let end: nat = if n == 0 {
            0
        } else {
            (a[n - 1] + 1) as nat
        };
        assert(ends_before(prompts, entries, n, end, a));
        lemma_best(prompts, entries, n, end, a);
        assert(best(prompts, entries, n, end) is Some);
    }
    assert(exists|k: nat| k < entries.len() + 1 && #[trigger] best(prompts, entries, n, k) is Some);
    let column = lemma_highest_column(prompts, entries, (entries.len() + 1) as nat);
    lemma_path(prompts, entries, n, column);
    assert(best_aligned(prompts, entries, path(prompts, entries, n, column)));
}

/// An alignment gives a later prompt a later entry.
pub proof fn alignment_keeps_order(
    prompts: Seq<UserMessage>,
    entries: Seq<RollbackEntry>,
    alignment: Seq<usize>,
    i: int,
    j: int,
)
    requires
        aligned(prompts, entries, alignment),
        0 <= i < j < alignment.len(),
    ensures
        alignment[i] < alignment[j],
{
    lemma_increasing(prompts, entries, alignment, i, j);
}

/// A prompt fits the entry of a persisted message exactly where it has the text, the text
/// elements and the remote images of the message, and the k-th image file attached to it has the
/// path of the k-th local image of the message. Nothing else about the attachment counts.
pub proof fn prompts_fit_their_own_message(
    prompt: UserMessage,
    turn_index: usize,
    content: &PromptContent,
)
    ensures
        fits(prompt, RollbackEntry::PersistedPrompt { turn_index, content }) <==> {
            &&& prompt.text@ == content.display.message@
            &&& prompt.text_elements.deep_view() == content.display.text_elements.deep_view()
            &&& prompt.remote_image_urls.deep_view()
                == content.display.remote_image_urls.deep_view()
            &&& prompt.local_images@.len() == content.display.local_images@.len()
            &&& forall|k: int|
                0 <= k < prompt.local_images@.len() ==> (#[trigger] prompt.local_images@[k]).path@
                    == content.display.local_images@[k]@
        },
        fits(prompt, RollbackEntry::UnpersistedPrompt { turn_index }),
{
    let paths = image_paths(prompt);
    let images = content.display.local_images.deep_view();
    assert(paths.len() == prompt.local_images@.len());
    assert(images.len() == content.display.local_images@.len());
    if paths == images {
        assert forall|k: int| 0 <= k < prompt.local_images@.len() implies (
        #[trigger] prompt.local_images@[k]).path@ == content.display.local_images@[k]@ by {
            assert(paths[k] == images[k]);
        }
    }
    if prompt.local_images@.len() == content.display.local_images@.len() && (forall|k: int|
        0 <= k < prompt.local_images@.len() ==> (#[trigger] prompt.local_images@[k]).path@
            == content.display.local_images@[k]@) {
        assert(paths =~= images);
    }
}

/// Every list of places is an alignment that gives each prompt an entry that fits it, goes forward
/// and leaves out no message of the user between two places; and no other list is one.
pub proof fn alignments_leave_out_no_message(
    prompts: Seq<UserMessage>,
    entries: Seq<RollbackEntry>,
    places: Seq<usize>,
    i: int,
    k: int,
)
    requires
        0 <= i < places.len(),
    ensures
        aligned(prompts, entries, places) ==> {
            &&& places.len() == prompts.len()
            &&& places[i] < entries.len()
            &&& fits(prompts[i], entries[places[i] as int])
            &&& i + 1 < places.len() ==> places[i] < places[i + 1]
            &&& i + 1 < places.len() && places[i] < k < places[i + 1] ==> entries[k]
                is UnpersistedPrompt
        },
        ({
            &&& places.len() == prompts.len()
            &&& forall|a: int|
                0 <= a < places.len() ==> (#[trigger] places[a]) < entries.len() && fits(
                    prompts[a],
                    entries[places[a] as int],
                )
            &&& forall|a: int, b: int|
                0 <= a < b < places.len() ==> (#[trigger] places[a]) < (#[trigger] places[b])
            &&& forall|b: int|
                places[0] < b < places.last() && !places.contains(b as usize) && 0 <= b
                    < entries.len() ==> (#[trigger] entries[b]) is UnpersistedPrompt
        }) && entries.len() <= usize::MAX ==> aligned(prompts, entries, places),
{
    if i + 1 < places.len() {
        let j = i + 1;
        assert(places[j] == places[i + 1]);
        if places[i] < k < places[j] {
            assert(entries[k] == entries[k]);
        }
    }
    if ({
        &&& places.len() == prompts.len()
        &&& forall|a: int|
            0 <= a < places.len() ==> (#[trigger] places[a]) < entries.len() && fits(
                prompts[a],
                entries[places[a] as int],
            )
        &&& forall|a: int, b: int|
            0 <= a < b < places.len() ==> (#[trigger] places[a]) < (#[trigger] places[b])
        &&& forall|b: int|
            places[0] < b < places.last() && !places.contains(b as usize) && 0 <= b < entries.len()
                ==> (#[trigger] entries[b]) is UnpersistedPrompt
    }) && entries.len() <= usize::MAX {
        assert forall|a: int, b: int, c: int|
            0 <= a && b == a + 1 && b < places.len() && (#[trigger] places[a]) < c < (
            #[trigger] places[b]) implies (#[trigger] entries[c]) is UnpersistedPrompt by {
            if places.contains(c as usize) {
                let d = choose|d: int| 0 <= d < places.len() && places[d] == c as usize;
                if d < a {
                    assert(places[d] < places[a]);
                } else if d > b {
                    assert(places[b] < places[d]);
                }
            }
            if a > 0 {
                assert(places[0] < places[a]);
            }
            if b < places.len() - 1 {
                assert(places[b] < places[places.len() - 1]);
            }
        }
    }
}

proof fn lemma_scores_grow(entries: Seq<RollbackEntry>, a: Seq<usize>, b: Seq<usize>)
    requires
        a.len() == b.len(),
        forall|i: int|
            0 <= i < a.len() && entries[(#[trigger] a[i]) as int] is PersistedPrompt
                ==> entries[b[i] as int] is PersistedPrompt,
    ensures
        exact_matches(entries, a) <= exact_matches(entries, b),
        exact_matches(entries, a) == exact_matches(entries, b) ==> forall|i: int|
            0 <= i < a.len() && entries[b[i] as int] is PersistedPrompt ==> entries[(
            #[trigger] a[i]) as int] is PersistedPrompt,
        (forall|i: int| 0 <= i < a.len() ==> (#[trigger] a[i]) <= b[i]) ==> position_sum(a)
            <= position_sum(b) && (position_sum(a) == position_sum(b) ==> a == b),
    decreases a.len(),
{
    if a.len() > 0 {
        let n = a.len() - 1;
        let front = a.drop_last();
        let others = b.drop_last();
        assert forall|i: int|
            0 <= i < front.len() && entries[(#[trigger] front[i]) as int]
                is PersistedPrompt implies entries[others[i] as int] is PersistedPrompt by {
            assert(a[i] == front[i]);
        }
        lemma_scores_grow(entries, front, others);
        assert(a[n] == a.last());
        assert(b[n] == b.last());
        if exact_matches(entries, a) == exact_matches(entries, b) {
            assert forall|i: int|
                0 <= i < a.len() && entries[b[i] as int] is PersistedPrompt implies entries[(
            #[trigger] a[i]) as int] is PersistedPrompt by {
                if i < n {
                    assert(front[i] == a[i]);
                    assert(others[i] == b[i]);
                }
            }
        }
        if forall|i: int| 0 <= i < a.len() ==> (#[trigger] a[i]) <= b[i] {
            assert forall|i: int| 0 <= i < front.len() implies (#[trigger] front[i]) <= others[i] by {
                assert(a[i] <= b[i]);
            }
            if position_sum(a) == position_sum(b) {
                assert(front == others);
                assert(a =~= front.push(a.last()));
                assert(b =~= others.push(b.last()));
            }
        }
    } else {
        assert(a =~= b);
    }
}

/// No alignment stands on a kept message wherever the best one does and on one more; and among
/// those on the same kept messages none has newer places.
pub proof fn best_alignments_prefer_kept_messages_then_newer_turns(
    prompts: Seq<UserMessage>,
    entries: Seq<RollbackEntry>,
    places: Seq<usize>,
    other: Seq<usize>,
)
    requires
        best_aligned(prompts, entries, places),
        aligned(prompts, entries, other),
        forall|i: int|
            0 <= i < places.len() && entries[(#[trigger] places[i]) as int] is PersistedPrompt
                ==> entries[other[i] as int] is PersistedPrompt,
    ensures
        forall|i: int|
            0 <= i < places.len() && entries[other[i] as int] is PersistedPrompt ==> entries[(
            #[trigger] places[i]) as int] is PersistedPrompt,
        (forall|i: int| 0 <= i < places.len() ==> (#[trigger] places[i]) <= other[i]) ==> other
            == places,
{
    lemma_scores_grow(entries, places, other);
    assert(score_le(score(entries, other), score(entries, places)));
}

} // verus!
