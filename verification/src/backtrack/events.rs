//! Finding out what going back restores, and restoring it.

use crate::backtrack::cells::HistoryCell;
use crate::backtrack::selection::BacktrackRestoreMode;
use crate::backtrack::state::{BacktrackFileRestoreSummary, BacktrackState};
use crate::checkpoint::model::FileRestoreDisposition;
use crate::checkpoint::restore::{self, FileRestorePreviewEntry};
use crate::revert::ThreadHistoryMode;
use crate::text::{concat2, concat3, decimal_string};
use crate::thread::{ThreadItem, Turn, TurnStatus, UserMessage};
use vstd::prelude::*;

verus! {

/// Something that happened to a thread after its turns were read.
pub enum BufferedEvent {
    /// A turn, with the ids of the items that it brought.
    TurnStarted { turn: Turn, item_ids: Vec<String> },
    ItemCompleted { turn_id: String, item_id: String, item: ThreadItem },
    TurnCompleted { turn_id: String, status: TurnStatus, completed_at: Option<i64> },
    Other,
}

/// A turn and the ids of its items.
pub struct TrackedTurn {
    pub turn: Turn,
    pub item_ids: Vec<String>,
}

/// Whether an item matters to which prompts the turns hold.
pub open spec fn matters(item: ThreadItem) -> bool {
    item is UserMessage || item is EnteredReviewMode || item is ExitedReviewMode
}

/// The model of a turn: its id, its items, its status and its end, and the ids of its items.
pub ghost struct TrackedModel {
    pub id: Seq<char>,
    pub items: Seq<ThreadItem>,
    pub status: TurnStatus,
    pub completed_at: Option<i64>,
    pub item_ids: Seq<Seq<char>>,
}

impl View for TrackedTurn {
    type V = TrackedModel;

    open spec fn view(&self) -> TrackedModel {
        started(self.turn, self.item_ids.deep_view())
    }
}

/// The models of turns.
pub open spec fn models(turns: Seq<TrackedTurn>) -> Seq<TrackedModel> {
    turns.map_values(|turn: TrackedTurn| turn@)
}

/// A turn, and the ids of the items that it holds.
pub open spec fn started(turn: Turn, item_ids: Seq<Seq<char>>) -> TrackedModel {
    TrackedModel {
        id: turn.id@,
        items: turn.items@,
        status: turn.status,
        completed_at: turn.completed_at,
        item_ids,
    }
}

/// The position of the turn with an id, or the number of turns.
pub open spec fn turn_at(turns: Seq<TrackedModel>, id: Seq<char>) -> int
    decreases turns.len(),
{
    if turns.len() == 0 || turns[0].id == id {
        0
    } else {
        1 + turn_at(turns.subrange(1, turns.len() as int), id)
    }
}

proof fn lemma_turn_at(turns: Seq<TrackedModel>, id: Seq<char>, p: int)
    requires
        0 <= p <= turns.len(),
        p < turns.len() ==> turns[p].id == id,
        forall|k: int| 0 <= k < p ==> (#[trigger] turns[k]).id != id,
    ensures
        turn_at(turns, id) == p,
    decreases turns.len(),
{
    if turns.len() > 0 && p > 0 {
        let rest = turns.subrange(1, turns.len() as int);
        assert(turns[0].id != id);
        assert forall|k: int| 0 <= k < p - 1 implies (#[trigger] rest[k]).id != id by {
            assert(turns[k + 1].id != id);
        }
        lemma_turn_at(rest, id, p - 1);
    }
}

/// The turns after an event. A turn starts once; an item that matters is added to its turn once;
/// the end of a turn brings its status.
pub open spec fn merged(turns: Seq<TrackedModel>, event: BufferedEvent) -> Seq<TrackedModel> {
    match event {
        BufferedEvent::TurnStarted { turn, item_ids } => if turn_at(turns, turn.id@)
            < turns.len() {
            turns
        } else {
            turns.push(started(turn, item_ids.deep_view()))
        },
        BufferedEvent::ItemCompleted { turn_id, item_id, item } => {
            let t = turn_at(turns, turn_id@);
            if matters(item) && t < turns.len() && !turns[t].item_ids.contains(item_id@) {
                turns.update(
                    t,
                    TrackedModel {
                        items: turns[t].items.push(item),
                        item_ids: turns[t].item_ids.push(item_id@),
                        ..turns[t]
                    },
                )
            } else {
                turns
            }
        },
        BufferedEvent::TurnCompleted { turn_id, status, completed_at } => {
            let t = turn_at(turns, turn_id@);
            if t < turns.len() {
                turns.update(t, TrackedModel { status, completed_at, ..turns[t] })
            } else {
                turns
            }
        },
        BufferedEvent::Other => turns,
    }
}

/// The turns after some events, in order.
pub open spec fn all_merged(turns: Seq<TrackedModel>, events: Seq<BufferedEvent>) -> Seq<
    TrackedModel,
>
    decreases events.len(),
{
    if events.len() == 0 {
        turns
    } else {
        merged(all_merged(turns, events.drop_last()), events.last())
    }
}

fn find_turn(turns: &Vec<TrackedTurn>, id: &String) -> (r: Option<usize>)
    ensures
        match r {
            Some(t) => t < turns@.len() && t == turn_at(models(turns@), id@),
            None => turn_at(models(turns@), id@) == turns@.len(),
        },
{
    let mut t: usize = 0;
    while t < turns.len()
        invariant
            t <= turns@.len(),
            forall|k: int| 0 <= k < t ==> (#[trigger] models(turns@)[k]).id != id@,
        decreases turns@.len() - t,
    {
        assert(models(turns@)[t as int] == turns@[t as int]@);
        if turns[t].turn.id == *id {
            proof {
                lemma_turn_at(models(turns@), id@, t as int);
            }
            return Some(t);
        }
        t += 1;
    }
    proof {
        lemma_turn_at(models(turns@), id@, t as int);
    }
    None
}

fn contains_text(texts: &Vec<String>, text: &String) -> (r: bool)
    ensures
        r == texts.deep_view().contains(text@),
{
    let mut i: usize = 0;
    while i < texts.len()
        invariant
            i <= texts@.len(),
            forall|k: int| 0 <= k < i ==> (#[trigger] texts@[k])@ != text@,
        decreases texts@.len() - i,
    {
        if texts[i] == *text {
            assert(texts.deep_view()[i as int] == text@);
            return true;
        }
        i += 1;
    }
    proof {
        if texts.deep_view().contains(text@) {
            let k = choose|k: int| 0 <= k < texts.deep_view().len() && texts.deep_view()[k] == text@;
            assert(texts@[k]@ == text@);
        }
    }
    false
}

/// Takes an event that happened to a thread after its turns were read.
pub fn merge_event(turns: &mut Vec<TrackedTurn>, event: BufferedEvent)
    ensures
        models(final(turns)@) == merged(models(old(turns)@), event),
{
    let ghost before = turns@;
    let ghost all = models(before);
    match event {
        BufferedEvent::TurnStarted { turn, item_ids } => {
            if find_turn(turns, &turn.id).is_none() {
                let fresh = TrackedTurn { turn, item_ids };
                turns.push(fresh);
                assert(models(turns@) =~= all.push(fresh@));
            }
        },
        BufferedEvent::ItemCompleted { turn_id, item_id, item } => {
            let relevant = match &item {
                ThreadItem::UserMessage { .. } => true,
                ThreadItem::EnteredReviewMode { .. } => true,
                ThreadItem::ExitedReviewMode { .. } => true,
                _ => false,
            };
            if relevant {
                if let Some(t) = find_turn(turns, &turn_id) {
                    assert(all[t as int] == before[t as int]@);
                    if !contains_text(&turns[t].item_ids, &item_id) {
                        let ghost ids = turns@[t as int].item_ids.deep_view();
                        turns[t].turn.items.push(item);
                        turns[t].item_ids.push(item_id);
                        proof {
                            assert(turns@[t as int].item_ids.deep_view() =~= ids.push(item_id@));
                            assert(models(turns@) =~= merged(all, event));
                        }
                    }
                }
            }
            assert(models(turns@) =~= merged(all, event));
        },
        BufferedEvent::TurnCompleted { turn_id, status, completed_at } => {
            if let Some(t) = find_turn(turns, &turn_id) {
                assert(all[t as int] == before[t as int]@);
                turns[t].turn.status = status;
                turns[t].turn.completed_at = completed_at;
            }
            assert(models(turns@) =~= merged(all, event));
        },
        BufferedEvent::Other => {},
    }
}

/// The turns of a thread after what happened to it since they were read.
pub fn merge_events(turns: Vec<TrackedTurn>, events: Vec<BufferedEvent>) -> (r: Vec<TrackedTurn>)
    ensures
        models(r@) == all_merged(models(turns@), events@),
{
    let mut r = turns;
    let ghost all = events@;
    let count: usize = events.len();
    let mut i: usize = 0;
    assert(all.take(0) =~= Seq::empty());
    for event in it: events
        invariant
            it.seq() == all,
            all.len() == count,
            i == it.index(),
            models(r@) == all_merged(models(turns@), all.take(i as int)),
    {
        assert(event == all[i as int]);
        assert(all.take(i + 1).drop_last() =~= all.take(i as int));
        merge_event(&mut r, event);
        i += 1;
    }
    assert(all.take(i as int) =~= all);
    r
}

/// The turns without the ids of their items.
pub fn untracked(turns: Vec<TrackedTurn>) -> (r: Vec<Turn>)
    ensures
        r@ == turns@.map_values(|turn: TrackedTurn| turn.turn),
{
    let mut r: Vec<Turn> = Vec::new();
    let ghost all = turns@;
    let count: usize = turns.len();
    let mut i: usize = 0;
    for turn in it: turns
        invariant
            it.seq() == all,
            all.len() == count,
            i == it.index(),
            r@.len() == i,
            forall|k: int| 0 <= k < i ==> (#[trigger] r@[k]) == all[k].turn,
    {
        assert(turn == all[i as int]);
        r.push(turn.turn);
        i += 1;
    }
    assert(r@ =~= all.map_values(|turn: TrackedTurn| turn.turn));
    r
}

/// The message of a rollback that failed with what `error` says.
pub fn rollback_error_message(error: &str) -> (r: String)
    ensures
        r@ == "Failed to roll back before the selected prompt: "@ + error@,
{
    concat2("Failed to roll back before the selected prompt: ", error)
}

/// How many files a restore would bring back and how many it would leave; none where the preview
/// failed.
pub fn summarize_restore(preview: Option<&Vec<FileRestorePreviewEntry>>) -> (r:
    BacktrackFileRestoreSummary)
    ensures
        match preview {
            Some(files) => r.restorable == restore::restorable_count(files@) && r.restorable
                + r.blocked == files@.len(),
            None => r == (BacktrackFileRestoreSummary { restorable: 0, blocked: 0 }),
        },
{
    match preview {
        None => BacktrackFileRestoreSummary { restorable: 0, blocked: 0 },
        Some(files) => {
            let mut restorable: usize = 0;
            let mut i: usize = 0;
            assert(files@.take(0) =~= Seq::empty());
            while i < files.len()
                invariant
                    i <= files@.len(),
                    restorable <= i,
                    restorable == restore::restorable_count(files@.take(i as int)),
                decreases files@.len() - i,
            {
                assert(files@.take(i + 1).drop_last() =~= files@.take(i as int));
                if files[i].disposition == FileRestoreDisposition::Restorable {
                    restorable += 1;
                }
                i += 1;
            }
            assert(files@.take(i as int) =~= files@);
            BacktrackFileRestoreSummary { restorable, blocked: files.len() - restorable }
        },
    }
}

/// What a restore of files came to.
pub enum FileRestoreReport {
    /// How many files were restored, skipped and failed.
    Done { restored: usize, skipped: usize, failed: usize },
    /// The restore as a whole failed; holds what the error said.
    Failed(String),
}

/// Whether every file that was to be restored was.
pub open spec fn complete(report: FileRestoreReport) -> bool {
    report matches FileRestoreReport::Done { skipped, failed, .. } && skipped == 0 && failed == 0
}

/// A message to the user.
pub enum Notice {
    Info(String),
    Error(String),
}

/// What a request to restore starts with.
#[derive(Clone, Copy, Debug, PartialEq, Eq, Structural)]
pub enum RestoreStart {
    /// The request is for another thread, or none is being decided: nothing happens.
    Ignored,
    /// The files are to be restored first.
    RestoreFiles,
    /// The conversation is to be cut.
    CutConversation,
}

/// Whether a way to restore brings back files.
pub open spec fn restores_files(mode: BacktrackRestoreMode) -> bool {
    mode != BacktrackRestoreMode::Conversation
}

/// Whether a way to restore cuts the conversation.
pub open spec fn restores_conversation(mode: BacktrackRestoreMode) -> bool {
    mode != BacktrackRestoreMode::Code
}

/// What comes after the files.
#[derive(Clone, Copy, Debug, PartialEq, Eq, Structural)]
pub enum AfterFiles {
    /// The conversation is to be cut.
    CutConversation,
    /// Nothing more: only the code was to be restored.
    Done,
    /// Nothing more: some file was not restored, so the conversation and the checkpoints stay.
    Stopped,
}

/// What comes after the files.
pub open spec fn next_after_files(
    mode: BacktrackRestoreMode,
    report: FileRestoreReport,
) -> AfterFiles {
    if !restores_conversation(mode) {
        AfterFiles::Done
    } else if complete(report) {
        AfterFiles::CutConversation
    } else {
        AfterFiles::Stopped
    }
}

impl BacktrackState {
    /// Starts a restore. A request for another thread ends what was being decided; one that comes
    /// when nothing is being decided any more is stale and does nothing.
    pub fn start_restore(
        &mut self,
        current_thread: &Option<String>,
        thread_id: &String,
        mode: BacktrackRestoreMode,
    ) -> (r: RestoreStart)
        ensures
            if current_thread.deep_view() != Some(thread_id@) {
                r == RestoreStart::Ignored && *final(self) == (BacktrackState {
                    pending_rollback: None,
                    ..*old(self)
                })
            } else if old(self).pending_rollback is None {
                r == RestoreStart::Ignored && *final(self) == *old(self)
            } else {
                &&& r == if restores_files(mode) {
                    RestoreStart::RestoreFiles
                } else {
                    RestoreStart::CutConversation
                }
                &&& *final(self) == *old(self)
            },
    {
        let same_thread = match current_thread {
            Some(id) => *id == *thread_id,
            None => false,
        };
        if !same_thread {
            self.pending_rollback = None;
            return RestoreStart::Ignored;
        }
        if self.pending_rollback.is_none() {
            return RestoreStart::Ignored;
        }
        match mode {
            BacktrackRestoreMode::Conversation => RestoreStart::CutConversation,
            _ => RestoreStart::RestoreFiles,
        }
    }

    /// Goes on after the files. Where nothing more is to be done, nothing is being decided any
    /// more; where only the code was to be restored, the way back starts over.
    pub fn after_files(&mut self, mode: BacktrackRestoreMode, report: &FileRestoreReport) -> (r:
        AfterFiles)
        ensures
            r == next_after_files(mode, *report),
            *final(self) == match r {
                AfterFiles::CutConversation => *old(self),
                AfterFiles::Stopped => BacktrackState { pending_rollback: None, ..*old(self) },
                AfterFiles::Done => BacktrackState {
                    pending_rollback: None,
                    ..crate::backtrack::state::after_reset(*old(self))
                },
            },
    {
        let all_restored = match report {
            FileRestoreReport::Done { skipped, failed, .. } => *skipped == 0 && *failed == 0,
            FileRestoreReport::Failed(_) => false,
        };
        match mode {
            BacktrackRestoreMode::Code => {
                self.pending_rollback = None;
                self.reset_backtrack_state();
                AfterFiles::Done
            },
            _ => {
                if all_restored {
                    AfterFiles::CutConversation
                } else {
                    self.pending_rollback = None;
                    AfterFiles::Stopped
                }
            },
        }
    }
}

/// What follows the request to cut the conversation.
pub enum AfterCut {
    /// The conversation was cut. The prompt goes back to the composer and the checkpoints from the
    /// turn on are discarded; the history is complete where its boundary was loaded.
    Cut { prompt: UserMessage, history_complete: bool, cells_removed: bool },
    /// It was not. The prompt goes back to the composer and the error is shown.
    Failed { prompt: UserMessage, message: String },
}

impl BacktrackState {
    /// Goes on after the request to cut the conversation, and removes the cells that are gone.
    pub fn after_cut(
        &mut self,
        cells: &mut Vec<HistoryCell>,
        nth_user_message: usize,
        prompt: UserMessage,
        cut: Result<ThreadHistoryMode, String>,
        boundary_loaded: bool,
    ) -> (r: AfterCut)
        ensures
            match cut {
                Ok(mode) => {
                    &&& r matches AfterCut::Cut { prompt: p, history_complete, cells_removed } && p
                        == prompt && history_complete == (mode == ThreadHistoryMode::Paginated
                        && boundary_loaded) && crate::backtrack::state::rolled_back(
                        *old(self),
                        *final(self),
                        old(cells)@,
                        final(cells)@,
                        nth_user_message,
                        cells_removed,
                    )
                },
                Err(error) => {
                    &&& r matches AfterCut::Failed { prompt: p, message } && p == prompt
                        && message@ == "Failed to roll back before the selected prompt: "@ + error@
                    &&& *final(self) == (BacktrackState { pending_rollback: None, ..*old(self) })
                    &&& final(cells)@ == old(cells)@
                },
            },
    {
        match cut {
            Ok(mode) => {
                let cells_removed = self.handle_backtrack_rollback_succeeded(
                    cells,
                    nth_user_message,
                );
                AfterCut::Cut {
                    prompt,
                    history_complete: mode == ThreadHistoryMode::Paginated && boundary_loaded,
                    cells_removed,
                }
            },
            Err(error) => {
                self.handle_backtrack_rollback_failed();
                AfterCut::Failed { prompt, message: rollback_error_message(error.as_str()) }
            },
        }
    }
}

/// What the user is told of a restore of files.
pub open spec fn report_text(report: FileRestoreReport) -> Seq<char> {
    match report {
        FileRestoreReport::Done { restored, skipped, failed } => if skipped == 0 && failed == 0 {
            "Restored "@ + crate::text::decimal(restored as nat) + " tracked files."@
        } else {
            "Restored "@ + crate::text::decimal(restored as nat) + " tracked files; skipped "@
                + crate::text::decimal(skipped as nat) + "; failed "@ + crate::text::decimal(
                failed as nat,
            ) + "."@
        },
        FileRestoreReport::Failed(error) => "Failed to restore tracked files: "@ + error@,
    }
}

/// What the user is told of a restore of files.
pub fn restore_notice(report: &FileRestoreReport) -> (r: Notice)
    ensures
        match r {
            Notice::Info(text) => report is Done && text@ == report_text(*report),
            Notice::Error(text) => report is Failed && text@ == report_text(*report),
        },
{
    match report {
        FileRestoreReport::Done { restored, skipped, failed } => {
            let restored = decimal_string(*restored as u64);
            if *skipped == 0 && *failed == 0 {
                Notice::Info(concat3("Restored ", restored.as_str(), " tracked files."))
            } else {
                let skipped = decimal_string(*skipped as u64);
                let failed = decimal_string(*failed as u64);
                let mut text = concat3(
                    "Restored ",
                    restored.as_str(),
                    " tracked files; skipped ",
                );
                text.append(skipped.as_str());
                text.append("; failed ");
                text.append(failed.as_str());
                text.append(".");
                Notice::Info(text)
            }
        },
        FileRestoreReport::Failed(error) => Notice::Error(
            concat2("Failed to restore tracked files: ", error.as_str()),
        ),
    }
}

/// Where some file was not restored, the conversation is not cut, so that the restore can be
/// tried again.
pub proof fn incomplete_restore_keeps_the_conversation(
    mode: BacktrackRestoreMode,
    report: FileRestoreReport,
)
    requires
        restores_files(mode),
        !complete(report),
    ensures
        next_after_files(mode, report) != AfterFiles::CutConversation,
{
}

/// The same event twice in a row adds nothing the second time.
pub proof fn merging_twice_adds_nothing(turns: Seq<TrackedModel>, event: BufferedEvent)
    requires
        event is TurnStarted || event is ItemCompleted,
    ensures
        merged(merged(turns, event), event) == merged(turns, event),
{
    let again = merged(turns, event);
    match event {
        BufferedEvent::TurnStarted { turn, item_ids } => {
            lemma_turn_at_range(turns, turn.id@);
            if turn_at(turns, turn.id@) == turns.len() {
                lemma_turn_at(again, turn.id@, turns.len() as int);
            }
        },
        BufferedEvent::ItemCompleted { turn_id, item_id, item } => {
            lemma_turn_at_range(turns, turn_id@);
            let t = turn_at(turns, turn_id@);
            if matters(item) && t < turns.len() && !turns[t].item_ids.contains(item_id@) {
                let ids = turns[t].item_ids.push(item_id@);
                assert(ids[ids.len() - 1] == item_id@);
                assert(again[t].item_ids == ids);
                assert forall|k: int| 0 <= k < t implies (#[trigger] again[k]).id != turn_id@ by {
                    assert(again[k] == turns[k]);
                }
                lemma_turn_at(again, turn_id@, t);
            }
        },
        _ => {},
    }
}

proof fn lemma_turn_at_range(turns: Seq<TrackedModel>, id: Seq<char>)
    ensures
        0 <= turn_at(turns, id) <= turns.len(),
        turn_at(turns, id) < turns.len() ==> turns[turn_at(turns, id)].id == id,
        forall|k: int| 0 <= k < turn_at(turns, id) ==> (#[trigger] turns[k]).id != id,
    decreases turns.len(),
{
    if turns.len() > 0 && turns[0].id != id {
        let rest = turns.subrange(1, turns.len() as int);
        lemma_turn_at_range(rest, id);
        assert forall|k: int| 0 <= k < turn_at(turns, id) implies (#[trigger] turns[k]).id
            != id by {
            if k > 0 {
                assert(rest[k - 1] == turns[k]);
            }
        }
    }
}

/// What happens to one turn does not change another one, and no turn is lost or moved.
pub proof fn events_change_only_their_turn(
    turns: Seq<TrackedModel>,
    event: BufferedEvent,
    k: int,
)
    requires
        0 <= k < turns.len(),
    ensures
        turns.len() <= merged(turns, event).len() <= turns.len() + 1,
        merged(turns, event).len() == turns.len() + 1 ==> event is TurnStarted,
        merged(turns, event)[k].id == turns[k].id,
        turns[k].items.is_prefix_of(merged(turns, event)[k].items),
        event is TurnStarted || event is Other ==> merged(turns, event)[k] == turns[k],
        event matches BufferedEvent::ItemCompleted { turn_id, .. } && turn_id@ != turns[k].id
            ==> merged(turns, event)[k] == turns[k],
        event matches BufferedEvent::TurnCompleted { turn_id, .. } && turn_id@ != turns[k].id
            ==> merged(turns, event)[k] == turns[k],
{
    match event {
        BufferedEvent::ItemCompleted { turn_id, .. } => {
            lemma_turn_at_range(turns, turn_id@);
        },
        BufferedEvent::TurnCompleted { turn_id, .. } => {
            lemma_turn_at_range(turns, turn_id@);
        },
        _ => {},
    }
}

/// A new turn is added at the end with all that it brought. The end of a turn brings its status and
/// its time. A user message and the beginning and the end of a review are added to their turn
/// behind what it has, once each, and other items are not.
pub proof fn events_are_taken_over(
    turns: Seq<TrackedModel>,
    event: BufferedEvent,
    t: int,
)
    ensures
        event matches BufferedEvent::TurnStarted { turn, item_ids } ==> ((forall|k: int|
            0 <= k < turns.len() ==> (#[trigger] turns[k]).id != turn.id@) ==> {
            let all = merged(turns, event);
            &&& all.len() == turns.len() + 1
            &&& all.last().id == turn.id@
            &&& all.last().items == turn.items@
            &&& all.last().status == turn.status
            &&& all.last().completed_at == turn.completed_at
            &&& all.last().item_ids == item_ids.deep_view()
        }),
        event matches BufferedEvent::TurnCompleted { turn_id, status, completed_at } ==> (0 <= t
            < turns.len() && turns[t].id == turn_id@ && (forall|k: int|
            0 <= k < t ==> (#[trigger] turns[k]).id != turn_id@) ==> {
            let turn = merged(turns, event)[t];
            &&& turn.status == status
            &&& turn.completed_at == completed_at
            &&& turn.items == turns[t].items
        }),
        event matches BufferedEvent::ItemCompleted { turn_id, item_id, item } ==> (0 <= t < turns.len()
            && turns[t].id == turn_id@ && (forall|k: int|
            0 <= k < t ==> (#[trigger] turns[k]).id != turn_id@) ==> {
            let turn = merged(turns, event)[t];
            &&& turn.status == turns[t].status
            &&& turn.completed_at == turns[t].completed_at
            &&& if (item is UserMessage || item is EnteredReviewMode || item is ExitedReviewMode)
                && !turns[t].item_ids.contains(item_id@) {
                turn.items == turns[t].items.push(item) && turn.item_ids
                    == turns[t].item_ids.push(item_id@)
            } else {
                turn == turns[t]
            }
        }),
{
    match event {
        BufferedEvent::TurnStarted { turn, item_ids } => {
            if forall|k: int| 0 <= k < turns.len() ==> (#[trigger] turns[k]).id != turn.id@ {
                lemma_turn_at(turns, turn.id@, turns.len() as int);
            }
        },
        BufferedEvent::TurnCompleted { turn_id, .. } => {
            if 0 <= t < turns.len() && turns[t].id == turn_id@ && (forall|k: int|
                0 <= k < t ==> (#[trigger] turns[k]).id != turn_id@) {
                lemma_turn_at(turns, turn_id@, t);
            }
        },
        BufferedEvent::ItemCompleted { turn_id, .. } => {
            if 0 <= t < turns.len() && turns[t].id == turn_id@ && (forall|k: int|
                0 <= k < t ==> (#[trigger] turns[k]).id != turn_id@) {
                lemma_turn_at(turns, turn_id@, t);
            }
        },
        BufferedEvent::Other => {},
    }
}

/// Events are taken over one after the other: in two portions or in one comes to the same.
pub proof fn portions_of_events_do_not_matter(
    turns: Seq<TrackedModel>,
    first: Seq<BufferedEvent>,
    second: Seq<BufferedEvent>,
)
    ensures
        all_merged(turns, first + second) == all_merged(all_merged(turns, first), second),
        second.len() == 1 ==> all_merged(turns, second) == merged(turns, second[0]),
    decreases second.len(),
{
    if second.len() == 0 {
        assert(first + second =~= first);
    } else {
        portions_of_events_do_not_matter(turns, first, second.drop_last());
        assert((first + second).drop_last() =~= first + second.drop_last());
        if second.len() == 1 {
            assert(second.drop_last() =~= Seq::empty());
            assert(all_merged(turns, second.drop_last()) == turns);
        }
    }
}

/// The conversation is cut after the files only where it is to be restored with them and every
/// file was; files are restored first unless only the conversation is to be restored.
pub proof fn conversations_are_cut_after_complete_restores(
    mode: BacktrackRestoreMode,
    report: FileRestoreReport,
)
    ensures
        next_after_files(mode, report) == AfterFiles::Done <==> mode == BacktrackRestoreMode::Code,
        next_after_files(mode, report) == AfterFiles::CutConversation <==> mode
            != BacktrackRestoreMode::Code && (report matches FileRestoreReport::Done {
            skipped,
            failed,
            ..
        } && skipped == 0 && failed == 0),
        restores_files(mode) <==> mode == BacktrackRestoreMode::Code || mode
            == BacktrackRestoreMode::CodeAndConversation,
        restores_conversation(mode) <==> mode == BacktrackRestoreMode::Conversation || mode
            == BacktrackRestoreMode::CodeAndConversation,
{
}

/// The user is told how many files were brought back, and of those that were not as soon as there
/// are any; and of a restore that failed what the error said.
pub proof fn reports_count_every_outcome(restored: usize, skipped: usize, failed: usize, error: String)
    ensures
        report_text(FileRestoreReport::Done { restored, skipped: 0, failed: 0 }) == "Restored "@
            + crate::text::decimal(restored as nat) + " tracked files."@,
        skipped > 0 || failed > 0 ==> report_text(
            FileRestoreReport::Done { restored, skipped, failed },
        ) == "Restored "@ + crate::text::decimal(restored as nat) + " tracked files; skipped "@
            + crate::text::decimal(skipped as nat) + "; failed "@ + crate::text::decimal(
            failed as nat,
        ) + "."@,
        report_text(FileRestoreReport::Failed(error)) == "Failed to restore tracked files: "@
            + error@,
{
}

} // verus!
