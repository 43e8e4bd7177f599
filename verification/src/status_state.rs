//! What the status row of a session shows, and what it goes back to.

use crate::data::Data;
use crate::status_indicator::{
    ModelTransferPhase, ModelTransferStatus, STATUS_DETAILS_DEFAULT_MAX_LINES,
};
use crate::text::{self, concat2, concat3, decimal_string, join, same_text, starts_with};
use vstd::prelude::*;

verus! {

/// How the context of a session is compacted.
#[derive(Clone, Copy, Debug, PartialEq, Eq, Structural)]
pub enum CompactionStatusKind {
    Local,
    RemoteV1,
    RemoteV2,
}

impl CompactionStatusKind {
    /// The header of the status row during a compaction.
    pub fn header(self) -> (r: &'static str)
        ensures
            r@ == match self {
                CompactionStatusKind::Local => "Compacting locally"@,
                CompactionStatusKind::RemoteV1 => "Compacting remotely (v1)"@,
                CompactionStatusKind::RemoteV2 => "Compacting remotely (v2)"@,
            },
    {
        match self {
            CompactionStatusKind::Local => "Compacting locally",
            CompactionStatusKind::RemoteV1 => "Compacting remotely (v1)",
            CompactionStatusKind::RemoteV2 => "Compacting remotely (v2)",
        }
    }
}

/// The bytes that went to the model and came from it during a turn.
#[derive(Debug)]
pub struct ModelTransferAccumulator {
    pub phase: Option<ModelTransferPhase>,
    pub completed_sent_bytes: u64,
    pub completed_received_bytes: u64,
    pub request_sent_bytes: u64,
    pub request_received_bytes: u64,
}

/// The sum of two counts, at most the largest one.
pub open spec fn byte_sum(a: u64, b: u64) -> u64 {
    if a + b > u64::MAX {
        u64::MAX
    } else {
        (a + b) as u64
    }
}

/// The bytes sent and received over all requests.
pub open spec fn transferred(counts: ModelTransferAccumulator) -> (u64, u64) {
    (
        byte_sum(counts.completed_sent_bytes, counts.request_sent_bytes),
        byte_sum(counts.completed_received_bytes, counts.request_received_bytes),
    )
}

/// The counts after a report. A report of sending starts a request; another one tells the bytes
/// of the request so far.
pub open spec fn reported(
    counts: ModelTransferAccumulator,
    phase: ModelTransferPhase,
    sent: u64,
    received: u64,
) -> ModelTransferAccumulator {
    if phase == ModelTransferPhase::Sending {
        ModelTransferAccumulator {
            phase: Some(phase),
            completed_sent_bytes: if counts.phase is Some {
                transferred(counts).0
            } else {
                counts.completed_sent_bytes
            },
            completed_received_bytes: if counts.phase is Some {
                transferred(counts).1
            } else {
                counts.completed_received_bytes
            },
            request_sent_bytes: 0,
            request_received_bytes: 0,
        }
    } else {
        ModelTransferAccumulator {
            phase: Some(phase),
            request_sent_bytes: sent,
            request_received_bytes: received,
            ..counts
        }
    }
}

/// The counts before the first request.
pub open spec fn nothing_transferred() -> ModelTransferAccumulator {
    ModelTransferAccumulator {
        phase: None,
        completed_sent_bytes: 0,
        completed_received_bytes: 0,
        request_sent_bytes: 0,
        request_received_bytes: 0,
    }
}

impl ModelTransferAccumulator {
    /// The counts before the first request.
    pub fn new() -> (r: Self)
        ensures
            r == nothing_transferred(),
    {
        ModelTransferAccumulator {
            phase: None,
            completed_sent_bytes: 0,
            completed_received_bytes: 0,
            request_sent_bytes: 0,
            request_received_bytes: 0,
        }
    }

    /// Takes a report, and gives the counts over all requests.
    pub fn update(&mut self, phase: ModelTransferPhase, sent: u64, received: u64) -> (r:
        ModelTransferStatus)
        ensures
            *final(self) == reported(*old(self), phase, sent, received),
            r == (ModelTransferStatus {
                phase,
                sent_bytes: transferred(*final(self)).0,
                received_bytes: transferred(*final(self)).1,
            }),
    {
        if phase == ModelTransferPhase::Sending {
            if self.phase.is_some() {
                self.completed_sent_bytes =
                self.completed_sent_bytes.saturating_add(self.request_sent_bytes);
                self.completed_received_bytes =
                self.completed_received_bytes.saturating_add(self.request_received_bytes);
            }
            self.request_sent_bytes = 0;
            self.request_received_bytes = 0;
        } else {
            self.request_sent_bytes = sent;
            self.request_received_bytes = received;
        }
        self.phase = Some(phase);
        ModelTransferStatus {
            phase,
            sent_bytes: self.completed_sent_bytes.saturating_add(self.request_sent_bytes),
            received_bytes: self.completed_received_bytes.saturating_add(
                self.request_received_bytes,
            ),
        }
    }
}

/// What the status row shows.
#[derive(Debug, PartialEq, Eq)]
pub struct StatusIndicatorState {
    pub header: String,
    pub details: Option<String>,
    pub details_max_lines: usize,
}

/// The model of what the status row shows.
pub ghost struct StatusModel {
    pub header: Seq<char>,
    pub details: Option<Seq<char>>,
    pub details_max_lines: usize,
}

impl DeepView for StatusIndicatorState {
    type V = StatusModel;

    open spec fn deep_view(&self) -> Self::V {
        StatusModel {
            header: self.header@,
            details: self.details.deep_view(),
            details_max_lines: self.details_max_lines,
        }
    }
}

impl Data for StatusIndicatorState {
    fn same(&self, other: &Self) -> (r: bool) {
        self.header.same(&other.header) && self.details.same(&other.details)
            && self.details_max_lines == other.details_max_lines
    }

    fn duplicate(&self) -> (r: Self) {
        StatusIndicatorState {
            header: self.header.duplicate(),
            details: self.details.duplicate(),
            details_max_lines: self.details_max_lines,
        }
    }
}

/// A status of a header alone.
pub open spec fn plain_status(header: Seq<char>) -> StatusModel {
    StatusModel { header, details: None, details_max_lines: STATUS_DETAILS_DEFAULT_MAX_LINES }
}

impl StatusIndicatorState {
    /// The status of an agent that works.
    pub fn working() -> (r: Self)
        ensures
            r.deep_view() == plain_status("Working"@),
    {
        StatusIndicatorState {
            header: "Working".to_owned(),
            details: None,
            details_max_lines: STATUS_DETAILS_DEFAULT_MAX_LINES,
        }
    }

    /// Whether the status tells of reviews of approval requests.
    pub fn is_guardian_review(&self) -> (r: bool)
        ensures
            r == (self.header@ == "Reviewing approval request"@ || text::has_prefix(
                self.header@,
                "Reviewing "@,
            )),
    {
        same_text(self.header.as_str(), "Reviewing approval request") || starts_with(
            self.header.as_str(),
            "Reviewing ",
        )
    }
}

/// The states that the title of the terminal tells apart.
#[derive(Clone, Copy, Debug, PartialEq, Eq, Structural)]
pub enum TerminalTitleStatusKind {
    Working,
    WaitingForBackgroundTerminal,
    Thinking,
}

/// A review of an approval request that is not finished.
#[derive(Debug, PartialEq, Eq)]
pub struct PendingGuardianReviewStatusEntry {
    pub id: String,
    pub detail: String,
}

impl DeepView for PendingGuardianReviewStatusEntry {
    type V = (Seq<char>, Seq<char>);

    open spec fn deep_view(&self) -> Self::V {
        (self.id@, self.detail@)
    }
}

/// The reviews of approval requests that are not finished, in the order in which they started.
#[derive(Debug, PartialEq, Eq)]
pub struct PendingGuardianReviewStatus {
    pub entries: Vec<PendingGuardianReviewStatusEntry>,
}

impl DeepView for PendingGuardianReviewStatus {
    type V = Seq<(Seq<char>, Seq<char>)>;

    open spec fn deep_view(&self) -> Self::V {
        self.entries.deep_view()
    }
}

/// The place of the first review with an id; the number of reviews where there is none.
pub open spec fn review_at(entries: Seq<(Seq<char>, Seq<char>)>, id: Seq<char>) -> int
    decreases entries.len(),
{
    if entries.len() == 0 {
        0
    } else if entries[0].0 == id {
        0
    } else {
        1 + review_at(entries.subrange(1, entries.len() as int), id)
    }
}

/// The reviews after one started or told a new detail.
pub open spec fn review_started(
    entries: Seq<(Seq<char>, Seq<char>)>,
    id: Seq<char>,
    detail: Seq<char>,
) -> Seq<(Seq<char>, Seq<char>)> {
    let at = review_at(entries, id);
    if at < entries.len() {
        entries.update(at, (id, detail))
    } else {
        entries.push((id, detail))
    }
}

/// The reviews without those of an id.
pub open spec fn reviews_without(entries: Seq<(Seq<char>, Seq<char>)>, id: Seq<char>) -> Seq<
    (Seq<char>, Seq<char>),
>
    decreases entries.len(),
{
    if entries.len() == 0 {
        Seq::empty()
    } else {
        let rest = reviews_without(entries.drop_last(), id);
        if entries.last().0 == id {
            rest
        } else {
            rest.push(entries.last())
        }
    }
}

/// The details of the first reviews, each behind a bullet.
pub open spec fn bullets(entries: Seq<(Seq<char>, Seq<char>)>, count: int) -> Seq<Seq<char>> {
    Seq::new(
        if count < 0 {
            0
        } else {
            count as nat
        },
        |i: int| "\u{2022} "@ + entries[i].1,
    )
}

/// What the status row shows of reviews.
pub open spec fn review_status(entries: Seq<(Seq<char>, Seq<char>)>) -> Option<StatusModel> {
    if entries.len() == 0 {
        None
    } else if entries.len() == 1 {
        Some(
            StatusModel {
                header: "Reviewing approval request"@,
                details: Some(entries[0].1),
                details_max_lines: 1,
            },
        )
    } else {
        let lines = if entries.len() <= 3 {
            bullets(entries, entries.len() as int)
        } else {
            bullets(entries, 3).push("+"@ + text::decimal((entries.len() - 3) as nat) + " more"@)
        };
        Some(
            StatusModel {
                header: "Reviewing "@ + text::decimal(entries.len()) + " approval requests"@,
                details: Some(text::joined(lines, "\n"@)),
                details_max_lines: 4,
            },
        )
    }
}

impl PendingGuardianReviewStatus {
    /// No reviews.
    pub fn new() -> (r: Self)
        ensures
            r.deep_view() == Seq::<(Seq<char>, Seq<char>)>::empty(),
    {
        let r = PendingGuardianReviewStatus { entries: Vec::new() };
        assert(r.entries.deep_view() =~= Seq::empty());
        r
    }

    fn find(&self, id: &str) -> (r: usize)
        ensures
            r == review_at(self.deep_view(), id@),
            r <= self.entries@.len(),
    {
        let ghost all = self.entries.deep_view();
        let mut i: usize = 0;
        assert(all.subrange(0, all.len() as int) =~= all);
        while i < self.entries.len()
            invariant
                i <= self.entries@.len(),
                all == self.entries.deep_view(),
                all == self.deep_view(),
                review_at(all, id@) == i + review_at(
                    all.subrange(i as int, all.len() as int),
                    id@,
                ),
            decreases self.entries@.len() - i,
        {
            let ghost rest = all.subrange(i as int, all.len() as int);
            assert(rest[0] == self.entries@[i as int].deep_view());
            if same_text(self.entries[i].id.as_str(), id) {
                return i;
            }
            assert(rest.subrange(1, rest.len() as int) =~= all.subrange(i + 1, all.len() as int));
            i += 1;
        }
        i
    }

    /// Takes note of a review that started, or of its new detail.
    pub fn start_or_update(&mut self, id: String, detail: String)
        ensures
            final(self).deep_view() == review_started(old(self).deep_view(), id@, detail@),
    {
        let ghost was = self.entries.deep_view();
        let at = self.find(id.as_str());
        assert(was.len() == self.entries@.len());
        if at < self.entries.len() {
            self.entries.set(at, PendingGuardianReviewStatusEntry { id, detail });
            assert(self.entries.deep_view() =~= was.update(at as int, (id@, detail@)));
        } else {
            self.entries.push(PendingGuardianReviewStatusEntry { id, detail });
            assert(self.entries.deep_view() =~= was.push((id@, detail@)));
        }
    }

    /// Takes note that a review finished, and says whether there was one.
    pub fn finish(&mut self, id: &str) -> (r: bool)
        ensures
            final(self).deep_view() == reviews_without(old(self).deep_view(), id@),
            r == (final(self).deep_view().len() != old(self).deep_view().len()),
    {
        let ghost was = self.entries.deep_view();
        let mut kept: Vec<PendingGuardianReviewStatusEntry> = Vec::new();
        let mut i: usize = 0;
        assert(was.take(0) =~= Seq::empty());
        assert(kept.deep_view() =~= Seq::empty());
        while i < self.entries.len()
            invariant
                i <= self.entries@.len(),
                was == self.entries.deep_view(),
                kept.deep_view() == reviews_without(was.take(i as int), id@),
            decreases self.entries@.len() - i,
        {
            let ghost before = kept.deep_view();
            assert(was.take(i + 1).drop_last() =~= was.take(i as int));
            assert(was.take(i + 1).last() == self.entries@[i as int].deep_view());
            if !same_text(self.entries[i].id.as_str(), id) {
                kept.push(
                    PendingGuardianReviewStatusEntry {
                        id: self.entries[i].id.clone(),
                        detail: self.entries[i].detail.clone(),
                    },
                );
                assert(kept.deep_view() =~= before.push(was[i as int]));
            }
            i += 1;
        }
        assert(was.take(i as int) =~= was);
        let changed = kept.len() != self.entries.len();
        assert(kept.deep_view().len() == kept@.len());
        self.entries = kept;
        changed
    }

    /// Forgets all reviews.
    pub fn clear(&mut self)
        ensures
            final(self).deep_view() == Seq::<(Seq<char>, Seq<char>)>::empty(),
    {
        self.entries.clear();
        assert(self.entries.deep_view() =~= Seq::empty());
    }

    /// Whether there are no reviews.
    pub fn is_empty(&self) -> (r: bool)
        ensures
            r == (self.deep_view().len() == 0),
    {
        assert(self.entries.deep_view().len() == self.entries@.len());
        self.entries.len() == 0
    }

    /// What the status row shows while reviews are not finished.
    pub fn status_indicator_state(&self) -> (r: Option<StatusIndicatorState>)
        ensures
            r.deep_view() == review_status(self.deep_view()),
    {
        let ghost all = self.entries.deep_view();
        let len: usize = self.entries.len();
        assert(all.len() == len);
        if len == 0 {
            return None;
        }
        if len == 1 {
            assert(all[0].1 == self.entries@[0].detail@);
            return Some(
                StatusIndicatorState {
                    header: "Reviewing approval request".to_owned(),
                    details: Some(self.entries[0].detail.clone()),
                    details_max_lines: 1,
                },
            );
        }
        let shown: usize = if len < 3 {
            len
        } else {
            3
        };
        let mut lines: Vec<String> = Vec::new();
        let mut i: usize = 0;
        assert(lines.deep_view() =~= bullets(all, 0));
        while i < shown
            invariant
                i <= shown,
                shown <= len,
                len == self.entries@.len(),
                all == self.entries.deep_view(),
                lines.deep_view() == bullets(all, i as int),
            decreases shown - i,
        {
            let ghost before = lines.deep_view();
            let line = concat2("\u{2022} ", self.entries[i].detail.as_str());
            assert(all[i as int].1 == self.entries@[i as int].detail@);
            lines.push(line);
            assert(lines.deep_view() =~= before.push(line@));
            assert(lines.deep_view() =~= bullets(all, i + 1));
            i += 1;
        }
        if len > 3 {
            let ghost before = lines.deep_view();
            let line = concat3("+", decimal_string((len - 3) as u64).as_str(), " more");
            lines.push(line);
            assert(lines.deep_view() =~= before.push(line@));
        }
        let header = concat3(
            "Reviewing ",
            decimal_string(len as u64).as_str(),
            " approval requests",
        );
        Some(
            StatusIndicatorState {
                header,
                details: Some(join(&lines, "\n")),
                details_max_lines: 4,
            },
        )
    }
}

/// What the status row of a session shows, and what it goes back to.
#[derive(Debug)]
pub struct StatusState {
    pub current_status: StatusIndicatorState,
    pub active_compaction: Option<CompactionStatusKind>,
    pub pre_compaction_status: Option<StatusIndicatorState>,
    pub pending_guardian_review_status: PendingGuardianReviewStatus,
    pub waiting_status: Option<StatusIndicatorState>,
    pub terminal_title_status_kind: TerminalTitleStatusKind,
    pub retry_status_header: Option<String>,
    pub pending_status_indicator_restore: bool,
    pub thread_title_generation_pending: bool,
    pub model_transfer: ModelTransferAccumulator,
}

/// What the status row shows, and what it goes back to when all waiting is over.
pub ghost struct WaitModel {
    pub current: StatusModel,
    pub waiting: Option<StatusModel>,
}

/// A new status is shown, or kept for later while the agent waits.
pub open spec fn status_set(row: WaitModel, status: StatusModel) -> WaitModel {
    match row.waiting {
        None => WaitModel { current: status, ..row },
        Some(_) => if status.header == "Waiting"@ {
            row
        } else {
            WaitModel { waiting: Some(status), ..row }
        },
    }
}

/// The agent waits.
pub open spec fn waiting_begun(row: WaitModel) -> WaitModel {
    WaitModel {
        current: plain_status("Waiting"@),
        waiting: match row.waiting {
            Some(status) => Some(status),
            None => Some(row.current),
        },
    }
}

/// Waiting is over.
pub open spec fn waiting_finished(row: WaitModel) -> WaitModel {
    match row.waiting {
        Some(status) => WaitModel { current: status, waiting: None },
        None => row,
    }
}

impl StatusState {
    /// What the status row shows, and what it goes back to when all waiting is over.
    pub open spec fn row(&self) -> WaitModel {
        WaitModel {
            current: self.current_status.deep_view(),
            waiting: self.waiting_status.deep_view(),
        }
    }

    /// Whether everything but the shown status and the one behind it is as before.
    pub open spec fn same_but_row(&self, before: StatusState) -> bool {
        *self == (StatusState {
            current_status: self.current_status,
            waiting_status: self.waiting_status,
            ..before
        })
    }

    /// The state of a new session.
    pub fn new() -> (r: Self)
        ensures
            r.row() == (WaitModel { current: plain_status("Working"@), waiting: None }),
            r.active_compaction is None,
            r.pre_compaction_status is None,
            r.pending_guardian_review_status.deep_view().len() == 0,
            r.terminal_title_status_kind == TerminalTitleStatusKind::Working,
            r.retry_status_header is None,
            !r.pending_status_indicator_restore,
            !r.thread_title_generation_pending,
            r.model_transfer == nothing_transferred(),
    {
        StatusState {
            current_status: StatusIndicatorState::working(),
            active_compaction: None,
            pre_compaction_status: None,
            pending_guardian_review_status: PendingGuardianReviewStatus::new(),
            waiting_status: None,
            terminal_title_status_kind: TerminalTitleStatusKind::Working,
            retry_status_header: None,
            pending_status_indicator_restore: false,
            thread_title_generation_pending: false,
            model_transfer: ModelTransferAccumulator::new(),
        }
    }

    /// Shows a new status; while the agent waits, keeps it for later.
    pub fn set_status(&mut self, status: StatusIndicatorState)
        ensures
            final(self).row() == status_set(old(self).row(), status.deep_view()),
            final(self).same_but_row(*old(self)),
    {
        if self.waiting_status.is_some() {
            if !same_text(status.header.as_str(), "Waiting") {
                self.waiting_status = Some(status);
            }
        } else {
            self.current_status = status;
        }
    }

    /// Shows that the agent waits, and keeps what was shown for later.
    pub fn begin_waiting(&mut self) -> (r: StatusIndicatorState)
        ensures
            final(self).row() == waiting_begun(old(self).row()),
            final(self).same_but_row(*old(self)),
            r.deep_view() == final(self).row().current,
    {
        if self.waiting_status.is_none() {
            self.waiting_status = Some(self.current_status.duplicate());
        }
        self.current_status =
        StatusIndicatorState {
            header: "Waiting".to_owned(),
            details: None,
            details_max_lines: STATUS_DETAILS_DEFAULT_MAX_LINES,
        };
        self.current_status.duplicate()
    }

    /// Goes back from waiting; gives what is shown again, and nothing where the agent did not
    /// wait.
    pub fn finish_waiting(&mut self) -> (r: Option<StatusIndicatorState>)
        ensures
            final(self).row() == waiting_finished(old(self).row()),
            final(self).same_but_row(*old(self)),
            r.deep_view() == old(self).row().waiting,
    {
        match self.waiting_status.take() {
            Some(previous) => {
                self.current_status = previous.duplicate();
                Some(previous)
            },
            None => None,
        }
    }

    /// Begins a compaction, and keeps what was shown before the first one.
    pub fn begin_compaction(&mut self, kind: CompactionStatusKind)
        ensures
            final(self).active_compaction == Some(kind),
            final(self).pre_compaction_status.deep_view() == (if old(self).active_compaction is None {
                Some(old(self).current_status.deep_view())
            } else {
                old(self).pre_compaction_status.deep_view()
            }),
            *final(self) == (StatusState {
                active_compaction: final(self).active_compaction,
                pre_compaction_status: final(self).pre_compaction_status,
                ..*old(self)
            }),
    {
        if self.active_compaction.is_none() {
            self.pre_compaction_status = Some(self.current_status.duplicate());
        }
        self.active_compaction = Some(kind);
    }

    /// Ends a compaction, and gives what was shown before.
    pub fn finish_compaction(&mut self) -> (r: Option<StatusIndicatorState>)
        ensures
            r == old(self).pre_compaction_status,
            *final(self) == (StatusState {
                active_compaction: None,
                pre_compaction_status: None,
                ..*old(self)
            }),
    {
        self.active_compaction = None;
        self.pre_compaction_status.take()
    }

    /// Takes the header that was shown before a retry; there is none afterwards.
    pub fn take_retry_status_header(&mut self) -> (r: Option<String>)
        ensures
            r == old(self).retry_status_header,
            *final(self) == (StatusState { retry_status_header: None, ..*old(self) }),
    {
        self.retry_status_header.take()
    }

    /// Keeps the header that is shown before the first retry.
    pub fn remember_retry_status_header(&mut self)
        ensures
            final(self).retry_status_header.deep_view() == (if old(self).retry_status_header is None {
                Some(old(self).current_status.header@)
            } else {
                old(self).retry_status_header.deep_view()
            }),
            *final(self) == (StatusState {
                retry_status_header: final(self).retry_status_header,
                ..*old(self)
            }),
    {
        if self.retry_status_header.is_none() {
            self.retry_status_header = Some(self.current_status.header.clone());
        }
    }

    /// Forgets the bytes that went to the model and came from it.
    pub fn reset_model_transfer(&mut self)
        ensures
            *final(self) == (StatusState { model_transfer: nothing_transferred(), ..*old(self) }),
    {
        self.model_transfer = ModelTransferAccumulator::new();
    }

    /// Takes a report on the bytes of a request. What the row shows stays, and so does the header
    /// that was shown before a retry.
    pub fn update_model_transfer(&mut self, phase: ModelTransferPhase, sent: u64, received: u64)
        -> (r: ModelTransferStatus)
        ensures
            *final(self) == (StatusState {
                model_transfer: reported(old(self).model_transfer, phase, sent, received),
                ..*old(self)
            }),
            r == (ModelTransferStatus {
                phase,
                sent_bytes: transferred(final(self).model_transfer).0,
                received_bytes: transferred(final(self).model_transfer).1,
            }),
    {
        self.model_transfer.update(phase, sent, received)
    }
}

/// However often the agent began to wait, the end of waiting shows the last status that came
/// meanwhile.
pub proof fn waiting_shows_the_last_status(row: WaitModel, status: StatusModel)
    requires
        status.header != "Waiting"@,
    ensures
        status_set(waiting_begun(row), status).current == plain_status("Waiting"@),
        waiting_finished(status_set(waiting_begun(row), status)) == (WaitModel {
            current: status,
            waiting: None,
        }),
        waiting_finished(waiting_begun(status_set(waiting_begun(row), status))) == (WaitModel {
            current: status,
            waiting: None,
        }),
{
}

/// Waiting changes nothing by itself: where no status comes meanwhile, its end shows what was
/// shown before.
pub proof fn waiting_is_undone(row: WaitModel)
    requires
        row.waiting is None,
    ensures
        waiting_finished(waiting_begun(row)) == row,
        waiting_begun(waiting_begun(row)) == waiting_begun(row),
{
}

/// The start of another request loses no bytes of those before, and counts none twice.
pub proof fn next_request_keeps_totals(counts: ModelTransferAccumulator, sent: u64, received: u64)
    requires
        counts.phase is Some,
    ensures
        transferred(reported(counts, ModelTransferPhase::Sending, sent, received)) == transferred(
            counts,
        ),
{
}

/// A review that finished is no longer pending, and no other review is lost.
pub proof fn finished_reviews_are_gone(
    entries: Seq<(Seq<char>, Seq<char>)>,
    id: Seq<char>,
    other: (Seq<char>, Seq<char>),
)
    ensures
        reviews_without(entries, id).contains(other) <==> entries.contains(other) && other.0 != id,
    decreases entries.len(),
{
    if entries.len() > 0 {
        let front = entries.drop_last();
        finished_reviews_are_gone(front, id, other);
        let rest = reviews_without(front, id);
        assert(entries =~= front.push(entries.last()));
        if entries.contains(other) {
            let i = choose|i: int| 0 <= i < entries.len() && entries[i] == other;
            if i < front.len() {
                assert(front[i] == other);
            }
        }
        if front.contains(other) {
            let i = choose|i: int| 0 <= i < front.len() && front[i] == other;
            assert(entries[i] == other);
        }
        assert(entries[entries.len() - 1] == entries.last());
        if entries.last().0 != id {
            let all = rest.push(entries.last());
            if rest.contains(other) {
                let i = choose|i: int| 0 <= i < rest.len() && rest[i] == other;
                assert(all[i] == other);
            }
            if all.contains(other) {
                let i = choose|i: int| 0 <= i < all.len() && all[i] == other;
                if i < rest.len() {
                    assert(rest[i] == other);
                }
            }
            assert(all[rest.len() as int] == entries.last());
        }
    }
}

/// The row tells what went over all requests of a turn: the bytes of the earlier ones and those
/// that the running one has reported last.
pub proof fn bytes_of_all_requests_add_up(s1: u64, r1: u64, s2: u64, r2: u64, s3: u64, r3: u64)
    requires
        s1 + s3 <= u64::MAX,
        r1 + r3 <= u64::MAX,
    ensures
        ({
            let first = reported(nothing_transferred(), ModelTransferPhase::Sending, 0, 0);
            let answered = reported(first, ModelTransferPhase::Receiving, s1, r1);
            let second = reported(answered, ModelTransferPhase::Sending, 0, 0);
            let begun = reported(second, ModelTransferPhase::Receiving, s2, r2);
            let done = reported(begun, ModelTransferPhase::Receiving, s3, r3);
            &&& transferred(first) == (0u64, 0u64)
            &&& transferred(answered) == (s1, r1)
            &&& transferred(second) == (s1, r1)
            &&& transferred(done) == ((s1 + s3) as u64, (r1 + r3) as u64)
            &&& done.phase == Some(ModelTransferPhase::Receiving)
            &&& second.phase == Some(ModelTransferPhase::Sending)
        }),
{
}

/// Counts never turn over: past the largest number they stay there.
pub proof fn counts_do_not_turn_over(a: u64, b: u64)
    ensures
        byte_sum(a, b) >= a,
        byte_sum(a, b) >= b,
        byte_sum(a, b) == byte_sum(b, a),
        a + b <= u64::MAX ==> byte_sum(a, b) == a + b,
        a + b > u64::MAX ==> byte_sum(a, b) == u64::MAX,
{
}

/// While nothing is waited for, a status is shown at once; while something is, the row says so
/// and goes on saying so, whatever status comes.
pub proof fn statuses_are_shown_unless_waiting(row: WaitModel, status: StatusModel)
    ensures
        row.waiting is None ==> status_set(row, status).current == status && status_set(
            row,
            status,
        ).waiting is None,
        row.waiting is Some ==> status_set(row, status).current == row.current && status_set(
            row,
            status,
        ).waiting is Some,
        waiting_begun(row).current.header == "Waiting"@,
        waiting_begun(row).current.details is None,
        waiting_begun(row).waiting is Some,
        row.waiting is None ==> waiting_begun(row).waiting == Some(row.current),
        waiting_finished(row).waiting is None,
        row.waiting is None ==> waiting_finished(row) == row,
{
}

proof fn lemma_review_at(entries: Seq<(Seq<char>, Seq<char>)>, id: Seq<char>)
    ensures
        0 <= review_at(entries, id) <= entries.len(),
        review_at(entries, id) < entries.len() ==> entries[review_at(entries, id)].0 == id,
        forall|k: int| 0 <= k < review_at(entries, id) ==> (#[trigger] entries[k]).0 != id,
    decreases entries.len(),
{
    if entries.len() > 0 && entries[0].0 != id {
        let rest = entries.subrange(1, entries.len() as int);
        lemma_review_at(rest, id);
        assert forall|k: int| 0 <= k < review_at(entries, id) implies (#[trigger] entries[k]).0
            != id by {
            if k > 0 {
                assert(rest[k - 1] == entries[k]);
            }
        }
        let at = review_at(rest, id);
        if at < rest.len() {
            assert(rest[at] == entries[at + 1]);
        }
    }
}

/// A review that starts stands last; one that tells a new detail keeps its place. The other
/// reviews stay as they are.
pub proof fn reviews_keep_their_places(
    entries: Seq<(Seq<char>, Seq<char>)>,
    id: Seq<char>,
    detail: Seq<char>,
) -> (at: int)
    ensures
        ({
            let after = review_started(entries, id, detail);
            &&& 0 <= at < after.len()
            &&& after[at] == (id, detail)
            &&& at < entries.len() ==> entries[at].0 == id && after.len() == entries.len()
            &&& at >= entries.len() ==> after.len() == entries.len() + 1 && forall|k: int|
                0 <= k < entries.len() ==> (#[trigger] entries[k]).0 != id
            &&& forall|k: int|
                0 <= k < entries.len() && k != at ==> (#[trigger] after[k]) == entries[k]
        }),
{
    lemma_review_at(entries, id);
    review_at(entries, id)
}

/// Reviews are told by their details: of one review its detail, of some more each of them on a
/// line of its own, and of many the first three and how many more there are.
pub proof fn reviews_are_told_by_their_details(entries: Seq<(Seq<char>, Seq<char>)>)
    ensures
        entries.len() == 0 <==> review_status(entries) is None,
        review_status(entries) matches Some(status) ==> {
            &&& status.details is Some
            &&& entries.len() == 1 ==> status.details == Some(entries[0].1)
                && status.details_max_lines == 1 && status.header == "Reviewing approval request"@
            &&& entries.len() > 1 ==> status.header == "Reviewing "@ + text::decimal(entries.len())
                + " approval requests"@ && status.details_max_lines == 4
            &&& entries.len() == 2 ==> status.details->0 == "\u{2022} "@ + entries[0].1 + "\n"@
                + "\u{2022} "@ + entries[1].1
            &&& entries.len() == 3 ==> status.details->0 == "\u{2022} "@ + entries[0].1 + "\n"@
                + "\u{2022} "@ + entries[1].1 + "\n"@ + "\u{2022} "@ + entries[2].1
            &&& entries.len() > 3 ==> status.details->0 == "\u{2022} "@ + entries[0].1 + "\n"@
                + "\u{2022} "@ + entries[1].1 + "\n"@ + "\u{2022} "@ + entries[2].1 + "\n"@ + "+"@
                + text::decimal((entries.len() - 3) as nat) + " more"@
        },
{
    if entries.len() > 1 {
        let first = bullets(entries, 1);
        let two = bullets(entries, 2);
        let three = bullets(entries, 3);
        assert(two.drop_last() =~= first);
        assert(three.drop_last() =~= two);
        assert(text::joined(first, "\n"@) == first[0]);
        assert(text::joined(two, "\n"@) =~= "\u{2022} "@ + entries[0].1 + "\n"@ + "\u{2022} "@
            + entries[1].1);
        assert(text::joined(three, "\n"@) =~= "\u{2022} "@ + entries[0].1 + "\n"@ + "\u{2022} "@
            + entries[1].1 + "\n"@ + "\u{2022} "@ + entries[2].1);
        if entries.len() > 3 {
            let more = "+"@ + text::decimal((entries.len() - 3) as nat) + " more"@;
            let four = three.push(more);
            assert(four.drop_last() =~= three);
            assert(text::joined(four, "\n"@) =~= "\u{2022} "@ + entries[0].1 + "\n"@
                + "\u{2022} "@ + entries[1].1 + "\n"@ + "\u{2022} "@ + entries[2].1 + "\n"@ + "+"@
                + text::decimal((entries.len() - 3) as nat) + " more"@);
        }
    }
}

} // verus!
