//! The steps of a revert: what is asked of the databases and the files, in which order, and where
//! each answer leads.

use crate::revert::{
    self, check_source, finish_revert, has_first_line, known_thread, needs_rebuilt_projection,
    path_changed, plan_revert, rebuild_rollout, replace_metadata, retained_rollout_lines,
    revert_failure, supported, CurrentRollout, LinesResult, PathUpdate, ProjectionState,
    RevertFailure, RevertPlan, RolloutSegment, SessionMeta, TargetTurn, ThreadStoreError,
};
use vstd::prelude::*;

verus! {

/// What is to be reverted.
pub struct RevertRequest {
    pub thread_id: String,
    pub before_turn_id: String,
    /// The version to go on with; that of the rollout where there is none.
    pub multi_agent_version: Option<String>,
}

/// What is to be done next.
pub enum RevertAction {
    /// Ask for the database of threads.
    OpenDatabase,
    /// Lock the thread against its writers.
    Lock,
    /// Read the path of the rollout that the database holds.
    ReadThread,
    /// Look for the rollout that the thread writes to.
    ResolveRollout,
    /// Read the first line of a rollout.
    ReadMetadata { path: String },
    /// Bring the projections of the history up to date, and look for a turn.
    FindTurn { turn_id: String },
    /// Read the rollouts of the history.
    ReadHistory,
    /// Make sure that a rollout is there as a plain file.
    MaterializeRollout { path: String },
    /// Cut the projection where the file will be cut.
    TruncateProjection { truncate_at: u64, ordinal: i64 },
    /// Cut a file.
    TruncateFile { path: String, truncate_at: u64 },
    /// Read a file.
    ReadFile { path: String },
    /// Encode a metadata line.
    EncodeMetadata { meta: SessionMeta },
    /// Write a file.
    WriteFile { path: String, contents: Vec<u8> },
    /// Build the projection anew from a file.
    RebuildProjection { path: String },
    /// Replace the path that the database holds, if it is still the expected one.
    ReplacePath { expected: String, actual: String },
    /// Nothing: the revert is over.
    Finish(Result<(), ThreadStoreError>),
}

/// What came of an action. Texts say what an error said.
pub enum RevertEvent {
    Database(bool),
    Locked(Result<(), ThreadStoreError>),
    Thread(Result<Option<String>, String>),
    Rollout(Result<Option<(CurrentRollout, String)>, ThreadStoreError>),
    Metadata(Result<SessionMeta, String>),
    Turn(Result<TargetTurn, ThreadStoreError>),
    History(Result<Vec<RolloutSegment>, ThreadStoreError>),
    /// The path of the plain file.
    Materialized(Result<String, String>),
    /// Whether the projection was cut.
    ProjectionTruncated(Result<bool, ThreadStoreError>),
    FileRead(Result<Vec<u8>, String>),
    Encoded(Result<Vec<u8>, String>),
    FileChanged(Result<(), String>),
    ProjectionRebuilt(Result<(), ThreadStoreError>),
    /// Whether the database still held the expected path.
    PathReplaced(Result<bool, String>),
}

/// How far a revert is.
pub enum RevertState {
    Opening,
    Locking,
    ReadingThread,
    Resolving { stored_path: String },
    ReadingMetadata { stored_path: String, current: CurrentRollout, path: String },
    FindingTurn { stored_path: String, current: CurrentRollout, path: String, meta: SessionMeta },
    ReadingHistory { stored_path: String, path: String, plan: RevertPlan, target: TargetTurn },
    Materializing { stored_path: String, plan: RevertPlan, ordinal: i64, retained: Vec<Vec<u8>> },
    TruncatingProjection { stored_path: String, path: String, truncate_at: u64 },
    TruncatingFile { stored_path: String, path: String, projection: ProjectionState },
    ReadingFile { stored_path: String, path: String, truncate_at: u64, meta: SessionMeta },
    EncodingFirstLine { stored_path: String, path: String, truncate_at: u64, contents: Vec<u8> },
    EncodingRebuilt { stored_path: String, path: String, retained: Vec<Vec<u8>> },
    Writing { stored_path: String, path: String },
    RebuildingProjection { stored_path: String, path: String },
    ReplacingPath,
    Finished,
}

/// Whether an event answers what a state waits for.
pub open spec fn awaits(state: RevertState, event: RevertEvent) -> bool {
    match state {
        RevertState::Opening => event is Database,
        RevertState::Locking => event is Locked,
        RevertState::ReadingThread => event is Thread,
        RevertState::Resolving { .. } => event is Rollout,
        RevertState::ReadingMetadata { .. } => event is Metadata,
        RevertState::FindingTurn { .. } => event is Turn,
        RevertState::ReadingHistory { .. } => event is History,
        RevertState::Materializing { .. } => event is Materialized,
        RevertState::TruncatingProjection { .. } => event is ProjectionTruncated,
        RevertState::TruncatingFile { .. } => event is FileChanged,
        RevertState::ReadingFile { .. } => event is FileRead,
        RevertState::EncodingFirstLine { .. } => event is Encoded,
        RevertState::EncodingRebuilt { .. } => event is Encoded,
        RevertState::Writing { .. } => event is FileChanged,
        RevertState::RebuildingProjection { .. } => event is ProjectionRebuilt,
        RevertState::ReplacingPath => event is PathReplaced,
        RevertState::Finished => false,
    }
}

/// Whether a revert stops with an error.
pub open spec fn stops(after: RevertState, action: RevertAction, error: ThreadStoreError) -> bool {
    after is Finished && action == RevertAction::Finish(Err(error))
}

/// Whether a revert stops with an internal error.
pub open spec fn stops_internal(
    after: RevertState,
    action: RevertAction,
    text: Seq<char>,
) -> bool {
    &&& after is Finished
    &&& action matches RevertAction::Finish(Err(error)) && revert::internal(error, text)
}

/// Whether a revert stops because the thread is not known.
pub open spec fn stops_unknown(
    after: RevertState,
    action: RevertAction,
    thread_id: Seq<char>,
) -> bool {
    &&& after is Finished
    &&& action matches RevertAction::Finish(Err(ThreadStoreError::ThreadNotFound { thread_id: id }))
        && id@ == thread_id
}

/// What comes when the file and the projection agree: the database takes the path, unless it holds
/// it.
pub open spec fn ends_with_path(
    stored_path: String,
    path: String,
    after: RevertState,
    action: RevertAction,
) -> bool {
    if stored_path@ == path@ {
        after is Finished && action == RevertAction::Finish(Ok(()))
    } else {
        after is ReplacingPath && action == (RevertAction::ReplacePath {
            expected: stored_path,
            actual: path,
        })
    }
}

/// Whether a plan, or the refusal to make one, is that for a request.
pub open spec fn plan_made(
    request: RevertRequest,
    meta: SessionMeta,
    current: CurrentRollout,
    target: TargetTurn,
    r: Result<RevertPlan, ThreadStoreError>,
) -> bool {
    revert::planned(
        request.before_turn_id@,
        request.multi_agent_version,
        meta,
        current,
        target,
        r,
    )
}

/// Where the answer to the request for the turn leads.
pub open spec fn turn_found(
    request: RevertRequest,
    stored_path: String,
    current: CurrentRollout,
    path: String,
    meta: SessionMeta,
    target: TargetTurn,
    after: RevertState,
    action: RevertAction,
) -> bool {
    match action {
        RevertAction::Finish(Err(error)) => after is Finished && plan_made(request, meta, current, target, Err(error)),
        RevertAction::ReadHistory => after matches RevertState::ReadingHistory {
            stored_path: s,
            path: p,
            plan,
            target: t,
        } && s == stored_path && p == path && t == target && plan is Rebuild && plan_made(request, meta, current, target, Ok(plan)),
        RevertAction::MaterializeRollout { path: p } => {
            &&& p == path
            &&& after matches RevertState::Materializing { stored_path: s, plan, ordinal, retained }
                && s == stored_path && ordinal == target.rollout_ordinal && retained@.len() == 0
                && !(plan is Rebuild) && plan_made(request, meta, current, target, Ok(plan))
        },
        _ => false,
    }
}

/// Where a file to change leads.
pub open spec fn materialized(
    stored_path: String,
    plan: RevertPlan,
    ordinal: i64,
    retained: Vec<Vec<u8>>,
    path: String,
    after: RevertState,
    action: RevertAction,
) -> bool {
    match plan {
        RevertPlan::Truncate { truncate_at } => {
            &&& after == (RevertState::TruncatingProjection { stored_path, path, truncate_at })
            &&& action == (RevertAction::TruncateProjection { truncate_at, ordinal })
        },
        RevertPlan::ReplaceMetadata { truncate_at, meta } => {
            &&& after == (RevertState::ReadingFile { stored_path, path, truncate_at, meta })
            &&& action == (RevertAction::ReadFile { path })
        },
        RevertPlan::Rebuild { meta, .. } => {
            &&& after == (RevertState::EncodingRebuilt { stored_path, path, retained })
            &&& action == (RevertAction::EncodeMetadata { meta })
        },
    }
}

/// Whether a file is written next.
pub open spec fn writes(
    stored_path: String,
    path: String,
    bytes: Seq<u8>,
    after: RevertState,
    action: RevertAction,
) -> bool {
    &&& after == (RevertState::Writing { stored_path, path })
    &&& action matches RevertAction::WriteFile { path: p, contents } && p == path && contents@
        == bytes
}

/// Where a history that is written anew ends.
pub open spec fn ordinal_of(plan: RevertPlan) -> u64 {
    match plan {
        RevertPlan::Rebuild { target_ordinal, .. } => target_ordinal,
        _ => 0,
    }
}

fn target_ordinal(plan: &RevertPlan) -> (r: u64)
    ensures
        r == ordinal_of(*plan),
{
    match plan {
        RevertPlan::Rebuild { target_ordinal, .. } => *target_ordinal,
        _ => 0,
    }
}

/// Where an answer leads.
pub open spec fn leads_to(
    request: RevertRequest,
    before: RevertState,
    event: RevertEvent,
    after: RevertState,
    action: RevertAction,
) -> bool {
    let id = request.thread_id@;
    match (before, event) {
        (RevertState::Opening, RevertEvent::Database(available)) => if available {
            after is Locking && action is Lock
        } else {
            &&& after is Finished
            &&& action matches RevertAction::Finish(
                Err(ThreadStoreError::Unsupported { operation }),
            ) && operation@ == "revert_thread"@
        },
        (RevertState::Locking, RevertEvent::Locked(r)) => match r {
            Ok(_) => after is ReadingThread && action is ReadThread,
            Err(error) => stops(after, action, error),
        },
        (RevertState::ReadingThread, RevertEvent::Thread(r)) => match r {
            Ok(Some(stored_path)) => after == (RevertState::Resolving { stored_path })
                && action is ResolveRollout,
            Ok(None) => stops_unknown(after, action, id),
            Err(error) => stops_internal(
                after,
                action,
                revert::failure_text(RevertFailure::ReadThread, id, error@),
            ),
        },
        (RevertState::Resolving { stored_path }, RevertEvent::Rollout(r)) => match r {
            Ok(Some((current, path))) => {
                &&& after == (RevertState::ReadingMetadata { stored_path, current, path })
                &&& action == (RevertAction::ReadMetadata { path })
            },
            Ok(None) => stops_unknown(after, action, id),
            Err(error) => stops(after, action, error),
        },
        (
            RevertState::ReadingMetadata { stored_path, current, path },
            RevertEvent::Metadata(r),
        ) => match r {
            Ok(meta) => if revert::revertible(meta, current) {
                &&& after == (RevertState::FindingTurn { stored_path, current, path, meta })
                &&& action == (RevertAction::FindTurn { turn_id: request.before_turn_id })
            } else {
                &&& after is Finished
                &&& action matches RevertAction::Finish(Err(error)) && revert::refused(
                    id,
                    meta,
                    current,
                    error,
                )
            },
            Err(error) => stops_internal(
                after,
                action,
                revert::failure_text(RevertFailure::ReadRollout { path }, id, error@),
            ),
        },
        (
            RevertState::FindingTurn { stored_path, current, path, meta },
            RevertEvent::Turn(r),
        ) => match r {
            Ok(target) => turn_found(
                request,
                stored_path,
                current,
                path,
                meta,
                target,
                after,
                action,
            ),
            Err(error) => stops(after, action, error),
        },
        (
            RevertState::ReadingHistory { stored_path, path, plan, target },
            RevertEvent::History(r),
        ) => match r {
            Ok(segments) => match revert::history_lines(
                Seq::empty(),
                segments@,
                target.rollout_id@,
                ordinal_of(plan),
                0,
            ) {
                LinesResult::Kept(lines) => {
                    &&& after matches RevertState::Materializing {
                        stored_path: s,
                        plan: p,
                        ordinal,
                        retained,
                    } && s == stored_path && p == plan && ordinal == target.rollout_ordinal
                        && revert::line_bytes(retained@) == lines
                    &&& action == (RevertAction::MaterializeRollout { path })
                },
                LinesResult::Failed(text) => stops_internal(after, action, text),
            },
            Err(error) => stops(after, action, error),
        },
        (
            RevertState::Materializing { stored_path, plan, ordinal, retained },
            RevertEvent::Materialized(r),
        ) => match r {
            Ok(path) => materialized(stored_path, plan, ordinal, retained, path, after, action),
            Err(error) => stops_internal(
                after,
                action,
                revert::failure_text(RevertFailure::MaterializeRollout, id, error@),
            ),
        },
        (
            RevertState::TruncatingProjection { stored_path, path, truncate_at },
            RevertEvent::ProjectionTruncated(r),
        ) => match r {
            Ok(truncated) => {
                &&& after == (RevertState::TruncatingFile {
                    stored_path,
                    path,
                    projection: if truncated {
                        ProjectionState::Truncated
                    } else {
                        ProjectionState::Stale
                    },
                })
                &&& action == (RevertAction::TruncateFile { path, truncate_at })
            },
            Err(error) => stops(after, action, error),
        },
        (
            RevertState::TruncatingFile { stored_path, path, projection },
            RevertEvent::FileChanged(r),
        ) => match r {
            Ok(_) => if projection == ProjectionState::Truncated {
                ends_with_path(stored_path, path, after, action)
            } else {
                &&& after == (RevertState::RebuildingProjection { stored_path, path })
                &&& action == (RevertAction::RebuildProjection { path })
            },
            Err(error) => stops_internal(after, action, error@),
        },
        (
            RevertState::ReadingFile { stored_path, path, truncate_at, meta },
            RevertEvent::FileRead(r),
        ) => match r {
            Ok(contents) => if revert::second_line(revert::cut(contents@, truncate_at as int)) > 0 {
                &&& after == (RevertState::EncodingFirstLine {
                    stored_path,
                    path,
                    truncate_at,
                    contents,
                })
                &&& action == (RevertAction::EncodeMetadata { meta })
            } else {
                stops_internal(after, action, "rollout is missing its session metadata line"@)
            },
            Err(error) => stops_internal(after, action, error@),
        },
        (
            RevertState::EncodingFirstLine { stored_path, path, truncate_at, contents },
            RevertEvent::Encoded(r),
        ) => match r {
            Ok(line) => if revert::second_line(revert::cut(contents@, truncate_at as int)) > 0 {
                writes(
                    stored_path,
                    path,
                    revert::with_first_line(contents@, truncate_at as int, line@),
                    after,
                    action,
                )
            } else {
                stops_internal(after, action, "rollout is missing its session metadata line"@)
            },
            Err(error) => stops_internal(after, action, error@),
        },
        (
            RevertState::EncodingRebuilt { stored_path, path, retained },
            RevertEvent::Encoded(r),
        ) => match r {
            Ok(line) => writes(
                stored_path,
                path,
                line@.push(10u8) + revert::ended_lines(revert::line_bytes(retained@)),
                after,
                action,
            ),
            Err(error) => stops_internal(after, action, error@),
        },
        (RevertState::Writing { stored_path, path }, RevertEvent::FileChanged(r)) => match r {
            Ok(_) => {
                &&& after == (RevertState::RebuildingProjection { stored_path, path })
                &&& action == (RevertAction::RebuildProjection { path })
            },
            Err(error) => stops_internal(after, action, error@),
        },
        (
            RevertState::RebuildingProjection { stored_path, path },
            RevertEvent::ProjectionRebuilt(r),
        ) => match r {
            Ok(_) => ends_with_path(stored_path, path, after, action),
            Err(error) => stops(after, action, error),
        },
        (RevertState::ReplacingPath, RevertEvent::PathReplaced(r)) => match r {
            Ok(true) => after is Finished && action == RevertAction::Finish(Ok(())),
            Ok(false) => {
                &&& after is Finished
                &&& action matches RevertAction::Finish(
                    Err(ThreadStoreError::Conflict { message }),
                ) && message@ == "thread "@ + id + " changed while it was being reverted"@
            },
            Err(error) => stops_internal(
                after,
                action,
                revert::failure_text(RevertFailure::UpdatePath, id, error@),
            ),
        },
        _ => false,
    }
}

fn stop(error: ThreadStoreError) -> (r: (RevertState, RevertAction))
    ensures
        stops(r.0, r.1, error),
{
    (RevertState::Finished, RevertAction::Finish(Err(error)))
}

fn stop_failed(failure: RevertFailure, thread_id: &String, error: String) -> (r: (
    RevertState,
    RevertAction,
))
    ensures
        stops_internal(r.0, r.1, revert::failure_text(failure, thread_id@, error@)),
{
    stop(revert_failure(&failure, thread_id.as_str(), error.as_str()))
}

fn end_with_path(stored_path: String, path: String) -> (r: (RevertState, RevertAction))
    ensures
        ends_with_path(stored_path, path, r.0, r.1),
{
    if path_changed(&stored_path, &path) {
        (
            RevertState::ReplacingPath,
            RevertAction::ReplacePath { expected: stored_path, actual: path },
        )
    } else {
        (RevertState::Finished, RevertAction::Finish(Ok(())))
    }
}

fn rebuild_projection(stored_path: String, path: String) -> (r: (RevertState, RevertAction))
    ensures
        r.0 == (RevertState::RebuildingProjection { stored_path, path }),
        r.1 == (RevertAction::RebuildProjection { path }),
{
    let action = RevertAction::RebuildProjection { path: path.clone() };
    (RevertState::RebuildingProjection { stored_path, path }, action)
}

/// The beginning of a revert.
pub fn start() -> (r: (RevertState, RevertAction))
    ensures
        r.0 is Opening,
        r.1 is OpenDatabase,
{
    (RevertState::Opening, RevertAction::OpenDatabase)
}

fn find_turn(
    request: &RevertRequest,
    stored_path: String,
    current: CurrentRollout,
    path: String,
    meta: SessionMeta,
    target: TargetTurn,
) -> (r: (RevertState, RevertAction))
    ensures
        turn_found(*request, stored_path, current, path, meta, target, r.0, r.1),
{
    let version = match &request.multi_agent_version {
        Some(version) => Some(version.clone()),
        None => None,
    };
    assert(version == request.multi_agent_version);
    match plan_revert(request.before_turn_id.as_str(), version, meta, &current, &target) {
        Err(error) => stop(error),
        Ok(plan) => match &plan {
            RevertPlan::Rebuild { .. } => (
                RevertState::ReadingHistory { stored_path, path, plan, target },
                RevertAction::ReadHistory,
            ),
            _ => (
                RevertState::Materializing {
                    stored_path,
                    plan,
                    ordinal: target.rollout_ordinal,
                    retained: Vec::new(),
                },
                RevertAction::MaterializeRollout { path },
            ),
        },
    }
}

fn change_file(
    stored_path: String,
    plan: RevertPlan,
    ordinal: i64,
    retained: Vec<Vec<u8>>,
    path: String,
) -> (r: (RevertState, RevertAction))
    ensures
        materialized(stored_path, plan, ordinal, retained, path, r.0, r.1),
{
    match plan {
        RevertPlan::Truncate { truncate_at } => (
            RevertState::TruncatingProjection { stored_path, path, truncate_at },
            RevertAction::TruncateProjection { truncate_at, ordinal },
        ),
        RevertPlan::ReplaceMetadata { truncate_at, meta } => {
            let action = RevertAction::ReadFile { path: path.clone() };
            (RevertState::ReadingFile { stored_path, path, truncate_at, meta }, action)
        },
        RevertPlan::Rebuild { meta, .. } => (
            RevertState::EncodingRebuilt { stored_path, path, retained },
            RevertAction::EncodeMetadata { meta },
        ),
    }
}

fn write_file(stored_path: String, path: String, contents: Vec<u8>) -> (r: (
    RevertState,
    RevertAction,
))
    ensures
        writes(stored_path, path, contents@, r.0, r.1),
{
    let action = RevertAction::WriteFile { path: path.clone(), contents };
    (RevertState::Writing { stored_path, path }, action)
}

/// Takes the answer to the last action of a revert, and says what to do next.
#[verifier::rlimit(60)]
pub fn step(request: &RevertRequest, state: RevertState, event: RevertEvent) -> (r: (
    RevertState,
    RevertAction,
))
    requires
        awaits(state, event),
    ensures
        leads_to(*request, state, event, r.0, r.1),
{
    let id = &request.thread_id;
    match (state, event) {
        (RevertState::Opening, RevertEvent::Database(available)) => {
            let database = if available {
                Some(())
            } else {
                None
            };
            match supported(database) {
                Ok(_) => (RevertState::Locking, RevertAction::Lock),
                Err(error) => stop(error),
            }
        },
        (RevertState::Locking, RevertEvent::Locked(r)) => match r {
            Ok(_) => (RevertState::ReadingThread, RevertAction::ReadThread),
            Err(error) => stop(error),
        },
        (RevertState::ReadingThread, RevertEvent::Thread(r)) => match r {
            Ok(found) => match known_thread(found, id.as_str()) {
                Ok(stored_path) => (
                    RevertState::Resolving { stored_path },
                    RevertAction::ResolveRollout,
                ),
                Err(error) => stop(error),
            },
            Err(error) => stop_failed(RevertFailure::ReadThread, id, error),
        },
        (RevertState::Resolving { stored_path }, RevertEvent::Rollout(r)) => match r {
            Ok(found) => match known_thread(found, id.as_str()) {
                Ok((current, path)) => {
                    let action = RevertAction::ReadMetadata { path: path.clone() };
                    (RevertState::ReadingMetadata { stored_path, current, path }, action)
                },
                Err(error) => stop(error),
            },
            Err(error) => stop(error),
        },
        (
            RevertState::ReadingMetadata { stored_path, current, path },
            RevertEvent::Metadata(r),
        ) => match r {
            Ok(meta) => match check_source(id.as_str(), &meta, &current) {
                Ok(_) => (
                    RevertState::FindingTurn { stored_path, current, path, meta },
                    RevertAction::FindTurn { turn_id: request.before_turn_id.clone() },
                ),
                Err(error) => stop(error),
            },
            Err(error) => stop_failed(RevertFailure::ReadRollout { path }, id, error),
        },
        (
            RevertState::FindingTurn { stored_path, current, path, meta },
            RevertEvent::Turn(r),
        ) => match r {
            Ok(target) => find_turn(request, stored_path, current, path, meta, target),
            Err(error) => stop(error),
        },
        (
            RevertState::ReadingHistory { stored_path, path, plan, target },
            RevertEvent::History(r),
        ) => match r {
            Ok(segments) => match retained_rollout_lines(
                &segments,
                &target.rollout_id,
                target_ordinal(&plan),
            ) {
                Ok(retained) => (
                    RevertState::Materializing {
                        stored_path,
                        plan,
                        ordinal: target.rollout_ordinal,
                        retained,
                    },
                    RevertAction::MaterializeRollout { path },
                ),
                Err(error) => stop(error),
            },
            Err(error) => stop(error),
        },
        (
            RevertState::Materializing { stored_path, plan, ordinal, retained },
            RevertEvent::Materialized(r),
        ) => match r {
            Ok(path) => change_file(stored_path, plan, ordinal, retained, path),
            Err(error) => stop_failed(RevertFailure::MaterializeRollout, id, error),
        },
        (
            RevertState::TruncatingProjection { stored_path, path, truncate_at },
            RevertEvent::ProjectionTruncated(r),
        ) => match r {
            Ok(truncated) => {
                let projection = if truncated {
                    ProjectionState::Truncated
                } else {
                    ProjectionState::Stale
                };
                let action = RevertAction::TruncateFile { path: path.clone(), truncate_at };
                (RevertState::TruncatingFile { stored_path, path, projection }, action)
            },
            Err(error) => stop(error),
        },
        (
            RevertState::TruncatingFile { stored_path, path, projection },
            RevertEvent::FileChanged(r),
        ) => match r {
            Ok(_) => if needs_rebuilt_projection(projection) {
                rebuild_projection(stored_path, path)
            } else {
                end_with_path(stored_path, path)
            },
            Err(error) => stop_failed(RevertFailure::File, id, error),
        },
        (
            RevertState::ReadingFile { stored_path, path, truncate_at, meta },
            RevertEvent::FileRead(r),
        ) => match r {
            Ok(contents) => match has_first_line(&contents, truncate_at) {
                Ok(_) => (
                    RevertState::EncodingFirstLine { stored_path, path, truncate_at, contents },
                    RevertAction::EncodeMetadata { meta },
                ),
                Err(error) => stop(error),
            },
            Err(error) => stop_failed(RevertFailure::File, id, error),
        },
        (
            RevertState::EncodingFirstLine { stored_path, path, truncate_at, contents },
            RevertEvent::Encoded(r),
        ) => match r {
            Ok(line) => match replace_metadata(contents, truncate_at, line) {
                Ok(bytes) => write_file(stored_path, path, bytes),
                Err(error) => stop(error),
            },
            Err(error) => stop_failed(RevertFailure::File, id, error),
        },
        (
            RevertState::EncodingRebuilt { stored_path, path, retained },
            RevertEvent::Encoded(r),
        ) => match r {
            Ok(line) => {
                let bytes = rebuild_rollout(line, &retained);
                write_file(stored_path, path, bytes)
            },
            Err(error) => stop_failed(RevertFailure::File, id, error),
        },
        (RevertState::Writing { stored_path, path }, RevertEvent::FileChanged(r)) => match r {
            Ok(_) => rebuild_projection(stored_path, path),
            Err(error) => stop_failed(RevertFailure::File, id, error),
        },
        (
            RevertState::RebuildingProjection { stored_path, path },
            RevertEvent::ProjectionRebuilt(r),
        ) => match r {
            Ok(_) => end_with_path(stored_path, path),
            Err(error) => stop(error),
        },
        (RevertState::ReplacingPath, RevertEvent::PathReplaced(r)) => match r {
            Ok(replaced) => {
                let update = if replaced {
                    PathUpdate::Replaced
                } else {
                    PathUpdate::Refused
                };
                (RevertState::Finished, RevertAction::Finish(finish_revert(id.as_str(), update)))
            },
            Err(error) => stop_failed(RevertFailure::UpdatePath, id, error),
        },
        _ => {
            assert(false);
            (RevertState::Finished, RevertAction::Finish(Ok(())))
        },
    }
}

/// How many steps have been made in a state at the least.
pub open spec fn phase(state: RevertState) -> int {
    match state {
        RevertState::Opening => 0,
        RevertState::Locking => 1,
        RevertState::ReadingThread => 2,
        RevertState::Resolving { .. } => 3,
        RevertState::ReadingMetadata { .. } => 4,
        RevertState::FindingTurn { .. } => 5,
        RevertState::ReadingHistory { .. } => 6,
        RevertState::Materializing { .. } => 7,
        RevertState::TruncatingProjection { .. } => 8,
        RevertState::ReadingFile { .. } => 8,
        RevertState::EncodingFirstLine { .. } => 9,
        RevertState::EncodingRebuilt { .. } => 9,
        RevertState::TruncatingFile { .. } => 10,
        RevertState::Writing { .. } => 10,
        RevertState::RebuildingProjection { .. } => 11,
        RevertState::ReplacingPath => 12,
        RevertState::Finished => 13,
    }
}

/// Whether an action changes the rollout or what is projected from it.
pub open spec fn changes_history(action: RevertAction) -> bool {
    action is TruncateProjection || action is TruncateFile || action is WriteFile
        || action is RebuildProjection || action is ReplacePath
}

/// Every step leads on, so a revert ends; and it ends just when nothing more is to be done.
pub proof fn reverts_end(
    request: RevertRequest,
    before: RevertState,
    event: RevertEvent,
    after: RevertState,
    action: RevertAction,
)
    requires
        leads_to(request, before, event, after, action),
    ensures
        phase(before) < phase(after) <= 13,
        after is Finished <==> action is Finish,
{
}

/// A run of a revert: the states that it goes through, the answers that it gets, and the actions
/// that they lead to.
pub open spec fn is_run(
    request: RevertRequest,
    states: Seq<RevertState>,
    events: Seq<RevertEvent>,
    actions: Seq<RevertAction>,
) -> bool {
    &&& states.len() == events.len() + 1
    &&& actions.len() == events.len()
    &&& states[0] is Opening
    &&& forall|k: int|
        0 <= k < events.len() ==> leads_to(
            request,
            #[trigger] states[k],
            events[k],
            states[k + 1],
            actions[k],
        )
}

/// Whether a rollout was found to be one that can be reverted.
pub open spec fn accepted(state: RevertState, event: RevertEvent) -> bool {
    &&& state matches RevertState::ReadingMetadata { current, .. }
    &&& event matches RevertEvent::Metadata(Ok(meta)) && revert::revertible(meta, current)
}

/// Nothing is changed before the rollout was found to belong to the thread and to be paginated.
pub proof fn nothing_changes_before_the_check(
    request: RevertRequest,
    states: Seq<RevertState>,
    events: Seq<RevertEvent>,
    actions: Seq<RevertAction>,
    k: int,
)
    requires
        is_run(request, states, events, actions),
        0 <= k < actions.len(),
        changes_history(actions[k]),
    ensures
        exists|j: int| 0 <= j < k && accepted(#[trigger] states[j], events[j]),
{
    assert(leads_to(request, states[k], events[k], states[k + 1], actions[k]));
    assert(phase(states[k]) >= 5 && !(states[k] is Finished));
    lemma_accepted(request, states, events, actions, k);
}

proof fn lemma_accepted(
    request: RevertRequest,
    states: Seq<RevertState>,
    events: Seq<RevertEvent>,
    actions: Seq<RevertAction>,
    k: int,
)
    requires
        is_run(request, states, events, actions),
        0 <= k < states.len(),
        phase(states[k]) >= 5,
        !(states[k] is Finished),
    ensures
        exists|j: int| 0 <= j < k && accepted(#[trigger] states[j], events[j]),
    decreases k,
{
    assert(k > 0);
    assert(leads_to(request, states[k - 1], events[k - 1], states[k - 1 + 1], actions[k - 1]));
    if phase(states[k - 1]) >= 5 {
        lemma_accepted(request, states, events, actions, k - 1);
    } else {
        assert(accepted(states[k - 1], events[k - 1]));
    }
}

/// Where a revert in some state cuts the file, as far as it cuts it.
pub open spec fn cut_of(state: RevertState) -> Option<u64> {
    match state {
        RevertState::Materializing { plan, .. } => match plan {
            RevertPlan::Truncate { truncate_at } => Some(truncate_at),
            RevertPlan::ReplaceMetadata { truncate_at, .. } => Some(truncate_at),
            RevertPlan::Rebuild { .. } => None,
        },
        RevertState::TruncatingProjection { truncate_at, .. } => Some(truncate_at),
        RevertState::ReadingFile { truncate_at, .. } => Some(truncate_at),
        RevertState::EncodingFirstLine { truncate_at, .. } => Some(truncate_at),
        _ => None,
    }
}

proof fn lemma_cut_found(
    request: RevertRequest,
    states: Seq<RevertState>,
    events: Seq<RevertEvent>,
    actions: Seq<RevertAction>,
    k: int,
) -> (j: int)
    requires
        is_run(request, states, events, actions),
        0 <= k < states.len(),
        cut_of(states[k]) is Some,
    ensures
        0 <= j < k,
        events[j] matches RevertEvent::Turn(Ok(target)) && target.rollout_byte_offset == Some(
            cut_of(states[k])->0 as i64,
        ) && target.rollout_byte_offset->0 >= 0,
    decreases k,
{
    assert(k > 0);
    assert(leads_to(request, states[k - 1], events[k - 1], states[k - 1 + 1], actions[k - 1]));
    if cut_of(states[k - 1]) is Some {
        lemma_cut_found(request, states, events, actions, k - 1)
    } else {
        k - 1
    }
}

/// A file is cut only where the turn begins that was looked for: at the place that the answer to
/// that question gave.
pub proof fn files_are_cut_where_the_turn_begins(
    request: RevertRequest,
    states: Seq<RevertState>,
    events: Seq<RevertEvent>,
    actions: Seq<RevertAction>,
    k: int,
) -> (j: int)
    requires
        is_run(request, states, events, actions),
        0 <= k < actions.len(),
        actions[k] is TruncateFile || actions[k] is TruncateProjection,
    ensures
        0 <= j < k,
        events[j] matches RevertEvent::Turn(Ok(target)) && target.rollout_byte_offset == Some(
            (match actions[k] {
                RevertAction::TruncateFile { truncate_at, .. } => truncate_at,
                RevertAction::TruncateProjection { truncate_at, .. } => truncate_at,
                _ => 0,
            }) as i64,
        ),
{
    assert(leads_to(request, states[k], events[k], states[k + 1], actions[k]));
    lemma_cut_found(request, states, events, actions, k)
}

proof fn lemma_changed(
    request: RevertRequest,
    states: Seq<RevertState>,
    events: Seq<RevertEvent>,
    actions: Seq<RevertAction>,
    k: int,
) -> (j: int)
    requires
        is_run(request, states, events, actions),
        0 <= k < states.len(),
        states[k] is TruncatingFile || states[k] is Writing || states[k] is RebuildingProjection
            || states[k] is ReplacingPath,
    ensures
        0 <= j < k,
        actions[j] is TruncateFile || actions[j] is WriteFile,
        states[k] is RebuildingProjection || states[k] is ReplacingPath ==> j + 1 < k
            && events[j + 1] is FileChanged && events[j + 1]->FileChanged_0 is Ok,
        states[k] is TruncatingFile || states[k] is Writing ==> j + 1 == k,
    decreases k,
{
    assert(k > 0);
    assert(leads_to(request, states[k - 1], events[k - 1], states[k - 1 + 1], actions[k - 1]));
    if states[k] is TruncatingFile || states[k] is Writing {
        k - 1
    } else {
        lemma_changed(request, states, events, actions, k - 1)
    }
}

/// A revert succeeds only after the file was cut or written anew, and without an error.
pub proof fn successful_reverts_changed_the_file(
    request: RevertRequest,
    states: Seq<RevertState>,
    events: Seq<RevertEvent>,
    actions: Seq<RevertAction>,
    k: int,
) -> (j: int)
    requires
        is_run(request, states, events, actions),
        0 <= k < actions.len(),
        actions[k] == RevertAction::Finish(Ok(())),
    ensures
        0 <= j < k,
        actions[j] is TruncateFile || actions[j] is WriteFile,
        events[j + 1] is FileChanged,
        events[j + 1]->FileChanged_0 is Ok,
{
    assert(leads_to(request, states[k], events[k], states[k + 1], actions[k]));
    lemma_changed(request, states, events, actions, k)
}

/// An error of an outside operation ends a revert with an error, whatever it was about to do.
pub proof fn errors_end_reverts(
    request: RevertRequest,
    before: RevertState,
    event: RevertEvent,
    after: RevertState,
    action: RevertAction,
)
    requires
        leads_to(request, before, event, after, action),
        event is Locked && event->Locked_0 is Err || event is Thread && event->Thread_0 is Err
            || event is Rollout && event->Rollout_0 is Err || event is Metadata && event->Metadata_0
            is Err || event is Turn && event->Turn_0 is Err || event is History && event->History_0
            is Err || event is Materialized && event->Materialized_0 is Err
            || event is ProjectionTruncated && event->ProjectionTruncated_0 is Err
            || event is FileRead && event->FileRead_0 is Err || event is Encoded && event->Encoded_0
            is Err || event is FileChanged && event->FileChanged_0 is Err
            || event is ProjectionRebuilt && event->ProjectionRebuilt_0 is Err
            || event is PathReplaced && event->PathReplaced_0 is Err || event
            == RevertEvent::Database(false) || event == RevertEvent::Thread(Ok(None)) || event
            == RevertEvent::Rollout(Ok(None)) || event == RevertEvent::PathReplaced(Ok(false)),
    ensures
        after is Finished,
        action is Finish,
        action->Finish_0 is Err,
{
}

} // verus!
