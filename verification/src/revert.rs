//! Reverting a thread to the state before a turn, in its existing rollout file.

use crate::text::{concat2, concat3, same_opt_text};
use vstd::prelude::*;

pub mod steps;

verus! {

/// What can go wrong with stored threads.
#[derive(Debug)]
pub enum ThreadStoreError {
    Unsupported { operation: String },
    ThreadNotFound { thread_id: String },
    InvalidRequest { message: String },
    Internal { message: String },
    Conflict { message: String },
}

/// How a thread keeps its history.
#[derive(Clone, Copy, Debug, PartialEq, Eq, Structural)]
pub enum ThreadHistoryMode {
    Legacy,
    Paginated,
}

/// The first line of a rollout.
#[derive(Debug)]
pub struct SessionMeta {
    pub id: String,
    pub timestamp: String,
    pub history_mode: ThreadHistoryMode,
    pub multi_agent_version: Option<String>,
    /// The rollout that this one continues.
    pub history_base: Option<String>,
    pub subagent_history_start_ordinal: Option<u64>,
    pub forked_from_id: Option<String>,
    pub forked_from_ordinal_exclusive: Option<u64>,
}

/// The rollout that a thread writes to.
#[derive(Debug)]
pub struct CurrentRollout {
    pub rollout_id: String,
    pub thread_id: String,
}

/// Where in the rollouts a turn begins.
#[derive(Debug)]
pub struct TargetTurn {
    pub rollout_id: String,
    pub rollout_byte_offset: Option<i64>,
    pub rollout_ordinal: i64,
}

/// What is to be done to the rollout file.
pub enum RevertPlan {
    /// Cut the file at an offset.
    Truncate { truncate_at: u64 },
    /// Cut the file at an offset and replace its first line.
    ReplaceMetadata { truncate_at: u64, meta: SessionMeta },
    /// The turn began in a rollout that this one continues: write the file anew from the lines
    /// of the whole history before an ordinal.
    Rebuild { meta: SessionMeta, target_ordinal: u64 },
}

/// Whether a request changes the version that the rollout was written for.
pub open spec fn changes_version(requested: Option<String>, meta: SessionMeta) -> bool {
    requested is Some && requested.deep_view() != meta.multi_agent_version.deep_view()
}

/// The metadata with the requested version, where one is requested.
pub open spec fn with_version(requested: Option<String>, meta: SessionMeta) -> SessionMeta {
    SessionMeta {
        multi_agent_version: if requested is Some {
            requested
        } else {
            meta.multi_agent_version
        },
        ..meta
    }
}

/// The metadata of a rollout that stands on its own after a rebuild.
pub open spec fn rebased(meta: SessionMeta, target_ordinal: u64) -> SessionMeta {
    SessionMeta {
        history_base: None,
        subagent_history_start_ordinal: None,
        forked_from_ordinal_exclusive: if meta.forked_from_id is Some {
            Some(target_ordinal)
        } else {
            None
        },
        ..meta
    }
}

/// Whether an error is an invalid request with a message.
pub open spec fn invalid_request(error: ThreadStoreError, text: Seq<char>) -> bool {
    error matches ThreadStoreError::InvalidRequest { message } && message@ == text
}

/// Whether an error is an internal one with a message.
pub open spec fn internal(error: ThreadStoreError, text: Seq<char>) -> bool {
    error matches ThreadStoreError::Internal { message } && message@ == text
}

/// Refuses to revert where the thread is not known.
pub fn known_thread<T>(found: Option<T>, thread_id: &str) -> (r: Result<T, ThreadStoreError>)
    ensures
        match found {
            Some(value) => r == Ok::<T, ThreadStoreError>(value),
            None => r matches Err(ThreadStoreError::ThreadNotFound { thread_id: id }) && id@
                == thread_id@,
        },
{
    match found {
        Some(value) => Ok(value),
        None => Err(ThreadStoreError::ThreadNotFound { thread_id: thread_id.to_owned() }),
    }
}

/// Refuses to revert where there is no database of threads.
pub fn supported<T>(state_db: Option<T>) -> (r: Result<T, ThreadStoreError>)
    ensures
        match state_db {
            Some(value) => r == Ok::<T, ThreadStoreError>(value),
            None => r matches Err(ThreadStoreError::Unsupported { operation }) && operation@
                == "revert_thread"@,
        },
{
    match state_db {
        Some(value) => Ok(value),
        None => Err(ThreadStoreError::Unsupported { operation: "revert_thread".to_owned() }),
    }
}

/// Whether the rollout can be reverted at all: it belongs to the thread and is paginated.
pub open spec fn revertible(meta: SessionMeta, current: CurrentRollout) -> bool {
    meta.id@ == current.thread_id@ && meta.history_mode == ThreadHistoryMode::Paginated
}

/// Whether an error is the one for a rollout that cannot be reverted.
pub open spec fn refused(
    thread_id: Seq<char>,
    meta: SessionMeta,
    current: CurrentRollout,
    error: ThreadStoreError,
) -> bool {
    &&& !revertible(meta, current)
    &&& if meta.id@ != current.thread_id@ {
        invalid_request(
            error,
            "current rollout for "@ + thread_id + " belongs to another thread"@,
        )
    } else {
        invalid_request(error, "thread "@ + thread_id + " does not use paginated history"@)
    }
}

/// Refuses a rollout that cannot be reverted.
pub fn check_source(thread_id: &str, meta: &SessionMeta, current: &CurrentRollout) -> (r: Result<
    (),
    ThreadStoreError,
>)
    ensures
        match r {
            Ok(_) => revertible(*meta, *current),
            Err(error) => refused(thread_id@, *meta, *current, error),
        },
{
    if !(meta.id == current.thread_id) {
        return Err(
            ThreadStoreError::InvalidRequest {
                message: concat3(
                    "current rollout for ",
                    thread_id,
                    " belongs to another thread",
                ),
            },
        );
    }
    if meta.history_mode != ThreadHistoryMode::Paginated {
        return Err(
            ThreadStoreError::InvalidRequest {
                message: concat3("thread ", thread_id, " does not use paginated history"),
            },
        );
    }
    Ok(())
}

/// Whether a plan, or the refusal to make one, is that for a target: a cut where the turn began in
/// the current rollout, with new metadata where the version changes, else a rebuild.
pub open spec fn planned(
    before_turn_id: Seq<char>,
    requested_version: Option<String>,
    meta: SessionMeta,
    current: CurrentRollout,
    target: TargetTurn,
    r: Result<RevertPlan, ThreadStoreError>,
) -> bool {
    match target.rollout_byte_offset {
        None => r matches Err(error) && invalid_request(
            error,
            "turn "@ + before_turn_id + " does not have a persisted start boundary"@,
        ),
        Some(offset) => if offset < 0 {
            r matches Err(error) && internal(
                error,
                "turn "@ + before_turn_id + " has an invalid byte offset"@,
            )
        } else if target.rollout_id@ == current.rollout_id@ {
            if changes_version(requested_version, meta) {
                r == Ok::<RevertPlan, ThreadStoreError>(
                    RevertPlan::ReplaceMetadata {
                        truncate_at: offset as u64,
                        meta: with_version(requested_version, meta),
                    },
                )
            } else {
                r == Ok::<RevertPlan, ThreadStoreError>(
                    RevertPlan::Truncate { truncate_at: offset as u64 },
                )
            }
        } else if target.rollout_ordinal < 0 {
            r matches Err(error) && internal(
                error,
                "target turn has a negative rollout ordinal"@,
            )
        } else {
            r == Ok::<RevertPlan, ThreadStoreError>(
                RevertPlan::Rebuild {
                    meta: rebased(
                        with_version(requested_version, meta),
                        target.rollout_ordinal as u64,
                    ),
                    target_ordinal: target.rollout_ordinal as u64,
                },
            )
        },
    }
}

/// What is to be done to the rollout file so that the thread ends before the target turn.
pub fn plan_revert(
    before_turn_id: &str,
    requested_version: Option<String>,
    meta: SessionMeta,
    current: &CurrentRollout,
    target: &TargetTurn,
) -> (r: Result<RevertPlan, ThreadStoreError>)
    ensures
        planned(before_turn_id@, requested_version, meta, *current, *target, r),
{
    let offset: i64 = match target.rollout_byte_offset {
        Some(offset) => offset,
        None => {
            return Err(
                ThreadStoreError::InvalidRequest {
                    message: concat3(
                        "turn ",
                        before_turn_id,
                        " does not have a persisted start boundary",
                    ),
                },
            );
        },
    };
    if offset < 0 {
        return Err(
            ThreadStoreError::Internal {
                message: concat3("turn ", before_turn_id, " has an invalid byte offset"),
            },
        );
    }
    let truncate_at: u64 = offset as u64;
    let update = requested_version.is_some() && !same_opt_text(
        &requested_version,
        &meta.multi_agent_version,
    );
    let mut meta = meta;
    if requested_version.is_some() {
        meta.multi_agent_version = requested_version;
    }
    if target.rollout_id == current.rollout_id {
        if update {
            Ok(RevertPlan::ReplaceMetadata { truncate_at, meta })
        } else {
            Ok(RevertPlan::Truncate { truncate_at })
        }
    } else {
        if target.rollout_ordinal < 0 {
            return Err(
                ThreadStoreError::Internal {
                    message: "target turn has a negative rollout ordinal".to_owned(),
                },
            );
        }
        let target_ordinal: u64 = target.rollout_ordinal as u64;
        meta.history_base = None;
        meta.subagent_history_start_ordinal = None;
        meta.forked_from_ordinal_exclusive =
        if meta.forked_from_id.is_some() {
            Some(target_ordinal)
        } else {
            None
        };
        Ok(RevertPlan::Rebuild { meta, target_ordinal })
    }
}

/// The bytes up to an offset; all of them where there are no more.
pub open spec fn cut(bytes: Seq<u8>, at: int) -> Seq<u8> {
    if at <= bytes.len() {
        bytes.take(at)
    } else {
        bytes
    }
}

/// The place after the first line feed, or zero where there is none.
pub open spec fn second_line(bytes: Seq<u8>) -> int
    decreases bytes.len(),
{
    if bytes.len() == 0 {
        0
    } else if bytes[0] == 10 {
        1
    } else {
        let rest = second_line(bytes.subrange(1, bytes.len() as int));
        if rest == 0 {
            0
        } else {
            rest + 1
        }
    }
}

proof fn lemma_second_line(bytes: Seq<u8>, i: int)
    requires
        0 <= i <= bytes.len(),
        i < bytes.len() ==> bytes[i] == 10,
        forall|k: int| 0 <= k < i ==> bytes[k] != 10,
    ensures
        second_line(bytes) == if i < bytes.len() {
            i + 1
        } else {
            0
        },
    decreases bytes.len(),
{
    if bytes.len() > 0 && bytes[0] != 10 {
        let rest = bytes.subrange(1, bytes.len() as int);
        assert forall|k: int| 0 <= k < i - 1 implies rest[k] != 10 by {
            assert(bytes[k + 1] != 10);
        }
        lemma_second_line(rest, i - 1);
    }
}

fn append_bytes(bytes: &mut Vec<u8>, more: &Vec<u8>, from: usize)
    requires
        from <= more@.len(),
    ensures
        final(bytes)@ == old(bytes)@ + more@.subrange(from as int, more@.len() as int),
{
    let mut i: usize = from;
    let ghost before = bytes@;
    while i < more.len()
        invariant
            from <= i <= more@.len(),
            bytes@ == before + more@.subrange(from as int, i as int),
        decreases more@.len() - i,
    {
        bytes.push(more[i]);
        assert(bytes@ =~= before + more@.subrange(from as int, i + 1));
        i += 1;
    }
}

/// The place of the first line feed before an offset, or the end of what is before the offset.
fn first_line_end(contents: &Vec<u8>, truncate_at: u64) -> (r: (usize, usize))
    ensures
        cut(contents@, truncate_at as int) == contents@.take(r.1 as int),
        r.0 <= r.1 <= contents@.len(),
        second_line(cut(contents@, truncate_at as int)) == if r.0 < r.1 {
            r.0 + 1
        } else {
            0
        },
{
    let len: usize = contents.len();
    let kept: usize = if truncate_at <= len as u64 {
        truncate_at as usize
    } else {
        len
    };
    let ghost prefix = cut(contents@, truncate_at as int);
    assert(prefix =~= contents@.take(kept as int));
    let mut i: usize = 0;
    while i < kept && contents[i] != 10
        invariant
            i <= kept <= contents@.len(),
            forall|k: int| 0 <= k < i ==> contents@[k] != 10,
        ensures
            i <= kept,
            i < kept ==> contents@[i as int] == 10,
            forall|k: int| 0 <= k < i ==> contents@[k] != 10,
        decreases kept - i,
    {
        i += 1;
    }
    proof {
        assert forall|k: int| 0 <= k < i implies prefix[k] != 10 by {
            assert(contents@[k] != 10);
        }
        lemma_second_line(prefix, i as int);
    }
    (i, kept)
}

/// Refuses contents that hold no whole first line before an offset.
pub fn has_first_line(contents: &Vec<u8>, truncate_at: u64) -> (r: Result<(), ThreadStoreError>)
    ensures
        match r {
            Ok(_) => second_line(cut(contents@, truncate_at as int)) > 0,
            Err(error) => second_line(cut(contents@, truncate_at as int)) == 0 && internal(
                error,
                "rollout is missing its session metadata line"@,
            ),
        },
{
    let (end, kept) = first_line_end(contents, truncate_at);
    if end == kept {
        Err(
            ThreadStoreError::Internal {
                message: "rollout is missing its session metadata line".to_owned(),
            },
        )
    } else {
        Ok(())
    }
}

/// Bytes that were cut at an offset and got another first line.
pub open spec fn with_first_line(contents: Seq<u8>, truncate_at: int, line: Seq<u8>) -> Seq<u8> {
    let kept = cut(contents, truncate_at);
    line.push(10u8) + kept.subrange(second_line(kept), kept.len() as int)
}

/// The contents of a rollout that was cut at an offset and got a new first line.
pub fn replace_metadata(contents: Vec<u8>, truncate_at: u64, metadata: Vec<u8>) -> (r: Result<
    Vec<u8>,
    ThreadStoreError,
>)
    ensures
        ({
            let kept = cut(contents@, truncate_at as int);
            match r {
                Ok(bytes) => second_line(kept) > 0 && bytes@ == with_first_line(
                    contents@,
                    truncate_at as int,
                    metadata@,
                ),
                Err(error) => second_line(kept) == 0 && internal(
                    error,
                    "rollout is missing its session metadata line"@,
                ),
            }
        }),
{
    match has_first_line(&contents, truncate_at) {
        Ok(_) => {},
        Err(error) => {
            return Err(error);
        },
    }
    let (end, kept) = first_line_end(&contents, truncate_at);
    let ghost prefix = cut(contents@, truncate_at as int);
    let mut contents = contents;
    contents.truncate(kept);
    assert(contents@ =~= prefix);
    let mut bytes = metadata;
    bytes.push(10u8);
    append_bytes(&mut bytes, &contents, end + 1);
    Ok(bytes)
}

/// Lines of bytes, each ended by a line feed.
pub open spec fn ended_lines(lines: Seq<Seq<u8>>) -> Seq<u8>
    decreases lines.len(),
{
    if lines.len() == 0 {
        Seq::empty()
    } else {
        ended_lines(lines.drop_last()) + lines.last().push(10u8)
    }
}

/// The bytes of each line.
pub open spec fn line_bytes(lines: Seq<Vec<u8>>) -> Seq<Seq<u8>> {
    lines.map_values(|line: Vec<u8>| line@)
}

/// The contents of a rollout that is written anew.
pub fn rebuild_rollout(metadata: Vec<u8>, lines: &Vec<Vec<u8>>) -> (bytes: Vec<u8>)
    ensures
        bytes@ == metadata@.push(10u8) + ended_lines(line_bytes(lines@)),
{
    let mut bytes = metadata;
    bytes.push(10u8);
    let ghost head = bytes@;
    let ghost all = line_bytes(lines@);
    let mut i: usize = 0;
    assert(all.take(0) =~= Seq::empty());
    assert(head + Seq::<u8>::empty() =~= head);
    while i < lines.len()
        invariant
            i <= lines@.len(),
            all == line_bytes(lines@),
            bytes@ == head + ended_lines(all.take(i as int)),
        decreases lines@.len() - i,
    {
        proof {
            assert(all.take(i + 1).drop_last() =~= all.take(i as int));
        }
        let ghost before = bytes@;
        append_bytes(&mut bytes, &lines[i], 0);
        bytes.push(10u8);
        proof {
            assert(lines@[i as int]@.subrange(0, lines@[i as int]@.len() as int)
                =~= all[i as int]);
            assert(bytes@ =~= head + ended_lines(all.take(i + 1)));
        }
        i += 1;
    }
    assert(all.take(i as int) =~= all);
    bytes
}

/// A line of a rollout.
pub struct RolloutLine {
    pub ordinal: Option<u64>,
    pub is_session_meta: bool,
    /// The line as it is written, without its end.
    pub encoded: Vec<u8>,
}

/// A line of a rollout after it was decoded.
pub enum DecodedLine {
    Line(RolloutLine),
    /// Not a rollout line; holds what the decoder said.
    Malformed(String),
}

/// The part of a rollout that belongs to the history of a thread.
pub struct RolloutSegment {
    pub rollout_id: String,
    pub path: String,
    pub start_ordinal: u64,
    pub end_ordinal: Option<u64>,
    pub lines: Vec<DecodedLine>,
}

/// Whether a line belongs to a segment.
pub open spec fn in_segment(line: RolloutLine, segment: RolloutSegment) -> bool {
    match line.ordinal {
        Some(ordinal) => segment.start_ordinal <= ordinal && (match segment.end_ordinal {
            Some(end) => ordinal < end,
            None => true,
        }),
        None => false,
    }
}

/// Whether a line belongs to a segment.
pub fn is_line_in_segment(line: &RolloutLine, segment: &RolloutSegment) -> (r: bool)
    ensures
        r == in_segment(*line, *segment),
{
    match line.ordinal {
        Some(ordinal) => ordinal >= segment.start_ordinal && match segment.end_ordinal {
            Some(end) => ordinal < end,
            None => true,
        },
        None => false,
    }
}

/// Whether a line is at the target or after it.
pub open spec fn reaches(line: RolloutLine, target_ordinal: u64) -> bool {
    line.ordinal matches Some(ordinal) && ordinal >= target_ordinal
}

/// What reading lines comes to: the lines that stay, or the error.
pub ghost enum LinesResult {
    Kept(Seq<Seq<u8>>),
    Failed(Seq<char>),
}

/// What a segment contributes from its line `i` on, after the lines in `kept`. In the segment
/// of the target, reading stops at the first line that reaches it.
pub open spec fn segment_lines(
    kept: Seq<Seq<u8>>,
    segment: RolloutSegment,
    stop_at: Option<u64>,
    i: int,
) -> LinesResult
    decreases segment.lines@.len() - i,
{
    if i < 0 || i >= segment.lines@.len() {
        LinesResult::Kept(kept)
    } else {
        match segment.lines@[i] {
            DecodedLine::Malformed(error) => LinesResult::Failed(
                "failed to parse rollout line "@ + segment.path@ + ": "@ + error@,
            ),
            DecodedLine::Line(line) => if stop_at is Some && reaches(line, stop_at->0) {
                LinesResult::Kept(kept)
            } else if in_segment(line, segment) && !line.is_session_meta {
                segment_lines(kept.push(line.encoded@), segment, stop_at, i + 1)
            } else {
                segment_lines(kept, segment, stop_at, i + 1)
            },
        }
    }
}

/// The lines of the history before the target: those of the segments before that of the target,
/// and those of that segment up to the target.
pub open spec fn history_lines(
    kept: Seq<Seq<u8>>,
    segments: Seq<RolloutSegment>,
    target_rollout: Seq<char>,
    target_ordinal: u64,
    s: int,
) -> LinesResult
    decreases segments.len() - s,
{
    if s < 0 || s >= segments.len() {
        LinesResult::Kept(kept)
    } else if segments[s].rollout_id@ == target_rollout {
        segment_lines(kept, segments[s], Some(target_ordinal), 0)
    } else {
        match segment_lines(kept, segments[s], None, 0) {
            LinesResult::Failed(error) => LinesResult::Failed(error),
            LinesResult::Kept(more) => history_lines(
                more,
                segments,
                target_rollout,
                target_ordinal,
                s + 1,
            ),
        }
    }
}

fn push_segment_lines(
    kept: &mut Vec<Vec<u8>>,
    segment: &RolloutSegment,
    stop_at: Option<u64>,
) -> (r: Result<(), ThreadStoreError>)
    ensures
        match segment_lines(line_bytes(old(kept)@), *segment, stop_at, 0) {
            LinesResult::Kept(lines) => r is Ok && line_bytes(final(kept)@) == lines,
            LinesResult::Failed(text) => r matches Err(error) && internal(error, text),
        },
{
    let ghost result = segment_lines(line_bytes(kept@), *segment, stop_at, 0);
    let mut i: usize = 0;
    while i < segment.lines.len()
        invariant
            i <= segment.lines@.len(),
            result == segment_lines(line_bytes(old(kept)@), *segment, stop_at, 0),
            result == segment_lines(line_bytes(kept@), *segment, stop_at, i as int),
        decreases segment.lines@.len() - i,
    {
        match &segment.lines[i] {
            DecodedLine::Malformed(error) => {
                let mut message = concat3(
                    "failed to parse rollout line ",
                    segment.path.as_str(),
                    ": ",
                );
                message.append(error.as_str());
                return Err(ThreadStoreError::Internal { message });
            },
            DecodedLine::Line(line) => {
                if let (Some(target), Some(ordinal)) = (stop_at, line.ordinal) {
                    if ordinal >= target {
                        return Ok(());
                    }
                }
                if is_line_in_segment(line, segment) && !line.is_session_meta {
                    let ghost before = kept@;
                    let encoded = line.encoded.clone();
                    assert(encoded@ =~= line.encoded@);
                    kept.push(encoded);
                    assert(line_bytes(kept@) =~= line_bytes(before).push(line.encoded@));
                }
            },
        }
        i += 1;
    }
    Ok(())
}

/// The lines of the history before the target, in order, without the metadata lines.
pub fn retained_rollout_lines(
    segments: &Vec<RolloutSegment>,
    target_rollout_id: &String,
    target_ordinal: u64,
) -> (r: Result<Vec<Vec<u8>>, ThreadStoreError>)
    ensures
        match history_lines(Seq::empty(), segments@, target_rollout_id@, target_ordinal, 0) {
            LinesResult::Kept(lines) => r matches Ok(kept) && line_bytes(kept@) == lines,
            LinesResult::Failed(text) => r matches Err(error) && internal(error, text),
        },
{
    let mut kept: Vec<Vec<u8>> = Vec::new();
    let ghost result = history_lines(
        Seq::empty(),
        segments@,
        target_rollout_id@,
        target_ordinal,
        0,
    );
    assert(line_bytes(kept@) =~= Seq::empty());
    let mut s: usize = 0;
    while s < segments.len()
        invariant
            s <= segments@.len(),
            result == history_lines(
                Seq::empty(),
                segments@,
                target_rollout_id@,
                target_ordinal,
                0,
            ),
            result == history_lines(
                line_bytes(kept@),
                segments@,
                target_rollout_id@,
                target_ordinal,
                s as int,
            ),
        decreases segments@.len() - s,
    {
        if segments[s].rollout_id == *target_rollout_id {
            return match push_segment_lines(&mut kept, &segments[s], Some(target_ordinal)) {
                Ok(()) => Ok(kept),
                Err(error) => Err(error),
            };
        }
        match push_segment_lines(&mut kept, &segments[s], None) {
            Ok(()) => {},
            Err(error) => {
                return Err(error);
            },
        }
        s += 1;
    }
    Ok(kept)
}

/// What happened to the projection of the rollout while its file was changed.
#[derive(Clone, Copy, Debug, PartialEq, Eq, Structural)]
pub enum ProjectionState {
    /// It was cut together with the file.
    Truncated,
    /// It still describes the file as it was.
    Stale,
}

/// Whether the projection has to be built anew from the file: unless it was cut with the file.
pub fn needs_rebuilt_projection(projection: ProjectionState) -> (r: bool)
    ensures
        r == (projection != ProjectionState::Truncated),
{
    projection != ProjectionState::Truncated
}

/// What became of the path that the database holds.
#[derive(Clone, Copy, Debug, PartialEq, Eq, Structural)]
pub enum PathUpdate {
    /// The database took the new path.
    Replaced,
    /// The database no longer held the path that it held at the start.
    Refused,
}

/// Whether the database has to take a new path of the rollout.
pub fn path_changed(expected: &String, actual: &String) -> (r: bool)
    ensures
        r == (expected@ != actual@),
{
    !(*expected == *actual)
}

/// How a revert ends.
pub fn finish_revert(thread_id: &str, update: PathUpdate) -> (r: Result<(), ThreadStoreError>)
    ensures
        update != PathUpdate::Refused ==> r == Ok::<(), ThreadStoreError>(()),
        update == PathUpdate::Refused ==> (r matches Err(ThreadStoreError::Conflict { message })
            && message@ == "thread "@ + thread_id@ + " changed while it was being reverted"@),
{
    match update {
        PathUpdate::Refused => Err(
            ThreadStoreError::Conflict {
                message: concat3("thread ", thread_id, " changed while it was being reverted"),
            },
        ),
        _ => Ok(()),
    }
}

/// An outside operation of a revert that failed.
pub enum RevertFailure {
    ReadThread,
    ReadRollout { path: String },
    MaterializeRollout,
    UpdatePath,
    /// Reading, writing or encoding a file.
    File,
}

/// The message of an outside operation that failed.
pub open spec fn failure_text(
    failure: RevertFailure,
    thread_id: Seq<char>,
    error: Seq<char>,
) -> Seq<char> {
    match failure {
        RevertFailure::ReadThread => "failed to read thread metadata for "@ + thread_id + ": "@
            + error,
        RevertFailure::ReadRollout { path } => "failed to read current paginated rollout "@ + path@
            + ": "@ + error,
        RevertFailure::MaterializeRollout => "failed to materialize rollout for revert: "@ + error,
        RevertFailure::UpdatePath => "failed to update reverted rollout path: "@ + error,
        RevertFailure::File => error,
    }
}

/// The error of an outside operation that failed with what `error` says.
pub fn revert_failure(failure: &RevertFailure, thread_id: &str, error: &str) -> (r:
    ThreadStoreError)
    ensures
        internal(r, failure_text(*failure, thread_id@, error@)),
{
    let message = match failure {
        RevertFailure::ReadThread => {
            let mut message = concat3("failed to read thread metadata for ", thread_id, ": ");
            message.append(error);
            message
        },
        RevertFailure::ReadRollout { path } => {
            let mut message = concat3(
                "failed to read current paginated rollout ",
                path.as_str(),
                ": ",
            );
            message.append(error);
            message
        },
        RevertFailure::MaterializeRollout => concat2(
            "failed to materialize rollout for revert: ",
            error,
        ),
        RevertFailure::UpdatePath => concat2("failed to update reverted rollout path: ", error),
        RevertFailure::File => error.to_owned(),
    };
    ThreadStoreError::Internal { message }
}

/// Replacing the first line keeps everything after it up to the cut: the rollout ends where a
/// plain cut would end it.
pub proof fn replaced_metadata_keeps_the_history(
    contents: Seq<u8>,
    truncate_at: int,
    metadata: Seq<u8>,
)
    requires
        0 <= truncate_at,
        second_line(cut(contents, truncate_at)) > 0,
        forall|i: int| 0 <= i < metadata.len() ==> metadata[i] != 10,
    ensures
        ({
            let kept = cut(contents, truncate_at);
            let bytes = metadata.push(10u8) + kept.subrange(
                second_line(kept),
                kept.len() as int,
            );
            &&& second_line(bytes) == metadata.len() + 1
            &&& bytes.subrange(second_line(bytes), bytes.len() as int) == kept.subrange(
                second_line(kept),
                kept.len() as int,
            )
        }),
{
    let kept = cut(contents, truncate_at);
    lemma_second_line_in_range(kept);
    let tail = kept.subrange(second_line(kept), kept.len() as int);
    let bytes = metadata.push(10u8) + tail;
    assert forall|k: int| 0 <= k < metadata.len() implies bytes[k] != 10 by {
        assert(bytes[k] == metadata[k]);
    }
    lemma_second_line(bytes, metadata.len() as int);
    assert(bytes.subrange((metadata.len() + 1) as int, bytes.len() as int) =~= tail);
}

proof fn lemma_second_line_in_range(bytes: Seq<u8>)
    ensures
        0 <= second_line(bytes) <= bytes.len(),
    decreases bytes.len(),
{
    if bytes.len() > 0 && bytes[0] != 10 {
        lemma_second_line_in_range(bytes.subrange(1, bytes.len() as int));
    }
}

/// A rollout that was rebuilt stands on its own: it continues no other one, and says up to where it
/// was forked just where it was forked at all.
pub proof fn rebuilt_rollouts_stand_alone(
    meta: SessionMeta,
    requested: Option<String>,
    ordinal: u64,
)
    ensures
        rebased(with_version(requested, meta), ordinal).history_base is None,
        rebased(with_version(requested, meta), ordinal).id == meta.id,
        rebased(with_version(requested, meta), ordinal).forked_from_ordinal_exclusive
            == if meta.forked_from_id is Some {
            Some(ordinal)
        } else {
            None
        },
{
}

/// Reading a segment up to the target is reading the lines before the first one that reaches it.
pub proof fn history_ends_before_the_target(
    kept: Seq<Seq<u8>>,
    segment: RolloutSegment,
    earlier: RolloutSegment,
    target_ordinal: u64,
    i: int,
    j: int,
)
    requires
        0 <= i <= j < segment.lines@.len(),
        segment.lines@[j] matches DecodedLine::Line(line) && reaches(line, target_ordinal),
        forall|k: int|
            i <= k < j ==> !((#[trigger] segment.lines@[k]) matches DecodedLine::Line(line)
                && reaches(line, target_ordinal)),
        earlier.lines@ == segment.lines@.take(j),
        earlier.path@ == segment.path@,
        earlier.start_ordinal == segment.start_ordinal,
        earlier.end_ordinal == segment.end_ordinal,
    ensures
        segment_lines(kept, segment, Some(target_ordinal), i) == segment_lines(
            kept,
            earlier,
            None,
            i,
        ),
    decreases j - i,
{
    if i < j {
        assert(earlier.lines@[i] == segment.lines@[i]);
        match segment.lines@[i] {
            DecodedLine::Line(line) => {
                let more = if in_segment(line, segment) && !line.is_session_meta {
                    kept.push(line.encoded@)
                } else {
                    kept
                };
                history_ends_before_the_target(more, segment, earlier, target_ordinal, i + 1, j);
            },
            DecodedLine::Malformed(_) => {},
        }
    }
}

/// What is to be done ends the thread before the target: the file is cut where the turn begins
/// where it began in the current rollout, and keeps its first line unless another version is
/// asked for. It is rebuilt from what comes before the turn where that began in another rollout.
/// The metadata stay as they are but for the version, and for what a rebuild sets.
pub proof fn plans_end_before_the_target(
    before_turn_id: Seq<char>,
    requested: Option<String>,
    meta: SessionMeta,
    current: CurrentRollout,
    target: TargetTurn,
    r: Result<RevertPlan, ThreadStoreError>,
)
    requires
        planned(before_turn_id, requested, meta, current, target, r),
    ensures
        r is Ok <==> target.rollout_byte_offset is Some && target.rollout_byte_offset->0 >= 0 && (
        target.rollout_id@ == current.rollout_id@ || target.rollout_ordinal >= 0),
        r is Err && target.rollout_byte_offset is None ==> r->Err_0 is InvalidRequest,
        r is Err && target.rollout_byte_offset is Some ==> r->Err_0 is Internal,
        r matches Ok(RevertPlan::Truncate { truncate_at }) ==> {
            &&& target.rollout_id@ == current.rollout_id@
            &&& Some(truncate_at as i64) == target.rollout_byte_offset
            &&& requested is None || requested.deep_view() == meta.multi_agent_version.deep_view()
        },
        r matches Ok(RevertPlan::ReplaceMetadata { truncate_at, meta: written }) ==> {
            &&& target.rollout_id@ == current.rollout_id@
            &&& Some(truncate_at as i64) == target.rollout_byte_offset
            &&& requested is Some
            &&& requested.deep_view() != meta.multi_agent_version.deep_view()
            &&& written.multi_agent_version == requested
            &&& written.id == meta.id
            &&& written.timestamp == meta.timestamp
            &&& written.history_mode == meta.history_mode
            &&& written.history_base == meta.history_base
            &&& written.subagent_history_start_ordinal == meta.subagent_history_start_ordinal
            &&& written.forked_from_id == meta.forked_from_id
            &&& written.forked_from_ordinal_exclusive == meta.forked_from_ordinal_exclusive
        },
        r matches Ok(RevertPlan::Rebuild { meta: written, target_ordinal }) ==> {
            &&& target.rollout_id@ != current.rollout_id@
            &&& target_ordinal == target.rollout_ordinal
            &&& written.multi_agent_version == (if requested is Some {
                requested
            } else {
                meta.multi_agent_version
            })
            &&& written.id == meta.id
            &&& written.timestamp == meta.timestamp
            &&& written.history_mode == meta.history_mode
            &&& written.history_base is None
            &&& written.subagent_history_start_ordinal is None
            &&& written.forked_from_id == meta.forked_from_id
            &&& written.forked_from_ordinal_exclusive == (if meta.forked_from_id is Some {
                Some(target_ordinal)
            } else {
                None
            })
        },
{
}

/// A rollout that belongs to another thread, or has no paginated history, is not reverted, and
/// only such a one is refused.
pub proof fn only_own_paginated_rollouts_are_reverted(
    thread_id: Seq<char>,
    meta: SessionMeta,
    current: CurrentRollout,
    error: ThreadStoreError,
)
    ensures
        revertible(meta, current) <==> meta.id@ == current.thread_id@ && meta.history_mode
            != ThreadHistoryMode::Legacy,
        refused(thread_id, meta, current, error) ==> !revertible(meta, current) && error
            is InvalidRequest,
{
}

/// The first line of a file is exchanged for another one, and what follows it stays up to the cut.
pub proof fn first_lines_are_exchanged(
    first: Seq<u8>,
    rest: Seq<u8>,
    truncate_at: int,
    line: Seq<u8>,
)
    requires
        forall|i: int| 0 <= i < first.len() ==> first[i] != 10,
        truncate_at > first.len(),
    ensures
        second_line(cut(first.push(10u8) + rest, truncate_at)) == first.len() + 1,
        with_first_line(first.push(10u8) + rest, truncate_at, line) == line.push(10u8) + (
        if truncate_at - first.len() - 1 <= rest.len() {
            rest.take(truncate_at - first.len() - 1)
        } else {
            rest
        }),
{
    let contents = first.push(10u8) + rest;
    let kept = cut(contents, truncate_at);
    assert forall|k: int| 0 <= k < first.len() implies kept[k] != 10 by {
        assert(kept[k] == first[k]);
    }
    assert(kept[first.len() as int] == 10);
    lemma_second_line(kept, first.len() as int);
    let more = if truncate_at - first.len() - 1 <= rest.len() {
        rest.take(truncate_at - first.len() - 1)
    } else {
        rest
    };
    assert(kept.subrange((first.len() + 1) as int, kept.len() as int) =~= more);
}

/// A file without a line feed before the cut has no first line.
pub proof fn cut_lines_are_no_lines(contents: Seq<u8>, truncate_at: int)
    requires
        forall|i: int| 0 <= i < contents.len() && i < truncate_at ==> contents[i] != 10,
        0 <= truncate_at,
    ensures
        second_line(cut(contents, truncate_at)) == 0,
{
    let kept = cut(contents, truncate_at);
    assert forall|k: int| 0 <= k < kept.len() implies kept[k] != 10 by {
        assert(kept[k] == contents[k]);
    }
    lemma_second_line(kept, kept.len() as int);
}

/// A rebuilt file holds the lines in their order, each ended by a line feed.
pub proof fn rebuilt_lines_follow_each_other(first: Seq<Seq<u8>>, second: Seq<Seq<u8>>)
    ensures
        ended_lines(first + second) == ended_lines(first) + ended_lines(second),
        second.len() == 1 ==> ended_lines(second) == second[0] + seq![10u8],
    decreases second.len(),
{
    if second.len() == 0 {
        assert(first + second =~= first);
        assert(ended_lines(first) + Seq::<u8>::empty() =~= ended_lines(first));
    } else {
        rebuilt_lines_follow_each_other(first, second.drop_last());
        assert((first + second).drop_last() =~= first + second.drop_last());
        assert(ended_lines(first + second) =~= ended_lines(first) + ended_lines(second));
        if second.len() == 1 {
            assert(second.drop_last() =~= Seq::empty());
            assert(ended_lines(second) =~= second[0] + seq![10u8]);
        }
    }
}

/// Whether the line `i` of a segment is one of the history before an ordinal: no metadata, and with
/// a number of the segment below the ordinal.
pub open spec fn is_kept_line(segment: RolloutSegment, below: Option<u64>, i: int) -> bool {
    &&& 0 <= i < segment.lines@.len()
    &&& segment.lines@[i] matches DecodedLine::Line(line)
    &&& !line.is_session_meta
    &&& line.ordinal matches Some(ordinal)
    &&& segment.start_ordinal <= ordinal
    &&& segment.end_ordinal matches Some(end) ==> ordinal < end
    &&& below matches Some(target) ==> ordinal < target
}

/// The bytes of line `i` of a segment.
pub open spec fn bytes_of_line(segment: RolloutSegment, i: int) -> Seq<u8> {
    segment.lines@[i]->Line_0.encoded@
}

proof fn lemma_segment_sound(
    kept: Seq<Seq<u8>>,
    segment: RolloutSegment,
    stop_at: Option<u64>,
    i: int,
    l: Seq<u8>,
) -> (r: Option<int>)
    requires
        0 <= i,
        segment_lines(kept, segment, stop_at, i) is Kept,
        segment_lines(kept, segment, stop_at, i)->Kept_0.contains(l),
    ensures
        r is None ==> kept.contains(l),
        r matches Some(k) ==> is_kept_line(segment, stop_at, k) && bytes_of_line(segment, k) == l,
    decreases segment.lines@.len() - i,
{
    if i < segment.lines@.len() {
        match segment.lines@[i] {
            DecodedLine::Line(line) => if stop_at is Some && reaches(line, stop_at->0) {
                None
            } else if in_segment(line, segment) && !line.is_session_meta {
                let more = kept.push(line.encoded@);
                let r = lemma_segment_sound(more, segment, stop_at, i + 1, l);
                if r is None && !kept.contains(l) {
                    let k = choose|k: int| 0 <= k < more.len() && more[k] == l;
                    if k < kept.len() {
                        assert(kept[k] == l);
                    }
                    Some(i)
                } else {
                    r
                }
            } else {
                lemma_segment_sound(kept, segment, stop_at, i + 1, l)
            },
            DecodedLine::Malformed(_) => None,
        }
    } else {
        None
    }
}

proof fn lemma_segment_keeps(
    kept: Seq<Seq<u8>>,
    segment: RolloutSegment,
    stop_at: Option<u64>,
    i: int,
)
    requires
        0 <= i,
        segment_lines(kept, segment, stop_at, i) is Kept,
    ensures
        kept.is_prefix_of(segment_lines(kept, segment, stop_at, i)->Kept_0),
    decreases segment.lines@.len() - i,
{
    if i < segment.lines@.len() {
        match segment.lines@[i] {
            DecodedLine::Line(line) => if stop_at is Some && reaches(line, stop_at->0) {
            } else if in_segment(line, segment) && !line.is_session_meta {
                lemma_segment_keeps(kept.push(line.encoded@), segment, stop_at, i + 1);
                assert(kept.is_prefix_of(kept.push(line.encoded@)));
            } else {
                lemma_segment_keeps(kept, segment, stop_at, i + 1);
            },
            DecodedLine::Malformed(_) => {},
        }
    }
}

proof fn lemma_segment_complete(
    kept: Seq<Seq<u8>>,
    segment: RolloutSegment,
    stop_at: Option<u64>,
    i: int,
    k: int,
)
    requires
        0 <= i <= k,
        segment_lines(kept, segment, stop_at, i) is Kept,
        is_kept_line(segment, stop_at, k),
        forall|j: int|
            i <= j < k ==> !(stop_at matches Some(target) && (
            #[trigger] segment.lines@[j]) matches DecodedLine::Line(line) && reaches(line, target)),
    ensures
        segment_lines(kept, segment, stop_at, i)->Kept_0.contains(bytes_of_line(segment, k)),
    decreases k - i,
{
    match segment.lines@[i] {
        DecodedLine::Line(line) => {
            if i < k {
                assert(!(stop_at matches Some(target) && segment.lines@[
                i] matches DecodedLine::Line(line) && reaches(line, target)));
                let more = if in_segment(line, segment) && !line.is_session_meta {
                    kept.push(line.encoded@)
                } else {
                    kept
                };
                lemma_segment_complete(more, segment, stop_at, i + 1, k);
            } else {
                let more = kept.push(line.encoded@);
                lemma_segment_keeps(more, segment, stop_at, i + 1);
                let all = segment_lines(kept, segment, stop_at, i)->Kept_0;
                assert(more[kept.len() as int] == line.encoded@);
                assert(all[kept.len() as int] == more[kept.len() as int]);
            }
        },
        DecodedLine::Malformed(_) => {},
    }
}

proof fn lemma_history_sound(
    kept: Seq<Seq<u8>>,
    segments: Seq<RolloutSegment>,
    target_rollout: Seq<char>,
    target_ordinal: u64,
    s: int,
    l: Seq<u8>,
) -> (r: Option<(int, int)>)
    requires
        0 <= s,
        history_lines(kept, segments, target_rollout, target_ordinal, s) is Kept,
        history_lines(kept, segments, target_rollout, target_ordinal, s)->Kept_0.contains(l),
    ensures
        r is None ==> kept.contains(l),
        r matches Some((t, k)) ==> {
            &&& s <= t < segments.len()
            &&& is_kept_line(
                segments[t],
                if segments[t].rollout_id@ == target_rollout {
                    Some(target_ordinal)
                } else {
                    None
                },
                k,
            )
            &&& bytes_of_line(segments[t], k) == l
        },
    decreases segments.len() - s,
{
    if s < segments.len() {
        if segments[s].rollout_id@ == target_rollout {
            match lemma_segment_sound(kept, segments[s], Some(target_ordinal), 0, l) {
                Some(k) => Some((s, k)),
                None => None,
            }
        } else {
            let more = segment_lines(kept, segments[s], None, 0)->Kept_0;
            match lemma_history_sound(more, segments, target_rollout, target_ordinal, s + 1, l) {
                Some(r) => Some(r),
                None => match lemma_segment_sound(kept, segments[s], None, 0, l) {
                    Some(k) => Some((s, k)),
                    None => None,
                },
            }
        }
    } else {
        None
    }
}

proof fn lemma_history_keeps(
    kept: Seq<Seq<u8>>,
    segments: Seq<RolloutSegment>,
    target_rollout: Seq<char>,
    target_ordinal: u64,
    s: int,
)
    requires
        0 <= s,
        history_lines(kept, segments, target_rollout, target_ordinal, s) is Kept,
    ensures
        kept.is_prefix_of(
            history_lines(kept, segments, target_rollout, target_ordinal, s)->Kept_0,
        ),
    decreases segments.len() - s,
{
    if s < segments.len() {
        if segments[s].rollout_id@ == target_rollout {
            lemma_segment_keeps(kept, segments[s], Some(target_ordinal), 0);
        } else {
            lemma_segment_keeps(kept, segments[s], None, 0);
            let more = segment_lines(kept, segments[s], None, 0)->Kept_0;
            lemma_history_keeps(more, segments, target_rollout, target_ordinal, s + 1);
        }
    }
}

proof fn lemma_history_complete(
    kept: Seq<Seq<u8>>,
    segments: Seq<RolloutSegment>,
    target_rollout: Seq<char>,
    target_ordinal: u64,
    s: int,
    t: int,
    k: int,
)
    requires
        0 <= s <= t < segments.len(),
        history_lines(kept, segments, target_rollout, target_ordinal, s) is Kept,
        forall|u: int| s <= u < t ==> (#[trigger] segments[u]).rollout_id@ != target_rollout,
        is_kept_line(
            segments[t],
            if segments[t].rollout_id@ == target_rollout {
                Some(target_ordinal)
            } else {
                None
            },
            k,
        ),
        segments[t].rollout_id@ == target_rollout ==> forall|j: int|
            0 <= j < k ==> !((#[trigger] segments[t].lines@[j]) matches DecodedLine::Line(line)
                && reaches(line, target_ordinal)),
    ensures
        history_lines(kept, segments, target_rollout, target_ordinal, s)->Kept_0.contains(
            bytes_of_line(segments[t], k),
        ),
    decreases t - s,
{
    if s < t {
        assert(segments[s].rollout_id@ != target_rollout);
        let more = segment_lines(kept, segments[s], None, 0)->Kept_0;
        lemma_history_complete(more, segments, target_rollout, target_ordinal, s + 1, t, k);
    } else if segments[t].rollout_id@ == target_rollout {
        lemma_segment_complete(kept, segments[t], Some(target_ordinal), 0, k);
    } else {
        lemma_segment_complete(kept, segments[t], None, 0, k);
        let more = segment_lines(kept, segments[t], None, 0)->Kept_0;
        lemma_history_keeps(more, segments, target_rollout, target_ordinal, s + 1);
        let all = history_lines(kept, segments, target_rollout, target_ordinal, s)->Kept_0;
        let x = choose|x: int|
            0 <= x < more.len() && more[x] == bytes_of_line(segments[t], k);
        assert(all[x] == more[x]);
    }
}

/// A rebuilt rollout holds the history before the target and nothing else. Each line that stays is
/// one of the history: no metadata, with a number that belongs to its segment, and below the
/// target in the segment of the target. And each such line stays that stands in the segment of the
/// target before the target, or in a segment before that.
pub proof fn rebuilt_rollouts_hold_the_history(
    segments: Seq<RolloutSegment>,
    target_rollout: Seq<char>,
    target_ordinal: u64,
    l: Seq<u8>,
    t: int,
    k: int,
) -> (found: (int, int))
    requires
        history_lines(Seq::empty(), segments, target_rollout, target_ordinal, 0) is Kept,
    ensures
        ({
            let lines = history_lines(
                Seq::empty(),
                segments,
                target_rollout,
                target_ordinal,
                0,
            )->Kept_0;
            lines.contains(l) ==> {
                let (u, i) = found;
                &&& 0 <= u < segments.len()
                &&& 0 <= i < segments[u].lines@.len()
                &&& segments[u].lines@[i] matches DecodedLine::Line(line)
                &&& line.encoded@ == l
                &&& !line.is_session_meta
                &&& line.ordinal matches Some(ordinal)
                &&& segments[u].start_ordinal <= ordinal
                &&& segments[u].end_ordinal is Some ==> ordinal < segments[u].end_ordinal->0
                &&& segments[u].rollout_id@ == target_rollout ==> ordinal < target_ordinal
            }
        }),
        0 <= t < segments.len() && (forall|u: int|
            0 <= u < t ==> (#[trigger] segments[u]).rollout_id@ != target_rollout) && is_kept_line(
            segments[t],
            if segments[t].rollout_id@ == target_rollout {
                Some(target_ordinal)
            } else {
                None
            },
            k,
        ) && (segments[t].rollout_id@ == target_rollout ==> forall|j: int|
            0 <= j < k ==> !((#[trigger] segments[t].lines@[j]) matches DecodedLine::Line(line)
                && line.ordinal is Some && line.ordinal->0 >= target_ordinal)) ==> history_lines(
            Seq::empty(),
            segments,
            target_rollout,
            target_ordinal,
            0,
        )->Kept_0.contains(bytes_of_line(segments[t], k)),
{
    let none = Seq::<Seq<u8>>::empty();
    let lines = history_lines(none, segments, target_rollout, target_ordinal, 0)->Kept_0;
    if 0 <= t < segments.len() && (forall|u: int|
        0 <= u < t ==> (#[trigger] segments[u]).rollout_id@ != target_rollout) && is_kept_line(
        segments[t],
        if segments[t].rollout_id@ == target_rollout {
            Some(target_ordinal)
        } else {
            None
        },
        k,
    ) && (segments[t].rollout_id@ == target_rollout ==> forall|j: int|
        0 <= j < k ==> !((#[trigger] segments[t].lines@[j]) matches DecodedLine::Line(line)
            && line.ordinal is Some && line.ordinal->0 >= target_ordinal)) {
        if segments[t].rollout_id@ == target_rollout {
            assert forall|j: int| 0 <= j < k implies !((
            #[trigger] segments[t].lines@[j]) matches DecodedLine::Line(line) && reaches(
                line,
                target_ordinal,
            )) by {}
        }
        lemma_history_complete(none, segments, target_rollout, target_ordinal, 0, t, k);
    }
    if lines.contains(l) {
        let r = lemma_history_sound(none, segments, target_rollout, target_ordinal, 0, l);
        r->0
    } else {
        (0, 0)
    }
}

/// The error of an outside operation that failed holds what the operation said, at its end.
pub proof fn failures_hold_what_was_said(
    failure: RevertFailure,
    thread_id: Seq<char>,
    error: Seq<char>,
)
    ensures
        crate::text::has_suffix(failure_text(failure, thread_id, error), error),
{
    let text = failure_text(failure, thread_id, error);
    assert(text.subrange(text.len() - error.len(), text.len() as int) =~= error);
}

/// A line that cannot be read makes the segment fail, with its path and what the decoder said,
/// unless the target was reached before.
pub proof fn unreadable_lines_are_told(
    kept: Seq<Seq<u8>>,
    segment: RolloutSegment,
    stop_at: Option<u64>,
    i: int,
)
    requires
        0 <= i < segment.lines@.len(),
        segment.lines@[i] is Malformed,
    ensures
        segment_lines(kept, segment, stop_at, i) == LinesResult::Failed(
            "failed to parse rollout line "@ + segment.path@ + ": "@
                + segment.lines@[i]->Malformed_0@,
        ),
{
}

} // verus!
