use codex_session::revert::steps::{
    start, step, RevertAction, RevertEvent, RevertRequest, RevertState,
};
use codex_session::revert::{
    check_source, finish_revert, is_line_in_segment, known_thread, needs_rebuilt_projection,
    path_changed, plan_revert, rebuild_rollout, replace_metadata, retained_rollout_lines,
    revert_failure, supported, CurrentRollout, DecodedLine, PathUpdate, ProjectionState,
    RevertFailure, RevertPlan, RolloutLine, RolloutSegment, SessionMeta, TargetTurn,
    ThreadHistoryMode, ThreadStoreError,
};

fn meta() -> SessionMeta {
    SessionMeta {
        id: "thread".to_string(),
        timestamp: "2025-01-05T12:00:00Z".to_string(),
        history_mode: ThreadHistoryMode::Paginated,
        multi_agent_version: None,
        history_base: Some("older".to_string()),
        subagent_history_start_ordinal: Some(9),
        forked_from_id: Some("origin".to_string()),
        forked_from_ordinal_exclusive: Some(9),
    }
}

fn current() -> CurrentRollout {
    CurrentRollout {
        rollout_id: "rollout".to_string(),
        thread_id: "thread".to_string(),
    }
}

fn target(rollout_id: &str, offset: Option<i64>, ordinal: i64) -> TargetTurn {
    TargetTurn {
        rollout_id: rollout_id.to_string(),
        rollout_byte_offset: offset,
        rollout_ordinal: ordinal,
    }
}

fn line(ordinal: Option<u64>, is_session_meta: bool, encoded: &str) -> RolloutLine {
    RolloutLine {
        ordinal,
        is_session_meta,
        encoded: encoded.as_bytes().to_vec(),
    }
}

fn message(error: ThreadStoreError) -> String {
    match error {
        ThreadStoreError::Unsupported { operation } => operation,
        ThreadStoreError::ThreadNotFound { thread_id } => thread_id,
        ThreadStoreError::InvalidRequest { message }
        | ThreadStoreError::Internal { message }
        | ThreadStoreError::Conflict { message } => message,
    }
}

#[test]
fn sources_are_checked() {
    assert!(check_source("thread", &meta(), &current()).is_ok());
    let foreign = SessionMeta {
        id: "other".to_string(),
        ..meta()
    };
    assert!(matches!(
        check_source("thread", &foreign, &current()),
        Err(ThreadStoreError::InvalidRequest { message })
            if message == "current rollout for thread belongs to another thread"
    ));
    let legacy = SessionMeta {
        history_mode: ThreadHistoryMode::Legacy,
        ..meta()
    };
    assert!(matches!(
        check_source("thread", &legacy, &current()),
        Err(ThreadStoreError::InvalidRequest { message })
            if message == "thread thread does not use paginated history"
    ));
    assert!(matches!(
        known_thread::<u8>(None, "thread"),
        Err(ThreadStoreError::ThreadNotFound { thread_id }) if thread_id == "thread"
    ));
    assert_eq!(known_thread(Some(3u8), "thread").ok(), Some(3));
    assert!(matches!(
        supported::<u8>(None),
        Err(ThreadStoreError::Unsupported { operation }) if operation == "revert_thread"
    ));
}

#[test]
fn reverts_cut_replace_or_rebuild() {
    assert!(matches!(
        plan_revert("turn", None, meta(), &current(), &target("rollout", Some(120), 4)),
        Ok(RevertPlan::Truncate { truncate_at: 120 })
    ));
    let replaced = plan_revert(
        "turn",
        Some("v2".to_string()),
        meta(),
        &current(),
        &target("rollout", Some(120), 4),
    );
    assert!(matches!(
        replaced,
        Ok(RevertPlan::ReplaceMetadata { truncate_at: 120, meta })
            if meta.multi_agent_version.as_deref() == Some("v2")
                && meta.history_base.as_deref() == Some("older")
    ));
    match plan_revert("turn", None, meta(), &current(), &target("older", Some(0), 4)) {
        Ok(RevertPlan::Rebuild {
            meta,
            target_ordinal,
        }) => {
            assert_eq!(target_ordinal, 4);
            assert_eq!(meta.history_base, None);
            assert_eq!(meta.forked_from_ordinal_exclusive, Some(4));
            assert_eq!(meta.subagent_history_start_ordinal, None);
        }
        _ => panic!("expected the history to be written anew"),
    }
}

#[test]
fn reverts_need_a_sound_boundary() {
    for (target, text) in [
        (
            target("rollout", None, 4),
            "turn turn does not have a persisted start boundary",
        ),
        (
            target("rollout", Some(-1), 4),
            "turn turn has an invalid byte offset",
        ),
        (
            target("older", Some(0), -1),
            "target turn has a negative rollout ordinal",
        ),
    ] {
        let error = plan_revert("turn", None, meta(), &current(), &target)
            .err()
            .expect("unsound boundary");
        assert_eq!(message(error), text);
    }
}

#[test]
fn metadata_is_the_first_line() {
    let contents = b"old\nfirst\nsecond\n".to_vec();
    assert_eq!(
        replace_metadata(contents.clone(), 10, b"new".to_vec()).ok(),
        Some(b"new\nfirst\n".to_vec())
    );
    assert_eq!(
        replace_metadata(contents.clone(), 4, b"new".to_vec()).ok(),
        Some(b"new\n".to_vec())
    );
    assert_eq!(
        message(replace_metadata(contents, 3, b"new".to_vec()).expect_err("no first line")),
        "rollout is missing its session metadata line"
    );
    assert_eq!(
        rebuild_rollout(b"meta".to_vec(), &vec![b"a".to_vec(), b"b".to_vec()]),
        b"meta\na\nb\n".to_vec()
    );
}

#[test]
fn lines_before_the_target_stay() {
    let segment = |rollout_id: &str, start, end, lines| RolloutSegment {
        rollout_id: rollout_id.to_string(),
        path: format!("{rollout_id}.jsonl"),
        start_ordinal: start,
        end_ordinal: end,
        lines,
    };
    let segments = || {
        vec![
            segment(
                "older",
                0,
                Some(2),
                vec![
                    DecodedLine::Line(line(Some(0), true, "meta")),
                    DecodedLine::Line(line(Some(1), false, "one")),
                    DecodedLine::Line(line(Some(2), false, "beyond")),
                ],
            ),
            segment(
                "rollout",
                2,
                None,
                vec![
                    DecodedLine::Line(line(None, false, "unnumbered")),
                    DecodedLine::Line(line(Some(2), false, "two")),
                    DecodedLine::Line(line(Some(3), false, "three")),
                    DecodedLine::Malformed("bad".to_string()),
                ],
            ),
        ]
    };
    assert_eq!(
        retained_rollout_lines(&segments(), &"rollout".to_string(), 3).ok(),
        Some(vec![b"one".to_vec(), b"two".to_vec()])
    );
    assert_eq!(
        retained_rollout_lines(&segments(), &"older".to_string(), 1).ok(),
        Some(Vec::new())
    );
    assert_eq!(
        message(
            retained_rollout_lines(&segments(), &"rollout".to_string(), 9)
                .expect_err("unreadable line")
        ),
        "failed to parse rollout line rollout.jsonl: bad"
    );
    assert!(is_line_in_segment(
        &line(Some(1), false, ""),
        &segments()[0]
    ));
    assert!(!is_line_in_segment(
        &line(Some(2), false, ""),
        &segments()[0]
    ));
}

#[test]
fn reverts_end_with_the_database() {
    assert!(path_changed(&"a".to_string(), &"b".to_string()));
    assert!(!path_changed(&"a".to_string(), &"a".to_string()));
    assert!(finish_revert("thread", PathUpdate::Replaced).is_ok());
    assert!(matches!(
        finish_revert("thread", PathUpdate::Refused),
        Err(ThreadStoreError::Conflict { message })
            if message == "thread thread changed while it was being reverted"
    ));
    assert!(!needs_rebuilt_projection(ProjectionState::Truncated));
    assert!(needs_rebuilt_projection(ProjectionState::Stale));
}

#[test]
fn failures_name_what_failed() {
    for (failure, text) in [
        (
            RevertFailure::ReadThread,
            "failed to read thread metadata for thread: io",
        ),
        (
            RevertFailure::ReadRollout {
                path: "r.jsonl".to_string(),
            },
            "failed to read current paginated rollout r.jsonl: io",
        ),
        (
            RevertFailure::MaterializeRollout,
            "failed to materialize rollout for revert: io",
        ),
        (
            RevertFailure::UpdatePath,
            "failed to update reverted rollout path: io",
        ),
        (RevertFailure::File, "io"),
    ] {
        assert_eq!(message(revert_failure(&failure, "thread", "io")), text);
    }
}

/// Runs a revert on given answers, up to its end.
fn run(request: &RevertRequest, events: Vec<RevertEvent>) -> Vec<RevertAction> {
    let (mut state, action) = start();
    let mut actions = vec![action];
    for event in events {
        let (next, action) = step(request, state, event);
        state = next;
        actions.push(action);
    }
    assert!(matches!(state, RevertState::Finished));
    actions
}

fn request(version: Option<&str>) -> RevertRequest {
    RevertRequest {
        thread_id: "thread".to_string(),
        before_turn_id: "turn".to_string(),
        multi_agent_version: version.map(str::to_string),
    }
}

/// The answers up to the turn.
fn until_turn(target: TargetTurn) -> Vec<RevertEvent> {
    vec![
        RevertEvent::Database(true),
        RevertEvent::Locked(Ok(())),
        RevertEvent::Thread(Ok(Some("stored".to_string()))),
        RevertEvent::Rollout(Ok(Some((current(), "found".to_string())))),
        RevertEvent::Metadata(Ok(meta())),
        RevertEvent::Turn(Ok(target)),
    ]
}

#[test]
fn a_cut_takes_the_projection_first() {
    let mut events = until_turn(target("rollout", Some(120), 4));
    events.push(RevertEvent::Materialized(Ok("stored".to_string())));
    events.push(RevertEvent::ProjectionTruncated(Ok(true)));
    events.push(RevertEvent::FileChanged(Ok(())));
    let actions = run(&request(None), events);
    assert!(matches!(&actions[5], RevertAction::FindTurn { turn_id } if turn_id == "turn"));
    assert!(matches!(
        &actions[6],
        RevertAction::MaterializeRollout { path } if path == "found"
    ));
    assert!(matches!(
        actions[7],
        RevertAction::TruncateProjection {
            truncate_at: 120,
            ordinal: 4
        }
    ));
    assert!(matches!(
        &actions[8],
        RevertAction::TruncateFile { path, truncate_at: 120 } if path == "stored"
    ));
    assert!(matches!(actions[9], RevertAction::Finish(Ok(()))));
    assert_eq!(actions.len(), 10);
}

#[test]
fn a_new_version_replaces_the_first_line() {
    let mut events = until_turn(target("rollout", Some(10), 4));
    events.push(RevertEvent::Materialized(Ok("plain".to_string())));
    events.push(RevertEvent::FileRead(Ok(b"old\nfirst\nsecond\n".to_vec())));
    events.push(RevertEvent::Encoded(Ok(b"new".to_vec())));
    events.push(RevertEvent::FileChanged(Ok(())));
    events.push(RevertEvent::ProjectionRebuilt(Ok(())));
    events.push(RevertEvent::PathReplaced(Ok(true)));
    let actions = run(&request(Some("v2")), events);
    assert!(matches!(
        &actions[8],
        RevertAction::EncodeMetadata { meta } if meta.multi_agent_version.as_deref() == Some("v2")
    ));
    assert!(matches!(
        &actions[9],
        RevertAction::WriteFile { path, contents } if path == "plain" && contents == b"new\nfirst\n"
    ));
    assert!(matches!(
        &actions[10],
        RevertAction::RebuildProjection { path } if path == "plain"
    ));
    assert!(matches!(
        &actions[11],
        RevertAction::ReplacePath { expected, actual } if expected == "stored" && actual == "plain"
    ));
    assert!(matches!(actions[12], RevertAction::Finish(Ok(()))));
}

#[test]
fn an_inherited_turn_rebuilds_the_rollout() {
    let mut events = until_turn(target("older", Some(0), 2));
    events.push(RevertEvent::History(Ok(vec![RolloutSegment {
        rollout_id: "older".to_string(),
        path: "older.jsonl".to_string(),
        start_ordinal: 0,
        end_ordinal: None,
        lines: vec![
            DecodedLine::Line(line(Some(1), false, "one")),
            DecodedLine::Line(line(Some(2), false, "two")),
        ],
    }])));
    events.push(RevertEvent::Materialized(Ok("stored".to_string())));
    events.push(RevertEvent::Encoded(Ok(b"meta".to_vec())));
    events.push(RevertEvent::FileChanged(Ok(())));
    events.push(RevertEvent::ProjectionRebuilt(Ok(())));
    let actions = run(&request(None), events);
    assert!(matches!(actions[6], RevertAction::ReadHistory));
    assert!(matches!(
        &actions[9],
        RevertAction::WriteFile { path, contents } if path == "stored" && contents == b"meta\none\n"
    ));
    assert!(matches!(actions[11], RevertAction::Finish(Ok(()))));
}

#[test]
fn the_first_failure_ends_a_revert() {
    let failed = |events: Vec<RevertEvent>| match run(&request(None), events).pop() {
        Some(RevertAction::Finish(Err(error))) => message(error),
        _ => panic!("expected an error"),
    };
    assert_eq!(failed(vec![RevertEvent::Database(false)]), "revert_thread");
    assert_eq!(
        failed(vec![
            RevertEvent::Database(true),
            RevertEvent::Locked(Err(ThreadStoreError::Conflict {
                message: "busy".to_string()
            })),
        ]),
        "busy"
    );
    assert_eq!(
        failed(vec![
            RevertEvent::Database(true),
            RevertEvent::Locked(Ok(())),
            RevertEvent::Thread(Ok(None)),
        ]),
        "thread"
    );
    let mut refused = until_turn(target("rollout", Some(1), 1));
    refused.truncate(4);
    refused.push(RevertEvent::Metadata(Ok(SessionMeta {
        history_mode: ThreadHistoryMode::Legacy,
        ..meta()
    })));
    assert_eq!(
        failed(refused),
        "thread thread does not use paginated history"
    );
    let mut changed = until_turn(target("rollout", Some(1), 1));
    changed.push(RevertEvent::Materialized(Ok("plain".to_string())));
    changed.push(RevertEvent::ProjectionTruncated(Ok(false)));
    changed.push(RevertEvent::FileChanged(Ok(())));
    changed.push(RevertEvent::ProjectionRebuilt(Ok(())));
    changed.push(RevertEvent::PathReplaced(Ok(false)));
    assert_eq!(
        failed(changed),
        "thread thread changed while it was being reverted"
    );
}
