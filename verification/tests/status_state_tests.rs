use codex_session::status_indicator::ModelTransferPhase;
use codex_session::status_state::{
    CompactionStatusKind, PendingGuardianReviewStatus, StatusIndicatorState, StatusState,
};

fn status(header: &str) -> StatusIndicatorState {
    StatusIndicatorState {
        header: header.to_string(),
        details: None,
        details_max_lines: 1,
    }
}

#[test]
fn guardian_status_aggregates_parallel_reviews() {
    let mut state = PendingGuardianReviewStatus::new();
    state.start_or_update("a".to_string(), "first".to_string());
    state.start_or_update("b".to_string(), "second".to_string());

    assert_eq!(
        state.status_indicator_state(),
        Some(StatusIndicatorState {
            header: "Reviewing 2 approval requests".to_string(),
            details: Some("• first\n• second".to_string()),
            details_max_lines: 4,
        })
    );
}

#[test]
fn guardian_status_counts_reviews_that_do_not_fit() {
    let mut state = PendingGuardianReviewStatus::new();
    assert!(state.is_empty());
    assert_eq!(state.status_indicator_state(), None);
    for id in ["a", "b", "c", "d", "e"] {
        state.start_or_update(id.to_string(), format!("detail {id}"));
    }
    state.start_or_update("b".to_string(), "changed".to_string());
    let shown = state.status_indicator_state().expect("pending reviews");
    assert_eq!(shown.header, "Reviewing 5 approval requests");
    assert_eq!(
        shown.details.as_deref(),
        Some("• detail a\n• changed\n• detail c\n+2 more")
    );
    assert!(shown.is_guardian_review());

    for id in ["a", "c", "d", "e"] {
        assert!(state.finish(id));
    }
    assert!(!state.finish("a"));
    assert_eq!(
        state.status_indicator_state(),
        Some(StatusIndicatorState {
            header: "Reviewing approval request".to_string(),
            details: Some("changed".to_string()),
            details_max_lines: 1,
        })
    );
    state.clear();
    assert!(state.is_empty());
}

#[test]
fn retry_status_header_is_taken_once() {
    let mut state = StatusState::new();
    state.current_status.header = "Thinking".to_string();

    state.remember_retry_status_header();

    assert_eq!(
        state.take_retry_status_header(),
        Some("Thinking".to_string())
    );
    assert_eq!(state.take_retry_status_header(), None);
}

#[test]
fn waiting_status_restores_updates_after_all_waiters_finish() {
    let mut state = StatusState::new();
    state.current_status.header = "Thinking".to_string();

    assert_eq!(state.begin_waiting().header, "Waiting");
    state.set_status(StatusIndicatorState {
        header: "Checking files".to_string(),
        details: None,
        details_max_lines: 1,
    });
    assert_eq!(state.current_status.header, "Waiting");
    assert_eq!(
        state.finish_waiting(),
        Some(StatusIndicatorState {
            header: "Checking files".to_string(),
            details: None,
            details_max_lines: 1,
        })
    );
    assert_eq!(state.current_status.header, "Checking files");
    assert_eq!(state.finish_waiting(), None);
}

#[test]
fn compaction_goes_back_to_what_was_shown_before_the_first_one() {
    let mut state = StatusState::new();
    state.set_status(status("Thinking"));
    state.begin_compaction(CompactionStatusKind::Local);
    state.set_status(status("Compacting locally"));
    state.begin_compaction(CompactionStatusKind::RemoteV2);
    assert_eq!(state.active_compaction, Some(CompactionStatusKind::RemoteV2));
    assert_eq!(state.finish_compaction(), Some(status("Thinking")));
    assert_eq!(state.finish_compaction(), None);
    assert_eq!(
        [
            CompactionStatusKind::Local.header(),
            CompactionStatusKind::RemoteV1.header(),
            CompactionStatusKind::RemoteV2.header(),
        ],
        [
            "Compacting locally",
            "Compacting remotely (v1)",
            "Compacting remotely (v2)"
        ]
    );
}

#[test]
fn request_progress_preserves_retry_error_until_model_output() {
    let mut state = StatusState::new();
    for attempt in 1..=2 {
        state.remember_retry_status_header();
        state.set_status(StatusIndicatorState {
            header: format!("Reconnecting... {attempt}/5"),
            details: Some("Connection reset by peer".to_string()),
            details_max_lines: 3,
        });
        for (phase, sent, received) in [
            (ModelTransferPhase::Sending, 0, 0),
            (ModelTransferPhase::Sending, 1024, 0),
            (ModelTransferPhase::Receiving, 1024, 128),
        ] {
            state.update_model_transfer(phase, sent, received);
            assert_eq!(
                state.current_status.header,
                format!("Reconnecting... {attempt}/5")
            );
            assert_eq!(state.retry_status_header.as_deref(), Some("Working"));
        }
    }
    assert_eq!(state.take_retry_status_header().as_deref(), Some("Working"));
    assert_eq!(state.retry_status_header, None);
}

#[test]
fn transfers_add_up_over_requests() {
    let mut state = StatusState::new();
    let first = state.update_model_transfer(ModelTransferPhase::Sending, 7, 7);
    assert_eq!((first.sent_bytes, first.received_bytes), (0, 0));
    let answer = state.update_model_transfer(ModelTransferPhase::Receiving, 100, 20);
    assert_eq!((answer.sent_bytes, answer.received_bytes), (100, 20));
    let next = state.update_model_transfer(ModelTransferPhase::Sending, 0, 0);
    assert_eq!((next.sent_bytes, next.received_bytes), (100, 20));
    let answer = state.update_model_transfer(ModelTransferPhase::Receiving, 5, u64::MAX);
    assert_eq!((answer.sent_bytes, answer.received_bytes), (105, u64::MAX));
    state.reset_model_transfer();
    let fresh = state.update_model_transfer(ModelTransferPhase::Receiving, 1, 2);
    assert_eq!((fresh.sent_bytes, fresh.received_bytes), (1, 2));
}
