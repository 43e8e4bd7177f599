use codex_session::compact::{
    fails_task, finish, local_prompt, metric_label, CompactContext, CompactFailure, CompactRoute,
    CompactTask, CompactionMode, RemoteCompactionSupport,
};

fn context() -> CompactContext {
    CompactContext {
        provider_mode: None,
        provider_support: RemoteCompactionSupport::V2,
        token_budget: false,
        remote_v2: true,
    }
}

fn task(mode: Option<CompactionMode>) -> CompactTask {
    CompactTask { mode }
}

#[test]
fn explicit_local_compaction_uses_responses_prompt() {
    let task = task(Some(CompactionMode::Local));
    assert_eq!(task.command(), "/compact local");
    assert_eq!(task.route(&context()), CompactRoute::Local);
    assert_eq!(local_prompt(&None, "summarize"), "summarize");
    assert_eq!(
        local_prompt(&Some("shorten".to_string()), "summarize"),
        "shorten"
    );
}

#[test]
fn explicit_remote_v1_compaction_uses_compact_endpoint() {
    let task = task(Some(CompactionMode::RemoteV1));
    assert_eq!(task.command(), "/compact remotev1");
    assert_eq!(task.route(&context()), CompactRoute::Remote);
}

#[test]
fn explicit_remote_v2_compaction_uses_compaction_trigger() {
    let task = task(Some(CompactionMode::RemoteV2));
    assert_eq!(task.command(), "/compact remotev2");
    let unsupported = CompactContext {
        provider_support: RemoteCompactionSupport::Unsupported,
        remote_v2: false,
        ..context()
    };
    assert_eq!(task.route(&unsupported), CompactRoute::RemoteV2);
}

#[test]
fn the_provider_decides_where_no_mode_is_asked_for() {
    let plain = task(None);
    assert_eq!(plain.command(), "/compact");
    for (support, remote_v2, route) in [
        (RemoteCompactionSupport::Unsupported, true, CompactRoute::Local),
        (RemoteCompactionSupport::V1, true, CompactRoute::Remote),
        (RemoteCompactionSupport::V2, false, CompactRoute::Remote),
        (RemoteCompactionSupport::V2, true, CompactRoute::RemoteV2),
    ] {
        let context = CompactContext {
            provider_support: support,
            remote_v2,
            ..context()
        };
        assert_eq!(plain.route(&context), route);
    }
    let configured = CompactContext {
        provider_mode: Some(CompactionMode::Local),
        ..context()
    };
    assert_eq!(plain.route(&configured), CompactRoute::Local);
    let budget = CompactContext {
        token_budget: true,
        ..context()
    };
    assert_eq!(plain.route(&budget), CompactRoute::TokenBudget);
    assert_eq!(
        task(Some(CompactionMode::RemoteV1)).route(&budget),
        CompactRoute::Remote
    );
}

#[test]
fn routes_have_labels_and_failures() {
    assert_eq!(metric_label(CompactRoute::TokenBudget), None);
    assert_eq!(metric_label(CompactRoute::Local).as_deref(), Some("local"));
    assert_eq!(metric_label(CompactRoute::Remote).as_deref(), Some("remote"));
    assert_eq!(
        metric_label(CompactRoute::RemoteV2).as_deref(),
        Some("remote_v2")
    );
    assert!(fails_task(CompactRoute::Local, CompactFailure::TurnAborted));
}

#[test]
fn plans_hold_the_command_the_route_and_the_prompt() {
    let local = task(Some(CompactionMode::Local)).plan(&context(), &None, "summarize");
    assert_eq!(local.command, "/compact local");
    assert_eq!(local.route, CompactRoute::Local);
    assert_eq!(local.metric.as_deref(), Some("local"));
    assert_eq!(local.prompt.as_deref(), Some("summarize"));

    let remote = task(None).plan(&context(), &Some("shorten".to_string()), "summarize");
    assert_eq!(remote.command, "/compact");
    assert_eq!(remote.route, CompactRoute::RemoteV2);
    assert_eq!(remote.metric.as_deref(), Some("remote_v2"));
    assert_eq!(remote.prompt, None);
}

#[test]
fn only_aborted_turns_and_token_budgets_fail_the_task() {
    assert_eq!(finish(CompactRoute::Local, Ok(())), Ok(()));
    assert_eq!(finish(CompactRoute::Remote, Err(CompactFailure::Other)), Ok(()));
    assert_eq!(
        finish(CompactRoute::Remote, Err(CompactFailure::TurnAborted)),
        Err(CompactFailure::TurnAborted)
    );
    assert_eq!(
        finish(CompactRoute::TokenBudget, Err(CompactFailure::Other)),
        Err(CompactFailure::Other)
    );
}
