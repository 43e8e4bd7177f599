use codex_session::permissions::{
    apply_permission_change, handle_collaboration_mode_shift_tab, handle_permission_shortcut,
    permission_change, ApprovalPreset, ApprovalsReviewer, PermissionContext, PermissionEvent,
    PermissionKey, PermissionProfileSelection, ShortcutContext, ShortcutStep,
    NO_OTHER_PERMISSION_MODES,
};

fn preset(id: &str, label: &str, profile_id: &str, approval: &str) -> ApprovalPreset {
    ApprovalPreset {
        id: id.to_string(),
        label: label.to_string(),
        profile_id: profile_id.to_string(),
        approval: approval.to_string(),
        disabled: false,
        matches_current: false,
    }
}

fn presets() -> Vec<ApprovalPreset> {
    vec![
        preset("read-only", "Read Only", ":read-only", "on-request"),
        preset("auto", "Default", ":workspace", "on-request"),
        preset("full-access", "Full Access", ":danger-full-access", "never"),
    ]
}

fn context() -> PermissionContext {
    PermissionContext {
        current_approval: "on-request".to_string(),
        current_reviewer: ApprovalsReviewer::User,
        active_profile: Some(":workspace".to_string()),
        guardian_approval: true,
        user_review_allowed: true,
        auto_review_allowed: true,
        auto_review_required: false,
        windows: false,
        windows_auto_blocked: false,
        ask_for_approval_label: "Ask for approval".to_string(),
        approve_for_me_label: "Approve for me".to_string(),
    }
}

fn shortcut() -> ShortcutContext {
    ShortcutContext {
        collaboration_modes_enabled: true,
        modal_or_popup_active: false,
        blocks_direct_input: false,
        thread_known: true,
        plan_mode: false,
    }
}

fn next() -> PermissionKey {
    PermissionKey {
        backtab: false,
        next: true,
        previous: false,
    }
}

fn selection(profile_id: &str, reviewer: Option<ApprovalsReviewer>) -> PermissionProfileSelection {
    PermissionProfileSelection {
        profile_id: profile_id.to_string(),
        approval_policy: Some("on-request".to_string()),
        approvals_reviewer: reviewer,
        display_label: "Approve for me".to_string(),
    }
}

#[test]
fn permission_shortcuts_use_local_permission_events() {
    let choices = context().permission_shortcut_choices(&presets());
    let step = handle_permission_shortcut(next(), shortcut(), choices);
    let chosen = match step {
        ShortcutStep::Apply(chosen) => chosen,
        other => panic!("expected another mode: {other:?}"),
    };
    assert_eq!(
        chosen,
        selection(":workspace", Some(ApprovalsReviewer::AutoReview))
    );

    let change = permission_change(&presets(), &chosen).expect("built-in mode");
    let events = apply_permission_change(&change, None).expect("permissions set");
    assert_eq!(
        events,
        vec![
            PermissionEvent::OverrideTurnContext {
                approval: "on-request".to_string(),
                reviewer: ApprovalsReviewer::AutoReview,
                preset: 1,
            },
            PermissionEvent::UpdateAskForApprovalPolicy("on-request".to_string()),
            PermissionEvent::UpdateActivePermissionProfile(":workspace".to_string()),
            PermissionEvent::UpdateApprovalsReviewer(ApprovalsReviewer::AutoReview),
        ]
    );
}

#[test]
fn permission_shortcuts_respect_managed_mode_requirements() {
    for restricted in [
        PermissionContext {
            user_review_allowed: false,
            ..context()
        },
        PermissionContext {
            auto_review_required: true,
            ..context()
        },
    ] {
        let restricted = PermissionContext {
            current_reviewer: ApprovalsReviewer::AutoReview,
            ..restricted
        };
        let choices = restricted.permission_shortcut_choices(&presets());
        assert_eq!(
            choices
                .iter()
                .map(|choice| choice.selection.approvals_reviewer)
                .collect::<Vec<_>>(),
            vec![Some(ApprovalsReviewer::AutoReview)]
        );
        assert_eq!(
            handle_permission_shortcut(next(), shortcut(), choices),
            ShortcutStep::NoOtherMode
        );
    }
    assert_eq!(
        NO_OTHER_PERMISSION_MODES,
        "No other permission modes are available."
    );
}

#[test]
fn shift_tab_cycles_to_plan_without_changing_model() {
    let full_access = PermissionContext {
        current_approval: "never".to_string(),
        active_profile: Some(":danger-full-access".to_string()),
        ..context()
    };
    let choices = full_access.permission_shortcut_choices(&presets());
    let back_tab = PermissionKey {
        backtab: true,
        next: true,
        previous: false,
    };
    assert_eq!(
        handle_permission_shortcut(back_tab, shortcut(), choices),
        ShortcutStep::CycleMode(None)
    );
    let planning = ShortcutContext {
        plan_mode: true,
        ..shortcut()
    };
    let choices = full_access.permission_shortcut_choices(&presets());
    assert!(matches!(
        handle_collaboration_mode_shift_tab(planning, &choices),
        ShortcutStep::CycleMode(_)
    ));
}

#[test]
fn modes_are_offered_by_platform_and_reviewer() {
    let labels = |context: &PermissionContext| {
        context
            .permission_shortcut_choices(&presets())
            .into_iter()
            .map(|choice| (choice.selection.display_label, choice.current))
            .collect::<Vec<_>>()
    };
    assert_eq!(
        labels(&context()),
        vec![
            ("Ask for approval".to_string(), true),
            ("Approve for me".to_string(), false),
            ("Full Access".to_string(), false),
        ]
    );
    let windows = PermissionContext {
        windows: true,
        windows_auto_blocked: true,
        guardian_approval: false,
        ..context()
    };
    assert_eq!(
        labels(&windows),
        vec![
            ("Read Only".to_string(), false),
            ("Full Access".to_string(), false),
        ]
    );
}

#[test]
fn other_keys_and_open_popups_are_left_alone() {
    let choices = || context().permission_shortcut_choices(&presets());
    let other = PermissionKey {
        backtab: false,
        next: false,
        previous: false,
    };
    assert_eq!(
        handle_permission_shortcut(other, shortcut(), choices()),
        ShortcutStep::NotHandled
    );
    let popup = ShortcutContext {
        modal_or_popup_active: true,
        ..shortcut()
    };
    assert_eq!(
        handle_permission_shortcut(next(), popup, choices()),
        ShortcutStep::NotHandled
    );
    let child = ShortcutContext {
        blocks_direct_input: true,
        ..shortcut()
    };
    assert_eq!(
        handle_permission_shortcut(next(), child, choices()),
        ShortcutStep::ParentOwned
    );
    let previous = PermissionKey {
        previous: true,
        ..other
    };
    assert!(matches!(
        handle_permission_shortcut(previous, shortcut(), choices()),
        ShortcutStep::Apply(selection) if selection.display_label == "Full Access"
    ));
}

#[test]
fn permission_changes_fail_with_their_messages() {
    assert_eq!(
        permission_change(&presets(), &selection(":custom", None)),
        Err("Unknown built-in permission profile: :custom".to_string())
    );
    let change = permission_change(
        &presets(),
        &selection(":workspace", Some(ApprovalsReviewer::User)),
    )
    .expect("built-in mode");
    assert_eq!(
        apply_permission_change(&change, Some("denied".to_string())),
        Err("Failed to set permission profile: denied".to_string())
    );
}
