use codex_session::backtrack::rollback_target::{
    backtrack_rollback_target, is_hidden_nested_review_turn, BacktrackRollbackTarget,
    RollbackTargetError,
};
use codex_session::thread::{
    MentionBinding, PromptContent, ThreadItem, Turn, TurnStatus, UserInput, UserMessage,
    UserMessageDisplay,
};

fn content(text: &str) -> PromptContent {
    PromptContent {
        inputs: vec![UserInput::Text {
            text: text.to_string(),
            text_elements: Vec::new(),
        }],
        display: UserMessageDisplay {
            message: text.to_string(),
            remote_image_urls: Vec::new(),
            local_images: Vec::new(),
            text_elements: Vec::new(),
        },
        mention_bindings: Vec::new(),
    }
}

fn turn(turn_id: &str, status: TurnStatus, user_messages: usize) -> Turn {
    Turn {
        id: turn_id.to_string(),
        items: (0..user_messages)
            .map(|index| ThreadItem::UserMessage {
                id: format!("user-{index}"),
                content: content(&format!("{turn_id}-prompt-{index}")),
            })
            .collect(),
        status,
        completed_at: None,
    }
}

fn prompt(text: &str) -> UserMessage {
    UserMessage {
        text: text.to_string(),
        local_images: Vec::new(),
        remote_image_urls: Vec::new(),
        text_elements: Vec::new(),
        mention_bindings: Vec::new(),
    }
}

fn target(
    turns: &Vec<Turn>,
    transcript: &Vec<UserMessage>,
    newer_user_messages: usize,
    selected: &str,
) -> Result<BacktrackRollbackTarget, RollbackTargetError> {
    backtrack_rollback_target(turns, transcript, newer_user_messages, &mut prompt(selected))
}

#[test]
fn resolves_first_and_later_prompts_around_userless_turns() {
    let turns = vec![
        turn("turn-1", TurnStatus::Completed, 1),
        turn("turn-compaction", TurnStatus::Completed, 0),
        turn("turn-2", TurnStatus::Completed, 1),
    ];
    let transcript = vec![prompt("turn-1-prompt-0"), prompt("turn-2-prompt-0")];

    assert_eq!(
        target(&turns, &transcript, 1, "turn-1-prompt-0").expect("first prompt should resolve"),
        BacktrackRollbackTarget {
            before_turn_id: "turn-1".to_string(),
            legacy_num_turns: 2,
            removed_turn_ids: vec![
                "turn-1".to_string(),
                "turn-compaction".to_string(),
                "turn-2".to_string(),
            ],
        }
    );
    assert_eq!(
        target(&turns, &transcript, 0, "turn-2-prompt-0").expect("later prompt should resolve"),
        BacktrackRollbackTarget {
            before_turn_id: "turn-2".to_string(),
            legacy_num_turns: 1,
            removed_turn_ids: vec!["turn-2".to_string()],
        }
    );
}

#[test]
fn resolves_hook_blocked_prompt_to_userless_turn_boundary() {
    let turns = vec![
        turn("turn-1", TurnStatus::Completed, 1),
        turn("turn-hook-blocked", TurnStatus::Completed, 0),
    ];
    let transcript = vec![prompt("turn-1-prompt-0"), prompt("123456 example")];

    assert_eq!(
        target(&turns, &transcript, 0, "123456 example")
            .expect("hook-blocked prompt should resolve"),
        BacktrackRollbackTarget {
            before_turn_id: "turn-hook-blocked".to_string(),
            legacy_num_turns: 0,
            removed_turn_ids: vec!["turn-hook-blocked".to_string()],
        }
    );
    assert_eq!(
        target(&turns, &transcript, 1, "turn-1-prompt-0")
            .expect("prompt before a hook-blocked turn should resolve"),
        BacktrackRollbackTarget {
            before_turn_id: "turn-1".to_string(),
            legacy_num_turns: 1,
            removed_turn_ids: vec!["turn-1".to_string(), "turn-hook-blocked".to_string()],
        }
    );
}

#[test]
fn aligns_duplicate_hook_blocked_prompt_without_stealing_persisted_match() {
    let turns = vec![
        turn("turn-prefix", TurnStatus::Completed, 1),
        turn("turn-1", TurnStatus::Completed, 1),
        turn("turn-hook-blocked", TurnStatus::Completed, 0),
    ];
    let transcript = vec![prompt("turn-1-prompt-0"), prompt("turn-1-prompt-0")];

    assert_eq!(
        target(&turns, &transcript, 0, "turn-1-prompt-0")
            .expect("duplicate blocked prompt should use the empty turn"),
        BacktrackRollbackTarget {
            before_turn_id: "turn-hook-blocked".to_string(),
            legacy_num_turns: 0,
            removed_turn_ids: vec!["turn-hook-blocked".to_string()],
        }
    );
}

#[test]
fn resolves_failed_compact_after_earlier_steers() {
    let mut earlier_compact = turn("turn-earlier-compact", TurnStatus::Completed, 1);
    earlier_compact.items[0] = ThreadItem::UserMessage {
        id: "user-0".to_string(),
        content: content("/compact"),
    };
    let mut failed_compact = turn("turn-failed-compact", TurnStatus::Failed, 1);
    failed_compact.items[0] = ThreadItem::UserMessage {
        id: "user-0".to_string(),
        content: content("/compact"),
    };
    let turns = vec![
        turn("turn-with-steers", TurnStatus::Interrupted, 3),
        earlier_compact,
        turn("turn-after-compact", TurnStatus::Completed, 1),
        failed_compact,
    ];
    let transcript = vec![prompt("/compact")];

    assert_eq!(
        target(&turns, &transcript, 0, "/compact")
            .expect("latest failed compact should resolve independently of the history prefix"),
        BacktrackRollbackTarget {
            before_turn_id: "turn-failed-compact".to_string(),
            legacy_num_turns: 1,
            removed_turn_ids: vec!["turn-failed-compact".to_string()],
        }
    );
}

#[test]
fn resolves_mid_turn_steers_at_turn_boundary() {
    let turns = vec![turn("turn-1", TurnStatus::Completed, 2)];
    let transcript = vec![prompt("turn-1-prompt-0"), prompt("turn-1-prompt-1")];

    assert_eq!(
        target(&turns, &transcript, 0, "turn-1-prompt-1")
            .expect("a steer should roll back at its containing turn boundary"),
        BacktrackRollbackTarget {
            before_turn_id: "turn-1".to_string(),
            legacy_num_turns: 2,
            removed_turn_ids: vec!["turn-1".to_string()],
        }
    );
}

#[test]
fn resolves_model_output_interruption_from_persisted_prompt() {
    let mut interrupted = turn("turn-1", TurnStatus::Interrupted, 1);
    interrupted.items.push(ThreadItem::AgentMessage {
        text: "partial answer".to_string(),
        visible_markdown: "partial answer".to_string(),
    });
    let transcript = vec![prompt("turn-1-prompt-0")];

    assert_eq!(
        target(&vec![interrupted], &transcript, 0, "turn-1-prompt-0")
            .expect("an interrupted model-output turn should remain rewindable"),
        BacktrackRollbackTarget {
            before_turn_id: "turn-1".to_string(),
            legacy_num_turns: 1,
            removed_turn_ids: vec!["turn-1".to_string()],
        }
    );
}

#[test]
fn resolves_snapshot_before_late_interrupted_turn() {
    let turns = vec![
        turn("turn-1", TurnStatus::Completed, 1),
        turn("turn-2", TurnStatus::Interrupted, 1),
    ];
    let transcript = vec![prompt("turn-1-prompt-0")];

    assert_eq!(
        target(&turns, &transcript, 0, "turn-1-prompt-0")
            .expect("a persisted interrupt tail should not invalidate the transcript snapshot"),
        BacktrackRollbackTarget {
            before_turn_id: "turn-1".to_string(),
            legacy_num_turns: 2,
            removed_turn_ids: vec!["turn-1".to_string(), "turn-2".to_string()],
        }
    );
}

#[test]
fn rejects_in_progress_missing_and_stale_prompts() {
    let turns = vec![turn("turn-1", TurnStatus::InProgress, 1)];
    let transcript = vec![prompt("turn-1-prompt-0")];

    assert_eq!(
        target(&turns, &transcript, 0, "turn-1-prompt-0")
            .expect_err("in-progress prompt cannot be rolled back")
            .message(),
        "the selected prompt belongs to a turn that is still in progress"
    );
    assert_eq!(
        target(&turns, &transcript, 1, "missing prompt")
            .expect_err("missing prompt cannot be rolled back")
            .message(),
        "the selected prompt was not found in the persisted thread"
    );

    let completed_turns = vec![turn("turn-1", TurnStatus::Completed, 1)];
    assert_eq!(
        target(&completed_turns, &transcript, 0, "different prompt")
            .expect_err("a stale transcript prompt cannot be rolled back")
            .message(),
        "the selected transcript prompt no longer matches the persisted thread"
    );
}

#[test]
fn skips_hidden_review_prompts() {
    let mut review_turn = turn("turn-review", TurnStatus::Completed, 1);
    review_turn.items.insert(
        0,
        ThreadItem::EnteredReviewMode {
            review: "changes against main".to_string(),
        },
    );
    review_turn.items.push(ThreadItem::ExitedReviewMode {
        review: "review complete".to_string(),
    });
    let turns = vec![
        turn("turn-1", TurnStatus::Completed, 1),
        review_turn,
        turn("turn-2", TurnStatus::Completed, 1),
    ];
    let transcript = vec![prompt("turn-1-prompt-0"), prompt("turn-2-prompt-0")];

    assert_eq!(
        target(&turns, &transcript, 0, "turn-2-prompt-0")
            .expect("the visible prompt after review should resolve"),
        BacktrackRollbackTarget {
            before_turn_id: "turn-2".to_string(),
            legacy_num_turns: 1,
            removed_turn_ids: vec!["turn-2".to_string()],
        }
    );
}

fn review_prompts() -> Vec<ThreadItem> {
    (0..2)
        .map(|index| ThreadItem::UserMessage {
            id: format!("review-prompt-{index}"),
            content: content(
                "Review the current code changes (staged, unstaged, and untracked files).",
            ),
        })
        .collect()
}

#[test]
fn skips_hidden_nested_review_prompts() {
    let mut review_turn = turn("turn-review", TurnStatus::Completed, 0);
    review_turn.items = vec![
        ThreadItem::EnteredReviewMode {
            review: "current changes".to_string(),
        },
        ThreadItem::ExitedReviewMode {
            review: "review complete".to_string(),
        },
    ];
    let mut review_child_turn = turn("turn-review-child", TurnStatus::Interrupted, 0);
    review_child_turn.items = review_prompts();
    let mut interrupted_steered_turn = turn("turn-interrupted-steer", TurnStatus::Interrupted, 0);
    interrupted_steered_turn.items = review_prompts();
    interrupted_steered_turn.completed_at = Some(1);
    assert!(!is_hidden_nested_review_turn(
        &review_turn,
        &interrupted_steered_turn,
    ));
    let turns = vec![
        review_turn,
        review_child_turn,
        turn("turn-2", TurnStatus::Completed, 1),
    ];
    let transcript = vec![prompt("turn-2-prompt-0")];

    assert_eq!(
        target(&turns, &transcript, 0, "turn-2-prompt-0")
            .expect("the visible prompt after a nested review should resolve"),
        BacktrackRollbackTarget {
            before_turn_id: "turn-2".to_string(),
            legacy_num_turns: 1,
            removed_turn_ids: vec!["turn-2".to_string()],
        }
    );
}

fn bindings() -> Vec<MentionBinding> {
    vec![
        MentionBinding {
            sigil: '$',
            mention: "skill".to_string(),
            path: "/tmp/skills/skill/SKILL.md".to_string(),
        },
        MentionBinding {
            sigil: '@',
            mention: "sample".to_string(),
            path: "plugin://sample@test".to_string(),
        },
        MentionBinding {
            sigil: '$',
            mention: "google-calendar".to_string(),
            path: "app://google_calendar".to_string(),
        },
    ]
}

#[test]
fn restores_canonical_mention_bindings() {
    let text = "use $skill @sample $google-calendar";
    let mut selected = content(text);
    selected.inputs.push(UserInput::Skill {
        name: "skill".to_string(),
        path: "/tmp/skills/skill/SKILL.md".to_string(),
    });
    selected.inputs.push(UserInput::Mention {
        name: "Sample Plugin".to_string(),
        path: "plugin://sample@test".to_string(),
    });
    selected.inputs.push(UserInput::Mention {
        name: "Google Calendar".to_string(),
        path: "app://google_calendar".to_string(),
    });
    selected.mention_bindings = bindings();
    let mut selected_turn = turn("turn-2", TurnStatus::Completed, 1);
    selected_turn.items = vec![ThreadItem::UserMessage {
        id: "selected-prompt".to_string(),
        content: selected,
    }];
    let turns = vec![turn("turn-1", TurnStatus::Completed, 1), selected_turn];
    let transcript = vec![prompt(text)];
    let mut selected_prompt = prompt(text);

    assert_eq!(
        backtrack_rollback_target(&turns, &transcript, 0, &mut selected_prompt)
            .expect("the selected prompt should resolve"),
        BacktrackRollbackTarget {
            before_turn_id: "turn-2".to_string(),
            legacy_num_turns: 1,
            removed_turn_ids: vec!["turn-2".to_string()],
        }
    );
    assert_eq!(selected_prompt.mention_bindings, bindings());
}

#[test]
fn earlier_prompts_remove_more_turns() {
    let turns = vec![
        turn("turn-1", TurnStatus::Completed, 1),
        turn("turn-2", TurnStatus::Completed, 1),
        turn("turn-3", TurnStatus::Completed, 1),
    ];
    let transcript = vec![
        prompt("turn-1-prompt-0"),
        prompt("turn-2-prompt-0"),
        prompt("turn-3-prompt-0"),
    ];
    for newer in 0..3 {
        let removed = target(
            &turns,
            &transcript,
            newer,
            &format!("turn-{}-prompt-0", 3 - newer),
        )
        .expect("every prompt resolves")
        .removed_turn_ids;
        assert_eq!(removed.len(), newer + 1);
        assert_eq!(removed[0], format!("turn-{}", 3 - newer));
    }
}
