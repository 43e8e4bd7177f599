use codex_session::backtrack::cells::{HistoryCell, UserHistoryCell};
use codex_session::backtrack::events::{
    merge_events, restore_notice, rollback_error_message, summarize_restore, untracked, AfterCut,
    AfterFiles, BufferedEvent, FileRestoreReport, Notice, RestoreStart, TrackedTurn,
};
use codex_session::backtrack::rollback_steps::{files_previewed, RollbackStep};
use codex_session::backtrack::rollback_target::BacktrackRollbackTarget;
use codex_session::backtrack::selection::{BacktrackRestoreMode, BacktrackSelection, RewindAction};
use codex_session::backtrack::state::{
    show_backtrack_restore_picker, BacktrackFileRestoreSummary, BacktrackState, EscAction,
    PickerAction,
};
use codex_session::backtrack::transcript_input::{
    after_draw, history_state_after_request, initial_history_state, requests_older_history,
    AfterDraw, TranscriptHistoryState, TranscriptKey,
};
use codex_session::checkpoint::model::{FileRestoreChangeKind, FileRestoreDisposition};
use codex_session::checkpoint::restore::FileRestorePreviewEntry;
use codex_session::revert::ThreadHistoryMode;
use codex_session::rewind_view::RewindViewKind;
use codex_session::thread::{
    PromptContent, ThreadItem, Turn, TurnStatus, UserInput, UserMessage, UserMessageDisplay,
};

fn prompt(text: &str) -> UserMessage {
    UserMessage {
        text: text.to_string(),
        local_images: Vec::new(),
        remote_image_urls: Vec::new(),
        text_elements: Vec::new(),
        mention_bindings: Vec::new(),
    }
}

fn selection() -> BacktrackSelection {
    BacktrackSelection {
        thread_id: "thread".to_string(),
        nth_user_message: 0,
        newer_user_messages: 0,
        prompt: prompt("saved prompt"),
    }
}

fn user(message: &str) -> HistoryCell {
    HistoryCell::User(UserHistoryCell {
        message: message.to_string(),
        text_elements: Vec::new(),
        local_image_paths: Vec::new(),
        remote_image_urls: Vec::new(),
    })
}

fn turn(id: &str) -> Turn {
    Turn {
        id: id.to_string(),
        items: Vec::new(),
        status: TurnStatus::InProgress,
        completed_at: None,
    }
}

#[test]
fn rewind_keeps_history_and_checkpoints_when_file_restore_is_incomplete() {
    let thread = Some("thread".to_string());
    let thread_id = "thread".to_string();
    let mut state = BacktrackState::new();
    state.pending_rollback = Some(selection());
    let cells = vec![user("saved prompt")];

    assert_eq!(
        state.start_restore(
            &thread,
            &thread_id,
            BacktrackRestoreMode::CodeAndConversation
        ),
        RestoreStart::RestoreFiles
    );
    let report = FileRestoreReport::Done {
        restored: 0,
        skipped: 1,
        failed: 0,
    };
    assert_eq!(
        state.after_files(BacktrackRestoreMode::CodeAndConversation, &report),
        AfterFiles::Stopped
    );
    // A picker action that was queued before the failure does nothing any more.
    assert_eq!(
        state.start_restore(&thread, &thread_id, BacktrackRestoreMode::Conversation),
        RestoreStart::Ignored
    );
    assert_eq!(codex_session::backtrack::cells::user_count(&cells), 1);
    assert!(matches!(
        restore_notice(&report),
        Notice::Info(text) if text == "Restored 0 tracked files; skipped 1; failed 0."
    ));
}

#[test]
fn complete_restores_cut_the_conversation() {
    let thread = Some("thread".to_string());
    let thread_id = "thread".to_string();
    let done = FileRestoreReport::Done {
        restored: 2,
        skipped: 0,
        failed: 0,
    };
    let mut state = BacktrackState::new();
    state.pending_rollback = Some(selection());
    assert_eq!(
        state.start_restore(&thread, &thread_id, BacktrackRestoreMode::Conversation),
        RestoreStart::CutConversation
    );
    assert_eq!(
        state.after_files(BacktrackRestoreMode::CodeAndConversation, &done),
        AfterFiles::CutConversation
    );
    assert!(state.pending_rollback.is_some());
    let mut cells = vec![user("first"), user("second"), HistoryCell::Other];
    // The prompt that was being decided counts before the one that is asked for.
    assert!(state.handle_backtrack_rollback_succeeded(&mut cells, 1));
    assert_eq!(cells.len(), 0);
    assert!(state.pending_rollback.is_none());
    let mut cells = vec![user("first"), user("second"), HistoryCell::Other];
    assert!(state.handle_backtrack_rollback_succeeded(&mut cells, 1));
    assert_eq!(cells.len(), 1);
    assert!(!state.handle_backtrack_rollback_succeeded(&mut cells, 1));

    state.pending_rollback = Some(selection());
    assert_eq!(
        state.after_files(BacktrackRestoreMode::Code, &done),
        AfterFiles::Done
    );
    assert!(state.pending_rollback.is_none());
    assert!(matches!(
        restore_notice(&done),
        Notice::Info(text) if text == "Restored 2 tracked files."
    ));
    assert!(matches!(
        restore_notice(&FileRestoreReport::Failed("no disk".to_string())),
        Notice::Error(text) if text == "Failed to restore tracked files: no disk"
    ));

    state.pending_rollback = Some(selection());
    assert_eq!(
        state.start_restore(
            &Some("other".to_string()),
            &thread_id,
            BacktrackRestoreMode::Code
        ),
        RestoreStart::Ignored
    );
    assert!(state.pending_rollback.is_none());
}

#[test]
fn buffered_events_bring_turns_up_to_date() {
    let item = |item_id: &str| BufferedEvent::ItemCompleted {
        turn_id: "turn-1".to_string(),
        item_id: item_id.to_string(),
        item: ThreadItem::EnteredReviewMode {
            review: "review".to_string(),
        },
    };
    let started = || BufferedEvent::TurnStarted {
        turn: turn("turn-1"),
        item_ids: vec!["brought".to_string()],
    };
    let turns = merge_events(
        vec![TrackedTurn {
            turn: turn("turn-0"),
            item_ids: Vec::new(),
        }],
        vec![
            started(),
            started(),
            item("item"),
            item("item"),
            item("brought"),
            BufferedEvent::ItemCompleted {
                turn_id: "turn-1".to_string(),
                item_id: "other".to_string(),
                item: ThreadItem::Sleep,
            },
            BufferedEvent::TurnCompleted {
                turn_id: "turn-1".to_string(),
                status: TurnStatus::Completed,
                completed_at: Some(7),
            },
            BufferedEvent::TurnCompleted {
                turn_id: "unknown".to_string(),
                status: TurnStatus::Failed,
                completed_at: None,
            },
            BufferedEvent::Other,
        ],
    );
    let turns = untracked(turns);
    assert_eq!(turns.len(), 2);
    assert_eq!(turns[1].items.len(), 1);
    assert_eq!(turns[1].status, TurnStatus::Completed);
    assert_eq!(turns[1].completed_at, Some(7));
}

/// A turn with a prompt.
fn prompted(id: &str, text: &str) -> Turn {
    Turn {
        items: vec![ThreadItem::UserMessage {
            id: format!("{id}-prompt"),
            content: PromptContent {
                inputs: vec![UserInput::Text {
                    text: text.to_string(),
                    text_elements: Vec::new(),
                }],
                display: UserMessageDisplay {
                    message: text.to_string(),
                    remote_image_urls: Vec::new(),
                    local_images: Vec::new(),
                    text_elements: Vec::new(),
                },
                mention_bindings: Vec::new(),
            },
        }],
        status: TurnStatus::Completed,
        ..turn(id)
    }
}

#[test]
fn rollback_requests_read_the_thread_where_the_turn_is_not_at_hand() {
    let thread = Some("thread".to_string());
    let prompts = || vec![prompt("saved prompt")];
    let mut state = BacktrackState::new();
    assert!(matches!(
        state.start_rollback(&Some("other".to_string()), selection(), prompts(), None),
        RollbackStep::Ignored
    ));
    assert!(state.pending_rollback.is_none());

    let request = match state.start_rollback(&thread, selection(), prompts(), Some(&Vec::new())) {
        RollbackStep::ReadThread(request) => request,
        _ => panic!("expected the thread to be read"),
    };
    assert!(state.pending_rollback.is_some());
    match state.thread_read(request, Ok(vec![prompted("selected", "saved prompt")])) {
        RollbackStep::PreviewFiles { selection, target } => {
            assert_eq!(target.before_turn_id, "selected");
            assert_eq!(target.legacy_num_turns, 1);
            assert_eq!(target.removed_turn_ids, vec!["selected".to_string()]);
            let (view, _) = files_previewed(selection, &target, None);
            assert!(matches!(
                view,
                RewindViewKind::Restore { options, .. } if options.len() == 2
            ));
        }
        _ => panic!("expected the files to be previewed"),
    }
    assert!(state.pending_rollback.is_some());

    assert!(matches!(
        state.start_rollback(
            &thread,
            selection(),
            prompts(),
            Some(&vec![prompted("selected", "saved prompt")])
        ),
        RollbackStep::PreviewFiles { .. }
    ));
}

#[test]
fn failed_rollback_requests_give_the_prompt_back() {
    let thread = Some("thread".to_string());
    let mut state = BacktrackState::new();
    for (turns, text) in [
        (Err("gone".to_string()), "gone"),
        (
            Ok(Vec::new()),
            "the selected transcript prompt no longer matches the persisted thread",
        ),
    ] {
        let request =
            match state.start_rollback(&thread, selection(), vec![prompt("saved prompt")], None) {
                RollbackStep::ReadThread(request) => request,
                _ => panic!("expected the thread to be read"),
            };
        match state.thread_read(request, turns) {
            RollbackStep::Failed { prompt, message } => {
                assert_eq!(prompt.text, "saved prompt");
                assert_eq!(message, rollback_error_message(text));
            }
            _ => panic!("expected a failure"),
        }
        assert!(state.pending_rollback.is_none());
    }
    assert_eq!(
        rollback_error_message("gone"),
        "Failed to roll back before the selected prompt: gone"
    );
}

#[test]
fn cutting_the_conversation_ends_the_way_back() {
    let mut state = BacktrackState::new();
    state.pending_rollback = Some(selection());
    let mut cells = vec![user("saved prompt"), HistoryCell::Other];
    match state.after_cut(
        &mut cells,
        0,
        prompt("saved prompt"),
        Err("busy".to_string()),
        true,
    ) {
        AfterCut::Failed { prompt, message } => {
            assert_eq!(prompt.text, "saved prompt");
            assert_eq!(
                message,
                "Failed to roll back before the selected prompt: busy"
            );
        }
        AfterCut::Cut { .. } => panic!("nothing was cut"),
    }
    assert_eq!(cells.len(), 2);
    assert!(state.pending_rollback.is_none());

    for (mode, loaded, complete) in [
        (ThreadHistoryMode::Paginated, true, true),
        (ThreadHistoryMode::Paginated, false, false),
        (ThreadHistoryMode::Legacy, true, false),
    ] {
        let mut cells = vec![user("saved prompt"), HistoryCell::Other];
        match state.after_cut(&mut cells, 0, prompt("saved prompt"), Ok(mode), loaded) {
            AfterCut::Cut {
                history_complete,
                cells_removed,
                ..
            } => {
                assert_eq!(history_complete, complete);
                assert!(cells_removed);
            }
            AfterCut::Failed { .. } => panic!("expected a cut"),
        }
        assert!(cells.is_empty());
    }
}

#[test]
fn restore_summaries_count_files() {
    let entry = |disposition| FileRestorePreviewEntry {
        environment_id: "local".to_string(),
        path: "a".to_string(),
        change_kind: FileRestoreChangeKind::Update,
        disposition,
        detail: None,
    };
    let files = vec![
        entry(FileRestoreDisposition::Restorable),
        entry(FileRestoreDisposition::Conflict),
        entry(FileRestoreDisposition::Unavailable),
        entry(FileRestoreDisposition::Restorable),
    ];
    assert_eq!(
        summarize_restore(Some(&files)),
        BacktrackFileRestoreSummary {
            restorable: 2,
            blocked: 2
        }
    );
    assert_eq!(
        summarize_restore(None),
        BacktrackFileRestoreSummary {
            restorable: 0,
            blocked: 0
        }
    );
}

#[test]
fn two_escs_open_the_prompt_picker() {
    let cells = vec![user("first"), user("second")];
    let thread = Some("thread".to_string());
    let mut state = BacktrackState::new();
    assert_eq!(state.handle_backtrack_esc_key(false, false), EscAction::Ignore);
    assert_eq!(state.handle_backtrack_esc_key(true, false), EscAction::Prime);
    assert!(state.prime_backtrack(thread.clone(), &cells));
    assert_eq!(
        state.handle_backtrack_esc_key(true, false),
        EscAction::OpenPicker
    );
    match state.open_backtrack_message_picker(false, &thread, &cells, &Vec::new()) {
        PickerAction::Show { items } => {
            assert_eq!(
                items
                    .iter()
                    .map(|item| (item.prompt.as_str(), item.is_current))
                    .collect::<Vec<_>>(),
                vec![("first", false), ("second", false), ("", true)]
            );
            assert!(matches!(
                &items[0].action,
                RewindAction::RollbackSessionForPromptEdit(selection)
                    if selection.nth_user_message == 0 && selection.newer_user_messages == 1
            ));
        }
        _ => panic!("expected the prompts"),
    }
    state.reset_backtrack_state();
    assert_eq!(state.handle_backtrack_esc_key(true, false), EscAction::Prime);
}

#[test]
fn older_history_is_loaded_before_the_picker_opens() {
    let thread = Some("thread".to_string());
    let mut state = BacktrackState::new();
    assert!(matches!(
        state.open_backtrack_message_picker(true, &thread, &vec![user("a")], &Vec::new()),
        PickerAction::RequestOlderHistory { thread_id } if thread_id == "thread"
    ));
    assert!(matches!(
        state.open_backtrack_message_picker(true, &thread, &vec![user("a")], &Vec::new()),
        PickerAction::Wait
    ));
    let mut fresh = BacktrackState::new();
    assert!(matches!(
        fresh.open_backtrack_message_picker(false, &thread, &Vec::new(), &Vec::new()),
        PickerAction::NoTarget
    ));
}

#[test]
fn restore_picker_offers_what_can_be_restored() {
    let target = BacktrackRollbackTarget {
        before_turn_id: "selected".to_string(),
        legacy_num_turns: 1,
        removed_turn_ids: vec!["selected".to_string()],
    };
    let labels = |restorable: usize, blocked: usize| {
        let (kind, _) = show_backtrack_restore_picker(
            selection(),
            &target,
            BacktrackFileRestoreSummary {
                restorable,
                blocked,
            },
        );
        match kind {
            RewindViewKind::Restore { options, .. } => options
                .into_iter()
                .map(|option| option.label)
                .collect::<Vec<_>>(),
            RewindViewKind::Prompts { .. } => Vec::new(),
        }
    };
    let with_files = labels(2, 0);
    assert_eq!(with_files[0], "Restore code and conversation");
    assert_eq!(with_files.last().map(String::as_str), Some("Never mind"));
    assert_eq!(with_files.len(), 4);
    assert!(!labels(0, 0).contains(&"Restore code".to_string()));
}

#[test]
fn transcript_keys_ask_for_older_history() {
    let older = TranscriptKey {
        loads_older: true,
        loads_from_start: false,
    };
    let start = TranscriptKey {
        loads_older: true,
        loads_from_start: true,
    };
    assert!(requests_older_history(Some(older), true, true));
    assert!(!requests_older_history(Some(older), false, true));
    assert!(!requests_older_history(Some(older), true, false));
    assert!(!requests_older_history(None, true, true));
    assert_eq!(
        history_state_after_request(older, true),
        Some(TranscriptHistoryState::LoadingOlder)
    );
    assert_eq!(
        history_state_after_request(start, true),
        Some(TranscriptHistoryState::LoadingBeginning)
    );
    assert_eq!(history_state_after_request(start, false), None);
    assert_eq!(
        initial_history_state(true),
        Some(TranscriptHistoryState::Partial)
    );
    assert_eq!(initial_history_state(false), None);
    assert_eq!(after_draw(true, true, true), AfterDraw::Close);
    assert_eq!(after_draw(false, false, true), AfterDraw::Nothing);
    assert_eq!(after_draw(false, true, false), AfterDraw::Nothing);
    assert_eq!(
        after_draw(false, true, true),
        AfterDraw::DrawAgain { after_ms: 50 }
    );
}
