use codex_session::checkpoint::model::{FileRestoreChangeKind, FileRestoreDisposition};
use codex_session::checkpoint::restore::FileRestorePreviewEntry;
use codex_session::config_paths::{config_paths, ConfigLayerSource};
use codex_session::environment::{
    path_convention_name, push_xml_elements, EnvironmentMetadata, PathConvention,
};
use codex_session::exec_state::{
    is_unified_exec_source, ExecState, ToolCall, ToolCell, ToolCellKind, ToolEnd,
    UnifiedExecProcessSummary, UnifiedExecWaitStreak,
};
use codex_session::file_change::{
    file_change_error, file_changes_from_core, FileChangeRequest, ThreadFileChangeDisposition,
    ThreadFileChangeKind,
};
use codex_session::paragraph::{desired_height, height_as_rows};
use codex_session::patches::{
    file_change_display_lines, image_generation_cell, new_image_generation_call,
    new_patch_apply_failure, new_view_image_tool_call, FileChangeDisplayLines, PatchDisplayCache,
    PatchDisplayCacheKey,
};
use codex_session::safety_buffering::{
    BufferingContext, BufferingStep, SafetyBufferingState,
};
use codex_session::status_state::{StatusIndicatorState, TerminalTitleStatusKind};
use codex_session::styled::{plain, StyledLine, StyledSpan};
use codex_session::thread::{
    CommandAction, CommandExecutionSource, CommandExecutionStatus, FileChange, PatchApplyStatus,
    PatchedFile, ThreadItem, Turn, TurnStatus,
};
use codex_session::transcript::{
    fallback_transcript_cell, thread_items_to_transcript_cells, thread_to_transcript_cells,
    RawReasoningVisibility, TranscriptCell,
};

fn text_of(line: &StyledLine) -> String {
    line.spans.iter().map(|span| span.content.as_str()).collect()
}

fn line(text: &str) -> StyledLine {
    StyledLine {
        spans: vec![StyledSpan {
            content: text.to_string(),
            style: plain(),
        }],
    }
}

fn texts(lines: &[StyledLine]) -> Vec<String> {
    lines.iter().map(text_of).collect()
}

#[test]
fn environments_are_described_by_their_platform() {
    let windows = EnvironmentMetadata::new(
        None,
        Some("windows".to_string()),
        &Some("bash".to_string()),
    );
    assert_eq!(windows.path_convention, Some(PathConvention::Windows));
    assert_eq!(windows.shell_flavor.as_deref(), Some("git-bash"));
    let linux =
        EnvironmentMetadata::new(None, Some("linux".to_string()), &Some("bash".to_string()));
    assert_eq!(linux.path_convention, Some(PathConvention::Posix));
    assert_eq!(linux.shell_flavor, None);
    assert!(!linux.has_same_diff_value(&windows));
    assert!(linux.has_same_diff_value(&linux));

    let mut rendered = String::new();
    push_xml_elements(&mut rendered, "  ", &windows.element_texts());
    assert_eq!(
        rendered,
        "  <platform_os>windows</platform_os>\n  <path_convention>windows</path_convention>\n  <shell_flavor>git-bash</shell_flavor>\n"
    );
    assert_eq!(path_convention_name(PathConvention::Posix), "posix");
}

#[test]
fn file_changes_keep_what_the_checkpoint_found() {
    let changes = file_changes_from_core(vec![FileRestorePreviewEntry {
        environment_id: "local".to_string(),
        path: "a.txt".to_string(),
        change_kind: FileRestoreChangeKind::Delete,
        disposition: FileRestoreDisposition::Conflict,
        detail: Some("edited".to_string()),
    }]);
    assert_eq!(changes.len(), 1);
    assert_eq!(changes[0].path, "a.txt");
    assert_eq!(changes[0].change_kind, ThreadFileChangeKind::Delete);
    assert_eq!(
        changes[0].disposition,
        ThreadFileChangeDisposition::Conflict
    );
    assert_eq!(changes[0].detail.as_deref(), Some("edited"));
    assert_eq!(
        [
            FileChangeRequest::Read,
            FileChangeRequest::Restore,
            FileChangeRequest::Discard
        ]
        .map(|request| file_change_error(request, "io")),
        [
            "failed to preview file restore: io",
            "failed to restore files: io",
            "failed to discard file checkpoints: io"
        ]
    );
}

#[test]
fn config_paths_are_ordered_and_unique() {
    let user = |parts: &[&str]| ConfigLayerSource::User {
        file: parts.iter().map(|part| part.to_string()).collect(),
    };
    let default = vec!["home".to_string(), "config.toml".to_string()];
    let layers = vec![
        user(&["home", "work", "config.toml"]),
        ConfigLayerSource::Other,
        user(&["home", "alt.toml"]),
        user(&["home", "work", "config.toml"]),
    ];
    assert_eq!(
        config_paths(&layers, &default)
            .iter()
            .map(|path| path.join("/"))
            .collect::<Vec<_>>(),
        vec!["home/alt.toml", "home/work/config.toml"]
    );
    assert_eq!(config_paths(&Vec::new(), &default), vec![default]);
}

#[test]
fn buffering_warns_once() {
    let context = || BufferingContext {
        replays_initial_messages: false,
        agent_turn_running: true,
        last_turn_id: Some("turn".to_string()),
    };
    let mut state = SafetyBufferingState::new();
    let mut update = |shown| {
        state.on_model_safety_buffering_updated(&context(), "turn".to_string(), shown)
    };
    assert_eq!(update(true), BufferingStep::Started);
    assert_eq!(update(true), BufferingStep::Continued);
    assert_eq!(update(false), BufferingStep::Stopped);
    assert!(!state.is_waiting());
    let replayed = BufferingContext {
        replays_initial_messages: true,
        ..context()
    };
    assert_eq!(
        state.on_model_safety_buffering_updated(&replayed, "turn".to_string(), true),
        BufferingStep::Ignored
    );
}

fn process(call_id: &str) -> UnifiedExecProcessSummary {
    UnifiedExecProcessSummary {
        key: call_id.to_string(),
        call_id: call_id.to_string(),
        command_display: String::new(),
        recent_chunks: Vec::new(),
    }
}

#[test]
fn unfinished_calls_are_kept_apart() {
    let mut state = ExecState::new();
    state.running_commands.push("a".to_string());
    state.unified_exec_processes.push(process("b"));
    state.interrupted_unified_exec_calls.push("c".to_string());
    let cell = |kind, calls: &[(&str, bool)]| ToolCell {
        kind,
        calls: calls
            .iter()
            .map(|(call_id, running)| ToolCall {
                call_id: call_id.to_string(),
                running: *running,
            })
            .collect(),
    };
    assert!(state.retain_running_tool(
        &cell(
            ToolCellKind::Exec,
            &[("c", false), ("d", true), ("e", false)]
        ),
        7
    ));
    assert!(!state.retain_running_tool(&cell(ToolCellKind::Other, &[("f", true)]), 8));
    assert!(state.retain_running_tool(&cell(ToolCellKind::WebSearch, &[("g", true)]), 9));
    assert_eq!(state.unfinished(), vec!["a", "b", "c", "c", "d", "g"]);
    assert_eq!(
        state.finalize_retained_tools(),
        vec![ToolEnd::Failed, ToolEnd::Failed, ToolEnd::Completed]
    );
    assert_eq!(state.running_tool_cells.len(), 1);

    state.unified_exec_wait_streak = Some(UnifiedExecWaitStreak::new(
        "b".to_string(),
        StatusIndicatorState::working(),
        TerminalTitleStatusKind::Working,
    ));
    state.clear_reverted_turn();
    assert_eq!(state.suppressed_exec_calls, vec!["a", "b", "c", "c"]);
    assert!(state.unified_exec_wait_streak.is_none());
    assert!(state.interrupted_unified_exec_calls.is_empty());
    assert!(is_unified_exec_source(
        CommandExecutionSource::UnifiedExecStartup
    ));
    assert!(!is_unified_exec_source(CommandExecutionSource::Agent));
}

#[test]
fn patches_and_images_have_their_rows() {
    assert_eq!(
        texts(&new_patch_apply_failure("boom", vec![line("  boom")])),
        vec!["✘ Failed to apply patch", "  boom"]
    );
    assert_eq!(
        texts(&new_patch_apply_failure(" \n", vec![line("unused")])),
        vec!["✘ Failed to apply patch"]
    );
    assert_eq!(
        texts(&new_view_image_tool_call("a.png".to_string())),
        vec!["• Viewed Image", "  └ a.png"]
    );
    assert_eq!(
        texts(&image_generation_cell(
            "call".to_string(),
            "completed",
            Some("a cat".to_string()),
            Some("file:///tmp/cat.png".to_string())
        )),
        vec![
            "• Generated Image:",
            "  └ a cat",
            "  └ Saved to: file:///tmp/cat.png"
        ]
    );
    assert_eq!(
        texts(&image_generation_cell(
            "call".to_string(),
            "failed",
            None,
            None
        )),
        vec!["✗ Image generation failed", "  └ call"]
    );
    let saved = new_image_generation_call(
        "call".to_string(),
        "completed",
        None,
        Some("/tmp/a cat.png".to_string()),
    );
    assert_eq!(
        text_of(&saved[2]),
        "  └ Saved to: file:///tmp/a%20cat.png"
    );
}

#[test]
fn wrapped_changes_keep_the_rows_of_their_heading() {
    let change = file_change_display_lines(vec![
        vec![line("heading"), line("wrapped")],
        vec![line("body")],
    ]);
    assert_eq!(change.heading_rows, 2);
    assert_eq!(texts(&change.lines), vec!["heading", "wrapped", "body"]);

    let key = PatchDisplayCacheKey {
        width: 80,
        syntax_theme_revision: 1,
        terminal_fg: None,
        terminal_bg: Some((0, 0, 0)),
        color_level: 2,
    };
    let mut cache = PatchDisplayCache::new();
    assert!(cache.lookup(key).is_none());
    cache.store(
        key,
        FileChangeDisplayLines {
            lines: vec![line("row")],
            heading_rows: 1,
        },
    );
    assert_eq!(cache.lookup(key).map(|lines| lines.heading_rows), Some(1));
    assert!(cache.lookup(key.at_width(40)).is_none());
    assert!(cache
        .lookup(PatchDisplayCacheKey {
            terminal_bg: None,
            ..key
        })
        .is_none());

    // Rows for the same key stay; another key brings new ones.
    cache.prepare(key, vec![vec![line("other")]]);
    assert_eq!(cache.lookup(key).map(|rows| texts(&rows.lines)), Some(vec!["row".to_string()]));
    let narrow = key.at_width(40);
    cache.prepare(narrow, vec![vec![line("first"), line("second")], vec![line("third")]]);
    assert_eq!(cache.lookup(narrow).map(|rows| (rows.heading_rows, rows.lines.len())), Some((2, 3)));
    assert!(cache.lookup(key).is_none());
}

#[test]
fn paragraphs_wrap_at_words() {
    let lines = |texts: &[&str]| texts.iter().map(|text| text.to_string()).collect::<Vec<_>>();
    assert_eq!(desired_height(&lines(&["one two three"]), 20), 1);
    assert_eq!(desired_height(&lines(&["one two three"]), 7), 2);
    assert_eq!(desired_height(&lines(&["one", "", "two"]), 7), 3);
    assert_eq!(desired_height(&Vec::new(), 7), 0);
    assert_eq!(height_as_rows(usize::MAX), 0);
    assert_eq!(height_as_rows(70), 70);
}

fn items() -> Vec<ThreadItem> {
    vec![
        ThreadItem::AgentMessage {
            text: " ".to_string(),
            visible_markdown: " \n".to_string(),
        },
        ThreadItem::AgentMessage {
            text: "hello".to_string(),
            visible_markdown: "hello".to_string(),
        },
        ThreadItem::FunctionCallOutput {
            delegated: Some(("task".to_string(), "do it".to_string())),
        },
        ThreadItem::Reasoning {
            summary: ("Thinking".to_string(), "summary".to_string()),
            content: vec!["raw one".to_string(), "raw two".to_string()],
        },
        ThreadItem::CommandExecution {
            id: "call".to_string(),
            command: vec!["ls".to_string()],
            display: "ls".to_string(),
            source: CommandExecutionSource::Agent,
            status: CommandExecutionStatus::Failed,
            actions: vec![CommandAction::ListFiles {
                command: "ls".to_string(),
                path: None,
            }],
            aggregated_output: None,
            exit_code: None,
            duration_ms: Some(-5),
        },
        ThreadItem::FileChange {
            changes: vec![PatchedFile {
                path: "a.rs".to_string(),
                change: FileChange::Add {
                    content: "fn a() {}\n".to_string(),
                },
            }],
            status: PatchApplyStatus::Failed,
        },
        ThreadItem::HookPrompt {
            fragments: vec!["  look here \n".to_string()],
        },
        ThreadItem::Sleep,
    ]
}

#[test]
fn items_become_cells() {
    let cells = thread_items_to_transcript_cells(&items(), RawReasoningVisibility::Hidden);
    assert_eq!(cells.len(), 7);
    assert!(matches!(&cells[0], TranscriptCell::AgentMarkdown { text } if text == "hello"));
    assert!(matches!(
        &cells[1],
        TranscriptCell::Delegated { text } if text == "Sent by Codex from task task\ndo it"
    ));
    assert!(matches!(
        &cells[2],
        TranscriptCell::Reasoning { header, text } if header == "Thinking" && text == "summary"
    ));
    assert!(matches!(
        &cells[3],
        TranscriptCell::Exec { actions, completion: Some(completion), .. }
            if completion.exit_code == 1 && completion.duration_ms == 0
                && matches!(&actions[..], [CommandAction::ListFiles { path: None, .. }])
    ));
    assert!(matches!(
        &cells[4],
        TranscriptCell::Patch { path, change: FileChange::Add { content } }
            if path == "a.rs" && content == "fn a() {}\n"
    ));
    assert!(matches!(
        &cells[5],
        TranscriptCell::Plain { lines } if texts(lines) == ["✘ Failed to apply patch"]
    ));
    assert!(matches!(
        &cells[6],
        TranscriptCell::Plain { lines } if texts(lines) == ["hook prompt: look here"]
    ));

    let raw = thread_items_to_transcript_cells(&items(), RawReasoningVisibility::Visible);
    assert!(matches!(
        &raw[2],
        TranscriptCell::Reasoning { header, text }
            if header == "Reasoning" && text == "raw one\n\nraw two"
    ));
}

#[test]
fn empty_transcripts_say_so() {
    let turns = vec![Turn {
        id: "turn".to_string(),
        items: vec![ThreadItem::Sleep],
        status: TurnStatus::Completed,
        completed_at: None,
    }];
    let cells = thread_to_transcript_cells(&turns, RawReasoningVisibility::Hidden);
    assert_eq!(cells.len(), 1);
    assert!(matches!(
        &cells[0],
        TranscriptCell::Plain { lines } if texts(lines) == ["No transcript content available"]
    ));
}

#[test]
fn other_items_have_a_line() {
    let shown = |item: ThreadItem| fallback_transcript_cell(&item).map(|lines| texts(&lines));
    assert_eq!(
        shown(ThreadItem::McpToolCall {
            server: "srv".to_string(),
            tool: "t".to_string(),
            status: "completed".to_string()
        }),
        Some(vec!["mcp tool: srv/t · completed".to_string()])
    );
    assert_eq!(
        shown(ThreadItem::DynamicToolCall {
            namespace: Some("ns".to_string()),
            tool: "t".to_string(),
            status: "failed".to_string()
        }),
        Some(vec!["tool: ns/t · failed".to_string()])
    );
    assert_eq!(
        shown(ThreadItem::WebSearch {
            query: "rust".to_string()
        }),
        Some(vec!["web search: rust".to_string()])
    );
    assert_eq!(
        shown(ThreadItem::ContextCompaction),
        Some(vec!["context compacted".to_string()])
    );
    assert_eq!(shown(ThreadItem::Sleep), None);
}
