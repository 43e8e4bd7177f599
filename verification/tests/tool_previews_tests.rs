use codex_session::styled::{tinted, StyledLine, StyledSpan, Tint};
use codex_session::viewport::projection::{HistoryRenderMode, ViewBlock, ViewCell};
use codex_session::viewport::tool_groups::{
    group_height, group_rows, no_activity, preview_rows, summary_line, tool_refresh_delay,
    visible_group_rows, DetailRows, ToolActivity, ToolPreview, ToolRenderState,
    TOOL_COMPLETION_RETENTION_NANOS,
};
use codex_session::viewport::ConversationViewport;

const SECOND: u64 = 1_000_000_000;
const NOW: u64 = 1_000 * SECOND;
const FRAME: u64 = 80_000_000;

fn line(text: &str) -> StyledLine {
    StyledLine {
        spans: vec![StyledSpan {
            content: text.to_string(),
            style: tinted(Tint::Cyan),
        }],
    }
}

fn text_of(line: &StyledLine) -> String {
    line.spans.iter().map(|span| span.content.as_str()).collect()
}

fn preview(text: &str, running: bool, completed_at: Option<u64>) -> ToolPreview {
    ToolPreview {
        line: line(text),
        running,
        completed_at,
    }
}

fn commands(count: usize) -> ViewCell {
    ViewCell {
        id: 0,
        activity: Some(ToolActivity {
            call_count: count,
            shell_commands: count,
            ..no_activity()
        }),
        is_stream_continuation: false,
        is_file_change: false,
    }
}

#[test]
fn running_commands_remain_visible_and_completions_expire_independently() {
    let first = "Ran first very long command with arguments";
    let shown = |previews: Vec<ToolPreview>| {
        preview_rows(&previews, NOW)
            .iter()
            .map(text_of)
            .collect::<Vec<_>>()
    };
    let running = vec![preview(first, true, None), preview("Ran second", true, None)];
    assert_eq!(
        shown(running),
        vec![format!("  └ {first}"), "  └ Ran second".to_string()]
    );

    let completed = vec![
        preview(first, true, None),
        preview("Ran second", false, Some(NOW)),
    ];
    let rows = preview_rows(&completed, NOW);
    assert_eq!(rows.len(), 2);
    assert_eq!(rows[0].spans[1].style.tint, Tint::Cyan);
    assert_eq!(rows[1].spans[1].style.tint, Tint::Plain);
    assert!(rows[1].spans[1].style.dim);

    let expired = vec![
        preview(first, true, None),
        preview("Ran second", false, Some(NOW - 3 * SECOND)),
    ];
    assert_eq!(shown(expired), vec![format!("  └ {first}")]);

    let appendable = vec![
        preview(first, false, Some(NOW)),
        preview("Ran second", false, Some(NOW - 3 * SECOND)),
    ];
    assert_eq!(shown(appendable), vec![format!("  └ {first}")]);
}

#[test]
fn completion_deadline_is_exact_and_does_not_restart_on_render() {
    let preview = preview("Ran done", false, Some(NOW));
    assert_eq!(
        [
            preview.visible_at(NOW),
            preview.visible_at(NOW + 1_999_000_000),
            preview.visible_at(NOW + 2 * SECOND),
            preview.visible_at(NOW + 3 * SECOND),
        ],
        [true, true, false, false]
    );
    assert_eq!(TOOL_COMPLETION_RETENTION_NANOS, 2 * SECOND);
}

#[test]
fn all_running_commands_remain_visible_when_a_later_message_closes_the_group() {
    let previews = (0..12)
        .map(|index| preview(&format!("Ran command {index}"), true, None))
        .collect::<Vec<_>>();
    let view = ConversationViewport::new(
        vec![
            commands(12),
            ViewCell {
                id: 1,
                activity: None,
                is_stream_continuation: false,
                is_file_change: false,
            },
        ],
        HistoryRenderMode::Rich,
    );
    let (activity, active, expanded, top_padding) = match &view.blocks[0] {
        ViewBlock::Group {
            activity,
            active,
            expanded,
            top_padding,
            ..
        } => (activity, *active, *expanded, *top_padding),
        other => panic!("expected a group: {other:?}"),
    };
    assert!(!active && !expanded);
    let rows = group_rows(
        expanded,
        &vec![summary_line(activity, active, false)],
        &preview_rows(&previews, NOW),
        &Vec::new(),
        &None,
    );
    let rows = visible_group_rows(&rows, expanded, top_padding, 0, 16);
    assert_eq!(text_of(&rows[0]), "• Ran 12 shell commands");
    for index in 0..12 {
        assert_eq!(
            text_of(&rows[index + 1]).trim(),
            format!("└ Ran command {index}")
        );
    }
    assert_eq!(group_height(expanded, top_padding, 13), 13);
}

#[test]
fn long_tool_history_refreshes_linearly_and_stops_formatting_settled_commands() {
    let mut states = (0..512)
        .map(|index| ToolRenderState {
            revision: 0,
            running: index == 511,
            next_expiry: None,
        })
        .collect::<Vec<_>>();
    assert!(tool_refresh_delay(&states, NOW, FRAME).is_some());

    states[511].running = false;
    assert_eq!(tool_refresh_delay(&states, NOW, FRAME), None);

    states[3].next_expiry = Some(NOW + 7);
    states[9].next_expiry = Some(NOW + 5);
    states[12].next_expiry = Some(NOW);
    assert_eq!(tool_refresh_delay(&states, NOW, FRAME), Some(5));
}

#[test]
fn expanded_shared_command_preserves_rich_output() {
    let details = vec![DetailRows {
        rows: (0..10).map(|index| line(&format!("output {index}"))).collect(),
        is_stream_continuation: false,
    }];
    let rows = group_rows(
        true,
        &vec![line("• Ran 1 shell command")],
        &Vec::new(),
        &details,
        &None,
    );
    let shown = visible_group_rows(&rows, true, 0, 1, 10);
    assert_eq!(shown.len(), 10);
    for (index, row) in shown.iter().enumerate() {
        assert_eq!(text_of(row), format!("output {index}"));
        assert_eq!(row.spans[0].style.tint, Tint::Cyan);
    }
    assert_eq!(group_height(true, 0, 10), 11);
}

#[test]
fn details_of_several_calls_are_set_apart() {
    let details = |text: &str, is_stream_continuation: bool| DetailRows {
        rows: vec![line(text)],
        is_stream_continuation,
    };
    let rows = group_rows(
        true,
        &Vec::new(),
        &Vec::new(),
        &vec![
            details("first", false),
            details("more of it", true),
            details("second", false),
        ],
        &Some(details("live", false)),
    );
    assert_eq!(
        rows.iter().map(text_of).collect::<Vec<_>>(),
        vec!["first", "more of it", "", "second", "", "live"]
    );
}
