use codex_session::geometry::Area;
use codex_session::owned_screen::{NavigationKey, OwnedScreen};
use codex_session::paragraph::{fill_line_backgrounds, ColouredLine};
use codex_session::patches::FileChangeDisplayLines;
use codex_session::scroll::MouseScrollDirection;
use codex_session::styled::{dim, plain, StyledLine, StyledSpan};
use codex_session::viewport::file_changes::FILE_CHANGE_PREVIEW_ROWS;
use codex_session::viewport::pager::{locate_row, PagerScroll};
use codex_session::viewport::projection::{
    HistoryRenderMode, LiveDisplay, LiveTool, ViewBlock, ViewCell,
};
use codex_session::viewport::tool_groups::{
    group_rows, no_activity, summary_line, visible_group_rows, DetailRows, ToolActivity,
};
use codex_session::viewport::{BlockHit, BlockSplice, ConversationViewport, LiveTailKey};

#[derive(Clone, Copy)]
struct Text {
    display: &'static str,
    raw: &'static str,
    transcript: &'static str,
}

fn text(display: &'static str) -> Text {
    Text {
        display,
        raw: display,
        transcript: display,
    }
}

fn cell(id: u64) -> ViewCell {
    ViewCell {
        id,
        activity: None,
        is_stream_continuation: false,
        is_file_change: false,
    }
}

fn tool(id: u64, activity: ToolActivity) -> ViewCell {
    ViewCell {
        activity: Some(activity),
        ..cell(id)
    }
}

fn read(count: usize) -> ToolActivity {
    ToolActivity {
        call_count: 1,
        read_files: count,
        ..no_activity()
    }
}

fn shell() -> ToolActivity {
    ToolActivity {
        call_count: 1,
        shell_commands: 1,
        ..no_activity()
    }
}

fn key() -> LiveTailKey {
    LiveTailKey {
        width: 24,
        revision: 1,
        is_stream_continuation: false,
        animation_tick: None,
    }
}

fn line(text: &str) -> StyledLine {
    StyledLine {
        spans: vec![StyledSpan {
            content: text.to_string(),
            style: plain(),
        }],
    }
}

fn text_of(line: &StyledLine) -> String {
    line.spans.iter().map(|span| span.content.as_str()).collect()
}

/// The rows of each block.
fn block_rows(view: &ConversationViewport, texts: &[Text], live: &str) -> Vec<Vec<String>> {
    let shown = |id: u64| match view.render_mode {
        HistoryRenderMode::Rich => texts[id as usize].display,
        HistoryRenderMode::Raw => texts[id as usize].raw,
    };
    let spaced_rows = |spaced: bool, text: &str| {
        let mut rows = Vec::new();
        if spaced {
            rows.push(String::new());
        }
        rows.push(text.to_string());
        rows
    };
    view.blocks
        .iter()
        .map(|block| match block {
            ViewBlock::Cell { id, spaced, .. } => spaced_rows(*spaced, shown(*id)),
            ViewBlock::Grouped => Vec::new(),
            ViewBlock::LiveTail { spaced } => spaced_rows(*spaced, live),
            ViewBlock::Group {
                ids,
                live: is_live,
                activity,
                active,
                expanded,
                top_padding,
                ..
            } => {
                let cells = ids
                    .iter()
                    .map(|id| DetailRows {
                        rows: vec![line(texts[*id as usize].transcript)],
                        is_stream_continuation: false,
                    })
                    .collect::<Vec<_>>();
                let live = if *is_live {
                    Some(DetailRows {
                        rows: vec![line(live)],
                        is_stream_continuation: false,
                    })
                } else {
                    None
                };
                let rows = group_rows(
                    *expanded,
                    &vec![summary_line(activity, *active, true)],
                    &Vec::new(),
                    &cells,
                    &live,
                );
                visible_group_rows(&rows, *expanded, *top_padding, 0, u16::MAX)
                    .iter()
                    .map(text_of)
                    .collect()
            }
        })
        .collect()
}

fn heights(view: &ConversationViewport, texts: &[Text], live: &str) -> Vec<usize> {
    block_rows(view, texts, live).iter().map(Vec::len).collect()
}

fn total(view: &ConversationViewport, texts: &[Text]) -> usize {
    heights(view, texts, "").iter().sum()
}

/// The rows on a screen of some rows.
fn screen(view: &ConversationViewport, texts: &[Text], live: &str, height: usize) -> Vec<String> {
    let rows = block_rows(view, texts, live).concat();
    let first = view.scroll.first_row(rows.len(), height);
    let mut screen = rows[first..].iter().take(height).cloned().collect::<Vec<_>>();
    screen.resize(height, String::new());
    screen
}

fn hit(view: &ConversationViewport, texts: &[Text], row: usize) -> Option<BlockHit> {
    locate_row(&heights(view, texts, ""), row).map(|(index, row)| BlockHit {
        index,
        row: row as u16,
    })
}

#[test]
fn renders_main_display_and_live_tail_without_pager_chrome() {
    let texts = [Text {
        display: "compact display",
        raw: "raw source",
        transcript: "expanded transcript detail",
    }];
    let mut view = ConversationViewport::new(vec![cell(0)], HistoryRenderMode::Rich);
    view.sync_live_tail(
        Some(key()),
        false,
        LiveDisplay::Lines {
            is_stream_continuation: false,
        },
    );
    assert_eq!(
        screen(&view, &texts, "live tail", 6),
        vec!["compact display", "", "live tail", "", "", ""]
    );
}

#[test]
fn switches_between_rich_and_raw_cell_representations() {
    let texts = [Text {
        display: "rich display",
        raw: "raw source",
        transcript: "expanded transcript detail",
    }];
    let mut view = ConversationViewport::new(vec![cell(0)], HistoryRenderMode::Rich);
    assert_eq!(screen(&view, &texts, "", 3), vec!["rich display", "", ""]);
    view.set_render_mode(HistoryRenderMode::Raw);
    assert_eq!(screen(&view, &texts, "", 3), vec!["raw source", "", ""]);
}

#[test]
fn adjacent_tools_collapse_then_expand_and_collapse_from_the_group_background() {
    let texts = [
        text("before"),
        Text {
            display: "read display",
            raw: "read transcript detail",
            transcript: "read transcript detail",
        },
        Text {
            display: "shell display",
            raw: "shell transcript detail",
            transcript: "shell transcript detail",
        },
        text("after"),
    ];
    let mut view = ConversationViewport::new(
        vec![cell(0), tool(1, read(2)), tool(2, shell()), cell(3)],
        HistoryRenderMode::Rich,
    );
    let collapsed = vec![
        "before",
        "",
        "• Read 2 files, ran 1 shell command",
        "",
        "after",
        "",
        "",
        "",
        "",
    ];
    assert_eq!(screen(&view, &texts, "", 9), collapsed);

    let summary = hit(&view, &texts, 2);
    assert!(view.handle_mouse_move(summary, &None));
    assert!(matches!(
        view.blocks[1],
        ViewBlock::Group { hovered: true, .. }
    ));
    assert!(view.handle_left_click(summary, &None));
    assert_eq!(
        screen(&view, &texts, "", 9),
        vec![
            "before",
            "",
            "read transcript detail",
            "",
            "shell transcript detail",
            "",
            "after",
            "",
            ""
        ]
    );

    let details = hit(&view, &texts, 4);
    assert!(view.handle_left_click(details, &None));
    assert_eq!(screen(&view, &texts, "", 9), collapsed);
}

#[test]
fn raw_mode_keeps_adjacent_tool_details_unfolded() {
    let texts = [text("read raw detail"), text("shell raw detail")];
    let view = ConversationViewport::new(
        vec![tool(0, read(1)), tool(1, shell())],
        HistoryRenderMode::Raw,
    );
    assert_eq!(
        screen(&view, &texts, "", 4),
        vec!["read raw detail", "", "shell raw detail", ""]
    );
}

#[test]
fn appending_and_backfilling_tools_rebuild_only_the_adjacent_group() {
    let texts = [text("before"), text("read"), text("shell"), text("after")];
    let mut appended = ConversationViewport::new(
        vec![cell(0), tool(1, read(1))],
        HistoryRenderMode::Rich,
    );
    appended.push_cell(tool(2, shell()));
    assert_eq!(
        screen(&appended, &texts, "", 6),
        vec!["before", "", "• Read 1 file, ran 1 shell command", "", "", ""]
    );

    let mut backfilled = ConversationViewport::new(
        vec![cell(0), tool(2, shell()), cell(3)],
        HistoryRenderMode::Rich,
    );
    backfilled.insert_cells(1, vec![tool(1, read(1))]);
    assert_eq!(
        screen(&backfilled, &texts, "", 6),
        vec![
            "before",
            "",
            "• Read 1 file, ran 1 shell command",
            "",
            "after",
            ""
        ]
    );
}

#[test]
fn line_backgrounds_fill_the_owned_viewport_width() {
    let area = Area {
        x: 0,
        y: 0,
        width: 14,
        height: 2,
    };
    let lines = vec![
        ColouredLine {
            text: "- removed".to_string(),
            background: Some(1),
        },
        ColouredLine {
            text: "+ added".to_string(),
            background: Some(2),
        },
    ];
    assert_eq!(fill_line_backgrounds(&lines, area, 0), vec![(0, 1), (1, 2)]);
    assert_eq!(fill_line_backgrounds(&lines, area, 1), vec![(0, 2)]);
}

#[test]
fn wrapped_lines_are_filled_on_every_row() {
    let area = Area {
        x: 0,
        y: 5,
        width: 8,
        height: 3,
    };
    let lines = vec![
        ColouredLine {
            text: "no colour".to_string(),
            background: None,
        },
        ColouredLine {
            text: "- removed text".to_string(),
            background: Some(1),
        },
    ];
    assert_eq!(fill_line_backgrounds(&lines, area, 0), vec![(7, 1)]);
    assert_eq!(fill_line_backgrounds(&lines, area, 2), vec![(5, 1), (6, 1), (7, 1)]);
}

#[test]
fn append_keeps_live_tail_after_committed_cells() {
    let texts = [text("committed")];
    let mut view = ConversationViewport::new(Vec::new(), HistoryRenderMode::Rich);
    view.sync_live_tail(
        Some(key()),
        false,
        LiveDisplay::Lines {
            is_stream_continuation: false,
        },
    );
    view.push_cell(cell(0));
    assert_eq!(
        screen(&view, &texts, "live tail", 5),
        vec!["committed", "", "live tail", "", ""]
    );
    assert_eq!(view.committed_cell_count(), 1);
}

#[test]
fn replacing_cells_invalidates_and_respaces_the_live_tail() {
    let texts = [text("replacement")];
    let lines = LiveDisplay::Lines {
        is_stream_continuation: false,
    };
    let mut view = ConversationViewport::new(Vec::new(), HistoryRenderMode::Rich);
    view.sync_live_tail(Some(key()), false, lines);
    assert_eq!(screen(&view, &texts, "live tail", 2), vec!["live tail", ""]);

    view.replace_cells(vec![cell(0)]);
    view.sync_live_tail(Some(key()), false, lines);
    assert_eq!(
        screen(&view, &texts, "live tail", 4),
        vec!["replacement", "", "live tail", ""]
    );
}

#[test]
fn inserting_older_cells_preserves_existing_layout_measurements() {
    let mut view = ConversationViewport::new(vec![cell(0), cell(1)], HistoryRenderMode::Rich);
    assert_eq!(
        view.insert_cells(1, vec![cell(2)]),
        Some(BlockSplice {
            start: 1,
            removed: 0,
            added: 1
        })
    );
    assert_eq!(view.committed_cell_count(), 3);
}

#[test]
fn inserting_older_cells_preserves_the_visible_scroll_anchor() {
    let texts = [
        text("header"),
        text("recent one"),
        text("recent two"),
        text("recent three"),
        text("latest"),
        text("older one"),
        text("older two"),
    ];
    let mut view = ConversationViewport::new((0..5).map(cell).collect(), HistoryRenderMode::Rich);
    let rows = total(&view, &texts);
    view.scroll.scroll_rows(MouseScrollDirection::Up, 3, rows, 4);
    let before = screen(&view, &texts, "", 4);

    let old_heights = heights(&view, &texts, "");
    let splice = view
        .insert_cells(1, vec![cell(5), cell(6)])
        .expect("only some blocks change");
    let new_heights = heights(&view, &texts, "");
    view.scroll.splice(
        old_heights[..splice.start].iter().sum(),
        old_heights[splice.start..splice.start + splice.removed]
            .iter()
            .sum(),
        new_heights[splice.start..splice.start + splice.added]
            .iter()
            .sum(),
    );

    assert_eq!(screen(&view, &texts, "", 4), before);
    assert!(before.contains(&"recent two".to_string()));
}

#[test]
fn narrower_resize_stays_pinned_to_the_latest_cell() {
    let view = ConversationViewport::new((0..3).map(cell).collect(), HistoryRenderMode::Rich);
    assert!(view.is_following_bottom());
    for total in [5, 8, 11] {
        assert_eq!(view.scroll.first_row(total, 4), total - 4);
    }
}

#[test]
fn page_navigation_leaves_and_restores_bottom_follow() {
    let texts = [text("oldest"), text("middle"), text("LATEST")];
    let view = ConversationViewport::new((0..3).map(cell).collect(), HistoryRenderMode::Rich);
    let rows = total(&view, &texts);
    let area = Area {
        x: 0,
        y: 0,
        width: 20,
        height: 2,
    };
    let mut screen_state = OwnedScreen::new(view);
    screen_state.set_areas(area, area);
    assert_eq!(
        screen(&screen_state.viewport, &texts, "", 2),
        vec!["", "LATEST"]
    );

    assert!(screen_state.handle_navigation_key(NavigationKey::PageUp, rows));
    assert!(!screen_state.viewport.is_following_bottom());
    assert_eq!(
        screen(&screen_state.viewport, &texts, "", 2),
        vec!["", "middle"]
    );

    assert!(screen_state.handle_navigation_key(NavigationKey::PageDown, rows));
    assert!(screen_state.viewport.is_following_bottom());
    assert_eq!(
        screen(&screen_state.viewport, &texts, "", 2),
        vec!["", "LATEST"]
    );
    assert!(!screen_state.handle_navigation_key(NavigationKey::Other, rows));
}

#[test]
fn mouse_wheel_leaves_and_restores_bottom_follow() {
    let texts = [
        text("oldest"),
        text("older"),
        text("middle"),
        text("newer"),
        text("LATEST"),
    ];
    let mut view = ConversationViewport::new((0..5).map(cell).collect(), HistoryRenderMode::Rich);
    let rows = total(&view, &texts);
    assert_eq!(screen(&view, &texts, "", 3), vec!["newer", "", "LATEST"]);

    view.scroll.scroll_rows(MouseScrollDirection::Up, 3, rows, 3);
    assert!(!view.is_following_bottom());
    assert_eq!(screen(&view, &texts, "", 3), vec!["", "middle", ""]);

    view.scroll.scroll_rows(MouseScrollDirection::Down, 3, rows, 3);
    assert!(view.is_following_bottom());
    assert_eq!(screen(&view, &texts, "", 3), vec!["newer", "", "LATEST"]);
}

#[test]
fn live_tools_join_the_group_above_them() {
    let texts = [text("before"), text("read")];
    let live = LiveDisplay::Tool(LiveTool {
        activity: shell(),
        is_stream_continuation: false,
    });
    let mut view = ConversationViewport::new(
        vec![cell(0), tool(1, read(1))],
        HistoryRenderMode::Rich,
    );
    view.sync_live_tail(Some(key()), true, live);
    assert_eq!(
        screen(&view, &texts, "live", 4),
        vec!["before", "", "● Read 1 file, ran 1 shell command", ""]
    );
    assert_eq!(view.synthetic_live_tool_group_index(), None);
    assert_eq!(view.tool_group_at(1), Some((1, 2)));

    let mut alone = ConversationViewport::new(vec![cell(0)], HistoryRenderMode::Rich);
    alone.sync_live_tail(Some(key()), true, live);
    assert_eq!(alone.synthetic_live_tool_group_index(), Some(1));
    assert_eq!(alone.tool_group_at(0), None);
}

#[test]
fn every_kind_of_activity_is_told() {
    let activity = ToolActivity {
        call_count: 9,
        searches: 1,
        read_files: 2,
        listed_directories: 1,
        mcp_calls: 2,
        background_terminal_interactions: 1,
        background_terminal_waits: 2,
        shell_commands: 3,
    };
    assert_eq!(
        text_of(&summary_line(&activity, false, true)),
        "• Searched for 1 pattern, read 2 files, listed 1 directory, called 2 MCP tools, interacted with 1 background terminal, waited for 2 background terminals, ran 3 shell commands"
    );
    assert_eq!(activity.merge(activity).searches, 2);
    let most = ToolActivity {
        searches: usize::MAX,
        ..activity
    };
    assert_eq!(most.merge(activity).searches, usize::MAX);
}

fn change(lines: usize, heading_rows: usize) -> FileChangeDisplayLines {
    FileChangeDisplayLines {
        lines: (0..lines).map(|row| line(&format!("row {row}"))).collect(),
        heading_rows,
    }
}

#[test]
fn small_changes_show_their_heading_until_expanded() {
    let change = change(4, 1);
    assert_eq!(change.desired_height(false), 1);
    assert_eq!(change.desired_height(true), 5);
    let rows = change.visible_rows(true, 0, 10);
    assert_eq!(rows.len(), 5);
    assert_eq!(text_of(&rows[4].line).trim(), "Show less ↑");
    assert!(rows[0].interactive && rows[4].interactive);
    assert!(!rows[1].interactive);
    assert!(change.row_toggles(0, false));
    assert!(!change.row_toggles(1, true));
}

#[test]
fn large_changes_show_a_preview() {
    let change = change(60, 1);
    assert_eq!(
        change.desired_height(false) as usize,
        FILE_CHANGE_PREVIEW_ROWS + 1
    );
    assert_eq!(change.desired_height(true), 61);
    let rows = change.visible_rows(false, 49, 2);
    assert_eq!(
        rows.iter()
            .map(|row| text_of(&row.line).trim().to_string())
            .collect::<Vec<_>>(),
        vec!["row 49", "Show more ↓"]
    );
}

#[test]
fn clicks_toggle_file_changes() {
    let mut view = ConversationViewport::new(
        vec![
            cell(0),
            ViewCell {
                is_file_change: true,
                ..cell(1)
            },
        ],
        HistoryRenderMode::Rich,
    );
    let change = Some(change(4, 1));
    let heading = Some(BlockHit { index: 1, row: 1 });
    assert_eq!(view.file_change_hit(heading, &change), Some(1));
    assert_eq!(
        view.file_change_hit(Some(BlockHit { index: 1, row: 0 }), &change),
        None
    );
    assert!(view.handle_mouse_move(heading, &change));
    assert!(!view.handle_mouse_move(heading, &change));
    assert!(view.handle_left_click(heading, &change));
    assert_eq!(view.expanded_file_change, Some(1));
    assert!(view.handle_left_click(heading, &change));
    assert_eq!(view.expanded_file_change, None);
    assert!(view.handle_left_click(heading, &change));
    view.collapse_file_changes();
    assert_eq!(view.expanded_file_change, None);
    assert!(!view.handle_left_click(None, &change));
}

#[test]
fn pager_finds_blocks_and_keeps_its_place() {
    assert_eq!(locate_row(&vec![1, 0, 2], 0), Some((0, 0)));
    assert_eq!(locate_row(&vec![1, 0, 2], 2), Some((2, 1)));
    assert_eq!(locate_row(&vec![1, 0, 2], 3), None);
    let mut scroll = PagerScroll::new();
    assert_eq!(scroll.first_row(10, 4), 6);
    assert_eq!(scroll.first_row(3, 4), 0);
    scroll.scroll_rows(MouseScrollDirection::Up, 2, 10, 4);
    assert_eq!((scroll.first_row(10, 4), scroll.following), (4, false));
    scroll.splice(1, 1, 3);
    assert_eq!(scroll.first_row(12, 4), 6);
    scroll.scroll_to_bottom();
    assert_eq!(scroll.first_row(12, 4), 8);
}

#[test]
fn summary_counts_are_dimmed_or_bold_as_told() {
    let rendered = summary_line(&read(1), true, false);
    assert_eq!(text_of(&rendered), "  Read 1 file");
    assert!(rendered.spans.iter().all(|span| span.style != dim()));
}
