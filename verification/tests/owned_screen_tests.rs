use codex_session::diff_panel::panel::DiffResult;
use codex_session::diff_panel::parser::DiffPanelFile;
use codex_session::diff_panel::render::{panel_layout, PanelLayout};
use codex_session::geometry::{Area, Position};
use codex_session::owned_screen::panel_slot::{
    diff_overlay, handle_diff_result, request_diff, toggle_diff_panel, DiffOverlay, DiffRequest,
    DiffResultUse, PanelSlot, ToggleStep,
};
use codex_session::owned_screen::selection::{capture_row, MarkedColumns, ScreenCell, ScreenRow};
use codex_session::owned_screen::{
    bottom_area, conversation_area, copy_failed_message, extend_conversation_backgrounds, is_owned,
    jump_hint, jump_hint_area, jump_to_bottom_hint, navigation_key_counts, prepare_frame,
    AltScreenBehavior, FilledRow, FramePreparation, MouseInteractionKind, NavigationKey,
    OwnedScreen, OwnedScreenMouseAction,
};
use codex_session::patches::FileChangeDisplayLines;
use codex_session::scroll::MouseScrollDirection;
use codex_session::styled::{plain, StyledLine, StyledSpan};
use codex_session::viewport::projection::{HistoryRenderMode, ViewCell};
use codex_session::viewport::{BlockHit, ConversationViewport};
use unicode_width::UnicodeWidthStr;

const SECOND: u64 = 1_000_000_000;

fn area(x: u16, y: u16, width: u16, height: u16) -> Area {
    Area {
        x,
        y,
        width,
        height,
    }
}

fn at(x: u16, y: u16) -> Position {
    Position { x, y }
}

fn cell(id: u64) -> ViewCell {
    ViewCell {
        id,
        activity: None,
        is_stream_continuation: false,
        is_file_change: false,
    }
}

fn row(text: &str, width: usize) -> ScreenRow {
    let mut cells = Vec::new();
    for c in text.chars() {
        let symbol = c.to_string();
        let columns = symbol.width().max(1);
        cells.push(ScreenCell {
            symbol,
            skipped: false,
        });
        for _ in 1..columns {
            cells.push(ScreenCell {
                symbol: " ".to_string(),
                skipped: false,
            });
        }
    }
    while cells.len() < width {
        cells.push(ScreenCell {
            symbol: " ".to_string(),
            skipped: false,
        });
    }
    capture_row(&cells)
}

fn screen(cells: Vec<ViewCell>, conversation: Area, whole: Area) -> OwnedScreen {
    let mut screen = OwnedScreen::new(ConversationViewport::new(cells, HistoryRenderMode::Rich));
    screen.set_areas(conversation, whole);
    screen
}

#[test]
fn renders_committed_conversation_above_fixed_composer() {
    let whole = area(0, 0, 50, 10);
    assert_eq!(conversation_area(whole, 5, 50), area(0, 0, 50, 5));
    assert_eq!(bottom_area(whole, 5), area(0, 5, 50, 5));
    assert_eq!(conversation_area(whole, 20, 48), area(0, 0, 48, 0));
    assert_eq!(bottom_area(whole, 20), area(0, 0, 50, 10));

    let mut screen = screen(vec![cell(0)], conversation_area(whole, 3, 50), whole);
    let mut rows = vec![row("A中B", 50)];
    rows.extend((1..10).map(|_| row("", 50)));
    screen.selection.capture_and_render(whole, rows);
    for (kind, x) in [
        (MouseInteractionKind::LeftDown, 2),
        (MouseInteractionKind::LeftDrag, 3),
    ] {
        screen.handle_mouse_interaction(kind, at(x, 0), 0, None, &None, &None, &no_layout(), false);
    }
    let up = MouseInteractionKind::LeftUp;
    assert_eq!(
        screen.handle_mouse_interaction(up, at(3, 0), 0, None, &None, &None, &no_layout(), false),
        OwnedScreenMouseAction::Copy("中B".to_string())
    );
}

#[test]
fn double_click_selects_and_copies_a_word() {
    let whole = area(0, 0, 40, 1);
    let mut screen = screen(vec![cell(0)], whole, whole);
    let rows = || vec![row("run foo_bar --flag now", 40)];
    screen.selection.capture_and_render(whole, rows());

    for click in 0..2 {
        let now = click * SECOND / 10;
        assert_eq!(
            screen.handle_mouse_interaction(
                MouseInteractionKind::LeftDown,
                at(7, 0),
                now,
                None,
                &None,
                &None,
                &no_layout(),
                false,
            ),
            OwnedScreenMouseAction::Redraw
        );
        let action = screen.handle_mouse_interaction(
            MouseInteractionKind::LeftUp,
            at(7, 0),
            now,
            None,
            &None,
            &None,
            &no_layout(),
            false,
        );
        if click == 0 {
            assert_eq!(action, OwnedScreenMouseAction::Redraw);
        } else {
            assert_eq!(action, OwnedScreenMouseAction::Copy("foo_bar".to_string()));
        }
    }
    screen.show_copy_notice(7, 0);
    assert_eq!(
        screen.selection.capture_and_render(whole, rows()),
        vec![MarkedColumns {
            y: 0,
            first: 4,
            end: 11
        }]
    );
}

#[test]
fn slow_clicks_are_no_double_click() {
    let whole = area(0, 0, 40, 1);
    let mut screen = screen(vec![cell(0)], whole, whole);
    screen
        .selection
        .capture_and_render(whole, vec![row("run foo_bar", 40)]);
    for now in [0, SECOND] {
        for kind in [MouseInteractionKind::LeftDown, MouseInteractionKind::LeftUp] {
            assert_eq!(
                screen.handle_mouse_interaction(kind, at(5, 0), now, None, &None, &None, &no_layout(), false),
                OwnedScreenMouseAction::Redraw
            );
        }
    }
}

#[test]
fn patch_background_extends_past_the_reserved_wrap_width() {
    assert_eq!(
        extend_conversation_backgrounds(area(0, 0, 47, 3), 50, &vec![None, Some(4), Some(5)]),
        vec![
            FilledRow {
                y: 1,
                first: 47,
                end: 50,
                colour: 4
            },
            FilledRow {
                y: 2,
                first: 47,
                end: 50,
                colour: 5
            },
        ]
    );
    assert_eq!(
        extend_conversation_backgrounds(area(0, 0, 50, 1), 50, &vec![Some(4)]),
        Vec::new()
    );
}

fn change() -> Option<FileChangeDisplayLines> {
    Some(FileChangeDisplayLines {
        lines: (0..4)
            .map(|_| StyledLine {
                spans: vec![StyledSpan {
                    content: "row".to_string(),
                    style: plain(),
                }],
            })
            .collect(),
        heading_rows: 1,
    })
}

fn no_layout() -> PanelLayout {
    panel_layout(&Vec::new(), 40)
}

fn changed_files() -> Vec<DiffPanelFile> {
    ["src/a.rs", "src/b.rs"]
        .iter()
        .map(|path| DiffPanelFile {
            path: path.to_string(),
            added: 1,
            removed: 1,
            change: None,
        })
        .collect()
}

#[test]
fn diff_panel_collapses_locks_and_navigates_file_changes() {
    let whole = area(0, 0, 120, 24);
    let file_change = |id| ViewCell {
        is_file_change: true,
        ..cell(id)
    };
    let mut screen = screen(vec![file_change(0), file_change(1)], whole, whole);
    let heading = Some(BlockHit { index: 0, row: 0 });
    assert!(screen.viewport.handle_left_click(heading, &change()));
    assert_eq!(screen.viewport.expanded_file_change, Some(0));

    assert_eq!(screen.open_diff_panel(109), None);
    let generation = screen.open_diff_panel(120).expect("wide terminal");
    assert_eq!(screen.viewport.expanded_file_change, None);
    let shown = PanelLayout {
        lines: Vec::new(),
        file_offsets: vec![0, 6],
    };
    assert!(screen.diff_panel.apply_result(
        generation,
        DiffResult::Files(changed_files()),
        &no_layout(),
        &shown
    ));
    let panel = screen.diff_panel.panel.as_ref().expect("open panel");
    assert_eq!((panel.selected_file, panel.body_scroll), (Some(0), 0));

    // A click on the heading of the second change jumps to its file, and expands nothing.
    let second_heading = Some(BlockHit { index: 1, row: 1 });
    for kind in [MouseInteractionKind::LeftDown, MouseInteractionKind::LeftUp] {
        assert_eq!(
            screen.handle_mouse_interaction(
                kind,
                at(4, 2),
                0,
                second_heading,
                &change(),
                &Some("src/b.rs".to_string()),
                &shown,
                false,
            ),
            OwnedScreenMouseAction::Redraw
        );
    }
    assert_eq!(screen.viewport.expanded_file_change, None);
    let panel = screen.diff_panel.panel.as_ref().expect("open panel");
    assert_eq!((panel.selected_file, panel.body_scroll), (Some(1), 6));

    // A path that the panel does not show changes nothing.
    for kind in [MouseInteractionKind::LeftDown, MouseInteractionKind::LeftUp] {
        screen.handle_mouse_interaction(
            kind,
            at(9, 0),
            5 * SECOND,
            heading,
            &change(),
            &Some("src/other.rs".to_string()),
            &shown,
            false,
        );
    }
    let panel = screen.diff_panel.panel.as_ref().expect("open panel");
    assert_eq!((panel.selected_file, panel.body_scroll), (Some(1), 6));

    screen.close_diff_panel();
    assert!(!screen.diff_panel.is_open());
    assert!(screen.viewport.handle_left_click(heading, &change()));
    assert_eq!(screen.viewport.expanded_file_change, Some(0));
}

#[test]
fn results_of_earlier_requests_are_dropped() {
    let mut slot = PanelSlot::new();
    assert!(!slot.is_open());
    let first = slot.start();
    let second = slot.begin_refresh();
    assert_ne!(first, second);
    let files = || DiffResult::Files(changed_files());
    assert!(!slot.apply_result(first, files(), &no_layout(), &no_layout()));
    assert!(slot.apply_result(second, files(), &no_layout(), &no_layout()));
    slot.close();
    assert!(!slot.apply_result(second, files(), &no_layout(), &no_layout()));
}

#[test]
fn navigation_does_not_steal_printable_or_draft_input() {
    for (key, expected) in [
        (NavigationKey::Other, false),
        (NavigationKey::PageUp, true),
        (NavigationKey::PageDown, true),
        (NavigationKey::CtrlEnd, true),
    ] {
        let mut owned = screen(vec![cell(0)], area(0, 0, 20, 2), area(0, 0, 20, 2));
        assert_eq!(
            navigation_key_counts(true, true, key) && owned.handle_navigation_key(key, 1),
            expected
        );
    }
    assert!(!navigation_key_counts(true, false, NavigationKey::PageUp));
    assert!(navigation_key_counts(true, false, NavigationKey::CtrlEnd));
    assert!(!navigation_key_counts(false, true, NavigationKey::PageUp));
}

#[test]
fn mouse_wheel_scrolls_transcript_without_changing_draft() {
    let conversation = area(0, 0, 40, 3);
    let mut screen = screen((0..5).map(cell).collect(), conversation, area(0, 0, 40, 8));
    // Five cells with a row between any two of them.
    let total: usize = 9;

    assert!(screen.handle_mouse_scroll(MouseScrollDirection::Up, at(2, 2), 0, total));
    assert_eq!(screen.viewport.scroll.first_row(total, 3), 3);
    assert!(!screen.viewport.is_following_bottom());
    let hint = jump_hint("ctrl + end");
    assert_eq!(
        hint.spans
            .iter()
            .map(|span| span.content.as_str())
            .collect::<String>(),
        "ctrl + end jump to bottom ↓"
    );
    assert_eq!(jump_hint_area(conversation, 27), area(5, 2, 29, 1));
    assert!(!screen.handle_mouse_scroll(MouseScrollDirection::Up, at(2, 7), 0, total));

    assert!(screen.handle_navigation_key(NavigationKey::CtrlEnd, total));
    assert!(screen.viewport.is_following_bottom());
    assert!(!screen.handle_navigation_key(NavigationKey::Other, total));
}

#[test]
fn copy_notice_tracks_multiline_composer_top_below_scroll_banner() {
    let whole = area(0, 0, 50, 10);
    let mut screen = screen((0..5).map(cell).collect(), area(0, 0, 50, 3), whole);
    assert!(screen.handle_mouse_scroll(MouseScrollDirection::Up, at(2, 2), 0, 9));
    screen.show_copy_notice(12, 0);
    let (text, place) = screen
        .copy_notice_line(bottom_area(whole, 7), Some(4), SECOND)
        .expect("copy notice");
    assert_eq!(text, "copied 12 chars to clipboard");
    assert_eq!(place, area(0, 3, 48, 1));
    assert_eq!(jump_hint_area(area(0, 0, 50, 3), 27).y, 2);
}

#[test]
fn drag_selects_visible_text_and_copy_notice_renders_above_the_composer() {
    let whole = area(0, 0, 50, 10);
    let mut screen = screen(vec![cell(0)], area(0, 0, 50, 5), whole);
    let rows = || {
        (0..10)
            .map(|y| match y {
                0 => row("alpha beta gamma", 50),
                7 => row("› draft sentinel", 50),
                _ => row("", 50),
            })
            .collect::<Vec<_>>()
    };
    screen.selection.capture_and_render(whole, rows());
    for (kind, x) in [
        (MouseInteractionKind::LeftDown, 0),
        (MouseInteractionKind::LeftDrag, 4),
    ] {
        assert_eq!(
            screen.handle_mouse_interaction(kind, at(x, 0), 0, None, &None, &None, &no_layout(), false),
            OwnedScreenMouseAction::Redraw
        );
    }
    assert_eq!(
        screen.selection.capture_and_render(whole, rows()),
        vec![MarkedColumns {
            y: 0,
            first: 0,
            end: 5
        }]
    );
    assert_eq!(
        screen.handle_mouse_interaction(MouseInteractionKind::LeftUp, at(4, 0), 0, None, &None, &None, &no_layout(), false),
        OwnedScreenMouseAction::Copy("alpha".to_string())
    );

    screen.show_copy_notice(5, 0);
    assert_eq!(screen.copy_notice_delay(SECOND), Some(SECOND));
    assert_eq!(
        screen.copy_notice_line(bottom_area(whole, 5), Some(6), SECOND),
        Some((
            "copied 5 chars to clipboard".to_string(),
            area(0, 5, 48, 1)
        ))
    );
    assert_eq!(
        screen.copy_notice_line(bottom_area(whole, 5), Some(6), 2 * SECOND),
        None
    );
    assert_eq!(screen.copy_notice, None);

    for (kind, x) in [
        (MouseInteractionKind::LeftDown, 2),
        (MouseInteractionKind::LeftDrag, 15),
    ] {
        assert_eq!(
            screen.handle_mouse_interaction(kind, at(x, 7), 5 * SECOND, None, &None, &None, &no_layout(), false),
            OwnedScreenMouseAction::Redraw
        );
    }
    assert_eq!(
        screen.selection.capture_and_render(whole, rows()),
        vec![MarkedColumns {
            y: 7,
            first: 2,
            end: 16
        }]
    );
    assert_eq!(
        screen.handle_mouse_interaction(
            MouseInteractionKind::LeftUp,
            at(15, 7),
            5 * SECOND,
            None,
            &None,
            &None,
            &no_layout(),
            false,
        ),
        OwnedScreenMouseAction::Copy("draft sentinel".to_string())
    );
}

#[test]
fn the_diff_command_toggles_the_panel() {
    assert_eq!(
        toggle_diff_panel(false, false, Ok(200)),
        ToggleStep::RequestOverlay
    );
    assert_eq!(toggle_diff_panel(true, true, Ok(200)), ToggleStep::Close);
    assert!(matches!(
        toggle_diff_panel(true, false, Ok(200)),
        ToggleStep::Open { columns } if columns < 200
    ));
    assert_eq!(
        toggle_diff_panel(true, false, Ok(109)),
        ToggleStep::Error(
            "Resize the terminal to at least 110 columns to show the diff panel.".to_string()
        )
    );
    assert_eq!(
        toggle_diff_panel(true, false, Err("no tty".to_string())),
        ToggleStep::Error("Failed to read terminal size: no tty".to_string())
    );
}

#[test]
fn the_diff_overlay_shows_what_came() {
    assert_eq!(
        diff_overlay(Ok((true, String::new()))),
        DiffOverlay::NoChanges
    );
    assert_eq!(
        diff_overlay(Ok((true, "a\nb\n".to_string()))),
        DiffOverlay::Lines(vec!["a".to_string(), "b".to_string()])
    );
    assert_eq!(
        diff_overlay(Ok((false, String::new()))),
        DiffOverlay::Lines(vec!["`/diff` — _not inside a git repository_".to_string()])
    );
    assert_eq!(
        diff_overlay(Err("boom".to_string())),
        DiffOverlay::Lines(vec!["Failed to compute diff: boom".to_string()])
    );
}

#[test]
fn only_one_behaviour_owns_the_screen() {
    assert!(is_owned(AltScreenBehavior::Owned));
    assert!(!is_owned(AltScreenBehavior::OverlayOnly));
    assert!(!is_owned(AltScreenBehavior::Disabled));
    assert_eq!(copy_failed_message("no clipboard"), "Copy failed: no clipboard");
}

#[test]
fn the_jump_hint_is_as_wide_as_its_text() {
    let conversation = area(0, 0, 40, 3);
    let (line, place) =
        jump_to_bottom_hint(conversation, false, "ctrl + end").expect("hint below the end");
    assert_eq!(line.spans.len(), 3);
    assert_eq!(place, area(5, 2, 29, 1));
    // A wide character takes two columns.
    let (_, place) = jump_to_bottom_hint(conversation, false, "終").expect("hint");
    assert_eq!(place.width, 21);
    assert!(jump_to_bottom_hint(conversation, true, "ctrl + end").is_none());
    assert!(jump_to_bottom_hint(area(0, 0, 0, 3), false, "ctrl + end").is_none());
}

#[test]
fn copies_count_characters_or_tell_their_failure() {
    let whole = area(0, 0, 50, 10);
    let mut screen = screen(vec![cell(0)], area(0, 0, 50, 3), whole);
    assert_eq!(
        screen.finish_copy("text", Err("no clipboard".to_string()), 0),
        Some("Copy failed: no clipboard".to_string())
    );
    assert!(screen.copy_notice.is_none());
    assert_eq!(screen.finish_copy("größe", Ok(()), 0), None);
    let notice = screen.copy_notice_line(whole, None, SECOND).expect("notice");
    assert_eq!(notice.0, "copied 5 chars to clipboard");
    assert_eq!(screen.copy_notice_delay(SECOND), Some(SECOND));
}

#[test]
fn frames_follow_the_size_of_the_terminal() {
    let same = prepare_frame((80, 24), (80, 24));
    assert_eq!(
        same,
        FramePreparation {
            resized_to: None,
            refreshes_status_line: false
        }
    );
    assert!(prepare_frame((80, 25), (80, 24)).refreshes_status_line);
    assert_eq!(prepare_frame((81, 24), (80, 24)).resized_to, Some(81));
}

#[test]
fn changes_are_asked_for_and_used() {
    let mut slot = PanelSlot::new();
    assert_eq!(slot.refresh(), None);
    let first = slot.start();
    assert_eq!(slot.refresh(), Some(first + 1));
    assert!(slot.is_open());

    assert_eq!(request_diff(true, true), DiffRequest::ForPanel);
    assert_eq!(request_diff(true, false), DiffRequest::Coloured);
    assert_eq!(
        request_diff(false, true),
        DiffRequest::Failed("workspace command runner unavailable".to_string())
    );

    let result = || Ok((true, "a\n".to_string()));
    assert!(matches!(handle_diff_result(true, Some(3), result()), DiffResultUse::Ignored));
    assert!(matches!(
        handle_diff_result(false, Some(3), result()),
        DiffResultUse::Panel(3, Ok((true, text))) if text == "a\n"
    ));
    assert!(matches!(
        handle_diff_result(false, None, result()),
        DiffResultUse::Overlay(DiffOverlay::Lines(lines)) if lines == ["a"]
    ));
}
