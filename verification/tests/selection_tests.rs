use codex_session::geometry::{Area, Position};
use codex_session::owned_screen::selection::{
    capture_row, selection_class, MarkedColumns, ScreenCell, ScreenRow, ScreenTextSelection,
    SelectionClass, SelectionRelease,
};
use unicode_width::UnicodeWidthStr;

fn row(text: &str, width: usize) -> ScreenRow {
    let mut cells = Vec::new();
    for c in text.chars() {
        let symbol = c.to_string();
        let columns = symbol.width().max(1);
        cells.push(ScreenCell {
            symbol,
            skipped: false,
        });
        for _ in 1..columns {
            cells.push(ScreenCell {
                symbol: " ".to_string(),
                skipped: false,
            });
        }
    }
    while cells.len() < width {
        cells.push(ScreenCell {
            symbol: " ".to_string(),
            skipped: false,
        });
    }
    capture_row(&cells)
}

fn area(width: u16, height: u16) -> Area {
    Area {
        x: 0,
        y: 0,
        width,
        height,
    }
}

fn at(x: u16, y: u16) -> Position {
    Position { x, y }
}

#[test]
fn double_click_selection_matches_terminal_word_boundaries() {
    let area = area(24, 1);
    let mut selection = ScreenTextSelection::new();
    selection.capture_and_render(area, vec![row("run foo_bar --flag now", 24)]);

    assert_eq!(
        selection.select_word(area, at(7, 0)),
        Some("foo_bar".to_string())
    );

    selection.clear();
    assert_eq!(
        selection.select_word(area, at(14, 0)),
        Some("--flag".to_string())
    );
}

#[test]
fn drag_selects_and_marks_columns() {
    let area = area(50, 2);
    let rows = || vec![row("alpha beta gamma", 50), row("second row", 50)];
    let mut selection = ScreenTextSelection::new();
    selection.capture_and_render(area, rows());
    assert!(selection.left_down(area, at(0, 0)));
    assert!(selection.left_drag(area, at(4, 0)));
    assert!(!selection.left_drag(area, at(4, 0)));
    assert_eq!(
        selection.capture_and_render(area, rows()),
        vec![MarkedColumns {
            y: 0,
            first: 0,
            end: 5
        }]
    );
    assert_eq!(
        selection.left_up(area, at(4, 0)),
        SelectionRelease::Copy("alpha".to_string())
    );
    assert_eq!(selection.capture_and_render(area, rows()).len(), 1);
    let changed = vec![row("omega beta gamma", 50), row("second row", 50)];
    assert_eq!(selection.capture_and_render(area, changed), Vec::new());
}

#[test]
fn selection_over_rows_drops_padding() {
    let area = area(12, 2);
    let mut selection = ScreenTextSelection::new();
    selection.capture_and_render(area, vec![row("one two", 12), row("three", 12)]);
    selection.left_down(area, at(8, 1));
    selection.left_drag(area, at(4, 0));
    assert_eq!(
        selection.left_up(area, at(4, 0)),
        SelectionRelease::Copy("two\nthree".to_string())
    );
}

#[test]
fn selection_copies_wide_text_without_padding_spaces() {
    let text = "● Unicode 选择测试通过，第二轮 scoped Clippy 也完成。";
    let area = area(60, 1);
    let mut selection = ScreenTextSelection::new();
    selection.capture_and_render(area, vec![row(text, 60)]);
    let last = text.width() as u16 - 1;
    selection.left_down(area, at(0, 0));
    selection.left_drag(area, at(last, 0));
    assert_eq!(
        selection.left_up(area, at(last, 0)),
        SelectionRelease::Copy(text.to_string())
    );

    selection.capture_and_render(area, vec![row("A中B", 60)]);
    selection.left_down(area, at(2, 0));
    selection.left_drag(area, at(3, 0));
    assert_eq!(
        selection.left_up(area, at(3, 0)),
        SelectionRelease::Copy("中B".to_string())
    );
}

#[test]
fn a_click_selects_nothing() {
    let area = area(10, 1);
    let mut selection = ScreenTextSelection::new();
    selection.capture_and_render(area, vec![row("text", 10)]);
    assert!(!selection.left_down(area, at(10, 0)));
    assert_eq!(
        selection.left_up(area, at(1, 0)),
        SelectionRelease::Ignored
    );
    selection.left_down(area, at(1, 0));
    assert_eq!(
        selection.left_up(area, at(1, 0)),
        SelectionRelease::Click(at(1, 0))
    );
    selection.left_down(area, at(6, 0));
    selection.left_drag(area, at(8, 0));
    assert_eq!(
        selection.left_up(area, at(60, 40)),
        SelectionRelease::Redraw
    );
}

#[test]
fn characters_have_their_classes() {
    for c in ['a', 'Z', '0', 'é', '_', '/', '.', '-', '+', '~', '\\'] {
        assert_eq!(selection_class(c), SelectionClass::Word);
    }
    for c in [' ', '\t', '\u{3000}'] {
        assert_eq!(selection_class(c), SelectionClass::Whitespace);
    }
    for c in ['(', '"', '|', '='] {
        assert_eq!(selection_class(c), SelectionClass::Other);
    }
}
