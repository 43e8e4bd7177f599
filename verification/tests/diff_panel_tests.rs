use codex_session::diff_panel::drawing::{ListedPath, PanelMessage};
use codex_session::diff_panel::panel::{
    DiffPanel, DiffPanelClick, DiffPanelContent, DiffResult, PanelHover,
};
use codex_session::diff_panel::parser::{parse_git_diff, DiffPanelFile};
use codex_session::diff_panel::render::{
    diff_panel_width, file_row, heading_line, inner_area, message_areas, panel_layout,
    path_columns, summary_line, FileBody, PanelLayout, CLOSE_SYMBOL,
};
use codex_session::geometry::{Area, Position};
use codex_session::scroll::MouseScrollDirection;
use codex_session::styled::{plain, StyledLine, StyledSpan};

fn sample_diff() -> String {
    "diff --git a/src/a.rs b/src/a.rs\n--- a/src/a.rs\n+++ b/src/a.rs\n@@ -1 +1 @@\n-old\n+new\n\
     diff --git a/src/b.rs b/src/b.rs\nnew file mode 100644\n--- /dev/null\n+++ b/src/b.rs\n@@ -0,0 +1 @@\n+fn b() {}\n"
        .to_string()
}

fn line(text: &str) -> StyledLine {
    StyledLine {
        spans: vec![StyledSpan {
            content: text.to_string(),
            style: plain(),
        }],
    }
}

fn text_of(line: &StyledLine) -> String {
    line.spans.iter().map(|span| span.content.as_str()).collect()
}

fn paths(paths: &[&str]) -> Vec<String> {
    paths.iter().map(|path| path.to_string()).collect()
}

fn sample_files() -> Vec<DiffPanelFile> {
    parse_git_diff(
        &sample_diff(),
        &vec![paths(&["src/a.rs"]), paths(&["src/b.rs"])],
        &vec![(1, 1), (1, 0)],
    )
}

fn layout(files: &[DiffPanelFile]) -> PanelLayout {
    let bodies = files
        .iter()
        .map(|file| FileBody {
            heading: heading_line(file),
            rows: file
                .change
                .as_ref()
                .map(|change| change.lines().skip(3).map(line).collect()),
        })
        .collect();
    panel_layout(&bodies, 56)
}

fn no_layout() -> PanelLayout {
    layout(&[])
}

fn area(width: u16, height: u16) -> Area {
    Area {
        x: 0,
        y: 0,
        width,
        height,
    }
}

/// The rows of the list of files, with the row of the screen on which each stands.
fn list_rows(panel: &DiffPanel) -> Vec<(u16, String)> {
    let height = panel.areas.file_list_content.height as usize;
    let paths = files_of(panel)
        .iter()
        .skip(panel.file_list_start)
        .take(height)
        .map(|file| ListedPath {
            text: file.path.clone(),
            width: file.path.len(),
            columns: 20,
        })
        .collect();
    panel
        .file_list_rows(&paths)
        .iter()
        .map(|placed| (placed.area.y, text_of(&placed.line)))
        .collect()
}

fn files_of(panel: &DiffPanel) -> &[DiffPanelFile] {
    match &panel.content {
        DiffPanelContent::Ready(files) => files,
        _ => &[],
    }
}

#[test]
fn panel_width_is_forty_percent() {
    assert_eq!(diff_panel_width(109), None);
    assert_eq!(diff_panel_width(110), Some(44));
    assert_eq!(diff_panel_width(144), Some(57));
    assert_eq!(diff_panel_width(200), Some(80));
    assert_eq!(diff_panel_width(400), Some(160));
}

#[test]
fn parses_file_sections_and_line_counts() {
    let files = sample_files();
    assert_eq!(
        files
            .iter()
            .map(|file| (file.path.as_str(), file.added, file.removed))
            .collect::<Vec<_>>(),
        vec![("src/a.rs", 1, 1), ("src/b.rs", 1, 0)],
    );
    assert_eq!(
        files[0].change.as_deref(),
        Some("--- a/src/a.rs\n+++ b/src/a.rs\n@@ -1 +1 @@\n-old\n+new\n")
    );
}

#[test]
fn parses_windows_untracked_diff_path() {
    let files = parse_git_diff(
        "diff --git a/NUL b/a.txt\nnew file mode 100644\n--- NUL\n+++ b/a.txt\n@@ -0,0 +1 @@\n+new\n",
        &vec![paths(&["a.txt", "NUL"])],
        &vec![(1, 0)],
    );
    assert_eq!(
        files.into_iter().map(|file| file.path).collect::<Vec<_>>(),
        vec!["a.txt"],
    );
}

#[test]
fn renamed_and_binary_files_are_listed() {
    let files = parse_git_diff(
        "diff --git a/old.rs b/new.rs\nsimilarity index 100%\nrename from old.rs\nrename to new.rs\n\
         diff --git a/x.png b/x.png\nBinary files differ\n",
        &vec![paths(&["old.rs", "new.rs"]), paths(&["x.png"])],
        &vec![(4, 4), (4, 4)],
    );
    assert_eq!(
        files
            .iter()
            .map(|file| (file.path.as_str(), file.added, file.removed, file.change.is_none()))
            .collect::<Vec<_>>(),
        vec![("new.rs", 0, 0, true), ("x.png", 0, 0, true)]
    );
}

#[test]
fn renders_file_navigation_and_continuous_diff() {
    let area = area(50, 18);
    let mut panel = DiffPanel::loading();
    panel.place(area);
    assert_eq!(
        panel.message(),
        Some(PanelMessage {
            headline: "Loading diff…".to_string(),
            hint: None
        })
    );

    panel.set_result(
        DiffResult::Files(sample_files()),
        &no_layout(),
        &layout(&sample_files()),
    );
    panel.place(area);
    assert_eq!(panel.file_count(), 2);
    assert_eq!(panel.message(), None);
    let header = panel.header(inner_area(area));
    assert_eq!(
        header
            .iter()
            .map(|placed| (placed.area.y, text_of(&placed.line)))
            .collect::<Vec<_>>(),
        vec![
            (1, "2 files changed +2 -1".to_string()),
            (1, "✕".to_string()),
            (2, "uncommitted (vs HEAD)".to_string()),
        ]
    );
    assert_eq!(
        list_rows(&panel)
            .iter()
            .map(|(_, text)| text.as_str())
            .collect::<Vec<_>>(),
        vec![
            "› src/a.rs            +1 -1",
            "  src/b.rs            +1 -0"
        ]
    );
    let shown = layout(&sample_files());
    let text = shown.lines.iter().map(text_of).collect::<Vec<_>>();
    assert!(text[0].contains("src/a.rs"));
    assert!(text[shown.file_offsets[1]].contains("src/b.rs"));
    assert_eq!(
        panel.handle_left_click(Position { x: 47, y: 1 }, &shown),
        DiffPanelClick::Close,
    );
    assert!(panel.jump_to_path("src/b.rs", &shown, false));
    assert_eq!(panel.selected_file, Some(1));
    assert_eq!(panel.body_scroll, shown.file_offsets[1]);
    assert!(!panel.jump_to_path("src/none.rs", &shown, false));
    assert!(!panel.jump_to_path("SRC/A.rs", &shown, false));
    assert!(panel.jump_to_path("SRC/A.rs", &shown, true));
    assert_eq!(panel.selected_file, Some(0));
}

#[test]
fn hover_and_body_scroll_keep_file_navigation_in_sync() {
    let area = area(60, 18);
    let mut panel = DiffPanel::loading();
    let shown = layout(&sample_files());
    panel.set_result(DiffResult::Files(sample_files()), &no_layout(), &shown);
    panel.place(area);

    assert_eq!(CLOSE_SYMBOL, "✕");
    let mark_style = |panel: &DiffPanel| panel.header(inner_area(area))[1].line.spans[0].style;
    let unhovered_mark = mark_style(&panel);
    let close = Position {
        x: panel.areas.close.x,
        y: panel.areas.close.y,
    };
    assert!(panel.handle_mouse_move(close));
    assert_eq!(panel.hover, PanelHover::Close);
    assert_ne!(mark_style(&panel), unhovered_mark);
    assert!(!panel.handle_mouse_move(close));

    let first_row = panel.areas.file_list_content.y;
    assert!(panel.handle_mouse_move(Position { x: 4, y: first_row }));
    assert_eq!(panel.hover, PanelHover::File(0));
    let paths = || {
        ["src/a.rs", "src/b.rs"]
            .iter()
            .map(|path| ListedPath {
                text: path.to_string(),
                width: 8,
                columns: 20,
            })
            .collect::<Vec<_>>()
    };
    let hovered = panel.file_list_rows(&paths());
    assert_ne!(
        hovered[0].line.spans[1].style,
        hovered[1].line.spans[1].style
    );
    assert_eq!(
        hovered[0].line.spans[0].style,
        hovered[1].line.spans[0].style
    );

    panel.body_scroll = shown.file_offsets[1];
    panel.sync_selected_file_to_body_scroll(&shown);
    assert_eq!(panel.selected_file, Some(1));
    panel.body_scroll = shown.file_offsets[1] - 1;
    panel.sync_selected_file_to_body_scroll(&shown);
    assert_eq!(panel.selected_file, Some(0));
}

#[test]
fn refresh_preserves_selected_file_scroll_and_last_ready_diff() {
    let mut panel = DiffPanel::loading();
    let shown = layout(&sample_files());
    panel.set_result(DiffResult::Files(sample_files()), &no_layout(), &shown);
    panel.place(area(60, 18));
    assert!(panel.jump_to_path("src/b.rs", &shown, false));
    panel.body_scroll = shown.file_offsets[1] + 1;

    let text = format!(
        "diff --git a/src/0.rs b/src/0.rs\nnew file mode 100644\n--- /dev/null\n+++ b/src/0.rs\n@@ -0,0 +1 @@\n+zero\n{}",
        sample_diff(),
    );
    let refreshed = || {
        parse_git_diff(
            &text,
            &vec![
                paths(&["src/0.rs"]),
                paths(&["src/a.rs"]),
                paths(&["src/b.rs"]),
            ],
            &vec![(1, 0), (1, 1), (1, 0)],
        )
    };
    let new_layout = layout(&refreshed());
    panel.set_result(DiffResult::Files(refreshed()), &shown, &new_layout);

    let selected = panel.selected_file.expect("selected file");
    assert_eq!(
        (
            files_of(&panel)[selected].path.as_str(),
            panel.body_scroll - new_layout.file_offsets[selected],
        ),
        ("src/b.rs", 1),
    );

    let before = (panel.selected_file, panel.body_scroll, panel.revision);
    panel.set_result(
        DiffResult::Failed("git diff failed".to_string()),
        &new_layout,
        &new_layout,
    );
    assert_eq!(
        (panel.selected_file, panel.body_scroll, panel.revision),
        before
    );
    assert_eq!(files_of(&panel).len(), 3);
}

#[test]
fn failures_are_shown_where_nothing_was() {
    let mut panel = DiffPanel::loading();
    panel.set_result(
        DiffResult::Failed("no git".to_string()),
        &no_layout(),
        &no_layout(),
    );
    let message = |headline: &str, hint: Option<&str>| {
        Some(PanelMessage {
            headline: headline.to_string(),
            hint: hint.map(str::to_string),
        })
    };
    assert_eq!(panel.message(), message("Diff unavailable", Some("no git")));
    panel.set_result(DiffResult::NotRepository, &no_layout(), &no_layout());
    assert_eq!(
        panel.message(),
        message(
            "Diff unavailable",
            Some("The current directory is not in a Git repository")
        )
    );
    panel.set_result(DiffResult::Files(Vec::new()), &no_layout(), &no_layout());
    assert_eq!(panel.message(), message("No uncommitted changes", None));
    panel.set_loading();
    assert!(matches!(panel.content, DiffPanelContent::Loading));
}

#[test]
fn long_file_list_scrolls_with_edge_cues() {
    let files = || {
        (0..10)
            .map(|index| DiffPanelFile {
                path: format!("src/{index}.rs"),
                added: 1,
                removed: 1,
                change: Some("--- a\n+++ b\n@@ -1 +1 @@\n-old\n+new\n".to_string()),
            })
            .collect::<Vec<_>>()
    };
    let area = area(50, 24);
    let mut panel = DiffPanel::loading();
    let shown = layout(&files());
    panel.set_result(DiffResult::Files(files()), &no_layout(), &shown);
    panel.place(area);
    let rows = list_rows(&panel);
    assert_eq!(rows.len(), 9);
    assert_eq!(rows[0].1, "› src/0.rs            +1 -1");
    assert_eq!(rows[8].1, "↓ 2 more below");

    assert!(panel.handle_mouse_scroll(
        Position { x: 4, y: 4 },
        MouseScrollDirection::Down,
        &shown
    ));
    panel.place(area);
    let rows = list_rows(&panel);
    assert_eq!(rows.len(), 10);
    assert_eq!(rows[0], (panel.areas.file_list.y, "↑ 1 more above".to_string()));
    assert_eq!(rows[1].1, "  src/1.rs            +1 -1");
    assert_eq!(rows[9].1, "↓ 1 more below");
    assert_eq!(
        rows.iter().map(|(y, _)| *y).collect::<Vec<_>>(),
        (0..10)
            .map(|row| panel.areas.file_list.y + row)
            .collect::<Vec<_>>()
    );
}

#[test]
fn rows_of_the_panel_have_their_texts() {
    let files = sample_files();
    assert_eq!(
        text_of(&summary_line(Some(&files))).trim(),
        "2 files changed +2 -1"
    );
    assert!(text_of(&heading_line(&files[0])).contains("src/a.rs"));
    let row = text_of(&file_row(true, false, "src/a.rs", 8, 12, 1, 1));
    assert_eq!(row, "› src/a.rs    +1 -1");
    assert_eq!(path_columns(40, 2, 5), 33);
    assert_eq!(path_columns(4, 2, 5), 0);
    let inner = inner_area(area(10, 6));
    assert_eq!(
        inner,
        Area {
            x: 1,
            y: 1,
            width: 8,
            height: 4
        }
    );
    let (heading, message) = message_areas(inner);
    assert!(heading.y < message.y);
}
