use codex_session::backtrack::selection::RewindAction;
use codex_session::geometry::Area;
use codex_session::rewind_view::{
    picker_areas, restore_intro, view_areas, visible_lines, warning_line, ListAction, PickerAreas,
    RewindPromptItem, RewindRestoreOption, RewindView, RewindViewKind, ViewCompletion,
    WrappedRestoreText,
};
use codex_session::styled::{plain, tinted, SpanStyle, StyledLine, StyledSpan, Tint};

fn line(text: &str) -> StyledLine {
    StyledLine {
        spans: vec![StyledSpan {
            content: text.to_string(),
            style: plain(),
        }],
    }
}

fn text_of(line: &StyledLine) -> String {
    line.spans.iter().map(|span| span.content.as_str()).collect()
}

fn prompt(text: &str, summary: StyledLine) -> RewindPromptItem {
    RewindPromptItem {
        prompt: text.to_string(),
        code_summary: Some(summary),
        is_current: false,
        action: RewindAction::BacktrackRestoreBack,
    }
}

fn current() -> RewindPromptItem {
    RewindPromptItem {
        prompt: String::new(),
        code_summary: None,
        is_current: true,
        action: RewindAction::CancelBacktrackRestore,
    }
}

#[test]
fn prompt_picker_defaults_to_current_without_rewinding() {
    let mut view = RewindView::new(
        RewindViewKind::Prompts {
            items: vec![
                prompt("change the parser", line("Edited parser.rs (+3 -1)")),
                current(),
            ],
        },
        RewindAction::CancelBacktrackRestore,
    );

    assert_eq!(view.selected_index(), Some(1));
    let action = view.handle_action(ListAction::Accept);
    assert!(matches!(action, Some(RewindAction::CancelBacktrackRestore)));
    assert_eq!(view.completion(), Some(ViewCompletion::Accepted));
    assert!(view.is_complete());
}

#[test]
fn historical_prompt_waits_for_restore_picker() {
    let mut view = RewindView::new(
        RewindViewKind::Prompts {
            items: vec![
                prompt("change the parser", line("Edited parser.rs (+3 -1)")),
                current(),
            ],
        },
        RewindAction::CancelBacktrackRestore,
    );

    assert!(view.handle_action(ListAction::MoveUp).is_none());
    let action = view.handle_action(ListAction::Accept);

    assert!(matches!(action, Some(RewindAction::BacktrackRestoreBack)));
    assert_eq!(view.completion(), None);
    assert!(view.dismiss_after_child_accept());

    view.clear_dismiss_after_child_accept();
    assert!(!view.dismiss_after_child_accept());
}

#[test]
fn restore_picker_cancel_returns_to_prompt_picker() {
    let mut view = RewindView::new(
        RewindViewKind::Restore {
            prompt: "change the parser".to_string(),
            options: vec![RewindRestoreOption {
                label: "Restore conversation".to_string(),
                details: vec![line("The code will be unchanged.")],
                action: RewindAction::CancelBacktrackRestore,
            }],
            warning: line("Shell and manual edits are left untouched."),
        },
        RewindAction::BacktrackRestoreBack,
    );

    let action = view.handle_action(ListAction::Cancel);

    assert!(matches!(action, Some(RewindAction::BacktrackRestoreBack)));
    assert_eq!(view.completion(), Some(ViewCompletion::Cancelled));
}

fn area(y: u16, height: u16) -> Area {
    Area {
        x: 2,
        y,
        width: 68,
        height,
    }
}

fn five_prompts() -> RewindView {
    let changed = StyledLine {
        spans: vec![
            StyledSpan {
                content: "2 files changed (".to_string(),
                style: plain(),
            },
            StyledSpan {
                content: "+8".to_string(),
                style: tinted(Tint::Green),
            },
            StyledSpan {
                content: " ".to_string(),
                style: plain(),
            },
            StyledSpan {
                content: "-3".to_string(),
                style: tinted(Tint::Red),
            },
            StyledSpan {
                content: ")".to_string(),
                style: plain(),
            },
        ],
    };
    RewindView::new(
        RewindViewKind::Prompts {
            items: vec![
                prompt("change the parser", line("Edited parser.rs (+3 -1)")),
                prompt("add regression tests", line("No code changes")),
                prompt("update the footer", changed),
                prompt("polish the diff panel", line("Edited diff_panel.rs (+4 -1)")),
                current(),
            ],
        },
        RewindAction::CancelBacktrackRestore,
    )
}

#[test]
fn rewind_prompt_picker_snapshot() {
    let view = five_prompts();
    assert_eq!(view.desired_height(0, 8), 23);
    let lines = view.render_prompt_picker(area(1, 20));
    let shown = lines
        .iter()
        .map(|placed| (placed.area.y, text_of(&placed.line)))
        .collect::<Vec<_>>();
    let expected = [
        (1, "Rewind"),
        (2, "Restore the code and/or conversation to the point before…"),
        (5, "  change the parser"),
        (6, "Edited parser.rs (+3 -1)"),
        (8, "  add regression tests"),
        (9, "No code changes"),
        (11, "  update the footer"),
        (12, "2 files changed (+8 -3)"),
        (14, "  polish the diff panel"),
        (15, "Edited diff_panel.rs (+4 -1)"),
        (17, "❯ (current)"),
    ];
    assert_eq!(
        shown,
        expected
            .iter()
            .map(|(y, text)| (*y, text.to_string()))
            .collect::<Vec<_>>()
    );
    let current_style = lines.last().expect("current row").line.spans[1].style;
    assert_eq!(
        current_style,
        SpanStyle {
            tint: Tint::Accent,
            bold: false,
            dim: false,
            italic: false
        }
    );
    // The summary of a prompt that is not selected is dimmed, and keeps its colours.
    let summary = &lines[7].line.spans[1].style;
    assert!(summary.dim && summary.tint == Tint::Green);
}

#[test]
fn picker_tells_of_hidden_prompts() {
    let mut view = five_prompts();
    view.handle_action(ListAction::JumpTop);
    view.handle_action(ListAction::MoveDown);
    view.handle_action(ListAction::MoveDown);
    assert_eq!(view.selected_index(), Some(2));
    let lines = view.render_prompt_picker(area(1, 8));
    let shown = lines
        .iter()
        .map(|placed| text_of(&placed.line))
        .collect::<Vec<_>>();
    assert!(shown.contains(&"↑ 2 more above".to_string()));
    assert!(shown.contains(&"↓ 2 more below".to_string()));
    assert!(shown.contains(&"❯ update the footer".to_string()));
    let all = view.render_prompt_picker(area(1, 20));
    let present = all.last().expect("current row").line.spans[1].style;
    assert!(present.italic && present.tint == Tint::Plain);
    assert_eq!(visible_lines(area(4, 5), 9), 5);
    assert_eq!(visible_lines(area(4, 5), 3), 3);
}

fn option(label: &str, details: &[&str]) -> RewindRestoreOption {
    RewindRestoreOption {
        label: label.to_string(),
        details: details.iter().map(|text| line(text)).collect(),
        action: RewindAction::CancelBacktrackRestore,
    }
}

#[test]
fn rewind_restore_picker_snapshot() {
    let removed = "The selected message and everything after it will be removed.";
    let restored = "The code in 2 tracked files will be restored.";
    let warning = "Only changes made through Codex apply_patch are restored; shell and manual edits are left untouched.";
    let view = RewindView::new(
        RewindViewKind::Restore {
            prompt: "change the parser".to_string(),
            options: vec![
                option("Restore code and conversation", &[removed, restored]),
                option(
                    "Restore conversation",
                    &[removed, "The code will be unchanged."],
                ),
                option(
                    "Restore code",
                    &["The conversation will be unchanged.", restored],
                ),
                option(
                    "Never mind",
                    &["The code and conversation will be unchanged."],
                ),
            ],
            warning: line(warning),
        },
        RewindAction::BacktrackRestoreBack,
    );
    let marked = warning_line(&line(warning));
    assert_eq!(text_of(&marked), format!("⚠ {warning}"));
    assert!(marked.spans.iter().all(|span| span.style.dim));
    let lines = view.restore_content_lines(WrappedRestoreText {
        intro: vec![restore_intro()],
        prompt: vec![line("change the parser")],
        details: vec![line(removed), line(restored)],
        warning: vec![marked],
    });
    let shown = lines.iter().map(text_of).collect::<Vec<_>>();
    assert_eq!(shown[0], "Rewind");
    assert_eq!(
        shown[1],
        "Confirm you want to restore to the point before you sent this message:"
    );
    assert!(shown[2].ends_with("change the parser"));
    assert_eq!(shown[4], removed);
    assert_eq!(shown[5], restored);
    assert!(shown[7].contains("Restore code and conversation"));
    assert!(shown[10].contains("Never mind"));
    assert_eq!(shown[12], format!("⚠ {warning}"));
    assert_eq!(shown.len(), 13);
}

#[test]
fn pickers_are_divided_into_their_parts() {
    assert_eq!(
        picker_areas(area(1, 20)),
        PickerAreas {
            title: area(1, 1),
            subtitle: area(2, 1),
            list: area(4, 17),
            above: area(4, 1),
            rows: area(5, 15),
            below: area(20, 1),
        }
    );
    assert_eq!(picker_areas(area(7, 5)).rows, area(11, 0));
    assert_eq!(picker_areas(area(7, 3)).list, area(10, 0));
    assert_eq!(view_areas(area(0, 10)), Some((area(0, 9), area(9, 1))));
    assert_eq!(view_areas(area(4, 1)), Some((area(4, 0), area(4, 1))));
    assert_eq!(view_areas(area(4, 0)), None);
}

#[test]
fn pickers_end_with_their_hints() {
    let nothing = || WrappedRestoreText {
        intro: vec![],
        prompt: vec![],
        details: vec![],
        warning: vec![],
    };
    let mut prompts = five_prompts();
    assert_eq!(prompts.cancel_label(), "to cancel");
    let (content, footer) = view_areas(area(0, 22)).expect("areas");
    let hint = line("Press enter to continue or esc to cancel");
    let lines = prompts.render(content, footer, &hint, nothing());
    assert_eq!(
        lines.len(),
        prompts.render_prompt_picker(content).len() + 1
    );
    let last = lines.last().expect("hints");
    assert_eq!((last.area.x, last.area.y, last.area.width), (4, 21, 66));
    assert!(last.line.spans.iter().all(|span| span.style.dim));
    assert!(matches!(prompts.on_ctrl_c(), RewindAction::CancelBacktrackRestore));
    assert_eq!(prompts.completion(), Some(ViewCompletion::Cancelled));

    let restore = RewindView::new(
        RewindViewKind::Restore {
            prompt: "prompt".to_string(),
            options: vec![option("Never mind", &[])],
            warning: line("warning"),
        },
        RewindAction::BacktrackRestoreBack,
    );
    assert_eq!(restore.cancel_label(), "to go back");
    // Lines below the area are not drawn.
    let lines = restore.render(area(3, 4), footer, &hint, nothing());
    let shown = lines
        .iter()
        .map(|placed| (placed.area.y, text_of(&placed.line)))
        .collect::<Vec<_>>();
    assert_eq!(shown.len(), 5);
    assert_eq!(shown[0], (3, "Rewind".to_string()));
    assert_eq!(shown[3], (6, "❯ 1. Never mind".to_string()));
}
