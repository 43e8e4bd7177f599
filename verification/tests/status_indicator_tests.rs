use codex_session::status_indicator::{
    fmt_bytes, fmt_elapsed_compact, HookWidths, ModelTransferPhase, ModelTransferStatus,
    StatusDetailsCapitalization, StatusFrame, StatusIndicatorWidget, StatusRow,
    STATUS_DETAILS_DEFAULT_MAX_LINES,
};
use codex_session::styled::{dim, plain, StyledLine, StyledSpan, Tint};
use unicode_width::UnicodeWidthStr;

const SECOND: u64 = 1_000_000_000;

fn text_of(line: &StyledLine) -> String {
    line.spans.iter().map(|span| span.content.as_str()).collect()
}

fn frame(header: &str) -> StatusFrame {
    StatusFrame {
        now: 1_000 * SECOND,
        elapsed_secs: 0,
        indicator: None,
        shimmer: vec![StyledSpan {
            content: header.to_string(),
            style: plain(),
        }],
        highlighted: 0,
    }
}

fn widths(widget: &StatusIndicatorWidget, frame: &StatusFrame) -> HookWidths {
    HookWidths {
        header: text_of(&widget.header_line(frame)).width(),
        separator: 3,
        message: widget
            .hook_status_message
            .as_deref()
            .map_or(0, |message| message.width()),
    }
}

fn rows(widget: &StatusIndicatorWidget, frame: &StatusFrame, width: u16) -> Vec<StatusRow> {
    let details = match &widget.details {
        Some(details) => wrapped(&[details.as_str()]),
        None => Vec::new(),
    };
    let details = widget.wrapped_details_lines(details, width);
    widget.lines(frame, widths(widget, frame), details, width)
}

fn wrapped(lines: &[&str]) -> Vec<StyledLine> {
    lines
        .iter()
        .enumerate()
        .map(|(index, text)| StyledLine {
            spans: vec![
                StyledSpan {
                    content: if index == 0 { "  └ " } else { "    " }.to_string(),
                    style: dim(),
                },
                StyledSpan {
                    content: text.to_string(),
                    style: dim(),
                },
            ],
        })
        .collect()
}

#[test]
fn fmt_elapsed_compact_formats_seconds_minutes_hours() {
    assert_eq!(fmt_elapsed_compact(0), "0s");
    assert_eq!(fmt_elapsed_compact(1), "1s");
    assert_eq!(fmt_elapsed_compact(59), "59s");
    assert_eq!(fmt_elapsed_compact(60), "1m 00s");
    assert_eq!(fmt_elapsed_compact(61), "1m 01s");
    assert_eq!(fmt_elapsed_compact(3 * 60 + 5), "3m 05s");
    assert_eq!(fmt_elapsed_compact(59 * 60 + 59), "59m 59s");
    assert_eq!(fmt_elapsed_compact(3600), "1h 00m 00s");
    assert_eq!(fmt_elapsed_compact(3600 + 60 + 1), "1h 01m 01s");
    assert_eq!(fmt_elapsed_compact(25 * 3600 + 2 * 60 + 3), "25h 02m 03s");
}

#[test]
fn bytes_are_formatted_by_unit() {
    assert_eq!(fmt_bytes(0), "0 B");
    assert_eq!(fmt_bytes(1023), "1023 B");
    assert_eq!(fmt_bytes(1024), "1.000 KiB");
    assert_eq!(fmt_bytes(1536), "1.050 KiB");
    assert_eq!(fmt_bytes(1024 * 1024 - 1), "1023.099 KiB");
    assert_eq!(fmt_bytes(1024 * 1024), "1.000 MiB");
}

#[test]
fn renders_with_working_header() {
    let widget = StatusIndicatorWidget::new(true);
    let mut frame = frame("Working");
    frame.indicator = Some(plain());
    let rows = rows(&widget, &frame, 80);
    assert_eq!(rows.len(), 1);
    assert_eq!(text_of(&rows[0].line), "● Working (0s)");
    assert_eq!(widget.refresh_interval_ms(false), Some(32));
}

#[test]
fn renders_receiving_transfer_progress() {
    let mut widget = StatusIndicatorWidget::new(false);
    widget.update_model_transfer(Some(ModelTransferStatus {
        phase: ModelTransferPhase::Receiving,
        sent_bytes: 2048,
        received_bytes: 1024 * 1024,
    }));
    let rows = rows(&widget, &frame("Working"), 80);
    assert_eq!(
        text_of(&rows[0].line),
        "Working (0s • ↑ 2.000 KiB ↓ 1.000 MiB)"
    );
    assert!(rows[0]
        .line
        .spans
        .iter()
        .any(|span| span.content.starts_with('↓') && span.style.bold));
    assert!(rows[0]
        .line
        .spans
        .iter()
        .any(|span| span.content.starts_with('↑') && span.style.dim));
}

#[test]
fn renders_truncated() {
    let widget = StatusIndicatorWidget::new(true);
    let mut frame = frame("Working");
    frame.indicator = Some(plain());
    let rows = rows(&widget, &frame, 20);
    assert_eq!(rows.len(), 1);
    assert!(rows[0].truncate);
}

#[test]
fn renders_wrapped_details_panama_two_lines() {
    let mut widget = StatusIndicatorWidget::new(false);
    widget.update_details(
        Some("A man a plan a canal panama".to_string()),
        StatusDetailsCapitalization::CapitalizeFirst,
        STATUS_DETAILS_DEFAULT_MAX_LINES,
    );
    let details = widget.wrapped_details_lines(wrapped(&["A man a plan a canal", "panama"]), 30);
    let frame = frame("Working");
    let rows = widget.lines(&frame, widths(&widget, &frame), details, 30);
    assert_eq!(
        rows.iter().map(|row| text_of(&row.line)).collect::<Vec<_>>(),
        vec![
            "Working (0s)",
            "  └ A man a plan a canal",
            "    panama"
        ]
    );
}

#[test]
fn renders_without_spinner_when_animations_disabled() {
    let widget = StatusIndicatorWidget::new(false);
    let rows = rows(&widget, &frame("Working"), 80);
    assert!(text_of(&rows[0].line).starts_with("Working (0s)"));
    assert_eq!(widget.refresh_interval_ms(false), None);
    assert_eq!(widget.refresh_interval_ms(true), Some(1_000));
}

#[test]
fn renders_waiting_header_in_yellow() {
    let mut widget = StatusIndicatorWidget::new(false);
    widget.update_header("Waiting".to_string());
    let rows = rows(&widget, &frame("Waiting"), 80);
    let first = &rows[0].line.spans[0];
    assert_eq!(first.content, "W");
    assert_eq!(first.style.tint, Tint::Yellow);
    assert_eq!(text_of(&rows[0].line), "Waiting (0s)");
}

#[test]
fn renders_api_error_with_waiting_animation_in_light_red() {
    let mut widget = StatusIndicatorWidget::new(false);
    let header = "Reconnecting... 1/5";
    let mut frame = frame(header);
    widget.update_header(header.to_string());
    widget.reset_api_error_animation(10 * SECOND, frame.now);
    widget.waiting_animation_started_at = Some(frame.now - 5 * SECOND);
    frame.highlighted = 10;

    let line = widget.header_line(&frame);
    let styles = line
        .spans
        .iter()
        .take(header.chars().count())
        .map(|span| span.style)
        .collect::<Vec<_>>();
    assert!(styles.iter().all(|style| style.tint == Tint::LightRed));
    assert!(styles.iter().all(|style| !style.bold));
    assert!(!styles[9].dim);
    assert!(styles.last().expect("header style").dim);

    widget.update_header("Working".to_string());
    assert!(!widget.api_error);
    assert_eq!(widget.waiting_animation_started_at, None);
}

#[test]
fn waiting_animation_expiry_restores_regular_status_rendering() {
    let mut widget = StatusIndicatorWidget::new(false);
    widget.update_header("Waiting for terminal".to_string());
    let frame = frame("Waiting for terminal");
    widget.waiting_animation_duration = SECOND;
    widget.waiting_animation_started_at = Some(frame.now - 2 * SECOND);

    let line = widget.header_line(&frame);
    assert_eq!(text_of(&line), "Waiting for terminal (0s)");
    assert!(line.spans[0].content.starts_with('W'));
    assert_eq!(line.spans[0].style.tint, Tint::Plain);
}

#[test]
fn terminal_wait_counter_and_animation_share_two_minute_deadline() {
    let mut widget = StatusIndicatorWidget::new(false);
    let mut frame = frame("Waiting for terminal");
    widget.update_header("Waiting for terminal".to_string());
    widget.reset_waiting_animation(120 * SECOND, frame.now);
    widget.waiting_animation_started_at = Some(frame.now - 60 * SECOND);
    frame.highlighted = 10;
    let line = widget.header_line(&frame);
    assert_eq!(line.spans[0].style.tint, Tint::Yellow);

    frame.now += 60 * SECOND;
    let line = widget.header_line(&frame);
    assert_eq!(line.spans[0].style.tint, Tint::Plain);
}

#[test]
fn hook_status_reflows_without_displacing_status_or_details() {
    let mut widget = StatusIndicatorWidget::new(false);
    widget.update_hook_status_message(Some("checking 日本語 ｶﾞﾊﾟ policy".to_string()));
    widget.update_details(
        Some("existing details".to_string()),
        StatusDetailsCapitalization::Preserve,
        STATUS_DETAILS_DEFAULT_MAX_LINES,
    );
    let frame = frame("Working");
    let expected = "Working (0s) · checking 日本語 ｶﾞﾊﾟ policy";
    let fit_width = expected.width() as u16;
    for width in [fit_width, fit_width - 1, 24, fit_width] {
        let rows = rows(&widget, &frame, width);
        assert_eq!(rows.len(), if width >= fit_width { 2 } else { 3 });
        assert!(text_of(&rows[0].line).starts_with("Working (0s)"));
        assert_eq!(
            text_of(&rows.last().expect("details").line),
            "  └ existing details"
        );
        if width >= fit_width {
            assert_eq!(text_of(&rows[0].line), expected);
        } else {
            assert_eq!(text_of(&rows[1].line), "  └ checking 日本語 ｶﾞﾊﾟ policy");
        }
    }
}

#[test]
fn details_overflow_adds_ellipsis() {
    let mut widget = StatusIndicatorWidget::new(true);
    widget.update_details(
        Some("abcd abcd abcd abcd".to_string()),
        StatusDetailsCapitalization::CapitalizeFirst,
        STATUS_DETAILS_DEFAULT_MAX_LINES,
    );
    assert_eq!(widget.details.as_deref(), Some("Abcd abcd abcd abcd"));

    let lines = widget.wrapped_details_lines(
        wrapped(&["Ab", "cd", "ab", "cd", "ab", "cd", "ab", "cd"]),
        6,
    );
    assert_eq!(lines.len(), STATUS_DETAILS_DEFAULT_MAX_LINES);
    let last = lines.last().expect("expected last details line");
    assert_eq!(last.spans[1].content, "a…");
}

#[test]
fn details_args_can_disable_capitalization_and_limit_lines() {
    let mut widget = StatusIndicatorWidget::new(true);
    let text = "cargo test -p codex-core and then cargo test -p codex-tui";
    widget.update_details(
        Some(text.to_string()),
        StatusDetailsCapitalization::Preserve,
        1,
    );
    assert_eq!(widget.details.as_deref(), Some(text));

    let lines = widget.wrapped_details_lines(
        wrapped(&["cargo test -p", "codex-core and then", "cargo test -p", "codex-tui"]),
        24,
    );
    assert_eq!(lines.len(), 1);
    let last = lines.last().expect("expected one details line");
    assert!(last
        .spans
        .last()
        .is_some_and(|span| span.content.contains('…')));
}

#[test]
fn details_lose_leading_white_space_and_gain_a_capital() {
    let mut widget = StatusIndicatorWidget::new(false);
    widget.update_details(
        Some("  ßtraße".to_string()),
        StatusDetailsCapitalization::CapitalizeFirst,
        2,
    );
    assert_eq!(widget.details.as_deref(), Some("SStraße"));
    widget.update_details(
        Some(String::new()),
        StatusDetailsCapitalization::CapitalizeFirst,
        2,
    );
    assert_eq!(widget.details, None);
}

#[test]
fn elapsed_texts_tell_seconds_apart() {
    let texts = (0..8_000).map(fmt_elapsed_compact).collect::<Vec<_>>();
    for (secs, text) in texts.iter().enumerate() {
        let mut total: usize = 0;
        for part in text.split(' ') {
            let (number, unit) = part.split_at(part.len() - 1);
            let number: usize = number.parse().expect("number");
            total += number
                * match unit {
                    "h" => 3600,
                    "m" => 60,
                    _ => 1,
                };
        }
        assert_eq!(total, secs);
    }
}
