//! The status row above the composer while the agent is busy.

use crate::data::Data;
use crate::styled::{append_spans, bold, dim, plain, push_span, SpanStyle, StyledLine, StyledSpan, Tint};
use crate::styled::{span, span_of, tinted};
use crate::text::{capitalize_first, chars_of, concat2, push_decimal, same_text, starts_with};
use crate::text::{string_of_range, trim_start};
use crate::width::text_columns;
use vstd::prelude::*;

verus! {

/// How many lines of details are shown by default.
pub const STATUS_DETAILS_DEFAULT_MAX_LINES: usize = 3;

/// What stands before the first line of the details.
pub const DETAILS_PREFIX: &'static str = "  \u{2514} ";

/// A numeral with zeros in front, up to a number of digits.
pub open spec fn padded(n: nat, digits: nat) -> Seq<char>
    decreases digits,
{
    if crate::text::decimal(n).len() >= digits {
        crate::text::decimal(n)
    } else {
        Seq::new((digits - crate::text::decimal(n).len()) as nat, |i: int| '0')
            + crate::text::decimal(n)
    }
}

proof fn lemma_decimal_len(n: nat)
    ensures
        n < 10 ==> crate::text::decimal(n).len() == 1,
        10 <= n < 100 ==> crate::text::decimal(n).len() == 2,
{
    if 10 <= n < 100 {
        assert(crate::text::decimal(n / 10).len() == 1);
    }
}

fn push_padded2(s: &mut String, n: u64)
    requires
        n < 100,
    ensures
        final(s)@ == old(s)@ + padded(n as nat, 2),
{
    proof {
        lemma_decimal_len(n as nat);
    }
    let ghost before = s@;
    if n < 10 {
        s.push('0');
    }
    push_decimal(s, n);
    assert(s@ =~= before + padded(n as nat, 2));
}

fn push_padded3(s: &mut String, n: u64)
    requires
        n < 100,
    ensures
        final(s)@ == old(s)@ + padded(n as nat, 3),
{
    proof {
        lemma_decimal_len(n as nat);
    }
    let ghost before = s@;
    s.push('0');
    if n < 10 {
        s.push('0');
    }
    push_decimal(s, n);
    assert(s@ =~= before + padded(n as nat, 3));
}

/// Elapsed seconds in the compact form of the status row: `59s`, `1m 00s`, `2h 03m 09s`.
pub open spec fn elapsed_text(secs: nat) -> Seq<char> {
    if secs < 60 {
        crate::text::decimal(secs) + "s"@
    } else if secs < 3600 {
        crate::text::decimal(secs / 60) + "m "@ + padded(secs % 60, 2) + "s"@
    } else {
        crate::text::decimal(secs / 3600) + "h "@ + padded(secs % 3600 / 60, 2) + "m "@ + padded(
            secs % 60,
            2,
        ) + "s"@
    }
}

/// Elapsed seconds in the compact form of the status row: `59s`, `1m 00s`, `2h 03m 09s`.
pub fn fmt_elapsed_compact(elapsed_secs: u64) -> (r: String)
    ensures
        r@ == elapsed_text(elapsed_secs as nat),
{
    let mut s = String::new();
    if elapsed_secs < 60 {
        push_decimal(&mut s, elapsed_secs);
    } else if elapsed_secs < 3600 {
        push_decimal(&mut s, elapsed_secs / 60);
        s.append("m ");
        push_padded2(&mut s, elapsed_secs % 60);
    } else {
        push_decimal(&mut s, elapsed_secs / 3600);
        s.append("h ");
        push_padded2(&mut s, (elapsed_secs % 3600) / 60);
        s.append("m ");
        push_padded2(&mut s, elapsed_secs % 60);
    }
    s.append("s");
    assert(s@ =~= elapsed_text(elapsed_secs as nat));
    s
}

/// The hours, minutes and seconds that were read from a text, and the number read since.
pub ghost struct ClockReading {
    pub hours: nat,
    pub minutes: nat,
    pub seconds: nat,
    pub number: nat,
}

/// A reading with one more character: a digit continues the number, and a unit takes it.
pub open spec fn read_on(reading: ClockReading, c: char) -> ClockReading {
    if '0' <= c <= '9' {
        ClockReading { number: (reading.number * 10 + (c as int - '0' as int)) as nat, ..reading }
    } else if c == 'h' {
        ClockReading { hours: reading.number, number: 0, ..reading }
    } else if c == 'm' {
        ClockReading { minutes: reading.number, number: 0, ..reading }
    } else if c == 's' {
        ClockReading { seconds: reading.number, number: 0, ..reading }
    } else {
        reading
    }
}

/// The hours, minutes and seconds in a text; zero for those that are not there.
pub open spec fn read_clock(text: Seq<char>) -> ClockReading
    decreases text.len(),
{
    if text.len() == 0 {
        ClockReading { hours: 0, minutes: 0, seconds: 0, number: 0 }
    } else {
        read_on(read_clock(text.drop_last()), text.last())
    }
}

proof fn lemma_read_decimal(text: Seq<char>, n: nat)
    requires
        read_clock(text).number == 0,
    ensures
        read_clock(text + crate::text::decimal(n)) == (ClockReading {
            number: n,
            ..read_clock(text)
        }),
    decreases n,
{
    let all = text + crate::text::decimal(n);
    assert(all.last() == crate::text::digit(n));
    if n < 10 {
        assert(all.drop_last() =~= text);
    } else {
        lemma_read_decimal(text, n / 10);
        assert(all.drop_last() =~= text + crate::text::decimal(n / 10));
    }
}

proof fn lemma_read_padded(text: Seq<char>, n: nat)
    requires
        n < 100,
        read_clock(text).number == 0,
    ensures
        read_clock(text + padded(n, 2)) == (ClockReading { number: n, ..read_clock(text) }),
{
    lemma_decimal_len(n);
    if n < 10 {
        let zero = text.push('0');
        assert(zero.drop_last() =~= text);
        lemma_read_decimal(zero, n);
        assert(text + padded(n, 2) =~= zero + crate::text::decimal(n));
    } else {
        lemma_read_decimal(text, n);
    }
}

proof fn lemma_read_unit(text: Seq<char>, unit: Seq<char>)
    requires
        unit == "h "@ || unit == "m "@ || unit == "s"@,
    ensures
        unit == "h "@ ==> read_clock(text + unit) == (ClockReading {
            hours: read_clock(text).number,
            number: 0,
            ..read_clock(text)
        }),
        unit == "m "@ ==> read_clock(text + unit) == (ClockReading {
            minutes: read_clock(text).number,
            number: 0,
            ..read_clock(text)
        }),
        unit == "s"@ ==> read_clock(text + unit) == (ClockReading {
            seconds: read_clock(text).number,
            number: 0,
            ..read_clock(text)
        }),
{
    reveal_strlit("h ");
    reveal_strlit("m ");
    reveal_strlit("s");
    let all = text + unit;
    if unit.len() == 1 {
        assert(all.drop_last() =~= text);
    } else {
        let most = text.push(unit[0]);
        assert(all.drop_last() =~= most);
        assert(most.drop_last() =~= text);
        assert(read_clock(most) == read_on(read_clock(text), unit[0]));
        assert(read_clock(all) == read_on(read_clock(most), ' '));
    }
}

/// The parts of a number of seconds make it up.
proof fn lemma_clock_parts(secs: nat)
    ensures
        3600 * (secs / 3600) + 60 * (secs % 3600 / 60) + secs % 60 == secs,
        secs < 3600 ==> 60 * (secs / 60) + secs % 60 == secs,
        secs < 3600 ==> secs / 60 < 60,
        secs % 3600 / 60 < 60,
{
    let rest = secs % 3600;
    assert(rest % 60 == secs % 60) by {
        vstd::arithmetic::div_mod::lemma_mod_mod(secs as int, 60, 60);
    }
    assert(secs == 3600 * (secs / 3600) + rest);
    assert(rest == 60 * (rest / 60) + rest % 60);
}

/// A numeral in full and its unit.
proof fn lemma_read_amount(text: Seq<char>, n: nat, unit: Seq<char>)
    requires
        read_clock(text).number == 0,
        unit == "h "@ || unit == "m "@ || unit == "s"@,
    ensures
        read_clock(text + crate::text::decimal(n) + unit) == with_unit(read_clock(text), n, unit),
{
    lemma_read_decimal(text, n);
    lemma_read_unit(text + crate::text::decimal(n), unit);
    lemma_units_differ();
}

/// A numeral of two digits and its unit.
proof fn lemma_read_padded_amount(text: Seq<char>, n: nat, unit: Seq<char>)
    requires
        n < 100,
        read_clock(text).number == 0,
        unit == "h "@ || unit == "m "@ || unit == "s"@,
    ensures
        read_clock(text + padded(n, 2) + unit) == with_unit(read_clock(text), n, unit),
{
    lemma_read_padded(text, n);
    lemma_read_unit(text + padded(n, 2), unit);
    lemma_units_differ();
}

proof fn lemma_units_differ()
    ensures
        "h "@ != "m "@,
        "h "@ != "s"@,
        "m "@ != "s"@,
{
    reveal_strlit("h ");
    reveal_strlit("m ");
    reveal_strlit("s");
    assert("h "@[0] != "m "@[0]);
    assert("h "@.len() != "s"@.len());
    assert("m "@.len() != "s"@.len());
}

/// A reading with an amount of a unit.
spec fn with_unit(reading: ClockReading, n: nat, unit: Seq<char>) -> ClockReading {
    if unit == "h "@ {
        ClockReading { hours: n, ..reading }
    } else if unit == "m "@ {
        ClockReading { minutes: n, ..reading }
    } else {
        ClockReading { seconds: n, ..reading }
    }
}

/// The elapsed text can be read back: its hours, minutes and seconds are those of the seconds,
/// with fewer than 60 minutes and fewer than 60 seconds.
pub proof fn elapsed_text_can_be_read_back(secs: nat)
    ensures
        ({
            let read = read_clock(elapsed_text(secs));
            &&& 3600 * read.hours + 60 * read.minutes + read.seconds == secs
            &&& read.minutes < 60
            &&& read.seconds < 60
        }),
{
    let empty = Seq::<char>::empty();
    lemma_clock_parts(secs);
    lemma_units_differ();
    if secs < 60 {
        lemma_read_amount(empty, secs, "s"@);
        assert(empty + crate::text::decimal(secs) + "s"@ =~= elapsed_text(secs));
    } else if secs < 3600 {
        lemma_read_amount(empty, secs / 60, "m "@);
        let minutes = empty + crate::text::decimal(secs / 60) + "m "@;
        lemma_read_padded_amount(minutes, secs % 60, "s"@);
        assert(minutes + padded(secs % 60, 2) + "s"@ =~= elapsed_text(secs));
    } else {
        lemma_read_amount(empty, secs / 3600, "h "@);
        let hours = empty + crate::text::decimal(secs / 3600) + "h "@;
        lemma_read_padded_amount(hours, secs % 3600 / 60, "m "@);
        let minutes = hours + padded(secs % 3600 / 60, 2) + "m "@;
        lemma_read_padded_amount(minutes, secs % 60, "s"@);
        assert(minutes + padded(secs % 60, 2) + "s"@ =~= elapsed_text(secs));
    }
}

/// The elapsed text tells the seconds apart: two equal texts come from equal seconds.
pub proof fn elapsed_text_determines_the_seconds(a: nat, b: nat)
    requires
        elapsed_text(a) == elapsed_text(b),
    ensures
        a == b,
{
    elapsed_text_can_be_read_back(a);
    elapsed_text_can_be_read_back(b);
}

/// A number of bytes: below one KiB as it is, above in KiB or MiB with the hundredths, rounded
/// down, in three digits.
pub open spec fn bytes_text(bytes: nat) -> Seq<char> {
    if bytes < 1024 {
        crate::text::decimal(bytes) + " B"@
    } else if bytes < 1_048_576 {
        crate::text::decimal(bytes / 1024) + "."@ + padded(bytes % 1024 * 100 / 1024, 3) + " KiB"@
    } else {
        crate::text::decimal(bytes / 1_048_576) + "."@ + padded(
            bytes % 1_048_576 * 100 / 1_048_576,
            3,
        ) + " MiB"@
    }
}

/// A number of bytes in bytes, KiB or MiB.
pub fn fmt_bytes(bytes: u64) -> (r: String)
    ensures
        r@ == bytes_text(bytes as nat),
{
    let mut s = String::new();
    if bytes < 1024 {
        push_decimal(&mut s, bytes);
        s.append(" B");
    } else if bytes < 1_048_576 {
        push_decimal(&mut s, bytes / 1024);
        s.append(".");
        push_padded3(&mut s, bytes % 1024 * 100 / 1024);
        s.append(" KiB");
    } else {
        push_decimal(&mut s, bytes / 1_048_576);
        s.append(".");
        push_padded3(&mut s, bytes % 1_048_576 * 100 / 1_048_576);
        s.append(" MiB");
    }
    assert(s@ =~= bytes_text(bytes as nat));
    s
}


/// Whether the details keep their first character.
#[derive(Clone, Copy, Debug, PartialEq, Eq, Structural)]
pub enum StatusDetailsCapitalization {
    CapitalizeFirst,
    Preserve,
}

/// Which way data goes between the agent and the model.
#[derive(Clone, Copy, Debug, PartialEq, Eq, Structural)]
pub enum ModelTransferPhase {
    Sending,
    Receiving,
}

/// How much data went between the agent and the model.
#[derive(Clone, Copy, Debug, PartialEq, Eq, Structural)]
pub struct ModelTransferStatus {
    pub phase: ModelTransferPhase,
    pub sent_bytes: u64,
    pub received_bytes: u64,
}

/// The status row and the details below it. Times are nanoseconds since some fixed moment.
#[derive(Debug)]
pub struct StatusIndicatorWidget {
    pub header: String,
    pub details: Option<String>,
    pub details_max_lines: usize,
    pub model_transfer: Option<ModelTransferStatus>,
    pub hook_status_message: Option<String>,
    pub animations_enabled: bool,
    pub waiting_animation_started_at: Option<u64>,
    pub waiting_animation_duration: u64,
    pub api_error: bool,
}

/// Whether a header says that the agent waits.
pub open spec fn says_waiting(header: Seq<char>) -> bool {
    header == "Waiting"@ || crate::text::has_prefix(header, "Waiting "@)
}

/// What the details show of a text: nothing of an empty one, else the text without the white
/// space at its beginning.
pub open spec fn shown_details(
    details: Option<Seq<char>>,
    capitalization: StatusDetailsCapitalization,
) -> Option<Seq<char>> {
    match details {
        None => None,
        Some(details) => if details.len() == 0 {
            None
        } else {
            match capitalization {
                StatusDetailsCapitalization::CapitalizeFirst => Some(
                    crate::text::capitalized(crate::text::trimmed_start(details)),
                ),
                StatusDetailsCapitalization::Preserve => Some(
                    crate::text::trimmed_start(details),
                ),
            }
        },
    }
}

/// What one frame of the row depends on besides the row itself.
pub struct StatusFrame {
    /// The time of the frame.
    pub now: u64,
    /// The seconds on the clock of the row.
    pub elapsed_secs: u64,
    /// The style of the activity indicator, where it is shown.
    pub indicator: Option<SpanStyle>,
    /// The header as the regular animation shows it.
    pub shimmer: Vec<StyledSpan>,
    /// How many characters of the header the attention animation has lit.
    pub highlighted: usize,
}

/// A row of the status, and whether it is cut with an ellipsis where it is too wide.
pub struct StatusRow {
    pub line: StyledLine,
    pub truncate: bool,
}

impl DeepView for StatusRow {
    type V = (Seq<(Seq<char>, SpanStyle)>, bool);

    open spec fn deep_view(&self) -> Self::V {
        (self.line.deep_view(), self.truncate)
    }
}

/// Whether the header draws attention: the agent waits or met an error of the service, and the
/// animation has not run its time.
pub open spec fn attention(row: StatusIndicatorWidget, now: u64) -> bool {
    &&& says_waiting(row.header@) || row.api_error
    &&& match row.waiting_animation_started_at {
        None => true,
        Some(started) => crate::geometry::monus(now as int, started as int)
            < row.waiting_animation_duration,
    }
}

/// The colour in which the header draws attention.
pub open spec fn attention_tint(row: StatusIndicatorWidget) -> Tint {
    if row.api_error {
        Tint::LightRed
    } else {
        Tint::Yellow
    }
}

/// A header that draws attention: one piece per character, dimmed where it is not lit yet.
pub open spec fn attention_spans(header: Seq<char>, highlighted: int, tint: Tint) -> Seq<
    (Seq<char>, SpanStyle),
> {
    Seq::new(
        header.len(),
        |i: int|
            (
                seq![header[i]],
                (SpanStyle { tint, bold: false, dim: i >= highlighted, italic: false }),
            ),
    )
}

/// The activity indicator and the header.
pub open spec fn head_spans(row: StatusIndicatorWidget, frame: StatusFrame) -> Seq<
    (Seq<char>, SpanStyle),
> {
    let active = attention(row, frame.now);
    let mark = match frame.indicator {
        None => Seq::empty(),
        Some(style) => seq![
            (
                "\u{25cf}"@,
                if active || row.api_error {
                    SpanStyle { tint: attention_tint(row), ..style }
                } else {
                    style
                },
            ),
            (" "@, plain()),
        ],
    };
    mark + if active {
        attention_spans(row.header@, frame.highlighted as int, attention_tint(row))
    } else if row.api_error {
        seq![(row.header@, tinted(Tint::LightRed))]
    } else {
        frame.shimmer.deep_view()
    }
}

/// The clock and the amounts of data.
pub open spec fn clock_spans(elapsed_secs: u64, transfer: Option<ModelTransferStatus>) -> Seq<
    (Seq<char>, SpanStyle),
> {
    let clock = seq![("("@ + elapsed_text(elapsed_secs as nat), dim())];
    match transfer {
        None => clock.push((")"@, dim())),
        Some(status) => clock + seq![
            (" \u{2022} "@, dim()),
            (
                "\u{2191} "@ + bytes_text(status.sent_bytes as nat),
                if status.phase == ModelTransferPhase::Sending {
                    bold()
                } else {
                    dim()
                },
            ),
            (" "@, dim()),
            (
                "\u{2193} "@ + bytes_text(status.received_bytes as nat),
                if status.phase == ModelTransferPhase::Receiving {
                    bold()
                } else {
                    dim()
                },
            ),
            (")"@, dim()),
        ],
    }
}

/// The status row without the hook's message.
pub open spec fn header_spans(row: StatusIndicatorWidget, frame: StatusFrame) -> Seq<
    (Seq<char>, SpanStyle),
> {
    let head = head_spans(row, frame);
    (if head.len() == 0 {
        head
    } else {
        head.push((" "@, plain()))
    }) + clock_spans(frame.elapsed_secs, row.model_transfer)
}

/// The widths that decide where a hook's message goes, in columns.
#[derive(Clone, Copy, Debug, PartialEq, Eq, Structural)]
pub struct HookWidths {
    pub header: usize,
    pub separator: usize,
    pub message: usize,
}

/// Whether a hook's message fits on the status row.
pub open spec fn hook_fits(widths: HookWidths, width: u16) -> bool {
    widths.header + widths.separator + widths.message <= width
}

/// The rows of the status: the status row, a hook's message on it where it fits and below it
/// where it does not, and the details.
pub open spec fn status_rows(
    header: Seq<(Seq<char>, SpanStyle)>,
    hook: Option<Seq<char>>,
    widths: HookWidths,
    width: u16,
    details: Seq<Seq<(Seq<char>, SpanStyle)>>,
) -> Seq<(Seq<(Seq<char>, SpanStyle)>, bool)> {
    (match hook {
        None => seq![(header, true)],
        Some(message) => if hook_fits(widths, width) {
            seq![(header + seq![(" \u{b7} "@, dim()), (message, dim())], true)]
        } else {
            seq![
                (header, true),
                (seq![(DETAILS_PREFIX@, dim()), (message, dim())], true),
            ]
        },
    }) + details.map_values(|line: Seq<(Seq<char>, SpanStyle)>| (line, false))
}

/// Wrapped details, at most `max_lines` of them. Where some are left out, the last line that
/// stays ends in an ellipsis.
pub open spec fn limited(
    wrapped: Seq<Seq<(Seq<char>, SpanStyle)>>,
    max_lines: int,
    width: int,
    prefix_width: int,
) -> Seq<Seq<(Seq<char>, SpanStyle)>> {
    if wrapped.len() <= max_lines {
        wrapped
    } else {
        let kept = wrapped.take(max_lines);
        if kept.len() == 0 || kept.last().len() == 0 {
            kept
        } else {
            let last = kept.last();
            kept.update(
                kept.len() - 1,
                last.update(last.len() - 1, (shortened(last.last().0, width, prefix_width), dim())),
            )
        }
    }
}

/// A text cut so that it and an ellipsis take at most the room beside the prefix.
pub open spec fn shortened(text: Seq<char>, width: int, prefix_width: int) -> Seq<char> {
    let room = crate::geometry::max_of(crate::geometry::monus(width, prefix_width), 1) - 1;
    (if room <= text.len() {
        text.take(room)
    } else {
        text
    }) + "\u{2026}"@
}

/// Wrapped details, at most `max_lines` of them, for a width and a prefix of `prefix_width`
/// columns.
pub fn limit_details(
    wrapped: Vec<StyledLine>,
    max_lines: usize,
    width: u16,
    prefix_width: usize,
) -> (lines: Vec<StyledLine>)
    ensures
        lines.deep_view() == limited(
            wrapped.deep_view(),
            max_lines as int,
            width as int,
            prefix_width as int,
        ),
{
    let ghost all = wrapped.deep_view();
    let mut lines = wrapped;
    if lines.len() <= max_lines {
        return lines;
    }
    lines.truncate(max_lines);
    let ghost kept = all.take(max_lines as int);
    assert(lines.deep_view() =~= kept);
    let len: usize = lines.len();
    if len == 0 {
        return lines;
    }
    assert(kept.last() == lines@[len - 1].deep_view());
    let count: usize = lines[len - 1].spans.len();
    if count == 0 {
        return lines;
    }
    let columns: usize = width as usize;
    let content: usize = if columns >= prefix_width {
        columns - prefix_width
    } else {
        0
    };
    let room: usize = if content >= 1 {
        content - 1
    } else {
        0
    };
    let text = chars_of(lines[len - 1].spans[count - 1].content.as_str());
    let end: usize = if room <= text.len() {
        room
    } else {
        text.len()
    };
    let cut = string_of_range(&text, 0, end);
    assert(kept.last().last() == lines@[len - 1].spans@[count - 1].deep_view());
    assert(text@.subrange(0, text@.len() as int) =~= text@);
    let replaced = span_of(concat2(cut.as_str(), "\u{2026}"), dim());
    let ghost last = kept.last();
    lines[len - 1].spans.set(count - 1, replaced);
    proof {
        assert(lines@[len - 1].deep_view() =~= last.update(count - 1, replaced.deep_view()));
        assert(lines.deep_view() =~= kept.update(len - 1, lines@[len - 1].deep_view()));
    }
    lines
}

fn attention_header_spans(header: &str, highlighted: usize, tint: Tint) -> (spans: Vec<StyledSpan>)
    ensures
        spans.deep_view() == attention_spans(header@, highlighted as int, tint),
{
    let chars = chars_of(header);
    let mut spans: Vec<StyledSpan> = Vec::new();
    let mut i: usize = 0;
    while i < chars.len()
        invariant
            chars@ == header@,
            i <= chars@.len(),
            spans@.len() == i,
            forall|k: int|
                0 <= k < i ==> (#[trigger] spans@[k]).deep_view() == (
                    seq![header@[k]],
                    (SpanStyle { tint, bold: false, dim: k >= highlighted, italic: false }),
                ),
        decreases chars@.len() - i,
    {
        let text = string_of_range(&chars, i, i + 1);
        assert(text@ =~= seq![header@[i as int]]);
        spans.push(
            span_of(
                text,
                SpanStyle { tint, bold: false, dim: i >= highlighted, italic: false },
            ),
        );
        i += 1;
    }
    assert(spans.deep_view() =~= attention_spans(header@, highlighted as int, tint));
    spans
}

/// The clock and the amounts of data.
fn clock(elapsed_secs: u64, transfer: Option<ModelTransferStatus>) -> (spans: Vec<StyledSpan>)
    ensures
        spans.deep_view() == clock_spans(elapsed_secs, transfer),
{
    let mut spans: Vec<StyledSpan> = Vec::new();
    assert(spans.deep_view() =~= Seq::empty());
    let elapsed = fmt_elapsed_compact(elapsed_secs);
    push_span(&mut spans, concat2("(", elapsed.as_str()).as_str(), dim());
    if let Some(status) = transfer {
        let sent = fmt_bytes(status.sent_bytes);
        let received = fmt_bytes(status.received_bytes);
        let sending = status.phase == ModelTransferPhase::Sending;
        push_span(&mut spans, " \u{2022} ", dim());
        push_span(
            &mut spans,
            concat2("\u{2191} ", sent.as_str()).as_str(),
            if sending {
                bold()
            } else {
                dim()
            },
        );
        push_span(&mut spans, " ", dim());
        push_span(
            &mut spans,
            concat2("\u{2193} ", received.as_str()).as_str(),
            if sending {
                dim()
            } else {
                bold()
            },
        );
    }
    push_span(&mut spans, ")", dim());
    assert(spans.deep_view() =~= clock_spans(elapsed_secs, transfer));
    spans
}

impl StatusIndicatorWidget {
    /// A row that says that the agent works.
    pub fn new(animations_enabled: bool) -> (r: Self)
        ensures
            r.header@ == "Working"@,
            r.details is None,
            r.details_max_lines == STATUS_DETAILS_DEFAULT_MAX_LINES,
            r.model_transfer is None,
            r.hook_status_message is None,
            r.animations_enabled == animations_enabled,
            r.waiting_animation_started_at is None,
            r.waiting_animation_duration == 30_000_000_000,
            !r.api_error,
    {
        StatusIndicatorWidget {
            header: "Working".to_owned(),
            details: None,
            details_max_lines: STATUS_DETAILS_DEFAULT_MAX_LINES,
            model_transfer: None,
            hook_status_message: None,
            animations_enabled,
            waiting_animation_started_at: None,
            waiting_animation_duration: 30_000_000_000,
            api_error: false,
        }
    }

    /// Gives the row a new header. An error of the service is over; an animation goes on only
    /// where the new header says that the agent waits.
    pub fn update_header(&mut self, header: String)
        ensures
            *final(self) == (StatusIndicatorWidget {
                header,
                api_error: false,
                waiting_animation_started_at: if says_waiting(header@) {
                    old(self).waiting_animation_started_at
                } else {
                    None
                },
                ..*old(self)
            }),
    {
        self.api_error = false;
        if !same_text(header.as_str(), "Waiting") && !starts_with(header.as_str(), "Waiting ") {
            self.waiting_animation_started_at = None;
        }
        self.header = header;
    }

    /// Starts the animation of a header that says that the agent waits.
    pub fn reset_waiting_animation(&mut self, duration: u64, now: u64)
        ensures
            *final(self) == (StatusIndicatorWidget {
                waiting_animation_duration: duration,
                waiting_animation_started_at: Some(now),
                ..*old(self)
            }),
    {
        self.waiting_animation_duration = duration;
        self.waiting_animation_started_at = Some(now);
    }

    /// Starts the animation of a header that tells of an error of the service.
    pub fn reset_api_error_animation(&mut self, duration: u64, now: u64)
        ensures
            *final(self) == (StatusIndicatorWidget {
                api_error: true,
                waiting_animation_duration: duration,
                waiting_animation_started_at: Some(now),
                ..*old(self)
            }),
    {
        self.api_error = true;
        self.waiting_animation_duration = duration;
        self.waiting_animation_started_at = Some(now);
    }

    /// Gives the row new details, of which at least one line and at most `max_lines` are shown.
    pub fn update_details(
        &mut self,
        details: Option<String>,
        capitalization: StatusDetailsCapitalization,
        max_lines: usize,
    )
        ensures
            final(self).details.deep_view() == shown_details(
                details.deep_view(),
                capitalization,
            ),
            *final(self) == (StatusIndicatorWidget {
                details: final(self).details,
                details_max_lines: if max_lines >= 1 {
                    max_lines
                } else {
                    1
                },
                ..*old(self)
            }),
    {
        self.details_max_lines = if max_lines >= 1 {
            max_lines
        } else {
            1
        };
        self.details =
        match details {
            Some(details) => {
                if details.as_str().is_empty() {
                    None
                } else {
                    let trimmed = trim_start(details.as_str());
                    Some(
                        match capitalization {
                            StatusDetailsCapitalization::CapitalizeFirst => capitalize_first(
                                trimmed.as_str(),
                            ),
                            StatusDetailsCapitalization::Preserve => trimmed,
                        },
                    )
                }
            },
            None => None,
        };
    }

    /// Gives the row new amounts of data.
    pub fn update_model_transfer(&mut self, status: Option<ModelTransferStatus>)
        ensures
            *final(self) == (StatusIndicatorWidget { model_transfer: status, ..*old(self) }),
    {
        self.model_transfer = status;
    }

    /// Gives the row a new message of a hook.
    pub fn update_hook_status_message(&mut self, message: Option<String>)
        ensures
            *final(self) == (StatusIndicatorWidget { hook_status_message: message, ..*old(self) }),
    {
        self.hook_status_message = message;
    }

    /// The lines of the details. `wrapped` holds the details wrapped to the width.
    pub fn wrapped_details_lines(&self, wrapped: Vec<StyledLine>, width: u16) -> (lines: Vec<
        StyledLine,
    >)
        ensures
            lines.deep_view() == (if self.details is None || width == 0 {
                Seq::empty()
            } else {
                limited(
                    wrapped.deep_view(),
                    self.details_max_lines as int,
                    width as int,
                    crate::width::columns(DETAILS_PREFIX@) as int,
                )
            }),
    {
        if self.details.is_none() || width == 0 {
            let lines: Vec<StyledLine> = Vec::new();
            assert(lines.deep_view() =~= Seq::empty());
            return lines;
        }
        let prefix_width: usize = text_columns(DETAILS_PREFIX);
        limit_details(wrapped, self.details_max_lines, width, prefix_width)
    }

    fn attention_active(&self, now: u64) -> (r: bool)
        ensures
            r == attention(*self, now),
    {
        let waiting = same_text(self.header.as_str(), "Waiting") || starts_with(
            self.header.as_str(),
            "Waiting ",
        );
        (waiting || self.api_error) && match self.waiting_animation_started_at {
            None => true,
            Some(started) => {
                let elapsed: u64 = if now >= started {
                    now - started
                } else {
                    0
                };
                elapsed < self.waiting_animation_duration
            },
        }
    }

    /// The activity indicator and the header.
    fn head(&self, frame: &StatusFrame) -> (spans: Vec<StyledSpan>)
        ensures
            spans.deep_view() == head_spans(*self, *frame),
    {
        let active = self.attention_active(frame.now);
        let tint = if self.api_error {
            Tint::LightRed
        } else {
            Tint::Yellow
        };
        let mut spans: Vec<StyledSpan> = Vec::new();
        assert(spans.deep_view() =~= Seq::empty());
        if let Some(style) = frame.indicator {
            let style = if active || self.api_error {
                SpanStyle { tint, bold: style.bold, dim: style.dim, italic: style.italic }
            } else {
                style
            };
            push_span(&mut spans, "\u{25cf}", style);
            push_span(&mut spans, " ", plain());
        }
        if active {
            let more = attention_header_spans(self.header.as_str(), frame.highlighted, tint);
            append_spans(&mut spans, more);
        } else if self.api_error {
            push_span(&mut spans, self.header.as_str(), tinted(Tint::LightRed));
        } else {
            append_spans(&mut spans, frame.shimmer.duplicate());
        }
        assert(spans.deep_view() =~= head_spans(*self, *frame));
        spans
    }

    /// The status row without the hook's message.
    pub fn header_line(&self, frame: &StatusFrame) -> (line: StyledLine)
        ensures
            line.deep_view() == header_spans(*self, *frame),
    {
        let mut spans = self.head(frame);
        assert(spans@.len() == spans.deep_view().len());
        if spans.len() > 0 {
            push_span(&mut spans, " ", plain());
        }
        append_spans(&mut spans, clock(frame.elapsed_secs, self.model_transfer));
        StyledLine { spans }
    }

    /// The rows of the status for a width. `widths` holds the widths of the row, of the separator
    /// and of the hook's message, and `details` the lines of the details.
    pub fn lines(
        &self,
        frame: &StatusFrame,
        widths: HookWidths,
        details: Vec<StyledLine>,
        width: u16,
    ) -> (rows: Vec<StatusRow>)
        ensures
            rows.deep_view() == status_rows(
                header_spans(*self, *frame),
                self.hook_status_message.deep_view(),
                widths,
                width,
                details.deep_view(),
            ),
    {
        let mut header = self.header_line(frame);
        let ghost bare = header.deep_view();
        let mut rows: Vec<StatusRow> = Vec::new();
        match &self.hook_status_message {
            None => {
                rows.push(StatusRow { line: header, truncate: true });
            },
            Some(message) => {
                let total: usize = widths.header.saturating_add(widths.separator).saturating_add(
                    widths.message,
                );
                if total <= width as usize {
                    push_span(&mut header.spans, " \u{b7} ", dim());
                    push_span(&mut header.spans, message.as_str(), dim());
                    assert(header.deep_view() =~= bare + seq![
                        (" \u{b7} "@, dim()),
                        (message@, dim()),
                    ]);
                    rows.push(StatusRow { line: header, truncate: true });
                } else {
                    rows.push(StatusRow { line: header, truncate: true });
                    let below = crate::styled::line2(
                        span(DETAILS_PREFIX, dim()),
                        span(message.as_str(), dim()),
                    );
                    rows.push(StatusRow { line: below, truncate: true });
                }
            },
        }
        let ghost top = rows.deep_view();
        let ghost all = details@;
        let ghost more = details.deep_view().map_values(
            |line: Seq<(Seq<char>, SpanStyle)>| (line, false),
        );
        assert(top + more.take(0) =~= top);
        for line in it: details
            invariant
                it.seq() == all,
                more.len() == all.len(),
                forall|k: int|
                    0 <= k < all.len() ==> (#[trigger] more[k]) == (all[k].deep_view(), false),
                rows.deep_view() == top + more.take(it.index() as int),
        {
            let ghost before = rows.deep_view();
            let ghost i = it.index() as int;
            assert(more[i] == (all[i].deep_view(), false));
            assert(line == all[i]);
            let row = StatusRow { line, truncate: false };
            rows.push(row);
            assert(row.deep_view() == more[i]);
            assert(rows.deep_view() =~= before.push(row.deep_view()));
            assert(rows.deep_view() =~= top + more.take(i + 1));
        }
        assert(more.take(more.len() as int) =~= more);
        assert(rows.deep_view() =~= status_rows(
            bare,
            self.hook_status_message.deep_view(),
            widths,
            width,
            details.deep_view(),
        ));
        rows
    }

    /// After how many milliseconds the row wants to be drawn again, where it changes by itself.
    pub fn refresh_interval_ms(&self, clock_is_shown: bool) -> (r: Option<u64>)
        ensures
            r == (if self.animations_enabled {
                Some(32u64)
            } else if clock_is_shown {
                Some(1_000u64)
            } else {
                None
            }),
    {
        if self.animations_enabled {
            Some(32)
        } else if clock_is_shown {
            Some(1_000)
        } else {
            None
        }
    }
}

/// A hook's message never displaces the status row or the details: they are the same with it.
pub proof fn hook_message_displaces_nothing(
    header: Seq<(Seq<char>, SpanStyle)>,
    message: Seq<char>,
    widths: HookWidths,
    width: u16,
    details: Seq<Seq<(Seq<char>, SpanStyle)>>,
)
    ensures
        ({
            let with = status_rows(header, Some(message), widths, width, details);
            let without = status_rows(header, None, widths, width, details);
            &&& with.len() == without.len() + if hook_fits(widths, width) {
                0int
            } else {
                1
            }
            &&& with[0].0.take(header.len() as int) == header
            &&& with.skip(with.len() - details.len()) == without.skip(1)
        }),
{
    let with = status_rows(header, Some(message), widths, width, details);
    let without = status_rows(header, None, widths, width, details);
    assert(with[0].0.take(header.len() as int) =~= header);
    assert(with.skip(with.len() - details.len()) =~= without.skip(1));
}

/// The details never take more lines than they may.
pub proof fn details_are_limited(
    wrapped: Seq<Seq<(Seq<char>, SpanStyle)>>,
    max_lines: int,
    width: int,
    prefix_width: int,
)
    requires
        0 <= max_lines,
    ensures
        limited(wrapped, max_lines, width, prefix_width).len() <= max_lines || limited(
            wrapped,
            max_lines,
            width,
            prefix_width,
        ) == wrapped,
        limited(wrapped, max_lines, width, prefix_width).len() <= wrapped.len(),
        limited(wrapped, max_lines, width, prefix_width).len() == crate::geometry::min_of(
            wrapped.len() as int,
            max_lines,
        ),
{
}

/// Of an amount of data the row shows a whole number and hundredths in the largest unit of which
/// there is at least one. It never shows more than there is, and less by under a hundredth.
pub proof fn amounts_are_rounded_down(bytes: nat) -> (shown: (nat, nat))
    ensures
        ({
            let (whole, hundredths) = shown;
            let amount = 100 * whole + hundredths;
            &&& hundredths < 100
            &&& bytes < 1024 ==> whole == bytes && hundredths == 0 && bytes_text(bytes)
                == crate::text::decimal(whole) + " B"@
            &&& 1024 <= bytes < 1024 * 1024 ==> {
                &&& amount * 1024 <= 100 * bytes < (amount + 1) * 1024
                &&& 1 <= whole < 1024
                &&& bytes_text(bytes) == crate::text::decimal(whole) + "."@ + padded(hundredths, 3)
                    + " KiB"@
            }
            &&& 1024 * 1024 <= bytes ==> {
                &&& amount * (1024 * 1024) <= 100 * bytes < (amount + 1) * (1024 * 1024)
                &&& 1 <= whole
                &&& bytes_text(bytes) == crate::text::decimal(whole) + "."@ + padded(hundredths, 3)
                    + " MiB"@
            }
        }),
{
    if bytes < 1024 {
        (bytes, 0)
    } else if bytes < 1_048_576 {
        (bytes / 1024, bytes % 1024 * 100 / 1024)
    } else {
        (bytes / 1_048_576, bytes % 1_048_576 * 100 / 1_048_576)
    }
}

/// The row tells the time and, where data went, both amounts; the one that is going on is the one
/// that stands out.
pub proof fn clocks_tell_time_and_data(elapsed_secs: u64, status: ModelTransferStatus)
    ensures
        ({
            let bare = clock_spans(elapsed_secs, None);
            let spans = clock_spans(elapsed_secs, Some(status));
            &&& bare.len() == 2
            &&& bare[0] == ("("@ + elapsed_text(elapsed_secs as nat), dim())
            &&& bare[1] == (")"@, dim())
            &&& spans.len() == 6
            &&& spans[0] == bare[0]
            &&& spans[5] == bare[1]
            &&& spans[2].0 == "\u{2191} "@ + bytes_text(status.sent_bytes as nat)
            &&& spans[4].0 == "\u{2193} "@ + bytes_text(status.received_bytes as nat)
            &&& spans[2].1.bold <==> status.phase == ModelTransferPhase::Sending
            &&& spans[4].1.bold <==> status.phase == ModelTransferPhase::Receiving
        }),
{
}

/// Details are shown from their first character on that is no white space, in its own case or in
/// upper case. Nothing else of them is changed.
pub proof fn details_begin_with_their_first_word(
    details: Seq<char>,
    first: int,
    capitalization: StatusDetailsCapitalization,
)
    requires
        0 <= first < details.len(),
        forall|k: int| 0 <= k < first ==> crate::text::char_whitespace(#[trigger] details[k]),
        !crate::text::char_whitespace(details[first]),
    ensures
        shown_details(Some(details), capitalization) == Some(
            (if capitalization == StatusDetailsCapitalization::CapitalizeFirst {
                crate::text::uppercase(details[first])
            } else {
                seq![details[first]]
            }) + details.skip(first + 1),
        ),
        shown_details(None, capitalization) is None,
        shown_details(Some(Seq::empty()), capitalization) is None,
{
    lemma_trimmed_from(details, first);
    let shown = details.skip(first);
    assert(shown.subrange(1, shown.len() as int) =~= details.skip(first + 1));
    assert(seq![details[first]] + details.skip(first + 1) =~= shown);
}

proof fn lemma_trimmed_from(details: Seq<char>, first: int)
    requires
        0 <= first < details.len(),
        forall|k: int| 0 <= k < first ==> crate::text::char_whitespace(#[trigger] details[k]),
        !crate::text::char_whitespace(details[first]),
    ensures
        crate::text::trimmed_start(details) == details.skip(first),
    decreases first,
{
    if first > 0 {
        let rest = details.subrange(1, details.len() as int);
        assert(crate::text::char_whitespace(details[0]));
        assert forall|k: int| 0 <= k < first - 1 implies crate::text::char_whitespace(
            #[trigger] rest[k],
        ) by {
            assert(rest[k] == details[k + 1]);
        }
        lemma_trimmed_from(rest, first - 1);
        assert(rest.skip(first - 1) =~= details.skip(first));
    } else {
        assert(details.skip(0) =~= details);
    }
}

/// The header draws attention while the agent waits or has met an error, from the beginning of the
/// animation until it has run its time, and never again after that.
pub proof fn attention_is_drawn_for_a_while(row: StatusIndicatorWidget, now: u64, later: u64)
    requires
        now <= later,
    ensures
        attention(row, later) ==> attention(row, now),
        attention(row, now) ==> says_waiting(row.header@) || row.api_error,
        (says_waiting(row.header@) || row.api_error) && row.waiting_animation_started_at is None
            ==> attention(row, now),
        row.waiting_animation_started_at matches Some(started) ==> {
            &&& now >= started + row.waiting_animation_duration ==> !attention(row, now)
            &&& (says_waiting(row.header@) || row.api_error) && started <= now < started
                + row.waiting_animation_duration ==> attention(row, now)
        },
        attention_tint(row) == Tint::LightRed <==> row.api_error,
{
}

/// A header that draws attention is shown letter by letter: the letters that are lit, then those
/// that are not yet.
pub proof fn lit_letters_come_first(header: Seq<char>, highlighted: int, tint: Tint, i: int)
    requires
        0 <= i < header.len(),
    ensures
        attention_spans(header, highlighted, tint).len() == header.len(),
        attention_spans(header, highlighted, tint)[i].0 == seq![header[i]],
        attention_spans(header, highlighted, tint)[i].1.tint == tint,
        attention_spans(header, highlighted, tint)[i].1.dim <==> highlighted <= i,
{
}

/// The message of a hook is told on the status row where it fits, and else on a row of its own
/// below it. The details follow, line for line.
pub proof fn hook_messages_are_told(
    header: Seq<(Seq<char>, SpanStyle)>,
    message: Seq<char>,
    widths: HookWidths,
    width: u16,
    details: Seq<Seq<(Seq<char>, SpanStyle)>>,
    i: int,
)
    requires
        0 <= i < details.len(),
    ensures
        ({
            let rows = status_rows(header, Some(message), widths, width, details);
            let above = rows.len() - details.len();
            let fits = widths.header + widths.separator + widths.message <= width;
            &&& above == (if fits {
                1int
            } else {
                2
            })
            &&& rows[above - 1].0.last().0 == message
            &&& fits ==> rows[0].0.len() == header.len() + 2
            &&& !fits ==> rows[0].0 == header
            &&& rows[above + i].0 == details[i]
            &&& status_rows(header, None, widths, width, details)[0].0 == header
        }),
{
}

/// Of details that take too many lines the first ones are shown as they are. The last that is
/// shown is cut to the room beside the prefix and ends in an ellipsis.
pub proof fn cut_details_end_in_an_ellipsis(
    wrapped: Seq<Seq<(Seq<char>, SpanStyle)>>,
    max_lines: int,
    width: int,
    prefix_width: int,
)
    requires
        0 < max_lines < wrapped.len(),
        wrapped[max_lines - 1].len() > 0,
        0 <= prefix_width < width,
    ensures
        ({
            let shown = limited(wrapped, max_lines, width, prefix_width);
            let last = shown[max_lines - 1];
            let text = wrapped[max_lines - 1].last().0;
            let kept = last.last().0.len() - 1;
            &&& shown.len() == max_lines
            &&& forall|k: int| 0 <= k < max_lines - 1 ==> (#[trigger] shown[k]) == wrapped[k]
            &&& last.len() == wrapped[max_lines - 1].len()
            &&& last.drop_last() == wrapped[max_lines - 1].drop_last()
            &&& last.last().0.last() == '\u{2026}'
            &&& last.last().0.drop_last() == text.take(kept)
            &&& 0 <= kept <= text.len()
            &&& last.last().0.len() <= width - prefix_width
            &&& kept == text.len() || last.last().0.len() == width - prefix_width
        }),
{
    reveal_strlit("\u{2026}");
    let shown = limited(wrapped, max_lines, width, prefix_width);
    let last = shown[max_lines - 1];
    let text = wrapped[max_lines - 1].last().0;
    let kept = last.last().0.len() - 1;
    assert(last.drop_last() =~= wrapped[max_lines - 1].drop_last());
    assert(last.last().0.drop_last() =~= text.take(kept));
}

/// The row begins with the mark of activity where there is one. The header follows: letter by
/// letter while it draws attention, in red after an error, and else as the animation shows it.
pub proof fn headers_follow_the_mark(row: StatusIndicatorWidget, frame: StatusFrame)
    ensures
        ({
            let spans = head_spans(row, frame);
            let n = if frame.indicator is Some {
                2int
            } else {
                0
            };
            let header = spans.skip(n);
            &&& frame.indicator is Some ==> spans[0].0 == "\u{25cf}"@ && spans[1].0 == " "@
            &&& frame.indicator is Some && row.api_error ==> spans[0].1.tint == Tint::LightRed
            &&& frame.indicator is Some && !row.api_error && !attention(row, frame.now)
                ==> spans[0].1 == frame.indicator->0
            &&& attention(row, frame.now) ==> header == attention_spans(
                row.header@,
                frame.highlighted as int,
                attention_tint(row),
            )
            &&& !attention(row, frame.now) && row.api_error ==> header.len() == 1 && header[0].0
                == row.header@ && header[0].1.tint == Tint::LightRed
            &&& !attention(row, frame.now) && !row.api_error ==> header
                == frame.shimmer.deep_view()
            &&& header_spans(row, frame).take(spans.len() as int) == spans
        }),
{
    let spans = head_spans(row, frame);
    let n = if frame.indicator is Some {
        2int
    } else {
        0
    };
    let header = if attention(row, frame.now) {
        attention_spans(row.header@, frame.highlighted as int, attention_tint(row))
    } else if row.api_error {
        seq![(row.header@, tinted(Tint::LightRed))]
    } else {
        frame.shimmer.deep_view()
    };
    assert(spans.skip(n) =~= header);
    assert(header_spans(row, frame).take(spans.len() as int) =~= spans);
}

/// A header says that the agent waits exactly where its first word is that.
pub proof fn waiting_headers_begin_so(rest: Seq<char>, header: Seq<char>)
    ensures
        says_waiting("Waiting"@),
        says_waiting("Waiting "@ + rest),
        says_waiting(header) && header.len() > 7 ==> header[7] == ' ',
        says_waiting(header) ==> header.len() >= 7 && header.take(7) == "Waiting"@,
        header.len() == 7 && header != "Waiting"@ ==> !says_waiting(header),
{
    reveal_strlit("Waiting");
    reveal_strlit("Waiting ");
    let longer = "Waiting "@ + rest;
    assert(longer.subrange(0, 8) =~= "Waiting "@);
    if says_waiting(header) {
        if header != "Waiting"@ {
            let begin = header.subrange(0, 8);
            assert(begin == "Waiting "@);
            assert(begin[7] == header[7]);
            assert forall|k: int| 0 <= k < 7 implies header.take(7)[k] == "Waiting"@[k] by {
                assert(begin[k] == header[k]);
                assert("Waiting "@[k] == "Waiting"@[k]);
            }
        }
        assert(header.take(7) =~= "Waiting"@);
    }
}

/// The status row and the message of a hook are cut where they are too wide; the details are not.
pub proof fn only_the_status_and_the_hook_are_cut(
    header: Seq<(Seq<char>, SpanStyle)>,
    hook: Option<Seq<char>>,
    widths: HookWidths,
    width: u16,
    details: Seq<Seq<(Seq<char>, SpanStyle)>>,
    i: int,
)
    requires
        0 <= i < status_rows(header, hook, widths, width, details).len(),
    ensures
        ({
            let rows = status_rows(header, hook, widths, width, details);
            rows[i].1 <==> i < rows.len() - details.len()
        }),
{
}

} // verus!
