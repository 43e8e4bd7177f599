//! Adjacent tools that are shown as one group.

use crate::data::Data;
use crate::geometry;
use crate::styled::{bold, dim, plain, push_span, span, SpanStyle, StyledLine, StyledSpan, Tint};
use crate::text::{self, concat2, decimal_string};
use vstd::prelude::*;

verus! {

/// How long a tool that has finished stays visible in its group, in nanoseconds.
pub const TOOL_COMPLETION_RETENTION_NANOS: u64 = 2_000_000_000;

/// What the tools of a cell did.
#[derive(Clone, Copy, Debug, PartialEq, Eq, Structural)]
pub struct ToolActivity {
    pub call_count: usize,
    pub searches: usize,
    pub read_files: usize,
    pub listed_directories: usize,
    pub mcp_calls: usize,
    pub background_terminal_interactions: usize,
    pub background_terminal_waits: usize,
    pub shell_commands: usize,
}

/// No activity.
#[verifier::allow_in_spec]
pub fn no_activity() -> ToolActivity
    returns
        (ToolActivity {
            call_count: 0,
            searches: 0,
            read_files: 0,
            listed_directories: 0,
            mcp_calls: 0,
            background_terminal_interactions: 0,
            background_terminal_waits: 0,
            shell_commands: 0,
        }),
{
    ToolActivity {
        call_count: 0,
        searches: 0,
        read_files: 0,
        listed_directories: 0,
        mcp_calls: 0,
        background_terminal_interactions: 0,
        background_terminal_waits: 0,
        shell_commands: 0,
    }
}

/// The sum of two counts, at most the largest one.
pub open spec fn count_sum(a: usize, b: usize) -> usize {
    if a + b > usize::MAX {
        usize::MAX
    } else {
        (a + b) as usize
    }
}

/// What two groups of tools did together.
pub open spec fn together(a: ToolActivity, b: ToolActivity) -> ToolActivity {
    ToolActivity {
        call_count: count_sum(a.call_count, b.call_count),
        searches: count_sum(a.searches, b.searches),
        read_files: count_sum(a.read_files, b.read_files),
        listed_directories: count_sum(a.listed_directories, b.listed_directories),
        mcp_calls: count_sum(a.mcp_calls, b.mcp_calls),
        background_terminal_interactions: count_sum(
            a.background_terminal_interactions,
            b.background_terminal_interactions,
        ),
        background_terminal_waits: count_sum(
            a.background_terminal_waits,
            b.background_terminal_waits,
        ),
        shell_commands: count_sum(a.shell_commands, b.shell_commands),
    }
}

impl ToolActivity {
    /// What two groups of tools did together.
    pub fn merge(self, other: ToolActivity) -> (r: ToolActivity)
        ensures
            r == together(self, other),
    {
        ToolActivity {
            call_count: self.call_count.saturating_add(other.call_count),
            searches: self.searches.saturating_add(other.searches),
            read_files: self.read_files.saturating_add(other.read_files),
            listed_directories: self.listed_directories.saturating_add(other.listed_directories),
            mcp_calls: self.mcp_calls.saturating_add(other.mcp_calls),
            background_terminal_interactions: self.background_terminal_interactions.saturating_add(
                other.background_terminal_interactions,
            ),
            background_terminal_waits: self.background_terminal_waits.saturating_add(
                other.background_terminal_waits,
            ),
            shell_commands: self.shell_commands.saturating_add(other.shell_commands),
        }
    }
}

/// A summary with one more kind of activity.
pub open spec fn part_added(
    spans: Seq<(Seq<char>, SpanStyle)>,
    count: usize,
    initial_verb: Seq<char>,
    verb: Seq<char>,
    singular: Seq<char>,
    plural: Seq<char>,
) -> Seq<(Seq<char>, SpanStyle)> {
    if count == 0 {
        spans
    } else {
        let first = spans.len() == 0;
        let separated = if first {
            spans
        } else {
            spans.push((", "@, plain()))
        };
        separated + seq![
            (
                (if first {
                    initial_verb
                } else {
                    verb
                }) + " "@,
                plain(),
            ),
            (text::decimal(count as nat), bold()),
            (
                " "@ + if count == 1 {
                    singular
                } else {
                    plural
                },
                plain(),
            ),
        ]
    }
}

/// The summary of activity: the kinds in a fixed order, those that did not occur left out.
pub open spec fn summary_of(activity: ToolActivity) -> Seq<(Seq<char>, SpanStyle)> {
    let s1 = part_added(
        Seq::empty(),
        activity.searches,
        "Searched for"@,
        "searched for"@,
        "pattern"@,
        "patterns"@,
    );
    let s2 = part_added(s1, activity.read_files, "Read"@, "read"@, "file"@, "files"@);
    let s3 = part_added(
        s2,
        activity.listed_directories,
        "Listed"@,
        "listed"@,
        "directory"@,
        "directories"@,
    );
    let s4 = part_added(
        s3,
        activity.mcp_calls,
        "Called"@,
        "called"@,
        "MCP tool"@,
        "MCP tools"@,
    );
    let s5 = part_added(
        s4,
        activity.background_terminal_interactions,
        "Interacted with"@,
        "interacted with"@,
        "background terminal"@,
        "background terminals"@,
    );
    let s6 = part_added(
        s5,
        activity.background_terminal_waits,
        "Waited for"@,
        "waited for"@,
        "background terminal"@,
        "background terminals"@,
    );
    part_added(s6, activity.shell_commands, "Ran"@, "ran"@, "shell command"@, "shell commands"@)
}

fn push_part(
    spans: &mut Vec<StyledSpan>,
    count: usize,
    initial_verb: &str,
    verb: &str,
    singular: &str,
    plural: &str,
)
    ensures
        final(spans).deep_view() == part_added(
            old(spans).deep_view(),
            count,
            initial_verb@,
            verb@,
            singular@,
            plural@,
        ),
{
    let ghost was = spans.deep_view();
    assert(was.len() == spans@.len());
    if count == 0 {
        return;
    }
    let first = spans.len() == 0;
    if !first {
        push_span(spans, ", ", plain());
    }
    let ghost separated = spans.deep_view();
    let verb = if first {
        initial_verb
    } else {
        verb
    };
    let noun = if count == 1 {
        singular
    } else {
        plural
    };
    push_span(spans, concat2(verb, " ").as_str(), plain());
    push_span(spans, decimal_string(count as u64).as_str(), bold());
    push_span(spans, concat2(" ", noun).as_str(), plain());
    assert(spans.deep_view() =~= separated + seq![
        (verb@ + " "@, plain()),
        (text::decimal(count as nat), bold()),
        (" "@ + noun@, plain()),
    ]);
}

/// The mark in front of a summary. `indicator` says whether activity is shown by a moving mark.
pub open spec fn marker_text(active: bool, indicator: bool) -> Seq<char> {
    if !active {
        "\u{2022}"@
    } else if indicator {
        "\u{25cf}"@
    } else {
        " "@
    }
}

/// The summary of a group, before it is wrapped.
pub fn summary_line(activity: &ToolActivity, active: bool, indicator: bool) -> (r: StyledLine)
    ensures
        r.deep_view() == seq![(marker_text(active, indicator), plain()), (" "@, plain())]
            + summary_of(*activity),
{
    let mut parts: Vec<StyledSpan> = Vec::new();
    assert(parts.deep_view() =~= Seq::empty());
    push_part(
        &mut parts,
        activity.searches,
        "Searched for",
        "searched for",
        "pattern",
        "patterns",
    );
    push_part(&mut parts, activity.read_files, "Read", "read", "file", "files");
    push_part(
        &mut parts,
        activity.listed_directories,
        "Listed",
        "listed",
        "directory",
        "directories",
    );
    push_part(&mut parts, activity.mcp_calls, "Called", "called", "MCP tool", "MCP tools");
    push_part(
        &mut parts,
        activity.background_terminal_interactions,
        "Interacted with",
        "interacted with",
        "background terminal",
        "background terminals",
    );
    push_part(
        &mut parts,
        activity.background_terminal_waits,
        "Waited for",
        "waited for",
        "background terminal",
        "background terminals",
    );
    push_part(
        &mut parts,
        activity.shell_commands,
        "Ran",
        "ran",
        "shell command",
        "shell commands",
    );
    let marker = if !active {
        "\u{2022}"
    } else if indicator {
        "\u{25cf}"
    } else {
        " "
    };
    let mut spans: Vec<StyledSpan> = Vec::new();
    assert(spans.deep_view() =~= Seq::empty());
    push_span(&mut spans, marker, plain());
    push_span(&mut spans, " ", plain());
    assert(spans.deep_view() =~= seq![
        (marker_text(active, indicator), plain()),
        (" "@, plain()),
    ]);
    crate::styled::append_spans(&mut spans, parts);
    StyledLine { spans }
}

/// A line about a tool of a group. Times are nanoseconds since some fixed moment.
#[derive(Debug)]
pub struct ToolPreview {
    pub line: StyledLine,
    pub running: bool,
    pub completed_at: Option<u64>,
}

/// The model of a line about a tool.
pub ghost struct PreviewModel {
    pub line: Seq<(Seq<char>, SpanStyle)>,
    pub running: bool,
    pub completed_at: Option<u64>,
}

impl DeepView for ToolPreview {
    type V = PreviewModel;

    open spec fn deep_view(&self) -> Self::V {
        PreviewModel {
            line: self.line.deep_view(),
            running: self.running,
            completed_at: self.completed_at,
        }
    }
}

/// Whether a tool is visible in its group: while it runs, and less than two seconds longer.
pub open spec fn preview_visible(preview: PreviewModel, now: u64) -> bool {
    preview.running || match preview.completed_at {
        Some(at) => geometry::monus(now as int, at as int) < TOOL_COMPLETION_RETENTION_NANOS,
        None => false,
    }
}

impl ToolPreview {
    /// Whether the tool is visible in its group.
    pub fn visible_at(&self, now: u64) -> (r: bool)
        ensures
            r == preview_visible(self.deep_view(), now),
    {
        self.running || match self.completed_at {
            Some(at) => now.saturating_sub(at) < TOOL_COMPLETION_RETENTION_NANOS,
            None => false,
        }
    }
}

/// A style without its colour, dimmed.
pub open spec fn faded(style: SpanStyle) -> SpanStyle {
    SpanStyle { tint: Tint::Plain, dim: true, ..style }
}

/// A line in faded styles.
pub open spec fn faded_line(line: Seq<(Seq<char>, SpanStyle)>) -> Seq<(Seq<char>, SpanStyle)> {
    line.map_values(|span: (Seq<char>, SpanStyle)| (span.0, faded(span.1)))
}

/// The row of a tool: behind a branch, faded where it has finished.
pub open spec fn preview_row(preview: PreviewModel) -> Seq<(Seq<char>, SpanStyle)> {
    seq![("  \u{2514} "@, dim())] + if preview.running {
        preview.line
    } else {
        faded_line(preview.line)
    }
}

/// The rows of the tools that are visible, each one on its own.
pub open spec fn preview_rows_of(previews: Seq<PreviewModel>, now: u64) -> Seq<
    Seq<(Seq<char>, SpanStyle)>,
>
    decreases previews.len(),
{
    if previews.len() == 0 {
        Seq::empty()
    } else {
        let front = preview_rows_of(previews.drop_last(), now);
        if preview_visible(previews.last(), now) {
            front.push(preview_row(previews.last()))
        } else {
            front
        }
    }
}

fn preview_line(preview: &ToolPreview) -> (r: StyledLine)
    ensures
        r.deep_view() == preview_row(preview.deep_view()),
{
    let mut spans: Vec<StyledSpan> = Vec::new();
    assert(spans.deep_view() =~= Seq::empty());
    push_span(&mut spans, "  \u{2514} ", dim());
    let ghost head = spans.deep_view();
    assert(head =~= seq![("  \u{2514} "@, dim())]);
    let ghost line = preview.line.deep_view();
    let ghost shown = if preview.running {
        line
    } else {
        faded_line(line)
    };
    let mut i: usize = 0;
    assert(head + shown.take(0) =~= head);
    while i < preview.line.spans.len()
        invariant
            i <= preview.line.spans@.len(),
            line == preview.line.deep_view(),
            shown == (if preview.running {
                line
            } else {
                faded_line(line)
            }),
            spans.deep_view() == head + shown.take(i as int),
        decreases preview.line.spans@.len() - i,
    {
        let ghost before = spans.deep_view();
        let part = &preview.line.spans[i];
        assert(line[i as int] == part.deep_view());
        let style = if preview.running {
            part.style
        } else {
            SpanStyle {
                tint: Tint::Plain,
                bold: part.style.bold,
                dim: true,
                italic: part.style.italic,
            }
        };
        push_span(&mut spans, part.content.as_str(), style);
        assert(head + shown.take(i + 1) =~= before.push(shown[i as int]));
        i += 1;
    }
    assert(shown.take(i as int) =~= shown);
    StyledLine { spans }
}

/// The rows of the tools that are visible, before they are cut to the width of the screen.
pub fn preview_rows(previews: &Vec<ToolPreview>, now: u64) -> (r: Vec<StyledLine>)
    ensures
        r.deep_view() == preview_rows_of(previews.deep_view(), now),
{
    let ghost all = previews.deep_view();
    let mut r: Vec<StyledLine> = Vec::new();
    let mut i: usize = 0;
    assert(all.take(0) =~= Seq::empty());
    assert(r.deep_view() =~= Seq::empty());
    while i < previews.len()
        invariant
            i <= previews@.len(),
            all == previews.deep_view(),
            r.deep_view() == preview_rows_of(all.take(i as int), now),
        decreases previews@.len() - i,
    {
        let ghost before = r.deep_view();
        assert(all.take(i + 1).drop_last() =~= all.take(i as int));
        assert(all.take(i + 1).last() == previews@[i as int].deep_view());
        if previews[i].visible_at(now) {
            let row = preview_line(&previews[i]);
            r.push(row);
            assert(r.deep_view() =~= before.push(row.deep_view()));
        }
        i += 1;
    }
    assert(all.take(i as int) =~= all);
    r
}

/// What tells when a tool has to be drawn again.
#[derive(Clone, Copy, Debug, PartialEq, Eq, Structural)]
pub struct ToolRenderState {
    pub revision: u64,
    pub running: bool,
    pub next_expiry: Option<u64>,
}

/// The moment at which the next tool of a list leaves its group.
pub open spec fn next_expiry_of(states: Seq<ToolRenderState>, now: u64) -> Option<u64>
    decreases states.len(),
{
    if states.len() == 0 {
        None
    } else {
        match (next_expiry_of(states.drop_last(), now), states.last().next_expiry) {
            (Some(a), Some(b)) if b > now => Some(
                if a <= b {
                    a
                } else {
                    b
                },
            ),
            (None, Some(b)) if b > now => Some(b),
            (earlier, _) => earlier,
        }
    }
}

/// The time after which tools have to be drawn again: the time between two frames while one of
/// them runs, the time until the next one leaves its group, or never.
pub open spec fn refresh_delay_of(states: Seq<ToolRenderState>, now: u64, frame: u64) -> Option<
    u64,
> {
    if exists|i: int| 0 <= i < states.len() && (#[trigger] states[i]).running {
        Some(frame)
    } else {
        match next_expiry_of(states, now) {
            Some(at) => Some((at - now) as u64),
            None => None,
        }
    }
}

proof fn lemma_next_expiry(states: Seq<ToolRenderState>, now: u64)
    ensures
        match next_expiry_of(states, now) {
            Some(at) => at > now,
            None => true,
        },
    decreases states.len(),
{
    if states.len() > 0 {
        lemma_next_expiry(states.drop_last(), now);
    }
}

/// The time after which tools have to be drawn again.
pub fn tool_refresh_delay(states: &Vec<ToolRenderState>, now: u64, frame: u64) -> (r: Option<u64>)
    ensures
        r == refresh_delay_of(states@, now, frame),
{
    let mut next: Option<u64> = None;
    let mut i: usize = 0;
    assert(states@.take(0) =~= Seq::empty());
    while i < states.len()
        invariant
            i <= states@.len(),
            forall|k: int| 0 <= k < i ==> !(#[trigger] states@[k]).running,
            next == next_expiry_of(states@.take(i as int), now),
        decreases states@.len() - i,
    {
        assert(states@.take(i + 1).drop_last() =~= states@.take(i as int));
        if states[i].running {
            assert(states@[i as int].running);
            return Some(frame);
        }
        if let Some(at) = states[i].next_expiry {
            if at > now {
                next =
                match next {
                    Some(earlier) => if earlier <= at {
                        Some(earlier)
                    } else {
                        Some(at)
                    },
                    None => Some(at),
                };
            }
        }
        i += 1;
    }
    assert(states@.take(i as int) =~= states@);
    proof {
        lemma_next_expiry(states@, now);
    }
    match next {
        Some(at) => Some(at - now),
        None => None,
    }
}

/// The rows that tell everything of a cell, and whether the cell goes on with the one before.
#[derive(Debug)]
pub struct DetailRows {
    pub rows: Vec<StyledLine>,
    pub is_stream_continuation: bool,
}

/// The model of the rows that tell everything of a cell.
pub ghost struct DetailModel {
    pub rows: Seq<Seq<(Seq<char>, SpanStyle)>>,
    pub is_stream_continuation: bool,
}

impl DeepView for DetailRows {
    type V = DetailModel;

    open spec fn deep_view(&self) -> Self::V {
        DetailModel {
            rows: self.rows.deep_view(),
            is_stream_continuation: self.is_stream_continuation,
        }
    }
}

/// An empty row.
pub open spec fn empty_row() -> Seq<(Seq<char>, SpanStyle)> {
    Seq::empty()
}

/// An empty row.
pub fn blank_row() -> (r: StyledLine)
    ensures
        r.deep_view() == empty_row(),
{
    let r = StyledLine { spans: Vec::new() };
    assert(r.deep_view() =~= empty_row());
    r
}

/// All rows of cells, with an empty one before each cell that does not go on with the one before.
pub open spec fn all_details(cells: Seq<DetailModel>) -> Seq<Seq<(Seq<char>, SpanStyle)>>
    decreases cells.len(),
{
    if cells.len() == 0 {
        Seq::empty()
    } else {
        let front = all_details(cells.drop_last());
        let spaced = if cells.len() > 1 && !cells.last().is_stream_continuation {
            front.push(empty_row())
        } else {
            front
        };
        spaced + cells.last().rows
    }
}

/// The rows of a group: its summary and its visible tools, or all rows of its cells and of the
/// tool that runs.
pub open spec fn group_rows_of(
    expanded: bool,
    summary: Seq<Seq<(Seq<char>, SpanStyle)>>,
    previews: Seq<Seq<(Seq<char>, SpanStyle)>>,
    cells: Seq<DetailModel>,
    live: Option<DetailModel>,
) -> Seq<Seq<(Seq<char>, SpanStyle)>> {
    if !expanded {
        summary + previews
    } else {
        let details = all_details(cells);
        match live {
            None => details,
            Some(tool) => (if details.len() > 0 && !tool.is_stream_continuation {
                details.push(empty_row())
            } else {
                details
            }) + tool.rows,
        }
    }
}

/// Appends rows to rows.
pub fn append_rows(rows: &mut Vec<StyledLine>, more: &Vec<StyledLine>)
    ensures
        final(rows).deep_view() == old(rows).deep_view() + more.deep_view(),
{
    let ghost was = rows.deep_view();
    let ghost all = more.deep_view();
    let mut i: usize = 0;
    assert(was + all.take(0) =~= was);
    while i < more.len()
        invariant
            i <= more@.len(),
            all == more.deep_view(),
            rows.deep_view() == was + all.take(i as int),
        decreases more@.len() - i,
    {
        let ghost before = rows.deep_view();
        let row = more[i].duplicate();
        rows.push(row);
        assert(rows.deep_view() =~= before.push(row.deep_view()));
        assert(was + all.take(i + 1) =~= before.push(all[i as int]));
        i += 1;
    }
    assert(all.take(i as int) =~= all);
}

/// The rows of a group. `summary` and `previews` are the rows of its summary and of its visible
/// tools, wrapped and cut to the width of the screen.
pub fn group_rows(
    expanded: bool,
    summary: &Vec<StyledLine>,
    previews: &Vec<StyledLine>,
    cells: &Vec<DetailRows>,
    live: &Option<DetailRows>,
) -> (r: Vec<StyledLine>)
    ensures
        r.deep_view() == group_rows_of(
            expanded,
            summary.deep_view(),
            previews.deep_view(),
            cells.deep_view(),
            live.deep_view(),
        ),
{
    let mut r: Vec<StyledLine> = Vec::new();
    assert(r.deep_view() =~= Seq::empty());
    if !expanded {
        append_rows(&mut r, summary);
        append_rows(&mut r, previews);
        assert(r.deep_view() =~= summary.deep_view() + previews.deep_view());
        return r;
    }
    let ghost all = cells.deep_view();
    let mut i: usize = 0;
    assert(all.take(0) =~= Seq::empty());
    while i < cells.len()
        invariant
            i <= cells@.len(),
            all == cells.deep_view(),
            r.deep_view() == all_details(all.take(i as int)),
        decreases cells@.len() - i,
    {
        let ghost before = r.deep_view();
        assert(all.take(i + 1).drop_last() =~= all.take(i as int));
        assert(all.take(i + 1).last() == cells@[i as int].deep_view());
        if i > 0 && !cells[i].is_stream_continuation {
            let blank = blank_row();
            r.push(blank);
            assert(r.deep_view() =~= before.push(empty_row()));
        }
        append_rows(&mut r, &cells[i].rows);
        i += 1;
    }
    assert(all.take(i as int) =~= all);
    if let Some(tool) = live {
        let ghost before = r.deep_view();
        assert(before.len() == r@.len());
        if r.len() > 0 && !tool.is_stream_continuation {
            let blank = blank_row();
            r.push(blank);
            assert(r.deep_view() =~= before.push(empty_row()));
        }
        append_rows(&mut r, &tool.rows);
    }
    r
}

/// Empty rows above a group: always one where it is expanded.
pub open spec fn group_padding(expanded: bool, top_padding: u16) -> u16 {
    if expanded {
        1
    } else {
        top_padding
    }
}

/// The number of rows that a group takes.
pub fn group_height(expanded: bool, top_padding: u16, line_count: usize) -> (r: u16)
    ensures
        r == geometry::min_of(group_padding(expanded, top_padding) + line_count, u16::MAX as int),
{
    let padding: u16 = if expanded {
        1
    } else {
        top_padding
    };
    let lines: u16 = if line_count < 65535 {
        line_count as u16
    } else {
        65535
    };
    padding.saturating_add(lines)
}

/// Part of a list: at most some items after those that are skipped.
pub open spec fn window_of<T>(items: Seq<T>, skipped: int, count: int) -> Seq<T> {
    let start = geometry::min_of(skipped, items.len() as int);
    items.subrange(start, geometry::min_of(start + count, items.len() as int))
}

/// Rows below some empty ones.
pub open spec fn padded_rows(
    padding: int,
    rows: Seq<Seq<(Seq<char>, SpanStyle)>>,
) -> Seq<Seq<(Seq<char>, SpanStyle)>> {
    Seq::new(
        if padding < 0 {
            0
        } else {
            padding as nat
        },
        |i: int| empty_row(),
    ) + rows
}

/// What is seen of a group when some of its rows are scrolled out.
pub fn visible_group_rows(
    rows: &Vec<StyledLine>,
    expanded: bool,
    top_padding: u16,
    scroll_offset: u16,
    height: u16,
) -> (r: Vec<StyledLine>)
    ensures
        r.deep_view() == window_of(
            padded_rows(group_padding(expanded, top_padding) as int, rows.deep_view()),
            scroll_offset as int,
            height as int,
        ),
{
    let padding: u16 = if expanded {
        1
    } else {
        top_padding
    };
    let ghost lines = rows.deep_view();
    let ghost all = padded_rows(padding as int, lines);
    let mut r: Vec<StyledLine> = Vec::new();
    let len: usize = rows.len();
    assert(lines.len() == len);
    assert(all.len() == padding + len);
    let visible_padding: u16 = padding.saturating_sub(scroll_offset);
    let shown_padding: u16 = if visible_padding < height {
        visible_padding
    } else {
        height
    };
    let content_scroll: usize = scroll_offset.saturating_sub(padding) as usize;
    let start: usize = if content_scroll < len {
        content_scroll
    } else {
        len
    };
    let room: usize = height.saturating_sub(visible_padding) as usize;
    let end: usize = if room < len - start {
        start + room
    } else {
        len
    };
    let mut i: u16 = 0;
    while i < shown_padding
        invariant
            i <= shown_padding,
            r@.len() == i,
            forall|k: int| 0 <= k < i ==> (#[trigger] r@[k]).deep_view() == empty_row(),
        decreases shown_padding - i,
    {
        let blank = blank_row();
        r.push(blank);
        i += 1;
    }
    let mut j: usize = start;
    while j < end
        invariant
            start <= j <= end,
            end <= len,
            len == rows@.len(),
            lines == rows.deep_view(),
            r@.len() == shown_padding + (j - start),
            forall|k: int|
                0 <= k < shown_padding ==> (#[trigger] r@[k]).deep_view() == empty_row(),
            forall|k: int|
                shown_padding <= k < r@.len() ==> (#[trigger] r@[k]).deep_view() == lines[start + k
                    - shown_padding],
        decreases end - j,
    {
        let row = rows[j].duplicate();
        r.push(row);
        j += 1;
    }
    proof {
        let from = geometry::min_of(scroll_offset as int, all.len() as int);
        let to = geometry::min_of(from + height, all.len() as int);
        assert(r@.len() == to - from);
        assert forall|k: int| 0 <= k < r@.len() implies (#[trigger] r.deep_view()[k]) == all[from
            + k] by {
            assert(r.deep_view()[k] == r@[k].deep_view());
        }
        assert(r.deep_view() =~= all.subrange(from, to));
    }
    r
}

/// A tool that runs is visible, whatever else has become of its group; one that has finished is
/// visible for less than two seconds.
pub proof fn visible_tools_have_rows(previews: Seq<PreviewModel>, now: u64, i: int)
    requires
        0 <= i < previews.len(),
        preview_visible(previews[i], now),
    ensures
        preview_rows_of(previews, now).contains(preview_row(previews[i])),
    decreases previews.len(),
{
    let front = preview_rows_of(previews.drop_last(), now);
    let all = preview_rows_of(previews, now);
    if i < previews.len() - 1 {
        visible_tools_have_rows(previews.drop_last(), now, i);
        let k = choose|k: int| 0 <= k < front.len() && front[k] == preview_row(previews[i]);
        assert(all[k] == preview_row(previews[i]));
    } else {
        assert(all[front.len() as int] == preview_row(previews[i]));
    }
}

/// What two groups did together is what the one did and what the other did, kind by kind.
pub proof fn activities_add_up(a: ToolActivity, b: ToolActivity)
    ensures
        a.call_count + b.call_count <= usize::MAX ==> together(a, b).call_count == a.call_count
            + b.call_count,
        a.searches + b.searches <= usize::MAX ==> together(a, b).searches == a.searches
            + b.searches,
        a.read_files + b.read_files <= usize::MAX ==> together(a, b).read_files == a.read_files
            + b.read_files,
        a.listed_directories + b.listed_directories <= usize::MAX ==> together(
            a,
            b,
        ).listed_directories == a.listed_directories + b.listed_directories,
        a.mcp_calls + b.mcp_calls <= usize::MAX ==> together(a, b).mcp_calls == a.mcp_calls
            + b.mcp_calls,
        a.background_terminal_interactions + b.background_terminal_interactions <= usize::MAX
            ==> together(a, b).background_terminal_interactions
            == a.background_terminal_interactions + b.background_terminal_interactions,
        a.background_terminal_waits + b.background_terminal_waits <= usize::MAX ==> together(
            a,
            b,
        ).background_terminal_waits == a.background_terminal_waits + b.background_terminal_waits,
        a.shell_commands + b.shell_commands <= usize::MAX ==> together(a, b).shell_commands
            == a.shell_commands + b.shell_commands,
        together(a, b) == together(b, a),
        together(a, no_activity()) == a,
{
}

/// How many of some counts are not zero.
pub open spec fn kinds_of(activity: ToolActivity) -> int {
    (if activity.searches > 0 {
        1int
    } else {
        0
    }) + (if activity.read_files > 0 {
        1int
    } else {
        0
    }) + (if activity.listed_directories > 0 {
        1int
    } else {
        0
    }) + (if activity.mcp_calls > 0 {
        1int
    } else {
        0
    }) + (if activity.background_terminal_interactions > 0 {
        1int
    } else {
        0
    }) + (if activity.background_terminal_waits > 0 {
        1int
    } else {
        0
    }) + (if activity.shell_commands > 0 {
        1int
    } else {
        0
    })
}

proof fn lemma_part_added(
    spans: Seq<(Seq<char>, SpanStyle)>,
    count: usize,
    initial_verb: Seq<char>,
    verb: Seq<char>,
    singular: Seq<char>,
    plural: Seq<char>,
    kinds: int,
)
    requires
        kinds >= 0,
        spans.len() == (if kinds == 0 {
            0int
        } else {
            4 * kinds - 1
        }),
    ensures
        ({
            let all = part_added(spans, count, initial_verb, verb, singular, plural);
            let now = kinds + if count > 0 {
                1int
            } else {
                0
            };
            &&& spans.is_prefix_of(all)
            &&& all.len() == (if now == 0 {
                0int
            } else {
                4 * now - 1
            })
            &&& count > 0 ==> all[all.len() - 2].0 == text::decimal(count as nat)
            &&& count > 0 ==> all[all.len() - 1].0 == " "@ + (if count == 1 {
                singular
            } else {
                plural
            })
            &&& count > 0 && kinds > 0 ==> all[all.len() - 3].0 == verb + " "@
            &&& count > 0 && kinds == 0 ==> all[all.len() - 3].0 == initial_verb + " "@
        }),
{
}

/// A summary names every kind of activity that occurred, with its number, and no other kind; the
/// last one is that of shell commands where some ran.
pub proof fn summaries_count_every_kind(activity: ToolActivity)
    ensures
        ({
            let spans = summary_of(activity);
            let kinds = kinds_of(activity);
            &&& spans.len() == (if kinds == 0 {
                0int
            } else {
                4 * kinds - 1
            })
            &&& activity.searches > 0 ==> spans[0].0 == "Searched for "@ && spans[1].0
                == text::decimal(activity.searches as nat)
            &&& activity.searches == 0 && activity.read_files > 0 ==> spans[0].0 == "Read "@
                && spans[1].0 == text::decimal(activity.read_files as nat)
            &&& activity.searches > 0 && activity.read_files > 0 ==> spans[4].0 == "read "@
                && spans[5].0 == text::decimal(activity.read_files as nat)
            &&& activity.shell_commands > 0 ==> spans[spans.len() - 2].0 == text::decimal(
                activity.shell_commands as nat,
            ) && spans[spans.len() - 1].0 == (if activity.shell_commands == 1 {
                " shell command"@
            } else {
                " shell commands"@
            })
        }),
{
    reveal_strlit(" ");
    reveal_strlit("Searched for");
    reveal_strlit("Searched for ");
    reveal_strlit("Read");
    reveal_strlit("Read ");
    reveal_strlit("read");
    reveal_strlit("read ");
    reveal_strlit("shell command");
    reveal_strlit("shell commands");
    reveal_strlit(" shell command");
    reveal_strlit(" shell commands");
    assert("Searched for"@ + " "@ =~= "Searched for "@);
    assert("Read"@ + " "@ =~= "Read "@);
    assert("read"@ + " "@ =~= "read "@);
    assert(" "@ + "shell command"@ =~= " shell command"@);
    assert(" "@ + "shell commands"@ =~= " shell commands"@);
    let s1 = part_added(
        Seq::empty(),
        activity.searches,
        "Searched for"@,
        "searched for"@,
        "pattern"@,
        "patterns"@,
    );
    let s2 = part_added(s1, activity.read_files, "Read"@, "read"@, "file"@, "files"@);
    let s3 = part_added(
        s2,
        activity.listed_directories,
        "Listed"@,
        "listed"@,
        "directory"@,
        "directories"@,
    );
    let s4 = part_added(
        s3,
        activity.mcp_calls,
        "Called"@,
        "called"@,
        "MCP tool"@,
        "MCP tools"@,
    );
    let s5 = part_added(
        s4,
        activity.background_terminal_interactions,
        "Interacted with"@,
        "interacted with"@,
        "background terminal"@,
        "background terminals"@,
    );
    let s6 = part_added(
        s5,
        activity.background_terminal_waits,
        "Waited for"@,
        "waited for"@,
        "background terminal"@,
        "background terminals"@,
    );
    let k1 = if activity.searches > 0 {
        1int
    } else {
        0
    };
    let k2 = k1 + if activity.read_files > 0 {
        1int
    } else {
        0
    };
    let k3 = k2 + if activity.listed_directories > 0 {
        1int
    } else {
        0
    };
    let k4 = k3 + if activity.mcp_calls > 0 {
        1int
    } else {
        0
    };
    let k5 = k4 + if activity.background_terminal_interactions > 0 {
        1int
    } else {
        0
    };
    let k6 = k5 + if activity.background_terminal_waits > 0 {
        1int
    } else {
        0
    };
    lemma_part_added(
        Seq::empty(),
        activity.searches,
        "Searched for"@,
        "searched for"@,
        "pattern"@,
        "patterns"@,
        0,
    );
    lemma_part_added(s1, activity.read_files, "Read"@, "read"@, "file"@, "files"@, k1);
    lemma_part_added(
        s2,
        activity.listed_directories,
        "Listed"@,
        "listed"@,
        "directory"@,
        "directories"@,
        k2,
    );
    lemma_part_added(
        s3,
        activity.mcp_calls,
        "Called"@,
        "called"@,
        "MCP tool"@,
        "MCP tools"@,
        k3,
    );
    lemma_part_added(
        s4,
        activity.background_terminal_interactions,
        "Interacted with"@,
        "interacted with"@,
        "background terminal"@,
        "background terminals"@,
        k4,
    );
    lemma_part_added(
        s5,
        activity.background_terminal_waits,
        "Waited for"@,
        "waited for"@,
        "background terminal"@,
        "background terminals"@,
        k5,
    );
    lemma_part_added(
        s6,
        activity.shell_commands,
        "Ran"@,
        "ran"@,
        "shell command"@,
        "shell commands"@,
        k6,
    );
}

/// A tool is visible while it runs and less than two seconds after it finished, and has one row
/// then, in the order of the tools.
pub proof fn finished_tools_leave_after_two_seconds(
    first: Seq<PreviewModel>,
    preview: PreviewModel,
    now: u64,
)
    ensures
        preview.running ==> preview_visible(preview, now),
        !preview.running && preview.completed_at is None ==> !preview_visible(preview, now),
        !preview.running && preview.completed_at is Some && preview.completed_at->0 <= now ==> (
        preview_visible(preview, now) <==> now - preview.completed_at->0 < 2_000_000_000),
        preview_rows_of(first.push(preview), now) == preview_rows_of(first, now) + (
        if preview_visible(preview, now) {
            seq![preview_row(preview)]
        } else {
            Seq::empty()
        }),
        preview_row(preview).len() == preview.line.len() + 1,
        forall|i: int|
            0 <= i < preview.line.len() ==> (#[trigger] preview_row(preview)[i + 1]).0
                == preview.line[i].0,
{
    assert(first.push(preview).drop_last() =~= first);
    assert(preview_rows_of(first.push(preview), now) =~= preview_rows_of(first, now) + (
    if preview_visible(preview, now) {
        seq![preview_row(preview)]
    } else {
        Seq::empty()
    }));
}

/// Tools are drawn again with the next frame while one of them runs, and otherwise when the first
/// one leaves its group.
pub proof fn tools_are_drawn_again_in_time(states: Seq<ToolRenderState>, now: u64, frame: u64, i: int)
    requires
        0 <= i < states.len(),
    ensures
        states[i].running ==> refresh_delay_of(states, now, frame) == Some(frame),
        states[i].next_expiry is Some && states[i].next_expiry->0 > now ==> next_expiry_of(
            states,
            now,
        ) is Some && next_expiry_of(states, now)->0 <= states[i].next_expiry->0,
        next_expiry_of(states, now) is Some ==> next_expiry_of(states, now)->0 > now && exists|
            k: int,
        |
            0 <= k < states.len() && (#[trigger] states[k]).next_expiry == next_expiry_of(
                states,
                now,
            ),
    decreases states.len(),
{
    lemma_next_expiry(states, now);
    let front = states.drop_last();
    let last = states.len() - 1;
    if front.len() > 0 {
        let j = if i < last {
            i
        } else {
            0
        };
        tools_are_drawn_again_in_time(front, now, frame, j);
        if next_expiry_of(front, now) is Some {
            let k = choose|k: int|
                0 <= k < front.len() && (#[trigger] front[k]).next_expiry == next_expiry_of(
                    front,
                    now,
                );
            assert(states[k].next_expiry == next_expiry_of(front, now));
        }
    }
    assert(states[last] == states.last());
}

/// An expanded group shows every row of every one of its cells in their order, and the rows of the
/// tool that runs below them; a collapsed one shows its summary and its visible tools.
pub proof fn expanded_groups_show_every_row(
    summary: Seq<Seq<(Seq<char>, SpanStyle)>>,
    previews: Seq<Seq<(Seq<char>, SpanStyle)>>,
    cells: Seq<DetailModel>,
    live: Option<DetailModel>,
    i: int,
) -> (at: int)
    requires
        0 <= i < cells.len(),
    ensures
        group_rows_of(false, summary, previews, cells, live) == summary + previews,
        0 <= at,
        at + cells[i].rows.len() <= group_rows_of(true, summary, previews, cells, live).len(),
        group_rows_of(true, summary, previews, cells, live).subrange(
            at,
            at + cells[i].rows.len(),
        ) == cells[i].rows,
        live is Some ==> group_rows_of(true, summary, previews, cells, live).len()
            >= live->0.rows.len() && group_rows_of(true, summary, previews, cells, live).subrange(
            group_rows_of(true, summary, previews, cells, live).len() - live->0.rows.len(),
            group_rows_of(true, summary, previews, cells, live).len() as int,
        ) == live->0.rows,
{
    let at = lemma_details_hold(cells, i);
    let details = all_details(cells);
    let rows = group_rows_of(true, summary, previews, cells, live);
    assert(rows.subrange(at, at + cells[i].rows.len()) =~= details.subrange(
        at,
        at + cells[i].rows.len(),
    ));
    if live is Some {
        assert(rows.subrange(rows.len() - live->0.rows.len(), rows.len() as int)
            =~= live->0.rows);
    }
    at
}

proof fn lemma_details_hold(cells: Seq<DetailModel>, i: int) -> (at: int)
    requires
        0 <= i < cells.len(),
    ensures
        0 <= at,
        at + cells[i].rows.len() <= all_details(cells).len(),
        all_details(cells).subrange(at, at + cells[i].rows.len()) == cells[i].rows,
    decreases cells.len(),
{
    let front = all_details(cells.drop_last());
    let all = all_details(cells);
    if i < cells.len() - 1 {
        let at = lemma_details_hold(cells.drop_last(), i);
        assert(all.subrange(at, at + cells[i].rows.len()) =~= front.subrange(
            at,
            at + cells[i].rows.len(),
        ));
        at
    } else {
        let at = all.len() - cells[i].rows.len();
        assert(all.subrange(at, at + cells[i].rows.len()) =~= cells[i].rows);
        at
    }
}

/// What is seen of a list are the items behind those that are scrolled out, as many as there is
/// room for.
pub proof fn windows_show_what_follows<T>(items: Seq<T>, skipped: int, count: int, k: int)
    requires
        0 <= skipped,
        0 <= count,
    ensures
        skipped + count <= items.len() ==> window_of(items, skipped, count).len() == count,
        skipped <= items.len() < skipped + count ==> window_of(items, skipped, count).len()
            == items.len() - skipped,
        skipped > items.len() ==> window_of(items, skipped, count).len() == 0,
        0 <= k < window_of(items, skipped, count).len() ==> window_of(items, skipped, count)[k]
            == items[skipped + k],
{
}

/// A tool that runs is shown as it is, and one that has finished dimmed and without colours. The
/// text is the same either way.
pub proof fn finished_tools_are_faded(preview: PreviewModel, i: int)
    requires
        0 <= i < preview.line.len(),
    ensures
        preview_row(preview).len() == preview.line.len() + 1,
        preview_row(preview)[0].0 == "  \u{2514} "@,
        preview_row(preview)[i + 1].0 == preview.line[i].0,
        preview.running ==> preview_row(preview)[i + 1] == preview.line[i],
        !preview.running ==> preview_row(preview)[i + 1].1.dim && preview_row(preview)[i + 1].1.tint
            == Tint::Plain && preview_row(preview)[i + 1].1.bold == preview.line[i].1.bold,
{
}

/// The rows of a group stand below its padding: one empty row where it is expanded, and else as
/// many as it was given.
pub proof fn groups_stand_below_their_padding(
    expanded: bool,
    top_padding: u16,
    rows: Seq<Seq<(Seq<char>, SpanStyle)>>,
    i: int,
)
    requires
        0 <= i,
    ensures
        ({
            let n = if expanded {
                1int
            } else {
                top_padding as int
            };
            let all = padded_rows(group_padding(expanded, top_padding) as int, rows);
            &&& all.len() == n + rows.len()
            &&& all.skip(n) == rows
            &&& i < n ==> all[i].len() == 0
        }),
{
    let n = if expanded {
        1int
    } else {
        top_padding as int
    };
    assert(padded_rows(group_padding(expanded, top_padding) as int, rows).skip(n) =~= rows);
}

/// The tool that runs stands right below the rows of the cells where it goes on with them, or where
/// there are none, and else below one empty row.
pub proof fn running_tools_stand_apart(
    summary: Seq<Seq<(Seq<char>, SpanStyle)>>,
    previews: Seq<Seq<(Seq<char>, SpanStyle)>>,
    cells: Seq<DetailModel>,
    tool: DetailModel,
)
    ensures
        ({
            let without = group_rows_of(true, summary, previews, cells, None);
            let with = group_rows_of(true, summary, previews, cells, Some(tool));
            let apart = without.len() > 0 && !tool.is_stream_continuation;
            &&& with.len() == without.len() + tool.rows.len() + (if apart {
                1int
            } else {
                0
            })
            &&& with.take(without.len() as int) == without
            &&& apart ==> with[without.len() as int].len() == 0
        }),
{
    let without = group_rows_of(true, summary, previews, cells, None);
    let with = group_rows_of(true, summary, previews, cells, Some(tool));
    assert(with.take(without.len() as int) =~= without);
}

/// The rows of a cell follow those of the cells before it: right below them where it goes on with
/// them, and else below one empty row.
pub proof fn cells_of_groups_stand_apart(cells: Seq<DetailModel>, cell: DetailModel)
    ensures
        ({
            let before = all_details(cells);
            let after = all_details(cells.push(cell));
            let apart = cells.len() > 0 && !cell.is_stream_continuation;
            let n = before.len() + (if apart {
                1int
            } else {
                0
            });
            &&& after.len() == n + cell.rows.len()
            &&& after.take(before.len() as int) == before
            &&& apart ==> after[before.len() as int].len() == 0
            &&& after.skip(n) == cell.rows
        }),
{
    let before = all_details(cells);
    let after = all_details(cells.push(cell));
    assert(cells.push(cell).drop_last() =~= cells);
    let n = before.len() + (if cells.len() > 0 && !cell.is_stream_continuation {
        1int
    } else {
        0
    });
    assert(after.take(before.len() as int) =~= before);
    assert(after.skip(n) =~= cell.rows);
}

} // verus!
