//! The rows and the rectangles of the panel.

use crate::data::Data;
use crate::diff_panel::parser::{DiffFileModel, DiffPanelFile};
use crate::geometry::{self, Area};
use crate::styled::{bold, dim, line1, plain, push_span, span, tinted, SpanStyle, StyledLine, StyledSpan, Tint};
use crate::text::{self, concat2, concat3, decimal_string};
use crate::viewport::tool_groups::{self, append_rows, blank_row};
use vstd::prelude::*;

verus! {

/// The narrowest terminal with a panel.
pub const MIN_DIFF_PANEL_TERMINAL_WIDTH: u16 = 110;

/// How much of the terminal the panel takes, in hundredths.
pub const PANEL_WIDTH_PERCENT: u16 = 40;

/// The columns between the conversation and the panel.
pub const DIFF_PANEL_GAP: u16 = 1;

/// The most files that are listed at once.
pub const MAX_VISIBLE_FILES: usize = 8;

/// The mark that closes the panel.
pub const CLOSE_SYMBOL: &'static str = "\u{2715}";

/// What stands for a change without a diff.
pub const NO_TEXT_CHANGE: &'static str = "Binary or mode-only change";

/// The width of the panel; a narrow terminal has none.
pub fn diff_panel_width(terminal_width: u16) -> (r: Option<u16>)
    ensures
        r == (if terminal_width < MIN_DIFF_PANEL_TERMINAL_WIDTH {
            None
        } else {
            Some(
                (geometry::min_of(terminal_width * PANEL_WIDTH_PERCENT, u16::MAX as int)
                    / 100) as u16,
            )
        }),
{
    if terminal_width < MIN_DIFF_PANEL_TERMINAL_WIDTH {
        return None;
    }
    Some(geometry::saturating_product(terminal_width, PANEL_WIDTH_PERCENT) / 100)
}

/// The lines that files add.
pub open spec fn total_added(files: Seq<DiffFileModel>) -> int
    decreases files.len(),
{
    if files.len() == 0 {
        0
    } else {
        total_added(files.drop_last()) + files.last().added
    }
}

/// The lines that files remove.
pub open spec fn total_removed(files: Seq<DiffFileModel>) -> int
    decreases files.len(),
{
    if files.len() == 0 {
        0
    } else {
        total_removed(files.drop_last()) + files.last().removed
    }
}

/// A text with a number behind it.
pub open spec fn numbered(sign: Seq<char>, n: int) -> Seq<char> {
    sign + text::decimal(n as nat)
}

/// What a line about changes ends with.
pub open spec fn stat_spans(added: int, removed: int) -> Seq<(Seq<char>, SpanStyle)> {
    seq![
        (numbered("+"@, added), tinted(Tint::Green)),
        (" "@, plain()),
        (numbered("-"@, removed), tinted(Tint::Red)),
    ]
}

/// The first line of the panel: how many files changed, and by how much.
pub open spec fn summary_of(files: Option<Seq<DiffFileModel>>) -> Seq<(Seq<char>, SpanStyle)> {
    match files {
        None => Seq::empty(),
        Some(files) => seq![
            (
                text::decimal(files.len()) + " "@ + if files.len() == 1 {
                    "file"@
                } else {
                    "files"@
                },
                bold(),
            ),
            (" changed "@, plain()),
        ] + stat_spans(total_added(files), total_removed(files)),
    }
}

/// Whether the numbers of the changed lines fit.
pub open spec fn totals_fit(files: Seq<DiffFileModel>) -> bool {
    total_added(files) <= usize::MAX && total_removed(files) <= usize::MAX
}

proof fn lemma_totals_grow(files: Seq<DiffFileModel>, n: int)
    requires
        0 <= n <= files.len(),
    ensures
        0 <= total_added(files.take(n)) <= total_added(files),
        0 <= total_removed(files.take(n)) <= total_removed(files),
    decreases files.len(),
{
    if n == files.len() {
        assert(files.take(n) =~= files);
        if n > 0 {
            lemma_totals_grow(files.drop_last(), n - 1);
            assert(files.drop_last().take(n - 1) =~= files.drop_last());
        }
    } else {
        lemma_totals_grow(files.drop_last(), n);
        assert(files.drop_last().take(n) =~= files.take(n));
    }
}

fn push_stats(spans: &mut Vec<StyledSpan>, added: usize, removed: usize)
    ensures
        final(spans).deep_view() == old(spans).deep_view() + stat_spans(
            added as int,
            removed as int,
        ),
{
    let ghost was = spans.deep_view();
    push_span(
        spans,
        concat2("+", decimal_string(added as u64).as_str()).as_str(),
        tinted(Tint::Green),
    );
    push_span(spans, " ", plain());
    push_span(
        spans,
        concat2("-", decimal_string(removed as u64).as_str()).as_str(),
        tinted(Tint::Red),
    );
    assert(spans.deep_view() =~= was + stat_spans(added as int, removed as int));
}

/// The first line of the panel.
pub fn summary_line(files: Option<&Vec<DiffPanelFile>>) -> (r: StyledLine)
    requires
        files matches Some(files) ==> totals_fit(files.deep_view()),
    ensures
        r.deep_view() == summary_of(
            match files {
                Some(files) => Some(files.deep_view()),
                None => None,
            },
        ),
{
    let mut spans: Vec<StyledSpan> = Vec::new();
    assert(spans.deep_view() =~= Seq::empty());
    let files = match files {
        Some(files) => files,
        None => {
            return StyledLine { spans };
        },
    };
    let ghost all = files.deep_view();
    let mut added: usize = 0;
    let mut removed: usize = 0;
    let mut i: usize = 0;
    assert(all.take(0) =~= Seq::empty());
    while i < files.len()
        invariant
            i <= files@.len(),
            all == files.deep_view(),
            totals_fit(all),
            added == total_added(all.take(i as int)),
            removed == total_removed(all.take(i as int)),
        decreases files@.len() - i,
    {
        proof {
            assert(all.take(i + 1).drop_last() =~= all.take(i as int));
            assert(all.take(i + 1).last() == files@[i as int].deep_view());
            lemma_totals_grow(all, i + 1);
        }
        added += files[i].added;
        removed += files[i].removed;
        i += 1;
    }
    assert(all.take(i as int) =~= all);
    let noun = if files.len() == 1 {
        "file"
    } else {
        "files"
    };
    assert(all.len() == files@.len());
    let count = concat3(decimal_string(files.len() as u64).as_str(), " ", noun);
    push_span(&mut spans, count.as_str(), bold());
    push_span(&mut spans, " changed ", plain());
    let ghost head = spans.deep_view();
    assert(head =~= seq![(count@, bold()), (" changed "@, plain())]);
    push_stats(&mut spans, added, removed);
    StyledLine { spans }
}

/// The heading of a file in the body.
pub open spec fn heading_of(file: DiffFileModel) -> Seq<(Seq<char>, SpanStyle)> {
    seq![(file.path, bold()), (" "@, plain())] + stat_spans(file.added as int, file.removed as int)
}

/// The heading of a file in the body, before it is cut to the width of the panel.
pub fn heading_line(file: &DiffPanelFile) -> (r: StyledLine)
    ensures
        r.deep_view() == heading_of(file.deep_view()),
{
    let mut spans: Vec<StyledSpan> = Vec::new();
    assert(spans.deep_view() =~= Seq::empty());
    push_span(&mut spans, file.path.as_str(), bold());
    push_span(&mut spans, " ", plain());
    assert(spans.deep_view() =~= seq![(file.path@, bold()), (" "@, plain())]);
    push_stats(&mut spans, file.added, file.removed);
    StyledLine { spans }
}

/// Some blanks.
pub open spec fn blanks(count: int) -> Seq<char> {
    Seq::new(
        if count < 0 {
            0
        } else {
            count as nat
        },
        |i: int| ' ',
    )
}

fn repeated(c: char, count: usize) -> (r: String)
    ensures
        r@ == Seq::new(count as nat, |i: int| c),
{
    let mut r = String::new();
    let mut i: usize = 0;
    while i < count
        invariant
            i <= count,
            r@.len() == i,
            forall|k: int| 0 <= k < i ==> r@[k] == c,
        decreases count - i,
    {
        r.push(c);
        i += 1;
    }
    assert(r@ =~= Seq::new(count as nat, |i: int| c));
    r
}

/// The columns for the path of a listed file.
pub fn path_columns(list_width: u16, prefix_columns: usize, stat_columns: usize) -> (r: usize)
    ensures
        r == geometry::monus(
            list_width as int,
            geometry::min_of(prefix_columns + stat_columns, usize::MAX as int),
        ),
{
    (list_width as usize).saturating_sub(prefix_columns.saturating_add(stat_columns))
}

/// How text looks that stands out while the mouse is over it.
pub open spec fn quiet_of(hovered: bool) -> SpanStyle {
    if hovered {
        plain()
    } else {
        dim()
    }
}

/// How text looks that stands out while the mouse is over it.
pub fn quiet(hovered: bool) -> (r: SpanStyle)
    ensures
        r == quiet_of(hovered),
{
    if hovered {
        plain()
    } else {
        dim()
    }
}

/// The row of a listed file. `path` is cut to `columns`, of which it takes `path_width`.
pub open spec fn file_row_of(
    selected: bool,
    hovered: bool,
    path: Seq<char>,
    path_width: int,
    columns: int,
    added: int,
    removed: int,
) -> Seq<(Seq<char>, SpanStyle)> {
    seq![
        (
            if selected {
                "\u{203a} "@
            } else {
                "  "@
            },
            plain(),
        ),
        (path, quiet_of(hovered)),
        (blanks(geometry::monus(columns, path_width)), plain()),
    ] + stat_spans(added, removed)
}

/// The row of a listed file.
pub fn file_row(
    selected: bool,
    hovered: bool,
    path: &str,
    path_width: usize,
    columns: usize,
    added: usize,
    removed: usize,
) -> (r: StyledLine)
    ensures
        r.deep_view() == file_row_of(
            selected,
            hovered,
            path@,
            path_width as int,
            columns as int,
            added as int,
            removed as int,
        ),
{
    let prefix = if selected {
        "\u{203a} "
    } else {
        "  "
    };
    let padding = repeated(' ', columns.saturating_sub(path_width));
    assert(padding@ =~= blanks(geometry::monus(columns as int, path_width as int)));
    let mut spans: Vec<StyledSpan> = Vec::new();
    assert(spans.deep_view() =~= Seq::empty());
    push_span(&mut spans, prefix, plain());
    push_span(&mut spans, path, quiet(hovered));
    push_span(&mut spans, padding.as_str(), plain());
    assert(spans.deep_view() =~= seq![
        (prefix@, plain()),
        (path@, quiet_of(hovered)),
        (padding@, plain()),
    ]);
    push_stats(&mut spans, added, removed);
    StyledLine { spans }
}

/// The row that tells of files above the listed ones.
pub open spec fn more_above_of(count: int) -> Seq<(Seq<char>, SpanStyle)> {
    seq![("\u{2191} "@ + text::decimal(count as nat) + " more above"@, dim())]
}

/// The row that tells of files above the listed ones.
pub fn more_above(count: usize) -> (r: StyledLine)
    ensures
        r.deep_view() == more_above_of(count as int),
{
    let text = concat3("\u{2191} ", decimal_string(count as u64).as_str(), " more above");
    let r = line1(span(text.as_str(), dim()));
    assert(r.deep_view() =~= seq![(text@, dim())]);
    r
}

/// The row that tells of files below the listed ones.
pub open spec fn more_below_of(count: int) -> Seq<(Seq<char>, SpanStyle)> {
    seq![("\u{2193} "@ + text::decimal(count as nat) + " more below"@, dim())]
}

/// The row that tells of files below the listed ones.
pub fn more_below(count: usize) -> (r: StyledLine)
    ensures
        r.deep_view() == more_below_of(count as int),
{
    let text = concat3("\u{2193} ", decimal_string(count as u64).as_str(), " more below");
    let r = line1(span(text.as_str(), dim()));
    assert(r.deep_view() =~= seq![(text@, dim())]);
    r
}

/// What the body shows of a file: its heading, and the rows of its diff where it has one.
#[derive(Debug)]
pub struct FileBody {
    pub heading: StyledLine,
    pub rows: Option<Vec<StyledLine>>,
}

/// The model of what the body shows of a file.
pub ghost struct FileBodyModel {
    pub heading: Seq<(Seq<char>, SpanStyle)>,
    pub rows: Option<Seq<Seq<(Seq<char>, SpanStyle)>>>,
}

impl DeepView for FileBody {
    type V = FileBodyModel;

    open spec fn deep_view(&self) -> Self::V {
        FileBodyModel { heading: self.heading.deep_view(), rows: self.rows.deep_view() }
    }
}

/// The rows of the body, and for each file the row of its heading.
#[derive(Debug)]
pub struct PanelLayout {
    pub lines: Vec<StyledLine>,
    pub file_offsets: Vec<usize>,
}

/// The line below a heading.
pub open spec fn rule_of(width: u16) -> Seq<(Seq<char>, SpanStyle)> {
    seq![
        (
            Seq::new(geometry::max_of(width as int, 1) as nat, |i: int| '\u{2500}'),
            dim(),
        ),
    ]
}

/// What stands for a change without a diff.
pub open spec fn no_text_row() -> Seq<(Seq<char>, SpanStyle)> {
    seq![(NO_TEXT_CHANGE@, SpanStyle { tint: Tint::Plain, bold: false, dim: true, italic: true })]
}

/// The rows of a file in the body.
pub open spec fn body_rows(file: FileBodyModel, width: u16) -> Seq<Seq<(Seq<char>, SpanStyle)>> {
    seq![file.heading, rule_of(width)] + match file.rows {
        Some(rows) => rows,
        None => seq![no_text_row()],
    }
}

/// The rows of the body: those of the files, with an empty one between them.
pub open spec fn layout_rows(files: Seq<FileBodyModel>, width: u16) -> Seq<
    Seq<(Seq<char>, SpanStyle)>,
>
    decreases files.len(),
{
    if files.len() == 0 {
        Seq::empty()
    } else if files.len() == 1 {
        body_rows(files[0], width)
    } else {
        layout_rows(files.drop_last(), width).push(tool_groups::empty_row()) + body_rows(
            files.last(),
            width,
        )
    }
}

/// The rows of the headings.
pub open spec fn layout_offsets(files: Seq<FileBodyModel>, width: u16) -> Seq<usize>
    decreases files.len(),
{
    if files.len() == 0 {
        Seq::empty()
    } else {
        let front = files.drop_last();
        layout_offsets(front, width).push(
            if front.len() == 0 {
                0
            } else {
                (layout_rows(front, width).len() + 1) as usize
            },
        )
    }
}

/// The rows of the body.
pub fn panel_layout(files: &Vec<FileBody>, width: u16) -> (r: PanelLayout)
    ensures
        r.lines.deep_view() == layout_rows(files.deep_view(), width),
        r.file_offsets@ == layout_offsets(files.deep_view(), width),
{
    let ghost all = files.deep_view();
    let mut lines: Vec<StyledLine> = Vec::new();
    let mut file_offsets: Vec<usize> = Vec::new();
    let columns: usize = if width < 1 {
        1
    } else {
        width as usize
    };
    let mut i: usize = 0;
    assert(all.take(0) =~= Seq::empty());
    assert(lines.deep_view() =~= Seq::empty());
    assert(file_offsets@ =~= Seq::empty());
    while i < files.len()
        invariant
            i <= files@.len(),
            all == files.deep_view(),
            columns == geometry::max_of(width as int, 1),
            lines.deep_view() == layout_rows(all.take(i as int), width),
            file_offsets@ == layout_offsets(all.take(i as int), width),
        decreases files@.len() - i,
    {
        let ghost before = lines.deep_view();
        assert(all.take(i + 1).drop_last() =~= all.take(i as int));
        assert(all.take(i + 1).last() == files@[i as int].deep_view());
        if i > 0 {
            let blank = blank_row();
            lines.push(blank);
            assert(lines.deep_view() =~= before.push(tool_groups::empty_row()));
        }
        let ghost spaced = lines.deep_view();
        assert(spaced.len() == lines@.len());
        file_offsets.push(lines.len());
        let heading = files[i].heading.duplicate();
        lines.push(heading);
        let text = repeated('\u{2500}', columns);
        let rule = line1(span(text.as_str(), dim()));
        assert(text@ =~= Seq::new(
            geometry::max_of(width as int, 1) as nat,
            |i: int| '\u{2500}',
        ));
        assert(rule.deep_view() =~= rule_of(width));
        lines.push(rule);
        let ghost headed = lines.deep_view();
        assert(headed =~= spaced + seq![heading.deep_view(), rule_of(width)]);
        match &files[i].rows {
            Some(rows) => {
                append_rows(&mut lines, rows);
            },
            None => {
                let style = SpanStyle { tint: Tint::Plain, bold: false, dim: true, italic: true };
                let row = line1(span(NO_TEXT_CHANGE, style));
                assert(row.deep_view() =~= no_text_row());
                lines.push(row);
                assert(lines.deep_view() =~= headed + seq![no_text_row()]);
            },
        }
        assert(lines.deep_view() =~= spaced + body_rows(all[i as int], width));
        proof {
            if i == 0 {
                assert(spaced =~= Seq::empty());
                assert(all.take(1)[0] == all[0]);
                assert(lines.deep_view() =~= body_rows(all[0], width));
            }
        }
        i += 1;
    }
    assert(all.take(i as int) =~= all);
    PanelLayout { lines, file_offsets }
}

/// The rectangles of the panel.
#[derive(Clone, Copy, Debug, PartialEq, Eq, Structural)]
pub struct PanelAreas {
    pub close: Area,
    /// The list of files with the rows that tell of more of them.
    pub file_list: Area,
    pub file_list_content: Area,
    pub body: Area,
}

/// No rectangles.
#[verifier::allow_in_spec]
pub fn no_areas() -> PanelAreas
    returns
        (PanelAreas {
            close: (Area { x: 0, y: 0, width: 0, height: 0 }),
            file_list: (Area { x: 0, y: 0, width: 0, height: 0 }),
            file_list_content: (Area { x: 0, y: 0, width: 0, height: 0 }),
            body: (Area { x: 0, y: 0, width: 0, height: 0 }),
        }),
{
    PanelAreas {
        close: Area { x: 0, y: 0, width: 0, height: 0 },
        file_list: Area { x: 0, y: 0, width: 0, height: 0 },
        file_list_content: Area { x: 0, y: 0, width: 0, height: 0 },
        body: Area { x: 0, y: 0, width: 0, height: 0 },
    }
}

/// A coordinate moved to the right or down, at most to the largest one.
pub open spec fn moved(a: u16, by: int) -> u16 {
    geometry::saturating_sum(a as int, by) as u16
}

/// A length made shorter, at least to zero.
pub open spec fn shortened(a: u16, by: int) -> u16 {
    geometry::monus(a as int, by) as u16
}

/// The inside of the panel: without a cell on each side.
pub open spec fn inside(area: Area) -> Area {
    Area {
        x: moved(area.x, 1),
        y: moved(area.y, 1),
        width: shortened(area.width, 2),
        height: shortened(area.height, 2),
    }
}

/// The inside of the panel.
pub fn inner_area(area: Area) -> (r: Area)
    ensures
        r == inside(area),
{
    Area {
        x: area.x.saturating_add(1),
        y: area.y.saturating_add(1),
        width: area.width.saturating_sub(2),
        height: area.height.saturating_sub(2),
    }
}

/// Where the panel is closed.
pub open spec fn close_of(inner: Area) -> Area {
    Area {
        x: geometry::monus(inner.right_edge(), 2) as u16,
        y: inner.y,
        width: geometry::min_of(2, inner.width as int) as u16,
        height: 1,
    }
}

/// How many files are listed at once.
pub open spec fn listed_files(inner: Area, count: int) -> int {
    let rows = geometry::max_of(geometry::monus(inner.height as int, 7), 1);
    geometry::min_of(
        geometry::min_of(count, MAX_VISIBLE_FILES as int),
        geometry::max_of(geometry::monus(rows, 2), 1),
    )
}

/// The first listed file: where the list is scrolled to, as far as that is possible.
pub open spec fn first_listed(inner: Area, count: int, start: int) -> int {
    geometry::min_of(start, count - listed_files(inner, count))
}

/// The rectangles of a panel that lists files.
pub open spec fn areas_with_files(inner: Area, count: int, start: int) -> PanelAreas {
    let listed = listed_files(inner, count);
    let first = first_listed(inner, count, start);
    let above = if first > 0 {
        1int
    } else {
        0
    };
    let below = if first + listed < count {
        1int
    } else {
        0
    };
    let list = Area {
        x: moved(inner.x, 1),
        y: moved(inner.y, 3),
        width: shortened(inner.width, 2),
        height: (listed + above + below) as u16,
    };
    let body_y = moved(list.bottom_edge() as u16, 1);
    PanelAreas {
        close: close_of(inner),
        file_list: list,
        file_list_content: (Area { y: moved(list.y, above), height: listed as u16, ..list }),
        body: (Area {
            x: list.x,
            y: body_y,
            width: list.width,
            height: geometry::monus(inner.bottom_edge(), body_y as int) as u16,
        }),
    }
}

fn close_area(inner: Area) -> (r: Area)
    ensures
        r == close_of(inner),
{
    Area {
        x: inner.right().saturating_sub(2),
        y: inner.y,
        width: if inner.width < 2 {
            inner.width
        } else {
            2
        },
        height: 1,
    }
}

/// The rectangles of a panel. `files` is the number of files; nothing where there are none to
/// show. Gives the first listed file too.
pub fn panel_areas(area: Area, files: Option<usize>, file_list_start: usize) -> (r: (
    PanelAreas,
    usize,
))
    ensures
        r == (if inside(area).empty() {
            (no_areas(), file_list_start)
        } else {
            match files {
                Some(count) if count > 0 => (
                    areas_with_files(inside(area), count as int, file_list_start as int),
                    first_listed(inside(area), count as int, file_list_start as int) as usize,
                ),
                _ => (
                    PanelAreas { close: close_of(inside(area)), ..no_areas() },
                    file_list_start,
                ),
            }
        }),
{
    let inner = inner_area(area);
    if inner.is_empty() {
        return (no_areas(), file_list_start);
    }
    let close = close_area(inner);
    let nothing = Area { x: 0, y: 0, width: 0, height: 0 };
    let count: usize = match files {
        Some(count) => count,
        None => 0,
    };
    if count == 0 {
        return (
            PanelAreas { close, file_list: nothing, file_list_content: nothing, body: nothing },
            file_list_start,
        );
    }
    let room: usize = inner.height.saturating_sub(7) as usize;
    let rows: usize = if room < 1 {
        1
    } else {
        room
    };
    let rows_for_files: usize = if rows.saturating_sub(2) < 1 {
        1
    } else {
        rows - 2
    };
    let most: usize = if count < MAX_VISIBLE_FILES {
        count
    } else {
        MAX_VISIBLE_FILES
    };
    let listed: usize = if most < rows_for_files {
        most
    } else {
        rows_for_files
    };
    let last_start: usize = count - listed;
    let first: usize = if file_list_start < last_start {
        file_list_start
    } else {
        last_start
    };
    let above: u16 = if first > 0 {
        1
    } else {
        0
    };
    let below: u16 = if first < last_start {
        1
    } else {
        0
    };
    let file_list = Area {
        x: inner.x.saturating_add(1),
        y: inner.y.saturating_add(3),
        width: inner.width.saturating_sub(2),
        height: listed as u16 + above + below,
    };
    let file_list_content = Area {
        x: file_list.x,
        y: file_list.y.saturating_add(above),
        width: file_list.width,
        height: listed as u16,
    };
    let body_y = file_list.bottom().saturating_add(1);
    let body = Area {
        x: file_list.x,
        y: body_y,
        width: file_list.width,
        height: inner.bottom().saturating_sub(body_y),
    };
    (PanelAreas { close, file_list, file_list_content, body }, first)
}

/// Where a message stands: its headline, and its hint where it has one.
pub fn message_areas(inner: Area) -> (r: (Area, Area))
    ensures
        ({
            let y = geometry::monus(
                geometry::saturating_sum(inner.y as int, inner.height as int / 2),
                1,
            ) as u16;
            let below = moved(y, 1);
            r == (
                Area {
                    x: moved(inner.x, 1),
                    y,
                    width: shortened(inner.width, 2),
                    height: 1,
                },
                Area {
                    x: moved(inner.x, 1),
                    y: below,
                    width: shortened(inner.width, 2),
                    height: geometry::min_of(
                        geometry::monus(inner.bottom_edge(), below as int),
                        2,
                    ) as u16,
                },
            )
        }),
{
    let y = inner.y.saturating_add(inner.height / 2).saturating_sub(1);
    let below = y.saturating_add(1);
    let x = inner.x.saturating_add(1);
    let width = inner.width.saturating_sub(2);
    let room = inner.bottom().saturating_sub(below);
    (
        Area { x, y, width, height: 1 },
        Area {
            x,
            y: below,
            width,
            height: if room < 2 {
                room
            } else {
                2
            },
        },
    )
}

/// The heading of a file stands at its row of the body.
pub proof fn offsets_point_at_headings(files: Seq<FileBodyModel>, width: u16, i: int)
    requires
        0 <= i < files.len(),
        layout_rows(files, width).len() < usize::MAX,
    ensures
        layout_offsets(files, width).len() == files.len(),
        layout_offsets(files, width)[i] < layout_rows(files, width).len(),
        layout_rows(files, width)[layout_offsets(files, width)[i] as int] == files[i].heading,
    decreases files.len(),
{
    let front = files.drop_last();
    lemma_offsets_len(files, width);
    if files.len() > 1 {
        let before = layout_rows(front, width);
        assert(layout_rows(files, width) == before.push(tool_groups::empty_row()) + body_rows(
            files.last(),
            width,
        ));
        if i < front.len() {
            offsets_point_at_headings(front, width, i);
        } else {
            assert(body_rows(files.last(), width)[0] == files.last().heading);
        }
    } else {
        assert(body_rows(files[0], width)[0] == files[0].heading);
    }
}

proof fn lemma_offsets_len(files: Seq<FileBodyModel>, width: u16)
    ensures
        layout_offsets(files, width).len() == files.len(),
    decreases files.len(),
{
    if files.len() > 0 {
        lemma_offsets_len(files.drop_last(), width);
    }
}

/// Where the list of files is scrolled to, some file is always listed, and never one that is not
/// there.
pub proof fn listed_files_exist(inner: Area, count: int, start: int)
    requires
        0 < count,
        0 <= start,
    ensures
        1 <= listed_files(inner, count) <= count,
        0 <= first_listed(inner, count, start) <= count - listed_files(inner, count),
{
}

/// The totals are the sums over the files, each file counted once.
pub proof fn totals_are_sums(first: Seq<DiffFileModel>, second: Seq<DiffFileModel>)
    ensures
        total_added(first + second) == total_added(first) + total_added(second),
        total_removed(first + second) == total_removed(first) + total_removed(second),
        second.len() == 1 ==> total_added(second) == second[0].added && total_removed(second)
            == second[0].removed,
        second.len() == 0 ==> total_added(second) == 0 && total_removed(second) == 0,
    decreases second.len(),
{
    if second.len() == 0 {
        assert(first + second =~= first);
    } else {
        totals_are_sums(first, second.drop_last());
        assert((first + second).drop_last() =~= first + second.drop_last());
        if second.len() == 1 {
            assert(second.drop_last() =~= Seq::empty());
        }
    }
}

/// The first line tells the number of the files, and how many lines they add and remove in all; the
/// heading of a file and its row in the list tell its path and the same of that file alone.
pub proof fn lines_tell_paths_and_counts(
    files: Seq<DiffFileModel>,
    file: DiffFileModel,
    selected: bool,
    hovered: bool,
    path: Seq<char>,
    path_width: int,
    columns: int,
)
    ensures
        summary_of(None).len() == 0,
        ({
            let line = summary_of(Some(files));
            &&& line.len() == 5
            &&& text::has_prefix(line[0].0, text::decimal(files.len()))
            &&& line[2].0 == "+"@ + text::decimal(total_added(files) as nat)
            &&& line[4].0 == "-"@ + text::decimal(total_removed(files) as nat)
        }),
        ({
            let line = heading_of(file);
            &&& line.len() == 5
            &&& line[0].0 == file.path
            &&& line[2].0 == "+"@ + text::decimal(file.added as nat)
            &&& line[4].0 == "-"@ + text::decimal(file.removed as nat)
            &&& line[2].1 == tinted(Tint::Green)
            &&& line[4].1 == tinted(Tint::Red)
        }),
        ({
            let line = file_row_of(
                selected,
                hovered,
                path,
                path_width,
                columns,
                file.added as int,
                file.removed as int,
            );
            &&& line.len() == 6
            &&& line[0].0 == (if selected {
                "\u{203a} "@
            } else {
                "  "@
            })
            &&& line[1].0 == path
            &&& path_width <= columns ==> line[2].0.len() == columns - path_width
            &&& line[3].0 == "+"@ + text::decimal(file.added as nat)
            &&& line[5].0 == "-"@ + text::decimal(file.removed as nat)
        }),
{
    let number = text::decimal(files.len());
    assert(summary_of(Some(files))[0].0.subrange(0, number.len() as int) =~= number);
}

/// Below the heading of a file and its line stand all rows of its diff in their order, or a note
/// where it has none, and after them an empty row before the next file.
pub proof fn bodies_hold_the_whole_diff(files: Seq<FileBodyModel>, width: u16, i: int, r: int)
    requires
        0 <= i < files.len(),
        layout_rows(files, width).len() < usize::MAX,
    ensures
        ({
            let rows = layout_rows(files, width);
            let at = layout_offsets(files, width)[i];
            &&& files[i].rows is Some && 0 <= r < files[i].rows->0.len() ==> at + 2 + r < rows.len()
                && rows[at + 2 + r] == files[i].rows->0[r]
            &&& files[i].rows is None ==> at + 2 < rows.len() && rows[at + 2][0].0
                == NO_TEXT_CHANGE@
            &&& i + 1 < files.len() ==> layout_offsets(files, width)[i + 1] == at + 3 + (
            if files[i].rows is Some {
                files[i].rows->0.len() as int
            } else {
                1
            })
            &&& i == 0 ==> at == 0
        }),
    decreases files.len(),
{
    let front = files.drop_last();
    lemma_offsets_len(files, width);
    lemma_offsets_len(front, width);
    let rows = layout_rows(files, width);
    if files.len() > 1 {
        let before = layout_rows(front, width);
        let last = body_rows(files.last(), width);
        assert(rows == before.push(tool_groups::empty_row()) + last);
        if i < front.len() {
            bodies_hold_the_whole_diff(front, width, i, r);
            assert(layout_offsets(files, width)[i] == layout_offsets(front, width)[i]);
            if i + 1 < front.len() {
                assert(layout_offsets(files, width)[i + 1] == layout_offsets(front, width)[i + 1]);
            } else {
                lemma_last_file_ends(front, width);
            }
        } else {
            let at = layout_offsets(files, width)[i];
            assert(at == before.len() + 1);
            if files[i].rows is Some && 0 <= r < files[i].rows->0.len() {
                assert(rows[at + 2 + r] == last[2 + r]);
            }
            if files[i].rows is None {
                assert(rows[at + 2] == last[2]);
            }
        }
    } else {
        assert(files[0] == files.last());
    }
}

proof fn lemma_last_file_ends(files: Seq<FileBodyModel>, width: u16)
    requires
        files.len() > 0,
        layout_rows(files, width).len() < usize::MAX,
    ensures
        layout_offsets(files, width).len() == files.len(),
        layout_rows(files, width).len() == layout_offsets(files, width).last() + body_rows(
            files.last(),
            width,
        ).len(),
{
    lemma_offsets_len(files, width);
    if files.len() > 1 {
        assert(layout_rows(files, width) == layout_rows(files.drop_last(), width).push(
            tool_groups::empty_row(),
        ) + body_rows(files.last(), width));
    } else {
        assert(files[0] == files.last());
    }
}

/// The list has room for eight files at the most, and is scrolled as far as it was, unless it would
/// show rows without files.
pub proof fn lists_are_scrolled_as_far_as_they_can(inner: Area, count: int, start: int)
    requires
        0 < count <= usize::MAX,
        0 <= start,
    ensures
        listed_files(inner, count) <= 8,
        inner.height >= 17 && count >= 8 ==> listed_files(inner, count) == 8,
        inner.height >= 17 && count < 8 ==> listed_files(inner, count) == count,
        start + listed_files(inner, count) <= count ==> first_listed(inner, count, start) == start,
        start + listed_files(inner, count) > count ==> first_listed(inner, count, start)
            + listed_files(inner, count) == count,
{
}

/// The parts of the panel lie below each other inside of it: the row with the cross, the list, and
/// the body down to the bottom.
pub proof fn parts_lie_below_each_other(inner: Area, count: int, start: int)
    requires
        0 < count <= usize::MAX,
        0 <= start,
        inner.height >= 8,
        inner.width >= 4,
        inner.x + inner.width < u16::MAX,
        inner.y + inner.height < u16::MAX,
        inner.y + 20 < u16::MAX,
    ensures
        ({
            let areas = areas_with_files(inner, count, start);
            &&& areas.close.y == inner.y
            &&& areas.close.x + areas.close.width == inner.x + inner.width
            &&& inner.y < areas.file_list.y
            &&& areas.file_list.y <= areas.file_list_content.y
            &&& areas.file_list_content.y + areas.file_list_content.height <= areas.file_list.y
                + areas.file_list.height
            &&& areas.file_list_content.height == listed_files(inner, count)
            &&& areas.file_list_content.y == areas.file_list.y + (if first_listed(
                inner,
                count,
                start,
            ) > 0 {
                1int
            } else {
                0int
            })
            &&& areas.body.y == areas.file_list.y + areas.file_list.height + 1
            &&& areas.body.y <= inner.y + inner.height ==> areas.body.y + areas.body.height
                == inner.y + inner.height
            &&& areas.body.x == areas.file_list.x
            &&& areas.file_list.x == inner.x + 1
            &&& areas.file_list.width == inner.width - 2
        }),
{
}

/// The rows around the listed files tell how many more there are, and in which direction.
pub proof fn files_out_of_sight_are_counted(count: int, other: int)
    requires
        0 <= count,
        0 <= other,
    ensures
        more_above_of(count).len() == 1,
        more_above_of(count)[0].0 == "\u{2191} "@ + text::decimal(count as nat) + " more above"@,
        more_below_of(count)[0].0 == "\u{2193} "@ + text::decimal(count as nat) + " more below"@,
        more_above_of(count) == more_above_of(other) ==> count == other,
        more_below_of(count) == more_below_of(other) ==> count == other,
        more_above_of(count)[0].0 != more_below_of(other)[0].0,
{
    reveal_strlit("\u{2191} ");
    reveal_strlit("\u{2193} ");
    let a = text::decimal(count as nat);
    let b = text::decimal(other as nat);
    text::numerals_stand_for_their_number(count as nat);
    text::numerals_stand_for_their_number(other as nat);
    let up = more_above_of(count)[0].0;
    let down = more_below_of(count)[0].0;
    assert(up.subrange(2, up.len() - " more above"@.len()) =~= a);
    assert(down.subrange(2, down.len() - " more below"@.len()) =~= a);
    let up_other = more_above_of(other)[0].0;
    let down_other = more_below_of(other)[0].0;
    assert(up_other.subrange(2, up_other.len() - " more above"@.len()) =~= b);
    assert(down_other.subrange(2, down_other.len() - " more below"@.len()) =~= b);
    assert(up[0] == '\u{2191}');
    assert(down_other[0] == '\u{2193}');
}

/// The inside of a panel leaves one cell free on each side of it.
pub proof fn insides_leave_a_cell_on_each_side(area: Area)
    requires
        area.width >= 2,
        area.height >= 2,
        area.x < u16::MAX,
        area.y < u16::MAX,
    ensures
        inside(area).x == area.x + 1,
        inside(area).y == area.y + 1,
        inside(area).x + inside(area).width == area.x + area.width - 1,
        inside(area).y + inside(area).height == area.y + area.height - 1,
{
}

/// The parts of the lines that tell of changes stand one blank apart, and the first line says
/// `file` of one and `files` of any other number.
pub proof fn parts_of_lines_stand_apart(files: Seq<DiffFileModel>, file: DiffFileModel)
    ensures
        summary_of(Some(files))[0].0 == text::decimal(files.len()) + " "@ + (if files.len() == 1 {
            "file"@
        } else {
            "files"@
        }),
        summary_of(Some(files))[1].0 == " changed "@,
        summary_of(Some(files))[3].0 == " "@,
        heading_of(file)[1].0 == " "@,
        heading_of(file)[3].0 == " "@,
        summary_of(Some(files))[0].1.bold,
        heading_of(file)[0].1.bold,
{
}

} // verus!
