//! File changes that can be shown in full or in part.

use crate::data::Data;
use crate::geometry;
use crate::patches::FileChangeDisplayLines;
use crate::styled::{line1, plain, span, SpanStyle, StyledLine};
use crate::viewport::tool_groups;
use vstd::prelude::*;

verus! {

/// How many rows of a large change are shown when it is collapsed.
pub const FILE_CHANGE_PREVIEW_ROWS: usize = 50;

/// A row of a change, and whether a click on it expands or collapses the change.
#[derive(Debug)]
pub struct FileChangeRow {
    pub line: StyledLine,
    pub interactive: bool,
}

impl DeepView for FileChangeRow {
    type V = (Seq<(Seq<char>, SpanStyle)>, bool);

    open spec fn deep_view(&self) -> Self::V {
        (self.line.deep_view(), self.interactive)
    }
}

/// Whether a collapsed change still shows some of its rows.
pub open spec fn is_large(line_count: int) -> bool {
    line_count > FILE_CHANGE_PREVIEW_ROWS
}

/// How many rows of the change itself are shown: all when it is expanded; else those of the
/// heading, and of a large one the first rows.
pub open spec fn content_rows(line_count: int, heading_rows: int, expanded: bool) -> int {
    if expanded {
        line_count
    } else if is_large(line_count) {
        FILE_CHANGE_PREVIEW_ROWS as int
    } else {
        geometry::min_of(heading_rows, line_count)
    }
}

/// Whether there is a row below the change that expands or collapses it.
pub open spec fn has_footer(line_count: int, expanded: bool) -> bool {
    expanded || is_large(line_count)
}

/// How many rows are shown.
pub open spec fn shown_rows(line_count: int, heading_rows: int, expanded: bool) -> int {
    content_rows(line_count, heading_rows, expanded) + if has_footer(line_count, expanded) {
        1int
    } else {
        0
    }
}

/// Whether a click on a row expands or collapses the change: on the heading, and below it.
pub open spec fn toggles(row: int, line_count: int, heading_rows: int, expanded: bool) -> bool {
    ||| row < heading_rows
    ||| has_footer(line_count, expanded) && row == content_rows(line_count, heading_rows, expanded)
}

/// The row below a change.
pub open spec fn footer_row(expanded: bool) -> Seq<(Seq<char>, SpanStyle)> {
    seq![
        (
            if expanded {
                "  Show less \u{2191}"@
            } else {
                "  Show more \u{2193}"@
            },
            plain(),
        ),
    ]
}

/// The rows that are shown.
pub open spec fn rows_of(
    lines: Seq<Seq<(Seq<char>, SpanStyle)>>,
    heading_rows: int,
    expanded: bool,
) -> Seq<(Seq<(Seq<char>, SpanStyle)>, bool)> {
    let count = content_rows(lines.len() as int, heading_rows, expanded);
    let content = Seq::new(count as nat, |i: int| (lines[i], i < heading_rows));
    if has_footer(lines.len() as int, expanded) {
        content.push((footer_row(expanded), true))
    } else {
        content
    }
}

impl FileChangeDisplayLines {
    fn content_count(&self, expanded: bool) -> (r: usize)
        ensures
            r == content_rows(self.lines@.len() as int, self.heading_rows as int, expanded),
            r <= self.lines@.len(),
    {
        let count: usize = self.lines.len();
        if expanded {
            count
        } else if count > FILE_CHANGE_PREVIEW_ROWS {
            FILE_CHANGE_PREVIEW_ROWS
        } else if self.heading_rows < count {
            self.heading_rows
        } else {
            count
        }
    }

    /// The number of rows that the change takes.
    pub fn desired_height(&self, expanded: bool) -> (r: u16)
        ensures
            r == geometry::min_of(
                shown_rows(self.lines@.len() as int, self.heading_rows as int, expanded),
                u16::MAX as int,
            ),
    {
        let content = self.content_count(expanded);
        let footer = expanded || self.lines.len() > FILE_CHANGE_PREVIEW_ROWS;
        if content >= 65535 {
            65535
        } else if footer {
            content as u16 + 1
        } else {
            content as u16
        }
    }

    /// Whether a click on a row expands or collapses the change.
    pub fn row_toggles(&self, row: usize, expanded: bool) -> (r: bool)
        ensures
            r == toggles(
                row as int,
                self.lines@.len() as int,
                self.heading_rows as int,
                expanded,
            ),
    {
        let footer = expanded || self.lines.len() > FILE_CHANGE_PREVIEW_ROWS;
        row < self.heading_rows || (footer && row == self.content_count(expanded))
    }

    /// What is seen of the change when some of its rows are scrolled out.
    pub fn visible_rows(&self, expanded: bool, scroll_offset: u16, height: u16) -> (r: Vec<
        FileChangeRow,
    >)
        ensures
            r.deep_view() == tool_groups::window_of(
                rows_of(self.lines.deep_view(), self.heading_rows as int, expanded),
                scroll_offset as int,
                height as int,
            ),
    {
        let ghost lines = self.lines.deep_view();
        let ghost all = rows_of(lines, self.heading_rows as int, expanded);
        let content: usize = self.content_count(expanded);
        let footer = expanded || self.lines.len() > FILE_CHANGE_PREVIEW_ROWS;
        assert(lines.len() == self.lines@.len());
        assert(all.len() == content + if footer {
            1int
        } else {
            0
        });
        let offset: usize = scroll_offset as usize;
        let rows: usize = height as usize;
        let start: usize = if offset < content {
            offset
        } else {
            content
        };
        let end: usize = if rows < content - start {
            start + rows
        } else {
            content
        };
        let mut r: Vec<FileChangeRow> = Vec::new();
        let mut i: usize = start;
        while i < end
            invariant
                start <= i <= end,
                end <= content,
                content <= self.lines@.len(),
                lines == self.lines.deep_view(),
                r@.len() == i - start,
                forall|k: int|
                    0 <= k < r@.len() ==> (#[trigger] r@[k]).deep_view() == (
                        lines[start + k],
                        start + k < self.heading_rows,
                    ),
            decreases end - i,
        {
            let row = FileChangeRow {
                line: self.lines[i].duplicate(),
                interactive: i < self.heading_rows,
            };
            r.push(row);
            i += 1;
        }
        let ghost shown = r@;
        let with_footer = footer && offset <= content && content - start < rows;
        if with_footer {
            let label = if expanded {
                "  Show less \u{2191}"
            } else {
                "  Show more \u{2193}"
            };
            let line = line1(span(label, plain()));
            assert(line.deep_view() =~= footer_row(expanded));
            r.push(FileChangeRow { line, interactive: true });
        }
        proof {
            let from = geometry::min_of(offset as int, all.len() as int);
            let to = geometry::min_of(from + rows, all.len() as int);
            assert(r@.len() == to - from);
            assert forall|k: int| 0 <= k < r@.len() implies (#[trigger] r.deep_view()[k])
                == all[from + k] by {
                assert(r.deep_view()[k] == r@[k].deep_view());
                if k < shown.len() {
                    assert(r@[k] == shown[k]);
                }
            }
            assert(r.deep_view() =~= all.subrange(from, to));
        }
        r
    }
}

/// A click on the heading of a change toggles it whether it is expanded or not, and one on any
/// other row of the change itself does not.
pub proof fn headings_toggle(row: int, line_count: int, heading_rows: int, expanded: bool)
    requires
        0 <= row < content_rows(line_count, heading_rows, expanded),
    ensures
        toggles(row, line_count, heading_rows, expanded) <==> row < heading_rows,
{
}

/// An expanded change shows all of its rows and below them the way to collapse it. A collapsed one
/// shows its heading alone, or its first fifty rows and the way to expand it where it has more than
/// these. A click counts just on the rows that look so.
pub proof fn changes_are_shown_in_full_or_in_part(
    lines: Seq<Seq<(Seq<char>, SpanStyle)>>,
    heading_rows: int,
    expanded: bool,
    i: int,
)
    requires
        0 <= heading_rows <= lines.len(),
    ensures
        ({
            let rows = rows_of(lines, heading_rows, expanded);
            &&& rows.len() == shown_rows(lines.len() as int, heading_rows, expanded)
            &&& expanded ==> rows.len() == lines.len() + 1
            &&& !expanded && lines.len() > 50 ==> rows.len() == 51
            &&& !expanded && lines.len() <= 50 ==> rows.len() == heading_rows
            &&& expanded || lines.len() > 50 ==> rows.last().0[0].0 == (if expanded {
                "  Show less \u{2191}"@
            } else {
                "  Show more \u{2193}"@
            })
            &&& 0 <= i < rows.len() && !(i == rows.len() - 1 && (expanded || lines.len() > 50))
                ==> rows[i].0 == lines[i]
            &&& 0 <= i < rows.len() ==> rows[i].1 == toggles(
                i,
                lines.len() as int,
                heading_rows,
                expanded,
            )
            &&& 0 <= i < heading_rows && i < rows.len() ==> rows[i].1
        }),
{
}

/// The row below a change says whether a click shows more or less of it.
pub proof fn footers_say_what_a_click_does()
    ensures
        footer_row(true).len() == 1,
        footer_row(true)[0].0 == "  Show less \u{2191}"@,
        footer_row(false).len() == 1,
        footer_row(false)[0].0 == "  Show more \u{2193}"@,
{
}

} // verus!
