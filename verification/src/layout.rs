//! Dividing an area of the screen into parts, one below the other.

use crate::geometry::Area;
use ratatui::layout::{Constraint, Layout, Rect};
use vstd::prelude::*;

verus! {

/// The height that a part of an area asks for: a number of rows, or a share of the rows that are
/// left over.
#[derive(Clone, Copy, Debug, PartialEq, Eq, Structural)]
pub enum RowHeight {
    Length(u16),
    Fill(u16),
}

/// How many rows the parts ask for by number.
pub open spec fn fixed_rows(heights: Seq<RowHeight>) -> int
    decreases heights.len(),
{
    if heights.len() == 0 {
        0
    } else {
        fixed_rows(heights.drop_last()) + match heights.last() {
            RowHeight::Length(rows) => rows as int,
            RowHeight::Fill(_) => 0,
        }
    }
}

/// How many parts share the rows that are left over.
pub open spec fn sharing_parts(heights: Seq<RowHeight>) -> int
    decreases heights.len(),
{
    if heights.len() == 0 {
        0
    } else {
        sharing_parts(heights.drop_last()) + match heights.last() {
            RowHeight::Length(_) => 0int,
            RowHeight::Fill(_) => 1,
        }
    }
}

/// Whether an area, all of it on the screen, has room for what the parts ask for by number, and
/// one part takes the rest.
pub open spec fn has_room(area: Area, heights: Seq<RowHeight>) -> bool {
    &&& area.y + area.height <= u16::MAX
    &&& fixed_rows(heights) <= area.height
    &&& sharing_parts(heights) == 1
}

/// The height of a part of an area that has room for all parts.
pub open spec fn part_height(area: Area, heights: Seq<RowHeight>, i: int) -> int {
    match heights[i] {
        RowHeight::Length(rows) => rows as int,
        RowHeight::Fill(_) => area.height - fixed_rows(heights),
    }
}

/// The height of the first `n` parts of an area that has room for all parts.
pub open spec fn rows_above(area: Area, heights: Seq<RowHeight>, n: int) -> int
    decreases n,
{
    if n <= 0 {
        0
    } else {
        rows_above(area, heights, n - 1) + part_height(area, heights, n - 1)
    }
}

/// Whether a part takes the columns of its area, and lies within the rows of it.
pub open spec fn part_of(part: Area, area: Area) -> bool {
    &&& part.x == area.x
    &&& part.width == area.width
    &&& area.y <= part.y
    &&& part.y + part.height <= area.bottom_edge()
}

/// Calls `ratatui::layout::Layout::split` on a vertical layout of the heights. It gives as many
/// parts as there are heights, each one as wide as the area and within its rows. In an area with
/// room for all of them a part with a length has that length, the one that fills has the rows that
/// are left over, and they stand below each other from the top of the area on. How rows are shared
/// out where there are too few of them, or several parts that fill, is left unsaid: several ways
/// can be equally good, and the numeric solver takes the one to which the order leads in which it
/// walks a hash map.
#[verifier::external_body]
pub(crate) fn split_rows(area: Area, heights: &Vec<RowHeight>) -> (r: Vec<Area>)
    ensures
        r@.len() == heights@.len(),
        forall|i: int| 0 <= i < r@.len() ==> part_of(#[trigger] r@[i], area),
        has_room(area, heights@) ==> forall|i: int|
            0 <= i < r@.len() ==> (#[trigger] r@[i]).y == area.y + rows_above(area, heights@, i)
                && r@[i].height == part_height(area, heights@, i),
{
    let constraints = heights.iter().map(
        |height| match height {
            RowHeight::Length(rows) => Constraint::Length(*rows),
            RowHeight::Fill(share) => Constraint::Fill(*share),
        },
    );
    let area = Rect { x: area.x, y: area.y, width: area.width, height: area.height };
    Layout::vertical(constraints).split(area).iter().map(
        |part| Area { x: part.x, y: part.y, width: part.width, height: part.height },
    ).collect()
}

} // verus!
