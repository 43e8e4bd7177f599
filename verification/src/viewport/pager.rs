//! Which rows of a long list are on the screen.

use crate::geometry;
use crate::scroll::MouseScrollDirection;
use vstd::prelude::*;

verus! {

/// How far a list is scrolled.
#[derive(Clone, Copy, Debug, PartialEq, Eq, Structural)]
pub struct PagerScroll {
    /// The first row on the screen; it does not count while the last row is followed.
    pub top: usize,
    /// Whether the last row stays on the screen when rows are added.
    pub following: bool,
}

/// The largest first row: the one with which the last row is on the screen.
pub open spec fn last_top(total: int, height: int) -> int {
    geometry::monus(total, height)
}

/// The first row on the screen.
pub open spec fn top_row(scroll: PagerScroll, total: int, height: int) -> int {
    if scroll.following {
        last_top(total, height)
    } else {
        geometry::min_of(scroll.top as int, last_top(total, height))
    }
}

/// The list scrolled to a first row. At the end the last row is followed.
pub open spec fn scrolled_to(top: int, total: int, height: int) -> PagerScroll {
    let last = last_top(total, height);
    PagerScroll { top: geometry::min_of(top, last) as usize, following: top >= last }
}

/// The list scrolled by some rows.
pub open spec fn scrolled(
    scroll: PagerScroll,
    direction: MouseScrollDirection,
    rows: int,
    total: int,
    height: int,
) -> PagerScroll {
    let top = top_row(scroll, total, height);
    match direction {
        MouseScrollDirection::Up => scrolled_to(geometry::monus(top, rows), total, height),
        MouseScrollDirection::Down => scrolled_to(top + rows, total, height),
    }
}

/// The list after rows were replaced: where they are above the screen, the rows on the screen
/// stay.
pub open spec fn spliced(scroll: PagerScroll, start: int, removed: int, added: int) -> PagerScroll {
    if scroll.following || scroll.top < start + removed {
        scroll
    } else {
        PagerScroll {
            top: geometry::min_of(scroll.top - removed + added, usize::MAX as int) as usize,
            following: false,
        }
    }
}

impl PagerScroll {
    /// The end of a list.
    pub fn new() -> (r: Self)
        ensures
            r == (PagerScroll { top: 0, following: true }),
    {
        PagerScroll { top: 0, following: true }
    }

    /// The first row on the screen.
    pub fn first_row(self, total: usize, height: usize) -> (r: usize)
        ensures
            r == top_row(self, total as int, height as int),
    {
        let last: usize = total.saturating_sub(height);
        if self.following || self.top > last {
            last
        } else {
            self.top
        }
    }

    /// Goes to the end of the list.
    pub fn scroll_to_bottom(&mut self)
        ensures
            *final(self) == (PagerScroll { top: old(self).top, following: true }),
    {
        self.following = true;
    }

    /// Scrolls by some rows.
    pub fn scroll_rows(
        &mut self,
        direction: MouseScrollDirection,
        rows: usize,
        total: usize,
        height: usize,
    )
        ensures
            *final(self) == scrolled(
                *old(self),
                direction,
                rows as int,
                total as int,
                height as int,
            ),
    {
        let top = self.first_row(total, height);
        let last: usize = total.saturating_sub(height);
        let next: usize = match direction {
            MouseScrollDirection::Up => top.saturating_sub(rows),
            MouseScrollDirection::Down => if rows < last - top {
                top + rows
            } else {
                last
            },
        };
        self.top = next;
        self.following = next >= last;
    }

    /// Takes note that rows were replaced.
    pub fn splice(&mut self, start: usize, removed: usize, added: usize)
        ensures
            *final(self) == spliced(*old(self), start as int, removed as int, added as int),
    {
        if !self.following && self.top >= start && self.top - start >= removed {
            self.top = (self.top - removed).saturating_add(added);
        }
    }
}

/// Where a row of a list of blocks belongs: the block and the row in it.
pub open spec fn block_of_row(heights: Seq<usize>, row: int) -> Option<(int, int)>
    decreases heights.len(),
{
    if heights.len() == 0 {
        None
    } else if row < heights[0] {
        Some((0, row))
    } else {
        match block_of_row(heights.subrange(1, heights.len() as int), row - heights[0]) {
            Some((block, row)) => Some((block + 1, row)),
            None => None,
        }
    }
}

/// Where a row of a list of blocks belongs.
pub fn locate_row(heights: &Vec<usize>, row: usize) -> (r: Option<(usize, usize)>)
    ensures
        block_of_row(heights@, row as int) == (match r {
            Some((block, row)) => Some((block as int, row as int)),
            None => None,
        }),
        r matches Some((block, _)) ==> block < heights@.len(),
{
    let mut i: usize = 0;
    let mut left: usize = row;
    assert(heights@.subrange(0, heights@.len() as int) =~= heights@);
    while i < heights.len()
        invariant
            i <= heights@.len(),
            block_of_row(heights@, row as int) == (match block_of_row(
                heights@.subrange(i as int, heights@.len() as int),
                left as int,
            ) {
                Some((block, row)) => Some((block + i, row)),
                None => None,
            }),
        decreases heights@.len() - i,
    {
        let ghost rest = heights@.subrange(i as int, heights@.len() as int);
        assert(rest[0] == heights@[i as int]);
        if left < heights[i] {
            return Some((i, left));
        }
        assert(rest.subrange(1, rest.len() as int) =~= heights@.subrange(
            i + 1,
            heights@.len() as int,
        ));
        left -= heights[i];
        i += 1;
    }
    None
}

/// Scrolling up leaves the end of a list that does not fit, and scrolling down by as much goes
/// back to it.
pub proof fn scrolling_back_follows_again(
    scroll: PagerScroll,
    rows: int,
    total: int,
    height: int,
)
    requires
        scroll.following,
        0 < rows,
        0 <= height < total <= usize::MAX,
    ensures
        ({
            let up = scrolled(scroll, MouseScrollDirection::Up, rows, total, height);
            &&& !up.following
            &&& scrolled(up, MouseScrollDirection::Down, rows, total, height).following
        }),
{
}

/// While the last row is followed, it stays on the screen whatever is added.
pub proof fn following_shows_the_last_row(scroll: PagerScroll, total: int, height: int)
    requires
        scroll.following,
        0 < height,
        0 < total,
    ensures
        top_row(scroll, total, height) <= total - 1 < top_row(scroll, total, height) + height,
{
}

/// Rows that are replaced above the screen do not move what is on it.
pub proof fn splicing_above_keeps_the_screen<T>(
    rows: Seq<T>,
    more: Seq<T>,
    scroll: PagerScroll,
    start: int,
    removed: int,
    height: int,
    k: int,
)
    requires
        !scroll.following,
        0 <= start,
        0 <= removed,
        start + removed <= scroll.top,
        scroll.top + height <= rows.len(),
        rows.len() - removed + more.len() <= usize::MAX,
        0 <= k < height,
    ensures
        ({
            let now = rows.take(start) + more + rows.skip(start + removed);
            let top = top_row(
                spliced(scroll, start, removed, more.len() as int),
                now.len() as int,
                height,
            );
            now[top + k] == rows[top_row(scroll, rows.len() as int, height) + k]
        }),
{
}

/// Scrolling moves the first row on the screen by as many rows as asked for, but not beyond the
/// first and the last screen, and the last row is followed just where it is on the screen.
pub proof fn scrolling_moves_by_rows(
    scroll: PagerScroll,
    rows: int,
    total: int,
    height: int,
)
    requires
        0 <= rows,
        0 <= height,
        0 <= total <= usize::MAX,
    ensures
        ({
            let top = top_row(scroll, total, height);
            let last = if total > height {
                total - height
            } else {
                0
            };
            let up = scrolled(scroll, MouseScrollDirection::Up, rows, total, height);
            let down = scrolled(scroll, MouseScrollDirection::Down, rows, total, height);
            &&& 0 <= top <= last
            &&& scroll.following ==> top == last
            &&& !scroll.following && scroll.top <= last ==> top == scroll.top
            &&& top_row(up, total, height) == (if rows <= top {
                top - rows
            } else {
                0
            })
            &&& top_row(down, total, height) == (if top + rows <= last {
                top + rows
            } else {
                last
            })
            &&& up.following <==> top_row(up, total, height) == last
            &&& down.following <==> top_row(down, total, height) == last
        }),
{
}

/// The height of the first blocks of a list.
pub open spec fn rows_before(heights: Seq<usize>, n: int) -> int
    decreases n,
{
    if n <= 0 {
        0
    } else {
        rows_before(heights, n - 1) + heights[n - 1]
    }
}

proof fn lemma_rows_before(heights: Seq<usize>, n: int)
    requires
        0 < n <= heights.len(),
    ensures
        rows_before(heights, n) == heights[0] + rows_before(
            heights.subrange(1, heights.len() as int),
            n - 1,
        ),
    decreases n,
{
    if n > 1 {
        lemma_rows_before(heights, n - 1);
        assert(heights.subrange(1, heights.len() as int)[n - 2] == heights[n - 1]);
    } else {
        reveal_with_fuel(rows_before, 2);
    }
}

/// A row belongs to the block in whose rows it lies, and to none behind the last block.
pub proof fn rows_belong_to_their_block(heights: Seq<usize>, row: int)
    requires
        0 <= row,
    ensures
        match block_of_row(heights, row) {
            Some((block, within)) => {
                &&& 0 <= block < heights.len()
                &&& 0 <= within < heights[block]
                &&& rows_before(heights, block) + within == row
            },
            None => rows_before(heights, heights.len() as int) <= row,
        },
    decreases heights.len(),
{
    if heights.len() > 0 && row >= heights[0] {
        let rest = heights.subrange(1, heights.len() as int);
        rows_belong_to_their_block(rest, row - heights[0]);
        match block_of_row(rest, row - heights[0]) {
            Some((block, within)) => {
                lemma_rows_before(heights, block + 1);
                assert(rest[block] == heights[block + 1]);
            },
            None => {
                lemma_rows_before(heights, heights.len() as int);
            },
        }
    }
}

} // verus!
