//! Places on the screen.

use vstd::prelude::*;

verus! {

/// A cell of the screen.
#[derive(Clone, Copy, Debug, PartialEq, Eq, Structural)]
pub struct Position {
    pub x: u16,
    pub y: u16,
}

/// A rectangle of cells.
#[derive(Clone, Copy, Debug, PartialEq, Eq, Structural)]
pub struct Area {
    pub x: u16,
    pub y: u16,
    pub width: u16,
    pub height: u16,
}

/// The sum of two coordinates, at most the largest one.
pub open spec fn saturating_sum(a: int, b: int) -> int {
    if a + b <= u16::MAX {
        a + b
    } else {
        u16::MAX as int
    }
}

/// The difference of two numbers, at least zero.
pub open spec fn monus(a: int, b: int) -> int {
    if a >= b {
        a - b
    } else {
        0
    }
}

/// The smaller one of two numbers.
pub open spec fn min_of(a: int, b: int) -> int {
    if a <= b {
        a
    } else {
        b
    }
}

/// The larger one of two numbers.
pub open spec fn max_of(a: int, b: int) -> int {
    if a >= b {
        a
    } else {
        b
    }
}

/// The product of two numbers, at most the largest coordinate.
pub fn saturating_product(a: u16, b: u16) -> (r: u16)
    ensures
        r == min_of(a * b, u16::MAX as int),
{
    assert(a * b <= 65535 * 65535) by (nonlinear_arith)
        requires
            a <= 65535,
            b <= 65535,
    ;
    assert(0 <= a * b) by (nonlinear_arith);
    let product: u32 = a as u32 * b as u32;
    if product <= 65535 {
        product as u16
    } else {
        65535
    }
}

impl Area {
    /// The first column right of the rectangle.
    pub open spec fn right_edge(self) -> int {
        saturating_sum(self.x as int, self.width as int)
    }

    /// The first row below the rectangle.
    pub open spec fn bottom_edge(self) -> int {
        saturating_sum(self.y as int, self.height as int)
    }

    /// Whether a cell lies in the rectangle.
    pub open spec fn holds(self, position: Position) -> bool {
        &&& self.x <= position.x < self.right_edge()
        &&& self.y <= position.y < self.bottom_edge()
    }

    /// Whether the rectangle has no cells.
    pub open spec fn empty(self) -> bool {
        self.width == 0 || self.height == 0
    }

    /// A rectangle without cells.
    pub fn nothing() -> (r: Self)
        ensures
            r == (Area { x: 0, y: 0, width: 0, height: 0 }),
    {
        Area { x: 0, y: 0, width: 0, height: 0 }
    }

    /// The first column right of the rectangle.
    pub fn right(self) -> (r: u16)
        ensures
            r == self.right_edge(),
    {
        self.x.saturating_add(self.width)
    }

    /// The first row below the rectangle.
    pub fn bottom(self) -> (r: u16)
        ensures
            r == self.bottom_edge(),
    {
        self.y.saturating_add(self.height)
    }

    /// Whether a cell lies in the rectangle.
    pub fn contains(self, position: Position) -> (r: bool)
        ensures
            r == self.holds(position),
    {
        self.x <= position.x && position.x < self.right() && self.y <= position.y && position.y
            < self.bottom()
    }

    /// Whether the rectangle has no cells.
    pub fn is_empty(self) -> (r: bool)
        ensures
            r == self.empty(),
    {
        self.width == 0 || self.height == 0
    }
}

} // verus!
