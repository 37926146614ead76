//! Coordinates and screen rectangles.
use vstd::prelude::*;

verus! {

/// A pair of values addressed by axis: `x` runs over columns, `y` over rows.
#[derive(Debug, Copy, Clone, Default, PartialEq, Eq, PartialOrd, Ord, Hash)]
pub struct XY<T> {
    pub x: T,
    pub y: T,
}

/// A rectangle of terminal cells, given by its top-left corner and its extent.
#[derive(Debug, Clone, Copy, Hash, PartialEq, Eq, Default)]
pub struct Rect {
    pub x: u16,
    pub y: u16,
    pub width: u16,
    pub height: u16,
}

impl Rect {
    /// The number of cells the rectangle covers.
    pub open spec fn spec_area(self) -> nat {
        (self.width * self.height) as nat
    }

    /// Whether the rectangle covers no cell at all.
    pub fn is_empty(&self) -> (empty: bool)
        ensures
            empty <==> self.spec_area() == 0,
    {
        assert(self.width * self.height == 0 <==> (self.width == 0 || self.height == 0))
            by (nonlinear_arith);
        self.width == 0 || self.height == 0
    }
}

} // verus!
