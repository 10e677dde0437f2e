//! Rectangles on the terminal cell grid.
//!
//! A rectangle is the half-open box `[x, x + width) x [y, y + height)`;
//! a cell position is inside it exactly when both half-open ranges hold it.

use vstd::prelude::*;

verus! {

/// Mathematical model of a rectangle, over unbounded integers.
pub struct RectModel {
    pub x: int,
    pub y: int,
    pub width: int,
    pub height: int,
}

/// A rectangle in terminal-cell units.
#[derive(Clone, Copy, PartialEq, Eq, Structural, Debug)]
pub struct Rect {
    pub x: u16,
    pub y: u16,
    pub width: u16,
    pub height: u16,
}

impl View for Rect {
    type V = RectModel;

    open spec fn view(&self) -> RectModel {
        RectModel {
            x: self.x as int,
            y: self.y as int,
            width: self.width as int,
            height: self.height as int,
        }
    }
}

/// The cell `(px, py)` lies inside `r`.
pub open spec fn model_contains(r: RectModel, px: int, py: int) -> bool {
    &&& r.x <= px < r.x + r.width
    &&& r.y <= py < r.y + r.height
}

/// The two boxes share no cell: they are separated on one of the two axes.
pub open spec fn models_disjoint(a: RectModel, b: RectModel) -> bool {
    ||| a.x + a.width <= b.x
    ||| b.x + b.width <= a.x
    ||| a.y + a.height <= b.y
    ||| b.y + b.height <= a.y
}

/// Every cell of `inner` is a cell of `outer`.
pub open spec fn model_within(inner: RectModel, outer: RectModel) -> bool {
    &&& outer.x <= inner.x
    &&& inner.x + inner.width <= outer.x + outer.width
    &&& outer.y <= inner.y
    &&& inner.y + inner.height <= outer.y + outer.height
}

/// Axis separation really means no common cell.
pub proof fn lemma_disjoint_no_common_cell(a: RectModel, b: RectModel, px: int, py: int)
    requires
        models_disjoint(a, b),
    ensures
        !(model_contains(a, px, py) && model_contains(b, px, py)),
{
}

impl Rect {
    pub fn new(x: u16, y: u16, width: u16, height: u16) -> (r: Rect)
        ensures
            r@ == (RectModel { x: x as int, y: y as int, width: width as int, height: height as int }),
    {
        Rect { x, y, width, height }
    }

    /// Half-open containment test for a cell position.
    pub fn contains(&self, px: u16, py: u16) -> (r: bool)
        ensures
            r == model_contains(self@, px as int, py as int),
    {
        self.x <= px && (px as u32) < self.x as u32 + self.width as u32 && self.y <= py
            && (py as u32) < self.y as u32 + self.height as u32
    }
}

} // verus!
