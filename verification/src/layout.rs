//! The responsive tile-layout engine.
//!
//! Tiles are placed row-major into a grid of equal-width columns. The
//! engine fits as many columns as the viewport width allows at the minimum
//! column width (but never more than there are tiles, and always at least
//! one), then widens every column to an equal share of the viewport,
//! clamped at the maximum column width. Every tile has a fixed height.
//!
//! Resolution is lazy: the engine remembers the viewport size it last
//! resolved and reuses the stored geometry while the viewport is unchanged.

use vstd::arithmetic::div_mod::{
    lemma_basic_div, lemma_div_is_ordered, lemma_div_multiples_vanish, lemma_div_nonincreasing,
    lemma_div_pos_is_pos, lemma_fundamental_div_mod, lemma_mod_bound,
};
use vstd::arithmetic::mul::{lemma_mul_inequality, lemma_mul_left_inequality};
use vstd::prelude::*;

use crate::geom::{model_within, models_disjoint, Rect, RectModel};

verus! {

/// Minimum width of a grid column, in cells.
pub const MIN_COL_WIDTH: u16 = 10;

/// Maximum width of a grid column, in cells.
pub const MAX_COL_WIDTH: u16 = 40;

/// Fixed height of every tile, in cells.
pub const TILE_HEIGHT: u16 = 5;

/// Number of columns chosen for viewport width `w` and `n` tiles: as many
/// columns of the minimum width as fit (at least one, even in a viewport
/// narrower than the minimum), but never more than there are tiles, and
/// none at all when there are no tiles.
pub open spec fn col_count(w: u16, n: nat) -> int {
    if n == 0 {
        0
    } else {
        let fit = if w as int / (MIN_COL_WIDTH as int) >= 1 {
            w as int / (MIN_COL_WIDTH as int)
        } else {
            1
        };
        if n < fit {
            n as int
        } else {
            fit
        }
    }
}

/// Width of every column: an equal share of the viewport width, clamped at
/// the maximum column width.
pub open spec fn col_width(w: u16, n: nat) -> int {
    let k = col_count(w, n);
    if k == 0 {
        0
    } else if w as int / k <= MAX_COL_WIDTH as int {
        w as int / k
    } else {
        MAX_COL_WIDTH as int
    }
}

/// Number of grid rows: tiles fill rows of `col_count` columns, row-major.
pub open spec fn row_count(w: u16, n: nat) -> int {
    if n == 0 {
        0
    } else {
        (n - 1) as int / col_count(w, n) + 1
    }
}

/// The container rectangle: exactly the full viewport.
pub open spec fn container_model(w: u16, h: u16) -> RectModel {
    RectModel { x: 0, y: 0, width: w as int, height: h as int }
}

/// The rectangle of tile `i`: grid cell `(i % col_count, i / col_count)`.
pub open spec fn tile_model(w: u16, n: nat, i: int) -> RectModel {
    RectModel {
        x: (i % col_count(w, n)) * col_width(w, n),
        y: (i / col_count(w, n)) * (TILE_HEIGHT as int),
        width: col_width(w, n),
        height: TILE_HEIGHT as int,
    }
}

/// All tile rectangles of a resolution, in registry order.
pub open spec fn tile_models(w: u16, n: nat) -> Seq<RectModel> {
    Seq::new(n, |i: int| tile_model(w, n, i))
}

/// Every tile is as wide as its column; the clamp keeps that width at most
/// the maximum, and at least the minimum unless the viewport itself is
/// narrower, in which case the single column spans the whole viewport.
/// Horizontally, every tile lies inside the viewport.
pub open spec fn tile_shaped(w: u16, r: RectModel) -> bool {
    &&& r.width <= MAX_COL_WIDTH as int
    &&& if w < MIN_COL_WIDTH {
        r.width == w as int
    } else {
        r.width >= MIN_COL_WIDTH as int
    }
    &&& r.height == TILE_HEIGHT as int
    &&& 0 <= r.x
    &&& r.x + r.width <= w as int
    &&& 0 <= r.y
}

/// Dimensions of the column grid: at least one column, no more columns than
/// tiles, columns within the clamp, and the whole grid no wider than the
/// viewport.
proof fn lemma_grid_dims(w: u16, n: nat)
    requires
        w >= 1,
        n >= 1,
    ensures
        1 <= col_count(w, n) <= n,
        col_count(w, n) <= w as int,
        1 <= col_width(w, n) <= MAX_COL_WIDTH as int,
        w < MIN_COL_WIDTH ==> col_width(w, n) == w as int,
        w >= MIN_COL_WIDTH ==> col_width(w, n) >= MIN_COL_WIDTH as int,
        col_count(w, n) * col_width(w, n) <= w as int,
{
    let wi = w as int;
    let fit = if wi / 10 >= 1 {
        wi / 10
    } else {
        1
    };
    let k = col_count(w, n);
    let cw = col_width(w, n);
    lemma_div_pos_is_pos(wi, 10);
    lemma_div_nonincreasing(wi, 10);
    assert(1 <= k <= fit);
    lemma_div_pos_is_pos(wi, k);
    lemma_div_nonincreasing(wi, k);
    if wi < 10 {
        lemma_basic_div(wi, 10);
        assert(k == 1);
        assert(wi / 1 == wi) by {
            lemma_fundamental_div_mod(wi, 1);
            lemma_mod_bound(wi, 1);
        }
        assert(cw == wi);
        assert(k * cw == wi) by (nonlinear_arith)
            requires
                k == 1,
                cw == wi,
        ;
    } else {
        assert(wi / 10 >= 10int / 10) by {
            lemma_div_is_ordered(10, wi, 10);
        }
        assert(10int / 10 == 1) by {
            lemma_fundamental_div_mod(10, 10);
            lemma_mod_bound(10, 10);
        }
        assert(fit == wi / 10);
        // the grid of minimum-width columns fits the viewport
        lemma_fundamental_div_mod(wi, 10);
        lemma_mod_bound(wi, 10);
        assert(10 * (wi / 10) <= wi);
        assert(k * 10 <= fit * 10) by {
            lemma_mul_inequality(k, fit, 10);
        }
        assert(10 * k <= wi);
        // hence the equal share per column is at least the minimum width
        assert((k * 10) / k == 10) by {
            lemma_div_multiples_vanish(10, k);
        }
        lemma_div_is_ordered(10 * k, wi, k);
        assert(wi / k >= 10);
        assert(MIN_COL_WIDTH as int <= cw <= MAX_COL_WIDTH as int);
        // the grid of clamped columns fits the viewport as well
        lemma_fundamental_div_mod(wi, k);
        lemma_mod_bound(wi, k);
        assert(k * (wi / k) <= wi);
        assert(k * cw <= k * (wi / k)) by {
            lemma_mul_left_inequality(k, cw, wi / k);
        }
    }
}

/// Shape of every resolved layout: each tile's width obeys the column
/// clamp, each tile lies inside the viewport horizontally, and distinct
/// tiles never share a cell.
pub proof fn lemma_layout_shape(w: u16, n: nat)
    requires
        w >= 1,
    ensures
        forall|i: int| 0 <= i < n ==> tile_shaped(w, #[trigger] tile_model(w, n, i)),
        forall|i: int, j: int|
            0 <= i < n && 0 <= j < n && i != j ==> models_disjoint(
                #[trigger] tile_model(w, n, i),
                #[trigger] tile_model(w, n, j),
            ),
{
    if n >= 1 {
        lemma_grid_dims(w, n);
        let k = col_count(w, n);
        let cw = col_width(w, n);
        assert forall|i: int| 0 <= i < n implies tile_shaped(w, #[trigger] tile_model(w, n, i)) by {
            lemma_mod_bound(i, k);
            lemma_div_pos_is_pos(i, k);
            assert((i % k) * cw + cw <= k * cw) by (nonlinear_arith)
                requires
                    i % k + 1 <= k,
                    cw >= 0,
            ;
            assert(0 <= (i % k) * cw) by (nonlinear_arith)
                requires
                    0 <= i % k,
                    0 <= cw,
            ;
            assert(0 <= (i / k) * (TILE_HEIGHT as int));
        }
        assert forall|i: int, j: int|
            0 <= i < n && 0 <= j < n && i != j implies models_disjoint(
            #[trigger] tile_model(w, n, i),
            #[trigger] tile_model(w, n, j),
        ) by {
            lemma_mod_bound(i, k);
            lemma_mod_bound(j, k);
            lemma_div_pos_is_pos(i, k);
            lemma_div_pos_is_pos(j, k);
            if i / k == j / k {
                assert(i % k != j % k) by {
                    lemma_fundamental_div_mod(i, k);
                    lemma_fundamental_div_mod(j, k);
                }
                if i % k < j % k {
                    assert((i % k) * cw + cw <= (j % k) * cw) by (nonlinear_arith)
                        requires
                            i % k + 1 <= j % k,
                            cw >= 0,
                    ;
                } else {
                    assert((j % k) * cw + cw <= (i % k) * cw) by (nonlinear_arith)
                        requires
                            j % k + 1 <= i % k,
                            cw >= 0,
                    ;
                }
            } else if i / k < j / k {
                assert((i / k) * (TILE_HEIGHT as int) + TILE_HEIGHT as int <= (j / k) * (
                TILE_HEIGHT as int));
            } else {
                assert((j / k) * (TILE_HEIGHT as int) + TILE_HEIGHT as int <= (i / k) * (
                TILE_HEIGHT as int));
            }
        }
    }
}

/// When all its rows fit the viewport height, the whole grid lies inside
/// the container rectangle, which is exactly the full viewport.
pub proof fn lemma_layout_within_container(w: u16, h: u16, n: nat)
    requires
        w >= 1,
        row_count(w, n) * (TILE_HEIGHT as int) <= h as int,
    ensures
        forall|i: int|
            0 <= i < n ==> model_within(#[trigger] tile_model(w, n, i), container_model(w, h)),
{
    if n >= 1 {
        lemma_grid_dims(w, n);
        let k = col_count(w, n);
        let cw = col_width(w, n);
        assert forall|i: int|
            0 <= i < n implies model_within(
            #[trigger] tile_model(w, n, i),
            container_model(w, h),
        ) by {
            lemma_mod_bound(i, k);
            lemma_div_pos_is_pos(i, k);
            assert((i % k) * cw + cw <= k * cw) by (nonlinear_arith)
                requires
                    i % k + 1 <= k,
                    cw >= 0,
            ;
            assert(0 <= (i % k) * cw) by (nonlinear_arith)
                requires
                    0 <= i % k,
                    0 <= cw,
            ;
            lemma_div_is_ordered(i, n as int - 1, k);
            assert(i / k <= row_count(w, n) - 1);
            assert((i / k) * (TILE_HEIGHT as int) + TILE_HEIGHT as int <= row_count(w, n) * (
            TILE_HEIGHT as int));
        }
    }
}

/// With no tiles there is no geometry: the rectangle set is empty for every
/// viewport.
pub proof fn lemma_zero_tiles(w: u16)
    ensures
        tile_models(w, 0) =~= Seq::<RectModel>::empty(),
{
}

/// Compute the tile rectangles for `n` tiles in a viewport of width `w`.
fn compute_tiles(w: u16, n: usize) -> (r: Vec<Rect>)
    requires
        w >= 1,
        5 * (n as int) <= 65535,
    ensures
        r@.len() == n,
        forall|i: int| 0 <= i < n ==> #[trigger] r@[i]@ == tile_model(w, n as nat, i),
{
    let mut tiles: Vec<Rect> = Vec::new();
    if n == 0 {
        return tiles;
    }
    proof {
        lemma_grid_dims(w, n as nat);
    }
    let fit: u16 = if w / MIN_COL_WIDTH >= 1 {
        w / MIN_COL_WIDTH
    } else {
        1
    };
    let k: usize = if n < fit as usize {
        n
    } else {
        fit as usize
    };
    assert(k as int == col_count(w, n as nat));
    let share: u16 = w / (k as u16);
    let cw: u16 = if share <= MAX_COL_WIDTH {
        share
    } else {
        MAX_COL_WIDTH
    };
    assert(cw as int == col_width(w, n as nat));
    let mut i: usize = 0;
    while i < n
        invariant
            i <= n,
            tiles@.len() == i as int,
            forall|j: int| 0 <= j < i as int ==> #[trigger] tiles@[j]@ == tile_model(w, n as nat, j),
            w >= 1,
            1 <= k <= n,
            5 * (n as int) <= 65535,
            k as int == col_count(w, n as nat),
            cw as int == col_width(w, n as nat),
            (k as int) * (cw as int) <= w as int,
            cw >= 1,
        decreases n - i,
    {
        let col: usize = i % k;
        let row: usize = i / k;
        proof {
            lemma_mod_bound(i as int, k as int);
            lemma_div_pos_is_pos(i as int, k as int);
            lemma_div_is_ordered(i as int, n as int - 1, k as int);
            lemma_div_nonincreasing(n as int - 1, k as int);
            assert((col as int) * (cw as int) + cw as int <= (k as int) * (cw as int))
                by (nonlinear_arith)
                requires
                    col as int + 1 <= k as int,
                    cw as int >= 0,
            ;
            assert(0 <= (col as int) * (cw as int)) by (nonlinear_arith)
                requires
                    0 <= col as int,
                    0 <= cw as int,
            ;
        }
        let x: usize = col * (cw as usize);
        let y: usize = row * 5;
        tiles.push(Rect { x: x as u16, y: y as u16, width: cw, height: TILE_HEIGHT });
        i = i + 1;
    }
    tiles
}

/// Resolved geometry for the current viewport, recomputed lazily on resize.
pub struct LayoutEngine {
    tile_count: usize,
    resolved: Option<(u16, u16)>,
    container: Rect,
    tiles: Vec<Rect>,
}

impl LayoutEngine {
    /// The number of tiles this engine lays out; fixed at construction.
    pub closed spec fn spec_tile_count(self) -> nat {
        self.tile_count as nat
    }

    /// The viewport size of the current resolution, if one exists.
    pub closed spec fn spec_resolved(self) -> Option<(u16, u16)> {
        self.resolved
    }

    /// The stored geometry agrees with the layout rule for the viewport the
    /// engine claims to have resolved.
    pub closed spec fn wf(self) -> bool {
        &&& 5 * (self.tile_count as int) <= 65535
        &&& match self.resolved {
            Some((w, h)) => {
                &&& w >= 1
                &&& self.container@ == container_model(w, h)
                &&& self.tiles@.len() == self.tile_count as int
                &&& forall|i: int|
                    0 <= i < self.tiles@.len() ==> #[trigger] self.tiles@[i]@ == tile_model(
                        w,
                        self.tile_count as nat,
                        i,
                    )
            },
            None => self.tiles@.len() == 0,
        }
    }

    /// A fresh engine for `tile_count` tiles, with nothing resolved yet.
    /// The bound keeps every tile's top row inside the cell coordinate
    /// space.
    pub fn new(tile_count: usize) -> (e: LayoutEngine)
        requires
            5 * (tile_count as int) <= 65535,
        ensures
            e.wf(),
            e.spec_tile_count() == tile_count as nat,
            e.spec_resolved() is None,
    {
        LayoutEngine {
            tile_count,
            resolved: None,
            container: Rect::new(0, 0, 0, 0),
            tiles: Vec::new(),
        }
    }

    /// The number of tiles this engine lays out.
    pub fn tile_count(&self) -> (n: usize)
        ensures
            n as nat == self.spec_tile_count(),
    {
        self.tile_count
    }

    /// Resolve the layout for viewport `(w, h)`.
    ///
    /// Resolution is idempotent: when the engine already holds a resolution
    /// for this very viewport size, nothing is recomputed and the engine —
    /// every previously computed rectangle included — is left untouched;
    /// either way the resulting geometry is exactly the layout rule's, so
    /// equal viewports always yield identical rectangles.
    pub fn resolve(&mut self, w: u16, h: u16)
        requires
            old(self).wf(),
            w >= 1,
        ensures
            final(self).wf(),
            final(self).spec_tile_count() == old(self).spec_tile_count(),
            final(self).spec_resolved() == Some((w, h)),
            old(self).spec_resolved() == Some((w, h)) ==> *final(self) == *old(self),
    {
        let hit = match self.resolved {
            Some((sw, sh)) => sw == w && sh == h,
            None => false,
        };
        if !hit {
            self.container = Rect::new(0, 0, w, h);
            self.tiles = compute_tiles(w, self.tile_count);
            self.resolved = Some((w, h));
        }
    }

    /// The container rectangle of the current resolution: the full viewport.
    pub fn container(&self) -> (r: Rect)
        requires
            self.wf(),
            self.spec_resolved() is Some,
        ensures
            r@ == container_model(self.spec_resolved().unwrap().0, self.spec_resolved().unwrap().1),
    {
        self.container
    }

    /// The tile rectangles of the current resolution, in registry order.
    pub fn tiles(&self) -> (r: &Vec<Rect>)
        requires
            self.wf(),
            self.spec_resolved() is Some,
        ensures
            r@.len() == self.spec_tile_count() as int,
            forall|i: int|
                0 <= i < r@.len() ==> #[trigger] r@[i]@ == tile_model(
                    self.spec_resolved().unwrap().0,
                    self.spec_tile_count(),
                    i,
                ),
    {
        &self.tiles
    }
}

} // verus!
