//! The per-frame hit map.
//!
//! Every frame rebuilds the map from scratch: the map passed in is cleared
//! and then gets exactly one entry per tile, in tile order, keyed by the
//! tile's resolved rectangle and valued by the index of the clip bound to
//! that tile. The registry binds tile `i` to clip `i`, so the binding here
//! is the index itself.

use vstd::prelude::*;

use crate::geom::Rect;
use crate::layout::{tile_model, LayoutEngine};

verus! {

/// One hit-map entry: a tile's rectangle and the clip index bound to it.
#[derive(Clone, Copy, PartialEq, Eq, Structural, Debug)]
pub struct HitEntry {
    /// The tile's resolved rectangle, in cell units.
    pub rect: Rect,
    /// The index of the clip this tile triggers.
    pub clip: usize,
}

/// Rebuild `out` from the engine's current resolution: clear it, then push
/// one entry per tile, in tile order, each bound to the clip of the same
/// index.
pub fn build_hit_map(engine: &LayoutEngine, out: &mut Vec<HitEntry>)
    requires
        engine.wf(),
        engine.spec_resolved() is Some,
    ensures
        final(out)@.len() == engine.spec_tile_count() as int,
        forall|i: int|
            0 <= i < final(out)@.len() ==> {
                &&& (#[trigger] final(out)@[i]).rect@ == tile_model(
                    engine.spec_resolved().unwrap().0,
                    engine.spec_tile_count(),
                    i,
                )
                &&& final(out)@[i].clip == i
            },
{
    out.clear();
    let tiles = engine.tiles();
    let mut i: usize = 0;
    while i < tiles.len()
        invariant
            i <= tiles@.len(),
            out@.len() == i as int,
            forall|j: int|
                0 <= j < i as int ==> {
                    &&& (#[trigger] out@[j]).rect == tiles@[j]
                    &&& out@[j].clip == j
                },
        decreases tiles@.len() - i,
    {
        out.push(HitEntry { rect: tiles[i], clip: i });
        i = i + 1;
    }
}

} // verus!
