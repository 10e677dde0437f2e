//! Resolving input events to playback requests.
//!
//! An event resolves to the indices of the clips it triggers, in registry
//! order, and a flag that ends the session. A key press triggers every
//! registry entry whose trigger key matches — matching is exact and the
//! escape key ends the session, checked after trigger matching. A pointer
//! release triggers every hit-map entry whose rectangle holds the release
//! position. Anything else is ignored. Resolving never blocks and never
//! fails: launching the returned requests is the caller's business.

use vstd::prelude::*;

use crate::geom::{lemma_disjoint_no_common_cell, model_contains, models_disjoint};
use crate::hitmap::HitEntry;
use crate::layout::{lemma_layout_shape, tile_model};
use crate::registry::{ClipEntry, Key};

verus! {

/// An input event, as far as dispatch distinguishes events.
#[derive(Clone, Copy, PartialEq, Eq, Structural, Debug)]
pub enum InputEvent {
    /// A key was pressed.
    KeyPress(Key),
    /// A pointer button was released at the given cell position `(x, y)`.
    MouseUp(u16, u16),
    /// Any other event; ignored.
    Other,
}

/// What one event resolves to: the clip indices to launch, in order, and
/// whether the session should end.
pub struct Outcome {
    /// Indices into the registry of the clips to launch, one playback
    /// request per element, duplicates kept.
    pub triggers: Vec<usize>,
    /// The session ends after this event.
    pub quit: bool,
}

/// Indices of the registry entries whose trigger key is `k`, in registry
/// order.
pub open spec fn key_match_indices(entries: Seq<ClipEntry>, k: Key) -> Seq<usize>
    decreases entries.len(),
{
    if entries.len() == 0 {
        Seq::empty()
    } else {
        let prefix = key_match_indices(entries.drop_last(), k);
        if entries.last().trigger == k {
            prefix.push((entries.len() - 1) as usize)
        } else {
            prefix
        }
    }
}

/// Clip indices of the hit-map entries whose rectangle holds `(px, py)`,
/// in hit-map order.
pub open spec fn hit_match_clips(hits: Seq<HitEntry>, px: int, py: int) -> Seq<usize>
    decreases hits.len(),
{
    if hits.len() == 0 {
        Seq::empty()
    } else {
        let prefix = hit_match_clips(hits.drop_last(), px, py);
        if model_contains(hits.last().rect@, px, py) {
            prefix.push(hits.last().clip)
        } else {
            prefix
        }
    }
}

/// The clip indices an event must launch.
pub open spec fn spec_triggers(entries: Seq<ClipEntry>, hits: Seq<HitEntry>, ev: InputEvent) -> Seq<
    usize,
> {
    match ev {
        InputEvent::KeyPress(k) => key_match_indices(entries, k),
        InputEvent::MouseUp(px, py) => hit_match_clips(hits, px as int, py as int),
        InputEvent::Other => Seq::empty(),
    }
}

/// Whether an event ends the session: exactly an escape key press does.
pub open spec fn spec_quit(ev: InputEvent) -> bool {
    ev == InputEvent::KeyPress(Key::Esc)
}

/// Resolve one event against the registry and the current frame's hit map.
pub fn dispatch(entries: &Vec<ClipEntry>, hits: &Vec<HitEntry>, ev: InputEvent) -> (r: Outcome)
    ensures
        r.triggers@ == spec_triggers(entries@, hits@, ev),
        r.quit == spec_quit(ev),
{
    let mut triggers: Vec<usize> = Vec::new();
    let mut quit = false;
    match ev {
        InputEvent::KeyPress(k) => {
            let mut i: usize = 0;
            while i < entries.len()
                invariant
                    i <= entries@.len(),
                    triggers@ == key_match_indices(entries@.take(i as int), k),
                decreases entries@.len() - i,
            {
                proof {
                    assert(entries@.take(i as int + 1).drop_last() =~= entries@.take(i as int));
                    assert(entries@.take(i as int + 1).last() == entries@[i as int]);
                }
                if entries[i].trigger == k {
                    triggers.push(i);
                }
                i = i + 1;
            }
            proof {
                assert(entries@.take(entries@.len() as int) =~= entries@);
            }
            if let Key::Esc = k {
                quit = true;
            }
        },
        InputEvent::MouseUp(px, py) => {
            let mut i: usize = 0;
            while i < hits.len()
                invariant
                    i <= hits@.len(),
                    triggers@ == hit_match_clips(hits@.take(i as int), px as int, py as int),
                decreases hits@.len() - i,
            {
                proof {
                    assert(hits@.take(i as int + 1).drop_last() =~= hits@.take(i as int));
                    assert(hits@.take(i as int + 1).last() == hits@[i as int]);
                }
                if hits[i].rect.contains(px, py) {
                    triggers.push(hits[i].clip);
                }
                i = i + 1;
            }
            proof {
                assert(hits@.take(hits@.len() as int) =~= hits@);
            }
        },
        InputEvent::Other => {},
    }
    Outcome { triggers, quit }
}

/// A key that matches no registry entry resolves to no clip at all.
pub proof fn lemma_no_key_match(entries: Seq<ClipEntry>, k: Key)
    requires
        forall|j: int| 0 <= j < entries.len() ==> (#[trigger] entries[j]).trigger != k,
    ensures
        key_match_indices(entries, k) =~= Seq::<usize>::empty(),
    decreases entries.len(),
{
    if entries.len() > 0 {
        lemma_no_key_match(entries.drop_last(), k);
    }
}

/// Every index a key press resolves to names a registry entry.
pub proof fn lemma_key_match_indices_in_range(entries: Seq<ClipEntry>, k: Key)
    ensures
        forall|t: int|
            0 <= t < key_match_indices(entries, k).len() ==> (#[trigger] key_match_indices(
                entries,
                k,
            )[t]) < entries.len(),
    decreases entries.len(),
{
    if entries.len() > 0 {
        lemma_key_match_indices_in_range(entries.drop_last(), k);
        let prefix = key_match_indices(entries.drop_last(), k);
        let whole = key_match_indices(entries, k);
        assert forall|t: int| 0 <= t < whole.len() implies whole[t] < entries.len() by {
            if t < prefix.len() {
                assert(whole[t] == prefix[t]);
            } else {
                assert(whole[t] == (entries.len() - 1) as usize);
            }
        }
    }
}

/// Pressing the trigger key of entry `i` launches exactly one playback
/// request, bound to entry `i`, whenever no other entry shares that key.
pub proof fn lemma_unique_key_dispatch(entries: Seq<ClipEntry>, i: int)
    requires
        0 <= i < entries.len(),
        forall|j: int|
            0 <= j < entries.len() && j != i ==> (#[trigger] entries[j]).trigger
                != entries[i].trigger,
    ensures
        key_match_indices(entries, entries[i].trigger) =~= seq![i as usize],
    decreases entries.len(),
{
    let k = entries[i].trigger;
    if i == entries.len() - 1 {
        lemma_no_key_match(entries.drop_last(), k);
        assert(key_match_indices(entries, k) =~= Seq::<usize>::empty().push(i as usize));
    } else {
        lemma_unique_key_dispatch(entries.drop_last(), i);
        assert(entries.last().trigger != k);
    }
}

/// Pressing escape ends the session and, as long as no entry is bound to
/// the escape key, launches nothing.
pub proof fn lemma_escape_dispatch(entries: Seq<ClipEntry>, hits: Seq<HitEntry>)
    requires
        forall|j: int| 0 <= j < entries.len() ==> (#[trigger] entries[j]).trigger != Key::Esc,
    ensures
        spec_quit(InputEvent::KeyPress(Key::Esc)),
        spec_triggers(entries, hits, InputEvent::KeyPress(Key::Esc)) =~= Seq::<usize>::empty(),
{
    lemma_no_key_match(entries, Key::Esc);
}

/// A pointer release inside no hit rectangle launches nothing.
pub proof fn lemma_no_hit_match(hits: Seq<HitEntry>, px: int, py: int)
    requires
        forall|j: int| 0 <= j < hits.len() ==> !model_contains((#[trigger] hits[j]).rect@, px, py),
    ensures
        hit_match_clips(hits, px, py) =~= Seq::<usize>::empty(),
    decreases hits.len(),
{
    if hits.len() > 0 {
        lemma_no_hit_match(hits.drop_last(), px, py);
    }
}

/// In a hit map whose rectangles are pairwise disjoint, a pointer release
/// launches at most one clip.
pub proof fn lemma_disjoint_hits_at_most_one(hits: Seq<HitEntry>, px: int, py: int)
    requires
        forall|i: int, j: int|
            0 <= i < hits.len() && 0 <= j < hits.len() && i != j ==> models_disjoint(
                (#[trigger] hits[i]).rect@,
                (#[trigger] hits[j]).rect@,
            ),
    ensures
        hit_match_clips(hits, px, py).len() <= 1,
    decreases hits.len(),
{
    if hits.len() > 0 {
        if model_contains(hits.last().rect@, px, py) {
            assert forall|j: int|
                0 <= j < hits.drop_last().len() implies !model_contains(
                (#[trigger] hits.drop_last()[j]).rect@,
                px,
                py,
            ) by {
                lemma_disjoint_no_common_cell(hits[j].rect@, hits.last().rect@, px, py);
            }
            lemma_no_hit_match(hits.drop_last(), px, py);
        } else {
            lemma_disjoint_hits_at_most_one(hits.drop_last(), px, py);
        }
    }
}

/// The per-frame guarantee: a hit map whose entries mirror a resolved
/// layout holds pairwise disjoint rectangles, so any pointer release
/// launches at most one clip.
pub proof fn lemma_frame_hits_at_most_one(w: u16, n: nat, hits: Seq<HitEntry>, px: int, py: int)
    requires
        w >= 1,
        hits.len() == n,
        forall|i: int| 0 <= i < hits.len() ==> (#[trigger] hits[i]).rect@ == tile_model(w, n, i),
    ensures
        hit_match_clips(hits, px, py).len() <= 1,
{
    lemma_layout_shape(w, n);
    lemma_disjoint_hits_at_most_one(hits, px, py);
}

/// A pointer release strictly inside exactly one hit rectangle launches
/// exactly that entry's clip.
pub proof fn lemma_unique_hit_dispatch(hits: Seq<HitEntry>, px: int, py: int, i: int)
    requires
        0 <= i < hits.len(),
        model_contains(hits[i].rect@, px, py),
        forall|j: int|
            0 <= j < hits.len() && j != i ==> !model_contains((#[trigger] hits[j]).rect@, px, py),
    ensures
        hit_match_clips(hits, px, py) =~= seq![hits[i].clip],
    decreases hits.len(),
{
    if i == hits.len() - 1 {
        lemma_no_hit_match(hits.drop_last(), px, py);
        assert(hit_match_clips(hits, px, py) =~= Seq::<usize>::empty().push(hits[i].clip));
    } else {
        lemma_unique_hit_dispatch(hits.drop_last(), px, py, i);
        assert(!model_contains(hits.last().rect@, px, py));
    }
}

} // verus!
