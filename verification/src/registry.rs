//! The immutable clip registry: one entry per tile, fixed at startup.
//!
//! The registry is an ordered list of entries; its order is the order in
//! which tiles are laid out, and an entry's position in the list is the clip
//! index that the hit map and the dispatcher speak of. Trigger keys need not
//! be unique: every entry whose key matches an event is triggered.

use vstd::prelude::*;

verus! {

/// A key symbol, as far as the dispatcher distinguishes keys.
#[derive(Clone, Copy, PartialEq, Eq, Structural, Debug)]
pub enum Key {
    /// A printable character key.
    Char(char),
    /// The escape key, which ends the session.
    Esc,
    /// Any other key; never bound to a clip.
    Other,
}

/// One clip: the key that triggers it, a display label, and the encoded
/// audio bytes. Entries are created at startup and never mutated.
pub struct ClipEntry {
    /// The key that triggers this clip.
    pub trigger: Key,
    /// The label drawn on the tile.
    pub label: String,
    /// The encoded audio, handed unchanged to every playback unit.
    pub bytes: Vec<u8>,
}

} // verus!
