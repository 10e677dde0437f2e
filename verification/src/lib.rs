//! Core of a terminal soundboard: a responsive tile-layout engine, a
//! per-frame hit map from screen rectangles to audio clips, and a dispatch
//! model that resolves keyboard and pointer events to playback requests.
//!
//! Everything here is pure computation over terminal-cell coordinates and an
//! immutable clip registry; the surrounding binary owns the terminal, the
//! event source and the audio output.

pub mod dispatch;
pub mod geom;
pub mod hitmap;
pub mod layout;
pub mod registry;
