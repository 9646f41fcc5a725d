//! Deterministic procedural texture generation.
//!
//! The core of this crate turns small textual or numeric seeds into
//! reproducible raster images: a seed hasher derives a fixed digest from
//! input text, four shape generators (sigil circles, Voronoi gold,
//! radial-lattice merkaba, stone signed-distance field) fill a bounds-checked
//! pixel canvas from digest-derived or explicit parameters, and an image
//! encoder serialises the canvas into a conformant PNG byte stream that any
//! standard reader can decode back to the exact source pixels.
//!
//! Around that core sit smaller verified components: chapel-profile
//! inference and scene-text emission for the grimoire registry, library room
//! layout planning, tarot-card lookups, solfeggio frequency tables, and the
//! command-line flag helpers.  File and process I/O, audio playback, SQLite
//! storage and JSON (de)serialisation live outside this crate, in the thin
//! shell that drives it.

use vstd::prelude::*;

pub mod audio;
pub mod canvas;
pub mod cli;
pub mod codex;
pub mod checksum;
pub mod codec;
pub mod digest;
pub mod errors;
pub mod facade;
pub mod fixed;
pub mod gold;
pub mod grimoire;
pub mod merkaba;
pub mod rooms;
pub mod sigil;
pub mod stone;
pub mod types;

verus! {

/// Largest accepted canvas width or height, so a mistaken huge request
/// fails fast instead of entering an enormous pixel loop.
pub const MAX_DIM: u32 = 4096;

/// Largest accepted number of stones on the spiral of the stone field.
pub const MAX_STONES: u32 = 4096;

/// Largest accepted number of Voronoi seed points.
pub const MAX_SEED_POINTS: usize = 4096;

} // verus!
