//! Error taxonomy of the generation core.
//!
//! Every failure is an explicit typed result of a pure function: a
//! `ValidationError` rejects bad parameters before any buffer is allocated,
//! and an `EncodingError` rejects a canvas the encoder cannot frame.  No
//! function of this crate panics or prints.

use vstd::prelude::*;

verus! {

/// A request was rejected before any pixel work began.
#[derive(Clone, Copy, Debug, PartialEq, Eq, Structural)]
pub enum ValidationError {
    /// A canvas width or height of zero was requested.
    ZeroDimension,
    /// A channel count other than 1 (grayscale) or 4 (RGBA) was requested.
    UnsupportedChannels,
    /// A canvas dimension above `MAX_DIM` was requested.
    OversizedCanvas,
    /// A required textual parameter was empty.
    MissingParameter,
    /// The radial lattice was asked for frequency zero, which has no
    /// defined modulo cadence.
    ZeroFrequency,
    /// The stone field was asked for zero stones, leaving its minimum
    /// over stones undefined.
    ZeroStones,
    /// More stones than `MAX_STONES` were requested.
    TooManyStones,
    /// The Voronoi field was given no seed points, leaving its minimum
    /// distance undefined.
    NoSeedPoints,
    /// More seed points than `MAX_SEED_POINTS` were given.
    TooManySeedPoints,
}

/// The encoder was handed a canvas it cannot frame.
#[derive(Clone, Copy, Debug, PartialEq, Eq, Structural)]
pub enum EncodingError {
    /// The canvas has a zero dimension.
    ZeroDimension,
    /// The canvas channel count is not 1 or 4.
    UnsupportedChannels,
}

/// Either failure of the generate-then-encode pipeline.
#[derive(Clone, Copy, Debug, PartialEq, Eq, Structural)]
pub enum AssetError {
    Validation(ValidationError),
    Encoding(EncodingError),
}

} // verus!
