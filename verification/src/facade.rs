//! The asset pipeline: one operation per asset kind, each deriving its
//! parameters, filling a canvas and encoding it.
//!
//! Every operation is pure orchestration — derive the seed digest if the
//! kind needs one, create a zeroed canvas of the required size, run the
//! matching generator, encode — and its contract pins the returned bytes
//! to a single spec-level value of the inputs, so two calls with the same
//! inputs return byte-identical images.  Each validation failure is
//! rejected before any canvas is allocated.

use vstd::prelude::*;
use vstd::string::StringExecFns;

use crate::canvas::{lemma_canvas_pixels, pixels_of, Canvas};
use crate::codec::{encode, encode_spec, EncodedImage};
use crate::digest::{digest_bytes, SeedDigest};
use crate::errors::{AssetError, EncodingError, ValidationError};
use crate::gold::{generate_gold, gold_cell, gold_points, gold_points_spec};
use crate::merkaba::{generate_merkaba, merkaba_cell};
use crate::sigil::{generate_sigil, sigil_cell};
use crate::stone::{generate_stone, stone_cell};
use crate::{MAX_DIM, MAX_STONES};

verus! {

/// The fixed canvas side of a sigil.
pub const SIGIL_SIZE: u32 = 512;

/// The encoded bytes of the sigil of the given seed text and archetype.
pub open spec fn sigil_asset(text: Seq<char>, archetype: Seq<char>) -> Seq<u8> {
    encode_spec(512, 512, 4, pixels_of(512, 512, 4, sigil_cell(digest_bytes(text + archetype), 512, 512)))
}

/// The encoded bytes of the Voronoi gold field of a seed string.
pub open spec fn gold_asset(seed: Seq<char>, size: u32) -> Seq<u8> {
    encode_spec(
        size,
        size,
        4,
        pixels_of(size as int, size as int, 4, gold_cell(gold_points_spec(digest_bytes(seed), size as int), size as int)),
    )
}

/// The encoded bytes of the radial lattice of a radius and frequency.
pub open spec fn merkaba_asset(radius: u32, freq: u32) -> Seq<u8> {
    encode_spec(
        (2 * radius) as u32,
        (2 * radius) as u32,
        4,
        pixels_of(2 * radius as int, 2 * radius as int, 4, merkaba_cell(radius as int, freq as int)),
    )
}

/// The encoded bytes of the stone heightmap of a radius and stone count.
pub open spec fn stone_asset(radius: u32, stones: u32) -> Seq<u8> {
    encode_spec(
        (2 * radius) as u32,
        (2 * radius) as u32,
        1,
        pixels_of(2 * radius as int, 2 * radius as int, 1, stone_cell(stones as int, radius as int)),
    )
}

/// Determinism law of the pipeline: every successful asset operation
/// pins its byte stream to a single value of its inputs, so two
/// independent runs with the same inputs return byte-identical encoded
/// output.  Stated here for each of the four asset kinds over the byte
/// streams that the operations' own contracts promise.
pub proof fn lemma_pipeline_deterministic(
    b1: Seq<u8>,
    b2: Seq<u8>,
    text: Seq<char>,
    archetype: Seq<char>,
    seed: Seq<char>,
    size: u32,
    radius: u32,
    freq: u32,
    stones: u32,
)
    ensures
        b1 == sigil_asset(text, archetype) && b2 == sigil_asset(text, archetype) ==> b1 == b2,
        b1 == gold_asset(seed, size) && b2 == gold_asset(seed, size) ==> b1 == b2,
        b1 == merkaba_asset(radius, freq) && b2 == merkaba_asset(radius, freq) ==> b1 == b2,
        b1 == stone_asset(radius, stones) && b2 == stone_asset(radius, stones) ==> b1 == b2,
{
}

/// Builds the sigil of `text` and `archetype`: a 512 by 512 RGBA image of
/// 22 digest-derived circles.  Rejects an empty text or archetype before
/// any allocation; succeeds on all other inputs, returning exactly the
/// bytes of `sigil_asset`.
pub fn make_sigil(text: &str, archetype: &str) -> (r: Result<EncodedImage, AssetError>)
    ensures
        r is Err <==> (text@.len() == 0 || archetype@.len() == 0),
        r is Err ==> r == Err::<EncodedImage, _>(
            AssetError::Validation(ValidationError::MissingParameter),
        ),
        r is Ok ==> {
            let img = r->Ok_0;
            &&& img.width == 512
            &&& img.height == 512
            &&& img.bytes@ == sigil_asset(text@, archetype@)
        },
{
    if text.unicode_len() == 0 || archetype.unicode_len() == 0 {
        return Err(AssetError::Validation(ValidationError::MissingParameter));
    }
    let combined = text.to_owned().concat(archetype);
    let digest = SeedDigest::of_text(combined.as_str());
    let mut canvas = match Canvas::create(SIGIL_SIZE, SIGIL_SIZE, 4) {
        Ok(c) => c,
        Err(_) => {
            // Unreachable: the call's contract excludes this arm here.
            proof {
                assert(false);
            }
            return Err(AssetError::Validation(ValidationError::ZeroDimension));
        },
    };
    generate_sigil(&mut canvas, &digest);
    proof {
        lemma_canvas_pixels(canvas, sigil_cell(digest.bytes@, 512, 512));
    }
    match encode(&canvas) {
        Ok(img) => Ok(img),
        Err(_) => {
            // Unreachable: the call's contract excludes this arm here.
            proof {
                assert(false);
            }
            Err(AssetError::Encoding(EncodingError::ZeroDimension))
        },
    }
}

/// Builds the Voronoi gold field of `seed` on a `size` by `size` RGBA
/// canvas.  Rejects a zero or oversized side before any allocation;
/// succeeds on all other inputs, returning exactly the bytes of
/// `gold_asset`.
pub fn make_gold(seed: &str, size: u32) -> (r: Result<EncodedImage, AssetError>)
    ensures
        r == Err::<EncodedImage, _>(AssetError::Validation(ValidationError::ZeroDimension)) <==>
            size == 0,
        r == Err::<EncodedImage, _>(AssetError::Validation(ValidationError::OversizedCanvas)) <==> (
        size > MAX_DIM),
        r is Ok <==> 1 <= size <= MAX_DIM,
        r is Ok ==> {
            let img = r->Ok_0;
            &&& img.width == size
            &&& img.height == size
            &&& img.bytes@ == gold_asset(seed@, size)
        },
{
    if size == 0 {
        return Err(AssetError::Validation(ValidationError::ZeroDimension));
    }
    if size > MAX_DIM {
        return Err(AssetError::Validation(ValidationError::OversizedCanvas));
    }
    let digest = SeedDigest::of_text(seed);
    let points = gold_points(&digest, size);
    proof {
        assert(points@ =~= gold_points_spec(digest.bytes@, size as int));
    }
    let mut canvas = match Canvas::create(size, size, 4) {
        Ok(c) => c,
        Err(_) => {
            // Unreachable: the call's contract excludes this arm here.
            proof {
                assert(false);
            }
            return Err(AssetError::Validation(ValidationError::ZeroDimension));
        },
    };
    match generate_gold(&mut canvas, &points) {
        Ok(()) => {},
        Err(_) => {
            // Unreachable: the call's contract excludes this arm here.
            proof {
                assert(false);
            }
            return Err(AssetError::Validation(ValidationError::NoSeedPoints));
        },
    }
    proof {
        lemma_canvas_pixels(canvas, gold_cell(points@, size as int));
    }
    match encode(&canvas) {
        Ok(img) => Ok(img),
        Err(_) => {
            // Unreachable: the call's contract excludes this arm here.
            proof {
                assert(false);
            }
            Err(AssetError::Encoding(EncodingError::ZeroDimension))
        },
    }
}

/// Builds the radial lattice of `radius` and `freq` on a `2 * radius`
/// square RGBA canvas.  Rejects frequency zero, radius zero and an
/// oversized radius, in that order, before any allocation; succeeds on
/// all other inputs, returning exactly the bytes of `merkaba_asset`.
pub fn make_merkaba(radius: u32, freq: u32) -> (r: Result<EncodedImage, AssetError>)
    ensures
        r == Err::<EncodedImage, _>(AssetError::Validation(ValidationError::ZeroFrequency)) <==>
            freq == 0,
        r == Err::<EncodedImage, _>(AssetError::Validation(ValidationError::ZeroDimension)) <==> (
        freq >= 1 && radius == 0),
        r == Err::<EncodedImage, _>(AssetError::Validation(ValidationError::OversizedCanvas)) <==> (
        freq >= 1 && radius > 2048),
        r is Ok <==> (freq >= 1 && 1 <= radius <= 2048),
        r is Ok ==> {
            let img = r->Ok_0;
            &&& img.width == 2 * radius
            &&& img.height == 2 * radius
            &&& img.bytes@ == merkaba_asset(radius, freq)
        },
{
    if freq == 0 {
        return Err(AssetError::Validation(ValidationError::ZeroFrequency));
    }
    if radius == 0 {
        return Err(AssetError::Validation(ValidationError::ZeroDimension));
    }
    if radius > 2048 {
        return Err(AssetError::Validation(ValidationError::OversizedCanvas));
    }
    let mut canvas = match Canvas::create(2 * radius, 2 * radius, 4) {
        Ok(c) => c,
        Err(_) => {
            // Unreachable: the call's contract excludes this arm here.
            proof {
                assert(false);
            }
            return Err(AssetError::Validation(ValidationError::ZeroDimension));
        },
    };
    match generate_merkaba(&mut canvas, radius, freq) {
        Ok(()) => {},
        Err(_) => {
            // Unreachable: the call's contract excludes this arm here.
            proof {
                assert(false);
            }
            return Err(AssetError::Validation(ValidationError::ZeroFrequency));
        },
    }
    proof {
        lemma_canvas_pixels(canvas, merkaba_cell(radius as int, freq as int));
    }
    match encode(&canvas) {
        Ok(img) => Ok(img),
        Err(_) => {
            // Unreachable: the call's contract excludes this arm here.
            proof {
                assert(false);
            }
            Err(AssetError::Encoding(EncodingError::ZeroDimension))
        },
    }
}

/// Builds the stone heightmap of `radius` and `stones` on a `2 * radius`
/// square grayscale canvas.  Rejects zero stones, too many stones, radius
/// zero and an oversized radius, in that order, before any allocation;
/// succeeds on all other inputs, returning exactly the bytes of
/// `stone_asset`.
pub fn make_stone(radius: u32, stones: u32) -> (r: Result<EncodedImage, AssetError>)
    ensures
        r == Err::<EncodedImage, _>(AssetError::Validation(ValidationError::ZeroStones)) <==>
            stones == 0,
        r == Err::<EncodedImage, _>(AssetError::Validation(ValidationError::TooManyStones)) <==> (
        stones >= 1 && stones > MAX_STONES),
        r == Err::<EncodedImage, _>(AssetError::Validation(ValidationError::ZeroDimension)) <==> (1
            <= stones <= MAX_STONES && radius == 0),
        r == Err::<EncodedImage, _>(AssetError::Validation(ValidationError::OversizedCanvas)) <==> (
        1 <= stones <= MAX_STONES && radius > 2048),
        r is Ok <==> (1 <= stones <= MAX_STONES && 1 <= radius <= 2048),
        r is Ok ==> {
            let img = r->Ok_0;
            &&& img.width == 2 * radius
            &&& img.height == 2 * radius
            &&& img.bytes@ == stone_asset(radius, stones)
        },
{
    if stones == 0 {
        return Err(AssetError::Validation(ValidationError::ZeroStones));
    }
    if stones > MAX_STONES {
        return Err(AssetError::Validation(ValidationError::TooManyStones));
    }
    if radius == 0 {
        return Err(AssetError::Validation(ValidationError::ZeroDimension));
    }
    if radius > 2048 {
        return Err(AssetError::Validation(ValidationError::OversizedCanvas));
    }
    let mut canvas = match Canvas::create(2 * radius, 2 * radius, 1) {
        Ok(c) => c,
        Err(_) => {
            // Unreachable: the call's contract excludes this arm here.
            proof {
                assert(false);
            }
            return Err(AssetError::Validation(ValidationError::ZeroDimension));
        },
    };
    match generate_stone(&mut canvas, radius, stones) {
        Ok(()) => {},
        Err(_) => {
            // Unreachable: the call's contract excludes this arm here.
            proof {
                assert(false);
            }
            return Err(AssetError::Validation(ValidationError::ZeroStones));
        },
    }
    proof {
        lemma_canvas_pixels(canvas, stone_cell(stones as int, radius as int));
    }
    match encode(&canvas) {
        Ok(img) => Ok(img),
        Err(_) => {
            // Unreachable: the call's contract excludes this arm here.
            proof {
                assert(false);
            }
            Err(AssetError::Encoding(EncodingError::ZeroDimension))
        },
    }
}

} // verus!
