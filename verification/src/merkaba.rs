//! The radial-lattice (merkaba) generator.
//!
//! On a square canvas of side `2 * radius`, a pixel is on-pattern when its
//! pseudo-angle around the center, multiplied by the spoke `frequency`,
//! falls within the first tenth of a turn modulo one turn — giving
//! `frequency` radial spokes — and it lies strictly inside the radius.
//! On-pattern pixels take a plaid luminance `sin * cos` of the pixel
//! coordinates (fixed-point, 522/65536 of a turn per pixel standing for
//! 0.05 radians), tinted gold; off-pattern pixels take a fixed dark
//! background.  Frequency zero has no defined cadence and is rejected.

use vstd::prelude::*;

use crate::canvas::{rgba_channel, Canvas, Rgba};
use crate::errors::ValidationError;
use crate::fixed::{cos_fixed, cos_fp, pseudo_angle, pseudo_angle_fp, sin_fixed, sin_fp};
use crate::gold::dist2;

verus! {

/// One tenth of a turn, in 1/65536-turn units (rounded up).
pub const SPOKE_WIDTH: u32 = 6554;

/// Whether pixel `(x, y)` is on-pattern for the given radius and spoke
/// frequency: the scaled pseudo-angle falls in the first tenth of a turn
/// and the pixel lies strictly inside the circle.
pub open spec fn merkaba_on(radius: int, freq: int, x: int, y: int) -> bool {
    &&& (pseudo_angle(y - radius, x - radius) * freq) % 65536 < 6554
    &&& dist2(x, y, radius, radius) < radius * radius
}

/// The plaid luminance of pixel `(x, y)`: `sin * cos` in fixed point,
/// mapped from `[-1, 1]` onto `[0, 255]`.
pub open spec fn merkaba_luminance(x: int, y: int) -> int {
    (sin_fp((x * 522) % 65536) * cos_fp((y * 522) % 65536) + 4294967296) * 255 / 8589934592
}

/// The value of channel `c` of the merkaba pixel at `(x, y)`.
pub open spec fn merkaba_pixel(radius: int, freq: int, x: int, y: int, c: int) -> int {
    if merkaba_on(radius, freq, x, y) {
        let l = merkaba_luminance(x, y);
        if c == 0 {
            l
        } else if c == 1 {
            l * 91 / 100
        } else if c == 2 {
            l * 30 / 100
        } else {
            255
        }
    } else {
        if c == 0 {
            13
        } else if c == 1 {
            11
        } else if c == 2 {
            18
        } else {
            255
        }
    }
}

/// The value of channel `c` of pixel `(x, y)` of the radial lattice.
pub open spec fn merkaba_cell(radius: int, freq: int) -> spec_fn(int, int, int) -> int {
    |x: int, y: int, c: int| merkaba_pixel(radius, freq, x, y, c)
}

/// The product of two fixed-point trig values stays within one square
/// scale unit.
proof fn lemma_trig_product_bound(a: int, b: int)
    requires
        -65536 <= a <= 65536,
        -65536 <= b <= 65536,
    ensures
        -4294967296 <= a * b <= 4294967296,
{
    assert(-4294967296 <= a * b <= 4294967296) by (nonlinear_arith)
        requires
            -65536 <= a <= 65536,
            -65536 <= b <= 65536,
    ;
}

/// The luminance always lies in `[0, 255]`.
pub proof fn lemma_merkaba_luminance_range(x: int, y: int)
    requires
        0 <= x,
        0 <= y,
    ensures
        0 <= merkaba_luminance(x, y) <= 255,
{
    crate::fixed::lemma_sin_bounds((x * 522) % 65536);
    crate::fixed::lemma_sin_bounds(((y * 522) % 65536 + 16384) % 65536);
    let s = sin_fp((x * 522) % 65536);
    let co = cos_fp((y * 522) % 65536);
    lemma_trig_product_bound(s, co);
    assert(0 <= (s * co + 4294967296) * 255 / 8589934592 <= 255) by (nonlinear_arith)
        requires
            -4294967296 <= s * co <= 4294967296,
    ;
}

/// The executable luminance of pixel `(x, y)`.
fn luminance(x: u32, y: u32) -> (r: u8)
    requires
        x <= 4096,
        y <= 4096,
    ensures
        r == merkaba_luminance(x as int, y as int),
{
    let px: u32 = (x * 522) % 65536;
    let py: u32 = (y * 522) % 65536;
    let s: i64 = sin_fixed(px);
    let co: i64 = cos_fixed(py);
    proof {
        lemma_trig_product_bound(s as int, co as int);
        lemma_merkaba_luminance_range(x as int, y as int);
    }
    ((s * co + 4294967296) * 255 / 8589934592) as u8
}

/// Fills the `2 * radius` square RGBA canvas with the radial lattice.
/// Rejects frequency zero before touching any pixel; on success every
/// pixel is fully determined by `radius` and `freq`.
pub fn generate_merkaba(canvas: &mut Canvas, radius: u32, freq: u32) -> (r: Result<
    (),
    ValidationError,
>)
    requires
        old(canvas).wf(),
        old(canvas).channels == 4,
        old(canvas).width == 2 * radius,
        old(canvas).height == 2 * radius,
    ensures
        r == Err::<(), _>(ValidationError::ZeroFrequency) <==> freq == 0,
        r is Ok <==> freq >= 1,
        r is Err ==> *final(canvas) == *old(canvas),
        r is Ok ==> {
            &&& final(canvas).wf()
            &&& final(canvas).same_shape(*old(canvas))
            &&& forall|x: int, y: int, c: int|
                final(canvas).valid(x, y, c) ==> final(canvas).at(x, y, c) == merkaba_pixel(
                    radius as int,
                    freq as int,
                    x,
                    y,
                    c,
                )
        },
{
    if freq == 0 {
        return Err(ValidationError::ZeroFrequency);
    }
    let ghost pre: Canvas = *canvas;
    let w = canvas.width;
    let h = canvas.height;
    let mut y: u32 = 0;
    while y < h
        invariant
            canvas.wf(),
            canvas.same_shape(pre),
            canvas.width == w,
            canvas.height == h,
            canvas.channels == 4,
            w == 2 * radius,
            h == 2 * radius,
            y <= h,
            freq >= 1,
            forall|x2: int, y2: int, c: int|
                canvas.valid(x2, y2, c) ==> canvas.at(x2, y2, c) == if y2 < y {
                    merkaba_pixel(radius as int, freq as int, x2, y2, c)
                } else {
                    pre.at(x2, y2, c) as int
                },
        decreases h - y,
    {
        let mut x: u32 = 0;
        while x < w
            invariant
                canvas.wf(),
                canvas.same_shape(pre),
                canvas.width == w,
                canvas.height == h,
                canvas.channels == 4,
                w == 2 * radius,
                h == 2 * radius,
                y < h,
                x <= w,
                freq >= 1,
                forall|x2: int, y2: int, c: int|
                    canvas.valid(x2, y2, c) ==> canvas.at(x2, y2, c) == if y2 < y || (y2 == y && x2
                        < x) {
                        merkaba_pixel(radius as int, freq as int, x2, y2, c)
                    } else {
                        pre.at(x2, y2, c) as int
                    },
            decreases w - x,
        {
            let dx: i64 = (x as i64) - (radius as i64);
            let dy: i64 = (y as i64) - (radius as i64);
            let ang: u32 = pseudo_angle_fp(dy, dx);
            proof {
                crate::fixed::lemma_square_bound(dx as int);
                crate::fixed::lemma_square_bound(dy as int);
                crate::fixed::lemma_square_bound(radius as int);
                assert(0 <= (ang as int) * (freq as int) <= 0xFFFF * 0xFFFFFFFF)
                    by (nonlinear_arith)
                    requires
                        0 <= ang <= 0xFFFF,
                        0 <= freq <= 0xFFFFFFFF,
                ;
            }
            let spoke = ((ang as u64) * (freq as u64)) % 65536 < SPOKE_WIDTH as u64;
            let inside = dx * dx + dy * dy < (radius as i64) * (radius as i64);
            let col: Rgba = if spoke && inside {
                let l: u8 = luminance(x, y);
                Rgba { r: l, g: ((l as u32) * 91 / 100) as u8, b: ((l as u32) * 30 / 100) as u8, a: 255 }
            } else {
                Rgba { r: 13, g: 11, b: 18, a: 255 }
            };
            proof {
                assert(forall|c: int|
                    0 <= c < 4 ==> rgba_channel(col, c) == merkaba_pixel(radius as int, freq as int,
                        x as int, y as int, c));
            }
            canvas.set_pixel(x, y, col);
            x = x + 1;
        }
        y = y + 1;
    }
    Ok(())
}

} // verus!
