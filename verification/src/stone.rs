//! The stone signed-distance-field generator.
//!
//! `stones` points are placed on a golden-angle spiral: stone `i` sits at
//! angle `(i / stones) * phi` turns (`phi = 1.618`), at distance
//! `0.8 * radius` from the center of a `2 * radius` grayscale canvas.
//! Each pixel's height is the least difference between its own distance to
//! the center and any stone's ring distance, capped at `radius` and
//! normalised to `[0, 255]` as `255 * diff / radius` — a heightmap of
//! concentric ridges through the stones.  Zero stones leaves the minimum
//! undefined and is rejected.

use vstd::prelude::*;

use crate::canvas::Canvas;
use crate::errors::ValidationError;
use crate::fixed::{cos_fixed, cos_fp, isqrt, lemma_square_bound, sin_fixed, sin_fp, sqrt_floor};
use crate::gold::dist2;
use crate::MAX_STONES;

verus! {

/// The spiral angle of stone `i` among `stones`, in 1/65536 turn:
/// `(i / stones) * 1.618` turns, reduced modulo one turn
/// (`106037248 = 1618 * 65536`).
pub open spec fn stone_angle(i: int, stones: int) -> int {
    (i * 106037248 / (1000 * stones)) % 65536
}

/// Scales a fixed-point trig value `v` (65536 = 1.0) to a length `rr`,
/// rounding the magnitude down.
pub open spec fn scale_radius(v: int, rr: int) -> int {
    if v >= 0 {
        v * rr / 65536
    } else {
        -((-v) * rr / 65536)
    }
}

/// The distance from the center to stone `i`: the floor length of the
/// fixed-point position on the circle of radius `0.8 * radius`.
pub open spec fn stone_ring(i: int, stones: int, radius: int) -> int {
    let t = stone_angle(i, stones);
    let sx = scale_radius(cos_fp(t), radius * 8 / 10);
    let sy = scale_radius(sin_fp(t), radius * 8 / 10);
    sqrt_floor(sx * sx + sy * sy)
}

/// The absolute difference of two integers.
pub open spec fn abs_diff(a: int, b: int) -> int {
    if a >= b {
        a - b
    } else {
        b - a
    }
}

/// The least |dist - ring| over the first `n` stones, capped at `radius`.
pub open spec fn ring_diff_upto(stones: int, radius: int, dist: int, n: int) -> int
    decreases n,
{
    if n <= 0 {
        radius
    } else {
        let prev = ring_diff_upto(stones, radius, dist, n - 1);
        let d = abs_diff(dist, stone_ring(n - 1, stones, radius));
        if d < prev {
            d
        } else {
            prev
        }
    }
}

/// The height of pixel `(x, y)`: the capped least ring difference of its
/// center distance, normalised to `[0, 255]`.
pub open spec fn stone_height(stones: int, radius: int, x: int, y: int) -> int {
    let dist = sqrt_floor(dist2(x, y, radius, radius));
    255 * ring_diff_upto(stones, radius, dist, stones) / radius
}

/// The value of the single channel of pixel `(x, y)` of the heightmap.
pub open spec fn stone_cell(stones: int, radius: int) -> spec_fn(int, int, int) -> int {
    |x: int, y: int, c: int| stone_height(stones, radius, x, y)
}

/// The capped ring difference never exceeds `radius`.
pub proof fn lemma_ring_diff_capped(stones: int, radius: int, dist: int, n: int)
    requires
        0 <= radius,
    ensures
        0 <= ring_diff_upto(stones, radius, dist, n) <= radius,
    decreases n,
{
    if n > 0 {
        lemma_ring_diff_capped(stones, radius, dist, n - 1);
    }
}

/// The normalised height always lies in `[0, 255]`.
pub proof fn lemma_stone_height_range(stones: int, radius: int, x: int, y: int)
    requires
        1 <= radius,
    ensures
        0 <= stone_height(stones, radius, x, y) <= 255,
{
    let dist = sqrt_floor(dist2(x, y, radius, radius));
    lemma_ring_diff_capped(stones, radius, dist, stones);
    let m = ring_diff_upto(stones, radius, dist, stones);
    assert(0 <= 255 * m / radius <= 255) by (nonlinear_arith)
        requires
            1 <= radius,
            0 <= m <= radius,
    ;
}

/// A fixed-point trig value scaled to a bounded length stays within it.
proof fn lemma_scale_radius_bound(v: int, rr: int)
    requires
        -65536 <= v <= 65536,
        0 <= rr <= 4096,
    ensures
        -rr <= scale_radius(v, rr) <= rr,
        -268435456 <= v * rr <= 268435456,
{
    assert((0 <= v ==> 0 <= v * rr <= 65536 * rr && v * rr / 65536 <= rr) && (v < 0 ==> 0 <= (-v)
        * rr <= 65536 * rr && (-v) * rr / 65536 <= rr) && -268435456 <= v * rr <= 268435456)
        by (nonlinear_arith)
        requires
            -65536 <= v <= 65536,
            0 <= rr <= 4096,
    ;
}

/// The ring distances of all `stones` stones, in order.
fn stone_rings(stones: u32, radius: u32) -> (rings: Vec<u64>)
    requires
        1 <= stones <= MAX_STONES,
        1 <= radius <= 2048,
    ensures
        rings@.len() == stones,
        forall|i: int|
            0 <= i < stones ==> #[trigger] rings@[i] == stone_ring(i, stones as int, radius as int)
                && rings@[i] <= 4096,
{
    let rr: u64 = (radius as u64) * 8 / 10;
    let mut rings: Vec<u64> = Vec::new();
    let mut i: u32 = 0;
    while i < stones
        invariant
            i <= stones,
            1 <= stones <= MAX_STONES,
            1 <= radius <= 2048,
            rr == radius * 8 / 10,
            rr <= 1638,
            rings@.len() == i,
            forall|j: int|
                0 <= j < i ==> #[trigger] rings@[j] == stone_ring(j, stones as int, radius as int)
                    && rings@[j] <= 4096,
        decreases stones - i,
    {
        let t: u64 = ((i as u64) * 106037248 / (1000 * (stones as u64))) % 65536;
        let s: i64 = sin_fixed(t as u32);
        let co: i64 = cos_fixed(t as u32);
        proof {
            lemma_scale_radius_bound(s as int, rr as int);
            lemma_scale_radius_bound(co as int, rr as int);
        }
        let sx: i64 = if co >= 0 {
            co * (rr as i64) / 65536
        } else {
            -((-co) * (rr as i64) / 65536)
        };
        let sy: i64 = if s >= 0 {
            s * (rr as i64) / 65536
        } else {
            -((-s) * (rr as i64) / 65536)
        };
        proof {
            lemma_square_bound(sx as int);
            lemma_square_bound(sy as int);
        }
        proof {
            assert(t == stone_angle(i as int, stones as int));
            assert(sx == scale_radius(cos_fp(t as int), radius as int * 8 / 10));
            assert(sy == scale_radius(sin_fp(t as int), radius as int * 8 / 10));
            assert(-1638 <= sx <= 1638 && -1638 <= sy <= 1638);
            assert(sx * sx + sy * sy <= 5366088) by (nonlinear_arith)
                requires
                    -1638 <= sx <= 1638,
                    -1638 <= sy <= 1638,
            ;
        }
        let ring = isqrt((sx * sx + sy * sy) as u64);
        proof {
            assert(ring * ring <= 5366088);
            assert(ring <= 4096) by (nonlinear_arith)
                requires
                    0 <= ring,
                    ring * ring <= 5366088,
            ;
        }
        rings.push(ring);
        i = i + 1;
    }
    rings
}

/// Fills the `2 * radius` square grayscale canvas with the stone
/// heightmap.  Rejects zero stones and more than `MAX_STONES` before
/// touching any pixel; on success every pixel is fully determined by
/// `radius` and `stones`.
pub fn generate_stone(canvas: &mut Canvas, radius: u32, stones: u32) -> (r: Result<
    (),
    ValidationError,
>)
    requires
        old(canvas).wf(),
        old(canvas).channels == 1,
        old(canvas).width == 2 * radius,
        old(canvas).height == 2 * radius,
    ensures
        r == Err::<(), _>(ValidationError::ZeroStones) <==> stones == 0,
        r == Err::<(), _>(ValidationError::TooManyStones) <==> stones > MAX_STONES,
        r is Ok <==> 1 <= stones <= MAX_STONES,
        r is Err ==> *final(canvas) == *old(canvas),
        r is Ok ==> {
            &&& final(canvas).wf()
            &&& final(canvas).same_shape(*old(canvas))
            &&& forall|x: int, y: int, c: int|
                final(canvas).valid(x, y, c) ==> final(canvas).at(x, y, c) == stone_height(
                    stones as int,
                    radius as int,
                    x,
                    y,
                )
        },
{
    if stones == 0 {
        return Err(ValidationError::ZeroStones);
    }
    if stones > MAX_STONES {
        return Err(ValidationError::TooManyStones);
    }
    let ghost pre: Canvas = *canvas;
    let w = canvas.width;
    let h = canvas.height;
    let rings = stone_rings(stones, radius);
    let mut y: u32 = 0;
    while y < h
        invariant
            canvas.wf(),
            canvas.same_shape(pre),
            canvas.width == w,
            canvas.height == h,
            canvas.channels == 1,
            w == 2 * radius,
            h == 2 * radius,
            1 <= radius <= 2048,
            y <= h,
            1 <= stones <= MAX_STONES,
            rings@.len() == stones,
            forall|i: int|
                0 <= i < stones ==> #[trigger] rings@[i] == stone_ring(i, stones as int,
                    radius as int) && rings@[i] <= 4096,
            forall|x2: int, y2: int, c: int|
                canvas.valid(x2, y2, c) ==> canvas.at(x2, y2, c) == if y2 < y {
                    stone_height(stones as int, radius as int, x2, y2)
                } else {
                    pre.at(x2, y2, c) as int
                },
        decreases h - y,
    {
        let mut x: u32 = 0;
        while x < w
            invariant
                canvas.wf(),
                canvas.same_shape(pre),
                canvas.width == w,
                canvas.height == h,
                canvas.channels == 1,
                w == 2 * radius,
                h == 2 * radius,
                1 <= radius <= 2048,
                y < h,
                x <= w,
                1 <= stones <= MAX_STONES,
                rings@.len() == stones,
                forall|i: int|
                    0 <= i < stones ==> #[trigger] rings@[i] == stone_ring(i, stones as int,
                        radius as int) && rings@[i] <= 4096,
                forall|x2: int, y2: int, c: int|
                    canvas.valid(x2, y2, c) ==> canvas.at(x2, y2, c) == if y2 < y || (y2 == y && x2
                        < x) {
                        stone_height(stones as int, radius as int, x2, y2)
                    } else {
                        pre.at(x2, y2, c) as int
                    },
            decreases w - x,
        {
            let dx: i64 = (x as i64) - (radius as i64);
            let dy: i64 = (y as i64) - (radius as i64);
            proof {
                lemma_square_bound(dx as int);
                lemma_square_bound(dy as int);
            }
            let dist = isqrt((dx * dx + dy * dy) as u64);
            let mut best: u64 = radius as u64;
            let mut i: usize = 0;
            while i < rings.len()
                invariant
                    i <= rings@.len(),
                    rings@.len() == stones,
                    1 <= radius <= 2048,
                    dist <= 65535,
                    forall|j: int|
                        0 <= j < stones ==> #[trigger] rings@[j] == stone_ring(j, stones as int,
                            radius as int) && rings@[j] <= 4096,
                    best == ring_diff_upto(stones as int, radius as int, dist as int, i as int),
                    best <= radius,
                decreases rings@.len() - i,
            {
                let ring = rings[i];
                let d = if dist >= ring {
                    dist - ring
                } else {
                    ring - dist
                };
                if d < best {
                    best = d;
                }
                i = i + 1;
            }
            proof {
                lemma_stone_height_range(stones as int, radius as int, x as int, y as int);
            }
            let height: u8 = (255 * best / (radius as u64)) as u8;
            canvas.set_gray(x, y, height);
            x = x + 1;
        }
        y = y + 1;
    }
    Ok(())
}

} // verus!
