//! The Voronoi gold generator.
//!
//! A set of seed points is scattered over a square canvas (32 of them when
//! derived from a digest).  Every pixel takes an intensity from its
//! distance to the nearest seed point — `255 * (size - d) / size`, clamped
//! at zero, where `d` is the floor square root of the minimal squared
//! distance — and is tinted gold: the green channel carries 91% and the
//! blue channel 30% of the intensity (fixed-point, `* 91 / 100` and
//! `* 30 / 100`), with full alpha.

use vstd::prelude::*;

use crate::canvas::{rgba_channel, Canvas, Rgba};
use crate::digest::SeedDigest;
use crate::errors::ValidationError;
use crate::fixed::{
    isqrt, lemma_isqrt_monotone, lemma_sqrt_floor_exists, lemma_square_bound, sqrt_floor,
};
use crate::MAX_SEED_POINTS;

verus! {

/// How many seed points a digest yields.
pub const GOLD_POINT_COUNT: u32 = 32;

/// Squared Euclidean distance between `(x, y)` and `(px, py)`.
pub open spec fn dist2(x: int, y: int, px: int, py: int) -> int {
    (x - px) * (x - px) + (y - py) * (y - py)
}

/// X of derived point `i`: digest byte `i` scaled into `[0, size)`.
pub open spec fn gold_point_x(d: Seq<u8>, i: int, size: int) -> int {
    d[i] * size / 256
}

/// Y of derived point `i`: digest byte `i + 8` scaled into `[0, size)`.
pub open spec fn gold_point_y(d: Seq<u8>, i: int, size: int) -> int {
    d[i + 8] * size / 256
}

/// Minimal squared distance from `(x, y)` to the first `n` points.
pub open spec fn min_dist2_upto(pts: Seq<(u32, u32)>, x: int, y: int, n: int) -> int
    decreases n,
{
    if n <= 1 {
        dist2(x, y, pts[0].0 as int, pts[0].1 as int)
    } else {
        let prev = min_dist2_upto(pts, x, y, n - 1);
        let d = dist2(x, y, pts[n - 1].0 as int, pts[n - 1].1 as int);
        if d < prev {
            d
        } else {
            prev
        }
    }
}

/// Minimal squared distance from `(x, y)` to any of the points.
pub open spec fn min_dist2(pts: Seq<(u32, u32)>, x: int, y: int) -> int {
    min_dist2_upto(pts, x, y, pts.len() as int)
}

/// The gold intensity for a squared distance `md2` on a canvas of side
/// `size`: `255 * (size - d) / size` where `d = sqrt_floor(md2)`, clamped
/// at zero.
pub open spec fn gold_intensity(size: int, md2: int) -> int {
    let d = sqrt_floor(md2);
    if d >= size {
        0
    } else {
        255 * (size - d) / size
    }
}

/// The value of channel `c` of a gold pixel at `(x, y)`.
pub open spec fn gold_pixel(pts: Seq<(u32, u32)>, size: int, x: int, y: int, c: int) -> int {
    let inten = gold_intensity(size, min_dist2(pts, x, y));
    if c == 0 {
        inten
    } else if c == 1 {
        inten * 91 / 100
    } else if c == 2 {
        inten * 30 / 100
    } else {
        255
    }
}

/// The 32 derived seed points, as a sequence.
pub open spec fn gold_points_spec(d: Seq<u8>, size: int) -> Seq<(u32, u32)> {
    Seq::new(32, |i: int| ((d[i] * size / 256) as u32, (d[i + 8] * size / 256) as u32))
}

/// The value of channel `c` of pixel `(x, y)` of the gold field.
pub open spec fn gold_cell(pts: Seq<(u32, u32)>, size: int) -> spec_fn(int, int, int) -> int {
    |x: int, y: int, c: int| gold_pixel(pts, size, x, y, c)
}

/// The gold intensity always lies in `[0, 255]`.
pub proof fn lemma_gold_intensity_range(size: int, md2: int)
    requires
        1 <= size,
        0 <= md2,
    ensures
        0 <= gold_intensity(size, md2) <= 255,
{
    lemma_sqrt_floor_exists(md2);
    let d = sqrt_floor(md2);
    if d < size {
        assert(0 <= 255 * (size - d) / size <= 255) by (nonlinear_arith)
            requires
                1 <= size,
                0 <= d < size,
        ;
    }
}

/// Monotonicity law of the gold field: the intensity never increases as
/// the squared distance to the nearest seed point grows.
pub proof fn lemma_gold_intensity_monotone(size: int, d2a: int, d2b: int)
    requires
        1 <= size,
        0 <= d2a <= d2b,
    ensures
        gold_intensity(size, d2a) >= gold_intensity(size, d2b),
{
    lemma_sqrt_floor_exists(d2a);
    lemma_sqrt_floor_exists(d2b);
    let da = sqrt_floor(d2a);
    let db = sqrt_floor(d2b);
    lemma_isqrt_monotone(d2a, d2b, da, db);
    lemma_gold_intensity_range(size, d2a);
    lemma_gold_intensity_range(size, d2b);
    if db < size {
        assert(255 * (size - da) / size >= 255 * (size - db) / size) by (nonlinear_arith)
            requires
                1 <= size,
                0 <= da <= db < size,
        ;
    }
}

/// Derives the 32 Voronoi seed points of a digest, each inside the
/// `size` by `size` canvas.
pub fn gold_points(digest: &SeedDigest, size: u32) -> (pts: Vec<(u32, u32)>)
    requires
        digest.wf(),
        1 <= size <= 4096,
    ensures
        pts@.len() == 32,
        forall|i: int|
            0 <= i < 32 ==> (#[trigger] pts@[i]).0 == gold_point_x(digest.bytes@, i, size as int)
                && pts@[i].1 == gold_point_y(digest.bytes@, i, size as int),
        forall|i: int| 0 <= i < 32 ==> (#[trigger] pts@[i]).0 < size && pts@[i].1 < size,
{
    let mut pts: Vec<(u32, u32)> = Vec::new();
    let mut i: usize = 0;
    while i < GOLD_POINT_COUNT as usize
        invariant
            i <= 32,
            digest.wf(),
            1 <= size <= 4096,
            pts@.len() == i,
            forall|j: int|
                0 <= j < i ==> (#[trigger] pts@[j]).0 == gold_point_x(digest.bytes@, j, size as int)
                    && pts@[j].1 == gold_point_y(digest.bytes@, j, size as int),
            forall|j: int| 0 <= j < i ==> (#[trigger] pts@[j]).0 < size && pts@[j].1 < size,
        decreases 32 - i,
    {
        let bx = digest.bytes[i];
        let by = digest.bytes[i + 8];
        proof {
            assert(0 <= bx * size / 256 < size && 0 <= by * size / 256 < size)
                by (nonlinear_arith)
                requires
                    0 <= bx <= 255,
                    0 <= by <= 255,
                    1 <= size <= 4096,
            ;
        }
        let px = (bx as u32) * size / 256;
        let py = (by as u32) * size / 256;
        pts.push((px, py));
        i = i + 1;
    }
    pts
}

/// Minimal squared distance from pixel `(x, y)` to the seed points.
fn nearest_dist2(pts: &Vec<(u32, u32)>, x: u32, y: u32) -> (r: u64)
    requires
        1 <= pts@.len(),
        x <= 4096,
        y <= 4096,
        forall|i: int| 0 <= i < pts@.len() ==> (#[trigger] pts@[i]).0 <= 4096 && pts@[i].1 <= 4096,
    ensures
        r == min_dist2(pts@, x as int, y as int),
        r <= 134217728,
{
    let mut best: u64 = point_dist2(pts, 0, x, y);
    let mut j: usize = 1;
    let n = pts.len();
    while j < n
        invariant
            1 <= j <= n,
            n == pts@.len(),
            x <= 4096,
            y <= 4096,
            forall|i: int|
                0 <= i < pts@.len() ==> (#[trigger] pts@[i]).0 <= 4096 && pts@[i].1 <= 4096,
            best == min_dist2_upto(pts@, x as int, y as int, j as int),
            best <= 134217728,
        decreases n - j,
    {
        let d = point_dist2(pts, j, x, y);
        if d < best {
            best = d;
        }
        j = j + 1;
    }
    best
}

/// Squared distance from `(x, y)` to point `i`.
fn point_dist2(pts: &Vec<(u32, u32)>, i: usize, x: u32, y: u32) -> (r: u64)
    requires
        i < pts@.len(),
        x <= 4096,
        y <= 4096,
        pts@[i as int].0 <= 4096,
        pts@[i as int].1 <= 4096,
    ensures
        r == dist2(x as int, y as int, pts@[i as int].0 as int, pts@[i as int].1 as int),
        r <= 134217728,
{
    let (px, py) = pts[i];
    let dx: i64 = (x as i64) - (px as i64);
    let dy: i64 = (y as i64) - (py as i64);
    proof {
        lemma_square_bound(dx as int);
        lemma_square_bound(dy as int);
    }
    (dx * dx + dy * dy) as u64
}

/// Fills the square RGBA canvas with the Voronoi gold field of the given
/// seed points.  Rejects an empty point list and one above
/// `MAX_SEED_POINTS`; on success every pixel is fully determined by the
/// points and the canvas side.
pub fn generate_gold(canvas: &mut Canvas, pts: &Vec<(u32, u32)>) -> (r: Result<
    (),
    ValidationError,
>)
    requires
        old(canvas).wf(),
        old(canvas).channels == 4,
        old(canvas).width == old(canvas).height,
        forall|i: int|
            0 <= i < pts@.len() ==> (#[trigger] pts@[i]).0 < old(canvas).width && pts@[i].1 < old(
                canvas,
            ).height,
    ensures
        r == Err::<(), _>(ValidationError::NoSeedPoints) <==> pts@.len() == 0,
        r == Err::<(), _>(ValidationError::TooManySeedPoints) <==> pts@.len() > MAX_SEED_POINTS,
        r is Ok <==> 1 <= pts@.len() <= MAX_SEED_POINTS,
        r is Err ==> *final(canvas) == *old(canvas),
        r is Ok ==> {
            &&& final(canvas).wf()
            &&& final(canvas).same_shape(*old(canvas))
            &&& forall|x: int, y: int, c: int|
                final(canvas).valid(x, y, c) ==> final(canvas).at(x, y, c) == gold_pixel(
                    pts@,
                    old(canvas).width as int,
                    x,
                    y,
                    c,
                )
        },
{
    if pts.len() == 0 {
        return Err(ValidationError::NoSeedPoints);
    }
    if pts.len() > MAX_SEED_POINTS {
        return Err(ValidationError::TooManySeedPoints);
    }
    let ghost pre: Canvas = *canvas;
    let size = canvas.width;
    let h = canvas.height;
    let mut y: u32 = 0;
    while y < h
        invariant
            canvas.wf(),
            canvas.same_shape(pre),
            canvas.width == size,
            canvas.height == h,
            canvas.channels == 4,
            size == h,
            y <= h,
            1 <= pts@.len() <= MAX_SEED_POINTS,
            forall|i: int|
                0 <= i < pts@.len() ==> (#[trigger] pts@[i]).0 < size && pts@[i].1 < size,
            forall|x2: int, y2: int, c: int|
                canvas.valid(x2, y2, c) ==> canvas.at(x2, y2, c) == if y2 < y {
                    gold_pixel(pts@, size as int, x2, y2, c)
                } else {
                    pre.at(x2, y2, c) as int
                },
        decreases h - y,
    {
        let mut x: u32 = 0;
        while x < size
            invariant
                canvas.wf(),
                canvas.same_shape(pre),
                canvas.width == size,
                canvas.height == h,
                canvas.channels == 4,
                size == h,
                y < h,
                x <= size,
                1 <= pts@.len() <= MAX_SEED_POINTS,
                forall|i: int|
                    0 <= i < pts@.len() ==> (#[trigger] pts@[i]).0 < size && pts@[i].1 < size,
                forall|x2: int, y2: int, c: int|
                    canvas.valid(x2, y2, c) ==> canvas.at(x2, y2, c) == if y2 < y || (y2 == y && x2
                        < x) {
                        gold_pixel(pts@, size as int, x2, y2, c)
                    } else {
                        pre.at(x2, y2, c) as int
                    },
            decreases size - x,
        {
            let md2 = nearest_dist2(pts, x, y);
            let d = isqrt(md2);
            proof {
                lemma_sqrt_floor_exists(md2 as int);
                lemma_gold_intensity_range(size as int, md2 as int);
            }
            let inten: u64 = if d >= size as u64 {
                0
            } else {
                255 * (size as u64 - d) / (size as u64)
            };
            let col = Rgba {
                r: inten as u8,
                g: (inten * 91 / 100) as u8,
                b: (inten * 30 / 100) as u8,
                a: 255,
            };
            proof {
                assert(inten * 91 / 100 <= 255 && inten * 30 / 100 <= 255);
                assert(forall|c: int|
                    0 <= c < 4 ==> rgba_channel(col, c) == gold_pixel(pts@, size as int, x as int,
                        y as int, c));
            }
            canvas.set_pixel(x, y, col);
            x = x + 1;
        }
        y = y + 1;
    }
    Ok(())
}

} // verus!
