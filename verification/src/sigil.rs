//! The sigil generator: 22 digest-derived circles on an RGBA canvas.
//!
//! Circle `i` takes its center x from digest byte `i`, its center y from
//! byte `i + 16`, and its radius from byte `i + 8`, each scaled so that the
//! center stays at least 20 pixels inside the canvas border and the radius
//! lies in `[5, 25]`.  Circles are drawn in ascending index order with one
//! fixed accent colour (the painter's algorithm: later circles overwrite
//! earlier pixels; with a single colour the union is what remains).

use vstd::prelude::*;

use crate::canvas::{in_circle, rgba_channel, Canvas, Rgba};
use crate::digest::SeedDigest;

verus! {

/// How many circles a sigil holds.
pub const SIGIL_CIRCLE_COUNT: u32 = 22;

/// The fixed accent colour of sigil circles: alchemical gold.
pub open spec fn accent_color() -> Rgba {
    Rgba { r: 244, g: 208, b: 63, a: 255 }
}

/// Executable constructor of the accent colour.
pub fn accent_gold() -> (c: Rgba)
    ensures
        c == accent_color(),
{
    Rgba { r: 244, g: 208, b: 63, a: 255 }
}

/// Center x of circle `i`: byte `i` scaled into `[20, width - 20]`.
pub open spec fn circle_x(d: Seq<u8>, i: int, width: int) -> int {
    d[i] * (width - 40) / 255 + 20
}

/// Center y of circle `i`: byte `i + 16` scaled into `[20, height - 20]`.
pub open spec fn circle_y(d: Seq<u8>, i: int, height: int) -> int {
    d[i + 16] * (height - 40) / 255 + 20
}

/// Radius of circle `i`: byte `i + 8` scaled into `[5, 25]`.
pub open spec fn circle_r(d: Seq<u8>, i: int) -> int {
    d[i + 8] * 20 / 255 + 5
}

/// Whether pixel `(x, y)` lies in one of the first `n` sigil circles.
pub open spec fn sigil_covered_upto(
    d: Seq<u8>,
    width: int,
    height: int,
    x: int,
    y: int,
    n: int,
) -> bool {
    exists|i: int|
        0 <= i < n && in_circle(x, y, circle_x(d, i, width), circle_y(d, i, height), circle_r(
            d,
            i,
        ))
}

/// Whether pixel `(x, y)` lies in any of the 22 sigil circles.
pub open spec fn sigil_covered(d: Seq<u8>, width: int, height: int, x: int, y: int) -> bool {
    sigil_covered_upto(d, width, height, x, y, 22)
}

/// The value of channel `c` of pixel `(x, y)` on a sigil canvas that
/// started out zeroed: the accent colour on covered pixels, transparent
/// black elsewhere.
pub open spec fn sigil_cell(d: Seq<u8>, w: int, h: int) -> spec_fn(int, int, int) -> int {
    |x: int, y: int, c: int|
        if sigil_covered(d, w, h, x, y) {
            rgba_channel(accent_color(), c) as int
        } else {
            0
        }
}

/// A planned circle: center and radius, in pixels.
#[derive(Clone, Copy, Debug, PartialEq, Eq, Structural)]
pub struct SigilCircle {
    pub x: u32,
    pub y: u32,
    pub r: u32,
}

/// Whether an executable circle plan matches the digest-derived values.
pub open spec fn circle_matches(
    c: SigilCircle,
    d: Seq<u8>,
    i: int,
    width: int,
    height: int,
) -> bool {
    c.x == circle_x(d, i, width) && c.y == circle_y(d, i, height) && c.r == circle_r(d, i)
}

/// Scaling a byte `b` into a span: `b * span / 255` stays within the span
/// and the product stays small.
proof fn lemma_scaled_byte(b: int, span: int)
    requires
        0 <= b <= 255,
        0 <= span <= 4096,
    ensures
        0 <= b * span <= 1044480,
        0 <= b * span / 255 <= span,
{
    assert(0 <= b * span <= 1044480 && 0 <= b * span / 255 <= span) by (nonlinear_arith)
        requires
            0 <= b <= 255,
            0 <= span <= 4096,
    ;
}

/// Bounds law of the sigil derivation: for every digest and every canvas at
/// least 40 pixels wide and tall, each derived center satisfies
/// `20 <= x <= width - 20` and `20 <= y <= height - 20`, and each radius
/// lies in `[5, 25]`.
pub proof fn lemma_sigil_circle_bounds(d: Seq<u8>, width: int, height: int, i: int)
    requires
        0 <= i < 22,
        d.len() >= 38,
        40 <= width <= 4096,
        40 <= height <= 4096,
    ensures
        20 <= circle_x(d, i, width) <= width - 20,
        20 <= circle_y(d, i, height) <= height - 20,
        5 <= circle_r(d, i) <= 25,
{
    lemma_scaled_byte(d[i] as int, width - 40);
    lemma_scaled_byte(d[i + 16] as int, height - 40);
    lemma_scaled_byte(d[i + 8] as int, 20);
}

/// Derives the 22 circles of the sigil for a `width` by `height` canvas.
pub fn sigil_circles(digest: &SeedDigest, width: u32, height: u32) -> (r: Vec<SigilCircle>)
    requires
        digest.wf(),
        40 <= width <= 4096,
        40 <= height <= 4096,
    ensures
        r@.len() == 22,
        forall|i: int|
            0 <= i < 22 ==> circle_matches(#[trigger] r@[i], digest.bytes@, i, width as int,
                height as int),
{
    let mut circles: Vec<SigilCircle> = Vec::new();
    let mut i: usize = 0;
    while i < SIGIL_CIRCLE_COUNT as usize
        invariant
            i <= 22,
            digest.wf(),
            40 <= width <= 4096,
            40 <= height <= 4096,
            circles@.len() == i,
            forall|j: int|
                0 <= j < i ==> circle_matches(#[trigger] circles@[j], digest.bytes@, j,
                    width as int, height as int),
        decreases 22 - i,
    {
        let bx = digest.bytes[i];
        let by = digest.bytes[i + 16];
        let br = digest.bytes[i + 8];
        proof {
            lemma_scaled_byte(bx as int, width - 40);
            lemma_scaled_byte(by as int, height - 40);
            lemma_scaled_byte(br as int, 20);
        }
        let x = (bx as u32) * (width - 40) / 255 + 20;
        let y = (by as u32) * (height - 40) / 255 + 20;
        let r = (br as u32) * 20 / 255 + 5;
        circles.push(SigilCircle { x, y, r });
        i = i + 1;
    }
    circles
}

/// Draws the 22 digest-derived circles onto `canvas` in ascending index
/// order with the fixed accent colour.  Every covered pixel ends as the
/// accent colour; every other pixel keeps its value.
pub fn generate_sigil(canvas: &mut Canvas, digest: &SeedDigest)
    requires
        old(canvas).wf(),
        old(canvas).channels == 4,
        40 <= old(canvas).width,
        40 <= old(canvas).height,
        digest.wf(),
    ensures
        final(canvas).wf(),
        final(canvas).same_shape(*old(canvas)),
        forall|x: int, y: int, c: int|
            final(canvas).valid(x, y, c) ==> final(canvas).at(x, y, c) == if sigil_covered(
                digest.bytes@,
                old(canvas).width as int,
                old(canvas).height as int,
                x,
                y,
            ) {
                rgba_channel(accent_color(), c)
            } else {
                old(canvas).at(x, y, c)
            },
{
    let ghost pre: Canvas = *canvas;
    let ghost d: Seq<u8> = digest.bytes@;
    let w = canvas.width;
    let h = canvas.height;
    let circles = sigil_circles(digest, w, h);
    let color = accent_gold();
    let mut i: usize = 0;
    while i < SIGIL_CIRCLE_COUNT as usize
        invariant
            i <= 22,
            canvas.wf(),
            canvas.same_shape(pre),
            canvas.width == w,
            canvas.height == h,
            canvas.channels == 4,
            40 <= w <= 4096,
            40 <= h <= 4096,
            d.len() >= 38,
            circles@.len() == 22,
            color == accent_color(),
            forall|j: int|
                0 <= j < 22 ==> circle_matches(#[trigger] circles@[j], d, j, w as int, h as int),
            forall|x: int, y: int, c: int|
                canvas.valid(x, y, c) ==> canvas.at(x, y, c) == if sigil_covered_upto(d, w as int,
                    h as int, x, y, i as int) {
                    rgba_channel(color, c)
                } else {
                    pre.at(x, y, c)
                },
        decreases 22 - i,
    {
        let ghost mid: Canvas = *canvas;
        let circle = circles[i];
        proof {
            lemma_sigil_circle_bounds(d, w as int, h as int, i as int);
        }
        canvas.draw_circle(circle.x, circle.y, circle.r, color);
        proof {
            let cx = circle_x(d, i as int, w as int);
            let cy = circle_y(d, i as int, h as int);
            let cr = circle_r(d, i as int);
            assert forall|x: int, y: int, c: int|
                canvas.valid(x, y, c) implies canvas.at(x, y, c) == (if sigil_covered_upto(d,
                w as int, h as int, x, y, i + 1) {
                rgba_channel(color, c)
            } else {
                pre.at(x, y, c)
            }) by {
                if in_circle(x, y, cx, cy, cr) {
                    assert(sigil_covered_upto(d, w as int, h as int, x, y, i + 1));
                } else {
                    if sigil_covered_upto(d, w as int, h as int, x, y, i + 1) {
                        let j = choose|j: int|
                            0 <= j < i + 1 && in_circle(x, y, circle_x(d, j, w as int), circle_y(
                                d,
                                j,
                                h as int,
                            ), circle_r(d, j));
                        assert(j < i);
                        assert(sigil_covered_upto(d, w as int, h as int, x, y, i as int));
                    } else {
                        assert(!sigil_covered_upto(d, w as int, h as int, x, y, i as int));
                    }
                }
            }
        }
        i = i + 1;
    }
}

} // verus!
