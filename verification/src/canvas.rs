//! The raster canvas: an owned, bounds-checked pixel buffer of fixed
//! dimensions and channel count.
//!
//! A canvas is created zero-initialised, mutated only through bounds-safe
//! plotting primitives (a write outside the canvas is a no-op, never a
//! panic), and read back by the encoder.  Pixels are stored row-major,
//! `channels` bytes per pixel.

use vstd::prelude::*;

use crate::errors::ValidationError;
use crate::fixed::lemma_square_bound;
use crate::MAX_DIM;

verus! {

/// An RGBA colour, one byte per channel.
#[derive(Clone, Copy, Debug, PartialEq, Eq, Structural)]
pub struct Rgba {
    pub r: u8,
    pub g: u8,
    pub b: u8,
    pub a: u8,
}

/// The `c`-th channel byte of a colour, in storage order.
pub open spec fn rgba_channel(col: Rgba, c: int) -> u8 {
    if c == 0 {
        col.r
    } else if c == 1 {
        col.g
    } else if c == 2 {
        col.b
    } else {
        col.a
    }
}

/// Whether the point `(x, y)` lies in the filled circle of radius `r`
/// around `(cx, cy)`: squared Euclidean distance at most `r * r`.
pub open spec fn in_circle(x: int, y: int, cx: int, cy: int, r: int) -> bool {
    (x - cx) * (x - cx) + (y - cy) * (y - cy) <= r * r
}

/// An owned pixel buffer with fixed `width`, `height` and `channels`
/// (1 = grayscale, 4 = RGBA), holding `width * height * channels` bytes,
/// row-major, `channels` bytes per pixel.
pub struct Canvas {
    pub width: u32,
    pub height: u32,
    pub channels: u32,
    pub data: Vec<u8>,
}

impl Canvas {
    /// Well-formedness: positive bounded dimensions, a supported channel
    /// count, and a buffer of exactly the right length.
    pub open spec fn wf(self) -> bool {
        &&& 1 <= self.width <= MAX_DIM
        &&& 1 <= self.height <= MAX_DIM
        &&& (self.channels == 1 || self.channels == 4)
        &&& self.data@.len() == self.width * self.height * self.channels
    }

    /// Index of the first byte of pixel `(x, y)` in the buffer.
    pub open spec fn idx(self, x: int, y: int) -> int {
        (y * self.width + x) * self.channels
    }

    /// The `c`-th channel byte of pixel `(x, y)`.
    pub open spec fn at(self, x: int, y: int, c: int) -> u8 {
        self.data@[self.idx(x, y) + c]
    }

    /// Whether `(x, y, c)` addresses a valid channel byte.
    pub open spec fn valid(self, x: int, y: int, c: int) -> bool {
        0 <= x < self.width && 0 <= y < self.height && 0 <= c < self.channels
    }

    /// The dimensions and channel count of `self` equal those of `other`.
    pub open spec fn same_shape(self, other: Canvas) -> bool {
        self.width == other.width && self.height == other.height
            && self.channels == other.channels
    }

    /// Creates a zero-initialised (transparent/black) canvas.  Rejects a
    /// zero dimension, an unsupported channel count, and a dimension above
    /// `MAX_DIM`, in that order of precedence; never panics.
    pub fn create(width: u32, height: u32, channels: u32) -> (r: Result<Canvas, ValidationError>)
        ensures
            (width == 0 || height == 0) <==> r == Err::<Canvas, _>(ValidationError::ZeroDimension),
            (width >= 1 && height >= 1 && channels != 1 && channels != 4) <==> r == Err::<
                Canvas,
                _,
            >(ValidationError::UnsupportedChannels),
            (width >= 1 && height >= 1 && (channels == 1 || channels == 4) && (width > MAX_DIM
                || height > MAX_DIM)) <==> r == Err::<Canvas, _>(ValidationError::OversizedCanvas),
            r is Ok <==> (1 <= width <= MAX_DIM && 1 <= height <= MAX_DIM && (channels == 1
                || channels == 4)),
            r is Ok ==> {
                let c = r->Ok_0;
                &&& c.wf()
                &&& c.width == width
                &&& c.height == height
                &&& c.channels == channels
                &&& forall|i: int| 0 <= i < c.data@.len() ==> c.data@[i] == 0u8
            },
    {
        if width == 0 || height == 0 {
            return Err(ValidationError::ZeroDimension);
        }
        if channels != 1 && channels != 4 {
            return Err(ValidationError::UnsupportedChannels);
        }
        if width > MAX_DIM || height > MAX_DIM {
            return Err(ValidationError::OversizedCanvas);
        }
        proof {
            lemma_buffer_bound(width as int, height as int, channels as int);
        }
        let len: usize = (width as usize) * (height as usize) * (channels as usize);
        let data = zero_bytes(len);
        Ok(Canvas { width, height, channels, data })
    }

    /// Overwrites the four channel bytes of pixel `(x, y)` with `color`.
    /// A write outside the canvas is silently ignored.
    pub fn set_pixel(&mut self, x: u32, y: u32, color: Rgba)
        requires
            old(self).wf(),
            old(self).channels == 4,
        ensures
            final(self).wf(),
            final(self).same_shape(*old(self)),
            forall|x2: int, y2: int, c: int|
                final(self).valid(x2, y2, c) ==> final(self).at(x2, y2, c) == if x2 == x && y2
                    == y {
                    rgba_channel(color, c)
                } else {
                    old(self).at(x2, y2, c)
                },
    {
        let ghost pre: Canvas = *self;
        if x < self.width && y < self.height {
            proof {
                lemma_cell_bound(self.width as int, self.height as int, self.channels as int,
                    x as int, y as int);
            }
            let base: usize = ((y as usize) * (self.width as usize) + (x as usize)) * 4;
            self.data[base] = color.r;
            self.data[base + 1] = color.g;
            self.data[base + 2] = color.b;
            self.data[base + 3] = color.a;
            proof {
                let w = self.width as int;
                let b = (y as int * w + x as int) * 4;
                assert forall|x2: int, y2: int, c: int|
                    self.valid(x2, y2, c) implies self.at(x2, y2, c) == (if x2 == x && y2 == y {
                    rgba_channel(color, c)
                } else {
                    pre.at(x2, y2, c)
                }) by {
                    lemma_cell_bound(w, self.height as int, 4, x2, y2);
                    if !(x2 == x && y2 == y) {
                        let i = (y2 * w + x2) * 4 + c;
                        if i == b {
                            lemma_cell_injective(w, 4, x2, y2, c, x as int, y as int, 0);
                        }
                        if i == b + 1 {
                            lemma_cell_injective(w, 4, x2, y2, c, x as int, y as int, 1);
                        }
                        if i == b + 2 {
                            lemma_cell_injective(w, 4, x2, y2, c, x as int, y as int, 2);
                        }
                        if i == b + 3 {
                            lemma_cell_injective(w, 4, x2, y2, c, x as int, y as int, 3);
                        }
                    }
                }
            }
        }
    }

    /// Overwrites the single byte of grayscale pixel `(x, y)` with `v`.
    /// A write outside the canvas is silently ignored.
    pub fn set_gray(&mut self, x: u32, y: u32, v: u8)
        requires
            old(self).wf(),
            old(self).channels == 1,
        ensures
            final(self).wf(),
            final(self).same_shape(*old(self)),
            forall|x2: int, y2: int, c: int|
                final(self).valid(x2, y2, c) ==> final(self).at(x2, y2, c) == if x2 == x && y2
                    == y {
                    v
                } else {
                    old(self).at(x2, y2, c)
                },
    {
        let ghost pre: Canvas = *self;
        if x < self.width && y < self.height {
            proof {
                lemma_cell_bound(self.width as int, self.height as int, 1, x as int, y as int);
            }
            let base: usize = (y as usize) * (self.width as usize) + (x as usize);
            self.data[base] = v;
            proof {
                let w = self.width as int;
                let b = y as int * w + x as int;
                assert forall|x2: int, y2: int, c: int|
                    self.valid(x2, y2, c) implies self.at(x2, y2, c) == (if x2 == x && y2 == y {
                    v
                } else {
                    pre.at(x2, y2, c)
                }) by {
                    lemma_cell_bound(w, self.height as int, 1, x2, y2);
                    if !(x2 == x && y2 == y) {
                        let i = (y2 * w + x2) * 1 + c;
                        if i == b {
                            lemma_cell_injective(w, 1, x2, y2, c, x as int, y as int, 0);
                        }
                    }
                }
            }
        }
    }

    /// Sets every pixel whose squared distance to `(cx, cy)` is at most
    /// `r * r` to `color`, clipped at the canvas edges; all other pixels
    /// keep their value.
    pub fn draw_circle(&mut self, cx: u32, cy: u32, r: u32, color: Rgba)
        requires
            old(self).wf(),
            old(self).channels == 4,
            cx <= MAX_DIM,
            cy <= MAX_DIM,
            r <= MAX_DIM,
        ensures
            final(self).wf(),
            final(self).same_shape(*old(self)),
            forall|x2: int, y2: int, c: int|
                final(self).valid(x2, y2, c) ==> final(self).at(x2, y2, c) == if in_circle(x2, y2,
                    cx as int, cy as int, r as int) {
                    rgba_channel(color, c)
                } else {
                    old(self).at(x2, y2, c)
                },
    {
        let ghost pre: Canvas = *self;
        let w = self.width;
        let h = self.height;
        let mut y: u32 = 0;
        while y < h
            invariant
                self.wf(),
                self.same_shape(pre),
                self.width == w,
                self.height == h,
                self.channels == 4,
                y <= h,
                cx <= MAX_DIM,
                cy <= MAX_DIM,
                r <= MAX_DIM,
                forall|x2: int, y2: int, c: int|
                    self.valid(x2, y2, c) ==> self.at(x2, y2, c) == if y2 < y && in_circle(x2, y2,
                        cx as int, cy as int, r as int) {
                        rgba_channel(color, c)
                    } else {
                        pre.at(x2, y2, c)
                    },
            decreases h - y,
        {
            let mut x: u32 = 0;
            while x < w
                invariant
                    self.wf(),
                    self.same_shape(pre),
                    self.width == w,
                    self.height == h,
                    self.channels == 4,
                    y < h,
                    x <= w,
                    cx <= MAX_DIM,
                    cy <= MAX_DIM,
                    r <= MAX_DIM,
                    forall|x2: int, y2: int, c: int|
                        self.valid(x2, y2, c) ==> self.at(x2, y2, c) == if (y2 < y || (y2 == y && x2
                            < x)) && in_circle(x2, y2, cx as int, cy as int, r as int) {
                            rgba_channel(color, c)
                        } else {
                            pre.at(x2, y2, c)
                        },
                decreases w - x,
            {
                let dx: i64 = (x as i64) - (cx as i64);
                let dy: i64 = (y as i64) - (cy as i64);
                proof {
                    lemma_square_bound(dx as int);
                    lemma_square_bound(dy as int);
                    lemma_square_bound(r as int);
                }
                if dx * dx + dy * dy <= (r as i64) * (r as i64) {
                    self.set_pixel(x, y, color);
                }
                x = x + 1;
            }
            y = y + 1;
        }
    }
}

/// The x coordinate addressed by flat buffer index `i`.
pub open spec fn flat_x(i: int, w: int, ch: int) -> int {
    (i / ch) % w
}

/// The y coordinate addressed by flat buffer index `i`.
pub open spec fn flat_y(i: int, w: int, ch: int) -> int {
    (i / ch) / w
}

/// The channel addressed by flat buffer index `i`.
pub open spec fn flat_c(i: int, ch: int) -> int {
    i % ch
}

/// Every flat index decomposes uniquely into a valid cell.
pub proof fn lemma_flat_decompose(i: int, w: int, h: int, ch: int)
    requires
        0 <= i < w * h * ch,
        1 <= w,
        1 <= h,
        1 <= ch,
    ensures
        0 <= flat_x(i, w, ch) < w,
        0 <= flat_y(i, w, ch) < h,
        0 <= flat_c(i, ch) < ch,
        (flat_y(i, w, ch) * w + flat_x(i, w, ch)) * ch + flat_c(i, ch) == i,
{
    let q = i / ch;
    let c = i % ch;
    vstd::arithmetic::div_mod::lemma_fundamental_div_mod(i, ch);
    vstd::arithmetic::div_mod::lemma_mod_bound(i, ch);
    assert(0 <= q < w * h) by (nonlinear_arith)
        requires
            i == ch * q + c,
            0 <= c < ch,
            0 <= i < w * h * ch,
            1 <= ch,
            1 <= w,
            1 <= h,
    ;
    let x = q % w;
    let y = q / w;
    vstd::arithmetic::div_mod::lemma_fundamental_div_mod(q, w);
    vstd::arithmetic::div_mod::lemma_mod_bound(q, w);
    assert(0 <= y < h) by (nonlinear_arith)
        requires
            q == w * y + x,
            0 <= x < w,
            0 <= q < w * h,
            1 <= w,
            1 <= h,
    ;
    assert((y * w + x) * ch + c == i) by (nonlinear_arith)
        requires
            i == ch * q + c,
            q == w * y + x,
    ;
}

/// The whole pixel buffer that a per-cell value function describes:
/// byte `i` is the value of the cell that `i` addresses.
pub open spec fn pixels_of(w: int, h: int, ch: int, f: spec_fn(int, int, int) -> int) -> Seq<u8> {
    Seq::new((w * h * ch) as nat, |i: int| f(flat_x(i, w, ch), flat_y(i, w, ch), flat_c(i, ch)) as u8)
}

/// A canvas whose every cell carries the value of `f` holds exactly the
/// buffer `pixels_of` describes.
pub proof fn lemma_canvas_pixels(c: Canvas, f: spec_fn(int, int, int) -> int)
    requires
        c.wf(),
        forall|x: int, y: int, cc: int| c.valid(x, y, cc) ==> c.at(x, y, cc) == f(x, y, cc),
    ensures
        c.data@ == pixels_of(c.width as int, c.height as int, c.channels as int, f),
{
    let w = c.width as int;
    let h = c.height as int;
    let ch = c.channels as int;
    let p = pixels_of(w, h, ch, f);
    assert forall|i: int| 0 <= i < c.data@.len() implies c.data@[i] == p[i] by {
        lemma_flat_decompose(i, w, h, ch);
        let x = flat_x(i, w, ch);
        let y = flat_y(i, w, ch);
        let cc = flat_c(i, ch);
        assert(c.at(x, y, cc) == f(x, y, cc));
    }
    assert(c.data@ =~= p);
}

/// Determinism law of the generators: two canvases of the same shape
/// whose every cell carries the value of one and the same function of the
/// coordinates are byte-identical.  Each generator's contract pins its
/// output cells to such a function of its parameters alone, so two runs
/// with equal parameters produce byte-identical canvases.
pub proof fn lemma_canvas_determined(c1: Canvas, c2: Canvas, f: spec_fn(int, int, int) -> int)
    requires
        c1.wf(),
        c2.wf(),
        c1.same_shape(c2),
        forall|x: int, y: int, cc: int| c1.valid(x, y, cc) ==> c1.at(x, y, cc) == f(x, y, cc),
        forall|x: int, y: int, cc: int| c2.valid(x, y, cc) ==> c2.at(x, y, cc) == f(x, y, cc),
    ensures
        c1.data@ == c2.data@,
{
    lemma_canvas_pixels(c1, f);
    lemma_canvas_pixels(c2, f);
}

/// A vector of `n` zero bytes.
fn zero_bytes(n: usize) -> (v: Vec<u8>)
    ensures
        v@.len() == n,
        forall|i: int| 0 <= i < n ==> v@[i] == 0u8,
{
    let mut v: Vec<u8> = Vec::new();
    while v.len() < n
        invariant
            v@.len() <= n,
            forall|i: int| 0 <= i < v@.len() ==> v@[i] == 0u8,
        decreases n - v@.len(),
    {
        v.push(0u8);
    }
    v
}

/// The whole buffer of a bounded canvas is small: the size computation
/// cannot overflow a `usize`.
proof fn lemma_buffer_bound(w: int, h: int, ch: int)
    requires
        1 <= w <= 4096,
        1 <= h <= 4096,
        1 <= ch <= 4,
    ensures
        0 <= w * h <= 16777216,
        0 <= w * h * ch <= 67108864,
{
    assert(0 <= w * h <= 16777216 && 0 <= w * h * ch <= 67108864) by (nonlinear_arith)
        requires
            1 <= w <= 4096,
            1 <= h <= 4096,
            1 <= ch <= 4,
    ;
}

/// The byte addressed by an in-range cell `(x, y)` lies inside a buffer of
/// `w * h * ch` bytes.
proof fn lemma_cell_bound(w: int, h: int, ch: int, x: int, y: int)
    requires
        0 <= x < w <= 4096,
        0 <= y < h <= 4096,
        1 <= ch <= 4,
    ensures
        0 <= y * w + x < w * h,
        w * h <= 16777216,
        0 <= (y * w + x) * ch,
        (y * w + x) * ch + ch <= w * h * ch,
        w * h * ch <= 67108864,
{
    assert(0 <= y * w + x < w * h && w * h <= 16777216 && 0 <= (y * w + x) * ch && (y * w + x) * ch
        + ch <= w * h * ch && w * h * ch <= 67108864) by (nonlinear_arith)
        requires
            0 <= x < w <= 4096,
            0 <= y < h <= 4096,
            1 <= ch <= 4,
    ;
}

/// Row-major cell addressing is injective: two distinct in-range channel
/// cells never share a buffer index.
proof fn lemma_cell_injective(w: int, ch: int, x1: int, y1: int, c1: int, x2: int, y2: int, c2: int)
    requires
        0 <= x1 < w,
        0 <= x2 < w,
        0 <= c1 < ch,
        0 <= c2 < ch,
        0 <= y1,
        0 <= y2,
        (y1 * w + x1) * ch + c1 == (y2 * w + x2) * ch + c2,
    ensures
        x1 == x2,
        y1 == y2,
        c1 == c2,
{
    lemma_base_offset_unique(y1 * w + x1, y2 * w + x2, ch, c1, c2);
    lemma_base_offset_unique(y1, y2, w, x1, x2);
}

/// If `a1 * b + c1 == a2 * b + c2` with both offsets in `[0, b)`, the
/// quotients and offsets agree.
proof fn lemma_base_offset_unique(a1: int, a2: int, b: int, c1: int, c2: int)
    requires
        0 <= c1 < b,
        0 <= c2 < b,
        a1 * b + c1 == a2 * b + c2,
    ensures
        a1 == a2,
        c1 == c2,
{
    assert(a1 == a2 && c1 == c2) by (nonlinear_arith)
        requires
            0 <= c1 < b,
            0 <= c2 < b,
            a1 * b + c1 == a2 * b + c2,
    ;
}

} // verus!
