//! Integer and fixed-point numerics for the pixel generators.
//!
//! The generators work entirely in integers so that their output is
//! bit-identical on every platform:
//!
//! * `isqrt` is the floor square root, used for Euclidean distances;
//! * angles are measured in 1/65536 of a turn; `sin_fp` and `cos_fp`
//!   evaluate Bhaskara I's classical rational approximation of the sine,
//!   scaled by 65536;
//! * `pseudo_angle_fp` maps a direction vector to `[0, 65536)` by the
//!   "diamond angle": piecewise-linear in `dx / (|dx| + |dy|)`, continuous
//!   and strictly monotone around the circle, standing in for
//!   `(atan2 + pi) / 2 pi`.

use vstd::prelude::*;

verus! {

/// The square of a coordinate difference bounded by twice the canvas
/// limit is small: squared distances never overflow.
pub proof fn lemma_square_bound(a: int)
    requires
        -8192 <= a <= 8192,
    ensures
        0 <= a * a <= 67108864,
{
    assert(0 <= a * a <= 67108864) by (nonlinear_arith)
        requires
            -8192 <= a <= 8192,
    ;
}

/// `r` is the floor square root of `n`.
pub open spec fn is_isqrt(n: int, r: int) -> bool {
    0 <= r && r * r <= n && n < (r + 1) * (r + 1)
}

/// The floor square root as a spec-level function.
pub open spec fn sqrt_floor(n: int) -> int {
    choose|r: int| is_isqrt(n, r)
}

/// Floor square roots are unique.
pub proof fn lemma_isqrt_unique(n: int, r1: int, r2: int)
    requires
        is_isqrt(n, r1),
        is_isqrt(n, r2),
    ensures
        r1 == r2,
{
    assert(r1 == r2) by (nonlinear_arith)
        requires
            0 <= r1 && r1 * r1 <= n && n < (r1 + 1) * (r1 + 1),
            0 <= r2 && r2 * r2 <= n && n < (r2 + 1) * (r2 + 1),
    ;
}

/// A witness pins down `sqrt_floor`.
pub proof fn lemma_sqrt_floor(n: int, r: int)
    requires
        is_isqrt(n, r),
    ensures
        sqrt_floor(n) == r,
{
    assert(is_isqrt(n, choose|x: int| is_isqrt(n, x)));
    lemma_isqrt_unique(n, choose|x: int| is_isqrt(n, x), r);
}

/// Every non-negative integer has a floor square root, so `sqrt_floor` is
/// well defined.
pub proof fn lemma_sqrt_floor_exists(n: int)
    requires
        0 <= n,
    ensures
        is_isqrt(n, sqrt_floor(n)),
    decreases n,
{
    if n == 0 {
        assert(is_isqrt(0, 0));
        assert(is_isqrt(n, choose|x: int| is_isqrt(n, x)));
    } else {
        lemma_sqrt_floor_exists(n - 1);
        let r = sqrt_floor(n - 1);
        if n < (r + 1) * (r + 1) {
            assert(is_isqrt(n, r));
        } else {
            assert((r + 1) * (r + 1) < (r + 2) * (r + 2)) by (nonlinear_arith)
                requires
                    0 <= r,
            ;
            assert(is_isqrt(n, r + 1));
        }
        assert(is_isqrt(n, choose|x: int| is_isqrt(n, x)));
    }
}

/// The floor square root is monotone.
pub proof fn lemma_isqrt_monotone(n1: int, n2: int, r1: int, r2: int)
    requires
        is_isqrt(n1, r1),
        is_isqrt(n2, r2),
        n1 <= n2,
    ensures
        r1 <= r2,
{
    assert(r1 <= r2) by (nonlinear_arith)
        requires
            0 <= r1 && r1 * r1 <= n1 && n1 < (r1 + 1) * (r1 + 1),
            0 <= r2 && r2 * r2 <= n2 && n2 < (r2 + 1) * (r2 + 1),
            n1 <= n2,
    ;
}

/// Floor square root of `n`, by binary search.
pub fn isqrt(n: u64) -> (r: u64)
    requires
        n <= 0xFFFF_FFFF,
    ensures
        is_isqrt(n as int, r as int),
        r == sqrt_floor(n as int),
        r <= 65535,
{
    let mut lo: u64 = 0;
    let mut hi: u64 = 65536;
    while lo + 1 < hi
        invariant
            lo < hi <= 65536,
            lo * lo <= n,
            n < hi * hi,
        decreases hi - lo,
    {
        let mid = lo + (hi - lo) / 2;
        proof {
            assert(mid * mid <= 0x1_0000_0000) by (nonlinear_arith)
                requires
                    mid <= 65536,
            ;
        }
        if mid * mid <= n {
            lo = mid;
        } else {
            hi = mid;
        }
    }
    proof {
        lemma_sqrt_floor(n as int, lo as int);
    }
    lo
}

/// Bhaskara I's sine approximation on the first half turn, scaled by
/// 65536.  For `t` in half-turn position `h = t / 32768`, the value is
/// `65536 * 16 h (1 - h) / (5 - 4 h (1 - h))`, written over integers.
pub open spec fn sin_half_fp(t: int) -> int {
    1048576 * (t * (32768 - t)) / (5368709120 - 4 * (t * (32768 - t)))
}

/// Sine of an angle in 1/65536 turn, scaled by 65536: the first half turn
/// is non-negative, the second is its mirror image negated.
pub open spec fn sin_fp(t: int) -> int {
    if t < 32768 {
        sin_half_fp(t)
    } else {
        -sin_half_fp(t - 32768)
    }
}

/// Cosine: the sine a quarter turn ahead.
pub open spec fn cos_fp(t: int) -> int {
    sin_fp((t + 16384) % 65536)
}

/// The product `t * (32768 - t)` on the half turn is bounded by `16384²`.
proof fn lemma_half_product_bound(t: int)
    requires
        0 <= t <= 32768,
    ensures
        0 <= t * (32768 - t) <= 268435456,
{
    assert(0 <= t * (32768 - t) <= 268435456) by (nonlinear_arith)
        requires
            0 <= t <= 32768,
    ;
}

/// The half-turn sine is within `[0, 65536]`.
pub proof fn lemma_sin_half_bounds(t: int)
    requires
        0 <= t <= 32768,
    ensures
        0 <= sin_half_fp(t) <= 65536,
{
    lemma_half_product_bound(t);
    let u = t * (32768 - t);
    assert(0 <= 1048576 * u / (5368709120 - 4 * u) <= 65536) by (nonlinear_arith)
        requires
            0 <= u <= 268435456,
    ;
}

/// The sine is within `[-65536, 65536]` on the whole turn.
pub proof fn lemma_sin_bounds(t: int)
    requires
        0 <= t < 65536,
    ensures
        -65536 <= sin_fp(t) <= 65536,
{
    if t < 32768 {
        lemma_sin_half_bounds(t);
    } else {
        lemma_sin_half_bounds(t - 32768);
    }
}

/// Sine of `t` (in 1/65536 turn), scaled by 65536.
pub fn sin_fixed(t: u32) -> (r: i64)
    requires
        t < 65536,
    ensures
        r == sin_fp(t as int),
        -65536 <= r <= 65536,
{
    let half: u64 = if t < 32768 {
        t as u64
    } else {
        (t - 32768) as u64
    };
    proof {
        lemma_half_product_bound(half as int);
    }
    let u: u64 = half * (32768 - half);
    let num: u64 = 1048576 * u;
    let den: u64 = 5368709120 - 4 * u;
    let magnitude: u64 = num / den;
    proof {
        lemma_sin_half_bounds(half as int);
    }
    if t < 32768 {
        magnitude as i64
    } else {
        -(magnitude as i64)
    }
}

/// Cosine of `t` (in 1/65536 turn), scaled by 65536.
pub fn cos_fixed(t: u32) -> (r: i64)
    requires
        t < 65536,
    ensures
        r == cos_fp(t as int),
        -65536 <= r <= 65536,
{
    sin_fixed((t + 16384) % 65536)
}

/// The diamond pseudo-angle of the direction `(dx, dy)`, in `[0, 65536)`
/// (1/65536 of a turn): `0` points along the positive x axis and the angle
/// grows counter-clockwise.  Piecewise linear in `dx / (|dx| + |dy|)`; the
/// zero vector maps to angle `0`.
pub open spec fn pseudo_angle(dy: int, dx: int) -> int {
    let adx = if dx >= 0 {
        dx
    } else {
        -dx
    };
    let ady = if dy >= 0 {
        dy
    } else {
        -dy
    };
    if adx + ady == 0 {
        0
    } else {
        let q = if dx >= 0 {
            adx * 16384 / (adx + ady)
        } else {
            -(adx * 16384 / (adx + ady))
        };
        if dy >= 0 {
            16384 - q
        } else {
            49152 + q
        }
    }
}

/// The scaled ratio `adx * 16384 / denom` stays within a quarter turn, and
/// strictly so when `adx < denom`.
proof fn lemma_quarter_ratio(adx: int, denom: int)
    requires
        0 <= adx <= denom,
        1 <= denom,
    ensures
        0 <= adx * 16384 / denom <= 16384,
        adx < denom ==> adx * 16384 / denom < 16384,
{
    assert(0 <= adx * 16384 / denom <= 16384 && (adx < denom ==> adx * 16384 / denom < 16384))
        by (nonlinear_arith)
        requires
            0 <= adx <= denom,
            1 <= denom,
    ;
}

/// The pseudo-angle always lies in `[0, 65536)`.
pub proof fn lemma_pseudo_angle_range(dy: int, dx: int)
    ensures
        0 <= pseudo_angle(dy, dx) < 65536,
{
    let adx = if dx >= 0 {
        dx
    } else {
        -dx
    };
    let ady = if dy >= 0 {
        dy
    } else {
        -dy
    };
    if adx + ady != 0 {
        lemma_quarter_ratio(adx, adx + ady);
        if dy < 0 {
            assert(ady >= 1);
        }
    }
}

/// The diamond pseudo-angle of `(dx, dy)` for bounded coordinates.
pub fn pseudo_angle_fp(dy: i64, dx: i64) -> (r: u32)
    requires
        -8192 <= dx <= 8192,
        -8192 <= dy <= 8192,
    ensures
        r == pseudo_angle(dy as int, dx as int),
        r < 65536,
{
    let adx: u64 = if dx >= 0 {
        dx as u64
    } else {
        (-dx) as u64
    };
    let ady: u64 = if dy >= 0 {
        dy as u64
    } else {
        (-dy) as u64
    };
    proof {
        lemma_pseudo_angle_range(dy as int, dx as int);
    }
    if adx + ady == 0 {
        0
    } else {
        let denom: u64 = adx + ady;
        let qa: u64 = adx * 16384 / denom;
        proof {
            lemma_quarter_ratio(adx as int, denom as int);
        }
        if dy >= 0 {
            if dx >= 0 {
                (16384 - qa as u32)
            } else {
                (16384 + qa as u32)
            }
        } else {
            if dx >= 0 {
                (49152 + qa as u32)
            } else {
                (49152 - qa as u32)
            }
        }
    }
}

} // verus!
