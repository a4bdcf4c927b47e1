//! Fixed-point scalar arithmetic for the renderer.
//!
//! Every geometric quantity in the pipeline is an integer number of steps of
//! size `1 / FP_ONE`. Working over integers keeps the whole pipeline exactly
//! reproducible, so each stage can carry a precise contract.

use vstd::prelude::*;
use vstd::arithmetic::div_mod::lemma_fundamental_div_mod;
use vstd::arithmetic::div_mod::lemma_fundamental_div_mod_converse;
use vstd::arithmetic::div_mod::lemma_div_nonincreasing;
use vstd::arithmetic::div_mod::lemma_mod_bound;

verus! {

/// Fixed-point scale: one world/texture unit is this many integer steps.
pub const FP_ONE: i128 = 65536;

/// Largest magnitude accepted for a world-space coordinate or camera vector
/// component handed to the library (2^30 steps, i.e. 16384 units).
pub const COORD_BOUND: i128 = 1073741824;

/// Largest magnitude accepted for a mesh texture coordinate (2^20 steps).
pub const UV_BOUND: i128 = 1048576;

/// Screen-space guard band, in pixels: a vertex whose projected coordinate
/// falls outside `[-SCREEN_GUARD, SCREEN_GUARD]` has its triangle culled.
pub const SCREEN_GUARD: i128 = 1048576;

/// Far plane: camera-space distances beyond this (2^31 steps) are culled.
pub const FAR_PLANE: i128 = 2147483648;

/// Depth-buffer sentinel meaning "no fragment written yet"; strictly farther
/// than every fragment depth the pipeline can produce (2^62).
pub const DEPTH_FAR: i128 = 4611686018427387904;

/// Largest supported buffer or texture dimension, in pixels (2^14).
pub const MAX_DIM: usize = 16384;

pub open spec fn clampi(x: int, lo: int, hi: int) -> int {
    if x < lo {
        lo
    } else if x > hi {
        hi
    } else {
        x
    }
}

/// Clamp `x` into `[lo, hi]`.
pub fn clamp_i128(x: i128, lo: i128, hi: i128) -> (r: i128)
    requires
        lo <= hi,
    ensures
        r as int == clampi(x as int, lo as int, hi as int),
{
    if x < lo {
        lo
    } else if x > hi {
        hi
    } else {
        x
    }
}

/// Flooring division by a positive divisor; agrees with `/` on `int`.
pub fn div_floor(a: i128, b: i128) -> (r: i128)
    requires
        1 <= b,
        i128::MIN < a,
    ensures
        r as int == a as int / b as int,
{
    if a >= 0 {
        let q = (a as u128) / (b as u128);
        proof {
            lemma_div_nonincreasing(a as int, b as int);
        }
        q as i128
    } else {
        let m = (-a) as u128;
        let bu = b as u128;
        let q = m / bu;
        let rem = m % bu;
        proof {
            lemma_div_nonincreasing(m as int, bu as int);
            lemma_fundamental_div_mod(m as int, bu as int);
            lemma_mod_bound(m as int, bu as int);
            assert(m as int == b as int * (q as int) + rem as int);
        }
        if rem == 0 {
            proof {
                assert(a as int == (-(q as int)) * (b as int) + 0) by (nonlinear_arith)
                    requires
                        m as int == b as int * (q as int) + rem as int,
                        rem as int == 0,
                        a as int == -(m as int),
                ;
                lemma_fundamental_div_mod_converse(a as int, b as int, -(q as int), 0);
            }
            -(q as i128)
        } else {
            proof {
                assert(a as int == (-(q as int) - 1) * (b as int) + (b as int - rem as int))
                    by (nonlinear_arith)
                    requires
                        m as int == b as int * (q as int) + rem as int,
                        a as int == -(m as int),
                ;
                lemma_fundamental_div_mod_converse(
                    a as int,
                    b as int,
                    -(q as int) - 1,
                    b as int - rem as int,
                );
            }
            -(q as i128) - 1
        }
    }
}

/// A product of values bounded in magnitude is bounded by the product of the
/// bounds.
pub proof fn lemma_mul_bound(x: int, y: int, bx: int, by: int)
    by (nonlinear_arith)
    requires
        -bx <= x <= bx,
        -by <= y <= by,
        0 <= bx,
        0 <= by,
    ensures
        -(bx * by) <= x * y <= bx * by,
{
}

pub open spec fn is_isqrt(n: int, r: int) -> bool {
    0 <= r && r * r <= n && n < (r + 1) * (r + 1)
}

/// Integer square root: the unique `r` with `r^2 <= n < (r + 1)^2`.
pub fn isqrt(n: u128) -> (r: u128)
    requires
        n < 0x40000000000000000000000000000000,
    ensures
        is_isqrt(n as int, r as int),
        r as int == isqrt_spec(n as int),
{
    let mut lo: u128 = 0;
    let mut hi: u128 = 0x8000000000000000;
    while hi - lo > 1
        invariant
            lo < hi <= 0x8000000000000000,
            lo * lo <= n,
            n < hi * hi,
        decreases hi - lo,
    {
        let mid = lo + (hi - lo) / 2;
        assert(mid * mid <= 0x40000000000000000000000000000000) by (nonlinear_arith)
            requires
                mid <= 0x8000000000000000u128,
        ;
        if mid * mid <= n {
            lo = mid;
        } else {
            hi = mid;
        }
    }
    assert(is_isqrt(n as int, lo as int));
    proof {
        lemma_isqrt_rec(n as int, 0);
        lemma_isqrt_unique(n as int, lo as int, isqrt_spec(n as int));
    }
    lo
}

#[via_fn]
proof fn isqrt_rec_decreases(n: int, r: int) {
    assert(r + 1 <= (r + 1) * (r + 1)) by (nonlinear_arith)
        requires
            0 <= r,
    ;
}

pub open spec fn isqrt_rec(n: int, r: int) -> int
    decreases n - r,
    when 0 <= r && r * r <= n
    via isqrt_rec_decreases
{
    if (r + 1) * (r + 1) <= n {
        isqrt_rec(n, r + 1)
    } else {
        r
    }
}

/// The integer square root of `n`, as a mathematical function.
pub open spec fn isqrt_spec(n: int) -> int {
    isqrt_rec(n, 0)
}

pub proof fn lemma_isqrt_rec(n: int, r: int)
    requires
        0 <= r,
        r * r <= n,
    ensures
        is_isqrt(n, isqrt_rec(n, r)),
    decreases n - r,
{
    if (r + 1) * (r + 1) <= n {
        assert(r + 1 <= (r + 1) * (r + 1)) by (nonlinear_arith)
            requires
                0 <= r,
        ;
        lemma_isqrt_rec(n, r + 1);
    }
}

/// A 3-component fixed-point vector.
#[derive(Clone, Copy, PartialEq, Eq, Structural, Debug)]
pub struct Vec3 {
    pub x: i128,
    pub y: i128,
    pub z: i128,
}

/// A 2-component fixed-point vector (texture coordinates).
#[derive(Clone, Copy, PartialEq, Eq, Structural, Debug)]
pub struct Vec2 {
    pub x: i128,
    pub y: i128,
}

pub open spec fn v3(v: Vec3) -> (int, int, int) {
    (v.x as int, v.y as int, v.z as int)
}

pub open spec fn vec3_bounded(v: Vec3, bound: int) -> bool {
    &&& -bound <= v.x <= bound
    &&& -bound <= v.y <= bound
    &&& -bound <= v.z <= bound
}

pub open spec fn tup3_bounded(v: (int, int, int), bound: int) -> bool {
    &&& -bound <= v.0 <= bound
    &&& -bound <= v.1 <= bound
    &&& -bound <= v.2 <= bound
}

pub open spec fn dot3i(a: (int, int, int), b: (int, int, int)) -> int {
    a.0 * b.0 + a.1 * b.1 + a.2 * b.2
}

pub open spec fn cross3i(a: (int, int, int), b: (int, int, int)) -> (int, int, int) {
    (a.1 * b.2 - a.2 * b.1, a.2 * b.0 - a.0 * b.2, a.0 * b.1 - a.1 * b.0)
}

pub open spec fn sub3i(a: (int, int, int), b: (int, int, int)) -> (int, int, int) {
    (a.0 - b.0, a.1 - b.1, a.2 - b.2)
}

/// Fixed-point normalization: scale to length `FP_ONE`, with each component
/// clamped into `[-FP_ONE, FP_ONE]`; the zero vector stays zero.
pub open spec fn norm3i(v: (int, int, int)) -> (int, int, int) {
    let n = dot3i(v, v);
    let len = isqrt_spec(n);
    if len == 0 {
        (0, 0, 0)
    } else {
        (
            clampi(v.0 * FP_ONE / (len as int), -FP_ONE as int, FP_ONE as int),
            clampi(v.1 * FP_ONE / (len as int), -FP_ONE as int, FP_ONE as int),
            clampi(v.2 * FP_ONE / (len as int), -FP_ONE as int, FP_ONE as int),
        )
    }
}

/// Dot product; the bound keeps every term inside `i128`.
pub fn dot3(a: Vec3, b: Vec3) -> (r: i128)
    requires
        vec3_bounded(a, 0x1000000000000000),
        vec3_bounded(b, 0x1000000000000000),
    ensures
        r as int == dot3i(v3(a), v3(b)),
{
    proof {
        lemma_mul_bound(a.x as int, b.x as int, 0x1000000000000000, 0x1000000000000000);
        lemma_mul_bound(a.y as int, b.y as int, 0x1000000000000000, 0x1000000000000000);
        lemma_mul_bound(a.z as int, b.z as int, 0x1000000000000000, 0x1000000000000000);
    }
    a.x * b.x + a.y * b.y + a.z * b.z
}

/// Cross product.
pub fn cross3(a: Vec3, b: Vec3) -> (r: Vec3)
    requires
        vec3_bounded(a, 0x1000000000000000),
        vec3_bounded(b, 0x1000000000000000),
    ensures
        v3(r) == cross3i(v3(a), v3(b)),
{
    proof {
        lemma_mul_bound(a.y as int, b.z as int, 0x1000000000000000, 0x1000000000000000);
        lemma_mul_bound(a.z as int, b.y as int, 0x1000000000000000, 0x1000000000000000);
        lemma_mul_bound(a.z as int, b.x as int, 0x1000000000000000, 0x1000000000000000);
        lemma_mul_bound(a.x as int, b.z as int, 0x1000000000000000, 0x1000000000000000);
        lemma_mul_bound(a.x as int, b.y as int, 0x1000000000000000, 0x1000000000000000);
        lemma_mul_bound(a.y as int, b.x as int, 0x1000000000000000, 0x1000000000000000);
    }
    Vec3 { x: a.y * b.z - a.z * b.y, y: a.z * b.x - a.x * b.z, z: a.x * b.y - a.y * b.x }
}

/// Componentwise difference.
pub fn sub3(a: Vec3, b: Vec3) -> (r: Vec3)
    requires
        vec3_bounded(a, 0x1000000000000000),
        vec3_bounded(b, 0x1000000000000000),
    ensures
        v3(r) == sub3i(v3(a), v3(b)),
{
    Vec3 { x: a.x - b.x, y: a.y - b.y, z: a.z - b.z }
}

/// Bound on a dot product of bounded vectors.
pub proof fn lemma_dot_bound(a: Vec3, b: Vec3, ba: int, bb: int)
    requires
        vec3_bounded(a, ba),
        vec3_bounded(b, bb),
        0 <= ba,
        0 <= bb,
    ensures
        -(3 * (ba * bb)) <= dot3i(v3(a), v3(b)) <= 3 * (ba * bb),
{
    lemma_mul_bound(a.x as int, b.x as int, ba, bb);
    lemma_mul_bound(a.y as int, b.y as int, ba, bb);
    lemma_mul_bound(a.z as int, b.z as int, ba, bb);
}

/// Componentwise bound on a cross product of bounded vectors.
pub proof fn lemma_cross_bound(a: Vec3, b: Vec3, ba: int, bb: int)
    requires
        vec3_bounded(a, ba),
        vec3_bounded(b, bb),
        0 <= ba,
        0 <= bb,
    ensures
        tup3_bounded(cross3i(v3(a), v3(b)), 2 * (ba * bb)),
{
    lemma_mul_bound(a.y as int, b.z as int, ba, bb);
    lemma_mul_bound(a.z as int, b.y as int, ba, bb);
    lemma_mul_bound(a.z as int, b.x as int, ba, bb);
    lemma_mul_bound(a.x as int, b.z as int, ba, bb);
    lemma_mul_bound(a.x as int, b.y as int, ba, bb);
    lemma_mul_bound(a.y as int, b.x as int, ba, bb);
}

/// Normalize to fixed-point unit length; defensively maps zero to zero.
pub fn normalize3(v: Vec3) -> (r: Vec3)
    requires
        vec3_bounded(v, 0x1000000000000000),
    ensures
        v3(r) == norm3i(v3(v)),
        vec3_bounded(r, FP_ONE as int),
{
    proof {
        lemma_mul_bound(v.x as int, v.x as int, 0x1000000000000000, 0x1000000000000000);
        lemma_mul_bound(v.y as int, v.y as int, 0x1000000000000000, 0x1000000000000000);
        lemma_mul_bound(v.z as int, v.z as int, 0x1000000000000000, 0x1000000000000000);
        assert(v.x as int * v.x as int >= 0) by (nonlinear_arith);
        assert(v.y as int * v.y as int >= 0) by (nonlinear_arith);
        assert(v.z as int * v.z as int >= 0) by (nonlinear_arith);
    }
    let n = v.x * v.x + v.y * v.y + v.z * v.z;
    let len = isqrt(n as u128);
    if len == 0 {
        Vec3 { x: 0, y: 0, z: 0 }
    } else {
        proof {
            lemma_mul_bound(v.x as int, FP_ONE as int, 0x1000000000000000, FP_ONE as int);
            lemma_mul_bound(v.y as int, FP_ONE as int, 0x1000000000000000, FP_ONE as int);
            lemma_mul_bound(v.z as int, FP_ONE as int, 0x1000000000000000, FP_ONE as int);
        }
        proof {
            assert((len as int) < 0x2000000000000000) by (nonlinear_arith)
                requires
                    0 <= (len as int),
                    (len as int) * (len as int) <= (n as int),
                    (n as int) < 0x2000000000000000 * 0x2000000000000000,
            ;
        }
        let li = len as i128;
        Vec3 {
            x: clamp_i128(div_floor(v.x * FP_ONE, li), -FP_ONE, FP_ONE),
            y: clamp_i128(div_floor(v.y * FP_ONE, li), -FP_ONE, FP_ONE),
            z: clamp_i128(div_floor(v.z * FP_ONE, li), -FP_ONE, FP_ONE),
        }
    }
}

pub proof fn lemma_isqrt_unique(n: int, r1: int, r2: int)
    requires
        is_isqrt(n, r1),
        is_isqrt(n, r2),
    ensures
        r1 == r2,
{
    if r1 < r2 {
        assert((r1 + 1) * (r1 + 1) <= r2 * r2) by (nonlinear_arith)
            requires
                0 <= r1 < r2,
        ;
    }
    if r2 < r1 {
        assert((r2 + 1) * (r2 + 1) <= r1 * r1) by (nonlinear_arith)
            requires
                0 <= r2 < r1,
        ;
    }
}

} // verus!
