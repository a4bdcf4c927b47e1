//! The triangle rasterizer.
//!
//! A screen-space triangle is converted into depth-tested fragment writes:
//! for every pixel centre, barycentric edge weights decide coverage (with a
//! fixed tie-break rule on edges, so triangles sharing an edge claim each
//! pixel on it exactly once), attributes are interpolated
//! perspective-correctly by dividing through the interpolated reciprocal
//! depth, and a fragment passes only if it is strictly nearer than the depth
//! buffer entry.

use vstd::prelude::*;
use crate::fp::{
    div_floor, lemma_mul_bound, FAR_PLANE, FP_ONE, MAX_DIM, SCREEN_GUARD, UV_BOUND,
};
use crate::texture::{Rgb, Texture};
use crate::shading::{shade_spec, shade_fragment, PipelineKind};
use vstd::arithmetic::div_mod::lemma_mod_bound;
use vstd::arithmetic::div_mod::lemma_div_is_ordered;
use vstd::arithmetic::div_mod::lemma_fundamental_div_mod_converse;

verus! {

/// Largest magnitude of the reciprocal-depth weight `q` (`FP_ONE^2` over the
/// smallest accepted camera distance).
pub const Q_MAX: i128 = 4294967296;

/// One screen-space vertex leaving the vertex stage: integer pixel position,
/// camera-space depth, reciprocal-depth weight, and the varyings.
#[derive(Clone, Copy, PartialEq, Eq, Structural, Debug)]
pub struct ScreenVert {
    pub x: i128,
    pub y: i128,
    /// Camera-space distance; the depth test keeps the smallest.
    pub z: i128,
    /// Perspective weight `FP_ONE * FP_ONE / z`.
    pub q: i128,
    pub u: i128,
    pub v: i128,
    /// Vertex lighting intensity in `[0, FP_ONE]`.
    pub shade: i128,
}

/// Ranges the vertex stage guarantees, and the rasterizer relies on.
pub open spec fn sv_wf(s: ScreenVert) -> bool {
    &&& -SCREEN_GUARD <= s.x <= SCREEN_GUARD
    &&& -SCREEN_GUARD <= s.y <= SCREEN_GUARD
    &&& 1 <= s.z <= FAR_PLANE
    &&& 1 <= s.q <= Q_MAX
    &&& -UV_BOUND <= s.u <= UV_BOUND
    &&& -UV_BOUND <= s.v <= UV_BOUND
    &&& 0 <= s.shade <= FP_ONE
}

/// Twice the signed area of the triangle `(a, b) x (a, p)`; positive when `p`
/// lies to the positive side of the directed edge `a -> b`.
pub open spec fn edge_fn(ax: int, ay: int, bx: int, by: int, px: int, py: int) -> int {
    (bx - ax) * (py - ay) - (by - ay) * (px - ax)
}

pub open spec fn tri_area2(a: ScreenVert, b: ScreenVert, c: ScreenVert) -> int {
    edge_fn(a.x as int, a.y as int, b.x as int, b.y as int, c.x as int, c.y as int)
}

/// Tie-break for pixels exactly on a directed edge: the edge owns them iff it
/// points towards smaller `y`, or is horizontal pointing towards larger `x`.
/// Reversing a non-degenerate edge flips ownership, so two triangles sharing
/// an edge never both claim such a pixel, and one of them always does.
pub open spec fn edge_owns_ties(ax: int, ay: int, bx: int, by: int) -> bool {
    by < ay || (by == ay && ax < bx)
}

pub open spec fn edge_claims(ax: int, ay: int, bx: int, by: int, px: int, py: int) -> bool {
    let e = edge_fn(ax, ay, bx, by, px, py);
    e > 0 || (e == 0 && edge_owns_ties(ax, ay, bx, by))
}

pub open spec fn claims_sv(a: ScreenVert, b: ScreenVert, px: int, py: int) -> bool {
    edge_claims(a.x as int, a.y as int, b.x as int, b.y as int, px, py)
}

/// Barycentric edge weight of the vertex opposite the directed edge `a -> b`.
pub open spec fn weight_sv(a: ScreenVert, b: ScreenVert, px: int, py: int) -> int {
    edge_fn(a.x as int, a.y as int, b.x as int, b.y as int, px, py)
}

/// Winding normalization: triangles are rasterized without back-face
/// culling, so a negative-area triangle is flipped to positive area first.
pub open spec fn oriented(t: (ScreenVert, ScreenVert, ScreenVert)) -> (
    ScreenVert,
    ScreenVert,
    ScreenVert,
) {
    if tri_area2(t.0, t.1, t.2) < 0 {
        (t.0, t.2, t.1)
    } else {
        t
    }
}

/// Coverage: a pixel centre belongs to a non-degenerate triangle iff every
/// directed edge of its positively-oriented winding claims it.
pub open spec fn covered(t: (ScreenVert, ScreenVert, ScreenVert), px: int, py: int) -> bool {
    let o = oriented(t);
    tri_area2(t.0, t.1, t.2) != 0 && claims_sv(o.0, o.1, px, py) && claims_sv(o.1, o.2, px, py)
        && claims_sv(o.2, o.0, px, py)
}

/// Interpolated depth at a pixel centre: the barycentric average of the
/// vertex depths (floor division by twice the area).
pub open spec fn pix_depth(t: (ScreenVert, ScreenVert, ScreenVert), px: int, py: int) -> int {
    let o = oriented(t);
    let area = tri_area2(o.0, o.1, o.2);
    let w0 = weight_sv(o.1, o.2, px, py);
    let w1 = weight_sv(o.2, o.0, px, py);
    let w2 = weight_sv(o.0, o.1, px, py);
    if area <= 0 {
        0
    } else {
        (w0 * o.0.z + w1 * o.1.z + w2 * o.2.z) / area
    }
}

/// The interpolated reciprocal-depth denominator of perspective-correct
/// interpolation.
pub open spec fn persp_den(t: (ScreenVert, ScreenVert, ScreenVert), px: int, py: int) -> int {
    let o = oriented(t);
    let w0 = weight_sv(o.1, o.2, px, py);
    let w1 = weight_sv(o.2, o.0, px, py);
    let w2 = weight_sv(o.0, o.1, px, py);
    w0 * o.0.q + w1 * o.1.q + w2 * o.2.q
}

/// Perspective-correct interpolation of the `u` texture coordinate: each
/// vertex value is weighted by its reciprocal depth, and the sum is divided
/// by the interpolated reciprocal depth.
pub open spec fn pix_uv_u(t: (ScreenVert, ScreenVert, ScreenVert), px: int, py: int) -> int {
    let o = oriented(t);
    let w0 = weight_sv(o.1, o.2, px, py);
    let w1 = weight_sv(o.2, o.0, px, py);
    let w2 = weight_sv(o.0, o.1, px, py);
    let den = persp_den(t, px, py);
    if den <= 0 {
        0
    } else {
        (w0 * o.0.u * o.0.q + w1 * o.1.u * o.1.q + w2 * o.2.u * o.2.q) / den
    }
}

/// Perspective-correct interpolation of the `v` texture coordinate.
pub open spec fn pix_uv_v(t: (ScreenVert, ScreenVert, ScreenVert), px: int, py: int) -> int {
    let o = oriented(t);
    let w0 = weight_sv(o.1, o.2, px, py);
    let w1 = weight_sv(o.2, o.0, px, py);
    let w2 = weight_sv(o.0, o.1, px, py);
    let den = persp_den(t, px, py);
    if den <= 0 {
        0
    } else {
        (w0 * o.0.v * o.0.q + w1 * o.1.v * o.1.q + w2 * o.2.v * o.2.q) / den
    }
}

/// Perspective-correct interpolation of the vertex lighting intensity.
pub open spec fn pix_shade(t: (ScreenVert, ScreenVert, ScreenVert), px: int, py: int) -> int {
    let o = oriented(t);
    let w0 = weight_sv(o.1, o.2, px, py);
    let w1 = weight_sv(o.2, o.0, px, py);
    let w2 = weight_sv(o.0, o.1, px, py);
    let den = persp_den(t, px, py);
    if den <= 0 {
        0
    } else {
        (w0 * o.0.shade * o.0.q + w1 * o.1.shade * o.1.q + w2 * o.2.shade * o.2.q) / den
    }
}

/// The fragment colour a triangle produces at a pixel centre.
pub open spec fn pix_color(
    t: (ScreenVert, ScreenVert, ScreenVert),
    kind: PipelineKind,
    tex: Texture,
    px: int,
    py: int,
) -> Rgb {
    shade_spec(kind, tex, pix_uv_u(t, px, py), pix_uv_v(t, px, py), pix_shade(t, px, py))
}

/// The depth buffer after rasterizing one triangle: per pixel, the
/// interpolated depth wins iff the pixel is covered and strictly nearer.
pub open spec fn raster_depth_target(
    zb0: Seq<i128>,
    w: int,
    t: (ScreenVert, ScreenVert, ScreenVert),
) -> Seq<i128> {
    Seq::new(
        zb0.len(),
        |i: int|
            {
                let px = i % w;
                let py = i / w;
                if covered(t, px, py) && pix_depth(t, px, py) < zb0[i] {
                    pix_depth(t, px, py) as i128
                } else {
                    zb0[i]
                }
            },
    )
}

/// The colour buffer after rasterizing one triangle: exactly the pixels that
/// pass the depth test receive the fragment colour.
pub open spec fn raster_color_target(
    fb0: Seq<Rgb>,
    zb0: Seq<i128>,
    w: int,
    t: (ScreenVert, ScreenVert, ScreenVert),
    kind: PipelineKind,
    tex: Texture,
) -> Seq<Rgb> {
    Seq::new(
        fb0.len(),
        |i: int|
            {
                let px = i % w;
                let py = i / w;
                if covered(t, px, py) && pix_depth(t, px, py) < zb0[i] {
                    pix_color(t, kind, tex, px, py)
                } else {
                    fb0[i]
                }
            },
    )
}

proof fn lemma_edge_sum_raw(ax: int, ay: int, bx: int, by: int, cx: int, cy: int, px: int, py: int)
    ensures
        ((cx - bx) * (py - by) - (cy - by) * (px - bx)) + ((ax - cx) * (py - cy) - (ay - cy) * (px
            - cx)) + ((bx - ax) * (py - ay) - (by - ay) * (px - ax)) == (bx - ax) * (cy - ay) - (by
            - ay) * (cx - ax),
{
    broadcast use vstd::arithmetic::mul::group_mul_is_commutative_and_distributive;

    assert((cx - bx) * (py - by) - (cy - by) * (px - bx) == cx * py - cy * px - bx * py + by * px
        + bx * cy - by * cx);
    assert((ax - cx) * (py - cy) - (ay - cy) * (px - cx) == ax * py - ay * px - cx * py + cy * px
        + cx * ay - cy * ax);
    assert((bx - ax) * (py - ay) - (by - ay) * (px - ax) == bx * py - by * px - ax * py + ay * px
        + ax * by - ay * bx);
    assert((bx - ax) * (cy - ay) - (by - ay) * (cx - ax) == bx * cy - by * cx + ax * by - ay * bx
        + cx * ay - cy * ax);
}

proof fn lemma_edge_neg_raw(ax: int, ay: int, bx: int, by: int, px: int, py: int)
    by (nonlinear_arith)
    ensures
        (bx - ax) * (py - ay) - (by - ay) * (px - ax) == -((ax - bx) * (py - by) - (ay - by) * (px
            - bx)),
{
}

proof fn lemma_area_swap_raw(ax: int, ay: int, bx: int, by: int, cx: int, cy: int)
    by (nonlinear_arith)
    ensures
        (bx - ax) * (cy - ay) - (by - ay) * (cx - ax) == -((cx - ax) * (by - ay) - (cy - ay) * (bx
            - ax)),
{
}

proof fn lemma_edge_degenerate_raw(ax: int, ay: int, bx: int, by: int, cx: int, cy: int)
    by (nonlinear_arith)
    requires
        ax == bx,
        ay == by,
    ensures
        (bx - ax) * (cy - ay) - (by - ay) * (cx - ax) == 0,
{
}

proof fn lemma_weighted_ge_one(e0: int, e1: int, e2: int, q0: int, q1: int, q2: int)
    by (nonlinear_arith)
    requires
        e0 >= 0,
        e1 >= 0,
        e2 >= 0,
        q0 >= 1,
        q1 >= 1,
        q2 >= 1,
        e0 + e1 + e2 >= 1,
    ensures
        e0 * q0 + e1 * q1 + e2 * q2 >= 1,
{
}

/// The three barycentric edge weights of any point sum to twice the triangle
/// area.
pub proof fn lemma_bary_sum(a: ScreenVert, b: ScreenVert, c: ScreenVert, px: int, py: int)
    ensures
        weight_sv(b, c, px, py) + weight_sv(c, a, px, py) + weight_sv(a, b, px, py) == tri_area2(
            a,
            b,
            c,
        ),
{
    lemma_edge_sum_raw(
        a.x as int,
        a.y as int,
        b.x as int,
        b.y as int,
        c.x as int,
        c.y as int,
        px,
        py,
    );
}

/// Reversing a directed edge negates its edge function.
pub proof fn lemma_edge_neg(a: ScreenVert, b: ScreenVert, px: int, py: int)
    ensures
        weight_sv(a, b, px, py) == -weight_sv(b, a, px, py),
{
    lemma_edge_neg_raw(a.x as int, a.y as int, b.x as int, b.y as int, px, py);
}

/// Swapping two vertices negates twice the signed area.
pub proof fn lemma_area_swap(a: ScreenVert, b: ScreenVert, c: ScreenVert)
    ensures
        tri_area2(a, b, c) == -tri_area2(a, c, b),
{
    lemma_area_swap_raw(a.x as int, a.y as int, b.x as int, b.y as int, c.x as int, c.y as int);
}

/// A directed edge and its reversal claim complementary point sets: for any
/// pixel centre, exactly one of them claims it (edges of zero length claim
/// nothing twice but this lemma requires distinct endpoints).
pub proof fn lemma_edge_claims_antisym(a: ScreenVert, b: ScreenVert, px: int, py: int)
    requires
        a.x != b.x || a.y != b.y,
    ensures
        claims_sv(a, b, px, py) != claims_sv(b, a, px, py),
{
    lemma_edge_neg(a, b, px, py);
}

fn edge_i128(ax: i128, ay: i128, bx: i128, by: i128, px: i128, py: i128) -> (e: i128)
    requires
        -2097152 <= ax <= 2097152,
        -2097152 <= ay <= 2097152,
        -2097152 <= bx <= 2097152,
        -2097152 <= by <= 2097152,
        -2097152 <= px <= 2097152,
        -2097152 <= py <= 2097152,
    ensures
        e as int == edge_fn(ax as int, ay as int, bx as int, by as int, px as int, py as int),
        -35184372088832 <= e <= 35184372088832,
{
    proof {
        lemma_mul_bound((bx - ax) as int, (py - ay) as int, 4194304, 4194304);
        lemma_mul_bound((by - ay) as int, (px - ax) as int, 4194304, 4194304);
    }
    (bx - ax) * (py - ay) - (by - ay) * (px - ax)
}

/// Rasterize one screen-space triangle into the colour and depth buffers:
/// exactly the covered pixels whose interpolated depth is strictly nearer
/// than the stored depth receive the fragment colour and the new depth.
pub fn raster_triangle(
    fb: &mut Vec<Rgb>,
    zb: &mut Vec<i128>,
    width: usize,
    height: usize,
    v0: ScreenVert,
    v1: ScreenVert,
    v2: ScreenVert,
    kind: PipelineKind,
    tex: &Texture,
)
    requires
        old(fb)@.len() == width * height,
        old(zb)@.len() == width * height,
        1 <= width <= MAX_DIM,
        1 <= height <= MAX_DIM,
        sv_wf(v0),
        sv_wf(v1),
        sv_wf(v2),
        tex.wf(),
    ensures
        final(fb)@ == raster_color_target(
            old(fb)@,
            old(zb)@,
            width as int,
            (v0, v1, v2),
            kind,
            *tex,
        ),
        final(zb)@ == raster_depth_target(old(zb)@, width as int, (v0, v1, v2)),
{
    let ghost t = (v0, v1, v2);
    let ghost fb0 = fb@;
    let ghost zb0 = zb@;
    let ghost ztarget = raster_depth_target(zb0, width as int, t);
    let ghost ctarget = raster_color_target(fb0, zb0, width as int, t, kind, *tex);
    let area_raw = edge_i128(v0.x, v0.y, v1.x, v1.y, v2.x, v2.y);
    if area_raw == 0 {
        proof {
            assert(ztarget =~= zb0);
            assert(ctarget =~= fb0);
        }
        return ;
    }
    let oa = v0;
    let (ob, oc) = if area_raw < 0 {
        (v2, v1)
    } else {
        (v1, v2)
    };
    proof {
        lemma_area_swap(v0, v1, v2);
        assert((oa, ob, oc) == oriented(t));
        assert(tri_area2(oa, ob, oc) > 0);
    }
    let area = edge_i128(oa.x, oa.y, ob.x, ob.y, oc.x, oc.y);
    proof {
        lemma_mul_bound(width as int, height as int, MAX_DIM as int, MAX_DIM as int);
    }
    let total = width * height;
    let mut i: usize = 0;
    while i < total
        invariant
            total == width * height,
            1 <= width <= MAX_DIM,
            1 <= height <= MAX_DIM,
            fb@.len() == total,
            zb@.len() == total,
            fb0.len() == total,
            zb0.len() == total,
            i <= total,
            t == (v0, v1, v2),
            (oa, ob, oc) == oriented(t),
            area as int == tri_area2(oa, ob, oc),
            area >= 1,
            sv_wf(oa),
            sv_wf(ob),
            sv_wf(oc),
            tex.wf(),
            ztarget == raster_depth_target(zb0, width as int, t),
            ctarget == raster_color_target(fb0, zb0, width as int, t, kind, *tex),
            forall|j: int| 0 <= j < i ==> #[trigger] zb@[j] == ztarget[j],
            forall|j: int| 0 <= j < i ==> #[trigger] fb@[j] == ctarget[j],
            forall|j: int| i <= j < total ==> #[trigger] zb@[j] == zb0[j],
            forall|j: int| i <= j < total ==> #[trigger] fb@[j] == fb0[j],
        decreases total - i,
    {
        let px_us = i % width;
        let py_us = i / width;
        proof {
            lemma_mod_bound(i as int, width as int);
            assert((width * height - 1) as int == (height as int - 1) * (width as int) + (
            width as int - 1)) by (nonlinear_arith)
                requires
                    1 <= width as int,
                    1 <= height as int,
            ;
            assert((width * height - 1) as int / width as int == height as int - 1) by {
                lemma_fundamental_div_mod_converse(
                    (width * height - 1) as int,
                    width as int,
                    height as int - 1,
                    width as int - 1,
                );
            }
            lemma_div_is_ordered(i as int, (width * height - 1) as int, width as int);
        }
        let px = px_us as i128;
        let py = py_us as i128;
        let e0 = edge_i128(ob.x, ob.y, oc.x, oc.y, px, py);
        let e1 = edge_i128(oc.x, oc.y, oa.x, oa.y, px, py);
        let e2 = edge_i128(oa.x, oa.y, ob.x, ob.y, px, py);
        let c0 = e0 > 0 || (e0 == 0 && (oc.y < ob.y || (oc.y == ob.y && ob.x < oc.x)));
        let c1 = e1 > 0 || (e1 == 0 && (oa.y < oc.y || (oa.y == oc.y && oc.x < oa.x)));
        let c2 = e2 > 0 || (e2 == 0 && (ob.y < oa.y || (ob.y == oa.y && oa.x < ob.x)));
        if c0 && c1 && c2 {
            proof {
                assert(covered(t, px as int, py as int));
                lemma_bary_sum(oa, ob, oc, px as int, py as int);
                lemma_mul_bound(e0 as int, oa.z as int, 35184372088832, FAR_PLANE as int);
                lemma_mul_bound(e1 as int, ob.z as int, 35184372088832, FAR_PLANE as int);
                lemma_mul_bound(e2 as int, oc.z as int, 35184372088832, FAR_PLANE as int);
            }
            let zf = div_floor(e0 * oa.z + e1 * ob.z + e2 * oc.z, area);
            proof {
                assert(zf as int == pix_depth(t, px as int, py as int));
            }
            let stored = zb[i];
            if zf < stored {
                proof {
                    lemma_mul_bound(e0 as int, oa.q as int, 35184372088832, Q_MAX as int);
                    lemma_mul_bound(e1 as int, ob.q as int, 35184372088832, Q_MAX as int);
                    lemma_mul_bound(e2 as int, oc.q as int, 35184372088832, Q_MAX as int);
                    lemma_weighted_ge_one(
                        e0 as int,
                        e1 as int,
                        e2 as int,
                        oa.q as int,
                        ob.q as int,
                        oc.q as int,
                    );
                }
                let den = e0 * oa.q + e1 * ob.q + e2 * oc.q;
                proof {
                    lemma_mul_bound(e0 as int, oa.u as int, 35184372088832, UV_BOUND as int);
                    lemma_mul_bound(e1 as int, ob.u as int, 35184372088832, UV_BOUND as int);
                    lemma_mul_bound(e2 as int, oc.u as int, 35184372088832, UV_BOUND as int);
                    lemma_mul_bound(
                        (e0 * oa.u) as int,
                        oa.q as int,
                        36893488147419103232,
                        Q_MAX as int,
                    );
                    lemma_mul_bound(
                        (e1 * ob.u) as int,
                        ob.q as int,
                        36893488147419103232,
                        Q_MAX as int,
                    );
                    lemma_mul_bound(
                        (e2 * oc.u) as int,
                        oc.q as int,
                        36893488147419103232,
                        Q_MAX as int,
                    );
                }
                let uu = div_floor(e0 * oa.u * oa.q + e1 * ob.u * ob.q + e2 * oc.u * oc.q, den);
                proof {
                    lemma_mul_bound(e0 as int, oa.v as int, 35184372088832, UV_BOUND as int);
                    lemma_mul_bound(e1 as int, ob.v as int, 35184372088832, UV_BOUND as int);
                    lemma_mul_bound(e2 as int, oc.v as int, 35184372088832, UV_BOUND as int);
                    lemma_mul_bound(
                        (e0 * oa.v) as int,
                        oa.q as int,
                        36893488147419103232,
                        Q_MAX as int,
                    );
                    lemma_mul_bound(
                        (e1 * ob.v) as int,
                        ob.q as int,
                        36893488147419103232,
                        Q_MAX as int,
                    );
                    lemma_mul_bound(
                        (e2 * oc.v) as int,
                        oc.q as int,
                        36893488147419103232,
                        Q_MAX as int,
                    );
                }
                let vv = div_floor(e0 * oa.v * oa.q + e1 * ob.v * ob.q + e2 * oc.v * oc.q, den);
                proof {
                    lemma_mul_bound(e0 as int, oa.shade as int, 35184372088832, FP_ONE as int);
                    lemma_mul_bound(e1 as int, ob.shade as int, 35184372088832, FP_ONE as int);
                    lemma_mul_bound(e2 as int, oc.shade as int, 35184372088832, FP_ONE as int);
                    lemma_mul_bound(
                        (e0 * oa.shade) as int,
                        oa.q as int,
                        2305843009213693952,
                        Q_MAX as int,
                    );
                    lemma_mul_bound(
                        (e1 * ob.shade) as int,
                        ob.q as int,
                        2305843009213693952,
                        Q_MAX as int,
                    );
                    lemma_mul_bound(
                        (e2 * oc.shade) as int,
                        oc.q as int,
                        2305843009213693952,
                        Q_MAX as int,
                    );
                }
                let ss = div_floor(
                    e0 * oa.shade * oa.q + e1 * ob.shade * ob.q + e2 * oc.shade * oc.q,
                    den,
                );
                proof {
                    assert(uu as int == pix_uv_u(t, px as int, py as int));
                    assert(vv as int == pix_uv_v(t, px as int, py as int));
                    assert(ss as int == pix_shade(t, px as int, py as int));
                }
                let col = shade_fragment(kind, tex, uu, vv, ss);
                fb.set(i, col);
                zb.set(i, zf);
                proof {
                    assert(zb@[i as int] == ztarget[i as int]);
                    assert(fb@[i as int] == ctarget[i as int]);
                }
            } else {
                proof {
                    assert(zb@[i as int] == ztarget[i as int]);
                    assert(fb@[i as int] == ctarget[i as int]);
                }
            }
        } else {
            proof {
                assert(!covered(t, px as int, py as int));
                assert(zb@[i as int] == ztarget[i as int]);
                assert(fb@[i as int] == ctarget[i as int]);
            }
        }
        i += 1;
    }
    proof {
        assert(zb@ =~= ztarget);
        assert(fb@ =~= ctarget);
    }
}

/// Winding independence (back-face culling is disabled): a triangle and its
/// mirror-winding twin cover the same pixels and write the same depths and
/// colours, so either winding produces exactly the same fragments.
pub proof fn lemma_winding_independent(
    fb0: Seq<Rgb>,
    zb0: Seq<i128>,
    w: int,
    v0: ScreenVert,
    v1: ScreenVert,
    v2: ScreenVert,
    kind: PipelineKind,
    tex: Texture,
)
    ensures
        raster_depth_target(zb0, w, (v0, v1, v2)) == raster_depth_target(zb0, w, (v0, v2, v1)),
        raster_color_target(fb0, zb0, w, (v0, v1, v2), kind, tex) == raster_color_target(
            fb0,
            zb0,
            w,
            (v0, v2, v1),
            kind,
            tex,
        ),
{
    lemma_area_swap(v0, v1, v2);
    let t1 = (v0, v1, v2);
    let t2 = (v0, v2, v1);
    assert forall|j: int| 0 <= j < zb0.len() implies raster_depth_target(zb0, w, t1)[j]
        == raster_depth_target(zb0, w, t2)[j] by {
        if tri_area2(v0, v1, v2) != 0 {
            assert(oriented(t2) == oriented(t1));
        }
    }
    assert(raster_depth_target(zb0, w, t1) =~= raster_depth_target(zb0, w, t2));
    assert forall|j: int| 0 <= j < fb0.len() implies raster_color_target(
        fb0,
        zb0,
        w,
        t1,
        kind,
        tex,
    )[j] == raster_color_target(fb0, zb0, w, t2, kind, tex)[j] by {
        if tri_area2(v0, v1, v2) != 0 {
            assert(oriented(t2) == oriented(t1));
        }
    }
    assert(raster_color_target(fb0, zb0, w, t1, kind, tex) =~= raster_color_target(
        fb0,
        zb0,
        w,
        t2,
        kind,
        tex,
    ));
}

/// Depth-test idempotence: rasterizing the same triangle a second time
/// changes neither buffer, because a fragment at the depth already stored
/// fails the strictly-nearer test.
pub proof fn lemma_raster_idempotent(
    fb0: Seq<Rgb>,
    zb0: Seq<i128>,
    w: int,
    t: (ScreenVert, ScreenVert, ScreenVert),
    kind: PipelineKind,
    tex: Texture,
)
    requires
        fb0.len() == zb0.len(),
    ensures
        raster_depth_target(raster_depth_target(zb0, w, t), w, t) == raster_depth_target(
            zb0,
            w,
            t,
        ),
        raster_color_target(
            raster_color_target(fb0, zb0, w, t, kind, tex),
            raster_depth_target(zb0, w, t),
            w,
            t,
            kind,
            tex,
        ) == raster_color_target(fb0, zb0, w, t, kind, tex),
{
    let zb1 = raster_depth_target(zb0, w, t);
    let fb1 = raster_color_target(fb0, zb0, w, t, kind, tex);
    assert forall|j: int| 0 <= j < zb1.len() implies raster_depth_target(zb1, w, t)[j]
        == zb1[j] by {}
    assert(raster_depth_target(zb1, w, t) =~= zb1);
    assert forall|j: int| 0 <= j < fb1.len() implies raster_color_target(
        fb1,
        zb1,
        w,
        t,
        kind,
        tex,
    )[j] == fb1[j] by {}
    assert(raster_color_target(fb1, zb1, w, t, kind, tex) =~= fb1);
}

/// Edge ownership, exclusivity half: two triangles that share an edge (one
/// walks it `a -> b`, the other `b -> a`) never both claim the same pixel,
/// so no pixel along the shared edge is painted twice.
pub proof fn lemma_shared_edge_exclusive(
    a: ScreenVert,
    b: ScreenVert,
    c: ScreenVert,
    d: ScreenVert,
    px: int,
    py: int,
)
    requires
        tri_area2(a, b, c) > 0,
        tri_area2(b, a, d) > 0,
    ensures
        !(covered((a, b, c), px, py) && covered((b, a, d), px, py)),
{
    if a.x == b.x && a.y == b.y {
        lemma_edge_degenerate_raw(a.x as int, a.y as int, b.x as int, b.y as int, c.x as int, c.y as int);
        assert(tri_area2(a, b, c) == 0);
    }
    lemma_edge_claims_antisym(a, b, px, py);
}

/// Edge ownership, completeness half: a pixel that every non-shared edge of
/// both triangles claims is claimed by at least one of the two triangles, so
/// no pixel along the shared edge is left unpainted.
pub proof fn lemma_shared_edge_complete(
    a: ScreenVert,
    b: ScreenVert,
    c: ScreenVert,
    d: ScreenVert,
    px: int,
    py: int,
)
    requires
        tri_area2(a, b, c) > 0,
        tri_area2(b, a, d) > 0,
        claims_sv(b, c, px, py),
        claims_sv(c, a, px, py),
        claims_sv(a, d, px, py),
        claims_sv(d, b, px, py),
    ensures
        covered((a, b, c), px, py) || covered((b, a, d), px, py),
{
    if a.x == b.x && a.y == b.y {
        lemma_edge_degenerate_raw(a.x as int, a.y as int, b.x as int, b.y as int, c.x as int, c.y as int);
        assert(tri_area2(a, b, c) == 0);
    }
    lemma_edge_claims_antisym(a, b, px, py);
}

} // verus!
