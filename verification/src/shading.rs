//! Shader pipeline variants: the per-fragment colouring stage.
//!
//! The per-vertex half of each pipeline (projection and vertex lighting)
//! lives with the scene; this module turns interpolated varyings and texture
//! samples into a final colour.

use vstd::prelude::*;
use crate::fp::{clampi, clamp_i128, div_floor, FP_ONE};
use crate::texture::{Rgb, Texture};

verus! {

/// Which shader pipeline a scene was built with.
#[derive(Clone, Copy, PartialEq, Eq, Structural, Debug)]
pub enum PipelineKind {
    /// The fragment stage returns the diffuse sample directly, ignoring
    /// lighting.
    FlatUnlit,
    /// A per-vertex lighting intensity is interpolated across the triangle
    /// and multiplied into the diffuse sample.
    Gouraud,
}

/// One colour channel scaled by a fixed-point intensity in `[0, FP_ONE]`.
pub open spec fn scale_channel(c: int, s: int) -> int {
    clampi(c * s / (FP_ONE as int), 0, 255)
}

/// What the fragment stage returns for interpolated texture coordinates
/// `(u, v)` and interpolated vertex-lighting intensity `shade`.
pub open spec fn shade_spec(kind: PipelineKind, tex: Texture, u: int, v: int, shade: int) -> Rgb {
    let base = tex.sample_spec(u, v);
    match kind {
        PipelineKind::FlatUnlit => base,
        PipelineKind::Gouraud => {
            let s = clampi(shade, 0, FP_ONE as int);
            Rgb {
                r: scale_channel(base.r as int, s) as u8,
                g: scale_channel(base.g as int, s) as u8,
                b: scale_channel(base.b as int, s) as u8,
            }
        },
    }
}

/// One colour channel scaled by a clamped intensity.
fn scale_channel_exec(c: u8, s: i128) -> (r: u8)
    requires
        0 <= s <= FP_ONE,
    ensures
        r as int == scale_channel(c as int, s as int),
{
    proof {
        crate::fp::lemma_mul_bound(c as int, s as int, 255, FP_ONE as int);
    }
    let scaled = clamp_i128(div_floor((c as i128) * s, FP_ONE), 0, 255);
    scaled as u8
}

/// The fragment stage: sample the diffuse texture and apply the pipeline's
/// lighting rule.
pub fn shade_fragment(kind: PipelineKind, tex: &Texture, u: i128, v: i128, shade: i128) -> (c: Rgb)
    requires
        tex.wf(),
        i128::MIN < shade,
    ensures
        c == shade_spec(kind, *tex, u as int, v as int, shade as int),
{
    let base = tex.sample(u, v);
    match kind {
        PipelineKind::FlatUnlit => base,
        PipelineKind::Gouraud => {
            let s = clamp_i128(shade, 0, FP_ONE);
            Rgb {
                r: scale_channel_exec(base.r, s),
                g: scale_channel_exec(base.g, s),
                b: scale_channel_exec(base.b, s),
            }
        },
    }
}

} // verus!
