//! Texture maps: decoded RGB grids sampled by the fragment stages.

use vstd::prelude::*;
use crate::fp::{clampi, clamp_i128, div_floor, lemma_mul_bound, FP_ONE, MAX_DIM};

verus! {

/// One RGB8 sample / pixel.
#[derive(Clone, Copy, PartialEq, Eq, Structural, Debug)]
pub struct Rgb {
    pub r: u8,
    pub g: u8,
    pub b: u8,
}

pub open spec fn rgb_black() -> Rgb {
    Rgb { r: 0, g: 0, b: 0 }
}

#[derive(Clone, Copy, PartialEq, Eq, Structural, Debug)]
pub enum TextureError {
    /// A zero width or height was requested.
    EmptyDimension,
    /// A dimension beyond the supported maximum was requested.
    OversizedDimension,
    /// The sample array does not hold exactly `width * height` texels.
    SampleCountMismatch,
}

/// A row-major grid of RGB samples with its dimensions.
pub struct Texture {
    pub width: usize,
    pub height: usize,
    pub texels: Vec<Rgb>,
}

impl Texture {
    /// Well-formed: non-empty grid of supported size, row-major sample array
    /// of exactly matching length.
    pub open spec fn wf(self) -> bool {
        &&& 1 <= self.width <= MAX_DIM
        &&& 1 <= self.height <= MAX_DIM
        &&& self.texels@.len() == self.width * self.height
    }

    /// Build a texture, rejecting empty or oversized grids and sample arrays
    /// of the wrong length.
    pub fn new(width: usize, height: usize, texels: Vec<Rgb>) -> (r: Result<Texture, TextureError>)
        ensures
            r is Ok <==> (1 <= width <= MAX_DIM && 1 <= height <= MAX_DIM && texels@.len()
                == width * height),
            r == Err::<Texture, TextureError>(TextureError::EmptyDimension) <==> (width == 0
                || height == 0),
            r == Err::<Texture, TextureError>(TextureError::OversizedDimension) <==> (width >= 1
                && height >= 1 && (width > MAX_DIM || height > MAX_DIM)),
            r == Err::<Texture, TextureError>(TextureError::SampleCountMismatch) <==> (1 <= width
                <= MAX_DIM && 1 <= height <= MAX_DIM && texels@.len() != width * height),
            r is Ok ==> r.unwrap() == (Texture { width, height, texels })
                && r.unwrap().wf(),
    {
        if width == 0 || height == 0 {
            return Err(TextureError::EmptyDimension);
        }
        if width > MAX_DIM || height > MAX_DIM {
            return Err(TextureError::OversizedDimension);
        }
        proof {
            lemma_mul_bound(width as int, height as int, MAX_DIM as int, MAX_DIM as int);
        }
        let expected = width * height;
        if texels.len() != expected {
            return Err(TextureError::SampleCountMismatch);
        }
        Ok(Texture { width, height, texels })
    }

    /// What sampling at fixed-point texture coordinates `(u, v)` returns:
    /// coordinates are clamped into `[0, 1)`, scaled to the grid, and the
    /// nearest (floor) texel is fetched row-major.
    pub open spec fn sample_spec(self, u: int, v: int) -> Rgb {
        let uc = clampi(u, 0, FP_ONE - 1);
        let vc = clampi(v, 0, FP_ONE - 1);
        let tx = clampi(uc * self.width / (FP_ONE as int), 0, self.width - 1);
        let ty = clampi(vc * self.height / (FP_ONE as int), 0, self.height - 1);
        self.texels@[ty * self.width + tx]
    }

    /// Nearest-neighbour sampling at fixed-point coordinates.
    pub fn sample(&self, u: i128, v: i128) -> (c: Rgb)
        requires
            self.wf(),
        ensures
            c == self.sample_spec(u as int, v as int),
    {
        let uc = clamp_i128(u, 0, FP_ONE - 1);
        let vc = clamp_i128(v, 0, FP_ONE - 1);
        proof {
            lemma_mul_bound(uc as int, self.width as int, FP_ONE as int, MAX_DIM as int);
            lemma_mul_bound(vc as int, self.height as int, FP_ONE as int, MAX_DIM as int);
        }
        let tx = clamp_i128(div_floor(uc * (self.width as i128), FP_ONE), 0, self.width as i128
            - 1);
        let ty = clamp_i128(div_floor(vc * (self.height as i128), FP_ONE), 0, self.height as i128
            - 1);
        let txu = tx as usize;
        let tyu = ty as usize;
        proof {
            lemma_mul_bound(tyu as int, self.width as int, MAX_DIM as int, MAX_DIM as int);
            assert((tyu as int) * (self.width as int) + (txu as int) < (self.width as int) * (
            self.height as int)) by (nonlinear_arith)
                requires
                    (txu as int) < (self.width as int),
                    (tyu as int) < (self.height as int),
                    0 <= (txu as int),
                    0 <= (tyu as int),
            ;
        }
        let idx = tyu * self.width + txu;
        self.texels[idx]
    }
}

} // verus!
