//! Pixel-art upscaling with the xBRZ algorithm: an image is enlarged by an
//! integer factor between 2 and 6 while the crisp edges of low-resolution
//! art are kept.
//!
//! The library holds the integer part of the algorithm: the sliding kernel,
//! the corner pre-processing, the four-rotation blending tables and the
//! engine that drives them. The perceptual colour distance is computed in
//! floating point; its outcomes reach the engine as plain decisions
//! ([`decisions::Decisions`]).
use vstd::prelude::*;

use crate::decisions::{Decisions, decisions_fit};
use crate::pixel::{Rgba8, bytes_to_rgba, rgba_from_bytes, rgba_to_bytes, rgba_to_bytes_spec};
use crate::scaler::{lemma_all_rows_written, scale_image, scaled_pixels};

pub mod blend;
pub mod decisions;
pub mod kernel;
pub mod lookup_key;
pub mod matrix;
pub mod oob_reader;
pub mod pixel;
pub mod scaler;

verus! {

/// Why an image cannot be enlarged as asked.
#[derive(Clone, Copy, Debug, PartialEq, Eq, Structural)]
pub enum ScaleError {
    /// A buffer's length does not match the image's dimensions, or a
    /// dimension is zero where the engine needs an image.
    DimensionMismatch,
    /// The factor is not one the engine handles.
    FactorOutOfRange,
    /// The range of rows to enlarge is empty or inverted.
    EmptyRange,
    /// The comparison outcomes do not cover the image.
    DecisionsMismatch,
}

/// What [`scale_rgba`] returns: an empty image stays empty; a source whose
/// length is not `4 * src_width * src_height` bytes, or a factor outside
/// `1 ..= 6`, is refused; factor 1 copies the source; otherwise the
/// enlarged image, as RGBA bytes row by row.
pub open spec fn scale_rgba_spec(
    source: Seq<u8>,
    src_width: int,
    src_height: int,
    factor: int,
    decisions: &Decisions,
) -> Result<Seq<u8>, ScaleError> {
    if src_width == 0 || src_height == 0 {
        Ok(Seq::empty())
    } else if source.len() != src_width * src_height * 4 {
        Err(ScaleError::DimensionMismatch)
    } else if !(1 <= factor <= 6) {
        Err(ScaleError::FactorOutOfRange)
    } else if factor == 1 {
        Ok(source)
    } else if !decisions_fit(decisions.corners@, decisions.blends@, src_width, src_height) {
        Err(ScaleError::DecisionsMismatch)
    } else {
        Ok(
            rgba_to_bytes_spec(
                scaled_pixels(
                    bytes_to_rgba(source),
                    src_width,
                    src_height,
                    factor as usize,
                    decisions.corners@,
                    decisions.blends@,
                ),
            ),
        )
    }
}

/// Enlarges an RGBA image by `factor` with the xBRZ rules.
///
/// `source` holds `src_width * src_height` pixels, four bytes each in RGBA
/// order, row by row from the top. The result has the same layout and is
/// `src_width * factor` by `src_height * factor` pixels. `decisions` holds
/// the outcomes of the colour-distance comparisons for this source; they
/// are needed for factors 2 to 6 only.
pub fn scale_rgba(
    source: &[u8],
    src_width: usize,
    src_height: usize,
    factor: usize,
    decisions: &Decisions,
) -> (r: Result<Vec<u8>, ScaleError>)
    requires
        1 <= factor <= 6 ==> (src_width * factor) * (src_height * factor) * 4 <= usize::MAX,
    ensures
        match scale_rgba_spec(source@, src_width as int, src_height as int, factor as int, decisions) {
            Ok(bytes) => r is Ok && r->Ok_0@ == bytes,
            Err(e) => r == Err::<Vec<u8>, ScaleError>(e),
        },
{
    if src_width == 0 || src_height == 0 {
        return Ok(Vec::new());
    }
    let len = source.len();
    let len_ok = match src_width.checked_mul(src_height) {
        Some(n) => match n.checked_mul(4) {
            Some(b) => b == len,
            None => false,
        },
        None => {
            proof {
                assert(src_width * src_height * 4 > usize::MAX) by (nonlinear_arith)
                    requires
                        src_width * src_height > usize::MAX,
                ;
            }
            false
        },
    };
    if !len_ok {
        return Err(ScaleError::DimensionMismatch);
    }
    if factor == 0 || factor > 6 {
        return Err(ScaleError::FactorOutOfRange);
    }
    if factor == 1 {
        return Ok(vstd::slice::slice_to_vec(source));
    }
    if !decisions.fits(src_width, src_height) {
        return Err(ScaleError::DecisionsMismatch);
    }
    let src_pixels = rgba_from_bytes(source);
    proof {
        assert(src_pixels@.len() == src_width * src_height) by (nonlinear_arith)
            requires
                src_pixels@.len() == len / 4,
                len == src_width * src_height * 4,
        ;
        assert(src_width * factor <= (src_width * factor) * (src_height * factor)) by (nonlinear_arith)
            requires
                src_height >= 1,
                factor >= 1,
        ;
        assert(src_height * factor <= (src_width * factor) * (src_height * factor)) by (nonlinear_arith)
            requires
                src_width >= 1,
                factor >= 1,
        ;
        assert((src_width * factor) * (src_height * factor) <= (src_width * factor) * (src_height * factor) * 4) by (nonlinear_arith)
            requires
                src_width >= 1,
                src_height >= 1,
                factor >= 1,
        ;
    }
    let n = (src_width * factor) * (src_height * factor);
    let mut dst: Vec<Rgba8> = Vec::new();
    while dst.len() < n
        invariant
            dst@.len() <= n,
        decreases n - dst@.len(),
    {
        dst.push(Rgba8::zero());
    }
    let ghost before = dst@;
    let outcome = scale_image(src_pixels.as_slice(), &mut dst, src_width, src_height, factor, decisions, 0..src_height);
    match outcome {
        Ok(()) => {},
        Err(_) => {
            return Err(ScaleError::DimensionMismatch);
        },
    }
    proof {
        lemma_all_rows_written(
            before,
            dst@,
            src_pixels@,
            src_width as int,
            src_height as int,
            factor,
            decisions.corners@,
            decisions.blends@,
        );
    }
    Ok(rgba_to_bytes(dst.as_slice()))
}

} // verus!
