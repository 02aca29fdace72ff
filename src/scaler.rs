//! The blending rules and the engine that enlarges an image.
use vstd::prelude::*;

use crate::blend::{Blend2x2, BlendType, blend_none, rotate_spec};
use crate::decisions::{BlendTests, Decisions, Diagonal, decisions_fit, diagonal_at, tests_at};
use crate::kernel::{Kernel3x3, Kernel4x4, RotKernel3x3, Rotation, as_3x3_spec, corners_spec, kernel_at, rotated_3x3};
use crate::oob_reader::{OobReaderTransparent, dims_fit, lemma_row_in_bounds, source_pixel};
use crate::matrix::{OutputMatrix, Paint, mix, mix_at, paint_all, paint_one, put, put_at};
use crate::pixel::{Rgba8, zero_pixel};
use crate::ScaleError;
use vstd::arithmetic::div_mod::{lemma_fundamental_div_mod, lemma_fundamental_div_mod_converse};

verus! {

/// The five ways the enlarged block of a pixel is painted.
#[derive(Clone, Copy, Debug, PartialEq, Eq, Structural)]
pub enum Pattern {
    LineShallow,
    LineSteep,
    LineSteepAndShallow,
    LineDiagonal,
    Corner,
}

/// The writes of each pattern at each scale, in the order they are made.
/// Cells are (row, column) of the block seen in its unturned position, the
/// blended corner at the bottom right.
pub open spec fn pattern_spec(scale: usize, pattern: Pattern) -> Seq<Paint> {
    match scale {
        2 => match pattern {
            Pattern::LineShallow => seq![mix_at(1, 0, 1, 4), mix_at(1, 1, 3, 4)],
            Pattern::LineSteep => seq![mix_at(0, 1, 1, 4), mix_at(1, 1, 3, 4)],
            Pattern::LineSteepAndShallow => seq![mix_at(1, 0, 1, 4), mix_at(0, 1, 1, 4), mix_at(1, 1, 5, 6)],
            Pattern::LineDiagonal => seq![mix_at(1, 1, 1, 2)],
            Pattern::Corner => seq![mix_at(1, 1, 21, 100)],
        },
        3 => match pattern {
            Pattern::LineShallow => seq![mix_at(2, 0, 1, 4), mix_at(1, 2, 1, 4), mix_at(2, 1, 3, 4), put_at(2, 2)],
            Pattern::LineSteep => seq![mix_at(0, 2, 1, 4), mix_at(2, 1, 1, 4), mix_at(1, 2, 3, 4), put_at(2, 2)],
            Pattern::LineSteepAndShallow => seq![mix_at(2, 0, 1, 4), mix_at(0, 2, 1, 4), mix_at(2, 1, 3, 4), mix_at(1, 2, 3, 4), put_at(2, 2)],
            Pattern::LineDiagonal => seq![mix_at(1, 2, 1, 8), mix_at(2, 1, 1, 8), mix_at(2, 2, 7, 8)],
            Pattern::Corner => seq![mix_at(2, 2, 45, 100)],
        },
        4 => match pattern {
            Pattern::LineShallow => seq![mix_at(3, 0, 1, 4), mix_at(2, 2, 1, 4), mix_at(3, 1, 3, 4), mix_at(2, 3, 3, 4), put_at(3, 2), put_at(3, 3)],
            Pattern::LineSteep => seq![mix_at(0, 3, 1, 4), mix_at(2, 2, 1, 4), mix_at(1, 3, 3, 4), mix_at(3, 2, 3, 4), put_at(2, 3), put_at(3, 3)],
            Pattern::LineSteepAndShallow => seq![mix_at(3, 1, 3, 4), mix_at(1, 3, 3, 4), mix_at(3, 0, 1, 4), mix_at(0, 3, 1, 4), mix_at(2, 2, 1, 3), put_at(3, 3), put_at(3, 2), put_at(2, 3)],
            Pattern::LineDiagonal => seq![mix_at(3, 2, 1, 2), mix_at(2, 3, 1, 2), put_at(3, 3)],
            Pattern::Corner => seq![mix_at(3, 3, 68, 100), mix_at(3, 2, 9, 100), mix_at(2, 3, 9, 100)],
        },
        5 => match pattern {
            Pattern::LineShallow => seq![mix_at(4, 0, 1, 4), mix_at(3, 2, 1, 4), mix_at(2, 4, 1, 4), mix_at(4, 1, 3, 4), mix_at(3, 3, 3, 4), put_at(4, 2), put_at(4, 3), put_at(4, 4), put_at(3, 4)],
            Pattern::LineSteep => seq![mix_at(0, 4, 1, 4), mix_at(2, 3, 1, 4), mix_at(4, 2, 1, 4), mix_at(1, 4, 3, 4), mix_at(3, 3, 3, 4), put_at(2, 4), put_at(3, 4), put_at(4, 4), put_at(4, 3)],
            Pattern::LineSteepAndShallow => seq![mix_at(0, 4, 1, 4), mix_at(2, 3, 1, 4), mix_at(1, 4, 3, 4), mix_at(4, 0, 1, 4), mix_at(3, 2, 1, 4), mix_at(4, 1, 3, 4), mix_at(3, 3, 2, 3), put_at(2, 4), put_at(3, 4), put_at(4, 4), put_at(4, 2), put_at(4, 3)],
            Pattern::LineDiagonal => seq![mix_at(4, 2, 1, 8), mix_at(3, 3, 1, 8), mix_at(2, 4, 1, 8), mix_at(4, 3, 7, 8), mix_at(3, 4, 7, 8), put_at(4, 4)],
            Pattern::Corner => seq![mix_at(4, 4, 86, 100), mix_at(4, 3, 23, 100), mix_at(3, 4, 23, 100)],
        },
        6 => match pattern {
            Pattern::LineShallow => seq![mix_at(5, 0, 1, 4), mix_at(4, 2, 1, 4), mix_at(3, 4, 1, 4), mix_at(5, 1, 3, 4), mix_at(4, 3, 3, 4), mix_at(3, 5, 3, 4), put_at(5, 2), put_at(5, 3), put_at(5, 4), put_at(5, 5), put_at(4, 4), put_at(4, 5)],
            Pattern::LineSteep => seq![mix_at(0, 5, 1, 4), mix_at(2, 4, 1, 4), mix_at(4, 3, 1, 4), mix_at(1, 5, 3, 4), mix_at(3, 4, 3, 4), mix_at(5, 3, 3, 4), put_at(2, 5), put_at(3, 5), put_at(4, 5), put_at(5, 5), put_at(4, 4), put_at(5, 4)],
            Pattern::LineSteepAndShallow => seq![mix_at(0, 5, 1, 4), mix_at(2, 4, 1, 4), mix_at(1, 5, 3, 4), mix_at(3, 4, 3, 4), mix_at(5, 0, 1, 4), mix_at(4, 2, 1, 4), mix_at(5, 1, 3, 4), mix_at(4, 3, 3, 4), put_at(2, 5), put_at(3, 5), put_at(4, 5), put_at(5, 5), put_at(4, 4), put_at(5, 4), put_at(5, 2), put_at(5, 3)],
            Pattern::LineDiagonal => seq![mix_at(5, 3, 1, 2), mix_at(4, 4, 1, 2), mix_at(3, 5, 1, 2), put_at(4, 5), put_at(5, 5), put_at(5, 4)],
            Pattern::Corner => seq![mix_at(5, 5, 97, 100), mix_at(4, 5, 42, 100), mix_at(5, 4, 42, 100), mix_at(5, 3, 6, 100), mix_at(3, 5, 6, 100)],
        },
        _ => seq![],
    }
}

/// The writes of `pattern` at `scale`.
pub fn pattern_paints(scale: usize, pattern: Pattern) -> (r: Vec<Paint>)
    requires
        2 <= scale <= 6,
    ensures
        r@ == pattern_spec(scale, pattern),
{
    match scale {
        2 => match pattern {
            Pattern::LineShallow => vec![mix(1, 0, 1, 4), mix(1, 1, 3, 4)],
            Pattern::LineSteep => vec![mix(0, 1, 1, 4), mix(1, 1, 3, 4)],
            Pattern::LineSteepAndShallow => vec![mix(1, 0, 1, 4), mix(0, 1, 1, 4), mix(1, 1, 5, 6)],
            Pattern::LineDiagonal => vec![mix(1, 1, 1, 2)],
            Pattern::Corner => vec![mix(1, 1, 21, 100)],
        },
        3 => match pattern {
            Pattern::LineShallow => vec![mix(2, 0, 1, 4), mix(1, 2, 1, 4), mix(2, 1, 3, 4), put(2, 2)],
            Pattern::LineSteep => vec![mix(0, 2, 1, 4), mix(2, 1, 1, 4), mix(1, 2, 3, 4), put(2, 2)],
            Pattern::LineSteepAndShallow => vec![mix(2, 0, 1, 4), mix(0, 2, 1, 4), mix(2, 1, 3, 4), mix(1, 2, 3, 4), put(2, 2)],
            Pattern::LineDiagonal => vec![mix(1, 2, 1, 8), mix(2, 1, 1, 8), mix(2, 2, 7, 8)],
            Pattern::Corner => vec![mix(2, 2, 45, 100)],
        },
        4 => match pattern {
            Pattern::LineShallow => vec![mix(3, 0, 1, 4), mix(2, 2, 1, 4), mix(3, 1, 3, 4), mix(2, 3, 3, 4), put(3, 2), put(3, 3)],
            Pattern::LineSteep => vec![mix(0, 3, 1, 4), mix(2, 2, 1, 4), mix(1, 3, 3, 4), mix(3, 2, 3, 4), put(2, 3), put(3, 3)],
            Pattern::LineSteepAndShallow => vec![mix(3, 1, 3, 4), mix(1, 3, 3, 4), mix(3, 0, 1, 4), mix(0, 3, 1, 4), mix(2, 2, 1, 3), put(3, 3), put(3, 2), put(2, 3)],
            Pattern::LineDiagonal => vec![mix(3, 2, 1, 2), mix(2, 3, 1, 2), put(3, 3)],
            Pattern::Corner => vec![mix(3, 3, 68, 100), mix(3, 2, 9, 100), mix(2, 3, 9, 100)],
        },
        5 => match pattern {
            Pattern::LineShallow => vec![mix(4, 0, 1, 4), mix(3, 2, 1, 4), mix(2, 4, 1, 4), mix(4, 1, 3, 4), mix(3, 3, 3, 4), put(4, 2), put(4, 3), put(4, 4), put(3, 4)],
            Pattern::LineSteep => vec![mix(0, 4, 1, 4), mix(2, 3, 1, 4), mix(4, 2, 1, 4), mix(1, 4, 3, 4), mix(3, 3, 3, 4), put(2, 4), put(3, 4), put(4, 4), put(4, 3)],
            Pattern::LineSteepAndShallow => vec![mix(0, 4, 1, 4), mix(2, 3, 1, 4), mix(1, 4, 3, 4), mix(4, 0, 1, 4), mix(3, 2, 1, 4), mix(4, 1, 3, 4), mix(3, 3, 2, 3), put(2, 4), put(3, 4), put(4, 4), put(4, 2), put(4, 3)],
            Pattern::LineDiagonal => vec![mix(4, 2, 1, 8), mix(3, 3, 1, 8), mix(2, 4, 1, 8), mix(4, 3, 7, 8), mix(3, 4, 7, 8), put(4, 4)],
            Pattern::Corner => vec![mix(4, 4, 86, 100), mix(4, 3, 23, 100), mix(3, 4, 23, 100)],
        },
        _ => match pattern {
            Pattern::LineShallow => vec![mix(5, 0, 1, 4), mix(4, 2, 1, 4), mix(3, 4, 1, 4), mix(5, 1, 3, 4), mix(4, 3, 3, 4), mix(3, 5, 3, 4), put(5, 2), put(5, 3), put(5, 4), put(5, 5), put(4, 4), put(4, 5)],
            Pattern::LineSteep => vec![mix(0, 5, 1, 4), mix(2, 4, 1, 4), mix(4, 3, 1, 4), mix(1, 5, 3, 4), mix(3, 4, 3, 4), mix(5, 3, 3, 4), put(2, 5), put(3, 5), put(4, 5), put(5, 5), put(4, 4), put(5, 4)],
            Pattern::LineSteepAndShallow => vec![mix(0, 5, 1, 4), mix(2, 4, 1, 4), mix(1, 5, 3, 4), mix(3, 4, 3, 4), mix(5, 0, 1, 4), mix(4, 2, 1, 4), mix(5, 1, 3, 4), mix(4, 3, 3, 4), put(2, 5), put(3, 5), put(4, 5), put(5, 5), put(4, 4), put(5, 4), put(5, 2), put(5, 3)],
            Pattern::LineDiagonal => vec![mix(5, 3, 1, 2), mix(4, 4, 1, 2), mix(3, 5, 1, 2), put(4, 5), put(5, 5), put(5, 4)],
            Pattern::Corner => vec![mix(5, 5, 97, 100), mix(4, 5, 42, 100), mix(5, 4, 42, 100), mix(5, 3, 6, 100), mix(3, 5, 6, 100)],
        },
    }
}

/// Applies the writes `ops`, in order, with the paint colour `colour`.
pub fn apply_paints(out: &mut OutputMatrix, ops: &Vec<Paint>, colour: Rgba8)
    requires
        old(out).wf(),
    ensures
        final(out).wf(),
        final(out).inner@ == paint_all(old(out).inner@, old(out).out_width as int, old(out).scale as int, old(out).rotation, ops@, colour),
        final(out).inner@.len() == old(out).inner@.len(),
        final(out).out_width == old(out).out_width,
        final(out).scale == old(out).scale,
        final(out).rotation == old(out).rotation,
{
    let ghost start = out.inner@;
    let mut k: usize = 0;
    while k < ops.len()
        invariant
            out.wf(),
            out.inner@.len() == start.len(),
            k <= ops@.len(),
            out.out_width == old(out).out_width,
            out.scale == old(out).scale,
            out.rotation == old(out).rotation,
            out.inner@ == paint_all(start, out.out_width as int, out.scale as int, out.rotation, ops@.take(k as int), colour),
        decreases ops@.len() - k,
    {
        out.paint(ops[k], colour);
        proof {
            assert(ops@.take(k + 1).drop_last() =~= ops@.take(k as int));
        }
        k += 1;
    }
    proof {
        assert(ops@.take(k as int) =~= ops@);
    }
}

/// Whether the blender paints a line rather than only the corner. `b` is the
/// pixel's corner classes, turned so that the corner in work is at the
/// bottom right.
pub open spec fn do_line_spec(b: Blend2x2, t: BlendTests) -> bool {
    if b.bottom_right == BlendType::Dominant {
        true
    } else if b.top_right != BlendType::NoBlend && !t.eq_eg {
        false
    } else if b.bottom_left != BlendType::NoBlend && !t.eq_ec {
        false
    } else if !t.eq_ei && t.eq_gh && t.eq_hi && t.eq_if && t.eq_fc {
        false
    } else {
        true
    }
}

/// The pattern the blender paints for the turned corner classes `b`.
pub open spec fn pattern_choice(b: Blend2x2, t: BlendTests) -> Pattern {
    if do_line_spec(b, t) {
        let shallow = t.shallow_ratio && !t.eq_eg && !t.eq_dg;
        let steep = t.steep_ratio && !t.eq_ec && !t.eq_bc;
        if shallow && steep {
            Pattern::LineSteepAndShallow
        } else if shallow {
            Pattern::LineShallow
        } else if steep {
            Pattern::LineSteep
        } else {
            Pattern::LineDiagonal
        }
    } else {
        Pattern::Corner
    }
}

/// The block after the blender's pass at rotation `rot`, where `view` is the
/// 3x3 neighbourhood turned by `rot` and `t` the comparisons made on it.
pub open spec fn blend_step(
    cells: Seq<Rgba8>,
    out_width: int,
    scale: usize,
    view: Kernel3x3,
    blend_info: Blend2x2,
    t: BlendTests,
    rot: Rotation,
) -> Seq<Rgba8> {
    let b = rotate_spec(blend_info, rot);
    if b.bottom_right == BlendType::NoBlend {
        cells
    } else {
        let px = if t.f_closer { view.f } else { view.h };
        paint_all(cells, out_width, scale as int, rot, pattern_spec(scale, pattern_choice(b, t)), px)
    }
}

/// Paints the corner of the block that the view's rotation brings to the
/// bottom right, if its class asks for it.
pub fn blend_pixel(
    kernel: &RotKernel3x3,
    destination: Vec<Rgba8>,
    dest_width: usize,
    scale: usize,
    blend_info: Blend2x2,
    tests: BlendTests,
) -> (r: Vec<Rgba8>)
    requires
        2 <= scale <= 6,
        scale <= dest_width,
        (scale - 1) * dest_width + scale <= destination@.len(),
    ensures
        r@ == blend_step(destination@, dest_width as int, scale, kernel.view(), blend_info, tests, kernel.rotation),
        r@.len() == destination@.len(),
{
    let blend = blend_info.rotate(kernel.rotation);
    if blend.bottom_right == BlendType::NoBlend {
        return destination;
    }
    let do_line_blend = if blend.bottom_right == BlendType::Dominant {
        true
    } else if blend.top_right != BlendType::NoBlend && !tests.eq_eg {
        false
    } else if blend.bottom_left != BlendType::NoBlend && !tests.eq_ec {
        false
    } else if !tests.eq_ei && tests.eq_gh && tests.eq_hi && tests.eq_if && tests.eq_fc {
        false
    } else {
        true
    };
    let px = if tests.f_closer {
        kernel.f()
    } else {
        kernel.h()
    };
    let pattern = if do_line_blend {
        let shallow_line = tests.shallow_ratio && !tests.eq_eg && !tests.eq_dg;
        let steep_line = tests.steep_ratio && !tests.eq_ec && !tests.eq_bc;
        if shallow_line && steep_line {
            Pattern::LineSteepAndShallow
        } else if shallow_line {
            Pattern::LineShallow
        } else if steep_line {
            Pattern::LineSteep
        } else {
            Pattern::LineDiagonal
        }
    } else {
        Pattern::Corner
    };
    let mut out = OutputMatrix::new(destination, dest_width, scale, kernel.rotation);
    let ops = pattern_paints(scale, pattern);
    apply_paints(&mut out, &ops, px);
    out.into_inner()
}

/// The corner classes of the 2x2 whose top-left pixel is `(x, y)`.
pub open spec fn corners_at(src: Seq<Rgba8>, width: int, height: int, corners: Seq<Diagonal>, x: int, y: int) -> Blend2x2 {
    corners_spec(kernel_at(src, width, height, x, y), diagonal_at(corners, width, x, y))
}

/// What the row-ahead buffer holds for pixel `(x, y + 1)` once row `y` is
/// done: the two corners decided along row `y`.
pub open spec fn row_record(src: Seq<Rgba8>, width: int, height: int, corners: Seq<Diagonal>, x: int, y: int) -> Blend2x2 {
    Blend2x2 {
        top_left: corners_at(src, width, height, corners, x - 1, y).bottom_right,
        top_right: corners_at(src, width, height, corners, x, y).bottom_left,
        bottom_left: BlendType::NoBlend,
        bottom_right: BlendType::NoBlend,
    }
}

/// The first half of [`row_record`]: the corner decided left of the pixel.
pub open spec fn left_record(src: Seq<Rgba8>, width: int, height: int, corners: Seq<Diagonal>, x: int, y: int) -> Blend2x2 {
    Blend2x2 {
        top_left: corners_at(src, width, height, corners, x - 1, y).bottom_right,
        top_right: BlendType::NoBlend,
        bottom_left: BlendType::NoBlend,
        bottom_right: BlendType::NoBlend,
    }
}

/// The corner classes the engine settles for pixel `(x, y)`. On the first
/// column the top-left class is taken from the top-right class of the 2x2
/// left of the pixel, and the bottom-left class stays `NoBlend`.
pub open spec fn pixel_blend(src: Seq<Rgba8>, width: int, height: int, corners: Seq<Diagonal>, x: int, y: int) -> Blend2x2 {
    Blend2x2 {
        top_left: if x == 0 {
            corners_at(src, width, height, corners, -1, y).top_right
        } else {
            corners_at(src, width, height, corners, x - 1, y - 1).bottom_right
        },
        top_right: corners_at(src, width, height, corners, x, y - 1).bottom_left,
        bottom_left: if x == 0 {
            BlendType::NoBlend
        } else {
            corners_at(src, width, height, corners, x - 1, y).top_right
        },
        bottom_right: corners_at(src, width, height, corners, x, y).top_left,
    }
}

/// A `scale` by `scale` block of `value`.
pub open spec fn solid(value: Rgba8, scale: usize) -> Seq<Rgba8> {
    Seq::new((scale * scale) as nat, |i: int| value)
}

/// The enlarged block of pixel `(x, y)`, row by row: filled with the pixel,
/// then blended at each of the four rotations when any corner asks for it.
pub open spec fn block_spec(
    src: Seq<Rgba8>,
    width: int,
    height: int,
    scale: usize,
    corners: Seq<Diagonal>,
    blends: Seq<BlendTests>,
    x: int,
    y: int,
) -> Seq<Rgba8> {
    let k = kernel_at(src, width, height, x, y);
    let info = pixel_blend(src, width, height, corners, x, y);
    let filled = solid(k.f, scale);
    if info == blend_none() {
        filled
    } else {
        let v = as_3x3_spec(k);
        let s = scale as int;
        let b0 = blend_step(filled, s, scale, rotated_3x3(v, Rotation::Identity), info, tests_at(blends, width, x, y, 0), Rotation::Identity);
        let b1 = blend_step(b0, s, scale, rotated_3x3(v, Rotation::Clockwise90), info, tests_at(blends, width, x, y, 1), Rotation::Clockwise90);
        let b2 = blend_step(b1, s, scale, rotated_3x3(v, Rotation::Clockwise180), info, tests_at(blends, width, x, y, 2), Rotation::Clockwise180);
        blend_step(b2, s, scale, rotated_3x3(v, Rotation::Clockwise270), info, tests_at(blends, width, x, y, 3), Rotation::Clockwise270)
    }
}

/// Where cell `(i, j)` of the block of pixel `(x, y)` lies in the enlarged
/// image, `width * scale` cells wide.
pub open spec fn dest_index(width: int, scale: int, x: int, y: int, i: int, j: int) -> int {
    (y * scale + i) * (width * scale) + x * scale + j
}

/// The enlarged image's cell `(i, j)` of the block of pixel `(x, y)`.
pub open spec fn scaled_cell(
    src: Seq<Rgba8>,
    width: int,
    height: int,
    scale: usize,
    corners: Seq<Diagonal>,
    blends: Seq<BlendTests>,
    x: int,
    y: int,
    i: int,
    j: int,
) -> Rgba8 {
    block_spec(src, width, height, scale, corners, blends, x, y)[i * scale + j]
}

/// `after` is `before` with the blocks of rows `y_first .. y_last` of the
/// source replaced by their enlarged blocks.
pub open spec fn rows_written(
    before: Seq<Rgba8>,
    after: Seq<Rgba8>,
    src: Seq<Rgba8>,
    width: int,
    height: int,
    scale: usize,
    corners: Seq<Diagonal>,
    blends: Seq<BlendTests>,
    y_first: int,
    y_last: int,
) -> bool {
    &&& after.len() == before.len()
    &&& forall|x: int, y: int, i: int, j: int|
        0 <= x < width && 0 <= y < height && 0 <= i < scale && 0 <= j < scale
            ==> #[trigger] after[dest_index(width, scale as int, x, y, i, j)] == if y_first <= y < y_last {
                scaled_cell(src, width, height, scale, corners, blends, x, y, i, j)
            } else {
                before[dest_index(width, scale as int, x, y, i, j)]
            }
}

/// The whole enlarged image, row by row: cell `k` lies in image row
/// `k / (width * scale)` and column `k % (width * scale)`.
pub open spec fn scaled_pixels(
    src: Seq<Rgba8>,
    width: int,
    height: int,
    scale: usize,
    corners: Seq<Diagonal>,
    blends: Seq<BlendTests>,
) -> Seq<Rgba8> {
    let s = scale as int;
    let dw = width * s;
    Seq::new(
        (dw * (height * s)) as nat,
        |k: int| scaled_cell(src, width, height, scale, corners, blends, (k % dw) / s, (k / dw) / s, (k / dw) % s, (k % dw) % s),
    )
}

/// Each cell of the enlarged image is a cell of exactly one block.
pub proof fn lemma_cell_decomposes(width: int, height: int, scale: int, k: int)
    requires
        width > 0,
        height > 0,
        scale > 0,
        0 <= k < (width * scale) * (height * scale),
    ensures
        0 <= (k % (width * scale)) / scale < width,
        0 <= (k / (width * scale)) / scale < height,
        0 <= (k / (width * scale)) % scale < scale,
        0 <= (k % (width * scale)) % scale < scale,
        k == dest_index(width, scale, (k % (width * scale)) / scale, (k / (width * scale)) / scale, (k / (width * scale)) % scale, (k % (width * scale)) % scale),
{
    let dw = width * scale;
    assert(width * scale > 0) by (nonlinear_arith)
        requires
            width > 0,
            scale > 0,
    ;
    let col = k % dw;
    let row = k / dw;
    lemma_fundamental_div_mod(k, dw);
    lemma_fundamental_div_mod(col, scale);
    lemma_fundamental_div_mod(row, scale);
    assert(0 <= col < dw);
    assert(0 <= row < height * scale) by (nonlinear_arith)
        requires
            k == dw * row + col,
            0 <= col < dw,
            0 <= k < dw * (height * scale),
            dw > 0,
    ;
    let x = col / scale;
    let j = col % scale;
    let y = row / scale;
    let i = row % scale;
    assert(0 <= j < scale);
    assert(0 <= i < scale);
    assert(0 <= x < width) by (nonlinear_arith)
        requires
            col == scale * x + j,
            0 <= j < scale,
            0 <= col < width * scale,
            scale > 0,
    ;
    assert(0 <= y < height) by (nonlinear_arith)
        requires
            row == scale * y + i,
            0 <= i < scale,
            0 <= row < height * scale,
            scale > 0,
    ;
    assert(k == (y * scale + i) * dw + x * scale + j) by (nonlinear_arith)
        requires
            k == dw * row + col,
            col == scale * x + j,
            row == scale * y + i,
    ;
}

/// Once every row is written, the destination is the enlarged image.
pub proof fn lemma_all_rows_written(
    before: Seq<Rgba8>,
    after: Seq<Rgba8>,
    src: Seq<Rgba8>,
    width: int,
    height: int,
    scale: usize,
    corners: Seq<Diagonal>,
    blends: Seq<BlendTests>,
)
    requires
        width > 0,
        height > 0,
        scale > 0,
        before.len() == (width * scale) * (height * scale),
        rows_written(before, after, src, width, height, scale, corners, blends, 0, height),
    ensures
        after == scaled_pixels(src, width, height, scale, corners, blends),
{
    let s = scale as int;
    let dw = width * s;
    assert forall|k: int| 0 <= k < after.len() implies after[k] == #[trigger] scaled_pixels(src, width, height, scale, corners, blends)[k] by {
        lemma_cell_decomposes(width, height, s, k);
        let x = (k % dw) / s;
        let y = (k / dw) / s;
        let i = (k / dw) % s;
        let j = (k % dw) % s;
        assert(after[dest_index(width, s, x, y, i, j)] == scaled_cell(src, width, height, scale, corners, blends, x, y, i, j));
    }
    assert(after =~= scaled_pixels(src, width, height, scale, corners, blends));
}

/// Whether row `y` lies in one of the first `t` stripes.
pub open spec fn row_covered(stripes: Seq<(int, int)>, t: int, y: int) -> bool {
    exists|k: int| 0 <= k < t && (#[trigger] stripes[k]).0 <= y < stripes[k].1
}

proof fn lemma_stripes_prefix(
    images: Seq<Seq<Rgba8>>,
    stripes: Seq<(int, int)>,
    src: Seq<Rgba8>,
    width: int,
    height: int,
    scale: usize,
    corners: Seq<Diagonal>,
    blends: Seq<BlendTests>,
    t: int,
)
    requires
        0 <= t <= stripes.len(),
        images.len() == stripes.len() + 1,
        forall|k: int| 0 <= k < stripes.len() ==> rows_written(#[trigger] images[k], images[k + 1], src, width, height, scale, corners, blends, stripes[k].0, stripes[k].1),
    ensures
        images[t].len() == images[0].len(),
        forall|x: int, y: int, i: int, j: int|
            0 <= x < width && 0 <= y < height && 0 <= i < scale && 0 <= j < scale
                ==> #[trigger] images[t][dest_index(width, scale as int, x, y, i, j)] == if row_covered(stripes, t, y) {
                    scaled_cell(src, width, height, scale, corners, blends, x, y, i, j)
                } else {
                    images[0][dest_index(width, scale as int, x, y, i, j)]
                },
    decreases t,
{
    let s = scale as int;
    if t > 0 {
        lemma_stripes_prefix(images, stripes, src, width, height, scale, corners, blends, t - 1);
        assert(rows_written(images[t - 1], images[t], src, width, height, scale, corners, blends, stripes[t - 1].0, stripes[t - 1].1));
        assert forall|x: int, y: int, i: int, j: int|
            0 <= x < width && 0 <= y < height && 0 <= i < scale && 0 <= j < scale
                implies #[trigger] images[t][dest_index(width, s, x, y, i, j)] == if row_covered(stripes, t, y) {
                    scaled_cell(src, width, height, scale, corners, blends, x, y, i, j)
                } else {
                    images[0][dest_index(width, s, x, y, i, j)]
                } by {
            assert(images[t - 1][dest_index(width, s, x, y, i, j)] == if row_covered(stripes, t - 1, y) {
                scaled_cell(src, width, height, scale, corners, blends, x, y, i, j)
            } else {
                images[0][dest_index(width, s, x, y, i, j)]
            });
            if stripes[t - 1].0 <= y < stripes[t - 1].1 {
                assert(row_covered(stripes, t, y));
            } else if row_covered(stripes, t, y) {
                let k = choose|k: int| 0 <= k < t && (#[trigger] stripes[k]).0 <= y < stripes[k].1;
                assert(row_covered(stripes, t - 1, y));
            } else {
                assert(!row_covered(stripes, t - 1, y));
            }
        }
    } else {
        assert forall|y: int| !#[trigger] row_covered(stripes, t, y) by {}
    }
}

/// Enlarging an image stripe by stripe gives the same image as enlarging it
/// in one go, whatever the stripes and whatever their order, as long as
/// together they cover every row. Stripe `stripes[t]` (a row range
/// `start .. end`) turns `images[t]` into `images[t + 1]`; `whole` is the
/// result of one stripe over all rows, started from a buffer of the same
/// length. Stripes may also overlap: a row written twice gets the same cells.
pub proof fn lemma_stripes_any_order(
    images: Seq<Seq<Rgba8>>,
    stripes: Seq<(int, int)>,
    whole_before: Seq<Rgba8>,
    whole: Seq<Rgba8>,
    src: Seq<Rgba8>,
    width: int,
    height: int,
    scale: usize,
    corners: Seq<Diagonal>,
    blends: Seq<BlendTests>,
)
    requires
        width > 0,
        height > 0,
        2 <= scale <= 6,
        images.len() == stripes.len() + 1,
        images[0].len() == (width * scale) * (height * scale),
        forall|k: int| 0 <= k < stripes.len() ==> rows_written(#[trigger] images[k], images[k + 1], src, width, height, scale, corners, blends, stripes[k].0, stripes[k].1),
        forall|y: int| 0 <= y < height ==> #[trigger] row_covered(stripes, stripes.len() as int, y),
        whole_before.len() == images[0].len(),
        rows_written(whole_before, whole, src, width, height, scale, corners, blends, 0, height),
    ensures
        images.last() == whole,
        whole == scaled_pixels(src, width, height, scale, corners, blends),
{
    let t = stripes.len() as int;
    let s = scale as int;
    lemma_stripes_prefix(images, stripes, src, width, height, scale, corners, blends, t);
    assert forall|x: int, y: int, i: int, j: int|
        0 <= x < width && 0 <= y < height && 0 <= i < scale && 0 <= j < scale
            implies #[trigger] images[t][dest_index(width, s, x, y, i, j)] == if 0 <= y < height {
                scaled_cell(src, width, height, scale, corners, blends, x, y, i, j)
            } else {
                images[0][dest_index(width, s, x, y, i, j)]
            } by {
        assert(row_covered(stripes, t, y));
    }
    lemma_all_rows_written(images[0], images[t], src, width, height, scale, corners, blends);
    lemma_all_rows_written(whole_before, whole, src, width, height, scale, corners, blends);
}

/// With every source pixel equal to `c`, and `c` the zero pixel or every
/// diagonal verdict `Level`, no 2x2 of the image asks for blending.
proof fn lemma_uniform_corners(
    src: Seq<Rgba8>,
    width: int,
    height: int,
    corners: Seq<Diagonal>,
    c: Rgba8,
    x: int,
    y: int,
)
    requires
        width > 0,
        height > 0,
        src.len() == width * height,
        forall|k: int| 0 <= k < src.len() ==> #[trigger] src[k] == c,
        c == zero_pixel() || forall|x2: int, y2: int| -1 <= x2 < width && -1 <= y2 < height ==> #[trigger] diagonal_at(corners, width, x2, y2) == Diagonal::Level,
        -1 <= x < width,
        -1 <= y < height,
    ensures
        corners_at(src, width, height, corners, x, y) == blend_none(),
{
    if c == zero_pixel() {
        assert forall|x2: int, y2: int| true implies #[trigger] source_pixel(src, width, height, x2, y2) == zero_pixel() by {
            if 0 <= x2 < width && 0 <= y2 < height {
                lemma_row_in_bounds(y2, x2, width, height);
            }
        }
    } else {
        assert(diagonal_at(corners, width, x, y) == Diagonal::Level);
    }
}

/// An image whose pixels are all `c` stays wholly `c` when enlarged, if `c`
/// is the zero pixel (whatever the distance outcomes) or if no 2x2 of the
/// image favours a diagonal. A fully transparent black image thus enlarges
/// to a fully transparent black image.
pub proof fn lemma_uniform_source(
    src: Seq<Rgba8>,
    width: int,
    height: int,
    scale: usize,
    corners: Seq<Diagonal>,
    blends: Seq<BlendTests>,
    c: Rgba8,
)
    requires
        width > 0,
        height > 0,
        2 <= scale <= 6,
        src.len() == width * height,
        forall|k: int| 0 <= k < src.len() ==> #[trigger] src[k] == c,
        c == zero_pixel() || forall|x2: int, y2: int| -1 <= x2 < width && -1 <= y2 < height ==> #[trigger] diagonal_at(corners, width, x2, y2) == Diagonal::Level,
    ensures
        forall|k: int| 0 <= k < scaled_pixels(src, width, height, scale, corners, blends).len()
            ==> #[trigger] scaled_pixels(src, width, height, scale, corners, blends)[k] == c,
{
    let s = scale as int;
    let dw = width * s;
    assert forall|k: int| 0 <= k < scaled_pixels(src, width, height, scale, corners, blends).len()
        implies #[trigger] scaled_pixels(src, width, height, scale, corners, blends)[k] == c by {
        lemma_cell_decomposes(width, height, s, k);
        let x = (k % dw) / s;
        let y = (k / dw) / s;
        let i = (k / dw) % s;
        let j = (k % dw) % s;
        lemma_uniform_corners(src, width, height, corners, c, x - 1, y - 1);
        lemma_uniform_corners(src, width, height, corners, c, x, y - 1);
        lemma_uniform_corners(src, width, height, corners, c, x - 1, y);
        lemma_uniform_corners(src, width, height, corners, c, x, y);
        lemma_uniform_corners(src, width, height, corners, c, -1, y);
        assert(pixel_blend(src, width, height, corners, x, y) == blend_none());
        lemma_row_in_bounds(y, x, width, height);
        assert(kernel_at(src, width, height, x, y).f == c);
        assert(i * s + j < s * s) by (nonlinear_arith)
            requires
                0 <= i < s,
                0 <= j < s,
        ;
        assert(0 <= i * s + j) by (nonlinear_arith)
            requires
                0 <= i < s,
                0 <= j < s,
        ;
    }
}

/// A block cell lies inside the enlarged image.
pub proof fn lemma_dest_index_bounds(width: int, height: int, scale: int, x: int, y: int, i: int, j: int)
    requires
        0 <= x < width,
        0 <= y < height,
        0 <= i < scale,
        0 <= j < scale,
    ensures
        0 <= dest_index(width, scale, x, y, i, j) < (width * scale) * (height * scale),
        0 <= x * scale + j < width * scale,
        0 <= y * scale + i < height * scale,
{
    assert(0 <= x * scale + j < width * scale) by (nonlinear_arith)
        requires
            0 <= x < width,
            0 <= j < scale,
    ;
    assert(0 <= y * scale + i < height * scale) by (nonlinear_arith)
        requires
            0 <= y < height,
            0 <= i < scale,
    ;
    let row = y * scale + i;
    let col = x * scale + j;
    let dw = width * scale;
    assert(0 <= row * dw + col < dw * (height * scale)) by (nonlinear_arith)
        requires
            0 <= row < height * scale,
            0 <= col < dw,
    ;
}

/// Two block cells at the same place of the enlarged image are the same cell
/// of the same block.
pub proof fn lemma_dest_index_unique(width: int, scale: int, x1: int, y1: int, i1: int, j1: int, x2: int, y2: int, i2: int, j2: int)
    requires
        0 < scale,
        0 <= x1 < width,
        0 <= x2 < width,
        0 <= y1,
        0 <= y2,
        0 <= i1 < scale,
        0 <= i2 < scale,
        0 <= j1 < scale,
        0 <= j2 < scale,
        dest_index(width, scale, x1, y1, i1, j1) == dest_index(width, scale, x2, y2, i2, j2),
    ensures
        x1 == x2 && y1 == y2 && i1 == i2 && j1 == j2,
{
    let dw = width * scale;
    let idx = dest_index(width, scale, x1, y1, i1, j1);
    assert(0 <= x1 * scale + j1 < width * scale) by (nonlinear_arith)
        requires
            0 <= x1 < width,
            0 <= j1 < scale,
    ;
    assert(0 <= x2 * scale + j2 < width * scale) by (nonlinear_arith)
        requires
            0 <= x2 < width,
            0 <= j2 < scale,
    ;
    lemma_fundamental_div_mod_converse(idx, dw, y1 * scale + i1, x1 * scale + j1);
    lemma_fundamental_div_mod_converse(idx, dw, y2 * scale + i2, x2 * scale + j2);
    lemma_fundamental_div_mod_converse(y1 * scale + i1, scale, y1, i1);
    lemma_fundamental_div_mod_converse(y1 * scale + i1, scale, y2, i2);
    lemma_fundamental_div_mod_converse(x1 * scale + j1, scale, x1, j1);
    lemma_fundamental_div_mod_converse(x1 * scale + j1, scale, x2, j2);
}

/// A `scale` by `scale` block of `value`.
pub fn solid_block(value: Rgba8, scale: usize) -> (r: Vec<Rgba8>)
    requires
        scale <= 6,
    ensures
        r@ == solid(value, scale),
{
    assert(scale * scale <= 36) by (nonlinear_arith)
        requires
            scale <= 6,
    ;
    let n = scale * scale;
    let mut block: Vec<Rgba8> = Vec::new();
    while block.len() < n
        invariant
            n == scale * scale,
            block@.len() <= n,
            forall|k: int| 0 <= k < block@.len() ==> block@[k] == value,
        decreases n - block@.len(),
    {
        block.push(value);
    }
    assert(block@ =~= solid(value, scale));
    block
}

/// Copies `block` into the enlarged image as the block of pixel `(x, y)`.
pub fn write_block(
    destination: &mut Vec<Rgba8>,
    width: usize,
    height: usize,
    scale: usize,
    x: usize,
    y: usize,
    block: &Vec<Rgba8>,
)
    requires
        2 <= scale <= 6,
        x < width,
        y < height,
        old(destination)@.len() == (width * scale) * (height * scale),
        block@.len() == scale * scale,
    ensures
        final(destination)@.len() == old(destination)@.len(),
        forall|x2: int, y2: int, i: int, j: int|
            0 <= x2 < width && 0 <= y2 < height && 0 <= i < scale && 0 <= j < scale
                ==> #[trigger] final(destination)@[dest_index(width as int, scale as int, x2, y2, i, j)] == if x2 == x && y2 == y {
                    block@[i * scale + j]
                } else {
                    old(destination)@[dest_index(width as int, scale as int, x2, y2, i, j)]
                },
{
    let ghost before = destination@;
    let ghost w = width as int;
    let ghost sc = scale as int;
    let len = destination.len();
    assert(width * scale <= (width * scale) * (height * scale)) by (nonlinear_arith)
        requires
            y < height,
            scale >= 2,
            width * scale >= 0,
    ;
    assert(height * scale <= (width * scale) * (height * scale)) by (nonlinear_arith)
        requires
            x < width,
            scale >= 2,
            height * scale >= 0,
    ;
    let dest_width = width * scale;
    let mut i: usize = 0;
    while i < scale
        invariant
            2 <= scale <= 6,
            x < width,
            y < height,
            w == width,
            sc == scale,
            before.len() == (width * scale) * (height * scale),
            len == before.len(),
            height * scale <= len,
            dest_width == width * scale,
            block@.len() == scale * scale,
            i <= scale,
            destination@.len() == before.len(),
            forall|x2: int, y2: int, i2: int, j2: int|
                0 <= x2 < width && 0 <= y2 < height && 0 <= i2 < scale && 0 <= j2 < scale
                    ==> #[trigger] destination@[dest_index(w, sc, x2, y2, i2, j2)] == if x2 == x && y2 == y && i2 < i {
                        block@[i2 * scale + j2]
                    } else {
                        before[dest_index(w, sc, x2, y2, i2, j2)]
                    },
        decreases scale - i,
    {
        let mut j: usize = 0;
        while j < scale
            invariant
                2 <= scale <= 6,
                x < width,
                y < height,
                w == width,
                sc == scale,
                before.len() == (width * scale) * (height * scale),
                len == before.len(),
                height * scale <= len,
                dest_width == width * scale,
                block@.len() == scale * scale,
                i < scale,
                j <= scale,
                destination@.len() == before.len(),
                forall|x2: int, y2: int, i2: int, j2: int|
                    0 <= x2 < width && 0 <= y2 < height && 0 <= i2 < scale && 0 <= j2 < scale
                        ==> #[trigger] destination@[dest_index(w, sc, x2, y2, i2, j2)] == if x2 == x && y2 == y && (i2 < i || (i2 == i && j2 < j)) {
                            block@[i2 * scale + j2]
                        } else {
                            before[dest_index(w, sc, x2, y2, i2, j2)]
                        },
            decreases scale - j,
        {
            proof {
                lemma_dest_index_bounds(w, height as int, sc, x as int, y as int, i as int, j as int);
                assert(i * scale + j < scale * scale <= 36) by (nonlinear_arith)
                    requires
                        i < scale,
                        j < scale,
                        scale <= 6,
                ;
            }
            let row = y * scale + i;
            let col = x * scale + j;
            assert(row * dest_width <= row * dest_width + col);
            let idx = row * dest_width + col;
            assert(idx == dest_index(w, sc, x as int, y as int, i as int, j as int));
            let ghost prev = destination@;
            destination.set(idx, block[i * scale + j]);
            proof {
                assert forall|x2: int, y2: int, i2: int, j2: int|
                    0 <= x2 < width && 0 <= y2 < height && 0 <= i2 < scale && 0 <= j2 < scale
                        implies #[trigger] destination@[dest_index(w, sc, x2, y2, i2, j2)] == if x2 == x && y2 == y && (i2 < i || (i2 == i && j2 < j + 1)) {
                            block@[i2 * scale + j2]
                        } else {
                            before[dest_index(w, sc, x2, y2, i2, j2)]
                        } by {
                    lemma_dest_index_bounds(w, height as int, sc, x2, y2, i2, j2);
                    assert(prev[dest_index(w, sc, x2, y2, i2, j2)] == if x2 == x && y2 == y && (i2 < i || (i2 == i && j2 < j)) {
                        block@[i2 * scale + j2]
                    } else {
                        before[dest_index(w, sc, x2, y2, i2, j2)]
                    });
                    if dest_index(w, sc, x2, y2, i2, j2) == idx {
                        lemma_dest_index_unique(w, sc, x2, y2, i2, j2, x as int, y as int, i as int, j as int);
                    }
                }
            }
            j += 1;
        }
        i += 1;
    }
}

/// The diagonal verdict for the kernel centred on `(x, y)`.
fn diagonal_for(decisions: &Decisions, width: usize, height: usize, x: isize, y: isize) -> (r: Diagonal)
    requires
        decisions_fit(decisions.corners@, decisions.blends@, width as int, height as int),
        dims_fit(width as int, height as int),
        -1 <= x < width,
        -1 <= y < height,
    ensures
        r == diagonal_at(decisions.corners@, width as int, x as int, y as int),
{
    let len = decisions.corners.len();
    let xi = (x + 1) as usize;
    let yi = (y + 1) as usize;
    proof {
        assert(yi * (width + 1) + xi < (width + 1) * (height + 1)) by (nonlinear_arith)
            requires
                xi < width + 1,
                yi < height + 1,
        ;
        assert(yi * (width + 1) <= yi * (width + 1) + xi);
    }
    decisions.corners[yi * (width + 1) + xi]
}

/// The blend comparisons for pixel `(x, y)` under `r` quarter turns.
fn tests_for(decisions: &Decisions, width: usize, height: usize, x: usize, y: usize, r: usize) -> (t: BlendTests)
    requires
        decisions_fit(decisions.corners@, decisions.blends@, width as int, height as int),
        x < width,
        y < height,
        r < 4,
    ensures
        t == tests_at(decisions.blends@, width as int, x as int, y as int, r as int),
{
    let len = decisions.blends.len();
    proof {
        assert((y * width + x) * 4 + r < width * height * 4) by (nonlinear_arith)
            requires
                x < width,
                y < height,
                r < 4,
        ;
        assert(y * width <= y * width + x);
    }
    decisions.blends[(y * width + x) * 4 + r]
}

/// Classifies the corners along the row above the first row of a stripe,
/// giving the row-ahead buffer its start.
fn pre_pass(source: &[Rgba8], width: usize, height: usize, decisions: &Decisions, y_first: usize) -> (buf: Vec<Blend2x2>)
    requires
        width > 0,
        height > 0,
        source@.len() == width * height,
        dims_fit(width as int, height as int),
        decisions_fit(decisions.corners@, decisions.blends@, width as int, height as int),
        y_first < height,
    ensures
        buf@.len() == width,
        forall|x: int| 0 <= x < width ==> #[trigger] buf@[x] == row_record(source@, width as int, height as int, decisions.corners@, x, y_first - 1),
{
    let ghost src = source@;
    let ghost corners = decisions.corners@;
    let ghost w = width as int;
    let ghost h = height as int;
    let y0 = y_first as isize - 1;
    let oob = OobReaderTransparent::new(source, width, height, y0);
    let mut kernel = Kernel4x4::init_row(&oob);

    let mut buf: Vec<Blend2x2> = Vec::new();
    while buf.len() < width
        invariant
            buf@.len() <= width,
        decreases width - buf@.len(),
    {
        buf.push(Blend2x2::none());
    }

    let c = kernel.pre_process_corners(diagonal_for(decisions, width, height, -1, y0));
    let mut first = Blend2x2::none();
    first.top_left = c.bottom_right;
    buf.set(0, first);

    let mut x: usize = 0;
    while x < width
        invariant
            oob.wf(),
            oob.source() == src,
            oob.width() == w,
            oob.height() == h,
            oob.row() == y0,
            y0 == y_first - 1,
            y_first < height,
            src == source@,
            corners == decisions.corners@,
            w == width,
            h == height,
            dims_fit(w, h),
            decisions_fit(decisions.corners@, decisions.blends@, w, h),
            x <= width,
            buf@.len() == width,
            kernel == kernel_at(src, w, h, x - 1, y0 as int),
            forall|x2: int| 0 <= x2 < x ==> #[trigger] buf@[x2] == row_record(src, w, h, corners, x2, y0 as int),
            x < width ==> buf@[x as int] == left_record(src, w, h, corners, x as int, y0 as int),
        decreases width - x,
    {
        kernel.next_column(&oob, x as isize);
        let c = kernel.pre_process_corners(diagonal_for(decisions, width, height, x as isize, y0));
        let mut here = buf[x];
        here.top_right = c.bottom_left;
        buf.set(x, here);
        if x + 1 < width {
            let mut next = Blend2x2::none();
            next.top_left = c.bottom_right;
            buf.set(x + 1, next);
        }
        x += 1;
    }
    buf
}

/// The corner classes of pixel `(x, y)` that are known before its own 2x2
/// is classified: all but the bottom-right one.
pub open spec fn pending_record(src: Seq<Rgba8>, width: int, height: int, corners: Seq<Diagonal>, x: int, y: int) -> Blend2x2 {
    Blend2x2 {
        bottom_right: BlendType::NoBlend,
        ..pixel_blend(src, width, height, corners, x, y)
    }
}

/// The enlarged block of pixel `(x, y)`: filled with the centre pixel, then
/// blended at the four rotations when a corner asks for it.
fn enlarge_pixel(
    source: &[Rgba8],
    width: usize,
    height: usize,
    scale: usize,
    decisions: &Decisions,
    kernel: &Kernel4x4,
    blend_xy: Blend2x2,
    x: usize,
    y: usize,
) -> (r: Vec<Rgba8>)
    requires
        2 <= scale <= 6,
        x < width,
        y < height,
        decisions_fit(decisions.corners@, decisions.blends@, width as int, height as int),
        *kernel == kernel_at(source@, width as int, height as int, x as int, y as int),
        blend_xy == pixel_blend(source@, width as int, height as int, decisions.corners@, x as int, y as int),
    ensures
        r@ == block_spec(source@, width as int, height as int, scale, decisions.corners@, decisions.blends@, x as int, y as int),
        r@.len() == scale * scale,
{
    let mut block = solid_block(kernel.f, scale);
    assert((scale - 1) * scale + scale == scale * scale) by (nonlinear_arith);
    if blend_xy.blending_needed() {
        let rot_0 = RotKernel3x3::new(kernel, Rotation::Identity);
        let rot_90 = RotKernel3x3::new(kernel, Rotation::Clockwise90);
        let rot_180 = RotKernel3x3::new(kernel, Rotation::Clockwise180);
        let rot_270 = RotKernel3x3::new(kernel, Rotation::Clockwise270);
        block = blend_pixel(&rot_0, block, scale, scale, blend_xy, tests_for(decisions, width, height, x, y, 0));
        block = blend_pixel(&rot_90, block, scale, scale, blend_xy, tests_for(decisions, width, height, x, y, 1));
        block = blend_pixel(&rot_180, block, scale, scale, blend_xy, tests_for(decisions, width, height, x, y, 2));
        block = blend_pixel(&rot_270, block, scale, scale, blend_xy, tests_for(decisions, width, height, x, y, 3));
    }
    block
}

/// Enlarges row `y` of the source into the destination, and moves the
/// row-ahead buffer on to row `y + 1`.
fn scale_row(
    source: &[Rgba8],
    destination: &mut Vec<Rgba8>,
    buf: &mut Vec<Blend2x2>,
    width: usize,
    height: usize,
    scale: usize,
    decisions: &Decisions,
    y: usize,
)
    requires
        2 <= scale <= 6,
        width > 0,
        height > 0,
        source@.len() == width * height,
        dims_fit(width as int, height as int),
        decisions_fit(decisions.corners@, decisions.blends@, width as int, height as int),
        y < height,
        old(destination)@.len() == (width * scale) * (height * scale),
        old(buf)@.len() == width,
        forall|x: int| 0 <= x < width ==> #[trigger] old(buf)@[x] == row_record(source@, width as int, height as int, decisions.corners@, x, y - 1),
    ensures
        final(buf)@.len() == width,
        forall|x: int| 0 <= x < width ==> #[trigger] final(buf)@[x] == row_record(source@, width as int, height as int, decisions.corners@, x, y as int),
        final(destination)@.len() == old(destination)@.len(),
        forall|x2: int, y2: int, i: int, j: int|
            0 <= x2 < width && 0 <= y2 < height && 0 <= i < scale && 0 <= j < scale
                ==> #[trigger] final(destination)@[dest_index(width as int, scale as int, x2, y2, i, j)] == if y2 == y {
                    scaled_cell(source@, width as int, height as int, scale, decisions.corners@, decisions.blends@, x2, y2, i, j)
                } else {
                    old(destination)@[dest_index(width as int, scale as int, x2, y2, i, j)]
                },
{
    let ghost src = source@;
    let ghost corners = decisions.corners@;
    let ghost blends = decisions.blends@;
    let ghost w = width as int;
    let ghost h = height as int;
    let ghost sc = scale as int;
    let ghost dest0 = destination@;

    let oob = OobReaderTransparent::new(source, width, height, y as isize);
    let mut kernel = Kernel4x4::init_row(&oob);

    let c0 = kernel.pre_process_corners(diagonal_for(decisions, width, height, -1, y as isize));
    let mut next = Blend2x2::none();
    next.top_left = c0.bottom_right;
    let mut first = buf[0];
    first.top_left = c0.top_right;
    buf.set(0, first);

    let mut x: usize = 0;
    while x < width
        invariant
            oob.wf(),
            oob.source() == src,
            oob.width() == w,
            oob.height() == h,
            oob.row() == y,
            src == source@,
            corners == decisions.corners@,
            blends == decisions.blends@,
            w == width,
            h == height,
            sc == scale,
            2 <= scale <= 6,
            y < height,
            dims_fit(w, h),
            decisions_fit(decisions.corners@, decisions.blends@, w, h),
            dest0.len() == (width * scale) * (height * scale),
            x <= width,
            kernel == kernel_at(src, w, h, x - 1, y as int),
            buf@.len() == width,
            forall|x2: int| 0 <= x2 < x ==> #[trigger] buf@[x2] == row_record(src, w, h, corners, x2, y as int),
            x < width ==> buf@[x as int] == pending_record(src, w, h, corners, x as int, y as int),
            forall|x2: int| x < x2 < width ==> #[trigger] buf@[x2] == row_record(src, w, h, corners, x2, y - 1),
            x < width ==> next == left_record(src, w, h, corners, x as int, y as int),
            destination@.len() == dest0.len(),
            forall|x2: int, y2: int, i: int, j: int|
                0 <= x2 < width && 0 <= y2 < height && 0 <= i < scale && 0 <= j < scale
                    ==> #[trigger] destination@[dest_index(w, sc, x2, y2, i, j)] == if y2 == y && x2 < x {
                        scaled_cell(src, w, h, scale, corners, blends, x2, y2, i, j)
                    } else {
                        dest0[dest_index(w, sc, x2, y2, i, j)]
                    },
        decreases width - x,
    {
        kernel.next_column(&oob, x as isize);
        let mut blend_xy = buf[x];
        let c = kernel.pre_process_corners(diagonal_for(decisions, width, height, x as isize, y as isize));
        blend_xy.bottom_right = c.top_left;
        next.top_right = c.bottom_left;
        buf.set(x, next);
        if x + 1 < width {
            next = Blend2x2::none();
            next.top_left = c.bottom_right;
            let mut right = buf[x + 1];
            right.bottom_left = c.top_right;
            buf.set(x + 1, right);
        }
        let block = enlarge_pixel(source, width, height, scale, decisions, &kernel, blend_xy, x, y);
        let ghost prev = destination@;
        write_block(destination, width, height, scale, x, y, &block);
        proof {
            assert forall|x2: int, y2: int, i: int, j: int|
                0 <= x2 < width && 0 <= y2 < height && 0 <= i < scale && 0 <= j < scale
                    implies #[trigger] destination@[dest_index(w, sc, x2, y2, i, j)] == if y2 == y && x2 < x + 1 {
                        scaled_cell(src, w, h, scale, corners, blends, x2, y2, i, j)
                    } else {
                        dest0[dest_index(w, sc, x2, y2, i, j)]
                    } by {
                assert(prev[dest_index(w, sc, x2, y2, i, j)] == if y2 == y && x2 < x {
                    scaled_cell(src, w, h, scale, corners, blends, x2, y2, i, j)
                } else {
                    dest0[dest_index(w, sc, x2, y2, i, j)]
                });
            }
        }
        x += 1;
    }
}

/// What [`scale_image`] reports for its arguments: `Ok` when it enlarges the
/// rows, else the first error that applies.
pub open spec fn scale_image_check(
    source_len: int,
    dest_len: int,
    width: int,
    height: int,
    scale: int,
    fits: bool,
    y_first: int,
    y_end: int,
) -> Result<(), ScaleError> {
    if width == 0 || height == 0 {
        Err(ScaleError::DimensionMismatch)
    } else if !(2 <= scale <= 6) {
        Err(ScaleError::FactorOutOfRange)
    } else if source_len != width * height || dest_len != (width * scale) * (height * scale) {
        Err(ScaleError::DimensionMismatch)
    } else if !fits {
        Err(ScaleError::DecisionsMismatch)
    } else if y_first >= clip_end(y_end, height) {
        Err(ScaleError::EmptyRange)
    } else {
        Ok(())
    }
}

/// The end of a row range, cut at the image's height.
pub open spec fn clip_end(y_end: int, height: int) -> int {
    if y_end < height {
        y_end
    } else {
        height
    }
}

/// Enlarges the source rows `y_range` (cut at the image's height) of a
/// `src_width` by `src_height` image by `scale` into `destination`, which
/// holds the whole enlarged image row by row. Cells of other rows stay as
/// they were. The row-ahead buffer is started afresh from the row above the
/// range, so that stripes can be enlarged independently.
pub fn scale_image(
    source: &[Rgba8],
    destination: &mut Vec<Rgba8>,
    src_width: usize,
    src_height: usize,
    scale: usize,
    decisions: &Decisions,
    y_range: std::ops::Range<usize>,
) -> (r: Result<(), ScaleError>)
    ensures
        r == scale_image_check(
            source@.len() as int,
            old(destination)@.len() as int,
            src_width as int,
            src_height as int,
            scale as int,
            decisions_fit(decisions.corners@, decisions.blends@, src_width as int, src_height as int),
            y_range.start as int,
            y_range.end as int,
        ),
        r is Ok ==> rows_written(
            old(destination)@,
            final(destination)@,
            source@,
            src_width as int,
            src_height as int,
            scale,
            decisions.corners@,
            decisions.blends@,
            y_range.start as int,
            clip_end(y_range.end as int, src_height as int),
        ),
        r is Err ==> final(destination)@ == old(destination)@,
{
    let width = src_width;
    let height = src_height;
    if width == 0 || height == 0 {
        return Err(ScaleError::DimensionMismatch);
    }
    if scale < 2 || scale > 6 {
        return Err(ScaleError::FactorOutOfRange);
    }
    let source_len = source.len();
    let dest_len = destination.len();
    let source_ok = match width.checked_mul(height) {
        Some(n) => n == source_len,
        None => false,
    };
    let dest_ok = match (width.checked_mul(scale), height.checked_mul(scale)) {
        (Some(dw), Some(dh)) => match dw.checked_mul(dh) {
            Some(n) => n == dest_len,
            None => false,
        },
        (None, _) => {
            proof {
                assert((width * scale) * (height * scale) > usize::MAX) by (nonlinear_arith)
                    requires
                        width * scale > usize::MAX,
                        height >= 1,
                        scale >= 2,
                ;
            }
            false
        },
        (_, None) => {
            proof {
                assert((width * scale) * (height * scale) > usize::MAX) by (nonlinear_arith)
                    requires
                        height * scale > usize::MAX,
                        width >= 1,
                        scale >= 2,
                ;
            }
            false
        },
    };
    if !source_ok || !dest_ok {
        return Err(ScaleError::DimensionMismatch);
    }
    if !decisions.fits(width, height) {
        return Err(ScaleError::DecisionsMismatch);
    }
    let y_first = y_range.start;
    let y_last = if y_range.end < height {
        y_range.end
    } else {
        height
    };
    if y_first >= y_last {
        return Err(ScaleError::EmptyRange);
    }
    proof {
        assert(width * 4 <= (width * scale) * (height * scale)) by (nonlinear_arith)
            requires
                width >= 1,
                height >= 1,
                scale >= 2,
        ;
        assert(height * 4 <= (width * scale) * (height * scale)) by (nonlinear_arith)
            requires
                width >= 1,
                height >= 1,
                scale >= 2,
        ;
        assert(isize::MAX as int * 2 + 1 == usize::MAX as int);
    }
    scale_rows(source, destination, width, height, scale, decisions, y_first, y_last);
    Ok(())
}

/// Enlarges the source rows `y_first .. y_last`.
fn scale_rows(
    source: &[Rgba8],
    destination: &mut Vec<Rgba8>,
    width: usize,
    height: usize,
    scale: usize,
    decisions: &Decisions,
    y_first: usize,
    y_last: usize,
)
    requires
        2 <= scale <= 6,
        width > 0,
        height > 0,
        source@.len() == width * height,
        dims_fit(width as int, height as int),
        decisions_fit(decisions.corners@, decisions.blends@, width as int, height as int),
        y_first < y_last <= height,
        old(destination)@.len() == (width * scale) * (height * scale),
    ensures
        rows_written(old(destination)@, final(destination)@, source@, width as int, height as int, scale, decisions.corners@, decisions.blends@, y_first as int, y_last as int),
{
    let ghost dest0 = destination@;
    let ghost w = width as int;
    let ghost sc = scale as int;
    let mut buf = pre_pass(source, width, height, decisions, y_first);
    let mut y = y_first;
    while y < y_last
        invariant
            2 <= scale <= 6,
            width > 0,
            height > 0,
            w == width,
            sc == scale,
            source@.len() == width * height,
            dims_fit(width as int, height as int),
            decisions_fit(decisions.corners@, decisions.blends@, width as int, height as int),
            y_first <= y <= y_last <= height,
            dest0.len() == (width * scale) * (height * scale),
            buf@.len() == width,
            forall|x: int| 0 <= x < width ==> #[trigger] buf@[x] == row_record(source@, width as int, height as int, decisions.corners@, x, y - 1),
            rows_written(dest0, destination@, source@, width as int, height as int, scale, decisions.corners@, decisions.blends@, y_first as int, y as int),
        decreases y_last - y,
    {
        let ghost prev = destination@;
        scale_row(source, destination, &mut buf, width, height, scale, decisions, y);
        proof {
            assert forall|x2: int, y2: int, i: int, j: int|
                0 <= x2 < width && 0 <= y2 < height && 0 <= i < scale && 0 <= j < scale
                    implies #[trigger] destination@[dest_index(w, sc, x2, y2, i, j)] == if y_first <= y2 < y + 1 {
                        scaled_cell(source@, w, height as int, scale, decisions.corners@, decisions.blends@, x2, y2, i, j)
                    } else {
                        dest0[dest_index(w, sc, x2, y2, i, j)]
                    } by {
                assert(prev[dest_index(w, sc, x2, y2, i, j)] == if y_first <= y2 < y {
                    scaled_cell(source@, w, height as int, scale, decisions.corners@, decisions.blends@, x2, y2, i, j)
                } else {
                    dest0[dest_index(w, sc, x2, y2, i, j)]
                });
            }
        }
        y += 1;
    }
}

} // verus!
