//! The outcomes of the colour-distance comparisons that steer the engine.
//!
//! The perceptual distance is a floating-point quantity; what the engine
//! needs of it is a handful of comparisons per position. Those outcomes are
//! handed to the engine here, as plain values, one record per position.
use vstd::prelude::*;

use crate::kernel::{Kernel4x4, kernel_at};
use crate::oob_reader::{OobReaderTransparent, dims_fit};
use crate::pixel::Rgba8;

verus! {

/// Which diagonal of the centre 2x2 (`F G / J K`) the weighted distance sums
/// favour. With `jg = d(I,F) + d(F,C) + d(N,K) + d(K,H) + bias * d(J,G)` and
/// `fk = d(E,J) + d(J,O) + d(B,G) + d(G,L) + bias * d(F,K)`:
#[derive(Clone, Copy, Debug, PartialEq, Eq, Structural)]
pub enum Diagonal {
    /// `jg == fk`.
    Level,
    /// `jg < fk`; `dominant` when `threshold * jg < fk`.
    JG { dominant: bool },
    /// `fk < jg`; `dominant` when `threshold * fk < jg`.
    FK { dominant: bool },
}

/// The colour comparisons that the blender makes on one rotated 3x3 view
/// (`a b c / d e f / g h i`, `e` the centre). `eq_xy` is `d(x, y) < tolerance`.
#[derive(Clone, Copy, Debug, PartialEq, Eq, Structural)]
pub struct BlendTests {
    pub eq_eg: bool,
    pub eq_ec: bool,
    pub eq_ei: bool,
    pub eq_gh: bool,
    pub eq_hi: bool,
    pub eq_if: bool,
    pub eq_fc: bool,
    pub eq_dg: bool,
    pub eq_bc: bool,
    /// `d(e, f) <= d(e, h)`.
    pub f_closer: bool,
    /// `steep_threshold * d(f, g) <= d(h, c)`.
    pub shallow_ratio: bool,
    /// `steep_threshold * d(h, c) <= d(f, g)`.
    pub steep_ratio: bool,
}

/// The comparison outcomes for a whole `width` by `height` image.
///
/// `corners` holds one [`Diagonal`] for every kernel centre `(x, y)` with
/// `-1 <= x < width` and `-1 <= y < height`, row by row, at index
/// `(y + 1) * (width + 1) + (x + 1)`. `blends` holds, for every pixel
/// `(x, y)` of the image and every rotation `r` (in quarter turns), the
/// [`BlendTests`] of that rotated view at index `(y * width + x) * 4 + r`.
#[derive(Debug)]
pub struct Decisions {
    pub corners: Vec<Diagonal>,
    pub blends: Vec<BlendTests>,
}

/// Whether the outcomes cover a `width` by `height` image.
pub open spec fn decisions_fit(corners: Seq<Diagonal>, blends: Seq<BlendTests>, width: int, height: int) -> bool {
    &&& corners.len() == (width + 1) * (height + 1)
    &&& blends.len() == width * height * 4
}

/// The diagonal verdict for the kernel centred on `(x, y)`.
pub open spec fn diagonal_at(corners: Seq<Diagonal>, width: int, x: int, y: int) -> Diagonal {
    corners[(y + 1) * (width + 1) + (x + 1)]
}

/// The blend comparisons for pixel `(x, y)` under `r` quarter turns.
pub open spec fn tests_at(blends: Seq<BlendTests>, width: int, x: int, y: int, r: int) -> BlendTests {
    blends[(y * width + x) * 4 + r]
}

impl Decisions {
    /// Whether the outcomes cover a `width` by `height` image.
    pub fn fits(&self, width: usize, height: usize) -> (r: bool)
        ensures
            r == decisions_fit(self.corners@, self.blends@, width as int, height as int),
    {
        let have_corners = self.corners.len();
        let have_blends = self.blends.len();
        if width == usize::MAX || height == usize::MAX {
            proof {
                assert((width + 1) * (height + 1) > usize::MAX) by (nonlinear_arith)
                    requires
                        width == usize::MAX || height == usize::MAX,
                ;
            }
            return false;
        }
        let corners_ok = match (width + 1).checked_mul(height + 1) {
            Some(c) => c == have_corners,
            None => false,
        };
        let blends_ok = match width.checked_mul(height) {
            Some(wh) => match wh.checked_mul(4) {
                Some(b) => b == have_blends,
                None => false,
            },
            None => {
                proof {
                    assert(width * height * 4 > usize::MAX) by (nonlinear_arith)
                        requires
                            width * height > usize::MAX,
                    ;
                }
                false
            },
        };
        corners_ok && blends_ok
    }
}

proof fn lemma_index_below(a: int, b: int, n: int, rows: int)
    requires
        0 <= a < rows,
        0 <= b < n,
    ensures
        0 <= a * n + b < rows * n,
        a * n + b < (a + 1) * n,
{
    assert(0 <= a * n + b < rows * n) by (nonlinear_arith)
        requires
            0 <= a < rows,
            0 <= b < n,
    ;
    assert(a * n + b < (a + 1) * n) by (nonlinear_arith)
        requires
            0 <= b < n,
    ;
}

/// The kernel of every position that [`Decisions::corners`] describes, in
/// the same order: for `-1 <= y < height` and `-1 <= x < width`, the kernel
/// centred on `(x, y)` is at index `(y + 1) * (width + 1) + (x + 1)`.
pub fn corner_kernels(source: &[Rgba8], width: usize, height: usize) -> (r: Vec<Kernel4x4>)
    requires
        source@.len() == width * height,
        dims_fit(width as int, height as int),
        (width + 1) * (height + 1) <= usize::MAX,
    ensures
        r@.len() == (width + 1) * (height + 1),
        forall|x: int, y: int| -1 <= x < width && -1 <= y < height
            ==> #[trigger] r@[(y + 1) * (width + 1) + (x + 1)] == kernel_at(source@, width as int, height as int, x, y),
{
    let ghost w = width as int;
    let ghost h = height as int;
    let mut out: Vec<Kernel4x4> = Vec::new();
    let mut row: usize = 0;
    while row <= height
        invariant
            w == width,
            h == height,
            source@.len() == width * height,
            dims_fit(w, h),
            (width + 1) * (height + 1) <= usize::MAX,
            row <= height + 1,
            out@.len() == row * (width + 1),
            forall|x: int, y: int| -1 <= x < width && -1 <= y < row - 1
                ==> #[trigger] out@[(y + 1) * (width + 1) + (x + 1)] == kernel_at(source@, w, h, x, y),
        decreases height + 1 - row,
    {
        let y = row as isize - 1;
        let oob = OobReaderTransparent::new(source, width, height, y);
        let mut kernel = Kernel4x4::init_row(&oob);
        let ghost base = row * (width + 1);
        proof {
            assert(base + width + 1 == (row + 1) * (width + 1)) by (nonlinear_arith)
                requires
                    base == row * (width + 1),
            ;
            assert(row * (width + 1) + width + 1 <= (width + 1) * (height + 1)) by (nonlinear_arith)
                requires
                    row <= height,
            ;
        }
        let ghost before_row = out@;
        out.push(kernel);
        proof {
            assert forall|x2: int, y2: int| -1 <= x2 < width && -1 <= y2 < row - 1
                implies #[trigger] out@[(y2 + 1) * (width + 1) + (x2 + 1)] == kernel_at(source@, w, h, x2, y2) by {
                lemma_index_below(y2 + 1, x2 + 1, w + 1, row as int);
                assert(before_row[(y2 + 1) * (width + 1) + (x2 + 1)] == kernel_at(source@, w, h, x2, y2));
            }
        }
        let mut x: usize = 0;
        while x < width
            invariant
                w == width,
                h == height,
                oob.wf(),
                oob.source() == source@,
                oob.width() == w,
                oob.height() == h,
                oob.row() == y,
                y == row - 1,
                dims_fit(w, h),
                row <= height,
                base == row * (width + 1),
                base + width + 1 <= usize::MAX,
                x <= width,
                kernel == kernel_at(source@, w, h, x - 1, y as int),
                out@.len() == base + x + 1,
                forall|x2: int, y2: int| -1 <= x2 < width && -1 <= y2 < row - 1
                    ==> #[trigger] out@[(y2 + 1) * (width + 1) + (x2 + 1)] == kernel_at(source@, w, h, x2, y2),
                forall|x2: int| -1 <= x2 < x ==> #[trigger] out@[base + (x2 + 1)] == kernel_at(source@, w, h, x2, y as int),
            decreases width - x,
        {
            kernel.next_column(&oob, x as isize);
            let ghost prev = out@;
            out.push(kernel);
            proof {
                assert forall|x2: int, y2: int| -1 <= x2 < width && -1 <= y2 < row - 1
                    implies #[trigger] out@[(y2 + 1) * (width + 1) + (x2 + 1)] == kernel_at(source@, w, h, x2, y2) by {
                    lemma_index_below(y2 + 1, x2 + 1, w + 1, row as int);
                    assert(prev[(y2 + 1) * (width + 1) + (x2 + 1)] == kernel_at(source@, w, h, x2, y2));
                }
            }
            x += 1;
        }
        proof {
            assert forall|x2: int, y2: int| -1 <= x2 < width && -1 <= y2 < row
                implies #[trigger] out@[(y2 + 1) * (width + 1) + (x2 + 1)] == kernel_at(source@, w, h, x2, y2) by {
                if y2 == row - 1 {
                    assert((y2 + 1) * (width + 1) == base);
                    assert(out@[base + (x2 + 1)] == kernel_at(source@, w, h, x2, y as int));
                }
            }
        }
        row += 1;
    }
    assert(row * (width + 1) == (width + 1) * (height + 1)) by (nonlinear_arith)
        requires
            row == height + 1,
    ;
    out
}

/// The kernel of every pixel, in the order of [`Decisions::blends`]: the
/// kernel centred on `(x, y)` is at index `y * width + x`; its four rotated
/// views, in quarter turns 0 to 3, give the four records at
/// `(y * width + x) * 4 ..`.
pub fn pixel_kernels(source: &[Rgba8], width: usize, height: usize) -> (r: Vec<Kernel4x4>)
    requires
        source@.len() == width * height,
        dims_fit(width as int, height as int),
    ensures
        r@.len() == width * height,
        forall|x: int, y: int| 0 <= x < width && 0 <= y < height
            ==> #[trigger] r@[y * width + x] == kernel_at(source@, width as int, height as int, x, y),
{
    let ghost w = width as int;
    let ghost h = height as int;
    let len = source.len();
    let mut out: Vec<Kernel4x4> = Vec::new();
    let mut row: usize = 0;
    while row < height
        invariant
            w == width,
            h == height,
            len == source@.len(),
            source@.len() == width * height,
            dims_fit(w, h),
            row <= height,
            out@.len() == row * width,
            forall|x: int, y: int| 0 <= x < width && 0 <= y < row
                ==> #[trigger] out@[y * width + x] == kernel_at(source@, w, h, x, y),
        decreases height - row,
    {
        let y = row as isize;
        let oob = OobReaderTransparent::new(source, width, height, y);
        let mut kernel = Kernel4x4::init_row(&oob);
        let ghost base = row * width;
        proof {
            assert(base + width == (row + 1) * width) by (nonlinear_arith)
                requires
                    base == row * width,
            ;
        }
        let mut x: usize = 0;
        while x < width
            invariant
                w == width,
                h == height,
                oob.wf(),
                oob.source() == source@,
                oob.width() == w,
                oob.height() == h,
                oob.row() == y,
                y == row,
                row < height,
                dims_fit(w, h),
                base == row * width,
                x <= width,
                kernel == kernel_at(source@, w, h, x - 1, y as int),
                out@.len() == base + x,
                forall|x2: int, y2: int| 0 <= x2 < width && 0 <= y2 < row
                    ==> #[trigger] out@[y2 * width + x2] == kernel_at(source@, w, h, x2, y2),
                forall|x2: int| 0 <= x2 < x ==> #[trigger] out@[base + x2] == kernel_at(source@, w, h, x2, y as int),
            decreases width - x,
        {
            kernel.next_column(&oob, x as isize);
            let ghost prev = out@;
            out.push(kernel);
            proof {
                assert forall|x2: int, y2: int| 0 <= x2 < width && 0 <= y2 < row
                    implies #[trigger] out@[y2 * width + x2] == kernel_at(source@, w, h, x2, y2) by {
                    lemma_index_below(y2, x2, w, row as int);
                    assert(prev[y2 * width + x2] == kernel_at(source@, w, h, x2, y2));
                }
            }
            x += 1;
        }
        proof {
            assert forall|x2: int, y2: int| 0 <= x2 < width && 0 <= y2 < row + 1
                implies #[trigger] out@[y2 * width + x2] == kernel_at(source@, w, h, x2, y2) by {
                if y2 == row {
                    assert(out@[base + x2] == kernel_at(source@, w, h, x2, y as int));
                }
            }
        }
        row += 1;
    }
    assert(row * width == width * height) by (nonlinear_arith)
        requires
            row == height,
    ;
    out
}

} // verus!
