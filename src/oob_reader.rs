//! Reads of the source image that may fall outside of it.
use vstd::prelude::*;

use crate::kernel::Kernel4x4;
use crate::pixel::{Rgba8, zero_pixel};

verus! {

/// The source pixel at column `x`, row `y`; the zero pixel outside the image.
pub open spec fn source_pixel(src: Seq<Rgba8>, width: int, height: int, x: int, y: int) -> Rgba8 {
    if 0 <= x < width && 0 <= y < height {
        src[y * width + x]
    } else {
        zero_pixel()
    }
}

/// Whether a `width` by `height` image can be walked with signed coordinates
/// that reach two pixels beyond each edge.
pub open spec fn dims_fit(width: int, height: int) -> bool {
    width + 4 <= isize::MAX && height + 4 <= isize::MAX
}

/// Feeds the right column of the kernel for the rows `y - 1 ..= y + 2`,
/// reading the zero pixel wherever a position lies outside the image.
pub struct OobReaderTransparent<'src> {
    pub src: &'src [Rgba8],
    pub width: usize,
    pub height: usize,
    pub y: isize,
    pub src_ym1: Option<usize>,
    pub src_y: Option<usize>,
    pub src_yp1: Option<usize>,
    pub src_yp2: Option<usize>,
}

pub proof fn lemma_row_in_bounds(row: int, x: int, width: int, height: int)
    requires
        0 <= row < height,
        0 <= x < width,
    ensures
        0 <= row * width + x < width * height,
        0 <= row * width <= (height - 1) * width,
{
    assert(row * width + x < width * height) by (nonlinear_arith)
        requires
            0 <= row < height,
            0 <= x < width,
    ;
    assert(0 <= row * width <= (height - 1) * width) by (nonlinear_arith)
        requires
            0 <= row < height,
            0 <= x < width,
    ;
}

/// Where row `y` starts in the source, if it lies inside the image.
fn row_start(width: usize, height: usize, y: isize) -> (r: Option<usize>)
    requires
        width * height <= usize::MAX,
    ensures
        (0 <= y < height) == r.is_some(),
        r.is_some() ==> r.unwrap() == y * width,
{
    if 0 <= y && (y as usize) < height {
        proof {
            assert(y * width <= width * height) by (nonlinear_arith)
                requires
                    0 <= y < height,
                    width >= 0,
            ;
        }
        Some(y as usize * width)
    } else {
        None
    }
}

impl<'src> OobReaderTransparent<'src> {
    /// The source the reader reads from.
    pub open spec fn source(&self) -> Seq<Rgba8> {
        self.src@
    }

    pub open spec fn width(&self) -> int {
        self.width as int
    }

    pub open spec fn height(&self) -> int {
        self.height as int
    }

    /// The row that the kernel is centred on.
    pub open spec fn row(&self) -> int {
        self.y as int
    }

    pub open spec fn wf(&self) -> bool {
        &&& self.src@.len() == self.width * self.height
        &&& isize::MIN + 1 <= self.y as int <= isize::MAX - 2
        &&& self.row_ok(self.src_ym1, self.y - 1)
        &&& self.row_ok(self.src_y, self.y as int)
        &&& self.row_ok(self.src_yp1, self.y + 1)
        &&& self.row_ok(self.src_yp2, self.y + 2)
    }

    pub open spec fn row_ok(&self, start: Option<usize>, y: int) -> bool {
        &&& (0 <= y < self.height) == start.is_some()
        &&& start.is_some() ==> start.unwrap() == y * self.width
    }

    /// A reader for the rows around row `y` of a `width` by `height` source.
    /// The row may lie anywhere, inside the image or not; rows outside read
    /// as zero pixels.
    pub fn new(src: &'src [Rgba8], width: usize, height: usize, y: isize) -> (r: Self)
        requires
            src@.len() == width * height,
            isize::MIN + 1 <= y <= isize::MAX - 2,
        ensures
            r.wf(),
            r.source() == src@,
            r.width() == width,
            r.height() == height,
            r.row() == y,
    {
        let len = src.len();
        assert(len == width * height);
        OobReaderTransparent {
            src,
            width,
            height,
            y,
            src_ym1: row_start(width, height, y - 1),
            src_y: row_start(width, height, y),
            src_yp1: row_start(width, height, y + 1),
            src_yp2: row_start(width, height, y + 2),
        }
    }

    fn read(&self, start: Option<usize>, x: isize, Ghost(y): Ghost<int>) -> (r: Rgba8)
        requires
            self.wf(),
            self.row_ok(start, y),
        ensures
            r == source_pixel(self.source(), self.width(), self.height(), x as int, y),
    {
        match start {
            Some(s) => {
                if 0 <= x && (x as usize) < self.width {
                    let len = self.src.len();
                    proof {
                        lemma_row_in_bounds(y, x as int, self.width as int, self.height as int);
                    }
                    self.src[s + x as usize]
                } else {
                    Rgba8::zero()
                }
            },
            None => Rgba8::zero(),
        }
    }

    /// Fills the right column (`d`, `h`, `l`, `p`) of `kernel` with the
    /// pixels of column `x + 2`, leaving the other twelve as they were.
    pub fn fill_dhlp(&self, kernel: &mut Kernel4x4, x: isize)
        requires
            self.wf(),
            x <= isize::MAX - 2,
        ensures
            final(kernel).d == source_pixel(self.source(), self.width(), self.height(), x + 2, self.row() - 1),
            final(kernel).h == source_pixel(self.source(), self.width(), self.height(), x + 2, self.row()),
            final(kernel).l == source_pixel(self.source(), self.width(), self.height(), x + 2, self.row() + 1),
            final(kernel).p == source_pixel(self.source(), self.width(), self.height(), x + 2, self.row() + 2),
            final(kernel).a == old(kernel).a,
            final(kernel).b == old(kernel).b,
            final(kernel).c == old(kernel).c,
            final(kernel).e == old(kernel).e,
            final(kernel).f == old(kernel).f,
            final(kernel).g == old(kernel).g,
            final(kernel).i == old(kernel).i,
            final(kernel).j == old(kernel).j,
            final(kernel).k == old(kernel).k,
            final(kernel).m == old(kernel).m,
            final(kernel).n == old(kernel).n,
            final(kernel).o == old(kernel).o,
    {
        let x_p2 = x + 2;
        kernel.d = self.read(self.src_ym1, x_p2, Ghost(self.y - 1));
        kernel.h = self.read(self.src_y, x_p2, Ghost(self.y as int));
        kernel.l = self.read(self.src_yp1, x_p2, Ghost(self.y + 1));
        kernel.p = self.read(self.src_yp2, x_p2, Ghost(self.y + 2));
    }
}

} // verus!
