//! The 4x4 sliding kernel, its rotated 3x3 views and the corner classifier.
use vstd::prelude::*;

use crate::blend::{Blend2x2, BlendType, blend_none};
use crate::decisions::Diagonal;
use crate::oob_reader::{OobReaderTransparent, source_pixel};
use crate::pixel::{Rgba8, zero_pixel};

verus! {

/// The 4x4 neighbourhood of a source pixel:
///
/// ```text
/// A B C D
/// E F G H
/// I J K L
/// M N O P
/// ```
///
/// `F` is the centre, the pixel being enlarged.
#[derive(Clone, Copy, Debug, PartialEq, Eq, Structural)]
pub struct Kernel4x4 {
    pub a: Rgba8,
    pub b: Rgba8,
    pub c: Rgba8,
    pub d: Rgba8,
    pub e: Rgba8,
    pub f: Rgba8,
    pub g: Rgba8,
    pub h: Rgba8,
    pub i: Rgba8,
    pub j: Rgba8,
    pub k: Rgba8,
    pub l: Rgba8,
    pub m: Rgba8,
    pub n: Rgba8,
    pub o: Rgba8,
    pub p: Rgba8,
}

/// The kernel centred on column `x`, row `y` of the source.
pub open spec fn kernel_at(src: Seq<Rgba8>, width: int, height: int, x: int, y: int) -> Kernel4x4 {
    Kernel4x4 {
        a: source_pixel(src, width, height, x - 1, y - 1),
        b: source_pixel(src, width, height, x, y - 1),
        c: source_pixel(src, width, height, x + 1, y - 1),
        d: source_pixel(src, width, height, x + 2, y - 1),
        e: source_pixel(src, width, height, x - 1, y),
        f: source_pixel(src, width, height, x, y),
        g: source_pixel(src, width, height, x + 1, y),
        h: source_pixel(src, width, height, x + 2, y),
        i: source_pixel(src, width, height, x - 1, y + 1),
        j: source_pixel(src, width, height, x, y + 1),
        k: source_pixel(src, width, height, x + 1, y + 1),
        l: source_pixel(src, width, height, x + 2, y + 1),
        m: source_pixel(src, width, height, x - 1, y + 2),
        n: source_pixel(src, width, height, x, y + 2),
        o: source_pixel(src, width, height, x + 1, y + 2),
        p: source_pixel(src, width, height, x + 2, y + 2),
    }
}

impl Kernel4x4 {
    /// A kernel of zero pixels.
    pub fn zeroed() -> (r: Kernel4x4)
        ensures
            r == kernel_all(zero_pixel()),
    {
        let z = Rgba8::zero();
        Kernel4x4 { a: z, b: z, c: z, d: z, e: z, f: z, g: z, h: z, i: z, j: z, k: z, l: z, m: z, n: z, o: z, p: z }
    }

    /// The kernel at the start of the reader's row, centred on column -1.
    pub fn init_row(oob: &OobReaderTransparent) -> (r: Kernel4x4)
        requires
            oob.wf(),
        ensures
            r == kernel_at(oob.source(), oob.width(), oob.height(), -1, oob.row()),
    {
        let mut kernel = Kernel4x4::zeroed();

        oob.fill_dhlp(&mut kernel, -4);
        kernel.a = kernel.d;
        kernel.e = kernel.h;
        kernel.i = kernel.l;
        kernel.m = kernel.p;

        oob.fill_dhlp(&mut kernel, -3);
        kernel.b = kernel.d;
        kernel.f = kernel.h;
        kernel.j = kernel.l;
        kernel.n = kernel.p;

        oob.fill_dhlp(&mut kernel, -2);
        kernel.c = kernel.d;
        kernel.g = kernel.h;
        kernel.k = kernel.l;
        kernel.o = kernel.p;

        oob.fill_dhlp(&mut kernel, -1);

        kernel
    }

    /// Moves the kernel one column to the right, so that it is centred on
    /// column `x`.
    pub fn next_column(&mut self, oob: &OobReaderTransparent, x: isize)
        requires
            oob.wf(),
            x <= isize::MAX - 2,
            *old(self) == kernel_at(oob.source(), oob.width(), oob.height(), x - 1, oob.row()),
        ensures
            *final(self) == kernel_at(oob.source(), oob.width(), oob.height(), x as int, oob.row()),
    {
        self.a = self.b;
        self.e = self.f;
        self.i = self.j;
        self.m = self.n;

        self.b = self.c;
        self.f = self.g;
        self.j = self.k;
        self.n = self.o;

        self.c = self.d;
        self.g = self.h;
        self.k = self.l;
        self.o = self.p;

        oob.fill_dhlp(self, x);
    }

    /// Classifies the four corners that meet at the centre of `F G / J K`,
    /// given which diagonal the distance sums favour.
    pub fn pre_process_corners(&self, verdict: Diagonal) -> (r: Blend2x2)
        ensures
            r == corners_spec(*self, verdict),
    {
        let mut result = Blend2x2::none();

        if self.f == self.g && self.j == self.k {
            return result;
        }
        if self.f == self.j && self.g == self.k {
            return result;
        }

        match verdict {
            Diagonal::Level => {},
            Diagonal::JG { dominant } => {
                let blend_mode = if dominant {
                    BlendType::Dominant
                } else {
                    BlendType::Normal
                };
                if self.f != self.g && self.f != self.j {
                    result.top_left = blend_mode;
                }
                if self.k != self.j && self.k != self.g {
                    result.bottom_right = blend_mode;
                }
            },
            Diagonal::FK { dominant } => {
                let blend_mode = if dominant {
                    BlendType::Dominant
                } else {
                    BlendType::Normal
                };
                if self.j != self.f && self.j != self.k {
                    result.bottom_left = blend_mode;
                }
                if self.g != self.f && self.g != self.k {
                    result.top_right = blend_mode;
                }
            },
        }
        result
    }

    /// The upper-left 3x3, centred on `F`.
    pub fn as_3x3(&self) -> (r: Kernel3x3)
        ensures
            r == as_3x3_spec(*self),
    {
        Kernel3x3 {
            a: self.a,
            b: self.b,
            c: self.c,
            d: self.e,
            e: self.f,
            f: self.g,
            g: self.i,
            h: self.j,
            i: self.k,
        }
    }
}

/// The blending class that a verdict's strength gives.
pub open spec fn strength(dominant: bool) -> BlendType {
    if dominant {
        BlendType::Dominant
    } else {
        BlendType::Normal
    }
}

/// The corner classes of the centre 2x2 (`F G / J K`): `top_left` is the
/// corner of `F`, `top_right` of `G`, `bottom_left` of `J`, `bottom_right`
/// of `K`, all at the point where the four meet.
pub open spec fn corners_spec(k: Kernel4x4, verdict: Diagonal) -> Blend2x2 {
    if (k.f == k.g && k.j == k.k) || (k.f == k.j && k.g == k.k) {
        blend_none()
    } else {
        match verdict {
            Diagonal::Level => blend_none(),
            Diagonal::JG { dominant } => Blend2x2 {
                top_left: if k.f != k.g && k.f != k.j { strength(dominant) } else { BlendType::NoBlend },
                top_right: BlendType::NoBlend,
                bottom_left: BlendType::NoBlend,
                bottom_right: if k.k != k.j && k.k != k.g { strength(dominant) } else { BlendType::NoBlend },
            },
            Diagonal::FK { dominant } => Blend2x2 {
                top_left: BlendType::NoBlend,
                top_right: if k.g != k.f && k.g != k.k { strength(dominant) } else { BlendType::NoBlend },
                bottom_left: if k.j != k.f && k.j != k.k { strength(dominant) } else { BlendType::NoBlend },
                bottom_right: BlendType::NoBlend,
            },
        }
    }
}

/// A 3x3 block of pixels, `e` the centre:
///
/// ```text
/// a b c
/// d e f
/// g h i
/// ```
#[derive(Clone, Copy, Debug, PartialEq, Eq, Structural)]
pub struct Kernel3x3 {
    pub a: Rgba8,
    pub b: Rgba8,
    pub c: Rgba8,
    pub d: Rgba8,
    pub e: Rgba8,
    pub f: Rgba8,
    pub g: Rgba8,
    pub h: Rgba8,
    pub i: Rgba8,
}

/// The upper-left 3x3 of a 4x4 kernel, centred on `F`.
pub open spec fn as_3x3_spec(k: Kernel4x4) -> Kernel3x3 {
    Kernel3x3 { a: k.a, b: k.b, c: k.c, d: k.e, e: k.f, f: k.g, g: k.i, h: k.j, i: k.k }
}

/// The 3x3 block as seen after turning it clockwise by `rot`: each position
/// shows the pixel that the turn brings there.
pub open spec fn rotated_3x3(k: Kernel3x3, rot: Rotation) -> Kernel3x3 {
    match rot {
        Rotation::Identity => k,
        Rotation::Clockwise90 => Kernel3x3 {
            a: k.g, b: k.d, c: k.a, d: k.h, e: k.e, f: k.b, g: k.i, h: k.f, i: k.c,
        },
        Rotation::Clockwise180 => Kernel3x3 {
            a: k.i, b: k.h, c: k.g, d: k.f, e: k.e, f: k.d, g: k.c, h: k.b, i: k.a,
        },
        Rotation::Clockwise270 => Kernel3x3 {
            a: k.c, b: k.f, c: k.i, d: k.b, e: k.e, f: k.h, g: k.a, h: k.d, i: k.g,
        },
    }
}

/// The centre 3x3 of a kernel, turned by a fixed rotation.
pub struct RotKernel3x3 {
    pub kernel: Kernel3x3,
    pub rotation: Rotation,
}

impl RotKernel3x3 {
    /// The view of `kernel` turned by `rotation`.
    pub fn new(kernel: &Kernel4x4, rotation: Rotation) -> (r: RotKernel3x3)
        ensures
            r.view() == rotated_3x3(as_3x3_spec(*kernel), rotation),
            r.rotation == rotation,
    {
        RotKernel3x3 { kernel: kernel.as_3x3(), rotation }
    }

    /// What the view shows.
    pub open spec fn view(&self) -> Kernel3x3 {
        rotated_3x3(self.kernel, self.rotation)
    }

    pub fn b(&self) -> (r: Rgba8)
        ensures
            r == self.view().b,
    {
        match self.rotation {
            Rotation::Identity => self.kernel.b,
            Rotation::Clockwise90 => self.kernel.d,
            Rotation::Clockwise180 => self.kernel.h,
            Rotation::Clockwise270 => self.kernel.f,
        }
    }

    pub fn c(&self) -> (r: Rgba8)
        ensures
            r == self.view().c,
    {
        match self.rotation {
            Rotation::Identity => self.kernel.c,
            Rotation::Clockwise90 => self.kernel.a,
            Rotation::Clockwise180 => self.kernel.g,
            Rotation::Clockwise270 => self.kernel.i,
        }
    }

    pub fn d(&self) -> (r: Rgba8)
        ensures
            r == self.view().d,
    {
        match self.rotation {
            Rotation::Identity => self.kernel.d,
            Rotation::Clockwise90 => self.kernel.h,
            Rotation::Clockwise180 => self.kernel.f,
            Rotation::Clockwise270 => self.kernel.b,
        }
    }

    pub fn e(&self) -> (r: Rgba8)
        ensures
            r == self.view().e,
    {
        self.kernel.e
    }

    pub fn f(&self) -> (r: Rgba8)
        ensures
            r == self.view().f,
    {
        match self.rotation {
            Rotation::Identity => self.kernel.f,
            Rotation::Clockwise90 => self.kernel.b,
            Rotation::Clockwise180 => self.kernel.d,
            Rotation::Clockwise270 => self.kernel.h,
        }
    }

    pub fn g(&self) -> (r: Rgba8)
        ensures
            r == self.view().g,
    {
        match self.rotation {
            Rotation::Identity => self.kernel.g,
            Rotation::Clockwise90 => self.kernel.i,
            Rotation::Clockwise180 => self.kernel.c,
            Rotation::Clockwise270 => self.kernel.a,
        }
    }

    pub fn h(&self) -> (r: Rgba8)
        ensures
            r == self.view().h,
    {
        match self.rotation {
            Rotation::Identity => self.kernel.h,
            Rotation::Clockwise90 => self.kernel.f,
            Rotation::Clockwise180 => self.kernel.b,
            Rotation::Clockwise270 => self.kernel.d,
        }
    }

    pub fn i(&self) -> (r: Rgba8)
        ensures
            r == self.view().i,
    {
        match self.rotation {
            Rotation::Identity => self.kernel.i,
            Rotation::Clockwise90 => self.kernel.c,
            Rotation::Clockwise180 => self.kernel.a,
            Rotation::Clockwise270 => self.kernel.g,
        }
    }
}

/// A kernel of sixteen identical pixels asks for no blending at any corner,
/// whatever the distance sums say.
pub proof fn lemma_uniform_kernel_no_blend(c: Rgba8, verdict: Diagonal)
    ensures
        corners_spec(kernel_all(c), verdict) == blend_none(),
{
}

/// A kernel whose sixteen pixels are all `c`.
pub open spec fn kernel_all(c: Rgba8) -> Kernel4x4 {
    Kernel4x4 { a: c, b: c, c: c, d: c, e: c, f: c, g: c, h: c, i: c, j: c, k: c, l: c, m: c, n: c, o: c, p: c }
}

/// A turn of a square by a multiple of 90 degrees, clockwise.
#[derive(Clone, Copy, Debug, PartialEq, Eq, Structural)]
pub enum Rotation {
    Identity,
    Clockwise90,
    Clockwise180,
    Clockwise270,
}

/// A quarter turn less.
pub open spec fn rotate_ccw_spec(rot: Rotation) -> Rotation {
    match rot {
        Rotation::Identity => Rotation::Clockwise270,
        Rotation::Clockwise90 => Rotation::Identity,
        Rotation::Clockwise180 => Rotation::Clockwise90,
        Rotation::Clockwise270 => Rotation::Clockwise180,
    }
}

impl Rotation {
    /// The rotation of `value` quarter turns.
    pub fn from_u8(value: u8) -> (r: Rotation)
        requires
            value <= 3,
        ensures
            value == 0 ==> r == Rotation::Identity,
            value == 1 ==> r == Rotation::Clockwise90,
            value == 2 ==> r == Rotation::Clockwise180,
            value == 3 ==> r == Rotation::Clockwise270,
    {
        if value == 0 {
            Rotation::Identity
        } else if value == 1 {
            Rotation::Clockwise90
        } else if value == 2 {
            Rotation::Clockwise180
        } else {
            Rotation::Clockwise270
        }
    }

    /// Whether this is no turn at all.
    pub fn is_none(self) -> (r: bool)
        ensures
            r == (self == Rotation::Identity),
    {
        matches!(self, Rotation::Identity)
    }

    /// A quarter turn less.
    pub fn rotate_ccw(self) -> (r: Rotation)
        ensures
            r == rotate_ccw_spec(self),
    {
        match self {
            Rotation::Identity => Rotation::Clockwise270,
            Rotation::Clockwise90 => Rotation::Identity,
            Rotation::Clockwise180 => Rotation::Clockwise90,
            Rotation::Clockwise270 => Rotation::Clockwise180,
        }
    }
}

} // verus!
