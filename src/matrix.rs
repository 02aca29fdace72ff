//! A rotated square window onto the enlarged block of one pixel.
use vstd::prelude::*;

use crate::kernel::{Rotation, rotate_ccw_spec};
use crate::pixel::{Rgba8, gradient, gradient_spec};

verus! {

/// Where cell `(i, j)` (row, column) of an `n` by `n` square lands when the
/// square is turned by `rot`: each quarter turn maps `(i, j)` to
/// `(n - 1 - j, i)`.
pub open spec fn rotate_index_spec(i: int, j: int, n: int, rot: Rotation) -> (int, int)
    decreases rotation_steps(rot),
{
    if rot == Rotation::Identity {
        (i, j)
    } else {
        rotate_index_spec(n - 1 - j, i, n, rotate_ccw_spec(rot))
    }
}

/// How many quarter turns `rot` is.
pub open spec fn rotation_steps(rot: Rotation) -> nat {
    match rot {
        Rotation::Identity => 0,
        Rotation::Clockwise90 => 1,
        Rotation::Clockwise180 => 2,
        Rotation::Clockwise270 => 3,
    }
}

/// A turned cell stays inside the square.
pub proof fn lemma_rotate_index_bounds(i: int, j: int, n: int, rot: Rotation)
    requires
        0 <= i < n,
        0 <= j < n,
    ensures
        0 <= rotate_index_spec(i, j, n, rot).0 < n,
        0 <= rotate_index_spec(i, j, n, rot).1 < n,
    decreases rotation_steps(rot),
{
    if rot != Rotation::Identity {
        lemma_rotate_index_bounds(n - 1 - j, i, n, rotate_ccw_spec(rot));
    }
}

/// The turn that undoes `rot`.
pub open spec fn inverse_rotation(rot: Rotation) -> Rotation {
    match rot {
        Rotation::Identity => Rotation::Identity,
        Rotation::Clockwise90 => Rotation::Clockwise270,
        Rotation::Clockwise180 => Rotation::Clockwise180,
        Rotation::Clockwise270 => Rotation::Clockwise90,
    }
}

/// The turned cell in closed form.
pub proof fn lemma_rotate_index_closed(i: int, j: int, n: int, rot: Rotation)
    ensures
        rotate_index_spec(i, j, n, rot) == match rot {
            Rotation::Identity => (i, j),
            Rotation::Clockwise90 => (n - 1 - j, i),
            Rotation::Clockwise180 => (n - 1 - i, n - 1 - j),
            Rotation::Clockwise270 => (j, n - 1 - i),
        },
{
    assert(rotate_index_spec(n - 1 - j, i, n, Rotation::Identity) == (n - 1 - j, i));
    assert(rotate_index_spec(n - 1 - i, n - 1 - j, n, Rotation::Identity) == (n - 1 - i, n - 1 - j));
    assert(rotate_index_spec(n - 1 - j, i, n, Rotation::Clockwise90) == rotate_index_spec(n - 1 - i, n - 1 - j, n, Rotation::Identity));
    assert(rotate_index_spec(j, n - 1 - i, n, Rotation::Identity) == (j, n - 1 - i));
    assert(rotate_index_spec(n - 1 - i, n - 1 - j, n, Rotation::Clockwise90) == rotate_index_spec(j, n - 1 - i, n, Rotation::Identity));
    assert(rotate_index_spec(n - 1 - j, i, n, Rotation::Clockwise180) == rotate_index_spec(n - 1 - i, n - 1 - j, n, Rotation::Clockwise90));
}

/// For every size `n` and every rotation, turning the cells of an `n` by `n`
/// square is a permutation of the square: each cell lands inside it, two
/// cells never land on the same place, and every place is reached (from the
/// cell that the inverse turn gives).
pub proof fn lemma_rotation_bijective(n: int, rot: Rotation)
    requires
        n > 0,
    ensures
        forall|i: int, j: int| 0 <= i < n && 0 <= j < n ==> {
            let p = #[trigger] rotate_index_spec(i, j, n, rot);
            0 <= p.0 < n && 0 <= p.1 < n
        },
        forall|i1: int, j1: int, i2: int, j2: int|
            0 <= i1 < n && 0 <= j1 < n && 0 <= i2 < n && 0 <= j2 < n
                && #[trigger] rotate_index_spec(i1, j1, n, rot) == #[trigger] rotate_index_spec(i2, j2, n, rot)
                ==> i1 == i2 && j1 == j2,
        forall|p: int, q: int| 0 <= p < n && 0 <= q < n ==> {
            let c = #[trigger] rotate_index_spec(p, q, n, inverse_rotation(rot));
            &&& 0 <= c.0 < n
            &&& 0 <= c.1 < n
            &&& rotate_index_spec(c.0, c.1, n, rot) == (p, q)
        },
{
    assert forall|i: int, j: int| 0 <= i < n && 0 <= j < n implies {
        let p = #[trigger] rotate_index_spec(i, j, n, rot);
        0 <= p.0 < n && 0 <= p.1 < n
    } by {
        lemma_rotate_index_bounds(i, j, n, rot);
    }
    assert forall|i1: int, j1: int, i2: int, j2: int|
        0 <= i1 < n && 0 <= j1 < n && 0 <= i2 < n && 0 <= j2 < n
            && #[trigger] rotate_index_spec(i1, j1, n, rot) == #[trigger] rotate_index_spec(i2, j2, n, rot)
            implies i1 == i2 && j1 == j2 by {
        lemma_rotate_index_closed(i1, j1, n, rot);
        lemma_rotate_index_closed(i2, j2, n, rot);
    }
    assert forall|p: int, q: int| 0 <= p < n && 0 <= q < n implies {
        let c = #[trigger] rotate_index_spec(p, q, n, inverse_rotation(rot));
        &&& 0 <= c.0 < n
        &&& 0 <= c.1 < n
        &&& rotate_index_spec(c.0, c.1, n, rot) == (p, q)
    } by {
        let c = rotate_index_spec(p, q, n, inverse_rotation(rot));
        lemma_rotate_index_closed(p, q, n, inverse_rotation(rot));
        lemma_rotate_index_closed(c.0, c.1, n, rot);
    }
}

/// Cell `(i, j)` of an `n` by `n` square, turned by `rot`.
pub fn rotate_index(i: usize, j: usize, n: usize, rot: Rotation) -> (r: (usize, usize))
    requires
        i < n,
        j < n,
    ensures
        r.0 as int == rotate_index_spec(i as int, j as int, n as int, rot).0,
        r.1 as int == rotate_index_spec(i as int, j as int, n as int, rot).1,
        r.0 < n,
        r.1 < n,
    decreases rotation_steps(rot),
{
    if rot.is_none() {
        (i, j)
    } else {
        rotate_index(n - 1 - j, i, n, rot.rotate_ccw())
    }
}

/// One write into the enlarged block: a blend of the paint colour into a
/// cell at the ratio `num/den`, or an overwrite of the cell.
#[derive(Clone, Copy, Debug, PartialEq, Eq, Structural)]
pub enum Paint {
    Mix { row: usize, col: usize, num: u32, den: u32 },
    Put { row: usize, col: usize },
}

pub open spec fn mix_at(row: usize, col: usize, num: u32, den: u32) -> Paint {
    Paint::Mix { row, col, num, den }
}

pub open spec fn put_at(row: usize, col: usize) -> Paint {
    Paint::Put { row, col }
}

/// A blend of the paint colour into cell `(row, col)` at `num/den`.
pub fn mix(row: usize, col: usize, num: u32, den: u32) -> (r: Paint)
    ensures
        r == mix_at(row, col, num, den),
{
    Paint::Mix { row, col, num, den }
}

/// An overwrite of cell `(row, col)` with the paint colour.
pub fn put(row: usize, col: usize) -> (r: Paint)
    ensures
        r == put_at(row, col),
{
    Paint::Put { row, col }
}

/// Whether a write lies in a `scale` by `scale` square and, for a blend,
/// has a ratio strictly between 0 and 1 with a denominator of at most 1000.
pub open spec fn paint_ok(op: Paint, scale: int) -> bool {
    match op {
        Paint::Mix { row, col, num, den } => row < scale && col < scale && 0 < num < den <= 1000,
        Paint::Put { row, col } => row < scale && col < scale,
    }
}

/// Where cell `(i, j)` of the turned window lies in the underlying buffer.
pub open spec fn cell_index(out_width: int, scale: int, rot: Rotation, i: int, j: int) -> int {
    let p = rotate_index_spec(i, j, scale, rot);
    p.1 + p.0 * out_width
}

/// The buffer after one write; a write that is not `paint_ok` changes nothing.
pub open spec fn paint_one(cells: Seq<Rgba8>, out_width: int, scale: int, rot: Rotation, op: Paint, colour: Rgba8) -> Seq<Rgba8> {
    if !paint_ok(op, scale) {
        cells
    } else {
        match op {
            Paint::Mix { row, col, num, den } => {
                let idx = cell_index(out_width, scale, rot, row as int, col as int);
                cells.update(idx, gradient_spec(colour, cells[idx], num as int, den as int))
            },
            Paint::Put { row, col } => {
                cells.update(cell_index(out_width, scale, rot, row as int, col as int), colour)
            },
        }
    }
}

/// The buffer after the writes `ops`, first to last.
pub open spec fn paint_all(cells: Seq<Rgba8>, out_width: int, scale: int, rot: Rotation, ops: Seq<Paint>, colour: Rgba8) -> Seq<Rgba8>
    decreases ops.len(),
{
    if ops.len() == 0 {
        cells
    } else {
        paint_one(paint_all(cells, out_width, scale, rot, ops.drop_last(), colour), out_width, scale, rot, ops.last(), colour)
    }
}

/// Blends `pix_front` into `pix_back` at the ratio `m/n`.
pub fn alpha_grad(pix_back: &mut Rgba8, pix_front: Rgba8, m: u32, n: u32)
    requires
        0 < m < n <= 1000,
    ensures
        *final(pix_back) == gradient_spec(pix_front, *old(pix_back), m as int, n as int),
{
    *pix_back = gradient(pix_front, *pix_back, m, n);
}

/// A `scale` by `scale` window, turned by `rotation`, onto a buffer whose
/// rows are `out_width` cells long.
pub struct OutputMatrix {
    pub inner: Vec<Rgba8>,
    pub out_width: usize,
    pub scale: usize,
    pub rotation: Rotation,
}

impl OutputMatrix {
    pub open spec fn wf(&self) -> bool {
        &&& 0 < self.scale <= self.out_width
        &&& (self.scale - 1) * self.out_width + self.scale <= self.inner@.len()
    }

    /// A window onto `inner`.
    pub fn new(inner: Vec<Rgba8>, out_width: usize, scale: usize, rotation: Rotation) -> (r: OutputMatrix)
        requires
            0 < scale <= out_width,
            (scale - 1) * out_width + scale <= inner@.len(),
        ensures
            r.wf(),
            r.inner == inner,
            r.out_width == out_width,
            r.scale == scale,
            r.rotation == rotation,
    {
        OutputMatrix { inner, out_width, scale, rotation }
    }

    /// Where the window's cell `(i, j)` lies, as a row and a column of the
    /// buffer.
    pub fn rotated_index(&self, i: usize, j: usize) -> (r: (usize, usize))
        requires
            self.wf(),
            i < self.scale,
            j < self.scale,
        ensures
            r.0 == rotate_index_spec(i as int, j as int, self.scale as int, self.rotation).0,
            r.1 == rotate_index_spec(i as int, j as int, self.scale as int, self.rotation).1,
            r.0 < self.scale,
            r.1 < self.scale,
    {
        rotate_index(i, j, self.scale, self.rotation)
    }

    /// The buffer cell under the window's cell `(i, j)`.
    pub fn rotated_ref(&mut self, i: usize, j: usize) -> (r: &mut Rgba8)
        requires
            old(self).wf(),
            i < old(self).scale,
            j < old(self).scale,
        ensures
            *r == old(self).inner@[cell_index(old(self).out_width as int, old(self).scale as int, old(self).rotation, i as int, j as int)],
            final(self).inner@ == old(self).inner@.update(
                cell_index(old(self).out_width as int, old(self).scale as int, old(self).rotation, i as int, j as int),
                *final(r),
            ),
            final(self).out_width == old(self).out_width,
            final(self).scale == old(self).scale,
            final(self).rotation == old(self).rotation,
            0 <= cell_index(old(self).out_width as int, old(self).scale as int, old(self).rotation, i as int, j as int) < old(self).inner@.len(),
    {
        let (ri, rj) = self.rotated_index(i, j);
        let len = self.inner.len();
        proof {
            assert(rj + ri * self.out_width < (self.scale - 1) * self.out_width + self.scale) by (nonlinear_arith)
                requires
                    ri < self.scale,
                    rj < self.scale <= self.out_width,
            ;
        }
        &mut self.inner[rj + ri * self.out_width]
    }

    /// Applies one write with the paint colour `colour`.
    pub fn paint(&mut self, op: Paint, colour: Rgba8)
        requires
            old(self).wf(),
        ensures
            final(self).wf(),
            final(self).inner@ == paint_one(old(self).inner@, old(self).out_width as int, old(self).scale as int, old(self).rotation, op, colour),
            final(self).inner@.len() == old(self).inner@.len(),
            final(self).out_width == old(self).out_width,
            final(self).scale == old(self).scale,
            final(self).rotation == old(self).rotation,
    {
        match op {
            Paint::Mix { row, col, num, den } => {
                if row < self.scale && col < self.scale && 0 < num && num < den && den <= 1000 {
                    alpha_grad(self.rotated_ref(row, col), colour, num, den);
                }
            },
            Paint::Put { row, col } => {
                if row < self.scale && col < self.scale {
                    *self.rotated_ref(row, col) = colour;
                }
            },
        }
    }

    /// The underlying buffer.
    pub fn into_inner(self) -> (r: Vec<Rgba8>)
        ensures
            r == self.inner,
    {
        self.inner
    }
}

} // verus!
