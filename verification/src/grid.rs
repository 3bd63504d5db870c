//! The grid: its three fields, their sizes and the way samples are found.

use crate::arithmetic::Arithmetic;
use crate::layout::{
    clamp, col_of, lemma_coords_round_trip, lemma_flat_in_range, on_lattice, p_index, row_of,
    u_index, v_index,
};
use vstd::prelude::*;

verus! {

/// Relaxation sweeps that a new grid makes in each pressure solve.
pub const DEFAULT_SWEEPS: usize = 50;

/// What a grid is: its dimensions and the samples of its three fields.
pub struct GridView<T> {
    /// Cells in a row.
    pub nx: int,
    /// Rows of cells.
    pub ny: int,
    /// Width and height of a cell.
    pub dx: T,
    /// Relaxation sweeps in each pressure solve.
    pub sweeps: int,
    /// Pressure, one sample for each cell, row after row.
    pub p: Seq<T>,
    /// Horizontal velocity, one sample for each vertical face.
    pub u: Seq<T>,
    /// Vertical velocity, one sample for each horizontal face.
    pub v: Seq<T>,
}

impl<T> GridView<T> {
    /// The dimensions are positive and each field has the size they give it.
    pub open spec fn wf(self) -> bool {
        &&& 0 < self.nx
        &&& 0 < self.ny
        &&& (self.nx + 1) * self.ny <= usize::MAX
        &&& self.nx * (self.ny + 1) <= usize::MAX
        &&& 0 <= self.sweeps <= usize::MAX
        &&& self.p.len() == self.nx * self.ny
        &&& self.u.len() == (self.nx + 1) * self.ny
        &&& self.v.len() == self.nx * (self.ny + 1)
    }

    /// `(col, row)` is a cell.
    pub open spec fn is_cell(self, col: int, row: int) -> bool {
        on_lattice(self.nx, self.ny, col, row)
    }

    /// `(col, row)` is a vertical face.
    pub open spec fn is_u_face(self, col: int, row: int) -> bool {
        on_lattice(self.nx + 1, self.ny, col, row)
    }

    /// `(col, row)` is a horizontal face.
    pub open spec fn is_v_face(self, col: int, row: int) -> bool {
        on_lattice(self.nx, self.ny + 1, col, row)
    }

    /// Pressure of cell `(col, row)`.
    pub open spec fn p_at(self, col: int, row: int) -> T {
        self.p[p_index(self.nx, col, row)]
    }

    /// Horizontal velocity on vertical face `(col, row)`.
    pub open spec fn u_at(self, col: int, row: int) -> T {
        self.u[u_index(self.nx, col, row)]
    }

    /// Vertical velocity on horizontal face `(col, row)`.
    pub open spec fn v_at(self, col: int, row: int) -> T {
        self.v[v_index(self.nx, col, row)]
    }

    /// Horizontal velocity on the vertical face nearest to `(col, row)`.
    pub open spec fn u_near(self, col: int, row: int) -> T {
        self.u_at(clamp(col, self.nx), clamp(row, self.ny - 1))
    }

    /// Vertical velocity on the horizontal face nearest to `(col, row)`.
    pub open spec fn v_near(self, col: int, row: int) -> T {
        self.v_at(clamp(col, self.nx - 1), clamp(row, self.ny))
    }

    /// Every sample of every field is `value`.
    pub open spec fn all(self, value: T) -> bool {
        &&& forall|i: int| 0 <= i < self.p.len() ==> self.p[i] == value
        &&& forall|i: int| 0 <= i < self.u.len() ==> self.u[i] == value
        &&& forall|i: int| 0 <= i < self.v.len() ==> self.v[i] == value
    }

    /// The horizontal velocity on the left and right walls and the vertical
    /// velocity on the bottom and top walls are `value`.
    pub open spec fn walls_hold(self, value: T) -> bool {
        &&& forall|row: int|
            0 <= row < self.ny ==> #[trigger] self.u_at(0, row) == value && self.u_at(
                self.nx,
                row,
            ) == value
        &&& forall|col: int|
            0 <= col < self.nx ==> #[trigger] self.v_at(col, 0) == value && self.v_at(
                col,
                self.ny,
            ) == value
    }
}

/// A staggered grid with the arithmetic it was built over.
pub struct FluidGrid<T, Locate, Blend, Place, Trace, Diverge, Relax, Correct> {
    nx: usize,
    ny: usize,
    dx: T,
    sweeps: usize,
    ops: Arithmetic<T, Locate, Blend, Place, Trace, Diverge, Relax, Correct>,
    p: Vec<T>,
    u: Vec<T>,
    v: Vec<T>,
}

impl<T, Locate, Blend, Place, Trace, Diverge, Relax, Correct> View for FluidGrid<
    T,
    Locate,
    Blend,
    Place,
    Trace,
    Diverge,
    Relax,
    Correct,
> {
    type V = GridView<T>;

    closed spec fn view(&self) -> GridView<T> {
        GridView {
            nx: self.nx as int,
            ny: self.ny as int,
            dx: self.dx,
            sweeps: self.sweeps as int,
            p: self.p@,
            u: self.u@,
            v: self.v@,
        }
    }
}

/// A vector of `n` copies of `value`.
fn filled<T: Copy>(value: T, n: usize) -> (buf: Vec<T>)
    ensures
        buf@ == Seq::new(n as nat, |i: int| value),
{
    let mut buf: Vec<T> = Vec::new();
    let mut k: usize = 0;
    while k < n
        invariant
            k <= n,
            buf@ == Seq::new(k as nat, |i: int| value),
        decreases n - k,
    {
        buf.push(value);
        k += 1;
        assert(buf@ =~= Seq::new(k as nat, |i: int| value));
    }
    buf
}

impl<
    T: Copy,
    Locate: Fn(T, T, usize, bool) -> (i64, T),
    Blend: Fn(T, T, T, T, T, T) -> T,
    Place: Fn(usize, T, bool) -> T,
    Trace: Fn(T, T, T) -> T,
    Diverge: Fn(T, T, T, T, T) -> T,
    Relax: Fn(T, T, T, T, T, T) -> T,
    Correct: Fn(T, T, T, T, T) -> T,
> FluidGrid<T, Locate, Blend, Place, Trace, Diverge, Relax, Correct> {
    /// The arithmetic the grid was built over.
    pub closed spec fn ops(&self) -> Arithmetic<
        T,
        Locate,
        Blend,
        Place,
        Trace,
        Diverge,
        Relax,
        Correct,
    > {
        self.ops
    }

    /// The fields have the sizes that the dimensions give them, and the
    /// arithmetic accepts every argument.
    pub open spec fn wf(&self) -> bool {
        self@.wf() && self.ops().total()
    }

    /// A grid of `nx` by `ny` cells of width `dx` with every sample at rest.
    pub fn new(
        nx: usize,
        ny: usize,
        dx: T,
        ops: Arithmetic<T, Locate, Blend, Place, Trace, Diverge, Relax, Correct>,
    ) -> (grid: Self)
        requires
            nx > 0,
            ny > 0,
            (nx + 1) * ny <= usize::MAX,
            nx * (ny + 1) <= usize::MAX,
            ops.total(),
        ensures
            grid.wf(),
            grid.ops() == ops,
            grid@ == (GridView {
                nx: nx as int,
                ny: ny as int,
                dx: dx,
                sweeps: DEFAULT_SWEEPS as int,
                p: Seq::new((nx * ny) as nat, |i: int| ops.zero),
                u: Seq::new(((nx + 1) * ny) as nat, |i: int| ops.zero),
                v: Seq::new((nx * (ny + 1)) as nat, |i: int| ops.zero),
            }),
            grid@.all(ops.zero),
    {
        proof {
            lemma_sizes_fit(nx as int, ny as int);
        }
        let p = filled(ops.zero, nx * ny);
        let u = filled(ops.zero, (nx + 1) * ny);
        let v = filled(ops.zero, nx * (ny + 1));
        FluidGrid { nx, ny, dx, sweeps: DEFAULT_SWEEPS, ops, p, u, v }
    }

    /// Cells in a row.
    pub fn nx(&self) -> (n: usize)
        ensures
            n == self@.nx,
    {
        self.nx
    }

    /// Rows of cells.
    pub fn ny(&self) -> (n: usize)
        ensures
            n == self@.ny,
    {
        self.ny
    }

    /// Width and height of a cell.
    pub fn dx(&self) -> (dx: T)
        ensures
            dx == self@.dx,
    {
        self.dx
    }

    /// Relaxation sweeps in each pressure solve.
    pub fn sweeps(&self) -> (n: usize)
        ensures
            n == self@.sweeps,
    {
        self.sweeps
    }

    /// Makes each pressure solve take `n` relaxation sweeps.
    pub fn set_sweeps(&mut self, n: usize)
        ensures
            final(self)@ == (GridView { sweeps: n as int, ..old(self)@ }),
            final(self).ops() == old(self).ops(),
    {
        self.sweeps = n;
    }

    /// The arithmetic the grid was built over.
    pub fn arithmetic(&self) -> (ops: &Arithmetic<
        T,
        Locate,
        Blend,
        Place,
        Trace,
        Diverge,
        Relax,
        Correct,
    >)
        ensures
            *ops == self.ops(),
    {
        &self.ops
    }

    /// Offset of the pressure sample of cell `(i, j)`.
    pub fn p_idx(&self, i: usize, j: usize) -> (idx: usize)
        requires
            self@.wf(),
            self@.is_cell(i as int, j as int),
        ensures
            idx == p_index(self@.nx, i as int, j as int),
            idx < self@.p.len(),
    {
        proof {
            lemma_sizes_fit(self.nx as int, self.ny as int);
            lemma_flat_in_range(self.nx as int, self.ny as int, i as int, j as int);
        }
        j * self.nx + i
    }

    /// Offset of the horizontal velocity on vertical face `(i, j)`.
    pub fn u_idx(&self, i: usize, j: usize) -> (idx: usize)
        requires
            self@.wf(),
            self@.is_u_face(i as int, j as int),
        ensures
            idx == u_index(self@.nx, i as int, j as int),
            idx < self@.u.len(),
    {
        proof {
            lemma_sizes_fit(self.nx as int, self.ny as int);
            lemma_flat_in_range(self.nx + 1, self.ny as int, i as int, j as int);
        }
        j * (self.nx + 1) + i
    }

    /// Offset of the vertical velocity on horizontal face `(i, j)`.
    pub fn v_idx(&self, i: usize, j: usize) -> (idx: usize)
        requires
            self@.wf(),
            self@.is_v_face(i as int, j as int),
        ensures
            idx == v_index(self@.nx, i as int, j as int),
            idx < self@.v.len(),
    {
        proof {
            lemma_sizes_fit(self.nx as int, self.ny as int);
            lemma_flat_in_range(self.nx as int, self.ny + 1, i as int, j as int);
        }
        j * self.nx + i
    }

    /// The cell whose pressure is stored at `idx`, as `(column, row)`.
    pub fn p_cell(&self, idx: usize) -> (cell: (usize, usize))
        requires
            self@.wf(),
            idx < self@.p.len(),
        ensures
            cell.0 == col_of(self@.nx, idx as int),
            cell.1 == row_of(self@.nx, idx as int),
            self@.is_cell(cell.0 as int, cell.1 as int),
            p_index(self@.nx, cell.0 as int, cell.1 as int) == idx,
    {
        proof {
            lemma_coords_round_trip(self.nx as int, self.ny as int, idx as int);
        }
        (idx % self.nx, idx / self.nx)
    }

    /// The vertical face whose velocity is stored at `idx`, as `(column, row)`.
    pub fn u_face(&self, idx: usize) -> (face: (usize, usize))
        requires
            self@.wf(),
            idx < self@.u.len(),
        ensures
            face.0 == col_of(self@.nx + 1, idx as int),
            face.1 == row_of(self@.nx + 1, idx as int),
            self@.is_u_face(face.0 as int, face.1 as int),
            u_index(self@.nx, face.0 as int, face.1 as int) == idx,
    {
        proof {
            lemma_sizes_fit(self.nx as int, self.ny as int);
            lemma_coords_round_trip(self.nx + 1, self.ny as int, idx as int);
        }
        (idx % (self.nx + 1), idx / (self.nx + 1))
    }

    /// The horizontal face whose velocity is stored at `idx`, as `(column, row)`.
    pub fn v_face(&self, idx: usize) -> (face: (usize, usize))
        requires
            self@.wf(),
            idx < self@.v.len(),
        ensures
            face.0 == col_of(self@.nx, idx as int),
            face.1 == row_of(self@.nx, idx as int),
            self@.is_v_face(face.0 as int, face.1 as int),
            v_index(self@.nx, face.0 as int, face.1 as int) == idx,
    {
        proof {
            lemma_coords_round_trip(self.nx as int, self.ny + 1, idx as int);
        }
        (idx % self.nx, idx / self.nx)
    }

    /// The pressure field, row after row.
    pub fn p_field(&self) -> (field: &Vec<T>)
        ensures
            field@ == self@.p,
    {
        &self.p
    }

    /// The horizontal velocity field, row after row.
    pub fn u_field(&self) -> (field: &Vec<T>)
        ensures
            field@ == self@.u,
    {
        &self.u
    }

    /// The vertical velocity field, row after row.
    pub fn v_field(&self) -> (field: &Vec<T>)
        ensures
            field@ == self@.v,
    {
        &self.v
    }

    /// Pressure of cell `(i, j)`.
    pub fn pressure(&self, i: usize, j: usize) -> (value: T)
        requires
            self@.wf(),
            self@.is_cell(i as int, j as int),
        ensures
            value == self@.p_at(i as int, j as int),
    {
        let idx = self.p_idx(i, j);
        self.p[idx]
    }

    /// Horizontal velocity on vertical face `(i, j)`.
    pub fn u(&self, i: usize, j: usize) -> (value: T)
        requires
            self@.wf(),
            self@.is_u_face(i as int, j as int),
        ensures
            value == self@.u_at(i as int, j as int),
    {
        let idx = self.u_idx(i, j);
        self.u[idx]
    }

    /// Vertical velocity on horizontal face `(i, j)`.
    pub fn v(&self, i: usize, j: usize) -> (value: T)
        requires
            self@.wf(),
            self@.is_v_face(i as int, j as int),
        ensures
            value == self@.v_at(i as int, j as int),
    {
        let idx = self.v_idx(i, j);
        self.v[idx]
    }

    /// Stores `value` as the pressure of cell `(i, j)`.
    pub fn set_pressure(&mut self, i: usize, j: usize, value: T)
        requires
            old(self)@.wf(),
            old(self)@.is_cell(i as int, j as int),
        ensures
            final(self)@ == (GridView {
                p: old(self)@.p.update(p_index(old(self)@.nx, i as int, j as int), value),
                ..old(self)@
            }),
            final(self).ops() == old(self).ops(),
            final(self)@.wf(),
    {
        let idx = self.p_idx(i, j);
        self.p.set(idx, value);
    }

    /// Stores `value` as the horizontal velocity on vertical face `(i, j)`.
    pub fn set_u(&mut self, i: usize, j: usize, value: T)
        requires
            old(self)@.wf(),
            old(self)@.is_u_face(i as int, j as int),
        ensures
            final(self)@ == (GridView {
                u: old(self)@.u.update(u_index(old(self)@.nx, i as int, j as int), value),
                ..old(self)@
            }),
            final(self).ops() == old(self).ops(),
            final(self)@.wf(),
    {
        let idx = self.u_idx(i, j);
        self.u.set(idx, value);
    }

    /// Stores `value` as the vertical velocity on horizontal face `(i, j)`.
    pub fn set_v(&mut self, i: usize, j: usize, value: T)
        requires
            old(self)@.wf(),
            old(self)@.is_v_face(i as int, j as int),
        ensures
            final(self)@ == (GridView {
                v: old(self)@.v.update(v_index(old(self)@.nx, i as int, j as int), value),
                ..old(self)@
            }),
            final(self).ops() == old(self).ops(),
            final(self)@.wf(),
    {
        let idx = self.v_idx(i, j);
        self.v.set(idx, value);
    }

    /// Puts `field` in place of the pressure field.
    pub(crate) fn replace_p(&mut self, field: Vec<T>)
        requires
            field@.len() == old(self)@.p.len(),
        ensures
            final(self)@ == (GridView { p: field@, ..old(self)@ }),
            final(self).ops() == old(self).ops(),
    {
        self.p = field;
    }

    /// Puts `field` in place of the horizontal velocity field.
    pub(crate) fn replace_u(&mut self, field: Vec<T>)
        requires
            field@.len() == old(self)@.u.len(),
        ensures
            final(self)@ == (GridView { u: field@, ..old(self)@ }),
            final(self).ops() == old(self).ops(),
    {
        self.u = field;
    }

    /// Puts `field` in place of the vertical velocity field.
    pub(crate) fn replace_v(&mut self, field: Vec<T>)
        requires
            field@.len() == old(self)@.v.len(),
        ensures
            final(self)@ == (GridView { v: field@, ..old(self)@ }),
            final(self).ops() == old(self).ops(),
    {
        self.v = field;
    }
}

/// A copy of `field`.
pub(crate) fn duplicate<T: Copy>(field: &Vec<T>) -> (copy: Vec<T>)
    ensures
        copy@ == field@,
{
    let mut copy: Vec<T> = Vec::new();
    let mut k: usize = 0;
    while k < field.len()
        invariant
            k <= field.len(),
            copy@ == field@.take(k as int),
        decreases field.len() - k,
    {
        copy.push(field[k]);
        k += 1;
        assert(copy@ =~= field@.take(k as int));
    }
    assert(field@.take(k as int) =~= field@);
    copy
}

/// The pressure field of an `nx` by `ny` grid is the smallest of the three,
/// and a row or a column of faces is no larger than a velocity field.
pub proof fn lemma_sizes_fit(nx: int, ny: int)
    requires
        0 < nx,
        0 < ny,
    ensures
        0 < nx * ny <= (nx + 1) * ny,
        nx * ny <= nx * (ny + 1),
        nx + 1 <= (nx + 1) * ny,
        ny + 1 <= nx * (ny + 1),
{
    assert(0 < nx * ny <= (nx + 1) * ny && nx * ny <= nx * (ny + 1)) by (nonlinear_arith)
        requires
            0 < nx,
            0 < ny,
    ;
    assert(nx + 1 <= (nx + 1) * ny && ny + 1 <= nx * (ny + 1)) by (nonlinear_arith)
        requires
            0 < nx,
            0 < ny,
    ;
}

} // verus!
