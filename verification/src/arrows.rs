//! The velocity in the middle of every inner cell, for drawing.

use crate::arithmetic::Arithmetic;
use crate::grid::{FluidGrid, GridView};
use crate::layout::{flat, lemma_flat_ordered};
use crate::pressure::inner_cells;
use vstd::prelude::*;

verus! {

/// A point and the velocity there.
pub struct Arrow<T> {
    /// Horizontal coordinate of the point.
    pub x: T,
    /// Vertical coordinate of the point.
    pub y: T,
    /// Horizontal velocity at the point.
    pub u: T,
    /// Vertical velocity at the point.
    pub v: T,
}

impl<
    T,
    Locate: Fn(T, T, usize, bool) -> (i64, T),
    Blend: Fn(T, T, T, T, T, T) -> T,
    Place: Fn(usize, T, bool) -> T,
    Trace: Fn(T, T, T) -> T,
    Diverge: Fn(T, T, T, T, T) -> T,
    Relax: Fn(T, T, T, T, T, T) -> T,
    Correct: Fn(T, T, T, T, T) -> T,
> Arithmetic<T, Locate, Blend, Place, Trace, Diverge, Relax, Correct> {
    /// `a` stands in the middle of cell `(col, row)` of `g` and carries a
    /// velocity of `g` there.
    pub open spec fn arrow_at(self, g: GridView<T>, col: int, row: int, a: Arrow<T>) -> bool {
        &&& self.place.ensures((col as usize, g.dx, true), a.x)
        &&& self.place.ensures((row as usize, g.dx, true), a.y)
        &&& self.sampled(g, a.x, a.y, (a.u, a.v))
    }

    /// `out` holds an arrow for every inner cell of `g` and nothing else,
    /// row after row.
    pub open spec fn arrows_of(self, g: GridView<T>, out: Seq<Arrow<T>>) -> bool {
        &&& out.len() == if g.nx > 2 && g.ny > 2 {
            (g.nx - 2) * (g.ny - 2)
        } else {
            0
        }
        &&& forall|col: int, row: int|
            inner_cells(g.nx, g.ny).contains(col, row) ==> self.arrow_at(
                g,
                col,
                row,
                out[#[trigger] flat(g.nx - 2, col - 1, row - 1)],
            )
    }
}

impl<
    T: Copy,
    Locate: Fn(T, T, usize, bool) -> (i64, T),
    Blend: Fn(T, T, T, T, T, T) -> T,
    Place: Fn(usize, T, bool) -> T,
    Trace: Fn(T, T, T) -> T,
    Diverge: Fn(T, T, T, T, T) -> T,
    Relax: Fn(T, T, T, T, T, T) -> T,
    Correct: Fn(T, T, T, T, T) -> T,
> FluidGrid<T, Locate, Blend, Place, Trace, Diverge, Relax, Correct> {
    /// The velocity in the middle of every cell that does not touch the
    /// border, row after row.
    pub fn arrows(&self) -> (out: Vec<Arrow<T>>)
        requires
            self.wf(),
        ensures
            self.ops().arrows_of(self@, out@),
    {
        let ops = self.arithmetic();
        let nx = self.nx();
        let ny = self.ny();
        let dx = self.dx();
        let ghost inner = inner_cells(nx as int, ny as int);
        let mut out: Vec<Arrow<T>> = Vec::new();
        let mut j: usize = 1;
        while j < ny - 1
            invariant
                self.wf(),
                nx == self@.nx,
                ny == self@.ny,
                dx == self@.dx,
                *ops == self.ops(),
                inner == inner_cells(nx as int, ny as int),
                1 <= j,
                ny > 2 ==> j <= ny - 1,
                ny <= 2 ==> j == 1,
                out@.len() == if nx > 2 {
                    (j - 1) * (nx - 2)
                } else {
                    0
                },
                forall|col: int, row: int|
                    inner.visited(col, row, 1, j as int) ==> self.ops().arrow_at(
                        self@,
                        col,
                        row,
                        out@[#[trigger] flat(nx - 2, col - 1, row - 1)],
                    ),
            decreases ny - j,
        {
            let mut i: usize = 1;
            while i < nx - 1
                invariant
                    self.wf(),
                    nx == self@.nx,
                    ny == self@.ny,
                    dx == self@.dx,
                    *ops == self.ops(),
                    inner == inner_cells(nx as int, ny as int),
                    1 <= j < ny - 1,
                    1 <= i,
                    nx > 2 ==> i <= nx - 1,
                    out@.len() == if nx > 2 {
                        flat(nx - 2, i - 1, j - 1)
                    } else {
                        0
                    },
                    forall|col: int, row: int|
                        inner.visited(col, row, i as int, j as int) ==> self.ops().arrow_at(
                            self@,
                            col,
                            row,
                            out@[#[trigger] flat(nx - 2, col - 1, row - 1)],
                        ),
                decreases nx - i,
            {
                let x = (ops.place)(i, dx, true);
                let y = (ops.place)(j, dx, true);
                let w = self.get_velocity(x, y);
                let a = Arrow { x, y, u: w.0, v: w.1 };
                proof {
                    assert forall|col: int, row: int|
                        inner.visited(col, row, i + 1, j as int) implies self.ops().arrow_at(
                        self@,
                        col,
                        row,
                        out@.push(a)[#[trigger] flat(nx - 2, col - 1, row - 1)],
                    ) by {
                        if !(col == i && row == j) {
                            lemma_flat_ordered(nx - 2, col - 1, row - 1, i - 1, j - 1);
                        }
                    }
                }
                out.push(a);
                i += 1;
            }
            proof {
                if nx > 2 {
                    assert((j - 1) * (nx - 2) + (nx - 2) == j * (nx - 2)) by (nonlinear_arith);
                }
                assert forall|col: int, row: int|
                    inner.visited(col, row, 1, j + 1) implies inner.visited(
                    col,
                    row,
                    i as int,
                    j as int,
                ) by {}
            }
            j += 1;
        }
        proof {
            if nx > 2 {
                assert((j - 1) * (nx - 2) == if ny > 2 {
                    (nx - 2) * (ny - 2)
                } else {
                    0
                }) by (nonlinear_arith)
                    requires
                        ny > 2 ==> j == ny - 1,
                        ny <= 2 ==> j == 1,
                ;
            }
            assert forall|col: int, row: int| inner.contains(col, row) implies inner.visited(
                col,
                row,
                1,
                j as int,
            ) by {}
        }
        out
    }
}

} // verus!
