//! Taking the pressure gradient out of the velocity.

use crate::arithmetic::Arithmetic;
use crate::grid::{duplicate, FluidGrid, GridView};
use crate::sweep::{
    lemma_sweep_done, lemma_sweep_row_done, lemma_sweep_start, lemma_sweep_store, swept,
    swept_to, Region,
};
use vstd::prelude::*;

verus! {

/// The vertical faces that projection writes: those off the left and right
/// walls, in the rows off the bottom and top of the grid.
pub open spec fn corrected_u_faces(nx: int, ny: int) -> Region {
    Region { c0: 1, c1: nx, r0: 1, r1: ny - 1 }
}

/// The horizontal faces that projection writes: those off the bottom and top
/// walls, in the columns off the left and right of the grid.
pub open spec fn corrected_v_faces(nx: int, ny: int) -> Region {
    Region { c0: 1, c1: nx - 1, r0: 1, r1: ny }
}

impl<
    T,
    Locate: Fn(T, T, usize, bool) -> (i64, T),
    Blend: Fn(T, T, T, T, T, T) -> T,
    Place: Fn(usize, T, bool) -> T,
    Trace: Fn(T, T, T) -> T,
    Diverge: Fn(T, T, T, T, T) -> T,
    Relax: Fn(T, T, T, T, T, T) -> T,
    Correct: Fn(T, T, T, T, T) -> T,
> Arithmetic<T, Locate, Blend, Place, Trace, Diverge, Relax, Correct> {
    /// `out` is the horizontal velocity on vertical face `(col, row)` of `g`
    /// corrected by the pressures of the cells to its right and to its left.
    pub open spec fn corrected_u(self, g: GridView<T>, dt: T, col: int, row: int, out: T) -> bool {
        self.correct.ensures(
            (dt, g.dx, g.u_at(col, row), g.p_at(col, row), g.p_at(col - 1, row)),
            out,
        )
    }

    /// `out` is the vertical velocity on horizontal face `(col, row)` of `g`
    /// corrected by the pressures of the cells above and below it.
    pub open spec fn corrected_v(self, g: GridView<T>, dt: T, col: int, row: int, out: T) -> bool {
        self.correct.ensures(
            (dt, g.dx, g.v_at(col, row), g.p_at(col, row), g.p_at(col, row - 1)),
            out,
        )
    }

    /// The rule of the pass over the vertical faces.
    pub open spec fn correct_u_rule(self, g: GridView<T>, dt: T) -> spec_fn(int, int, T) -> bool {
        |col: int, row: int, out: T| self.corrected_u(g, dt, col, row, out)
    }

    /// The rule of the pass over the horizontal faces.
    pub open spec fn correct_v_rule(self, g: GridView<T>, dt: T) -> spec_fn(int, int, T) -> bool {
        |col: int, row: int, out: T| self.corrected_v(g, dt, col, row, out)
    }

    /// `g1` is `g0` after projection over `dt`: every inner face holds its
    /// velocity corrected by the pressures on its two sides, every other
    /// face and the pressure are those of `g0`.
    pub open spec fn projected(self, g0: GridView<T>, dt: T, g1: GridView<T>) -> bool {
        &&& g1 == (GridView { u: g1.u, v: g1.v, ..g0 })
        &&& swept(
            g0.nx + 1,
            g0.ny,
            corrected_u_faces(g0.nx, g0.ny),
            self.correct_u_rule(g0, dt),
            g0.u,
            g1.u,
        )
        &&& swept(
            g0.nx,
            g0.ny + 1,
            corrected_v_faces(g0.nx, g0.ny),
            self.correct_v_rule(g0, dt),
            g0.v,
            g1.v,
        )
    }
}

impl<
    T: Copy,
    Locate: Fn(T, T, usize, bool) -> (i64, T),
    Blend: Fn(T, T, T, T, T, T) -> T,
    Place: Fn(usize, T, bool) -> T,
    Trace: Fn(T, T, T) -> T,
    Diverge: Fn(T, T, T, T, T) -> T,
    Relax: Fn(T, T, T, T, T, T) -> T,
    Correct: Fn(T, T, T, T, T) -> T,
> FluidGrid<T, Locate, Blend, Place, Trace, Diverge, Relax, Correct> {
    /// The horizontal velocity field after projection over `dt`.
    fn correct_u(&self, dt: T) -> (out: Vec<T>)
        requires
            self.wf(),
        ensures
            swept(
                self@.nx + 1,
                self@.ny,
                corrected_u_faces(self@.nx, self@.ny),
                self.ops().correct_u_rule(self@, dt),
                self@.u,
                out@,
            ),
    {
        let ops = self.arithmetic();
        let nx = self.nx();
        let ny = self.ny();
        let dx = self.dx();
        let mut out = duplicate(self.u_field());
        let ghost region = corrected_u_faces(nx as int, ny as int);
        let ghost rule = self.ops().correct_u_rule(self@, dt);
        proof {
            lemma_sweep_start(nx + 1, ny as int, region, rule, self@.u);
        }
        let mut j: usize = 1;
        while j < ny - 1
            invariant
                self.wf(),
                nx == self@.nx,
                ny == self@.ny,
                dx == self@.dx,
                *ops == self.ops(),
                region == corrected_u_faces(nx as int, ny as int),
                rule == self.ops().correct_u_rule(self@, dt),
                1 <= j,
                swept_to(nx + 1, ny as int, region, rule, self@.u, out@, 1, j as int),
            decreases ny - j,
        {
            let mut i: usize = 1;
            while i < nx
                invariant
                    self.wf(),
                    nx == self@.nx,
                    ny == self@.ny,
                    dx == self@.dx,
                    *ops == self.ops(),
                    region == corrected_u_faces(nx as int, ny as int),
                    rule == self.ops().correct_u_rule(self@, dt),
                    1 <= j < ny - 1,
                    1 <= i,
                    swept_to(nx + 1, ny as int, region, rule, self@.u, out@, i as int, j as int),
                decreases nx - i,
            {
                let value = (ops.correct)(
                    dt,
                    dx,
                    self.u(i, j),
                    self.pressure(i, j),
                    self.pressure(i - 1, j),
                );
                let idx = self.u_idx(i, j);
                proof {
                    lemma_sweep_store(
                        nx + 1,
                        ny as int,
                        region,
                        rule,
                        self@.u,
                        out@,
                        i as int,
                        j as int,
                        value,
                    );
                }
                out.set(idx, value);
                i += 1;
            }
            proof {
                lemma_sweep_row_done(
                    nx + 1,
                    ny as int,
                    region,
                    rule,
                    self@.u,
                    out@,
                    i as int,
                    j as int,
                );
            }
            j += 1;
        }
        proof {
            lemma_sweep_done(nx + 1, ny as int, region, rule, self@.u, out@, j as int);
        }
        out
    }

    /// The vertical velocity field after projection over `dt`.
    fn correct_v(&self, dt: T) -> (out: Vec<T>)
        requires
            self.wf(),
        ensures
            swept(
                self@.nx,
                self@.ny + 1,
                corrected_v_faces(self@.nx, self@.ny),
                self.ops().correct_v_rule(self@, dt),
                self@.v,
                out@,
            ),
    {
        let ops = self.arithmetic();
        let nx = self.nx();
        let ny = self.ny();
        let dx = self.dx();
        let mut out = duplicate(self.v_field());
        let ghost region = corrected_v_faces(nx as int, ny as int);
        let ghost rule = self.ops().correct_v_rule(self@, dt);
        proof {
            lemma_sweep_start(nx as int, ny + 1, region, rule, self@.v);
        }
        let mut j: usize = 1;
        while j < ny
            invariant
                self.wf(),
                nx == self@.nx,
                ny == self@.ny,
                dx == self@.dx,
                *ops == self.ops(),
                region == corrected_v_faces(nx as int, ny as int),
                rule == self.ops().correct_v_rule(self@, dt),
                1 <= j,
                swept_to(nx as int, ny + 1, region, rule, self@.v, out@, 1, j as int),
            decreases ny - j,
        {
            let mut i: usize = 1;
            while i < nx - 1
                invariant
                    self.wf(),
                    nx == self@.nx,
                    ny == self@.ny,
                    dx == self@.dx,
                    *ops == self.ops(),
                    region == corrected_v_faces(nx as int, ny as int),
                    rule == self.ops().correct_v_rule(self@, dt),
                    1 <= j < ny,
                    1 <= i,
                    swept_to(nx as int, ny + 1, region, rule, self@.v, out@, i as int, j as int),
                decreases nx - i,
            {
                let value = (ops.correct)(
                    dt,
                    dx,
                    self.v(i, j),
                    self.pressure(i, j),
                    self.pressure(i, j - 1),
                );
                let idx = self.v_idx(i, j);
                proof {
                    lemma_sweep_store(
                        nx as int,
                        ny + 1,
                        region,
                        rule,
                        self@.v,
                        out@,
                        i as int,
                        j as int,
                        value,
                    );
                }
                out.set(idx, value);
                i += 1;
            }
            proof {
                lemma_sweep_row_done(
                    nx as int,
                    ny + 1,
                    region,
                    rule,
                    self@.v,
                    out@,
                    i as int,
                    j as int,
                );
            }
            j += 1;
        }
        proof {
            lemma_sweep_done(nx as int, ny + 1, region, rule, self@.v, out@, j as int);
        }
        out
    }

    /// Takes the gradient of the pressure, over `dt`, out of the velocity of
    /// every inner face.
    pub fn project(&mut self, dt: T)
        requires
            old(self).wf(),
        ensures
            final(self).wf(),
            final(self).ops() == old(self).ops(),
            old(self).ops().projected(old(self)@, dt, final(self)@),
    {
        let u_new = self.correct_u(dt);
        let v_new = self.correct_v(dt);
        self.replace_u(u_new);
        self.replace_v(v_new);
    }
}

} // verus!
