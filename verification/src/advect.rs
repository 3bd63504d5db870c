//! Carrying the velocity along the flow: every inner face takes the velocity
//! found where the flow through it came from.

use crate::arithmetic::Arithmetic;
use crate::grid::{duplicate, FluidGrid, GridView};
use crate::sweep::{
    lemma_sweep_done, lemma_sweep_row_done, lemma_sweep_start, lemma_sweep_store, swept,
    swept_to, Region,
};
use vstd::prelude::*;

verus! {

/// The vertical faces that advection writes: all but those on the left and
/// right walls.
pub open spec fn carried_u_faces(nx: int, ny: int) -> Region {
    Region { c0: 1, c1: nx, r0: 0, r1: ny }
}

/// The horizontal faces that advection writes: all but those on the bottom
/// and top walls.
pub open spec fn carried_v_faces(nx: int, ny: int) -> Region {
    Region { c0: 0, c1: nx, r0: 1, r1: ny }
}

impl<
    T,
    Locate: Fn(T, T, usize, bool) -> (i64, T),
    Blend: Fn(T, T, T, T, T, T) -> T,
    Place: Fn(usize, T, bool) -> T,
    Trace: Fn(T, T, T) -> T,
    Diverge: Fn(T, T, T, T, T) -> T,
    Relax: Fn(T, T, T, T, T, T) -> T,
    Correct: Fn(T, T, T, T, T) -> T,
> Arithmetic<T, Locate, Blend, Place, Trace, Diverge, Relax, Correct> {
    /// `out` is a velocity of `g` at the point that the flow reached
    /// `(x, y)` from, `dt` ago: the velocity at `(x, y)` is sampled, the
    /// point is traced back along it, and the velocity is sampled there.
    pub open spec fn carried_to(self, g: GridView<T>, dt: T, x: T, y: T, out: (T, T)) -> bool {
        exists|w: (T, T), xs: T, ys: T|
            {
                &&& #[trigger] self.sampled(g, x, y, w)
                &&& #[trigger] self.trace.ensures((x, dt, w.0), xs)
                &&& #[trigger] self.trace.ensures((y, dt, w.1), ys)
                &&& self.sampled(g, xs, ys, out)
            }
    }

    /// `out` is a horizontal velocity carried to vertical face `(col, row)`,
    /// which stands at column `col` and in the middle of row `row`.
    pub open spec fn carried_u(self, g: GridView<T>, dt: T, col: int, row: int, out: T) -> bool {
        exists|x: T, y: T, s: (T, T)|
            {
                &&& #[trigger] self.place.ensures((col as usize, g.dx, false), x)
                &&& #[trigger] self.place.ensures((row as usize, g.dx, true), y)
                &&& #[trigger] self.carried_to(g, dt, x, y, s)
                &&& s.0 == out
            }
    }

    /// `out` is a vertical velocity carried to horizontal face `(col, row)`,
    /// which stands in the middle of column `col` and at row `row`.
    pub open spec fn carried_v(self, g: GridView<T>, dt: T, col: int, row: int, out: T) -> bool {
        exists|x: T, y: T, s: (T, T)|
            {
                &&& #[trigger] self.place.ensures((col as usize, g.dx, true), x)
                &&& #[trigger] self.place.ensures((row as usize, g.dx, false), y)
                &&& #[trigger] self.carried_to(g, dt, x, y, s)
                &&& s.1 == out
            }
    }

    /// The rule of the pass over the vertical faces.
    pub open spec fn carry_u_rule(self, g: GridView<T>, dt: T) -> spec_fn(int, int, T) -> bool {
        |col: int, row: int, out: T| self.carried_u(g, dt, col, row, out)
    }

    /// The rule of the pass over the horizontal faces.
    pub open spec fn carry_v_rule(self, g: GridView<T>, dt: T) -> spec_fn(int, int, T) -> bool {
        |col: int, row: int, out: T| self.carried_v(g, dt, col, row, out)
    }

    /// `g1` is `g0` after advection over `dt`: every face off the walls holds
    /// a velocity carried to it through `g0`, the faces on the walls and the
    /// pressure are those of `g0`.
    pub open spec fn advected(self, g0: GridView<T>, dt: T, g1: GridView<T>) -> bool {
        &&& g1 == (GridView { u: g1.u, v: g1.v, ..g0 })
        &&& swept(
            g0.nx + 1,
            g0.ny,
            carried_u_faces(g0.nx, g0.ny),
            self.carry_u_rule(g0, dt),
            g0.u,
            g1.u,
        )
        &&& swept(
            g0.nx,
            g0.ny + 1,
            carried_v_faces(g0.nx, g0.ny),
            self.carry_v_rule(g0, dt),
            g0.v,
            g1.v,
        )
    }
}

impl<
    T: Copy,
    Locate: Fn(T, T, usize, bool) -> (i64, T),
    Blend: Fn(T, T, T, T, T, T) -> T,
    Place: Fn(usize, T, bool) -> T,
    Trace: Fn(T, T, T) -> T,
    Diverge: Fn(T, T, T, T, T) -> T,
    Relax: Fn(T, T, T, T, T, T) -> T,
    Correct: Fn(T, T, T, T, T) -> T,
> FluidGrid<T, Locate, Blend, Place, Trace, Diverge, Relax, Correct> {
    /// The velocity that the flow carries to `(x, y)` in `dt`.
    fn carry_to(&self, dt: T, x: T, y: T) -> (out: (T, T))
        requires
            self.wf(),
        ensures
            self.ops().carried_to(self@, dt, x, y, out),
    {
        let ops = self.arithmetic();
        let w = self.get_velocity(x, y);
        let xs = (ops.trace)(x, dt, w.0);
        let ys = (ops.trace)(y, dt, w.1);
        self.get_velocity(xs, ys)
    }

    /// The horizontal velocity field after advection over `dt`.
    fn carry_u(&self, dt: T) -> (out: Vec<T>)
        requires
            self.wf(),
        ensures
            swept(
                self@.nx + 1,
                self@.ny,
                carried_u_faces(self@.nx, self@.ny),
                self.ops().carry_u_rule(self@, dt),
                self@.u,
                out@,
            ),
    {
        let ops = self.arithmetic();
        let nx = self.nx();
        let ny = self.ny();
        let dx = self.dx();
        let mut out = duplicate(self.u_field());
        let ghost region = carried_u_faces(nx as int, ny as int);
        let ghost rule = self.ops().carry_u_rule(self@, dt);
        proof {
            lemma_sweep_start(nx + 1, ny as int, region, rule, self@.u);
        }
        let mut j: usize = 0;
        while j < ny
            invariant
                self.wf(),
                nx == self@.nx,
                ny == self@.ny,
                dx == self@.dx,
                *ops == self.ops(),
                region == carried_u_faces(nx as int, ny as int),
                rule == self.ops().carry_u_rule(self@, dt),
                j <= ny,
                swept_to(nx + 1, ny as int, region, rule, self@.u, out@, 1, j as int),
            decreases ny - j,
        {
            let mut i: usize = 1;
            while i < nx
                invariant
                    self.wf(),
                    nx == self@.nx,
                    ny == self@.ny,
                    dx == self@.dx,
                    *ops == self.ops(),
                    region == carried_u_faces(nx as int, ny as int),
                    rule == self.ops().carry_u_rule(self@, dt),
                    j < ny,
                    1 <= i,
                    swept_to(nx + 1, ny as int, region, rule, self@.u, out@, i as int, j as int),
                decreases nx - i,
            {
                let x = (ops.place)(i, dx, false);
                let y = (ops.place)(j, dx, true);
                let s = self.carry_to(dt, x, y);
                let idx = self.u_idx(i, j);
                proof {
                    assert(self.ops().carried_u(self@, dt, i as int, j as int, s.0));
                    lemma_sweep_store(
                        nx + 1,
                        ny as int,
                        region,
                        rule,
                        self@.u,
                        out@,
                        i as int,
                        j as int,
                        s.0,
                    );
                }
                out.set(idx, s.0);
                i += 1;
            }
            proof {
                lemma_sweep_row_done(
                    nx + 1,
                    ny as int,
                    region,
                    rule,
                    self@.u,
                    out@,
                    i as int,
                    j as int,
                );
            }
            j += 1;
        }
        proof {
            lemma_sweep_done(nx + 1, ny as int, region, rule, self@.u, out@, j as int);
        }
        out
    }

    /// The vertical velocity field after advection over `dt`.
    fn carry_v(&self, dt: T) -> (out: Vec<T>)
        requires
            self.wf(),
        ensures
            swept(
                self@.nx,
                self@.ny + 1,
                carried_v_faces(self@.nx, self@.ny),
                self.ops().carry_v_rule(self@, dt),
                self@.v,
                out@,
            ),
    {
        let ops = self.arithmetic();
        let nx = self.nx();
        let ny = self.ny();
        let dx = self.dx();
        let mut out = duplicate(self.v_field());
        let ghost region = carried_v_faces(nx as int, ny as int);
        let ghost rule = self.ops().carry_v_rule(self@, dt);
        proof {
            lemma_sweep_start(nx as int, ny + 1, region, rule, self@.v);
        }
        let mut j: usize = 1;
        while j < ny
            invariant
                self.wf(),
                nx == self@.nx,
                ny == self@.ny,
                dx == self@.dx,
                *ops == self.ops(),
                region == carried_v_faces(nx as int, ny as int),
                rule == self.ops().carry_v_rule(self@, dt),
                1 <= j,
                swept_to(nx as int, ny + 1, region, rule, self@.v, out@, 0, j as int),
            decreases ny - j,
        {
            let mut i: usize = 0;
            while i < nx
                invariant
                    self.wf(),
                    nx == self@.nx,
                    ny == self@.ny,
                    dx == self@.dx,
                    *ops == self.ops(),
                    region == carried_v_faces(nx as int, ny as int),
                    rule == self.ops().carry_v_rule(self@, dt),
                    1 <= j < ny,
                    swept_to(nx as int, ny + 1, region, rule, self@.v, out@, i as int, j as int),
                decreases nx - i,
            {
                let x = (ops.place)(i, dx, true);
                let y = (ops.place)(j, dx, false);
                let s = self.carry_to(dt, x, y);
                let idx = self.v_idx(i, j);
                proof {
                    assert(self.ops().carried_v(self@, dt, i as int, j as int, s.1));
                    lemma_sweep_store(
                        nx as int,
                        ny + 1,
                        region,
                        rule,
                        self@.v,
                        out@,
                        i as int,
                        j as int,
                        s.1,
                    );
                }
                out.set(idx, s.1);
                i += 1;
            }
            proof {
                lemma_sweep_row_done(
                    nx as int,
                    ny + 1,
                    region,
                    rule,
                    self@.v,
                    out@,
                    i as int,
                    j as int,
                );
            }
            j += 1;
        }
        proof {
            lemma_sweep_done(nx as int, ny + 1, region, rule, self@.v, out@, j as int);
        }
        out
    }

    /// Carries the velocity along the flow for `dt`. Every face is computed
    /// from the field as it was before the call; the faces on the walls keep
    /// their velocity.
    pub fn advect(&mut self, dt: T)
        requires
            old(self).wf(),
        ensures
            final(self).wf(),
            final(self).ops() == old(self).ops(),
            old(self).ops().advected(old(self)@, dt, final(self)@),
    {
        let u_new = self.carry_u(dt);
        let v_new = self.carry_v(dt);
        self.replace_u(u_new);
        self.replace_v(v_new);
    }
}

} // verus!
