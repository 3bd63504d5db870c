//! One time step: advection, pressure solve, projection, walls.

use crate::arithmetic::Arithmetic;
use crate::grid::{FluidGrid, GridView};
use vstd::prelude::*;

verus! {

impl<
    T,
    Locate: Fn(T, T, usize, bool) -> (i64, T),
    Blend: Fn(T, T, T, T, T, T) -> T,
    Place: Fn(usize, T, bool) -> T,
    Trace: Fn(T, T, T) -> T,
    Diverge: Fn(T, T, T, T, T) -> T,
    Relax: Fn(T, T, T, T, T, T) -> T,
    Correct: Fn(T, T, T, T, T) -> T,
> Arithmetic<T, Locate, Blend, Place, Trace, Diverge, Relax, Correct> {
    /// `g1` is `g0` one step of `dt` later: advected, then solved for
    /// pressure, then projected, then walled, each phase starting from what
    /// the phase before it left.
    pub open spec fn stepped(self, g0: GridView<T>, dt: T, g1: GridView<T>) -> bool {
        exists|a: GridView<T>, b: GridView<T>, c: GridView<T>|
            {
                &&& #[trigger] self.advected(g0, dt, a)
                &&& #[trigger] self.pressure_solved(a, b)
                &&& #[trigger] self.projected(b, dt, c)
                &&& c.walled(self.zero, g1)
            }
    }

    /// `g1` is `g0` after one step for each time increment of `dts`, in
    /// their order.
    pub open spec fn stepped_through(self, g0: GridView<T>, dts: Seq<T>, g1: GridView<T>) -> bool
        decreases dts.len(),
    {
        if dts.len() == 0 {
            g1 == g0
        } else {
            exists|m: GridView<T>|
                self.stepped_through(g0, dts.drop_last(), m) && #[trigger] self.stepped(
                    m,
                    dts.last(),
                    g1,
                )
        }
    }
}

impl<
    T: Copy,
    Locate: Fn(T, T, usize, bool) -> (i64, T),
    Blend: Fn(T, T, T, T, T, T) -> T,
    Place: Fn(usize, T, bool) -> T,
    Trace: Fn(T, T, T) -> T,
    Diverge: Fn(T, T, T, T, T) -> T,
    Relax: Fn(T, T, T, T, T, T) -> T,
    Correct: Fn(T, T, T, T, T) -> T,
> FluidGrid<T, Locate, Blend, Place, Trace, Diverge, Relax, Correct> {
    /// Moves the grid one step of `dt` on.
    pub fn run_step(&mut self, dt: T)
        requires
            old(self).wf(),
        ensures
            final(self).wf(),
            final(self).ops() == old(self).ops(),
            old(self).ops().stepped(old(self)@, dt, final(self)@),
            final(self)@.walls_hold(old(self).ops().zero),
    {
        self.advect(dt);
        let ghost a = self@;
        self.solve_pressure();
        let ghost b = self@;
        self.project(dt);
        let ghost c = self@;
        self.set_boundaries();
        proof {
            assert(self.ops().advected(old(self)@, dt, a));
            assert(self.ops().pressure_solved(a, b));
            assert(self.ops().projected(b, dt, c));
            assert(c.walled(self.ops().zero, self@));
        }
    }
}

} // verus!
