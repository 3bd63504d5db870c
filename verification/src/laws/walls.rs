//! A step keeps the shape of the grid and leaves its walls at rest.

use crate::arithmetic::Arithmetic;
use crate::grid::GridView;
use vstd::prelude::*;

verus! {

impl<T> GridView<T> {
    /// `other` has the dimensions, the spacing and the sweep count of `self`.
    pub open spec fn same_shape(self, other: GridView<T>) -> bool {
        &&& other.nx == self.nx
        &&& other.ny == self.ny
        &&& other.dx == self.dx
        &&& other.sweeps == self.sweeps
    }

    /// Walling a grid leaves its shape and the sizes of its fields, and
    /// holds the velocity through every wall at `rest`.
    pub proof fn lemma_walled_walls(self, rest: T, after: GridView<T>)
        requires
            self.wf(),
            self.walled(rest, after),
        ensures
            after.wf(),
            self.same_shape(after),
            after.walls_hold(rest),
    {
        assert forall|row: int| 0 <= row < after.ny implies #[trigger] after.u_at(0, row) == rest
            && after.u_at(after.nx, row) == rest by {
            assert(self.on_u_wall(0, row) && self.on_u_wall(self.nx, row));
        }
        assert forall|col: int| 0 <= col < after.nx implies #[trigger] after.v_at(col, 0) == rest
            && after.v_at(col, after.ny) == rest by {
            assert(self.on_v_wall(col, 0) && self.on_v_wall(col, self.ny));
        }
    }
}

impl<
    T,
    Locate: Fn(T, T, usize, bool) -> (i64, T),
    Blend: Fn(T, T, T, T, T, T) -> T,
    Place: Fn(usize, T, bool) -> T,
    Trace: Fn(T, T, T) -> T,
    Diverge: Fn(T, T, T, T, T) -> T,
    Relax: Fn(T, T, T, T, T, T) -> T,
    Correct: Fn(T, T, T, T, T) -> T,
> Arithmetic<T, Locate, Blend, Place, Trace, Diverge, Relax, Correct> {
    /// A step leaves a grid of the same shape, with fields of the same
    /// sizes.
    pub proof fn lemma_step_keeps_shape(self, g0: GridView<T>, dt: T, g1: GridView<T>)
        requires
            g0.wf(),
            self.stepped(g0, dt, g1),
        ensures
            g1.wf(),
            g0.same_shape(g1),
    {
        let (a, b, c) = choose|a: GridView<T>, b: GridView<T>, c: GridView<T>|
            {
                &&& #[trigger] self.advected(g0, dt, a)
                &&& #[trigger] self.pressure_solved(a, b)
                &&& #[trigger] self.projected(b, dt, c)
                &&& c.walled(self.zero, g1)
            };
        let d = choose|d: Seq<T>| #[trigger]
            self.is_divergence(a, d) && self.relaxed(a, d, b.p, a.sweeps as nat);
        self.lemma_relaxed_keeps_size(a, d, b.p, a.sweeps as nat);
        c.lemma_walled_walls(self.zero, g1);
    }

    /// Relaxation leaves a pressure field of the same size.
    pub proof fn lemma_relaxed_keeps_size(self, g: GridView<T>, d: Seq<T>, q: Seq<T>, n: nat)
        requires
            g.wf(),
            self.relaxed(g, d, q, n),
        ensures
            q.len() == g.p.len(),
        decreases n,
    {
        if n > 0 {
            let m = choose|m: Seq<T>|
                self.relaxed(g, d, m, (n - 1) as nat) && #[trigger] self.relaxed_once(g, d, m, q);
            self.lemma_relaxed_keeps_size(g, d, m, (n - 1) as nat);
        }
    }

    /// After a step the horizontal velocity on the left and right walls and
    /// the vertical velocity on the bottom and top walls are at rest,
    /// whatever the grid held before.
    pub proof fn step_stills_walls(self, g0: GridView<T>, dt: T, g1: GridView<T>)
        requires
            g0.wf(),
            self.stepped(g0, dt, g1),
        ensures
            g1.walls_hold(self.zero),
    {
        let (a, b, c) = choose|a: GridView<T>, b: GridView<T>, c: GridView<T>|
            {
                &&& #[trigger] self.advected(g0, dt, a)
                &&& #[trigger] self.pressure_solved(a, b)
                &&& #[trigger] self.projected(b, dt, c)
                &&& c.walled(self.zero, g1)
            };
        let d = choose|d: Seq<T>| #[trigger]
            self.is_divergence(a, d) && self.relaxed(a, d, b.p, a.sweeps as nat);
        self.lemma_relaxed_keeps_size(a, d, b.p, a.sweeps as nat);
        c.lemma_walled_walls(self.zero, g1);
    }

    /// After any number of steps, one at least, the velocity through every
    /// wall is at rest.
    pub proof fn steps_still_walls(self, g0: GridView<T>, dts: Seq<T>, g1: GridView<T>)
        requires
            g0.wf(),
            dts.len() > 0,
            self.stepped_through(g0, dts, g1),
        ensures
            g1.walls_hold(self.zero),
    {
        let m = choose|m: GridView<T>|
            self.stepped_through(g0, dts.drop_last(), m) && #[trigger] self.stepped(
                m,
                dts.last(),
                g1,
            );
        self.lemma_steps_keep_shape(g0, dts.drop_last(), m);
        self.step_stills_walls(m, dts.last(), g1);
    }

    /// Any number of steps leaves a grid of the same shape, with fields of
    /// the same sizes.
    pub proof fn lemma_steps_keep_shape(self, g0: GridView<T>, dts: Seq<T>, g1: GridView<T>)
        requires
            g0.wf(),
            self.stepped_through(g0, dts, g1),
        ensures
            g1.wf(),
            g0.same_shape(g1),
        decreases dts.len(),
    {
        if dts.len() > 0 {
            let m = choose|m: GridView<T>|
                self.stepped_through(g0, dts.drop_last(), m) && #[trigger] self.stepped(
                    m,
                    dts.last(),
                    g1,
                );
            self.lemma_steps_keep_shape(g0, dts.drop_last(), m);
            self.lemma_step_keeps_shape(m, dts.last(), g1);
        }
    }
}

} // verus!
