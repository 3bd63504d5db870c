//! Equal grids stepped alike stay equal.

use crate::advect::{carried_u_faces, carried_v_faces};
use crate::arithmetic::Arithmetic;
use crate::grid::GridView;
use crate::layout::{col_of, lemma_coords_round_trip, p_index, row_of};
use crate::pressure::inner_cells;
use crate::project::{corrected_u_faces, corrected_v_faces};
use crate::sweep::lemma_swept_unique;
use vstd::prelude::*;

verus! {

impl<T> GridView<T> {
    /// Walling a grid has one result.
    pub proof fn lemma_walled_unique(self, rest: T, g1: GridView<T>, g2: GridView<T>)
        requires
            self.wf(),
            self.walled(rest, g1),
            self.walled(rest, g2),
        ensures
            g1 == g2,
    {
        assert forall|i: int| 0 <= i < g1.u.len() implies g1.u[i] == g2.u[i] by {
            lemma_coords_round_trip(self.nx + 1, self.ny, i);
            let col = col_of(self.nx + 1, i);
            let row = row_of(self.nx + 1, i);
            assert(g1.u_at(col, row) == g1.u[i]);
            assert(g2.u_at(col, row) == g2.u[i]);
        }
        assert(g1.u =~= g2.u);
        assert forall|i: int| 0 <= i < g1.v.len() implies g1.v[i] == g2.v[i] by {
            lemma_coords_round_trip(self.nx, self.ny + 1, i);
            let col = col_of(self.nx, i);
            let row = row_of(self.nx, i);
            assert(g1.v_at(col, row) == g1.v[i]);
            assert(g2.v_at(col, row) == g2.v[i]);
        }
        assert(g1.v =~= g2.v);
    }
}

impl<
    T,
    Locate: Fn(T, T, usize, bool) -> (i64, T),
    Blend: Fn(T, T, T, T, T, T) -> T,
    Place: Fn(usize, T, bool) -> T,
    Trace: Fn(T, T, T) -> T,
    Diverge: Fn(T, T, T, T, T) -> T,
    Relax: Fn(T, T, T, T, T, T) -> T,
    Correct: Fn(T, T, T, T, T) -> T,
> Arithmetic<T, Locate, Blend, Place, Trace, Diverge, Relax, Correct> {
    /// With a deterministic arithmetic a point has one velocity.
    pub proof fn lemma_sampled_unique(self, g: GridView<T>, x: T, y: T, o1: (T, T), o2: (T, T))
        requires
            self.deterministic(),
            self.sampled(g, x, y, o1),
            self.sampled(g, x, y, o2),
        ensures
            o1 == o2,
    {
        let (i1, tx1, j1, ty1) = choose|i: i64, tx: T, j: i64, ty: T|
            {
                &&& #[trigger] self.locate.ensures((x, g.dx, g.nx as usize, false), (i, tx))
                &&& #[trigger] self.locate.ensures((y, g.dx, g.ny as usize, true), (j, ty))
                &&& self.blend.ensures(
                    (
                        g.u_near(i as int, j as int),
                        g.u_near(i + 1, j as int),
                        g.u_near(i as int, j + 1),
                        g.u_near(i + 1, j + 1),
                        tx,
                        ty,
                    ),
                    o1.0,
                )
            };
        let (i2, tx2, j2, ty2) = choose|i: i64, tx: T, j: i64, ty: T|
            {
                &&& #[trigger] self.locate.ensures((x, g.dx, g.nx as usize, false), (i, tx))
                &&& #[trigger] self.locate.ensures((y, g.dx, g.ny as usize, true), (j, ty))
                &&& self.blend.ensures(
                    (
                        g.u_near(i as int, j as int),
                        g.u_near(i + 1, j as int),
                        g.u_near(i as int, j + 1),
                        g.u_near(i + 1, j + 1),
                        tx,
                        ty,
                    ),
                    o2.0,
                )
            };
        assert((i1, tx1) == (i2, tx2));
        assert((j1, ty1) == (j2, ty2));
        assert(o1.0 == o2.0);
        let (k1, sx1, l1, sy1) = choose|i: i64, tx: T, j: i64, ty: T|
            {
                &&& #[trigger] self.locate.ensures((x, g.dx, g.nx as usize, true), (i, tx))
                &&& #[trigger] self.locate.ensures((y, g.dx, g.ny as usize, false), (j, ty))
                &&& self.blend.ensures(
                    (
                        g.v_near(i as int, j as int),
                        g.v_near(i + 1, j as int),
                        g.v_near(i as int, j + 1),
                        g.v_near(i + 1, j + 1),
                        tx,
                        ty,
                    ),
                    o1.1,
                )
            };
        let (k2, sx2, l2, sy2) = choose|i: i64, tx: T, j: i64, ty: T|
            {
                &&& #[trigger] self.locate.ensures((x, g.dx, g.nx as usize, true), (i, tx))
                &&& #[trigger] self.locate.ensures((y, g.dx, g.ny as usize, false), (j, ty))
                &&& self.blend.ensures(
                    (
                        g.v_near(i as int, j as int),
                        g.v_near(i + 1, j as int),
                        g.v_near(i as int, j + 1),
                        g.v_near(i + 1, j + 1),
                        tx,
                        ty,
                    ),
                    o2.1,
                )
            };
        assert((k1, sx1) == (k2, sx2));
        assert((l1, sy1) == (l2, sy2));
        assert(o1.1 == o2.1);
    }

    /// With a deterministic arithmetic the flow carries one velocity to a
    /// point.
    pub proof fn lemma_carried_unique(
        self,
        g: GridView<T>,
        dt: T,
        x: T,
        y: T,
        o1: (T, T),
        o2: (T, T),
    )
        requires
            self.deterministic(),
            self.carried_to(g, dt, x, y, o1),
            self.carried_to(g, dt, x, y, o2),
        ensures
            o1 == o2,
    {
        let (w1, xs1, ys1) = choose|w: (T, T), xs: T, ys: T|
            {
                &&& #[trigger] self.sampled(g, x, y, w)
                &&& #[trigger] self.trace.ensures((x, dt, w.0), xs)
                &&& #[trigger] self.trace.ensures((y, dt, w.1), ys)
                &&& self.sampled(g, xs, ys, o1)
            };
        let (w2, xs2, ys2) = choose|w: (T, T), xs: T, ys: T|
            {
                &&& #[trigger] self.sampled(g, x, y, w)
                &&& #[trigger] self.trace.ensures((x, dt, w.0), xs)
                &&& #[trigger] self.trace.ensures((y, dt, w.1), ys)
                &&& self.sampled(g, xs, ys, o2)
            };
        self.lemma_sampled_unique(g, x, y, w1, w2);
        assert(xs1 == xs2);
        assert(ys1 == ys2);
        self.lemma_sampled_unique(g, xs1, ys1, o1, o2);
    }

    /// With a deterministic arithmetic advection has one result.
    pub proof fn lemma_advected_unique(
        self,
        g0: GridView<T>,
        dt: T,
        g1: GridView<T>,
        g2: GridView<T>,
    )
        requires
            self.deterministic(),
            g0.wf(),
            self.advected(g0, dt, g1),
            self.advected(g0, dt, g2),
        ensures
            g1 == g2,
    {
        let rule_u = self.carry_u_rule(g0, dt);
        assert forall|col: int, row: int, t1: T, t2: T| #[trigger]
            rule_u(col, row, t1) && #[trigger] rule_u(col, row, t2) implies t1 == t2 by {
            let (x1, y1, s1) = choose|x: T, y: T, s: (T, T)|
                {
                    &&& #[trigger] self.place.ensures((col as usize, g0.dx, false), x)
                    &&& #[trigger] self.place.ensures((row as usize, g0.dx, true), y)
                    &&& #[trigger] self.carried_to(g0, dt, x, y, s)
                    &&& s.0 == t1
                };
            let (x2, y2, s2) = choose|x: T, y: T, s: (T, T)|
                {
                    &&& #[trigger] self.place.ensures((col as usize, g0.dx, false), x)
                    &&& #[trigger] self.place.ensures((row as usize, g0.dx, true), y)
                    &&& #[trigger] self.carried_to(g0, dt, x, y, s)
                    &&& s.0 == t2
                };
            assert(x1 == x2 && y1 == y2);
            self.lemma_carried_unique(g0, dt, x1, y1, s1, s2);
        }
        lemma_swept_unique(
            g0.nx + 1,
            g0.ny,
            carried_u_faces(g0.nx, g0.ny),
            rule_u,
            g0.u,
            g1.u,
            g2.u,
        );
        let rule_v = self.carry_v_rule(g0, dt);
        assert forall|col: int, row: int, t1: T, t2: T| #[trigger]
            rule_v(col, row, t1) && #[trigger] rule_v(col, row, t2) implies t1 == t2 by {
            let (x1, y1, s1) = choose|x: T, y: T, s: (T, T)|
                {
                    &&& #[trigger] self.place.ensures((col as usize, g0.dx, true), x)
                    &&& #[trigger] self.place.ensures((row as usize, g0.dx, false), y)
                    &&& #[trigger] self.carried_to(g0, dt, x, y, s)
                    &&& s.1 == t1
                };
            let (x2, y2, s2) = choose|x: T, y: T, s: (T, T)|
                {
                    &&& #[trigger] self.place.ensures((col as usize, g0.dx, true), x)
                    &&& #[trigger] self.place.ensures((row as usize, g0.dx, false), y)
                    &&& #[trigger] self.carried_to(g0, dt, x, y, s)
                    &&& s.1 == t2
                };
            assert(x1 == x2 && y1 == y2);
            self.lemma_carried_unique(g0, dt, x1, y1, s1, s2);
        }
        lemma_swept_unique(
            g0.nx,
            g0.ny + 1,
            carried_v_faces(g0.nx, g0.ny),
            rule_v,
            g0.v,
            g1.v,
            g2.v,
        );
    }

    /// With a deterministic arithmetic a grid has one divergence.
    pub proof fn lemma_divergence_unique(self, g: GridView<T>, d1: Seq<T>, d2: Seq<T>)
        requires
            self.deterministic(),
            g.wf(),
            self.is_divergence(g, d1),
            self.is_divergence(g, d2),
        ensures
            d1 == d2,
    {
        assert forall|i: int| 0 <= i < d1.len() implies d1[i] == d2[i] by {
            lemma_coords_round_trip(g.nx, g.ny, i);
            let col = col_of(g.nx, i);
            let row = row_of(g.nx, i);
            assert(p_index(g.nx, col, row) == i);
            assert(self.diverged(g, col, row, d1[i]));
            assert(self.diverged(g, col, row, d2[i]));
        }
        assert(d1 =~= d2);
    }

    /// With a deterministic arithmetic relaxation has one result.
    pub proof fn lemma_relaxed_unique(
        self,
        g: GridView<T>,
        d: Seq<T>,
        q1: Seq<T>,
        q2: Seq<T>,
        n: nat,
    )
        requires
            self.deterministic(),
            g.wf(),
            self.relaxed(g, d, q1, n),
            self.relaxed(g, d, q2, n),
        ensures
            q1 == q2,
        decreases n,
    {
        if n > 0 {
            let m1 = choose|m: Seq<T>|
                self.relaxed(g, d, m, (n - 1) as nat) && #[trigger] self.relaxed_once(g, d, m, q1);
            let m2 = choose|m: Seq<T>|
                self.relaxed(g, d, m, (n - 1) as nat) && #[trigger] self.relaxed_once(g, d, m, q2);
            self.lemma_relaxed_unique(g, d, m1, m2, (n - 1) as nat);
            let rule = self.relax_rule(g.nx, g.dx, d, m1);
            assert forall|col: int, row: int, t1: T, t2: T| #[trigger]
                rule(col, row, t1) && #[trigger] rule(col, row, t2) implies t1 == t2 by {
                assert(self.relaxed_cell(g.nx, g.dx, d, m1, col, row, t1));
                assert(self.relaxed_cell(g.nx, g.dx, d, m1, col, row, t2));
            }
            lemma_swept_unique(g.nx, g.ny, inner_cells(g.nx, g.ny), rule, m1, q1, q2);
        }
    }

    /// With a deterministic arithmetic projection has one result.
    pub proof fn lemma_projected_unique(
        self,
        g0: GridView<T>,
        dt: T,
        g1: GridView<T>,
        g2: GridView<T>,
    )
        requires
            self.deterministic(),
            g0.wf(),
            self.projected(g0, dt, g1),
            self.projected(g0, dt, g2),
        ensures
            g1 == g2,
    {
        let rule_u = self.correct_u_rule(g0, dt);
        assert forall|col: int, row: int, t1: T, t2: T| #[trigger]
            rule_u(col, row, t1) && #[trigger] rule_u(col, row, t2) implies t1 == t2 by {
            assert(self.corrected_u(g0, dt, col, row, t1));
            assert(self.corrected_u(g0, dt, col, row, t2));
        }
        lemma_swept_unique(
            g0.nx + 1,
            g0.ny,
            corrected_u_faces(g0.nx, g0.ny),
            rule_u,
            g0.u,
            g1.u,
            g2.u,
        );
        let rule_v = self.correct_v_rule(g0, dt);
        assert forall|col: int, row: int, t1: T, t2: T| #[trigger]
            rule_v(col, row, t1) && #[trigger] rule_v(col, row, t2) implies t1 == t2 by {
            assert(self.corrected_v(g0, dt, col, row, t1));
            assert(self.corrected_v(g0, dt, col, row, t2));
        }
        lemma_swept_unique(
            g0.nx,
            g0.ny + 1,
            corrected_v_faces(g0.nx, g0.ny),
            rule_v,
            g0.v,
            g1.v,
            g2.v,
        );
    }

    /// With a deterministic arithmetic a pressure solve has one result.
    pub proof fn lemma_pressure_solved_unique(
        self,
        g0: GridView<T>,
        g1: GridView<T>,
        g2: GridView<T>,
    )
        requires
            self.deterministic(),
            g0.wf(),
            self.pressure_solved(g0, g1),
            self.pressure_solved(g0, g2),
        ensures
            g1 == g2,
    {
        let d1 = choose|d: Seq<T>| #[trigger]
            self.is_divergence(g0, d) && self.relaxed(g0, d, g1.p, g0.sweeps as nat);
        let d2 = choose|d: Seq<T>| #[trigger]
            self.is_divergence(g0, d) && self.relaxed(g0, d, g2.p, g0.sweeps as nat);
        self.lemma_divergence_unique(g0, d1, d2);
        self.lemma_relaxed_unique(g0, d1, g1.p, g2.p, g0.sweeps as nat);
    }

    /// A step is determined by the grid and the time increment: with a
    /// deterministic arithmetic, two steps of the same `dt` from the same
    /// grid end in the same grid.
    pub proof fn step_is_deterministic(
        self,
        g0: GridView<T>,
        dt: T,
        g1: GridView<T>,
        g2: GridView<T>,
    )
        requires
            self.deterministic(),
            g0.wf(),
            self.stepped(g0, dt, g1),
            self.stepped(g0, dt, g2),
        ensures
            g1 == g2,
    {
        let (a1, b1, c1) = choose|a: GridView<T>, b: GridView<T>, c: GridView<T>|
            {
                &&& #[trigger] self.advected(g0, dt, a)
                &&& #[trigger] self.pressure_solved(a, b)
                &&& #[trigger] self.projected(b, dt, c)
                &&& c.walled(self.zero, g1)
            };
        let (a2, b2, c2) = choose|a: GridView<T>, b: GridView<T>, c: GridView<T>|
            {
                &&& #[trigger] self.advected(g0, dt, a)
                &&& #[trigger] self.pressure_solved(a, b)
                &&& #[trigger] self.projected(b, dt, c)
                &&& c.walled(self.zero, g2)
            };
        self.lemma_advected_unique(g0, dt, a1, a2);
        self.lemma_pressure_solved_unique(a1, b1, b2);
        let d = choose|d: Seq<T>| #[trigger]
            self.is_divergence(a1, d) && self.relaxed(a1, d, b1.p, a1.sweeps as nat);
        self.lemma_relaxed_keeps_size(a1, d, b1.p, a1.sweeps as nat);
        self.lemma_projected_unique(b1, dt, c1, c2);
        c1.lemma_walled_unique(self.zero, g1, g2);
    }

    /// Two grids that start equal and are stepped with the same time
    /// increments, in the same order, end equal, where the arithmetic is
    /// deterministic.
    pub proof fn steps_are_deterministic(
        self,
        g0: GridView<T>,
        dts: Seq<T>,
        g1: GridView<T>,
        g2: GridView<T>,
    )
        requires
            self.deterministic(),
            g0.wf(),
            self.stepped_through(g0, dts, g1),
            self.stepped_through(g0, dts, g2),
        ensures
            g1 == g2,
        decreases dts.len(),
    {
        if dts.len() > 0 {
            let m1 = choose|m: GridView<T>|
                self.stepped_through(g0, dts.drop_last(), m) && #[trigger] self.stepped(
                    m,
                    dts.last(),
                    g1,
                );
            let m2 = choose|m: GridView<T>|
                self.stepped_through(g0, dts.drop_last(), m) && #[trigger] self.stepped(
                    m,
                    dts.last(),
                    g2,
                );
            self.steps_are_deterministic(g0, dts.drop_last(), m1, m2);
            self.lemma_steps_keep_shape(g0, dts.drop_last(), m1);
            self.step_is_deterministic(m1, dts.last(), g1, g2);
        }
    }
}

} // verus!
