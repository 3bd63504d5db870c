//! A grid at rest stays at rest.

use crate::advect::{carried_u_faces, carried_v_faces};
use crate::arithmetic::Arithmetic;
use crate::grid::GridView;
use crate::layout::{
    clamp, col_of, lemma_coords_round_trip, lemma_flat_in_range, on_lattice, p_index, row_of,
};
use crate::pressure::inner_cells;
use crate::project::{corrected_u_faces, corrected_v_faces};
use crate::sweep::lemma_swept_uniform;
use vstd::prelude::*;

verus! {

impl<T> GridView<T> {
    /// On a grid whose samples are all `value`, the face nearest to any
    /// place holds `value`.
    pub proof fn lemma_near_uniform(self, value: T, col: int, row: int)
        requires
            self.wf(),
            self.all(value),
        ensures
            self.u_near(col, row) == value,
            self.v_near(col, row) == value,
    {
        lemma_flat_in_range(self.nx + 1, self.ny, clamp(col, self.nx), clamp(row, self.ny - 1));
        lemma_flat_in_range(self.nx, self.ny + 1, clamp(col, self.nx - 1), clamp(row, self.ny));
    }

    /// On a grid whose samples are all `value`, every cell and every face
    /// holds `value`.
    pub proof fn lemma_at_uniform(self, value: T, col: int, row: int)
        requires
            self.wf(),
            self.all(value),
        ensures
            self.is_cell(col, row) ==> self.p_at(col, row) == value,
            self.is_u_face(col, row) ==> self.u_at(col, row) == value,
            self.is_v_face(col, row) ==> self.v_at(col, row) == value,
    {
        if self.is_cell(col, row) {
            lemma_flat_in_range(self.nx, self.ny, col, row);
        }
        if self.is_u_face(col, row) {
            lemma_flat_in_range(self.nx + 1, self.ny, col, row);
        }
        if self.is_v_face(col, row) {
            lemma_flat_in_range(self.nx, self.ny + 1, col, row);
        }
    }

    /// Walling a grid whose samples are all `rest` changes nothing.
    pub proof fn lemma_walled_uniform(self, rest: T, after: GridView<T>)
        requires
            self.wf(),
            self.all(rest),
            self.walled(rest, after),
        ensures
            after.all(rest),
    {
        assert forall|i: int| 0 <= i < after.u.len() implies after.u[i] == rest by {
            lemma_coords_round_trip(self.nx + 1, self.ny, i);
            let col = col_of(self.nx + 1, i);
            let row = row_of(self.nx + 1, i);
            assert(after.u_at(col, row) == after.u[i]);
            assert(self.u_at(col, row) == self.u[i]);
        }
        assert forall|i: int| 0 <= i < after.v.len() implies after.v[i] == rest by {
            lemma_coords_round_trip(self.nx, self.ny + 1, i);
            let col = col_of(self.nx, i);
            let row = row_of(self.nx, i);
            assert(after.v_at(col, row) == after.v[i]);
            assert(self.v_at(col, row) == self.v[i]);
        }
    }
}

impl<
    T,
    Locate: Fn(T, T, usize, bool) -> (i64, T),
    Blend: Fn(T, T, T, T, T, T) -> T,
    Place: Fn(usize, T, bool) -> T,
    Trace: Fn(T, T, T) -> T,
    Diverge: Fn(T, T, T, T, T) -> T,
    Relax: Fn(T, T, T, T, T, T) -> T,
    Correct: Fn(T, T, T, T, T) -> T,
> Arithmetic<T, Locate, Blend, Place, Trace, Diverge, Relax, Correct> {
    /// The velocity sampled on a grid at rest is at rest.
    pub proof fn lemma_sampled_at_rest(self, g: GridView<T>, x: T, y: T, out: (T, T))
        requires
            self.blends_rest(g.dx),
            g.wf(),
            g.all(self.zero),
            self.sampled(g, x, y, out),
        ensures
            out.0 == self.zero,
            out.1 == self.zero,
    {
        let (i, tx, j, ty) = choose|i: i64, tx: T, j: i64, ty: T|
            {
                &&& #[trigger] self.locate.ensures((x, g.dx, g.nx as usize, false), (i, tx))
                &&& #[trigger] self.locate.ensures((y, g.dx, g.ny as usize, true), (j, ty))
                &&& self.blend.ensures(
                    (
                        g.u_near(i as int, j as int),
                        g.u_near(i + 1, j as int),
                        g.u_near(i as int, j + 1),
                        g.u_near(i + 1, j + 1),
                        tx,
                        ty,
                    ),
                    out.0,
                )
            };
        g.lemma_near_uniform(self.zero, i as int, j as int);
        g.lemma_near_uniform(self.zero, i + 1, j as int);
        g.lemma_near_uniform(self.zero, i as int, j + 1);
        g.lemma_near_uniform(self.zero, i + 1, j + 1);
        let (k, sx, l, sy) = choose|k: i64, sx: T, l: i64, sy: T|
            {
                &&& #[trigger] self.locate.ensures((x, g.dx, g.nx as usize, true), (k, sx))
                &&& #[trigger] self.locate.ensures((y, g.dx, g.ny as usize, false), (l, sy))
                &&& self.blend.ensures(
                    (
                        g.v_near(k as int, l as int),
                        g.v_near(k + 1, l as int),
                        g.v_near(k as int, l + 1),
                        g.v_near(k + 1, l + 1),
                        sx,
                        sy,
                    ),
                    out.1,
                )
            };
        g.lemma_near_uniform(self.zero, k as int, l as int);
        g.lemma_near_uniform(self.zero, k + 1, l as int);
        g.lemma_near_uniform(self.zero, k as int, l + 1);
        g.lemma_near_uniform(self.zero, k + 1, l + 1);
    }

    /// The velocity carried to any point of a grid at rest is at rest.
    pub proof fn lemma_carried_at_rest(self, g: GridView<T>, dt: T, x: T, y: T, out: (T, T))
        requires
            self.blends_rest(g.dx),
            g.wf(),
            g.all(self.zero),
            self.carried_to(g, dt, x, y, out),
        ensures
            out.0 == self.zero,
            out.1 == self.zero,
    {
        let (w, xs, ys) = choose|w: (T, T), xs: T, ys: T|
            {
                &&& #[trigger] self.sampled(g, x, y, w)
                &&& #[trigger] self.trace.ensures((x, dt, w.0), xs)
                &&& #[trigger] self.trace.ensures((y, dt, w.1), ys)
                &&& self.sampled(g, xs, ys, out)
            };
        self.lemma_sampled_at_rest(g, xs, ys, out);
    }

    /// Advection leaves a grid at rest at rest.
    pub proof fn lemma_advected_at_rest(self, g0: GridView<T>, dt: T, g1: GridView<T>)
        requires
            self.blends_rest(g0.dx),
            g0.wf(),
            g0.all(self.zero),
            self.advected(g0, dt, g1),
        ensures
            g1.all(self.zero),
    {
        let rule_u = self.carry_u_rule(g0, dt);
        assert forall|col: int, row: int, t: T| #[trigger] rule_u(col, row, t) implies t
            == self.zero by {
            let (x, y, s) = choose|x: T, y: T, s: (T, T)|
                {
                    &&& #[trigger] self.place.ensures((col as usize, g0.dx, false), x)
                    &&& #[trigger] self.place.ensures((row as usize, g0.dx, true), y)
                    &&& #[trigger] self.carried_to(g0, dt, x, y, s)
                    &&& s.0 == t
                };
            self.lemma_carried_at_rest(g0, dt, x, y, s);
        }
        lemma_swept_uniform(
            g0.nx + 1,
            g0.ny,
            carried_u_faces(g0.nx, g0.ny),
            rule_u,
            g0.u,
            g1.u,
            self.zero,
        );
        let rule_v = self.carry_v_rule(g0, dt);
        assert forall|col: int, row: int, t: T| #[trigger] rule_v(col, row, t) implies t
            == self.zero by {
            let (x, y, s) = choose|x: T, y: T, s: (T, T)|
                {
                    &&& #[trigger] self.place.ensures((col as usize, g0.dx, true), x)
                    &&& #[trigger] self.place.ensures((row as usize, g0.dx, false), y)
                    &&& #[trigger] self.carried_to(g0, dt, x, y, s)
                    &&& s.1 == t
                };
            self.lemma_carried_at_rest(g0, dt, x, y, s);
        }
        lemma_swept_uniform(
            g0.nx,
            g0.ny + 1,
            carried_v_faces(g0.nx, g0.ny),
            rule_v,
            g0.v,
            g1.v,
            self.zero,
        );
    }

    /// The divergence of a grid at rest is at rest.
    pub proof fn lemma_divergence_at_rest(self, g: GridView<T>, d: Seq<T>)
        requires
            forall|r: T| #[trigger]
                self.diverge.ensures((g.dx, self.zero, self.zero, self.zero, self.zero), r) ==> r
                    == self.zero,
            g.wf(),
            g.all(self.zero),
            self.is_divergence(g, d),
        ensures
            forall|i: int| 0 <= i < d.len() ==> d[i] == self.zero,
    {
        assert forall|i: int| 0 <= i < d.len() implies d[i] == self.zero by {
            lemma_coords_round_trip(g.nx, g.ny, i);
            let col = col_of(g.nx, i);
            let row = row_of(g.nx, i);
            assert(p_index(g.nx, col, row) == i);
            assert(self.diverged(g, col, row, d[i]));
            g.lemma_at_uniform(self.zero, col + 1, row);
            g.lemma_at_uniform(self.zero, col, row);
            g.lemma_at_uniform(self.zero, col, row + 1);
        }
    }

    /// Relaxing a pressure at rest with a divergence at rest leaves it at
    /// rest.
    pub proof fn lemma_relaxed_at_rest(self, g: GridView<T>, d: Seq<T>, q: Seq<T>, n: nat)
        requires
            forall|r: T| #[trigger]
                self.relax.ensures(
                    (g.dx, self.zero, self.zero, self.zero, self.zero, self.zero),
                    r,
                ) ==> r == self.zero,
            g.wf(),
            g.all(self.zero),
            d.len() == g.nx * g.ny,
            forall|i: int| 0 <= i < d.len() ==> d[i] == self.zero,
            self.relaxed(g, d, q, n),
        ensures
            q.len() == g.p.len(),
            forall|i: int| 0 <= i < q.len() ==> q[i] == self.zero,
        decreases n,
    {
        if n > 0 {
            let m = choose|m: Seq<T>|
                self.relaxed(g, d, m, (n - 1) as nat) && #[trigger] self.relaxed_once(g, d, m, q);
            self.lemma_relaxed_at_rest(g, d, m, (n - 1) as nat);
            let rule = self.relax_rule(g.nx, g.dx, d, m);
            let inner = inner_cells(g.nx, g.ny);
            assert forall|col: int, row: int, t: T|
                on_lattice(g.nx, g.ny, col, row) && inner.contains(col, row) && #[trigger] rule(
                    col,
                    row,
                    t,
                ) implies t == self.zero by {
                lemma_flat_in_range(g.nx, g.ny, col + 1, row);
                lemma_flat_in_range(g.nx, g.ny, col - 1, row);
                lemma_flat_in_range(g.nx, g.ny, col, row + 1);
                lemma_flat_in_range(g.nx, g.ny, col, row - 1);
                lemma_flat_in_range(g.nx, g.ny, col, row);
            }
            lemma_swept_uniform(g.nx, g.ny, inner, rule, m, q, self.zero);
        }
    }

    /// Projection leaves a grid at rest at rest.
    pub proof fn lemma_projected_at_rest(self, g0: GridView<T>, dt: T, g1: GridView<T>)
        requires
            forall|r: T| #[trigger]
                self.correct.ensures((dt, g0.dx, self.zero, self.zero, self.zero), r) ==> r
                    == self.zero,
            g0.wf(),
            g0.all(self.zero),
            self.projected(g0, dt, g1),
        ensures
            g1.all(self.zero),
    {
        let rule_u = self.correct_u_rule(g0, dt);
        let faces_u = corrected_u_faces(g0.nx, g0.ny);
        assert forall|col: int, row: int, t: T|
            on_lattice(g0.nx + 1, g0.ny, col, row) && faces_u.contains(col, row)
                && #[trigger] rule_u(col, row, t) implies t == self.zero by {
            g0.lemma_at_uniform(self.zero, col, row);
            g0.lemma_at_uniform(self.zero, col - 1, row);
        }
        lemma_swept_uniform(g0.nx + 1, g0.ny, faces_u, rule_u, g0.u, g1.u, self.zero);
        let rule_v = self.correct_v_rule(g0, dt);
        let faces_v = corrected_v_faces(g0.nx, g0.ny);
        assert forall|col: int, row: int, t: T|
            on_lattice(g0.nx, g0.ny + 1, col, row) && faces_v.contains(col, row)
                && #[trigger] rule_v(col, row, t) implies t == self.zero by {
            g0.lemma_at_uniform(self.zero, col, row);
            g0.lemma_at_uniform(self.zero, col, row - 1);
        }
        lemma_swept_uniform(g0.nx, g0.ny + 1, faces_v, rule_v, g0.v, g1.v, self.zero);
    }

    /// A step leaves a grid at rest at rest: where the arithmetic keeps
    /// samples at rest over `dt` on cells of this width, and every sample of
    /// the pressure and of the velocity is at rest before the step, every
    /// sample is at rest after it.
    pub proof fn step_keeps_rest(self, g0: GridView<T>, dt: T, g1: GridView<T>)
        requires
            self.keeps_rest(g0.dx, dt),
            g0.wf(),
            g0.all(self.zero),
            self.stepped(g0, dt, g1),
        ensures
            g1.wf(),
            g1.all(self.zero),
    {
        let (a, b, c) = choose|a: GridView<T>, b: GridView<T>, c: GridView<T>|
            {
                &&& #[trigger] self.advected(g0, dt, a)
                &&& #[trigger] self.pressure_solved(a, b)
                &&& #[trigger] self.projected(b, dt, c)
                &&& c.walled(self.zero, g1)
            };
        self.lemma_advected_at_rest(g0, dt, a);
        let d = choose|d: Seq<T>| #[trigger]
            self.is_divergence(a, d) && self.relaxed(a, d, b.p, a.sweeps as nat);
        self.lemma_divergence_at_rest(a, d);
        self.lemma_relaxed_at_rest(a, d, b.p, a.sweeps as nat);
        self.lemma_projected_at_rest(b, dt, c);
        c.lemma_walled_uniform(self.zero, g1);
        self.lemma_step_keeps_shape(g0, dt, g1);
    }

    /// Any number of steps leaves a grid at rest at rest.
    pub proof fn steps_keep_rest(self, g0: GridView<T>, dts: Seq<T>, g1: GridView<T>)
        requires
            forall|k: int| 0 <= k < dts.len() ==> self.keeps_rest(g0.dx, #[trigger] dts[k]),
            g0.wf(),
            g0.all(self.zero),
            self.stepped_through(g0, dts, g1),
        ensures
            g1.wf(),
            g1.all(self.zero),
        decreases dts.len(),
    {
        if dts.len() > 0 {
            let m = choose|m: GridView<T>|
                self.stepped_through(g0, dts.drop_last(), m) && #[trigger] self.stepped(
                    m,
                    dts.last(),
                    g1,
                );
            assert forall|k: int| 0 <= k < dts.drop_last().len() implies self.keeps_rest(
                g0.dx,
                #[trigger] dts.drop_last()[k],
            ) by {
                assert(dts.drop_last()[k] == dts[k]);
            }
            self.steps_keep_rest(g0, dts.drop_last(), m);
            self.lemma_steps_keep_shape(g0, dts.drop_last(), m);
            assert(self.keeps_rest(g0.dx, dts[dts.len() - 1]));
            self.step_keeps_rest(m, dts.last(), g1);
        }
    }
}

} // verus!
