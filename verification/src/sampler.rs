//! Velocity at a point of the plane, from the four faces around it.

use crate::arithmetic::Arithmetic;
use crate::grid::{FluidGrid, GridView};
use crate::layout::{next_index, nearest_index};
use vstd::prelude::*;

verus! {

impl<
    T,
    Locate: Fn(T, T, usize, bool) -> (i64, T),
    Blend: Fn(T, T, T, T, T, T) -> T,
    Place: Fn(usize, T, bool) -> T,
    Trace: Fn(T, T, T) -> T,
    Diverge: Fn(T, T, T, T, T) -> T,
    Relax: Fn(T, T, T, T, T, T) -> T,
    Correct: Fn(T, T, T, T, T) -> T,
> Arithmetic<T, Locate, Blend, Place, Trace, Diverge, Relax, Correct> {
    /// `out` is a horizontal velocity of `g` at `(x, y)`: `x` is located
    /// among the face columns, `y` among the face rows, which lie half a cell
    /// higher, and `out` blends the four faces around the point, each
    /// replaced by the nearest face where the grid has none.
    pub open spec fn sampled_u(self, g: GridView<T>, x: T, y: T, out: T) -> bool {
        exists|i: i64, tx: T, j: i64, ty: T|
            {
                &&& #[trigger] self.locate.ensures((x, g.dx, g.nx as usize, false), (i, tx))
                &&& #[trigger] self.locate.ensures((y, g.dx, g.ny as usize, true), (j, ty))
                &&& self.blend.ensures(
                    (
                        g.u_near(i as int, j as int),
                        g.u_near(i + 1, j as int),
                        g.u_near(i as int, j + 1),
                        g.u_near(i + 1, j + 1),
                        tx,
                        ty,
                    ),
                    out,
                )
            }
    }

    /// `out` is a vertical velocity of `g` at `(x, y)`: `x` is located among
    /// the face columns, which lie half a cell further right, `y` among the
    /// face rows, and `out` blends the four faces around the point, each
    /// replaced by the nearest face where the grid has none.
    pub open spec fn sampled_v(self, g: GridView<T>, x: T, y: T, out: T) -> bool {
        exists|i: i64, tx: T, j: i64, ty: T|
            {
                &&& #[trigger] self.locate.ensures((x, g.dx, g.nx as usize, true), (i, tx))
                &&& #[trigger] self.locate.ensures((y, g.dx, g.ny as usize, false), (j, ty))
                &&& self.blend.ensures(
                    (
                        g.v_near(i as int, j as int),
                        g.v_near(i + 1, j as int),
                        g.v_near(i as int, j + 1),
                        g.v_near(i + 1, j + 1),
                        tx,
                        ty,
                    ),
                    out,
                )
            }
    }

    /// `out` is a velocity of `g` at `(x, y)`.
    pub open spec fn sampled(self, g: GridView<T>, x: T, y: T, out: (T, T)) -> bool {
        self.sampled_u(g, x, y, out.0) && self.sampled_v(g, x, y, out.1)
    }
}

impl<T> GridView<T> {
    /// The face nearest to a face of the grid is that face.
    pub proof fn lemma_near_on_grid(self, col: int, row: int)
        requires
            self.wf(),
        ensures
            self.is_u_face(col, row) ==> self.u_near(col, row) == self.u_at(col, row),
            self.is_v_face(col, row) ==> self.v_near(col, row) == self.v_at(col, row),
    {
    }
}

impl<
    T,
    Locate: Fn(T, T, usize, bool) -> (i64, T),
    Blend: Fn(T, T, T, T, T, T) -> T,
    Place: Fn(usize, T, bool) -> T,
    Trace: Fn(T, T, T) -> T,
    Diverge: Fn(T, T, T, T, T) -> T,
    Relax: Fn(T, T, T, T, T, T) -> T,
    Correct: Fn(T, T, T, T, T) -> T,
> Arithmetic<T, Locate, Blend, Place, Trace, Diverge, Relax, Correct> {
    /// `locate` puts `x2` wherever it puts `x1`, on either lattice of an
    /// axis of `cells` cells of width `dx`.
    pub open spec fn located_alike(self, dx: T, cells: usize, x1: T, x2: T) -> bool {
        forall|staggered: bool, r: (i64, T)| #[trigger]
            self.locate.ensures((x1, dx, cells, staggered), r) ==> self.locate.ensures(
                (x2, dx, cells, staggered),
                r,
            )
    }

    /// `locate` puts `x` on face `k` of an axis of `cells` cells of width
    /// `dx`, with the weight `t` for the face after it.
    pub open spec fn located_at(
        self,
        dx: T,
        cells: usize,
        staggered: bool,
        x: T,
        k: int,
        t: T,
    ) -> bool {
        forall|r: (i64, T)| #[trigger]
            self.locate.ensures((x, dx, cells, staggered), r) ==> r.0 == k && r.1 == t
    }

    /// Sampling sees a point only through where `locate` puts it: a velocity
    /// at `(x1, y1)` is a velocity at every point that `locate` puts where it
    /// puts `(x1, y1)`. Where `locate` moves a coordinate outside the domain
    /// to its edge, the velocity far outside is the velocity on the edge.
    pub proof fn sampling_follows_location(
        self,
        g: GridView<T>,
        x1: T,
        y1: T,
        x2: T,
        y2: T,
        out: (T, T),
    )
        requires
            self.located_alike(g.dx, g.nx as usize, x1, x2),
            self.located_alike(g.dx, g.ny as usize, y1, y2),
            self.sampled(g, x1, y1, out),
        ensures
            self.sampled(g, x2, y2, out),
    {
        let (i, tx, j, ty) = choose|i: i64, tx: T, j: i64, ty: T|
            {
                &&& #[trigger] self.locate.ensures((x1, g.dx, g.nx as usize, false), (i, tx))
                &&& #[trigger] self.locate.ensures((y1, g.dx, g.ny as usize, true), (j, ty))
                &&& self.blend.ensures(
                    (
                        g.u_near(i as int, j as int),
                        g.u_near(i + 1, j as int),
                        g.u_near(i as int, j + 1),
                        g.u_near(i + 1, j + 1),
                        tx,
                        ty,
                    ),
                    out.0,
                )
            };
        assert(self.locate.ensures((x2, g.dx, g.nx as usize, false), (i, tx)));
        assert(self.locate.ensures((y2, g.dx, g.ny as usize, true), (j, ty)));
        let (k, sx, l, sy) = choose|k: i64, sx: T, l: i64, sy: T|
            {
                &&& #[trigger] self.locate.ensures((x1, g.dx, g.nx as usize, true), (k, sx))
                &&& #[trigger] self.locate.ensures((y1, g.dx, g.ny as usize, false), (l, sy))
                &&& self.blend.ensures(
                    (
                        g.v_near(k as int, l as int),
                        g.v_near(k + 1, l as int),
                        g.v_near(k as int, l + 1),
                        g.v_near(k + 1, l + 1),
                        sx,
                        sy,
                    ),
                    out.1,
                )
            };
        assert(self.locate.ensures((x2, g.dx, g.nx as usize, true), (k, sx)));
        assert(self.locate.ensures((y2, g.dx, g.ny as usize, false), (l, sy)));
    }

    /// Sampling on a vertical face returns the velocity stored for it: where
    /// `locate` puts `(x, y)` on face `(col, row)`, and `blend` returns the
    /// first of the four faces around the point for the weights that come
    /// with it, the horizontal velocity at `(x, y)` is that of the face.
    pub proof fn sampling_on_u_face_is_exact(
        self,
        g: GridView<T>,
        x: T,
        y: T,
        col: int,
        row: int,
        tx: T,
        ty: T,
        out: T,
    )
        requires
            g.wf(),
            g.is_u_face(col, row),
            self.located_at(g.dx, g.nx as usize, false, x, col, tx),
            self.located_at(g.dx, g.ny as usize, true, y, row, ty),
            forall|r: T| #[trigger]
                self.blend.ensures(
                    (
                        g.u_near(col, row),
                        g.u_near(col + 1, row),
                        g.u_near(col, row + 1),
                        g.u_near(col + 1, row + 1),
                        tx,
                        ty,
                    ),
                    r,
                ) ==> r == g.u_near(col, row),
            self.sampled_u(g, x, y, out),
        ensures
            out == g.u_at(col, row),
    {
        let (i, sx, j, sy) = choose|i: i64, sx: T, j: i64, sy: T|
            {
                &&& #[trigger] self.locate.ensures((x, g.dx, g.nx as usize, false), (i, sx))
                &&& #[trigger] self.locate.ensures((y, g.dx, g.ny as usize, true), (j, sy))
                &&& self.blend.ensures(
                    (
                        g.u_near(i as int, j as int),
                        g.u_near(i + 1, j as int),
                        g.u_near(i as int, j + 1),
                        g.u_near(i + 1, j + 1),
                        sx,
                        sy,
                    ),
                    out,
                )
            };
        assert(i == col && sx == tx && j == row && sy == ty);
        g.lemma_near_on_grid(col, row);
    }

    /// Sampling on a horizontal face returns the velocity stored for it:
    /// where `locate` puts `(x, y)` on face `(col, row)`, and `blend` returns
    /// the first of the four faces around the point for the weights that
    /// come with it, the vertical velocity at `(x, y)` is that of the face.
    pub proof fn sampling_on_v_face_is_exact(
        self,
        g: GridView<T>,
        x: T,
        y: T,
        col: int,
        row: int,
        tx: T,
        ty: T,
        out: T,
    )
        requires
            g.wf(),
            g.is_v_face(col, row),
            self.located_at(g.dx, g.nx as usize, true, x, col, tx),
            self.located_at(g.dx, g.ny as usize, false, y, row, ty),
            forall|r: T| #[trigger]
                self.blend.ensures(
                    (
                        g.v_near(col, row),
                        g.v_near(col + 1, row),
                        g.v_near(col, row + 1),
                        g.v_near(col + 1, row + 1),
                        tx,
                        ty,
                    ),
                    r,
                ) ==> r == g.v_near(col, row),
            self.sampled_v(g, x, y, out),
        ensures
            out == g.v_at(col, row),
    {
        let (i, sx, j, sy) = choose|i: i64, sx: T, j: i64, sy: T|
            {
                &&& #[trigger] self.locate.ensures((x, g.dx, g.nx as usize, true), (i, sx))
                &&& #[trigger] self.locate.ensures((y, g.dx, g.ny as usize, false), (j, sy))
                &&& self.blend.ensures(
                    (
                        g.v_near(i as int, j as int),
                        g.v_near(i + 1, j as int),
                        g.v_near(i as int, j + 1),
                        g.v_near(i + 1, j + 1),
                        sx,
                        sy,
                    ),
                    out,
                )
            };
        assert(i == col && sx == tx && j == row && sy == ty);
        g.lemma_near_on_grid(col, row);
    }
}

impl<
    T: Copy,
    Locate: Fn(T, T, usize, bool) -> (i64, T),
    Blend: Fn(T, T, T, T, T, T) -> T,
    Place: Fn(usize, T, bool) -> T,
    Trace: Fn(T, T, T) -> T,
    Diverge: Fn(T, T, T, T, T) -> T,
    Relax: Fn(T, T, T, T, T, T) -> T,
    Correct: Fn(T, T, T, T, T) -> T,
> FluidGrid<T, Locate, Blend, Place, Trace, Diverge, Relax, Correct> {
    /// Horizontal velocity on the vertical face nearest to `(col, row)`.
    pub fn u_nearest(&self, col: i64, row: i64) -> (value: T)
        requires
            self@.wf(),
        ensures
            value == self@.u_near(col as int, row as int),
    {
        self.u(nearest_index(col, self.nx()), nearest_index(row, self.ny() - 1))
    }

    /// Vertical velocity on the horizontal face nearest to `(col, row)`.
    pub fn v_nearest(&self, col: i64, row: i64) -> (value: T)
        requires
            self@.wf(),
        ensures
            value == self@.v_near(col as int, row as int),
    {
        self.v(nearest_index(col, self.nx() - 1), nearest_index(row, self.ny()))
    }

    /// The velocity at `(x, y)`, horizontal component first. A point outside
    /// the domain is read as the nearest point of its edge.
    pub fn get_velocity(&self, x: T, y: T) -> (out: (T, T))
        requires
            self.wf(),
        ensures
            self.ops().sampled(self@, x, y, out),
    {
        let ops = self.arithmetic();
        let nx = self.nx();
        let ny = self.ny();
        let dx = self.dx();

        let (ui, utx) = (ops.locate)(x, dx, nx, false);
        let (uj, uty) = (ops.locate)(y, dx, ny, true);
        let uc0 = nearest_index(ui, nx);
        let uc1 = next_index(ui, nx);
        let ur0 = nearest_index(uj, ny - 1);
        let ur1 = next_index(uj, ny - 1);
        let u_out = (ops.blend)(
            self.u(uc0, ur0),
            self.u(uc1, ur0),
            self.u(uc0, ur1),
            self.u(uc1, ur1),
            utx,
            uty,
        );

        let (vi, vtx) = (ops.locate)(x, dx, nx, true);
        let (vj, vty) = (ops.locate)(y, dx, ny, false);
        let vc0 = nearest_index(vi, nx - 1);
        let vc1 = next_index(vi, nx - 1);
        let vr0 = nearest_index(vj, ny);
        let vr1 = next_index(vj, ny);
        let v_out = (ops.blend)(
            self.v(vc0, vr0),
            self.v(vc1, vr0),
            self.v(vc0, vr1),
            self.v(vc1, vr1),
            vtx,
            vty,
        );
        (u_out, v_out)
    }
}

} // verus!
