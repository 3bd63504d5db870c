//! The pressure whose gradient cancels the divergence of the velocity:
//! divergence of every cell, then a fixed number of relaxation sweeps.

use crate::arithmetic::Arithmetic;
use crate::grid::{duplicate, FluidGrid, GridView};
use crate::layout::p_index;
use crate::sweep::{
    lemma_sweep_done, lemma_sweep_row_done, lemma_sweep_start, lemma_sweep_store, swept,
    swept_to, Region,
};
use vstd::prelude::*;

verus! {

/// Every cell.
pub open spec fn all_cells(nx: int, ny: int) -> Region {
    Region { c0: 0, c1: nx, r0: 0, r1: ny }
}

/// The cells that relaxation writes: those with a neighbour on every side.
pub open spec fn inner_cells(nx: int, ny: int) -> Region {
    Region { c0: 1, c1: nx - 1, r0: 1, r1: ny - 1 }
}

impl<
    T,
    Locate: Fn(T, T, usize, bool) -> (i64, T),
    Blend: Fn(T, T, T, T, T, T) -> T,
    Place: Fn(usize, T, bool) -> T,
    Trace: Fn(T, T, T) -> T,
    Diverge: Fn(T, T, T, T, T) -> T,
    Relax: Fn(T, T, T, T, T, T) -> T,
    Correct: Fn(T, T, T, T, T) -> T,
> Arithmetic<T, Locate, Blend, Place, Trace, Diverge, Relax, Correct> {
    /// `out` is a divergence of cell `(col, row)` of `g`, from the velocities
    /// on its right, left, top and bottom faces.
    pub open spec fn diverged(self, g: GridView<T>, col: int, row: int, out: T) -> bool {
        self.diverge.ensures(
            (
                g.dx,
                g.u_at(col + 1, row),
                g.u_at(col, row),
                g.v_at(col, row + 1),
                g.v_at(col, row),
            ),
            out,
        )
    }

    /// `d` holds a divergence of every cell of `g`.
    pub open spec fn is_divergence(self, g: GridView<T>, d: Seq<T>) -> bool {
        &&& d.len() == g.nx * g.ny
        &&& forall|col: int, row: int|
            g.is_cell(col, row) ==> self.diverged(
                g,
                col,
                row,
                d[#[trigger] p_index(g.nx, col, row)],
            )
    }

    /// `out` is a next pressure of cell `(col, row)`, from the pressures `p`
    /// of its right, left, top and bottom neighbours and its divergence in
    /// `d`, on a grid `nx` cells wide with cells of width `dx`.
    pub open spec fn relaxed_cell(
        self,
        nx: int,
        dx: T,
        d: Seq<T>,
        p: Seq<T>,
        col: int,
        row: int,
        out: T,
    ) -> bool {
        self.relax.ensures(
            (
                dx,
                p[p_index(nx, col + 1, row)],
                p[p_index(nx, col - 1, row)],
                p[p_index(nx, col, row + 1)],
                p[p_index(nx, col, row - 1)],
                d[p_index(nx, col, row)],
            ),
            out,
        )
    }

    /// The rule of one relaxation sweep over the pressure `p`.
    pub open spec fn relax_rule(self, nx: int, dx: T, d: Seq<T>, p: Seq<T>) -> spec_fn(
        int,
        int,
        T,
    ) -> bool {
        |col: int, row: int, out: T| self.relaxed_cell(nx, dx, d, p, col, row, out)
    }

    /// `q` is the pressure `p` of `g` after one sweep: every inner cell is
    /// relaxed from the neighbours as they are in `p`, every cell on the
    /// border keeps its pressure.
    pub open spec fn relaxed_once(self, g: GridView<T>, d: Seq<T>, p: Seq<T>, q: Seq<T>) -> bool {
        swept(g.nx, g.ny, inner_cells(g.nx, g.ny), self.relax_rule(g.nx, g.dx, d, p), p, q)
    }

    /// `q` is the pressure of `g` after `n` sweeps with the divergence `d`.
    pub open spec fn relaxed(self, g: GridView<T>, d: Seq<T>, q: Seq<T>, n: nat) -> bool
        decreases n,
    {
        if n == 0 {
            q == g.p
        } else {
            exists|m: Seq<T>|
                self.relaxed(g, d, m, (n - 1) as nat) && #[trigger] self.relaxed_once(g, d, m, q)
        }
    }

    /// One sweep more after `n` sweeps makes `n + 1` sweeps.
    pub proof fn lemma_relaxed_once_more(
        self,
        g: GridView<T>,
        d: Seq<T>,
        m: Seq<T>,
        q: Seq<T>,
        n: nat,
    )
        requires
            self.relaxed(g, d, m, n),
            self.relaxed_once(g, d, m, q),
        ensures
            self.relaxed(g, d, q, n + 1),
    {
        assert(self.relaxed(g, d, m, ((n + 1) - 1) as nat));
    }

    /// `g1` is `g0` after a pressure solve: its pressure is that of `g0`
    /// after `g0.sweeps` sweeps with a divergence of the velocity of `g0`,
    /// its velocity is that of `g0`.
    pub open spec fn pressure_solved(self, g0: GridView<T>, g1: GridView<T>) -> bool {
        &&& g1 == (GridView { p: g1.p, ..g0 })
        &&& exists|d: Seq<T>| #[trigger]
            self.is_divergence(g0, d) && self.relaxed(g0, d, g1.p, g0.sweeps as nat)
    }
}

impl<
    T: Copy,
    Locate: Fn(T, T, usize, bool) -> (i64, T),
    Blend: Fn(T, T, T, T, T, T) -> T,
    Place: Fn(usize, T, bool) -> T,
    Trace: Fn(T, T, T) -> T,
    Diverge: Fn(T, T, T, T, T) -> T,
    Relax: Fn(T, T, T, T, T, T) -> T,
    Correct: Fn(T, T, T, T, T) -> T,
> FluidGrid<T, Locate, Blend, Place, Trace, Diverge, Relax, Correct> {
    /// The divergence of every cell, stored as the pressure is.
    pub fn divergence(&self) -> (d: Vec<T>)
        requires
            self.wf(),
        ensures
            self.ops().is_divergence(self@, d@),
    {
        let ops = self.arithmetic();
        let nx = self.nx();
        let ny = self.ny();
        let dx = self.dx();
        let mut d = duplicate(self.p_field());
        let ghost region = all_cells(nx as int, ny as int);
        let ghost rule = |col: int, row: int, out: T| self.ops().diverged(self@, col, row, out);
        proof {
            lemma_sweep_start(nx as int, ny as int, region, rule, self@.p);
        }
        let mut j: usize = 0;
        while j < ny
            invariant
                self.wf(),
                nx == self@.nx,
                ny == self@.ny,
                dx == self@.dx,
                *ops == self.ops(),
                region == all_cells(nx as int, ny as int),
                rule == |col: int, row: int, out: T| self.ops().diverged(self@, col, row, out),
                j <= ny,
                swept_to(nx as int, ny as int, region, rule, self@.p, d@, 0, j as int),
            decreases ny - j,
        {
            let mut i: usize = 0;
            while i < nx
                invariant
                    self.wf(),
                    nx == self@.nx,
                    ny == self@.ny,
                    dx == self@.dx,
                    *ops == self.ops(),
                    region == all_cells(nx as int, ny as int),
                    rule == |col: int, row: int, out: T|
                        self.ops().diverged(self@, col, row, out),
                    j < ny,
                    swept_to(nx as int, ny as int, region, rule, self@.p, d@, i as int, j as int),
                decreases nx - i,
            {
                let out = (ops.diverge)(
                    dx,
                    self.u(i + 1, j),
                    self.u(i, j),
                    self.v(i, j + 1),
                    self.v(i, j),
                );
                let idx = self.p_idx(i, j);
                proof {
                    lemma_sweep_store(
                        nx as int,
                        ny as int,
                        region,
                        rule,
                        self@.p,
                        d@,
                        i as int,
                        j as int,
                        out,
                    );
                }
                d.set(idx, out);
                i += 1;
            }
            proof {
                lemma_sweep_row_done(
                    nx as int,
                    ny as int,
                    region,
                    rule,
                    self@.p,
                    d@,
                    i as int,
                    j as int,
                );
            }
            j += 1;
        }
        proof {
            lemma_sweep_done(nx as int, ny as int, region, rule, self@.p, d@, j as int);
        }
        d
    }

    /// The pressure after one relaxation sweep with the divergence `d`.
    fn relax_once(&self, d: &Vec<T>) -> (q: Vec<T>)
        requires
            self.wf(),
            d@.len() == self@.nx * self@.ny,
        ensures
            self.ops().relaxed_once(self@, d@, self@.p, q@),
    {
        let ops = self.arithmetic();
        let nx = self.nx();
        let ny = self.ny();
        let dx = self.dx();
        let mut q = duplicate(self.p_field());
        let ghost region = inner_cells(nx as int, ny as int);
        let ghost rule = self.ops().relax_rule(nx as int, dx, d@, self@.p);
        proof {
            lemma_sweep_start(nx as int, ny as int, region, rule, self@.p);
        }
        let mut j: usize = 1;
        while j < ny - 1
            invariant
                self.wf(),
                nx == self@.nx,
                ny == self@.ny,
                dx == self@.dx,
                *ops == self.ops(),
                d@.len() == self@.nx * self@.ny,
                region == inner_cells(nx as int, ny as int),
                rule == self.ops().relax_rule(nx as int, dx, d@, self@.p),
                1 <= j,
                swept_to(nx as int, ny as int, region, rule, self@.p, q@, 1, j as int),
            decreases ny - j,
        {
            let mut i: usize = 1;
            while i < nx - 1
                invariant
                    self.wf(),
                    nx == self@.nx,
                    ny == self@.ny,
                    dx == self@.dx,
                    *ops == self.ops(),
                    d@.len() == self@.nx * self@.ny,
                    region == inner_cells(nx as int, ny as int),
                    rule == self.ops().relax_rule(nx as int, dx, d@, self@.p),
                    1 <= j < ny - 1,
                    1 <= i,
                    swept_to(nx as int, ny as int, region, rule, self@.p, q@, i as int, j as int),
                decreases nx - i,
            {
                let idx = self.p_idx(i, j);
                let out = (ops.relax)(
                    dx,
                    self.pressure(i + 1, j),
                    self.pressure(i - 1, j),
                    self.pressure(i, j + 1),
                    self.pressure(i, j - 1),
                    d[idx],
                );
                proof {
                    lemma_sweep_store(
                        nx as int,
                        ny as int,
                        region,
                        rule,
                        self@.p,
                        q@,
                        i as int,
                        j as int,
                        out,
                    );
                }
                q.set(idx, out);
                i += 1;
            }
            proof {
                lemma_sweep_row_done(
                    nx as int,
                    ny as int,
                    region,
                    rule,
                    self@.p,
                    q@,
                    i as int,
                    j as int,
                );
            }
            j += 1;
        }
        proof {
            lemma_sweep_done(nx as int, ny as int, region, rule, self@.p, q@, j as int);
        }
        q
    }

    /// Relaxes the pressure towards the one whose gradient cancels the
    /// divergence of the velocity. Every sweep reads the pressure that the
    /// sweep before it left; the border cells keep the pressure they had.
    pub fn solve_pressure(&mut self)
        requires
            old(self).wf(),
        ensures
            final(self).wf(),
            final(self).ops() == old(self).ops(),
            old(self).ops().pressure_solved(old(self)@, final(self)@),
    {
        let d = self.divergence();
        let n = self.sweeps();
        let mut k: usize = 0;
        while k < n
            invariant
                self.wf(),
                self.ops() == old(self).ops(),
                self@ == (GridView { p: self@.p, ..old(self)@ }),
                n == self@.sweeps,
                k <= n,
                self.ops().is_divergence(old(self)@, d@),
                self.ops().relaxed(old(self)@, d@, self@.p, k as nat),
            decreases n - k,
        {
            let ghost before = self@.p;
            let q = self.relax_once(&d);
            self.replace_p(q);
            k += 1;
            proof {
                self.ops().lemma_relaxed_once_more(
                    old(self)@,
                    d@,
                    before,
                    self@.p,
                    (k - 1) as nat,
                );
            }
        }
    }
}

} // verus!
