//! Walls that nothing flows through.

use crate::grid::{FluidGrid, GridView};
use crate::layout::{lemma_flat_in_range, lemma_flat_injective, u_index, v_index};
use vstd::prelude::*;

verus! {

impl<T> GridView<T> {
    /// `(col, row)` is a vertical face on the left or the right wall.
    pub open spec fn on_u_wall(self, col: int, row: int) -> bool {
        self.is_u_face(col, row) && (col == 0 || col == self.nx)
    }

    /// `(col, row)` is a horizontal face on the bottom or the top wall.
    pub open spec fn on_v_wall(self, col: int, row: int) -> bool {
        self.is_v_face(col, row) && (row == 0 || row == self.ny)
    }

    /// `after` is `self` with the velocity through every wall set to `rest`:
    /// the faces on the walls hold `rest`, every other face and the pressure
    /// are unchanged.
    pub open spec fn walled(self, rest: T, after: GridView<T>) -> bool {
        &&& after == (GridView { u: after.u, v: after.v, ..self })
        &&& after.u.len() == self.u.len()
        &&& after.v.len() == self.v.len()
        &&& forall|col: int, row: int|
            self.is_u_face(col, row) ==> #[trigger] after.u_at(col, row) == if self.on_u_wall(
                col,
                row,
            ) {
                rest
            } else {
                self.u_at(col, row)
            }
        &&& forall|col: int, row: int|
            self.is_v_face(col, row) ==> #[trigger] after.v_at(col, row) == if self.on_v_wall(
                col,
                row,
            ) {
                rest
            } else {
                self.v_at(col, row)
            }
    }
}

impl<
    T: Copy,
    Locate: Fn(T, T, usize, bool) -> (i64, T),
    Blend: Fn(T, T, T, T, T, T) -> T,
    Place: Fn(usize, T, bool) -> T,
    Trace: Fn(T, T, T) -> T,
    Diverge: Fn(T, T, T, T, T) -> T,
    Relax: Fn(T, T, T, T, T, T) -> T,
    Correct: Fn(T, T, T, T, T) -> T,
> FluidGrid<T, Locate, Blend, Place, Trace, Diverge, Relax, Correct> {
    /// Sets the velocity through the four walls to the value of a sample at
    /// rest.
    pub fn set_boundaries(&mut self)
        requires
            old(self).wf(),
        ensures
            final(self).wf(),
            final(self).ops() == old(self).ops(),
            old(self)@.walled(old(self).ops().zero, final(self)@),
            final(self)@.walls_hold(old(self).ops().zero),
    {
        let nx = self.nx();
        let ny = self.ny();
        let rest = self.arithmetic().zero;
        let mut j: usize = 0;
        while j < ny
            invariant
                self.wf(),
                self.ops() == old(self).ops(),
                nx == self@.nx,
                ny == self@.ny,
                rest == self.ops().zero,
                j <= ny,
                self@ == (GridView { u: self@.u, ..old(self)@ }),
                forall|col: int, row: int|
                    self@.is_u_face(col, row) ==> #[trigger] self@.u_at(col, row) == if row < j
                        && self@.on_u_wall(col, row) {
                        rest
                    } else {
                        old(self)@.u_at(col, row)
                    },
            decreases ny - j,
        {
            let ghost before = self@;
            self.set_u(0, j, rest);
            self.set_u(nx, j, rest);
            proof {
                assert forall|col: int, row: int| self@.is_u_face(col, row) implies #[trigger]
                    self@.u_at(col, row) == if row < j + 1 && self@.on_u_wall(col, row) {
                    rest
                } else {
                    old(self)@.u_at(col, row)
                } by {
                    lemma_flat_in_range(nx + 1, ny as int, col, row);
                    lemma_flat_in_range(nx + 1, ny as int, 0, j as int);
                    lemma_flat_in_range(nx + 1, ny as int, nx as int, j as int);
                    if u_index(nx as int, col, row) == u_index(nx as int, 0, j as int) {
                        lemma_flat_injective(nx + 1, col, row, 0, j as int);
                    }
                    if u_index(nx as int, col, row) == u_index(nx as int, nx as int, j as int) {
                        lemma_flat_injective(nx + 1, col, row, nx as int, j as int);
                    }
                    assert(before.u_at(col, row) == if row < j && before.on_u_wall(col, row) {
                        rest
                    } else {
                        old(self)@.u_at(col, row)
                    });
                }
            }
            j += 1;
        }
        let mut i: usize = 0;
        while i < nx
            invariant
                self.wf(),
                self.ops() == old(self).ops(),
                nx == self@.nx,
                ny == self@.ny,
                rest == self.ops().zero,
                i <= nx,
                self@ == (GridView { u: self@.u, v: self@.v, ..old(self)@ }),
                forall|col: int, row: int|
                    self@.is_u_face(col, row) ==> #[trigger] self@.u_at(col, row)
                        == if self@.on_u_wall(col, row) {
                        rest
                    } else {
                        old(self)@.u_at(col, row)
                    },
                forall|col: int, row: int|
                    self@.is_v_face(col, row) ==> #[trigger] self@.v_at(col, row) == if col < i
                        && self@.on_v_wall(col, row) {
                        rest
                    } else {
                        old(self)@.v_at(col, row)
                    },
            decreases nx - i,
        {
            let ghost before = self@;
            self.set_v(i, 0, rest);
            self.set_v(i, ny, rest);
            proof {
                assert forall|col: int, row: int| self@.is_v_face(col, row) implies #[trigger]
                    self@.v_at(col, row) == if col < i + 1 && self@.on_v_wall(col, row) {
                    rest
                } else {
                    old(self)@.v_at(col, row)
                } by {
                    lemma_flat_in_range(nx as int, ny + 1, col, row);
                    lemma_flat_in_range(nx as int, ny + 1, i as int, 0);
                    lemma_flat_in_range(nx as int, ny + 1, i as int, ny as int);
                    if v_index(nx as int, col, row) == v_index(nx as int, i as int, 0) {
                        lemma_flat_injective(nx as int, col, row, i as int, 0);
                    }
                    if v_index(nx as int, col, row) == v_index(nx as int, i as int, ny as int) {
                        lemma_flat_injective(nx as int, col, row, i as int, ny as int);
                    }
                    assert(before.v_at(col, row) == if col < i && before.on_v_wall(col, row) {
                        rest
                    } else {
                        old(self)@.v_at(col, row)
                    });
                }
                assert forall|col: int, row: int| self@.is_u_face(col, row) implies #[trigger]
                    self@.u_at(col, row) == if self@.on_u_wall(col, row) {
                    rest
                } else {
                    old(self)@.u_at(col, row)
                } by {
                    assert(before.u_at(col, row) == self@.u_at(col, row));
                }
            }
            i += 1;
        }
        proof {
            assert forall|row: int| 0 <= row < self@.ny implies #[trigger] self@.u_at(0, row)
                == rest && self@.u_at(self@.nx, row) == rest by {
                assert(self@.is_u_face(0, row) && self@.is_u_face(self@.nx, row));
            }
            assert forall|col: int| 0 <= col < self@.nx implies #[trigger] self@.v_at(col, 0)
                == rest && self@.v_at(col, self@.ny) == rest by {
                assert(self@.is_v_face(col, 0) && self@.is_v_face(col, self@.ny));
            }
        }
    }
}

} // verus!
