//! Flat offsets of a row-major lattice, and their inverse.

use vstd::prelude::*;

verus! {

/// Offset of `(col, row)` on a lattice that is `width` samples wide.
pub open spec fn flat(width: int, col: int, row: int) -> int {
    row * width + col
}

/// Column of the sample stored at `idx`.
pub open spec fn col_of(width: int, idx: int) -> int {
    idx % width
}

/// Row of the sample stored at `idx`.
pub open spec fn row_of(width: int, idx: int) -> int {
    idx / width
}

/// `(col, row)` names a sample of a `width` by `height` lattice.
pub open spec fn on_lattice(width: int, height: int, col: int, row: int) -> bool {
    0 <= col < width && 0 <= row < height
}

/// Offset of the pressure sample of cell `(col, row)`.
pub open spec fn p_index(nx: int, col: int, row: int) -> int {
    flat(nx, col, row)
}

/// Offset of the horizontal velocity on vertical face `(col, row)`.
pub open spec fn u_index(nx: int, col: int, row: int) -> int {
    flat(nx + 1, col, row)
}

/// Offset of the vertical velocity on horizontal face `(col, row)`.
pub open spec fn v_index(nx: int, col: int, row: int) -> int {
    flat(nx, col, row)
}

/// `k` moved to the nearest index in `0..=hi`.
pub open spec fn clamp(k: int, hi: int) -> int {
    if k < 0 {
        0
    } else if k > hi {
        hi
    } else {
        k
    }
}

/// A sample of the lattice has an offset below the lattice's size.
pub proof fn lemma_flat_in_range(width: int, height: int, col: int, row: int)
    requires
        on_lattice(width, height, col, row),
    ensures
        0 <= flat(width, col, row) < width * height,
        flat(width, col, row) <= width * height - width + col,
{
    assert(0 <= row * width) by (nonlinear_arith)
        requires
            0 <= row,
            0 < width,
    ;
    assert(row * width + width <= width * height) by (nonlinear_arith)
        requires
            row + 1 <= height,
            0 < width,
    ;
}

/// Taking the coordinates of an offset undoes `flat`.
pub proof fn lemma_flat_round_trip(width: int, col: int, row: int)
    requires
        0 <= col < width,
    ensures
        col_of(width, flat(width, col, row)) == col,
        row_of(width, flat(width, col, row)) == row,
{
    vstd::arithmetic::div_mod::lemma_fundamental_div_mod_converse(
        flat(width, col, row),
        width,
        row,
        col,
    );
}

/// Every offset below the size is the offset of its own coordinates.
pub proof fn lemma_coords_round_trip(width: int, height: int, idx: int)
    requires
        0 < width,
        0 <= idx < width * height,
    ensures
        on_lattice(width, height, col_of(width, idx), row_of(width, idx)),
        flat(width, col_of(width, idx), row_of(width, idx)) == idx,
{
    let q = idx / width;
    let r = idx % width;
    vstd::arithmetic::div_mod::lemma_fundamental_div_mod(idx, width);
    vstd::arithmetic::div_mod::lemma_mod_pos_bound(idx, width);
    assert(width * q == q * width) by (nonlinear_arith);
    assert(0 <= q) by (nonlinear_arith)
        requires
            0 <= idx,
            0 < width,
            idx == q * width + r,
            r < width,
    ;
    assert(q < height) by (nonlinear_arith)
        requires
            idx < width * height,
            0 < width,
            idx == q * width + r,
            0 <= r,
    ;
}

/// Two samples with the same offset are the same sample.
pub proof fn lemma_flat_injective(width: int, c1: int, r1: int, c2: int, r2: int)
    requires
        0 <= c1 < width,
        0 <= c2 < width,
        flat(width, c1, r1) == flat(width, c2, r2),
    ensures
        c1 == c2,
        r1 == r2,
{
    lemma_flat_round_trip(width, c1, r1);
    lemma_flat_round_trip(width, c2, r2);
}

/// Offsets grow along a row, and from each row to the next.
pub proof fn lemma_flat_ordered(width: int, c1: int, r1: int, c2: int, r2: int)
    requires
        0 <= c1 < width,
        0 <= c2 < width,
        r1 < r2 || (r1 == r2 && c1 < c2),
    ensures
        flat(width, c1, r1) < flat(width, c2, r2),
{
    if r1 < r2 {
        assert(r1 * width + width <= r2 * width) by (nonlinear_arith)
            requires
                r1 + 1 <= r2,
                0 < width,
        ;
    }
}

/// The pressure offsets of an `nx` by `ny` grid and the cells correspond one
/// to one: every cell has an offset below `nx * ny`, the coordinates of that
/// offset are the cell again, and every offset below `nx * ny` is the offset
/// of the cell its coordinates name.
pub proof fn pressure_index_bijective(nx: int, ny: int)
    requires
        0 < nx,
        0 < ny,
    ensures
        forall|col: int, row: int|
            on_lattice(nx, ny, col, row) ==> {
                let idx = #[trigger] p_index(nx, col, row);
                &&& 0 <= idx < nx * ny
                &&& col_of(nx, idx) == col
                &&& row_of(nx, idx) == row
            },
        forall|c1: int, r1: int, c2: int, r2: int|
            on_lattice(nx, ny, c1, r1) && on_lattice(nx, ny, c2, r2) && #[trigger] p_index(
                nx,
                c1,
                r1,
            ) == #[trigger] p_index(nx, c2, r2) ==> c1 == c2 && r1 == r2,
        forall|idx: int|
            0 <= idx < nx * ny ==> {
                &&& on_lattice(nx, ny, #[trigger] col_of(nx, idx), row_of(nx, idx))
                &&& p_index(nx, col_of(nx, idx), row_of(nx, idx)) == idx
            },
{
    lemma_lattice_bijective(nx, ny);
}

/// The horizontal-velocity offsets of an `nx` by `ny` grid and its vertical
/// faces, `nx + 1` to a row, correspond one to one.
pub proof fn u_index_bijective(nx: int, ny: int)
    requires
        0 < nx,
        0 < ny,
    ensures
        forall|col: int, row: int|
            on_lattice(nx + 1, ny, col, row) ==> {
                let idx = #[trigger] u_index(nx, col, row);
                &&& 0 <= idx < (nx + 1) * ny
                &&& col_of(nx + 1, idx) == col
                &&& row_of(nx + 1, idx) == row
            },
        forall|c1: int, r1: int, c2: int, r2: int|
            on_lattice(nx + 1, ny, c1, r1) && on_lattice(nx + 1, ny, c2, r2) && #[trigger] u_index(
                nx,
                c1,
                r1,
            ) == #[trigger] u_index(nx, c2, r2) ==> c1 == c2 && r1 == r2,
        forall|idx: int|
            0 <= idx < (nx + 1) * ny ==> {
                &&& on_lattice(nx + 1, ny, #[trigger] col_of(nx + 1, idx), row_of(nx + 1, idx))
                &&& u_index(nx, col_of(nx + 1, idx), row_of(nx + 1, idx)) == idx
            },
{
    lemma_lattice_bijective(nx + 1, ny);
}

/// The vertical-velocity offsets of an `nx` by `ny` grid and its horizontal
/// faces, `ny + 1` rows of them, correspond one to one.
pub proof fn v_index_bijective(nx: int, ny: int)
    requires
        0 < nx,
        0 < ny,
    ensures
        forall|col: int, row: int|
            on_lattice(nx, ny + 1, col, row) ==> {
                let idx = #[trigger] v_index(nx, col, row);
                &&& 0 <= idx < nx * (ny + 1)
                &&& col_of(nx, idx) == col
                &&& row_of(nx, idx) == row
            },
        forall|c1: int, r1: int, c2: int, r2: int|
            on_lattice(nx, ny + 1, c1, r1) && on_lattice(nx, ny + 1, c2, r2) && #[trigger] v_index(
                nx,
                c1,
                r1,
            ) == #[trigger] v_index(nx, c2, r2) ==> c1 == c2 && r1 == r2,
        forall|idx: int|
            0 <= idx < nx * (ny + 1) ==> {
                &&& on_lattice(nx, ny + 1, #[trigger] col_of(nx, idx), row_of(nx, idx))
                &&& v_index(nx, col_of(nx, idx), row_of(nx, idx)) == idx
            },
{
    lemma_lattice_bijective(nx, ny + 1);
}

/// `flat` maps the samples of a lattice one to one onto the offsets below
/// its size, with `col_of` and `row_of` as the way back.
pub proof fn lemma_lattice_bijective(width: int, height: int)
    requires
        0 < width,
        0 < height,
    ensures
        forall|col: int, row: int|
            on_lattice(width, height, col, row) ==> {
                let idx = #[trigger] flat(width, col, row);
                &&& 0 <= idx < width * height
                &&& col_of(width, idx) == col
                &&& row_of(width, idx) == row
            },
        forall|c1: int, r1: int, c2: int, r2: int|
            on_lattice(width, height, c1, r1) && on_lattice(width, height, c2, r2)
                && #[trigger] flat(width, c1, r1) == #[trigger] flat(width, c2, r2) ==> c1 == c2
                && r1 == r2,
        forall|idx: int|
            0 <= idx < width * height ==> {
                &&& on_lattice(width, height, #[trigger] col_of(width, idx), row_of(width, idx))
                &&& flat(width, col_of(width, idx), row_of(width, idx)) == idx
            },
{
    assert forall|col: int, row: int| on_lattice(width, height, col, row) implies {
        let idx = #[trigger] flat(width, col, row);
        &&& 0 <= idx < width * height
        &&& col_of(width, idx) == col
        &&& row_of(width, idx) == row
    } by {
        lemma_flat_in_range(width, height, col, row);
        lemma_flat_round_trip(width, col, row);
    }
    assert forall|c1: int, r1: int, c2: int, r2: int|
        on_lattice(width, height, c1, r1) && on_lattice(width, height, c2, r2) && #[trigger] flat(
            width,
            c1,
            r1,
        ) == #[trigger] flat(width, c2, r2) implies c1 == c2 && r1 == r2 by {
        lemma_flat_injective(width, c1, r1, c2, r2);
    }
    assert forall|idx: int| 0 <= idx < width * height implies {
        &&& on_lattice(width, height, #[trigger] col_of(width, idx), row_of(width, idx))
        &&& flat(width, col_of(width, idx), row_of(width, idx)) == idx
    } by {
        lemma_coords_round_trip(width, height, idx);
    }
}

/// The index in `0..=hi` nearest to `k`.
pub fn nearest_index(k: i64, hi: usize) -> (r: usize)
    ensures
        r == clamp(k as int, hi as int),
{
    if k < 0 {
        0
    } else {
        let c: u64 = k as u64;
        if c >= hi as u64 {
            hi
        } else {
            c as usize
        }
    }
}

/// The index in `0..=hi` nearest to the successor of `k`.
pub fn next_index(k: i64, hi: usize) -> (r: usize)
    ensures
        r == clamp(k + 1, hi as int),
{
    if k < 0 {
        0
    } else {
        let c: u64 = k as u64;
        if c >= hi as u64 {
            hi
        } else {
            (c + 1) as usize
        }
    }
}

} // verus!
