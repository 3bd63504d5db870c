//! One pass over a rectangle of a lattice, written into a buffer of its own.

use crate::layout::{
    col_of, flat, lemma_coords_round_trip, lemma_flat_in_range, lemma_flat_injective, on_lattice,
    row_of,
};
use vstd::prelude::*;

verus! {

/// A rectangle of samples: columns `c0..c1` of rows `r0..r1`.
pub struct Region {
    /// First column.
    pub c0: int,
    /// Column after the last.
    pub c1: int,
    /// First row.
    pub r0: int,
    /// Row after the last.
    pub r1: int,
}

impl Region {
    /// `(col, row)` lies in the rectangle.
    pub open spec fn contains(self, col: int, row: int) -> bool {
        self.c0 <= col < self.c1 && self.r0 <= row < self.r1
    }

    /// `(col, row)` lies in the rectangle and comes before `(at_col, at_row)`
    /// when the rows are walked from the first to the last, each from its
    /// first column to its last.
    pub open spec fn visited(self, col: int, row: int, at_col: int, at_row: int) -> bool {
        self.contains(col, row) && (row < at_row || (row == at_row && col < at_col))
    }
}

/// `out` is `src` after a pass over `region`: inside the rectangle every
/// sample is one that `rule` allows at its place, outside it every sample is
/// the one of `src`.
pub open spec fn swept<T>(
    width: int,
    height: int,
    region: Region,
    rule: spec_fn(int, int, T) -> bool,
    src: Seq<T>,
    out: Seq<T>,
) -> bool {
    &&& src.len() == width * height
    &&& out.len() == src.len()
    &&& forall|col: int, row: int|
        on_lattice(width, height, col, row) ==> {
            let idx = #[trigger] flat(width, col, row);
            if region.contains(col, row) {
                rule(col, row, out[idx])
            } else {
                out[idx] == src[idx]
            }
        }
}

/// `out` is `src` after the part of a pass that comes before
/// `(at_col, at_row)`.
pub open spec fn swept_to<T>(
    width: int,
    height: int,
    region: Region,
    rule: spec_fn(int, int, T) -> bool,
    src: Seq<T>,
    out: Seq<T>,
    at_col: int,
    at_row: int,
) -> bool {
    &&& src.len() == width * height
    &&& out.len() == src.len()
    &&& forall|col: int, row: int|
        on_lattice(width, height, col, row) ==> {
            let idx = #[trigger] flat(width, col, row);
            if region.visited(col, row, at_col, at_row) {
                rule(col, row, out[idx])
            } else {
                out[idx] == src[idx]
            }
        }
}

/// Before the first sample of the rectangle nothing has changed.
pub proof fn lemma_sweep_start<T>(
    width: int,
    height: int,
    region: Region,
    rule: spec_fn(int, int, T) -> bool,
    src: Seq<T>,
)
    requires
        src.len() == width * height,
    ensures
        swept_to(width, height, region, rule, src, src, region.c0, region.r0),
{
}

/// Storing a sample that the rule allows at `(col, row)` moves the pass one
/// column on.
pub proof fn lemma_sweep_store<T>(
    width: int,
    height: int,
    region: Region,
    rule: spec_fn(int, int, T) -> bool,
    src: Seq<T>,
    out: Seq<T>,
    col: int,
    row: int,
    value: T,
)
    requires
        swept_to(width, height, region, rule, src, out, col, row),
        on_lattice(width, height, col, row),
        region.contains(col, row),
        rule(col, row, value),
    ensures
        swept_to(
            width,
            height,
            region,
            rule,
            src,
            out.update(flat(width, col, row), value),
            col + 1,
            row,
        ),
{
    let next = out.update(flat(width, col, row), value);
    lemma_flat_in_range(width, height, col, row);
    assert forall|c: int, r: int| on_lattice(width, height, c, r) implies {
        let idx = #[trigger] flat(width, c, r);
        if region.visited(c, r, col + 1, row) {
            rule(c, r, next[idx])
        } else {
            next[idx] == src[idx]
        }
    } by {
        lemma_flat_in_range(width, height, c, r);
        if flat(width, c, r) == flat(width, col, row) {
            lemma_flat_injective(width, c, r, col, row);
        }
    }
}

/// Past the last column of a row the pass stands at the start of the next.
pub proof fn lemma_sweep_row_done<T>(
    width: int,
    height: int,
    region: Region,
    rule: spec_fn(int, int, T) -> bool,
    src: Seq<T>,
    out: Seq<T>,
    at_col: int,
    at_row: int,
)
    requires
        swept_to(width, height, region, rule, src, out, at_col, at_row),
        at_col >= region.c1,
    ensures
        swept_to(width, height, region, rule, src, out, region.c0, at_row + 1),
{
    assert forall|c: int, r: int| on_lattice(width, height, c, r) implies {
        let idx = #[trigger] flat(width, c, r);
        if region.visited(c, r, region.c0, at_row + 1) {
            rule(c, r, out[idx])
        } else {
            out[idx] == src[idx]
        }
    } by {
        assert(region.visited(c, r, region.c0, at_row + 1) == region.visited(
            c,
            r,
            at_col,
            at_row,
        ));
    }
}

/// Past the last row the pass is complete.
pub proof fn lemma_sweep_done<T>(
    width: int,
    height: int,
    region: Region,
    rule: spec_fn(int, int, T) -> bool,
    src: Seq<T>,
    out: Seq<T>,
    at_row: int,
)
    requires
        swept_to(width, height, region, rule, src, out, region.c0, at_row),
        at_row >= region.r1,
    ensures
        swept(width, height, region, rule, src, out),
{
    assert forall|c: int, r: int| on_lattice(width, height, c, r) implies {
        let idx = #[trigger] flat(width, c, r);
        if region.contains(c, r) {
            rule(c, r, out[idx])
        } else {
            out[idx] == src[idx]
        }
    } by {
        assert(region.visited(c, r, region.c0, at_row) == region.contains(c, r));
    }
}

/// A pass whose rule allows nothing but `value`, over a buffer that holds
/// nothing but `value`, leaves nothing but `value`.
pub proof fn lemma_swept_uniform<T>(
    width: int,
    height: int,
    region: Region,
    rule: spec_fn(int, int, T) -> bool,
    src: Seq<T>,
    out: Seq<T>,
    value: T,
)
    requires
        0 < width,
        swept(width, height, region, rule, src, out),
        forall|i: int| 0 <= i < src.len() ==> src[i] == value,
        forall|col: int, row: int, t: T|
            on_lattice(width, height, col, row) && region.contains(col, row) && #[trigger] rule(
                col,
                row,
                t,
            ) ==> t == value,
    ensures
        forall|i: int| 0 <= i < out.len() ==> out[i] == value,
{
    assert forall|i: int| 0 <= i < out.len() implies out[i] == value by {
        lemma_coords_round_trip(width, height, i);
        assert(flat(width, col_of(width, i), row_of(width, i)) == i);
    }
}

/// A pass whose rule allows one sample at most at each place has one result
/// at most.
pub proof fn lemma_swept_unique<T>(
    width: int,
    height: int,
    region: Region,
    rule: spec_fn(int, int, T) -> bool,
    src: Seq<T>,
    out1: Seq<T>,
    out2: Seq<T>,
)
    requires
        0 < width,
        swept(width, height, region, rule, src, out1),
        swept(width, height, region, rule, src, out2),
        forall|col: int, row: int, t1: T, t2: T|
            on_lattice(width, height, col, row) && region.contains(col, row) && #[trigger] rule(
                col,
                row,
                t1,
            ) && #[trigger] rule(col, row, t2) ==> t1 == t2,
    ensures
        out1 == out2,
{
    assert forall|i: int| 0 <= i < out1.len() implies out1[i] == out2[i] by {
        lemma_coords_round_trip(width, height, i);
        assert(flat(width, col_of(width, i), row_of(width, i)) == i);
    }
    assert(out1 =~= out2);
}

} // verus!
