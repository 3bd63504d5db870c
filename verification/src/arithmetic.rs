//! The arithmetic that a grid is built over.
//!
//! A grid never adds, multiplies or rounds a sample itself. It hands samples
//! to the seven rules held here and stores what they return, so everything
//! it promises is stated over what the rules promise.

use vstd::prelude::*;

verus! {

/// The rules that combine samples, and the value of a field at rest.
pub struct Arithmetic<T, Locate, Blend, Place, Trace, Diverge, Relax, Correct> {
    /// The value of a sample at rest: what a new grid holds and what the
    /// walls are held at.
    pub zero: T,
    /// `locate(coordinate, spacing, cells, staggered)` moves the coordinate
    /// into the domain of `cells` cells, expresses it in face units (shifted
    /// by half a cell where `staggered`) and returns the face index at or
    /// below it with the weight of the next face.
    pub locate: Locate,
    /// `blend(s00, s10, s01, s11, tx, ty)` weighs four neighbouring samples.
    pub blend: Blend,
    /// `place(index, spacing, staggered)` is the coordinate of a face index,
    /// or of the middle of the cell behind it where `staggered`.
    pub place: Place,
    /// `trace(coordinate, dt, velocity)` is where a sample was `dt` ago.
    pub trace: Trace,
    /// `diverge(spacing, u_right, u_left, v_top, v_bottom)` is the net
    /// outflow of a cell.
    pub diverge: Diverge,
    /// `relax(spacing, p_right, p_left, p_top, p_bottom, divergence)` is the
    /// next pressure of a cell.
    pub relax: Relax,
    /// `correct(dt, spacing, velocity, p_ahead, p_behind)` removes the
    /// pressure gradient from a face velocity.
    pub correct: Correct,
}

impl<
    T,
    Locate: Fn(T, T, usize, bool) -> (i64, T),
    Blend: Fn(T, T, T, T, T, T) -> T,
    Place: Fn(usize, T, bool) -> T,
    Trace: Fn(T, T, T) -> T,
    Diverge: Fn(T, T, T, T, T) -> T,
    Relax: Fn(T, T, T, T, T, T) -> T,
    Correct: Fn(T, T, T, T, T) -> T,
> Arithmetic<T, Locate, Blend, Place, Trace, Diverge, Relax, Correct> {
    /// Every rule accepts every argument.
    pub open spec fn total(self) -> bool {
        &&& forall|x: T, dx: T, cells: usize, staggered: bool| #[trigger]
            self.locate.requires((x, dx, cells, staggered))
        &&& forall|s00: T, s10: T, s01: T, s11: T, tx: T, ty: T| #[trigger]
            self.blend.requires((s00, s10, s01, s11, tx, ty))
        &&& forall|k: usize, dx: T, staggered: bool| #[trigger]
            self.place.requires((k, dx, staggered))
        &&& forall|x: T, dt: T, w: T| #[trigger] self.trace.requires((x, dt, w))
        &&& forall|dx: T, ur: T, ul: T, vt: T, vb: T| #[trigger]
            self.diverge.requires((dx, ur, ul, vt, vb))
        &&& forall|dx: T, pr: T, pl: T, pt: T, pb: T, d: T| #[trigger]
            self.relax.requires((dx, pr, pl, pt, pb, d))
        &&& forall|dt: T, dx: T, w: T, pa: T, pb: T| #[trigger]
            self.correct.requires((dt, dx, w, pa, pb))
    }

    /// No rule has two results for the same arguments.
    pub open spec fn deterministic(self) -> bool {
        &&& forall|x: T, dx: T, cells: usize, staggered: bool, a: (i64, T), b: (i64, T)|
            #[trigger] self.locate.ensures((x, dx, cells, staggered), a)
                && #[trigger] self.locate.ensures((x, dx, cells, staggered), b) ==> a == b
        &&& forall|s00: T, s10: T, s01: T, s11: T, tx: T, ty: T, a: T, b: T|
            #[trigger] self.blend.ensures((s00, s10, s01, s11, tx, ty), a)
                && #[trigger] self.blend.ensures((s00, s10, s01, s11, tx, ty), b) ==> a == b
        &&& forall|k: usize, dx: T, staggered: bool, a: T, b: T|
            #[trigger] self.place.ensures((k, dx, staggered), a)
                && #[trigger] self.place.ensures((k, dx, staggered), b) ==> a == b
        &&& forall|x: T, dt: T, w: T, a: T, b: T|
            #[trigger] self.trace.ensures((x, dt, w), a)
                && #[trigger] self.trace.ensures((x, dt, w), b) ==> a == b
        &&& forall|dx: T, ur: T, ul: T, vt: T, vb: T, a: T, b: T|
            #[trigger] self.diverge.ensures((dx, ur, ul, vt, vb), a)
                && #[trigger] self.diverge.ensures((dx, ur, ul, vt, vb), b) ==> a == b
        &&& forall|dx: T, pr: T, pl: T, pt: T, pb: T, d: T, a: T, b: T|
            #[trigger] self.relax.ensures((dx, pr, pl, pt, pb, d), a)
                && #[trigger] self.relax.ensures((dx, pr, pl, pt, pb, d), b) ==> a == b
        &&& forall|dt: T, dx: T, w: T, pa: T, pb: T, a: T, b: T|
            #[trigger] self.correct.ensures((dt, dx, w, pa, pb), a)
                && #[trigger] self.correct.ensures((dt, dx, w, pa, pb), b) ==> a == b
    }

    /// Blending four samples at rest gives a sample at rest, for every pair
    /// of weights that `locate` gives on an axis of cells of width `dx`.
    pub open spec fn blends_rest(self, dx: T) -> bool {
        forall|
            x: T,
            nx: usize,
            sx: bool,
            i: i64,
            tx: T,
            y: T,
            ny: usize,
            sy: bool,
            j: i64,
            ty: T,
            r: T,
        |
            {
                &&& #[trigger] self.locate.ensures((x, dx, nx, sx), (i, tx))
                &&& #[trigger] self.locate.ensures((y, dx, ny, sy), (j, ty))
                &&& #[trigger] self.blend.ensures(
                    (self.zero, self.zero, self.zero, self.zero, tx, ty),
                    r,
                )
            } ==> r == self.zero
    }

    /// Samples at rest stay at rest over `dt` on cells of width `dx`:
    /// blending four of them, the divergence of four of them, relaxing a
    /// cell whose neighbours and divergence are at rest, and correcting a
    /// face at rest between two cells at rest all give `zero`.
    pub open spec fn keeps_rest(self, dx: T, dt: T) -> bool {
        &&& self.blends_rest(dx)
        &&& forall|r: T| #[trigger]
            self.diverge.ensures((dx, self.zero, self.zero, self.zero, self.zero), r) ==> r
                == self.zero
        &&& forall|r: T| #[trigger]
            self.relax.ensures((dx, self.zero, self.zero, self.zero, self.zero, self.zero), r)
                ==> r == self.zero
        &&& forall|r: T| #[trigger]
            self.correct.ensures((dt, dx, self.zero, self.zero, self.zero), r) ==> r
                == self.zero
    }
}

} // verus!
