use navier_stokes::arithmetic::Arithmetic;
use navier_stokes::grid::{FluidGrid, DEFAULT_SWEEPS};
use navier_stokes::layout::{next_index, nearest_index};

fn locate(x: f64, dx: f64, cells: usize, staggered: bool) -> (i64, f64) {
    let x = x.max(0.0).min(cells as f64 * dx);
    let f = if staggered { x / dx - 0.5 } else { x / dx };
    let k = f.floor();
    (k as i64, f - k)
}

fn blend(s00: f64, s10: f64, s01: f64, s11: f64, tx: f64, ty: f64) -> f64 {
    s00 * (1.0 - tx) * (1.0 - ty) + s10 * tx * (1.0 - ty) + s01 * (1.0 - tx) * ty + s11 * tx * ty
}

fn place(k: usize, dx: f64, staggered: bool) -> f64 {
    if staggered {
        (k as f64 + 0.5) * dx
    } else {
        k as f64 * dx
    }
}

fn trace(x: f64, dt: f64, w: f64) -> f64 {
    x - dt * w
}

fn diverge(dx: f64, ur: f64, ul: f64, vt: f64, vb: f64) -> f64 {
    (ur - ul + vt - vb) / dx
}

fn relax(dx: f64, pr: f64, pl: f64, pt: f64, pb: f64, d: f64) -> f64 {
    (pr + pl + pt + pb - d * dx * dx) / 4.0
}

fn correct(dt: f64, dx: f64, w: f64, pa: f64, pb: f64) -> f64 {
    w - (dt / dx) * (pa - pb)
}

fn ieee() -> Arithmetic<
    f64,
    impl Fn(f64, f64, usize, bool) -> (i64, f64),
    impl Fn(f64, f64, f64, f64, f64, f64) -> f64,
    impl Fn(usize, f64, bool) -> f64,
    impl Fn(f64, f64, f64) -> f64,
    impl Fn(f64, f64, f64, f64, f64) -> f64,
    impl Fn(f64, f64, f64, f64, f64, f64) -> f64,
    impl Fn(f64, f64, f64, f64, f64) -> f64,
> {
    Arithmetic { zero: 0.0, locate, blend, place, trace, diverge, relax, correct }
}

#[test]
fn new_grid_has_the_three_field_sizes() {
    let g = FluidGrid::new(4, 3, 15.0, ieee());
    assert_eq!(g.nx(), 4);
    assert_eq!(g.ny(), 3);
    assert_eq!(g.dx(), 15.0);
    assert_eq!(g.p_field().len(), 12);
    assert_eq!(g.u_field().len(), 15);
    assert_eq!(g.v_field().len(), 16);
}

#[test]
fn new_grid_is_at_rest() {
    let g = FluidGrid::new(4, 3, 15.0, ieee());
    assert!(g.p_field().iter().all(|s| *s == 0.0));
    assert!(g.u_field().iter().all(|s| *s == 0.0));
    assert!(g.v_field().iter().all(|s| *s == 0.0));
}

#[test]
fn new_grid_takes_its_rest_value_from_the_arithmetic() {
    let mut ops = ieee();
    ops.zero = 2.5;
    let g = FluidGrid::new(2, 2, 1.0, ops);
    assert!(g.p_field().iter().all(|s| *s == 2.5));
    assert!(g.u_field().iter().all(|s| *s == 2.5));
    assert!(g.v_field().iter().all(|s| *s == 2.5));
    assert_eq!(g.arithmetic().zero, 2.5);
}

#[test]
fn smallest_grid_has_one_cell_and_four_faces() {
    let g = FluidGrid::new(1, 1, 1.0, ieee());
    assert_eq!(g.p_field().len(), 1);
    assert_eq!(g.u_field().len(), 2);
    assert_eq!(g.v_field().len(), 2);
}

#[test]
fn new_grid_makes_fifty_sweeps() {
    let g = FluidGrid::new(4, 3, 15.0, ieee());
    assert_eq!(DEFAULT_SWEEPS, 50);
    assert_eq!(g.sweeps(), 50);
}

#[test]
fn set_sweeps_changes_only_the_sweep_count() {
    let mut g = FluidGrid::new(4, 3, 15.0, ieee());
    g.set_pressure(1, 1, 3.0);
    g.set_sweeps(7);
    assert_eq!(g.sweeps(), 7);
    assert_eq!(g.nx(), 4);
    assert_eq!(g.ny(), 3);
    assert_eq!(g.dx(), 15.0);
    assert_eq!(g.pressure(1, 1), 3.0);
}

#[test]
fn pressure_offsets_run_row_after_row() {
    let g = FluidGrid::new(4, 3, 1.0, ieee());
    assert_eq!(g.p_idx(0, 0), 0);
    assert_eq!(g.p_idx(3, 0), 3);
    assert_eq!(g.p_idx(0, 1), 4);
    assert_eq!(g.p_idx(2, 1), 6);
    assert_eq!(g.p_idx(3, 2), 11);
}

#[test]
fn u_offsets_run_over_one_face_more_in_a_row() {
    let g = FluidGrid::new(4, 3, 1.0, ieee());
    assert_eq!(g.u_idx(0, 0), 0);
    assert_eq!(g.u_idx(4, 0), 4);
    assert_eq!(g.u_idx(0, 1), 5);
    assert_eq!(g.u_idx(2, 1), 7);
    assert_eq!(g.u_idx(4, 2), 14);
}

#[test]
fn v_offsets_run_over_one_row_more() {
    let g = FluidGrid::new(4, 3, 1.0, ieee());
    assert_eq!(g.v_idx(0, 0), 0);
    assert_eq!(g.v_idx(3, 0), 3);
    assert_eq!(g.v_idx(0, 1), 4);
    assert_eq!(g.v_idx(2, 1), 6);
    assert_eq!(g.v_idx(3, 3), 15);
}

#[test]
fn pressure_offsets_and_cells_correspond_one_to_one() {
    let g = FluidGrid::new(5, 3, 1.0, ieee());
    let mut seen = vec![false; 15];
    for row in 0..3 {
        for col in 0..5 {
            let idx = g.p_idx(col, row);
            assert!(idx < 15);
            assert!(!seen[idx]);
            seen[idx] = true;
            assert_eq!(g.p_cell(idx), (col, row));
        }
    }
    for idx in 0..15 {
        let (col, row) = g.p_cell(idx);
        assert!(col < 5 && row < 3);
        assert_eq!(g.p_idx(col, row), idx);
    }
}

#[test]
fn u_offsets_and_faces_correspond_one_to_one() {
    let g = FluidGrid::new(5, 3, 1.0, ieee());
    let mut seen = vec![false; 18];
    for row in 0..3 {
        for col in 0..6 {
            let idx = g.u_idx(col, row);
            assert!(idx < 18);
            assert!(!seen[idx]);
            seen[idx] = true;
            assert_eq!(g.u_face(idx), (col, row));
        }
    }
    for idx in 0..18 {
        let (col, row) = g.u_face(idx);
        assert!(col < 6 && row < 3);
        assert_eq!(g.u_idx(col, row), idx);
    }
}

#[test]
fn v_offsets_and_faces_correspond_one_to_one() {
    let g = FluidGrid::new(5, 3, 1.0, ieee());
    let mut seen = vec![false; 20];
    for row in 0..4 {
        for col in 0..5 {
            let idx = g.v_idx(col, row);
            assert!(idx < 20);
            assert!(!seen[idx]);
            seen[idx] = true;
            assert_eq!(g.v_face(idx), (col, row));
        }
    }
    for idx in 0..20 {
        let (col, row) = g.v_face(idx);
        assert!(col < 5 && row < 4);
        assert_eq!(g.v_idx(col, row), idx);
    }
}

#[test]
fn setters_store_one_sample_and_leave_the_rest() {
    let mut g = FluidGrid::new(3, 2, 1.0, ieee());
    g.set_pressure(2, 1, 1.5);
    g.set_u(3, 0, 2.5);
    g.set_v(1, 2, 3.5);
    assert_eq!(g.pressure(2, 1), 1.5);
    assert_eq!(g.u(3, 0), 2.5);
    assert_eq!(g.v(1, 2), 3.5);
    assert_eq!(g.p_field()[5], 1.5);
    assert_eq!(g.u_field()[3], 2.5);
    assert_eq!(g.v_field()[7], 3.5);
    assert_eq!(g.p_field().iter().filter(|s| **s != 0.0).count(), 1);
    assert_eq!(g.u_field().iter().filter(|s| **s != 0.0).count(), 1);
    assert_eq!(g.v_field().iter().filter(|s| **s != 0.0).count(), 1);
}

#[test]
fn nearest_index_moves_into_range() {
    assert_eq!(nearest_index(-1, 4), 0);
    assert_eq!(nearest_index(i64::MIN, 4), 0);
    assert_eq!(nearest_index(0, 4), 0);
    assert_eq!(nearest_index(3, 4), 3);
    assert_eq!(nearest_index(4, 4), 4);
    assert_eq!(nearest_index(5, 4), 4);
    assert_eq!(nearest_index(i64::MAX, 4), 4);
    assert_eq!(nearest_index(7, 0), 0);
}

#[test]
fn next_index_moves_the_successor_into_range() {
    assert_eq!(next_index(-2, 4), 0);
    assert_eq!(next_index(-1, 4), 0);
    assert_eq!(next_index(i64::MIN, 4), 0);
    assert_eq!(next_index(0, 4), 1);
    assert_eq!(next_index(3, 4), 4);
    assert_eq!(next_index(4, 4), 4);
    assert_eq!(next_index(i64::MAX, 4), 4);
    assert_eq!(next_index(0, 0), 0);
}

#[test]
fn nearest_face_is_the_face_itself_on_the_grid() {
    let mut g = FluidGrid::new(3, 2, 1.0, ieee());
    g.set_u(2, 1, 4.0);
    g.set_v(1, 2, 6.0);
    assert_eq!(g.u_nearest(2, 1), 4.0);
    assert_eq!(g.v_nearest(1, 2), 6.0);
}

#[test]
fn nearest_face_off_the_grid_is_on_its_edge() {
    let mut g = FluidGrid::new(3, 2, 1.0, ieee());
    g.set_u(3, 1, 4.0);
    g.set_u(0, 0, 5.0);
    g.set_v(2, 2, 6.0);
    g.set_v(0, 0, 7.0);
    assert_eq!(g.u_nearest(9, 9), 4.0);
    assert_eq!(g.u_nearest(3, 2), 4.0);
    assert_eq!(g.u_nearest(-1, -1), 5.0);
    assert_eq!(g.v_nearest(3, 3), 6.0);
    assert_eq!(g.v_nearest(2, 9), 6.0);
    assert_eq!(g.v_nearest(-4, -1), 7.0);
}
