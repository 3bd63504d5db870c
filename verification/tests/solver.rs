use navier_stokes::arithmetic::Arithmetic;
use navier_stokes::grid::FluidGrid;

fn locate(x: f64, dx: f64, cells: usize, staggered: bool) -> (i64, f64) {
    let x = x.max(0.0).min(cells as f64 * dx);
    let f = if staggered { x / dx - 0.5 } else { x / dx };
    let k = f.floor();
    (k as i64, f - k)
}

fn blend(s00: f64, s10: f64, s01: f64, s11: f64, tx: f64, ty: f64) -> f64 {
    s00 * (1.0 - tx) * (1.0 - ty) + s10 * tx * (1.0 - ty) + s01 * (1.0 - tx) * ty + s11 * tx * ty
}

fn place(k: usize, dx: f64, staggered: bool) -> f64 {
    if staggered {
        (k as f64 + 0.5) * dx
    } else {
        k as f64 * dx
    }
}

fn trace(x: f64, dt: f64, w: f64) -> f64 {
    x - dt * w
}

fn diverge(dx: f64, ur: f64, ul: f64, vt: f64, vb: f64) -> f64 {
    (ur - ul + vt - vb) / dx
}

fn relax(dx: f64, pr: f64, pl: f64, pt: f64, pb: f64, d: f64) -> f64 {
    (pr + pl + pt + pb - d * dx * dx) / 4.0
}

fn correct(dt: f64, dx: f64, w: f64, pa: f64, pb: f64) -> f64 {
    w - (dt / dx) * (pa - pb)
}

fn ieee() -> Arithmetic<
    f64,
    impl Fn(f64, f64, usize, bool) -> (i64, f64),
    impl Fn(f64, f64, f64, f64, f64, f64) -> f64,
    impl Fn(usize, f64, bool) -> f64,
    impl Fn(f64, f64, f64) -> f64,
    impl Fn(f64, f64, f64, f64, f64) -> f64,
    impl Fn(f64, f64, f64, f64, f64, f64) -> f64,
    impl Fn(f64, f64, f64, f64, f64) -> f64,
> {
    Arithmetic { zero: 0.0, locate, blend, place, trace, diverge, relax, correct }
}

fn bits(field: &Vec<f64>) -> Vec<u64> {
    field.iter().map(|s| s.to_bits()).collect()
}


#[test]
fn sampling_on_a_vertical_face_returns_its_velocity() {
    let mut g = FluidGrid::new(4, 3, 15.0, ieee());
    for row in 0..3 {
        for col in 0..5 {
            g.set_u(col, row, 100.0 * row as f64 + col as f64 + 0.25);
        }
    }
    for row in 0..3 {
        for col in 0..5 {
            let (u, _) = g.get_velocity(col as f64 * 15.0, (row as f64 + 0.5) * 15.0);
            assert_eq!(u, 100.0 * row as f64 + col as f64 + 0.25);
        }
    }
}

#[test]
fn sampling_on_a_horizontal_face_returns_its_velocity() {
    let mut g = FluidGrid::new(4, 3, 15.0, ieee());
    for row in 0..4 {
        for col in 0..4 {
            g.set_v(col, row, 100.0 * row as f64 + col as f64 + 0.25);
        }
    }
    for row in 0..4 {
        for col in 0..4 {
            let (_, v) = g.get_velocity((col as f64 + 0.5) * 15.0, row as f64 * 15.0);
            assert_eq!(v, 100.0 * row as f64 + col as f64 + 0.25);
        }
    }
}

#[test]
fn sampling_between_faces_blends_the_four_around() {
    let mut g = FluidGrid::new(2, 2, 2.0, ieee());
    g.set_u(0, 0, 1.0);
    g.set_u(1, 0, 3.0);
    g.set_u(0, 1, 5.0);
    g.set_u(1, 1, 9.0);
    g.set_v(0, 1, 2.0);
    g.set_v(1, 1, 4.0);
    g.set_v(0, 2, 6.0);
    g.set_v(1, 2, 10.0);
    // Halfway between face columns 0 and 1, a quarter of the way from face
    // row 0 to face row 1.
    let (u, _) = g.get_velocity(1.0, 1.5);
    assert_eq!(u, 0.75 * 0.5 * 1.0 + 0.75 * 0.5 * 3.0 + 0.25 * 0.5 * 5.0 + 0.25 * 0.5 * 9.0);
    assert_eq!(u, 3.25);
    // Halfway between face columns 0 and 1 (at 1.0 and 3.0), halfway between
    // face rows 1 and 2.
    let (_, v) = g.get_velocity(2.0, 3.0);
    assert_eq!(v, 5.5);
}

#[test]
fn sampling_below_the_first_face_row_repeats_the_edge() {
    let mut g = FluidGrid::new(2, 2, 1.0, ieee());
    g.set_u(0, 0, 1.0);
    g.set_u(0, 1, 3.0);
    let (u, _) = g.get_velocity(0.0, 0.25);
    assert_eq!(u, 1.0);
    g.set_v(0, 0, 2.0);
    g.set_v(1, 0, 8.0);
    let (_, v) = g.get_velocity(0.25, 0.0);
    assert_eq!(v, 2.0);
}

#[test]
fn sampling_above_the_last_face_row_repeats_the_edge() {
    let mut g = FluidGrid::new(2, 2, 1.0, ieee());
    g.set_u(2, 0, 1.0);
    g.set_u(2, 1, 3.0);
    let (u, _) = g.get_velocity(2.0, 1.75);
    assert_eq!(u, 3.0);
    g.set_v(0, 2, 2.0);
    g.set_v(1, 2, 8.0);
    let (_, v) = g.get_velocity(1.75, 2.0);
    assert_eq!(v, 8.0);
}

#[test]
fn sampling_far_outside_is_sampling_on_the_edge() {
    let mut g = FluidGrid::new(4, 3, 15.0, ieee());
    for row in 0..3 {
        for col in 0..5 {
            g.set_u(col, row, 10.0 * row as f64 + col as f64 + 1.0);
        }
    }
    for row in 0..4 {
        for col in 0..4 {
            g.set_v(col, row, -10.0 * row as f64 - col as f64 - 1.0);
        }
    }
    assert_eq!(g.get_velocity(-1.0e9, -1.0e9), g.get_velocity(0.0, 0.0));
    assert_eq!(g.get_velocity(1.0e9, 1.0e9), g.get_velocity(60.0, 45.0));
    assert_eq!(g.get_velocity(-5.0, 1.0e9), g.get_velocity(0.0, 45.0));
    assert_eq!(g.get_velocity(1.0e9, -5.0), g.get_velocity(60.0, 0.0));
    assert_eq!(g.get_velocity(20.0, 1.0e9), g.get_velocity(20.0, 45.0));
    assert_eq!(g.get_velocity(-1.0e9, 20.0), g.get_velocity(0.0, 20.0));
    assert_eq!(g.get_velocity(f64::INFINITY, f64::NEG_INFINITY), g.get_velocity(60.0, 0.0));
    assert_eq!(g.get_velocity(0.0, 0.0), (1.0, -1.0));
    assert_eq!(g.get_velocity(60.0, 45.0), (25.0, -34.0));
}

#[test]
fn sampling_does_not_change_the_grid() {
    let mut g = FluidGrid::new(3, 3, 1.0, ieee());
    g.set_u(1, 1, 2.0);
    g.set_v(1, 1, 3.0);
    g.set_pressure(1, 1, 4.0);
    let p = g.p_field().clone();
    let u = g.u_field().clone();
    let v = g.v_field().clone();
    let _ = g.get_velocity(1.3, 1.7);
    assert_eq!(*g.p_field(), p);
    assert_eq!(*g.u_field(), u);
    assert_eq!(*g.v_field(), v);
}

#[test]
fn advection_fetches_the_velocity_against_the_flow() {
    let mut g = FluidGrid::new(4, 4, 1.0, ieee());
    for row in 0..4 {
        for col in 0..5 {
            g.set_u(col, row, col as f64);
        }
    }
    g.advect(0.5);
    for row in 0..4 {
        // Face 1 moves at 1: it came from 0.5, halfway between faces 0 and 1.
        assert_eq!(g.u(1, row), 0.5);
        // Face 2 moves at 2: it came from face 1.
        assert_eq!(g.u(2, row), 1.0);
        // Face 3 moves at 3: it came from 1.5.
        assert_eq!(g.u(3, row), 1.5);
    }
    assert!(g.v_field().iter().all(|s| *s == 0.0));
    assert!(g.p_field().iter().all(|s| *s == 0.0));
}

#[test]
fn advection_fetches_the_vertical_velocity_against_the_flow() {
    let mut g = FluidGrid::new(4, 4, 1.0, ieee());
    for row in 0..5 {
        for col in 0..4 {
            g.set_v(col, row, row as f64);
        }
    }
    g.advect(0.5);
    for col in 0..4 {
        assert_eq!(g.v(col, 1), 0.5);
        assert_eq!(g.v(col, 2), 1.0);
        assert_eq!(g.v(col, 3), 1.5);
    }
    assert!(g.u_field().iter().all(|s| *s == 0.0));
}

#[test]
fn advection_leaves_the_wall_faces() {
    let mut g = FluidGrid::new(4, 4, 1.0, ieee());
    for row in 0..4 {
        for col in 0..5 {
            g.set_u(col, row, col as f64);
        }
    }
    for row in 0..5 {
        for col in 0..4 {
            g.set_v(col, row, 7.0);
        }
    }
    g.advect(0.5);
    for row in 0..4 {
        assert_eq!(g.u(0, row), 0.0);
        assert_eq!(g.u(4, row), 4.0);
    }
    for col in 0..4 {
        assert_eq!(g.v(col, 0), 7.0);
        assert_eq!(g.v(col, 4), 7.0);
    }
}

#[test]
fn advection_reads_the_field_as_it_was() {
    // Were a face to read what the pass has already written, face 2 would
    // fetch the new velocity of face 1 (0.5) in place of the old one (1).
    let mut g = FluidGrid::new(4, 1, 1.0, ieee());
    for col in 0..5 {
        g.set_u(col, 0, col as f64);
    }
    g.advect(0.5);
    assert_eq!(*g.u_field(), vec![0.0, 0.5, 1.0, 1.5, 4.0]);
}

#[test]
fn divergence_is_the_net_outflow_over_the_spacing() {
    let mut g = FluidGrid::new(2, 2, 2.0, ieee());
    g.set_u(1, 0, 3.0);
    g.set_v(1, 1, 5.0);
    let d = g.divergence();
    assert_eq!(d.len(), 4);
    // cell (0, 0): right 3, left 0, top 0, bottom 0
    assert_eq!(d[0], 1.5);
    // cell (1, 0): right 0, left 3, top 5, bottom 0
    assert_eq!(d[1], 1.0);
    // cell (0, 1): nothing flows
    assert_eq!(d[2], 0.0);
    // cell (1, 1): bottom 5
    assert_eq!(d[3], -2.5);
}

#[test]
fn one_sweep_relaxes_an_inner_cell_from_its_neighbours() {
    let mut g = FluidGrid::new(3, 3, 2.0, ieee());
    g.set_sweeps(1);
    g.set_pressure(2, 1, 1.0);
    g.set_pressure(0, 1, 2.0);
    g.set_pressure(1, 2, 3.0);
    g.set_pressure(1, 0, 4.0);
    g.set_pressure(1, 1, 9.0);
    g.set_u(2, 1, 4.0);
    // divergence of cell (1, 1) is (4 - 0) / 2 = 2
    g.solve_pressure();
    assert_eq!(g.pressure(1, 1), (1.0 + 2.0 + 3.0 + 4.0 - 2.0 * 2.0 * 2.0) / 4.0);
    assert_eq!(g.pressure(1, 1), 0.5);
    assert_eq!(g.pressure(2, 1), 1.0);
    assert_eq!(g.pressure(0, 1), 2.0);
    assert_eq!(g.pressure(1, 2), 3.0);
    assert_eq!(g.pressure(1, 0), 4.0);
    assert_eq!(g.u(2, 1), 4.0);
}

#[test]
fn no_sweep_leaves_the_pressure() {
    let mut g = FluidGrid::new(3, 3, 2.0, ieee());
    g.set_sweeps(0);
    g.set_pressure(1, 1, 9.0);
    g.set_u(2, 1, 4.0);
    g.solve_pressure();
    assert_eq!(g.pressure(1, 1), 9.0);
}

#[test]
fn a_sweep_reads_the_pressure_of_the_sweep_before() {
    let mut g = FluidGrid::new(4, 3, 1.0, ieee());
    g.set_pressure(0, 1, 4.0);
    g.set_sweeps(1);
    g.solve_pressure();
    // Cell (2, 1) still sees the old pressure of cell (1, 1).
    assert_eq!(g.pressure(1, 1), 1.0);
    assert_eq!(g.pressure(2, 1), 0.0);
    g.solve_pressure();
    assert_eq!(g.pressure(1, 1), 1.0);
    assert_eq!(g.pressure(2, 1), 0.25);
}

#[test]
fn two_sweeps_in_one_solve_are_two_solves_of_one_sweep() {
    let mut g = FluidGrid::new(4, 3, 1.0, ieee());
    g.set_pressure(0, 1, 4.0);
    g.set_sweeps(2);
    g.solve_pressure();
    assert_eq!(g.pressure(1, 1), 1.0);
    assert_eq!(g.pressure(2, 1), 0.25);
}

#[test]
fn relaxation_never_writes_the_border() {
    let mut g = FluidGrid::new(4, 4, 1.0, ieee());
    for row in 0..4 {
        for col in 0..4 {
            g.set_pressure(col, row, 1.0 + (row * 4 + col) as f64);
        }
    }
    g.set_u(2, 2, 3.0);
    g.solve_pressure();
    for k in 0..4 {
        assert_eq!(g.pressure(k, 0), 1.0 + k as f64);
        assert_eq!(g.pressure(k, 3), 13.0 + k as f64);
        assert_eq!(g.pressure(0, k), 1.0 + (4 * k) as f64);
        assert_eq!(g.pressure(3, k), 4.0 + (4 * k) as f64);
    }
}

#[test]
fn pressure_solve_leaves_the_velocity() {
    let mut g = FluidGrid::new(4, 4, 1.0, ieee());
    g.set_u(2, 2, 3.0);
    g.set_v(1, 2, -2.0);
    let u = g.u_field().clone();
    let v = g.v_field().clone();
    g.solve_pressure();
    assert_eq!(*g.u_field(), u);
    assert_eq!(*g.v_field(), v);
}

#[test]
fn projection_subtracts_the_pressure_gradient() {
    let mut g = FluidGrid::new(3, 3, 2.0, ieee());
    g.set_pressure(0, 1, 1.0);
    g.set_pressure(1, 1, 5.0);
    g.set_pressure(2, 1, 2.0);
    g.set_pressure(1, 0, 7.0);
    g.set_u(1, 1, 10.0);
    g.project(0.5);
    assert_eq!(g.u(1, 1), 10.0 - (0.5 / 2.0) * (5.0 - 1.0));
    assert_eq!(g.u(1, 1), 9.0);
    assert_eq!(g.u(2, 1), 0.75);
    assert_eq!(g.v(1, 1), 0.5);
    assert_eq!(g.v(1, 2), 1.25);
    assert_eq!(g.pressure(1, 1), 5.0);
}

#[test]
fn projection_leaves_the_outer_faces() {
    let mut g = FluidGrid::new(3, 3, 2.0, ieee());
    for row in 0..3 {
        for col in 0..3 {
            g.set_pressure(col, row, (1 + row * 3 + col * col) as f64);
        }
    }
    for row in 0..3 {
        for col in 0..4 {
            g.set_u(col, row, 3.0);
        }
    }
    for row in 0..4 {
        for col in 0..3 {
            g.set_v(col, row, 4.0);
        }
    }
    g.project(0.5);
    for col in 0..4 {
        assert_eq!(g.u(col, 0), 3.0);
        assert_eq!(g.u(col, 2), 3.0);
    }
    assert_eq!(g.u(0, 1), 3.0);
    assert_eq!(g.u(3, 1), 3.0);
    assert!(g.u(1, 1) != 3.0);
    assert!(g.u(2, 1) != 3.0);
    for row in 0..4 {
        assert_eq!(g.v(0, row), 4.0);
        assert_eq!(g.v(2, row), 4.0);
    }
    assert_eq!(g.v(1, 0), 4.0);
    assert_eq!(g.v(1, 3), 4.0);
    assert!(g.v(1, 1) != 4.0);
    assert!(g.v(1, 2) != 4.0);
}

#[test]
fn walls_are_set_to_rest_and_nothing_else() {
    let mut g = FluidGrid::new(3, 2, 1.0, ieee());
    for row in 0..2 {
        for col in 0..4 {
            g.set_u(col, row, 5.0);
        }
    }
    for row in 0..3 {
        for col in 0..3 {
            g.set_v(col, row, 6.0);
        }
    }
    g.set_pressure(1, 1, 7.0);
    g.set_boundaries();
    assert_eq!(*g.u_field(), vec![0.0, 5.0, 5.0, 0.0, 0.0, 5.0, 5.0, 0.0]);
    assert_eq!(*g.v_field(), vec![0.0, 0.0, 0.0, 6.0, 6.0, 6.0, 0.0, 0.0, 0.0]);
    assert_eq!(g.pressure(1, 1), 7.0);
}

#[test]
fn walls_are_at_rest_after_every_step() {
    let mut g = FluidGrid::new(6, 5, 2.0, ieee());
    for row in 0..5 {
        for col in 0..7 {
            g.set_u(col, row, 1.0 + (row + col) as f64);
        }
    }
    for row in 0..6 {
        for col in 0..6 {
            g.set_v(col, row, -2.0 - (row * col) as f64);
        }
    }
    for _ in 0..4 {
        g.run_step(0.016);
        for row in 0..5 {
            assert_eq!(g.u(0, row), 0.0);
            assert_eq!(g.u(6, row), 0.0);
        }
        for col in 0..6 {
            assert_eq!(g.v(col, 0), 0.0);
            assert_eq!(g.v(col, 5), 0.0);
        }
    }
}

#[test]
fn a_grid_at_rest_stays_at_rest() {
    let mut g = FluidGrid::new(8, 6, 15.0, ieee());
    for _ in 0..5 {
        g.run_step(0.016);
        assert!(g.p_field().iter().all(|s| *s == 0.0));
        assert!(g.u_field().iter().all(|s| *s == 0.0));
        assert!(g.v_field().iter().all(|s| *s == 0.0));
    }
}

#[test]
fn a_step_reduces_the_divergence_of_a_seeded_grid() {
    let mut g = FluidGrid::new(40, 40, 15.0, ieee());
    g.set_v(20, 20, 100.0);
    let d = g.divergence();
    let mut before = 0.0;
    for row in 1..39 {
        for col in 1..39 {
            before += d[g.p_idx(col, row)].abs();
        }
    }
    assert!((before - 200.0 / 15.0).abs() < 1.0e-9);
    g.run_step(0.016);
    let d = g.divergence();
    let mut after = 0.0;
    for row in 1..39 {
        for col in 1..39 {
            after += d[g.p_idx(col, row)].abs();
        }
    }
    assert!(after < before);
    assert!(after > 0.0);
}

#[test]
fn equal_grids_stepped_alike_stay_equal() {
    let mut a = FluidGrid::new(12, 9, 15.0, ieee());
    let mut b = FluidGrid::new(12, 9, 15.0, ieee());
    a.set_v(6, 4, 100.0);
    b.set_v(6, 4, 100.0);
    a.set_u(3, 3, -40.0);
    b.set_u(3, 3, -40.0);
    for dt in [0.016, 0.02, 0.016, 0.5] {
        a.run_step(dt);
        b.run_step(dt);
        assert_eq!(bits(a.p_field()), bits(b.p_field()));
        assert_eq!(bits(a.u_field()), bits(b.u_field()));
        assert_eq!(bits(a.v_field()), bits(b.v_field()));
    }
    assert!(a.u_field().iter().any(|s| *s != 0.0));
}

#[test]
fn a_step_is_the_four_phases_in_order() {
    let mut a = FluidGrid::new(7, 6, 3.0, ieee());
    let mut b = FluidGrid::new(7, 6, 3.0, ieee());
    a.set_v(3, 3, 50.0);
    b.set_v(3, 3, 50.0);
    a.set_u(4, 2, 20.0);
    b.set_u(4, 2, 20.0);
    a.set_v(2, 0, 9.0);
    b.set_v(2, 0, 9.0);
    a.run_step(0.25);
    b.advect(0.25);
    b.solve_pressure();
    b.project(0.25);
    b.set_boundaries();
    assert_eq!(bits(a.p_field()), bits(b.p_field()));
    assert_eq!(bits(a.u_field()), bits(b.u_field()));
    assert_eq!(bits(a.v_field()), bits(b.v_field()));
}

#[test]
fn a_step_of_the_smallest_grid_only_stills_the_walls() {
    let mut g = FluidGrid::new(1, 1, 1.0, ieee());
    g.set_u(0, 0, 3.0);
    g.set_u(1, 0, 4.0);
    g.set_v(0, 0, 5.0);
    g.set_v(0, 1, 6.0);
    g.set_pressure(0, 0, 7.0);
    g.run_step(0.1);
    assert_eq!(*g.u_field(), vec![0.0, 0.0]);
    assert_eq!(*g.v_field(), vec![0.0, 0.0]);
    assert_eq!(*g.p_field(), vec![7.0]);
}

#[test]
fn a_step_keeps_the_shape() {
    let mut g = FluidGrid::new(5, 4, 2.0, ieee());
    g.set_v(2, 2, 10.0);
    g.set_sweeps(3);
    g.run_step(0.1);
    assert_eq!(g.nx(), 5);
    assert_eq!(g.ny(), 4);
    assert_eq!(g.dx(), 2.0);
    assert_eq!(g.sweeps(), 3);
    assert_eq!(g.p_field().len(), 20);
    assert_eq!(g.u_field().len(), 24);
    assert_eq!(g.v_field().len(), 25);
}

#[test]
fn arrows_stand_in_the_middle_of_the_inner_cells() {
    let mut g = FluidGrid::new(4, 5, 2.0, ieee());
    for row in 0..5 {
        for col in 0..5 {
            g.set_u(col, row, 1.0 + col as f64);
        }
    }
    for row in 0..6 {
        for col in 0..4 {
            g.set_v(col, row, 10.0 + row as f64);
        }
    }
    let arrows = g.arrows();
    assert_eq!(arrows.len(), 6);
    let mut k = 0;
    for row in 1..4 {
        for col in 1..3 {
            let a = &arrows[k];
            assert_eq!(a.x, (col as f64 + 0.5) * 2.0);
            assert_eq!(a.y, (row as f64 + 0.5) * 2.0);
            assert_eq!((a.u, a.v), g.get_velocity(a.x, a.y));
            assert_eq!(a.u, 1.5 + col as f64);
            assert_eq!(a.v, 10.5 + row as f64);
            k += 1;
        }
    }
}

#[test]
fn a_grid_without_inner_cells_has_no_arrows() {
    assert_eq!(FluidGrid::new(2, 5, 1.0, ieee()).arrows().len(), 0);
    assert_eq!(FluidGrid::new(5, 2, 1.0, ieee()).arrows().len(), 0);
    assert_eq!(FluidGrid::new(1, 1, 1.0, ieee()).arrows().len(), 0);
    assert_eq!(FluidGrid::new(3, 3, 1.0, ieee()).arrows().len(), 1);
}
