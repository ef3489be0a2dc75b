//! Scenario tests of the integrator over whole simulations.

use xpbd::cpu::{constraint_error, Constraint, CpuSimulation, SolverType};
use xpbd::fx::fx_div;
use xpbd::vec3::{vcross, vdiv_fx, vdot, vlen, vsub, Vec3};
use xpbd::{DistanceC, Particle, TetrahedralVolumeC, SCALE};

fn v(x: i64, y: i64, z: i64) -> Vec3 {
    Vec3::new(x, y, z)
}

/// Distance between two particles of a simulation, in raw ticks.
fn dist(sim: &CpuSimulation, i: usize, j: usize) -> i64 {
    vlen(vsub(sim.particles()[j].position, sim.particles()[i].position))
}

#[test]
fn free_fall_one_step() {
    let mut sim = CpuSimulation::new(SolverType::GaussSeidel);
    let mut p = Particle::new(v(0, 0, 10 * SCALE), SCALE);
    p.ext_acc = v(0, 0, -10 * SCALE);
    sim.add_particles(vec![p]);
    sim.simulate(1, SCALE, false);
    let p = sim.particles()[0];
    assert_eq!(p.position, v(0, 0, 0));
    assert_eq!(p.velocity, v(0, 0, -10 * SCALE));
    assert_eq!(p.prev_position, v(0, 0, 10 * SCALE));
}

#[test]
fn ground_clamp_holds_particle_at_plane() {
    let mut sim = CpuSimulation::new(SolverType::GaussSeidel);
    let mut p = Particle::new(v(0, 0, SCALE / 10), SCALE);
    p.ext_acc = v(0, 0, -100 * SCALE);
    sim.add_particles(vec![p]);
    sim.simulate(1, SCALE, false);
    let p = sim.particles()[0];
    assert_eq!(p.position, v(0, 0, 0));
    // The inferred velocity comes from the clamped position change: -0.1 / 1.
    assert_eq!(p.velocity, v(0, 0, -SCALE / 10));
}

#[test]
fn pinned_pendulum_keeps_rest_distance() {
    let mut sim = CpuSimulation::new(SolverType::GaussSeidel);
    let anchor = Particle::new(v(0, 0, 10 * SCALE), 0);
    let mut bob = Particle::new(v(SCALE, 0, 10 * SCALE), SCALE);
    bob.ext_acc = v(0, 0, -10 * SCALE);
    sim.add_particles(vec![anchor, bob]);
    sim.add_distance_constraints(vec![DistanceC::new([0, 1], SCALE, 0)]);
    for _ in 0..5 {
        sim.simulate(20, SCALE, false);
        let err = (dist(&sim, 0, 1) - SCALE).abs();
        // Within 1e-3 units.
        assert!(err < SCALE / 1000, "distance error {err}");
    }
}

#[test]
fn pinned_particle_never_moves() {
    let mut sim = CpuSimulation::new(SolverType::GaussSeidel);
    let anchor = Particle::new(v(0, 0, 10 * SCALE), 0);
    let mut bob = Particle::new(v(SCALE, 0, 10 * SCALE), SCALE);
    bob.ext_acc = v(0, 0, -10 * SCALE);
    sim.add_particles(vec![anchor, bob]);
    sim.add_distance_constraints(vec![DistanceC::new([0, 1], SCALE, 0)]);
    for _ in 0..10 {
        sim.simulate(20, SCALE, false);
        assert_eq!(sim.particles()[0].position, v(0, 0, 10 * SCALE));
        assert_eq!(sim.particles()[0].velocity, v(0, 0, 0));
    }
}

#[test]
fn pinned_particle_ignores_velocity_and_acceleration() {
    let mut sim = CpuSimulation::new(SolverType::GaussSeidel);
    // Even with a nonzero velocity and acceleration, and sitting below the
    // contact plane, a pinned particle is never integrated.
    let mut anchor = Particle::new(v(0, 0, -SCALE), 0);
    anchor.velocity = v(SCALE, 0, 0);
    anchor.ext_acc = v(0, 0, -10 * SCALE);
    let mut bob = Particle::new(v(SCALE, 0, -SCALE), SCALE);
    bob.ext_acc = v(0, 0, -10 * SCALE);
    sim.add_particles(vec![anchor, bob]);
    sim.add_distance_constraints(vec![DistanceC::new([0, 1], SCALE, 0)]);
    for _ in 0..5 {
        sim.simulate(10, SCALE, false);
        assert_eq!(sim.particles()[0].position, v(0, 0, -SCALE));
        assert_eq!(sim.particles()[0].prev_position, v(0, 0, -SCALE));
    }
}

#[test]
fn velocity_equals_position_delta_over_substep() {
    let mut sim = CpuSimulation::new(SolverType::GaussSeidel);
    let anchor = Particle::new(v(0, 0, 10 * SCALE), 0);
    let mut bob = Particle::new(v(SCALE, 0, 10 * SCALE), SCALE);
    bob.ext_acc = v(0, 0, -10 * SCALE);
    sim.add_particles(vec![anchor, bob]);
    sim.add_distance_constraints(vec![DistanceC::new([0, 1], SCALE, 0)]);
    let substeps: u32 = 20;
    let delta = SCALE;
    sim.simulate(substeps, delta, false);
    let h = fx_div(delta, substeps as i64 * SCALE);
    for p in sim.particles().iter() {
        assert_eq!(p.velocity, vdiv_fx(vsub(p.position, p.prev_position), h));
    }
}

/// The regular-tetrahedron scene: four unit-inverse-mass particles, slightly
/// perturbed, with six rigid edges and one rigid volume constraint.
fn tet_scene(solver: SolverType) -> (CpuSimulation, Vec<DistanceC>, TetrahedralVolumeC) {
    let base = [
        v(SCALE, SCALE, 6 * SCALE),
        v(SCALE, -SCALE, 4 * SCALE),
        v(-SCALE, SCALE, 4 * SCALE),
        v(-SCALE, -SCALE, 6 * SCALE),
    ];
    let pert = [
        v(SCALE / 100, 0, 0),
        v(0, SCALE / 100, 0),
        v(0, 0, SCALE / 100),
        v(-SCALE / 100, 0, 0),
    ];
    let mut particles = Vec::new();
    for k in 0..4 {
        particles.push(Particle::new(
            xpbd::vec3::vadd(base[k], pert[k]),
            SCALE,
        ));
    }
    let edges = [(0u32, 1u32), (0, 2), (0, 3), (1, 2), (1, 3), (2, 3)];
    let mut dcs = Vec::new();
    for (i, j) in edges {
        let rest = vlen(vsub(base[j as usize], base[i as usize]));
        dcs.push(DistanceC::new([i, j], rest, 0));
    }
    // Vertex order (0, 1, 3, 2) gives a positive signed volume.
    let (p1, p2, p3, p4) = (base[0], base[1], base[3], base[2]);
    let rest_volume = fx_div(
        vdot(vcross(vsub(p2, p1), vsub(p3, p1)), vsub(p4, p1)),
        6 * SCALE,
    );
    assert!(rest_volume > 0);
    let tc = TetrahedralVolumeC::new([0, 1, 3, 2], rest_volume, 0);
    let mut sim = CpuSimulation::new(solver);
    sim.add_particles(particles);
    sim.add_distance_constraints(dcs.clone());
    sim.add_volume_constraints(vec![tc]);
    (sim, dcs, tc)
}

#[test]
fn rigid_tet_recovers_shape() {
    let (mut sim, dcs, tc) = tet_scene(SolverType::GaussSeidel);
    sim.simulate(100, SCALE / 10, false);
    for c in &dcs {
        let err = (dist(&sim, c.particles_idx[0] as usize, c.particles_idx[1] as usize)
            - c.rest_distance)
            .abs();
        assert!(err < SCALE / 1000, "edge error {err}");
    }
    // `value` is six times the signed-volume error.
    let verr = tc.value(sim.particles()).abs();
    assert!(verr < 6 * SCALE / 1000, "volume error {verr}");
}

#[test]
fn volume_error_shrinks_under_advances() {
    let (mut sim, _dcs, tc) = tet_scene(SolverType::GaussSeidel);
    let initial = tc.value(sim.particles()).abs();
    assert!(initial > 0);
    for _ in 0..5 {
        sim.simulate(20, SCALE, false);
        let err = tc.value(sim.particles()).abs();
        assert!(err < initial);
        assert!(err < 6 * SCALE / 10000, "volume error {err}");
    }
}

#[test]
fn distance_error_shrinks_under_advances() {
    let mut sim = CpuSimulation::new(SolverType::GaussSeidel);
    sim.add_particles(vec![
        Particle::new(v(0, 0, SCALE), SCALE),
        Particle::new(v(22 * SCALE / 10, 0, SCALE), SCALE),
    ]);
    sim.add_distance_constraints(vec![DistanceC::new([0, 1], SCALE, 0)]);
    let initial = constraint_error(sim.particles(), &sim.distance_constraints);
    assert!(initial > SCALE);
    for _ in 0..6 {
        sim.simulate(10, SCALE, false);
        let err = constraint_error(sim.particles(), &sim.distance_constraints);
        assert!(err < initial);
        assert!(err <= SCALE / 1000, "distance error {err}");
    }
}

#[test]
fn zero_distance_degenerate_stays_coincident() {
    let mut sim = CpuSimulation::new(SolverType::GaussSeidel);
    let start = v(0, 0, 5 * SCALE);
    sim.add_particles(vec![Particle::new(start, SCALE), Particle::new(start, SCALE)]);
    sim.add_distance_constraints(vec![DistanceC::new([0, 1], 0, 0)]);
    sim.simulate(10, SCALE, false);
    assert_eq!(sim.particles()[0].position, start);
    assert_eq!(sim.particles()[1].position, start);
}

/// A scene with a unique steady state: a bob below a pinned anchor, pressed
/// onto the contact plane by gravity, where the rigid link is exactly taut.
fn settling_scene(solver: SolverType) -> CpuSimulation {
    let mut sim = CpuSimulation::new(solver);
    let anchor = Particle::new(v(0, 0, SCALE), 0);
    let mut bob = Particle::new(v(0, 0, SCALE / 5), SCALE);
    bob.ext_acc = v(0, 0, -10 * SCALE);
    sim.add_particles(vec![anchor, bob]);
    sim.add_distance_constraints(vec![DistanceC::new([0, 1], SCALE, 0)]);
    sim
}

#[test]
fn jacobi_gauss_seidel_parity() {
    let mut gs = settling_scene(SolverType::GaussSeidel);
    let mut jac = settling_scene(SolverType::Jacobi);
    gs.simulate(1000, 10 * SCALE, false);
    jac.simulate(1000, 10 * SCALE, false);
    let mut l2_sq: i128 = 0;
    for k in 0..2 {
        let d = vsub(gs.particles()[k].position, jac.particles()[k].position);
        l2_sq += (d.x as i128) * (d.x as i128) + (d.y as i128) * (d.y as i128) + (d.z as i128)
            * (d.z as i128);
    }
    // L2 distance below 1e-2 units, i.e. its square below (SCALE/100)^2.
    assert!(l2_sq < (SCALE as i128 / 100) * (SCALE as i128 / 100), "l2^2 {l2_sq}");
}

#[test]
fn solvers_share_steady_state() {
    let mut gs = settling_scene(SolverType::GaussSeidel);
    let mut jac = settling_scene(SolverType::Jacobi);
    gs.simulate(500, 5 * SCALE, false);
    jac.simulate(500, 5 * SCALE, false);
    // Both reach the unique grounded equilibrium directly below the anchor.
    assert_eq!(gs.particles()[1].position, v(0, 0, 0));
    assert_eq!(jac.particles()[1].position, v(0, 0, 0));
}

#[test]
fn diagnostic_printing_leaves_state_unchanged() {
    let mut quiet = settling_scene(SolverType::GaussSeidel);
    let mut loud = settling_scene(SolverType::GaussSeidel);
    quiet.simulate(5, SCALE, false);
    loud.simulate(5, SCALE, true);
    for k in 0..2 {
        assert_eq!(quiet.particles()[k].position, loud.particles()[k].position);
        assert_eq!(quiet.particles()[k].velocity, loud.particles()[k].velocity);
    }
}

#[test]
fn default_solver_is_gauss_seidel() {
    assert!(matches!(SolverType::default(), SolverType::GaussSeidel));
}

#[test]
fn distance_solve_emits_opposite_corrections() {
    let particles = vec![
        Particle::new(v(0, 0, SCALE), SCALE),
        Particle::new(v(2 * SCALE, 0, SCALE), SCALE),
    ];
    let c = DistanceC::new([0, 1], SCALE, 0);
    let ds = c.solve(&particles, SCALE / 10);
    assert_eq!(ds.len(), 2);
    assert_eq!(ds[0].particle_idx, 0);
    assert_eq!(ds[1].particle_idx, 1);
    // The pair is stretched by one unit, so each end moves half a unit inward.
    assert!(ds[0].delta.x > 4 * SCALE / 10 && ds[0].delta.x <= SCALE / 2);
    assert_eq!(ds[0].delta.x, -ds[1].delta.x);
    assert_eq!(ds[0].delta.y, 0);
    assert_eq!(ds[0].delta.z, 0);
}

#[test]
fn compliance_softens_distance_constraint() {
    let mut rigid = CpuSimulation::new(SolverType::GaussSeidel);
    let mut soft = CpuSimulation::new(SolverType::GaussSeidel);
    let particles = vec![
        Particle::new(v(0, 0, SCALE), SCALE),
        Particle::new(v(2 * SCALE, 0, SCALE), SCALE),
    ];
    rigid.add_particles(particles.clone());
    soft.add_particles(particles);
    rigid.add_distance_constraints(vec![DistanceC::new([0, 1], SCALE, 0)]);
    soft.add_distance_constraints(vec![DistanceC::new([0, 1], SCALE, SCALE)]);
    rigid.simulate(1, SCALE, false);
    soft.simulate(1, SCALE, false);
    let rigid_err = (dist(&rigid, 0, 1) - SCALE).abs();
    let soft_err = (dist(&soft, 0, 1) - SCALE).abs();
    assert!(rigid_err < soft_err, "rigid {rigid_err} soft {soft_err}");
}
