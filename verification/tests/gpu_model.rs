//! Tests of the GPU path's host-side model: scene validation, the scatter
//! accumulator, dispatch sizing, and agreement with the CPU Jacobi solver.

use xpbd::cpu::{CpuSimulation, SolverType};
use xpbd::gpu::shaders::{buffer_size, storage_bindings, BufferDesc, ACC_STRIDE,
    DISTANCE_C_STRIDE, PARTICLE_STRIDE, SIM_PARAMS_SIZE, TET_C_STRIDE};
use xpbd::gpu::{cleared_results, gpu_advance, substep_schedule, validate_scene, GpuPass,
    SceneError, workgroup_count, ACC_CAPACITY};
use xpbd::fx::fx_div;
use xpbd::vec3::{vadd, vcross, vdot, vlen, vsub, Vec3};
use xpbd::{DistanceC, Particle, TetrahedralVolumeC, SCALE};

fn v(x: i64, y: i64, z: i64) -> Vec3 {
    Vec3::new(x, y, z)
}

/// A pendulum scene as plain vectors, for driving both solver paths.
fn pendulum() -> (Vec<Particle>, Vec<DistanceC>, Vec<TetrahedralVolumeC>) {
    let anchor = Particle::new(v(0, 0, 10 * SCALE), 0);
    let mut bob = Particle::new(v(SCALE, 0, 10 * SCALE), SCALE);
    bob.ext_acc = v(0, 0, -10 * SCALE);
    (vec![anchor, bob], vec![DistanceC::new([0, 1], SCALE, 0)], vec![])
}

#[test]
fn gpu_jacobi_matches_cpu_jacobi() {
    let (particles, dcs, tcs) = pendulum();
    let mut cpu = CpuSimulation::new(SolverType::Jacobi);
    cpu.add_particles(particles.clone());
    cpu.add_distance_constraints(dcs.clone());
    cpu.simulate(20, SCALE, false);

    let mut gpu_particles = particles;
    gpu_advance(&mut gpu_particles, &dcs, &tcs, 20, SCALE);

    for k in 0..2 {
        assert_eq!(gpu_particles[k].position, cpu.particles()[k].position);
        assert_eq!(gpu_particles[k].velocity, cpu.particles()[k].velocity);
        assert_eq!(gpu_particles[k].prev_position, cpu.particles()[k].prev_position);
    }
}

/// A perturbed rigid tetrahedron: both constraint kinds active, so the
/// distance and volume passes interact within each substep.
fn perturbed_tet() -> (Vec<Particle>, Vec<DistanceC>, Vec<TetrahedralVolumeC>) {
    let base = [
        v(SCALE, SCALE, 6 * SCALE),
        v(SCALE, -SCALE, 4 * SCALE),
        v(-SCALE, SCALE, 4 * SCALE),
        v(-SCALE, -SCALE, 6 * SCALE),
    ];
    let pert = [
        v(SCALE / 100, 0, 0),
        v(0, SCALE / 100, 0),
        v(0, 0, SCALE / 100),
        v(-SCALE / 100, 0, 0),
    ];
    let mut particles = Vec::new();
    for k in 0..4 {
        particles.push(Particle::new(vadd(base[k], pert[k]), SCALE));
    }
    let edges = [(0u32, 1u32), (0, 2), (0, 3), (1, 2), (1, 3), (2, 3)];
    let mut dcs = Vec::new();
    for (i, j) in edges {
        let rest = vlen(vsub(base[j as usize], base[i as usize]));
        dcs.push(DistanceC::new([i, j], rest, 0));
    }
    let (p1, p2, p3, p4) = (base[0], base[1], base[3], base[2]);
    let rest_volume = fx_div(
        vdot(vcross(vsub(p2, p1), vsub(p3, p1)), vsub(p4, p1)),
        6 * SCALE,
    );
    let tcs = vec![TetrahedralVolumeC::new([0, 1, 3, 2], rest_volume, 0)];
    (particles, dcs, tcs)
}

#[test]
fn gpu_jacobi_matches_cpu_jacobi_with_volumes() {
    let (particles, dcs, tcs) = perturbed_tet();
    let mut cpu = CpuSimulation::new(SolverType::Jacobi);
    cpu.add_particles(particles.clone());
    cpu.add_distance_constraints(dcs.clone());
    cpu.add_volume_constraints(tcs.clone());
    cpu.simulate(20, SCALE, false);

    let mut gpu_particles = particles;
    gpu_advance(&mut gpu_particles, &dcs, &tcs, 20, SCALE);

    for k in 0..4 {
        assert_eq!(gpu_particles[k].position, cpu.particles()[k].position);
        assert_eq!(gpu_particles[k].velocity, cpu.particles()[k].velocity);
    }
}

#[test]
fn validate_scene_accepts_a_valid_scene() {
    let (particles, dcs, tcs) = pendulum();
    assert_eq!(validate_scene(particles.len(), &dcs, &tcs), Ok(()));
}

#[test]
fn validate_scene_rejects_out_of_range_index() {
    let dcs = vec![DistanceC::new([0, 5], SCALE, 0)];
    let tcs: Vec<TetrahedralVolumeC> = vec![];
    assert_eq!(validate_scene(2, &dcs, &tcs), Err(SceneError::ParticleIndexOutOfRange));
}

#[test]
fn validate_scene_rejects_excess_incidence() {
    let mut dcs = Vec::new();
    for _ in 0..65 {
        dcs.push(DistanceC::new([0, 1], SCALE, 0));
    }
    let tcs: Vec<TetrahedralVolumeC> = vec![];
    assert_eq!(validate_scene(2, &dcs, &tcs), Err(SceneError::AccumulatorCapacityExceeded));
    // One fewer reference per particle fits the accumulator capacity.
    dcs.pop();
    assert_eq!(validate_scene(2, &dcs, &tcs), Ok(()));
}

#[test]
fn cleared_results_are_empty() {
    let rs = cleared_results(3);
    assert_eq!(rs.len(), 3);
    for acc in &rs {
        assert_eq!(acc.n, 0);
        assert_eq!(acc.deltas.len(), ACC_CAPACITY);
        for d in &acc.deltas {
            assert_eq!(*d, v(0, 0, 0));
        }
    }
}

#[test]
fn workgroup_counts_cover_the_work() {
    assert_eq!(workgroup_count(0), 1);
    assert_eq!(workgroup_count(63), 1);
    assert_eq!(workgroup_count(64), 2);
    assert_eq!(workgroup_count(130), 3);
}

#[test]
fn substep_schedule_completes_distance_pass_before_tet() {
    let schedule = substep_schedule(100, 10, 1);
    assert_eq!(
        schedule,
        vec![
            GpuPass::ClearDistanceResults,
            GpuPass::ClearTetResults,
            GpuPass::Presolve { workgroups: 2 },
            GpuPass::SolveDistance { workgroups: 1 },
            GpuPass::AddDeltasDistance { workgroups: 2 },
            GpuPass::SolveTet { workgroups: 1 },
            GpuPass::AddDeltasTet { workgroups: 2 },
            GpuPass::Postsolve { workgroups: 2 },
        ]
    );
}

#[test]
fn buffer_layout_sizes() {
    // The accumulator stride is its counter lane plus one 16-byte lane per slot.
    assert_eq!(ACC_STRIDE, 16 + 16 * ACC_CAPACITY as u64);
    assert_eq!(PARTICLE_STRIDE, 64);
    assert_eq!(DISTANCE_C_STRIDE, 16);
    assert_eq!(TET_C_STRIDE, 24);
    assert_eq!(ACC_STRIDE, 1040);
    assert_eq!(SIM_PARAMS_SIZE, 8);
    assert_eq!(buffer_size(PARTICLE_STRIDE, 10), 640);
    assert_eq!(buffer_size(ACC_STRIDE, 2), 2080);
}

#[test]
fn storage_bindings_follow_the_uniform() {
    let descs = vec![
        BufferDesc { read_only: true },
        BufferDesc { read_only: true },
        BufferDesc { read_only: false },
    ];
    let bindings = storage_bindings(&descs);
    assert_eq!(bindings, vec![(1, true), (2, true), (3, false)]);
}
