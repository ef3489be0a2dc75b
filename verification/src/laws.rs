//! Laws of the integrator, proved against the spec-level model that
//! `CpuSimulation::simulate` is contracted to compute.

use vstd::prelude::*;

verus! {

use crate::{ConstraintDelta, DistanceC, Particle, TetrahedralVolumeC};
use crate::cpu::{advance_s, apply_deltas_s, gs_pass_s, jacobi_deltas_s, jacobi_particle_s,
    jacobi_pass_s, matching_count_s, matching_sum_s, postsolve_particle_s, postsolve_s,
    presolve_particle_s, presolve_s, spec_solve, substep_s, Constraint, SolverType};
use crate::vec3::{vadd_s, vdiv_count_s, vdiv_fx_s, vscale_s, vsub_s, vzero};

/// Applying corrections preserves the particle count.
pub proof fn lemma_apply_deltas_len(ps: Seq<Particle>, ds: Seq<ConstraintDelta>)
    ensures
        apply_deltas_s(ps, ds).len() == ps.len(),
    decreases ds.len(),
{
    if ds.len() == 0 {
    } else {
        lemma_apply_deltas_len(ps, ds.drop_last());
    }
}

/// A Gauss-Seidel pass preserves the particle count.
pub proof fn lemma_gs_pass_len<C: Constraint>(ps: Seq<Particle>, cs: Seq<C>, h: i64)
    ensures
        gs_pass_s(ps, cs, h).len() == ps.len(),
    decreases cs.len(),
{
    if cs.len() == 0 {
    } else {
        lemma_gs_pass_len(ps, cs.drop_last(), h);
        let prev = gs_pass_s(ps, cs.drop_last(), h);
        lemma_apply_deltas_len(prev, spec_solve(cs.last(), prev, h));
    }
}

/// A substep preserves the particle count.
pub proof fn lemma_substep_len(
    ps: Seq<Particle>,
    dcs: Seq<DistanceC>,
    tcs: Seq<TetrahedralVolumeC>,
    h: i64,
    solver: SolverType,
)
    ensures
        substep_s(ps, dcs, tcs, h, solver).len() == ps.len(),
{
    let predicted = presolve_s(ps, h);
    match solver {
        SolverType::GaussSeidel => {
            lemma_gs_pass_len(predicted, dcs, h);
            lemma_gs_pass_len(gs_pass_s(predicted, dcs, h), tcs, h);
        },
        SolverType::Jacobi => {
        },
    }
}

/// Any number of substeps preserves the particle count.
pub proof fn lemma_advance_len(
    ps: Seq<Particle>,
    dcs: Seq<DistanceC>,
    tcs: Seq<TetrahedralVolumeC>,
    h: i64,
    solver: SolverType,
    n: nat,
)
    ensures
        advance_s(ps, dcs, tcs, h, solver, n).len() == ps.len(),
    decreases n,
{
    if n == 0 {
    } else {
        lemma_advance_len(ps, dcs, tcs, h, solver, (n - 1) as nat);
        lemma_substep_len(advance_s(ps, dcs, tcs, h, solver, (n - 1) as nat), dcs, tcs, h, solver);
    }
}

/// Law: at every substep boundary, the velocity of every particle equals its
/// position change over the substep divided by the substep size, in the
/// solver's fixed-point arithmetic.
pub proof fn law_velocity_is_position_delta_over_h(
    ps: Seq<Particle>,
    dcs: Seq<DistanceC>,
    tcs: Seq<TetrahedralVolumeC>,
    h: i64,
    solver: SolverType,
    n: nat,
    i: int,
)
    requires
        n >= 1,
        0 <= i < ps.len(),
    ensures
        advance_s(ps, dcs, tcs, h, solver, n).len() == ps.len(),
        ({
            let r = advance_s(ps, dcs, tcs, h, solver, n)[i];
            r.velocity == vdiv_fx_s(vsub_s(r.position, r.prev_position), h)
        }),
{
    lemma_advance_len(ps, dcs, tcs, h, solver, n);
    let prev = advance_s(ps, dcs, tcs, h, solver, (n - 1) as nat);
    lemma_advance_len(ps, dcs, tcs, h, solver, (n - 1) as nat);
    let predicted = presolve_s(prev, h);
    let solved = match solver {
        SolverType::GaussSeidel => gs_pass_s(gs_pass_s(predicted, dcs, h), tcs, h),
        SolverType::Jacobi => jacobi_pass_s(jacobi_pass_s(predicted, dcs, h), tcs, h),
    };
    match solver {
        SolverType::GaussSeidel => {
            lemma_gs_pass_len(predicted, dcs, h);
            lemma_gs_pass_len(gs_pass_s(predicted, dcs, h), tcs, h);
        },
        SolverType::Jacobi => {
        },
    }
    assert(advance_s(ps, dcs, tcs, h, solver, n) == postsolve_s(solved, h));
    assert(advance_s(ps, dcs, tcs, h, solver, n)[i] == postsolve_particle_s(solved[i], h));
}

/// All constraints of the array are satisfied in the given state.
pub open spec fn all_satisfied_s<C: Constraint>(ps: Seq<Particle>, cs: Seq<C>) -> bool {
    forall|k: int| 0 <= k < cs.len() ==> (#[trigger] cs[k]).model_value(ps) == 0
}

/// A satisfied constraint emits only zero corrections: its multiplier is zero.
proof fn lemma_satisfied_solve_zero<C: Constraint>(c: C, ps: Seq<Particle>, h: i64, k: int)
    requires
        c.model_value(ps) == 0,
        0 <= k < spec_solve(c, ps, h).len(),
    ensures
        spec_solve(c, ps, h)[k].delta == vzero(),
{
    let ws = crate::cpu::inv_masses_of(ps, c.model_indices());
    let lambda = crate::cpu::xpbd_lambda_s(
        c.model_value(ps),
        c.model_gradients(ps),
        ws,
        c.model_compliance(),
        h,
    );
    let alpha = crate::fx::fx_div_s(c.model_compliance(), crate::fx::fx_mul_s(h, h));
    let denom = crate::fx::sat_add_s(
        crate::cpu::denom_sum_s(c.model_gradients(ps), ws),
        alpha,
    );
    crate::fx::lemma_fx_div_zero(denom);
    assert(lambda == 0);
    crate::fx::lemma_fx_mul_zero(ws[k]);
    let g = c.model_gradients(ps)[k];
    crate::fx::lemma_fx_mul_zero(g.x);
    crate::fx::lemma_fx_mul_zero(g.y);
    crate::fx::lemma_fx_mul_zero(g.z);
}

/// Applying only zero corrections leaves the state unchanged.
proof fn lemma_apply_zero_deltas(ps: Seq<Particle>, ds: Seq<ConstraintDelta>)
    requires
        forall|k: int| 0 <= k < ds.len() ==> (#[trigger] ds[k]).delta == vzero(),
    ensures
        apply_deltas_s(ps, ds) == ps,
    decreases ds.len(),
{
    if ds.len() == 0 {
    } else {
        lemma_apply_zero_deltas(ps, ds.drop_last());
        let d = ds.last();
        let i = d.particle_idx as int;
        if 0 <= i < ps.len() {
            assert(vadd_s(ps[i].position, d.delta) == ps[i].position);
            assert(apply_deltas_s(ps, ds) =~= ps);
        }
    }
}

/// A Gauss-Seidel pass over satisfied constraints is the identity.
proof fn lemma_gs_pass_satisfied<C: Constraint>(ps: Seq<Particle>, cs: Seq<C>, h: i64)
    requires
        all_satisfied_s(ps, cs),
    ensures
        gs_pass_s(ps, cs, h) == ps,
    decreases cs.len(),
{
    if cs.len() == 0 {
    } else {
        assert(all_satisfied_s(ps, cs.drop_last()));
        lemma_gs_pass_satisfied(ps, cs.drop_last(), h);
        let ds = spec_solve(cs.last(), ps, h);
        assert forall|k: int| 0 <= k < ds.len() implies (#[trigger] ds[k]).delta == vzero() by {
            lemma_satisfied_solve_zero(cs.last(), ps, h, k);
        }
        lemma_apply_zero_deltas(ps, ds);
    }
}

/// A Jacobi pass over satisfied constraints is the identity.
proof fn lemma_jacobi_pass_satisfied<C: Constraint>(ps: Seq<Particle>, cs: Seq<C>, h: i64)
    requires
        all_satisfied_s(ps, cs),
    ensures
        jacobi_pass_s(ps, cs, h) == ps,
    decreases cs.len(),
{
    let ds = jacobi_deltas_s(ps, cs, h);
    assert forall|k: int| 0 <= k < ds.len() implies (#[trigger] ds[k]).delta == vzero() by {
        lemma_jacobi_deltas_all_zero(ps, cs, h, k);
    }
    assert forall|i: int| 0 <= i < ps.len() implies jacobi_particle_s(ps[i], ds, i as u32)
        == ps[i] by {
        lemma_matching_sum_zero(ds, i as u32);
        let n = matching_count_s(ds, i as u32);
        if n > 0 {
            assert(vscale_s(vzero(), crate::cpu::JACOBI_W) == vzero());
            assert(vdiv_count_s(vzero(), n as int) == vzero());
            assert(vadd_s(ps[i].position, vzero()) == ps[i].position);
        }
    }
    assert(jacobi_pass_s(ps, cs, h) =~= ps);
}

/// Every correction of a Jacobi phase over satisfied constraints is zero.
proof fn lemma_jacobi_deltas_all_zero<C: Constraint>(ps: Seq<Particle>, cs: Seq<C>, h: i64, k: int)
    requires
        all_satisfied_s(ps, cs),
        0 <= k < jacobi_deltas_s(ps, cs, h).len(),
    ensures
        jacobi_deltas_s(ps, cs, h)[k].delta == vzero(),
    decreases cs.len(),
{
    if cs.len() == 0 {
    } else {
        let front = jacobi_deltas_s(ps, cs.drop_last(), h);
        let back = spec_solve(cs.last(), ps, h);
        if k < front.len() {
            assert(all_satisfied_s(ps, cs.drop_last()));
            lemma_jacobi_deltas_all_zero(ps, cs.drop_last(), h, k);
            assert(jacobi_deltas_s(ps, cs, h)[k] == front[k]);
        } else {
            lemma_satisfied_solve_zero(cs.last(), ps, h, k - front.len());
            assert(jacobi_deltas_s(ps, cs, h)[k] == back[k - front.len()]);
        }
    }
}

/// Law: a state at rest on or above the contact plane, with every constraint
/// satisfied, is a fixed point of the integrator under either solver variant:
/// the steady state is shared between the Gauss-Seidel and Jacobi paths.
pub proof fn law_equilibrium_is_stationary(
    ps: Seq<Particle>,
    dcs: Seq<DistanceC>,
    tcs: Seq<TetrahedralVolumeC>,
    h: i64,
    solver: SolverType,
    n: nat,
)
    requires
        forall|i: int| 0 <= i < ps.len() ==> (#[trigger] ps[i]).velocity == vzero(),
        forall|i: int| 0 <= i < ps.len() ==> (#[trigger] ps[i]).ext_acc == vzero(),
        forall|i: int| 0 <= i < ps.len() ==> (#[trigger] ps[i]).position.z >= 0,
        forall|i: int| 0 <= i < ps.len() ==> (#[trigger] ps[i]).prev_position == ps[i].position,
        all_satisfied_s(ps, dcs),
        all_satisfied_s(ps, tcs),
    ensures
        advance_s(ps, dcs, tcs, h, solver, n) == ps,
    decreases n,
{
    if n == 0 {
    } else {
        law_equilibrium_is_stationary(ps, dcs, tcs, h, solver, (n - 1) as nat);
        assert forall|i: int| 0 <= i < ps.len() implies #[trigger] presolve_s(ps, h)[i]
            == ps[i] by {
            let p = ps[i];
            assert(vscale_s(vzero(), h) == vzero());
            assert(vadd_s(vzero(), vzero()) == vzero());
            assert(vadd_s(p.position, vzero()) == p.position);
        }
        assert(presolve_s(ps, h) =~= ps);
        match solver {
            SolverType::GaussSeidel => {
                lemma_gs_pass_satisfied(ps, dcs, h);
                lemma_gs_pass_satisfied(ps, tcs, h);
            },
            SolverType::Jacobi => {
                lemma_jacobi_pass_satisfied(ps, dcs, h);
                lemma_jacobi_pass_satisfied(ps, tcs, h);
            },
        }
        assert forall|i: int| 0 <= i < ps.len() implies #[trigger] postsolve_s(ps, h)[i]
            == ps[i] by {
            assert(vsub_s(ps[i].position, ps[i].prev_position) == vzero());
            assert(vdiv_fx_s(vzero(), h) == vzero());
            crate::fx::lemma_fx_div_zero(h);
        }
        assert(postsolve_s(ps, h) =~= ps);
        assert(substep_s(ps, dcs, tcs, h, solver) == ps);
    }
}

/// Every correction a constraint emits toward a pinned particle is zero.
proof fn lemma_pinned_delta_zero<C: Constraint>(c: C, ps: Seq<Particle>, h: i64, i: int, k: int)
    requires
        0 <= i < ps.len(),
        i <= u32::MAX,
        ps[i].inv_mass == 0,
        0 <= k < spec_solve(c, ps, h).len(),
        spec_solve(c, ps, h)[k].particle_idx as int == i,
    ensures
        spec_solve(c, ps, h)[k].delta == vzero(),
{
    let idxs = c.model_indices();
    let ws = crate::cpu::inv_masses_of(ps, idxs);
    assert(spec_solve(c, ps, h)[k].particle_idx == idxs[k]);
    assert(ws[k] == 0);
    let lambda = crate::cpu::xpbd_lambda_s(
        c.model_value(ps),
        c.model_gradients(ps),
        ws,
        c.model_compliance(),
        h,
    );
    crate::fx::lemma_fx_mul_zero(lambda);
    let g = c.model_gradients(ps)[k];
    crate::fx::lemma_fx_mul_zero(g.x);
    crate::fx::lemma_fx_mul_zero(g.y);
    crate::fx::lemma_fx_mul_zero(g.z);
}

/// Applying corrections whose components toward particle `i` are all zero
/// leaves particle `i` unchanged.
proof fn lemma_apply_deltas_pinned(ps: Seq<Particle>, ds: Seq<ConstraintDelta>, i: int)
    requires
        0 <= i < ps.len(),
        forall|k: int|
            0 <= k < ds.len() ==> ((#[trigger] ds[k]).particle_idx as int == i ==> ds[k].delta
                == vzero()),
    ensures
        apply_deltas_s(ps, ds).len() == ps.len(),
        apply_deltas_s(ps, ds)[i] == ps[i],
    decreases ds.len(),
{
    lemma_apply_deltas_len(ps, ds);
    if ds.len() == 0 {
    } else {
        lemma_apply_deltas_pinned(ps, ds.drop_last(), i);
        let prev = apply_deltas_s(ps, ds.drop_last());
        let d = ds.last();
        if d.particle_idx as int == i {
            assert(d.delta == vzero());
            assert(vadd_s(prev[i].position, d.delta) == prev[i].position);
        }
    }
}

/// A Gauss-Seidel pass leaves a pinned particle unchanged.
proof fn lemma_gs_pass_pinned<C: Constraint>(ps: Seq<Particle>, cs: Seq<C>, h: i64, i: int)
    requires
        0 <= i < ps.len(),
        i <= u32::MAX,
        ps[i].inv_mass == 0,
    ensures
        gs_pass_s(ps, cs, h).len() == ps.len(),
        gs_pass_s(ps, cs, h)[i] == ps[i],
    decreases cs.len(),
{
    lemma_gs_pass_len(ps, cs, h);
    if cs.len() == 0 {
    } else {
        lemma_gs_pass_pinned(ps, cs.drop_last(), h, i);
        let prev = gs_pass_s(ps, cs.drop_last(), h);
        let ds = spec_solve(cs.last(), prev, h);
        assert forall|k: int|
            0 <= k < ds.len() && (#[trigger] ds[k]).particle_idx as int == i implies ds[k].delta
            == vzero() by {
            lemma_pinned_delta_zero(cs.last(), prev, h, i, k);
        }
        lemma_apply_deltas_pinned(prev, ds, i);
    }
}

/// Every correction in a Jacobi phase that targets a pinned particle is zero.
proof fn lemma_jacobi_deltas_pinned<C: Constraint>(ps: Seq<Particle>, cs: Seq<C>, h: i64, i: int)
    requires
        0 <= i < ps.len(),
        i <= u32::MAX,
        ps[i].inv_mass == 0,
    ensures
        forall|k: int|
            0 <= k < jacobi_deltas_s(ps, cs, h).len() ==> ((#[trigger] jacobi_deltas_s(
                ps,
                cs,
                h,
            )[k]).particle_idx as int == i ==> jacobi_deltas_s(ps, cs, h)[k].delta == vzero()),
    decreases cs.len(),
{
    if cs.len() == 0 {
    } else {
        lemma_jacobi_deltas_pinned(ps, cs.drop_last(), h, i);
        let front = jacobi_deltas_s(ps, cs.drop_last(), h);
        let back = spec_solve(cs.last(), ps, h);
        let ds = jacobi_deltas_s(ps, cs, h);
        assert forall|k: int|
            0 <= k < ds.len() && (#[trigger] ds[k]).particle_idx as int == i implies ds[k].delta
            == vzero() by {
            if k < front.len() {
                assert(ds[k] == front[k]);
            } else {
                assert(ds[k] == back[k - front.len()]);
                lemma_pinned_delta_zero(cs.last(), ps, h, i, k - front.len());
            }
        }
    }
}

/// Summing corrections that are all zero toward `idx` yields the zero vector.
proof fn lemma_matching_sum_zero(ds: Seq<ConstraintDelta>, idx: u32)
    requires
        forall|k: int|
            0 <= k < ds.len() ==> ((#[trigger] ds[k]).particle_idx == idx ==> ds[k].delta
                == vzero()),
    ensures
        matching_sum_s(ds, idx) == vzero(),
    decreases ds.len(),
{
    if ds.len() == 0 {
    } else {
        lemma_matching_sum_zero(ds.drop_last(), idx);
        if ds.last().particle_idx == idx {
            assert(vadd_s(vzero(), ds.last().delta) == vzero());
        }
    }
}

/// A Jacobi pass leaves a pinned particle unchanged.
proof fn lemma_jacobi_pass_pinned<C: Constraint>(ps: Seq<Particle>, cs: Seq<C>, h: i64, i: int)
    requires
        0 <= i < ps.len(),
        i <= u32::MAX,
        ps[i].inv_mass == 0,
    ensures
        jacobi_pass_s(ps, cs, h).len() == ps.len(),
        jacobi_pass_s(ps, cs, h)[i] == ps[i],
    decreases cs.len(),
{
    let ds = jacobi_deltas_s(ps, cs, h);
    lemma_jacobi_deltas_pinned(ps, cs, h, i);
    let idx = i as u32;
    assert forall|k: int|
        0 <= k < ds.len() && (#[trigger] ds[k]).particle_idx == idx implies ds[k].delta
        == vzero() by {
        assert(ds[k].particle_idx as int == i);
    }
    lemma_matching_sum_zero(ds, idx);
    let n = matching_count_s(ds, idx);
    if n > 0 {
        assert(vscale_s(vzero(), crate::cpu::JACOBI_W) == vzero());
        assert(vdiv_count_s(vzero(), n as int) == vzero());
        assert(vadd_s(ps[i].position, vzero()) == ps[i].position);
    }
    assert(jacobi_pass_s(ps, cs, h)[i] == jacobi_particle_s(ps[i], ds, idx));
}

/// Law: a pinned particle (inverse mass zero) never moves, across any number
/// of substeps of either solver variant, whatever its velocity or external
/// acceleration fields hold: prediction skips it and every correction toward
/// it is zero.
pub proof fn law_pinned_particle_never_moves(
    ps: Seq<Particle>,
    dcs: Seq<DistanceC>,
    tcs: Seq<TetrahedralVolumeC>,
    h: i64,
    solver: SolverType,
    n: nat,
    i: int,
)
    requires
        0 <= i < ps.len(),
        i <= u32::MAX,
        ps[i].inv_mass == 0,
    ensures
        advance_s(ps, dcs, tcs, h, solver, n).len() == ps.len(),
        advance_s(ps, dcs, tcs, h, solver, n)[i].position == ps[i].position,
        advance_s(ps, dcs, tcs, h, solver, n)[i].prev_position == ps[i].prev_position,
        advance_s(ps, dcs, tcs, h, solver, n)[i].ext_acc == ps[i].ext_acc,
        advance_s(ps, dcs, tcs, h, solver, n)[i].inv_mass == 0,
    decreases n,
{
    lemma_advance_len(ps, dcs, tcs, h, solver, n);
    if n == 0 {
    } else {
        law_pinned_particle_never_moves(ps, dcs, tcs, h, solver, (n - 1) as nat, i);
        let prev = advance_s(ps, dcs, tcs, h, solver, (n - 1) as nat);
        lemma_advance_len(ps, dcs, tcs, h, solver, (n - 1) as nat);
        let p = prev[i];
        // Prediction does not integrate a pinned particle.
        let predicted = presolve_s(prev, h);
        assert(predicted[i] == presolve_particle_s(p, h));
        assert(predicted[i] == p);
        let solved = match solver {
            SolverType::GaussSeidel => gs_pass_s(gs_pass_s(predicted, dcs, h), tcs, h),
            SolverType::Jacobi => jacobi_pass_s(jacobi_pass_s(predicted, dcs, h), tcs, h),
        };
        match solver {
            SolverType::GaussSeidel => {
                lemma_gs_pass_pinned(predicted, dcs, h, i);
                lemma_gs_pass_pinned(gs_pass_s(predicted, dcs, h), tcs, h, i);
            },
            SolverType::Jacobi => {
                lemma_jacobi_pass_pinned(predicted, dcs, h, i);
                lemma_jacobi_pass_pinned(jacobi_pass_s(predicted, dcs, h), tcs, h, i);
            },
        }
        assert(solved[i] == p);
        // Velocity inference touches only the velocity field.
        assert(advance_s(ps, dcs, tcs, h, solver, n)[i] == postsolve_particle_s(solved[i], h));
    }
}

/// Applying corrections changes only positions: every other field of every
/// particle survives.
proof fn lemma_apply_deltas_keeps_fields(ps: Seq<Particle>, ds: Seq<ConstraintDelta>, i: int)
    requires
        0 <= i < ps.len(),
    ensures
        apply_deltas_s(ps, ds).len() == ps.len(),
        apply_deltas_s(ps, ds)[i].inv_mass == ps[i].inv_mass,
        apply_deltas_s(ps, ds)[i].ext_acc == ps[i].ext_acc,
    decreases ds.len(),
{
    lemma_apply_deltas_len(ps, ds);
    if ds.len() == 0 {
    } else {
        lemma_apply_deltas_keeps_fields(ps, ds.drop_last(), i);
    }
}

/// A Gauss-Seidel pass changes only positions.
proof fn lemma_gs_pass_keeps_fields<C: Constraint>(ps: Seq<Particle>, cs: Seq<C>, h: i64, i: int)
    requires
        0 <= i < ps.len(),
    ensures
        gs_pass_s(ps, cs, h).len() == ps.len(),
        gs_pass_s(ps, cs, h)[i].inv_mass == ps[i].inv_mass,
        gs_pass_s(ps, cs, h)[i].ext_acc == ps[i].ext_acc,
    decreases cs.len(),
{
    lemma_gs_pass_len(ps, cs, h);
    if cs.len() == 0 {
    } else {
        lemma_gs_pass_keeps_fields(ps, cs.drop_last(), h, i);
        let prev = gs_pass_s(ps, cs.drop_last(), h);
        lemma_apply_deltas_keeps_fields(prev, spec_solve(cs.last(), prev, h), i);
    }
}

/// Law: no phase of the integrator writes a particle's inverse mass or
/// external acceleration; both survive any number of substeps unchanged.
pub proof fn law_advance_keeps_mass_and_acceleration(
    ps: Seq<Particle>,
    dcs: Seq<DistanceC>,
    tcs: Seq<TetrahedralVolumeC>,
    h: i64,
    solver: SolverType,
    n: nat,
    i: int,
)
    requires
        0 <= i < ps.len(),
    ensures
        advance_s(ps, dcs, tcs, h, solver, n).len() == ps.len(),
        advance_s(ps, dcs, tcs, h, solver, n)[i].inv_mass == ps[i].inv_mass,
        advance_s(ps, dcs, tcs, h, solver, n)[i].ext_acc == ps[i].ext_acc,
    decreases n,
{
    lemma_advance_len(ps, dcs, tcs, h, solver, n);
    if n == 0 {
    } else {
        law_advance_keeps_mass_and_acceleration(ps, dcs, tcs, h, solver, (n - 1) as nat, i);
        let prev = advance_s(ps, dcs, tcs, h, solver, (n - 1) as nat);
        lemma_advance_len(ps, dcs, tcs, h, solver, (n - 1) as nat);
        let predicted = presolve_s(prev, h);
        assert(predicted[i] == presolve_particle_s(prev[i], h));
        assert(predicted[i].inv_mass == prev[i].inv_mass);
        assert(predicted[i].ext_acc == prev[i].ext_acc);
        let solved = match solver {
            SolverType::GaussSeidel => gs_pass_s(gs_pass_s(predicted, dcs, h), tcs, h),
            SolverType::Jacobi => jacobi_pass_s(jacobi_pass_s(predicted, dcs, h), tcs, h),
        };
        match solver {
            SolverType::GaussSeidel => {
                lemma_gs_pass_keeps_fields(predicted, dcs, h, i);
                lemma_gs_pass_keeps_fields(gs_pass_s(predicted, dcs, h), tcs, h, i);
            },
            SolverType::Jacobi => {
            },
        }
        assert(solved[i].inv_mass == prev[i].inv_mass);
        assert(solved[i].ext_acc == prev[i].ext_acc);
        assert(advance_s(ps, dcs, tcs, h, solver, n)[i] == postsolve_particle_s(solved[i], h));
    }
}

} // verus!
