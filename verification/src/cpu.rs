//! The CPU integrator: constraint model, XPBD local solve, and the
//! Gauss-Seidel and Jacobi solver variants.
//!
//! Every phase of a substep is specified exactly by a spec-level twin over
//! sequences of particles, so `CpuSimulation::simulate` carries a complete
//! functional description of the state it produces.

use std::io::Write;

use vstd::prelude::*;

use rayon::iter::{IndexedParallelIterator, IntoParallelRefIterator, IntoParallelRefMutIterator,
    ParallelIterator};

verus! {

use crate::{ConstraintDelta, DistanceC, Particle, SCALE, TetrahedralVolumeC};
use crate::fx::{fx_div, fx_div_s, fx_mul, fx_mul_s, sat_abs, sat_abs_s, sat_add, sat_add_s,
    sat_from_i128, sat_neg, sat_neg_s, sat_sub, sat_sub_s, sat64};
use crate::vec3::{vadd, vadd_s, vcross, vcross_s, vdiv_count, vdiv_count_s, vdiv_fx, vdiv_fx_s,
    vdot, vdot_s, vlen, vlen_s, vneg, vneg_s, vnormalize_or_zero, vnormalize_or_zero_s, vscale,
    vscale_s, vsub, vsub_s, vzero, Vec3};

/// The Jacobi over-relaxation weight `1.5`, in fixed point.
pub const JACOBI_W: i64 = 1_500_000;

/// Every index of `idxs` addresses one of `n` particles.
pub open spec fn indices_in_range(idxs: Seq<u32>, n: nat) -> bool {
    forall|k: int| 0 <= k < idxs.len() ==> (idxs[k] as nat) < n
}

/// A geometric constraint over particles: its coupled indices, compliance,
/// error value and error gradients, each with an exact spec-level model.
pub trait Constraint: Sized {
    /// The particle indices the constraint couples, in gradient order.
    spec fn model_indices(&self) -> Seq<u32>;

    /// Inverse stiffness; `0` is perfectly rigid.
    spec fn model_compliance(&self) -> i64;

    /// The constraint error against the given particle state; zero when the
    /// constraint is satisfied.
    spec fn model_value(&self, ps: Seq<Particle>) -> i64;

    /// One error gradient per coupled particle, in the order of
    /// [`Constraint::model_indices`].
    spec fn model_gradients(&self, ps: Seq<Particle>) -> Seq<Vec3>;

    /// There is exactly one gradient per coupled index.
    proof fn shape(&self, ps: Seq<Particle>)
        ensures
            self.model_gradients(ps).len() == self.model_indices().len(),
    ;

    /// Returns the compliance.
    fn compliance(&self) -> (r: i64)
        ensures
            r == self.model_compliance(),
    ;

    /// Returns the coupled particle indices.
    fn particles_idx(&self) -> (r: Vec<u32>)
        ensures
            r@ == self.model_indices(),
    ;

    /// Returns the constraint error.
    fn value(&self, particles: &Vec<Particle>) -> (r: i64)
        requires
            indices_in_range(self.model_indices(), particles@.len()),
        ensures
            r == self.model_value(particles@),
    ;

    /// Returns the error gradients.
    fn gradients(&self, particles: &Vec<Particle>) -> (r: Vec<Vec3>)
        requires
            indices_in_range(self.model_indices(), particles@.len()),
        ensures
            r@ == self.model_gradients(particles@),
    ;

    /// Returns one positional correction per coupled particle, per the XPBD
    /// local solve at substep size `delta`.
    fn solve(&self, particles: &Vec<Particle>, delta: i64) -> (r: Vec<ConstraintDelta>)
        requires
            indices_in_range(self.model_indices(), particles@.len()),
        ensures
            r@ == xpbd_deltas_s(
                self.model_value(particles@),
                self.model_gradients(particles@),
                self.model_indices(),
                inv_masses_of(particles@, self.model_indices()),
                self.model_compliance(),
                delta,
            ),
    ;
}

/// The inverse masses of the particles addressed by `idxs`, in order.
pub open spec fn inv_masses_of(ps: Seq<Particle>, idxs: Seq<u32>) -> Seq<i64> {
    Seq::new(
        idxs.len(),
        |k: int|
            if (idxs[k] as int) < ps.len() {
                ps[idxs[k] as int].inv_mass
            } else {
                0
            },
    )
}

/// The XPBD denominator sum over the coupled particles, accumulated left to
/// right: for each, its inverse mass times the squared length of its gradient.
pub open spec fn denom_sum_s(grads: Seq<Vec3>, ws: Seq<i64>) -> i64
    decreases grads.len(),
{
    if grads.len() == 0 {
        0
    } else {
        sat_add_s(
            denom_sum_s(grads.drop_last(), ws.drop_last()),
            fx_mul_s(ws.last(), crate::vec3::vnorm2_fx_s(grads.last())),
        )
    }
}

/// The XPBD Lagrange multiplier update: `-C / (sum_k w_k * |grad_k|^2 +
/// compliance / h^2)`, in fixed point.
pub open spec fn xpbd_lambda_s(
    value: i64,
    grads: Seq<Vec3>,
    ws: Seq<i64>,
    compliance: i64,
    h: i64,
) -> i64 {
    let alpha = fx_div_s(compliance, fx_mul_s(h, h));
    let denom = sat_add_s(denom_sum_s(grads, ws), alpha);
    fx_div_s(sat_neg_s(value), denom)
}

/// The corrections of one XPBD local solve: `lambda * w_k * grad_k`, one per
/// coupled particle.
pub open spec fn xpbd_deltas_s(
    value: i64,
    grads: Seq<Vec3>,
    idxs: Seq<u32>,
    ws: Seq<i64>,
    compliance: i64,
    h: i64,
) -> Seq<ConstraintDelta> {
    let lambda = xpbd_lambda_s(value, grads, ws, compliance, h);
    Seq::new(
        idxs.len(),
        |k: int| ConstraintDelta {
            particle_idx: idxs[k],
            delta: vscale_s(grads[k], fx_mul_s(lambda, ws[k])),
        },
    )
}

/// The corrections a constraint emits against the given particle state.
pub open spec fn spec_solve<C: Constraint>(c: C, ps: Seq<Particle>, h: i64) -> Seq<
    ConstraintDelta,
> {
    xpbd_deltas_s(
        c.model_value(ps),
        c.model_gradients(ps),
        c.model_indices(),
        inv_masses_of(ps, c.model_indices()),
        c.model_compliance(),
        h,
    )
}

/// Shared executable XPBD local solve over the already-evaluated parts of a
/// constraint.
fn xpbd_deltas_exec(
    value: i64,
    grads: &Vec<Vec3>,
    idxs: &Vec<u32>,
    ws: &Vec<i64>,
    compliance: i64,
    h: i64,
) -> (r: Vec<ConstraintDelta>)
    requires
        grads@.len() == idxs@.len(),
        ws@.len() == idxs@.len(),
    ensures
        r@ == xpbd_deltas_s(value, grads@, idxs@, ws@, compliance, h),
{
    let alpha = fx_div(compliance, fx_mul(h, h));
    let mut denom: i64 = 0;
    let mut k: usize = 0;
    while k < grads.len()
        invariant
            grads@.len() == idxs@.len(),
            ws@.len() == idxs@.len(),
            k <= grads@.len(),
            denom == denom_sum_s(grads@.take(k as int), ws@.take(k as int)),
        decreases grads@.len() - k,
    {
        proof {
            assert(grads@.take(k as int + 1).drop_last() =~= grads@.take(k as int));
            assert(ws@.take(k as int + 1).drop_last() =~= ws@.take(k as int));
        }
        denom = sat_add(denom, fx_mul(ws[k], crate::vec3::vnorm2_fx(grads[k])));
        k = k + 1;
    }
    proof {
        assert(grads@.take(grads@.len() as int) =~= grads@);
        assert(ws@.take(ws@.len() as int) =~= ws@);
    }
    let denom_total = sat_add(denom, alpha);
    let lambda = fx_div(sat_neg(value), denom_total);
    let ghost expected = xpbd_deltas_s(value, grads@, idxs@, ws@, compliance, h);
    let mut out: Vec<ConstraintDelta> = Vec::new();
    let mut k: usize = 0;
    while k < idxs.len()
        invariant
            grads@.len() == idxs@.len(),
            ws@.len() == idxs@.len(),
            k <= idxs@.len(),
            lambda == xpbd_lambda_s(value, grads@, ws@, compliance, h),
            expected == xpbd_deltas_s(value, grads@, idxs@, ws@, compliance, h),
            out@ =~= expected.take(k as int),
        decreases idxs@.len() - k,
    {
        out.push(
            ConstraintDelta { particle_idx: idxs[k], delta: vscale(grads[k], fx_mul(lambda, ws[k])) },
        );
        k = k + 1;
    }
    proof {
        assert(out@ =~= expected);
    }
    out
}

/// Collects the inverse masses of the addressed particles, in index order.
fn collect_inv_masses(particles: &Vec<Particle>, idxs: &Vec<u32>) -> (r: Vec<i64>)
    requires
        indices_in_range(idxs@, particles@.len()),
    ensures
        r@ == inv_masses_of(particles@, idxs@),
{
    let mut ws: Vec<i64> = Vec::new();
    let mut k: usize = 0;
    while k < idxs.len()
        invariant
            indices_in_range(idxs@, particles@.len()),
            k <= idxs@.len(),
            ws@ =~= inv_masses_of(particles@, idxs@).take(k as int),
        decreases idxs@.len() - k,
    {
        proof {
            assert((idxs@[k as int] as nat) < particles@.len());
        }
        let i = idxs[k] as usize;
        ws.push(particles[i].inv_mass);
        proof {
            assert(ws@ =~= inv_masses_of(particles@, idxs@).take(k as int + 1));
        }
        k = k + 1;
    }
    proof {
        assert(ws@ =~= inv_masses_of(particles@, idxs@));
    }
    ws
}

impl Constraint for DistanceC {
    open spec fn model_indices(&self) -> Seq<u32> {
        seq![self.particles_idx[0], self.particles_idx[1]]
    }

    open spec fn model_compliance(&self) -> i64 {
        self.compliance
    }

    open spec fn model_value(&self, ps: Seq<Particle>) -> i64 {
        let i = self.particles_idx[0] as int;
        let j = self.particles_idx[1] as int;
        sat_sub_s(vlen_s(vsub_s(ps[j].position, ps[i].position)), self.rest_distance)
    }

    open spec fn model_gradients(&self, ps: Seq<Particle>) -> Seq<Vec3> {
        let i = self.particles_idx[0] as int;
        let j = self.particles_idx[1] as int;
        let dir = vnormalize_or_zero_s(vsub_s(ps[i].position, ps[j].position));
        seq![dir, vneg_s(dir)]
    }

    proof fn shape(&self, ps: Seq<Particle>) {
    }

    fn compliance(&self) -> (r: i64) {
        self.compliance
    }

    fn particles_idx(&self) -> (r: Vec<u32>) {
        let mut v: Vec<u32> = Vec::new();
        v.push(self.particles_idx[0]);
        v.push(self.particles_idx[1]);
        proof {
            assert(v@ =~= self.model_indices());
        }
        v
    }

    fn value(&self, particles: &Vec<Particle>) -> (r: i64) {
        proof {
            assert(self.model_indices()[0] == self.particles_idx[0]);
            assert(self.model_indices()[1] == self.particles_idx[1]);
        }
        let i = self.particles_idx[0] as usize;
        let j = self.particles_idx[1] as usize;
        let dist = vlen(vsub(particles[j].position, particles[i].position));
        sat_sub(dist, self.rest_distance)
    }

    fn gradients(&self, particles: &Vec<Particle>) -> (r: Vec<Vec3>) {
        proof {
            assert(self.model_indices()[0] == self.particles_idx[0]);
            assert(self.model_indices()[1] == self.particles_idx[1]);
        }
        let i = self.particles_idx[0] as usize;
        let j = self.particles_idx[1] as usize;
        let dir = vnormalize_or_zero(vsub(particles[i].position, particles[j].position));
        let mut v: Vec<Vec3> = Vec::new();
        v.push(dir);
        v.push(vneg(dir));
        proof {
            assert(v@ =~= self.model_gradients(particles@));
        }
        v
    }

    fn solve(&self, particles: &Vec<Particle>, delta: i64) -> (r: Vec<ConstraintDelta>) {
        let grads = self.gradients(particles);
        let idxs = self.particles_idx();
        let ws = collect_inv_masses(particles, &idxs);
        let value = self.value(particles);
        proof {
            self.shape(particles@);
        }
        xpbd_deltas_exec(value, &grads, &idxs, &ws, self.compliance(), delta)
    }
}

impl Constraint for TetrahedralVolumeC {
    open spec fn model_indices(&self) -> Seq<u32> {
        seq![
            self.particles_idx[0],
            self.particles_idx[1],
            self.particles_idx[2],
            self.particles_idx[3],
        ]
    }

    open spec fn model_compliance(&self) -> i64 {
        self.compliance
    }

    open spec fn model_value(&self, ps: Seq<Particle>) -> i64 {
        let p1 = ps[self.particles_idx[0] as int].position;
        let p2 = ps[self.particles_idx[1] as int].position;
        let p3 = ps[self.particles_idx[2] as int].position;
        let p4 = ps[self.particles_idx[3] as int].position;
        let six = 6 * SCALE as int;
        let v = fx_div_s(vdot_s(vcross_s(vsub_s(p2, p1), vsub_s(p3, p1)), vsub_s(p4, p1)), six
            as i64);
        fx_mul_s(six as i64, sat_sub_s(v, self.rest_volume))
    }

    open spec fn model_gradients(&self, ps: Seq<Particle>) -> Seq<Vec3> {
        let p1 = ps[self.particles_idx[0] as int].position;
        let p2 = ps[self.particles_idx[1] as int].position;
        let p3 = ps[self.particles_idx[2] as int].position;
        let p4 = ps[self.particles_idx[3] as int].position;
        seq![
            vcross_s(vsub_s(p4, p2), vsub_s(p3, p2)),
            vcross_s(vsub_s(p3, p1), vsub_s(p4, p1)),
            vcross_s(vsub_s(p4, p1), vsub_s(p2, p1)),
            vcross_s(vsub_s(p2, p1), vsub_s(p3, p1)),
        ]
    }

    proof fn shape(&self, ps: Seq<Particle>) {
    }

    fn compliance(&self) -> (r: i64) {
        self.compliance
    }

    fn particles_idx(&self) -> (r: Vec<u32>) {
        let mut v: Vec<u32> = Vec::new();
        v.push(self.particles_idx[0]);
        v.push(self.particles_idx[1]);
        v.push(self.particles_idx[2]);
        v.push(self.particles_idx[3]);
        proof {
            assert(v@ =~= self.model_indices());
        }
        v
    }

    fn value(&self, particles: &Vec<Particle>) -> (r: i64) {
        proof {
            assert(self.model_indices()[0] == self.particles_idx[0]);
            assert(self.model_indices()[1] == self.particles_idx[1]);
            assert(self.model_indices()[2] == self.particles_idx[2]);
            assert(self.model_indices()[3] == self.particles_idx[3]);
        }
        let p1 = particles[self.particles_idx[0] as usize].position;
        let p2 = particles[self.particles_idx[1] as usize].position;
        let p3 = particles[self.particles_idx[2] as usize].position;
        let p4 = particles[self.particles_idx[3] as usize].position;
        let six: i64 = 6 * SCALE;
        let v = fx_div(vdot(vcross(vsub(p2, p1), vsub(p3, p1)), vsub(p4, p1)), six);
        fx_mul(six, sat_sub(v, self.rest_volume))
    }

    fn gradients(&self, particles: &Vec<Particle>) -> (r: Vec<Vec3>) {
        proof {
            assert(self.model_indices()[0] == self.particles_idx[0]);
            assert(self.model_indices()[1] == self.particles_idx[1]);
            assert(self.model_indices()[2] == self.particles_idx[2]);
            assert(self.model_indices()[3] == self.particles_idx[3]);
        }
        let p1 = particles[self.particles_idx[0] as usize].position;
        let p2 = particles[self.particles_idx[1] as usize].position;
        let p3 = particles[self.particles_idx[2] as usize].position;
        let p4 = particles[self.particles_idx[3] as usize].position;
        let mut v: Vec<Vec3> = Vec::new();
        v.push(vcross(vsub(p4, p2), vsub(p3, p2)));
        v.push(vcross(vsub(p3, p1), vsub(p4, p1)));
        v.push(vcross(vsub(p4, p1), vsub(p2, p1)));
        v.push(vcross(vsub(p2, p1), vsub(p3, p1)));
        proof {
            assert(v@ =~= self.model_gradients(particles@));
        }
        v
    }

    fn solve(&self, particles: &Vec<Particle>, delta: i64) -> (r: Vec<ConstraintDelta>) {
        let grads = self.gradients(particles);
        let idxs = self.particles_idx();
        let ws = collect_inv_masses(particles, &idxs);
        let value = self.value(particles);
        proof {
            self.shape(particles@);
        }
        xpbd_deltas_exec(value, &grads, &idxs, &ws, self.compliance(), delta)
    }
}

/// Applies one correction to its target particle's position; a target outside
/// the array leaves the state unchanged.
pub open spec fn apply_delta_s(ps: Seq<Particle>, d: ConstraintDelta) -> Seq<Particle> {
    let i = d.particle_idx as int;
    if 0 <= i < ps.len() {
        ps.update(i, Particle { position: vadd_s(ps[i].position, d.delta), ..ps[i] })
    } else {
        ps
    }
}

/// Applies a list of corrections in order, each seeing the previous updates.
pub open spec fn apply_deltas_s(ps: Seq<Particle>, ds: Seq<ConstraintDelta>) -> Seq<Particle>
    decreases ds.len(),
{
    if ds.len() == 0 {
        ps
    } else {
        apply_delta_s(apply_deltas_s(ps, ds.drop_last()), ds.last())
    }
}

/// One Gauss-Seidel sweep: constraints are solved in array order, and each
/// constraint's corrections are applied before the next constraint is read.
pub open spec fn gs_pass_s<C: Constraint>(ps: Seq<Particle>, cs: Seq<C>, h: i64) -> Seq<Particle>
    decreases cs.len(),
{
    if cs.len() == 0 {
        ps
    } else {
        let prev = gs_pass_s(ps, cs.drop_last(), h);
        apply_deltas_s(prev, spec_solve(cs.last(), prev, h))
    }
}

/// The flat list of corrections one Jacobi phase emits: every constraint is
/// solved against the same read-only particle state, in array order.
pub open spec fn jacobi_deltas_s<C: Constraint>(ps: Seq<Particle>, cs: Seq<C>, h: i64) -> Seq<
    ConstraintDelta,
>
    decreases cs.len(),
{
    if cs.len() == 0 {
        Seq::empty()
    } else {
        jacobi_deltas_s(ps, cs.drop_last(), h) + spec_solve(cs.last(), ps, h)
    }
}

/// Sum, in list order, of the corrections targeting particle `idx`.
pub open spec fn matching_sum_s(ds: Seq<ConstraintDelta>, idx: u32) -> Vec3
    decreases ds.len(),
{
    if ds.len() == 0 {
        vzero()
    } else {
        let rest = matching_sum_s(ds.drop_last(), idx);
        if ds.last().particle_idx == idx {
            vadd_s(rest, ds.last().delta)
        } else {
            rest
        }
    }
}

/// Number of corrections targeting particle `idx`.
pub open spec fn matching_count_s(ds: Seq<ConstraintDelta>, idx: u32) -> nat
    decreases ds.len(),
{
    if ds.len() == 0 {
        0
    } else {
        matching_count_s(ds.drop_last(), idx) + (if ds.last().particle_idx == idx {
            1nat
        } else {
            0nat
        })
    }
}

/// The Jacobi update of one particle: the mean of its corrections, scaled by
/// the over-relaxation weight, added to its position; no corrections, no
/// movement.
pub open spec fn jacobi_particle_s(p: Particle, ds: Seq<ConstraintDelta>, idx: u32) -> Particle {
    let n = matching_count_s(ds, idx);
    if n > 0 {
        Particle {
            position: vadd_s(
                p.position,
                vdiv_count_s(vscale_s(matching_sum_s(ds, idx), JACOBI_W), n as int),
            ),
            ..p
        }
    } else {
        p
    }
}

/// The Jacobi aggregation phase applied to every particle.
pub open spec fn jacobi_apply_s(ps: Seq<Particle>, ds: Seq<ConstraintDelta>) -> Seq<Particle> {
    Seq::new(ps.len(), |i: int| jacobi_particle_s(ps[i], ds, i as u32))
}

/// One full Jacobi pass: emit all corrections against the same state, then
/// aggregate them per particle.
pub open spec fn jacobi_pass_s<C: Constraint>(ps: Seq<Particle>, cs: Seq<C>, h: i64) -> Seq<
    Particle,
> {
    jacobi_apply_s(ps, jacobi_deltas_s(ps, cs, h))
}

/// Prediction: advance the velocity by the external acceleration, save the
/// previous position, advance the position by the predicted velocity, and
/// clamp to the `z >= 0` contact plane (a predicted drop below the plane
/// reverts the position and zeroes its `z`). A pinned particle (inverse mass
/// zero) is not integrated: it never moves, whatever its velocity or
/// acceleration fields hold.
pub open spec fn presolve_particle_s(p: Particle, h: i64) -> Particle {
    if p.inv_mass == 0 {
        p
    } else {
        let v1 = vadd_s(p.velocity, vscale_s(p.ext_acc, h));
        let prev = p.position;
        let pos1 = vadd_s(p.position, vscale_s(v1, h));
        let pos2 = if pos1.z < 0 {
            Vec3 { x: prev.x, y: prev.y, z: 0 }
        } else {
            pos1
        };
        Particle {
            prev_position: prev,
            position: pos2,
            velocity: v1,
            ext_acc: p.ext_acc,
            inv_mass: p.inv_mass,
        }
    }
}

/// Prediction applied to every particle.
pub open spec fn presolve_s(ps: Seq<Particle>, h: i64) -> Seq<Particle> {
    Seq::new(ps.len(), |i: int| presolve_particle_s(ps[i], h))
}

/// Velocity inference: the new velocity is the position change over the
/// substep divided by the substep size.
pub open spec fn postsolve_particle_s(p: Particle, h: i64) -> Particle {
    Particle { velocity: vdiv_fx_s(vsub_s(p.position, p.prev_position), h), ..p }
}

/// Velocity inference applied to every particle.
pub open spec fn postsolve_s(ps: Seq<Particle>, h: i64) -> Seq<Particle> {
    Seq::new(ps.len(), |i: int| postsolve_particle_s(ps[i], h))
}

/// Selects the constraint solver the integrator runs.
#[derive(Clone, Copy, Debug)]
pub enum SolverType {
    GaussSeidel,
    Jacobi,
}

impl Default for SolverType {
    /// The sequential solver is the default.
    fn default() -> (r: Self)
        ensures
            r == SolverType::GaussSeidel,
    {
        SolverType::GaussSeidel
    }
}

/// One substep: prediction, then the distance pass, then the volume pass
/// (distances always resolve first), then velocity inference.
pub open spec fn substep_s(
    ps: Seq<Particle>,
    dcs: Seq<DistanceC>,
    tcs: Seq<TetrahedralVolumeC>,
    h: i64,
    solver: SolverType,
) -> Seq<Particle> {
    let predicted = presolve_s(ps, h);
    let solved = match solver {
        SolverType::GaussSeidel => gs_pass_s(gs_pass_s(predicted, dcs, h), tcs, h),
        SolverType::Jacobi => jacobi_pass_s(jacobi_pass_s(predicted, dcs, h), tcs, h),
    };
    postsolve_s(solved, h)
}

/// `n` substeps in sequence.
pub open spec fn advance_s(
    ps: Seq<Particle>,
    dcs: Seq<DistanceC>,
    tcs: Seq<TetrahedralVolumeC>,
    h: i64,
    solver: SolverType,
    n: nat,
) -> Seq<Particle>
    decreases n,
{
    if n == 0 {
        ps
    } else {
        substep_s(advance_s(ps, dcs, tcs, h, solver, (n - 1) as nat), dcs, tcs, h, solver)
    }
}

/// The substep size: the frame interval divided by the substep count, in
/// fixed point.
pub open spec fn sub_h(delta: i64, substeps: u32) -> i64 {
    fx_div_s(delta, sat64(substeps as int * SCALE as int))
}

/// Executable prediction for one particle.
pub fn presolve_particle(p: Particle, h: i64) -> (r: Particle)
    ensures
        r == presolve_particle_s(p, h),
{
    if p.inv_mass == 0 {
        p
    } else {
        let v1 = vadd(p.velocity, vscale(p.ext_acc, h));
        let prev = p.position;
        let pos1 = vadd(p.position, vscale(v1, h));
        let pos2 = if pos1.z < 0 {
            Vec3 { x: prev.x, y: prev.y, z: 0 }
        } else {
            pos1
        };
        Particle {
            prev_position: prev,
            position: pos2,
            velocity: v1,
            ext_acc: p.ext_acc,
            inv_mass: p.inv_mass,
        }
    }
}

/// Executable velocity inference for one particle.
pub fn postsolve_particle(p: Particle, h: i64) -> (r: Particle)
    ensures
        r == postsolve_particle_s(p, h),
{
    Particle { velocity: vdiv_fx(vsub(p.position, p.prev_position), h), ..p }
}

/// Runs prediction over the whole particle array.
pub(crate) fn presolve_pass(particles: &mut Vec<Particle>, h: i64)
    ensures
        final(particles)@ == presolve_s(old(particles)@, h),
        final(particles)@.len() == old(particles)@.len(),
{
    let ghost ps0 = particles@;
    let mut i: usize = 0;
    while i < particles.len()
        invariant
            i <= ps0.len(),
            particles@.len() == ps0.len(),
            forall|k: int| i <= k < ps0.len() ==> particles@[k] == ps0[k],
            forall|k: int| 0 <= k < i ==> particles@[k] == presolve_particle_s(ps0[k], h),
        decreases ps0.len() - i,
    {
        let p = particles[i];
        particles[i] = presolve_particle(p, h);
        i = i + 1;
    }
    proof {
        assert(particles@ =~= presolve_s(ps0, h));
    }
}

/// Runs velocity inference over the whole particle array.
pub(crate) fn postsolve_pass(particles: &mut Vec<Particle>, h: i64)
    ensures
        final(particles)@ == postsolve_s(old(particles)@, h),
        final(particles)@.len() == old(particles)@.len(),
{
    let ghost ps0 = particles@;
    let mut i: usize = 0;
    while i < particles.len()
        invariant
            i <= ps0.len(),
            particles@.len() == ps0.len(),
            forall|k: int| i <= k < ps0.len() ==> particles@[k] == ps0[k],
            forall|k: int| 0 <= k < i ==> particles@[k] == postsolve_particle_s(ps0[k], h),
        decreases ps0.len() - i,
    {
        let p = particles[i];
        particles[i] = postsolve_particle(p, h);
        i = i + 1;
    }
    proof {
        assert(particles@ =~= postsolve_s(ps0, h));
    }
}

/// One sequential Gauss-Seidel sweep over one constraint array.
pub fn add_constraints_gauss_seidel<C: Constraint>(
    particles: &mut Vec<Particle>,
    constraints: &Vec<C>,
    delta: i64,
)
    requires
        forall|k: int|
            0 <= k < constraints@.len() ==> indices_in_range(
                #[trigger] constraints@[k].model_indices(),
                old(particles)@.len(),
            ),
    ensures
        final(particles)@ == gs_pass_s(old(particles)@, constraints@, delta),
        final(particles)@.len() == old(particles)@.len(),
{
    let ghost ps0 = particles@;
    let mut ci: usize = 0;
    while ci < constraints.len()
        invariant
            forall|k: int|
                0 <= k < constraints@.len() ==> indices_in_range(
                    #[trigger] constraints@[k].model_indices(),
                    ps0.len(),
                ),
            ci <= constraints@.len(),
            particles@.len() == ps0.len(),
            particles@ == gs_pass_s(ps0, constraints@.take(ci as int), delta),
        decreases constraints@.len() - ci,
    {
        let ghost snap = particles@;
        let ds = constraints[ci].solve(particles, delta);
        proof {
            assert(ds@ == spec_solve(constraints@[ci as int], snap, delta));
        }
        let mut j: usize = 0;
        while j < ds.len()
            invariant
                j <= ds@.len(),
                particles@.len() == snap.len(),
                particles@ == apply_deltas_s(snap, ds@.take(j as int)),
            decreases ds@.len() - j,
        {
            proof {
                assert(ds@.take(j as int + 1).drop_last() =~= ds@.take(j as int));
            }
            let d = ds[j];
            let idx = d.particle_idx as usize;
            if idx < particles.len() {
                let p = particles[idx];
                particles[idx] = Particle { position: vadd(p.position, d.delta), ..p };
            }
            j = j + 1;
        }
        proof {
            assert(ds@.take(ds@.len() as int) =~= ds@);
            assert(constraints@.take(ci as int + 1).drop_last() =~= constraints@.take(ci as int));
        }
        ci = ci + 1;
    }
    proof {
        assert(constraints@.take(constraints@.len() as int) =~= constraints@);
    }
}

/// The Jacobi update of one particle, from the flat correction list.
pub fn jacobi_apply_one(p: &Particle, idx: usize, deltas: &Vec<ConstraintDelta>) -> (r: Particle)
    requires
        idx <= u32::MAX,
    ensures
        r == jacobi_particle_s(*p, deltas@, idx as u32),
{
    let idx32 = idx as u32;
    let mut total = Vec3 { x: 0, y: 0, z: 0 };
    let mut n: usize = 0;
    let mut j: usize = 0;
    while j < deltas.len()
        invariant
            j <= deltas@.len(),
            n <= j,
            idx32 == idx as u32,
            total == matching_sum_s(deltas@.take(j as int), idx32),
            n == matching_count_s(deltas@.take(j as int), idx32),
        decreases deltas@.len() - j,
    {
        proof {
            assert(deltas@.take(j as int + 1).drop_last() =~= deltas@.take(j as int));
        }
        let d = deltas[j];
        if d.particle_idx == idx32 {
            total = vadd(total, d.delta);
            n = n + 1;
        }
        j = j + 1;
    }
    proof {
        assert(deltas@.take(deltas@.len() as int) =~= deltas@);
    }
    if n > 0 {
        Particle { position: vadd(p.position, vdiv_count(vscale(total, JACOBI_W), n)), ..*p }
    } else {
        *p
    }
}

/// Relies on rayon's parallel iterators: `par_iter` + `flat_map` + `collect`
/// into a `Vec` yield the same elements in the same order as sequential
/// iteration, and `DistanceC::solve` is a verified pure function of the
/// read-only particle state.
#[verifier::external_body]
fn par_jacobi_deltas_dist(
    particles: &Vec<Particle>,
    constraints: &Vec<DistanceC>,
    delta: i64,
) -> (r: Vec<ConstraintDelta>)
    requires
        forall|k: int|
            0 <= k < constraints@.len() ==> indices_in_range(
                #[trigger] constraints@[k].model_indices(),
                particles@.len(),
            ),
    ensures
        r@ == jacobi_deltas_s(particles@, constraints@, delta),
{
    constraints.par_iter().flat_map(|c| c.solve(particles, delta)).collect()
}

/// Relies on rayon's parallel iterators, as `par_jacobi_deltas_dist` does,
/// with `TetrahedralVolumeC::solve` as the verified per-constraint solve.
#[verifier::external_body]
fn par_jacobi_deltas_tet(
    particles: &Vec<Particle>,
    constraints: &Vec<TetrahedralVolumeC>,
    delta: i64,
) -> (r: Vec<ConstraintDelta>)
    requires
        forall|k: int|
            0 <= k < constraints@.len() ==> indices_in_range(
                #[trigger] constraints@[k].model_indices(),
                particles@.len(),
            ),
    ensures
        r@ == jacobi_deltas_s(particles@, constraints@, delta),
{
    constraints.par_iter().flat_map(|c| c.solve(particles, delta)).collect()
}

/// Relies on rayon's `par_iter_mut`: `enumerate` + `for_each` visit every
/// element exactly once, with its index, through a disjoint `&mut`; the new
/// value is computed by the verified `jacobi_apply_one`.
#[verifier::external_body]
fn par_jacobi_apply(particles: &mut Vec<Particle>, deltas: &Vec<ConstraintDelta>)
    requires
        old(particles)@.len() <= u32::MAX,
    ensures
        final(particles)@ == jacobi_apply_s(old(particles)@, deltas@),
{
    particles.par_iter_mut().enumerate().for_each(
        |(idx, p): (usize, &mut Particle)|
            {
                *p = jacobi_apply_one(p, idx, deltas);
            },
    );
}

/// One parallel Jacobi pass over the distance constraints.
fn add_constraints_jacobi_dist(
    particles: &mut Vec<Particle>,
    constraints: &Vec<DistanceC>,
    delta: i64,
)
    requires
        old(particles)@.len() <= u32::MAX,
        forall|k: int|
            0 <= k < constraints@.len() ==> indices_in_range(
                #[trigger] constraints@[k].model_indices(),
                old(particles)@.len(),
            ),
    ensures
        final(particles)@ == jacobi_pass_s(old(particles)@, constraints@, delta),
        final(particles)@.len() == old(particles)@.len(),
{
    let x_deltas = par_jacobi_deltas_dist(particles, constraints, delta);
    par_jacobi_apply(particles, &x_deltas);
}

/// One parallel Jacobi pass over the volume constraints.
fn add_constraints_jacobi_tet(
    particles: &mut Vec<Particle>,
    constraints: &Vec<TetrahedralVolumeC>,
    delta: i64,
)
    requires
        old(particles)@.len() <= u32::MAX,
        forall|k: int|
            0 <= k < constraints@.len() ==> indices_in_range(
                #[trigger] constraints@[k].model_indices(),
                old(particles)@.len(),
            ),
    ensures
        final(particles)@ == jacobi_pass_s(old(particles)@, constraints@, delta),
        final(particles)@.len() == old(particles)@.len(),
{
    let x_deltas = par_jacobi_deltas_tet(particles, constraints, delta);
    par_jacobi_apply(particles, &x_deltas);
}

/// Total absolute constraint error over one constraint array, summed in
/// array order.
pub open spec fn error_sum_s<C: Constraint>(ps: Seq<Particle>, cs: Seq<C>) -> i64
    decreases cs.len(),
{
    if cs.len() == 0 {
        0
    } else {
        sat_add_s(error_sum_s(ps, cs.drop_last()), sat_abs_s(cs.last().model_value(ps)))
    }
}

/// Executable twin of [`error_sum_s`].
pub fn constraint_error<C: Constraint>(particles: &Vec<Particle>, constraints: &Vec<C>) -> (r:
    i64)
    requires
        forall|k: int|
            0 <= k < constraints@.len() ==> indices_in_range(
                #[trigger] constraints@[k].model_indices(),
                particles@.len(),
            ),
    ensures
        r == error_sum_s(particles@, constraints@),
{
    let mut total: i64 = 0;
    let mut k: usize = 0;
    while k < constraints.len()
        invariant
            forall|j: int|
                0 <= j < constraints@.len() ==> indices_in_range(
                    #[trigger] constraints@[j].model_indices(),
                    particles@.len(),
                ),
            k <= constraints@.len(),
            total == error_sum_s(particles@, constraints@.take(k as int)),
        decreases constraints@.len() - k,
    {
        proof {
            assert(constraints@.take(k as int + 1).drop_last() =~= constraints@.take(k as int));
        }
        let v = constraints[k].value(particles);
        total = sat_add(total, sat_abs(v));
        k = k + 1;
    }
    proof {
        assert(constraints@.take(constraints@.len() as int) =~= constraints@);
    }
    total
}

/// Relies on std::io::Write for standard output: prints one labeled
/// diagnostic line; no library state depends on it.
#[verifier::external_body]
fn print_diagnostic(label: &str, err: i64) {
    let mut out = std::io::stdout();
    let _ = writeln!(out, "{}: {}", label, err);
}

/// The simulation: particles, the two constraint arrays, and the selected
/// solver variant.
pub struct CpuSimulation {
    pub particles: Vec<Particle>,
    pub distance_constraints: Vec<DistanceC>,
    pub volume_constraints: Vec<TetrahedralVolumeC>,
    pub solver: SolverType,
}

impl CpuSimulation {
    /// Every constraint addresses existing particles, and the particle count
    /// fits the index width the corrections carry.
    pub open spec fn scene_valid(self) -> bool {
        &&& self.particles@.len() <= u32::MAX
        &&& forall|k: int|
            0 <= k < self.distance_constraints@.len() ==> indices_in_range(
                #[trigger] self.distance_constraints@[k].model_indices(),
                self.particles@.len(),
            )
        &&& forall|k: int|
            0 <= k < self.volume_constraints@.len() ==> indices_in_range(
                #[trigger] self.volume_constraints@[k].model_indices(),
                self.particles@.len(),
            )
    }

    /// An empty simulation running the given solver variant.
    pub fn new(solver: SolverType) -> (r: CpuSimulation)
        ensures
            r.particles@ == Seq::<Particle>::empty(),
            r.distance_constraints@ == Seq::<DistanceC>::empty(),
            r.volume_constraints@ == Seq::<TetrahedralVolumeC>::empty(),
            r.solver == solver,
    {
        CpuSimulation {
            particles: Vec::new(),
            distance_constraints: Vec::new(),
            volume_constraints: Vec::new(),
            solver,
        }
    }

    /// Read-only view of the particle array.
    pub fn particles(&self) -> (r: &Vec<Particle>)
        ensures
            r@ == self.particles@,
    {
        &self.particles
    }

    /// Appends particles to the scene.
    pub fn add_particles(&mut self, particles: Vec<Particle>)
        ensures
            final(self).particles@ == old(self).particles@ + particles@,
            final(self).distance_constraints@ == old(self).distance_constraints@,
            final(self).volume_constraints@ == old(self).volume_constraints@,
            final(self).solver == old(self).solver,
    {
        let mut particles = particles;
        self.particles.append(&mut particles);
    }

    /// Appends distance constraints to the scene.
    pub fn add_distance_constraints(&mut self, constraints: Vec<DistanceC>)
        ensures
            final(self).distance_constraints@ == old(self).distance_constraints@ + constraints@,
            final(self).particles@ == old(self).particles@,
            final(self).volume_constraints@ == old(self).volume_constraints@,
            final(self).solver == old(self).solver,
    {
        let mut constraints = constraints;
        self.distance_constraints.append(&mut constraints);
    }

    /// Appends tetrahedral volume constraints to the scene.
    pub fn add_volume_constraints(&mut self, constraints: Vec<TetrahedralVolumeC>)
        ensures
            final(self).volume_constraints@ == old(self).volume_constraints@ + constraints@,
            final(self).particles@ == old(self).particles@,
            final(self).distance_constraints@ == old(self).distance_constraints@,
            final(self).solver == old(self).solver,
    {
        let mut constraints = constraints;
        self.volume_constraints.append(&mut constraints);
    }

    /// Advances the simulation by `delta` time units split into `substeps`
    /// equal substeps, mutating the particle state in place; the result is
    /// exactly [`advance_s`] of the prior state. No particle's inverse mass
    /// or external acceleration changes, and a pinned particle (inverse mass
    /// zero) never moves. With `print_error`, each substep prints the summed
    /// absolute constraint errors before solving.
    pub fn simulate(&mut self, substeps: u32, delta: i64, print_error: bool)
        requires
            substeps >= 1,
            delta > 0,
            old(self).scene_valid(),
        ensures
            final(self).distance_constraints@ == old(self).distance_constraints@,
            final(self).volume_constraints@ == old(self).volume_constraints@,
            final(self).solver == old(self).solver,
            final(self).particles@.len() == old(self).particles@.len(),
            final(self).particles@ == advance_s(
                old(self).particles@,
                old(self).distance_constraints@,
                old(self).volume_constraints@,
                sub_h(delta, substeps),
                old(self).solver,
                substeps as nat,
            ),
            forall|i: int|
                0 <= i < old(self).particles@.len() ==> (#[trigger] final(self).particles@[i]).inv_mass
                    == old(self).particles@[i].inv_mass && final(self).particles@[i].ext_acc == old(
                    self,
                ).particles@[i].ext_acc,
            forall|i: int|
                0 <= i < old(self).particles@.len() && old(self).particles@[i].inv_mass == 0 ==> (
                #[trigger] final(self).particles@[i]).position == old(self).particles@[i].position
                    && final(self).particles@[i].prev_position == old(
                    self,
                ).particles@[i].prev_position,
    {
        proof {
            assert(0 < (substeps as int) * (SCALE as int) <= i64::MAX) by (nonlinear_arith)
                requires
                    1 <= substeps <= u32::MAX,
                    SCALE == 1_000_000,
            ;
        }
        let steps_fx = sat_from_i128((substeps as i128) * (SCALE as i128));
        let sub_delta = fx_div(delta, steps_fx);
        proof {
            assert(sub_delta == sub_h(delta, substeps));
        }
        let ghost ps0 = self.particles@;
        let ghost dcs = self.distance_constraints@;
        let ghost tcs = self.volume_constraints@;
        let ghost solver0 = self.solver;
        let mut step: u32 = 0;
        while step < substeps
            invariant
                step <= substeps,
                self.distance_constraints@ == dcs,
                self.volume_constraints@ == tcs,
                self.solver == solver0,
                self.particles@.len() == ps0.len(),
                ps0.len() <= u32::MAX,
                forall|k: int|
                    0 <= k < dcs.len() ==> indices_in_range(
                        #[trigger] dcs[k].model_indices(),
                        ps0.len(),
                    ),
                forall|k: int|
                    0 <= k < tcs.len() ==> indices_in_range(
                        #[trigger] tcs[k].model_indices(),
                        ps0.len(),
                    ),
                self.particles@ == advance_s(ps0, dcs, tcs, sub_delta, solver0, step as nat),
            decreases substeps - step,
        {
            let ghost before = self.particles@;
            presolve_pass(&mut self.particles, sub_delta);
            if print_error {
                let e_dist = constraint_error(&self.particles, &self.distance_constraints);
                print_diagnostic("Distance error", e_dist);
                let e_tet = constraint_error(&self.particles, &self.volume_constraints);
                print_diagnostic("Tet error", e_tet);
            }
            match self.solver {
                SolverType::GaussSeidel => {
                    add_constraints_gauss_seidel(
                        &mut self.particles,
                        &self.distance_constraints,
                        sub_delta,
                    );
                    add_constraints_gauss_seidel(
                        &mut self.particles,
                        &self.volume_constraints,
                        sub_delta,
                    );
                },
                SolverType::Jacobi => {
                    add_constraints_jacobi_dist(
                        &mut self.particles,
                        &self.distance_constraints,
                        sub_delta,
                    );
                    add_constraints_jacobi_tet(
                        &mut self.particles,
                        &self.volume_constraints,
                        sub_delta,
                    );
                },
            }
            postsolve_pass(&mut self.particles, sub_delta);
            proof {
                assert(self.particles@ == substep_s(before, dcs, tcs, sub_delta, solver0));
                assert(self.particles@ == advance_s(
                    ps0,
                    dcs,
                    tcs,
                    sub_delta,
                    solver0,
                    step as nat + 1,
                ));
            }
            step = step + 1;
        }
        proof {
            assert forall|i: int|
                0 <= i < ps0.len() implies (#[trigger] self.particles@[i]).inv_mass
                == ps0[i].inv_mass && self.particles@[i].ext_acc == ps0[i].ext_acc by {
                crate::laws::law_advance_keeps_mass_and_acceleration(
                    ps0,
                    dcs,
                    tcs,
                    sub_delta,
                    solver0,
                    substeps as nat,
                    i,
                );
            }
            assert forall|i: int|
                0 <= i < ps0.len() && ps0[i].inv_mass == 0 implies (
            #[trigger] self.particles@[i]).position == ps0[i].position
                && self.particles@[i].prev_position == ps0[i].prev_position by {
                crate::laws::law_pinned_particle_never_moves(
                    ps0,
                    dcs,
                    tcs,
                    sub_delta,
                    solver0,
                    substeps as nat,
                    i,
                );
            }
        }
    }
}

} // verus!

