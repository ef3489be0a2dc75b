//! The GPU realization of the Jacobi solver, modeled on the host side.
//!
//! The device runs six kernels per substep over storage buffers; their
//! semantics are defined here as verified functions over the same particle
//! and constraint data, so the device dispatch (performed by an outer layer)
//! has an exact reference. The module also validates scenes against the
//! fixed per-particle accumulator capacity, computes dispatch workgroup
//! counts, and fixes the device buffer layout.

use vstd::prelude::*;

pub mod shaders;

verus! {

use crate::{ConstraintDelta, DistanceC, Particle, TetrahedralVolumeC};
use crate::cpu::{indices_in_range, jacobi_deltas_s, jacobi_particle_s, matching_count_s,
    matching_sum_s, postsolve_s, presolve_s, spec_solve, Constraint, JACOBI_W};
use crate::vec3::{vadd, vadd_s, vdiv_count, vdiv_count_s, vscale, vscale_s, vzero, Vec3};

/// Capacity of each particle's correction slot array: corrections past this
/// bound within one pass are dropped, so scenes must stay within it.
pub const ACC_CAPACITY: usize = 64;

/// Threads per workgroup of every kernel.
pub const WORKGROUP_SIZE: u64 = 64;

/// One particle's correction accumulator: an allocation counter and a
/// fixed-capacity slot array.
pub struct ParticleConstraintDeltas {
    pub n: u32,
    pub deltas: Vec<Vec3>,
}

/// Each accumulator's slot array has exactly the fixed capacity.
pub open spec fn accs_wf(rs: Seq<ParticleConstraintDeltas>) -> bool {
    forall|i: int| 0 <= i < rs.len() ==> (#[trigger] rs[i]).deltas@.len() == 64
}

/// The allocation counters of an accumulator array.
pub open spec fn counts_of(rs: Seq<ParticleConstraintDeltas>) -> Seq<u32> {
    Seq::new(rs.len(), |i: int| rs[i].n)
}

/// The slot arrays of an accumulator array.
pub open spec fn slots_of(rs: Seq<ParticleConstraintDeltas>) -> Seq<Seq<Vec3>> {
    Seq::new(rs.len(), |i: int| rs[i].deltas@)
}

/// The cleared accumulator state for `n` particles: all counters zero, all
/// slots zero.
pub open spec fn zero_counts(n: nat) -> Seq<u32> {
    Seq::new(n, |i: int| 0u32)
}

/// The cleared slot arrays for `n` particles.
pub open spec fn zero_slots(n: nat) -> Seq<Seq<Vec3>> {
    Seq::new(n, |i: int| Seq::new(64, |s: int| vzero()))
}

/// One scatter, as the constraint kernels perform it: atomically bump the
/// target particle's counter to obtain a slot, and write the correction there
/// if the slot is within capacity. A target outside the array is ignored.
pub open spec fn scatter_one_s(
    counts: Seq<u32>,
    slots: Seq<Seq<Vec3>>,
    d: ConstraintDelta,
) -> (Seq<u32>, Seq<Seq<Vec3>>) {
    let i = d.particle_idx as int;
    if 0 <= i < counts.len() {
        let s = counts[i];
        let counts2 = counts.update(
            i,
            if s == u32::MAX {
                0u32
            } else {
                (s + 1) as u32
            },
        );
        let slots2 = if (s as int) < 64 {
            slots.update(i, slots[i].update(s as int, d.delta))
        } else {
            slots
        };
        (counts2, slots2)
    } else {
        (counts, slots)
    }
}

/// Scattering a list of corrections, in order.
pub open spec fn scatter_s(
    counts: Seq<u32>,
    slots: Seq<Seq<Vec3>>,
    ds: Seq<ConstraintDelta>,
) -> (Seq<u32>, Seq<Seq<Vec3>>)
    decreases ds.len(),
{
    if ds.len() == 0 {
        (counts, slots)
    } else {
        let prev = scatter_s(counts, slots, ds.drop_last());
        scatter_one_s(prev.0, prev.1, ds.last())
    }
}

/// Sum of the first `m` slots, in slot order.
pub open spec fn slot_prefix_sum_s(slots: Seq<Vec3>, m: int) -> Vec3
    decreases m,
{
    if m <= 0 {
        vzero()
    } else {
        vadd_s(slot_prefix_sum_s(slots, m - 1), slots[m - 1])
    }
}

/// The add-deltas kernel for one particle: average the filled slots (at most
/// the capacity), scale by the relaxation weight, and add to the position; an
/// empty accumulator leaves the particle unchanged.
pub open spec fn add_deltas_particle_s(p: Particle, count: u32, slots: Seq<Vec3>) -> Particle {
    let m: int = if count as int <= 64 {
        count as int
    } else {
        64
    };
    if m > 0 {
        Particle {
            position: vadd_s(
                p.position,
                vdiv_count_s(vscale_s(slot_prefix_sum_s(slots, m), JACOBI_W), m),
            ),
            ..p
        }
    } else {
        p
    }
}

/// The add-deltas kernel over the whole particle array.
pub open spec fn add_deltas_s(
    ps: Seq<Particle>,
    counts: Seq<u32>,
    slots: Seq<Seq<Vec3>>,
) -> Seq<Particle> {
    Seq::new(
        ps.len(),
        |i: int|
            if 0 <= i < counts.len() && 0 <= i < slots.len() {
                add_deltas_particle_s(ps[i], counts[i], slots[i])
            } else {
                ps[i]
            },
    )
}

/// One GPU Jacobi pass over one constraint array: clear the accumulators,
/// scatter every constraint's corrections, then aggregate per particle.
pub open spec fn gpu_jacobi_pass_s<C: Constraint>(ps: Seq<Particle>, cs: Seq<C>, h: i64) -> Seq<
    Particle,
> {
    let ds = jacobi_deltas_s(ps, cs, h);
    let st = scatter_s(zero_counts(ps.len()), zero_slots(ps.len()), ds);
    add_deltas_s(ps, st.0, st.1)
}

/// One GPU substep: prediction, the distance pass, the volume pass, velocity
/// inference — the same phase order as the sequential integrator.
pub open spec fn gpu_substep_s(
    ps: Seq<Particle>,
    dcs: Seq<DistanceC>,
    tcs: Seq<TetrahedralVolumeC>,
    h: i64,
) -> Seq<Particle> {
    postsolve_s(gpu_jacobi_pass_s(gpu_jacobi_pass_s(presolve_s(ps, h), dcs, h), tcs, h), h)
}

/// `n` GPU substeps in sequence.
pub open spec fn gpu_advance_s(
    ps: Seq<Particle>,
    dcs: Seq<DistanceC>,
    tcs: Seq<TetrahedralVolumeC>,
    h: i64,
    n: nat,
) -> Seq<Particle>
    decreases n,
{
    if n == 0 {
        ps
    } else {
        gpu_substep_s(gpu_advance_s(ps, dcs, tcs, h, (n - 1) as nat), dcs, tcs, h)
    }
}

/// Builds one cleared accumulator.
fn new_accumulator() -> (r: ParticleConstraintDeltas)
    ensures
        r.n == 0,
        r.deltas@ =~= Seq::new(64, |s: int| vzero()),
{
    let mut deltas: Vec<Vec3> = Vec::new();
    let mut s: usize = 0;
    while s < 64
        invariant
            s <= 64,
            deltas@.len() == s,
            forall|k: int| 0 <= k < s ==> deltas@[k] == vzero(),
        decreases 64 - s,
    {
        deltas.push(Vec3 { x: 0, y: 0, z: 0 });
        s = s + 1;
    }
    ParticleConstraintDeltas { n: 0, deltas }
}

/// The clear dispatch: a cleared accumulator array for `n` particles.
pub fn cleared_results(n: usize) -> (r: Vec<ParticleConstraintDeltas>)
    ensures
        r@.len() == n,
        counts_of(r@) =~= zero_counts(n as nat),
        slots_of(r@) =~= zero_slots(n as nat),
        accs_wf(r@),
{
    let mut r: Vec<ParticleConstraintDeltas> = Vec::new();
    let mut i: usize = 0;
    while i < n
        invariant
            i <= n,
            r@.len() == i,
            forall|k: int|
                0 <= k < i ==> (#[trigger] r@[k]).n == 0 && r@[k].deltas@ =~= Seq::new(
                    64,
                    |s: int| vzero(),
                ),
        decreases n - i,
    {
        r.push(new_accumulator());
        i = i + 1;
    }
    proof {
        assert(counts_of(r@) =~= zero_counts(n as nat));
        assert(slots_of(r@) =~= zero_slots(n as nat));
    }
    r
}

/// The scatter step of a constraint kernel, for one correction.
fn scatter_one(results: &mut Vec<ParticleConstraintDeltas>, d: ConstraintDelta)
    requires
        accs_wf(old(results)@),
    ensures
        accs_wf(final(results)@),
        final(results)@.len() == old(results)@.len(),
        ({
            let st = scatter_one_s(counts_of(old(results)@), slots_of(old(results)@), d);
            counts_of(final(results)@) == st.0 && slots_of(final(results)@) == st.1
        }),
{
    let ghost old_counts = counts_of(results@);
    let ghost old_slots = slots_of(results@);
    let i = d.particle_idx as usize;
    if i < results.len() {
        let s = results[i].n;
        let acc = &mut results[i];
        acc.n = if s == u32::MAX {
            0
        } else {
            s + 1
        };
        if s < 64 {
            let su = s as usize;
            acc.deltas[su] = d.delta;
        }
        proof {
            assert(counts_of(results@) =~= scatter_one_s(old_counts, old_slots, d).0);
            assert(slots_of(results@) =~= scatter_one_s(old_counts, old_slots, d).1);
        }
    } else {
        proof {
            assert(counts_of(results@) =~= scatter_one_s(old_counts, old_slots, d).0);
            assert(slots_of(results@) =~= scatter_one_s(old_counts, old_slots, d).1);
        }
    }
}

/// A constraint-solver dispatch over one constraint array: every constraint
/// runs the XPBD local solve against the read-only particle state and
/// scatters its corrections into the accumulators.
pub fn gpu_solve_scatter<C: Constraint>(
    particles: &Vec<Particle>,
    constraints: &Vec<C>,
    results: &mut Vec<ParticleConstraintDeltas>,
    h: i64,
)
    requires
        accs_wf(old(results)@),
        forall|k: int|
            0 <= k < constraints@.len() ==> indices_in_range(
                #[trigger] constraints@[k].model_indices(),
                particles@.len(),
            ),
    ensures
        accs_wf(final(results)@),
        final(results)@.len() == old(results)@.len(),
        ({
            let st = scatter_s(
                counts_of(old(results)@),
                slots_of(old(results)@),
                jacobi_deltas_s(particles@, constraints@, h),
            );
            counts_of(final(results)@) == st.0 && slots_of(final(results)@) == st.1
        }),
{
    let ghost counts0 = counts_of(results@);
    let ghost slots0 = slots_of(results@);
    let mut ci: usize = 0;
    while ci < constraints.len()
        invariant
            accs_wf(results@),
            results@.len() == old(results)@.len(),
            counts0 == counts_of(old(results)@),
            slots0 == slots_of(old(results)@),
            forall|k: int|
                0 <= k < constraints@.len() ==> indices_in_range(
                    #[trigger] constraints@[k].model_indices(),
                    particles@.len(),
                ),
            ci <= constraints@.len(),
            ({
                let st = scatter_s(
                    counts0,
                    slots0,
                    jacobi_deltas_s(particles@, constraints@.take(ci as int), h),
                );
                counts_of(results@) == st.0 && slots_of(results@) == st.1
            }),
        decreases constraints@.len() - ci,
    {
        let ghost deltas_before = jacobi_deltas_s(particles@, constraints@.take(ci as int), h);
        let ds = constraints[ci].solve(particles, h);
        proof {
            assert(ds@ == spec_solve(constraints@[ci as int], particles@, h));
        }
        let ghost counts_mid = counts_of(results@);
        let ghost slots_mid = slots_of(results@);
        let mut j: usize = 0;
        while j < ds.len()
            invariant
                accs_wf(results@),
                results@.len() == old(results)@.len(),
                j <= ds@.len(),
                counts_mid == scatter_s(counts0, slots0, deltas_before).0,
                slots_mid == scatter_s(counts0, slots0, deltas_before).1,
                ({
                    let st = scatter_s(counts_mid, slots_mid, ds@.take(j as int));
                    counts_of(results@) == st.0 && slots_of(results@) == st.1
                }),
            decreases ds@.len() - j,
        {
            proof {
                assert(ds@.take(j as int + 1).drop_last() =~= ds@.take(j as int));
            }
            let d = ds[j];
            scatter_one(results, d);
            j = j + 1;
        }
        proof {
            assert(ds@.take(ds@.len() as int) =~= ds@);
            assert(constraints@.take(ci as int + 1).drop_last() =~= constraints@.take(ci as int));
            lemma_scatter_concat(counts0, slots0, deltas_before, ds@);
            assert(deltas_before + ds@ == jacobi_deltas_s(
                particles@,
                constraints@.take(ci as int + 1),
                h,
            ));
        }
        ci = ci + 1;
    }
    proof {
        assert(constraints@.take(constraints@.len() as int) =~= constraints@);
    }
}

/// Scattering a concatenation scatters the two parts in sequence.
proof fn lemma_scatter_concat(
    counts: Seq<u32>,
    slots: Seq<Seq<Vec3>>,
    a: Seq<ConstraintDelta>,
    b: Seq<ConstraintDelta>,
)
    ensures
        scatter_s(counts, slots, a + b) == ({
            let st = scatter_s(counts, slots, a);
            scatter_s(st.0, st.1, b)
        }),
    decreases b.len(),
{
    if b.len() == 0 {
        assert(a + b =~= a);
    } else {
        lemma_scatter_concat(counts, slots, a, b.drop_last());
        assert((a + b).drop_last() =~= a + b.drop_last());
        assert((a + b).last() == b.last());
    }
}

/// The add-deltas dispatch: aggregate each particle's accumulator into its
/// position.
pub fn gpu_add_deltas(particles: &mut Vec<Particle>, results: &Vec<ParticleConstraintDeltas>)
    requires
        accs_wf(results@),
    ensures
        final(particles)@ == add_deltas_s(old(particles)@, counts_of(results@), slots_of(results@)),
        final(particles)@.len() == old(particles)@.len(),
{
    let ghost ps0 = particles@;
    let mut i: usize = 0;
    while i < particles.len()
        invariant
            accs_wf(results@),
            i <= ps0.len(),
            particles@.len() == ps0.len(),
            forall|k: int| i <= k < ps0.len() ==> particles@[k] == ps0[k],
            forall|k: int|
                0 <= k < i ==> particles@[k] == add_deltas_s(
                    ps0,
                    counts_of(results@),
                    slots_of(results@),
                )[k],
        decreases ps0.len() - i,
    {
        let p = particles[i];
        if i < results.len() {
            let count = results[i].n;
            let m: usize = if count as usize <= 64 {
                count as usize
            } else {
                64
            };
            if m > 0 {
                let mut total = Vec3 { x: 0, y: 0, z: 0 };
                let mut s: usize = 0;
                while s < m
                    invariant
                        accs_wf(results@),
                        i < results@.len(),
                        s <= m,
                        m <= 64,
                        total == slot_prefix_sum_s(results@[i as int].deltas@, s as int),
                    decreases m - s,
                {
                    total = vadd(total, results[i].deltas[s]);
                    s = s + 1;
                }
                particles[i] = Particle {
                    position: vadd(p.position, vdiv_count(vscale(total, JACOBI_W), m)),
                    ..p
                };
                proof {
                    assert(particles@[i as int] == add_deltas_particle_s(
                        ps0[i as int],
                        counts_of(results@)[i as int],
                        slots_of(results@)[i as int],
                    ));
                }
            }
        }
        i = i + 1;
    }
    proof {
        assert(particles@ =~= add_deltas_s(ps0, counts_of(results@), slots_of(results@)));
    }
}

/// Scattering preserves the accumulator array lengths.
proof fn lemma_scatter_len(counts: Seq<u32>, slots: Seq<Seq<Vec3>>, ds: Seq<ConstraintDelta>)
    requires
        slots.len() == counts.len(),
    ensures
        scatter_s(counts, slots, ds).0.len() == counts.len(),
        scatter_s(counts, slots, ds).1.len() == slots.len(),
    decreases ds.len(),
{
    if ds.len() == 0 {
    } else {
        lemma_scatter_len(counts, slots, ds.drop_last());
        let prev = scatter_s(counts, slots, ds.drop_last());
        let d = ds.last();
        let i = d.particle_idx as int;
        if 0 <= i < prev.0.len() {
            let s = prev.0[i];
            if (s as int) < 64 {
                assert(scatter_one_s(prev.0, prev.1, d).1 == prev.1.update(
                    i,
                    prev.1[i].update(s as int, d.delta),
                ));
            }
        }
    }
}

/// The corrections targeting `idx`, in list order.
pub open spec fn matching_deltas_s(ds: Seq<ConstraintDelta>, idx: u32) -> Seq<Vec3>
    decreases ds.len(),
{
    if ds.len() == 0 {
        Seq::empty()
    } else {
        let rest = matching_deltas_s(ds.drop_last(), idx);
        if ds.last().particle_idx == idx {
            rest.push(ds.last().delta)
        } else {
            rest
        }
    }
}

/// There are as many matching corrections as the matching count says, and at
/// most one per correction in the list.
proof fn lemma_matching_len(ds: Seq<ConstraintDelta>, idx: u32)
    ensures
        matching_deltas_s(ds, idx).len() == matching_count_s(ds, idx),
        matching_count_s(ds, idx) <= ds.len(),
    decreases ds.len(),
{
    if ds.len() == 0 {
    } else {
        lemma_matching_len(ds.drop_last(), idx);
    }
}

/// Prefix sums agree on sequences that agree on the prefix.
proof fn lemma_prefix_sum_congruence(a: Seq<Vec3>, b: Seq<Vec3>, m: int)
    requires
        forall|s: int| 0 <= s < m ==> a[s] == b[s],
    ensures
        slot_prefix_sum_s(a, m) == slot_prefix_sum_s(b, m),
    decreases m,
{
    if m <= 0 {
    } else {
        lemma_prefix_sum_congruence(a, b, m - 1);
    }
}

/// The in-order sum of the matching corrections is their prefix sum.
proof fn lemma_matching_sum_is_prefix_sum(ds: Seq<ConstraintDelta>, idx: u32)
    ensures
        matching_sum_s(ds, idx) == slot_prefix_sum_s(
            matching_deltas_s(ds, idx),
            matching_deltas_s(ds, idx).len() as int,
        ),
    decreases ds.len(),
{
    if ds.len() == 0 {
    } else {
        lemma_matching_sum_is_prefix_sum(ds.drop_last(), idx);
        let rest = matching_deltas_s(ds.drop_last(), idx);
        let md = matching_deltas_s(ds, idx);
        if ds.last().particle_idx == idx {
            assert(md == rest.push(ds.last().delta));
            lemma_prefix_sum_congruence(md, rest, rest.len() as int);
        }
    }
}

/// After scattering into cleared accumulators, particle `idx` holds exactly
/// its matching count, and its filled slots (up to capacity) hold its
/// matching corrections in order.
proof fn lemma_scatter_state(n: nat, ds: Seq<ConstraintDelta>, idx: u32)
    requires
        (idx as nat) < n,
        ds.len() <= u32::MAX,
    ensures
        ({
            let st = scatter_s(zero_counts(n), zero_slots(n), ds);
            let i = idx as int;
            &&& st.0.len() == n
            &&& st.1.len() == n
            &&& st.1[i].len() == 64
            &&& st.0[i] as nat == matching_count_s(ds, idx)
            &&& forall|s: int|
                0 <= s < st.0[i] && s < 64 ==> st.1[i][s] == matching_deltas_s(ds, idx)[s]
        }),
    decreases ds.len(),
{
    let i = idx as int;
    lemma_scatter_len(zero_counts(n), zero_slots(n), ds);
    lemma_matching_len(ds, idx);
    if ds.len() == 0 {
    } else {
        lemma_scatter_state(n, ds.drop_last(), idx);
        lemma_matching_len(ds.drop_last(), idx);
        let prev = scatter_s(zero_counts(n), zero_slots(n), ds.drop_last());
        lemma_scatter_len(zero_counts(n), zero_slots(n), ds.drop_last());
        let d = ds.last();
        let st = scatter_one_s(prev.0, prev.1, d);
        let md = matching_deltas_s(ds, idx);
        let rest = matching_deltas_s(ds.drop_last(), idx);
        if d.particle_idx == idx {
            let s = prev.0[i];
            assert(s as nat == matching_count_s(ds.drop_last(), idx));
            assert(matching_count_s(ds.drop_last(), idx) < ds.len());
            assert(s < u32::MAX);
            assert(st.0[i] == s + 1);
            assert(md == rest.push(d.delta));
            if (s as int) < 64 {
                assert(st.1[i] == prev.1[i].update(s as int, d.delta));
                assert forall|t: int| 0 <= t < st.0[i] && t < 64 implies st.1[i][t] == md[t] by {
                    if t < s as int {
                        assert(prev.1[i][t] == rest[t]);
                        assert(md[t] == rest[t]);
                    } else {
                        assert(t == s as int);
                        assert(md[t] == d.delta);
                    }
                }
            } else {
                assert(st.1[i] == prev.1[i]);
                assert forall|t: int| 0 <= t < st.0[i] && t < 64 implies st.1[i][t] == md[t] by {
                    assert(t < s as int);
                    assert(prev.1[i][t] == rest[t]);
                    assert(md[t] == rest[t]);
                }
            }
        } else {
            assert(md == rest);
            assert(matching_count_s(ds, idx) == matching_count_s(ds.drop_last(), idx));
            if (d.particle_idx as int) < prev.0.len() {
                assert(d.particle_idx as int != i);
                assert(st.0[i] == prev.0[i]);
                assert(st.1[i] == prev.1[i]);
            }
        }
    }
}

/// Law: the GPU path's scatter-and-average pass computes exactly the CPU
/// Jacobi pass, for any state whose per-particle correction count stays
/// within the accumulator capacity.
pub proof fn law_gpu_pass_matches_cpu_jacobi_pass<C: Constraint>(
    ps: Seq<Particle>,
    cs: Seq<C>,
    h: i64,
)
    requires
        ps.len() <= u32::MAX,
        jacobi_deltas_s(ps, cs, h).len() <= u32::MAX,
        forall|i: int|
            0 <= i < ps.len() ==> #[trigger] matching_count_s(jacobi_deltas_s(ps, cs, h), i as u32)
                <= 64,
    ensures
        gpu_jacobi_pass_s(ps, cs, h) == crate::cpu::jacobi_pass_s(ps, cs, h),
{
    let ds = jacobi_deltas_s(ps, cs, h);
    let n = ps.len();
    let st = scatter_s(zero_counts(n), zero_slots(n), ds);
    lemma_scatter_len(zero_counts(n), zero_slots(n), ds);
    assert forall|i: int|
        0 <= i < n implies add_deltas_s(ps, st.0, st.1)[i] == jacobi_particle_s(
        ps[i],
        ds,
        i as u32,
    ) by {
        let idx = i as u32;
        lemma_scatter_state(n, ds, idx);
        lemma_matching_len(ds, idx);
        lemma_matching_sum_is_prefix_sum(ds, idx);
        let count = matching_count_s(ds, idx);
        if count > 0 {
            lemma_prefix_sum_congruence(st.1[i], matching_deltas_s(ds, idx), count as int);
        }
    }
    assert(gpu_jacobi_pass_s(ps, cs, h) =~= crate::cpu::jacobi_pass_s(ps, cs, h));
}

/// Corrections one Jacobi phase over `cs` emits in all: two per distance
/// constraint, four per volume constraint — independent of the particle state.
pub open spec fn targets_count_s<C: Constraint>(cs: Seq<C>) -> nat
    decreases cs.len(),
{
    if cs.len() == 0 {
        0
    } else {
        targets_count_s(cs.drop_last()) + cs.last().model_indices().len()
    }
}

/// A Jacobi phase emits exactly [`targets_count_s`] corrections, whatever the
/// particle state.
proof fn lemma_jacobi_deltas_len<C: Constraint>(ps: Seq<Particle>, cs: Seq<C>, h: i64)
    ensures
        jacobi_deltas_s(ps, cs, h).len() == targets_count_s(cs),
    decreases cs.len(),
{
    if cs.len() == 0 {
    } else {
        lemma_jacobi_deltas_len(ps, cs.drop_last(), h);
    }
}

/// Law: one GPU substep computes exactly one CPU Jacobi substep, for any
/// scene that stays within the accumulator capacity (and whose sizes fit the
/// device's index and counter widths).
pub proof fn law_gpu_substep_matches_cpu_jacobi(
    ps: Seq<Particle>,
    dcs: Seq<DistanceC>,
    tcs: Seq<TetrahedralVolumeC>,
    h: i64,
)
    requires
        ps.len() <= u32::MAX,
        targets_count_s(dcs) <= u32::MAX,
        targets_count_s(tcs) <= u32::MAX,
        incidence_within_capacity_s(dcs, ps.len()),
        incidence_within_capacity_s(tcs, ps.len()),
    ensures
        gpu_substep_s(ps, dcs, tcs, h) == crate::cpu::substep_s(
            ps,
            dcs,
            tcs,
            h,
            crate::cpu::SolverType::Jacobi,
        ),
{
    let predicted = presolve_s(ps, h);
    lemma_pass_within_capacity_matches(predicted, dcs, h, ps.len());
    let after_dist = crate::cpu::jacobi_pass_s(predicted, dcs, h);
    lemma_pass_within_capacity_matches(after_dist, tcs, h, ps.len());
}

/// A capacity-respecting Jacobi pass agrees between the two paths, for any
/// state of the right length; incidence does not depend on positions, so the
/// capacity bound carries to every intermediate state.
proof fn lemma_pass_within_capacity_matches<C: Constraint>(
    ps: Seq<Particle>,
    cs: Seq<C>,
    h: i64,
    n: nat,
)
    requires
        ps.len() == n,
        n <= u32::MAX,
        targets_count_s(cs) <= u32::MAX,
        incidence_within_capacity_s(cs, n),
    ensures
        gpu_jacobi_pass_s(ps, cs, h) == crate::cpu::jacobi_pass_s(ps, cs, h),
{
    lemma_jacobi_deltas_len(ps, cs, h);
    assert forall|i: int|
        0 <= i < ps.len() implies #[trigger] matching_count_s(jacobi_deltas_s(ps, cs, h), i as u32)
        <= 64 by {
        lemma_jacobi_incidence(ps, cs, h, i as u32);
        assert(incidence_s(cs, i as u32) <= 64);
    }
    law_gpu_pass_matches_cpu_jacobi_pass(ps, cs, h);
}

/// Law: the GPU path computes exactly what the CPU Jacobi path computes, over
/// any number of substeps, for any scene that stays within the accumulator
/// capacity. This is the sense in which the two realizations agree; the
/// device's reordering freedom does not enter, because slot allocation keeps
/// each correction's identity.
pub proof fn law_gpu_advance_matches_cpu_jacobi(
    ps: Seq<Particle>,
    dcs: Seq<DistanceC>,
    tcs: Seq<TetrahedralVolumeC>,
    h: i64,
    n: nat,
)
    requires
        ps.len() <= u32::MAX,
        targets_count_s(dcs) <= u32::MAX,
        targets_count_s(tcs) <= u32::MAX,
        incidence_within_capacity_s(dcs, ps.len()),
        incidence_within_capacity_s(tcs, ps.len()),
    ensures
        gpu_advance_s(ps, dcs, tcs, h, n) == crate::cpu::advance_s(
            ps,
            dcs,
            tcs,
            h,
            crate::cpu::SolverType::Jacobi,
            n,
        ),
    decreases n,
{
    if n == 0 {
    } else {
        law_gpu_advance_matches_cpu_jacobi(ps, dcs, tcs, h, (n - 1) as nat);
        let prev = crate::cpu::advance_s(ps, dcs, tcs, h, crate::cpu::SolverType::Jacobi, (n
            - 1) as nat);
        crate::laws::lemma_advance_len(ps, dcs, tcs, h, crate::cpu::SolverType::Jacobi, (n
            - 1) as nat);
        law_gpu_substep_matches_cpu_jacobi(prev, dcs, tcs, h);
    }
}

/// One full GPU Jacobi pass over one constraint array, as the three dispatches
/// (clear, solve-scatter, add-deltas) compute it.
pub fn gpu_jacobi_pass<C: Constraint>(
    particles: &mut Vec<Particle>,
    constraints: &Vec<C>,
    h: i64,
)
    requires
        forall|k: int|
            0 <= k < constraints@.len() ==> indices_in_range(
                #[trigger] constraints@[k].model_indices(),
                old(particles)@.len(),
            ),
    ensures
        final(particles)@ == gpu_jacobi_pass_s(old(particles)@, constraints@, h),
        final(particles)@.len() == old(particles)@.len(),
{
    let mut results = cleared_results(particles.len());
    gpu_solve_scatter(particles, constraints, &mut results, h);
    gpu_add_deltas(particles, &results);
}

/// One GPU substep, as the dispatches of [`substep_schedule_s`] compute it in
/// their recorded order.
pub fn gpu_substep(
    particles: &mut Vec<Particle>,
    distance_constraints: &Vec<DistanceC>,
    tet_constraints: &Vec<TetrahedralVolumeC>,
    h: i64,
)
    requires
        forall|k: int|
            0 <= k < distance_constraints@.len() ==> indices_in_range(
                #[trigger] distance_constraints@[k].model_indices(),
                old(particles)@.len(),
            ),
        forall|k: int|
            0 <= k < tet_constraints@.len() ==> indices_in_range(
                #[trigger] tet_constraints@[k].model_indices(),
                old(particles)@.len(),
            ),
    ensures
        final(particles)@ == gpu_substep_s(
            old(particles)@,
            distance_constraints@,
            tet_constraints@,
            h,
        ),
        final(particles)@.len() == old(particles)@.len(),
{
    crate::cpu::presolve_pass(particles, h);
    gpu_jacobi_pass(particles, distance_constraints, h);
    gpu_jacobi_pass(particles, tet_constraints, h);
    crate::cpu::postsolve_pass(particles, h);
}

/// The reference semantics of a whole GPU `simulate` call: `substeps` equal
/// substeps of size `delta / substeps`.
pub fn gpu_advance(
    particles: &mut Vec<Particle>,
    distance_constraints: &Vec<DistanceC>,
    tet_constraints: &Vec<TetrahedralVolumeC>,
    substeps: u32,
    delta: i64,
)
    requires
        substeps >= 1,
        delta > 0,
        forall|k: int|
            0 <= k < distance_constraints@.len() ==> indices_in_range(
                #[trigger] distance_constraints@[k].model_indices(),
                old(particles)@.len(),
            ),
        forall|k: int|
            0 <= k < tet_constraints@.len() ==> indices_in_range(
                #[trigger] tet_constraints@[k].model_indices(),
                old(particles)@.len(),
            ),
    ensures
        final(particles)@ == gpu_advance_s(
            old(particles)@,
            distance_constraints@,
            tet_constraints@,
            crate::cpu::sub_h(delta, substeps),
            substeps as nat,
        ),
        final(particles)@.len() == old(particles)@.len(),
{
    proof {
        assert(0 < (substeps as int) * (crate::SCALE as int) <= i64::MAX) by (nonlinear_arith)
            requires
                1 <= substeps <= u32::MAX,
                crate::SCALE == 1_000_000,
        ;
    }
    let steps_fx = crate::fx::sat_from_i128((substeps as i128) * (crate::SCALE as i128));
    let sub_delta = crate::fx::fx_div(delta, steps_fx);
    proof {
        assert(sub_delta == crate::cpu::sub_h(delta, substeps));
    }
    let ghost ps0 = particles@;
    let mut step: u32 = 0;
    while step < substeps
        invariant
            step <= substeps,
            particles@.len() == ps0.len(),
            forall|k: int|
                0 <= k < distance_constraints@.len() ==> indices_in_range(
                    #[trigger] distance_constraints@[k].model_indices(),
                    ps0.len(),
                ),
            forall|k: int|
                0 <= k < tet_constraints@.len() ==> indices_in_range(
                    #[trigger] tet_constraints@[k].model_indices(),
                    ps0.len(),
                ),
            particles@ == gpu_advance_s(
                ps0,
                distance_constraints@,
                tet_constraints@,
                sub_delta,
                step as nat,
            ),
        decreases substeps - step,
    {
        gpu_substep(particles, distance_constraints, tet_constraints, sub_delta);
        step = step + 1;
    }
}

/// Occurrences of `idx` in an index list.
pub open spec fn count_eq_s(idxs: Seq<u32>, idx: u32) -> nat
    decreases idxs.len(),
{
    if idxs.len() == 0 {
        0
    } else {
        count_eq_s(idxs.drop_last(), idx) + (if idxs.last() == idx {
            1nat
        } else {
            0nat
        })
    }
}

/// Per-particle constraint incidence: how many corrections one Jacobi pass
/// over `cs` sends to particle `idx`.
pub open spec fn incidence_s<C: Constraint>(cs: Seq<C>, idx: u32) -> nat
    decreases cs.len(),
{
    if cs.len() == 0 {
        0
    } else {
        incidence_s(cs.drop_last(), idx) + count_eq_s(cs.last().model_indices(), idx)
    }
}

/// Matching counts add over concatenation.
proof fn lemma_matching_count_concat(a: Seq<ConstraintDelta>, b: Seq<ConstraintDelta>, idx: u32)
    ensures
        matching_count_s(a + b, idx) == matching_count_s(a, idx) + matching_count_s(b, idx),
    decreases b.len(),
{
    if b.len() == 0 {
        assert(a + b =~= a);
    } else {
        lemma_matching_count_concat(a, b.drop_last(), idx);
        assert((a + b).drop_last() =~= a + b.drop_last());
        assert((a + b).last() == b.last());
    }
}

/// A list of corrections targets `idx` exactly as often as its target list
/// names it.
proof fn lemma_matching_count_by_targets(ds: Seq<ConstraintDelta>, idxs: Seq<u32>, idx: u32)
    requires
        ds.len() == idxs.len(),
        forall|k: int| 0 <= k < ds.len() ==> (#[trigger] ds[k]).particle_idx == idxs[k],
    ensures
        matching_count_s(ds, idx) == count_eq_s(idxs, idx),
    decreases ds.len(),
{
    if ds.len() == 0 {
    } else {
        lemma_matching_count_by_targets(ds.drop_last(), idxs.drop_last(), idx);
    }
}

/// The corrections of one Jacobi phase target each particle exactly its
/// incidence many times.
pub proof fn lemma_jacobi_incidence<C: Constraint>(ps: Seq<Particle>, cs: Seq<C>, h: i64, idx: u32)
    ensures
        matching_count_s(jacobi_deltas_s(ps, cs, h), idx) == incidence_s(cs, idx),
    decreases cs.len(),
{
    if cs.len() == 0 {
    } else {
        lemma_jacobi_incidence(ps, cs.drop_last(), h, idx);
        let front = jacobi_deltas_s(ps, cs.drop_last(), h);
        let back = spec_solve(cs.last(), ps, h);
        lemma_matching_count_concat(front, back, idx);
        lemma_matching_count_by_targets(back, cs.last().model_indices(), idx);
    }
}

/// An incidence capped at one past the accumulator capacity, so that a
/// counter bounded by it cannot overflow.
pub open spec fn cap65(n: nat) -> nat {
    if n > 65 {
        65
    } else {
        n
    }
}

/// Rejections at scene validation.
#[derive(Clone, Copy, Debug, PartialEq, Eq, Structural)]
pub enum SceneError {
    /// A constraint addresses a particle index at or past the particle count.
    ParticleIndexOutOfRange,
    /// Some particle is targeted by more corrections in one pass than its
    /// accumulator can hold, so the GPU path would silently drop corrections.
    AccumulatorCapacityExceeded,
}

/// Every constraint of the array addresses existing particles.
pub open spec fn constraints_in_range_s<C: Constraint>(cs: Seq<C>, n: nat) -> bool {
    forall|k: int| 0 <= k < cs.len() ==> indices_in_range(#[trigger] cs[k].model_indices(), n)
}

/// No particle's incidence under `cs` exceeds the accumulator capacity.
pub open spec fn incidence_within_capacity_s<C: Constraint>(cs: Seq<C>, n: nat) -> bool {
    forall|i: int| 0 <= i < n ==> #[trigger] incidence_s(cs, i as u32) <= 64
}

/// Checks that every index of every constraint is below the particle count.
fn check_indices<C: Constraint>(particles_n: usize, constraints: &Vec<C>) -> (r: bool)
    ensures
        r <==> constraints_in_range_s(constraints@, particles_n as nat),
{
    let mut ci: usize = 0;
    while ci < constraints.len()
        invariant
            ci <= constraints@.len(),
            forall|k: int|
                0 <= k < ci ==> indices_in_range(
                    #[trigger] constraints@[k].model_indices(),
                    particles_n as nat,
                ),
        decreases constraints@.len() - ci,
    {
        let idxs = constraints[ci].particles_idx();
        let mut k: usize = 0;
        while k < idxs.len()
            invariant
                idxs@ == constraints@[ci as int].model_indices(),
                ci < constraints@.len(),
                k <= idxs@.len(),
                forall|t: int| 0 <= t < k ==> (idxs@[t] as nat) < particles_n as nat,
            decreases idxs@.len() - k,
        {
            if idxs[k] as usize >= particles_n {
                return false;
            }
            k = k + 1;
        }
        ci = ci + 1;
    }
    true
}

/// Counts, capped just past capacity, how often each particle is targeted,
/// and checks the result against the accumulator capacity.
fn check_incidence<C: Constraint>(particles_n: usize, constraints: &Vec<C>) -> (r: bool)
    requires
        particles_n <= u32::MAX,
        constraints_in_range_s(constraints@, particles_n as nat),
    ensures
        r <==> incidence_within_capacity_s(constraints@, particles_n as nat),
{
    let ghost cs = constraints@;
    let mut counts: Vec<u32> = Vec::new();
    let mut i: usize = 0;
    while i < particles_n
        invariant
            i <= particles_n,
            counts@.len() == i,
            forall|t: int| 0 <= t < i ==> counts@[t] == 0,
        decreases particles_n - i,
    {
        counts.push(0);
        i = i + 1;
    }
    proof {
        assert forall|t: int| 0 <= t < particles_n implies counts@[t] == cap65(
            incidence_s(cs.take(0), (t as u32)),
        ) by {
            assert(incidence_s(cs.take(0), (t as u32)) == 0);
        }
    }
    let mut ci: usize = 0;
    while ci < constraints.len()
        invariant
            particles_n <= u32::MAX,
            cs == constraints@,
            constraints_in_range_s(cs, particles_n as nat),
            ci <= cs.len(),
            counts@.len() == particles_n,
            forall|t: int|
                0 <= t < particles_n ==> counts@[t] == cap65(
                    incidence_s(cs.take(ci as int), (t as u32)),
                ),
        decreases cs.len() - ci,
    {
        let idxs = constraints[ci].particles_idx();
        let mut k: usize = 0;
        while k < idxs.len()
            invariant
                particles_n <= u32::MAX,
                cs == constraints@,
                ci < cs.len(),
                idxs@ == cs[ci as int].model_indices(),
                indices_in_range(idxs@, particles_n as nat),
                k <= idxs@.len(),
                counts@.len() == particles_n,
                forall|t: int|
                    0 <= t < particles_n ==> counts@[t] == cap65(
                        incidence_s(cs.take(ci as int), (t as u32)) + count_eq_s(
                            idxs@.take(k as int),
                            (t as u32),
                        ),
                    ),
            decreases idxs@.len() - k,
        {
            proof {
                assert(idxs@.take(k as int + 1).drop_last() =~= idxs@.take(k as int));
                assert((idxs@[k as int] as nat) < particles_n as nat);
            }
            let target = idxs[k] as usize;
            let c = counts[target];
            if c < 65 {
                counts[target] = c + 1;
            }
            k = k + 1;
        }
        proof {
            assert(idxs@.take(idxs@.len() as int) =~= idxs@);
            assert(cs.take(ci as int + 1).drop_last() =~= cs.take(ci as int));
            assert(cs.take(ci as int + 1).last() == cs[ci as int]);
        }
        ci = ci + 1;
    }
    proof {
        assert(cs.take(cs.len() as int) =~= cs);
    }
    let mut i: usize = 0;
    while i < particles_n
        invariant
            particles_n <= u32::MAX,
            cs == constraints@,
            counts@.len() == particles_n,
            forall|t: int| 0 <= t < particles_n ==> counts@[t] == cap65(incidence_s(cs, (t as u32))),
            i <= particles_n,
            forall|t: int| 0 <= t < i ==> #[trigger] incidence_s(cs, t as u32) <= 64,
        decreases particles_n - i,
    {
        if counts[i] > 64 {
            proof {
                let t = i as int;
                assert(counts@[t] == cap65(incidence_s(cs, (t as u32))));
                assert(incidence_s(cs, (t as u32)) > 64);
                assert(!incidence_within_capacity_s(cs, particles_n as nat));
            }
            return false;
        }
        i = i + 1;
    }
    true
}

/// Validates a scene for the GPU path: every constraint index must address an
/// existing particle, and no particle may be targeted by more corrections per
/// pass (per constraint type) than its accumulator holds; says exactly which
/// check failed, index validity first.
pub fn validate_scene(
    particles_n: usize,
    distance_constraints: &Vec<DistanceC>,
    tet_constraints: &Vec<TetrahedralVolumeC>,
) -> (r: Result<(), SceneError>)
    requires
        particles_n <= u32::MAX,
    ensures
        ({
            let ok_idx = constraints_in_range_s(distance_constraints@, particles_n as nat)
                && constraints_in_range_s(tet_constraints@, particles_n as nat);
            let ok_cap = incidence_within_capacity_s(distance_constraints@, particles_n as nat)
                && incidence_within_capacity_s(tet_constraints@, particles_n as nat);
            &&& (r == Ok::<(), SceneError>(()) <==> ok_idx && ok_cap)
            &&& (r == Err::<(), SceneError>(SceneError::ParticleIndexOutOfRange) <==> !ok_idx)
            &&& (r == Err::<(), SceneError>(SceneError::AccumulatorCapacityExceeded) <==> ok_idx
                && !ok_cap)
        }),
{
    if !check_indices(particles_n, distance_constraints) || !check_indices(
        particles_n,
        tet_constraints,
    ) {
        return Err(SceneError::ParticleIndexOutOfRange);
    }
    if !check_incidence(particles_n, distance_constraints) || !check_incidence(
        particles_n,
        tet_constraints,
    ) {
        return Err(SceneError::AccumulatorCapacityExceeded);
    }
    Ok(())
}

/// Workgroups dispatched for `count` threads' worth of work: the integer
/// quotient by the workgroup size, plus one group of overprovisioning so the
/// kernels' bound checks cover every index.
pub fn workgroup_count(count: u64) -> (r: u32)
    requires
        count as int / WORKGROUP_SIZE as int + 1 <= u32::MAX,
    ensures
        r == count as int / WORKGROUP_SIZE as int + 1,
        (r as int) * (WORKGROUP_SIZE as int) > count,
{
    proof {
        vstd::arithmetic::div_mod::lemma_fundamental_div_mod(count as int, WORKGROUP_SIZE as int);
    }
    (count / WORKGROUP_SIZE + 1) as u32
}

/// One dispatch of a substep, with its workgroup count.
#[derive(Clone, Copy, Debug, PartialEq, Eq, Structural)]
pub enum GpuPass {
    ClearDistanceResults,
    ClearTetResults,
    Presolve { workgroups: u32 },
    SolveDistance { workgroups: u32 },
    SolveTet { workgroups: u32 },
    AddDeltasDistance { workgroups: u32 },
    AddDeltasTet { workgroups: u32 },
    Postsolve { workgroups: u32 },
}

/// The per-substep dispatch order the host records: clear both accumulators,
/// predict, then run the whole distance pass (solve and aggregate) before the
/// volume solve reads positions — the observable guarantee that distance
/// constraints resolve first, and the order under which the device realizes
/// [`gpu_substep_s`] and so agrees exactly with the sequential Jacobi path —
/// then the volume pass, then velocity inference.
pub open spec fn substep_schedule_s(pw: u32, dw: u32, tw: u32) -> Seq<GpuPass> {
    seq![
        GpuPass::ClearDistanceResults,
        GpuPass::ClearTetResults,
        GpuPass::Presolve { workgroups: pw },
        GpuPass::SolveDistance { workgroups: dw },
        GpuPass::AddDeltasDistance { workgroups: pw },
        GpuPass::SolveTet { workgroups: tw },
        GpuPass::AddDeltasTet { workgroups: pw },
        GpuPass::Postsolve { workgroups: pw },
    ]
}

/// Builds one substep's dispatch list from the scene's element counts.
pub fn substep_schedule(particles_n: u64, distance_n: u64, tet_n: u64) -> (r: Vec<GpuPass>)
    requires
        particles_n as int / WORKGROUP_SIZE as int + 1 <= u32::MAX,
        distance_n as int / WORKGROUP_SIZE as int + 1 <= u32::MAX,
        tet_n as int / WORKGROUP_SIZE as int + 1 <= u32::MAX,
    ensures
        r@ == substep_schedule_s(
            (particles_n as int / WORKGROUP_SIZE as int + 1) as u32,
            (distance_n as int / WORKGROUP_SIZE as int + 1) as u32,
            (tet_n as int / WORKGROUP_SIZE as int + 1) as u32,
        ),
{
    let pw = workgroup_count(particles_n);
    let dw = workgroup_count(distance_n);
    let tw = workgroup_count(tet_n);
    let mut r: Vec<GpuPass> = Vec::new();
    r.push(GpuPass::ClearDistanceResults);
    r.push(GpuPass::ClearTetResults);
    r.push(GpuPass::Presolve { workgroups: pw });
    r.push(GpuPass::SolveDistance { workgroups: dw });
    r.push(GpuPass::AddDeltasDistance { workgroups: pw });
    r.push(GpuPass::SolveTet { workgroups: tw });
    r.push(GpuPass::AddDeltasTet { workgroups: pw });
    r.push(GpuPass::Postsolve { workgroups: pw });
    proof {
        assert(r@ =~= substep_schedule_s(pw, dw, tw));
    }
    r
}

} // verus!

