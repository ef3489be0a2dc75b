//! Soft-body physics: an XPBD (extended position-based dynamics) solver over
//! fixed-point coordinates.
//!
//! Particle state and constraint geometry are held in micro-units: one
//! coordinate unit is `SCALE` raw ticks of an `i64`. All solver arithmetic is
//! saturating fixed-point arithmetic, specified exactly, so every advance of
//! the integrator is a total, verified function of its inputs.

use vstd::prelude::*;

pub mod cpu;
pub mod fx;
pub mod gpu;
pub mod laws;
pub mod vec3;

use crate::vec3::Vec3;

verus! {

/// Raw ticks per coordinate unit of the fixed-point representation.
pub const SCALE: i64 = 1_000_000;

/// A point mass. `inv_mass == 0` marks a pinned (infinite-mass) particle.
#[derive(Clone, Copy, Debug)]
pub struct Particle {
    pub prev_position: Vec3,
    pub position: Vec3,
    pub velocity: Vec3,
    pub ext_acc: Vec3,
    pub inv_mass: i64,
}

impl Particle {
    /// A particle at rest at `position` with the given inverse mass.
    pub fn new(position: Vec3, inv_mass: i64) -> (r: Particle)
        ensures
            r == (Particle {
                prev_position: position,
                position,
                velocity: crate::vec3::vzero(),
                ext_acc: crate::vec3::vzero(),
                inv_mass,
            }),
    {
        Particle {
            prev_position: position,
            position,
            velocity: Vec3 { x: 0, y: 0, z: 0 },
            ext_acc: Vec3 { x: 0, y: 0, z: 0 },
            inv_mass,
        }
    }
}

/// Couples two particles at a rest separation, with the given compliance
/// (inverse stiffness; `0` is perfectly rigid).
#[derive(Clone, Copy, Debug)]
pub struct DistanceC {
    pub particles_idx: [u32; 2],
    pub rest_distance: i64,
    pub compliance: i64,
}

impl DistanceC {
    /// Builds the constraint from its particle pair, rest separation and
    /// compliance.
    pub fn new(particles_idx: [u32; 2], rest_distance: i64, compliance: i64) -> (r: DistanceC)
        ensures
            r == (DistanceC { particles_idx, rest_distance, compliance }),
    {
        DistanceC { particles_idx, rest_distance, compliance }
    }
}

/// Couples four particles forming a tetrahedron with a signed rest volume.
#[derive(Clone, Copy, Debug)]
pub struct TetrahedralVolumeC {
    pub particles_idx: [u32; 4],
    pub rest_volume: i64,
    pub compliance: i64,
}

impl TetrahedralVolumeC {
    /// Builds the constraint from its particle quadruple, rest volume and
    /// compliance. A negative rest volume is a configuration error and is
    /// excluded here.
    pub fn new(particles_idx: [u32; 4], rest_volume: i64, compliance: i64) -> (r:
        TetrahedralVolumeC)
        requires
            rest_volume >= 0,
        ensures
            r == (TetrahedralVolumeC { particles_idx, rest_volume, compliance }),
    {
        TetrahedralVolumeC { particles_idx, rest_volume, compliance }
    }
}

/// A single positional correction produced by one constraint, targeting one
/// particle.
#[derive(Clone, Copy, Debug)]
pub struct ConstraintDelta {
    pub delta: Vec3,
    pub particle_idx: u32,
}

} // verus!
