use vstd::prelude::*;

use crate::binary::single::Binary32;
use crate::linalg::Mat2;
use crate::linalg::Vec2;

verus! {

/// The state of one material point.
#[derive(Clone, Copy, Debug, PartialEq, Eq, Structural)]
pub struct Particle {
    pub x: Vec2,
    pub v: Vec2,
    /// The local velocity gradient `C`.
    pub velocity_gradient: Mat2,
    /// The deformation gradient `F`.
    pub deformation_gradient: Mat2,
    pub mass: Binary32,
    /// Reference volume `V0`.
    pub initial_volume: Binary32,
    /// Current volume `V = J * V0`.
    pub volume: Binary32,
    pub density: Binary32,
    pub material_id: u32,
    pub plastic_volume_ratio: Binary32,
    pub hardening_scale: Binary32,
    pub friction_hardening: Binary32,
    pub log_volume_strain: Binary32,
    pub temperature: Binary32,
    pub scalar_field: Binary32,
    pub user_tag: u32,
    pub activation: Binary32,
    pub activation_dir: Vec2,
    pub muscle_group_id: u32,
    pub contact_group: u32,
    pub sleeping: u32,
    pub pinned: u32,
    pub internal_pressure: Binary32,
}

impl Particle {
    /// All fields zero.
    #[verifier::allow_in_spec]
    pub fn zeroed() -> Particle
        returns
            (Particle {
                x: Vec2::splat(Binary32::zero()),
                v: Vec2::splat(Binary32::zero()),
                velocity_gradient: Mat2::zero(),
                deformation_gradient: Mat2::zero(),
                mass: Binary32::zero(),
                initial_volume: Binary32::zero(),
                volume: Binary32::zero(),
                density: Binary32::zero(),
                material_id: 0,
                plastic_volume_ratio: Binary32::zero(),
                hardening_scale: Binary32::zero(),
                friction_hardening: Binary32::zero(),
                log_volume_strain: Binary32::zero(),
                temperature: Binary32::zero(),
                scalar_field: Binary32::zero(),
                user_tag: 0,
                activation: Binary32::zero(),
                activation_dir: Vec2::splat(Binary32::zero()),
                muscle_group_id: 0,
                contact_group: 0,
                sleeping: 0,
                pinned: 0,
                internal_pressure: Binary32::zero(),
            }),
    {
        Particle {
            x: Vec2::splat(Binary32::zero()),
            v: Vec2::splat(Binary32::zero()),
            velocity_gradient: Mat2::zero(),
            deformation_gradient: Mat2::zero(),
            mass: Binary32::zero(),
            initial_volume: Binary32::zero(),
            volume: Binary32::zero(),
            density: Binary32::zero(),
            material_id: 0,
            plastic_volume_ratio: Binary32::zero(),
            hardening_scale: Binary32::zero(),
            friction_hardening: Binary32::zero(),
            log_volume_strain: Binary32::zero(),
            temperature: Binary32::zero(),
            scalar_field: Binary32::zero(),
            user_tag: 0,
            activation: Binary32::zero(),
            activation_dir: Vec2::splat(Binary32::zero()),
            muscle_group_id: 0,
            contact_group: 0,
            sleeping: 0,
            pinned: 0,
            internal_pressure: Binary32::zero(),
        }
    }
}

/// The scales of a simulation that the SI constructors read.
#[derive(Clone, Copy, Debug, PartialEq, Eq, Structural)]
pub struct SimConfig {
    /// Width of a grid cell in metres.
    pub dx_meters: Binary32,
    /// Length of a step in seconds.
    pub dt_seconds: Binary32,
    /// The density that one grid unit of density stands for.
    pub reference_density_kg_m3: Binary32,
}

impl SimConfig {
    /// The cell width is a positive number of metres.
    pub open spec fn has_cell_width(self) -> bool {
        self.dx_meters.is_finite() && self.dx_meters.gt(Binary32::zero())
    }
}

} // verus!
