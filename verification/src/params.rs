use vstd::prelude::*;

use crate::binary::single::Binary32;

verus! {

/// Number of 32-bit words of an uploaded [`MaterialParams`].
pub const PARAMS_WORDS: usize = 28;

/// Flat parameters of one material slot.
///
/// The layout is a union: only the fields that the constitutive model reads are
/// filled, all others are zero. `model` is the discriminant of the constitutive
/// model and is always set. An upload is the fields in order, one word each.
#[derive(Clone, Copy, Debug, PartialEq, Eq)]
pub struct MaterialParams {
    /// Discriminant of the constitutive model.
    pub model: u32,
    /// First Lame parameter.
    pub lambda: Binary32,
    /// Second Lame parameter (shear modulus).
    pub mu: Binary32,
    /// Hardening exponent; yield stress of a J2 material.
    pub hardening_exponent: Binary32,
    /// Compression limit; yield stress of a Bingham fluid, dilatancy angle of sand.
    pub compression_limit: Binary32,
    /// Stretch limit; friction of Cam-Clay.
    pub stretch_limit: Binary32,
    /// Density at which the equation of state gives no pressure.
    pub rest_density: Binary32,
    /// Stiffness of the equation of state.
    pub eos_stiffness: Binary32,
    /// Exponent of the equation of state.
    pub eos_power: Binary32,
    /// Dynamic viscosity.
    pub dynamic_viscosity: Binary32,
    /// Lower bound of the volume ratio.
    pub volume_ratio_min: Binary32,
    /// Upper bound of the volume ratio.
    pub volume_ratio_max: Binary32,
    /// Initial friction angle; settling damping of a fluid.
    pub dp_h0: Binary32,
    pub dp_h1: Binary32,
    pub dp_h2: Binary32,
    pub dp_h3: Binary32,
    /// Active stress per unit of activation.
    pub active_stress_coeff: Binary32,
    /// Linear hardening modulus of a J2 material.
    pub hardening_modulus: Binary32,
    /// Rate of thermal thinning.
    pub thermal_viscosity_coeff: Binary32,
    /// Relative change of the moduli per kelvin.
    pub thermal_expansion: Binary32,
    /// Lower bound of the pressure.
    pub pressure_floor: Binary32,
    /// Bulk viscosity.
    pub bulk_viscosity: Binary32,
    /// Shear rate below which a Bingham fluid is rigid.
    pub critical_shear_rate: Binary32,
    /// Cohesion; damage softening rate of a Neo-Hookean solid.
    pub cohesion_coeff: Binary32,
    /// One if the material keeps volume and density itself, else zero.
    pub owns_deformation_volume_state: u32,
    /// Reserved, zero.
    pub _pad: (u32, u32, u32),
}

impl MaterialParams {
    /// The words of the upload, in order.
    pub open spec fn layout(self) -> Seq<u32> {
        seq![
            self.model,
            self.lambda.bits,
            self.mu.bits,
            self.hardening_exponent.bits,
            self.compression_limit.bits,
            self.stretch_limit.bits,
            self.rest_density.bits,
            self.eos_stiffness.bits,
            self.eos_power.bits,
            self.dynamic_viscosity.bits,
            self.volume_ratio_min.bits,
            self.volume_ratio_max.bits,
            self.dp_h0.bits,
            self.dp_h1.bits,
            self.dp_h2.bits,
            self.dp_h3.bits,
            self.active_stress_coeff.bits,
            self.hardening_modulus.bits,
            self.thermal_viscosity_coeff.bits,
            self.thermal_expansion.bits,
            self.pressure_floor.bits,
            self.bulk_viscosity.bits,
            self.critical_shear_rate.bits,
            self.cohesion_coeff.bits,
            self.owns_deformation_volume_state,
            self._pad.0,
            self._pad.1,
            self._pad.2,
        ]
    }

    /// All zero: the parameters of a material that sets none.
    #[verifier::allow_in_spec]
    pub fn zeroed() -> MaterialParams
        returns
            (MaterialParams {
                model: 0,
                lambda: Binary32::zero(),
                mu: Binary32::zero(),
                hardening_exponent: Binary32::zero(),
                compression_limit: Binary32::zero(),
                stretch_limit: Binary32::zero(),
                rest_density: Binary32::zero(),
                eos_stiffness: Binary32::zero(),
                eos_power: Binary32::zero(),
                dynamic_viscosity: Binary32::zero(),
                volume_ratio_min: Binary32::zero(),
                volume_ratio_max: Binary32::zero(),
                dp_h0: Binary32::zero(),
                dp_h1: Binary32::zero(),
                dp_h2: Binary32::zero(),
                dp_h3: Binary32::zero(),
                active_stress_coeff: Binary32::zero(),
                hardening_modulus: Binary32::zero(),
                thermal_viscosity_coeff: Binary32::zero(),
                thermal_expansion: Binary32::zero(),
                pressure_floor: Binary32::zero(),
                bulk_viscosity: Binary32::zero(),
                critical_shear_rate: Binary32::zero(),
                cohesion_coeff: Binary32::zero(),
                owns_deformation_volume_state: 0,
                _pad: (0, 0, 0),
            }),
    {
        MaterialParams {
            model: 0,
            lambda: Binary32::zero(),
            mu: Binary32::zero(),
            hardening_exponent: Binary32::zero(),
            compression_limit: Binary32::zero(),
            stretch_limit: Binary32::zero(),
            rest_density: Binary32::zero(),
            eos_stiffness: Binary32::zero(),
            eos_power: Binary32::zero(),
            dynamic_viscosity: Binary32::zero(),
            volume_ratio_min: Binary32::zero(),
            volume_ratio_max: Binary32::zero(),
            dp_h0: Binary32::zero(),
            dp_h1: Binary32::zero(),
            dp_h2: Binary32::zero(),
            dp_h3: Binary32::zero(),
            active_stress_coeff: Binary32::zero(),
            hardening_modulus: Binary32::zero(),
            thermal_viscosity_coeff: Binary32::zero(),
            thermal_expansion: Binary32::zero(),
            pressure_floor: Binary32::zero(),
            bulk_viscosity: Binary32::zero(),
            critical_shear_rate: Binary32::zero(),
            cohesion_coeff: Binary32::zero(),
            owns_deformation_volume_state: 0,
            _pad: (0, 0, 0),
        }
    }

    /// The words of the upload.
    pub fn words(&self) -> (r: Vec<u32>)
        ensures
            r@ == self.layout(),
            r.len() == PARAMS_WORDS,
    {
        let r: Vec<u32> = vec![
            self.model,
            self.lambda.bits,
            self.mu.bits,
            self.hardening_exponent.bits,
            self.compression_limit.bits,
            self.stretch_limit.bits,
            self.rest_density.bits,
            self.eos_stiffness.bits,
            self.eos_power.bits,
            self.dynamic_viscosity.bits,
            self.volume_ratio_min.bits,
            self.volume_ratio_max.bits,
            self.dp_h0.bits,
            self.dp_h1.bits,
            self.dp_h2.bits,
            self.dp_h3.bits,
            self.active_stress_coeff.bits,
            self.hardening_modulus.bits,
            self.thermal_viscosity_coeff.bits,
            self.thermal_expansion.bits,
            self.pressure_floor.bits,
            self.bulk_viscosity.bits,
            self.critical_shear_rate.bits,
            self.cohesion_coeff.bits,
            self.owns_deformation_volume_state,
            self._pad.0,
            self._pad.1,
            self._pad.2,
        ];
        proof {
            assert(r@ =~= self.layout());
        }
        r
    }
}

impl Default for MaterialParams {
    fn default() -> (r: MaterialParams)
        ensures
            r == MaterialParams::zeroed(),
    {
        MaterialParams::zeroed()
    }
}

/// An upload determines the parameters: different parameters differ in a word.
pub proof fn law_layout_is_injective(a: MaterialParams, b: MaterialParams)
    requires
        a.layout() == b.layout(),
    ensures
        a == b,
{
    let s = a.layout();
    let t = b.layout();
    assert(s[0] == t[0] && s[1] == t[1] && s[2] == t[2] && s[3] == t[3]);
    assert(s[4] == t[4] && s[5] == t[5] && s[6] == t[6] && s[7] == t[7]);
    assert(s[8] == t[8] && s[9] == t[9] && s[10] == t[10] && s[11] == t[11]);
    assert(s[12] == t[12] && s[13] == t[13] && s[14] == t[14] && s[15] == t[15]);
    assert(s[16] == t[16] && s[17] == t[17] && s[18] == t[18] && s[19] == t[19]);
    assert(s[20] == t[20] && s[21] == t[21] && s[22] == t[22] && s[23] == t[23]);
    assert(s[24] == t[24] && s[25] == t[25] && s[26] == t[26] && s[27] == t[27]);
}

} // verus!
