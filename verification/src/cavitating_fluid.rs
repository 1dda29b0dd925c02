use vstd::prelude::*;

use crate::binary::single::Binary32;
use crate::binary::single::half;
use crate::cavitating_eos::CavitatingEosParams;
use crate::cavitating_table::CavitatingEosTable;
use crate::linalg::Mat2;
use crate::mechanics::MICRO;
use crate::mechanics::NANO;
use crate::mechanics::acoustic_bound;
use crate::mechanics::bounded_density;
use crate::mechanics::entry_ratio;
use crate::mechanics::isotropic_deformation;
use crate::mechanics::seeded;
use crate::mechanics::shear_stress;
use crate::mechanics::step_ratio;
use crate::mechanics::stepped_ratio;
use crate::mechanics::viscous_bound;
use crate::mechanics::von_neumann_richtmyer_q;
use crate::mechanics::with_volume_ratio;
use crate::model::ConstitutiveModel;
use crate::model::MaterialModel;
use crate::model::Response;
use crate::numerics::Numerics;
use crate::params::MaterialParams;
use crate::particle::Particle;

verus! {

/// A cell width that densities can be taken to the grid with.
pub open spec fn is_cell_width(dx_meters: Binary32) -> bool {
    dx_meters.is_finite() && dx_meters.gt(Binary32::zero())
}

/// Bounds of a volume ratio: positive and in order.
pub open spec fn is_ratio_range(lo: Binary32, hi: Binary32) -> bool {
    lo.gt(Binary32::zero()) && hi.gt(lo)
}

/// What a fluid on the grid needs to know to move a particle: its rest density and
/// the bounds of volume ratio, density and volume.
#[derive(Clone, Copy, Debug, PartialEq, Eq, Structural)]
pub struct GridFluid {
    pub rest_density: Binary32,
    pub dx_meters: Binary32,
    pub dynamic_viscosity: Binary32,
    pub min_density: Binary32,
    pub min_volume: Binary32,
    pub volume_ratio_min: Binary32,
    pub volume_ratio_max: Binary32,
}

impl GridFluid {
    /// The bounds of the volume ratio are in order.
    pub open spec fn wf(&self) -> bool {
        self.volume_ratio_min.le(self.volume_ratio_max)
    }

    /// A fluid of SI rest density on a grid of cell width `dx_meters`.
    #[verifier::allow_in_spec]
    pub fn new(
        rho_kg_m3: Binary32,
        dx_meters: Binary32,
        dynamic_viscosity: Binary32,
        volume_ratio_min: Binary32,
        volume_ratio_max: Binary32,
    ) -> GridFluid
        returns
            (GridFluid {
                rest_density: rho_kg_m3.mul(dx_meters).mul(dx_meters),
                dx_meters,
                dynamic_viscosity,
                min_density: Binary32::from_bits(MICRO),
                min_volume: Binary32::from_bits(NANO),
                volume_ratio_min,
                volume_ratio_max,
            }),
    {
        GridFluid {
            rest_density: rho_kg_m3.mul(dx_meters).mul(dx_meters),
            dx_meters,
            dynamic_viscosity,
            min_density: Binary32::from_bits(MICRO),
            min_volume: Binary32::from_bits(NANO),
            volume_ratio_min,
            volume_ratio_max,
        }
    }

    /// The SI value of a grid quantity with the factor `dx^2`.
    #[verifier::allow_in_spec]
    pub fn per_area(&self, grid: Binary32) -> Binary32
        returns
            grid.div(self.dx_meters.mul(self.dx_meters)),
    {
        grid.div(self.dx_meters.mul(self.dx_meters))
    }

    /// The density at volume ratio `j`: at most that at the smallest volume ratio.
    #[verifier::allow_in_spec]
    pub fn density_at(&self, j: Binary32) -> Binary32
        returns
            bounded_density(
                self.rest_density,
                j,
                self.min_density,
                self.rest_density.div(self.volume_ratio_min),
            ),
    {
        bounded_density(
            self.rest_density,
            j,
            self.min_density,
            self.rest_density.div(self.volume_ratio_min),
        )
    }

    /// The volume ratio that the stress is evaluated at.
    #[verifier::allow_in_spec]
    pub fn stress_ratio(&self, p: &Particle) -> Binary32
        returns
            p.deformation_gradient.determinant().max(Binary32::from_bits(MICRO)),
    {
        p.deformation_gradient.determinant().max(Binary32::from_bits(MICRO))
    }

    /// A particle that passes into this fluid.
    pub open spec fn entered(&self, p: Particle) -> Particle {
        let j = entry_ratio(p, self.rest_density, self.volume_ratio_min, self.volume_ratio_max);
        Particle {
            deformation_gradient: isotropic_deformation(j),
            initial_volume: p.mass.div(self.rest_density),
            volume: p.mass.div(self.rest_density).mul(j),
            density: self.rest_density.div(j),
            ..p
        }
    }

    /// A particle that passes into this fluid.
    pub fn enter(&self, p: Particle) -> (r: Particle)
        requires
            self.wf(),
        ensures
            r == self.entered(p),
    {
        let j = entry_ratio(p, self.rest_density, self.volume_ratio_min, self.volume_ratio_max);
        let initial_volume = p.mass.div(self.rest_density);
        Particle {
            deformation_gradient: isotropic_deformation(j),
            initial_volume,
            volume: initial_volume.mul(j),
            density: self.rest_density.div(j),
            ..p
        }
    }

    /// A particle after a step.
    pub open spec fn stepped<N: Numerics>(&self, p: Particle, dt: Binary32, n: &N) -> Particle {
        let j = stepped_ratio(p, dt, self.volume_ratio_min, self.volume_ratio_max, n);
        with_volume_ratio(p, j, self.density_at(j), self.min_volume)
    }

    /// A particle after a step.
    pub fn step<N: Numerics>(&self, p: Particle, dt: Binary32, n: &N) -> (r: Particle)
        requires
            self.wf(),
        ensures
            r == self.stepped(p, dt, n),
    {
        let j = step_ratio(&p, dt, self.volume_ratio_min, self.volume_ratio_max, n);
        with_volume_ratio(p, j, self.density_at(j), self.min_volume)
    }

    /// Pressure and shear.
    #[verifier::allow_in_spec]
    pub fn viscous_pressure_stress(&self, pressure: Binary32, p: &Particle) -> Mat2
        returns
            if self.dynamic_viscosity.gt(Binary32::zero()) {
                Mat2::isotropic(pressure.neg()).add(
                    shear_stress(self.dynamic_viscosity, p.velocity_gradient),
                )
            } else {
                Mat2::isotropic(pressure.neg())
            },
    {
        if self.dynamic_viscosity.gt(Binary32::zero()) {
            Mat2::isotropic(pressure.neg()).add(
                shear_stress(self.dynamic_viscosity, p.velocity_gradient),
            )
        } else {
            Mat2::isotropic(pressure.neg())
        }
    }

    /// The artificial viscosity at squared sound speed `c2`.
    #[verifier::allow_in_spec]
    pub fn shock_at(&self, p: &Particle, c2: Binary32, gamma: Binary32) -> Binary32
        returns
            von_neumann_richtmyer_q(
                self.rest_density,
                self.stress_ratio(p),
                half().mul(p.velocity_gradient.symmetrised().trace()),
                Binary32::one(),
                c2.max(Binary32::zero()).sqrt(),
                gamma,
            ),
    {
        von_neumann_richtmyer_q(
            self.rest_density,
            self.stress_ratio(p),
            half().mul(p.velocity_gradient.symmetrised().trace()),
            Binary32::one(),
            c2.max(Binary32::zero()).sqrt(),
            gamma,
        )
    }

    /// The step bound at squared sound speed `c2`.
    #[verifier::allow_in_spec]
    pub fn step_bound(
        &self,
        c2: Binary32,
        density: Binary32,
        cell_width: Binary32,
        material_cfl: Binary32,
        viscous_cfl: Binary32,
    ) -> Binary32
        returns
            viscous_bound(
                acoustic_bound(Binary32::infinity(), c2, cell_width, material_cfl),
                self.dynamic_viscosity,
                density.max(self.min_density),
                cell_width,
                viscous_cfl,
            ),
    {
        viscous_bound(
            acoustic_bound(Binary32::infinity(), c2, cell_width, material_cfl),
            self.dynamic_viscosity,
            density.max(self.min_density),
            cell_width,
            viscous_cfl,
        )
    }

    /// The parameters of a fluid that uploads as a plain Tait fluid.
    #[verifier::allow_in_spec]
    pub fn plain_params(&self, eos_power: Binary32) -> MaterialParams
        returns
            (MaterialParams {
                model: ConstitutiveModel::Fluid.discriminant(),
                rest_density: self.rest_density,
                dynamic_viscosity: self.dynamic_viscosity,
                eos_power,
                owns_deformation_volume_state: 1,
                ..MaterialParams::zeroed()
            }),
    {
        MaterialParams {
            model: ConstitutiveModel::Fluid.discriminant(),
            rest_density: self.rest_density,
            dynamic_viscosity: self.dynamic_viscosity,
            eos_power,
            owns_deformation_volume_state: 1,
            ..MaterialParams::zeroed()
        }
    }
}

/// Cavitating fluid at one temperature.
#[derive(Clone, Copy, Debug, PartialEq, Eq, Structural)]
pub struct IsothermalCavitatingFluidMaterial {
    pub eos: CavitatingEosParams,
    pub dx_meters: Binary32,
    pub dynamic_viscosity: Binary32,
    pub rest_density_grid: Binary32,
    pub min_density: Binary32,
    pub min_volume: Binary32,
    pub volume_ratio_min: Binary32,
    pub volume_ratio_max: Binary32,
}

/// The free parameters of an [`IsothermalCavitatingFluidMaterial`].
#[derive(Clone, Copy, Debug, PartialEq, Eq, Structural)]
pub struct IsothermalCavitatingFluidMaterialParams {
    pub eos: CavitatingEosParams,
    pub dx_meters: Binary32,
    pub dynamic_viscosity: Binary32,
    pub volume_ratio_min: Binary32,
    pub volume_ratio_max: Binary32,
}

impl IsothermalCavitatingFluidMaterial {
    /// The fluid on the grid.
    #[verifier::allow_in_spec]
    pub fn grid(&self) -> GridFluid
        returns
            (GridFluid {
                rest_density: self.rest_density_grid,
                dx_meters: self.dx_meters,
                dynamic_viscosity: self.dynamic_viscosity,
                min_density: self.min_density,
                min_volume: self.min_volume,
                volume_ratio_min: self.volume_ratio_min,
                volume_ratio_max: self.volume_ratio_max,
            }),
    {
        GridFluid {
            rest_density: self.rest_density_grid,
            dx_meters: self.dx_meters,
            dynamic_viscosity: self.dynamic_viscosity,
            min_density: self.min_density,
            min_volume: self.min_volume,
            volume_ratio_min: self.volume_ratio_min,
            volume_ratio_max: self.volume_ratio_max,
        }
    }

    /// The same as [`Self::new`] from a parameter struct.
    pub fn from_params(params: IsothermalCavitatingFluidMaterialParams) -> (r: Self)
        requires
            is_cell_width(params.dx_meters),
            is_ratio_range(params.volume_ratio_min, params.volume_ratio_max),
        ensures
            r.eos == params.eos,
            r.grid() == GridFluid::new(
                params.eos.rho_l_ref_kg_m3,
                params.dx_meters,
                params.dynamic_viscosity,
                params.volume_ratio_min,
                params.volume_ratio_max,
            ),
            r.grid().wf(),
    {
        Self::new(
            params.eos,
            params.dx_meters,
            params.dynamic_viscosity,
            params.volume_ratio_min,
            params.volume_ratio_max,
        )
    }

    /// A fluid with the equation of state `eos` on a grid.
    pub fn new(
        eos: CavitatingEosParams,
        dx_meters: Binary32,
        dynamic_viscosity: Binary32,
        volume_ratio_min: Binary32,
        volume_ratio_max: Binary32,
    ) -> (r: Self)
        requires
            is_cell_width(dx_meters),
            is_ratio_range(volume_ratio_min, volume_ratio_max),
        ensures
            r.eos == eos,
            r.grid() == GridFluid::new(
                eos.rho_l_ref_kg_m3,
                dx_meters,
                dynamic_viscosity,
                volume_ratio_min,
                volume_ratio_max,
            ),
            r.grid().wf(),
    {
        let grid = GridFluid::new(
            eos.rho_l_ref_kg_m3,
            dx_meters,
            dynamic_viscosity,
            volume_ratio_min,
            volume_ratio_max,
        );
        IsothermalCavitatingFluidMaterial {
            eos,
            dx_meters: grid.dx_meters,
            dynamic_viscosity: grid.dynamic_viscosity,
            rest_density_grid: grid.rest_density,
            min_density: grid.min_density,
            min_volume: grid.min_volume,
            volume_ratio_min: grid.volume_ratio_min,
            volume_ratio_max: grid.volume_ratio_max,
        }
    }

    /// Squared sound speed of the liquid, in grid units.
    #[verifier::allow_in_spec]
    pub fn rest_c2(&self) -> Binary32
        returns
            self.grid().per_area(self.eos.c_l_m_s.mul(self.eos.c_l_m_s)),
    {
        self.grid().per_area(self.eos.c_l_m_s.mul(self.eos.c_l_m_s))
    }

    /// The SI density that the stress of a particle is evaluated at.
    #[verifier::allow_in_spec]
    pub fn stress_density_si(&self, p: &Particle) -> Binary32
        returns
            self.grid().per_area(self.grid().density_at(self.grid().stress_ratio(p))),
    {
        self.grid().per_area(self.grid().density_at(self.grid().stress_ratio(p)))
    }

    /// The Kirchhoff stress of a particle.
    pub open spec fn stress<N: Numerics>(&self, p: Particle, n: &N) -> Mat2 {
        self.grid().viscous_pressure_stress(
            self.eos.pressure_at(self.stress_density_si(&p), n),
            &p,
        ).sub(Mat2::isotropic(self.grid().shock_at(&p, self.rest_c2(), self.eos.gamma_l)))
    }

    /// Squared sound speed at a density, both in grid units.
    pub open spec fn sound_at<N: Numerics>(&self, density: Binary32, n: &N) -> Binary32 {
        self.grid().per_area(
            self.eos.sound_at(self.grid().per_area(density.max(self.grid().min_density)), n),
        )
    }
}

impl MaterialModel for IsothermalCavitatingFluidMaterial {
    open spec fn enterable(&self) -> bool {
        self.grid().wf()
    }

    fn constitutive_model(&self) -> (r: ConstitutiveModel)
        ensures
            r == ConstitutiveModel::Fluid,
    {
        ConstitutiveModel::Fluid
    }

    fn stress_volume(&self, particle: &Particle) -> (r: Binary32)
        ensures
            r == particle.volume.max(self.grid().min_volume),
    {
        particle.volume.max(self.grid().min_volume)
    }

    fn rest_acoustic_c2(&self) -> (r: Option<Binary32>)
        ensures
            r == Some(self.rest_c2()),
    {
        Some(self.rest_c2())
    }

    open spec fn initialised(&self, p: Particle) -> Particle {
        seeded(p, self.grid().rest_density)
    }

    fn init_particle(&self, particle: &mut Particle) {
        *particle = seeded(*particle, self.grid().rest_density);
    }

    open spec fn transitioned(&self, p: Particle) -> Particle {
        self.grid().entered(p)
    }

    fn init_particle_from_transition(&self, particle: &mut Particle) {
        *particle = self.grid().enter(*particle);
    }

    fn gpu_unsupported_reason(&self) -> (r: Option<&'static str>)
        ensures
            r == Some(
                "IsothermalCavitatingFluidMaterial has no GPU stress path: it uploads as a plain Tait fluid, so the GPU would run without cavitation",
            ),
    {
        Some(
            "IsothermalCavitatingFluidMaterial has no GPU stress path: it uploads as a plain Tait fluid, so the GPU would run without cavitation",
        )
    }

    fn owns_deformation_volume_state(&self) -> (r: bool)
        ensures
            r,
    {
        true
    }

    fn params(&self) -> (r: MaterialParams)
        ensures
            r == self.grid().plain_params(self.eos.gamma_l),
    {
        self.grid().plain_params(self.eos.gamma_l)
    }
}

impl<N: Numerics> Response<N> for IsothermalCavitatingFluidMaterial {
    open spec fn admits(&self, p: Particle, n: &N) -> bool {
        self.eos.wf()
    }

    open spec fn has_step_bound(&self) -> bool {
        self.eos.wf()
    }

    open spec fn steppable(&self) -> bool {
        self.grid().wf()
    }

    fn kirchhoff_stress(&self, particle: &Particle, n: &N) -> (r: Mat2)
        ensures
            r == self.stress(*particle, n),
    {
        let pressure = self.eos.pressure_gauge_pa(self.stress_density_si(particle), n);
        let q = self.grid().shock_at(particle, self.rest_c2(), self.eos.gamma_l);
        self.grid().viscous_pressure_stress(pressure, particle).sub(Mat2::isotropic(q))
    }

    fn timestep_bound(
        &self,
        density: Binary32,
        hardening_scale: Binary32,
        cell_width: Binary32,
        material_cfl: Binary32,
        viscous_cfl: Binary32,
        n: &N,
    ) -> (r: Binary32)
        ensures
            r == self.grid().step_bound(
                self.sound_at(density, n),
                density,
                cell_width,
                material_cfl,
                viscous_cfl,
            ),
    {
        let density_si = self.grid().per_area(density.max(self.grid().min_density));
        let c2 = self.grid().per_area(self.eos.acoustic_c2_si(density_si, n));
        self.grid().step_bound(c2, density, cell_width, material_cfl, viscous_cfl)
    }

    open spec fn updated(&self, p: Particle, dt: Binary32, n: &N) -> Particle {
        self.grid().stepped(p, dt, n)
    }

    fn update_particle(&self, particle: &mut Particle, dt: Binary32, n: &N) {
        *particle = self.grid().step(*particle, dt, n);
    }
}

/// Cavitating fluid whose equation of state follows the temperature of each particle.
#[derive(Clone, Debug)]
pub struct CavitatingFluidMaterial {
    pub table: CavitatingEosTable,
    pub dx_meters: Binary32,
    pub dynamic_viscosity: Binary32,
    pub rest_density_grid: Binary32,
    pub min_density: Binary32,
    pub min_volume: Binary32,
    pub volume_ratio_min: Binary32,
    pub volume_ratio_max: Binary32,
}

/// The free parameters of a [`CavitatingFluidMaterial`].
#[derive(Clone, Debug)]
pub struct CavitatingFluidMaterialParams {
    pub table: CavitatingEosTable,
    pub dx_meters: Binary32,
    pub dynamic_viscosity: Binary32,
    pub volume_ratio_min: Binary32,
    pub volume_ratio_max: Binary32,
}

impl CavitatingFluidMaterial {
    /// The fluid on the grid.
    #[verifier::allow_in_spec]
    pub fn grid(&self) -> GridFluid
        returns
            (GridFluid {
                rest_density: self.rest_density_grid,
                dx_meters: self.dx_meters,
                dynamic_viscosity: self.dynamic_viscosity,
                min_density: self.min_density,
                min_volume: self.min_volume,
                volume_ratio_min: self.volume_ratio_min,
                volume_ratio_max: self.volume_ratio_max,
            }),
    {
        GridFluid {
            rest_density: self.rest_density_grid,
            dx_meters: self.dx_meters,
            dynamic_viscosity: self.dynamic_viscosity,
            min_density: self.min_density,
            min_volume: self.min_volume,
            volume_ratio_min: self.volume_ratio_min,
            volume_ratio_max: self.volume_ratio_max,
        }
    }

    /// The same as [`Self::new`] from a parameter struct.
    pub fn from_params(params: CavitatingFluidMaterialParams) -> (r: Self)
        requires
            is_cell_width(params.dx_meters),
            is_ratio_range(params.volume_ratio_min, params.volume_ratio_max),
        ensures
            r.table == params.table,
            r.grid() == GridFluid::new(
                params.table.rho_l_ref_kg_m3,
                params.dx_meters,
                params.dynamic_viscosity,
                params.volume_ratio_min,
                params.volume_ratio_max,
            ),
            r.grid().wf(),
    {
        Self::new(
            params.table,
            params.dx_meters,
            params.dynamic_viscosity,
            params.volume_ratio_min,
            params.volume_ratio_max,
        )
    }

    /// A fluid with the equations of state of `table` on a grid.
    pub fn new(
        table: CavitatingEosTable,
        dx_meters: Binary32,
        dynamic_viscosity: Binary32,
        volume_ratio_min: Binary32,
        volume_ratio_max: Binary32,
    ) -> (r: Self)
        requires
            is_cell_width(dx_meters),
            is_ratio_range(volume_ratio_min, volume_ratio_max),
        ensures
            r.table == table,
            r.grid() == GridFluid::new(
                table.rho_l_ref_kg_m3,
                dx_meters,
                dynamic_viscosity,
                volume_ratio_min,
                volume_ratio_max,
            ),
            r.grid().wf(),
    {
        let grid = GridFluid::new(
            table.rho_l_ref_kg_m3,
            dx_meters,
            dynamic_viscosity,
            volume_ratio_min,
            volume_ratio_max,
        );
        CavitatingFluidMaterial {
            table,
            dx_meters: grid.dx_meters,
            dynamic_viscosity: grid.dynamic_viscosity,
            rest_density_grid: grid.rest_density,
            min_density: grid.min_density,
            min_volume: grid.min_volume,
            volume_ratio_min: grid.volume_ratio_min,
            volume_ratio_max: grid.volume_ratio_max,
        }
    }

    /// Squared sound speed of the liquid, in grid units.
    #[verifier::allow_in_spec]
    pub fn rest_c2(&self) -> Binary32
        returns
            self.grid().per_area(self.table.c_l_m_s.mul(self.table.c_l_m_s)),
    {
        self.grid().per_area(self.table.c_l_m_s.mul(self.table.c_l_m_s))
    }

    /// The equation of state of the table can be evaluated at a temperature.
    pub open spec fn covers<N: Numerics>(&self, temperature_k: Binary32, n: &N) -> bool {
        self.table@.eos_at(temperature_k, n).wf()
    }

    /// Squared sound speed at a density and a temperature, in grid units.
    pub open spec fn sound_at<N: Numerics>(
        &self,
        density: Binary32,
        temperature_k: Binary32,
        n: &N,
    ) -> Binary32 {
        self.grid().per_area(
            self.table@.eos_at(temperature_k, n).sound_at(
                self.grid().per_area(density.max(self.grid().min_density)),
                n,
            ),
        )
    }

    /// The Kirchhoff stress of a particle.
    pub open spec fn stress<N: Numerics>(&self, p: Particle, n: &N) -> Mat2 {
        let density = self.grid().density_at(self.grid().stress_ratio(&p));
        let pressure = self.table@.eos_at(p.temperature, n).pressure_at(
            self.grid().per_area(density),
            n,
        );
        self.grid().viscous_pressure_stress(pressure, &p).sub(
            Mat2::isotropic(
                self.grid().shock_at(
                    &p,
                    self.sound_at(density, p.temperature, n),
                    self.table.gamma_l,
                ),
            ),
        )
    }
}

impl MaterialModel for CavitatingFluidMaterial {
    open spec fn enterable(&self) -> bool {
        self.grid().wf()
    }

    fn constitutive_model(&self) -> (r: ConstitutiveModel)
        ensures
            r == ConstitutiveModel::Fluid,
    {
        ConstitutiveModel::Fluid
    }

    fn stress_volume(&self, particle: &Particle) -> (r: Binary32)
        ensures
            r == particle.volume.max(self.grid().min_volume),
    {
        particle.volume.max(self.grid().min_volume)
    }

    fn rest_acoustic_c2(&self) -> (r: Option<Binary32>)
        ensures
            r == Some(self.rest_c2()),
    {
        Some(self.rest_c2())
    }

    open spec fn initialised(&self, p: Particle) -> Particle {
        seeded(p, self.grid().rest_density)
    }

    fn init_particle(&self, particle: &mut Particle) {
        *particle = seeded(*particle, self.grid().rest_density);
    }

    open spec fn transitioned(&self, p: Particle) -> Particle {
        self.grid().entered(p)
    }

    fn init_particle_from_transition(&self, particle: &mut Particle) {
        *particle = self.grid().enter(*particle);
    }

    fn gpu_unsupported_reason(&self) -> (r: Option<&'static str>)
        ensures
            r == Some(
                "CavitatingFluidMaterial has no GPU stress path: it uploads as a plain Tait fluid, so the GPU would run without cavitation",
            ),
    {
        Some(
            "CavitatingFluidMaterial has no GPU stress path: it uploads as a plain Tait fluid, so the GPU would run without cavitation",
        )
    }

    fn owns_deformation_volume_state(&self) -> (r: bool)
        ensures
            r,
    {
        true
    }

    fn params(&self) -> (r: MaterialParams)
        ensures
            r == self.grid().plain_params(self.table.gamma_l),
    {
        self.grid().plain_params(self.table.gamma_l)
    }
}

impl<N: Numerics> Response<N> for CavitatingFluidMaterial {
    open spec fn admits(&self, p: Particle, n: &N) -> bool {
        self.table@.wf() && self.covers(p.temperature, n)
    }

    open spec fn audible(&self, density: Binary32, temperature_k: Binary32, n: &N) -> bool {
        self.table@.wf() && self.covers(temperature_k, n)
    }

    open spec fn steppable(&self) -> bool {
        self.grid().wf()
    }

    fn kirchhoff_stress(&self, particle: &Particle, n: &N) -> (r: Mat2)
        ensures
            r == self.stress(*particle, n),
    {
        let density = self.grid().density_at(self.grid().stress_ratio(particle));
        let eos = self.table.reconstruct(particle.temperature, n);
        let pressure = eos.pressure_gauge_pa(self.grid().per_area(density), n);
        let c2_si = eos.acoustic_c2_si(
            self.grid().per_area(density.max(self.grid().min_density)),
            n,
        );
        let q = self.grid().shock_at(particle, self.grid().per_area(c2_si), self.table.gamma_l);
        self.grid().viscous_pressure_stress(pressure, particle).sub(Mat2::isotropic(q))
    }

    fn timestep_bound(
        &self,
        density: Binary32,
        hardening_scale: Binary32,
        cell_width: Binary32,
        material_cfl: Binary32,
        viscous_cfl: Binary32,
        n: &N,
    ) -> (r: Binary32)
        ensures
            r == self.grid().step_bound(
                self.rest_c2(),
                density,
                cell_width,
                material_cfl,
                viscous_cfl,
            ),
    {
        self.grid().step_bound(self.rest_c2(), density, cell_width, material_cfl, viscous_cfl)
    }

    fn acoustic_c2_at(&self, density: Binary32, temperature_k: Binary32, n: &N) -> (r: Option<
        Binary32,
    >)
        ensures
            r == Some(self.sound_at(density, temperature_k, n)),
    {
        let density_si = self.grid().per_area(density.max(self.grid().min_density));
        let c2_si = self.table.reconstruct(temperature_k, n).acoustic_c2_si(density_si, n);
        Some(self.grid().per_area(c2_si))
    }

    open spec fn updated(&self, p: Particle, dt: Binary32, n: &N) -> Particle {
        self.grid().stepped(p, dt, n)
    }

    fn update_particle(&self, particle: &mut Particle, dt: Binary32, n: &N) {
        *particle = self.grid().step(*particle, dt, n);
    }
}

} // verus!
