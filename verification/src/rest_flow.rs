use vstd::prelude::*;

use crate::binary::around::Estimate;
use crate::binary::around::around;
use crate::binary::around::larger;
use crate::binary::around::law_quotient_multiplies_back;
use crate::binary::around::lemma_finite_parts;
use crate::binary::around::lemma_of;
use crate::binary::around::lemma_quotient_of;
use crate::binary::around::lemma_times;
use crate::binary::around::weight;
use crate::binary::error::law_order_of_amounts;
use crate::binary::error::lemma_constant_amounts;
use crate::binary::error::off;
use crate::binary::error::size;
use crate::binary::relative::dust;
use crate::binary::single::Binary32;
use crate::binary::single::lemma_single_constants;
use crate::bingham::BinghamFluidMaterial;
use crate::bingham::BinghamProps;
use crate::boiling_mixture::BoilingMixtureMaterial;
use crate::boiling_mixture::quality_of;
use crate::cavitating_fluid::CavitatingFluidMaterial;
use crate::cavitating_fluid::GridFluid;
use crate::cavitating_fluid::IsothermalCavitatingFluidMaterial;
use crate::estimates::lemma_product;
use crate::fluid::CAVITATION_PRESSURE_PA;
use crate::fluid::NewtonianFluidMaterial;
use crate::fluid::TAIT_GAMMA;
use crate::gas::GasMaterial;
use crate::granular_fluid::GranularFluidMaterial;
use crate::mechanics::MICRO;
use crate::mechanics::MIN_J;
use crate::mechanics::seeded;
use crate::model::MaterialModel;
use crate::model::Response;
use crate::nacc::NaccMaterial;
use crate::numerics::Numerics;
use crate::particle::Particle;
use crate::particle::SimConfig;

verus! {

/// The squared sound speed of a Tait fluid at rest: `c^2 rho0 = B gamma`.
pub open spec fn is_rest_sound(
    r: Option<Binary32>,
    eos_stiffness: Binary32,
    eos_power: Binary32,
    rest_density: Binary32,
) -> bool {
    &&& r is Some
    &&& off(
        r->0.amount() * rest_density.amount(),
        eos_stiffness.amount() * eos_power.amount(),
    ) <= 4real * (weight(eos_stiffness) * weight(eos_power)) + dust() * rest_density.amount()
}

/// A quotient of a product.
proof fn lemma_rest_sound(a: Binary32, b: Binary32, d: Binary32)
    requires
        a.mul(b).is_finite(),
        d.is_finite() && d.amount() > 0real,
        a.mul(b).div(d).is_finite(),
    ensures
        off(a.mul(b).div(d).amount() * d.amount(), a.amount() * b.amount()) <= 4real * (weight(a)
            * weight(b)) + dust() * d.amount(),
{
    lemma_product(a, b);
    let e = Estimate::of(a).times(Estimate::of(b));
    lemma_quotient_of(e, d);
    assert((e.parts + 2real) * e.scale == 4real * e.scale);
}

/// The sound speed of a Newtonian fluid at rest, where stiffness and density are positive.
pub proof fn law_newtonian_rest_sound(m: NewtonianFluidMaterial, r: Option<Binary32>)
    requires
        call_ensures(<NewtonianFluidMaterial as MaterialModel>::rest_acoustic_c2, (&m,), r),
        m.eos_stiffness.gt(Binary32::zero()),
        m.rest_density.is_finite() && m.rest_density.gt(Binary32::zero()),
        m.eos_stiffness.mul(m.eos_power).is_finite(),
        m.eos_stiffness.mul(m.eos_power).div(m.rest_density).is_finite(),
    ensures
        is_rest_sound(r, m.eos_stiffness, m.eos_power, m.rest_density),
{
    lemma_constant_amounts();
    lemma_single_constants();
    law_order_of_amounts(Binary32::zero(), m.rest_density);
    lemma_rest_sound(m.eos_stiffness, m.eos_power, m.rest_density);
}

/// The sound speed of a Bingham fluid at rest, where stiffness and density are positive.
pub proof fn law_bingham_rest_sound(m: BinghamFluidMaterial, r: Option<Binary32>)
    requires
        call_ensures(<BinghamFluidMaterial as MaterialModel>::rest_acoustic_c2, (&m,), r),
        m.eos_stiffness.gt(Binary32::zero()),
        m.rest_density.is_finite() && m.rest_density.gt(Binary32::zero()),
        m.eos_stiffness.mul(m.eos_power).is_finite(),
        m.eos_stiffness.mul(m.eos_power).div(m.rest_density).is_finite(),
    ensures
        is_rest_sound(r, m.eos_stiffness, m.eos_power, m.rest_density),
{
    lemma_constant_amounts();
    lemma_single_constants();
    law_order_of_amounts(Binary32::zero(), m.rest_density);
    lemma_rest_sound(m.eos_stiffness, m.eos_power, m.rest_density);
}

/// The sound speed of a gas at its reference temperature: `c^2 = gamma R T`.
pub proof fn law_gas_rest_sound(m: GasMaterial, r: Option<Binary32>)
    requires
        call_ensures(<GasMaterial as MaterialModel>::rest_acoustic_c2, (&m,), r),
        m.specific_gas_constant.gt(Binary32::zero()),
        m.reference_temperature_k.gt(Binary32::zero()),
        m.reference_c2().is_finite(),
    ensures
        r is Some,
        around(
            r->0,
            (m.adiabatic_index.amount() * m.specific_gas_constant.amount())
                * m.reference_temperature_k.amount(),
            (weight(m.adiabatic_index) * weight(m.specific_gas_constant)) * weight(
                m.reference_temperature_k,
            ),
            4real,
        ),
{
    let (a, b, t) = (m.adiabatic_index, m.specific_gas_constant, m.reference_temperature_k);
    lemma_finite_parts(a.mul(b), t);
    lemma_product(a, b);
    lemma_of(t);
    lemma_times(Estimate::of(a).times(Estimate::of(b)), Estimate::of(t));
}

/// A grid quantity over `dx^2`.
pub proof fn law_per_area(g: GridFluid, x: Binary32)
    requires
        x.is_finite(),
        g.dx_meters.mul(g.dx_meters).is_finite(),
        g.dx_meters.mul(g.dx_meters).amount() > 0real,
        g.per_area(x).is_finite(),
    ensures
        ({
            let a = g.dx_meters.mul(g.dx_meters);
            &&& around(
                a,
                g.dx_meters.amount() * g.dx_meters.amount(),
                weight(g.dx_meters) * weight(g.dx_meters),
                2real,
            )
            &&& off(g.per_area(x).amount() * a.amount(), x.amount()) <= size(x.amount()) + dust()
                * a.amount()
        }),
{
    lemma_product(g.dx_meters, g.dx_meters);
    law_quotient_multiplies_back(x, g.dx_meters.mul(g.dx_meters));
}

/// The sound speeds of the cavitating fluids at rest are those of the liquid, per area.
pub proof fn law_cavitating_rest_sound(
    m: CavitatingFluidMaterial,
    i: IsothermalCavitatingFluidMaterial,
    r: Option<Binary32>,
    s: Option<Binary32>,
)
    requires
        call_ensures(<CavitatingFluidMaterial as MaterialModel>::rest_acoustic_c2, (&m,), r),
        call_ensures(
            <IsothermalCavitatingFluidMaterial as MaterialModel>::rest_acoustic_c2,
            (&i,),
            s,
        ),
    ensures
        r == Some(m.grid().per_area(m.table.c_l_m_s.mul(m.table.c_l_m_s))),
        s == Some(i.grid().per_area(i.eos.c_l_m_s.mul(i.eos.c_l_m_s))),
{
}

/// The sound speed of a cavitating fluid at a density and a temperature is that of its equation
/// of state at the SI density, per area.
pub proof fn law_cavitating_sound<N: Numerics>(
    m: CavitatingFluidMaterial,
    density: Binary32,
    temperature_k: Binary32,
    r: Option<Binary32>,
    n: &N,
)
    requires
        call_ensures(
            <CavitatingFluidMaterial as Response<N>>::acoustic_c2_at,
            (&m, density, temperature_k, n),
            r,
        ),
        m.min_density.le(density),
    ensures
        ({
            let area = m.dx_meters.mul(m.dx_meters);
            r == Some(
                m.table@.eos_at(temperature_k, n).sound_at(density.div(area), n).div(area),
            )
        }),
{
    lemma_single_constants();
    assert(density.max(m.min_density) == density);
}

/// The sound speed of a boiling particle is that of its vapour mass fraction, per area.
pub proof fn law_boiling_sound<N: Numerics>(
    m: BoilingMixtureMaterial,
    p: Particle,
    r: Option<Binary32>,
    n: &N,
)
    requires
        call_ensures(
            <BoilingMixtureMaterial as Response<N>>::acoustic_c2_at_particle,
            (&m, &p, n),
            r,
        ),
    ensures
        r == Some(
            m.c_mix2_m2_s2(quality_of(p.friction_hardening)).div(m.dx_meters.mul(m.dx_meters)),
        ),
{
}

/// The volume that a stress acts on is the carried one, not below its floor.
pub proof fn law_stress_volumes(
    a: NewtonianFluidMaterial,
    b: BinghamFluidMaterial,
    c: GasMaterial,
    d: GranularFluidMaterial,
    e: CavitatingFluidMaterial,
    f: IsothermalCavitatingFluidMaterial,
    g: BoilingMixtureMaterial,
    p: Particle,
    r: (Binary32, Binary32, Binary32, Binary32, Binary32, Binary32, Binary32),
)
    requires
        call_ensures(<NewtonianFluidMaterial as MaterialModel>::stress_volume, (&a, &p), r.0),
        call_ensures(<BinghamFluidMaterial as MaterialModel>::stress_volume, (&b, &p), r.1),
        call_ensures(<GasMaterial as MaterialModel>::stress_volume, (&c, &p), r.2),
        call_ensures(<GranularFluidMaterial as MaterialModel>::stress_volume, (&d, &p), r.3),
        call_ensures(<CavitatingFluidMaterial as MaterialModel>::stress_volume, (&e, &p), r.4),
        call_ensures(
            <IsothermalCavitatingFluidMaterial as MaterialModel>::stress_volume,
            (&f, &p),
            r.5,
        ),
        call_ensures(<BoilingMixtureMaterial as MaterialModel>::stress_volume, (&g, &p), r.6),
        p.volume.is_finite(),
        a.min_volume.is_finite() && b.min_volume.is_finite() && c.min_volume.is_finite(),
        e.min_volume.is_finite() && f.min_volume.is_finite() && g.min_volume.is_finite(),
    ensures
        r.0.amount() == larger(p.volume.amount(), a.min_volume.amount()),
        r.1.amount() == larger(p.volume.amount(), b.min_volume.amount()),
        r.2.amount() == larger(p.volume.amount(), c.min_volume.amount()),
        r.3.amount() == larger(p.volume.amount(), Binary32::from_bits(MICRO).amount()),
        r.4.amount() == larger(p.volume.amount(), e.min_volume.amount()),
        r.5.amount() == larger(p.volume.amount(), f.min_volume.amount()),
        r.6.amount() == larger(p.volume.amount(), g.min_volume.amount()),
{
    lemma_single_constants();
    law_order_of_amounts(p.volume, a.min_volume);
    law_order_of_amounts(p.volume, b.min_volume);
    law_order_of_amounts(p.volume, c.min_volume);
    law_order_of_amounts(p.volume, Binary32::from_bits(MICRO));
    law_order_of_amounts(p.volume, e.min_volume);
    law_order_of_amounts(p.volume, f.min_volume);
    law_order_of_amounts(p.volume, g.min_volume);
}

/// Fluid particles are spawned at the rest density of their fluid; a gas also gives them its
/// reference temperature, and a soil clears their history.
pub proof fn law_spawning(
    a: NewtonianFluidMaterial,
    b: BinghamFluidMaterial,
    c: GasMaterial,
    d: NaccMaterial,
    e: CavitatingFluidMaterial,
    f: IsothermalCavitatingFluidMaterial,
    g: BoilingMixtureMaterial,
    p: Particle,
)
    ensures
        a.initialised(p) == seeded(p, a.rest_density),
        b.initialised(p) == seeded(p, b.rest_density),
        b.transitioned(p) == seeded(p, b.rest_density),
        c.initialised(p).temperature == c.reference_temperature_k,
        c.initialised(p) == (Particle {
            temperature: c.reference_temperature_k,
            ..seeded(p, c.rest_density)
        }),
        d.initialised(p) == (Particle { log_volume_strain: Binary32::zero(), ..p }),
        e.initialised(p) == seeded(p, e.rest_density_grid),
        f.initialised(p) == seeded(p, f.rest_density_grid),
        g.initialised(p) == seeded(p, g.rest_density_grid),
        e.transitioned(p) == e.grid().entered(p),
        f.transitioned(p) == f.grid().entered(p),
        g.transitioned(p) == g.grid().entered(p),
{
}

/// A granular particle is spawned without history: its reference volume holds its mass at the
/// rest density, and volume and density follow the volume ratio that it has.
pub proof fn law_granular_spawning(m: GranularFluidMaterial, p: Particle)
    requires
        p.mass.is_finite(),
        m.rest_density.is_finite() && Binary32::from_bits(MICRO).le(m.rest_density),
        p.mass.div(m.rest_density).is_finite(),
        p.deformation_gradient.determinant().is_finite(),
        Binary32::from_bits(MIN_J).le(p.deformation_gradient.determinant()),
    ensures
        ({
            let q = m.initialised(p);
            let j = p.deformation_gradient.determinant();
            &&& q.plastic_volume_ratio == Binary32::one()
            &&& q.hardening_scale == Binary32::one()
            &&& off(q.initial_volume.amount() * m.rest_density.amount(), p.mass.amount()) <= size(
                p.mass.amount(),
            ) + dust() * m.rest_density.amount()
            &&& q.volume.is_finite() ==> around(
                q.volume,
                q.initial_volume.amount() * j.amount(),
                weight(q.initial_volume) * weight(j),
                2real,
            )
            &&& q.density.is_finite() ==> off(
                q.density.amount() * j.amount(),
                m.rest_density.amount(),
            ) <= m.rest_density.amount() + dust() * j.amount()
            &&& m.transitioned(p) == q
            &&& q.deformation_gradient == p.deformation_gradient && q.mass == p.mass
        }),
{
    let q = m.initialised(p);
    let j = p.deformation_gradient.determinant();
    lemma_single_constants();
    lemma_constant_amounts();
    law_order_of_amounts(Binary32::zero(), m.rest_density);
    law_order_of_amounts(Binary32::zero(), j);
    assert(m.rest_density.max(Binary32::from_bits(MICRO)) == m.rest_density);
    assert(j.max(Binary32::from_bits(MIN_J)) == j);
    law_quotient_multiplies_back(p.mass, m.rest_density);
    if q.volume.is_finite() {
        lemma_product(q.initial_volume, j);
    }
    if q.density.is_finite() {
        law_quotient_multiplies_back(m.rest_density, j);
    }
}

/// Only the density of a Bingham fluid is taken to the grid: it takes the factor `dx^2`, and the
/// stiffness is the bulk modulus over the Tait exponent.
pub proof fn law_bingham_from_physical(props: BinghamProps, config: SimConfig)
    requires
        props.rho_kg_m3.mul(config.dx_meters).mul(config.dx_meters).is_finite(),
        props.bulk_modulus_pa.is_finite(),
        props.bulk_modulus_pa.div(Binary32::from_bits(TAIT_GAMMA)).is_finite(),
    ensures
        ({
            let m = BinghamFluidMaterial::from_physical(&props, &config);
            let g = Binary32::from_bits(TAIT_GAMMA);
            let (r, x) = (props.rho_kg_m3, config.dx_meters);
            &&& around(
                m.rest_density,
                (r.amount() * x.amount()) * x.amount(),
                (weight(r) * weight(x)) * weight(x),
                4real,
            )
            &&& off(m.eos_stiffness.amount() * g.amount(), props.bulk_modulus_pa.amount()) <= size(
                props.bulk_modulus_pa.amount(),
            ) + dust() * size(g.amount())
            &&& m.eos_power == g
            &&& m.dynamic_viscosity == props.eta_pa_s
            &&& m.yield_stress == props.yield_stress_pa
        }),
{
    let g = Binary32::from_bits(TAIT_GAMMA);
    let (r, x) = (props.rho_kg_m3, config.dx_meters);
    lemma_single_constants();
    lemma_constant_amounts();
    lemma_finite_parts(r.mul(x), x);
    lemma_product(r, x);
    lemma_times(Estimate::of(r).times(Estimate::of(x)), Estimate::of(x));
    law_order_of_amounts(Binary32::zero(), g);
    law_quotient_multiplies_back(props.bulk_modulus_pa, g);
}

/// A gas keeps its pressure on the grid: the density takes the factor `dx^2` and the gas
/// constant its inverse.
pub proof fn law_gas_from_physical(
    rho: Binary32,
    eta: Binary32,
    gas_constant: Binary32,
    adiabatic_index: Binary32,
    temperature: Binary32,
    config: SimConfig,
)
    requires
        ({
            let a = config.dx_meters.mul(config.dx_meters);
            &&& a.is_finite() && a.amount() > 0real
            &&& rho.mul(a).is_finite()
            &&& gas_constant.is_finite() && gas_constant.div(a).is_finite()
        }),
    ensures
        ({
            let m = GasMaterial::grid_gas(
                rho,
                eta,
                gas_constant,
                adiabatic_index,
                temperature,
                config,
            );
            let a = config.dx_meters.mul(config.dx_meters);
            let (x, w) = (config.dx_meters.amount(), weight(config.dx_meters));
            &&& around(a, x * x, w * w, 2real)
            &&& around(m.rest_density, rho.amount() * (x * x), weight(rho) * (w * w), 4real)
            &&& off(m.specific_gas_constant.amount() * a.amount(), gas_constant.amount()) <= size(
                gas_constant.amount(),
            ) + dust() * a.amount()
            &&& m.dynamic_viscosity == eta
            &&& m.adiabatic_index == adiabatic_index
            &&& m.reference_temperature_k == temperature
        }),
{
    let a = config.dx_meters.mul(config.dx_meters);
    lemma_finite_parts(rho, a);
    lemma_product(config.dx_meters, config.dx_meters);
    lemma_of(rho);
    let e = Estimate::of(config.dx_meters).times(Estimate::of(config.dx_meters));
    lemma_times(Estimate::of(rho), e);
    law_quotient_multiplies_back(gas_constant, a);
}

/// A weakly compressible fluid has the sound speed that it is given: the density takes the
/// factor `dx^2`, and the stiffness times the exponent is `rho c^2`.
pub proof fn law_weakly_compressible_fluid(
    rho: Binary32,
    eta: Binary32,
    c: Binary32,
    config: SimConfig,
    m: NewtonianFluidMaterial,
)
    requires
        call_ensures(NewtonianFluidMaterial::weakly_compressible, (rho, eta, c, &config), m),
        rho.mul(config.dx_meters).mul(config.dx_meters).is_finite(),
        rho.mul(c).mul(c).is_finite(),
        rho.mul(c).mul(c).div(Binary32::from_bits(TAIT_GAMMA)).is_finite(),
    ensures
        ({
            let x = config.dx_meters;
            let g = Binary32::from_bits(TAIT_GAMMA).amount();
            &&& around(
                m.rest_density,
                (rho.amount() * x.amount()) * x.amount(),
                (weight(rho) * weight(x)) * weight(x),
                4real,
            )
            &&& off(m.eos_stiffness.amount() * g, (rho.amount() * c.amount()) * c.amount())
                <= 6real * ((weight(rho) * weight(c)) * weight(c)) + dust() * size(g)
            &&& m.eos_power == Binary32::from_bits(TAIT_GAMMA)
            &&& m.dynamic_viscosity == eta
            &&& m.pressure_floor == Binary32::from_bits(CAVITATION_PRESSURE_PA)
        }),
{
    let g = Binary32::from_bits(TAIT_GAMMA);
    let x = config.dx_meters;
    lemma_single_constants();
    lemma_constant_amounts();
    lemma_finite_parts(rho.mul(x), x);
    lemma_product(rho, x);
    lemma_times(Estimate::of(rho).times(Estimate::of(x)), Estimate::of(x));
    lemma_finite_parts(rho.mul(c), c);
    lemma_product(rho, c);
    let e = Estimate::of(rho).times(Estimate::of(c)).times(Estimate::of(c));
    lemma_times(Estimate::of(rho).times(Estimate::of(c)), Estimate::of(c));
    law_order_of_amounts(Binary32::zero(), g);
    lemma_quotient_of(e, g);
    assert((e.parts + 2real) * e.scale == 6real * e.scale);
}

} // verus!
