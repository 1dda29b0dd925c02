use vstd::prelude::*;

use crate::binary::around::Estimate;
use crate::binary::around::around;
use crate::binary::around::law_quotient_multiplies_back;
use crate::binary::around::lemma_finite_parts;
use crate::binary::around::lemma_minus;
use crate::binary::around::lemma_of;
use crate::binary::around::lemma_quotient_of;
use crate::binary::around::lemma_times;
use crate::binary::around::positive;
use crate::binary::around::weight;
use crate::binary::error::law_difference_is_near;
use crate::binary::error::law_order_of_amounts;
use crate::binary::error::law_quotient_is_near;
use crate::binary::error::lemma_constant_amounts;
use crate::binary::error::near;
use crate::binary::error::off;
use crate::binary::error::size;
use crate::binary::laws::law_non_negative_steps;
use crate::binary::relative::dust;
use crate::binary::relative::is_ordinary;
use crate::binary::relative::lemma_dust;
use crate::binary::relative::lemma_ordinary_product;
use crate::binary::relative::lemma_within_quotient;
use crate::binary::relative::within;
use crate::binary::single::Binary32;
use crate::binary::single::lemma_single_constants;
use crate::boiling_mixture::BoilingMixtureMaterial;
use crate::boiling_mixture::lemma_shares;
use crate::boiling_mixture::mixture_c2;
use crate::boiling_mixture::quality_of;
use crate::boiling_mixture::rho_eq_kg_m3;
use crate::cavitating_flow::law_si_density_is_free_of_the_cell_width;
use crate::cavitating_table::CavitatingEosTable;
use crate::estimates::law_shear_stress_resists;
use crate::estimates::lemma_finite_terms;
use crate::estimates::lemma_nothing;
use crate::estimates::lemma_pressure;
use crate::estimates::lemma_product;
use crate::estimates::lemma_tensor_looser;
use crate::estimates::lemma_tensor_plus;
use crate::estimates::pressing;
use crate::estimates::resembles;
use crate::estimates::sheared;
use crate::linalg::Mat2;
use crate::mechanics::MICRO;
use crate::mechanics::shear_stress;
use crate::particle::Particle;

verus! {

/// A boiling mixture is stiff around the equilibrium density of its vapour mass fraction: its
/// pressure is `c^2 (rho - rho_eq)`.
pub proof fn law_mixture_pressure(m: BoilingMixtureMaterial, density_si: Binary32, x: Binary32)
    requires
        m.pressure_gauge_pa(density_si, x).is_finite(),
    ensures
        ({
            let (c2, rho_eq) = (m.c_mix2_m2_s2(x), m.rho_eq_kg_m3(x));
            around(
                m.pressure_gauge_pa(density_si, x),
                c2.amount() * (density_si.amount() - rho_eq.amount()),
                weight(c2) * (weight(density_si) + weight(rho_eq)),
                4real,
            )
        }),
{
    let (c2, rho_eq) = (m.c_mix2_m2_s2(x), m.rho_eq_kg_m3(x));
    lemma_finite_parts(c2, density_si.sub(rho_eq));
    lemma_finite_parts(density_si, rho_eq);
    lemma_of(c2);
    lemma_of(density_si);
    lemma_of(rho_eq);
    lemma_minus(Estimate::of(density_si), Estimate::of(rho_eq));
    lemma_times(Estimate::of(c2), Estimate::of(density_si).minus(Estimate::of(rho_eq)));
}

/// A boiling mixture carries the pressure at its SI density `rho_l / J`, whatever the cell
/// width, and at the vapour mass fraction that the particle carries, and resists shearing.
pub proof fn law_mixture_stress(m: BoilingMixtureMaterial, p: Particle) -> (si: Binary32)
    requires
        m.stress(p).is_finite(),
        m.dynamic_viscosity.is_finite(),
        is_ordinary(m.rho_l_ref_kg_m3),
        is_ordinary(m.dx_meters),
        is_ordinary(p.deformation_gradient.determinant()),
        Binary32::from_bits(MICRO).le(p.deformation_gradient.determinant()),
        m.rest_density_grid == m.rho_l_ref_kg_m3.mul(m.dx_meters).mul(m.dx_meters),
        m.min_density.le(m.rest_density_grid.div(p.deformation_gradient.determinant())),
        m.rest_density_grid.div(p.deformation_gradient.determinant()).le(
            m.rest_density_grid.div(m.volume_ratio_min),
        ),
    ensures
        within(
            si.amount(),
            m.rho_l_ref_kg_m3.amount() / p.deformation_gradient.determinant().amount(),
            10real,
        ),
        ({
            let c = p.velocity_gradient;
            let v = positive(m.dynamic_viscosity.amount());
            let pressure = m.pressure_gauge_pa(si, quality_of(p.friction_hardening));
            let push = pressure.amount();
            resembles(
                m.stress(p),
                v * (c.at(0, 0) - c.at(1, 1)) - push,
                v * (c.at(0, 1) + c.at(1, 0)),
                v * (c.at(0, 1) + c.at(1, 0)),
                v * (c.at(1, 1) - c.at(0, 0)) - push,
                weight(pressure) + weight(m.dynamic_viscosity) * (4real * c.weight()),
                12real,
            )
        }),
{
    let j = p.deformation_gradient.determinant();
    let g = m.grid();
    let c = p.velocity_gradient;
    let v = m.dynamic_viscosity;
    lemma_single_constants();
    lemma_constant_amounts();
    assert(g.stress_ratio(&p) == j);
    law_si_density_is_free_of_the_cell_width(g, m.rho_l_ref_kg_m3, j);
    let si = g.per_area(g.density_at(j));
    let pressure = m.pressure_gauge_pa(si, quality_of(p.friction_hardening));
    law_order_of_amounts(Binary32::zero(), v);
    let a = Mat2::isotropic(pressure.neg());
    if v.gt(Binary32::zero()) {
        lemma_finite_terms(a, shear_stress(v, c));
        law_shear_stress_resists(v, c);
        lemma_pressure(pressure);
        lemma_tensor_plus(pressing(pressure), sheared(v, c));
    } else {
        lemma_pressure(pressure);
        lemma_nothing(c.at(0, 0) - c.at(1, 1));
        lemma_nothing(c.at(0, 1) + c.at(1, 0));
        lemma_nothing(c.at(1, 1) - c.at(0, 0));
        let w = weight(v) * (4real * c.weight());
        assert(w >= 0real) by (nonlinear_arith)
            requires
                w == weight(v) * (4real * c.weight()),
                weight(v) >= 0real,
                c.weight() >= 0real,
        ;
        lemma_tensor_looser(pressing(pressure), weight(pressure) + w, 12real);
    }
    si
}

/// The share of the liquid is what the vapour leaves.
proof fn lemma_liquid_share(x: Binary32)
    requires
        x.is_finite(),
        0real <= x.amount() <= 1real,
    ensures
        Binary32::one().sub(x).is_finite(),
        near(Binary32::one().sub(x).amount(), 1real - x.amount()),
        0real <= Binary32::one().sub(x).amount() <= 1real,
        Binary32::one().sub(x).amount() >= 1real / 4real || x.amount() >= 1real / 4real,
{
    lemma_single_constants();
    lemma_constant_amounts();
    law_difference_is_near(Binary32::one(), x);
    law_order_of_amounts(Binary32::zero(), x);
    law_non_negative_steps(Binary32::one(), x);
    law_order_of_amounts(Binary32::one().sub(x), Binary32::one());
}

/// Specific volumes mix by mass: `1 / rho_eq = (1 - x) / rho_l + x / rho_v`.
pub proof fn law_specific_volumes_mix(x: Binary32, rho_l: Binary32, rho_v: Binary32)
    requires
        x.is_finite(),
        0real < x.amount() < 1real,
        is_ordinary(rho_l),
        is_ordinary(rho_v),
    ensures
        ({
            let y = Binary32::one().sub(x).amount();
            let v = y / rho_l.amount() + x.amount() / rho_v.amount();
            &&& near(y, 1real - x.amount())
            &&& v > 0real
            &&& within(rho_eq_kg_m3(x, rho_l, rho_v).amount(), 1real / v, 8real)
        }),
{
    let one = Binary32::one();
    let y = one.sub(x);
    let (r, s) = (rho_l.amount(), rho_v.amount());
    lemma_single_constants();
    lemma_constant_amounts();
    lemma_dust();
    lemma_liquid_share(x);
    law_order_of_amounts(Binary32::zero(), x);
    law_order_of_amounts(x, Binary32::zero());
    law_order_of_amounts(x, one);
    law_order_of_amounts(one, x);
    lemma_shares(y, x, rho_l, r, rho_v, s);
    let w = y.div(rho_l).add(x.div(rho_v));
    let v = y.amount() / r + x.amount() / s;
    let i = 1real / v;
    assert(i > 0real && i <= 4611686018427387904real && i * 2305843009213693952real >= 1real
        && i * v == 1real) by (nonlinear_arith)
        requires
            i == 1real / v,
            4611686018427387904real * v >= 1real,
            v <= 2305843009213693952real,
    ;
    assert(8388608real * w.amount() >= 8388600real * v);
    let q = 1real / w.amount();
    assert(size(q) <= 2real * i) by (nonlinear_arith)
        requires
            q == 1real / w.amount(),
            8388608real * w.amount() >= 8388600real * v,
            i * v == 1real,
            v > 0real,
            i > 0real,
    ;
    law_quotient_is_near(one, w);
    lemma_within_quotient(1real, 1real, 0real, w.amount(), v, 6real, one.div(w).amount());
    assert(quality_of(x) == x);
}

/// Compliances mix by mass: `rho_eq c^2` times `(1 - x) / (rho_l c_l^2) + x / (rho_v c_v^2)` is
/// one.
pub proof fn law_compliances_mix(
    x: Binary32,
    rho_l: Binary32,
    c_l2: Binary32,
    rho_v: Binary32,
    c_v2: Binary32,
) -> (compliance: Binary32)
    requires
        x.is_finite(),
        0real < x.amount() < 1real,
        is_ordinary(rho_l) && is_ordinary(c_l2),
        is_ordinary(rho_v) && is_ordinary(c_v2),
        mixture_c2(x, rho_l, c_l2, rho_v, c_v2).is_finite(),
    ensures
        within(
            compliance.amount(),
            Binary32::one().sub(x).amount() / (rho_l.amount() * c_l2.amount()) + x.amount() / (
            rho_v.amount() * c_v2.amount()),
            6real,
        ),
        ({
            let d = rho_eq_kg_m3(x, rho_l, rho_v).mul(compliance);
            d.is_finite() && d.amount() != 0real ==> off(
                mixture_c2(x, rho_l, c_l2, rho_v, c_v2).amount() * d.amount(),
                1real,
            ) <= 1real + dust() * size(d.amount())
        }),
{
    let one = Binary32::one();
    let y = one.sub(x);
    lemma_single_constants();
    lemma_constant_amounts();
    lemma_liquid_share(x);
    law_order_of_amounts(Binary32::zero(), x);
    law_order_of_amounts(x, Binary32::zero());
    law_order_of_amounts(x, one);
    law_order_of_amounts(one, x);
    lemma_ordinary_product(rho_l, c_l2);
    lemma_ordinary_product(rho_v, c_v2);
    lemma_shares(
        y,
        x,
        rho_l.mul(c_l2),
        rho_l.amount() * c_l2.amount(),
        rho_v.mul(c_v2),
        rho_v.amount() * c_v2.amount(),
    );
    let k = y.div(rho_l.mul(c_l2)).add(x.div(rho_v.mul(c_v2)));
    assert(quality_of(x) == x);
    let d = rho_eq_kg_m3(x, rho_l, rho_v).mul(k);
    if d.is_finite() && d.amount() != 0real {
        law_quotient_multiplies_back(one, d);
    }
    k
}

/// The sound speed of the vapour at its reference density follows from the stiffness of the
/// liquid: `c_v^2 rho_v = (c_l^2 rho_l / gamma_l) gamma_v`.
pub proof fn law_vapor_sound_speed(t: CavitatingEosTable) -> (stiffness: Binary32)
    requires
        t.gamma_l.is_finite() && t.gamma_l.amount() != 0real,
        t.rho_v_ref_kg_m3.is_finite() && t.rho_v_ref_kg_m3.amount() != 0real,
        t.c_l_m_s.mul(t.c_l_m_s).mul(t.rho_l_ref_kg_m3).is_finite(),
        t.c_l_m_s.mul(t.c_l_m_s).mul(t.rho_l_ref_kg_m3).div(t.gamma_l).mul(t.gamma_v).is_finite(),
        t.vapor_c2().is_finite(),
    ensures
        ({
            let (c, r) = (t.c_l_m_s, t.rho_l_ref_kg_m3);
            off(
                stiffness.amount() * t.gamma_l.amount(),
                (c.amount() * c.amount()) * r.amount(),
            ) <= 6real * ((weight(c) * weight(c)) * weight(r)) + dust() * size(t.gamma_l.amount())
        }),
        off(
            t.vapor_c2().amount() * t.rho_v_ref_kg_m3.amount(),
            stiffness.amount() * t.gamma_v.amount(),
        ) <= 4real * (weight(stiffness) * weight(t.gamma_v)) + dust() * size(
            t.rho_v_ref_kg_m3.amount(),
        ),
{
    let (c, r) = (t.c_l_m_s, t.rho_l_ref_kg_m3);
    let a = c.mul(c).mul(r);
    let b = a.div(t.gamma_l);
    let d = b.mul(t.gamma_v);
    lemma_finite_parts(c.mul(c), r);
    lemma_product(c, c);
    lemma_of(r);
    let e = Estimate::of(c).times(Estimate::of(c)).times(Estimate::of(r));
    lemma_times(Estimate::of(c).times(Estimate::of(c)), Estimate::of(r));
    lemma_product(b, t.gamma_v);
    lemma_quotient_of(e, t.gamma_l);
    assert((e.parts + 2real) * e.scale == 6real * e.scale);
    let f = Estimate::of(b).times(Estimate::of(t.gamma_v));
    lemma_quotient_of(f, t.rho_v_ref_kg_m3);
    assert((f.parts + 2real) * f.scale == 4real * f.scale);
    b
}

} // verus!
