use vstd::prelude::*;

use crate::binary::around::Estimate;
use crate::binary::around::lemma_of;
use crate::binary::around::lemma_opposite;
use crate::binary::around::positive;
use crate::binary::around::weight;
use crate::binary::error::huge;
use crate::binary::error::law_difference_is_near;
use crate::binary::error::law_order_of_amounts;
use crate::binary::error::law_product_is_near;
use crate::binary::error::law_quotient_is_near;
use crate::binary::error::lemma_constant_amounts;
use crate::binary::error::lemma_tiny;
use crate::binary::error::size;
use crate::binary::error::tiny;
use crate::binary::laws::law_finite_product_is_a_number;
use crate::binary::laws::law_multiplication_commutes;
use crate::binary::laws::law_multiplication_is_monotone;
use crate::binary::laws::law_one_is_neutral;
use crate::binary::laws::law_zero_absorbs;
use crate::binary::laws::law_zero_adds_nothing;
use crate::binary::laws::law_zero_is_neutral;
use crate::binary::laws::law_zeros_add_up;
use crate::binary::laws::lemma_zero_arithmetic;
use crate::binary::relative::dust;
use crate::binary::relative::is_ordinary;
use crate::binary::relative::lemma_dust;
use crate::binary::relative::lemma_ordinary_product;
use crate::binary::relative::lemma_within_product;
use crate::binary::relative::lemma_within_quotient;
use crate::binary::relative::within;
use crate::binary::single::Binary32;
use crate::binary::single::half;
use crate::binary::single::lemma_single_constants;
use crate::cavitating_eos::Branch;
use crate::cavitating_fluid::CavitatingFluidMaterial;
use crate::cavitating_fluid::GridFluid;
use crate::cavitating_fluid::IsothermalCavitatingFluidMaterial;
use crate::estimates::law_shear_stress_resists;
use crate::estimates::lemma_finite_terms;
use crate::estimates::lemma_nothing;
use crate::estimates::lemma_pressure;
use crate::estimates::lemma_push;
use crate::estimates::lemma_tensor_looser;
use crate::estimates::lemma_tensor_minus;
use crate::estimates::lemma_tensor_plus;
use crate::estimates::pressing;
use crate::estimates::pushing;
use crate::estimates::resembles;
use crate::estimates::sheared;
use crate::linalg::Mat2;
use crate::linalg::lemma_identity_has_unit_volume;
use crate::mechanics::MICRO;
use crate::mechanics::shear_stress;
use crate::numerics::Numerics;
use crate::particle::Particle;

verus! {

/// `r y / j / y` is `r / j`.
proof fn lemma_area_cancels(r: real, y: real, j: real)
    requires
        y > 0real,
        j > 0real,
    ensures
        ((r * y) / j) / y == r / j,
{
    let t = r / j;
    assert(t * j == r) by (nonlinear_arith)
        requires
            t == r / j,
            j > 0real,
    ;
    let u = t * y;
    assert(u * j == r * y) by (nonlinear_arith)
        requires
            u == t * y,
            t * j == r,
    ;
    let v = r * y;
    assert(v / j == u) by (nonlinear_arith)
        requires
            u * j == v,
            j > 0real,
    ;
    assert(u / y == t) by (nonlinear_arith)
        requires
            u == t * y,
            y > 0real,
    ;
}

/// Bounds of a product of bounded numbers.
proof fn lemma_product_bounds(x: real, y: real, a: real, b: real)
    requires
        x > 0real && y > 0real && a > 0real && b > 0real,
        1real <= a * x && x <= a,
        1real <= b * y && y <= b,
    ensures
        1real <= (a * b) * (x * y),
        x * y <= a * b,
        x * y > 0real,
{
    let (p, q) = (a * x, b * y);
    assert(1real <= p * q) by (nonlinear_arith)
        requires
            1real <= p,
            1real <= q,
    ;
    assert(p * q == (a * b) * (x * y)) by {
        lemma_four(a, x, b, y);
    }
    assert(x * y <= a * b && x * y > 0real) by (nonlinear_arith)
        requires
            0real < x <= a,
            0real < y <= b,
    ;
}

/// A product of four numbers in another order.
proof fn lemma_four(a: real, x: real, b: real, y: real)
    ensures
        (a * x) * (b * y) == (a * b) * (x * y),
{
    let (t, u) = (b * y, x * y);
    assert((a * x) * t == a * (x * t)) by (nonlinear_arith);
    assert((a * b) * u == a * (b * u)) by (nonlinear_arith);
    assert(x * t == b * u) by (nonlinear_arith)
        requires
            t == b * y,
            u == x * y,
    ;
}

/// The reciprocal bound of a bounded number.
proof fn lemma_quotient_bounds(x: real, y: real, a: real, b: real)
    requires
        x > 0real && y > 0real && a > 0real && b > 0real,
        1real <= a * x && x <= a,
        1real <= b * y && y <= b,
    ensures
        1real <= (a * b) * (x / y),
        x / y <= a * b,
        x / y > 0real,
{
    let z = 1real / y;
    assert(z > 0real && 1real <= b * z && z <= b && x / y == x * z) by (nonlinear_arith)
        requires
            z == 1real / y,
            y > 0real,
            b > 0real,
            1real <= b * y,
            y <= b,
    ;
    lemma_product_bounds(x, z, a, b);
}

/// The SI density of a grid fluid is its SI rest density over the volume ratio, whatever the
/// cell width, while the density is within its bounds.
pub proof fn law_si_density_is_free_of_the_cell_width(g: GridFluid, rho: Binary32, j: Binary32)
    requires
        is_ordinary(rho),
        is_ordinary(g.dx_meters),
        is_ordinary(j),
        g.rest_density == rho.mul(g.dx_meters).mul(g.dx_meters),
        g.min_density.le(g.rest_density.div(j)),
        g.rest_density.div(j).le(g.rest_density.div(g.volume_ratio_min)),
    ensures
        g.per_area(g.density_at(j)).is_finite(),
        within(g.per_area(g.density_at(j)).amount(), rho.amount() / j.amount(), 10real),
{
    let dx = g.dx_meters;
    let (r, x, v) = (rho.amount(), dx.amount(), j.amount());
    let a = rho.mul(dx);
    let b = a.mul(dx);
    let e = dx.mul(dx);
    lemma_single_constants();
    lemma_ordinary_product(rho, dx);
    lemma_ordinary_product(dx, dx);
    let y = x * x;
    assert((r * x) * x == r * y) by (nonlinear_arith)
        requires
            y == x * x,
    ;
    // rho dx^2
    let k = 1073741824real;
    let k2 = 1152921504606846976real;
    assert(k * k == k2);
    lemma_product_bounds(x, x, k, k);
    lemma_product_bounds(r, y, k, k2);
    let k3 = k * k2;
    assert(k3 == 1237940039285380274899124224real);
    let ry = r * y;
    lemma_scaled_size(a.amount(), r * x, x, ry);
    law_product_is_near(a, dx);
    lemma_within_product(a.amount(), r * x, 2real, x, x, 0real, b.amount());
    // rho dx^2 / J
    lemma_quotient_bounds(ry, v, k3, k);
    let k4 = k3 * k;
    assert(k4 == 1329227995784915872903807060280344576real);
    let d = ry / v;
    assert(d >= dust());
    lemma_scaled_quotient(b.amount(), ry, v, v, d, 4real);
    law_quotient_is_near(b, j);
    lemma_within_quotient(b.amount(), ry, 4real, v, v, 0real, b.div(j).amount());
    // rho / J
    lemma_area_cancels(r, y, v);
    lemma_quotient_bounds(r, v, k, k);
    let s = r / v;
    assert(s >= dust());
    lemma_scaled_quotient(b.div(j).amount(), d, e.amount(), y, s, 6real);
    law_quotient_is_near(b.div(j), e);
    lemma_within_quotient(
        b.div(j).amount(),
        d,
        6real,
        e.amount(),
        y,
        2real,
        b.div(j).div(e).amount(),
    );
    assert(g.density_at(j) == b.div(j));
}

/// A product of a number and one near another.
proof fn lemma_scaled_size(a: real, ax: real, x: real, e: real)
    requires
        within(a, ax, 2real),
        ax * x == e,
        0real < ax,
        0real < x,
        e <= 1237940039285380274899124224real,
    ensures
        size(a * x) <= huge(),
{
    assert(0real <= a <= 2real * ax);
    assert(0real <= a * x <= 2real * e) by (nonlinear_arith)
        requires
            0real <= a <= 2real * ax,
            0real < x,
            ax * x == e,
    ;
}

/// A quotient of numbers near others.
proof fn lemma_scaled_quotient(a: real, ax: real, b: real, bx: real, e: real, k: real)
    requires
        within(a, ax, k),
        within(b, bx, 2real),
        0real <= k <= 8real,
        e == ax / bx,
        0real < ax,
        0real < bx,
        e <= 1329227995784915872903807060280344576real,
    ensures
        size(a / b) <= huge(),
        b > 0real,
{
    assert(k * ax <= 8real * ax) by (nonlinear_arith)
        requires
            k <= 8real,
            ax > 0real,
    ;
    assert(0real <= a <= 2real * ax && 2real * b >= bx);
    assert(e * bx == ax) by (nonlinear_arith)
        requires
            e == ax / bx,
            bx > 0real,
    ;
    assert(e > 0real) by (nonlinear_arith)
        requires
            e * bx == ax,
            ax > 0real,
            bx > 0real,
    ;
    let q = a / b;
    assert(q * b == a) by (nonlinear_arith)
        requires
            q == a / b,
            b > 0real,
    ;
    assert(0real <= q <= 4real * e) by (nonlinear_arith)
        requires
            q * b == a,
            0real <= a <= 2real * ax,
            e * bx == ax,
            2real * b >= bx,
            bx > 0real,
            b > 0real,
            e > 0real,
    ;
}

/// The stress of a fluid on the grid: pressure and artificial viscosity push on every side,
/// and the viscosity times the deviator of twice the strain rate resists shearing.
pub proof fn law_grid_stress(g: GridFluid, pressure: Binary32, q: Binary32, p: Particle)
    requires
        g.viscous_pressure_stress(pressure, &p).sub(Mat2::isotropic(q)).is_finite(),
        g.dynamic_viscosity.is_finite(),
    ensures
        ({
            let c = p.velocity_gradient;
            let v = positive(g.dynamic_viscosity.amount());
            let push = pressure.amount() + q.amount();
            resembles(
                g.viscous_pressure_stress(pressure, &p).sub(Mat2::isotropic(q)),
                v * (c.at(0, 0) - c.at(1, 1)) - push,
                v * (c.at(0, 1) + c.at(1, 0)),
                v * (c.at(0, 1) + c.at(1, 0)),
                v * (c.at(1, 1) - c.at(0, 0)) - push,
                grid_stress_scale(g, pressure, q, p),
                14real,
            )
        }),
{
    let c = p.velocity_gradient;
    let v = g.dynamic_viscosity;
    let a = Mat2::isotropic(pressure.neg());
    let b = g.viscous_pressure_stress(pressure, &p);
    lemma_finite_terms(b, Mat2::isotropic(q));
    lemma_single_constants();
    lemma_constant_amounts();
    law_order_of_amounts(Binary32::zero(), v);
    if v.gt(Binary32::zero()) {
        lemma_finite_terms(a, shear_stress(v, c));
        law_shear_stress_resists(v, c);
        lemma_pressure(pressure);
        lemma_push(q);
        lemma_tensor_plus(pressing(pressure), sheared(v, c));
        lemma_tensor_minus(pressing(pressure).plus(sheared(v, c)), pushing(q));
    } else {
        lemma_pressure(pressure);
        lemma_push(q);
        lemma_tensor_minus(pressing(pressure), pushing(q));
        lemma_nothing(c.at(0, 0) - c.at(1, 1));
        lemma_nothing(c.at(0, 1) + c.at(1, 0));
        lemma_nothing(c.at(1, 1) - c.at(0, 0));
        let w = weight(v) * (4real * c.weight());
        assert(w >= 0real) by (nonlinear_arith)
            requires
                w == weight(v) * (4real * c.weight()),
                weight(v) >= 0real,
                c.weight() >= 0real,
        ;
        lemma_tensor_looser(
            pressing(pressure).minus(pushing(q)),
            weight(pressure) + w + weight(q),
            14real,
        );
    }
}

/// The size of the terms of the stress.
pub open spec fn grid_stress_scale(
    g: GridFluid,
    pressure: Binary32,
    q: Binary32,
    p: Particle,
) -> real {
    weight(pressure) + weight(g.dynamic_viscosity) * (4real * p.velocity_gradient.weight())
        + weight(q)
}

/// A cavitating fluid carries the pressure of its equation of state at the SI density
/// `rho_l / J`, whatever the cell width: the normal stresses are that pressure, the artificial
/// viscosity and the viscous stress.
pub proof fn law_pressure_is_free_of_the_cell_width<N: Numerics>(
    m: CavitatingFluidMaterial,
    p: Particle,
    n: &N,
) -> (r: (Binary32, Binary32))
    requires
        m.stress(p, n).is_finite(),
        m.dynamic_viscosity.is_finite(),
        is_ordinary(m.table.rho_l_ref_kg_m3),
        is_ordinary(m.dx_meters),
        is_ordinary(p.deformation_gradient.determinant()),
        Binary32::from_bits(MICRO).le(p.deformation_gradient.determinant()),
        m.rest_density_grid == m.table.rho_l_ref_kg_m3.mul(m.dx_meters).mul(m.dx_meters),
        m.min_density.le(m.rest_density_grid.div(p.deformation_gradient.determinant())),
        m.rest_density_grid.div(p.deformation_gradient.determinant()).le(
            m.rest_density_grid.div(m.volume_ratio_min),
        ),
    ensures
        ({
            let (si, q) = r;
            let c = p.velocity_gradient;
            let v = positive(m.dynamic_viscosity.amount());
            let pressure = m.table@.eos_at(p.temperature, n).pressure_at(si, n);
            let push = pressure.amount() + q.amount();
            &&& within(
                si.amount(),
                m.table.rho_l_ref_kg_m3.amount() / p.deformation_gradient.determinant().amount(),
                10real,
            )
            &&& !p.velocity_gradient.symmetrised().trace().lt(Binary32::zero()) ==> q
                == Binary32::zero()
            &&& q == m.grid().shock_at(
                &p,
                m.table@.eos_at(p.temperature, n).sound_at(si, n).div(
                    m.dx_meters.mul(m.dx_meters),
                ),
                m.table.gamma_l,
            )
            &&& resembles(
                m.stress(p, n),
                v * (c.at(0, 0) - c.at(1, 1)) - push,
                v * (c.at(0, 1) + c.at(1, 0)),
                v * (c.at(0, 1) + c.at(1, 0)),
                v * (c.at(1, 1) - c.at(0, 0)) - push,
                grid_stress_scale(m.grid(), pressure, q, p),
                14real,
            )
        }),
{
    let j = p.deformation_gradient.determinant();
    let g = m.grid();
    lemma_single_constants();
    assert(g.stress_ratio(&p) == j);
    law_si_density_is_free_of_the_cell_width(g, m.table.rho_l_ref_kg_m3, j);
    let density = g.density_at(j);
    assert(density.max(m.min_density) == density);
    let si = g.per_area(density);
    let pressure = m.table@.eos_at(p.temperature, n).pressure_at(si, n);
    let q = g.shock_at(&p, m.sound_at(density, p.temperature, n), m.table.gamma_l);
    law_grid_stress(g, pressure, q, p);
    lemma_half_is_negative(p.velocity_gradient.symmetrised().trace());
    (si, q)
}

/// Half a number is not below zero where the number is not.
proof fn lemma_half_is_negative(x: Binary32)
    ensures
        !x.lt(Binary32::zero()) ==> !half().mul(x).lt(Binary32::zero()),
{
    lemma_single_constants();
    law_multiplication_commutes(half(), x);
    if !x.is_nan() {
        if !x.lt(Binary32::zero()) {
            law_finite_product_is_a_number(x, half());
            law_zero_absorbs(Binary32::zero(), half());
            law_multiplication_is_monotone(Binary32::zero(), x, half());
        }
    } else {
        reveal(Binary32::spec_mul);
    }
}

/// The same of a cavitating fluid at one temperature.
pub proof fn law_isothermal_pressure_is_free_of_the_cell_width<N: Numerics>(
    m: IsothermalCavitatingFluidMaterial,
    p: Particle,
    n: &N,
) -> (r: (Binary32, Binary32))
    requires
        m.stress(p, n).is_finite(),
        m.dynamic_viscosity.is_finite(),
        is_ordinary(m.eos.rho_l_ref_kg_m3),
        is_ordinary(m.dx_meters),
        is_ordinary(p.deformation_gradient.determinant()),
        Binary32::from_bits(MICRO).le(p.deformation_gradient.determinant()),
        m.rest_density_grid == m.eos.rho_l_ref_kg_m3.mul(m.dx_meters).mul(m.dx_meters),
        m.min_density.le(m.rest_density_grid.div(p.deformation_gradient.determinant())),
        m.rest_density_grid.div(p.deformation_gradient.determinant()).le(
            m.rest_density_grid.div(m.volume_ratio_min),
        ),
    ensures
        ({
            let (si, q) = r;
            let c = p.velocity_gradient;
            let v = positive(m.dynamic_viscosity.amount());
            let pressure = m.eos.pressure_at(si, n);
            let push = pressure.amount() + q.amount();
            &&& within(
                si.amount(),
                m.eos.rho_l_ref_kg_m3.amount() / p.deformation_gradient.determinant().amount(),
                10real,
            )
            &&& !p.velocity_gradient.symmetrised().trace().lt(Binary32::zero()) ==> q
                == Binary32::zero()
            &&& q == m.grid().shock_at(
                &p,
                m.eos.c_l_m_s.mul(m.eos.c_l_m_s).div(m.dx_meters.mul(m.dx_meters)),
                m.eos.gamma_l,
            )
            &&& resembles(
                m.stress(p, n),
                v * (c.at(0, 0) - c.at(1, 1)) - push,
                v * (c.at(0, 1) + c.at(1, 0)),
                v * (c.at(0, 1) + c.at(1, 0)),
                v * (c.at(1, 1) - c.at(0, 0)) - push,
                grid_stress_scale(m.grid(), pressure, q, p),
                14real,
            )
        }),
{
    let j = p.deformation_gradient.determinant();
    let g = m.grid();
    lemma_single_constants();
    assert(g.stress_ratio(&p) == j);
    law_si_density_is_free_of_the_cell_width(g, m.eos.rho_l_ref_kg_m3, j);
    let si = g.per_area(g.density_at(j));
    let pressure = m.eos.pressure_at(si, n);
    let q = g.shock_at(&p, m.rest_c2(), m.eos.gamma_l);
    law_grid_stress(g, pressure, q, p);
    lemma_half_is_negative(p.velocity_gradient.symmetrised().trace());
    (si, q)
}

/// Without motion the normal stress is the pressure.
proof fn lemma_still_stress(g: GridFluid, pressure: Binary32, p: Particle)
    requires
        p.velocity_gradient == Mat2::zero(),
        g.dynamic_viscosity.is_finite(),
        pressure.is_finite(),
    ensures
        ({
            let s = g.viscous_pressure_stress(pressure, &p).sub(
                Mat2::isotropic(Binary32::zero()),
            );
            &&& s.x_axis.x.eq(pressure.neg())
            &&& s.y_axis.y.eq(pressure.neg())
            &&& s.x_axis.y.eq(Binary32::zero())
            &&& s.y_axis.x.eq(Binary32::zero())
        }),
{
    let z = Binary32::zero();
    let v = g.dynamic_viscosity;
    lemma_single_constants();
    lemma_zero_arithmetic();
    law_zero_absorbs(z, v);
    law_zero_absorbs(z, half());
    law_zeros_add_up(z, z.mul(v));
    law_zero_is_neutral(z);
    law_zero_adds_nothing(pressure.neg(), z.mul(v));
    let t = g.viscous_pressure_stress(pressure, &p);
    assert(Mat2::zero().symmetrised() == Mat2::zero());
    assert(Mat2::zero().deviator() == Mat2::zero());
    assert(t.x_axis.x.eq(pressure.neg()) && t.y_axis.y.eq(pressure.neg()));
    assert(t.x_axis.y.eq(z) && t.y_axis.x.eq(z));
    law_zero_is_neutral(t.x_axis.x);
    law_zero_is_neutral(t.y_axis.y);
    law_zero_is_neutral(t.x_axis.y);
    law_zero_is_neutral(t.y_axis.x);
}

/// The liquid pressure next to the rest density.
proof fn lemma_pressure_near_rest(c: Binary32, rho: Binary32, si: Binary32)
    requires
        is_ordinary(c),
        is_ordinary(rho),
        si.is_finite(),
        within(si.amount(), rho.amount(), 10real),
    ensures
        c.mul(c).mul(si.sub(rho)).is_finite(),
        8388608real * size(c.mul(c).mul(si.sub(rho)).amount()) <= 12real * ((c.amount()
            * c.amount()) * rho.amount()),
{
    let (x, r) = (c.amount(), rho.amount());
    let d = si.sub(rho);
    lemma_ordinary_product(c, c);
    law_difference_is_near(si, rho);
    lemma_dust();
    lemma_tiny();
    let y = x * x;
    let f = 8388608real;
    let k = 1073741824real;
    let k2 = 1152921504606846976real;
    let e = size(d.amount());
    assert(8192real * (f * e) <= 81930real * r);
    let u = c.mul(c).amount();
    assert(8192real * u <= 8193real * y && u > 0real);
    let w = y * r;
    assert(k * k == k2);
    lemma_product_bounds(x, x, k, k);
    lemma_product_bounds(y, r, k2, k);
    assert(size(u * d.amount()) == u * e) by (nonlinear_arith)
        requires
            u > 0real,
            e == size(d.amount()),
    ;
    let t = u * e;
    assert(8192real * 8192real * (f * t) <= 8193real * 81930real * w) by (nonlinear_arith)
        requires
            8192real * (f * e) <= 81930real * r,
            0real < 8192real * u <= 8193real * y,
            t == u * e,
            w == y * r,
            e >= 0real,
            r > 0real,
            f == 8388608real,
    ;
    assert(w <= 1237940039285380274899124224real);
    law_product_is_near(c.mul(c), d);
    let got = size(c.mul(c).mul(d).amount());
    assert(f * got <= f * t + t + f * tiny());
    assert(f * tiny() <= w / 1000real);
}

/// An undeformed particle at rest carries no pressure, up to the rounding of
/// `rho dx^2 / dx^2`, on a grid of any cell width and at every temperature at which the rest
/// density is that of a liquid.
pub proof fn law_undeformed_fluid_carries_no_pressure<N: Numerics>(
    m: CavitatingFluidMaterial,
    p: Particle,
    n: &N,
)
    requires
        p.deformation_gradient == Mat2::identity(),
        p.velocity_gradient == Mat2::zero(),
        m.dynamic_viscosity.is_finite(),
        is_ordinary(m.table.rho_l_ref_kg_m3),
        is_ordinary(m.table.c_l_m_s),
        is_ordinary(m.dx_meters),
        m.rest_density_grid == m.table.rho_l_ref_kg_m3.mul(m.dx_meters).mul(m.dx_meters),
        m.min_density.le(m.rest_density_grid),
        m.rest_density_grid.le(m.rest_density_grid.div(m.volume_ratio_min)),
        forall|si: Binary32|
            within(si.amount(), m.table.rho_l_ref_kg_m3.amount(), 10real) && si.is_finite() ==>
                #[trigger] m.table@.eos_at(p.temperature, n).branch(si) == Branch::Liquid,
    ensures
        ({
            let s = m.stress(p, n);
            let c = m.table.c_l_m_s.amount();
            let r = m.table.rho_l_ref_kg_m3.amount();
            &&& 8388608real * size(s.x_axis.x.amount()) <= 12real * ((c * c) * r)
            &&& 8388608real * size(s.y_axis.y.amount()) <= 12real * ((c * c) * r)
            &&& s.x_axis.y.eq(Binary32::zero()) && s.y_axis.x.eq(Binary32::zero())
        }),
{
    let one = Binary32::one();
    let z = Binary32::zero();
    let g = m.grid();
    let rho = m.table.rho_l_ref_kg_m3;
    lemma_single_constants();
    lemma_constant_amounts();
    lemma_identity_has_unit_volume();
    lemma_zero_arithmetic();
    let j = p.deformation_gradient.determinant();
    assert(j == one);
    assert(g.stress_ratio(&p) == one);
    let rest = m.rest_density_grid;
    law_one_is_neutral(rest);
    law_si_density_is_free_of_the_cell_width(g, rho, one);
    let density = g.density_at(one);
    let si = g.per_area(density);
    assert(rho.amount() / 1real == rho.amount());
    let eos = m.table@.eos_at(p.temperature, n);
    assert(eos.branch(si) == Branch::Liquid);
    lemma_pressure_near_rest(m.table.c_l_m_s, rho, si);
    let pressure = eos.pressure_at(si, n);
    assert(pressure == m.table.c_l_m_s.mul(m.table.c_l_m_s).mul(si.sub(rho)));
    let q = g.shock_at(&p, m.sound_at(density, p.temperature, n), m.table.gamma_l);
    law_zero_absorbs(z, half());
    assert(p.velocity_gradient.symmetrised().trace() == z);
    assert(!half().mul(z).lt(z));
    assert(q == z);
    lemma_still_stress(g, pressure, p);
    lemma_of(pressure);
    lemma_opposite(Estimate::of(pressure));
    let s = m.stress(p, n);
    law_order_of_amounts(s.x_axis.x, pressure.neg());
    law_order_of_amounts(s.y_axis.y, pressure.neg());
}

} // verus!
