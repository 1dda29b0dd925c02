use vstd::arithmetic::power2::lemma2_to64;
use vstd::arithmetic::power2::lemma_pow2_adds;
use vstd::arithmetic::power2::lemma_pow2_pos;
use vstd::arithmetic::power2::pow2;
use vstd::prelude::*;

use crate::binary::around::Estimate;
use crate::binary::around::around;
use crate::binary::around::larger;
use crate::binary::around::law_quotient_multiplies_back;
use crate::binary::around::lemma_finite_parts;
use crate::binary::around::lemma_halved;
use crate::binary::around::lemma_looser;
use crate::binary::around::lemma_minus;
use crate::binary::around::lemma_of;
use crate::binary::around::lemma_plus;
use crate::binary::around::lemma_quotient_of;
use crate::binary::around::lemma_times;
use crate::binary::around::lemma_units;
use crate::binary::around::weight;
use crate::binary::error::law_order_of_amounts;
use crate::binary::error::lemma_amount;
use crate::binary::error::lemma_constant_amounts;
use crate::binary::error::lemma_tiny;
use crate::binary::error::off;
use crate::binary::error::size;
use crate::binary::error::units;
use crate::binary::exact::lemma_mag_of_parts;
use crate::binary::laws::law_multiplication_commutes;
use crate::binary::relative::dust;
use crate::binary::relative::lemma_dust;
use crate::binary::single::Binary32;
use crate::binary::single::half;
use crate::binary::single::lemma_single_constants;
use crate::binary::single::two;
use crate::estimates::bounded;
use crate::estimates::estimate;
use crate::estimates::lemma_bounded;
use crate::estimates::lemma_product;
use crate::fluid::tait_c2;
use crate::fluid::tait_pressure;
use crate::linalg::Mat2;
use crate::linalg::Vec2;
use crate::mechanics::MICRO;
use crate::mechanics::MIN_J;
use crate::mechanics::NANO;
use crate::mechanics::damped_velocity;
use crate::mechanics::elastic_volume;
use crate::mechanics::elastic_wave_c2;
use crate::mechanics::entry_ratio;
use crate::mechanics::lame_from_young;
use crate::mechanics::seeded;
use crate::mechanics::stepped_ratio;
use crate::mechanics::von_neumann_richtmyer_q;
use crate::mechanics::with_deformation;
use crate::numerics::Numerics;
use crate::numerics::Unary;
use crate::particle::Particle;

verus! {

/// The weak-shock coefficient divides by four.
pub proof fn lemma_quarter()
    ensures
        estimate(Binary32::from_bits(0x3e80_0000), 1real / 4real, 1real, 0real).holds(),
{
    let q = Binary32::from_bits(0x3e80_0000);
    lemma_single_constants();
    lemma_amount(q);
    lemma_tiny();
    lemma2_to64();
    lemma_pow2_pos(23);
    lemma_mag_of_parts(23, 124, pow2(23));
    lemma_pow2_adds(23, 124);
    lemma_pow2_adds(147, 2);
    let e = units();
    let x = q.amount();
    assert(x == 1real / 4real) by (nonlinear_arith)
        requires
            4real * (x * e) == e,
            e > 0real,
    ;
}

/// Artificial viscosity under compression is `(gamma + 1) / 4 rho d^2 - rho c d` at the
/// velocity jump `d` over a cell: both terms push against the compression.
pub proof fn law_shock_resists_compression(
    rest_density: Binary32,
    j: Binary32,
    div_v: Binary32,
    grid_cell_size: Binary32,
    c_sound: Binary32,
    gamma: Binary32,
)
    requires
        div_v.lt(Binary32::zero()),
        von_neumann_richtmyer_q(
            rest_density,
            j,
            div_v,
            grid_cell_size,
            c_sound,
            gamma,
        ).is_finite(),
    ensures
        ({
            let rho = rest_density.div(j);
            let r = rho.amount();
            let d = grid_cell_size.amount() * div_v.amount();
            let w = weight(grid_cell_size) * weight(div_v);
            around(
                von_neumann_richtmyer_q(
                    rest_density,
                    j,
                    div_v,
                    grid_cell_size,
                    c_sound,
                    gamma,
                ),
                ((((gamma.amount() + 1real) * (1real / 4real)) * r) * d) * d - (r
                    * c_sound.amount()) * d,
                ((((weight(gamma) + 1real) * 1real) * weight(rho)) * w) * w + (weight(rho) * weight(
                    c_sound,
                )) * w,
                20real,
            )
        }),
{
    let rho = rest_density.div(j);
    let jump = grid_cell_size.mul(div_v);
    let quarter = Binary32::from_bits(0x3e80_0000);
    let a = gamma.add(Binary32::one());
    let b = a.mul(quarter);
    let c = b.mul(rho);
    let d = c.mul(jump);
    let e = d.mul(jump);
    let f = rho.mul(c_sound);
    let g = f.mul(jump);
    lemma_finite_parts(e, g);
    lemma_finite_parts(d, jump);
    lemma_finite_parts(c, jump);
    lemma_finite_parts(b, rho);
    lemma_finite_parts(a, quarter);
    lemma_finite_parts(gamma, Binary32::one());
    lemma_finite_parts(f, jump);
    lemma_finite_parts(rho, c_sound);
    lemma_finite_parts(grid_cell_size, div_v);
    lemma_of(gamma);
    lemma_of(rho);
    lemma_of(c_sound);
    lemma_of(grid_cell_size);
    lemma_of(div_v);
    lemma_units();
    lemma_quarter();
    let q = estimate(quarter, 1real / 4real, 1real, 0real);
    let one = Estimate::unit(Binary32::one());
    let ea = Estimate::of(gamma).plus(one);
    lemma_plus(Estimate::of(gamma), one);
    lemma_times(ea, q);
    let eb = ea.times(q);
    let er = Estimate::of(rho);
    lemma_times(eb, er);
    let ej = Estimate::of(grid_cell_size).times(Estimate::of(div_v));
    lemma_times(Estimate::of(grid_cell_size), Estimate::of(div_v));
    let ec = eb.times(er);
    lemma_times(ec, ej);
    lemma_times(ec.times(ej), ej);
    let ef = er.times(Estimate::of(c_sound));
    lemma_times(er, Estimate::of(c_sound));
    lemma_times(ef, ej);
    let all = ec.times(ej).times(ej).minus(ef.times(ej));
    lemma_minus(ec.times(ej).times(ej), ef.times(ej));
    lemma_looser(all, all.scale, 20real);
}

/// The Tait pressure is `B (x - 1)` at the power `x` of the density ratio, not below its
/// floor.
pub proof fn law_tait_pressure(eos_stiffness: Binary32, powered: Binary32, floor: Binary32)
    requires
        eos_stiffness.mul(powered.sub(Binary32::one())).is_finite(),
        floor.is_finite(),
    ensures
        tait_pressure(eos_stiffness, powered, floor).is_finite(),
        off(
            tait_pressure(eos_stiffness, powered, floor).amount(),
            larger(eos_stiffness.amount() * (powered.amount() - 1real), floor.amount()),
        ) <= 4real * (weight(eos_stiffness) * (weight(powered) + 1real)),
{
    let d = powered.sub(Binary32::one());
    lemma_finite_parts(eos_stiffness, d);
    lemma_finite_parts(powered, Binary32::one());
    lemma_of(eos_stiffness);
    lemma_of(powered);
    lemma_units();
    lemma_single_constants();
    let u = Estimate::unit(Binary32::one());
    lemma_minus(Estimate::of(powered), u);
    let e = Estimate::of(eos_stiffness).times(Estimate::of(powered).minus(u));
    lemma_times(Estimate::of(eos_stiffness), Estimate::of(powered).minus(u));
    law_order_of_amounts(e.got, floor);
}

/// The Tait sound speed: `c^2 rho = B gamma x` at the power `x` of the density ratio.
pub proof fn law_tait_sound_speed(
    eos_stiffness: Binary32,
    eos_power: Binary32,
    powered: Binary32,
    density: Binary32,
)
    requires
        density.is_finite(),
        density.amount() > 0real,
        eos_stiffness.mul(eos_power).mul(powered).is_finite(),
        tait_c2(eos_stiffness, eos_power, powered, density).is_finite(),
    ensures
        off(
            tait_c2(eos_stiffness, eos_power, powered, density).amount() * density.amount(),
            (eos_stiffness.amount() * eos_power.amount()) * powered.amount(),
        ) <= 6real * ((weight(eos_stiffness) * weight(eos_power)) * weight(powered)) + dust()
            * density.amount(),
{
    let a = eos_stiffness.mul(eos_power);
    let b = a.mul(powered);
    lemma_finite_parts(a, powered);
    lemma_finite_parts(eos_stiffness, eos_power);
    lemma_of(eos_stiffness);
    lemma_of(eos_power);
    lemma_of(powered);
    let e = Estimate::of(eos_stiffness).times(Estimate::of(eos_power));
    lemma_times(Estimate::of(eos_stiffness), Estimate::of(eos_power));
    let f = e.times(Estimate::of(powered));
    lemma_times(e, Estimate::of(powered));
    lemma_quotient_of(f, density);
    assert((f.parts + 2real) * f.scale == 6real * f.scale);
}

/// The volume ratio of a step solves the continuity equation: it is the one before times the
/// exponential of `dt` times the divergence, within its bounds.
pub proof fn law_ratio_follows_the_divergence<N: Numerics>(
    p: Particle,
    dt: Binary32,
    lo: Binary32,
    hi: Binary32,
    n: &N,
) -> (exponent: Binary32)
    requires
        lo.is_finite() && hi.is_finite() && lo.le(hi),
        dt.mul(p.velocity_gradient.trace()).is_finite(),
        p.deformation_gradient.determinant().mul(
            n.unary_of(Unary::Exp, dt.mul(p.velocity_gradient.trace())),
        ).is_finite(),
    ensures
        around(
            exponent,
            dt.amount() * (p.velocity_gradient.at(0, 0) + p.velocity_gradient.at(1, 1)),
            weight(dt) * (weight(p.velocity_gradient.x_axis.x) + weight(
                p.velocity_gradient.y_axis.y,
            )),
            4real,
        ),
        ({
            let j = p.deformation_gradient.determinant();
            let growth = n.unary_of(Unary::Exp, exponent);
            let r = stepped_ratio(p, dt, lo, hi, n);
            &&& r.is_finite()
            &&& lo.amount() <= r.amount() <= hi.amount()
            &&& off(r.amount(), bounded(j.amount() * growth.amount(), lo.amount(), hi.amount()))
                <= 2real * (weight(j) * weight(growth))
        }),
{
    let c = p.velocity_gradient;
    let exponent = dt.mul(c.trace());
    lemma_finite_parts(dt, c.trace());
    lemma_finite_parts(c.x_axis.x, c.y_axis.y);
    lemma_of(dt);
    lemma_of(c.x_axis.x);
    lemma_of(c.y_axis.y);
    let t = Estimate::of(c.x_axis.x).plus(Estimate::of(c.y_axis.y));
    lemma_plus(Estimate::of(c.x_axis.x), Estimate::of(c.y_axis.y));
    lemma_times(Estimate::of(dt), t);
    let j = p.deformation_gradient.determinant();
    let growth = n.unary_of(Unary::Exp, exponent);
    lemma_product(j, growth);
    let e = Estimate::of(j).times(Estimate::of(growth));
    lemma_bounded(j.mul(growth), lo, hi, e.exact, 2real * e.scale);
    exponent
}

/// A particle spawned into a fluid: its reference volume holds its mass at the rest density,
/// and volume and density follow the volume ratio that it has. Nothing else changes.
pub proof fn law_spawned_particle_keeps_its_mass(p: Particle, rest_density: Binary32)
    requires
        p.mass.is_finite(),
        rest_density.is_finite(),
        rest_density.amount() > 0real,
        p.mass.div(rest_density).is_finite(),
    ensures
        ({
            let q = seeded(p, rest_density);
            let j = p.deformation_gradient.determinant();
            &&& off(q.initial_volume.amount() * rest_density.amount(), p.mass.amount()) <= size(
                p.mass.amount(),
            ) + dust() * rest_density.amount()
            &&& q.volume.is_finite() ==> around(
                q.volume,
                q.initial_volume.amount() * j.amount(),
                weight(q.initial_volume) * weight(j),
                2real,
            )
            &&& j.is_finite() && j.amount() != 0real && q.density.is_finite() ==> off(
                q.density.amount() * j.amount(),
                rest_density.amount(),
            ) <= rest_density.amount() + dust() * size(j.amount())
            &&& q == (Particle {
                initial_volume: q.initial_volume,
                volume: q.volume,
                density: q.density,
                ..p
            })
        }),
{
    let q = seeded(p, rest_density);
    let j = p.deformation_gradient.determinant();
    law_quotient_multiplies_back(p.mass, rest_density);
    if q.volume.is_finite() {
        lemma_product(q.initial_volume, j);
    }
    if j.is_finite() && j.amount() != 0real && q.density.is_finite() {
        law_quotient_multiplies_back(rest_density, j);
    }
}

/// A velocity decays by the share `damping dt` of it.
pub proof fn law_damping_takes_its_share(v: Vec2, settling_damping: Binary32, dt: Binary32)
    requires
        settling_damping.gt(Binary32::zero()),
        damped_velocity(v, settling_damping, dt).x.is_finite(),
        damped_velocity(v, settling_damping, dt).y.is_finite(),
    ensures
        ({
            let d = damped_velocity(v, settling_damping, dt);
            let left = 1real - settling_damping.amount() * dt.amount();
            let w = 1real + weight(settling_damping) * weight(dt);
            &&& around(d.x, v.x.amount() * left, weight(v.x) * w, 6real)
            &&& around(d.y, v.y.amount() * left, weight(v.y) * w, 6real)
        }),
{
    let x = settling_damping.mul(dt);
    let f = Binary32::one().sub(x);
    lemma_finite_parts(v.x, f);
    lemma_finite_parts(v.y, f);
    lemma_finite_parts(Binary32::one(), x);
    lemma_product(settling_damping, dt);
    lemma_units();
    lemma_of(v.x);
    lemma_of(v.y);
    let e = Estimate::of(settling_damping).times(Estimate::of(dt));
    let u = Estimate::unit(Binary32::one());
    lemma_minus(u, e);
    lemma_times(Estimate::of(v.x), u.minus(e));
    lemma_times(Estimate::of(v.y), u.minus(e));
}

/// The volume of an elastic particle follows its determinant, and its density holds its mass;
/// only those change with the deformation gradient.
pub proof fn law_elastic_volume_follows_the_deformation(p: Particle, f: Mat2)
    requires
        p.mass.is_finite(),
        with_deformation(p, f).volume.is_finite(),
        with_deformation(p, f).density.is_finite(),
        f.determinant().is_finite(),
        Binary32::from_bits(MIN_J).le(f.determinant()),
        p.initial_volume.mul(f.determinant()).is_finite(),
        Binary32::from_bits(MICRO).le(p.initial_volume.mul(f.determinant())),
    ensures
        ({
            let q = with_deformation(p, f);
            let j = f.determinant();
            &&& around(
                q.volume,
                p.initial_volume.amount() * j.amount(),
                weight(p.initial_volume) * weight(j),
                2real,
            )
            &&& off(q.density.amount() * q.volume.amount(), p.mass.amount()) <= size(
                p.mass.amount(),
            ) + dust() * q.volume.amount()
            &&& q == (Particle {
                deformation_gradient: f,
                volume: q.volume,
                density: q.density,
                ..p
            })
        }),
{
    let j = f.determinant();
    let v = p.initial_volume.mul(j);
    lemma_single_constants();
    lemma_constant_amounts();
    lemma_product(p.initial_volume, j);
    law_order_of_amounts(Binary32::zero(), v);
    assert(elastic_volume(p, f) == v);
    law_quotient_multiplies_back(p.mass, v);
}

/// Lame's parameters: `2 mu (1 + nu) = E` and `lambda (1 + nu) (1 - 2 nu) = E nu`.
pub proof fn law_lame_parameters(young_modulus: Binary32, poisson_ratio: Binary32)
    requires
        young_modulus.is_finite(),
        poisson_ratio.is_finite(),
        poisson_ratio.amount() > -1real,
        2real * poisson_ratio.amount() < 1real,
        ({
            let (lambda, mu) = lame_from_young(young_modulus, poisson_ratio);
            let a = Binary32::one().add(poisson_ratio);
            let b = Binary32::one().sub(two().mul(poisson_ratio));
            &&& lambda.is_finite() && mu.is_finite()
            &&& two().mul(a).is_finite() && a.mul(b).is_finite()
            &&& two().mul(a).amount() != 0real && a.mul(b).amount() != 0real
            &&& young_modulus.mul(poisson_ratio).is_finite()
        }),
    ensures
        ({
            let (lambda, mu) = lame_from_young(young_modulus, poisson_ratio);
            let (e, v) = (young_modulus.amount(), poisson_ratio.amount());
            let a = Binary32::one().add(poisson_ratio);
            let b = Binary32::one().sub(two().mul(poisson_ratio));
            let (d, f) = (two().mul(a).amount(), a.mul(b).amount());
            &&& around(two().mul(a), 2real * (1real + v), 2real * (1real + weight(poisson_ratio)), 6real)
            &&& around(
                a.mul(b),
                (1real + v) * (1real - 2real * v),
                (1real + weight(poisson_ratio)) * (1real + 2real * weight(poisson_ratio)),
                10real,
            )
            &&& off(mu.amount() * d, e) <= size(e) + dust() * size(d)
            &&& off(lambda.amount() * f, e * v) <= 4real * (weight(young_modulus) * weight(
                poisson_ratio,
            )) + dust() * size(f)
        }),
{
    let (lambda, mu) = lame_from_young(young_modulus, poisson_ratio);
    let one = Binary32::one();
    let v = poisson_ratio;
    let a = one.add(v);
    let t = two().mul(v);
    let b = one.sub(t);
    lemma_finite_parts(a, b);
    lemma_finite_parts(one, t);
    lemma_units();
    lemma_constant_amounts();
    lemma_single_constants();
    lemma_of(v);
    let u = Estimate::unit(one);
    let w = estimate(two(), 2real, 2real, 0real);
    lemma_plus(u, Estimate::of(v));
    let ea = u.plus(Estimate::of(v));
    lemma_times(w, ea);
    lemma_times(w, Estimate::of(v));
    let eb = u.minus(w.times(Estimate::of(v)));
    lemma_minus(u, w.times(Estimate::of(v)));
    lemma_times(ea, eb);
    let ed = w.times(ea);
    lemma_looser(ed, ed.scale, 6real);
    let ef = ea.times(eb);
    lemma_looser(ef, ef.scale, 10real);
    law_quotient_multiplies_back(young_modulus, two().mul(a));
    lemma_product(young_modulus, v);
    let ev = Estimate::of(young_modulus).times(Estimate::of(v));
    lemma_quotient_of(ev, a.mul(b));
    assert((ev.parts + 2real) * ev.scale == 4real * ev.scale);
}

/// Elastic waves: `c^2 rho = (lambda + 2 mu) h`.
pub proof fn law_elastic_wave_speed(
    lambda: Binary32,
    mu: Binary32,
    hardening_scale: Binary32,
    density: Binary32,
    min_density: Binary32,
)
    requires
        density.is_finite(),
        density.amount() > 0real,
        min_density.le(density),
        lambda.add(two().mul(mu)).mul(hardening_scale).is_finite(),
        elastic_wave_c2(lambda, mu, hardening_scale, density, min_density).is_finite(),
    ensures
        off(
            elastic_wave_c2(lambda, mu, hardening_scale, density, min_density).amount()
                * density.amount(),
            (lambda.amount() + 2real * mu.amount()) * hardening_scale.amount(),
        ) <= 8real * ((weight(lambda) + 2real * weight(mu)) * weight(hardening_scale)) + dust()
            * density.amount(),
{
    let a = two().mul(mu);
    let b = lambda.add(a);
    let c = b.mul(hardening_scale);
    lemma_finite_parts(b, hardening_scale);
    lemma_finite_parts(lambda, a);
    lemma_finite_parts(two(), mu);
    lemma_of(lambda);
    lemma_of(mu);
    lemma_of(hardening_scale);
    lemma_constant_amounts();
    lemma_single_constants();
    let w = estimate(two(), 2real, 2real, 0real);
    lemma_times(w, Estimate::of(mu));
    let e = Estimate::of(lambda).plus(w.times(Estimate::of(mu)));
    lemma_plus(Estimate::of(lambda), w.times(Estimate::of(mu)));
    let f = e.times(Estimate::of(hardening_scale));
    lemma_times(e, Estimate::of(hardening_scale));
    assert(density.max(min_density) == density);
    lemma_quotient_of(f, density);
    assert((f.parts + 2real) * f.scale == 8real * f.scale);
}

/// The density ratio at a volume ratio: times the rest density and the volume ratio it is the
/// rest density.
pub proof fn law_density_ratio(rest_density: Binary32, j: Binary32)
    requires
        rest_density.is_finite(),
        rest_density.amount() > 0real,
        j.is_finite(),
        j.amount() > 0real,
        rest_density.div(j).is_finite(),
        rest_density.div(j).div(rest_density).is_finite(),
    ensures
        is_density_ratio(rest_density.div(j).div(rest_density), rest_density, j),
{
    let d = rest_density.div(j);
    let ratio = d.div(rest_density);
    law_quotient_multiplies_back(rest_density, j);
    law_quotient_multiplies_back(d, rest_density);
    lemma_dust();
    let (x, y, r, q) = (d.amount(), j.amount(), rest_density.amount(), ratio.amount());
    let e = q * r - x;
    assert((q * r) * y == x * y + e * y && size(e * y) == size(e) * y && size(x * y) == size(x) * y)
        by (nonlinear_arith)
        requires
            e == q * r - x,
            y > 0real,
    ;
    let t = dust() * r;
    assert(8388608real * (size(e) * y) <= size(x) * y + t * y) by (nonlinear_arith)
        requires
            8388608real * size(e) <= size(x) + t,
            y > 0real,
    ;
    assert(dust() * y > 0real) by (nonlinear_arith)
        requires
            dust() > 0real,
            y > 0real,
    ;
}

/// `ratio` is `1 / j`: times the rest density and `j` it is the rest density.
pub open spec fn is_density_ratio(ratio: Binary32, rest_density: Binary32, j: Binary32) -> bool {
    let (r, y) = (rest_density.amount(), j.amount());
    off((ratio.amount() * r) * y, r) <= 4real * (r + dust() * y) + (dust() * r) * y
}

/// Half the trace of twice the symmetric part is the divergence.
pub proof fn law_divergence(c: Mat2)
    requires
        half().mul(c.symmetrised().trace()).is_finite(),
    ensures
        around(
            half().mul(c.symmetrised().trace()),
            c.at(0, 0) + c.at(1, 1),
            2real * (weight(c.x_axis.x) + weight(c.y_axis.y)),
            6real,
        ),
{
    let t = c.symmetrised().trace();
    law_multiplication_commutes(half(), t);
    lemma_finite_parts(half(), t);
    lemma_finite_parts(c.x_axis.x.add(c.x_axis.x), c.y_axis.y.add(c.y_axis.y));
    lemma_finite_parts(c.x_axis.x, c.x_axis.x);
    lemma_finite_parts(c.y_axis.y, c.y_axis.y);
    lemma_of(c.x_axis.x);
    lemma_of(c.y_axis.y);
    let (x, y) = (Estimate::of(c.x_axis.x), Estimate::of(c.y_axis.y));
    lemma_plus(x, x);
    lemma_plus(y, y);
    lemma_plus(x.plus(x), y.plus(y));
    lemma_halved(x.plus(x).plus(y.plus(y)));
}

/// A particle that passes into a fluid brings its volume: the volume ratio times the reference
/// volume is the present volume, within the bounds.
pub proof fn law_entry_keeps_the_volume(
    p: Particle,
    rest_density: Binary32,
    lo: Binary32,
    hi: Binary32,
)
    requires
        lo.is_finite() && hi.is_finite() && lo.le(hi),
        p.volume.is_finite(),
        Binary32::from_bits(NANO).le(p.volume),
        p.mass.div(rest_density).is_finite(),
        p.mass.div(rest_density).amount() > 0real,
        p.volume.div(p.mass.div(rest_density)).is_finite(),
    ensures
        ({
            let v = p.mass.div(rest_density).amount();
            let j = entry_ratio(p, rest_density, lo, hi);
            &&& lo.amount() <= j.amount() <= hi.amount()
            &&& lo.amount() < j.amount() < hi.amount() ==> off(j.amount() * v, p.volume.amount())
                <= size(p.volume.amount()) + dust() * v
        }),
{
    let v = p.mass.div(rest_density);
    let x = p.volume.div(v);
    lemma_single_constants();
    assert(p.volume.max(Binary32::from_bits(NANO)) == p.volume);
    law_quotient_multiplies_back(p.volume, v);
    lemma_bounded(x, lo, hi, x.amount(), 0real);
}

/// Without damping a velocity stays.
pub proof fn law_no_damping_no_decay(v: Vec2, settling_damping: Binary32, dt: Binary32)
    requires
        settling_damping.le(Binary32::zero()),
    ensures
        damped_velocity(v, settling_damping, dt) == v,
{
    lemma_single_constants();
}

} // verus!
