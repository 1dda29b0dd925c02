use vstd::prelude::*;

use crate::binary::around::Estimate;
use crate::binary::around::around;
use crate::binary::around::law_quotient_multiplies_back;
use crate::binary::around::lemma_finite_parts;
use crate::binary::around::lemma_halved;
use crate::binary::around::lemma_looser;
use crate::binary::around::lemma_minus;
use crate::binary::around::lemma_of;
use crate::binary::around::lemma_plus;
use crate::binary::around::lemma_quotient_of;
use crate::binary::around::lemma_times;
use crate::binary::around::weight;
use crate::binary::error::law_order_of_amounts;
use crate::binary::error::law_product_is_near;
use crate::binary::error::lemma_constant_amounts;
use crate::binary::error::lemma_unit_is_small;
use crate::binary::error::off;
use crate::binary::error::size;
use crate::binary::relative::dust;
use crate::binary::roots::law_root_is_near;
use crate::binary::single::Binary32;
use crate::binary::single::half;
use crate::binary::single::lemma_single_constants;
use crate::binary::single::two;
use crate::cavitating_eos::C1Patch;
use crate::cavitating_eos::EosBranchInputs;
use crate::cavitating_eos::MixtureJunctionEdges;
use crate::cavitating_eos::PI;
use crate::cavitating_table::lerp;
use crate::estimates::estimate;
use crate::estimates::lemma_product;
use crate::mechanics::EPSILON;
use crate::mechanics_flow::lemma_quarter;
use crate::numerics::Numerics;
use crate::numerics::Unary;
use crate::tension_flow::lemma_four;

verus! {

/// The stiffness of the vapour branch is that of the liquid: `B gamma_l = c_l^2 rho_l`.
pub proof fn law_stiffness(i: EosBranchInputs)
    requires
        i.c_l_m_s.mul(i.c_l_m_s).mul(i.rho_l_ref_kg_m3).is_finite(),
        i.gamma_l.is_finite() && i.gamma_l.amount() != 0real,
        i.stiffness().is_finite(),
    ensures
        ({
            let (c, r) = (i.c_l_m_s, i.rho_l_ref_kg_m3);
            off(
                i.stiffness().amount() * i.gamma_l.amount(),
                (c.amount() * c.amount()) * r.amount(),
            ) <= 6real * ((weight(c) * weight(c)) * weight(r)) + dust() * size(i.gamma_l.amount())
        }),
{
    let (c, r) = (i.c_l_m_s, i.rho_l_ref_kg_m3);
    lemma_finite_parts(c.mul(c), r);
    lemma_product(c, c);
    lemma_of(r);
    let e = Estimate::of(c).times(Estimate::of(c)).times(Estimate::of(r));
    lemma_times(Estimate::of(c).times(Estimate::of(c)), Estimate::of(r));
    lemma_quotient_of(e, i.gamma_l);
    assert((e.parts + 2real) * e.scale == 6real * e.scale);
}

/// The liquid branch is `c_l^2 (rho - rho_l)`.
pub proof fn law_liquid_branch(i: EosBranchInputs, rho: Binary32)
    requires
        i.liquid_pressure(rho).is_finite(),
    ensures
        ({
            let (c, r) = (i.c_l_m_s, i.rho_l_ref_kg_m3);
            around(
                i.liquid_pressure(rho),
                (c.amount() * c.amount()) * (rho.amount() - r.amount()),
                (weight(c) * weight(c)) * (weight(rho) + weight(r)),
                6real,
            )
        }),
{
    let (c, r) = (i.c_l_m_s, i.rho_l_ref_kg_m3);
    lemma_finite_parts(c.mul(c), rho.sub(r));
    lemma_product(c, c);
    lemma_finite_parts(rho, r);
    lemma_of(rho);
    lemma_of(r);
    lemma_minus(Estimate::of(rho), Estimate::of(r));
    lemma_times(
        Estimate::of(c).times(Estimate::of(c)),
        Estimate::of(rho).minus(Estimate::of(r)),
    );
}

/// The vapour branch is `B (x - 1)`, `x` the density ratio to the power `gamma_v`.
pub proof fn law_vapor_branch<N: Numerics>(
    i: EosBranchInputs,
    rho: Binary32,
    b_pa: Binary32,
    n: &N,
) -> (ratio: Binary32)
    requires
        i.vapor_pressure_at(rho, b_pa, n).is_finite(),
        rho.is_finite(),
        i.rho_v_ref_kg_m3.is_finite() && i.rho_v_ref_kg_m3.amount() != 0real,
        rho.div(i.rho_v_ref_kg_m3).is_finite(),
    ensures
        off(ratio.amount() * i.rho_v_ref_kg_m3.amount(), rho.amount()) <= size(rho.amount())
            + dust() * size(i.rho_v_ref_kg_m3.amount()),
        ({
            let x = n.pow_of(ratio, i.gamma_v);
            around(
                i.vapor_pressure_at(rho, b_pa, n),
                b_pa.amount() * (x.amount() - 1real),
                weight(b_pa) * (weight(x) + 1real),
                4real,
            )
        }),
{
    let ratio = rho.div(i.rho_v_ref_kg_m3);
    let x = n.pow_of(ratio, i.gamma_v);
    law_quotient_multiplies_back(rho, i.rho_v_ref_kg_m3);
    lemma_finite_parts(b_pa, x.sub(Binary32::one()));
    lemma_finite_parts(x, Binary32::one());
    lemma_of(b_pa);
    lemma_of(x);
    lemma_constant_amounts();
    lemma_single_constants();
    let u = estimate(Binary32::one(), 1real, 1real, 0real);
    lemma_minus(Estimate::of(x), u);
    lemma_times(Estimate::of(b_pa), Estimate::of(x).minus(u));
    ratio
}

/// The slope of the vapour branch is `(B gamma_v / rho_v) x`, `x` the density ratio to the power
/// `gamma_v - 1`.
pub proof fn law_vapor_slope<N: Numerics>(
    i: EosBranchInputs,
    rho: Binary32,
    b_pa: Binary32,
    n: &N,
) -> (s: Binary32)
    requires
        i.vapor_slope_at(rho, b_pa, n).is_finite(),
        i.rho_v_ref_kg_m3.is_finite() && i.rho_v_ref_kg_m3.amount() != 0real,
        b_pa.mul(i.gamma_v).is_finite(),
    ensures
        off(
            s.amount() * i.rho_v_ref_kg_m3.amount(),
            b_pa.amount() * i.gamma_v.amount(),
        ) <= 4real * (weight(b_pa) * weight(i.gamma_v)) + dust() * size(
            i.rho_v_ref_kg_m3.amount(),
        ),
        ({
            let x = n.pow_of(rho.div(i.rho_v_ref_kg_m3), i.gamma_v.sub(Binary32::one()));
            around(
                i.vapor_slope_at(rho, b_pa, n),
                s.amount() * x.amount(),
                weight(s) * weight(x),
                2real,
            )
        }),
{
    let s = b_pa.mul(i.gamma_v).div(i.rho_v_ref_kg_m3);
    let x = n.pow_of(rho.div(i.rho_v_ref_kg_m3), i.gamma_v.sub(Binary32::one()));
    lemma_product(b_pa, i.gamma_v);
    lemma_product(s, x);
    let e = Estimate::of(b_pa).times(Estimate::of(i.gamma_v));
    lemma_quotient_of(e, i.rho_v_ref_kg_m3);
    assert((e.parts + 2real) * e.scale == 4real * e.scale);
    s
}

/// The position in the mixture band runs from minus one to one: times the width it is
/// `2 rho - (rho_plus + rho_minus)`.
pub proof fn law_position_in_the_band(m: MixtureJunctionEdges, rho: Binary32)
    requires
        two().mul(rho).sub(m.rho_m_plus_kg_m3.add(m.rho_m_minus_kg_m3)).is_finite(),
        m.rho_m_plus_kg_m3.sub(m.rho_m_minus_kg_m3).is_finite(),
        m.rho_m_plus_kg_m3.sub(m.rho_m_minus_kg_m3).amount() != 0real,
        m.position(rho).is_finite(),
    ensures
        ({
            let (a, b) = (m.rho_m_plus_kg_m3, m.rho_m_minus_kg_m3);
            let w = a.sub(b);
            &&& around(w, a.amount() - b.amount(), weight(a) + weight(b), 2real)
            &&& off(
                m.position(rho).amount() * w.amount(),
                2real * rho.amount() - (a.amount() + b.amount()),
            ) <= 6real * (2real * weight(rho) + (weight(a) + weight(b))) + dust() * size(w.amount())
        }),
{
    let (a, b) = (m.rho_m_plus_kg_m3, m.rho_m_minus_kg_m3);
    lemma_finite_parts(two().mul(rho), a.add(b));
    lemma_finite_parts(two(), rho);
    lemma_finite_parts(a, b);
    lemma_of(rho);
    lemma_of(a);
    lemma_of(b);
    lemma_constant_amounts();
    lemma_single_constants();
    let w = estimate(two(), 2real, 2real, 0real);
    lemma_times(w, Estimate::of(rho));
    lemma_plus(Estimate::of(a), Estimate::of(b));
    lemma_minus(Estimate::of(a), Estimate::of(b));
    let e = w.times(Estimate::of(rho)).minus(Estimate::of(a).plus(Estimate::of(b)));
    lemma_minus(w.times(Estimate::of(rho)), Estimate::of(a).plus(Estimate::of(b)));
    lemma_quotient_of(e, a.sub(b));
    assert((e.parts + 2real) * e.scale == 6real * e.scale);
}

/// The mixture branch is the saturation pressure plus half the squared least sound speed times
/// the width of the band times the arcsine of the position.
pub proof fn law_mixture_branch<N: Numerics>(m: MixtureJunctionEdges, rho: Binary32, n: &N) -> (a:
    Binary32)
    requires
        m.pressure_at(rho, n).is_finite(),
    ensures
        a == n.unary_of(
            Unary::Asin,
            m.position(rho).clamp(Binary32::one().neg(), Binary32::one()),
        ),
        ({
            let (c, x, y) = (m.c_min_m_s, m.rho_m_plus_kg_m3, m.rho_m_minus_kg_m3);
            around(
                m.pressure_at(rho, n),
                m.p_v_gauge_pa.amount() + (((c.amount() * c.amount()) * (x.amount() - y.amount()))
                    / 2real) * a.amount(),
                weight(m.p_v_gauge_pa) + ((weight(c) * weight(c)) * (weight(x) + weight(y)))
                    * weight(a),
                14real,
            )
        }),
{
    let (c, x, y) = (m.c_min_m_s, m.rho_m_plus_kg_m3, m.rho_m_minus_kg_m3);
    let a = n.unary_of(
        Unary::Asin,
        m.position(rho).clamp(Binary32::one().neg(), Binary32::one()),
    );
    let d = c.mul(c).mul(x.sub(y));
    lemma_finite_parts(m.p_v_gauge_pa, d.mul(half()).mul(a));
    lemma_finite_parts(d.mul(half()), a);
    lemma_finite_parts(d, half());
    lemma_finite_parts(c.mul(c), x.sub(y));
    lemma_product(c, c);
    lemma_finite_parts(x, y);
    lemma_of(m.p_v_gauge_pa);
    lemma_of(x);
    lemma_of(y);
    lemma_of(a);
    lemma_minus(Estimate::of(x), Estimate::of(y));
    let e = Estimate::of(c).times(Estimate::of(c)).times(
        Estimate::of(x).minus(Estimate::of(y)),
    );
    lemma_times(
        Estimate::of(c).times(Estimate::of(c)),
        Estimate::of(x).minus(Estimate::of(y)),
    );
    lemma_halved(e);
    lemma_times(e.halved(), Estimate::of(a));
    let f = Estimate::of(m.p_v_gauge_pa).plus(e.halved().times(Estimate::of(a)));
    lemma_plus(Estimate::of(m.p_v_gauge_pa), e.halved().times(Estimate::of(a)));
    lemma_looser(f, f.scale, 14real);
    a
}

/// Half the rise of the pressure across the band: `pi c_min^2 w / 4`.
pub proof fn law_half_rise(i: EosBranchInputs, width: Binary32)
    requires
        i.half_rise(width).is_finite(),
    ensures
        ({
            let (p, c) = (Binary32::from_bits(PI), i.c_min_m_s);
            around(
                i.half_rise(width),
                ((p.amount() * (c.amount() * c.amount())) * width.amount()) * (1real / 4real),
                ((weight(p) * (weight(c) * weight(c))) * weight(width)) * 1real,
                10real,
            )
        }),
{
    let (p, c) = (Binary32::from_bits(PI), i.c_min_m_s);
    let q = Binary32::from_bits(0x3e80_0000);
    lemma_finite_parts(p.mul(c.mul(c)).mul(width), q);
    lemma_finite_parts(p.mul(c.mul(c)), width);
    lemma_finite_parts(p, c.mul(c));
    lemma_product(c, c);
    lemma_of(p);
    lemma_of(width);
    lemma_quarter();
    let eq = estimate(q, 1real / 4real, 1real, 0real);
    let ec = Estimate::of(c).times(Estimate::of(c));
    lemma_times(Estimate::of(p), ec);
    lemma_times(Estimate::of(p).times(ec), Estimate::of(width));
    let e = Estimate::of(p).times(ec).times(Estimate::of(width));
    lemma_times(e, eq);
    lemma_looser(e.times(eq), e.times(eq).scale, 10real);
}

/// The liquid edge of a band is where the liquid carries the pressure at the upper end of the
/// band: `c_l^2 (rho - rho_l) = p_v + rise`.
pub proof fn law_liquid_edge(i: EosBranchInputs, p_v_gauge_pa: Binary32, width: Binary32) -> (q:
    Binary32)
    requires
        p_v_gauge_pa.add(i.half_rise(width)).is_finite(),
        i.c_l_m_s.mul(i.c_l_m_s).is_finite() && i.c_l_m_s.mul(i.c_l_m_s).amount() != 0real,
        i.liquid_edge(p_v_gauge_pa, width).is_finite(),
    ensures
        ({
            let (h, c2) = (i.half_rise(width), i.c_l_m_s.mul(i.c_l_m_s));
            &&& off(q.amount() * c2.amount(), p_v_gauge_pa.amount() + h.amount()) <= 4real * (
            weight(p_v_gauge_pa) + weight(h)) + dust() * size(c2.amount())
            &&& around(
                i.liquid_edge(p_v_gauge_pa, width),
                i.rho_l_ref_kg_m3.amount() + q.amount(),
                weight(i.rho_l_ref_kg_m3) + weight(q),
                2real,
            )
        }),
{
    let (h, c2) = (i.half_rise(width), i.c_l_m_s.mul(i.c_l_m_s));
    let q = p_v_gauge_pa.add(h).div(c2);
    lemma_finite_parts(i.rho_l_ref_kg_m3, q);
    lemma_finite_parts(p_v_gauge_pa, h);
    lemma_of(i.rho_l_ref_kg_m3);
    lemma_of(q);
    lemma_of(p_v_gauge_pa);
    lemma_of(h);
    let e = Estimate::of(p_v_gauge_pa).plus(Estimate::of(h));
    lemma_plus(Estimate::of(p_v_gauge_pa), Estimate::of(h));
    lemma_quotient_of(e, c2);
    assert((e.parts + 2real) * e.scale == 4real * e.scale);
    lemma_plus(Estimate::of(i.rho_l_ref_kg_m3), Estimate::of(q));
    q
}

/// The vapour edge of a band is where the vapour carries the pressure at the lower end of the
/// band: `rho_v` times the power `1 / gamma_v` of `1 + (p_v - rise) / B`; none where that is not
/// positive.
pub proof fn law_vapor_edge<N: Numerics>(
    i: EosBranchInputs,
    b_pa: Binary32,
    p_v_gauge_pa: Binary32,
    width: Binary32,
    n: &N,
) -> (r: (Binary32, Binary32))
    requires
        p_v_gauge_pa.sub(i.half_rise(width)).is_finite(),
        b_pa.is_finite() && b_pa.amount() != 0real,
        p_v_gauge_pa.sub(i.half_rise(width)).div(b_pa).is_finite(),
        Binary32::one().add(p_v_gauge_pa.sub(i.half_rise(width)).div(b_pa)).is_finite(),
        i.vapor_edge_at(b_pa, p_v_gauge_pa, width, n).is_finite(),
    ensures
        ({
            let (q, base) = r;
            let h = i.half_rise(width);
            let x = n.pow_of(base, Binary32::one().div(i.gamma_v));
            let edge = i.vapor_edge_at(b_pa, p_v_gauge_pa, width, n);
            &&& off(q.amount() * b_pa.amount(), p_v_gauge_pa.amount() - h.amount()) <= 4real * (
            weight(p_v_gauge_pa) + weight(h)) + dust() * size(b_pa.amount())
            &&& around(base, 1real + q.amount(), 1real + weight(q), 2real)
            &&& base.gt(Binary32::zero()) ==> around(
                edge,
                i.rho_v_ref_kg_m3.amount() * x.amount(),
                weight(i.rho_v_ref_kg_m3) * weight(x),
                2real,
            )
            &&& !base.gt(Binary32::zero()) ==> edge == Binary32::zero()
        }),
{
    let h = i.half_rise(width);
    let q = p_v_gauge_pa.sub(h).div(b_pa);
    let base = Binary32::one().add(q);
    let x = n.pow_of(base, Binary32::one().div(i.gamma_v));
    lemma_finite_parts(p_v_gauge_pa, h);
    lemma_of(p_v_gauge_pa);
    lemma_of(h);
    lemma_of(q);
    lemma_constant_amounts();
    lemma_single_constants();
    let e = Estimate::of(p_v_gauge_pa).minus(Estimate::of(h));
    lemma_minus(Estimate::of(p_v_gauge_pa), Estimate::of(h));
    lemma_quotient_of(e, b_pa);
    assert((e.parts + 2real) * e.scale == 4real * e.scale);
    let u = estimate(Binary32::one(), 1real, 1real, 0real);
    lemma_plus(u, Estimate::of(q));
    if base.gt(Binary32::zero()) {
        lemma_product(i.rho_v_ref_kg_m3, x);
    }
    (q, base)
}

/// The mismatch of a band width is the distance of its edges less the width.
pub proof fn law_band_mismatch<N: Numerics>(
    i: EosBranchInputs,
    b_pa: Binary32,
    p_v_gauge_pa: Binary32,
    width: Binary32,
    n: &N,
)
    requires
        i.mismatch_at(b_pa, p_v_gauge_pa, width, n).is_finite(),
    ensures
        ({
            let (x, y) = (i.liquid_edge(p_v_gauge_pa, width), i.vapor_edge_at(
                b_pa,
                p_v_gauge_pa,
                width,
                n,
            ));
            around(
                i.mismatch_at(b_pa, p_v_gauge_pa, width, n),
                x.amount() - y.amount() - width.amount(),
                weight(x) + weight(y) + weight(width),
                4real,
            )
        }),
{
    let (x, y) = (i.liquid_edge(p_v_gauge_pa, width), i.vapor_edge_at(
        b_pa,
        p_v_gauge_pa,
        width,
        n,
    ));
    lemma_finite_parts(x.sub(y), width);
    lemma_finite_parts(x, y);
    lemma_of(x);
    lemma_of(y);
    lemma_of(width);
    lemma_minus(Estimate::of(x), Estimate::of(y));
    lemma_minus(Estimate::of(x).minus(Estimate::of(y)), Estimate::of(width));
}

/// The width at which the vapour edge would reach absolute zero pressure: times the spread it
/// is `4 (p_v + B)`.
pub proof fn law_width_limit(
    i: EosBranchInputs,
    b_pa: Binary32,
    p_v_gauge_pa: Binary32,
    spread: Binary32,
)
    requires
        spread.is_finite() && spread.amount() != 0real,
        Binary32::from_bits(0x4080_0000).mul(p_v_gauge_pa.add(b_pa)).is_finite(),
        i.width_limit(b_pa, p_v_gauge_pa, spread).is_finite(),
    ensures
        off(
            i.width_limit(b_pa, p_v_gauge_pa, spread).amount() * spread.amount(),
            4real * (p_v_gauge_pa.amount() + b_pa.amount()),
        ) <= 6real * (4real * (weight(p_v_gauge_pa) + weight(b_pa))) + dust() * size(
            spread.amount(),
        ),
{
    let four = Binary32::from_bits(0x4080_0000);
    lemma_finite_parts(four, p_v_gauge_pa.add(b_pa));
    lemma_finite_parts(p_v_gauge_pa, b_pa);
    lemma_of(p_v_gauge_pa);
    lemma_of(b_pa);
    lemma_four();
    let f = estimate(four, 4real, 4real, 0real);
    let s = Estimate::of(p_v_gauge_pa).plus(Estimate::of(b_pa));
    lemma_plus(Estimate::of(p_v_gauge_pa), Estimate::of(b_pa));
    lemma_times(f, s);
    let e = f.times(s);
    lemma_quotient_of(e, spread);
    assert((e.parts + 2real) * e.scale == 6real * e.scale);
}

/// Interpolation is linear: `a + (b - a) l`.
pub proof fn law_interpolation_is_linear(a: Binary32, b: Binary32, local: Binary32)
    requires
        lerp(a, b, local).is_finite(),
    ensures
        around(
            lerp(a, b, local),
            a.amount() + (b.amount() - a.amount()) * local.amount(),
            weight(a) + (weight(b) + weight(a)) * weight(local),
            6real,
        ),
{
    lemma_finite_parts(a, b.sub(a).mul(local));
    lemma_finite_parts(b.sub(a), local);
    lemma_finite_parts(b, a);
    lemma_of(a);
    lemma_of(b);
    lemma_of(local);
    lemma_minus(Estimate::of(b), Estimate::of(a));
    let e = Estimate::of(b).minus(Estimate::of(a)).times(Estimate::of(local));
    lemma_times(Estimate::of(b).minus(Estimate::of(a)), Estimate::of(local));
    lemma_plus(Estimate::of(a), e);
}

/// A ramp of length `l` adds the slope `(m1 - m0) x / l` at the distance `x` from its foot, and
/// the pressure `(m1 - m0) x^2 / (2 l)`.
pub proof fn law_ramp(p: C1Patch, x: Binary32, l: Binary32) -> (d: Binary32)
    requires
        l.is_finite() && Binary32::from_bits(EPSILON).le(l),
        p.m1.sub(p.m0).mul(x).mul(x).is_finite(),
        p.ramp_slope(x, l).is_finite(),
        p.ramp_gain(x, l).is_finite(),
        two().mul(l).is_finite(),
    ensures
        around(d, p.m1.amount() - p.m0.amount(), weight(p.m1) + weight(p.m0), 2real),
        off(p.ramp_slope(x, l).amount() * l.amount(), d.amount() * x.amount()) <= 4real * (weight(d)
            * weight(x)) + dust() * l.amount(),
        off(
            p.ramp_gain(x, l).amount() * two().mul(l).amount(),
            (d.amount() * x.amount()) * x.amount(),
        ) <= 6real * ((weight(d) * weight(x)) * weight(x)) + dust() * size(
            two().mul(l).amount(),
        ),
        around(two().mul(l), 2real * l.amount(), 2real * weight(l), 2real),
        two().mul(l).amount() > 0real,
{
    let d = p.m1.sub(p.m0);
    lemma_finite_parts(d.mul(x), x);
    lemma_product(d, x);
    lemma_finite_parts(p.m1, p.m0);
    lemma_of(p.m1);
    lemma_of(p.m0);
    lemma_of(l);
    lemma_minus(Estimate::of(p.m1), Estimate::of(p.m0));
    lemma_constant_amounts();
    lemma_single_constants();
    law_order_of_amounts(Binary32::from_bits(EPSILON), l);
    assert(l.max(Binary32::from_bits(EPSILON)) == l);
    let e = Estimate::of(d).times(Estimate::of(x));
    lemma_quotient_of(e, l);
    assert((e.parts + 2real) * e.scale == 4real * e.scale);
    let f = e.times(Estimate::of(x));
    lemma_times(e, Estimate::of(x));
    let w = estimate(two(), 2real, 2real, 0real);
    lemma_times(w, Estimate::of(l));
    lemma_unit_is_small();
    law_product_is_near(two(), l);
    lemma_quotient_of(f, two().mul(l));
    assert((f.parts + 2real) * f.scale == 6real * f.scale);
    d
}

/// The pressure on a patch: it starts at `p0` with the slope `m0`, gains what the ramp adds
/// along it, and goes on with the slope `m1` after a ramp at the left end.
pub proof fn law_pressure_on_a_patch(p: C1Patch, x: Binary32, l: Binary32, at_start: bool)
    requires
        p.value_on_ramp(x, l, at_start).is_finite(),
    ensures
        ({
            let v = p.value_on_ramp(x, l, at_start);
            let flat = p.width.sub(l);
            let (a, m0, m1) = (p.p0.amount(), p.m0.amount(), p.m1.amount());
            let (wa, w0, w1) = (weight(p.p0), weight(p.m0), weight(p.m1));
            if at_start && x.le(l) {
                let g = p.ramp_gain(x, l);
                around(
                    v,
                    a + m0 * x.amount() + g.amount(),
                    wa + w0 * weight(x) + weight(g),
                    6real,
                )
            } else if at_start {
                around(
                    v,
                    a + m0 * l.amount() + ((m1 - m0) * l.amount()) / 2real + m1 * (x.amount()
                        - l.amount()),
                    wa + w0 * weight(l) + (w1 + w0) * weight(l) + w1 * (weight(x) + weight(l)),
                    12real,
                )
            } else if x.le(flat) {
                around(v, a + m0 * x.amount(), wa + w0 * weight(x), 4real)
            } else {
                let g = p.ramp_gain(x.sub(flat), l);
                around(
                    v,
                    a + m0 * x.amount() + g.amount(),
                    wa + w0 * weight(x) + weight(g),
                    6real,
                )
            }
        }),
{
    let v = p.value_on_ramp(x, l, at_start);
    let flat = p.width.sub(l);
    if at_start && !x.le(l) {
        let y = p.m0.mul(l);
        let h = p.m1.sub(p.m0).mul(l);
        let z = p.m1.mul(x.sub(l));
        lemma_finite_parts(p.p0.add(y).add(h.mul(half())), z);
        lemma_finite_parts(p.p0.add(y), h.mul(half()));
        lemma_finite_parts(p.p0, y);
        lemma_finite_parts(h, half());
        lemma_finite_parts(p.m1.sub(p.m0), l);
        lemma_finite_parts(p.m1, p.m0);
        lemma_product(p.m0, l);
        lemma_finite_parts(p.m1, x.sub(l));
        lemma_finite_parts(x, l);
        lemma_of(p.p0);
        lemma_of(p.m1);
        lemma_of(x);
        let (e0, e1, el) = (Estimate::of(p.m0), Estimate::of(p.m1), Estimate::of(l));
        lemma_minus(e1, e0);
        lemma_times(e1.minus(e0), el);
        let eh = e1.minus(e0).times(el).halved();
        lemma_halved(e1.minus(e0).times(el));
        lemma_minus(Estimate::of(x), el);
        let ez = e1.times(Estimate::of(x).minus(el));
        lemma_times(e1, Estimate::of(x).minus(el));
        let s0 = Estimate::of(p.p0).plus(e0.times(el));
        lemma_plus(Estimate::of(p.p0), e0.times(el));
        lemma_plus(s0, eh);
        lemma_plus(s0.plus(eh), ez);
        let e = s0.plus(eh).plus(ez);
        lemma_looser(e, e.scale, 12real);
    } else {
        let y = p.m0.mul(x);
        let foot = if at_start {
            x
        } else {
            x.sub(flat)
        };
        let g = p.ramp_gain(foot, l);
        let s0 = Estimate::of(p.p0).plus(Estimate::of(p.m0).times(Estimate::of(x)));
        lemma_finite_parts(p.p0.add(y), g);
        lemma_finite_parts(p.p0, y);
        lemma_product(p.m0, x);
        lemma_of(p.p0);
        lemma_plus(Estimate::of(p.p0), Estimate::of(p.m0).times(Estimate::of(x)));
        if at_start || !x.le(flat) {
            lemma_of(g);
            lemma_plus(s0, Estimate::of(g));
        }
    }
}

/// The slope on a patch: `m0` up to the ramp, `m1` after it, and what the ramp adds along it.
pub proof fn law_slope_on_a_patch(p: C1Patch, x: Binary32, l: Binary32, at_start: bool)
    requires
        p.slope_on_ramp(x, l, at_start).is_finite(),
    ensures
        ({
            let v = p.slope_on_ramp(x, l, at_start);
            let flat = p.width.sub(l);
            if at_start && !x.le(l) {
                v == p.m1
            } else if !at_start && x.le(flat) {
                v == p.m0
            } else {
                let g = p.ramp_slope(
                    if at_start {
                        x
                    } else {
                        x.sub(flat)
                    },
                    l,
                );
                around(v, p.m0.amount() + g.amount(), weight(p.m0) + weight(g), 2real)
            }
        }),
{
    let flat = p.width.sub(l);
    let g = p.ramp_slope(
        if at_start {
            x
        } else {
            x.sub(flat)
        },
        l,
    );
    if !(at_start && !x.le(l)) && !(!at_start && x.le(flat)) {
        lemma_finite_parts(p.m0, g);
        lemma_of(p.m0);
        lemma_of(g);
        lemma_plus(Estimate::of(p.m0), Estimate::of(g));
    }
}

/// The lengths of the ramps that meet both end pressures: with the mean slope `s` over the
/// width `w`, a ramp at the left end has `(m1 - m0) l = 2 w (m1 - s)`, one at the right end
/// `(m1 - m0) l = 2 w (s - m0)`.
pub proof fn law_ramp_lengths(p: C1Patch) -> (r: (Binary32, Binary32))
    requires
        p.width.is_finite() && p.width.amount() != 0real,
        p.p1.sub(p.p0).is_finite(),
        p.p1.sub(p.p0).div(p.width).is_finite(),
        p.m1.sub(p.m0).is_finite() && p.m1.sub(p.m0).amount() != 0real,
        two().mul(p.width).mul(p.m1.sub(p.p1.sub(p.p0).div(p.width))).is_finite(),
        two().mul(p.width).mul(p.p1.sub(p.p0).div(p.width).sub(p.m0)).is_finite(),
        p.start_ramp().is_finite(),
        p.end_ramp().is_finite(),
    ensures
        ({
            let (s, d) = r;
            let (w, m0, m1) = (p.width.amount(), p.m0.amount(), p.m1.amount());
            &&& off(s.amount() * w, p.p1.amount() - p.p0.amount()) <= 4real * (weight(p.p1)
                + weight(p.p0)) + dust() * size(w)
            &&& around(d, m1 - m0, weight(p.m1) + weight(p.m0), 2real)
            &&& off(p.start_ramp().amount() * d.amount(), (2real * w) * (m1 - s.amount())) <= 8real
                * ((2real * weight(p.width)) * (weight(p.m1) + weight(s))) + dust() * size(
                d.amount(),
            )
            &&& off(p.end_ramp().amount() * d.amount(), (2real * w) * (s.amount() - m0)) <= 8real
                * ((2real * weight(p.width)) * (weight(s) + weight(p.m0))) + dust() * size(
                d.amount(),
            )
        }),
{
    let s = p.p1.sub(p.p0).div(p.width);
    let d = p.m1.sub(p.m0);
    let w = two().mul(p.width);
    lemma_finite_parts(p.p1, p.p0);
    lemma_finite_parts(p.m1, p.m0);
    lemma_finite_parts(w, p.m1.sub(s));
    lemma_of(p.p1);
    lemma_of(p.p0);
    lemma_of(p.m1);
    lemma_of(p.m0);
    lemma_of(p.width);
    lemma_of(s);
    lemma_constant_amounts();
    lemma_single_constants();
    let e = Estimate::of(p.p1).minus(Estimate::of(p.p0));
    lemma_minus(Estimate::of(p.p1), Estimate::of(p.p0));
    lemma_quotient_of(e, p.width);
    assert((e.parts + 2real) * e.scale == 4real * e.scale);
    lemma_minus(Estimate::of(p.m1), Estimate::of(p.m0));
    let t = estimate(two(), 2real, 2real, 0real);
    let ew = t.times(Estimate::of(p.width));
    lemma_times(t, Estimate::of(p.width));
    lemma_finite_parts(w, s.sub(p.m0));
    lemma_minus(Estimate::of(p.m1), Estimate::of(s));
    lemma_minus(Estimate::of(s), Estimate::of(p.m0));
    let a = ew.times(Estimate::of(p.m1).minus(Estimate::of(s)));
    lemma_times(ew, Estimate::of(p.m1).minus(Estimate::of(s)));
    lemma_quotient_of(a, d);
    assert((a.parts + 2real) * a.scale == 8real * a.scale);
    let b = ew.times(Estimate::of(s).minus(Estimate::of(p.m0)));
    lemma_times(ew, Estimate::of(s).minus(Estimate::of(p.m0)));
    lemma_quotient_of(b, d);
    assert((b.parts + 2real) * b.scale == 8real * b.scale);
    (s, d)
}

/// The slope of the mixture branch: the squared least sound speed over the root of
/// `1 - x^2`, `x` the position in the band.
pub proof fn law_mixture_slope(m: MixtureJunctionEdges, rho: Binary32) -> (r: (Binary32, Binary32))
    requires
        ({
            let x = m.position(rho);
            let s = Binary32::one().sub(x.mul(x));
            &&& s.is_finite() && Binary32::from_bits(0x0da2_4260).le(s)
            &&& m.c_min_m_s.mul(m.c_min_m_s).is_finite()
            &&& m.slope_at(rho).is_finite()
        }),
    ensures
        ({
            let (s, root) = r;
            let (x, c) = (m.position(rho), m.c_min_m_s);
            &&& around(s, 1real - x.amount() * x.amount(), 1real + weight(x) * weight(x), 4real)
            &&& root.amount() > 0real
            &&& off(root.amount() * root.amount(), s.amount()) <= 2real * s.amount()
            &&& off(m.slope_at(rho).amount() * root.amount(), c.amount() * c.amount()) <= 4real * (
            weight(c) * weight(c)) + dust() * root.amount()
        }),
{
    let (x, c) = (m.position(rho), m.c_min_m_s);
    let s = Binary32::one().sub(x.mul(x));
    lemma_single_constants();
    lemma_constant_amounts();
    lemma_finite_parts(Binary32::one(), x.mul(x));
    lemma_product(x, x);
    let u = estimate(Binary32::one(), 1real, 1real, 0real);
    lemma_minus(u, Estimate::of(x).times(Estimate::of(x)));
    assert(s.max(Binary32::from_bits(0x0da2_4260)) == s);
    law_root_is_near(s);
    lemma_product(c, c);
    let e = Estimate::of(c).times(Estimate::of(c));
    lemma_quotient_of(e, s.sqrt());
    assert((e.parts + 2real) * e.scale == 4real * e.scale);
    (s, s.sqrt())
}

} // verus!
