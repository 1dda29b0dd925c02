use vstd::prelude::*;

use crate::binary::around::Estimate;
use crate::binary::around::around;
use crate::binary::around::larger;
use crate::binary::around::law_quotient_multiplies_back;
use crate::binary::around::lemma_finite_parts;
use crate::binary::around::lemma_halved;
use crate::binary::around::lemma_looser;
use crate::binary::around::lemma_minus;
use crate::binary::around::lemma_of;
use crate::binary::around::lemma_opposite;
use crate::binary::around::lemma_plus;
use crate::binary::around::lemma_times;
use crate::binary::around::lemma_units;
use crate::binary::around::weight;
use crate::binary::error::law_order_of_amounts;
use crate::binary::error::lemma_constant_amounts;
use crate::binary::error::off;
use crate::binary::error::size;
use crate::binary::laws::law_addition_commutes;
use crate::binary::laws::law_minus_one_negates;
use crate::binary::laws::law_multiplication_is_monotone;
use crate::binary::laws::law_zero_absorbs;
use crate::binary::laws::law_zero_adds_nothing;
use crate::binary::laws::law_zero_is_neutral;
use crate::binary::laws::law_zeros_add_up;
use crate::binary::relative::dust;
use crate::binary::relative::lemma_dust;
use crate::binary::roots::law_root_is_near;
use crate::binary::single::Binary32;
use crate::binary::single::half;
use crate::binary::single::lemma_single_constants;
use crate::linalg::Mat2;
use crate::mechanics::dashpot_stress;
use crate::mechanics::explicit_trial;
use crate::mechanics::shear_stress;
use crate::mechanics::with_volume_ratio;
use crate::particle::Particle;

verus! {

impl Mat2 {
    /// The entry in row `i` and column `j`, as a real number.
    pub open spec fn at(self, i: int, j: int) -> real {
        let column = if j == 0 {
            self.x_axis
        } else {
            self.y_axis
        };
        if i == 0 {
            column.x.amount()
        } else {
            column.y.amount()
        }
    }

    /// A bound on the sizes of the entries.
    pub open spec fn weight(self) -> real {
        weight(self.x_axis.x) + weight(self.x_axis.y) + weight(self.y_axis.x) + weight(
            self.y_axis.y,
        )
    }

    /// The determinant, as a real number.
    pub open spec fn volume_ratio(self) -> real {
        self.at(0, 0) * self.at(1, 1) - self.at(1, 0) * self.at(0, 1)
    }
}

/// `v (2 d)` where `2 d` is the deviator of twice a symmetric part.
proof fn lemma_scaled_entry(e: Estimate, v: Binary32, exact: real, scale: real, parts: real)
    requires
        e.holds(),
        e.parts + 2real <= parts <= 40real,
        e.exact == exact,
        e.scale <= scale,
        e.got.mul(v).is_finite(),
    ensures
        around(e.got.mul(v), v.amount() * exact, weight(v) * scale, parts),
{
    lemma_finite_parts(e.got, v);
    lemma_of(v);
    let f = Estimate::of(v);
    lemma_times(e, f);
    let x = v.amount();
    assert(e.exact * x == x * exact) by (nonlinear_arith)
        requires
            e.exact == exact,
    ;
    let m = e.scale;
    let w = weight(v);
    assert(m * w <= w * scale) by (nonlinear_arith)
        requires
            m <= scale,
            w >= 0real,
    ;
    lemma_looser(e.times(f), w * scale, parts);
}

/// Viscous stress resists shearing: each entry is the viscosity times the entry of the
/// deviator of the velocity gradient plus its transpose.
pub proof fn law_shear_stress_resists(v: Binary32, c: Mat2)
    requires
        shear_stress(v, c).is_finite(),
    ensures
        around(
            shear_stress(v, c).x_axis.x,
            v.amount() * (c.at(0, 0) - c.at(1, 1)),
            weight(v) * (4real * c.weight()),
            10real,
        ),
        around(
            shear_stress(v, c).x_axis.y,
            v.amount() * (c.at(0, 1) + c.at(1, 0)),
            weight(v) * (4real * c.weight()),
            10real,
        ),
        around(
            shear_stress(v, c).y_axis.x,
            v.amount() * (c.at(0, 1) + c.at(1, 0)),
            weight(v) * (4real * c.weight()),
            10real,
        ),
        around(
            shear_stress(v, c).y_axis.y,
            v.amount() * (c.at(1, 1) - c.at(0, 0)),
            weight(v) * (4real * c.weight()),
            10real,
        ),
{
    let s = c.symmetrised();
    lemma_sheared(s, v);
    lemma_symmetrised(c);
    let xx = Estimate::of(c.x_axis.x);
    let yy = Estimate::of(c.y_axis.y);
    let xy = Estimate::of(c.x_axis.y);
    let yx = Estimate::of(c.y_axis.x);
    lemma_deviator(s, xx.plus(xx), xy.plus(yx), yx.plus(xy), yy.plus(yy));
    let z = Estimate::unit(Binary32::zero());
    lemma_units();
    let h = xx.plus(xx).plus(yy.plus(yy)).halved();
    let scale = 4real * c.weight();
    let ex = xx.plus(xx).minus(h);
    let ey = yy.plus(yy).minus(h);
    lemma_scaled_entry(ex, v, c.at(0, 0) - c.at(1, 1), scale, 10real);
    lemma_scaled_entry(ey, v, c.at(1, 1) - c.at(0, 0), scale, 10real);
    let exy = xy.plus(yx).minus(z);
    let eyx = yx.plus(xy).minus(z);
    lemma_scaled_entry(exy, v, c.at(0, 1) + c.at(1, 0), scale, 10real);
    lemma_scaled_entry(eyx, v, c.at(0, 1) + c.at(1, 0), scale, 10real);
}

/// The parts of a scaled deviator are finite where it is.
proof fn lemma_sheared(s: Mat2, v: Binary32)
    requires
        s.deviator().scale(v).is_finite(),
    ensures
        s.is_finite(),
        s.deviator().is_finite(),
        v.is_finite(),
        s.trace().is_finite(),
        s.trace().mul(half()).is_finite(),
{
    let d = s.deviator();
    let h = s.trace().mul(half());
    lemma_finite_parts(d.x_axis.x, v);
    lemma_finite_parts(d.x_axis.y, v);
    lemma_finite_parts(d.y_axis.x, v);
    lemma_finite_parts(d.y_axis.y, v);
    lemma_finite_parts(s.x_axis.x, h);
    lemma_finite_parts(s.x_axis.y, Binary32::zero());
    lemma_finite_parts(s.y_axis.x, Binary32::zero());
    lemma_finite_parts(s.y_axis.y, h);
    lemma_finite_parts(s.trace(), half());
}

/// Twice the symmetric part, by entries.
proof fn lemma_symmetrised(c: Mat2)
    requires
        c.symmetrised().is_finite(),
    ensures
        c.is_finite(),
        Estimate::of(c.x_axis.x).plus(Estimate::of(c.x_axis.x)).holds(),
        Estimate::of(c.x_axis.y).plus(Estimate::of(c.y_axis.x)).holds(),
        Estimate::of(c.y_axis.x).plus(Estimate::of(c.x_axis.y)).holds(),
        Estimate::of(c.y_axis.y).plus(Estimate::of(c.y_axis.y)).holds(),
{
    lemma_finite_parts(c.x_axis.x, c.x_axis.x);
    lemma_finite_parts(c.x_axis.y, c.y_axis.x);
    lemma_finite_parts(c.y_axis.y, c.y_axis.y);
    lemma_of(c.x_axis.x);
    lemma_of(c.x_axis.y);
    lemma_of(c.y_axis.x);
    lemma_of(c.y_axis.y);
    lemma_plus(Estimate::of(c.x_axis.x), Estimate::of(c.x_axis.x));
    lemma_plus(Estimate::of(c.x_axis.y), Estimate::of(c.y_axis.x));
    lemma_plus(Estimate::of(c.y_axis.x), Estimate::of(c.x_axis.y));
    lemma_plus(Estimate::of(c.y_axis.y), Estimate::of(c.y_axis.y));
}

/// A deviator, by entries.
proof fn lemma_deviator(s: Mat2, xx: Estimate, xy: Estimate, yx: Estimate, yy: Estimate)
    requires
        xx.holds() && xy.holds() && yx.holds() && yy.holds(),
        xx.parts <= 4real && yy.parts <= 4real && xy.parts <= 4real && yx.parts <= 4real,
        xx.got == s.x_axis.x && xy.got == s.x_axis.y && yx.got == s.y_axis.x && yy.got
            == s.y_axis.y,
        s.deviator().is_finite(),
        s.trace().is_finite(),
        s.trace().mul(half()).is_finite(),
    ensures
        xx.minus(xx.plus(yy).halved()).holds(),
        yy.minus(xx.plus(yy).halved()).holds(),
        xy.minus(Estimate::unit(Binary32::zero())).holds(),
        yx.minus(Estimate::unit(Binary32::zero())).holds(),
        xx.minus(xx.plus(yy).halved()).got == s.deviator().x_axis.x,
        yy.minus(xx.plus(yy).halved()).got == s.deviator().y_axis.y,
        xy.minus(Estimate::unit(Binary32::zero())).got == s.deviator().x_axis.y,
        yx.minus(Estimate::unit(Binary32::zero())).got == s.deviator().y_axis.x,
{
    lemma_units();
    lemma_plus(xx, yy);
    lemma_halved(xx.plus(yy));
    lemma_minus(xx, xx.plus(yy).halved());
    lemma_minus(yy, xx.plus(yy).halved());
    lemma_minus(xy, Estimate::unit(Binary32::zero()));
    lemma_minus(yx, Estimate::unit(Binary32::zero()));
}

/// Dashpot stress resists shearing: each entry is the viscosity times the entry of the
/// deviator of the symmetric part of the velocity gradient.
pub proof fn law_dashpot_stress_resists(v: Binary32, c: Mat2)
    requires
        dashpot_stress(v, c).is_finite(),
    ensures
        around(
            dashpot_stress(v, c).x_axis.x,
            v.amount() * ((c.at(0, 0) - c.at(1, 1)) / 2real),
            weight(v) * (4real * c.weight()),
            12real,
        ),
        around(
            dashpot_stress(v, c).x_axis.y,
            v.amount() * ((c.at(0, 1) + c.at(1, 0)) / 2real),
            weight(v) * (4real * c.weight()),
            12real,
        ),
        around(
            dashpot_stress(v, c).y_axis.x,
            v.amount() * ((c.at(0, 1) + c.at(1, 0)) / 2real),
            weight(v) * (4real * c.weight()),
            12real,
        ),
        around(
            dashpot_stress(v, c).y_axis.y,
            v.amount() * ((c.at(1, 1) - c.at(0, 0)) / 2real),
            weight(v) * (4real * c.weight()),
            12real,
        ),
{
    let u = c.symmetrised();
    let s = u.scale(half());
    lemma_sheared(s, v);
    lemma_finite_parts(u.x_axis.x, half());
    lemma_finite_parts(u.x_axis.y, half());
    lemma_finite_parts(u.y_axis.x, half());
    lemma_finite_parts(u.y_axis.y, half());
    lemma_symmetrised(c);
    let xx = Estimate::of(c.x_axis.x);
    let yy = Estimate::of(c.y_axis.y);
    let xy = Estimate::of(c.x_axis.y);
    let yx = Estimate::of(c.y_axis.x);
    lemma_halved(xx.plus(xx));
    lemma_halved(yy.plus(yy));
    lemma_halved(xy.plus(yx));
    lemma_halved(yx.plus(xy));
    let hxx = xx.plus(xx).halved();
    let hyy = yy.plus(yy).halved();
    let hxy = xy.plus(yx).halved();
    let hyx = yx.plus(xy).halved();
    lemma_deviator(s, hxx, hxy, hyx, hyy);
    let z = Estimate::unit(Binary32::zero());
    lemma_units();
    let h = hxx.plus(hyy).halved();
    let scale = 4real * c.weight();
    lemma_scaled_entry(hxx.minus(h), v, (c.at(0, 0) - c.at(1, 1)) / 2real, scale, 12real);
    lemma_scaled_entry(hyy.minus(h), v, (c.at(1, 1) - c.at(0, 0)) / 2real, scale, 12real);
    lemma_scaled_entry(hxy.minus(z), v, (c.at(0, 1) + c.at(1, 0)) / 2real, scale, 12real);
    lemma_scaled_entry(hyx.minus(z), v, (c.at(0, 1) + c.at(1, 0)) / 2real, scale, 12real);
}

/// An estimate by what it states.
pub open spec fn estimate(got: Binary32, exact: real, scale: real, parts: real) -> Estimate {
    Estimate { got, exact, scale, parts }
}

/// `a d - b c` of estimates of one scale.
pub proof fn lemma_determinant_of(a: Estimate, b: Estimate, c: Estimate, d: Estimate, m: real)
    requires
        a.holds() && b.holds() && c.holds() && d.holds(),
        a.scale <= m && b.scale <= m && c.scale <= m && d.scale <= m,
        a.parts <= 20real && b.parts <= 20real && c.parts <= 20real && d.parts <= 20real,
        a.got.mul(d.got).sub(b.got.mul(c.got)).is_finite(),
    ensures
        around(
            a.got.mul(d.got).sub(b.got.mul(c.got)),
            a.exact * d.exact - b.exact * c.exact,
            2real * (m * m),
            44real,
        ),
{
    lemma_finite_parts(a.got.mul(d.got), b.got.mul(c.got));
    lemma_times(a, d);
    lemma_times(b, c);
    lemma_minus(a.times(d), b.times(c));
    let e = a.times(d).minus(b.times(c));
    let p = a.scale;
    let q = d.scale;
    let r = b.scale;
    let s = c.scale;
    assert(p * q <= m * m && r * s <= m * m) by (nonlinear_arith)
        requires
            1real <= p <= m,
            1real <= q <= m,
            1real <= r <= m,
            1real <= s <= m,
    ;
    lemma_looser(e, 2real * (m * m), 44real);
}

/// The determinant is the volume ratio.
pub proof fn law_determinant_is_volume_ratio(a: Mat2)
    requires
        a.determinant().is_finite(),
    ensures
        around(
            a.determinant(),
            a.volume_ratio(),
            2real * (a.weight() * a.weight()),
            44real,
        ),
{
    lemma_finite_parts(a.x_axis.x.mul(a.y_axis.y), a.x_axis.y.mul(a.y_axis.x));
    lemma_finite_parts(a.x_axis.x, a.y_axis.y);
    lemma_finite_parts(a.x_axis.y, a.y_axis.x);
    lemma_of(a.x_axis.x);
    lemma_of(a.x_axis.y);
    lemma_of(a.y_axis.x);
    lemma_of(a.y_axis.y);
    lemma_determinant_of(
        Estimate::of(a.x_axis.x),
        Estimate::of(a.x_axis.y),
        Estimate::of(a.y_axis.x),
        Estimate::of(a.y_axis.y),
        a.weight(),
    );
}

/// The entries of `I + dt C`.
pub open spec fn step_factor(p: Particle, dt: Binary32, i: int, j: int) -> real {
    (if i == j {
        1real
    } else {
        0real
    }) + dt.amount() * p.velocity_gradient.at(i, j)
}

/// The entries of `(I + dt C) F`.
pub open spec fn moved(p: Particle, dt: Binary32, i: int, j: int) -> real {
    step_factor(p, dt, i, 0) * p.deformation_gradient.at(0, j) + step_factor(p, dt, i, 1)
        * p.deformation_gradient.at(1, j)
}

/// The size of the entries of `(I + dt C) F`.
pub open spec fn moved_scale(p: Particle, dt: Binary32) -> real {
    2real * ((weight(dt) * p.velocity_gradient.weight() + 1real) * p.deformation_gradient.weight())
}

/// An entry of `I + dt C`.
proof fn lemma_step_factor(p: Particle, dt: Binary32, one: Binary32, c: Binary32)
    requires
        one == Binary32::zero() || one == Binary32::one(),
        one.add(c.mul(dt)).is_finite(),
        weight(c) <= p.velocity_gradient.weight(),
    ensures
        c.is_finite() && dt.is_finite(),
        estimate(
            one.add(c.mul(dt)),
            one.amount() + dt.amount() * c.amount(),
            weight(dt) * p.velocity_gradient.weight() + 1real,
            4real,
        ).holds(),
{
    lemma_finite_parts(one, c.mul(dt));
    lemma_finite_parts(c, dt);
    lemma_units();
    lemma_of(c);
    lemma_of(dt);
    let e = Estimate::of(c);
    let f = Estimate::of(dt);
    lemma_times(e, f);
    let u = Estimate::unit(one);
    lemma_plus(u, e.times(f));
    let w = weight(c);
    let v = weight(dt);
    let m = p.velocity_gradient.weight();
    let x = c.amount();
    let y = dt.amount();
    assert(w * v <= v * m && x * y == y * x) by (nonlinear_arith)
        requires
            w <= m,
            v >= 0real,
    ;
    lemma_looser(u.plus(e.times(f)), v * m + 1real, 4real);
}

/// An entry of `(I + dt C) F`.
proof fn lemma_moved(
    p: Particle,
    a: Estimate,
    b: Estimate,
    f: Binary32,
    g: Binary32,
    scale: real,
)
    requires
        a.holds() && b.holds(),
        a.parts == 4real && b.parts == 4real && a.scale == scale && b.scale == scale,
        a.got.mul(f).add(b.got.mul(g)).is_finite(),
        weight(f) <= p.deformation_gradient.weight(),
        weight(g) <= p.deformation_gradient.weight(),
    ensures
        f.is_finite() && g.is_finite(),
        estimate(
            a.got.mul(f).add(b.got.mul(g)),
            a.exact * f.amount() + b.exact * g.amount(),
            2real * (scale * p.deformation_gradient.weight()),
            8real,
        ).holds(),
{
    lemma_finite_parts(a.got.mul(f), b.got.mul(g));
    lemma_finite_parts(a.got, f);
    lemma_finite_parts(b.got, g);
    lemma_of(f);
    lemma_of(g);
    let e = Estimate::of(f);
    let h = Estimate::of(g);
    lemma_times(a, e);
    lemma_times(b, h);
    lemma_plus(a.times(e), b.times(h));
    let m = p.deformation_gradient.weight();
    let u = weight(f);
    let v = weight(g);
    assert(scale * u <= scale * m && scale * v <= scale * m) by (nonlinear_arith)
        requires
            u <= m,
            v <= m,
            scale >= 0real,
    ;
    lemma_looser(a.times(e).plus(b.times(h)), 2real * (scale * m), 8real);
}

/// The explicit step is `(I + dt C) F`, entry by entry.
pub proof fn law_explicit_step_follows_the_flow(p: Particle, dt: Binary32)
    requires
        explicit_trial(p, dt).is_finite(),
    ensures
        around(explicit_trial(p, dt).x_axis.x, moved(p, dt, 0, 0), moved_scale(p, dt), 8real),
        around(explicit_trial(p, dt).x_axis.y, moved(p, dt, 1, 0), moved_scale(p, dt), 8real),
        around(explicit_trial(p, dt).y_axis.x, moved(p, dt, 0, 1), moved_scale(p, dt), 8real),
        around(explicit_trial(p, dt).y_axis.y, moved(p, dt, 1, 1), moved_scale(p, dt), 8real),
{
    let c = p.velocity_gradient;
    let f = p.deformation_gradient;
    let g = Mat2::identity().add(c.scale(dt));
    lemma_constant_amounts();
    lemma_finite_parts(g.x_axis.x.mul(f.x_axis.x), g.y_axis.x.mul(f.x_axis.y));
    lemma_finite_parts(g.x_axis.y.mul(f.x_axis.x), g.y_axis.y.mul(f.x_axis.y));
    lemma_finite_parts(g.x_axis.x, f.x_axis.x);
    lemma_finite_parts(g.y_axis.x, f.x_axis.y);
    lemma_finite_parts(g.x_axis.y, f.x_axis.x);
    lemma_finite_parts(g.y_axis.y, f.x_axis.y);
    lemma_step_factor(p, dt, Binary32::one(), c.x_axis.x);
    lemma_step_factor(p, dt, Binary32::zero(), c.x_axis.y);
    lemma_step_factor(p, dt, Binary32::zero(), c.y_axis.x);
    lemma_step_factor(p, dt, Binary32::one(), c.y_axis.y);
    let m = weight(dt) * c.weight() + 1real;
    let a = estimate(g.x_axis.x, step_factor(p, dt, 0, 0), m, 4real);
    let b = estimate(g.y_axis.x, step_factor(p, dt, 0, 1), m, 4real);
    let d = estimate(g.x_axis.y, step_factor(p, dt, 1, 0), m, 4real);
    let e = estimate(g.y_axis.y, step_factor(p, dt, 1, 1), m, 4real);
    lemma_moved(p, a, b, f.x_axis.x, f.x_axis.y, m);
    lemma_moved(p, a, b, f.y_axis.x, f.y_axis.y, m);
    lemma_moved(p, d, e, f.x_axis.x, f.x_axis.y, m);
    lemma_moved(p, d, e, f.y_axis.x, f.y_axis.y, m);
}

/// The factor by which a step changes volumes: `det(I + dt C)`.
pub open spec fn step_volume_factor(p: Particle, dt: Binary32) -> real {
    (1real + dt.amount() * p.velocity_gradient.at(0, 0)) * (1real + dt.amount()
        * p.velocity_gradient.at(1, 1)) - (dt.amount() * p.velocity_gradient.at(1, 0)) * (
    dt.amount() * p.velocity_gradient.at(0, 1))
}

/// A product of sums.
proof fn lemma_expanded(x: real, y: real, z: real, w: real)
    ensures
        (x + y) * (z + w) == x * z + x * w + y * z + y * w,
{
    let s = z + w;
    assert((x + y) * s == x * s + y * s) by (nonlinear_arith);
    assert(x * s == x * z + x * w) by (nonlinear_arith)
        requires
            s == z + w,
    ;
    assert(y * s == y * z + y * w) by (nonlinear_arith)
        requires
            s == z + w,
    ;
}

/// A product of products.
proof fn lemma_regrouped(p: real, q: real, r: real, s: real)
    ensures
        (p * q) * (r * s) == (p * r) * (q * s),
{
    let t = r * s;
    let u = q * s;
    assert((p * q) * t == p * (q * t)) by (nonlinear_arith);
    assert((p * r) * u == p * (r * u)) by (nonlinear_arith);
    assert(q * t == r * u) by (nonlinear_arith)
        requires
            t == r * s,
            u == q * s,
    ;
}

/// The determinant of a product of matrices is the product of their determinants.
proof fn lemma_determinants_multiply(
    a: real,
    b: real,
    c: real,
    d: real,
    e: real,
    f: real,
    g: real,
    h: real,
)
    ensures
        (a * e + b * f) * (c * g + d * h) - (c * e + d * f) * (a * g + b * h) == (a * d - c * b) * (e
            * h - f * g),
{
    lemma_expanded(a * e, b * f, c * g, d * h);
    lemma_expanded(c * e, d * f, a * g, b * h);
    lemma_regrouped(a, e, c, g);
    lemma_regrouped(a, e, d, h);
    lemma_regrouped(b, f, c, g);
    lemma_regrouped(b, f, d, h);
    lemma_regrouped(c, e, a, g);
    lemma_regrouped(c, e, b, h);
    lemma_regrouped(d, f, a, g);
    lemma_regrouped(d, f, b, h);
    lemma_swapped(a, c);
    lemma_swapped(b, d);
    lemma_swapped(b, c);
    lemma_swapped(a, d);
    let u = a * d;
    let v = c * b;
    let x = e * h;
    let y = f * g;
    assert((u - v) * (x - y) == u * x - u * y - v * x + v * y) by {
        lemma_expanded(u, -v, x, -y);
        lemma_signs(u, y);
        lemma_signs(v, x);
        lemma_signs(v, y);
        lemma_signs(v, -y);
    }
}

/// A product either way round.
proof fn lemma_swapped(x: real, y: real)
    ensures
        x * y == y * x,
{
    assert(x * y == y * x) by (nonlinear_arith);
}

/// The signs of a product.
proof fn lemma_signs(x: real, y: real)
    ensures
        (-x) * y == -(x * y),
        x * (-y) == -(x * y),
{
    assert((-x) * y == -(x * y)) by (nonlinear_arith);
    assert(x * (-y) == -(x * y)) by (nonlinear_arith);
}

/// Volume follows the flow: the determinant after an explicit step is the one before times
/// `det(I + dt C)`.
pub proof fn law_volume_follows_the_flow(p: Particle, dt: Binary32)
    requires
        explicit_trial(p, dt).is_finite(),
        explicit_trial(p, dt).determinant().is_finite(),
    ensures
        around(
            explicit_trial(p, dt).determinant(),
            step_volume_factor(p, dt) * p.deformation_gradient.volume_ratio(),
            2real * (moved_scale(p, dt) * moved_scale(p, dt)),
            44real,
        ),
{
    law_explicit_step_follows_the_flow(p, dt);
    let t = explicit_trial(p, dt);
    let m = moved_scale(p, dt);
    lemma_determinant_of(
        estimate(t.x_axis.x, moved(p, dt, 0, 0), m, 8real),
        estimate(t.x_axis.y, moved(p, dt, 1, 0), m, 8real),
        estimate(t.y_axis.x, moved(p, dt, 0, 1), m, 8real),
        estimate(t.y_axis.y, moved(p, dt, 1, 1), m, 8real),
        m,
    );
    let f = p.deformation_gradient;
    lemma_determinants_multiply(
        step_factor(p, dt, 0, 0),
        step_factor(p, dt, 0, 1),
        step_factor(p, dt, 1, 0),
        step_factor(p, dt, 1, 1),
        f.at(0, 0),
        f.at(1, 0),
        f.at(0, 1),
        f.at(1, 1),
    );
}

/// A matrix that stands for the one with rows `(xx, xy)` and `(yx, yy)`, with entries of size
/// at most `scale`, up to `parts` parts in `2^23` of `scale`.
pub struct Tensor {
    pub got: Mat2,
    pub xx: real,
    pub xy: real,
    pub yx: real,
    pub yy: real,
    pub scale: real,
    pub parts: real,
}

/// `a` has the rows `(xx, xy)` and `(yx, yy)`, with entries of size at most `scale`, up to
/// `parts` parts in `2^23` of `scale`.
pub open spec fn resembles(
    a: Mat2,
    xx: real,
    xy: real,
    yx: real,
    yy: real,
    scale: real,
    parts: real,
) -> bool {
    &&& around(a.x_axis.x, xx, scale, parts)
    &&& around(a.y_axis.x, xy, scale, parts)
    &&& around(a.x_axis.y, yx, scale, parts)
    &&& around(a.y_axis.y, yy, scale, parts)
}

impl Tensor {
    pub open spec fn holds(self) -> bool {
        &&& resembles(self.got, self.xx, self.xy, self.yx, self.yy, self.scale, self.parts)
        &&& 0real <= self.parts <= 400real
    }

    pub open spec fn plus(self, other: Tensor) -> Tensor {
        Tensor {
            got: self.got.add(other.got),
            xx: self.xx + other.xx,
            xy: self.xy + other.xy,
            yx: self.yx + other.yx,
            yy: self.yy + other.yy,
            scale: self.scale + other.scale,
            parts: larger(self.parts, other.parts) + 2real,
        }
    }

    pub open spec fn minus(self, other: Tensor) -> Tensor {
        Tensor {
            got: self.got.sub(other.got),
            xx: self.xx - other.xx,
            xy: self.xy - other.xy,
            yx: self.yx - other.yx,
            yy: self.yy - other.yy,
            scale: self.scale + other.scale,
            parts: larger(self.parts, other.parts) + 2real,
        }
    }

    /// The estimate times the identity.
    pub open spec fn isotropic(e: Estimate) -> Tensor {
        Tensor {
            got: Mat2::isotropic(e.got),
            xx: e.exact,
            xy: 0real,
            yx: 0real,
            yy: e.exact,
            scale: e.scale,
            parts: e.parts,
        }
    }
}

/// The parts of a finite sum or difference of matrices are finite.
pub proof fn lemma_finite_terms(a: Mat2, b: Mat2)
    ensures
        a.add(b).is_finite() ==> a.is_finite() && b.is_finite(),
        a.sub(b).is_finite() ==> a.is_finite() && b.is_finite(),
{
    lemma_finite_parts(a.x_axis.x, b.x_axis.x);
    lemma_finite_parts(a.x_axis.y, b.x_axis.y);
    lemma_finite_parts(a.y_axis.x, b.y_axis.x);
    lemma_finite_parts(a.y_axis.y, b.y_axis.y);
}

/// A finite sum of estimated matrices.
pub proof fn lemma_tensor_plus(a: Tensor, b: Tensor)
    requires
        a.holds(),
        b.holds(),
        a.parts <= 390real,
        b.parts <= 390real,
        a.plus(b).got.is_finite(),
    ensures
        a.plus(b).holds(),
{
    let (m, k) = (a.scale, a.parts);
    let (n, l) = (b.scale, b.parts);
    lemma_plus(estimate(a.got.x_axis.x, a.xx, m, k), estimate(b.got.x_axis.x, b.xx, n, l));
    lemma_plus(estimate(a.got.y_axis.x, a.xy, m, k), estimate(b.got.y_axis.x, b.xy, n, l));
    lemma_plus(estimate(a.got.x_axis.y, a.yx, m, k), estimate(b.got.x_axis.y, b.yx, n, l));
    lemma_plus(estimate(a.got.y_axis.y, a.yy, m, k), estimate(b.got.y_axis.y, b.yy, n, l));
}

/// A finite difference of estimated matrices.
pub proof fn lemma_tensor_minus(a: Tensor, b: Tensor)
    requires
        a.holds(),
        b.holds(),
        a.parts <= 390real,
        b.parts <= 390real,
        a.minus(b).got.is_finite(),
    ensures
        a.minus(b).holds(),
{
    let (m, k) = (a.scale, a.parts);
    let (n, l) = (b.scale, b.parts);
    lemma_minus(estimate(a.got.x_axis.x, a.xx, m, k), estimate(b.got.x_axis.x, b.xx, n, l));
    lemma_minus(estimate(a.got.y_axis.x, a.xy, m, k), estimate(b.got.y_axis.x, b.xy, n, l));
    lemma_minus(estimate(a.got.x_axis.y, a.yx, m, k), estimate(b.got.x_axis.y, b.yx, n, l));
    lemma_minus(estimate(a.got.y_axis.y, a.yy, m, k), estimate(b.got.y_axis.y, b.yy, n, l));
}

/// An isotropic matrix.
pub proof fn lemma_tensor_isotropic(e: Estimate)
    requires
        e.holds(),
    ensures
        Tensor::isotropic(e).holds(),
{
    lemma_units();
    lemma_constant_amounts();
    lemma_looser(Estimate::unit(Binary32::zero()), e.scale, e.parts);
}

/// An estimated matrix holds of a larger scale and more parts.
pub proof fn lemma_tensor_looser(a: Tensor, scale: real, parts: real)
    requires
        a.holds(),
        a.scale <= scale,
        a.parts <= parts,
    ensures
        resembles(a.got, a.xx, a.xy, a.yx, a.yy, scale, parts),
{
    let (m, k) = (a.scale, a.parts);
    lemma_looser(estimate(a.got.x_axis.x, a.xx, m, k), scale, parts);
    lemma_looser(estimate(a.got.y_axis.x, a.xy, m, k), scale, parts);
    lemma_looser(estimate(a.got.x_axis.y, a.yx, m, k), scale, parts);
    lemma_looser(estimate(a.got.y_axis.y, a.yy, m, k), scale, parts);
}

/// A pressure acts on every side: `-p` times the identity.
pub proof fn lemma_pressure(p: Binary32)
    requires
        Mat2::isotropic(p.neg()).is_finite(),
    ensures
        p.is_finite(),
        pressing(p).holds(),
{
    lemma_finite_parts(p, p);
    lemma_of(p);
    lemma_opposite(Estimate::of(p));
    lemma_tensor_isotropic(Estimate::of(p).opposite());
}

/// The stress of a pressure.
pub open spec fn pressing(p: Binary32) -> Tensor {
    Tensor::isotropic(Estimate::of(p).opposite())
}

/// A number times the identity.
pub open spec fn pushing(q: Binary32) -> Tensor {
    Tensor::isotropic(Estimate::of(q))
}

/// A number times the identity.
pub proof fn lemma_push(q: Binary32)
    requires
        Mat2::isotropic(q).is_finite(),
    ensures
        q.is_finite(),
        pushing(q).holds(),
{
    lemma_of(q);
    lemma_tensor_isotropic(Estimate::of(q));
}

/// The viscous stress of a velocity gradient.
pub open spec fn sheared(v: Binary32, c: Mat2) -> Tensor {
    Tensor {
        got: shear_stress(v, c),
        xx: v.amount() * (c.at(0, 0) - c.at(1, 1)),
        xy: v.amount() * (c.at(0, 1) + c.at(1, 0)),
        yx: v.amount() * (c.at(0, 1) + c.at(1, 0)),
        yy: v.amount() * (c.at(1, 1) - c.at(0, 0)),
        scale: weight(v) * (4real * c.weight()),
        parts: 10real,
    }
}

/// The dashpot stress of a velocity gradient.
pub open spec fn dashed(v: Binary32, c: Mat2) -> Tensor {
    Tensor {
        got: dashpot_stress(v, c),
        xx: v.amount() * ((c.at(0, 0) - c.at(1, 1)) / 2real),
        xy: v.amount() * ((c.at(0, 1) + c.at(1, 0)) / 2real),
        yx: v.amount() * ((c.at(0, 1) + c.at(1, 0)) / 2real),
        yy: v.amount() * ((c.at(1, 1) - c.at(0, 0)) / 2real),
        scale: weight(v) * (4real * c.weight()),
        parts: 12real,
    }
}

/// A product of two numbers.
pub proof fn lemma_product(a: Binary32, b: Binary32)
    requires
        a.mul(b).is_finite(),
    ensures
        a.is_finite() && b.is_finite(),
        Estimate::of(a).times(Estimate::of(b)).holds(),
{
    lemma_finite_parts(a, b);
    lemma_of(a);
    lemma_of(b);
    lemma_times(Estimate::of(a), Estimate::of(b));
}

/// The sign of a product with a number that is not negative.
pub proof fn lemma_sign_of_product(a: Binary32, c: Binary32)
    requires
        c.bits < 0x8000_0000,
        a.mul(c).is_finite(),
    ensures
        Binary32::zero().le(a) ==> Binary32::zero().le(a.mul(c)),
        a.le(Binary32::zero()) ==> a.mul(c).le(Binary32::zero()),
{
    lemma_single_constants();
    lemma_finite_parts(a, c);
    let z = Binary32::zero();
    law_zero_absorbs(z, c);
    if z.le(a) {
        law_multiplication_is_monotone(z, a, c);
    }
    if a.le(z) {
        law_multiplication_is_monotone(a, z, c);
    }
}

/// The off-diagonal entries of a matrix have the signs of those of another one.
pub open spec fn signs_agree(s: Binary32, t: Mat2) -> bool {
    &&& Binary32::zero().le(s) ==> Binary32::zero().le(t.x_axis.y) && Binary32::zero().le(
        t.y_axis.x,
    )
    &&& s.le(Binary32::zero()) ==> t.x_axis.y.le(Binary32::zero()) && t.y_axis.x.le(
        Binary32::zero(),
    )
}

/// Viscous stress has the sign of the shearing.
pub proof fn lemma_shear_sign(v: Binary32, c: Mat2)
    requires
        v.bits < 0x8000_0000,
        shear_stress(v, c).is_finite(),
    ensures
        signs_agree(c.x_axis.y.add(c.y_axis.x), shear_stress(v, c)),
{
    let s = c.symmetrised();
    lemma_sheared(s, v);
    lemma_single_constants();
    law_addition_commutes(c.x_axis.y, c.y_axis.x);
    law_zero_is_neutral(s.x_axis.y);
    law_zero_is_neutral(s.y_axis.x);
    lemma_sign_of_product(s.x_axis.y, v);
    lemma_sign_of_product(s.y_axis.x, v);
}

/// Dashpot stress has the sign of the shearing.
pub proof fn lemma_dashpot_sign(v: Binary32, c: Mat2)
    requires
        v.bits < 0x8000_0000,
        dashpot_stress(v, c).is_finite(),
    ensures
        signs_agree(c.x_axis.y.add(c.y_axis.x), dashpot_stress(v, c)),
{
    let u = c.symmetrised();
    let s = u.scale(half());
    lemma_sheared(s, v);
    lemma_single_constants();
    law_addition_commutes(c.x_axis.y, c.y_axis.x);
    lemma_sign_of_product(u.x_axis.y, half());
    lemma_sign_of_product(u.y_axis.x, half());
    law_zero_is_neutral(s.x_axis.y);
    law_zero_is_neutral(s.y_axis.x);
    lemma_sign_of_product(s.x_axis.y, v);
    lemma_sign_of_product(s.y_axis.x, v);
}

/// Adding a matrix to a diagonal one keeps the signs of its off-diagonal entries.
pub proof fn lemma_sign_kept(a: Mat2, t: Mat2)
    requires
        a.x_axis.y == Binary32::zero(),
        a.y_axis.x == Binary32::zero(),
        t.is_finite(),
    ensures
        a.add(t).x_axis.y.eq(t.x_axis.y),
        a.add(t).y_axis.x.eq(t.y_axis.x),
{
    let z = Binary32::zero();
    lemma_single_constants();
    law_addition_commutes(z, t.x_axis.y);
    law_addition_commutes(z, t.y_axis.x);
    law_zero_adds_nothing(t.x_axis.y, z);
    law_zero_adds_nothing(t.y_axis.x, z);
}

/// A sum of matrices either way round.
pub proof fn lemma_sum_either_way(a: Mat2, b: Mat2)
    ensures
        a.add(b) == b.add(a),
{
    law_addition_commutes(a.x_axis.x, b.x_axis.x);
    law_addition_commutes(a.x_axis.y, b.x_axis.y);
    law_addition_commutes(a.y_axis.x, b.y_axis.x);
    law_addition_commutes(a.y_axis.y, b.y_axis.y);
}

/// `x` kept within `[lo, hi]`.
pub open spec fn bounded(x: real, lo: real, hi: real) -> real {
    if x < lo {
        lo
    } else if hi < x {
        hi
    } else {
        x
    }
}

/// Bounds do not spread numbers.
pub proof fn lemma_bounded(x: Binary32, lo: Binary32, hi: Binary32, exact: real, parts: real)
    requires
        x.is_finite() && lo.is_finite() && hi.is_finite(),
        lo.le(hi),
        off(x.amount(), exact) <= parts,
    ensures
        x.clamp(lo, hi).is_finite(),
        lo.amount() <= x.clamp(lo, hi).amount() <= hi.amount(),
        off(x.clamp(lo, hi).amount(), bounded(exact, lo.amount(), hi.amount())) <= parts,
{
    law_order_of_amounts(x, lo);
    law_order_of_amounts(lo, hi);
    law_order_of_amounts(hi, x);
    law_order_of_amounts(hi, lo);
}

/// A fluid particle holds its volume ratio, its density and, in its volume, its mass; nothing
/// else of it changes.
pub proof fn law_volume_ratio_is_held(
    p: Particle,
    j: Binary32,
    density: Binary32,
    min_volume: Binary32,
)
    requires
        j.is_finite(),
        j.gt(Binary32::zero()),
    ensures
        ({
            let q = with_volume_ratio(p, j, density, min_volume);
            let f = q.deformation_gradient;
            &&& off(f.volume_ratio(), j.amount()) <= 2real * j.amount()
            &&& f.at(0, 1) == 0real && f.at(1, 0) == 0real
            &&& f.at(0, 0) == f.at(1, 1) && f.at(0, 0) > 0real
            &&& q.density == density
            &&& q.mass == p.mass && q.v == p.v && q.x == p.x
            &&& q.temperature == p.temperature && q.velocity_gradient == p.velocity_gradient
            &&& q.initial_volume == p.initial_volume
        }),
        ({
            let q = with_volume_ratio(p, j, density, min_volume);
            p.mass.is_finite() && density.is_finite() && density.amount() > 0real
                && p.mass.div(density).is_finite() && min_volume.lt(p.mass.div(density)) ==> off(
                q.volume.amount() * q.density.amount(),
                p.mass.amount(),
            ) <= size(p.mass.amount()) + dust() * density.amount()
        }),
{
    law_root_is_near(j);
    lemma_constant_amounts();
    lemma_nothing(0real);
    if p.mass.is_finite() && density.is_finite() && density.amount() > 0real && p.mass.div(
        density,
    ).is_finite() && min_volume.lt(p.mass.div(density)) {
        law_quotient_multiplies_back(p.mass, density);
        lemma_single_constants();
    }
}

/// Nothing times a number.
pub proof fn lemma_nothing(x: real)
    ensures
        0real * x == 0real,
        x * 0real == 0real,
{
    assert(0real * x == 0real) by (nonlinear_arith);
    assert(x * 0real == 0real) by (nonlinear_arith);
}

/// A volume ratio that follows the flow within its bounds, held by a particle.
pub proof fn lemma_held_flow(
    p: Particle,
    dt: Binary32,
    lo: Binary32,
    hi: Binary32,
    density: Binary32,
    min_volume: Binary32,
)
    requires
        explicit_trial(p, dt).is_finite(),
        explicit_trial(p, dt).determinant().is_finite(),
        lo.is_finite() && hi.is_finite(),
        lo.le(hi),
        Binary32::zero().lt(lo),
    ensures
        ({
            let j = explicit_trial(p, dt).determinant().clamp(lo, hi);
            &&& j.is_finite()
            &&& j.gt(Binary32::zero())
            &&& off(
                with_volume_ratio(p, j, density, min_volume).deformation_gradient.volume_ratio(),
                bounded(flow_ratio(p, dt), lo.amount(), hi.amount()),
            ) <= flow_error(p, dt) + 2real * hi.amount()
        }),
{
    law_volume_follows_the_flow(p, dt);
    let x = explicit_trial(p, dt).determinant();
    lemma_bounded(x, lo, hi, flow_ratio(p, dt), flow_error(p, dt));
    let j = x.clamp(lo, hi);
    lemma_constant_amounts();
    lemma_single_constants();
    law_order_of_amounts(Binary32::zero(), lo);
    law_order_of_amounts(Binary32::zero(), j);
    law_volume_ratio_is_held(p, j, density, min_volume);
}

/// The volume ratio after a step: `det(I + dt C) det F`.
pub open spec fn flow_ratio(p: Particle, dt: Binary32) -> real {
    step_volume_factor(p, dt) * p.deformation_gradient.volume_ratio()
}

/// How far the computed volume ratio after a step is from the exact one, in parts in `2^23`.
pub open spec fn flow_error(p: Particle, dt: Binary32) -> real {
    44real * (2real * (moved_scale(p, dt) * moved_scale(p, dt)))
}

/// A dilation of an undistorted particle, by its single entry.
pub proof fn lemma_dilated(p: Particle, dt: Binary32, s: Binary32, c: Binary32)
    requires
        p.deformation_gradient == Mat2::isotropic(s),
        p.velocity_gradient == Mat2::isotropic(c),
        s.is_finite() && dt.is_finite(),
        Binary32::one().add(c.mul(dt)).is_finite(),
        explicit_trial(p, dt).determinant().is_finite(),
    ensures
        ({
            let g = Binary32::one().add(c.mul(dt)).mul(s);
            explicit_trial(p, dt).determinant().eq(g.mul(g))
        }),
{
    let z = Binary32::zero();
    let g = Binary32::one().add(c.mul(dt));
    let t = explicit_trial(p, dt);
    let h = g.mul(s);
    lemma_single_constants();
    lemma_constant_amounts();
    let o = z.add(z.mul(dt));
    law_zero_absorbs(z, dt);
    law_zeros_add_up(z, z.mul(dt));
    lemma_finite_parts(t.x_axis.x.mul(t.y_axis.y), t.x_axis.y.mul(t.y_axis.x));
    lemma_finite_parts(t.x_axis.x, t.y_axis.y);
    lemma_finite_parts(g.mul(s), o.mul(z));
    lemma_finite_parts(o.mul(z), g.mul(s));
    law_zero_absorbs(o, s);
    law_zero_absorbs(o, z);
    law_zero_absorbs(z, g);
    law_zeros_add_up(g.mul(z), o.mul(s));
    law_zeros_add_up(o.mul(s), g.mul(z));
    assert(t.x_axis.y.eq(z) && t.y_axis.x.eq(z));
    law_zero_adds_nothing(h, o.mul(z));
    law_addition_commutes(o.mul(z), h);
    assert(t.x_axis.x.eq(h) && t.y_axis.y.eq(h));
    law_zero_absorbs(t.x_axis.y, t.y_axis.x);
    law_equal_factors(t.x_axis.x, t.y_axis.y, h);
    law_minus_one_negates(t.x_axis.x.mul(t.y_axis.y), t.x_axis.y.mul(t.y_axis.x));
    law_zero_adds_nothing(
        t.x_axis.x.mul(t.y_axis.y),
        t.x_axis.y.mul(t.y_axis.x).neg(),
    );
}

/// Equal factors give equal squares.
proof fn law_equal_factors(a: Binary32, b: Binary32, h: Binary32)
    requires
        a.eq(h) && b.eq(h),
        a.is_finite() && b.is_finite() && h.is_finite(),
        a.mul(b).is_finite(),
    ensures
        a.mul(b).eq(h.mul(h)),
{
    let z = Binary32::zero();
    lemma_single_constants();
    if h.eq(z) {
        law_zero_absorbs(a, b);
        law_zero_absorbs(h, h);
    } else {
        assert(a == h && b == h);
    }
}

/// The density that goes with a volume ratio: their product is the rest density.
pub proof fn lemma_density_times_ratio(rest_density: Binary32, j: Binary32, ratio: real)
    requires
        rest_density.is_finite(),
        Binary32::zero().lt(rest_density),
        j.is_finite(),
        j.gt(Binary32::zero()),
        off(ratio, j.amount()) <= 2real * j.amount(),
        rest_density.div(j).is_finite(),
    ensures
        off(rest_density.div(j).amount() * ratio, rest_density.amount()) <= 4real * (
        rest_density.amount() + dust() * j.amount()),
{
    lemma_constant_amounts();
    lemma_single_constants();
    law_order_of_amounts(Binary32::zero(), j);
    law_order_of_amounts(Binary32::zero(), rest_density);
    law_quotient_multiplies_back(rest_density, j);
    let d = rest_density.div(j).amount();
    let y = j.amount();
    let x = d * y;
    let e = ratio - y;
    let r = rest_density.amount();
    let t = dust() * y;
    lemma_dust();
    assert(t > 0real) by (nonlinear_arith)
        requires
            t == dust() * y,
            dust() > 0real,
            y > 0real,
    ;
    assert(d * ratio == x + d * e) by (nonlinear_arith)
        requires
            x == d * y,
            e == ratio - y,
    ;
    let u = size(d) * size(e);
    assert(size(d * e) == u && size(x) == size(d) * y) by (nonlinear_arith)
        requires
            u == size(d) * size(e),
            x == d * y,
            y > 0real,
    ;
    assert(8388608real * u <= 2real * size(x)) by (nonlinear_arith)
        requires
            u == size(d) * size(e),
            8388608real * size(e) <= 2real * y,
            size(x) == size(d) * y,
            size(d) >= 0real,
    ;
}

impl Tensor {
    /// A matrix that stands for itself.
    pub open spec fn of(a: Mat2) -> Tensor {
        Tensor {
            got: a,
            xx: a.at(0, 0),
            xy: a.at(0, 1),
            yx: a.at(1, 0),
            yy: a.at(1, 1),
            scale: a.weight(),
            parts: 0real,
        }
    }

    pub open spec fn transposed(self) -> Tensor {
        Tensor { got: self.got.transpose(), xy: self.yx, yx: self.xy, ..self }
    }

    pub open spec fn scaled(self, e: Estimate) -> Tensor {
        Tensor {
            got: self.got.scale(e.got),
            xx: self.xx * e.exact,
            xy: self.xy * e.exact,
            yx: self.yx * e.exact,
            yy: self.yy * e.exact,
            scale: self.scale * e.scale,
            parts: self.parts + e.parts + 2real,
        }
    }

    pub open spec fn times(self, other: Tensor) -> Tensor {
        Tensor {
            got: self.got.mul(other.got),
            xx: self.xx * other.xx + self.xy * other.yx,
            xy: self.xx * other.xy + self.xy * other.yy,
            yx: self.yx * other.xx + self.yy * other.yx,
            yy: self.yx * other.xy + self.yy * other.yy,
            scale: self.scale * other.scale + self.scale * other.scale,
            parts: self.parts + other.parts + 4real,
        }
    }

    pub open spec fn deviator(self) -> Tensor {
        Tensor {
            got: self.got.deviator(),
            xx: (self.xx - self.yy) / 2real,
            yy: (self.yy - self.xx) / 2real,
            xy: self.xy,
            yx: self.yx,
            scale: 3real * self.scale,
            parts: self.parts + 6real,
        }
    }
}

/// A finite matrix stands for itself.
pub proof fn lemma_tensor_of(a: Mat2)
    requires
        a.is_finite(),
    ensures
        Tensor::of(a).holds(),
        Tensor::of(a).transposed().holds(),
{
}

/// The parts of finite products of matrices are finite.
pub proof fn lemma_finite_factors(a: Mat2, b: Mat2, v: Binary32)
    ensures
        a.scale(v).is_finite() ==> a.is_finite() && v.is_finite(),
        a.mul(b).is_finite() ==> a.is_finite() && b.is_finite(),
        a.deviator().is_finite() ==> a.is_finite() && a.trace().is_finite() && a.trace().mul(
            half(),
        ).is_finite(),
        a.transpose().is_finite() <==> a.is_finite(),
{
    lemma_finite_parts(a.x_axis.x, v);
    lemma_finite_parts(a.x_axis.y, v);
    lemma_finite_parts(a.y_axis.x, v);
    lemma_finite_parts(a.y_axis.y, v);
    let (ax, ay) = (a.x_axis, a.y_axis);
    let (bx, by) = (b.x_axis, b.y_axis);
    lemma_finite_parts(ax.x.mul(bx.x), ay.x.mul(bx.y));
    lemma_finite_parts(ax.y.mul(bx.x), ay.y.mul(bx.y));
    lemma_finite_parts(ax.x.mul(by.x), ay.x.mul(by.y));
    lemma_finite_parts(ax.x, bx.x);
    lemma_finite_parts(ay.x, bx.y);
    lemma_finite_parts(ax.y, bx.x);
    lemma_finite_parts(ay.y, bx.y);
    lemma_finite_parts(ax.x, by.x);
    lemma_finite_parts(ay.x, by.y);
    let h = a.trace().mul(half());
    lemma_finite_parts(a.x_axis.x, h);
    lemma_finite_parts(a.x_axis.y, Binary32::zero());
    lemma_finite_parts(a.y_axis.x, Binary32::zero());
    lemma_finite_parts(a.y_axis.y, h);
    lemma_finite_parts(a.trace(), half());
}

/// A finite multiple of an estimated matrix.
pub proof fn lemma_tensor_scaled(a: Tensor, e: Estimate)
    requires
        a.holds(),
        e.holds(),
        a.parts + e.parts <= 390real,
        a.scaled(e).got.is_finite(),
    ensures
        a.scaled(e).holds(),
{
    let (m, k) = (a.scale, a.parts);
    lemma_times(estimate(a.got.x_axis.x, a.xx, m, k), e);
    lemma_times(estimate(a.got.y_axis.x, a.xy, m, k), e);
    lemma_times(estimate(a.got.x_axis.y, a.yx, m, k), e);
    lemma_times(estimate(a.got.y_axis.y, a.yy, m, k), e);
}

/// An entry of a finite product of estimated matrices.
proof fn lemma_row_times_column(a: Estimate, b: Estimate, c: Estimate, d: Estimate)
    requires
        a.holds() && b.holds() && c.holds() && d.holds(),
        a.scale == b.scale && c.scale == d.scale,
        a.parts == b.parts && c.parts == d.parts,
        a.parts + c.parts <= 380real,
        a.got.mul(c.got).add(b.got.mul(d.got)).is_finite(),
    ensures
        around(
            a.got.mul(c.got).add(b.got.mul(d.got)),
            a.exact * c.exact + b.exact * d.exact,
            a.scale * c.scale + a.scale * c.scale,
            a.parts + c.parts + 4real,
        ),
{
    lemma_finite_parts(a.got.mul(c.got), b.got.mul(d.got));
    lemma_times(a, c);
    lemma_times(b, d);
    lemma_plus(a.times(c), b.times(d));
}

/// A finite product of estimated matrices.
pub proof fn lemma_tensor_times(a: Tensor, b: Tensor)
    requires
        a.holds(),
        b.holds(),
        a.parts + b.parts <= 380real,
        a.times(b).got.is_finite(),
    ensures
        a.times(b).holds(),
{
    let (m, k) = (a.scale, a.parts);
    let (n, l) = (b.scale, b.parts);
    let axx = estimate(a.got.x_axis.x, a.xx, m, k);
    let axy = estimate(a.got.y_axis.x, a.xy, m, k);
    let ayx = estimate(a.got.x_axis.y, a.yx, m, k);
    let ayy = estimate(a.got.y_axis.y, a.yy, m, k);
    let bxx = estimate(b.got.x_axis.x, b.xx, n, l);
    let bxy = estimate(b.got.y_axis.x, b.xy, n, l);
    let byx = estimate(b.got.x_axis.y, b.yx, n, l);
    let byy = estimate(b.got.y_axis.y, b.yy, n, l);
    lemma_row_times_column(axx, axy, bxx, byx);
    lemma_row_times_column(axx, axy, bxy, byy);
    lemma_row_times_column(ayx, ayy, bxx, byx);
    lemma_row_times_column(ayx, ayy, bxy, byy);
}

/// A finite deviator of an estimated matrix.
pub proof fn lemma_tensor_deviator(a: Tensor)
    requires
        a.holds(),
        a.parts <= 380real,
        a.deviator().got.is_finite(),
    ensures
        a.deviator().holds(),
{
    let (m, k) = (a.scale, a.parts);
    lemma_finite_factors(a.got, a.got, half());
    lemma_units();
    lemma_constant_amounts();
    let xx = estimate(a.got.x_axis.x, a.xx, m, k);
    let xy = estimate(a.got.y_axis.x, a.xy, m, k);
    let yx = estimate(a.got.x_axis.y, a.yx, m, k);
    let yy = estimate(a.got.y_axis.y, a.yy, m, k);
    lemma_plus(xx, yy);
    let h = xx.plus(yy).halved();
    lemma_halved(xx.plus(yy));
    let z = Estimate::unit(Binary32::zero());
    lemma_minus(xx, h);
    lemma_minus(yy, h);
    lemma_minus(xy, z);
    lemma_minus(yx, z);
    lemma_looser(xx.minus(h), 3real * m, k + 6real);
    lemma_looser(yy.minus(h), 3real * m, k + 6real);
    lemma_looser(xy.minus(z), 3real * m, k + 6real);
    lemma_looser(yx.minus(z), 3real * m, k + 6real);
}

/// Dust grows with what it is taken of.
pub proof fn lemma_larger_dust(x: real, y: real)
    requires
        x <= y,
    ensures
        dust() * x <= dust() * y,
{
    lemma_dust();
    let d = dust();
    assert(d * x <= d * y) by (nonlinear_arith)
        requires
            x <= y,
            d > 0real,
    ;
}

} // verus!
