use vstd::arithmetic::div_mod::lemma_fundamental_div_mod;
use vstd::arithmetic::power2::lemma_pow2_pos;
use vstd::arithmetic::power2::pow2;
use vstd::prelude::*;

use crate::binary::error::huge;
use crate::binary::error::law_difference_is_near;
use crate::binary::error::law_order_of_amounts;
use crate::binary::error::law_product_is_near;
use crate::binary::error::law_quotient_is_near;
use crate::binary::error::law_sum_is_near;
use crate::binary::error::lemma_amount;
use crate::binary::error::lemma_constant_amounts;
use crate::binary::error::lemma_product_of_reals;
use crate::binary::error::lemma_tiny;
use crate::binary::error::lemma_unit_is_small;
use crate::binary::error::near;
use crate::binary::error::nearly;
use crate::binary::error::off;
use crate::binary::error::size;
use crate::binary::error::units;
use crate::binary::exact::lemma_mag_increases;
use crate::binary::exact::mag;
use crate::binary::laws::law_clamp_is_bounded;
use crate::binary::laws::law_finite_difference_is_a_number;
use crate::binary::laws::law_small_integers_are_exact;
use crate::binary::laws::law_subtraction_is_monotone;
use crate::binary::single::Binary32;
use crate::binary::single::lemma_single_constants;
use crate::cavitating_eos::EosBranchInputs;
use crate::cavitating_patch::large;
use crate::cavitating_table::TableView;
use crate::cavitating_table::lerp;

verus! {

/// A small integer amounts to itself.
proof fn lemma_integer_amount(k: u64)
    requires
        k < 0x100_0000,
    ensures
        Binary32::from_integer(k).is_finite(),
        Binary32::from_integer(k).amount() == k as real,
{
    law_small_integers_are_exact(k);
    let a = Binary32::from_integer(k);
    lemma_amount(a);
    lemma_tiny();
    lemma_product_of_reals(k as int, pow2(149) as int);
    let e = units();
    assert(a.amount() == k as real) by (nonlinear_arith)
        requires
            a.amount() * e == (k as real) * e,
            e > 0real,
    ;
}

/// The rounding of the temperature of a node.
proof fn lemma_node_is_near(lo: real, hi: real, r: real, q: real, s: real, t: real, p: real)
    requires
        1real <= lo < hi,
        hi <= large(),
        near(r, hi - lo),
        0real <= p <= 1real,
        nearly(q, p),
        nearly(s, r * q),
        near(t, lo + s),
    ensures
        off(t, lo + (hi - lo) * p) <= 9real * hi,
{
    lemma_unit_is_small();
    let d = hi - lo;
    assert(size(r * q - d * p) <= size(r - d) * size(q) + d * size(q - p)) by (nonlinear_arith)
        requires
            d > 0real,
    ;
    assert(size(q) <= 2real);
    assert(size(r - d) * size(q) <= 2real * size(r - d)) by (nonlinear_arith)
        requires
            size(q) <= 2real,
            size(r - d) >= 0real,
    ;
    assert(8388608real * (d * size(q - p)) <= 2real * d) by (nonlinear_arith)
        requires
            8388608real * size(q - p) <= 2real,
            d > 0real,
    ;
    assert(0real <= d * p <= d) by (nonlinear_arith)
        requires
            0real <= p <= 1real,
            d > 0real,
    ;
    assert(off(r * q, d * p) <= 4real * d);
    assert(off(s, d * p) <= 6real * d + 1real);
}

/// The rounding of a position.
proof fn lemma_position_is_near(
    lo: real,
    hi: real,
    r: real,
    t: real,
    d: real,
    f: real,
    x: real,
    p: real,
    last: real,
)
    requires
        1real <= lo < hi,
        hi <= large(),
        near(r, hi - lo),
        0real <= p <= 1real,
        1real <= last <= 16777216real,
        off(t, lo + (hi - lo) * p) <= 9real * hi,
        near(d, t - lo),
        lo <= t <= hi,
        0real <= d <= r,
        nearly(f, d / r),
        nearly(x, f * last),
        r > 0real,
    ensures
        off(x, p * last) * (hi - lo) <= 20real * (last * hi),
{
    lemma_unit_is_small();
    let w = hi - lo;
    assert(0real <= w * p <= w) by (nonlinear_arith)
        requires
            0real <= p <= 1real,
            w > 0real,
    ;
    let g = d / r;
    assert(g * r == d && 0real <= g <= 1real) by (nonlinear_arith)
        requires
            g == d / r,
            r > 0real,
            0real <= d <= r,
    ;
    assert(off(d, w * p) <= w + 9real * hi);
    // the quotient against the fraction
    assert(8388608real * size((g - p) * r) <= off(d, w * p) + w) by (nonlinear_arith)
        requires
            g * r == d,
            8388608real * size(r - w) <= w,
            0real <= p <= 1real,
            off(d, w * p) == 8388608real * size(d - w * p),
    ;
    assert(8388608real * size((f - p) * r) <= 2real * r + w + w + 9real * hi) by (nonlinear_arith)
        requires
            8388608real * size((g - p) * r) <= w + 9real * hi + w,
            8388608real * size(f - g) <= 2real,
            r > 0real,
    ;
    assert(size(f) <= 2real);
    let e = x - p * last;
    assert(size(f * last) <= 2real * last) by (nonlinear_arith)
        requires
            size(f) <= 2real,
            last > 0real,
    ;
    assert(8388608real * size(x - f * last) <= 2real * last + 1real);
    assert(8388608real * size(e * r) <= 3real * (last * r) + last * (2real * r + 2real * w + 9real
        * hi)) by (nonlinear_arith)
        requires
            e == x - p * last,
            8388608real * size(x - f * last) <= 2real * last + 1real,
            8388608real * size((f - p) * r) <= 2real * r + 2real * w + 9real * hi,
            r > 0real,
            last >= 1real,
    ;
    assert(last * hi >= 0real) by (nonlinear_arith)
        requires
            last >= 0real,
            hi >= 0real,
    ;
    assert(8388608real * size(e) * r <= 18real * (last * hi)) by (nonlinear_arith)
        requires
            8388608real * size(e * r) <= 3real * (last * r) + last * (2real * r + 2real * w + 9real
                * hi),
            8388608real * r <= 8388609real * hi,
            w <= hi,
            r > 0real,
            last >= 1real,
    ;
    assert(8388608real * size(e) * w <= 20real * (last * hi)) by (nonlinear_arith)
        requires
            8388608real * size(e) * r <= 18real * (last * hi),
            8388607real * w <= 8388608real * r,
            size(e) >= 0real,
            w > 0real,
            r > 0real,
            last * hi >= 0real,
    ;
}

/// The temperature of every node has the position of that node, up to rounding: a few parts
/// in `2^23` of the temperature, in units of the node spacing.
pub proof fn law_node_has_its_position(t: TableView, i: nat)
    requires
        t.wf(),
        t.nodes.len() <= 0x100_0000,
        i < t.nodes.len(),
        t.t_min_k.is_finite(),
        t.t_max_k.is_finite(),
        1real <= t.t_min_k.amount(),
        t.t_min_k.amount() < t.t_max_k.amount(),
        t.t_max_k.amount() <= large(),
    ensures
        ({
            let last = (t.nodes.len() - 1) as u64;
            let at = EosBranchInputs::node_temperature(t.t_min_k, t.t_max_k, i as u64, last);
            let x = t.position(at);
            &&& x.is_finite()
            &&& off(x.amount(), i as real) * (t.t_max_k.amount() - t.t_min_k.amount()) <= 20real
                * ((last as real) * t.t_max_k.amount())
        }),
{
    lemma_single_constants();
    lemma_constant_amounts();
    lemma_unit_is_small();
    let lo = t.t_min_k;
    let hi = t.t_max_k;
    let k = (t.nodes.len() - 1) as u64;
    let last = Binary32::from_integer(k);
    let step = Binary32::from_integer(i as u64);
    lemma_integer_amount(k);
    lemma_integer_amount(i as u64);
    law_order_of_amounts(lo, hi);
    law_difference_is_near(hi, lo);
    let r = hi.sub(lo);
    let n = k as real;
    let p = (i as real) / n;
    assert(p * n == i as real && 0real <= p <= 1real) by (nonlinear_arith)
        requires
            p == (i as real) / n,
            n >= 1real,
            0real <= i as real <= n,
    ;
    law_quotient_is_near(step, last);
    let q = step.div(last);
    assert(size(r.amount() * q.amount()) <= 8real * large()) by (nonlinear_arith)
        requires
            0real <= r.amount() <= 2147483648real,
            size(q.amount()) <= 2real,
    ;
    law_product_is_near(r, q);
    let s = r.mul(q);
    law_sum_is_near(lo, s);
    let at = lo.add(s);
    lemma_node_is_near(
        lo.amount(),
        hi.amount(),
        r.amount(),
        q.amount(),
        s.amount(),
        at.amount(),
        p,
    );
    // the clamp only takes the temperature nearer
    law_clamp_is_bounded(at, lo, hi);
    let c = at.clamp(lo, hi);
    law_order_of_amounts(lo, c);
    law_order_of_amounts(c, hi);
    law_order_of_amounts(at, lo);
    law_order_of_amounts(hi, at);
    law_order_of_amounts(lo, at);
    law_order_of_amounts(at, hi);
    let w = hi.amount() - lo.amount();
    assert(0real <= w * p <= w) by (nonlinear_arith)
        requires
            0real <= p <= 1real,
            w > 0real,
    ;
    law_difference_is_near(c, lo);
    let d = c.sub(lo);
    law_finite_difference_is_a_number(c, lo);
    law_finite_difference_is_a_number(hi, lo);
    law_subtraction_is_monotone(c, hi, lo);
    law_order_of_amounts(d, r);
    let g = d.amount() / r.amount();
    assert(0real <= g <= 1real) by (nonlinear_arith)
        requires
            g == d.amount() / r.amount(),
            0real <= d.amount() <= r.amount(),
            r.amount() > 0real,
    ;
    law_quotient_is_near(d, r);
    let f = d.div(r);
    assert(size(f.amount() * n) <= 2real * n) by (nonlinear_arith)
        requires
            size(f.amount()) <= 2real,
            n >= 0real,
    ;
    law_product_is_near(f, last);
    let x = f.mul(last);
    lemma_position_is_near(
        lo.amount(),
        hi.amount(),
        r.amount(),
        c.amount(),
        d.amount(),
        f.amount(),
        x.amount(),
        p,
        n,
    );
    let zero = Binary32::zero();
    law_order_of_amounts(zero, last);
    law_clamp_is_bounded(x, zero, last);
    let y = x.clamp(zero, last);
    law_order_of_amounts(x, zero);
    law_order_of_amounts(last, x);
    law_order_of_amounts(zero, x);
    law_order_of_amounts(x, last);
    assert(off(y.amount(), i as real) <= off(x.amount(), i as real));
    assert(off(y.amount(), i as real) * w <= off(x.amount(), i as real) * w) by (nonlinear_arith)
        requires
            off(y.amount(), i as real) <= off(x.amount(), i as real),
            w > 0real,
    ;
}

/// The integer part of a number that is not negative.
proof fn lemma_integer_part(x: Binary32)
    requires
        x.is_finite(),
        0real <= x.amount() <= 16777216real,
    ensures
        x.to_integer() as real <= x.amount(),
        x.amount() < (x.to_integer() + 1) as real,
{
    reveal(Binary32::spec_to_integer);
    lemma_single_constants();
    lemma_amount(x);
    lemma_tiny();
    lemma_pow2_pos(149);
    lemma_pow2_pos(23);
    let k = x.num().k as nat;
    lemma_mag_increases(23, 0, k);
    let m = mag(23, k) as int;
    let d = pow2(149) as int;
    let w = m / d;
    lemma_fundamental_div_mod(m, d);
    let e = units();
    assert(mag(23, 0) == 0);
    if x.num().neg {
        assert(x.value() <= 0);
        assert(m == 0);
        assert(x.amount() == 0real);
    } else {
        lemma_product_of_reals(w, d);
        lemma_product_of_reals(w + 1, d);
        assert(d * w <= m < d * (w + 1)) by (nonlinear_arith)
            requires
                m == d * w + m % d,
                0 <= m % d < d,
        ;
        assert(w * d == d * w && (w + 1) * d == d * (w + 1)) by (nonlinear_arith);
        assert(w as real <= x.amount() < (w + 1) as real) by (nonlinear_arith)
            requires
                (w as real) * e <= m as real,
                ((w + 1) as real) * e > m as real,
                x.amount() * e == m as real,
                e > 0real,
        ;
        assert(0 <= w <= 16777216);
    }
}

/// The product of a step with a share of it.
proof fn lemma_share_of_step(d: real, g: real, w: real)
    requires
        8388608real * size(d - g) <= size(g),
        0real <= w <= 1real,
    ensures
        size(d * w) <= size(d),
        8388608real * size(d * w - g * w) <= size(g),
        size(g * w) <= size(g),
{
    assert(size(d * w) <= size(d)) by (nonlinear_arith)
        requires
            0real <= w <= 1real,
    ;
    assert(size(g * w) <= size(g)) by (nonlinear_arith)
        requires
            0real <= w <= 1real,
    ;
    let e = d - g;
    assert(size(e * w) <= size(e)) by (nonlinear_arith)
        requires
            0real <= w <= 1real,
    ;
    assert(d * w - g * w == e * w) by (nonlinear_arith)
        requires
            e == d - g,
    ;
}

/// An interpolated value is rounded little.
proof fn lemma_lerp_is_rounded(a: Binary32, b: Binary32, l: Binary32)
    requires
        is_moderate(a),
        is_moderate(b),
        l.is_finite(),
        0real <= l.amount() <= 1real,
    ensures
        lerp(a, b, l).is_finite(),
        off(
            lerp(a, b, l).amount(),
            a.amount() + (b.amount() - a.amount()) * l.amount(),
        ) <= 6real * (size(a.amount()) + size(b.amount())) + 2real,
{
    let x = a.amount();
    let y = b.amount();
    let w = l.amount();
    law_difference_is_near(b, a);
    let d = b.sub(a);
    let g = y - x;
    assert(size(d.amount()) <= 4611686018427387904real);
    lemma_share_of_step(d.amount(), g, w);
    law_product_is_near(d, l);
    let m = d.mul(l);
    lemma_lerp_step(x, y, g, g * w, d.amount() * w, m.amount());
    assert(size(x + m.amount()) <= huge());
    law_sum_is_near(a, m);
    lemma_lerp_total(x, y, g * w, m.amount(), lerp(a, b, l).amount());
}

/// A value between two nodes, at a position that is close to that of one of them.
proof fn lemma_lerp_is_near(a: Binary32, b: Binary32, l: Binary32, share: real, at_left: bool)
    requires
        is_moderate(a),
        is_moderate(b),
        l.is_finite(),
        0real <= l.amount() <= 1real,
        at_left ==> l.amount() <= share,
        !at_left ==> 1real - l.amount() <= share,
    ensures
        lerp(a, b, l).is_finite(),
        size(
            lerp(a, b, l).amount() - (if at_left {
                a.amount()
            } else {
                b.amount()
            }),
        ) <= share * size(b.amount() - a.amount()) + (8real * (size(a.amount()) + size(b.amount()))
            + 2real) / 8388608real,
{
    lemma_lerp_is_rounded(a, b, l);
    let x = a.amount();
    let y = b.amount();
    let g = y - x;
    let w = l.amount();
    let r = lerp(a, b, l).amount();
    let exact = x + g * w;
    let node = if at_left {
        x
    } else {
        y
    };
    if at_left {
        assert(size(g * w) <= share * size(g)) by (nonlinear_arith)
            requires
                0real <= w <= share,
        ;
    } else {
        let v = 1real - w;
        assert(size(g * v) <= share * size(g)) by (nonlinear_arith)
            requires
                0real <= v <= share,
        ;
        assert(exact - y == -(g * v)) by (nonlinear_arith)
            requires
                exact == x + g * w,
                g == y - x,
                v == 1real - w,
        ;
    }
    assert(size(exact - node) <= share * size(g));
    assert(size(r - node) <= size(r - exact) + size(exact - node));
}

/// The step of an interpolation.
proof fn lemma_lerp_step(x: real, y: real, g: real, gw: real, dw: real, m: real)
    requires
        g == y - x,
        8388608real * size(dw - gw) <= size(g),
        size(gw) <= size(g),
        nearly(m, dw),
    ensures
        off(m, gw) <= 3real * (size(x) + size(y)) + 1real,
        size(m) <= 2real * (size(x) + size(y)) + 1real,
{
    lemma_unit_is_small();
    assert(size(g) <= size(x) + size(y));
    assert(8388608real * size(m - dw) <= size(dw) + 1real);
    assert(size(dw) <= 2real * size(g));
}

/// The sum of an interpolation.
proof fn lemma_lerp_total(x: real, y: real, gw: real, m: real, r: real)
    requires
        off(m, gw) <= 3real * (size(x) + size(y)) + 1real,
        size(m) <= 2real * (size(x) + size(y)) + 1real,
        near(r, x + m),
    ensures
        off(r, x + gw) <= 6real * (size(x) + size(y)) + 2real,
{
    assert(8388608real * size(r - (x + m)) <= size(x) + size(m));
}

impl TableView {
    /// The share of an interval by which rounding may move the position of a node.
    pub open spec fn node_share(self) -> real {
        20real * (((self.nodes.len() - 1) as real) * self.t_max_k.amount()) / (
        self.t_max_k.amount() - self.t_min_k.amount()) / 8388608real
    }

    /// The nodes are finite and not huge.
    pub open spec fn has_moderate_nodes(self) -> bool {
        forall|i: int|
            0 <= i < self.nodes.len() ==> {
                let q = #[trigger] self.nodes[i];
                &&& is_moderate(q.rho_m_plus_kg_m3)
                &&& is_moderate(q.rho_m_minus_kg_m3)
                &&& is_moderate(q.delta_mix_liquid_kg_m3)
                &&& is_moderate(q.delta_mix_vapor_kg_m3)
            }
    }
}

/// Finite, and below `2^60` in size.
pub open spec fn is_moderate(a: Binary32) -> bool {
    a.is_finite() && size(a.amount()) <= 1152921504606846976real
}

/// `got` is `node` up to twice the share of the step from `a` to `b` and to rounding.
pub open spec fn is_near_node(
    got: Binary32,
    node: Binary32,
    a: Binary32,
    b: Binary32,
    share: real,
) -> bool {
    size(got.amount() - node.amount()) <= 2real * share * size(b.amount() - a.amount()) + (8real * (
    size(a.amount()) + size(b.amount())) + 2real) / 8388608real
}

/// The node below the temperature of a node is that node or the one before it, and the
/// position between the two is that of the node, up to the share.
proof fn lemma_node_between(t: TableView, i: nat) -> (at_left: bool)
    requires
        t.wf(),
        t.nodes.len() <= 0x100_0000,
        i < t.nodes.len(),
        t.t_min_k.is_finite(),
        t.t_max_k.is_finite(),
        1real <= t.t_min_k.amount(),
        t.t_min_k.amount() < t.t_max_k.amount(),
        t.t_max_k.amount() <= large(),
        4real * t.node_share() <= 1real,
    ensures
        ({
            let last = (t.nodes.len() - 1) as u64;
            let at = EosBranchInputs::node_temperature(t.t_min_k, t.t_max_k, i as u64, last);
            let l = t.local(at);
            let below = t.node_below(at);
            &&& 0 <= below < t.nodes.len() - 1
            &&& l.is_finite() && 0real <= l.amount() <= 1real
            &&& at_left ==> below == i && l.amount() <= 2real * t.node_share()
            &&& !at_left ==> below == i - 1 && 1real - l.amount() <= 2real * t.node_share()
        }),
{
    lemma_single_constants();
    lemma_constant_amounts();
    law_node_has_its_position(t, i);
    let last = (t.nodes.len() - 1) as u64;
    let n = last as real;
    let at = EosBranchInputs::node_temperature(t.t_min_k, t.t_max_k, i as u64, last);
    let x = t.position(at);
    let hi = t.t_max_k.amount();
    let range = hi - t.t_min_k.amount();
    let share = t.node_share();
    let e = 20real * (n * hi);
    assert(8388608real * share * range == e) by (nonlinear_arith)
        requires
            share == e / range / 8388608real,
            range > 0real,
    ;
    assert(size(x.amount() - i as real) <= share) by (nonlinear_arith)
        requires
            8388608real * size(x.amount() - i as real) * range <= e,
            8388608real * share * range == e,
            range > 0real,
    ;
    assert(n * hi >= range) by (nonlinear_arith)
        requires
            n >= 1real,
            hi >= range,
            range > 0real,
    ;
    assert(8388608real * share >= 20real) by (nonlinear_arith)
        requires
            8388608real * share * range == e,
            e >= 20real * range,
            range > 0real,
    ;
    // within the nodes
    let zero = Binary32::zero();
    let top = Binary32::from_integer(last);
    lemma_integer_amount(last);
    law_order_of_amounts(zero, top);
    assert(zero.le(x) && x.le(top)) by {
        lemma_position_is_clamped(t, at);
    }
    law_order_of_amounts(zero, x);
    law_order_of_amounts(x, top);
    lemma_integer_part(x);
    let below = t.node_below(at);
    lemma_integer_amount(below as u64);
    let base = Binary32::from_integer(below as u64);
    law_difference_is_near(x, base);
    let d = x.sub(base);
    law_clamp_is_bounded(d, zero, Binary32::one());
    let l = t.local(at);
    law_order_of_amounts(zero, l);
    law_order_of_amounts(l, Binary32::one());
    law_order_of_amounts(d, zero);
    law_order_of_amounts(Binary32::one(), d);
    law_order_of_amounts(zero, d);
    law_order_of_amounts(d, Binary32::one());
    below == i
}

/// A position is within the nodes.
proof fn lemma_position_is_clamped(t: TableView, temperature_k: Binary32)
    requires
        t.position(temperature_k).is_finite(),
        Binary32::zero().le(t.last()),
    ensures
        Binary32::zero().le(t.position(temperature_k)),
        t.position(temperature_k).le(t.last()),
{
    lemma_single_constants();
    law_clamp_is_bounded(
        t.fraction(temperature_k).mul(t.last()),
        Binary32::zero(),
        t.last(),
    );
}

/// At the temperature of a node a table answers with that node, up to rounding.
pub proof fn law_table_answers_with_its_nodes(t: TableView, i: nat)
    requires
        t.wf(),
        t.nodes.len() <= 0x100_0000,
        i < t.nodes.len(),
        t.t_min_k.is_finite(),
        t.t_max_k.is_finite(),
        1real <= t.t_min_k.amount(),
        t.t_min_k.amount() < t.t_max_k.amount(),
        t.t_max_k.amount() <= large(),
        4real * t.node_share() <= 1real,
        t.has_moderate_nodes(),
    ensures
        ({
            let last = (t.nodes.len() - 1) as u64;
            let at = EosBranchInputs::node_temperature(t.t_min_k, t.t_max_k, i as u64, last);
            let got = t.interpolated(at);
            let node = t.nodes[i as int];
            let a = t.nodes[t.node_below(at)];
            let b = t.nodes[t.node_below(at) + 1];
            let s = t.node_share();
            &&& i - 1 <= t.node_below(at) <= i
            &&& is_near_node(
                got.rho_m_plus_kg_m3,
                node.rho_m_plus_kg_m3,
                a.rho_m_plus_kg_m3,
                b.rho_m_plus_kg_m3,
                s,
            )
            &&& is_near_node(
                got.rho_m_minus_kg_m3,
                node.rho_m_minus_kg_m3,
                a.rho_m_minus_kg_m3,
                b.rho_m_minus_kg_m3,
                s,
            )
            &&& is_near_node(
                got.delta_mix_liquid_kg_m3,
                node.delta_mix_liquid_kg_m3,
                a.delta_mix_liquid_kg_m3,
                b.delta_mix_liquid_kg_m3,
                s,
            )
            &&& is_near_node(
                got.delta_mix_vapor_kg_m3,
                node.delta_mix_vapor_kg_m3,
                a.delta_mix_vapor_kg_m3,
                b.delta_mix_vapor_kg_m3,
                s,
            )
        }),
{
    let last = (t.nodes.len() - 1) as u64;
    let at = EosBranchInputs::node_temperature(t.t_min_k, t.t_max_k, i as u64, last);
    let at_left = lemma_node_between(t, i);
    let l = t.local(at);
    let k = t.node_below(at);
    let a = t.nodes[k];
    let b = t.nodes[k + 1];
    let s = 2real * t.node_share();
    lemma_lerp_is_near(a.rho_m_plus_kg_m3, b.rho_m_plus_kg_m3, l, s, at_left);
    lemma_lerp_is_near(a.rho_m_minus_kg_m3, b.rho_m_minus_kg_m3, l, s, at_left);
    lemma_lerp_is_near(a.delta_mix_liquid_kg_m3, b.delta_mix_liquid_kg_m3, l, s, at_left);
    lemma_lerp_is_near(a.delta_mix_vapor_kg_m3, b.delta_mix_vapor_kg_m3, l, s, at_left);
}

} // verus!
