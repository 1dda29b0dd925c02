use matter::binary::double::Binary64;
use matter::binary::single::Binary32;

fn b(x: f32) -> Binary32 {
    Binary32::from_bits(x.to_bits())
}

fn d(x: f64) -> Binary64 {
    Binary64::from_bits(x.to_bits())
}

fn same(got: Binary32, want: f32) -> bool {
    if want.is_nan() {
        got.is_nan()
    } else {
        got.to_bits() == want.to_bits()
    }
}

fn same_double(got: Binary64, want: f64) -> bool {
    if want.is_nan() {
        got.is_nan()
    } else {
        got.to_bits() == want.to_bits()
    }
}

fn patterns() -> Vec<u32> {
    let mut all = vec![
        0u32, 1, 2, 3, 0x7f_ffff, 0x80_0000, 0x80_0001, 0xff_ffff, 0x100_0000, 0x3f80_0000,
        0x3f80_0001, 0x3f7f_ffff, 0x4000_0000, 0x4b00_0000, 0x4b80_0001, 0x7f7f_ffff, 0x7f7f_fffe,
        0x7f80_0000, 0x7fc0_0000, 0x3eaa_aaab, 0x5f80_0000, 0x2000_0000, 0x1fff_ffff,
    ];
    let mut seed = 0x1234_5678_9abc_def1u64;
    for _ in 0..120 {
        seed ^= seed << 13;
        seed ^= seed >> 7;
        seed ^= seed << 17;
        all.push((seed >> 16) as u32 & 0x7fff_ffff);
        all.push(0x3f00_0000 + ((seed >> 8) as u32 & 0x01ff_ffff));
    }
    let negative: Vec<u32> = all.iter().map(|p| p | 0x8000_0000).collect();
    all.extend(negative);
    all
}

#[test]
fn single_arithmetic_is_correctly_rounded() {
    let all = patterns();
    for p in &all {
        let x = f32::from_bits(*p);
        assert!(same(b(x).sqrt(), x.sqrt()), "sqrt {x:e}");
        for q in &all {
            let y = f32::from_bits(*q);
            assert!(same(b(x).add(b(y)), x + y), "{x:e} + {y:e}");
            assert!(same(b(x).sub(b(y)), x - y), "{x:e} - {y:e}");
            assert!(same(b(x).mul(b(y)), x * y), "{x:e} * {y:e}");
            assert!(same(b(x).div(b(y)), x / y), "{x:e} / {y:e}");
        }
    }
}

#[test]
fn single_comparisons_follow_the_values() {
    let all = patterns();
    for p in &all {
        let x = f32::from_bits(*p);
        assert_eq!(b(x).is_nan(), x.is_nan());
        assert_eq!(b(x).is_finite(), x.is_finite());
        assert!(same(b(x).neg(), -x));
        assert!(same(b(x).abs(), x.abs()));
        for q in &all {
            let y = f32::from_bits(*q);
            assert_eq!(b(x).lt(b(y)), x < y);
            assert_eq!(b(x).le(b(y)), x <= y);
            assert_eq!(b(x).gt(b(y)), x > y);
            assert_eq!(b(x).ge(b(y)), x >= y);
            assert_eq!(b(x).eq(b(y)), x == y);
            if !(x == 0.0 && y == 0.0) {
                assert!(same(b(x).max(b(y)), x.max(y)), "max {x:e} {y:e}");
                assert!(same(b(x).min(b(y)), x.min(y)), "min {x:e} {y:e}");
            }
        }
        assert!(same(b(x).clamp(b(-2.0), b(3.0)), x.clamp(-2.0, 3.0)));
    }
}

#[test]
fn double_arithmetic_is_correctly_rounded() {
    let mut all: Vec<f64> = vec![
        0.0, 1.0, -1.0, 0.1, 1.0 / 3.0, 5.0e-324, 2.2250738585072014e-308, 1.0e-310,
        f64::MAX, f64::INFINITY, f64::NAN, 1.0e300, 1.0e-300, 4503599627370496.0, 9007199254740993.0,
    ];
    let mut seed = 0x9e37_79b9_7f4a_7c15u64;
    for _ in 0..60 {
        seed ^= seed << 13;
        seed ^= seed >> 7;
        seed ^= seed << 17;
        all.push(f64::from_bits(seed));
        all.push(f64::from_bits(0x3fe0_0000_0000_0000 + (seed >> 11)));
    }
    for x in &all {
        assert!(same_double(d(*x).sqrt(), x.sqrt()), "sqrt {x:e}");
        assert!(same(d(*x).to_single(), *x as f32), "narrow {x:e}");
        for y in &all {
            assert!(same_double(d(*x).add(d(*y)), x + y), "{x:e} + {y:e}");
            assert!(same_double(d(*x).sub(d(*y)), x - y), "{x:e} - {y:e}");
            assert!(same_double(d(*x).mul(d(*y)), x * y), "{x:e} * {y:e}");
            assert!(same_double(d(*x).div(d(*y)), x / y), "{x:e} / {y:e}");
            assert_eq!(d(*x).lt(d(*y)), x < y);
        }
    }
}

#[test]
fn conversions_match_the_casts() {
    for p in patterns() {
        let x = f32::from_bits(p);
        assert!(same_double(b(x).to_double(), x as f64), "widen {x:e}");
        assert_eq!(b(x).to_integer(), x as u64, "integer {x:e}");
    }
    for n in [0u64, 1, 2, 3, 201, 16_777_215, 16_777_217, 33_554_435, u32::MAX as u64, u64::MAX] {
        assert!(same(Binary32::from_integer(n), n as f32), "from {n}");
        assert!(same_double(Binary64::from_integer(n), n as f64), "from {n}");
    }
}

#[test]
fn laws_of_arithmetic_hold_on_values() {
    let (x, y, z) = (b(0.1), b(0.7), b(3.0e7));
    assert_eq!(x.add(y), y.add(x));
    assert_eq!(x.mul(y), y.mul(x));
    assert!(x.add(z).le(y.add(z)));
    assert!(x.mul(z).le(y.mul(z)));
    assert_eq!(x.mul(Binary32::one()), x);
    assert_eq!(x.div(Binary32::one()), x);
    assert_eq!(x.sub(x), Binary32::zero());
    assert!(x.le(x.add(z)) && x.sub(z).le(x));
    assert!(Binary32::zero().le(y.sub(x)));
    assert_eq!(Binary32::one().neg().mul(x), x.neg());
}
