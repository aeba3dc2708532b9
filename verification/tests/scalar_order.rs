use pso::scalar::{Scalar, INFINITY_BITS, SIGN_BIT};

fn samples() -> Vec<f64> {
    vec![
        0.0,
        -0.0,
        1.0,
        -1.0,
        0.1,
        -0.1,
        2.5,
        -2.5,
        6.5,
        1.0e-300,
        -1.0e-300,
        1.0e308,
        -1.0e308,
        f64::MIN_POSITIVE,
        -f64::MIN_POSITIVE,
        f64::from_bits(1),
        f64::from_bits(SIGN_BIT | 1),
        f64::from_bits(0x000f_ffff_ffff_ffff),
        f64::EPSILON,
        f64::MAX,
        f64::MIN,
        f64::INFINITY,
        f64::NEG_INFINITY,
        f64::NAN,
        f64::from_bits(0xfff8_0000_0000_0000),
        f64::from_bits(0x7ff0_0000_0000_0001),
        f64::from_bits(0xffff_ffff_ffff_ffff),
    ]
}

fn scalar(value: f64) -> Scalar {
    Scalar::from_bits(value.to_bits())
}

#[test]
fn from_bits_keeps_the_pattern() {
    for value in samples() {
        assert_eq!(scalar(value).bits, value.to_bits());
    }
    assert_eq!(Scalar::from_bits(0x4000_0000_0000_0000).bits, 2.0f64.to_bits());
}

#[test]
fn lt_agrees_with_the_hardware_on_every_pair() {
    let values = samples();
    for &a in &values {
        for &b in &values {
            assert_eq!(
                scalar(a).lt(scalar(b)),
                a < b,
                "{:?} < {:?} (patterns {:#x}, {:#x})",
                a,
                b,
                a.to_bits(),
                b.to_bits()
            );
        }
    }
}

#[test]
fn lt_agrees_with_the_hardware_on_scattered_patterns() {
    let mut state: u64 = 0x9e37_79b9_7f4a_7c15;
    let mut next = move || {
        state ^= state << 13;
        state ^= state >> 7;
        state ^= state << 17;
        state
    };
    for round in 0..50_000 {
        let a = next();
        let mut b = next();
        if round % 4 == 0 {
            b = a ^ (1 << (round % 64));
        }
        if round % 7 == 0 {
            b = a.wrapping_add(1);
        }
        let (x, y) = (f64::from_bits(a), f64::from_bits(b));
        assert_eq!(Scalar::from_bits(a).lt(Scalar::from_bits(b)), x < y, "{:#x} {:#x}", a, b);
        assert_eq!(Scalar::from_bits(b).lt(Scalar::from_bits(a)), y < x, "{:#x} {:#x}", b, a);
        assert_eq!(Scalar::from_bits(a).is_nan(), x.is_nan(), "{:#x}", a);
        assert_eq!(Scalar::from_bits(a).is_finite(), x.is_finite(), "{:#x}", a);
    }
}

#[test]
fn is_nan_agrees_with_the_hardware() {
    for value in samples() {
        assert_eq!(scalar(value).is_nan(), value.is_nan(), "{:#x}", value.to_bits());
    }
}

#[test]
fn is_finite_agrees_with_the_hardware() {
    for value in samples() {
        assert_eq!(scalar(value).is_finite(), value.is_finite(), "{:#x}", value.to_bits());
    }
}

#[test]
fn one_is_below_two() {
    assert!(scalar(1.0).lt(scalar(2.0)));
    assert!(!scalar(2.0).lt(scalar(1.0)));
    assert!(!scalar(1.0).lt(scalar(1.0)));
}

#[test]
fn negative_numbers_order_by_falling_magnitude() {
    assert!(scalar(-2.0).lt(scalar(-1.0)));
    assert!(!scalar(-1.0).lt(scalar(-2.0)));
    assert!(scalar(-1.0).lt(scalar(1.0)));
    assert!(!scalar(1.0).lt(scalar(-1.0)));
}

#[test]
fn the_two_zeros_are_equal_numbers_with_different_patterns() {
    let positive = scalar(0.0);
    let negative = scalar(-0.0);
    assert_ne!(positive, negative);
    assert_eq!(negative.bits, SIGN_BIT);
    assert!(!positive.lt(negative));
    assert!(!negative.lt(positive));
    assert!(negative.lt(scalar(f64::from_bits(1))));
    assert!(scalar(f64::from_bits(SIGN_BIT | 1)).lt(positive));
}

#[test]
fn a_nan_is_below_nothing_and_nothing_is_below_it() {
    let nan = scalar(f64::NAN);
    for value in samples() {
        assert!(!nan.lt(scalar(value)));
        assert!(!scalar(value).lt(nan));
    }
}

#[test]
fn infinities_bound_every_finite_number() {
    let top = scalar(f64::INFINITY);
    let bottom = scalar(f64::NEG_INFINITY);
    assert_eq!(top.bits, INFINITY_BITS);
    assert_eq!(bottom.bits, SIGN_BIT | INFINITY_BITS);
    assert!(!top.is_nan());
    assert!(!top.is_finite());
    assert!(!bottom.is_nan());
    assert!(!bottom.is_finite());
    assert!(scalar(f64::MAX).lt(top));
    assert!(bottom.lt(scalar(f64::MIN)));
    assert!(bottom.lt(top));
    assert!(!top.lt(top));
}

#[test]
fn lt_is_transitive_on_the_samples() {
    let values = samples();
    for &a in &values {
        for &b in &values {
            for &c in &values {
                if scalar(a).lt(scalar(b)) && scalar(b).lt(scalar(c)) {
                    assert!(scalar(a).lt(scalar(c)));
                }
            }
        }
    }
}
