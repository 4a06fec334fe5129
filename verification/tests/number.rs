use minibasic::number::{Number, ONE_BITS, ZERO_BITS};

fn num(x: f64) -> Number {
    Number::from_bits(x.to_bits())
}

fn samples() -> Vec<f64> {
    vec![
        0.0,
        -0.0,
        1.0,
        -1.0,
        0.5,
        -0.5,
        2.5,
        -2.5,
        1e300,
        -1e300,
        1e-300,
        -1e-300,
        f64::MIN_POSITIVE,
        -f64::MIN_POSITIVE,
        f64::from_bits(1),
        -f64::from_bits(1),
        f64::MAX,
        f64::MIN,
        f64::INFINITY,
        f64::NEG_INFINITY,
        f64::NAN,
        -f64::NAN,
        f64::from_bits(0x7FF0_0000_0000_0001),
        f64::from_bits(0xFFFF_FFFF_FFFF_FFFF),
    ]
}

#[test]
fn bits_round_trip() {
    assert_eq!(Number::from_bits(0x4014_0000_0000_0000).to_bits(), 0x4014_0000_0000_0000);
    assert_eq!(num(5.0).to_bits(), 0x4014_0000_0000_0000);
}

#[test]
fn constants_are_zero_and_one() {
    assert_eq!(ZERO_BITS, 0.0f64.to_bits());
    assert_eq!(ONE_BITS, 1.0f64.to_bits());
    assert_eq!(Number::new_zero(), num(0.0));
    assert_eq!(Number::new_one(), num(1.0));
    assert_eq!(Number::truth(true), num(1.0));
    assert_eq!(Number::truth(false), num(0.0));
}

#[test]
fn is_nan_agrees_with_binary64() {
    for a in samples() {
        assert_eq!(num(a).is_nan(), a.is_nan(), "{:?}", a);
    }
}

#[test]
fn is_zero_agrees_with_binary64() {
    for a in samples() {
        assert_eq!(num(a).is_zero(), a == 0.0, "{:?}", a);
    }
}

#[test]
fn sign_tests_agree_with_binary64() {
    for a in samples() {
        assert_eq!(num(a).is_negative(), a < 0.0, "{:?}", a);
        assert_eq!(num(a).is_positive(), a > 0.0, "{:?}", a);
    }
}

#[test]
fn less_than_agrees_with_binary64() {
    for a in samples() {
        for b in samples() {
            assert_eq!(num(a).less_than(num(b)), a < b, "{:?} < {:?}", a, b);
        }
    }
}

#[test]
fn less_or_equal_agrees_with_binary64() {
    for a in samples() {
        for b in samples() {
            assert_eq!(num(a).less_or_equal(num(b)), a <= b, "{:?} <= {:?}", a, b);
        }
    }
}

#[test]
fn greater_than_agrees_with_binary64() {
    for a in samples() {
        for b in samples() {
            assert_eq!(num(a).greater_than(num(b)), a > b, "{:?} > {:?}", a, b);
        }
    }
}

#[test]
fn greater_or_equal_agrees_with_binary64() {
    for a in samples() {
        for b in samples() {
            assert_eq!(num(a).greater_or_equal(num(b)), a >= b, "{:?} >= {:?}", a, b);
        }
    }
}

#[test]
fn equal_to_agrees_with_binary64() {
    for a in samples() {
        for b in samples() {
            assert_eq!(num(a).equal_to(num(b)), a == b, "{:?} == {:?}", a, b);
            assert_eq!(num(a).not_equal_to(num(b)), a != b, "{:?} != {:?}", a, b);
        }
    }
}

#[test]
fn zeros_are_equal_and_nan_is_not() {
    assert!(num(0.0).equal_to(num(-0.0)));
    assert!(!num(0.0).less_than(num(-0.0)));
    assert!(!num(-0.0).less_than(num(0.0)));
    assert!(!num(f64::NAN).equal_to(num(f64::NAN)));
    assert!(num(f64::NAN).not_equal_to(num(f64::NAN)));
}
