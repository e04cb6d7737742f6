use iiot_fusion::ieee::{double_gt, double_is_nan, double_le, double_lt, INFINITY_BITS, SIGN_BIT};

fn samples() -> Vec<f64> {
    vec![
        0.0,
        -0.0,
        1.0,
        -1.0,
        32.0,
        104.0,
        31.999999999999996,
        104.00000000000001,
        77.0,
        100.4,
        1e-320,
        -1e-320,
        f64::MIN_POSITIVE,
        f64::MAX,
        f64::MIN,
        f64::INFINITY,
        f64::NEG_INFINITY,
        f64::NAN,
        -f64::NAN,
        f64::from_bits(0x7FF0_0000_0000_0001),
        f64::from_bits(0xFFFF_FFFF_FFFF_FFFF),
        150.0,
        -273.15,
    ]
}

#[test]
fn bit_order_agrees_with_float_order_on_all_pairs() {
    let values = samples();
    for a in values.iter() {
        for b in values.iter() {
            assert_eq!(double_lt(a.to_bits(), b.to_bits()), a < b, "{} < {}", a, b);
            assert_eq!(double_gt(a.to_bits(), b.to_bits()), a > b, "{} > {}", a, b);
            assert_eq!(double_le(a.to_bits(), b.to_bits()), a <= b, "{} <= {}", a, b);
        }
    }
}

#[test]
fn nan_patterns_are_recognised() {
    for v in samples() {
        assert_eq!(double_is_nan(v.to_bits()), v.is_nan());
    }
}

#[test]
fn named_patterns_are_the_floats_they_stand_for() {
    assert_eq!(INFINITY_BITS, f64::INFINITY.to_bits());
    assert_eq!(SIGN_BIT, (-0.0f64).to_bits());
}

#[test]
fn zeroes_are_equal_and_neither_is_less() {
    let pos = 0.0f64.to_bits();
    let neg = (-0.0f64).to_bits();
    assert!(!double_lt(pos, neg));
    assert!(!double_lt(neg, pos));
    assert!(double_le(pos, neg));
    assert!(double_le(neg, pos));
}
