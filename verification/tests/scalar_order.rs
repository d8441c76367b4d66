use boxtrace::scalar::{Scalar, INFINITY_BITS, SIGN_MASK};

fn s(x: f32) -> Scalar {
    Scalar::from_bits(x.to_bits())
}

fn samples() -> Vec<f32> {
    vec![
        0.0,
        -0.0,
        1.0,
        -1.0,
        0.001,
        -0.001,
        1.0e-4,
        4.0,
        3.9999998,
        255.0,
        1.0e-45,
        -1.0e-45,
        1.1754944e-38,
        3.4028235e38,
        -3.4028235e38,
        f32::INFINITY,
        f32::NEG_INFINITY,
        f32::NAN,
        -f32::NAN,
        f32::from_bits(0x7f80_0001),
    ]
}

#[test]
fn lt_agrees_with_hardware_comparison() {
    for a in samples() {
        for b in samples() {
            assert_eq!(s(a).lt(&s(b)), a < b, "{:?} < {:?}", a, b);
        }
    }
}

#[test]
fn gt_agrees_with_hardware_comparison() {
    for a in samples() {
        for b in samples() {
            assert_eq!(s(a).gt(&s(b)), a > b, "{:?} > {:?}", a, b);
        }
    }
}

#[test]
fn is_nan_agrees_with_hardware() {
    for a in samples() {
        assert_eq!(s(a).is_nan(), a.is_nan());
    }
}

#[test]
fn min_and_max_agree_with_hardware_values() {
    for a in samples() {
        for b in samples() {
            let lo = f32::from_bits(s(a).min(s(b)).to_bits());
            let hi = f32::from_bits(s(a).max(s(b)).to_bits());
            let want_lo = a.min(b);
            let want_hi = a.max(b);
            assert_eq!(lo.is_nan(), want_lo.is_nan());
            assert_eq!(hi.is_nan(), want_hi.is_nan());
            if !want_lo.is_nan() {
                assert!(lo == want_lo, "min({:?}, {:?})", a, b);
            }
            if !want_hi.is_nan() {
                assert!(hi == want_hi, "max({:?}, {:?})", a, b);
            }
        }
    }
}

#[test]
fn min_ignores_a_nan_operand() {
    assert_eq!(s(f32::NAN).min(s(2.0)), s(2.0));
    assert_eq!(s(2.0).min(s(f32::NAN)), s(2.0));
    assert_eq!(s(f32::NAN).max(s(2.0)), s(2.0));
    assert_eq!(s(2.0).max(s(f32::NAN)), s(2.0));
}

#[test]
fn abs_clears_the_sign() {
    for a in samples() {
        assert_eq!(s(a).abs().to_bits(), a.abs().to_bits());
    }
    assert_eq!(s(-1.5).abs(), s(1.5));
}

#[test]
fn zeros_compare_equal_but_differ_in_bits() {
    assert!(!s(0.0).lt(&s(-0.0)));
    assert!(!s(-0.0).lt(&s(0.0)));
    assert_ne!(s(0.0), s(-0.0));
}

#[test]
fn infinities_bound_every_number() {
    for a in samples() {
        if a.is_finite() {
            assert!(s(a).lt(&s(f32::INFINITY)));
            assert!(s(f32::NEG_INFINITY).lt(&s(a)));
        }
        assert!(!s(f32::INFINITY).lt(&s(a)));
        assert!(!s(a).lt(&s(f32::NEG_INFINITY)));
    }
}

#[test]
fn constants_are_the_bit_patterns_they_name() {
    assert_eq!(INFINITY_BITS, f32::INFINITY.to_bits());
    assert_eq!(SIGN_MASK, (-0.0f32).to_bits());
    assert_eq!(Scalar::from_bits(7).to_bits(), 7);
}
