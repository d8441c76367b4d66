use boxtrace::optics::{incidence, is_total_reflection, offset_side, Incidence, Side};
use boxtrace::scalar::Scalar;

fn s(x: f32) -> Scalar {
    Scalar::from_bits(x.to_bits())
}

fn samples() -> Vec<f32> {
    vec![
        -3.0,
        -1.0,
        -0.99999994,
        -0.5,
        -1.0e-45,
        -0.0,
        0.0,
        1.0e-45,
        0.25,
        0.99999994,
        1.0,
        1.0000001,
        7.5,
        f32::INFINITY,
        f32::NEG_INFINITY,
        f32::NAN,
    ]
}

/// The side and the cosine written out in hardware arithmetic.
fn hardware_incidence(dot: f32) -> (f32, bool) {
    let cosi = -dot.max(-1.0).min(1.0);
    if cosi < 0.0 {
        (-cosi, true)
    } else {
        (cosi, false)
    }
}

#[test]
fn incidence_agrees_with_hardware_arithmetic() {
    for dot in samples() {
        let got = incidence(s(dot));
        let (cosine, leaving) = hardware_incidence(dot);
        assert_eq!(got.leaving, leaving, "{:?}", dot);
        assert_eq!(got.cosine.to_bits(), cosine.to_bits(), "{:?}", dot);
    }
}

#[test]
fn ray_against_the_normal_enters() {
    assert_eq!(incidence(s(-0.5)), Incidence { cosine: s(0.5), leaving: false });
    assert_eq!(incidence(s(-2.0)), Incidence { cosine: s(1.0), leaving: false });
}

#[test]
fn ray_along_the_normal_leaves() {
    assert_eq!(incidence(s(0.5)), Incidence { cosine: s(0.5), leaving: true });
    assert_eq!(incidence(s(2.0)), Incidence { cosine: s(1.0), leaving: true });
}

#[test]
fn grazing_ray_enters_with_a_zero_cosine() {
    assert_eq!(incidence(s(0.0)), Incidence { cosine: s(-0.0), leaving: false });
    assert_eq!(incidence(s(-0.0)), Incidence { cosine: s(0.0), leaving: false });
}

#[test]
fn total_reflection_needs_a_negative_discriminant() {
    for k in samples() {
        assert_eq!(is_total_reflection(s(k)), k < 0.0, "{:?}", k);
    }
    assert!(is_total_reflection(s(-0.25)));
    assert!(!is_total_reflection(s(0.0)));
    assert!(!is_total_reflection(s(f32::NAN)));
}

#[test]
fn offset_goes_to_the_side_the_new_ray_runs_on() {
    for dot in samples() {
        let want = if dot < 0.0 { Side::Inside } else { Side::Outside };
        assert_eq!(offset_side(s(dot)), want, "{:?}", dot);
    }
    assert_eq!(offset_side(s(-0.1)), Side::Inside);
    assert_eq!(offset_side(s(0.1)), Side::Outside);
    assert_eq!(offset_side(s(0.0)), Side::Outside);
    assert_eq!(offset_side(s(f32::NAN)), Side::Outside);
}

#[test]
fn neg_flips_the_sign_bit() {
    for x in samples() {
        assert_eq!(s(x).neg().to_bits(), (-x).to_bits());
    }
}
