use tiny_spice::scalar::Scalar;

fn word(x: f64) -> Scalar {
    Scalar::from_bits(x.to_bits())
}

#[test]
fn ordering_agrees_with_the_numbers() {
    let samples = [
        f64::NEG_INFINITY,
        -1.0e300,
        -2.5,
        -1.0,
        -1.0e-300,
        -5e-324,
        -0.0,
        0.0,
        5e-324,
        1.0e-300,
        0.01,
        1.0,
        2.5,
        1.0e300,
        f64::INFINITY,
        f64::NAN,
    ];
    for &a in samples.iter() {
        for &b in samples.iter() {
            assert_eq!(word(a).lt(&word(b)), a < b);
            assert_eq!(word(a).le(&word(b)), a <= b);
            assert_eq!(word(a).gt(&word(b)), a > b);
            assert_eq!(word(a).ge(&word(b)), a >= b);
            assert_eq!(word(a).num_eq(&word(b)), a == b);
        }
    }
}

#[test]
fn classes_agree_with_the_numbers() {
    let samples = [f64::NEG_INFINITY, -3.0, -0.0, 0.0, 5e-324, 7.5, f64::INFINITY, f64::NAN];
    for &a in samples.iter() {
        assert_eq!(word(a).is_nan(), a.is_nan());
        assert_eq!(word(a).is_finite(), a.is_finite());
        assert_eq!(word(a).is_zero(), a == 0.0);
        assert_eq!(word(a).is_sign_negative(), a.is_sign_negative());
        assert_eq!(word(a).abs().to_bits(), a.abs().to_bits());
        assert_eq!(word(a).neg().to_bits(), (-a).to_bits());
    }
}

#[test]
fn named_words() {
    assert_eq!(f64::from_bits(Scalar::one().to_bits()), 1.0);
    assert_eq!(Scalar::zero_value().to_bits(), 0.0f64.to_bits());
}
