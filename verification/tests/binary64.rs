use ticker::binary64::{
    equals, finite_only, is_finite, is_nan, is_positive, is_valid_price, less_or_equal, less_than,
    maximum, minimum,
};

fn samples() -> Vec<f64> {
    vec![
        0.0,
        -0.0,
        1.0,
        -1.0,
        0.5,
        123.45,
        -123.45,
        f64::MIN_POSITIVE,
        5e-324,
        -5e-324,
        f64::MAX,
        f64::MIN,
        f64::INFINITY,
        f64::NEG_INFINITY,
        f64::NAN,
        -f64::NAN,
    ]
}

#[test]
fn classification_matches_the_floats() {
    for x in samples() {
        let b = x.to_bits();
        assert_eq!(is_nan(b), x.is_nan(), "{x}");
        assert_eq!(is_finite(b), x.is_finite(), "{x}");
        assert_eq!(is_positive(b), x > 0.0, "{x}");
        assert_eq!(is_valid_price(b), x.is_finite() && x > 0.0, "{x}");
    }
}

#[test]
fn comparisons_match_the_floats() {
    for a in samples() {
        for b in samples() {
            assert_eq!(less_than(a.to_bits(), b.to_bits()), a < b, "{a} < {b}");
            assert_eq!(less_or_equal(a.to_bits(), b.to_bits()), a <= b, "{a} <= {b}");
            assert_eq!(equals(a.to_bits(), b.to_bits()), a == b, "{a} == {b}");
        }
    }
}

#[test]
fn extremes_match_the_floats_away_from_zero_ties() {
    for a in samples() {
        for b in samples() {
            if a == 0.0 && b == 0.0 {
                continue;
            }
            let max = f64::from_bits(maximum(a.to_bits(), b.to_bits()));
            let min = f64::from_bits(minimum(a.to_bits(), b.to_bits()));
            let want_max = a.max(b);
            let want_min = a.min(b);
            assert!(max == want_max || (max.is_nan() && want_max.is_nan()), "max {a} {b}");
            assert!(min == want_min || (min.is_nan() && want_min.is_nan()), "min {a} {b}");
        }
    }
}

#[test]
fn finite_only_drops_nan_and_infinities() {
    assert_eq!(finite_only(Some(2.5f64.to_bits())), Some(2.5f64.to_bits()));
    assert_eq!(finite_only(Some(f64::NAN.to_bits())), None);
    assert_eq!(finite_only(Some(f64::INFINITY.to_bits())), None);
    assert_eq!(finite_only(Some(f64::NEG_INFINITY.to_bits())), None);
    assert_eq!(finite_only(None), None);
}
