use yaml_validator::realnum::Real;
use yaml_validator::utils::{try_into_usize, Limit};

fn rv(x: f64) -> Real {
    Real::from_bits(x.to_bits())
}

#[test]
fn verify_limit_logic_f64() {
    // (10.0 <= x <= 10.0) is a VALID interval
    assert!(Limit::Inclusive(rv(10.0)).has_span(&Limit::Inclusive(rv(10.0))));

    // (10.0 < x < 10.0) is an INVALID interval
    assert!(!Limit::Exclusive(rv(10.0)).has_span(&Limit::Exclusive(rv(10.0))));

    // (10.0 < x < 11.0) is a VALID interval
    assert!(Limit::Exclusive(rv(10.0)).has_span(&Limit::Exclusive(rv(11.0))));

    // (20.0 <= x <= 10.0) is an INVALID interval
    assert!(!Limit::Inclusive(rv(20.0)).has_span(&Limit::Inclusive(rv(10.0))));

    // (10.0 < x < 20.0) is a VALID interval
    assert!(Limit::Exclusive(rv(10.0)).has_span(&Limit::Exclusive(rv(20.0))));

    // (20.0 < x < 10.0) is an INVALID interval
    assert!(!Limit::Exclusive(rv(20.0)).has_span(&Limit::Exclusive(rv(10.0))));
}

#[test]
fn verify_limit_logic_int() {
    // (10 <= x <= 10) is a VALID interval
    assert!(Limit::Inclusive(10i64).has_span(&Limit::Inclusive(10)));

    // (10 < x < 10) is an INVALID interval
    assert!(!Limit::Exclusive(10i64).has_span(&Limit::Exclusive(10)));

    // (10 < x < 11) is an INVALID interval
    assert!(!Limit::Exclusive(10i64).has_span(&Limit::Exclusive(11)));

    // (10 < x < 12) is a VALID interval
    assert!(Limit::Exclusive(10i64).has_span(&Limit::Exclusive(12)));

    // (20 <= x <= 10) is an INVALID interval
    assert!(!Limit::Inclusive(20i64).has_span(&Limit::Inclusive(10)));

    // (10 < x < 20) is a VALID interval
    assert!(Limit::Exclusive(10i64).has_span(&Limit::Exclusive(20)));

    // (20 < x < 10) is an INVALID interval
    assert!(!Limit::Exclusive(20i64).has_span(&Limit::Exclusive(10)));
}

#[test]
fn limit_bounds_on_values() {
    let lower = Limit::Exclusive(10i64);
    assert!(lower.is_greater(&11));
    assert!(!lower.is_greater(&10));
    let upper = Limit::Inclusive(10i64);
    assert!(upper.is_lesser(&10));
    assert!(!upper.is_lesser(&11));
}

#[test]
fn real_limits_compare_exactly() {
    let lower = Limit::Exclusive(rv(10.0));
    assert!(lower.is_greater(&rv(10.000001)));
    assert!(!lower.is_greater(&rv(10.0)));
    let upper = Limit::Inclusive(rv(0.5));
    assert!(upper.is_lesser(&rv(0.5)));
    assert!(!upper.is_lesser(&rv(0.5000001)));
    assert!(upper.is_lesser(&rv(-3.25)));
}

#[test]
fn tiny_real_spans_are_exact() {
    // Two adjacent subnormal values leave no room strictly between them.
    let a = Real::from_bits(1);
    let b = Real::from_bits(2);
    assert!(!Limit::Exclusive(a).has_span(&Limit::Exclusive(b)));
    assert!(Limit::Inclusive(a).has_span(&Limit::Inclusive(b)));
}

#[test]
fn try_into_usize_accepts_counts() {
    assert_eq!(try_into_usize(0).unwrap(), 0usize);
    assert_eq!(try_into_usize(42).unwrap(), 42usize);
    let err = try_into_usize(-5).unwrap_err();
    match err.kind {
        yaml_validator::errors::SchemaErrorKind::MalformedField { error } => {
            assert_eq!(error, "must be a non-negative integer value");
        },
        other => panic!("unexpected kind: {:?}", other),
    }
}
