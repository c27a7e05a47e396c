use aggregator::bounded_math::{ok_overflow, BoundedMath, BoundedMathError, SignedU128};
use aggregator::delta_math::DeltaHistory;
use aggregator::errors::AggregatorError;

#[test]
fn unsigned_add_stays_in_bound() {
    let math = BoundedMath::new(600);
    assert_eq!(math.unsigned_add(200, 400), Ok(600));
    assert_eq!(math.unsigned_add(200, 401), Err(BoundedMathError::Overflow));
    assert_eq!(math.unsigned_add(0, 0), Ok(0));
    let wide = BoundedMath::new(u128::MAX);
    assert_eq!(wide.unsigned_add(u128::MAX, 0), Ok(u128::MAX));
    assert_eq!(
        wide.unsigned_add(u128::MAX, 1),
        Err(BoundedMathError::Overflow)
    );
}

#[test]
fn unsigned_subtract_fails_below_zero() {
    let math = BoundedMath::new(600);
    assert_eq!(math.unsigned_subtract(400, 400), Ok(0));
    assert_eq!(
        math.unsigned_subtract(400, 401),
        Err(BoundedMathError::Underflow)
    );
}

#[test]
fn unsigned_add_delta_applies_signs() {
    let math = BoundedMath::new(600);
    assert_eq!(math.unsigned_add_delta(100, &SignedU128::Positive(500)), Ok(600));
    assert_eq!(
        math.unsigned_add_delta(100, &SignedU128::Positive(501)),
        Err(BoundedMathError::Overflow)
    );
    assert_eq!(math.unsigned_add_delta(100, &SignedU128::Negative(100)), Ok(0));
    assert_eq!(
        math.unsigned_add_delta(100, &SignedU128::Negative(101)),
        Err(BoundedMathError::Underflow)
    );
}

#[test]
fn signed_add_is_exact_and_canonical() {
    let math = BoundedMath::new(600);
    assert_eq!(
        math.signed_add(&SignedU128::Positive(400), &SignedU128::Negative(470)),
        Ok(SignedU128::Negative(70))
    );
    assert_eq!(
        math.signed_add(&SignedU128::Negative(70), &SignedU128::Positive(70)),
        Ok(SignedU128::Positive(0))
    );
    assert_eq!(
        math.signed_add(&SignedU128::Positive(300), &SignedU128::Positive(301)),
        Err(BoundedMathError::Overflow)
    );
    assert_eq!(
        math.signed_add(&SignedU128::Negative(300), &SignedU128::Negative(301)),
        Err(BoundedMathError::Underflow)
    );
}

#[test]
fn minus_flips_the_sign() {
    assert_eq!(SignedU128::Positive(5).minus(), SignedU128::Negative(5));
    assert_eq!(SignedU128::Negative(5).minus(), SignedU128::Positive(5));
}

#[test]
fn ok_overflow_keeps_underflow() {
    assert_eq!(ok_overflow::<u128>(Ok(3)), Ok(Some(3)));
    assert_eq!(ok_overflow::<u128>(Err(BoundedMathError::Overflow)), Ok(None));
    assert_eq!(
        ok_overflow::<u128>(Err(BoundedMathError::Underflow)),
        Err(BoundedMathError::Underflow)
    );
}

#[test]
fn expect_ok_reports_a_code_invariant() {
    assert_eq!(aggregator::bounded_math::expect_ok::<u128>(Ok(7)), Ok(7));
    assert_eq!(
        aggregator::bounded_math::expect_ok::<u128>(Err(BoundedMathError::Overflow)),
        Err(AggregatorError::CodeInvariant)
    );
}

fn empty_history() -> DeltaHistory {
    DeltaHistory::new()
}

#[test]
fn record_success_keeps_the_extrema() {
    let mut h = empty_history();
    h.record_success(SignedU128::Positive(300));
    h.record_success(SignedU128::Positive(200));
    h.record_success(SignedU128::Negative(50));
    assert_eq!(
        h,
        DeltaHistory {
            max_achieved_positive_delta: 300,
            min_achieved_negative_delta: 50,
            min_overflow_positive_delta: None,
            max_underflow_negative_delta: None,
        }
    );
}

#[test]
fn record_success_is_idempotent_and_reorderable() {
    let mut once = empty_history();
    once.record_success(SignedU128::Positive(300));
    let mut twice = once;
    twice.record_success(SignedU128::Positive(300));
    assert_eq!(once, twice);

    let mut ab = empty_history();
    ab.record_success(SignedU128::Positive(300));
    ab.record_success(SignedU128::Positive(500));
    let mut ba = empty_history();
    ba.record_success(SignedU128::Positive(500));
    ba.record_success(SignedU128::Positive(300));
    assert_eq!(ab, ba);
}

#[test]
fn record_overflow_is_idempotent_and_reorderable() {
    let mut ab = empty_history();
    ab.record_overflow(525);
    ab.record_overflow(501);
    let mut ba = empty_history();
    ba.record_overflow(501);
    ba.record_overflow(525);
    assert_eq!(ab, ba);
    let mut again = ab;
    again.record_overflow(525);
    assert_eq!(ab, again);
    assert_eq!(ab.min_overflow_positive_delta, Some(501));
}

#[test]
fn record_underflow_is_idempotent_and_reorderable() {
    let mut ab = empty_history();
    ab.record_underflow(250);
    ab.record_underflow(225);
    let mut ba = empty_history();
    ba.record_underflow(225);
    ba.record_underflow(250);
    assert_eq!(ab, ba);
    let mut again = ab;
    again.record_underflow(250);
    assert_eq!(ab, again);
    assert_eq!(ab.max_underflow_negative_delta, Some(225));
}

#[test]
fn validate_checks_all_four_bounds() {
    let h = DeltaHistory {
        max_achieved_positive_delta: 300,
        min_achieved_negative_delta: 100,
        min_overflow_positive_delta: Some(401),
        max_underflow_negative_delta: Some(201),
    };
    // 100 <= b < 201 and b + 300 <= 600 and b + 401 > 600, so b = 200 only.
    assert!(h.validate_against_base_value(200, 600).is_ok());
    assert_eq!(
        h.validate_against_base_value(199, 600),
        Err(AggregatorError::Extension)
    );
    assert_eq!(
        h.validate_against_base_value(201, 600),
        Err(AggregatorError::Extension)
    );
    assert!(h.validate_against_base_value(99, 600).is_err());
    assert!(h.validate_against_base_value(301, 600).is_err());
    assert!(h.validate_against_base_value(601, 600).is_err());
}

#[test]
fn empty_history_accepts_any_base_in_range() {
    let h = empty_history();
    assert!(h.is_empty());
    assert!(h.validate_against_base_value(0, 600).is_ok());
    assert!(h.validate_against_base_value(600, 600).is_ok());
    assert!(h.validate_against_base_value(601, 600).is_err());
}
