use aptos_aggregator::bounded_math::code_invariant_error;
use aptos_aggregator::bounded_math::expect_ok;
use aptos_aggregator::bounded_math::ok_overflow;
use aptos_aggregator::bounded_math::AggregatorError;
use aptos_aggregator::bounded_math::BoundedMath;
use aptos_aggregator::bounded_math::BoundedMathError;
use aptos_aggregator::bounded_math::SignedU128;

#[test]
fn test_unsigned_add_bounds() {
    let math = BoundedMath::new(100);
    assert_eq!(math.unsigned_add(30, 70), Ok(100));
    assert_eq!(math.unsigned_add(0, 0), Ok(0));
    assert_eq!(math.unsigned_add(30, 71), Err(BoundedMathError::Overflow));
    assert_eq!(math.unsigned_add(101, 0), Err(BoundedMathError::Overflow));
    let wide = BoundedMath::new(u128::MAX);
    assert_eq!(wide.unsigned_add(u128::MAX, 0), Ok(u128::MAX));
    assert_eq!(
        wide.unsigned_add(u128::MAX, 1),
        Err(BoundedMathError::Overflow)
    );
}

#[test]
fn test_unsigned_subtract_bounds() {
    let math = BoundedMath::new(100);
    assert_eq!(math.unsigned_subtract(70, 30), Ok(40));
    assert_eq!(math.unsigned_subtract(70, 70), Ok(0));
    assert_eq!(
        math.unsigned_subtract(70, 71),
        Err(BoundedMathError::Underflow)
    );
    // Subtraction is not checked against the bound: an oversized base keeps
    // its excess.
    assert_eq!(math.unsigned_subtract(300, 10), Ok(290));
}

#[test]
fn test_unsigned_add_delta() {
    let math = BoundedMath::new(600);
    assert_eq!(math.unsigned_add_delta(100, &SignedU128::Positive(500)), Ok(600));
    assert_eq!(
        math.unsigned_add_delta(100, &SignedU128::Positive(501)),
        Err(BoundedMathError::Overflow)
    );
    assert_eq!(math.unsigned_add_delta(100, &SignedU128::Negative(100)), Ok(0));
    assert_eq!(
        math.unsigned_add_delta(100, &SignedU128::Negative(101)),
        Err(BoundedMathError::Underflow)
    );
}

#[test]
fn test_signed_add_combinations() {
    let math = BoundedMath::new(600);
    assert_eq!(
        math.signed_add(&SignedU128::Positive(300), &SignedU128::Negative(400)),
        Ok(SignedU128::Negative(100))
    );
    assert_eq!(
        math.signed_add(&SignedU128::Negative(100), &SignedU128::Positive(400)),
        Ok(SignedU128::Positive(300))
    );
    assert_eq!(
        math.signed_add(&SignedU128::Positive(5), &SignedU128::Positive(7)),
        Ok(SignedU128::Positive(12))
    );
    assert_eq!(
        math.signed_add(&SignedU128::Negative(5), &SignedU128::Negative(7)),
        Ok(SignedU128::Negative(12))
    );
    // Combination is independent of the bound, and fails only past the
    // 128-bit magnitude.
    assert_eq!(
        math.signed_add(&SignedU128::Positive(u128::MAX), &SignedU128::Positive(1)),
        Err(BoundedMathError::Overflow)
    );
    assert_eq!(
        math.signed_add(&SignedU128::Negative(u128::MAX), &SignedU128::Negative(1)),
        Err(BoundedMathError::Underflow)
    );
    assert_eq!(
        math.signed_add(&SignedU128::Positive(5), &SignedU128::Negative(5)),
        Ok(SignedU128::Positive(0))
    );
}

#[test]
fn test_minus_and_is_zero() {
    assert_eq!(SignedU128::Positive(5).minus(), SignedU128::Negative(5));
    assert_eq!(SignedU128::Negative(5).minus(), SignedU128::Positive(5));
    assert!(SignedU128::Positive(0).is_zero());
    assert!(SignedU128::Negative(0).is_zero());
    assert!(!SignedU128::Positive(1).is_zero());
}

#[test]
fn test_expect_ok_and_ok_overflow() {
    assert_eq!(expect_ok::<u128>(Ok(5)), Ok(5));
    assert_eq!(
        expect_ok::<u128>(Err(BoundedMathError::Overflow)),
        Err(AggregatorError::CodeInvariantViolation)
    );
    assert_eq!(
        expect_ok::<u128>(Err(BoundedMathError::Underflow)),
        Err(AggregatorError::CodeInvariantViolation)
    );
    assert_eq!(ok_overflow::<u128>(Ok(5)), Ok(Some(5)));
    assert_eq!(ok_overflow::<u128>(Err(BoundedMathError::Overflow)), Ok(None));
    assert_eq!(
        ok_overflow::<u128>(Err(BoundedMathError::Underflow)),
        Err(BoundedMathError::Underflow)
    );
    assert_eq!(code_invariant_error(), AggregatorError::CodeInvariantViolation);
}
