use vstd::prelude::*;

verus! {

/// Why a bounded arithmetic step failed: the result would have left the
/// admissible range past its upper end (overflow) or past its lower end
/// (underflow).
#[derive(Clone, Copy, Debug, PartialEq, Eq, Structural)]
pub enum BoundedMathError {
    Overflow,
    Underflow,
}

/// A failure of the aggregator machinery itself, as opposed to an expected
/// arithmetic miss (which surfaces as an ordinary `false` or as a
/// `BoundedMathError`).
#[derive(Clone, Copy, Debug, PartialEq, Eq, Structural)]
pub enum AggregatorError {
    /// An internal invariant was broken, or a recorded outcome contradicts a
    /// base value revealed later: this execution attempt is invalid and must
    /// be re-run by the caller.
    CodeInvariantViolation,
    /// The resolver could not produce a value: a failed read, or a read from
    /// a deleted aggregator.
    ExtensionFailure,
}

/// The invariant-violation error, used where arithmetic or state was expected
/// to be consistent and was not.
pub fn code_invariant_error() -> (r: AggregatorError)
    ensures
        r == AggregatorError::CodeInvariantViolation,
{
    AggregatorError::CodeInvariantViolation
}

/// Promotes a bounded-math result to an aggregator result, turning any
/// arithmetic failure into an invariant violation: callers use it where the
/// surrounding state guarantees that the arithmetic cannot miss.
pub fn expect_ok<T>(res: Result<T, BoundedMathError>) -> (r: Result<T, AggregatorError>)
    ensures
        res matches Ok(v) ==> r == Ok::<T, AggregatorError>(v),
        res is Err ==> r == Err::<T, AggregatorError>(AggregatorError::CodeInvariantViolation),
{
    match res {
        Ok(v) => Ok(v),
        Err(_) => Err(AggregatorError::CodeInvariantViolation),
    }
}

/// Treats an overflow as an acceptable outcome (`None`), while an underflow
/// stays an error.
pub fn ok_overflow<T>(res: Result<T, BoundedMathError>) -> (r: Result<
    Option<T>,
    BoundedMathError,
>)
    ensures
        r == match res {
            Ok(v) => Ok::<Option<T>, BoundedMathError>(Some(v)),
            Err(BoundedMathError::Overflow) => Ok::<Option<T>, BoundedMathError>(None),
            Err(BoundedMathError::Underflow) => Err::<Option<T>, BoundedMathError>(
                BoundedMathError::Underflow,
            ),
        },
{
    match res {
        Ok(v) => Ok(Some(v)),
        Err(BoundedMathError::Overflow) => Ok(None),
        Err(BoundedMathError::Underflow) => Err(BoundedMathError::Underflow),
    }
}

/// A delta with an explicit sign; the magnitude is a plain `u128`, with no
/// twos-complement wraparound.
#[derive(Clone, Copy, Debug, Hash, PartialEq, Eq, Structural)]
pub enum SignedU128 {
    Positive(u128),
    Negative(u128),
}

impl SignedU128 {
    /// The mathematical integer this delta stands for.
    pub open spec fn as_int(self) -> int {
        match self {
            SignedU128::Positive(v) => v as int,
            SignedU128::Negative(v) => -(v as int),
        }
    }

    pub open spec fn spec_is_zero(self) -> bool {
        self.as_int() == 0
    }

    pub fn is_zero(&self) -> (r: bool)
        ensures
            r == self.spec_is_zero(),
    {
        match self {
            SignedU128::Positive(v) => *v == 0,
            SignedU128::Negative(v) => *v == 0,
        }
    }

    /// The same magnitude under the opposite sign.
    pub fn minus(&self) -> (r: SignedU128)
        ensures
            r == self.spec_minus(),
    {
        match self {
            SignedU128::Positive(v) => SignedU128::Negative(*v),
            SignedU128::Negative(v) => SignedU128::Positive(*v),
        }
    }

    pub open spec fn spec_minus(self) -> SignedU128 {
        match self {
            SignedU128::Positive(v) => SignedU128::Negative(v),
            SignedU128::Negative(v) => SignedU128::Positive(v),
        }
    }
}

/// What applying a signed delta to an unsigned base yields under the bound
/// `max`: the exact sum when it stays inside `[0, max]`-on-the-way-up or stays
/// non-negative on the way down, and the direction of the miss otherwise.
/// Subtraction is not checked against `max`: a base already above the bound
/// keeps its excess, exactly as the executable operations behave.
pub open spec fn spec_add_delta(max: u128, base: u128, delta: SignedU128) -> Result<
    u128,
    BoundedMathError,
> {
    match delta {
        SignedU128::Positive(d) => if base + d <= max {
            Ok((base + d) as u128)
        } else {
            Err(BoundedMathError::Overflow)
        },
        SignedU128::Negative(d) => if d <= base {
            Ok((base - d) as u128)
        } else {
            Err(BoundedMathError::Underflow)
        },
    }
}

/// What combining two signed deltas yields: the exact signed sum whenever its
/// magnitude is representable in a `u128`, independent of any `max` bound;
/// a positive magnitude overflow reports `Overflow`, a negative one
/// `Underflow`. Mixed signs never fail. The representation of a zero result
/// of mixed signs is `Positive(0)`.
pub open spec fn spec_signed_add(a: SignedU128, b: SignedU128) -> Result<
    SignedU128,
    BoundedMathError,
> {
    match (a, b) {
        (SignedU128::Positive(x), SignedU128::Positive(y)) => if x + y <= u128::MAX {
            Ok(SignedU128::Positive((x + y) as u128))
        } else {
            Err(BoundedMathError::Overflow)
        },
        (SignedU128::Negative(x), SignedU128::Negative(y)) => if x + y <= u128::MAX {
            Ok(SignedU128::Negative((x + y) as u128))
        } else {
            Err(BoundedMathError::Underflow)
        },
        (SignedU128::Positive(x), SignedU128::Negative(y)) => if y <= x {
            Ok(SignedU128::Positive((x - y) as u128))
        } else {
            Ok(SignedU128::Negative((y - x) as u128))
        },
        (SignedU128::Negative(x), SignedU128::Positive(y)) => if x <= y {
            Ok(SignedU128::Positive((y - x) as u128))
        } else {
            Ok(SignedU128::Negative((x - y) as u128))
        },
    }
}

/// Checked arithmetic over the range `[0, max_value]`: operations fail
/// rather than wrap, saturate or panic.
pub struct BoundedMath {
    max_value: u128,
}

impl BoundedMath {
    /// The upper bound all additions are checked against.
    pub closed spec fn spec_max(self) -> u128 {
        self.max_value
    }

    pub fn new(max_value: u128) -> (r: Self)
        ensures
            r.spec_max() == max_value,
    {
        Self { max_value }
    }

    /// `a + b`, failing (never panicking) when the sum exceeds the bound.
    pub fn unsigned_add(&self, a: u128, b: u128) -> (r: Result<u128, BoundedMathError>)
        ensures
            a + b <= self.spec_max() ==> r == Ok::<u128, BoundedMathError>((a + b) as u128),
            a + b > self.spec_max() ==> r == Err::<u128, BoundedMathError>(
                BoundedMathError::Overflow,
            ),
    {
        if a > self.max_value || b > self.max_value - a {
            Err(BoundedMathError::Overflow)
        } else {
            Ok(a + b)
        }
    }

    /// `a - b`, failing (never panicking) when the difference would drop
    /// below zero.
    pub fn unsigned_subtract(&self, a: u128, b: u128) -> (r: Result<u128, BoundedMathError>)
        ensures
            b <= a ==> r == Ok::<u128, BoundedMathError>((a - b) as u128),
            b > a ==> r == Err::<u128, BoundedMathError>(BoundedMathError::Underflow),
    {
        if b > a {
            Err(BoundedMathError::Underflow)
        } else {
            Ok(a - b)
        }
    }

    /// Applies a signed delta to an unsigned base value.
    pub fn unsigned_add_delta(&self, base: u128, delta: &SignedU128) -> (r: Result<
        u128,
        BoundedMathError,
    >)
        ensures
            r == spec_add_delta(self.spec_max(), base, *delta),
    {
        match delta {
            SignedU128::Positive(value) => self.unsigned_add(base, *value),
            SignedU128::Negative(value) => self.unsigned_subtract(base, *value),
        }
    }

    /// Combines two signed deltas; the only failures are magnitudes beyond
    /// what a `u128` can hold, independent of the bound.
    pub fn signed_add(&self, a: &SignedU128, b: &SignedU128) -> (r: Result<
        SignedU128,
        BoundedMathError,
    >)
        ensures
            r == spec_signed_add(*a, *b),
    {
        match (a, b) {
            (SignedU128::Positive(x), SignedU128::Positive(y)) => {
                if *y > u128::MAX - *x {
                    Err(BoundedMathError::Overflow)
                } else {
                    Ok(SignedU128::Positive(*x + *y))
                }
            },
            (SignedU128::Negative(x), SignedU128::Negative(y)) => {
                if *y > u128::MAX - *x {
                    Err(BoundedMathError::Underflow)
                } else {
                    Ok(SignedU128::Negative(*x + *y))
                }
            },
            (SignedU128::Positive(x), SignedU128::Negative(y)) => {
                if *y <= *x {
                    Ok(SignedU128::Positive(*x - *y))
                } else {
                    Ok(SignedU128::Negative(*y - *x))
                }
            },
            (SignedU128::Negative(x), SignedU128::Positive(y)) => {
                if *x <= *y {
                    Ok(SignedU128::Positive(*y - *x))
                } else {
                    Ok(SignedU128::Negative(*x - *y))
                }
            },
        }
    }
}

} // verus!
