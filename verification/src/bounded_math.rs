//! Bounded signed arithmetic on 128-bit unsigned values.
//!
//! All operations are pure and total with explicit failure: a result outside
//! `[0, max_value]` (or outside `[-max_value, max_value]` for signed results)
//! is reported as an overflow or underflow, never computed.

use crate::errors::AggregatorError;
use vstd::prelude::*;

verus! {

/// Why a bounded operation failed.
#[derive(Clone, Copy, Debug, PartialEq, Eq, Structural)]
pub enum BoundedMathError {
    /// The result would exceed the upper bound.
    Overflow,
    /// The result would fall below zero (or below the negated bound).
    Underflow,
}

/// A 128-bit signed value kept as a sign and a magnitude.
///
/// Separating the sign from the magnitude avoids the `i128` range cliff and
/// lets the aggregator bound the magnitude by `max_value` directly.
#[derive(Clone, Copy, Debug, PartialEq, Eq, Structural)]
pub enum SignedU128 {
    Positive(u128),
    Negative(u128),
}

impl SignedU128 {
    /// The mathematical value: the magnitude with its sign applied.
    pub open spec fn as_int(self) -> int {
        match self {
            SignedU128::Positive(v) => v as int,
            SignedU128::Negative(v) => -(v as int),
        }
    }

    /// Whether zero is written with the positive sign, as every operation
    /// here produces it.
    pub open spec fn is_canonical(self) -> bool {
        self matches SignedU128::Negative(v) ==> v > 0
    }

    /// The canonical sign-magnitude form of a mathematical integer.
    pub open spec fn from_int(n: int) -> SignedU128 {
        if n >= 0 {
            SignedU128::Positive(n as u128)
        } else {
            SignedU128::Negative((-n) as u128)
        }
    }

    /// The negation of this value.
    pub fn minus(&self) -> (r: SignedU128)
        ensures
            r.as_int() == -self.as_int(),
    {
        match self {
            SignedU128::Positive(v) => SignedU128::Negative(*v),
            SignedU128::Negative(v) => SignedU128::Positive(*v),
        }
    }
}

/// Arithmetic over `[0, max_value]`, an inclusive range.
#[derive(Clone, Copy, Debug)]
pub struct BoundedMath {
    pub max_value: u128,
}

impl BoundedMath {
    pub fn new(max_value: u128) -> (r: BoundedMath)
        ensures
            r.max_value == max_value,
    {
        BoundedMath { max_value }
    }

    /// `base + value`, or `Overflow` when the sum exceeds `max_value`.
    pub fn unsigned_add(&self, base: u128, value: u128) -> (r: Result<u128, BoundedMathError>)
        ensures
            r == (if base + value <= self.max_value {
                Ok::<u128, BoundedMathError>((base + value) as u128)
            } else {
                Err::<u128, BoundedMathError>(BoundedMathError::Overflow)
            }),
    {
        if base > self.max_value || value > self.max_value - base {
            Err(BoundedMathError::Overflow)
        } else {
            Ok(base + value)
        }
    }

    /// `base - value`, or `Underflow` when `value` exceeds `base`.
    pub fn unsigned_subtract(&self, base: u128, value: u128) -> (r: Result<
        u128,
        BoundedMathError,
    >)
        ensures
            r == (if value <= base {
                Ok::<u128, BoundedMathError>((base - value) as u128)
            } else {
                Err::<u128, BoundedMathError>(BoundedMathError::Underflow)
            }),
    {
        if value > base {
            Err(BoundedMathError::Underflow)
        } else {
            Ok(base - value)
        }
    }

    /// `base + delta` constrained to `[0, max_value]`.
    pub fn unsigned_add_delta(&self, base: u128, delta: &SignedU128) -> (r: Result<
        u128,
        BoundedMathError,
    >)
        ensures
            r == (if base + delta.as_int() > self.max_value {
                Err::<u128, BoundedMathError>(BoundedMathError::Overflow)
            } else if base + delta.as_int() < 0 {
                Err::<u128, BoundedMathError>(BoundedMathError::Underflow)
            } else {
                Ok::<u128, BoundedMathError>((base + delta.as_int()) as u128)
            }),
    {
        match delta {
            SignedU128::Positive(value) => self.unsigned_add(base, *value),
            SignedU128::Negative(value) => {
                match self.unsigned_subtract(base, *value) {
                    Ok(result) => {
                        if result > self.max_value {
                            Err(BoundedMathError::Overflow)
                        } else {
                            Ok(result)
                        }
                    },
                    Err(e) => Err(e),
                }
            },
        }
    }

    /// `left + right` as a signed value with magnitude at most `max_value`.
    ///
    /// Zero comes out with the positive sign whenever `left` is canonical.
    pub fn signed_add(&self, left: &SignedU128, right: &SignedU128) -> (r: Result<
        SignedU128,
        BoundedMathError,
    >)
        ensures
            ({
                let s = left.as_int() + right.as_int();
                if s > self.max_value {
                    r == Err::<SignedU128, BoundedMathError>(BoundedMathError::Overflow)
                } else if s < -(self.max_value as int) {
                    r == Err::<SignedU128, BoundedMathError>(BoundedMathError::Underflow)
                } else {
                    r matches Ok(v) && v.as_int() == s && (left.is_canonical()
                        ==> v == SignedU128::from_int(s))
                }
            }),
    {
        match (left, right) {
            (SignedU128::Positive(a), SignedU128::Positive(b)) => {
                match self.unsigned_add(*a, *b) {
                    Ok(v) => Ok(SignedU128::Positive(v)),
                    Err(e) => Err(e),
                }
            },
            (SignedU128::Negative(a), SignedU128::Negative(b)) => {
                match self.unsigned_add(*a, *b) {
                    Ok(v) => Ok(SignedU128::Negative(v)),
                    Err(_) => Err(BoundedMathError::Underflow),
                }
            },
            (SignedU128::Positive(a), SignedU128::Negative(b)) => {
                if *a >= *b {
                    let diff = *a - *b;
                    if diff > self.max_value {
                        Err(BoundedMathError::Overflow)
                    } else {
                        Ok(SignedU128::Positive(diff))
                    }
                } else {
                    let diff = *b - *a;
                    if diff > self.max_value {
                        Err(BoundedMathError::Underflow)
                    } else {
                        Ok(SignedU128::Negative(diff))
                    }
                }
            },
            (SignedU128::Negative(a), SignedU128::Positive(b)) => {
                if *b >= *a {
                    let diff = *b - *a;
                    if diff > self.max_value {
                        Err(BoundedMathError::Overflow)
                    } else {
                        Ok(SignedU128::Positive(diff))
                    }
                } else {
                    let diff = *a - *b;
                    if diff > self.max_value {
                        Err(BoundedMathError::Underflow)
                    } else {
                        Ok(SignedU128::Negative(diff))
                    }
                }
            },
        }
    }
}

/// Turns an overflow into `None`, keeping an underflow as an error.
pub fn ok_overflow<T>(value: Result<T, BoundedMathError>) -> (r: Result<
    Option<T>,
    BoundedMathError,
>)
    ensures
        r == (match value {
            Ok(v) => Ok::<Option<T>, BoundedMathError>(Some(v)),
            Err(BoundedMathError::Overflow) => Ok::<Option<T>, BoundedMathError>(None),
            Err(BoundedMathError::Underflow) => Err::<Option<T>, BoundedMathError>(
                BoundedMathError::Underflow,
            ),
        }),
{
    match value {
        Ok(v) => Ok(Some(v)),
        Err(BoundedMathError::Overflow) => Ok(None),
        Err(BoundedMathError::Underflow) => Err(BoundedMathError::Underflow),
    }
}

/// Maps a bounded-math failure to a code-invariant error: the caller has
/// established that the operation cannot fail, so a failure means the state
/// machine is broken.
pub fn expect_ok<T>(value: Result<T, BoundedMathError>) -> (r: Result<T, AggregatorError>)
    ensures
        r == (match value {
            Ok(v) => Ok::<T, AggregatorError>(v),
            Err(_) => Err::<T, AggregatorError>(AggregatorError::CodeInvariant),
        }),
{
    match value {
        Ok(v) => Ok(v),
        Err(_) => Err(AggregatorError::CodeInvariant),
    }
}

} // verus!
