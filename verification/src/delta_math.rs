//! The delta history: four scalars that summarize, for one aggregator in one
//! transaction, the tightest constraints on the unmaterialized base value
//! under which the recorded `try_add` / `try_sub` outcomes stay unchanged.

use crate::bounded_math::SignedU128;
use crate::errors::AggregatorError;
use vstd::prelude::*;

verus! {

/// The minimal sufficient statistic over a transaction's operation sequence:
/// any base value satisfying all four bounds reproduces the same sequence of
/// `try_add` / `try_sub` outcomes.
#[derive(Clone, Copy, Debug, PartialEq, Eq, Structural)]
#[verifier::ext_equal]
pub struct DeltaHistory {
    /// Largest delta that a successful operation produced (zero if none).
    pub max_achieved_positive_delta: u128,
    /// Magnitude of the most negative delta that a successful operation
    /// produced (zero if none).
    pub min_achieved_negative_delta: u128,
    /// Smallest positive delta-post-operation observed to overflow against
    /// the speculative base.
    pub min_overflow_positive_delta: Option<u128>,
    /// Smallest magnitude of a negative delta-post-operation observed to
    /// underflow against the speculative base (the largest such delta as a
    /// signed value).
    pub max_underflow_negative_delta: Option<u128>,
}

impl DeltaHistory {
    /// The history with nothing recorded.
    pub open spec fn empty() -> DeltaHistory {
        DeltaHistory {
            max_achieved_positive_delta: 0,
            min_achieved_negative_delta: 0,
            min_overflow_positive_delta: None,
            max_underflow_negative_delta: None,
        }
    }

    pub open spec fn spec_is_empty(self) -> bool {
        self == DeltaHistory::empty()
    }

    /// What recording a successful operation ending at signed delta `delta`
    /// does: it widens the achieved extrema and nothing else.
    pub open spec fn record_success_spec(self, delta: int) -> DeltaHistory {
        if delta > 0 && delta > self.max_achieved_positive_delta {
            DeltaHistory { max_achieved_positive_delta: delta as u128, ..self }
        } else if delta < 0 && -delta > self.min_achieved_negative_delta {
            DeltaHistory { min_achieved_negative_delta: (-delta) as u128, ..self }
        } else {
            self
        }
    }

    /// What recording an overflowing positive delta-post-operation does: the
    /// recorded bound only tightens (numerically shrinks).
    pub open spec fn record_overflow_spec(self, delta: u128) -> DeltaHistory {
        match self.min_overflow_positive_delta {
            None => DeltaHistory { min_overflow_positive_delta: Some(delta), ..self },
            Some(p) => {
                if delta < p {
                    DeltaHistory { min_overflow_positive_delta: Some(delta), ..self }
                } else {
                    self
                }
            },
        }
    }

    /// What recording an underflowing negative delta-post-operation (by its
    /// magnitude) does: the recorded bound only tightens (numerically
    /// shrinks, i.e. grows as a signed value).
    pub open spec fn record_underflow_spec(self, delta: u128) -> DeltaHistory {
        match self.max_underflow_negative_delta {
            None => DeltaHistory { max_underflow_negative_delta: Some(delta), ..self },
            Some(p) => {
                if delta < p {
                    DeltaHistory { max_underflow_negative_delta: Some(delta), ..self }
                } else {
                    self
                }
            },
        }
    }

    /// A base value reproduces the recorded outcomes iff all four bounds
    /// hold of it.
    pub open spec fn validates(self, base_value: u128, max_value: u128) -> bool {
        &&& base_value + self.max_achieved_positive_delta <= max_value
        &&& base_value >= self.min_achieved_negative_delta
        &&& (self.min_overflow_positive_delta matches Some(o) ==> base_value + o > max_value)
        &&& (self.max_underflow_negative_delta matches Some(u) ==> base_value < u)
    }

    /// Whether a running delta is covered by the achieved extrema: every
    /// delta an aggregator holds was produced by its last recorded success.
    pub open spec fn bounds_delta(self, delta: int) -> bool {
        &&& delta >= 0 ==> delta <= self.max_achieved_positive_delta
        &&& delta < 0 ==> -delta <= self.min_achieved_negative_delta
    }

    pub fn new() -> (r: DeltaHistory)
        ensures
            r == DeltaHistory::empty(),
    {
        DeltaHistory {
            max_achieved_positive_delta: 0,
            min_achieved_negative_delta: 0,
            min_overflow_positive_delta: None,
            max_underflow_negative_delta: None,
        }
    }

    pub fn is_empty(&self) -> (r: bool)
        ensures
            r == self.spec_is_empty(),
    {
        self.max_achieved_positive_delta == 0 && self.min_achieved_negative_delta == 0
            && self.min_overflow_positive_delta.is_none()
            && self.max_underflow_negative_delta.is_none()
    }

    /// Records a successful operation that ended at signed delta `delta`.
    pub fn record_success(&mut self, delta: SignedU128)
        ensures
            *final(self) == old(self).record_success_spec(delta.as_int()),
    {
        match delta {
            SignedU128::Positive(value) => {
                if value > self.max_achieved_positive_delta {
                    self.max_achieved_positive_delta = value;
                }
            },
            SignedU128::Negative(value) => {
                if value > self.min_achieved_negative_delta {
                    self.min_achieved_negative_delta = value;
                }
            },
        }
    }

    /// Records a positive delta-post-operation observed to overflow.
    pub fn record_overflow(&mut self, delta: u128)
        ensures
            *final(self) == old(self).record_overflow_spec(delta),
    {
        match self.min_overflow_positive_delta {
            None => {
                self.min_overflow_positive_delta = Some(delta);
            },
            Some(p) => {
                if delta < p {
                    self.min_overflow_positive_delta = Some(delta);
                }
            },
        }
    }

    /// Records the magnitude of a negative delta-post-operation observed to
    /// underflow.
    pub fn record_underflow(&mut self, delta: u128)
        ensures
            *final(self) == old(self).record_underflow_spec(delta),
    {
        match self.max_underflow_negative_delta {
            None => {
                self.max_underflow_negative_delta = Some(delta);
            },
            Some(p) => {
                if delta < p {
                    self.max_underflow_negative_delta = Some(delta);
                }
            },
        }
    }

    /// Accepts `base_value` iff the recorded outcomes are reproduced when the
    /// aggregator really starts at `base_value`.
    pub fn validate_against_base_value(&self, base_value: u128, max_value: u128) -> (r: Result<
        (),
        AggregatorError,
    >)
        ensures
            r == (if self.validates(base_value, max_value) {
                Ok::<(), AggregatorError>(())
            } else {
                Err::<(), AggregatorError>(AggregatorError::Extension)
            }),
    {
        if base_value > max_value {
            return Err(AggregatorError::Extension);
        }
        if self.max_achieved_positive_delta > max_value - base_value {
            return Err(AggregatorError::Extension);
        }
        if base_value < self.min_achieved_negative_delta {
            return Err(AggregatorError::Extension);
        }
        if let Some(o) = self.min_overflow_positive_delta {
            if o <= max_value - base_value {
                return Err(AggregatorError::Extension);
            }
        }
        if let Some(u) = self.max_underflow_negative_delta {
            if base_value >= u {
                return Err(AggregatorError::Extension);
            }
        }
        Ok(())
    }
}

/// One bytecode-level operation on an aggregator.
#[derive(Clone, Copy, Debug, PartialEq, Eq, Structural)]
pub enum DeltaOp {
    Add(u128),
    Sub(u128),
}

/// One operation applied to a known value: the outcome and the new value.
/// An input above `max_value` or a result outside `[0, max_value]` fails and
/// leaves the value unchanged.
pub open spec fn data_step(value: u128, max_value: u128, op: DeltaOp) -> (bool, u128) {
    match op {
        DeltaOp::Add(input) => {
            if input > max_value || value + input > max_value {
                (false, value)
            } else {
                (true, (value + input) as u128)
            }
        },
        DeltaOp::Sub(input) => {
            if input > max_value || value < input {
                (false, value)
            } else {
                (true, (value - input) as u128)
            }
        },
    }
}

/// One operation applied in delta mode against speculative base `base`: the
/// outcome, the new running delta and the new history.
///
/// An input above `max_value` fails without recording anything: it fails
/// whatever the base is, so it constrains nothing. A failure whose
/// delta-post-operation stays within `[0, max_value]` is recorded as the
/// overflow or underflow bound it witnesses; one beyond the bound again
/// constrains nothing, since it fails against every base. A success moves the
/// delta and widens the achieved extrema.
pub open spec fn delta_step(
    base: u128,
    max_value: u128,
    delta: int,
    history: DeltaHistory,
    op: DeltaOp,
) -> (bool, int, DeltaHistory) {
    match op {
        DeltaOp::Add(input) => {
            if input > max_value {
                (false, delta, history)
            } else if base + delta + input > max_value {
                if 0 <= delta + input <= max_value {
                    (false, delta, history.record_overflow_spec((delta + input) as u128))
                } else {
                    (false, delta, history)
                }
            } else {
                (true, delta + input, history.record_success_spec(delta + input))
            }
        },
        DeltaOp::Sub(input) => {
            if input > max_value {
                (false, delta, history)
            } else if base + delta < input {
                if 0 <= input - delta <= max_value {
                    (false, delta, history.record_underflow_spec((input - delta) as u128))
                } else {
                    (false, delta, history)
                }
            } else {
                (true, delta - input, history.record_success_spec(delta - input))
            }
        },
    }
}

/// Law: recording the same success twice is the same as recording it once.
pub proof fn lemma_record_success_idempotent(h: DeltaHistory, d: int)
    ensures
        h.record_success_spec(d).record_success_spec(d) == h.record_success_spec(d),
{
}

/// Law: two recorded successes can be reordered without changing the history.
pub proof fn lemma_record_success_commutes(h: DeltaHistory, d1: int, d2: int)
    requires
        -(u128::MAX as int) <= d1 <= u128::MAX as int,
        -(u128::MAX as int) <= d2 <= u128::MAX as int,
    ensures
        h.record_success_spec(d1).record_success_spec(d2) == h.record_success_spec(
            d2,
        ).record_success_spec(d1),
{
    assert(h.record_success_spec(d1).record_success_spec(d2) =~= h.record_success_spec(
        d2,
    ).record_success_spec(d1));
}

/// Law: recording the same overflow twice is the same as recording it once.
pub proof fn lemma_record_overflow_idempotent(h: DeltaHistory, d: u128)
    ensures
        h.record_overflow_spec(d).record_overflow_spec(d) == h.record_overflow_spec(d),
{
}

/// Law: two recorded overflows can be reordered without changing the history.
pub proof fn lemma_record_overflow_commutes(h: DeltaHistory, d1: u128, d2: u128)
    ensures
        h.record_overflow_spec(d1).record_overflow_spec(d2) == h.record_overflow_spec(
            d2,
        ).record_overflow_spec(d1),
{
}

/// Law: recording the same underflow twice is the same as recording it once.
pub proof fn lemma_record_underflow_idempotent(h: DeltaHistory, d: u128)
    ensures
        h.record_underflow_spec(d).record_underflow_spec(d) == h.record_underflow_spec(d),
{
}

/// Law: two recorded underflows can be reordered without changing the history.
pub proof fn lemma_record_underflow_commutes(h: DeltaHistory, d1: u128, d2: u128)
    ensures
        h.record_underflow_spec(d1).record_underflow_spec(d2) == h.record_underflow_spec(
            d2,
        ).record_underflow_spec(d1),
{
}

} // verus!
