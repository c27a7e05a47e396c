//! The aggregator state machine and the per-transaction registry.
//!
//! An `Aggregator` is either in *Data* mode (its exact value is known) or in
//! *Delta* mode (only a signed change against an unmaterialized base is
//! known). `try_add` and `try_sub` report overflow and underflow as ordinary
//! `Ok(false)` outcomes while accumulating a `DeltaHistory`, so that the
//! recorded outcomes can later be validated against the real base value.

use crate::bounded_math::{expect_ok, ok_overflow, BoundedMath, SignedU128};
use crate::delta_math::{delta_step, DeltaHistory, DeltaOp};
use crate::errors::{code_invariant_error, extension_error, AggregatorError};
use crate::ordered::{
    agg_find, agg_map, agg_sorted, lemma_agg_at, lemma_agg_insert, lemma_agg_update,
    lemma_map_double_insert, skey_set, skeys_has, skeys_sorted, snap_map, snap_sorted, vid_set,
    vids_sorted,
};
use crate::resolver::{AggregatorReadMode, AggregatorResolver};
use crate::types::{vid_lt, AggregatorID, AggregatorVersionedID, KeyOrder, StateKey, VersionedIdView};
use vstd::prelude::*;

verus! {

broadcast use vstd::seq::group_seq_axioms;

/// How the speculative start value of a Delta-mode aggregator was obtained.
#[derive(Clone, Copy, Debug, PartialEq, Eq, Structural)]
pub enum SpeculativeStartValue {
    /// No read has happened yet.
    Unset,
    /// Obtained by a cheap read of the last committed value. Such a value is
    /// not tracked as a read-conflict dependency, so it must never reach user
    /// code: it may serve only as the arithmetic pivot inside `try_add` and
    /// `try_sub`, whose guarantee is carried entirely by the delta history.
    LastCommittedValue(u128),
    /// Obtained by an expensive read that aggregates all pending deltas; safe
    /// to return to user code.
    AggregatedValue(u128),
}

impl SpeculativeStartValue {
    /// The start value for internal arithmetic, whichever way it was read.
    pub fn get_any_value(&self) -> (r: Result<u128, AggregatorError>)
        ensures
            r == (match *self {
                SpeculativeStartValue::Unset => Err::<u128, AggregatorError>(
                    AggregatorError::CodeInvariant,
                ),
                SpeculativeStartValue::LastCommittedValue(v) => Ok::<u128, AggregatorError>(v),
                SpeculativeStartValue::AggregatedValue(v) => Ok::<u128, AggregatorError>(v),
            }),
    {
        match self {
            SpeculativeStartValue::Unset => Err(code_invariant_error()),
            SpeculativeStartValue::LastCommittedValue(value) => Ok(*value),
            SpeculativeStartValue::AggregatedValue(value) => Ok(*value),
        }
    }

    /// The start value for results handed to user code: only an aggregated
    /// read is safe to expose.
    pub fn get_value_for_read(&self) -> (r: Result<u128, AggregatorError>)
        ensures
            r == (match *self {
                SpeculativeStartValue::Unset => Err::<u128, AggregatorError>(
                    AggregatorError::CodeInvariant,
                ),
                SpeculativeStartValue::LastCommittedValue(_) => Err::<u128, AggregatorError>(
                    AggregatorError::CodeInvariant,
                ),
                SpeculativeStartValue::AggregatedValue(v) => Ok::<u128, AggregatorError>(v),
            }),
    {
        match self {
            SpeculativeStartValue::Unset => Err(code_invariant_error()),
            SpeculativeStartValue::LastCommittedValue(_) => Err(code_invariant_error()),
            SpeculativeStartValue::AggregatedValue(value) => Ok(*value),
        }
    }
}

/// The state of one aggregator within one transaction.
#[derive(Clone, Copy, Debug, PartialEq, Eq, Structural)]
pub enum AggregatorState {
    /// The exact value is known.
    Data { value: u128 },
    /// The value is `speculative_start_value + delta`, but the start is not
    /// yet fixed; `history` records what the recorded outcomes assume of it.
    Delta {
        speculative_start_value: SpeculativeStartValue,
        delta: SignedU128,
        history: DeltaHistory,
    },
}

/// A delta-mode aggregator whose base has been read is well formed when
/// either nothing has been recorded yet, or its history holds of the base it
/// was recorded against and covers the running delta.
///
/// The first disjunct is needed because a committed read does not validate:
/// a stored value above `max_value` becomes a start value that no history
/// validates, and every later operation fails with a code-invariant error.
pub open spec fn delta_state_wf(
    base: u128,
    delta: SignedU128,
    history: DeltaHistory,
    max_value: u128,
) -> bool {
    ||| (delta == SignedU128::Positive(0) && history == DeltaHistory::empty())
    ||| (history.validates(base, max_value) && history.bounds_delta(delta.as_int())
        && delta.is_canonical())
}

/// What the state machine reads from storage for `id`, with failures and
/// deletions both surfaced as extension errors.
pub open spec fn spec_storage_read<R: AggregatorResolver>(
    id: AggregatorVersionedID,
    resolver: R,
    mode: AggregatorReadMode,
) -> Result<u128, AggregatorError> {
    match id {
        AggregatorVersionedID::V1(key) => match resolver.spec_get_v1(key@, mode) {
            Ok(Some(v)) => Ok(v),
            Ok(None) => Err(AggregatorError::Extension),
            Err(_) => Err(AggregatorError::Extension),
        },
        AggregatorVersionedID::V2(aid) => match resolver.spec_get_v2(aid.0, mode) {
            Ok(v) => Ok(v),
            Err(_) => Err(AggregatorError::Extension),
        },
    }
}

/// The outcome and new state of `read_last_committed_aggregator_value`,
/// given what a committed read would return.
pub open spec fn spec_read_last_committed(
    agg: Aggregator,
    read: Result<u128, AggregatorError>,
) -> (Result<(), AggregatorError>, AggregatorState) {
    match agg.state {
        AggregatorState::Data { .. } => (Ok(()), agg.state),
        AggregatorState::Delta { speculative_start_value, delta, history } => {
            match speculative_start_value {
                SpeculativeStartValue::Unset => {
                    if delta != SignedU128::Positive(0) || !history.spec_is_empty() {
                        (Err(AggregatorError::CodeInvariant), agg.state)
                    } else {
                        match read {
                            Err(e) => (Err(e), agg.state),
                            Ok(v) => (
                                Ok(()),
                                AggregatorState::Delta {
                                    speculative_start_value:
                                        SpeculativeStartValue::LastCommittedValue(v),
                                    delta,
                                    history,
                                },
                            ),
                        }
                    }
                },
                _ => (Ok(()), agg.state),
            }
        },
    }
}

/// The outcome and new state of a `try_add` or `try_sub` on a delta-mode
/// aggregator whose start value `base` is available.
pub open spec fn spec_delta_try(
    base: u128,
    start: SpeculativeStartValue,
    delta: SignedU128,
    history: DeltaHistory,
    max_value: u128,
    op: DeltaOp,
) -> (Result<bool, AggregatorError>, AggregatorState) {
    if !(0 <= base + delta.as_int() <= max_value) {
        (
            Err(AggregatorError::CodeInvariant),
            AggregatorState::Delta { speculative_start_value: start, delta, history },
        )
    } else {
        let (ok, new_delta, new_history) = delta_step(base, max_value, delta.as_int(), history, op);
        (
            Ok(ok),
            AggregatorState::Delta {
                speculative_start_value: start,
                delta: SignedU128::from_int(new_delta),
                history: new_history,
            },
        )
    }
}

/// The outcome and new state of `try_add` / `try_sub` (which of the two is
/// `op`), given what a committed read would return for an unset start.
pub open spec fn spec_try_op(
    agg: Aggregator,
    read: Result<u128, AggregatorError>,
    op: DeltaOp,
) -> (Result<bool, AggregatorError>, AggregatorState) {
    let input = match op {
        DeltaOp::Add(v) => v,
        DeltaOp::Sub(v) => v,
    };
    if input > agg.max_value {
        (Ok(false), agg.state)
    } else {
        match agg.state {
            AggregatorState::Data { value } => {
                let (ok, new_value) = crate::delta_math::data_step(value, agg.max_value, op);
                (Ok(ok), AggregatorState::Data { value: new_value })
            },
            AggregatorState::Delta { speculative_start_value, delta, history } => {
                match speculative_start_value {
                    SpeculativeStartValue::Unset => {
                        if delta != SignedU128::Positive(0) || !history.spec_is_empty() {
                            (Err(AggregatorError::CodeInvariant), agg.state)
                        } else {
                            match read {
                                Err(e) => (Err(e), agg.state),
                                Ok(v) => spec_delta_try(
                                    v,
                                    SpeculativeStartValue::LastCommittedValue(v),
                                    delta,
                                    history,
                                    agg.max_value,
                                    op,
                                ),
                            }
                        }
                    },
                    SpeculativeStartValue::LastCommittedValue(v) => spec_delta_try(
                        v,
                        speculative_start_value,
                        delta,
                        history,
                        agg.max_value,
                        op,
                    ),
                    SpeculativeStartValue::AggregatedValue(v) => spec_delta_try(
                        v,
                        speculative_start_value,
                        delta,
                        history,
                        agg.max_value,
                        op,
                    ),
                }
            },
        }
    }
}

/// The outcome and new state of `read_most_recent_aggregator_value`, given
/// what an aggregated read would return.
pub open spec fn spec_read_most_recent(
    agg: Aggregator,
    read: Result<u128, AggregatorError>,
) -> (Result<u128, AggregatorError>, AggregatorState) {
    match agg.state {
        AggregatorState::Data { value } => (Ok(value), agg.state),
        AggregatorState::Delta { speculative_start_value, delta, history } => {
            match speculative_start_value {
                SpeculativeStartValue::AggregatedValue(v) => {
                    if 0 <= v + delta.as_int() <= agg.max_value {
                        (Ok((v + delta.as_int()) as u128), agg.state)
                    } else {
                        (Err(AggregatorError::CodeInvariant), agg.state)
                    }
                },
                _ => {
                    match read {
                        Err(e) => (Err(e), agg.state),
                        Ok(v) => {
                            if !history.validates(v, agg.max_value) {
                                (Err(AggregatorError::Extension), agg.state)
                            } else if !(0 <= v + delta.as_int() <= agg.max_value) {
                                (Err(AggregatorError::CodeInvariant), agg.state)
                            } else {
                                (
                                    Ok((v + delta.as_int()) as u128),
                                    AggregatorState::Delta {
                                        speculative_start_value:
                                            SpeculativeStartValue::AggregatedValue(v),
                                        delta,
                                        history,
                                    },
                                )
                            }
                        },
                    }
                },
            }
        },
    }
}

/// Law: an operation on a Data-mode aggregator does not depend on what the
/// resolver would return: a transaction that created its aggregator never
/// consults the resolver.
pub proof fn lemma_data_mode_ignores_resolver(
    agg: Aggregator,
    read1: Result<u128, AggregatorError>,
    read2: Result<u128, AggregatorError>,
    op: DeltaOp,
)
    requires
        agg.state matches AggregatorState::Data { .. },
    ensures
        spec_try_op(agg, read1, op) == spec_try_op(agg, read2, op),
{
}

/// One aggregator as one transaction sees it.
#[derive(Debug)]
pub struct Aggregator {
    /// The identifier the aggregator is stored under.
    pub id: AggregatorVersionedID,
    /// The inclusive upper bound of the valid range `[0, max_value]`.
    pub max_value: u128,
    pub state: AggregatorState,
}

impl Aggregator {
    /// What every reachable aggregator satisfies: a known value stays in
    /// range, and a delta-mode state is covered by `delta_state_wf` once its
    /// base is read.
    pub open spec fn wf(self) -> bool {
        match self.state {
            AggregatorState::Data { value } => value <= self.max_value,
            AggregatorState::Delta { speculative_start_value, delta, history } => {
                match speculative_start_value {
                    SpeculativeStartValue::Unset => delta == SignedU128::Positive(0)
                        && history == DeltaHistory::empty(),
                    SpeculativeStartValue::LastCommittedValue(v) => delta_state_wf(
                        v,
                        delta,
                        history,
                        self.max_value,
                    ),
                    SpeculativeStartValue::AggregatedValue(v) => history.validates(
                        v,
                        self.max_value,
                    ) && history.bounds_delta(delta.as_int()) && delta.is_canonical(),
                }
            },
        }
    }

    /// The history accumulated so far, if the aggregator is in delta mode.
    pub fn get_history(&self) -> (r: Option<&DeltaHistory>)
        ensures
            r == (match self.state {
                AggregatorState::Data { .. } => None::<&DeltaHistory>,
                AggregatorState::Delta { .. } => Some(
                    &self.state->Delta_history,
                ),
            }),
    {
        match &self.state {
            AggregatorState::Data { .. } => None,
            AggregatorState::Delta { history, .. } => Some(history),
        }
    }

    /// Makes sure the speculative start value is initialized, reading the
    /// last committed value if it is not. A no-op in Data mode or once a
    /// start value is set. May be called only before any delta has been
    /// recorded; `get_any_value` succeeds after a successful call.
    pub fn read_last_committed_aggregator_value<R: AggregatorResolver>(
        &mut self,
        resolver: &R,
    ) -> (r: Result<(), AggregatorError>)
        ensures
            final(self).id == old(self).id,
            final(self).max_value == old(self).max_value,
            ({
                let (res, st) = spec_read_last_committed(
                    *old(self),
                    spec_storage_read(old(self).id, *resolver, AggregatorReadMode::LastCommitted),
                );
                r == res && final(self).state == st
            }),
            old(self).wf() ==> final(self).wf(),
    {
        match self.state {
            AggregatorState::Delta {
                speculative_start_value: SpeculativeStartValue::Unset,
                delta,
                history,
            } => {
                if delta != SignedU128::Positive(0) || !history.is_empty() {
                    return Err(code_invariant_error());
                }
                let value_from_storage = match &self.id {
                    AggregatorVersionedID::V1(state_key) => {
                        match resolver.get_aggregator_v1_value(
                            state_key,
                            AggregatorReadMode::LastCommitted,
                        ) {
                            Ok(Some(v)) => v,
                            Ok(None) => {
                                return Err(extension_error());
                            },
                            Err(_) => {
                                return Err(extension_error());
                            },
                        }
                    },
                    AggregatorVersionedID::V2(id) => {
                        match resolver.get_aggregator_v2_value(
                            id,
                            AggregatorReadMode::LastCommitted,
                        ) {
                            Ok(v) => v,
                            Err(_) => {
                                return Err(extension_error());
                            },
                        }
                    },
                };
                self.state = AggregatorState::Delta {
                    speculative_start_value: SpeculativeStartValue::LastCommittedValue(
                        value_from_storage,
                    ),
                    delta,
                    history,
                };
                Ok(())
            },
            _ => Ok(()),
        }
    }

    /// Adds `input`, reporting `Ok(true)` on success and `Ok(false)` on
    /// overflow. In delta mode a success moves the delta and is recorded; a
    /// failure is recorded as the overflow bound it witnesses, unless it
    /// fails against every base.
    #[verifier::rlimit(50)]
    pub fn try_add<R: AggregatorResolver>(&mut self, resolver: &R, input: u128) -> (r: Result<
        bool,
        AggregatorError,
    >)
        requires
            old(self).wf(),
        ensures
            final(self).wf(),
            final(self).id == old(self).id,
            final(self).max_value == old(self).max_value,
            ({
                let (res, st) = spec_try_op(
                    *old(self),
                    spec_storage_read(old(self).id, *resolver, AggregatorReadMode::LastCommitted),
                    DeltaOp::Add(input),
                );
                r == res && final(self).state == st
            }),
    {
        if input > self.max_value {
            // An addition above the bound overflows whatever the base value
            // is, so it constrains nothing and is not recorded.
            return Ok(false);
        }
        let math = BoundedMath::new(self.max_value);
        match self.read_last_committed_aggregator_value(resolver) {
            Ok(()) => (),
            Err(e) => {
                return Err(e);
            },
        }
        match self.state {
            AggregatorState::Data { value } => {
                match math.unsigned_add(value, input) {
                    Ok(new_value) => {
                        self.state = AggregatorState::Data { value: new_value };
                        Ok(true)
                    },
                    Err(_) => Ok(false),
                }
            },
            AggregatorState::Delta { speculative_start_value, delta, history } => {
                let start = match speculative_start_value.get_any_value() {
                    Ok(v) => v,
                    Err(e) => {
                        return Err(e);
                    },
                };
                let cur_value = match expect_ok(math.unsigned_add_delta(start, &delta)) {
                    Ok(v) => v,
                    Err(e) => {
                        return Err(e);
                    },
                };
                if math.unsigned_add(cur_value, input).is_err() {
                    let overflow_delta = match expect_ok(
                        ok_overflow(math.unsigned_add_delta(input, &delta)),
                    ) {
                        Ok(v) => v,
                        Err(e) => {
                            return Err(e);
                        },
                    };
                    let mut new_history = history;
                    // A failure that overflows even without the base fails
                    // against every base and is not recorded.
                    if let Some(overflow_delta) = overflow_delta {
                        new_history.record_overflow(overflow_delta);
                    }
                    self.state = AggregatorState::Delta {
                        speculative_start_value,
                        delta,
                        history: new_history,
                    };
                    Ok(false)
                } else {
                    let new_delta = match expect_ok(
                        math.signed_add(&delta, &SignedU128::Positive(input)),
                    ) {
                        Ok(v) => v,
                        Err(e) => {
                            return Err(e);
                        },
                    };
                    let mut new_history = history;
                    new_history.record_success(new_delta);
                    self.state = AggregatorState::Delta {
                        speculative_start_value,
                        delta: new_delta,
                        history: new_history,
                    };
                    Ok(true)
                }
            },
        }
    }

    /// Subtracts `input`, reporting `Ok(true)` on success and `Ok(false)` on
    /// underflow; the mirror of `try_add`.
    #[verifier::rlimit(50)]
    pub fn try_sub<R: AggregatorResolver>(&mut self, resolver: &R, input: u128) -> (r: Result<
        bool,
        AggregatorError,
    >)
        requires
            old(self).wf(),
        ensures
            final(self).wf(),
            final(self).id == old(self).id,
            final(self).max_value == old(self).max_value,
            ({
                let (res, st) = spec_try_op(
                    *old(self),
                    spec_storage_read(old(self).id, *resolver, AggregatorReadMode::LastCommitted),
                    DeltaOp::Sub(input),
                );
                r == res && final(self).state == st
            }),
    {
        if input > self.max_value {
            // A subtraction above the bound underflows whatever the base
            // value is, so it constrains nothing and is not recorded.
            return Ok(false);
        }
        let math = BoundedMath::new(self.max_value);
        match self.read_last_committed_aggregator_value(resolver) {
            Ok(()) => (),
            Err(e) => {
                return Err(e);
            },
        }
        match self.state {
            AggregatorState::Data { value } => {
                match math.unsigned_subtract(value, input) {
                    Ok(new_value) => {
                        self.state = AggregatorState::Data { value: new_value };
                        Ok(true)
                    },
                    Err(_) => Ok(false),
                }
            },
            AggregatorState::Delta { speculative_start_value, delta, history } => {
                let start = match speculative_start_value.get_any_value() {
                    Ok(v) => v,
                    Err(e) => {
                        return Err(e);
                    },
                };
                let cur_value = match expect_ok(math.unsigned_add_delta(start, &delta)) {
                    Ok(v) => v,
                    Err(e) => {
                        return Err(e);
                    },
                };
                if cur_value < input {
                    let underflow_delta = match expect_ok(
                        ok_overflow(math.unsigned_add_delta(input, &delta.minus())),
                    ) {
                        Ok(v) => v,
                        Err(e) => {
                            return Err(e);
                        },
                    };
                    let mut new_history = history;
                    // A failure that underflows even without the base fails
                    // against every base and is not recorded.
                    if let Some(underflow_delta) = underflow_delta {
                        new_history.record_underflow(underflow_delta);
                    }
                    self.state = AggregatorState::Delta {
                        speculative_start_value,
                        delta,
                        history: new_history,
                    };
                    Ok(false)
                } else {
                    let new_delta = match expect_ok(
                        math.signed_add(&delta, &SignedU128::Negative(input)),
                    ) {
                        Ok(v) => v,
                        Err(e) => {
                            return Err(e);
                        },
                    };
                    let mut new_history = history;
                    new_history.record_success(new_delta);
                    self.state = AggregatorState::Delta {
                        speculative_start_value,
                        delta: new_delta,
                        history: new_history,
                    };
                    Ok(true)
                }
            },
        }
    }

    /// Reads the aggregator's most recent value: the known value in Data
    /// mode, otherwise `base + delta` over an aggregated read of the base.
    /// The recorded history is validated against the base it reads; a base
    /// it does not hold of fails the transaction for re-execution. After a
    /// successful call the start value is safe for user-visible reads.
    pub fn read_most_recent_aggregator_value<R: AggregatorResolver>(
        &mut self,
        resolver: &R,
    ) -> (r: Result<u128, AggregatorError>)
        requires
            old(self).wf(),
        ensures
            final(self).wf(),
            final(self).id == old(self).id,
            final(self).max_value == old(self).max_value,
            ({
                let (res, st) = spec_read_most_recent(
                    *old(self),
                    spec_storage_read(old(self).id, *resolver, AggregatorReadMode::Aggregated),
                );
                r == res && final(self).state == st
            }),
    {
        let math = BoundedMath::new(self.max_value);
        match self.state {
            AggregatorState::Data { value } => Ok(value),
            AggregatorState::Delta { speculative_start_value, delta, history } => {
                if let SpeculativeStartValue::AggregatedValue(start_value) =
                    speculative_start_value {
                    return expect_ok(math.unsigned_add_delta(start_value, &delta));
                }
                let value_from_storage = match &self.id {
                    AggregatorVersionedID::V1(state_key) => {
                        match resolver.get_aggregator_v1_value(
                            state_key,
                            AggregatorReadMode::Aggregated,
                        ) {
                            Ok(Some(v)) => v,
                            Ok(None) => {
                                return Err(extension_error());
                            },
                            Err(_) => {
                                return Err(extension_error());
                            },
                        }
                    },
                    AggregatorVersionedID::V2(id) => {
                        match resolver.get_aggregator_v2_value(
                            id,
                            AggregatorReadMode::Aggregated,
                        ) {
                            Ok(v) => v,
                            Err(_) => {
                                return Err(extension_error());
                            },
                        }
                    },
                };
                match history.validate_against_base_value(value_from_storage, self.max_value) {
                    Ok(()) => (),
                    Err(e) => {
                        return Err(e);
                    },
                }
                // Applying the delta cannot fail once the base validated.
                let result = match expect_ok(
                    math.unsigned_add_delta(value_from_storage, &delta),
                ) {
                    Ok(v) => v,
                    Err(e) => {
                        return Err(e);
                    },
                };
                self.state = AggregatorState::Delta {
                    speculative_start_value: SpeculativeStartValue::AggregatedValue(
                        value_from_storage,
                    ),
                    delta,
                    history,
                };
                Ok(result)
            },
        }
    }

    /// Unpacks the aggregator into its bound and final state for the change
    /// set.
    pub fn into(self) -> (r: (u128, AggregatorState))
        ensures
            r.0 == self.max_value,
            r.1 == self.state,
    {
        (self.max_value, self.state)
    }
}


/// The value a snapshot holds.
#[derive(Debug, Clone, PartialEq, Eq)]
pub enum SnapshotValue {
    Integer(u128),
    String(Vec<u8>),
}

/// How a derived snapshot value is computed from its base.
#[derive(Debug, Clone, PartialEq, Eq)]
pub enum DerivedFormula {
    Identity,
    Concat { prefix: Vec<u8>, suffix: Vec<u8> },
}

/// The state of one immutable per-transaction snapshot. Once created, a
/// snapshot never changes; a mutation would have to create a new one.
#[derive(Debug, PartialEq, Eq)]
pub enum AggregatorSnapshotState {
    /// Created in this transaction with an explicit value.
    Data { value: SnapshotValue },
    /// Created in this transaction by snapshotting a delta-mode aggregator.
    Delta { base_aggregator: AggregatorID, delta: SignedU128, formula: DerivedFormula },
    /// Accessed in this transaction by identifier, seeded with an aggregated
    /// read.
    Reference { speculative_value: SnapshotValue },
}

/// One snapshot with the identifier it was created under.
#[derive(Debug)]
pub struct AggregatorSnapshot {
    pub id: AggregatorID,
    pub state: AggregatorSnapshotState,
}

impl AggregatorSnapshot {
    /// Unpacks the snapshot into its state for the change set.
    pub fn into(self) -> (r: AggregatorSnapshotState)
        ensures
            r == self.state,
    {
        self.state
    }
}

/// The snapshot state that snapshotting an aggregator in state `state` under
/// base identifier `id` produces: a known value is copied, a delta is
/// recorded against its base aggregator.
pub open spec fn spec_snapshot_state(id: AggregatorID, state: AggregatorState) -> AggregatorSnapshotState {
    match state {
        AggregatorState::Data { value } => AggregatorSnapshotState::Data {
            value: SnapshotValue::Integer(value),
        },
        AggregatorState::Delta { delta, .. } => AggregatorSnapshotState::Delta {
            base_aggregator: id,
            delta,
            formula: DerivedFormula::Identity,
        },
    }
}

/// The aggregator an identifier first maps to when a transaction retrieves
/// it: delta mode over a base that has not been read.
pub open spec fn fresh_aggregator(id: AggregatorVersionedID, max_value: u128) -> Aggregator {
    Aggregator {
        id,
        max_value,
        state: AggregatorState::Delta {
            speculative_start_value: SpeculativeStartValue::Unset,
            delta: SignedU128::Positive(0),
            history: DeltaHistory::empty(),
        },
    }
}


/// The per-transaction registry: every aggregator and snapshot one
/// transaction has touched, the identifiers it created and destroyed, and the
/// counter that mints fresh identifiers. Drained wholesale into the change
/// set at commit; discarded wholesale on abort.
pub struct AggregatorData {
    /// Identifiers created in this transaction, sorted; an aggregator both
    /// created and destroyed here leaves no trace in the change set.
    new_aggregators: Vec<AggregatorVersionedID>,
    /// State keys of aggregators destroyed in this transaction, sorted.
    destroyed_aggregators: Vec<StateKey>,
    /// Every aggregator this transaction works on, sorted by identifier.
    aggregators: Vec<(AggregatorVersionedID, Aggregator)>,
    /// Every snapshot this transaction created, sorted by identifier.
    aggregator_snapshots: Vec<(AggregatorID, AggregatorSnapshot)>,
    /// Seed for minted identifiers; supplied by the caller, pre-incremented
    /// before each use.
    pub id_counter: u64,
}

impl AggregatorData {
    pub closed spec fn aggregator_entries(self) -> Seq<(AggregatorVersionedID, Aggregator)> {
        self.aggregators@
    }

    /// The identifier counter's current value.
    pub closed spec fn spec_id_counter(self) -> u64 {
        self.id_counter
    }

    pub closed spec fn new_aggregator_entries(self) -> Seq<AggregatorVersionedID> {
        self.new_aggregators@
    }

    pub closed spec fn destroyed_entries(self) -> Seq<StateKey> {
        self.destroyed_aggregators@
    }

    pub closed spec fn snapshot_entries(self) -> Seq<(AggregatorID, AggregatorSnapshot)> {
        self.aggregator_snapshots@
    }

    /// The aggregators as a mapping from identifier values.
    pub open spec fn aggregator_map(self) -> Map<VersionedIdView, Aggregator> {
        agg_map(self.aggregator_entries())
    }

    /// The identifiers created in this transaction.
    pub open spec fn new_aggregator_set(self) -> Set<VersionedIdView> {
        vid_set(self.new_aggregator_entries())
    }

    /// The state keys destroyed in this transaction.
    pub open spec fn destroyed_set(self) -> Set<Seq<u8>> {
        skey_set(self.destroyed_entries())
    }

    /// The snapshots as a mapping from identifier values.
    pub open spec fn snapshot_map(self) -> Map<u64, AggregatorSnapshot> {
        snap_map(self.snapshot_entries())
    }

    /// All four collections are sorted strictly, so each holds each key once
    /// and the change set drained from them is deterministic; and every
    /// snapshot identifier was minted from the counter, so the next minted
    /// one is fresh.
    pub open spec fn wf(self) -> bool {
        &&& agg_sorted(self.aggregator_entries())
        &&& vids_sorted(self.new_aggregator_entries())
        &&& skeys_sorted(self.destroyed_entries())
        &&& snap_sorted(self.snapshot_entries())
        &&& forall|i: int|
            0 <= i < self.snapshot_entries().len()
                ==> #[trigger] self.snapshot_entries()[i].0.0 <= self.spec_id_counter()
    }

    /// An empty registry whose identifier counter starts at `id_counter`.
    pub fn new(id_counter: u64) -> (r: AggregatorData)
        ensures
            r.wf(),
            r.spec_id_counter() == id_counter,
            r.aggregator_entries() == Seq::<(AggregatorVersionedID, Aggregator)>::empty(),
            r.new_aggregator_entries() == Seq::<AggregatorVersionedID>::empty(),
            r.destroyed_entries() == Seq::<StateKey>::empty(),
            r.snapshot_entries() == Seq::<(AggregatorID, AggregatorSnapshot)>::empty(),
            r.aggregator_map() == Map::<VersionedIdView, Aggregator>::empty(),
            r.new_aggregator_set() == Set::<VersionedIdView>::empty(),
            r.destroyed_set() == Set::<Seq<u8>>::empty(),
            r.snapshot_map() == Map::<u64, AggregatorSnapshot>::empty(),
    {
        let r = AggregatorData {
            new_aggregators: Vec::new(),
            destroyed_aggregators: Vec::new(),
            aggregators: Vec::new(),
            aggregator_snapshots: Vec::new(),
            id_counter,
        };
        proof {
            assert(r.aggregator_map() =~= Map::<VersionedIdView, Aggregator>::empty());
            assert(r.new_aggregator_set() =~= Set::<VersionedIdView>::empty());
            assert(r.destroyed_set() =~= Set::<Seq<u8>>::empty());
            assert(r.snapshot_map() =~= Map::<u64, AggregatorSnapshot>::empty());
        }
        r
    }

    /// The number of aggregators this transaction works on.
    pub fn num_aggregators(&self) -> (r: u128)
        ensures
            r == self.aggregator_entries().len() as u128,
    {
        self.aggregators.len() as u128
    }

    /// A mutable handle on the aggregator under `id`. A transaction that has
    /// not touched `id` yet gets a fresh delta-mode entry; the resolver is
    /// not consulted.
    pub fn get_aggregator(&mut self, id: AggregatorVersionedID, max_value: u128) -> (r: Result<
        &mut Aggregator,
        AggregatorError,
    >)
        requires
            old(self).wf(),
        ensures
            r matches Ok(a) && ({
                &&& *a == (if old(self).aggregator_map().contains_key(id@) {
                    old(self).aggregator_map()[id@]
                } else {
                    fresh_aggregator(id, max_value)
                })
                &&& final(self).wf()
                &&& final(self).aggregator_map() == old(self).aggregator_map().insert(
                    id@,
                    *final(a),
                )
                &&& final(self).new_aggregator_entries() == old(self).new_aggregator_entries()
                &&& final(self).destroyed_entries() == old(self).destroyed_entries()
                &&& final(self).snapshot_entries() == old(self).snapshot_entries()
                &&& final(self).spec_id_counter() == old(self).spec_id_counter()
            }),
    {
        let pos = agg_find(&self.aggregators, &id);
        let len = self.aggregators.len();
        let ghost pre = self.aggregators@;
        let found = pos < len && matches!(
            crate::types::vid_compare(&self.aggregators[pos].0, &id),
            KeyOrder::Equal
        );
        if !found {
            proof {
                if pos < pre.len() && !vid_lt(id@, pre[pos as int].0@) {
                    crate::types::lemma_vid_lt_connected(pre[pos as int].0@, id@);
                }
            }
            let entry_key = id.clone();
            let aggregator = Aggregator {
                id,
                max_value,
                state: AggregatorState::Delta {
                    speculative_start_value: SpeculativeStartValue::Unset,
                    delta: SignedU128::Positive(0),
                    history: DeltaHistory::new(),
                },
            };
            proof {
                assert forall|j: int| pos <= j < pre.len() implies vid_lt(entry_key@, pre[j].0@) by {
                    if j > pos {
                        crate::types::lemma_vid_lt_transitive(entry_key@, pre[pos as int].0@, pre[j].0@);
                    }
                }
                lemma_agg_insert(pre, pos as int, (entry_key, aggregator));
            }
            self.aggregators.insert(pos, (entry_key, aggregator));
        } else {
            proof {
                lemma_agg_at(pre, pos as int);
            }
        }
        let ghost mid = self.aggregators@;
        proof {
            broadcast use lemma_agg_update, lemma_map_double_insert;

            lemma_agg_at(mid, pos as int);
        }
        let entry = &mut self.aggregators[pos];
        Ok(&mut entry.1)
    }

    /// Creates the aggregator under `id` anew: its value is known to be zero,
    /// so it starts in Data mode, and `id` is remembered as created here.
    pub fn create_new_aggregator(&mut self, id: AggregatorVersionedID, max_value: u128)
        requires
            old(self).wf(),
        ensures
            final(self).wf(),
            final(self).aggregator_map() == old(self).aggregator_map().insert(
                id@,
                Aggregator { id, max_value, state: AggregatorState::Data { value: 0 } },
            ),
            final(self).new_aggregator_set() == old(self).new_aggregator_set().insert(id@),
            final(self).destroyed_entries() == old(self).destroyed_entries(),
            final(self).snapshot_entries() == old(self).snapshot_entries(),
            final(self).spec_id_counter() == old(self).spec_id_counter(),
    {
        let entry_key = id.clone();
        let set_key = id.clone();
        let aggregator = Aggregator { id, max_value, state: AggregatorState::Data { value: 0 } };
        let pos = agg_find(&self.aggregators, &entry_key);
        let len = self.aggregators.len();
        let ghost pre = self.aggregators@;
        let found = pos < len && matches!(
            crate::types::vid_compare(&self.aggregators[pos].0, &entry_key),
            KeyOrder::Equal
        );
        if found {
            proof {
                lemma_agg_at(pre, pos as int);
                broadcast use lemma_agg_update;

            }
            let entry = &mut self.aggregators[pos];
            entry.1 = aggregator;
        } else {
            proof {
                if pos < pre.len() && !vid_lt(entry_key@, pre[pos as int].0@) {
                    crate::types::lemma_vid_lt_connected(pre[pos as int].0@, entry_key@);
                }
                assert forall|j: int| pos <= j < pre.len() implies vid_lt(entry_key@, pre[j].0@) by {
                    if j > pos {
                        crate::types::lemma_vid_lt_transitive(
                            entry_key@,
                            pre[pos as int].0@,
                            pre[j].0@,
                        );
                    }
                }
                lemma_agg_insert(pre, pos as int, (entry_key, aggregator));
            }
            self.aggregators.insert(pos, (entry_key, aggregator));
        }
        let ghost vids_pre = self.new_aggregators@;
        let vid_pos = crate::ordered::vids_find(&self.new_aggregators, &set_key);
        let vids_len = self.new_aggregators.len();
        let vid_found = vid_pos < vids_len && matches!(
            crate::types::vid_compare(&self.new_aggregators[vid_pos], &set_key),
            KeyOrder::Equal
        );
        if !vid_found {
            proof {
                if vid_pos < vids_pre.len() && !vid_lt(set_key@, vids_pre[vid_pos as int]@) {
                    crate::types::lemma_vid_lt_connected(vids_pre[vid_pos as int]@, set_key@);
                }
                assert forall|j: int|
                    vid_pos <= j < vids_pre.len() implies vid_lt(set_key@, vids_pre[j]@) by {
                    if j > vid_pos {
                        crate::types::lemma_vid_lt_transitive(
                            set_key@,
                            vids_pre[vid_pos as int]@,
                            vids_pre[j]@,
                        );
                    }
                }
                crate::ordered::lemma_vids_insert(vids_pre, vid_pos as int, set_key);
            }
            self.new_aggregators.insert(vid_pos, set_key);
        } else {
            proof {
                crate::ordered::lemma_vids_at(vids_pre, vid_pos as int);
                assert(vid_set(vids_pre).insert(set_key@) =~= vid_set(vids_pre));
            }
        }
    }

    /// Removes the aggregator under `id`, which must be a V1 identifier. One
    /// created in this transaction simply disappears; any other has its state
    /// key recorded as destroyed for the change set.
    pub fn remove_aggregator_v1(&mut self, id: AggregatorVersionedID)
        requires
            old(self).wf(),
            id@ matches VersionedIdView::V1(_),
        ensures
            final(self).wf(),
            final(self).aggregator_map() == old(self).aggregator_map().remove(id@),
            final(self).snapshot_entries() == old(self).snapshot_entries(),
            final(self).spec_id_counter() == old(self).spec_id_counter(),
            old(self).new_aggregator_set().contains(id@) ==> {
                &&& final(self).new_aggregator_set() == old(self).new_aggregator_set().remove(id@)
                &&& final(self).destroyed_entries() == old(self).destroyed_entries()
            },
            !old(self).new_aggregator_set().contains(id@) ==> {
                &&& final(self).new_aggregator_entries() == old(self).new_aggregator_entries()
                &&& final(self).destroyed_set() == old(self).destroyed_set().insert(id@->V1_0)
            },
    {
        let pos = agg_find(&self.aggregators, &id);
        let len = self.aggregators.len();
        let ghost pre = self.aggregators@;
        let found = pos < len && matches!(
            crate::types::vid_compare(&self.aggregators[pos].0, &id),
            KeyOrder::Equal
        );
        if found {
            proof {
                crate::ordered::lemma_agg_remove(pre, pos as int);
            }
            self.aggregators.remove(pos);
        } else {
            proof {
                assert(agg_map(pre).remove(id@) =~= agg_map(pre));
            }
        }
        let ghost vids_pre = self.new_aggregators@;
        let vid_pos = crate::ordered::vids_find(&self.new_aggregators, &id);
        let vids_len = self.new_aggregators.len();
        let vid_found = vid_pos < vids_len && matches!(
            crate::types::vid_compare(&self.new_aggregators[vid_pos], &id),
            KeyOrder::Equal
        );
        if vid_found {
            proof {
                crate::ordered::lemma_vids_at(vids_pre, vid_pos as int);
                crate::ordered::lemma_vids_remove(vids_pre, vid_pos as int);
                assert(vid_set(vids_pre).remove(vids_pre[vid_pos as int]@) =~= vid_set(
                    vids_pre,
                ).remove(id@));
            }
            self.new_aggregators.remove(vid_pos);
        } else {
            // This spares cloning the state key: `id` itself is unpacked.
            let state_key = match id {
                AggregatorVersionedID::V1(key) => key,
                AggregatorVersionedID::V2(_) => vstd::pervasive::unreached(),
            };
            let ghost skeys_pre = self.destroyed_aggregators@;
            let key_pos = crate::ordered::skeys_find(&self.destroyed_aggregators, &state_key);
            let skeys_len = self.destroyed_aggregators.len();
            let key_found = key_pos < skeys_len && matches!(
                crate::types::state_key_compare(&self.destroyed_aggregators[key_pos], &state_key),
                KeyOrder::Equal
            );
            if !key_found {
                proof {
                    if key_pos < skeys_pre.len() && !crate::types::bytes_lt(
                        state_key@,
                        skeys_pre[key_pos as int]@,
                    ) {
                        crate::types::lemma_bytes_lt_connected(
                            skeys_pre[key_pos as int]@,
                            state_key@,
                        );
                    }
                    assert forall|j: int|
                        key_pos <= j < skeys_pre.len() implies crate::types::bytes_lt(
                        state_key@,
                        skeys_pre[j]@,
                    ) by {
                        if j > key_pos {
                            crate::types::lemma_bytes_lt_transitive(
                                state_key@,
                                skeys_pre[key_pos as int]@,
                                skeys_pre[j]@,
                            );
                        }
                    }
                    crate::ordered::lemma_skeys_insert(skeys_pre, key_pos as int, state_key);
                }
                self.destroyed_aggregators.insert(key_pos, state_key);
            } else {
                proof {
                    assert(skeys_has(skeys_pre, state_key@));
                    assert(skey_set(skeys_pre).insert(state_key@) =~= skey_set(skeys_pre));
                }
            }
        }
    }

    /// Mints a fresh identifier: the counter is pre-incremented, so two
    /// identical transactions given the same seed mint the same identifiers.
    pub fn generate_id(&mut self) -> (r: AggregatorID)
        requires
            old(self).spec_id_counter() < u64::MAX,
        ensures
            final(self).spec_id_counter() == old(self).spec_id_counter() + 1,
            r == AggregatorID((old(self).spec_id_counter() + 1) as u64),
            final(self).aggregator_entries() == old(self).aggregator_entries(),
            final(self).new_aggregator_entries() == old(self).new_aggregator_entries(),
            final(self).destroyed_entries() == old(self).destroyed_entries(),
            final(self).snapshot_entries() == old(self).snapshot_entries(),
            old(self).wf() ==> final(self).wf(),
    {
        self.id_counter = self.id_counter + 1;
        AggregatorID::new(self.id_counter)
    }

    /// Snapshots the V2 aggregator under `id` into a fresh snapshot
    /// identifier: a known value is copied, a delta is recorded against its
    /// base aggregator. The identifier is minted before the lookup, so a
    /// failed lookup still advances the counter.
    pub fn snapshot(&mut self, id: AggregatorID) -> (r: Result<AggregatorID, AggregatorError>)
        requires
            old(self).wf(),
            old(self).spec_id_counter() < u64::MAX,
        ensures
            final(self).wf(),
            final(self).spec_id_counter() == old(self).spec_id_counter() + 1,
            final(self).aggregator_entries() == old(self).aggregator_entries(),
            final(self).new_aggregator_entries() == old(self).new_aggregator_entries(),
            final(self).destroyed_entries() == old(self).destroyed_entries(),
            ({
                let key = VersionedIdView::V2(id.0);
                let fresh_id = AggregatorID((old(self).spec_id_counter() + 1) as u64);
                if old(self).aggregator_map().contains_key(key) {
                    &&& r == Ok::<AggregatorID, AggregatorError>(fresh_id)
                    &&& final(self).snapshot_map() == old(self).snapshot_map().insert(
                        fresh_id.0,
                        AggregatorSnapshot {
                            id: fresh_id,
                            state: spec_snapshot_state(
                                id,
                                old(self).aggregator_map()[key].state,
                            ),
                        },
                    )
                } else {
                    &&& r == Err::<AggregatorID, AggregatorError>(AggregatorError::CodeInvariant)
                    &&& final(self).snapshot_entries() == old(self).snapshot_entries()
                }
            }),
    {
        let snapshot_id = self.generate_id();
        let vid = AggregatorVersionedID::V2(id);
        let pos = agg_find(&self.aggregators, &vid);
        let len = self.aggregators.len();
        let ghost entries = self.aggregators@;
        let found = pos < len && matches!(
            crate::types::vid_compare(&self.aggregators[pos].0, &vid),
            KeyOrder::Equal
        );
        if !found {
            return Err(code_invariant_error());
        }
        proof {
            lemma_agg_at(entries, pos as int);
        }
        let snapshot_state = match self.aggregators[pos].1.state {
            AggregatorState::Data { value } => AggregatorSnapshotState::Data {
                value: SnapshotValue::Integer(value),
            },
            AggregatorState::Delta { delta, .. } => AggregatorSnapshotState::Delta {
                base_aggregator: id,
                delta,
                formula: DerivedFormula::Identity,
            },
        };
        let snapshot = AggregatorSnapshot { id: snapshot_id, state: snapshot_state };
        let ghost snaps_pre = self.aggregator_snapshots@;
        // Every existing snapshot identifier is below the freshly minted one,
        // so the new entry belongs at the end.
        let snap_pos = self.aggregator_snapshots.len();
        proof {
            crate::ordered::lemma_snap_insert(snaps_pre, snap_pos as int, (snapshot_id, snapshot));
        }
        self.aggregator_snapshots.insert(snap_pos, (snapshot_id, snapshot));
        Ok(snapshot_id)
    }

    /// Drains the registry into the change set: the identifiers created, the
    /// state keys destroyed, and the final aggregator and snapshot states,
    /// each sorted by identifier.
    pub fn into(self) -> (r: (
        Vec<AggregatorVersionedID>,
        Vec<StateKey>,
        Vec<(AggregatorVersionedID, Aggregator)>,
        Vec<(AggregatorID, AggregatorSnapshot)>,
    ))
        ensures
            r.0@ == self.new_aggregator_entries(),
            r.1@ == self.destroyed_entries(),
            r.2@ == self.aggregator_entries(),
            r.3@ == self.snapshot_entries(),
    {
        (
            self.new_aggregators,
            self.destroyed_aggregators,
            self.aggregators,
            self.aggregator_snapshots,
        )
    }
}

impl Default for AggregatorData {
    /// An empty registry whose identifier counter starts at zero.
    fn default() -> (r: AggregatorData)
        ensures
            r.wf(),
            r.spec_id_counter() == 0,
            r.aggregator_map() == Map::<VersionedIdView, Aggregator>::empty(),
            r.new_aggregator_set() == Set::<VersionedIdView>::empty(),
            r.destroyed_set() == Set::<Seq<u8>>::empty(),
            r.snapshot_map() == Map::<u64, AggregatorSnapshot>::empty(),
    {
        AggregatorData::new(0)
    }
}

} // verus!

