//! The laws tying the delta history to re-execution.
//!
//! `try_add` and `try_sub` on a delta-mode aggregator follow `delta_step`,
//! and on a known value they follow `data_step`. Running a whole operation
//! sequence through these steps shows that the four history scalars are a
//! sufficient record: a base value validates against the history reached by
//! a run iff re-executing the same operations from that known base value
//! reproduces the run's outcomes exactly.

use crate::aggregator_extension::{spec_try_op, Aggregator, AggregatorState, SpeculativeStartValue};
use crate::bounded_math::SignedU128;
use crate::delta_math::{data_step, delta_step, DeltaHistory, DeltaOp};
use crate::errors::AggregatorError;
use vstd::prelude::*;

verus! {

broadcast use vstd::seq::group_seq_axioms;

/// The final delta and history of running `ops` in delta mode against the
/// speculative base `base`, starting from delta zero and the empty history.
pub open spec fn run_delta(base: u128, max_value: u128, ops: Seq<DeltaOp>) -> (int, DeltaHistory)
    decreases ops.len(),
{
    if ops.len() == 0 {
        (0, DeltaHistory::empty())
    } else {
        let (d, h) = run_delta(base, max_value, ops.drop_last());
        let (ok, d2, h2) = delta_step(base, max_value, d, h, ops.last());
        (d2, h2)
    }
}

/// The outcomes of running `ops` in delta mode against `base`.
pub open spec fn delta_trace(base: u128, max_value: u128, ops: Seq<DeltaOp>) -> Seq<bool>
    decreases ops.len(),
{
    if ops.len() == 0 {
        Seq::empty()
    } else {
        let (d, h) = run_delta(base, max_value, ops.drop_last());
        let (ok, d2, h2) = delta_step(base, max_value, d, h, ops.last());
        delta_trace(base, max_value, ops.drop_last()).push(ok)
    }
}

/// The final value of running `ops` on the known value `value`.
pub open spec fn run_data(value: u128, max_value: u128, ops: Seq<DeltaOp>) -> u128
    decreases ops.len(),
{
    if ops.len() == 0 {
        value
    } else {
        let prior = run_data(value, max_value, ops.drop_last());
        let (ok, v2) = data_step(prior, max_value, ops.last());
        v2
    }
}

/// The outcomes of running `ops` on the known value `value`.
pub open spec fn data_trace(value: u128, max_value: u128, ops: Seq<DeltaOp>) -> Seq<bool>
    decreases ops.len(),
{
    if ops.len() == 0 {
        Seq::empty()
    } else {
        let prior = run_data(value, max_value, ops.drop_last());
        let (ok, v2) = data_step(prior, max_value, ops.last());
        data_trace(value, max_value, ops.drop_last()).push(ok)
    }
}

/// A known value stays within `[0, max_value]` under any run.
proof fn lemma_run_data_in_range(value: u128, max_value: u128, ops: Seq<DeltaOp>)
    requires
        value <= max_value,
    ensures
        run_data(value, max_value, ops) <= max_value,
    decreases ops.len(),
{
    if ops.len() > 0 {
        lemma_run_data_in_range(value, max_value, ops.drop_last());
    }
}

/// Both traces are as long as the run.
proof fn lemma_trace_lens(base: u128, b: u128, max_value: u128, ops: Seq<DeltaOp>)
    ensures
        delta_trace(base, max_value, ops).len() == ops.len(),
        data_trace(b, max_value, ops).len() == ops.len(),
    decreases ops.len(),
{
    if ops.len() > 0 {
        lemma_trace_lens(base, b, max_value, ops.drop_last());
    }
}

/// Two pushes are equal exactly when the sequences and the pushed elements
/// are.
proof fn lemma_push_eq<A>(s1: Seq<A>, s2: Seq<A>, a1: A, a2: A)
    requires
        s1.len() == s2.len(),
    ensures
        (s1.push(a1) == s2.push(a2)) == (s1 == s2 && a1 == a2),
{
    if s1.push(a1) == s2.push(a2) {
        assert(s1 =~= s2) by {
            assert forall|i: int| 0 <= i < s1.len() implies s1[i] == s2[i] by {
                assert(s1.push(a1)[i] == s1[i]);
                assert(s2.push(a2)[i] == s2[i]);
            }
        }
        assert(a1 == s1.push(a1)[s1.len() as int]);
        assert(a2 == s2.push(a2)[s2.len() as int]);
    }
    if s1 == s2 && a1 == a2 {
        assert(s1.push(a1) =~= s2.push(a2));
    }
}

/// Law: every delta and history reachable by running operations in delta
/// mode validates against the base they were recorded against, and the
/// running delta stays within the achieved extrema.
pub proof fn lemma_reachable_history_validates(base: u128, max_value: u128, ops: Seq<DeltaOp>)
    requires
        base <= max_value,
    ensures
        ({
            let (d, h) = run_delta(base, max_value, ops);
            h.validates(base, max_value) && h.bounds_delta(d)
        }),
    decreases ops.len(),
{
    if ops.len() > 0 {
        lemma_reachable_history_validates(base, max_value, ops.drop_last());
    }
}

/// The inductive heart of the replay equivalence: if the history of a run
/// accepts `b`, re-executing from `b` reproduces the outcomes and tracks the
/// delta; and if the outcomes agree, the history accepts `b`.
proof fn lemma_replay_aux(base: u128, b: u128, max_value: u128, ops: Seq<DeltaOp>)
    requires
        base <= max_value,
        b <= max_value,
    ensures
        ({
            let (d, h) = run_delta(base, max_value, ops);
            let val = run_data(b, max_value, ops);
            let td = delta_trace(base, max_value, ops);
            let tb = data_trace(b, max_value, ops);
            &&& (h.validates(b, max_value) ==> tb == td && val == b + d)
            &&& (tb == td ==> h.validates(b, max_value))
        }),
    decreases ops.len(),
{
    if ops.len() == 0 {
        assert(data_trace(b, max_value, ops) =~= delta_trace(base, max_value, ops));
    } else {
        let pre = ops.drop_last();
        let op = ops.last();
        lemma_replay_aux(base, b, max_value, pre);
        lemma_reachable_history_validates(base, max_value, pre);
        lemma_run_data_in_range(b, max_value, pre);
        lemma_trace_lens(base, b, max_value, pre);
        let (d0, h0) = run_delta(base, max_value, pre);
        let val0 = run_data(b, max_value, pre);
        let td0 = delta_trace(base, max_value, pre);
        let tb0 = data_trace(b, max_value, pre);
        let (okd, d1, h1) = delta_step(base, max_value, d0, h0, op);
        let (okb, val1) = data_step(val0, max_value, op);
        lemma_push_eq(tb0, td0, okb, okd);
        // Tightening the history never admits a base the old history
        // rejected.
        assert(h1.validates(b, max_value) ==> h0.validates(b, max_value));
        if h1.validates(b, max_value) {
            // The prefix accepts `b`, so its outcomes agree and the data run
            // sits at `b + d0`; one more step agrees by the new bound.
            assert(val0 == b + d0);
            match op {
                DeltaOp::Add(k) => {
                    assert(okb == okd && val1 == b + d1);
                },
                DeltaOp::Sub(k) => {
                    assert(okb == okd && val1 == b + d1);
                },
            }
        }
        if data_trace(b, max_value, ops) == delta_trace(base, max_value, ops) {
            assert(tb0 == td0 && okb == okd);
            assert(h0.validates(b, max_value));
            assert(val0 == b + d0);
            match op {
                DeltaOp::Add(k) => {
                    assert(h1.validates(b, max_value));
                },
                DeltaOp::Sub(k) => {
                    assert(h1.validates(b, max_value));
                },
            }
        }
    }
}


/// One operation as `try_add` / `try_sub` perform it. The read the resolver
/// would answer only matters while the start value is unset, so any stand-in
/// serves for an aggregator whose base is already read.
pub open spec fn machine_step(agg: Aggregator, op: DeltaOp) -> Aggregator {
    Aggregator { state: spec_try_op(agg, Err(AggregatorError::Extension), op).1, ..agg }
}

/// The aggregator after running `ops` through the state machine.
pub open spec fn machine_run(agg: Aggregator, ops: Seq<DeltaOp>) -> Aggregator
    decreases ops.len(),
{
    if ops.len() == 0 {
        agg
    } else {
        machine_step(machine_run(agg, ops.drop_last()), ops.last())
    }
}

/// The outcomes of running `ops` through the state machine.
pub open spec fn machine_trace(agg: Aggregator, ops: Seq<DeltaOp>) -> Seq<
    Result<bool, AggregatorError>,
>
    decreases ops.len(),
{
    if ops.len() == 0 {
        Seq::empty()
    } else {
        machine_trace(agg, ops.drop_last()).push(
            spec_try_op(machine_run(agg, ops.drop_last()), Err(AggregatorError::Extension), ops.last()).0,
        )
    }
}

/// Law: the state machine realizes the replay model. Running any operations
/// on an aggregator that has just read its base `v` errs nowhere, reports
/// exactly the outcomes of the delta-mode run against `v`, and ends with
/// exactly its delta and history.
pub proof fn lemma_machine_matches_replay(
    id: crate::types::AggregatorVersionedID,
    v: u128,
    max_value: u128,
    ops: Seq<DeltaOp>,
)
    requires
        v <= max_value,
    ensures
        ({
            let start = Aggregator {
                id,
                max_value,
                state: AggregatorState::Delta {
                    speculative_start_value: SpeculativeStartValue::LastCommittedValue(v),
                    delta: SignedU128::Positive(0),
                    history: DeltaHistory::empty(),
                },
            };
            let (d, h) = run_delta(v, max_value, ops);
            &&& machine_run(start, ops).state == AggregatorState::Delta {
                speculative_start_value: SpeculativeStartValue::LastCommittedValue(v),
                delta: SignedU128::from_int(d),
                history: h,
            }
            &&& machine_run(start, ops).id == id
            &&& machine_run(start, ops).max_value == max_value
            &&& machine_trace(start, ops) == delta_trace(v, max_value, ops).map_values(
                |ok: bool| Ok::<bool, AggregatorError>(ok),
            )
        }),
    decreases ops.len(),
{
    let start = Aggregator {
        id,
        max_value,
        state: AggregatorState::Delta {
            speculative_start_value: SpeculativeStartValue::LastCommittedValue(v),
            delta: SignedU128::Positive(0),
            history: DeltaHistory::empty(),
        },
    };
    if ops.len() == 0 {
        assert(machine_trace(start, ops) =~= delta_trace(v, max_value, ops).map_values(
            |ok: bool| Ok::<bool, AggregatorError>(ok),
        ));
    } else {
        let pre = ops.drop_last();
        let op = ops.last();
        lemma_machine_matches_replay(id, v, max_value, pre);
        lemma_reachable_history_validates(v, max_value, pre);
        lemma_trace_lens(v, v, max_value, pre);
        lemma_trace_lens(v, v, max_value, ops);
        let (d0, h0) = run_delta(v, max_value, pre);
        // The achieved extrema bound the running delta, so it fits the
        // sign-magnitude form and the current value sits in range.
        assert(SignedU128::from_int(d0).as_int() == d0);
        assert(machine_trace(start, ops) =~= delta_trace(v, max_value, ops).map_values(
            |ok: bool| Ok::<bool, AggregatorError>(ok),
        )) by {
            let f = |ok: bool| Ok::<bool, AggregatorError>(ok);
            assert(delta_trace(v, max_value, pre).map_values(f).len() == delta_trace(
                v,
                max_value,
                pre,
            ).len());
            assert forall|i: int|
                0 <= i < ops.len() implies machine_trace(start, ops)[i] == delta_trace(
                v,
                max_value,
                ops,
            ).map_values(f)[i] by {
                assert(delta_trace(v, max_value, ops).map_values(f)[i] == f(
                    delta_trace(v, max_value, ops)[i],
                ));
                if i < ops.len() - 1 {
                    assert(machine_trace(start, ops)[i] == machine_trace(start, pre)[i]);
                    assert(delta_trace(v, max_value, ops)[i] == delta_trace(v, max_value, pre)[i]);
                    assert(machine_trace(start, pre)[i] == delta_trace(v, max_value, pre).map_values(
                        f,
                    )[i]);
                    assert(delta_trace(v, max_value, pre).map_values(f)[i] == f(
                        delta_trace(v, max_value, pre)[i],
                    ));
                } else {
                    assert(delta_trace(v, max_value, ops)[i] == delta_step(
                        v,
                        max_value,
                        run_delta(v, max_value, pre).0,
                        run_delta(v, max_value, pre).1,
                        op,
                    ).0);
                }
            }
        }
    }
}

/// Law: a base value validates against the history of a delta-mode run iff
/// re-executing the same operations from that known base value produces the
/// same sequence of outcomes.
pub proof fn lemma_validate_iff_replay(base: u128, b: u128, max_value: u128, ops: Seq<DeltaOp>)
    requires
        base <= max_value,
        b <= max_value,
    ensures
        ({
            let (d, h) = run_delta(base, max_value, ops);
            h.validates(b, max_value) <==> data_trace(b, max_value, ops) == delta_trace(
                base,
                max_value,
                ops,
            )
        }),
{
    lemma_replay_aux(base, b, max_value, ops);
}

} // verus!
