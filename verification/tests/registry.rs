use aggregator::aggregator_extension::{
    AggregatorData, AggregatorSnapshotState, AggregatorState, DerivedFormula, SnapshotValue,
    SpeculativeStartValue,
};
use aggregator::bounded_math::SignedU128;
use aggregator::delta_math::DeltaHistory;
use aggregator::errors::AggregatorError;
use aggregator::types::{AggregatorID, AggregatorVersionedID};
use aggregator::{aggregator_v1_id_for_test, aggregator_v1_state_key_for_test, FakeAggregatorView};

#[test]
fn speculative_start_value_accessors() {
    assert_eq!(
        SpeculativeStartValue::Unset.get_any_value(),
        Err(AggregatorError::CodeInvariant)
    );
    assert_eq!(
        SpeculativeStartValue::LastCommittedValue(7).get_any_value(),
        Ok(7)
    );
    assert_eq!(
        SpeculativeStartValue::AggregatedValue(8).get_any_value(),
        Ok(8)
    );
    assert_eq!(
        SpeculativeStartValue::Unset.get_value_for_read(),
        Err(AggregatorError::CodeInvariant)
    );
    assert_eq!(
        SpeculativeStartValue::LastCommittedValue(7).get_value_for_read(),
        Err(AggregatorError::CodeInvariant)
    );
    assert_eq!(
        SpeculativeStartValue::AggregatedValue(8).get_value_for_read(),
        Ok(8)
    );
}

#[test]
fn absent_aggregator_reads_as_extension_error() {
    let test_resolver = FakeAggregatorView::default();
    let mut data = AggregatorData::default();
    let aggregator = data
        .get_aggregator(aggregator_v1_id_for_test(300), 700)
        .unwrap();
    assert_eq!(
        aggregator.try_add(&test_resolver, 100),
        Err(AggregatorError::Extension)
    );
    // A failed read leaves the fresh state untouched.
    assert_eq!(
        aggregator.state,
        AggregatorState::Delta {
            speculative_start_value: SpeculativeStartValue::Unset,
            delta: SignedU128::Positive(0),
            history: DeltaHistory::new(),
        }
    );
}

#[test]
fn oversized_input_leaves_delta_state_unchanged() {
    let mut sample_resolver = FakeAggregatorView::default();
    sample_resolver.set_from_state_key(aggregator_v1_state_key_for_test(600), 100);
    let mut data = AggregatorData::default();
    let aggregator = data
        .get_aggregator(aggregator_v1_id_for_test(600), 600)
        .unwrap();
    // An input above the bound fails before anything is read or recorded.
    assert_eq!(aggregator.try_add(&sample_resolver, 601), Ok(false));
    assert_eq!(aggregator.try_sub(&sample_resolver, 601), Ok(false));
    assert_eq!(
        aggregator.state,
        AggregatorState::Delta {
            speculative_start_value: SpeculativeStartValue::Unset,
            delta: SignedU128::Positive(0),
            history: DeltaHistory::new(),
        }
    );
}

#[test]
fn created_aggregator_never_touches_the_resolver() {
    // The resolver has no entry, so any read through it would fail; every
    // operation on a created aggregator still succeeds.
    let empty_resolver = FakeAggregatorView::default();
    let mut data = AggregatorData::default();
    data.create_new_aggregator(aggregator_v1_id_for_test(200), 200);
    let aggregator = data
        .get_aggregator(aggregator_v1_id_for_test(200), 200)
        .unwrap();
    assert_eq!(aggregator.try_add(&empty_resolver, 150), Ok(true));
    assert_eq!(aggregator.state, AggregatorState::Data { value: 150 });
    assert_eq!(
        aggregator.read_most_recent_aggregator_value(&empty_resolver),
        Ok(150)
    );
}

#[test]
fn works_at_the_largest_bound() {
    let empty_resolver = FakeAggregatorView::default();
    let mut data = AggregatorData::default();
    data.create_new_aggregator(aggregator_v1_id_for_test(1), u128::MAX);
    let aggregator = data
        .get_aggregator(aggregator_v1_id_for_test(1), u128::MAX)
        .unwrap();
    assert_eq!(aggregator.try_add(&empty_resolver, u128::MAX), Ok(true));
    assert_eq!(aggregator.state, AggregatorState::Data { value: u128::MAX });
    assert_eq!(aggregator.try_add(&empty_resolver, 1), Ok(false));
    assert_eq!(aggregator.try_sub(&empty_resolver, u128::MAX), Ok(true));
    assert_eq!(aggregator.state, AggregatorState::Data { value: 0 });
}

#[test]
fn v2_aggregator_reads_through_the_resolver() {
    let mut resolver = FakeAggregatorView::default();
    resolver.set_from_aggregator_id(AggregatorID::new(9), 50);
    let mut data = AggregatorData::default();
    let id = AggregatorVersionedID::V2(AggregatorID::new(9));
    let aggregator = data.get_aggregator(id, 600).unwrap();
    assert_eq!(aggregator.try_add(&resolver, 100), Ok(true));
    assert_eq!(
        aggregator.state,
        AggregatorState::Delta {
            speculative_start_value: SpeculativeStartValue::LastCommittedValue(50),
            delta: SignedU128::Positive(100),
            history: DeltaHistory {
                max_achieved_positive_delta: 100,
                min_achieved_negative_delta: 0,
                min_overflow_positive_delta: None,
                max_underflow_negative_delta: None,
            }
        }
    );
    assert_eq!(aggregator.read_most_recent_aggregator_value(&resolver), Ok(150));
}

#[test]
fn validated_history_matches_replay_from_the_base() {
    // Record a run against base 200, then re-execute the same operations from
    // known values: an accepted base reproduces the outcomes, a rejected base
    // diverges.
    let mut resolver = FakeAggregatorView::default();
    resolver.set_from_state_key(aggregator_v1_state_key_for_test(600), 200);
    let empty_resolver = FakeAggregatorView::default();
    let inputs: [(bool, u128); 4] = [(true, 300), (false, 400), (true, 400), (false, 500)];

    let mut data = AggregatorData::default();
    let aggregator = data
        .get_aggregator(aggregator_v1_id_for_test(600), 600)
        .unwrap();
    let mut delta_outcomes: Vec<bool> = Vec::new();
    for (is_add, input) in inputs.iter() {
        let r = if *is_add {
            aggregator.try_add(&resolver, *input)
        } else {
            aggregator.try_sub(&resolver, *input)
        };
        delta_outcomes.push(r.unwrap());
    }
    let history = *aggregator.get_history().unwrap();

    for base in [199u128, 200, 250, 300, 301] {
        let mut replay_data = AggregatorData::default();
        replay_data.create_new_aggregator(aggregator_v1_id_for_test(7), 600);
        let replay = replay_data
            .get_aggregator(aggregator_v1_id_for_test(7), 600)
            .unwrap();
        assert_eq!(replay.try_add(&empty_resolver, base), Ok(true));
        let mut replay_outcomes: Vec<bool> = Vec::new();
        for (is_add, input) in inputs.iter() {
            let r = if *is_add {
                replay.try_add(&empty_resolver, *input)
            } else {
                replay.try_sub(&empty_resolver, *input)
            };
            replay_outcomes.push(r.unwrap());
        }
        let accepted = history.validate_against_base_value(base, 600).is_ok();
        assert_eq!(accepted, replay_outcomes == delta_outcomes);
        assert_eq!(accepted, (200..=300).contains(&base));
    }
}

#[test]
fn history_validates_its_own_base() {
    let mut resolver = FakeAggregatorView::default();
    resolver.set_from_state_key(aggregator_v1_state_key_for_test(600), 200);
    let mut data = AggregatorData::default();
    let aggregator = data
        .get_aggregator(aggregator_v1_id_for_test(600), 600)
        .unwrap();
    assert_eq!(aggregator.try_add(&resolver, 300), Ok(true));
    assert_eq!(aggregator.try_sub(&resolver, 550), Ok(false));
    assert_eq!(aggregator.try_add(&resolver, 350), Ok(false));
    let history = *aggregator.get_history().unwrap();
    assert!(history.validate_against_base_value(200, 600).is_ok());
    // The aggregated read validates internally against the same history.
    assert_eq!(aggregator.read_most_recent_aggregator_value(&resolver), Ok(500));
}

#[test]
fn generate_id_counts_up_from_the_seed() {
    let mut data = AggregatorData::new(42);
    assert_eq!(data.generate_id(), AggregatorID::new(43));
    assert_eq!(data.generate_id(), AggregatorID::new(44));
    assert_eq!(data.id_counter, 44);
}

#[test]
fn num_aggregators_counts_entries() {
    let mut data = AggregatorData::default();
    assert_eq!(data.num_aggregators(), 0);
    data.create_new_aggregator(aggregator_v1_id_for_test(1), 10);
    data.create_new_aggregator(aggregator_v1_id_for_test(2), 10);
    let _ = data.get_aggregator(aggregator_v1_id_for_test(3), 10);
    assert_eq!(data.num_aggregators(), 3);
    // Retrieving an existing aggregator adds nothing.
    let _ = data.get_aggregator(aggregator_v1_id_for_test(2), 10);
    assert_eq!(data.num_aggregators(), 3);
}

#[test]
fn snapshot_of_a_known_value_copies_it() {
    let empty_resolver = FakeAggregatorView::default();
    let mut data = AggregatorData::default();
    let id = AggregatorID::new(5);
    data.create_new_aggregator(AggregatorVersionedID::V2(id), 600);
    {
        let aggregator = data
            .get_aggregator(AggregatorVersionedID::V2(id), 600)
            .unwrap();
        assert_eq!(aggregator.try_add(&empty_resolver, 123), Ok(true));
    }
    let snapshot_id = data.snapshot(id).unwrap();
    assert_eq!(snapshot_id, AggregatorID::new(1));
    let (_, _, _, snapshots) = data.into();
    assert_eq!(snapshots.len(), 1);
    assert_eq!(snapshots[0].0, snapshot_id);
    assert_eq!(
        snapshots[0].1.state,
        AggregatorSnapshotState::Data { value: SnapshotValue::Integer(123) }
    );
}

#[test]
fn snapshot_of_a_delta_names_its_base() {
    let mut resolver = FakeAggregatorView::default();
    resolver.set_from_aggregator_id(AggregatorID::new(5), 100);
    let mut data = AggregatorData::default();
    let id = AggregatorID::new(5);
    {
        let aggregator = data
            .get_aggregator(AggregatorVersionedID::V2(id), 600)
            .unwrap();
        assert_eq!(aggregator.try_sub(&resolver, 60), Ok(true));
    }
    let snapshot_id = data.snapshot(id).unwrap();
    let (_, _, _, snapshots) = data.into();
    assert_eq!(snapshots.len(), 1);
    assert_eq!(snapshots[0].0, snapshot_id);
    assert_eq!(
        snapshots[0].1.state,
        AggregatorSnapshotState::Delta {
            base_aggregator: id,
            delta: SignedU128::Negative(60),
            formula: DerivedFormula::Identity,
        }
    );
}

#[test]
fn snapshot_of_an_unknown_id_is_an_invariant_error() {
    let mut data = AggregatorData::default();
    assert_eq!(
        data.snapshot(AggregatorID::new(77)),
        Err(AggregatorError::CodeInvariant)
    );
    // The identifier was minted before the lookup failed.
    assert_eq!(data.id_counter, 1);
}

#[test]
fn snapshot_unpacks_into_its_state() {
    let mut data = AggregatorData::default();
    let id = AggregatorID::new(5);
    data.create_new_aggregator(AggregatorVersionedID::V2(id), 600);
    let _ = data.snapshot(id).unwrap();
    let (_, _, _, mut snapshots) = data.into();
    let snapshot = snapshots.pop().unwrap().1;
    assert_eq!(
        snapshot.into(),
        AggregatorSnapshotState::Data { value: SnapshotValue::Integer(0) }
    );
}

#[test]
fn aggregator_unpacks_into_bound_and_state() {
    let mut data = AggregatorData::default();
    data.create_new_aggregator(aggregator_v1_id_for_test(1), 250);
    let (_, _, mut aggregators, _) = data.into();
    let aggregator = aggregators.pop().unwrap().1;
    let (max_value, state) = aggregator.into();
    assert_eq!(max_value, 250);
    assert_eq!(state, AggregatorState::Data { value: 0 });
}

#[test]
fn removing_a_created_aggregator_leaves_no_trace() {
    let mut data = AggregatorData::default();
    data.create_new_aggregator(aggregator_v1_id_for_test(1), 10);
    data.remove_aggregator_v1(aggregator_v1_id_for_test(1));
    let (new_ids, destroyed, aggregators, _) = data.into();
    assert!(new_ids.is_empty());
    assert!(destroyed.is_empty());
    assert!(aggregators.is_empty());
}

#[test]
fn removing_an_existing_aggregator_records_its_key() {
    let mut data = AggregatorData::default();
    let _ = data.get_aggregator(aggregator_v1_id_for_test(1), 10);
    data.remove_aggregator_v1(aggregator_v1_id_for_test(1));
    let (new_ids, destroyed, aggregators, _) = data.into();
    assert!(new_ids.is_empty());
    assert_eq!(destroyed.len(), 1);
    assert_eq!(destroyed[0], aggregator_v1_state_key_for_test(1));
    assert!(aggregators.is_empty());
}

#[test]
fn create_replaces_an_existing_entry() {
    let mut data = AggregatorData::default();
    let _ = data.get_aggregator(aggregator_v1_id_for_test(1), 10);
    data.create_new_aggregator(aggregator_v1_id_for_test(1), 10);
    let aggregator = data
        .get_aggregator(aggregator_v1_id_for_test(1), 10)
        .unwrap();
    assert_eq!(aggregator.state, AggregatorState::Data { value: 0 });
    assert_eq!(data.num_aggregators(), 1);
}

#[test]
fn change_set_is_sorted_by_identifier() {
    let mut data = AggregatorData::default();
    data.create_new_aggregator(aggregator_v1_id_for_test(3), 10);
    data.create_new_aggregator(aggregator_v1_id_for_test(1), 10);
    data.create_new_aggregator(aggregator_v1_id_for_test(2), 10);
    let (new_ids, _, aggregators, _) = data.into();
    let expected = vec![
        aggregator_v1_id_for_test(1),
        aggregator_v1_id_for_test(2),
        aggregator_v1_id_for_test(3),
    ];
    assert_eq!(new_ids, expected);
    assert_eq!(aggregators.len(), 3);
    for (i, (key, aggregator)) in aggregators.iter().enumerate() {
        assert_eq!(key, &expected[i]);
        assert_eq!(aggregator.max_value, 10);
    }
}
