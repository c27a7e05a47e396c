use aggregator::aggregator_extension::{AggregatorData, AggregatorState, SpeculativeStartValue};
use aggregator::bounded_math::SignedU128;
use aggregator::delta_math::DeltaHistory;
use aggregator::{aggregator_v1_id_for_test, aggregator_v1_state_key_for_test, FakeAggregatorView};

#[test]
fn test_aggregator_not_in_storage() {
    let test_resolver = FakeAggregatorView::default();
    let mut aggregator_data = AggregatorData::default();
    let aggregator = aggregator_data
        .get_aggregator(aggregator_v1_id_for_test(300), 700)
        .unwrap();
    assert!(aggregator
        .read_last_committed_aggregator_value(&test_resolver)
        .is_err());
    assert!(aggregator
        .read_most_recent_aggregator_value(&test_resolver)
        .is_err());
    assert!(aggregator.try_add(&test_resolver, 100).is_err());
    assert!(aggregator.try_sub(&test_resolver, 1).is_err());
}

#[test]
fn test_operations_on_new_aggregator() {
    let test_resolver = FakeAggregatorView::default();
    let mut aggregator_data = AggregatorData::default();
    aggregator_data.create_new_aggregator(aggregator_v1_id_for_test(200), 200);

    let aggregator = aggregator_data
        .get_aggregator(aggregator_v1_id_for_test(200), 200)
        .expect("Get aggregator failed");

    assert_eq!(aggregator.state, AggregatorState::Data { value: 0 });
    assert!(aggregator.try_add(&test_resolver, 100).is_ok());
    assert_eq!(aggregator.state, AggregatorState::Data { value: 100 });
    assert!(aggregator.try_sub(&test_resolver, 50).unwrap());
    assert_eq!(aggregator.state, AggregatorState::Data { value: 50 });
    assert!(!aggregator.try_sub(&test_resolver, 70).unwrap());
    assert_eq!(aggregator.state, AggregatorState::Data { value: 50 });
    assert!(!aggregator.try_add(&test_resolver, 170).unwrap());
    assert_eq!(aggregator.state, AggregatorState::Data { value: 50 });
    assert_eq!(
        aggregator
            .read_most_recent_aggregator_value(&test_resolver)
            .unwrap(),
        50
    );
}

#[test]
fn test_successful_operations_in_delta_mode() {
    let mut aggregator_data = AggregatorData::default();
    let mut sample_resolver = FakeAggregatorView::default();
    sample_resolver.set_from_state_key(aggregator_v1_state_key_for_test(600), 100);

    let aggregator = aggregator_data
        .get_aggregator(aggregator_v1_id_for_test(600), 600)
        .expect("Get aggregator failed");

    assert_eq!(
        aggregator.state,
        AggregatorState::Delta {
            speculative_start_value: SpeculativeStartValue::Unset,
            delta: SignedU128::Positive(0),
            history: DeltaHistory {
                max_achieved_positive_delta: 0,
                min_achieved_negative_delta: 0,
                min_overflow_positive_delta: None,
                max_underflow_negative_delta: None,
            }
        }
    );
    assert!(aggregator.try_add(&sample_resolver, 400).is_ok());
    assert_eq!(
        aggregator.state,
        AggregatorState::Delta {
            speculative_start_value: SpeculativeStartValue::LastCommittedValue(100),
            delta: SignedU128::Positive(400),
            history: DeltaHistory {
                max_achieved_positive_delta: 400,
                min_achieved_negative_delta: 0,
                min_overflow_positive_delta: None,
                max_underflow_negative_delta: None,
            }
        }
    );
    assert!(aggregator.try_sub(&sample_resolver, 470).is_ok());
    assert_eq!(
        aggregator.state,
        AggregatorState::Delta {
            speculative_start_value: SpeculativeStartValue::LastCommittedValue(100),
            delta: SignedU128::Negative(70),
            history: DeltaHistory {
                max_achieved_positive_delta: 400,
                min_achieved_negative_delta: 70,
                min_overflow_positive_delta: None,
                max_underflow_negative_delta: None,
            }
        }
    );
    assert_eq!(
        aggregator
            .read_most_recent_aggregator_value(&sample_resolver)
            .unwrap(),
        30
    );
    assert_eq!(
        aggregator.state,
        AggregatorState::Delta {
            speculative_start_value: SpeculativeStartValue::AggregatedValue(100),
            delta: SignedU128::Negative(70),
            history: DeltaHistory {
                max_achieved_positive_delta: 400,
                min_achieved_negative_delta: 70,
                min_overflow_positive_delta: None,
                max_underflow_negative_delta: None,
            }
        }
    );
}

#[test]
fn test_history_updates() {
    let mut aggregator_data = AggregatorData::default();
    let mut sample_resolver = FakeAggregatorView::default();
    sample_resolver.set_from_state_key(aggregator_v1_state_key_for_test(600), 100);

    let aggregator = aggregator_data
        .get_aggregator(aggregator_v1_id_for_test(600), 600)
        .expect("Get aggregator failed");

    assert_eq!(
        aggregator.state,
        AggregatorState::Delta {
            speculative_start_value: SpeculativeStartValue::Unset,
            delta: SignedU128::Positive(0),
            history: DeltaHistory {
                max_achieved_positive_delta: 0,
                min_achieved_negative_delta: 0,
                min_overflow_positive_delta: None,
                max_underflow_negative_delta: None,
            }
        }
    );
    assert!(aggregator.try_add(&sample_resolver, 300).is_ok());
    assert_eq!(
        aggregator.get_history().unwrap(),
        &DeltaHistory {
            max_achieved_positive_delta: 300,
            min_achieved_negative_delta: 0,
            min_overflow_positive_delta: None,
            max_underflow_negative_delta: None,
        }
    );
    assert!(aggregator.try_add(&sample_resolver, 100).is_ok());
    assert_eq!(
        aggregator.get_history().unwrap(),
        &DeltaHistory {
            max_achieved_positive_delta: 400,
            min_achieved_negative_delta: 0,
            min_overflow_positive_delta: None,
            max_underflow_negative_delta: None,
        }
    );
    assert!(aggregator.try_sub(&sample_resolver, 450).is_ok());
    assert_eq!(
        aggregator.get_history().unwrap(),
        &DeltaHistory {
            max_achieved_positive_delta: 400,
            min_achieved_negative_delta: 50,
            min_overflow_positive_delta: None,
            max_underflow_negative_delta: None,
        }
    );
    assert!(aggregator.try_add(&sample_resolver, 200).is_ok());
    assert_eq!(
        aggregator.get_history().unwrap(),
        &DeltaHistory {
            max_achieved_positive_delta: 400,
            min_achieved_negative_delta: 50,
            min_overflow_positive_delta: None,
            max_underflow_negative_delta: None,
        }
    );
    assert!(aggregator.try_add(&sample_resolver, 350).is_ok());
    assert_eq!(
        aggregator.get_history().unwrap(),
        &DeltaHistory {
            max_achieved_positive_delta: 500,
            min_achieved_negative_delta: 50,
            min_overflow_positive_delta: None,
            max_underflow_negative_delta: None,
        }
    );
    assert!(aggregator.try_sub(&sample_resolver, 600).is_ok());
    assert_eq!(
        aggregator.get_history().unwrap(),
        &DeltaHistory {
            max_achieved_positive_delta: 500,
            min_achieved_negative_delta: 100,
            min_overflow_positive_delta: None,
            max_underflow_negative_delta: None,
        }
    );
}

#[test]
fn test_aggregator_overflows() {
    let mut aggregator_data = AggregatorData::default();
    let mut sample_resolver = FakeAggregatorView::default();
    sample_resolver.set_from_state_key(aggregator_v1_state_key_for_test(600), 100);

    let aggregator = aggregator_data
        .get_aggregator(aggregator_v1_id_for_test(600), 600)
        .expect("Get aggregator failed");

    assert!(aggregator.try_add(&sample_resolver, 400).unwrap());
    assert_eq!(
        aggregator.get_history().unwrap(),
        &DeltaHistory {
            max_achieved_positive_delta: 400,
            min_achieved_negative_delta: 0,
            min_overflow_positive_delta: None,
            max_underflow_negative_delta: None,
        }
    );
    assert!(aggregator.try_sub(&sample_resolver, 450).unwrap());
    assert_eq!(
        aggregator.get_history().unwrap(),
        &DeltaHistory {
            max_achieved_positive_delta: 400,
            min_achieved_negative_delta: 50,
            min_overflow_positive_delta: None,
            max_underflow_negative_delta: None,
        }
    );
    assert!(!aggregator.try_add(&sample_resolver, 601).unwrap());
    assert_eq!(
        aggregator.get_history().unwrap(),
        &DeltaHistory {
            max_achieved_positive_delta: 400,
            min_achieved_negative_delta: 50,
            min_overflow_positive_delta: None,
            max_underflow_negative_delta: None,
        }
    );
    assert!(!aggregator.try_add(&sample_resolver, 575).unwrap());
    assert_eq!(
        aggregator.get_history().unwrap(),
        &DeltaHistory {
            max_achieved_positive_delta: 400,
            min_achieved_negative_delta: 50,
            min_overflow_positive_delta: Some(525),
            max_underflow_negative_delta: None,
        }
    );
    assert!(!aggregator.try_add(&sample_resolver, 551).unwrap());
    assert_eq!(
        aggregator.get_history().unwrap(),
        &DeltaHistory {
            max_achieved_positive_delta: 400,
            min_achieved_negative_delta: 50,
            min_overflow_positive_delta: Some(501),
            max_underflow_negative_delta: None,
        }
    );
    assert!(!aggregator.try_add(&sample_resolver, 570).unwrap());
    assert_eq!(
        aggregator.get_history().unwrap(),
        &DeltaHistory {
            max_achieved_positive_delta: 400,
            min_achieved_negative_delta: 50,
            min_overflow_positive_delta: Some(501),
            max_underflow_negative_delta: None,
        }
    );
}

fn assert_delta_state(
    aggregator: &AggregatorState,
    speculative_start_value: u128,
    delta: i128,
    history: DeltaHistory,
) {
    assert_eq!(
        aggregator,
        &AggregatorState::Delta {
            speculative_start_value: SpeculativeStartValue::LastCommittedValue(
                speculative_start_value
            ),
            delta: if delta > 0 {
                SignedU128::Positive(delta as u128)
            } else {
                SignedU128::Negative((-delta) as u128)
            },
            history,
        }
    );
}

#[test]
fn test_aggregator_underflows() {
    let mut aggregator_data = AggregatorData::default();
    let mut sample_resolver = FakeAggregatorView::default();
    sample_resolver.set_from_state_key(aggregator_v1_state_key_for_test(600), 200);

    let aggregator = aggregator_data
        .get_aggregator(aggregator_v1_id_for_test(600), 600)
        .expect("Get aggregator failed");

    assert!(aggregator.try_add(&sample_resolver, 300).unwrap());
    assert_delta_state(
        &aggregator.state,
        200,
        300,
        DeltaHistory {
            max_achieved_positive_delta: 300,
            min_achieved_negative_delta: 0,
            min_overflow_positive_delta: None,
            max_underflow_negative_delta: None,
        },
    );
    assert!(!aggregator.try_sub(&sample_resolver, 650).unwrap());
    assert_delta_state(
        &aggregator.state,
        200,
        300,
        DeltaHistory {
            max_achieved_positive_delta: 300,
            min_achieved_negative_delta: 0,
            min_overflow_positive_delta: None,
            max_underflow_negative_delta: None,
        },
    );
    assert!(!aggregator.try_sub(&sample_resolver, 550).unwrap());
    assert_delta_state(
        &aggregator.state,
        200,
        300,
        DeltaHistory {
            max_achieved_positive_delta: 300,
            min_achieved_negative_delta: 0,
            min_overflow_positive_delta: None,
            max_underflow_negative_delta: Some(250),
        },
    );
    assert!(!aggregator.try_sub(&sample_resolver, 525).unwrap());
    assert_delta_state(
        &aggregator.state,
        200,
        300,
        DeltaHistory {
            max_achieved_positive_delta: 300,
            min_achieved_negative_delta: 0,
            min_overflow_positive_delta: None,
            max_underflow_negative_delta: Some(225),
        },
    );
    assert!(!aggregator.try_sub(&sample_resolver, 540).unwrap());
    assert_delta_state(
        &aggregator.state,
        200,
        300,
        DeltaHistory {
            max_achieved_positive_delta: 300,
            min_achieved_negative_delta: 0,
            min_overflow_positive_delta: None,
            max_underflow_negative_delta: Some(225),
        },
    );
    assert!(!aggregator.try_sub(&sample_resolver, 501).unwrap());
    assert_delta_state(
        &aggregator.state,
        200,
        300,
        DeltaHistory {
            max_achieved_positive_delta: 300,
            min_achieved_negative_delta: 0,
            min_overflow_positive_delta: None,
            max_underflow_negative_delta: Some(201),
        },
    );
}

#[test]
fn test_change_in_base_value_1() {
    let mut aggregator_data = AggregatorData::default();
    let mut sample_resolver = FakeAggregatorView::default();
    sample_resolver.set_from_state_key(aggregator_v1_state_key_for_test(600), 200);

    let aggregator = aggregator_data
        .get_aggregator(aggregator_v1_id_for_test(600), 600)
        .expect("Get aggregator failed");

    assert!(aggregator.try_add(&sample_resolver, 300).is_ok());
    assert!(aggregator.try_sub(&sample_resolver, 400).is_ok());
    assert!(aggregator.try_add(&sample_resolver, 400).is_ok());
    assert!(aggregator.try_sub(&sample_resolver, 500).is_ok());
    assert_eq!(
        aggregator.state,
        AggregatorState::Delta {
            speculative_start_value: SpeculativeStartValue::LastCommittedValue(200),
            delta: SignedU128::Negative(200),
            history: DeltaHistory {
                max_achieved_positive_delta: 300,
                min_achieved_negative_delta: 200,
                min_overflow_positive_delta: None,
                max_underflow_negative_delta: None,
            }
        }
    );
    if let AggregatorState::Delta { history, .. } = aggregator.state {
        assert!(history
            .validate_against_base_value(200, aggregator.max_value)
            .is_ok());
        assert!(history
            .validate_against_base_value(199, aggregator.max_value)
            .is_err());
        assert!(history
            .validate_against_base_value(300, aggregator.max_value)
            .is_ok());
        assert!(history
            .validate_against_base_value(301, aggregator.max_value)
            .is_err());
    }
}

#[test]
fn test_change_in_base_value_2() {
    let mut aggregator_data = AggregatorData::default();
    let mut sample_resolver = FakeAggregatorView::default();
    sample_resolver.set_from_state_key(aggregator_v1_state_key_for_test(600), 200);

    let aggregator = aggregator_data
        .get_aggregator(aggregator_v1_id_for_test(600), 600)
        .expect("Get aggregator failed");

    assert!(!aggregator.try_add(&sample_resolver, 401).unwrap());
    assert!(aggregator.try_add(&sample_resolver, 300).unwrap());
    assert_eq!(
        aggregator.state,
        AggregatorState::Delta {
            speculative_start_value: SpeculativeStartValue::LastCommittedValue(200),
            delta: SignedU128::Positive(300),
            history: DeltaHistory {
                max_achieved_positive_delta: 300,
                min_achieved_negative_delta: 0,
                min_overflow_positive_delta: Some(401),
                max_underflow_negative_delta: None,
            }
        }
    );

    if let AggregatorState::Delta { history, .. } = aggregator.state {
        assert!(history
            .validate_against_base_value(199, aggregator.max_value)
            .is_err());
        assert!(history
            .validate_against_base_value(200, aggregator.max_value)
            .is_ok());
        assert!(history
            .validate_against_base_value(300, aggregator.max_value)
            .is_ok());
        assert!(history
            .validate_against_base_value(301, aggregator.max_value)
            .is_err());
    }
}

#[test]
fn test_change_in_base_value_3() {
    let mut aggregator_data = AggregatorData::default();
    let mut sample_resolver = FakeAggregatorView::default();
    sample_resolver.set_from_state_key(aggregator_v1_state_key_for_test(600), 200);

    let aggregator = aggregator_data
        .get_aggregator(aggregator_v1_id_for_test(600), 600)
        .expect("Get aggregator failed");

    assert!(aggregator.try_sub(&sample_resolver, 100).unwrap());
    assert!(!aggregator.try_sub(&sample_resolver, 101).unwrap());
    assert!(aggregator.try_add(&sample_resolver, 300).unwrap());
    assert_eq!(
        aggregator.state,
        AggregatorState::Delta {
            speculative_start_value: SpeculativeStartValue::LastCommittedValue(200),
            delta: SignedU128::Positive(200),
            history: DeltaHistory {
                max_achieved_positive_delta: 200,
                min_achieved_negative_delta: 100,
                min_overflow_positive_delta: None,
                max_underflow_negative_delta: Some(201),
            }
        }
    );

    if let AggregatorState::Delta { history, .. } = aggregator.state {
        assert!(history
            .validate_against_base_value(100, aggregator.max_value)
            .is_ok());
        assert!(history
            .validate_against_base_value(199, aggregator.max_value)
            .is_ok());
        assert!(history
            .validate_against_base_value(200, aggregator.max_value)
            .is_ok());
        assert!(history
            .validate_against_base_value(201, aggregator.max_value)
            .is_err());
        assert!(history
            .validate_against_base_value(400, aggregator.max_value)
            .is_err());
    }
}
