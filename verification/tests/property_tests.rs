use aptos_aggregator::aggregator_extension::extension_error;
use aptos_aggregator::aggregator_extension::AggregatorData;
use aptos_aggregator::aggregator_extension::AggregatorID;
use aptos_aggregator::aggregator_extension::AggregatorState;
use aptos_aggregator::aggregator_extension::SnapshotValue;
use aptos_aggregator::aggregator_extension::SpeculativeStartValue;
use aptos_aggregator::aggregator_v1_id_for_test;
use aptos_aggregator::bounded_math::AggregatorError;
use aptos_aggregator::bounded_math::SignedU128;
use aptos_aggregator::delta_math::DeltaHistory;
use aptos_aggregator::AggregatorStore;

fn empty_history() -> DeltaHistory {
    DeltaHistory {
        max_achieved_positive_delta: 0,
        min_achieved_negative_delta: 0,
        min_overflow_positive_delta: None,
        max_underflow_negative_delta: None,
    }
}

// Two additions on a known value compose exactly, and overflow leaves the
// state untouched.
#[test]
fn test_data_add_twice() {
    let resolver = AggregatorStore::default();
    let mut data = AggregatorData::default();
    data.create_new_aggregator(aggregator_v1_id_for_test(1), 600);
    let aggregator = data.get_aggregator(aggregator_v1_id_for_test(1), 600).unwrap();
    assert!(aggregator.try_add(&resolver, 250).unwrap());
    assert!(aggregator.try_add(&resolver, 300).unwrap());
    assert_eq!(aggregator.state, AggregatorState::Data { value: 550 });
    // 550 + 100 would exceed 600: reported as a plain `false`, no change.
    assert!(!aggregator.try_add(&resolver, 100).unwrap());
    assert_eq!(aggregator.state, AggregatorState::Data { value: 550 });
}

// The achieved extremes summarize the reached net deltas, in whatever order
// they are reached.
#[test]
fn test_success_bounds_order_independent() {
    let mut resolver = AggregatorStore::default();
    resolver.set_from_id(aggregator_v1_id_for_test(7), 100);
    resolver.set_from_id(aggregator_v1_id_for_test(8), 100);
    let mut data = AggregatorData::default();

    // Reaches +300, then net -50.
    let first = data.get_aggregator(aggregator_v1_id_for_test(7), 600).unwrap();
    assert!(first.try_add(&resolver, 300).unwrap());
    assert!(first.try_sub(&resolver, 350).unwrap());
    let first_history = first.get_history().unwrap();

    // Reaches -50, then net +300.
    let second = data.get_aggregator(aggregator_v1_id_for_test(8), 600).unwrap();
    assert!(second.try_sub(&resolver, 50).unwrap());
    assert!(second.try_add(&resolver, 350).unwrap());
    let second_history = second.get_history().unwrap();

    assert_eq!(first_history, second_history);
    assert_eq!(first_history.max_achieved_positive_delta, 300);
    assert_eq!(first_history.min_achieved_negative_delta, 50);
}

// Failure thresholds only tighten once set.
#[test]
fn test_thresholds_only_tighten() {
    let mut history = empty_history();
    history.record_overflow(500);
    assert_eq!(history.min_overflow_positive_delta, Some(500));
    history.record_overflow(700);
    assert_eq!(history.min_overflow_positive_delta, Some(500));
    history.record_overflow(400);
    assert_eq!(history.min_overflow_positive_delta, Some(400));
    history.record_underflow(300);
    assert_eq!(history.max_underflow_negative_delta, Some(300));
    history.record_underflow(350);
    assert_eq!(history.max_underflow_negative_delta, Some(300));
    history.record_underflow(200);
    assert_eq!(history.max_underflow_negative_delta, Some(200));
    // Successes never touch the thresholds.
    history.record_success(SignedU128::Positive(1000));
    assert_eq!(history.min_overflow_positive_delta, Some(400));
    assert_eq!(history.max_underflow_negative_delta, Some(200));
}

// Validation against a revealed base value accepts exactly the bases
// consistent with every recorded outcome.
#[test]
fn test_validate_against_base_value_boundaries() {
    let history = DeltaHistory {
        max_achieved_positive_delta: 300,
        min_achieved_negative_delta: 0,
        min_overflow_positive_delta: None,
        max_underflow_negative_delta: None,
    };
    assert!(history.validate_against_base_value(0, 600).is_ok());
    assert!(history.validate_against_base_value(300, 600).is_ok());
    assert!(history.validate_against_base_value(301, 600).is_err());

    let with_failures = DeltaHistory {
        max_achieved_positive_delta: 300,
        min_achieved_negative_delta: 100,
        min_overflow_positive_delta: Some(401),
        max_underflow_negative_delta: Some(201),
    };
    // The overflow bound must still overflow: base + 401 > 600.
    assert!(with_failures.validate_against_base_value(200, 600).is_ok());
    assert!(with_failures.validate_against_base_value(199, 600).is_err());
    // The underflow bound must still underflow: base < 201.
    assert!(with_failures.validate_against_base_value(201, 600).is_err());
    // The achieved negative extreme needs base >= 100.
    assert!(with_failures.validate_against_base_value(99, 600).is_err());
}

#[test]
fn test_history_is_empty() {
    let mut history = empty_history();
    assert!(history.is_empty());
    history.record_success(SignedU128::Positive(0));
    assert!(history.is_empty());
    history.record_success(SignedU128::Positive(1));
    assert!(!history.is_empty());
    let mut with_overflow = empty_history();
    with_overflow.record_overflow(10);
    assert!(!with_overflow.is_empty());
}

// Reading the same snapshot twice returns identical values, and a Concat
// over an integer base renders it in decimal.
#[test]
fn test_snapshot_immutability_and_concat() {
    let resolver = AggregatorStore::default();
    let mut data = AggregatorData::default();
    data.create_new_snapshot(AggregatorID::ephemeral(42), SnapshotValue::Integer(500));
    let concat_id = data.string_concat(AggregatorID::ephemeral(42), b"n=".to_vec(), vec![]);
    let first = data
        .read_snapshot(AggregatorID::ephemeral(concat_id), &resolver)
        .unwrap();
    assert_eq!(first, SnapshotValue::String(b"n=500".to_vec()));
    let second = data
        .read_snapshot(AggregatorID::ephemeral(concat_id), &resolver)
        .unwrap();
    assert_eq!(first, second);
    // The base snapshot still reads as its original value.
    assert_eq!(
        data.read_snapshot(AggregatorID::ephemeral(42), &resolver)
            .unwrap(),
        SnapshotValue::Integer(500)
    );
}

#[test]
fn test_snapshot_of_aggregator() {
    let mut resolver = AggregatorStore::default();
    resolver.set_from_id(aggregator_v1_id_for_test(600), 100);
    let mut data = AggregatorData::default();
    let aggregator = data.get_aggregator(aggregator_v1_id_for_test(600), 600).unwrap();
    assert!(aggregator.try_add(&resolver, 50).unwrap());
    let snap_id = data.snapshot(&aggregator_v1_id_for_test(600), 600).unwrap();
    // The snapshot resolves to the aggregator's most recent value plus the
    // delta captured at snapshot time: (100 + 50) + 50.
    assert_eq!(
        data.read_snapshot(AggregatorID::ephemeral(snap_id), &resolver)
            .unwrap(),
        SnapshotValue::Integer(200)
    );
    // Reading again yields the same value.
    assert_eq!(
        data.read_snapshot(AggregatorID::ephemeral(snap_id), &resolver)
            .unwrap(),
        SnapshotValue::Integer(200)
    );
    // A snapshot of a Data-state aggregator captures the value directly.
    data.create_new_aggregator(aggregator_v1_id_for_test(9), 50);
    let data_snap = data.snapshot(&aggregator_v1_id_for_test(9), 50).unwrap();
    assert_eq!(
        data.read_snapshot(AggregatorID::ephemeral(data_snap), &resolver)
            .unwrap(),
        SnapshotValue::Integer(0)
    );
}

#[test]
fn test_concat_of_string_and_zero() {
    let resolver = AggregatorStore::default();
    let mut data = AggregatorData::default();
    data.create_new_snapshot(
        AggregatorID::ephemeral(101),
        SnapshotValue::String(b"mid".to_vec()),
    );
    let concat_id = data.string_concat(AggregatorID::ephemeral(101), b"<".to_vec(), b">".to_vec());
    assert_eq!(
        data.read_snapshot(AggregatorID::ephemeral(concat_id), &resolver)
            .unwrap(),
        SnapshotValue::String(b"<mid>".to_vec())
    );
    data.create_new_snapshot(AggregatorID::ephemeral(102), SnapshotValue::Integer(0));
    let zero_id = data.string_concat(AggregatorID::ephemeral(102), vec![], vec![]);
    assert_eq!(
        data.read_snapshot(AggregatorID::ephemeral(zero_id), &resolver)
            .unwrap(),
        SnapshotValue::String(b"0".to_vec())
    );
    data.create_new_snapshot(
        AggregatorID::ephemeral(103),
        SnapshotValue::Integer(u128::MAX),
    );
    let max_id = data.string_concat(AggregatorID::ephemeral(103), vec![], vec![]);
    assert_eq!(
        data.read_snapshot(AggregatorID::ephemeral(max_id), &resolver)
            .unwrap(),
        SnapshotValue::String(b"340282366920938463463374607431768211455".to_vec())
    );
}

#[test]
fn test_get_snapshot_reads_reference() {
    let mut resolver = AggregatorStore::default();
    resolver.set_from_id(AggregatorID::ephemeral(77), 123);
    let mut data = AggregatorData::default();
    // A snapshot never created here is read through the resolver verbatim.
    assert_eq!(
        data.read_snapshot(AggregatorID::ephemeral(77), &resolver)
            .unwrap(),
        SnapshotValue::Integer(123)
    );
    // It is cached: a later read does not consult storage again.
    resolver.set_from_id(AggregatorID::ephemeral(77), 999);
    assert_eq!(
        data.read_snapshot(AggregatorID::ephemeral(77), &resolver)
            .unwrap(),
        SnapshotValue::Integer(123)
    );
    // An unknown snapshot the resolver cannot answer is an extension error.
    assert_eq!(
        data.read_snapshot(AggregatorID::ephemeral(78), &resolver),
        Err(AggregatorError::ExtensionFailure)
    );
}

// A no-op ephemeral aggregator leaves no trace in the change set.
#[test]
fn test_materialization_skips_noop_aggregator() {
    let mut resolver = AggregatorStore::default();
    resolver.set_from_id(AggregatorID::ephemeral(900), 300);
    let mut data = AggregatorData::default();
    let aggregator = data.get_aggregator(AggregatorID::ephemeral(900), 900).unwrap();
    assert!(aggregator.try_add(&resolver, 0).unwrap());
    assert!(aggregator.try_sub(&resolver, 0).unwrap());
    let change_set = data.into_change_set();
    assert!(!change_set.contains_v2_change(&AggregatorID::ephemeral(900)));
    assert!(!change_set.contains_v1_change(&AggregatorID::ephemeral(900)));
}

// A created-then-removed aggregator leaves no trace; removing an untracked
// one materializes as a deletion.
#[test]
fn test_removal_semantics() {
    let mut data = AggregatorData::default();
    data.create_new_aggregator(aggregator_v1_id_for_test(5), 100);
    data.remove_aggregator(aggregator_v1_id_for_test(5));
    data.remove_aggregator(aggregator_v1_id_for_test(6));
    let change_set = data.into_change_set();
    assert!(!change_set.contains_v1_change(&aggregator_v1_id_for_test(5)));
    assert_eq!(
        change_set.get_v1_change(&aggregator_v1_id_for_test(6)),
        Some(aptos_aggregator::aggregator_change_set::AggregatorChangeV1::Delete)
    );
}

// The end-to-end scenario: speculative adds and subs against a storage value
// of 100 under a bound of 600, then a cached aggregated read.
#[test]
fn test_end_to_end_cached_read() {
    let mut resolver = AggregatorStore::default();
    resolver.set_from_id(aggregator_v1_id_for_test(600), 100);
    let mut data = AggregatorData::default();
    let aggregator = data.get_aggregator(aggregator_v1_id_for_test(600), 600).unwrap();
    assert!(aggregator.try_add(&resolver, 400).unwrap());
    assert!(aggregator.try_sub(&resolver, 470).unwrap());
    assert_eq!(
        aggregator
            .read_most_recent_aggregator_value(&resolver)
            .unwrap(),
        30
    );
    // The aggregated start value is cached: even after storage moves, a
    // second read returns the same value without an expensive read.
    resolver.set_from_id(aggregator_v1_id_for_test(600), 9999);
    assert_eq!(
        aggregator
            .read_most_recent_aggregator_value(&resolver)
            .unwrap(),
        30
    );
    assert_eq!(
        aggregator.state,
        AggregatorState::Delta {
            speculative_start_value: SpeculativeStartValue::AggregatedValue(100),
            delta: SignedU128::Negative(70),
            history: DeltaHistory {
                max_achieved_positive_delta: 400,
                min_achieved_negative_delta: 70,
                min_overflow_positive_delta: None,
                max_underflow_negative_delta: None,
            }
        }
    );
}

#[test]
fn test_speculative_start_value_accessors() {
    assert_eq!(
        SpeculativeStartValue::Unset.get_any_value(),
        Err(AggregatorError::CodeInvariantViolation)
    );
    assert_eq!(
        SpeculativeStartValue::LastCommittedValue(5).get_any_value(),
        Ok(5)
    );
    assert_eq!(
        SpeculativeStartValue::AggregatedValue(7).get_any_value(),
        Ok(7)
    );
    assert_eq!(
        SpeculativeStartValue::Unset.get_value_for_read(),
        Err(AggregatorError::CodeInvariantViolation)
    );
    assert_eq!(
        SpeculativeStartValue::LastCommittedValue(5).get_value_for_read(),
        Err(AggregatorError::CodeInvariantViolation)
    );
    assert_eq!(
        SpeculativeStartValue::AggregatedValue(7).get_value_for_read(),
        Ok(7)
    );
}

#[test]
fn test_read_on_started_unset_aggregator_is_invariant_error() {
    let mut resolver = AggregatorStore::default();
    resolver.set_from_id(aggregator_v1_id_for_test(600), 100);
    let mut data = AggregatorData::default();
    let aggregator = data.get_aggregator(aggregator_v1_id_for_test(600), 600).unwrap();
    // Forcing a non-trivial delta onto an unread speculative aggregator is a
    // programming error the cheap read must reject.
    aggregator.state = AggregatorState::Delta {
        speculative_start_value: SpeculativeStartValue::Unset,
        delta: SignedU128::Positive(5),
        history: DeltaHistory {
            max_achieved_positive_delta: 0,
            min_achieved_negative_delta: 0,
            min_overflow_positive_delta: None,
            max_underflow_negative_delta: None,
        },
    };
    assert_eq!(
        aggregator.read_last_committed_aggregator_value(&resolver),
        Err(AggregatorError::CodeInvariantViolation)
    );
}

#[test]
fn test_error_constructors_and_ids() {
    assert_eq!(extension_error(), AggregatorError::ExtensionFailure);
    assert_eq!(AggregatorID::legacy(5), aggregator_v1_id_for_test(5));
    assert_eq!(AggregatorID::legacy(5).as_state_key(), Some(5));
    assert_eq!(AggregatorID::ephemeral(5).as_state_key(), None);
    assert_eq!(AggregatorID::legacy(5).into_state_key(), Some(5));
    assert_eq!(AggregatorID::ephemeral(5).into_state_key(), None);
    let mut data = AggregatorData::new(7);
    assert_eq!(data.generate_id(), 8);
    assert_eq!(data.generate_id(), 9);
    assert_eq!(data.num_aggregators(), 0);
    data.create_new_aggregator(AggregatorID::ephemeral(1), 10);
    assert_eq!(data.num_aggregators(), 1);
}

#[test]
fn test_unpacking() {
    let mut data = AggregatorData::default();
    data.create_new_aggregator(aggregator_v1_id_for_test(1), 10);
    data.create_new_snapshot(AggregatorID::ephemeral(2), SnapshotValue::Integer(9));
    let (new_ids, destroyed, aggregators, snapshots) = data.into();
    assert_eq!(new_ids, vec![aggregator_v1_id_for_test(1)]);
    assert!(destroyed.is_empty());
    assert_eq!(aggregators.len(), 1);
    let (max_value, state) = aggregators[0].into();
    assert_eq!(max_value, 10);
    assert_eq!(state, AggregatorState::Data { value: 0 });
    assert_eq!(snapshots.len(), 1);
    let snapshot_state = snapshots[0].clone().into();
    assert_eq!(
        snapshot_state,
        aptos_aggregator::aggregator_extension::AggregatorSnapshotState::Data {
            value: SnapshotValue::Integer(9)
        }
    );
    assert_eq!(SnapshotValue::Integer(4).into_aggregator_value(), Ok(4));
    assert_eq!(
        SnapshotValue::String(b"x".to_vec()).into_aggregator_value(),
        Err(AggregatorError::CodeInvariantViolation)
    );
}
