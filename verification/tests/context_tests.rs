use aptos_aggregator::aggregator_change_set::AggregatorChange;
use aptos_aggregator::aggregator_change_set::AggregatorChangeV1;
use aptos_aggregator::aggregator_extension::AggregatorData;
use aptos_aggregator::aggregator_extension::AggregatorID;
use aptos_aggregator::aggregator_v1_id_for_test;
use aptos_aggregator::bounded_math::SignedU128;
use aptos_aggregator::delta_change_set::DeltaOp;
use aptos_aggregator::delta_math::DeltaHistory;
use aptos_aggregator::AggregatorStore;

fn get_test_resolver() -> AggregatorStore {
    let mut state_view = AggregatorStore::default();
    state_view.set_from_id(aggregator_v1_id_for_test(500), 150);
    state_view.set_from_id(aggregator_v1_id_for_test(600), 100);
    state_view.set_from_id(aggregator_v1_id_for_test(700), 200);
    state_view.set_from_id(AggregatorID::ephemeral(900), 300);
    state_view.set_from_id(AggregatorID::ephemeral(1000), 400);
    state_view
}

// All aggregators are initialized deterministically based on their ID,
// with the following spec.
//
//     +-------+---------------+-----------+-----+---------+
//     |  key  | storage value |  create   | get | remove  |
//     +-------+---------------+-----------+-----+---------+
//     |  100  |               |   yes     | yes |   yes   |
//     |  200  |               |   yes     | yes |         |
//     |  300  |               |   yes     |     |   yes   |
//     |  400  |               |   yes     |     |         |
//     |  500  |               |           | yes |   yes   |
//     |  600  |               |           | yes |         |
//     |  700  |               |           | yes |         |
//     |  800  |               |           |     |   yes   |
//     |  900  |               |           |     |         |
//     | 1000  |               |           |     |         |
//     +-------+---------------+-----------+-----+---------+
fn test_set_up_v1(aggregator_data: &mut AggregatorData, resolver: &AggregatorStore) {
    aggregator_data.create_new_aggregator(aggregator_v1_id_for_test(100), 100);
    aggregator_data.create_new_aggregator(aggregator_v1_id_for_test(200), 200);
    aggregator_data.create_new_aggregator(aggregator_v1_id_for_test(300), 300);
    aggregator_data.create_new_aggregator(aggregator_v1_id_for_test(400), 400);

    assert!(aggregator_data
        .get_aggregator(aggregator_v1_id_for_test(100), 100)
        .is_ok());
    assert!(aggregator_data
        .get_aggregator(aggregator_v1_id_for_test(200), 200)
        .is_ok());
    assert!(aggregator_data
        .get_aggregator(aggregator_v1_id_for_test(500), 500)
        .unwrap()
        .try_add(resolver, 150)
        .unwrap());
    assert!(aggregator_data
        .get_aggregator(aggregator_v1_id_for_test(600), 600)
        .unwrap()
        .try_add(resolver, 100)
        .unwrap());
    assert!(aggregator_data
        .get_aggregator(aggregator_v1_id_for_test(700), 700)
        .unwrap()
        .try_add(resolver, 200)
        .unwrap());

    aggregator_data.remove_aggregator(aggregator_v1_id_for_test(100));
    aggregator_data.remove_aggregator(aggregator_v1_id_for_test(300));
    aggregator_data.remove_aggregator(aggregator_v1_id_for_test(500));
    aggregator_data.remove_aggregator(aggregator_v1_id_for_test(800));
}

#[test]
fn test_v1_into_change_set() {
    let resolver = get_test_resolver();
    let mut aggregator_data = AggregatorData::default();
    test_set_up_v1(&mut aggregator_data, &resolver);

    let change_set = aggregator_data.into_change_set();

    assert!(!change_set.contains_v1_change(&aggregator_v1_id_for_test(100)));
    assert!(matches!(
        change_set
            .get_v1_change(&aggregator_v1_id_for_test(200))
            .unwrap(),
        AggregatorChangeV1::Write(0)
    ));
    assert!(!change_set.contains_v1_change(&aggregator_v1_id_for_test(300)));
    assert!(matches!(
        change_set
            .get_v1_change(&aggregator_v1_id_for_test(400))
            .unwrap(),
        AggregatorChangeV1::Write(0)
    ));
    assert!(matches!(
        change_set
            .get_v1_change(&aggregator_v1_id_for_test(500))
            .unwrap(),
        AggregatorChangeV1::Delete
    ));
    let delta_100 = DeltaOp::new(
        SignedU128::Positive(100),
        600,
        DeltaHistory {
            max_achieved_positive_delta: 100,
            min_achieved_negative_delta: 0,
            min_overflow_positive_delta: None,
            max_underflow_negative_delta: None,
        },
    );
    assert_eq!(
        change_set
            .get_v1_change(&aggregator_v1_id_for_test(600))
            .unwrap(),
        AggregatorChangeV1::Merge(delta_100)
    );
    let delta_200 = DeltaOp::new(
        SignedU128::Positive(200),
        700,
        DeltaHistory {
            max_achieved_positive_delta: 200,
            min_achieved_negative_delta: 0,
            min_overflow_positive_delta: None,
            max_underflow_negative_delta: None,
        },
    );
    assert_eq!(
        change_set
            .get_v1_change(&aggregator_v1_id_for_test(700))
            .unwrap(),
        AggregatorChangeV1::Merge(delta_200)
    );
    assert!(matches!(
        change_set
            .get_v1_change(&aggregator_v1_id_for_test(800))
            .unwrap(),
        AggregatorChangeV1::Delete
    ));
}

fn test_set_up_v2(aggregator_data: &mut AggregatorData, resolver: &AggregatorStore) {
    assert!(aggregator_data
        .get_aggregator(AggregatorID::ephemeral(900), 900)
        .unwrap()
        .try_add(resolver, 200)
        .unwrap());
    assert!(!aggregator_data
        .get_aggregator(AggregatorID::ephemeral(900), 900)
        .unwrap()
        .try_add(resolver, 401)
        .unwrap());
    assert!(!aggregator_data
        .get_aggregator(AggregatorID::ephemeral(900), 900)
        .unwrap()
        .try_sub(resolver, 501)
        .unwrap());

    aggregator_data.create_new_aggregator(AggregatorID::ephemeral(1100), 1100);
    assert!(aggregator_data
        .get_aggregator(AggregatorID::ephemeral(1100), 1100)
        .unwrap()
        .try_add(resolver, 200)
        .unwrap());
    assert!(!aggregator_data
        .get_aggregator(AggregatorID::ephemeral(1100), 1100)
        .unwrap()
        .try_add(resolver, 1000)
        .unwrap());
    assert!(!aggregator_data
        .get_aggregator(AggregatorID::ephemeral(1100), 1100)
        .unwrap()
        .try_sub(resolver, 201)
        .unwrap());
}

#[test]
fn test_v2_into_change_set() {
    let resolver = get_test_resolver();
    let mut aggregator_data = AggregatorData::default();
    test_set_up_v2(&mut aggregator_data, &resolver);

    let change_set = aggregator_data.into_change_set();

    assert!(change_set.contains_v2_change(&AggregatorID::ephemeral(900)));
    assert!(!change_set.contains_v2_change(&AggregatorID::ephemeral(1000)));
    assert!(change_set.contains_v2_change(&AggregatorID::ephemeral(1100)));
    assert_eq!(
        change_set
            .get_v2_change(&AggregatorID::ephemeral(900))
            .unwrap(),
        &AggregatorChange::AggregatorDelta {
            max_value: 900,
            delta: SignedU128::Positive(200),
            history: DeltaHistory {
                max_achieved_positive_delta: 200,
                min_achieved_negative_delta: 0,
                min_overflow_positive_delta: Some(601),
                max_underflow_negative_delta: Some(301),
            },
        }
    );
    assert_eq!(
        change_set
            .get_v2_change(&AggregatorID::ephemeral(1100))
            .unwrap(),
        &AggregatorChange::Data { value: 200 }
    );
}
