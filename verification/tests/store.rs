use meter_cache::cache::model::Placement;
use meter_cache::cache::store::{is_ordered, place, MergeReport, ReadingStore};
use meter_cache::cache::CacheError;
use meter_cache::types::usage::{EnergyType, Reading};

const MINUTE: i64 = 60_000_000;

fn reading(energy_type: EnergyType, start_min: i64, end_min: i64, consumption: f32) -> Reading {
    Reading {
        energy_type,
        interval_start: start_min * MINUTE,
        interval_end: end_min * MINUTE,
        consumption: consumption.to_bits(),
    }
}

fn elec(start_min: i64, end_min: i64) -> Reading {
    reading(EnergyType::Electricity, start_min, end_min, 1.0)
}

#[test]
fn new_store_is_empty() {
    let store = ReadingStore::new();
    assert!(store.all_readings(EnergyType::Electricity).is_empty());
    assert!(store.all_readings(EnergyType::Gas).is_empty());
    assert_eq!(store.most_recent_reading(EnergyType::Electricity), None);
    assert_eq!(store.most_recent_reading(EnergyType::Gas), None);
}

#[test]
fn merge_empty_batch_is_a_no_op() {
    let mut store = ReadingStore::new();
    store.merge(EnergyType::Electricity, &vec![elec(0, 30)]).unwrap();
    let report = store.merge(EnergyType::Electricity, &vec![]).unwrap();
    assert_eq!(report, MergeReport { inserted: 0, duplicate: 0, rejected: 0 });
    assert_eq!(store.all_readings(EnergyType::Electricity), vec![elec(0, 30)]);
}

#[test]
fn merge_sorts_by_interval_start() {
    let mut store = ReadingStore::new();
    let report = store
        .merge(EnergyType::Electricity, &vec![elec(60, 90), elec(0, 30), elec(30, 60), elec(120, 150)])
        .unwrap();
    assert_eq!(report, MergeReport { inserted: 4, duplicate: 0, rejected: 0 });
    assert_eq!(
        store.all_readings(EnergyType::Electricity),
        vec![elec(0, 30), elec(30, 60), elec(60, 90), elec(120, 150)]
    );
    let report = store.merge(EnergyType::Electricity, &vec![elec(90, 120)]).unwrap();
    assert_eq!(report, MergeReport { inserted: 1, duplicate: 0, rejected: 0 });
    let all = store.all_readings(EnergyType::Electricity);
    assert_eq!(all.len(), 5);
    for pair in all.windows(2) {
        assert!(pair[0].interval_start < pair[1].interval_start);
    }
    assert_eq!(store.most_recent_reading(EnergyType::Electricity), Some(elec(120, 150)));
}

#[test]
fn merge_twice_is_idempotent() {
    let mut store = ReadingStore::new();
    let r = elec(480, 510);
    let first = store.merge(EnergyType::Electricity, &vec![r]).unwrap();
    assert_eq!(first, MergeReport { inserted: 1, duplicate: 0, rejected: 0 });
    let once = store.all_readings(EnergyType::Electricity);
    let second = store.merge(EnergyType::Electricity, &vec![r]).unwrap();
    assert_eq!(second, MergeReport { inserted: 0, duplicate: 1, rejected: 0 });
    assert_eq!(store.all_readings(EnergyType::Electricity), once);
    assert_eq!(once, vec![r]);
}

#[test]
fn merge_keeps_the_first_of_two_with_one_interval() {
    let mut store = ReadingStore::new();
    let first = reading(EnergyType::Gas, 0, 30, 1.0);
    let other = reading(EnergyType::Gas, 0, 30, 2.5);
    let report = store.merge(EnergyType::Gas, &vec![first, other]).unwrap();
    assert_eq!(report, MergeReport { inserted: 1, duplicate: 1, rejected: 0 });
    assert_eq!(store.all_readings(EnergyType::Gas), vec![first]);
}

#[test]
fn merge_counts_other_energy_type_as_rejected() {
    let mut store = ReadingStore::new();
    let gas = reading(EnergyType::Gas, 0, 30, 1.0);
    let report = store.merge(EnergyType::Electricity, &vec![elec(0, 30), gas, elec(30, 60)]).unwrap();
    assert_eq!(report, MergeReport { inserted: 2, duplicate: 0, rejected: 1 });
    assert_eq!(store.all_readings(EnergyType::Electricity), vec![elec(0, 30), elec(30, 60)]);
    assert!(store.all_readings(EnergyType::Gas).is_empty());
}

#[test]
fn merge_rejects_inverted_interval_and_leaves_store_unchanged() {
    let mut store = ReadingStore::new();
    store.merge(EnergyType::Electricity, &vec![elec(0, 30)]).unwrap();
    let result = store.merge(EnergyType::Electricity, &vec![elec(30, 60), elec(90, 60), elec(120, 150)]);
    assert!(matches!(result, Err(CacheError::InvalidReading { index: 1 })));
    assert_eq!(store.all_readings(EnergyType::Electricity), vec![elec(0, 30)]);
}

#[test]
fn merge_rejects_empty_interval() {
    let mut store = ReadingStore::new();
    let result = store.merge(EnergyType::Gas, &vec![reading(EnergyType::Gas, 30, 30, 0.0)]);
    assert!(matches!(result, Err(CacheError::InvalidReading { index: 0 })));
    assert!(store.all_readings(EnergyType::Gas).is_empty());
}

#[test]
fn merge_rejects_inverted_interval_of_other_energy_type() {
    let mut store = ReadingStore::new();
    let result = store.merge(EnergyType::Electricity, &vec![reading(EnergyType::Gas, 30, 0, 0.0)]);
    assert!(matches!(result, Err(CacheError::InvalidReading { index: 0 })));
}

#[test]
fn merge_rejects_overlap_with_stored_reading() {
    let mut store = ReadingStore::new();
    store.merge(EnergyType::Electricity, &vec![elec(0, 30), elec(60, 90)]).unwrap();
    for bad in [elec(15, 45), elec(0, 15), elec(45, 61), elec(0, 90), elec(70, 80), elec(60, 120)] {
        let result = store.merge(EnergyType::Electricity, &vec![elec(30, 60), bad]);
        assert!(matches!(result, Err(CacheError::InvalidReading { index: 1 })));
        assert_eq!(store.all_readings(EnergyType::Electricity), vec![elec(0, 30), elec(60, 90)]);
    }
}

#[test]
fn merge_rejects_overlap_within_the_batch() {
    let mut store = ReadingStore::new();
    let result = store.merge(EnergyType::Electricity, &vec![elec(0, 30), elec(29, 59)]);
    assert!(matches!(result, Err(CacheError::InvalidReading { index: 1 })));
    assert!(store.all_readings(EnergyType::Electricity).is_empty());
}

#[test]
fn merge_accepts_adjacent_intervals() {
    let mut store = ReadingStore::new();
    store.merge(EnergyType::Electricity, &vec![elec(30, 60)]).unwrap();
    let report = store.merge(EnergyType::Electricity, &vec![elec(60, 90), elec(0, 30)]).unwrap();
    assert_eq!(report.inserted, 2);
    assert_eq!(store.all_readings(EnergyType::Electricity), vec![elec(0, 30), elec(30, 60), elec(60, 90)]);
}

#[test]
fn merge_leaves_the_other_energy_type_alone() {
    let mut store = ReadingStore::new();
    let gas = reading(EnergyType::Gas, 0, 30, 3.0);
    store.merge(EnergyType::Gas, &vec![gas]).unwrap();
    store.merge(EnergyType::Electricity, &vec![elec(0, 30)]).unwrap();
    assert_eq!(store.all_readings(EnergyType::Gas), vec![gas]);
    assert_eq!(store.most_recent_reading(EnergyType::Gas), Some(gas));
    assert_eq!(store.most_recent_reading(EnergyType::Electricity), Some(elec(0, 30)));
}

#[test]
fn all_readings_is_restartable() {
    let mut store = ReadingStore::new();
    store.merge(EnergyType::Electricity, &vec![elec(30, 60), elec(0, 30)]).unwrap();
    let first = store.all_readings(EnergyType::Electricity);
    let second = store.all_readings(EnergyType::Electricity);
    assert_eq!(first, second);
    assert_eq!(first, vec![elec(0, 30), elec(30, 60)]);
}

#[test]
fn place_says_where_a_reading_goes() {
    let work = vec![elec(0, 30), elec(60, 90)];
    assert_eq!(place(&work, EnergyType::Electricity, elec(30, 60)), Placement::Insert { at: 1 });
    assert_eq!(place(&work, EnergyType::Electricity, elec(90, 120)), Placement::Insert { at: 2 });
    assert_eq!(place(&work, EnergyType::Electricity, elec(-30, 0)), Placement::Insert { at: 0 });
    assert_eq!(place(&work, EnergyType::Electricity, elec(60, 90)), Placement::Duplicate);
    assert_eq!(place(&work, EnergyType::Electricity, elec(60, 91)), Placement::Invalid);
    assert_eq!(place(&work, EnergyType::Electricity, elec(10, 5)), Placement::Invalid);
    assert_eq!(place(&work, EnergyType::Gas, elec(30, 60)), Placement::Rejected);
}

#[test]
fn from_parts_wants_order_and_type() {
    assert!(ReadingStore::from_parts(vec![elec(0, 30), elec(30, 60)], vec![]).is_some());
    assert!(ReadingStore::from_parts(vec![elec(30, 60), elec(0, 30)], vec![]).is_none());
    assert!(ReadingStore::from_parts(vec![elec(0, 31), elec(30, 60)], vec![]).is_none());
    assert!(ReadingStore::from_parts(vec![], vec![elec(0, 30)]).is_none());
    assert!(ReadingStore::from_parts(vec![elec(30, 30)], vec![]).is_none());
    assert!(is_ordered(&vec![elec(0, 30), elec(40, 60)], EnergyType::Electricity));
    assert!(!is_ordered(&vec![elec(0, 30), elec(0, 30)], EnergyType::Electricity));
}

#[test]
fn readings_can_be_walked_by_index() {
    let mut store = ReadingStore::new();
    store.merge(EnergyType::Electricity, &vec![elec(30, 60), elec(0, 30)]).unwrap();
    assert_eq!(store.count(EnergyType::Electricity), 2);
    assert_eq!(store.count(EnergyType::Gas), 0);
    assert_eq!(store.reading_at(EnergyType::Electricity, 0), Some(elec(0, 30)));
    assert_eq!(store.reading_at(EnergyType::Electricity, 1), Some(elec(30, 60)));
    assert_eq!(store.reading_at(EnergyType::Electricity, 2), None);
    assert_eq!(store.reading_at(EnergyType::Gas, 0), None);
}
