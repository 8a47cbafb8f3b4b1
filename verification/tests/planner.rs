use meter_cache::planner::{plan_fetch, FetchPlan, TimeRange, HISTORY_WINDOW};
use meter_cache::types::usage::{EnergyType, Reading};

const HOUR: i64 = 3_600_000_000;

fn micros(text: &str) -> i64 {
    chrono::DateTime::parse_from_rfc3339(text).unwrap().timestamp_micros()
}

fn reading_ending_at(end: i64) -> Reading {
    Reading {
        energy_type: EnergyType::Electricity,
        interval_start: end - HOUR / 2,
        interval_end: end,
        consumption: 1.0f32.to_bits(),
    }
}

#[test]
fn plan_fetch_at_the_end_of_the_last_reading_fetches_nothing() {
    let t = micros("2022-06-01T08:30:00Z");
    assert_eq!(plan_fetch(t, Some(reading_ending_at(t))), FetchPlan::NothingToFetch);
}

#[test]
fn plan_fetch_an_hour_later_fetches_that_hour() {
    let t = micros("2022-06-01T08:30:00Z");
    assert_eq!(
        plan_fetch(t + HOUR, Some(reading_ending_at(t))),
        FetchPlan::Fetch(TimeRange { start: t, end: t + HOUR })
    );
    assert_eq!(t + HOUR, micros("2022-06-01T09:30:00Z"));
}

#[test]
fn plan_fetch_before_the_end_of_the_last_reading_fetches_nothing() {
    let t = micros("2022-06-01T08:30:00Z");
    assert_eq!(plan_fetch(t - 1, Some(reading_ending_at(t))), FetchPlan::NothingToFetch);
    assert_eq!(
        plan_fetch(t + 1, Some(reading_ending_at(t))),
        FetchPlan::Fetch(TimeRange { start: t, end: t + 1 })
    );
}

#[test]
fn plan_fetch_on_an_empty_cache_fetches_the_history_window() {
    let now = micros("2023-06-01T00:00:00Z");
    assert_eq!(HISTORY_WINDOW, 365 * 24 * HOUR);
    assert_eq!(
        plan_fetch(now, None),
        FetchPlan::Fetch(TimeRange { start: micros("2022-06-01T00:00:00Z"), end: now })
    );
}

#[test]
fn plan_fetch_holds_the_window_within_the_range_of_instants() {
    assert_eq!(
        plan_fetch(i64::MIN + 5, None),
        FetchPlan::Fetch(TimeRange { start: i64::MIN, end: i64::MIN + 5 })
    );
    assert_eq!(
        plan_fetch(i64::MIN + HISTORY_WINDOW, None),
        FetchPlan::Fetch(TimeRange { start: i64::MIN, end: i64::MIN + HISTORY_WINDOW })
    );
}
