use crate::types::usage::Reading;
use vstd::prelude::*;

verus! {

/// How far back the first fetch of an empty cache reaches: 365 days, in
/// microseconds. The metering service serves a year of half-hourly readings
/// in one request.
pub const HISTORY_WINDOW: i64 = 31_536_000_000_000;

/// A half-open range of time, from `start` up to but without `end`, in
/// microseconds since the Unix epoch.
#[derive(Debug, Clone, Copy, PartialEq, Eq, Structural)]
pub struct TimeRange {
    pub start: i64,
    pub end: i64,
}

/// What is still to be fetched for one kind of energy.
#[derive(Debug, Clone, Copy, PartialEq, Eq, Structural)]
pub enum FetchPlan {
    /// The cache is up to date: no request is to be made.
    NothingToFetch,
    /// The readings of this range are missing.
    Fetch(TimeRange),
}

/// The start of the history window that ends at `now`, held within what an
/// instant can be.
pub open spec fn window_start(now: i64) -> int {
    if now - HISTORY_WINDOW < i64::MIN {
        i64::MIN as int
    } else {
        now - HISTORY_WINDOW
    }
}

/// The range that is missing at `now`, given the most recent reading of the cache.
pub open spec fn plan(now: i64, most_recent: Option<Reading>) -> FetchPlan {
    match most_recent {
        None => FetchPlan::Fetch(TimeRange { start: window_start(now) as i64, end: now }),
        Some(r) => if r.interval_end >= now {
            FetchPlan::NothingToFetch
        } else {
            FetchPlan::Fetch(TimeRange { start: r.interval_end, end: now })
        },
    }
}

/// Says which range of time is to be fetched at `now`.
///
/// With no reading yet, it is the whole history window before `now`. With a
/// most recent reading, it is what lies between the end of that reading and
/// `now`; where nothing lies between them, nothing is to be fetched.
pub fn plan_fetch(now: i64, most_recent: Option<Reading>) -> (fetch: FetchPlan)
    ensures
        fetch == plan(now, most_recent),
        most_recent matches Some(r) ==> (fetch matches FetchPlan::Fetch(range) ==> range.start
            == r.interval_end && range.end == now && range.start < range.end),
        most_recent matches Some(r) ==> (fetch is NothingToFetch <==> r.interval_end >= now),
        most_recent is None ==> (fetch matches FetchPlan::Fetch(range) && range.end == now
            && range.start == window_start(now)),
{
    match most_recent {
        None => {
            let start: i64 = if now < i64::MIN + HISTORY_WINDOW {
                i64::MIN
            } else {
                now - HISTORY_WINDOW
            };
            FetchPlan::Fetch(TimeRange { start, end: now })
        },
        Some(r) => {
            if r.interval_end >= now {
                FetchPlan::NothingToFetch
            } else {
                FetchPlan::Fetch(TimeRange { start: r.interval_end, end: now })
            }
        },
    }
}

/// At the very end of the most recent reading nothing is to be fetched, and
/// any time later the range runs from that end to now.
pub proof fn lemma_plan_after_reading(r: Reading, now: i64)
    ensures
        now == r.interval_end ==> plan(now, Some(r)) == FetchPlan::NothingToFetch,
        now > r.interval_end ==> plan(now, Some(r)) == FetchPlan::Fetch(
            TimeRange { start: r.interval_end, end: now },
        ),
{
}

} // verus!
