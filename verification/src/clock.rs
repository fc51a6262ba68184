//! The one clock query the engine needs: today's and yesterday's local
//! midnights, for the time-bucket filter. Provided by an outside crate
//! behind a trusted wrapper; everything that depends on the values takes
//! them as arguments and is verified for every value.

use vstd::prelude::*;

verus! {

/// Relies on chrono's `Local::now`, `NaiveDate::and_hms_opt` and
/// `TimeZone::from_local_datetime`: returns the epoch milliseconds of the
/// local midnights opening yesterday and today, in that order; `None` when
/// a midnight does not exist or is ambiguous in the local time zone.
/// Yesterday's midnight precedes today's by a day, far more than any
/// time-zone shift, so the bounds are strictly ordered.
#[verifier::external_body]
pub(crate) fn local_day_bounds() -> (r: Option<(i64, i64)>)
    ensures
        r matches Some((yesterday_start, today_start)) ==> yesterday_start < today_start,
{
    let today = chrono::Local::now().date_naive();
    let yesterday = today - chrono::Duration::days(1);
    let today_start = chrono::TimeZone::from_local_datetime(
        &chrono::Local,
        &today.and_hms_opt(0, 0, 0)?,
    ).single()?.with_timezone(&chrono::Utc).timestamp_millis();
    let yesterday_start = chrono::TimeZone::from_local_datetime(
        &chrono::Local,
        &yesterday.and_hms_opt(0, 0, 0)?,
    ).single()?.with_timezone(&chrono::Utc).timestamp_millis();
    Some((yesterday_start, today_start))
}

} // verus!
