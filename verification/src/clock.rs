//! The engine's only window onto the host's clocks and time zone. Every
//! item here hands plain values in and out; what they return depends on the
//! instant of the call or the machine's zone, so the contracts promise only
//! what holds of every outcome.

use vstd::prelude::*;

verus! {

/// Relies on `chrono::Utc::now` and `chrono::DateTime::timestamp_millis`:
/// the current instant, in milliseconds since the Unix epoch.
#[verifier::external_body]
pub(crate) fn now_epoch_ms() -> i64 {
    chrono::Utc::now().timestamp_millis()
}

/// Relies on `chrono::Local::now` and the `chrono::Timelike` accessors
/// `hour`, `minute` and `second`, which are documented to return values in
/// 0..24, 0..60 and 0..60 respectively.
#[verifier::external_body]
pub(crate) fn local_hms_now() -> (r: (u32, u32, u32))
    ensures
        r.0 < 24,
        r.1 < 60,
        r.2 < 60,
{
    let now = chrono::Local::now();
    (
        chrono::Timelike::hour(&now),
        chrono::Timelike::minute(&now),
        chrono::Timelike::second(&now),
    )
}

/// Relies on `chrono::NaiveTime::from_hms_milli_opt`,
/// `chrono::NaiveDate::and_time` and
/// `chrono::TimeZone::from_local_datetime` on `chrono::Local`: the given
/// time of day on today's local calendar date, resolved to an absolute
/// instant (milliseconds since the Unix epoch). `None` when the naive
/// timestamp is ambiguous or invalid under the local zone's rules (a DST
/// transition). The result depends on the machine's zone and today's date,
/// so nothing is promised of its value.
#[verifier::external_body]
pub(crate) fn resolve_local_today(hour: u32, minute: u32, second: u32, milli: u32) -> (r: Option<
    i64,
>)
    requires
        hour < 24,
        minute < 60,
        second < 60,
        milli < 1000,
{
    let date = chrono::Local::now().date_naive();
    let time = match chrono::NaiveTime::from_hms_milli_opt(hour, minute, second, milli) {
        Some(t) => t,
        None => return None,
    };
    match chrono::TimeZone::from_local_datetime(&chrono::Local, &date.and_time(time)).single() {
        Some(dt) => Some(dt.timestamp_millis()),
        None => None,
    }
}

} // verus!
