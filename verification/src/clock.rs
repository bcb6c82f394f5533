//! The two places where the library asks the outside world for a time: the
//! local wall clock, and the calendar form of a Unix-epoch seconds count
//! (the modification time of a log file, read by the caller).  Both go
//! through chrono; everything downstream works on [`Timestamp`] values.
use vstd::prelude::*;
use crate::timestamp::{civil_secs, days_in_month, unix_epoch_civil_secs, Timestamp};

verus! {

/// Relies on chrono::Local::now and the chrono::Datelike / chrono::Timelike
/// accessors: month is 1..=12, day is 1..=31, hour is below 24, minute and
/// second below 60.  The value itself depends on the clock and the machine's
/// time zone, so nothing more is promised.
#[verifier::external_body]
fn now_fields() -> (r: (i64, u32, u32, u32, u32, u32))
    ensures
        1 <= r.1 <= 12,
        1 <= r.2 <= 31,
        r.3 < 24,
        r.4 < 60,
        r.5 < 60,
{
    let n = chrono::Local::now().naive_local();
    (
        chrono::Datelike::year(&n) as i64,
        chrono::Datelike::month(&n),
        chrono::Datelike::day(&n),
        chrono::Timelike::hour(&n),
        chrono::Timelike::minute(&n),
        chrono::Timelike::second(&n),
    )
}

/// Relies on chrono::DateTime::<Utc>::from_timestamp: `secs` counts non-leap
/// seconds since 1970-01-01 00:00:00 UTC, so the fields handed back name the
/// moment exactly `secs` seconds after that epoch (stated through the
/// library's own seconds count, for the years the library models), zero is
/// the epoch itself, and every count up to the last second of year 9999 is
/// within chrono's documented range and so answered.  The fields always form
/// a real calendar date, with the ranges of chrono::Datelike /
/// chrono::Timelike.
#[verifier::external_body]
fn utc_fields_of_unix(secs: i64) -> (r: Option<(i64, u32, u32, u32, u32, u32)>)
    ensures
        r matches Some(f) ==> 1 <= f.1 <= 12 && 1 <= f.2 <= days_in_month(f.0 as int, f.1 as int)
            && f.3 < 24 && f.4 < 60 && f.5 < 60 && (0 <= f.0 <= 9999 ==> civil_secs(
            f.0 as int,
            f.1 as int,
            f.2 as int,
            f.3 as int,
            f.4 as int,
            f.5 as int,
        ) == secs + unix_epoch_civil_secs()) && (0 <= secs <= 253402300799 ==> 1970 <= f.0
            <= 9999),
        r is None ==> secs < 0 || secs > 253402300799,
        secs == 0 ==> r == Some((1970i64, 1u32, 1u32, 0u32, 0u32, 0u32)),
{
    let dt = chrono::DateTime::<chrono::Utc>::from_timestamp(secs, 0)?;
    let n = dt.naive_utc();
    Some((
        chrono::Datelike::year(&n) as i64,
        chrono::Datelike::month(&n),
        chrono::Datelike::day(&n),
        chrono::Timelike::hour(&n),
        chrono::Timelike::minute(&n),
        chrono::Timelike::second(&n),
    ))
}

/// The local wall clock, reduced to a library timestamp.  `None` when the
/// clock reports a moment the library's year range cannot hold.
pub fn current_timestamp() -> (r: Option<Timestamp>)
    ensures
        r matches Some(t) ==> t.valid(),
{
    let (y, mo, d, h, mi, s) = now_fields();
    Timestamp::new(y, mo, d, h, mi, s)
}

/// The calendar form (UTC) of a Unix-epoch seconds count.  When a timestamp
/// comes back it is valid and lies exactly `secs` seconds after the epoch;
/// zero gives the epoch sentinel itself, and every count from the epoch up
/// to the last second of year 9999 is answered.
pub fn timestamp_from_unix(secs: i64) -> (r: Option<Timestamp>)
    ensures
        r matches Some(t) ==> t.valid() && t.secs_spec() == secs + unix_epoch_civil_secs(),
        0 <= secs <= 253402300799 ==> r is Some,
        secs == 0 ==> r == Some(Timestamp::epoch_spec()),
{
    match utc_fields_of_unix(secs) {
        None => None,
        Some((y, mo, d, h, mi, s)) => Timestamp::new(y, mo, d, h, mi, s),
    }
}

} // verus!
