//! The calls into the calendar library: the present instant, which instants
//! it can hold, and the calendar date of an instant.

use chrono::TimeZone;
use vstd::prelude::*;

verus! {

/// Whether the calendar library can hold the instant: it lies from the
/// first second of the year 262144 BCE to the last of the year 262142 CE.
pub open spec fn representable(seconds: i64) -> bool {
    -8_334_601_228_800 <= seconds <= 8_210_266_876_799
}

/// The calendar date of an instant in UTC, written as year, month and day
/// with hyphens between them; `None` where the calendar library cannot hold
/// the instant.
pub uninterp spec fn date_text(seconds: i64) -> Option<Seq<char>>;

/// The date and the time of day of an instant in UTC, written as year, month
/// and day with hyphens, a space, hour, minute and second with colons, and
/// ` UTC`; `None` where the calendar library cannot hold the instant.
pub uninterp spec fn time_text(seconds: i64) -> Option<Seq<char>>;

/// Calls `chrono::DateTime::from_timestamp` and formats the instant with
/// `DateTime::format` and the pattern `%Y-%m-%d %H:%M:%S UTC`. The contract
/// gives the result its name, and says that there is one exactly for the
/// instants that the calendar library can hold.
#[verifier::external_body]
pub(crate) fn time_label(seconds: i64) -> (r: Option<String>)
    ensures
        r.deep_view() == time_text(seconds),
        r is Some <==> representable(seconds),
{
    chrono::DateTime::from_timestamp(seconds, 0).map(
        |t| t.format("%Y-%m-%d %H:%M:%S UTC").to_string(),
    )
}

/// Reads the system clock with `std::time::SystemTime::now` and turns it
/// into an instant with chrono's `From<SystemTime>` for `DateTime<Utc>` and
/// `DateTime::timestamp`. Which instant that is, is not promised. The
/// conversion takes a clock that stands before the epoch too; it returns
/// only where the clock stands within the calendar's range, and no argument
/// decides that. It makes its value with `TimeZone::timestamp_opt`, and
/// `timestamp` gives back the seconds that a value was made from, so the
/// contract claims that the calendar library can hold the instant.
#[verifier::external_body]
pub(crate) fn now_seconds() -> (seconds: i64)
    ensures
        representable(seconds),
{
    chrono::DateTime::<chrono::Utc>::from(std::time::SystemTime::now()).timestamp()
}

/// Calls `TimeZone::timestamp_opt` on `chrono::Utc` and says whether it gave
/// one instant. It does so for the seconds whose day lies within the years
/// that `chrono::NaiveDate` can hold, which is the range that the contract
/// states.
#[verifier::external_body]
pub(crate) fn is_representable(seconds: i64) -> (r: bool)
    ensures
        r == representable(seconds),
{
    chrono::Utc.timestamp_opt(seconds, 0).single().is_some()
}

/// Calls `chrono::DateTime::from_timestamp` and formats the date with
/// `DateTime::format` and the pattern `%Y-%m-%d`. The contract gives the
/// result its name, and says that there is one exactly for the instants that
/// the calendar library can hold.
#[verifier::external_body]
pub(crate) fn date_label(seconds: i64) -> (r: Option<String>)
    ensures
        r.deep_view() == date_text(seconds),
        r is Some <==> representable(seconds),
{
    chrono::DateTime::from_timestamp(seconds, 0).map(|t| t.format("%Y-%m-%d").to_string())
}

/// The instant of a commit: its own time where the calendar can hold it,
/// the present instant where it cannot. Either way the calendar can hold
/// the instant that is returned.
pub fn convert_timestamp(seconds: i64) -> (timestamp: i64)
    ensures
        representable(timestamp),
        representable(seconds) ==> timestamp == seconds,
{
    if is_representable(seconds) {
        seconds
    } else {
        now_seconds()
    }
}

} // verus!
