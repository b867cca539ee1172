//! The current time, as the text that rows store in their timestamp fields.

use chrono::DateTime;
use std::time::{Duration, SystemTime};
use vstd::prelude::*;

use crate::model::opt_str_view;

verus! {

/// The system clock's reading.
#[verifier::external_type_specification]
#[verifier::external_body]
pub struct ExSystemTime(SystemTime);

/// Holds of text that is at least 25 characters long and ends with the UTC
/// offset `+00:00`, as every text that `chrono` writes for a UTC time in RFC 3339
/// form is.
pub open spec fn is_utc_rfc3339_shaped(s: Seq<char>) -> bool {
    &&& s.len() >= 25
    &&& s[s.len() - 6] == '+'
    &&& s[s.len() - 5] == '0'
    &&& s[s.len() - 4] == '0'
    &&& s[s.len() - 3] == ':'
    &&& s[s.len() - 2] == '0'
    &&& s[s.len() - 1] == '0'
}

/// Holds of text that `chrono` writes, in RFC 3339 form, for some UTC time given
/// by whole seconds and a nanosecond fraction below one second since the epoch:
/// text that a reading of the clock can give.
pub open spec fn is_clock_text(s: Seq<char>) -> bool {
    exists|secs: i64, nanos: u32| nanos < 1_000_000_000 && #[trigger] utc_rfc3339_text(secs, nanos) == Some(s)
}

/// Reads the system clock through `SystemTime::now`. Trusted; nothing is claimed
/// of the reading, which depends on the clock.
#[verifier::external_body]
fn system_time_now() -> SystemTime {
    SystemTime::now()
}

/// The time since the Unix epoch through `SystemTime::duration_since`, `None`
/// when the reading lies before the epoch (the standard library's `Err`).
/// Trusted; nothing is claimed of the result, which depends on the reading.
#[verifier::external_body]
fn duration_since_unix_epoch(t: &SystemTime) -> Option<Duration> {
    t.duration_since(SystemTime::UNIX_EPOCH).ok()
}

/// The whole seconds of a duration, through `Duration::as_secs`. Trusted; the
/// duration is opaque here, so nothing is claimed of the result.
#[verifier::external_body]
fn duration_secs(d: &Duration) -> u64 {
    d.as_secs()
}

/// The fractional part of a duration in nanoseconds, through
/// `Duration::subsec_nanos`. Trusted: as the standard library documents, it is
/// below one billion.
#[verifier::external_body]
fn duration_subsec_nanos(d: &Duration) -> (r: u32)
    ensures
        r < 1_000_000_000,
{
    d.subsec_nanos()
}

/// The RFC 3339 text of the UTC time `secs` seconds and `nanos` nanoseconds
/// after the Unix epoch, as `chrono` writes it; `None` when `chrono` has no such time.
pub uninterp spec fn utc_rfc3339_text(secs: i64, nanos: u32) -> Option<Seq<char>>;

/// The UTC time `secs` seconds and `nanos` nanoseconds after the Unix epoch,
/// through `DateTime::from_timestamp` (`None` when it is out of `chrono`'s range),
/// written with `DateTime::to_rfc3339`. The two calls share one wrapper because
/// `DateTime` cannot be declared here: its parameter is bound by `chrono`'s
/// `TimeZone` trait, which Verus does not accept. Trusted: the result depends on
/// the arguments alone (it is named above), and every text that `chrono` writes
/// for a UTC time has the shape above (a year of at least four characters,
/// `-MM-DDTHH:MM:SS`, optional fractional seconds, then `+00:00`). The range of
/// times that `chrono` accepts is left unsaid.
#[verifier::external_body]
fn utc_rfc3339_of_timestamp(secs: i64, nanos: u32) -> (r: Option<String>)
    ensures
        opt_str_view(r) == utc_rfc3339_text(secs, nanos),
        r matches Some(s) ==> is_utc_rfc3339_shaped(s@),
{
    match DateTime::from_timestamp(secs, nanos) {
        Some(t) => Some(t.to_rfc3339()),
        None => None,
    }
}

/// The current time as RFC 3339 UTC text, read as `chrono::Utc::now` reads it
/// (whole seconds since the epoch taken as an `i64`); `None` when the clock reads
/// before the Unix epoch or beyond `chrono`'s range.
pub fn now_rfc3339() -> (r: Option<String>)
    ensures
        r matches Some(s) ==> is_utc_rfc3339_shaped(s@),
        r matches Some(s) ==> exists|secs: i64, nanos: u32|
            nanos < 1_000_000_000 && #[trigger] utc_rfc3339_text(secs, nanos) == Some(s@),
        r matches Some(s) ==> is_clock_text(s@),
{
    let t = system_time_now();
    match duration_since_unix_epoch(&t) {
        None => None,
        Some(d) => {
            let secs = duration_secs(&d);
            let nanos = duration_subsec_nanos(&d);
            let secs_i64: i64 = #[verifier::truncate] (secs as i64);
            let r = utc_rfc3339_of_timestamp(secs_i64, nanos);
            proof {
                if r is Some {
                    assert(utc_rfc3339_text(secs_i64, nanos) == Some(r->0@));
                }
            }
            r
        },
    }
}

} // verus!
