//! Instants and their RFC 3339 text.

use crate::remote::text::{is_before, text_before};
use time::format_description::well_known::Rfc3339;
use time::OffsetDateTime;
use vstd::prelude::*;

verus! {

/// The error of a failed format.
#[verifier::external_type_specification]
#[verifier::external_body]
pub struct ExFormatError(time::error::Format);

/// The error of a failed parse.
#[verifier::external_type_specification]
#[verifier::external_body]
pub struct ExParseError(time::error::Parse);

/// The nanosecond at which the year -9999 begins, counted from the Unix epoch.
pub const FIRST_NANOSECOND: i128 = -377_705_116_800_000_000_000;

/// The nanosecond at which the year 0 begins, counted from the Unix epoch.
pub const YEAR_ZERO_NANOSECOND: i128 = -62_167_219_200_000_000_000;

/// The last nanosecond of the year 9999, counted from the Unix epoch.
pub const LAST_NANOSECOND: i128 = 253_402_300_799_999_999_999;

/// The instants that a date and time can hold: the years -9999 to 9999.
pub open spec fn is_instant(unix_nanos: int) -> bool {
    FIRST_NANOSECOND <= unix_nanos <= LAST_NANOSECOND
}

/// The instants that RFC 3339 can write: the years 0 to 9999.
pub open spec fn has_rfc3339_text(unix_nanos: int) -> bool {
    YEAR_ZERO_NANOSECOND <= unix_nanos <= LAST_NANOSECOND
}

/// The RFC 3339 text, in UTC, of an instant counted in nanoseconds from the Unix epoch.
pub uninterp spec fn rfc3339_text(unix_nanos: int) -> Seq<char>;

/// The Unix timestamp, in whole seconds, of the instant that an RFC 3339 text
/// denotes, or `None` where the text is no RFC 3339 date and time.
pub uninterp spec fn rfc3339_seconds(text: Seq<char>) -> Option<i64>;

/// The instant that an RFC 3339 text denotes, in nanoseconds from the Unix epoch, or
/// `None` where the text is no RFC 3339 date and time.
pub uninterp spec fn rfc3339_nanos(text: Seq<char>) -> Option<i128>;

/// `OffsetDateTime::now_utc`, as nanoseconds from the Unix epoch. The result
/// rests on the system clock; it is an instant that a date and time can hold,
/// and nothing more is claimed of it.
#[verifier::external_body]
pub(crate) fn now_utc() -> (unix_nanos: i128)
    ensures
        is_instant(unix_nanos as int),
{
    OffsetDateTime::now_utc().unix_timestamp_nanos()
}

/// Whether an instant, in nanoseconds from the Unix epoch, is a reading of the system
/// clock: one that a call of `now_utc` can return. No instant is known to be one but
/// for such a call; which reading came when is left open.
pub closed spec fn is_clock_reading(unix_nanos: i128) -> bool {
    call_ensures(now_utc, (), unix_nanos)
}

/// Only what `now_utc` returns is a reading of the clock.
pub(crate) proof fn law_clock_readings_come_from_the_clock(unix_nanos: i128)
    ensures
        is_clock_reading(unix_nanos) <==> call_ensures(now_utc, (), unix_nanos),
{
}

/// `OffsetDateTime::format` with the well-known format `Rfc3339`, of the UTC date
/// and time at `unix_nanos`. It succeeds for the years 0 to 9999 and for no other;
/// `rfc3339_text` names the text that it then gives.
#[verifier::external_body]
pub(crate) fn format_rfc3339(unix_nanos: i128) -> (text: Result<String, time::error::Format>)
    requires
        is_instant(unix_nanos as int),
    ensures
        text is Ok <==> has_rfc3339_text(unix_nanos as int),
        text is Ok ==> text->Ok_0@ == rfc3339_text(unix_nanos as int),
{
    let instant = OffsetDateTime::from_unix_timestamp_nanos(unix_nanos).unwrap();
    instant.format(&Rfc3339)
}

/// `OffsetDateTime::parse` with the well-known format `Rfc3339`, the parsed value
/// taken as its Unix timestamp. `rfc3339_seconds` names the outcome: the timestamp,
/// or `None` where the parse fails.
#[verifier::external_body]
pub(crate) fn parse_rfc3339(text: &str) -> (seconds: Result<i64, time::error::Parse>)
    ensures
        rfc3339_seconds(text@) == (match seconds {
            Ok(timestamp) => Some(timestamp),
            Err(_) => None,
        }),
{
    match OffsetDateTime::parse(text, &Rfc3339) {
        Ok(instant) => Ok(instant.unix_timestamp()),
        Err(error) => Err(error),
    }
}

/// `OffsetDateTime::parse` with the well-known format `Rfc3339`, the parsed value
/// taken as its nanoseconds from the Unix epoch. `rfc3339_nanos` names the outcome: the
/// nanoseconds, or `None` where the parse fails. Digits behind the nanosecond are cut off.
#[verifier::external_body]
pub(crate) fn parse_rfc3339_nanos(text: &str) -> (nanos: Result<i128, time::error::Parse>)
    ensures
        rfc3339_nanos(text@) == (match nanos {
            Ok(unix_nanos) => Some(unix_nanos),
            Err(_) => None,
        }),
{
    match OffsetDateTime::parse(text, &Rfc3339) {
        Ok(instant) => Ok(instant.unix_timestamp_nanos()),
        Err(error) => Err(error),
    }
}

/// The instant of an RFC 3339 text, in nanoseconds from the Unix epoch, or `None` where
/// the text is none.
pub fn unix_nanos(text: &str) -> (nanos: Option<i128>)
    ensures
        nanos == rfc3339_nanos(text@),
{
    match parse_rfc3339_nanos(text) {
        Ok(nanos) => Some(nanos),
        Err(_) => None,
    }
}

/// Whether the time that `a` gives lies before the one that `b` gives: their instants
/// are compared where both can be read, whatever their offsets, and their texts where
/// one cannot. A timestamp in whole seconds stands for the start of its second, and so
/// lies before one with a fraction in the same second.
pub open spec fn time_before(
    a: Seq<char>,
    b: Seq<char>,
    a_nanos: Option<i128>,
    b_nanos: Option<i128>,
) -> bool {
    match (a_nanos, b_nanos) {
        (Some(x), Some(y)) => x < y,
        _ => text_before(a, b),
    }
}

/// Whether the timestamp `a` gives a time before that of the timestamp `b`.
pub open spec fn timestamp_before(a: Seq<char>, b: Seq<char>) -> bool {
    time_before(a, b, rfc3339_nanos(a), rfc3339_nanos(b))
}

/// Whether the time that `a` gives lies before the one that `b` gives, where the two
/// denote these instants.
pub fn is_time_before(
    a: &str,
    b: &str,
    a_nanos: Option<i128>,
    b_nanos: Option<i128>,
) -> (before: bool)
    ensures
        before == time_before(a@, b@, a_nanos, b_nanos),
{
    match (a_nanos, b_nanos) {
        (Some(x), Some(y)) => x < y,
        _ => is_before(a, b),
    }
}

} // verus!
