//! Timestamps: from ticks of 100 ns since the start of year 1 to calendar time.

use chrono::{DateTime, NaiveDateTime};
use vstd::prelude::*;
use crate::bytes::{le_i64, spec_le_i64};
use crate::error::{ParseError, ParseErrorView};

verus! {

/// `chrono::NaiveDateTime`, a calendar date and time of day without a time
/// zone. Its contents are not modelled; values are only passed on.
#[verifier::external_type_specification]
#[verifier::external_body]
pub struct ExNaiveDateTime(NaiveDateTime);

/// Ticks in a second.
pub const TICKS_PER_SECOND: i64 = 10_000_000;

/// Seconds from the start of year 1 to the start of 1970.
pub const SECONDS_TO_UNIX_EPOCH: i64 = 62_135_596_800;

/// Whole seconds since the start of 1970 at `ticks`, rounded towards the past.
pub open spec fn unix_seconds(ticks: i64) -> int {
    ticks as int / 10_000_000 - 62_135_596_800
}

/// Nanoseconds since the last whole second at `ticks`. A tick is a hundred
/// nanoseconds, so nothing below a second is lost.
pub open spec fn subsec_nanos(ticks: i64) -> int {
    (ticks as int % 10_000_000) * 100
}

/// Splits a tick count into seconds since 1970 and nanoseconds within the
/// second.
pub fn split_ticks(ticks: i64) -> (r: (i64, u32))
    ensures
        r.0 == unix_seconds(ticks),
        r.1 == subsec_nanos(ticks),
        r.1 < 1_000_000_000,
{
    if ticks >= 0 {
        let seconds: i64 = ticks / TICKS_PER_SECOND - SECONDS_TO_UNIX_EPOCH;
        let nanos: u32 = ((ticks % TICKS_PER_SECOND) as u32) * 100;
        (seconds, nanos)
    } else {
        let before: i64 = -(ticks + 1);
        let seconds: i64 = -(before / TICKS_PER_SECOND) - 1 - SECONDS_TO_UNIX_EPOCH;
        let nanos: u32 = ((TICKS_PER_SECOND - 1 - before % TICKS_PER_SECOND) as u32) * 100;
        (seconds, nanos)
    }
}

/// The calendar time `chrono` assigns to a UNIX timestamp, `None` where it
/// has none.
pub uninterp spec fn datetime_at(seconds: int, nanos: int) -> Option<NaiveDateTime>;

/// `chrono::DateTime::from_timestamp`, read as a time without zone: the
/// calendar time that lies `seconds` seconds and `nanos` nanoseconds after
/// the start of 1970. The result is fixed by the two numbers. Every second
/// within a million million of 1970 (some 31 000 years) has one, as long as
/// the nanoseconds stay below a second.
#[verifier::external_body]
fn datetime_from_timestamp(seconds: i64, nanos: u32) -> (r: Option<NaiveDateTime>)
    ensures
        r == datetime_at(seconds as int, nanos as int),
        -1_000_000_000_000 <= seconds <= 1_000_000_000_000 && nanos < 1_000_000_000
            ==> r is Some,
{
    match DateTime::from_timestamp(seconds, nanos) {
        Some(time) => Some(time.naive_utc()),
        None => None,
    }
}

/// The calendar time at `ticks`.
pub open spec fn datetime_of_ticks(ticks: i64) -> NaiveDateTime {
    datetime_at(unix_seconds(ticks), subsec_nanos(ticks))->Some_0
}

/// Converts a tick count to calendar time.
pub fn datetime_from_ticks(ticks: i64) -> (r: NaiveDateTime)
    ensures
        r == datetime_of_ticks(ticks),
        datetime_at(unix_seconds(ticks), subsec_nanos(ticks)) == Some(r),
{
    let (seconds, nanos) = split_ticks(ticks);
    match datetime_from_timestamp(seconds, nanos) {
        Some(time) => time,
        None => {
            proof {
                assert(false);
            }
            vstd::pervasive::unreached()
        },
    }
}

/// A timestamp: a signed 64-bit tick count, read as calendar time.
pub open spec fn spec_datetime(s: Seq<u8>) -> Result<(NaiveDateTime, Seq<u8>), ParseErrorView> {
    match spec_le_i64(s) {
        Err(e) => Err(e),
        Ok((ticks, rest)) => Ok((datetime_of_ticks(ticks), rest)),
    }
}

/// Reads a timestamp: a signed 64-bit tick count.
pub fn parse_datetime<'a>(input: &'a [u8]) -> (r: Result<
    (&'a [u8], NaiveDateTime),
    ParseError<'a>,
>)
    ensures
        match r {
            Ok((rest, time)) => spec_datetime(input@) == Ok::<
                (NaiveDateTime, Seq<u8>),
                ParseErrorView,
            >((time, rest@)),
            Err(e) => spec_datetime(input@) == Err::<(NaiveDateTime, Seq<u8>), ParseErrorView>(
                e.deep_view(),
            ),
        },
{
    let (input, ticks) = le_i64(input)?;
    Ok((input, datetime_from_ticks(ticks)))
}

} // verus!
