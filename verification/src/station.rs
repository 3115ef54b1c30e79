//! Station identifiers and their packed 32-bit encoding.

use vstd::prelude::*;
use crate::bytes::{le_u32, spec_le_u32, u32_at};
use crate::error::{decodes_to, Decoded, ParseError};

verus! {

/// Names a survey station, either as a `major.minor` pair or as a plain number.
#[derive(Debug, PartialEq, Eq, Structural)]
pub enum StationId {
    MajorMinor(u16, u16),
    Plain(u32),
}

impl DeepView for StationId {
    type V = StationId;

    open spec fn deep_view(&self) -> StationId {
        *self
    }
}

impl StationId {
    /// Whether the identifier has a packed form: a plain number must leave
    /// room for the offset of one within 31 bits, and a major number must
    /// leave the top bit clear.
    pub open spec fn is_encodable(&self) -> bool {
        match *self {
            StationId::Plain(number) => number <= 0x7FFF_FFFE,
            StationId::MajorMinor(major, _) => major <= 0x7FFF,
        }
    }
}

/// The pattern that stands for "no station".
pub const UNDEFINED_STATION: u32 = 0x8000_0000;

/// The station that the packed value `raw` names, if any.
///
/// The top bit tells the two forms apart. With it set, the remaining 31 bits
/// hold a plain number plus one, zero being kept for "no station". With it
/// clear, the upper half is the major and the lower half the minor number.
pub open spec fn station_of(raw: u32) -> Option<StationId> {
    if raw == 0x8000_0000 {
        None
    } else if raw > 0x8000_0000 {
        Some(StationId::Plain((raw - 0x8000_0001) as u32))
    } else {
        Some(StationId::MajorMinor((raw / 0x1_0000) as u16, (raw % 0x1_0000) as u16))
    }
}

/// The packed value that names `station`.
pub open spec fn pattern_of(station: Option<StationId>) -> u32
    recommends
        station matches Some(id) ==> id.is_encodable(),
{
    match station {
        None => 0x8000_0000,
        Some(StationId::Plain(number)) => (number + 0x8000_0001) as u32,
        Some(StationId::MajorMinor(major, minor)) => (major * 0x1_0000 + minor) as u32,
    }
}

/// The station whose packed identifier is stored at offset `at` of `s`.
pub open spec fn station_at(s: Seq<u8>, at: int) -> Option<StationId> {
    station_of(u32_at(s, at))
}

/// Unpacks a station identifier.
pub fn decode_station_id(raw: u32) -> (r: Option<StationId>)
    ensures
        r == station_of(raw),
        r matches Some(id) ==> id.is_encodable(),
{
    if raw == UNDEFINED_STATION {
        None
    } else if raw > UNDEFINED_STATION {
        Some(StationId::Plain(raw - 0x8000_0001))
    } else {
        Some(StationId::MajorMinor((raw / 0x1_0000) as u16, (raw % 0x1_0000) as u16))
    }
}

/// A packed station identifier in four bytes.
pub open spec fn spec_station_id(s: Seq<u8>) -> Decoded<Option<StationId>> {
    match spec_le_u32(s) {
        Ok((raw, rest)) => Ok((station_of(raw), rest)),
        Err(e) => Err(e),
    }
}

/// Reads a packed station identifier.
pub fn parse_station_id<'a>(input: &'a [u8]) -> (r: Result<
    (&'a [u8], Option<StationId>),
    ParseError<'a>,
>)
    ensures
        decodes_to(r, spec_station_id(input@)),
{
    let (input, raw) = le_u32(input)?;
    Ok((input, decode_station_id(raw)))
}

} // verus!
