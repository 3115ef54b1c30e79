//! Trips, shots and references.

use vstd::prelude::*;
use crate::bytes::{
    i16_at, i32_at, i64_at, le_i16, le_i32, le_i64, le_u32, le_u8, lemma_skip_skip, spec_le_i16,
};
use crate::datetime::{parse_datetime, spec_datetime};
use crate::error::{decodes_to, Decoded, ParseError, ParseErrorView};
use crate::model::{Reference, ReferenceView, Shot, ShotFlags, ShotView, Trip, TripView};
use crate::sequence::{
    lemma_prepend_nothing, lemma_repeated_done, lemma_repeated_step, length_count, prepend,
    repeated,
};
use crate::station::{parse_station_id, station_at};
use crate::varint::{parse_string, spec_string};

verus! {

/// A trip: timestamp, comment, declination.
pub open spec fn spec_trip(s: Seq<u8>) -> Decoded<TripView> {
    match spec_datetime(s) {
        Err(e) => Err(e),
        Ok((time, after_time)) => match spec_string(after_time) {
            Err(e) => Err(e),
            Ok((comment, after_comment)) => match spec_le_i16(after_comment) {
                Err(e) => Err(e),
                Ok((declination, rest)) => Ok((TripView { time, comment, declination }, rest)),
            },
        },
    }
}

/// Reads a trip.
pub fn parse_trip<'a>(input: &'a [u8]) -> (r: Result<(&'a [u8], Trip<'a>), ParseError<'a>>)
    ensures
        decodes_to(r, spec_trip(input@)),
{
    let (input, time) = parse_datetime(input)?;
    let (input, comment) = parse_string(input)?;
    let (input, declination) = le_i16(input)?;
    Ok((input, Trip { time, comment, declination }))
}

/// The shot whose fixed part is stored at the start of `s`, with the given
/// comment.
///
/// | offset | field       |
/// |--------|-------------|
/// | 0      | from        |
/// | 4      | to          |
/// | 8      | distance    |
/// | 12     | azimuth     |
/// | 14     | inclination |
/// | 16     | flags       |
/// | 17     | roll        |
/// | 18     | trip index  |
pub open spec fn shot_at(s: Seq<u8>, comment: Option<Seq<char>>) -> ShotView {
    ShotView {
        from: station_at(s, 0),
        to: station_at(s, 4),
        distance: i32_at(s, 8),
        azimuth: i16_at(s, 12),
        inclination: i16_at(s, 14),
        flags: ShotFlags { bits: s[16] },
        roll: s[17],
        trip_index: i16_at(s, 18),
        comment,
    }
}

/// A shot: twenty bytes of fixed layout, then a comment if and only if bit 1
/// of the flag byte is set.
pub open spec fn spec_shot(s: Seq<u8>) -> Decoded<ShotView> {
    if s.len() < 20 {
        Err(ParseErrorView::Truncated)
    } else if (ShotFlags { bits: s[16] }).spec_has_comment() {
        match spec_string(s.skip(20)) {
            Err(e) => Err(e),
            Ok((comment, rest)) => Ok((shot_at(s, Some(comment)), rest)),
        }
    } else {
        Ok((shot_at(s, None), s.skip(20)))
    }
}

/// Reads a shot.
pub fn parse_shot<'a>(input: &'a [u8]) -> (r: Result<(&'a [u8], Shot<'a>), ParseError<'a>>)
    ensures
        decodes_to(r, spec_shot(input@)),
        r matches Ok((_, shot)) ==> shot.deep_view().well_formed(),
{
    let ghost s = input@;
    let (input, from) = parse_station_id(input)?;
    let (input, to) = parse_station_id(input)?;
    proof {
        assert(s.skip(0) =~= s);
        lemma_skip_skip(s, 4, 4);
    }
    let (input, distance) = le_i32(input)?;
    proof {
        lemma_skip_skip(s, 8, 4);
    }
    let (input, azimuth) = le_i16(input)?;
    proof {
        lemma_skip_skip(s, 12, 2);
    }
    let (input, inclination) = le_i16(input)?;
    proof {
        lemma_skip_skip(s, 14, 2);
    }
    let (input, flags) = le_u8(input)?;
    proof {
        lemma_skip_skip(s, 16, 1);
    }
    let (input, roll) = le_u8(input)?;
    proof {
        lemma_skip_skip(s, 17, 1);
    }
    let (input, trip_index) = le_i16(input)?;
    proof {
        lemma_skip_skip(s, 18, 2);
    }
    let flags = ShotFlags { bits: flags };
    let (input, comment) = if flags.has_comment() {
        let (input, text) = parse_string(input)?;
        (input, Some(text))
    } else {
        (input, None)
    };
    Ok((input, Shot { from, to, distance, azimuth, inclination, flags, roll, trip_index, comment }))
}

/// The reference whose fixed part is stored at the start of `s`, with the
/// given comment.
///
/// | offset | field    |
/// |--------|----------|
/// | 0      | station  |
/// | 4      | east     |
/// | 12     | north    |
/// | 20     | altitude |
pub open spec fn reference_at(s: Seq<u8>, comment: Seq<char>) -> ReferenceView {
    ReferenceView {
        station: station_at(s, 0),
        east: i64_at(s, 4),
        north: i64_at(s, 12),
        altitude: i32_at(s, 20),
        comment,
    }
}

/// A reference: twenty-four bytes of fixed layout, then a comment.
pub open spec fn spec_reference(s: Seq<u8>) -> Decoded<ReferenceView> {
    if s.len() < 24 {
        Err(ParseErrorView::Truncated)
    } else {
        match spec_string(s.skip(24)) {
            Err(e) => Err(e),
            Ok((comment, rest)) => Ok((reference_at(s, comment), rest)),
        }
    }
}

/// Reads a reference.
pub fn parse_reference<'a>(input: &'a [u8]) -> (r: Result<
    (&'a [u8], Reference<'a>),
    ParseError<'a>,
>)
    ensures
        decodes_to(r, spec_reference(input@)),
{
    let ghost s = input@;
    let (input, station) = parse_station_id(input)?;
    proof {
        assert(s.skip(0) =~= s);
    }
    let (input, east) = le_i64(input)?;
    proof {
        lemma_skip_skip(s, 4, 8);
    }
    let (input, north) = le_i64(input)?;
    proof {
        lemma_skip_skip(s, 12, 8);
    }
    let (input, altitude) = le_i32(input)?;
    proof {
        lemma_skip_skip(s, 20, 4);
    }
    let (input, comment) = parse_string(input)?;
    Ok((input, Reference { station, east, north, altitude, comment }))
}

/// The decoder of one trip, as a value.
pub open spec fn trip_item() -> spec_fn(Seq<u8>) -> Decoded<TripView> {
    |s: Seq<u8>| spec_trip(s)
}

/// The decoder of one shot, as a value.
pub open spec fn shot_item() -> spec_fn(Seq<u8>) -> Decoded<ShotView> {
    |s: Seq<u8>| spec_shot(s)
}

/// The decoder of one reference, as a value.
pub open spec fn reference_item() -> spec_fn(Seq<u8>) -> Decoded<ReferenceView> {
    |s: Seq<u8>| spec_reference(s)
}

/// The trips of a file: a count and that many trips.
pub open spec fn spec_trips(s: Seq<u8>) -> Decoded<Seq<TripView>> {
    length_count(trip_item(), s)
}

/// The shots of a file: a count and that many shots.
pub open spec fn spec_shots(s: Seq<u8>) -> Decoded<Seq<ShotView>> {
    length_count(shot_item(), s)
}

/// The references of a file: a count and that many references.
pub open spec fn spec_references(s: Seq<u8>) -> Decoded<Seq<ReferenceView>> {
    length_count(reference_item(), s)
}

/// Reads the trips.
pub fn parse_trips<'a>(input: &'a [u8]) -> (r: Result<(&'a [u8], Vec<Trip<'a>>), ParseError<'a>>)
    ensures
        decodes_to(r, spec_trips(input@)),
{
    let (after_count, count) = le_u32(input)?;
    let mut cur = after_count;
    let mut trips: Vec<Trip<'a>> = Vec::new();
    let mut i: u32 = 0;
    proof {
        assert(trips.deep_view() =~= Seq::empty());
        lemma_prepend_nothing(repeated(trip_item(), count as nat, cur@));
    }
    while i < count
        invariant
            i <= count,
            spec_trips(input@) == prepend(
                trips.deep_view(),
                repeated(trip_item(), (count - i) as nat, cur@),
            ),
        decreases count - i,
    {
        proof {
            lemma_repeated_step(trip_item(), (count - i) as nat, cur@, trips.deep_view());
        }
        let ghost done = trips.deep_view();
        let (rest, trip) = parse_trip(cur)?;
        trips.push(trip);
        proof {
            assert(trips.deep_view() =~= done.push(trip.deep_view()));
        }
        cur = rest;
        i = i + 1;
    }
    proof {
        lemma_repeated_done(trip_item(), cur@, trips.deep_view());
    }
    Ok((cur, trips))
}

/// Reads the shots.
pub fn parse_shots<'a>(input: &'a [u8]) -> (r: Result<(&'a [u8], Vec<Shot<'a>>), ParseError<'a>>)
    ensures
        decodes_to(r, spec_shots(input@)),
{
    let (after_count, count) = le_u32(input)?;
    let mut cur = after_count;
    let mut shots: Vec<Shot<'a>> = Vec::new();
    let mut i: u32 = 0;
    proof {
        assert(shots.deep_view() =~= Seq::empty());
        lemma_prepend_nothing(repeated(shot_item(), count as nat, cur@));
    }
    while i < count
        invariant
            i <= count,
            spec_shots(input@) == prepend(
                shots.deep_view(),
                repeated(shot_item(), (count - i) as nat, cur@),
            ),
        decreases count - i,
    {
        proof {
            lemma_repeated_step(shot_item(), (count - i) as nat, cur@, shots.deep_view());
        }
        let ghost done = shots.deep_view();
        let (rest, shot) = parse_shot(cur)?;
        shots.push(shot);
        proof {
            assert(shots.deep_view() =~= done.push(shot.deep_view()));
        }
        cur = rest;
        i = i + 1;
    }
    proof {
        lemma_repeated_done(shot_item(), cur@, shots.deep_view());
    }
    Ok((cur, shots))
}

/// Reads the references.
pub fn parse_references<'a>(input: &'a [u8]) -> (r: Result<(&'a [u8], Vec<Reference<'a>>), ParseError<'a>>)
    ensures
        decodes_to(r, spec_references(input@)),
{
    let (after_count, count) = le_u32(input)?;
    let mut cur = after_count;
    let mut references: Vec<Reference<'a>> = Vec::new();
    let mut i: u32 = 0;
    proof {
        assert(references.deep_view() =~= Seq::empty());
        lemma_prepend_nothing(repeated(reference_item(), count as nat, cur@));
    }
    while i < count
        invariant
            i <= count,
            spec_references(input@) == prepend(
                references.deep_view(),
                repeated(reference_item(), (count - i) as nat, cur@),
            ),
        decreases count - i,
    {
        proof {
            lemma_repeated_step(reference_item(), (count - i) as nat, cur@, references.deep_view());
        }
        let ghost done = references.deep_view();
        let (rest, reference) = parse_reference(cur)?;
        references.push(reference);
        proof {
            assert(references.deep_view() =~= done.push(reference.deep_view()));
        }
        cur = rest;
        i = i + 1;
    }
    proof {
        lemma_repeated_done(reference_item(), cur@, references.deep_view());
    }
    Ok((cur, references))
}

} // verus!
