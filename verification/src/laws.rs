//! Properties of the format that hold for every input.

use vstd::prelude::*;
use crate::bytes::spec_le_u32;
use crate::drawing::{mapping_at, spec_drawing, spec_element, spec_elements};
use crate::error::{ParseError, ParseErrorView};
use crate::model::{DrawingView, ElementView, ReferenceView, ShotView, TripView};
use crate::parser::{
    header_bytes, magic, outcome_view, spec_header, spec_parse, spec_version, Document,
    DocumentView,
};
use crate::records::{shot_at, shot_item, spec_references, spec_shot, spec_shots, spec_trips};
use crate::sequence::lemma_repeated_all;
use crate::station::{pattern_of, station_of, StationId};
use crate::varint::{spec_string, spec_variable_length_little_endian_int};

verus! {

/// A buffer that does not begin with the magic bytes is rejected, and the
/// failure carries its first three bytes, or all of it where it is shorter.
pub proof fn lemma_wrong_magic_is_rejected(s: Seq<u8>)
    requires
        header_bytes(s) != magic(),
    ensures
        spec_parse(s) == Err::<DocumentView, ParseErrorView>(
            ParseErrorView::InvalidHeader(header_bytes(s)),
        ),
{
}

/// A buffer that begins with the magic bytes and goes on with a version byte
/// other than 3 is rejected, and the failure carries that byte.
pub proof fn lemma_wrong_version_is_rejected(s: Seq<u8>)
    requires
        s.len() >= 4,
        s.take(3) == magic(),
        s[3] != 3,
    ensures
        spec_parse(s) == Err::<DocumentView, ParseErrorView>(
            ParseErrorView::UnsupportedVersion(s[3]),
        ),
{
}

/// A packed station identifier read bit by bit: the pattern with only the
/// top bit set is "no station"; any other pattern with the top bit set is a
/// plain number, found by clearing that bit and subtracting one; a pattern
/// with the top bit clear holds the major number in its upper and the minor
/// number in its lower sixteen bits.
pub proof fn lemma_station_bit_pattern(raw: u32)
    ensures
        raw == 0x8000_0000u32 ==> station_of(raw) == None::<StationId>,
        raw != 0x8000_0000u32 && raw & 0x8000_0000u32 != 0 ==> station_of(raw) == Some(
            StationId::Plain(((raw ^ 0x8000_0000u32) - 1) as u32),
        ),
        raw & 0x8000_0000u32 == 0 ==> station_of(raw) == Some(
            StationId::MajorMinor((raw >> 16) as u16, (raw & 0xFFFF) as u16),
        ),
{
    assert(raw & 0x8000_0000u32 != 0 <==> raw >= 0x8000_0000u32) by (bit_vector);
    assert(raw >= 0x8000_0000u32 ==> (raw ^ 0x8000_0000u32) == raw - 0x8000_0000u32)
        by (bit_vector);
    assert(raw >> 16 == raw / 0x1_0000) by (bit_vector);
    assert(raw & 0xFFFF == raw % 0x1_0000) by (bit_vector);
}

/// Different patterns name different stations: nothing is lost in unpacking.
pub proof fn lemma_station_encoding_is_lossless(a: u32, b: u32)
    requires
        station_of(a) == station_of(b),
    ensures
        a == b,
{
}

/// Packing is the inverse of unpacking: every pattern is the packed form of
/// the station it names.
pub proof fn lemma_station_pattern_is_recovered(raw: u32)
    ensures
        pattern_of(station_of(raw)) == raw,
{
}

/// Every station that has a packed form, and "no station", is what its
/// packed form unpacks to.
pub proof fn lemma_station_is_recovered(station: Option<StationId>)
    requires
        station matches Some(id) ==> id.is_encodable(),
    ensures
        station_of(pattern_of(station)) == station,
{
}

/// A variable-length integer whose first byte has its top bit clear is that
/// byte, and only that byte is consumed.
pub proof fn lemma_single_byte_varint(s: Seq<u8>)
    requires
        s.len() > 0,
        s[0] < 0x80,
    ensures
        spec_variable_length_little_endian_int(s) == Ok::<(usize, Seq<u8>), ParseErrorView>(
            (s[0] as usize, s.skip(1)),
        ),
{
}

/// A shot whose flag byte has bit 1 clear has no comment and ends after its
/// twenty fixed bytes: nothing more is consumed.
pub proof fn lemma_shot_without_comment(s: Seq<u8>)
    requires
        s.len() >= 20,
        s[16] & 0x02 != 0x02,
    ensures
        spec_shot(s) == Ok::<(ShotView, Seq<u8>), ParseErrorView>((shot_at(s, None), s.skip(20))),
{
}

/// A shot whose flag byte has bit 1 set goes on, right after its twenty fixed
/// bytes, with a string: that string is its comment, the shot ends where the
/// string ends, and a failure of the string is the failure of the shot.
pub proof fn lemma_shot_with_comment(s: Seq<u8>)
    requires
        s.len() >= 20,
        s[16] & 0x02 == 0x02,
    ensures
        spec_shot(s) == match spec_string(s.skip(20)) {
            Ok((comment, rest)) => Ok::<(ShotView, Seq<u8>), ParseErrorView>(
                (shot_at(s, Some(comment)), rest),
            ),
            Err(e) => Err(e),
        },
{
}

/// In a document that was decoded, every shot has a comment exactly when its
/// flags announce one.
pub proof fn lemma_shots_are_well_formed(s: Seq<u8>)
    ensures
        spec_parse(s) matches Ok(document) ==> forall|i: int|
            0 <= i < document.shots.len() ==> (#[trigger] document.shots[i]).well_formed(),
{
    let holds = |shot: ShotView| shot.well_formed();
    assert forall|input: Seq<u8>| (#[trigger] shot_item()(input)) matches Ok((shot, _))
        ==> holds(shot) by {}
    if let Ok((_, after_header)) = spec_header(s) {
        if let Ok((_, after_version)) = spec_version(after_header) {
            if let Ok((_, after_trips)) = spec_trips(after_version) {
                if let Ok((count, after_count)) = spec_le_u32(after_trips) {
                    lemma_repeated_all(shot_item(), count as nat, after_count, holds);
                }
            }
        }
    }
}

/// Where the next byte is the tag of neither a polygon nor a cross-section,
/// the elements end: with success, consuming that one byte, if it is zero;
/// with a failure otherwise.
pub proof fn lemma_elements_stop_at_other_byte(s: Seq<u8>)
    requires
        s.len() > 0,
        s[0] != 0x01,
        s[0] != 0x03,
    ensures
        spec_elements(s) == if s[0] == 0x00 {
            Ok::<(Seq<ElementView>, Seq<u8>), ParseErrorView>((Seq::empty(), s.skip(1)))
        } else {
            Err(ParseErrorView::UnknownError)
        },
{
}

/// Elements that were decoded end with a zero byte: the bytes that remain
/// start right after it.
pub proof fn lemma_elements_end_with_zero(s: Seq<u8>)
    ensures
        match spec_elements(s) {
            Ok((elements, rest)) => {
                &&& rest.len() < s.len()
                &&& rest == s.skip(s.len() - rest.len())
                &&& s[s.len() - rest.len() - 1] == 0x00
            },
            Err(e) => true,
        },
    decreases s.len(),
{
    if s.len() >= 1 && s[0] != 0x00 {
        match spec_element(s) {
            Err(e) => {},
            Ok((first, after)) => {
                lemma_elements_end_with_zero(after);
                match spec_elements(after) {
                    Err(e) => {},
                    Ok((others, rest)) => {
                        let k = s.len() - after.len();
                        assert(after == s.skip(k));
                        assert(s.skip(k).skip(after.len() - rest.len()) =~= s.skip(
                            s.len() - rest.len(),
                        ));
                    },
                }
            },
        }
    }
}

/// A file without trips, shots and references, followed by an overview
/// mapping and two drawings without elements.
pub open spec fn empty_file(overview: Seq<u8>, outline: Seq<u8>, sideview: Seq<u8>) -> Seq<u8> {
    magic() + seq![3u8] + Seq::new(12, |i: int| 0u8) + overview + outline + seq![0u8] + sideview
        + seq![0u8]
}

/// A mapping is fixed by the twelve bytes it is stored in.
proof fn lemma_mapping_of_twelve_bytes(s: Seq<u8>, at: int, bytes: Seq<u8>)
    requires
        0 <= at,
        at + 12 <= s.len(),
        bytes.len() == 12,
        forall|i: int| 0 <= i < 12 ==> s[at + i] == bytes[i],
    ensures
        mapping_at(s.skip(at), 0) == mapping_at(bytes, 0),
{
    let a = s.skip(at);
    assert forall|k: int, j: int| 0 <= k <= 8 && 0 <= j < 4 implies #[trigger] a.skip(k)[j]
        == bytes.skip(k)[j] by {
        assert(a.skip(k)[j] == s[at + (k + j)]);
    }
    assert(a.skip(0)[0] == bytes.skip(0)[0]);
    assert(a.skip(4)[0] == bytes.skip(4)[0]);
    assert(a.skip(8)[0] == bytes.skip(8)[0]);
}

/// A file with no trips, no shots and no references, followed by any
/// overview mapping and two drawings that hold a mapping and no element, is
/// accepted, and the document it gives is empty but for the three mappings.
pub proof fn lemma_empty_document(overview: Seq<u8>, outline: Seq<u8>, sideview: Seq<u8>)
    requires
        overview.len() == 12,
        outline.len() == 12,
        sideview.len() == 12,
    ensures
        spec_parse(empty_file(overview, outline, sideview)) == Ok::<DocumentView, ParseErrorView>(
            DocumentView {
                references: Seq::empty(),
                shots: Seq::empty(),
                trips: Seq::empty(),
                mapping: mapping_at(overview, 0),
                outline: DrawingView { mapping: mapping_at(outline, 0), elements: Seq::empty() },
                sideview: DrawingView { mapping: mapping_at(sideview, 0), elements: Seq::empty() },
            },
        ),
{
    let s = empty_file(overview, outline, sideview);
    assert(s.len() == 54);
    assert(header_bytes(s) =~= magic());
    assert(s[3] == 3);
    assert(s.skip(3).skip(1) =~= s.skip(4));
    assert(s.skip(4).skip(4) =~= s.skip(8));
    assert(s.skip(8).skip(4) =~= s.skip(12));
    assert(s.skip(12).skip(4) =~= s.skip(16));
    assert(s.skip(16).skip(12) =~= s.skip(28));
    assert(s.skip(28).skip(12) =~= s.skip(40));
    assert(s.skip(40).skip(1) =~= s.skip(41));
    assert(s.skip(41).skip(12) =~= s.skip(53));
    assert(spec_trips(s.skip(4)) == Ok::<_, ParseErrorView>(
        (Seq::<TripView>::empty(), s.skip(8)),
    ));
    assert(spec_shots(s.skip(8)) == Ok::<_, ParseErrorView>(
        (Seq::<ShotView>::empty(), s.skip(12)),
    ));
    assert(spec_references(s.skip(12)) == Ok::<_, ParseErrorView>(
        (Seq::<ReferenceView>::empty(), s.skip(16)),
    ));
    lemma_mapping_of_twelve_bytes(s, 16, overview);
    lemma_mapping_of_twelve_bytes(s, 28, outline);
    lemma_mapping_of_twelve_bytes(s, 41, sideview);
    assert(s.skip(40)[0] == 0);
    assert(s.skip(53)[0] == 0);
    assert(spec_drawing(s.skip(28)) == Ok::<_, ParseErrorView>(
        (DrawingView { mapping: mapping_at(outline, 0), elements: Seq::empty() }, s.skip(41)),
    ));
    assert(spec_drawing(s.skip(41)) == Ok::<_, ParseErrorView>(
        (
            DrawingView { mapping: mapping_at(sideview, 0), elements: Seq::empty() },
            s.skip(53).skip(1),
        ),
    ));
}

/// Decoding is a function of the bytes: whatever two runs on the same buffer
/// return describes the same document, or the same failure.
pub proof fn lemma_decoding_twice_agrees(
    s: Seq<u8>,
    first: Result<Document, ParseError>,
    second: Result<Document, ParseError>,
)
    requires
        outcome_view(first) == spec_parse(s),
        outcome_view(second) == spec_parse(s),
    ensures
        outcome_view(first) == outcome_view(second),
{
}

} // verus!
