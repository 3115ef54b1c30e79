//! The file as a whole.

use vstd::prelude::*;
use vstd::slice::slice_subrange;
use crate::bytes::le_u8;
use crate::drawing::{parse_drawing, parse_mapping, spec_drawing, spec_mapping};
use crate::error::{decodes_to, Decoded, ParseErrorView};
use crate::model::{
    Drawing, DrawingView, Mapping, Reference, ReferenceView, Shot, ShotView, Trip, TripView,
};
use crate::records::{
    parse_references, parse_shots, parse_trips, spec_references, spec_shots, spec_trips,
};

pub use crate::datetime::parse_datetime;
pub use crate::drawing::{
    parse_cross_section, parse_element, parse_point, parse_polygon,
};
pub use crate::error::ParseError;
pub use crate::records::{parse_reference, parse_shot, parse_trip};
pub use crate::station::parse_station_id;
pub use crate::varint::{parse_string, parse_variable_length_little_endian_int};

verus! {

/// Everything a file holds.
#[derive(Debug, PartialEq, Eq)]
pub struct Document<'a> {
    pub references: Vec<Reference<'a>>,
    pub shots: Vec<Shot<'a>>,
    pub trips: Vec<Trip<'a>>,
    pub mapping: Mapping,
    pub outline: Drawing,
    pub sideview: Drawing,
}

/// Mathematical counterpart of [`Document`].
pub struct DocumentView {
    pub references: Seq<ReferenceView>,
    pub shots: Seq<ShotView>,
    pub trips: Seq<TripView>,
    pub mapping: Mapping,
    pub outline: DrawingView,
    pub sideview: DrawingView,
}

impl<'a> DeepView for Document<'a> {
    type V = DocumentView;

    open spec fn deep_view(&self) -> DocumentView {
        DocumentView {
            references: self.references.deep_view(),
            shots: self.shots.deep_view(),
            trips: self.trips.deep_view(),
            mapping: self.mapping,
            outline: self.outline.deep_view(),
            sideview: self.sideview.deep_view(),
        }
    }
}

/// The version of the format that is understood.
pub const VERSION: u8 = 3;

/// The bytes every file starts with: `Top`.
pub open spec fn magic() -> Seq<u8> {
    seq![0x54u8, 0x6Fu8, 0x70u8]
}

/// The first three bytes of `s`, or all of it where it is shorter.
pub open spec fn header_bytes(s: Seq<u8>) -> Seq<u8> {
    if s.len() < 3 {
        s
    } else {
        s.take(3)
    }
}

/// The header: the magic bytes, or else a failure that shows what stands in
/// their place.
pub open spec fn spec_header(s: Seq<u8>) -> Decoded<Seq<u8>> {
    if header_bytes(s) == magic() {
        Ok((header_bytes(s), s.skip(3)))
    } else {
        Err(ParseErrorView::InvalidHeader(header_bytes(s)))
    }
}

/// Checks the magic bytes.
pub fn parse_header<'a>(input: &'a [u8]) -> (r: Result<(&'a [u8], &'a [u8]), ParseError<'a>>)
    ensures
        decodes_to(r, spec_header(input@)),
{
    if input.len() < 3 {
        proof {
            assert(magic().len() == 3);
        }
        return Err(ParseError::InvalidHeader(input));
    }
    let found = slice_subrange(input, 0, 3);
    if input[0] == 0x54 && input[1] == 0x6F && input[2] == 0x70 {
        let rest = slice_subrange(input, 3, input.len());
        proof {
            assert(found@ =~= magic());
            assert(found.deep_view() =~= found@);
        }
        Ok((rest, found))
    } else {
        proof {
            assert(magic()[0] == 0x54 && magic()[1] == 0x6F && magic()[2] == 0x70);
            assert(found@[0] == input@[0] && found@[1] == input@[1] && found@[2] == input@[2]);
        }
        Err(ParseError::InvalidHeader(found))
    }
}

/// The version byte, which must be the supported one.
pub open spec fn spec_version(s: Seq<u8>) -> Decoded<u8> {
    if s.len() < 1 {
        Err(ParseErrorView::Truncated)
    } else if s[0] != 3 {
        Err(ParseErrorView::UnsupportedVersion(s[0]))
    } else {
        Ok((s[0], s.skip(1)))
    }
}

/// Checks the version byte.
pub fn parse_version<'a>(input: &'a [u8]) -> (r: Result<(&'a [u8], u8), ParseError<'a>>)
    ensures
        decodes_to(r, spec_version(input@)),
{
    let (input, version) = le_u8(input)?;
    if version != VERSION {
        return Err(ParseError::UnsupportedVersion(version));
    }
    Ok((input, version))
}

/// A file: header, version, trips, shots, references, the overview mapping,
/// then the outline and the side view, in this order.
pub open spec fn spec_document(s: Seq<u8>) -> Decoded<DocumentView> {
    match spec_header(s) {
        Err(e) => Err(e),
        Ok((_, s)) => match spec_version(s) {
            Err(e) => Err(e),
            Ok((_, s)) => match spec_trips(s) {
                Err(e) => Err(e),
                Ok((trips, s)) => match spec_shots(s) {
                    Err(e) => Err(e),
                    Ok((shots, s)) => match spec_references(s) {
                        Err(e) => Err(e),
                        Ok((references, s)) => match spec_mapping(s) {
                            Err(e) => Err(e),
                            Ok((mapping, s)) => match spec_drawing(s) {
                                Err(e) => Err(e),
                                Ok((outline, s)) => match spec_drawing(s) {
                                    Err(e) => Err(e),
                                    Ok((sideview, s)) => Ok(
                                        (
                                            DocumentView {
                                                references,
                                                shots,
                                                trips,
                                                mapping,
                                                outline,
                                                sideview,
                                            },
                                            s,
                                        ),
                                    ),
                                },
                            },
                        },
                    },
                },
            },
        },
    }
}

/// What decoding a whole buffer gives: the document at its start. Bytes after
/// the side view are not looked at.
pub open spec fn spec_parse(s: Seq<u8>) -> Result<DocumentView, ParseErrorView> {
    match spec_document(s) {
        Err(e) => Err(e),
        Ok((document, _)) => Ok(document),
    }
}

/// The outcome of decoding as a mathematical value.
pub open spec fn outcome_view(r: Result<Document, ParseError>) -> Result<
    DocumentView,
    ParseErrorView,
> {
    match r {
        Ok(document) => Ok(document.deep_view()),
        Err(e) => Err(e.deep_view()),
    }
}

/// Reads a document and returns it with the bytes that follow it.
pub fn parse_internal<'a>(input: &'a [u8]) -> (r: Result<
    (&'a [u8], Document<'a>),
    ParseError<'a>,
>)
    ensures
        decodes_to(r, spec_document(input@)),
{
    let (input, _) = parse_header(input)?;
    let (input, _) = parse_version(input)?;
    let (input, trips) = parse_trips(input)?;
    let (input, shots) = parse_shots(input)?;
    let (input, references) = parse_references(input)?;
    let (input, mapping) = parse_mapping(input)?;
    let (input, outline) = parse_drawing(input)?;
    let (input, sideview) = parse_drawing(input)?;
    Ok((input, Document { references, shots, trips, mapping, outline, sideview }))
}

/// Decodes a file.
///
/// The result is the document that `spec_parse` describes, or the first
/// failure met on the way. In particular a buffer that does not start with
/// the magic bytes is rejected with the bytes found in their place, and one
/// that does but goes on with another version byte is rejected with that byte.
pub fn parse<'a>(input: &'a [u8]) -> (r: Result<Document<'a>, ParseError<'a>>)
    ensures
        outcome_view(r) == spec_parse(input@),
        header_bytes(input@) != magic() ==> outcome_view(r) == Err::<DocumentView, ParseErrorView>(
            ParseErrorView::InvalidHeader(header_bytes(input@)),
        ),
        header_bytes(input@) == magic() && input@.len() > 3 && input@[3] != 3 ==> outcome_view(r)
            == Err::<DocumentView, ParseErrorView>(ParseErrorView::UnsupportedVersion(input@[3])),
{
    match parse_internal(input) {
        Ok((_, document)) => Ok(document),
        Err(e) => Err(e),
    }
}

} // verus!
