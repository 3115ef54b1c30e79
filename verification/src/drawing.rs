//! Points, mappings and the elements of a drawing.

use vstd::prelude::*;
use vstd::slice::slice_subrange;
use crate::bytes::{i32_at, le_i32, le_u32, le_u8, lemma_skip_skip, u32_at};
use crate::error::{decodes_to, Decoded, ParseError, ParseErrorView};
use crate::model::{
    Color, CrossSection, Drawing, DrawingView, Element, ElementView, Mapping, Point, Polygon,
    PolygonView,
};
use crate::sequence::prepend;
use crate::station::{parse_station_id, station_at};

verus! {

/// Leading byte of a polygon.
pub const POLYGON_TAG: u8 = 0x01;

/// Leading byte of a cross-section.
pub const CROSS_SECTION_TAG: u8 = 0x03;

/// The byte that ends the elements of a drawing.
pub const END_OF_ELEMENTS: u8 = 0x00;

/// The point stored at offset `at` of `s`: `x`, then `y`.
pub open spec fn point_at(s: Seq<u8>, at: int) -> Point {
    Point { x: i32_at(s, at), y: i32_at(s, at + 4) }
}

/// The mapping stored at offset `at` of `s`: origin, then scale.
pub open spec fn mapping_at(s: Seq<u8>, at: int) -> Mapping {
    Mapping { origin: point_at(s, at), scale: i32_at(s, at + 8) }
}

/// A point: eight bytes.
pub open spec fn spec_point(s: Seq<u8>) -> Decoded<Point> {
    if s.len() < 8 {
        Err(ParseErrorView::Truncated)
    } else {
        Ok((point_at(s, 0), s.skip(8)))
    }
}

/// A mapping: twelve bytes.
pub open spec fn spec_mapping(s: Seq<u8>) -> Decoded<Mapping> {
    if s.len() < 12 {
        Err(ParseErrorView::Truncated)
    } else {
        Ok((mapping_at(s, 0), s.skip(12)))
    }
}

/// Reads a point.
pub fn parse_point<'a>(input: &'a [u8]) -> (r: Result<(&'a [u8], Point), ParseError<'a>>)
    ensures
        decodes_to(r, spec_point(input@)),
{
    let ghost s = input@;
    let (input, x) = le_i32(input)?;
    let (input, y) = le_i32(input)?;
    proof {
        assert(s.skip(0) =~= s);
        lemma_skip_skip(s, 4, 4);
    }
    Ok((input, Point { x, y }))
}

/// Reads a mapping.
pub fn parse_mapping<'a>(input: &'a [u8]) -> (r: Result<(&'a [u8], Mapping), ParseError<'a>>)
    ensures
        decodes_to(r, spec_mapping(input@)),
{
    let ghost s = input@;
    let (input, origin) = parse_point(input)?;
    let (input, scale) = le_i32(input)?;
    proof {
        lemma_skip_skip(s, 8, 4);
    }
    Ok((input, Mapping { origin, scale }))
}

/// The colour that a colour byte stands for.
pub open spec fn color_of(byte: u8) -> Option<Color> {
    if byte == 1 {
        Some(Color::Black)
    } else if byte == 2 {
        Some(Color::Gray)
    } else if byte == 3 {
        Some(Color::Brown)
    } else if byte == 4 {
        Some(Color::Blue)
    } else if byte == 5 {
        Some(Color::Red)
    } else if byte == 6 {
        Some(Color::Green)
    } else if byte == 7 {
        Some(Color::Orange)
    } else {
        None
    }
}

/// Maps a colour byte to its colour.
pub fn decode_color(byte: u8) -> (r: Option<Color>)
    ensures
        r == color_of(byte),
{
    match byte {
        1 => Some(Color::Black),
        2 => Some(Color::Gray),
        3 => Some(Color::Brown),
        4 => Some(Color::Blue),
        5 => Some(Color::Red),
        6 => Some(Color::Green),
        7 => Some(Color::Orange),
        _ => None,
    }
}

/// The `count` points stored back to back from offset `at` of `s`.
pub open spec fn points_at(s: Seq<u8>, at: int, count: nat) -> Seq<Point> {
    Seq::new(count, |i: int| point_at(s, at + 8 * i))
}

/// A polygon: its tag, a 32-bit count, that many points, and a colour byte.
pub open spec fn spec_polygon(s: Seq<u8>) -> Decoded<ElementView> {
    if s.len() < 1 {
        Err(ParseErrorView::Truncated)
    } else if s[0] != 0x01 {
        Err(ParseErrorView::UnknownError)
    } else if s.len() < 5 {
        Err(ParseErrorView::Truncated)
    } else if s.len() < 5 + 8 * u32_at(s, 1) + 1 {
        Err(ParseErrorView::Truncated)
    } else {
        let count = u32_at(s, 1) as int;
        let color_byte = s[5 + 8 * count];
        match color_of(color_byte) {
            None => Err(ParseErrorView::InvalidColor(color_byte)),
            Some(color) => Ok(
                (
                    ElementView::Polygon(PolygonView { points: points_at(s, 5, count as nat), color }),
                    s.skip(6 + 8 * count),
                ),
            ),
        }
    }
}

/// Reads a polygon.
pub fn parse_polygon<'a>(input: &'a [u8]) -> (r: Result<(&'a [u8], Element), ParseError<'a>>)
    ensures
        decodes_to(r, spec_polygon(input@)),
{
    let ghost s = input@;
    let (after_tag, tag) = le_u8(input)?;
    if tag != POLYGON_TAG {
        return Err(ParseError::UnknownError);
    }
    let (after_count, count) = le_u32(after_tag)?;
    proof {
        lemma_skip_skip(s, 1, 4);
    }
    let mut cur = after_count;
    let mut points: Vec<Point> = Vec::new();
    let mut i: u32 = 0;
    while i < count
        invariant
            i <= count,
            count == u32_at(s, 1),
            s == input@,
            s[0] == 0x01,
            5 + 8 * i <= s.len(),
            cur@ == s.skip(5 + 8 * i),
            points@ =~= points_at(s, 5, i as nat),
        decreases count - i,
    {
        let (rest, point) = parse_point(cur)?;
        proof {
            lemma_skip_skip(s, 5 + 8 * i, 0);
            lemma_skip_skip(s, 5 + 8 * i, 4);
            lemma_skip_skip(s, 5 + 8 * i, 8);
            assert(cur@.skip(0) =~= cur@);
        }
        points.push(point);
        cur = rest;
        i = i + 1;
    }
    let (rest, color_byte) = le_u8(cur)?;
    proof {
        lemma_skip_skip(s, 5 + 8 * count, 1);
    }
    match decode_color(color_byte) {
        Some(color) => Ok((rest, Element::Polygon(Polygon { points, color }))),
        None => Err(ParseError::InvalidColor(color_byte)),
    }
}

/// A cross-section: its tag, a position, a station that must be defined, and
/// a direction.
///
/// | offset | field     |
/// |--------|-----------|
/// | 0      | tag       |
/// | 1      | position  |
/// | 9      | station   |
/// | 13     | direction |
pub open spec fn spec_cross_section(s: Seq<u8>) -> Decoded<ElementView> {
    if s.len() < 1 {
        Err(ParseErrorView::Truncated)
    } else if s[0] != 0x03 {
        Err(ParseErrorView::UnknownError)
    } else if s.len() < 17 {
        Err(ParseErrorView::Truncated)
    } else {
        match station_at(s, 9) {
            None => Err(ParseErrorView::UndefinedStation),
            Some(station) => Ok(
                (
                    ElementView::CrossSection(
                        CrossSection {
                            position: point_at(s, 1),
                            station,
                            direction: i32_at(s, 13),
                        },
                    ),
                    s.skip(17),
                ),
            ),
        }
    }
}

/// Reads a cross-section.
pub fn parse_cross_section<'a>(input: &'a [u8]) -> (r: Result<
    (&'a [u8], Element),
    ParseError<'a>,
>)
    ensures
        decodes_to(r, spec_cross_section(input@)),
{
    let ghost s = input@;
    let (input, tag) = le_u8(input)?;
    if tag != CROSS_SECTION_TAG {
        return Err(ParseError::UnknownError);
    }
    let (input, position) = parse_point(input)?;
    proof {
        lemma_skip_skip(s, 1, 0);
        lemma_skip_skip(s, 1, 4);
        lemma_skip_skip(s, 1, 8);
    }
    let (input, station) = parse_station_id(input)?;
    proof {
        lemma_skip_skip(s, 9, 4);
    }
    let (input, direction) = le_i32(input)?;
    proof {
        lemma_skip_skip(s, 13, 4);
    }
    match station {
        Some(station) => Ok(
            (input, Element::CrossSection(CrossSection { position, station, direction })),
        ),
        None => Err(ParseError::UndefinedStation),
    }
}

/// One element, told by its leading byte.
pub open spec fn spec_element(s: Seq<u8>) -> Decoded<ElementView> {
    if s.len() < 1 {
        Err(ParseErrorView::Truncated)
    } else if s[0] == 0x01 {
        spec_polygon(s)
    } else if s[0] == 0x03 {
        spec_cross_section(s)
    } else {
        Err(ParseErrorView::UnknownError)
    }
}

/// Reads one element: a polygon or a cross-section.
pub fn parse_element<'a>(input: &'a [u8]) -> (r: Result<(&'a [u8], Element), ParseError<'a>>)
    ensures
        decodes_to(r, spec_element(input@)),
{
    if input.len() < 1 {
        return Err(ParseError::Truncated);
    }
    if input[0] == POLYGON_TAG {
        parse_polygon(input)
    } else if input[0] == CROSS_SECTION_TAG {
        parse_cross_section(input)
    } else {
        Err(ParseError::UnknownError)
    }
}

/// Every element that is decoded takes at least one byte.
pub proof fn lemma_element_consumes(s: Seq<u8>)
    ensures
        match spec_element(s) {
            Ok((element, rest)) => rest.len() < s.len(),
            Err(e) => true,
        },
{
}

/// The elements of a drawing up to and including the byte that ends them.
pub open spec fn spec_elements(s: Seq<u8>) -> Decoded<Seq<ElementView>>
    decreases s.len(),
{
    if s.len() < 1 {
        Err(ParseErrorView::Truncated)
    } else if s[0] == 0x00 {
        Ok((Seq::empty(), s.skip(1)))
    } else {
        match spec_element(s) {
            Err(e) => Err(e),
            Ok((first, rest)) => match spec_elements(rest) {
                Err(e) => Err(e),
                Ok((others, rest)) => Ok((seq![first] + others, rest)),
            },
        }
    }
}

/// A drawing: a mapping, then elements up to the byte that ends them.
pub open spec fn spec_drawing(s: Seq<u8>) -> Decoded<DrawingView> {
    match spec_mapping(s) {
        Err(e) => Err(e),
        Ok((mapping, after_mapping)) => match spec_elements(after_mapping) {
            Err(e) => Err(e),
            Ok((elements, rest)) => Ok((DrawingView { mapping, elements }, rest)),
        },
    }
}

/// Reads a drawing.
///
/// Elements are read for as long as the next byte is the tag of one. The
/// byte that follows them must be zero; it is consumed.
pub fn parse_drawing<'a>(input: &'a [u8]) -> (r: Result<(&'a [u8], Drawing), ParseError<'a>>)
    ensures
        decodes_to(r, spec_drawing(input@)),
{
    let (after_mapping, mapping) = parse_mapping(input)?;
    let mut cur = after_mapping;
    let mut elements: Vec<Element> = Vec::new();
    proof {
        assert(elements.deep_view() =~= Seq::empty());
        assert(Seq::<ElementView>::empty() + spec_elements(cur@)->Ok_0.0 =~= spec_elements(
            cur@,
        )->Ok_0.0);
    }
    loop
        invariant
            spec_mapping(input@) == Ok::<(Mapping, Seq<u8>), ParseErrorView>(
                (mapping, after_mapping@),
            ),
            spec_elements(after_mapping@) == prepend(elements.deep_view(), spec_elements(cur@)),
        decreases cur@.len(),
    {
        if cur.len() < 1 {
            return Err(ParseError::Truncated);
        }
        if cur[0] == END_OF_ELEMENTS {
            let rest = slice_subrange(cur, 1, cur.len());
            proof {
                assert(elements.deep_view() + Seq::<ElementView>::empty()
                    =~= elements.deep_view());
            }
            return Ok((rest, Drawing { mapping, elements }));
        }
        let ghost done = elements.deep_view();
        let (rest, element) = parse_element(cur)?;
        proof {
            lemma_element_consumes(cur@);
            match spec_elements(rest@) {
                Err(e) => {},
                Ok((others, after)) => {
                    assert(done + (seq![element.deep_view()] + others) =~= done.push(
                        element.deep_view(),
                    ) + others);
                },
            }
        }
        elements.push(element);
        proof {
            assert(elements.deep_view() =~= done.push(element.deep_view()));
        }
        cur = rest;
    }
}

} // verus!
