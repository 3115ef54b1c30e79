//! The document model: what a decoded file consists of.

use chrono::NaiveDateTime;
use vstd::prelude::*;
use crate::station::StationId;

verus! {

/// Pen colour of a polygon.
#[derive(Debug, PartialEq, Eq)]
pub enum Color {
    Black,
    Blue,
    Brown,
    Gray,
    Green,
    Orange,
    Red,
}

/// A position in millimetres, relative to the first station of the file.
#[derive(Clone, Copy, Debug, PartialEq, Eq)]
pub struct Point {
    pub x: i32,
    pub y: i32,
}

/// A scroll position and a scale.
#[derive(Debug, PartialEq, Eq)]
pub struct Mapping {
    pub origin: Point,
    pub scale: i32,
}

/// An open polyline in one colour.
#[derive(Debug, PartialEq, Eq)]
pub struct Polygon {
    pub points: Vec<Point>,
    pub color: Color,
}

/// Marks where a cross-section was taken: at a station, looking in a
/// direction (`-1` for a horizontal section).
#[derive(Debug, PartialEq, Eq)]
pub struct CrossSection {
    pub position: Point,
    pub station: StationId,
    pub direction: i32,
}

/// One element of a drawing.
#[derive(Debug, PartialEq, Eq)]
pub enum Element {
    Polygon(Polygon),
    CrossSection(CrossSection),
}

/// A sketch: its mapping and its elements in file order.
#[derive(Debug, PartialEq, Eq)]
pub struct Drawing {
    pub mapping: Mapping,
    pub elements: Vec<Element>,
}

/// The flag byte of a shot.
#[derive(Clone, Copy, Debug, PartialEq, Eq)]
pub struct ShotFlags {
    pub bits: u8,
}

/// A leg measured between two stations.
#[derive(Debug, PartialEq, Eq)]
pub struct Shot<'a> {
    pub from: Option<StationId>,
    pub to: Option<StationId>,
    /// Full circle = 65536, north = 0, east = 16384.
    pub azimuth: i16,
    /// Millimetres.
    pub distance: i32,
    /// Full circle = 65536, up = 16384, down = -16384.
    pub inclination: i16,
    pub flags: ShotFlags,
    /// Full circle = 256.
    pub roll: u8,
    /// Index into the trips, or `-1` for none. It is stored as found: whether
    /// such a trip exists is not looked into.
    pub trip_index: i16,
    /// Present if and only if the flags say so.
    pub comment: Option<&'a str>,
}

/// A dated survey session.
#[derive(Debug, PartialEq, Eq)]
pub struct Trip<'a> {
    pub time: NaiveDateTime,
    pub comment: &'a str,
    /// Full circle = 65536.
    pub declination: i16,
}

/// A station with known real-world coordinates.
#[derive(Debug, PartialEq, Eq)]
pub struct Reference<'a> {
    pub station: Option<StationId>,
    /// Millimetres.
    pub east: i64,
    /// Millimetres.
    pub north: i64,
    /// Millimetres above sea level.
    pub altitude: i32,
    pub comment: &'a str,
}

impl ShotFlags {
    /// Bit 0: the shot was measured backwards.
    pub const FLIPPED: u8 = 0x01;

    /// Bit 1: a comment follows the shot.
    pub const HAS_COMMENT: u8 = 0x02;

    /// Whether every bit of `mask` is set.
    pub open spec fn spec_contains(&self, mask: u8) -> bool {
        self.bits & mask == mask
    }

    /// Whether bit 0 is set.
    pub open spec fn spec_is_flipped(&self) -> bool {
        self.bits & 0x01 == 0x01
    }

    /// Whether bit 1 is set.
    pub open spec fn spec_has_comment(&self) -> bool {
        self.bits & 0x02 == 0x02
    }

    /// No flag set.
    pub fn empty() -> (r: ShotFlags)
        ensures
            r.bits == 0,
    {
        ShotFlags { bits: 0 }
    }

    /// The flag byte as stored.
    pub fn bits(&self) -> (r: u8)
        ensures
            r == self.bits,
    {
        self.bits
    }

    /// Whether every bit of `mask` is set.
    #[verifier::when_used_as_spec(spec_contains)]
    pub fn contains(&self, mask: u8) -> (r: bool)
        ensures
            r == self.spec_contains(mask),
    {
        self.bits & mask == mask
    }

    /// Whether the shot was measured backwards.
    #[verifier::when_used_as_spec(spec_is_flipped)]
    pub fn is_flipped(&self) -> (r: bool)
        ensures
            r == self.spec_is_flipped(),
    {
        self.bits & 0x01 == 0x01
    }

    /// Whether a comment follows the shot.
    #[verifier::when_used_as_spec(spec_has_comment)]
    pub fn has_comment(&self) -> (r: bool)
        ensures
            r == self.spec_has_comment(),
    {
        self.bits & 0x02 == 0x02
    }
}

impl DeepView for Color {
    type V = Color;

    open spec fn deep_view(&self) -> Color {
        *self
    }
}

impl DeepView for Point {
    type V = Point;

    open spec fn deep_view(&self) -> Point {
        *self
    }
}

impl DeepView for Mapping {
    type V = Mapping;

    open spec fn deep_view(&self) -> Mapping {
        *self
    }
}

impl DeepView for CrossSection {
    type V = CrossSection;

    open spec fn deep_view(&self) -> CrossSection {
        *self
    }
}

impl DeepView for ShotFlags {
    type V = ShotFlags;

    open spec fn deep_view(&self) -> ShotFlags {
        *self
    }
}

/// Mathematical counterpart of [`Polygon`].
pub struct PolygonView {
    pub points: Seq<Point>,
    pub color: Color,
}

impl DeepView for Polygon {
    type V = PolygonView;

    open spec fn deep_view(&self) -> PolygonView {
        PolygonView { points: self.points@, color: self.color }
    }
}

/// Mathematical counterpart of [`Element`].
pub enum ElementView {
    Polygon(PolygonView),
    CrossSection(CrossSection),
}

impl DeepView for Element {
    type V = ElementView;

    open spec fn deep_view(&self) -> ElementView {
        match *self {
            Element::Polygon(polygon) => ElementView::Polygon(polygon.deep_view()),
            Element::CrossSection(section) => ElementView::CrossSection(section),
        }
    }
}

/// Mathematical counterpart of [`Drawing`].
pub struct DrawingView {
    pub mapping: Mapping,
    pub elements: Seq<ElementView>,
}

impl DeepView for Drawing {
    type V = DrawingView;

    open spec fn deep_view(&self) -> DrawingView {
        DrawingView { mapping: self.mapping, elements: self.elements.deep_view() }
    }
}

/// Mathematical counterpart of [`Shot`].
pub struct ShotView {
    pub from: Option<StationId>,
    pub to: Option<StationId>,
    pub azimuth: i16,
    pub distance: i32,
    pub inclination: i16,
    pub flags: ShotFlags,
    pub roll: u8,
    pub trip_index: i16,
    pub comment: Option<Seq<char>>,
}

impl ShotView {
    /// A shot has a comment exactly when its flags announce one.
    pub open spec fn well_formed(&self) -> bool {
        self.comment is Some <==> self.flags.spec_has_comment()
    }
}

impl<'a> DeepView for Shot<'a> {
    type V = ShotView;

    open spec fn deep_view(&self) -> ShotView {
        ShotView {
            from: self.from,
            to: self.to,
            azimuth: self.azimuth,
            distance: self.distance,
            inclination: self.inclination,
            flags: self.flags,
            roll: self.roll,
            trip_index: self.trip_index,
            comment: match self.comment {
                Some(text) => Some(text@),
                None => None,
            },
        }
    }
}

/// Mathematical counterpart of [`Trip`].
pub struct TripView {
    pub time: NaiveDateTime,
    pub comment: Seq<char>,
    pub declination: i16,
}

impl<'a> DeepView for Trip<'a> {
    type V = TripView;

    open spec fn deep_view(&self) -> TripView {
        TripView { time: self.time, comment: self.comment@, declination: self.declination }
    }
}

/// Mathematical counterpart of [`Reference`].
pub struct ReferenceView {
    pub station: Option<StationId>,
    pub east: i64,
    pub north: i64,
    pub altitude: i32,
    pub comment: Seq<char>,
}

impl<'a> DeepView for Reference<'a> {
    type V = ReferenceView;

    open spec fn deep_view(&self) -> ReferenceView {
        ReferenceView {
            station: self.station,
            east: self.east,
            north: self.north,
            altitude: self.altitude,
            comment: self.comment@,
        }
    }
}

} // verus!
