//! Decoder for the binary save files of a handheld cave-survey data logger.
//!
//! The file is a fixed header followed by length-prefixed record sequences
//! (trips, shots, references), an overview mapping and two vector drawings.
//! Every decoder is a function from a byte slice to the decoded value and the
//! bytes that follow it, and each one is proved to agree with a mathematical
//! description of the format over `Seq<u8>`.

pub mod bytes;
pub mod datetime;
pub mod drawing;
pub mod error;
pub mod laws;
pub mod model;
pub mod parser;
pub mod records;
pub mod sequence;
pub mod station;
pub mod varint;

pub use model::{
    Color, CrossSection, Drawing, Element, Mapping, Point, Polygon, Reference, Shot, ShotFlags,
    Trip,
};
pub use station::StationId;
