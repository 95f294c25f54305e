//! Small parsers that several extractors share.

pub mod country;
pub mod wind_speed;
