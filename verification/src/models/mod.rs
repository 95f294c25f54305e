//! One extractor for each kind of page, and the records they produce.

pub mod athlete_event_result;
pub mod athlete_list;
pub mod athlete_profile;
pub mod competition_event_list;
pub mod competition_registrations_list;
pub mod competitions_list;
pub mod competitions_list_web;
pub mod registrations_list;
pub mod registrations_list_web;

use vstd::prelude::*;

verus! {

/// Why an extractor produced no record.
#[derive(Clone, Copy, Debug, PartialEq, Eq, Structural, Hash)]
pub enum ExtractError {
    /// The page has not the expected shape at all: an element that anchors the
    /// extraction is absent.
    StructureNotFound,
    /// One row or field could not be read. Page extractors skip such a row and
    /// go on; only the functions that read a single row return this.
    FieldParseError,
    /// The page is of a known format that is not supported.
    UnsupportedPageVariant,
}

impl ExtractError {
    /// A sentence for the error, for a caller that reports it.
    pub fn message(&self) -> (r: &'static str)
        ensures
            r@ == (match *self {
                ExtractError::StructureNotFound => "the page does not have the expected structure"@,
                ExtractError::FieldParseError => "a field of the page could not be read"@,
                ExtractError::UnsupportedPageVariant => "this page format is not supported"@,
            }),
    {
        match self {
            ExtractError::StructureNotFound => "the page does not have the expected structure",
            ExtractError::FieldParseError => "a field of the page could not be read",
            ExtractError::UnsupportedPageVariant => "this page format is not supported",
        }
    }
}

} // verus!
