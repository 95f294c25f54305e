//! The table of competitions that an athlete has taken part in. It appears on
//! the athlete's result page and on the profile page alike.

use crate::date::{date_read, Date};
use crate::dom::{
    attribute, attribute_of, first_selected, first_text, first_text_of, select, select_first, selected_attribute,
    selected_attribute_of, selected_in, texts, texts_of,
};
use crate::models::ExtractError;
use crate::number::{digits_in, keep_digits, parse_u32, u32_of};
use crate::pattern::{first_captures, first_match, group, group_of};
use crate::text::{copy_of, first_nonblank, first_nonblank_of, trim, trimmed};
use scraper::ElementRef;
use vstd::prelude::*;

verus! {

pub const REGEX_PARTICIPANT_ID: &'static str = r#"https://www.athletics.app/atleet/main/([\d]{0,})/"#;

pub const REGEX_LOCATION: &'static str =
    r#"([A-z]{0,})<br><span class="subtext">([A-z]{0,})</span>"#;

pub const SELECT_TABLE: &'static str = "div#wedstrijden > table#persoonlijkerecords";

pub const SELECT_ROW: &'static str = "tbody > tr";

pub const SELECT_CELL: &'static str = "td";

pub const SELECT_SORT_DATA: &'static str = "td > span.sortData";

pub const SELECT_LOCATION: &'static str = "td > span.subtext > span.hidden-xs";

pub const SELECT_IMAGE: &'static str = "img";

pub const SELECT_LINK: &'static str = "a";

pub const DATE_FORMAT: &'static str = "%Y%m%d";

pub type CompetitionRegistrationList = Vec<CompetitionRegistration>;

/// One competition that the athlete took part in.
#[derive(Debug, Clone)]
pub struct CompetitionRegistration {
    pub participant_id: u32,
    pub name: String,
    pub location: CompetitionLocation,
    pub date: Date,
}

/// Where a competition took place.
#[derive(Debug, Clone)]
pub struct CompetitionLocation {
    pub country: String,
    pub continent: String,
    pub place: String,
    pub flag_img_url: String,
}

/// A `CompetitionLocation` as contracts see it.
pub struct CompetitionLocationView {
    pub country: Seq<char>,
    pub continent: Seq<char>,
    pub place: Seq<char>,
    pub flag_img_url: Seq<char>,
}

/// A `CompetitionRegistration` as contracts see it.
pub struct CompetitionRegistrationView {
    pub participant_id: u32,
    pub name: Seq<char>,
    pub location: CompetitionLocationView,
    pub date: Date,
}

impl DeepView for CompetitionLocation {
    type V = CompetitionLocationView;

    open spec fn deep_view(&self) -> CompetitionLocationView {
        CompetitionLocationView {
            country: self.country@,
            continent: self.continent@,
            place: self.place@,
            flag_img_url: self.flag_img_url@,
        }
    }
}

impl DeepView for CompetitionRegistration {
    type V = CompetitionRegistrationView;

    open spec fn deep_view(&self) -> CompetitionRegistrationView {
        CompetitionRegistrationView {
            participant_id: self.participant_id,
            name: self.name@,
            location: self.location.deep_view(),
            date: self.date,
        }
    }
}

/// The day of a row: the digits of its sort key, read as year, month and day.
pub open spec fn row_date(row: ElementRef) -> Option<Date> {
    match selected_attribute_of(row, SELECT_SORT_DATA@, "data"@) {
        Some(key) => date_read(digits_in(key), DATE_FORMAT@),
        None => None,
    }
}

/// The participant number of a row. A row whose first cell links to the
/// athlete's page has the number in that link; a row without a link has 0.
pub open spec fn row_participant(cell: ElementRef) -> Option<u32> {
    match first_selected(cell, SELECT_LINK@) {
        Some(link) => match attribute_of(link, "href"@) {
            Some(href) => match first_match(REGEX_PARTICIPANT_ID@, href) {
                Some(groups) => match group_of(groups, 1) {
                    Some(digits) => u32_of(digits),
                    None => None,
                },
                None => None,
            },
            None => None,
        },
        None => Some(0u32),
    }
}

/// The place of a row, from its location element: the place name is its first
/// text, the flag the source of its image, and country and continent stand in
/// the image's title.
pub open spec fn row_location(row: ElementRef) -> Option<CompetitionLocationView> {
    match first_selected(row, SELECT_LOCATION@) {
        Some(location) => match (
            first_text_of(location),
            selected_attribute_of(location, SELECT_IMAGE@, "src"@),
            selected_attribute_of(location, SELECT_IMAGE@, "title"@),
        ) {
            (Some(place), Some(flag), Some(title)) => match first_match(REGEX_LOCATION@, title) {
                Some(groups) => match (group_of(groups, 1), group_of(groups, 2)) {
                    (Some(country), Some(continent)) => Some(
                        CompetitionLocationView {
                            country: trimmed(country),
                            continent: trimmed(continent),
                            place: trimmed(place),
                            flag_img_url: flag,
                        },
                    ),
                    _ => None,
                },
                None => None,
            },
            _ => None,
        },
        None => None,
    }
}

/// The record of one table row, or `None` for a row that lacks a part.
pub open spec fn registration_of(row: ElementRef) -> Option<CompetitionRegistrationView> {
    match first_selected(row, SELECT_CELL@) {
        Some(cell) => match (
            row_date(row),
            first_nonblank_of(texts_of(cell)),
            row_participant(cell),
            row_location(row),
        ) {
            (Some(date), Some(name), Some(participant_id), Some(location)) => Some(
                CompetitionRegistrationView { participant_id, name, location, date },
            ),
            _ => None,
        },
        None => None,
    }
}

/// The rows of the competitions table below `element`; none where there is no
/// such table.
pub open spec fn registration_rows(element: ElementRef) -> Seq<ElementRef> {
    match first_selected(element, SELECT_TABLE@) {
        Some(table) => match selected_in(table, SELECT_ROW@) {
            Some(rows) => rows,
            None => Seq::empty(),
        },
        None => Seq::empty(),
    }
}

/// The competitions listed below `element`: one record for each table row that
/// can be read, in the table's order.
pub open spec fn registrations_of(element: ElementRef) -> Seq<CompetitionRegistrationView> {
    registration_rows(element).filter_map(|row: ElementRef| registration_of(row))
}

fn read_date(row: ElementRef) -> (r: Option<Date>)
    ensures
        r == row_date(row),
{
    match selected_attribute(row, SELECT_SORT_DATA, "data") {
        Some(key) => {
            let digits = keep_digits(key.as_str());
            Date::read(digits.as_str(), DATE_FORMAT)
        },
        None => None,
    }
}

fn read_participant(cell: ElementRef) -> (r: Option<u32>)
    ensures
        r == row_participant(cell),
{
    match select_first(cell, SELECT_LINK) {
        Some(link) => match attribute(link, "href") {
            Some(href) => match first_captures(REGEX_PARTICIPANT_ID, href.as_str()) {
                Some(groups) => match group(&groups, 1) {
                    Some(digits) => parse_u32(digits.as_str()),
                    None => None,
                },
                None => None,
            },
            None => None,
        },
        None => Some(0),
    }
}

fn read_location(row: ElementRef) -> (r: Option<CompetitionLocation>)
    ensures
        r.deep_view() == row_location(row),
{
    let location = match select_first(row, SELECT_LOCATION) {
        Some(v) => v,
        None => return None,
    };
    let place = first_text(location);
    let flag = selected_attribute(location, SELECT_IMAGE, "src");
    let title = selected_attribute(location, SELECT_IMAGE, "title");
    match (place, flag, title) {
        (Some(place), Some(flag), Some(title)) => match first_captures(
            REGEX_LOCATION,
            title.as_str(),
        ) {
            Some(groups) => match (group(&groups, 1), group(&groups, 2)) {
                (Some(country), Some(continent)) => Some(
                    CompetitionLocation {
                        country: copy_of(trim(country.as_str())),
                        continent: copy_of(trim(continent.as_str())),
                        place: copy_of(trim(place.as_str())),
                        flag_img_url: flag,
                    },
                ),
                _ => None,
            },
            None => None,
        },
        _ => None,
    }
}

/// Reads one row of the competitions table.
pub fn parse_row(row: ElementRef) -> (r: Result<CompetitionRegistration, ExtractError>)
    ensures
        match r {
            Ok(record) => registration_of(row) == Some(record.deep_view()),
            Err(e) => e == ExtractError::FieldParseError && registration_of(row) is None,
        },
{
    let cell = match select_first(row, SELECT_CELL) {
        Some(v) => v,
        None => return Err(ExtractError::FieldParseError),
    };
    let date = read_date(row);
    let all = texts(cell);
    let name = first_nonblank(&all);
    let participant = read_participant(cell);
    let location = read_location(row);
    match (date, name, participant, location) {
        (Some(date), Some(name), Some(participant_id), Some(location)) => Ok(
            CompetitionRegistration { participant_id, name, location, date },
        ),
        _ => Err(ExtractError::FieldParseError),
    }
}

/// Reads the competitions that an athlete took part in from the table below
/// `element`. A page without the table lists none; a row that cannot be read
/// is left out.
pub fn parse(element: ElementRef) -> (r: Result<CompetitionRegistrationList, ExtractError>)
    ensures
        r matches Ok(list) && list.deep_view() == registrations_of(element),
{
    let mut out: Vec<CompetitionRegistration> = Vec::new();
    let table = match select_first(element, SELECT_TABLE) {
        Some(v) => v,
        None => {
            assert(out.deep_view() == registrations_of(element));
            return Ok(out);
        },
    };
    let rows = match select(table, SELECT_ROW) {
        Some(v) => v,
        None => {
            assert(out.deep_view() == registrations_of(element));
            return Ok(out);
        },
    };
    let mut i: usize = 0;
    assert(rows@.take(0).filter_map(|row: ElementRef| registration_of(row)) == Seq::<
        CompetitionRegistrationView,
    >::empty());
    assert(out.deep_view() == Seq::<CompetitionRegistrationView>::empty());
    while i < rows.len()
        invariant
            i <= rows.len(),
            rows@ == registration_rows(element),
            out.deep_view() == rows@.take(i as int).filter_map(
                |row: ElementRef| registration_of(row),
            ),
        decreases rows.len() - i,
    {
        let ghost before = out.deep_view();
        assert(rows@.take(i + 1).drop_last() == rows@.take(i as int));
        assert(rows@.take(i + 1).last() == rows@[i as int]);
        match parse_row(rows[i]) {
            Ok(record) => {
                let ghost view = record.deep_view();
                out.push(record);
                assert(out.deep_view() == before.push(view));
            },
            Err(_) => {},
        }
        i += 1;
    }
    assert(rows@.take(rows.len() as int) == rows@);
    Ok(out)
}

} // verus!
