//! The competitions that a search of the desktop site finds.

use crate::date::{is_calendar_date, Date};
use crate::dom::{
    attribute, attribute_of, select_in_page,
    selected_in_page, selected_inner_markup, selected_inner_markup_of, selected_text,
    selected_text_of,
};
use crate::models::ExtractError;
use crate::number::{i32_of, parse_i32, parse_u32, u32_of};
use crate::pattern::{capture, captured, first_captures, first_match, group, group_of};
use crate::text::{
    contains, copy_of, has_occurrence, replace, replaced, same_text, split_at_first, split_first,
    trim, trimmed,
};
use scraper::{ElementRef, Html};
use vstd::prelude::*;

verus! {

/// Group 1: the competition's number.
pub const REGEX_COMPETITION_ID: &'static str = r#"(\d{1,})"#;

/// Group 1: the day of the month. Group 2: the month's name. Group 3: the year.
pub const REGEX_DATE: &'static str = r#"\w{3} (\d{2}) (\w{3}) (\d{4})"#;

/// Group 1: the number of registrations.
pub const REGEX_REGISTRATIONS: &'static str = r#"(\d{0,}) athletes"#;

pub const SELECT_ROW: &'static str = "tr[onclick]";

pub const SELECT_DATE: &'static str = "td.datumCol > span.hidden-xs";

pub const SELECT_NAME: &'static str = "td.eventnaam > a > span > span.eventnaam";

pub const SELECT_LOCATION: &'static str = "td.eventnaam > a > span > span.verenigingnaam";

pub const SELECT_REGISTRATIONS: &'static str = "td.eventnaam > a > span > span.aantaldeelnemers";

pub const SELECT_STATUS: &'static str = "td:last-child > span";

/// The mark of a competition that is open to members of the club only.
pub const CLUB_MEMBERS_ONLY: &'static str = "Club members only";

/// The status of a competition whose results are out.
pub const RESULTS: &'static str = "Results";

/// What separates club and place.
pub const SEPARATOR: &'static str = ", ";

pub type CompetitionsWebList = Vec<CompetitionsListWebElement>;

/// One competition of a search result.
#[derive(Debug, Clone)]
pub struct CompetitionsListWebElement {
    pub date: Date,
    pub name: String,
    pub location: String,
    pub club: String,
    pub registrations: u32,
    pub results_availible: bool,
    pub club_members_only: bool,
    pub competition_id: u32,
}

/// A `CompetitionsListWebElement` as contracts see it.
pub struct CompetitionSummaryView {
    pub date: Date,
    pub name: Seq<char>,
    pub location: Seq<char>,
    pub club: Seq<char>,
    pub registrations: u32,
    pub results_availible: bool,
    pub club_members_only: bool,
    pub competition_id: u32,
}

impl DeepView for CompetitionsListWebElement {
    type V = CompetitionSummaryView;

    open spec fn deep_view(&self) -> CompetitionSummaryView {
        CompetitionSummaryView {
            date: self.date,
            name: self.name@,
            location: self.location@,
            club: self.club@,
            registrations: self.registrations,
            results_availible: self.results_availible,
            club_members_only: self.club_members_only,
            competition_id: self.competition_id,
        }
    }
}

/// The number of the month with the given three-letter name in capitals.
pub open spec fn month_number(name: Seq<char>) -> Option<u32> {
    if name == "JAN"@ {
        Some(1u32)
    } else if name == "FEB"@ {
        Some(2u32)
    } else if name == "MAR"@ {
        Some(3u32)
    } else if name == "APR"@ {
        Some(4u32)
    } else if name == "MAY"@ {
        Some(5u32)
    } else if name == "JUN"@ {
        Some(6u32)
    } else if name == "JUL"@ {
        Some(7u32)
    } else if name == "AUG"@ {
        Some(8u32)
    } else if name == "SEP"@ {
        Some(9u32)
    } else if name == "OCT"@ {
        Some(10u32)
    } else if name == "NOV"@ {
        Some(11u32)
    } else if name == "DEC"@ {
        Some(12u32)
    } else {
        None
    }
}

/// The day that a day of the month, a month's name and a year stand for.
pub open spec fn date_from(day: Seq<char>, month: Seq<char>, year: Seq<char>) -> Option<Date> {
    match (u32_of(day), month_number(month), i32_of(year)) {
        (Some(d), Some(m), Some(y)) => if is_calendar_date(y as int, m as int, d as int) {
            Some(Date { year: y, month: m, day: d })
        } else {
            None
        },
        _ => None,
    }
}

/// The day written in `text`, as in `SAT 03 JUN 2023`.
pub open spec fn date_in(text: Seq<char>) -> Option<Date> {
    match first_match(REGEX_DATE@, text) {
        Some(groups) => match (group_of(groups, 1), group_of(groups, 2), group_of(groups, 3)) {
            (Some(day), Some(month), Some(year)) => date_from(day, month, year),
            _ => None,
        },
        None => None,
    }
}

/// The day of a row. A row without a date element takes place `today`.
pub open spec fn row_date(row: ElementRef, today: Date) -> Option<Date> {
    match selected_inner_markup_of(row, SELECT_DATE@) {
        Some(text) => date_in(text),
        None => Some(today),
    }
}

/// The name of a row: the first text of its name element, without
/// non-breaking spaces, trimmed.
pub open spec fn row_name(row: ElementRef) -> Option<Seq<char>> {
    match selected_text_of(row, SELECT_NAME@) {
        Some(text) => Some(trimmed(replaced(text, "\u{a0}"@, ""@))),
        None => None,
    }
}

/// Whether a row is marked as open to members of the club only. A row without
/// a name element is not.
pub open spec fn row_members_only(row: ElementRef) -> bool {
    match selected_inner_markup_of(row, SELECT_NAME@) {
        Some(inner) => has_occurrence(inner, CLUB_MEMBERS_ONLY@),
        None => false,
    }
}

/// Club and place from text of the form `club, place`: the club stands before
/// the first separator, the place between the first and the second, or after
/// the first where there is no second.
pub open spec fn club_and_place(text: Seq<char>) -> Option<(Seq<char>, Seq<char>)> {
    match split_at_first(text, SEPARATOR@) {
        Some((club, rest)) => match split_at_first(rest, SEPARATOR@) {
            Some((place, _)) => Some((club, place)),
            None => Some((club, rest)),
        },
        None => None,
    }
}

/// The number of registrations of a row.
pub open spec fn row_registrations(row: ElementRef) -> Option<u32> {
    match selected_inner_markup_of(row, SELECT_REGISTRATIONS@) {
        Some(text) => match captured(REGEX_REGISTRATIONS@, text, 1) {
            Some(digits) => u32_of(digits),
            None => None,
        },
        None => None,
    }
}

/// The number of the competition of a row, from its `onclick` attribute.
pub open spec fn row_competition(row: ElementRef) -> Option<u32> {
    match attribute_of(row, "onclick"@) {
        Some(onclick) => match captured(REGEX_COMPETITION_ID@, onclick, 1) {
            Some(digits) => u32_of(digits),
            None => None,
        },
        None => None,
    }
}

/// Whether the results of a row's competition are out.
pub open spec fn row_has_results(row: ElementRef) -> bool {
    selected_inner_markup_of(row, SELECT_STATUS@) == Some(RESULTS@)
}

/// The competition of one row, or `None` for a row that lacks a part.
pub open spec fn competition_of(row: ElementRef, today: Date) -> Option<CompetitionSummaryView> {
    match (
        row_competition(row),
        row_date(row, today),
        row_name(row),
        selected_inner_markup_of(row, SELECT_LOCATION@),
        row_registrations(row),
    ) {
        (Some(competition_id), Some(date), Some(name), Some(location), Some(registrations)) => match club_and_place(
            location,
        ) {
            Some((club, place)) => Some(
                CompetitionSummaryView {
                    date,
                    name,
                    location: place,
                    club,
                    registrations,
                    results_availible: row_has_results(row),
                    club_members_only: row_members_only(row),
                    competition_id,
                },
            ),
            None => None,
        },
        _ => None,
    }
}

/// The competitions of the rows `rows`, in order.
pub open spec fn competitions_of(rows: Seq<ElementRef>, today: Date) -> Seq<CompetitionSummaryView>
    decreases rows.len(),
{
    if rows.len() == 0 {
        Seq::empty()
    } else {
        match competition_of(rows.last(), today) {
            Some(record) => competitions_of(rows.drop_last(), today).push(record),
            None => competitions_of(rows.drop_last(), today),
        }
    }
}

/// What the extractor makes of a search result on the day `today`: one
/// competition for each row that can be read.
pub open spec fn competitions_page(page: &Html, today: Date) -> Seq<CompetitionSummaryView> {
    match selected_in_page(page, SELECT_ROW@) {
        Some(rows) => competitions_of(rows, today),
        None => Seq::empty(),
    }
}

/// The number of the month with the given three-letter name in capitals.
pub fn month_from_name(name: &str) -> (r: Option<u32>)
    ensures
        r == month_number(name@),
{
    if same_text(name, "JAN") {
        Some(1)
    } else if same_text(name, "FEB") {
        Some(2)
    } else if same_text(name, "MAR") {
        Some(3)
    } else if same_text(name, "APR") {
        Some(4)
    } else if same_text(name, "MAY") {
        Some(5)
    } else if same_text(name, "JUN") {
        Some(6)
    } else if same_text(name, "JUL") {
        Some(7)
    } else if same_text(name, "AUG") {
        Some(8)
    } else if same_text(name, "SEP") {
        Some(9)
    } else if same_text(name, "OCT") {
        Some(10)
    } else if same_text(name, "NOV") {
        Some(11)
    } else if same_text(name, "DEC") {
        Some(12)
    } else {
        None
    }
}

/// The day that a day of the month, a month's name and a year stand for.
pub fn date_from_groups(day: &str, month: &str, year: &str) -> (r: Option<Date>)
    ensures
        r == date_from(day@, month@, year@),
{
    match (parse_u32(day), month_from_name(month), parse_i32(year)) {
        (Some(d), Some(m), Some(y)) => Date::checked(y, m, d),
        _ => None,
    }
}

/// Reads a day from text such as `SAT 03 JUN 2023`.
pub fn parse_date(text: &str) -> (r: Option<Date>)
    ensures
        r == date_in(text@),
{
    match first_captures(REGEX_DATE, text) {
        Some(groups) => match (group(&groups, 1), group(&groups, 2), group(&groups, 3)) {
            (Some(day), Some(month), Some(year)) => date_from_groups(
                day.as_str(),
                month.as_str(),
                year.as_str(),
            ),
            _ => None,
        },
        None => None,
    }
}

/// Splits text of the form `club, place` into club and place.
pub fn split_club_and_place(text: &str) -> (r: Option<(String, String)>)
    ensures
        r.deep_view() == club_and_place(text@),
{
    match split_first(text, SEPARATOR) {
        Some((club, rest)) => match split_first(rest.as_str(), SEPARATOR) {
            Some((place, _)) => Some((club, place)),
            None => Some((club, rest)),
        },
        None => None,
    }
}

fn read_number(row: ElementRef, selector: &str, pattern: &str) -> (r: Option<u32>)
    ensures
        r == (match selected_inner_markup_of(row, selector@) {
            Some(text) => match captured(pattern@, text, 1) {
                Some(digits) => u32_of(digits),
                None => None,
            },
            None => None,
        }),
{
    match selected_inner_markup(row, selector) {
        Some(text) => match capture(pattern, text.as_str(), 1) {
            Some(digits) => parse_u32(digits.as_str()),
            None => None,
        },
        None => None,
    }
}

fn read_competition(row: ElementRef) -> (r: Option<u32>)
    ensures
        r == row_competition(row),
{
    match attribute(row, "onclick") {
        Some(onclick) => match capture(REGEX_COMPETITION_ID, onclick.as_str(), 1) {
            Some(digits) => parse_u32(digits.as_str()),
            None => None,
        },
        None => None,
    }
}

/// Reads one row of a search result on the day `today`.
pub fn parse_row(row: ElementRef, today: Date) -> (r: Result<CompetitionsListWebElement, ExtractError>)
    ensures
        match r {
            Ok(record) => competition_of(row, today) == Some(record.deep_view()),
            Err(e) => e == ExtractError::FieldParseError && competition_of(row, today) is None,
        },
{
    let competition = read_competition(row);
    let date = match selected_inner_markup(row, SELECT_DATE) {
        Some(text) => parse_date(text.as_str()),
        None => Some(today),
    };
    let name = match selected_text(row, SELECT_NAME) {
        Some(text) => {
            let plain = replace(text.as_str(), "\u{a0}", "");
            Some(copy_of(trim(plain.as_str())))
        },
        None => None,
    };
    let location = selected_inner_markup(row, SELECT_LOCATION);
    let registrations = read_number(row, SELECT_REGISTRATIONS, REGEX_REGISTRATIONS);
    let (competition_id, date, name, location, registrations) = match (
        competition,
        date,
        name,
        location,
        registrations,
    ) {
        (Some(a), Some(b), Some(c), Some(d), Some(e)) => (a, b, c, d, e),
        _ => return Err(ExtractError::FieldParseError),
    };
    let (club, place) = match split_club_and_place(location.as_str()) {
        Some(v) => v,
        None => return Err(ExtractError::FieldParseError),
    };
    let results_availible = match selected_inner_markup(row, SELECT_STATUS) {
        Some(status) => same_text(status.as_str(), RESULTS),
        None => false,
    };
    let club_members_only = match selected_inner_markup(row, SELECT_NAME) {
        Some(inner) => contains(inner.as_str(), CLUB_MEMBERS_ONLY),
        None => false,
    };
    Ok(
        CompetitionsListWebElement {
            date,
            name,
            location: place,
            club,
            registrations,
            results_availible,
            club_members_only,
            competition_id,
        },
    )
}

/// Reads the competitions of a search result, taking `today` for the day of a
/// row that shows no date.
pub fn parse_on(html: &Html, today: Date) -> (r: Result<CompetitionsWebList, ExtractError>)
    ensures
        r matches Ok(list) && list.deep_view() == competitions_page(html, today),
{
    let mut out: Vec<CompetitionsListWebElement> = Vec::new();
    let rows = match select_in_page(html, SELECT_ROW) {
        Some(v) => v,
        None => {
            assert(out.deep_view() == competitions_page(html, today));
            return Ok(out);
        },
    };
    let mut i: usize = 0;
    assert(rows@.take(0) == Seq::<ElementRef>::empty());
    assert(out.deep_view() == Seq::<CompetitionSummaryView>::empty());
    while i < rows.len()
        invariant
            i <= rows.len(),
            out.deep_view() == competitions_of(rows@.take(i as int), today),
        decreases rows.len() - i,
    {
        let ghost before = out.deep_view();
        assert(rows@.take(i + 1).drop_last() == rows@.take(i as int));
        assert(rows@.take(i + 1).last() == rows@[i as int]);
        match parse_row(rows[i], today) {
            Ok(record) => {
                let ghost view = record.deep_view();
                out.push(record);
                assert(out.deep_view() == before.push(view));
            },
            Err(_) => {},
        }
        i += 1;
    }
    assert(rows@.take(rows.len() as int) == rows@);
    Ok(out)
}

/// Reads the competitions of a search result. A row that shows no date is
/// taken to be of the day on which this is called, so the result is that of
/// `parse_on` for some day that exists.
pub fn parse(html: Html) -> (r: Result<CompetitionsWebList, ExtractError>)
    ensures
        r matches Ok(list) && exists|today: Date|
            today.is_valid() && list.deep_view() == competitions_page(&html, today),
{
    let today = Date::today();
    let found = parse_on(&html, today);
    assert(found matches Ok(list) && today.is_valid() && list.deep_view() == competitions_page(
        &html,
        today,
    ));
    found
}

} // verus!
