//! The athletes that a search by name finds.

use crate::dom::{
    attribute, attribute_of, parent_element, parent_of, select_in_page, selected_in_page, texts,
    texts_of,
};
use crate::models::ExtractError;
use crate::number::{parse_u32, parse_u8, u32_of, u8_of};
use crate::pattern::{capture, captured, first_captures, first_match, group, group_of};
use crate::text::{copy_of, nonblank, nonblank_of, replace, replaced};
use scraper::{ElementRef, Html};
use vstd::prelude::*;

verus! {

/// Group 1: the age in years. Group 2: the club.
pub const REGEX_AGE_AND_CLUB: &'static str = r#"([\d]{1,3}) years \| ([\s\S]{1,})"#;

/// Group 1: the athlete's number.
pub const REGEX_ATHLETE_ID: &'static str = r#"koppel_id=([\d]{1,})"#;

pub const SELECT_ATHLETE: &'static str =
    "div.list-athletes > ul > li > a > div.item-inner > div.item-title";

pub type AthleteList = Vec<AthleteListElement>;

/// One athlete of a search result.
#[derive(Debug, Clone)]
pub struct AthleteListElement {
    pub id: u32,
    pub name: String,
    pub club_name: String,
    pub age: u8,
}

/// An `AthleteListElement` as contracts see it.
pub struct AthleteView {
    pub id: u32,
    pub name: Seq<char>,
    pub club_name: Seq<char>,
    pub age: u8,
}

impl DeepView for AthleteListElement {
    type V = AthleteView;

    open spec fn deep_view(&self) -> AthleteView {
        AthleteView { id: self.id, name: self.name@, club_name: self.club_name@, age: self.age }
    }
}

/// Age and club from a line of the form `17 years | club`.
pub open spec fn age_and_club_in(line: Seq<char>) -> Option<(u8, Seq<char>)> {
    match first_match(REGEX_AGE_AND_CLUB@, line) {
        Some(groups) => match (group_of(groups, 1), group_of(groups, 2)) {
            (Some(age), Some(club)) => match u8_of(age) {
                Some(years) => Some((years, club)),
                None => None,
            },
            _ => None,
        },
        None => None,
    }
}

/// The athlete's number, from the `onclick` attribute of the element two
/// levels above the title.
pub open spec fn title_athlete(title: ElementRef) -> Option<u32> {
    match parent_of(title) {
        Some(inner) => match parent_of(inner) {
            Some(link) => match attribute_of(link, "onclick"@) {
                Some(onclick) => match captured(REGEX_ATHLETE_ID@, onclick, 1) {
                    Some(digits) => u32_of(digits),
                    None => None,
                },
                None => None,
            },
            None => None,
        },
        None => None,
    }
}

/// The athlete of one title element, or `None` for one that lacks a part.
/// The name is the first line of the title, with single spaces for double
/// ones; age and club stand in the second.
pub open spec fn athlete_of(title: ElementRef) -> Option<AthleteView> {
    let lines = nonblank_of(texts_of(title));
    if lines.len() >= 2 {
        match (title_athlete(title), age_and_club_in(lines[1])) {
            (Some(id), Some(found)) => Some(
                AthleteView {
                    id,
                    name: replaced(lines[0], "  "@, " "@),
                    club_name: found.1,
                    age: found.0,
                },
            ),
            _ => None,
        }
    } else {
        None
    }
}

/// What the extractor makes of a search result.
pub open spec fn athletes_page(page: &Html) -> Seq<AthleteView> {
    match selected_in_page(page, SELECT_ATHLETE@) {
        Some(titles) => titles.filter_map(|title: ElementRef| athlete_of(title)),
        None => Seq::empty(),
    }
}

/// Reads age and club from the second line of a title.
pub fn parse_age_and_club(line: &str) -> (r: Option<(u8, String)>)
    ensures
        match r {
            Some(found) => age_and_club_in(line@) == Some((found.0, found.1@)),
            None => age_and_club_in(line@) is None,
        },
{
    match first_captures(REGEX_AGE_AND_CLUB, line) {
        Some(groups) => match (group(&groups, 1), group(&groups, 2)) {
            (Some(age), Some(club)) => match parse_u8(age.as_str()) {
                Some(years) => Some((years, copy_of(club.as_str()))),
                None => None,
            },
            _ => None,
        },
        None => None,
    }
}

fn read_athlete(title: ElementRef) -> (r: Option<u32>)
    ensures
        r == title_athlete(title),
{
    match parent_element(title) {
        Some(inner) => match parent_element(inner) {
            Some(link) => match attribute(link, "onclick") {
                Some(onclick) => match capture(REGEX_ATHLETE_ID, onclick.as_str(), 1) {
                    Some(digits) => parse_u32(digits.as_str()),
                    None => None,
                },
                None => None,
            },
            None => None,
        },
        None => None,
    }
}

/// Reads one athlete from its title element.
pub fn parse_title(title: ElementRef) -> (r: Result<AthleteListElement, ExtractError>)
    ensures
        match r {
            Ok(record) => athlete_of(title) == Some(record.deep_view()),
            Err(e) => e == ExtractError::FieldParseError && athlete_of(title) is None,
        },
{
    let all = texts(title);
    let lines = nonblank(&all);
    if lines.len() < 2 {
        return Err(ExtractError::FieldParseError);
    }
    assert(lines.deep_view()[0] == lines[0]@);
    assert(lines.deep_view()[1] == lines[1]@);
    match (read_athlete(title), parse_age_and_club(lines[1].as_str())) {
        (Some(id), Some(found)) => Ok(
            AthleteListElement {
                id,
                name: replace(lines[0].as_str(), "  ", " "),
                club_name: found.1,
                age: found.0,
            },
        ),
        _ => Err(ExtractError::FieldParseError),
    }
}

/// Reads the athletes of a search result. An entry that cannot be read is
/// left out.
pub fn parse(html: Html) -> (r: Result<AthleteList, ExtractError>)
    ensures
        r matches Ok(list) && list.deep_view() == athletes_page(&html),
{
    let mut out: Vec<AthleteListElement> = Vec::new();
    let titles = match select_in_page(&html, SELECT_ATHLETE) {
        Some(v) => v,
        None => {
            assert(out.deep_view() == athletes_page(&html));
            return Ok(out);
        },
    };
    let mut i: usize = 0;
    assert(titles@.take(0).filter_map(|title: ElementRef| athlete_of(title)) == Seq::<
        AthleteView,
    >::empty());
    assert(out.deep_view() == Seq::<AthleteView>::empty());
    while i < titles.len()
        invariant
            i <= titles.len(),
            out.deep_view() == titles@.take(i as int).filter_map(
                |title: ElementRef| athlete_of(title),
            ),
        decreases titles.len() - i,
    {
        let ghost before = out.deep_view();
        assert(titles@.take(i + 1).drop_last() == titles@.take(i as int));
        assert(titles@.take(i + 1).last() == titles@[i as int]);
        match parse_title(titles[i]) {
            Ok(record) => {
                let ghost view = record.deep_view();
                out.push(record);
                assert(out.deep_view() == before.push(view));
            },
            Err(_) => {},
        }
        i += 1;
    }
    assert(titles@.take(titles.len() as int) == titles@);
    Ok(out)
}

} // verus!
