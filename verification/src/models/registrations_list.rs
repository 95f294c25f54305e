//! The participants of a competition, from the list of the mobile site. The
//! table of the desktop site holds more; this list is kept for callers that
//! still read it.

use crate::dom::{
    attribute, attribute_of, first_selected, first_selected_in_page, fragment_of, inner_markup,
    inner_markup_of, parse_fragment, select_first, select_first_in_page, select_in_page,
    selected_in_page, texts, texts_of,
};
use crate::models::ExtractError;
use crate::number::{parse_u32, u32_of};
use crate::pattern::{capture, captured, first_captures, first_match, group, group_of};
use crate::text::{nonblank, nonblank_of, replace, replaced, trim, trimmed};
use scraper::{ElementRef, Html};
use vstd::prelude::*;

verus! {

/// Group 1: the participant's number.
pub const REGEX_PARTICIPANT_ID: &'static str = r#"deelnemer_id=([\d]{1,})"#;

/// Group 1: the category. Group 2: the club.
pub const REGEX_CATEGORY_AND_CLUB: &'static str = r#"([\s\S]{1,}) \| ([\s\S]{1,})"#;

/// Group 1: the category. Group 2: the club. Group 3: the team.
pub const REGEX_CATEGORY_CLUB_AND_TEAM: &'static str =
    r#"([\s\S]{1,}) \| ([\s\S]{1,}) \| ([\s\S]{1,})"#;

pub const SELECT_SCRIPT: &'static str = "script.list-content-registrations";

pub const SELECT_ITEM: &'static str = "li > a";

pub const SELECT_INFO: &'static str = "div.item-inner > div.item-title";

pub const SELECT_EVENTS: &'static str = "div.item-inner > div.item-after";

pub type RegistrationsList = Vec<RegistrationsListElement>;

/// One participant of a competition.
#[derive(Debug, Clone)]
pub struct RegistrationsListElement {
    pub participant_id: u32,
    pub name: String,
    pub category: String,
    pub club_name: String,
    pub team_name: Option<String>,
    pub events: Vec<String>,
}

/// A `RegistrationsListElement` as contracts see it.
pub struct RegistrationView {
    pub participant_id: u32,
    pub name: Seq<char>,
    pub category: Seq<char>,
    pub club_name: Seq<char>,
    pub team_name: Option<Seq<char>>,
    pub events: Seq<Seq<char>>,
}

impl DeepView for RegistrationsListElement {
    type V = RegistrationView;

    open spec fn deep_view(&self) -> RegistrationView {
        RegistrationView {
            participant_id: self.participant_id,
            name: self.name@,
            category: self.category@,
            club_name: self.club_name@,
            team_name: self.team_name.deep_view(),
            events: self.events.deep_view(),
        }
    }
}

/// `text` trimmed, with single spaces for double ones.
pub open spec fn tidy(text: Seq<char>) -> Seq<char> {
    replaced(trimmed(text), "  "@, " "@)
}

/// Category, club and team from a line of the form `category | club | team`
/// or `category | club`, each tidied.
pub open spec fn affiliation_in(line: Seq<char>) -> Option<(Seq<char>, Seq<char>, Option<Seq<char>>)> {
    match first_match(REGEX_CATEGORY_CLUB_AND_TEAM@, line) {
        Some(groups) => match (group_of(groups, 1), group_of(groups, 2), group_of(groups, 3)) {
            (Some(category), Some(club), Some(team)) => Some(
                (tidy(category), tidy(club), Some(tidy(team))),
            ),
            _ => None,
        },
        None => match first_match(REGEX_CATEGORY_AND_CLUB@, line) {
            Some(groups) => match (group_of(groups, 1), group_of(groups, 2)) {
                (Some(category), Some(club)) => Some((tidy(category), tidy(club), None)),
                _ => None,
            },
            None => None,
        },
    }
}

/// The participant number of a list item, from the address of its link.
pub open spec fn item_participant(item: ElementRef) -> Option<u32> {
    match attribute_of(item, "href"@) {
        Some(href) => match captured(REGEX_PARTICIPANT_ID@, href, 1) {
            Some(digits) => u32_of(digits),
            None => None,
        },
        None => None,
    }
}

/// The participant of one list item, or `None` for an item that lacks a
/// part. The name is the first line of the item's title, the affiliation its
/// last line.
pub open spec fn registration_of(item: ElementRef) -> Option<RegistrationView> {
    match (first_selected(item, SELECT_INFO@), first_selected(item, SELECT_EVENTS@)) {
        (Some(info), Some(events)) => {
            let lines = nonblank_of(texts_of(info));
            if lines.len() > 0 {
                match (item_participant(item), affiliation_in(lines.last())) {
                    (Some(participant_id), Some(affiliation)) => Some(
                        RegistrationView {
                            participant_id,
                            name: tidy(lines[0]),
                            category: affiliation.0,
                            club_name: affiliation.1,
                            team_name: affiliation.2,
                            events: nonblank_of(texts_of(events)),
                        },
                    ),
                    _ => None,
                }
            } else {
                None
            }
        },
        _ => None,
    }
}

/// The list that the page carries in a script, as markup: the script's
/// content with `<` and `>` for their escapes.
pub open spec fn unescaped(script: Seq<char>) -> Seq<char> {
    replaced(replaced(script, "&lt;"@, "<"@), "&gt;"@, ">"@)
}

/// What the extractor makes of a participants page of the mobile site. A page
/// without the script that carries the list has not the expected structure.
pub open spec fn registrations_page(page: &Html) -> Result<Seq<RegistrationView>, ExtractError> {
    match first_selected_in_page(page, SELECT_SCRIPT@) {
        Some(script) => match selected_in_page(
            &fragment_of(unescaped(inner_markup_of(script))),
            SELECT_ITEM@,
        ) {
            Some(items) => Ok(items.filter_map(|item: ElementRef| registration_of(item))),
            None => Err(ExtractError::StructureNotFound),
        },
        None => Err(ExtractError::StructureNotFound),
    }
}

fn tidied(text: &str) -> (r: String)
    ensures
        r@ == tidy(text@),
{
    replace(trim(text), "  ", " ")
}

/// Reads category, club and team from the last line of an item's title.
pub fn parse_affiliation(line: &str) -> (r: Option<(String, String, Option<String>)>)
    ensures
        r.deep_view() == affiliation_in(line@),
{
    match first_captures(REGEX_CATEGORY_CLUB_AND_TEAM, line) {
        Some(groups) => match (group(&groups, 1), group(&groups, 2), group(&groups, 3)) {
            (Some(category), Some(club), Some(team)) => Some(
                (tidied(category.as_str()), tidied(club.as_str()), Some(tidied(team.as_str()))),
            ),
            _ => None,
        },
        None => match first_captures(REGEX_CATEGORY_AND_CLUB, line) {
            Some(groups) => match (group(&groups, 1), group(&groups, 2)) {
                (Some(category), Some(club)) => Some(
                    (tidied(category.as_str()), tidied(club.as_str()), None),
                ),
                _ => None,
            },
            None => None,
        },
    }
}

/// Reads one list item.
pub fn parse_item(item: ElementRef) -> (r: Result<RegistrationsListElement, ExtractError>)
    ensures
        match r {
            Ok(record) => registration_of(item) == Some(record.deep_view()),
            Err(e) => e == ExtractError::FieldParseError && registration_of(item) is None,
        },
{
    let (info, events) = match (select_first(item, SELECT_INFO), select_first(item, SELECT_EVENTS)) {
        (Some(a), Some(b)) => (a, b),
        _ => return Err(ExtractError::FieldParseError),
    };
    let info_texts = texts(info);
    let lines = nonblank(&info_texts);
    if lines.len() == 0 {
        return Err(ExtractError::FieldParseError);
    }
    let participant = match attribute(item, "href") {
        Some(href) => match capture(REGEX_PARTICIPANT_ID, href.as_str(), 1) {
            Some(digits) => parse_u32(digits.as_str()),
            None => None,
        },
        None => None,
    };
    assert(lines.deep_view().last() == lines[lines.len() - 1]@);
    assert(lines.deep_view()[0] == lines[0]@);
    let affiliation = parse_affiliation(lines[lines.len() - 1].as_str());
    match (participant, affiliation) {
        (Some(participant_id), Some(affiliation)) => {
            let event_texts = texts(events);
            Ok(
                RegistrationsListElement {
                    participant_id,
                    name: tidied(lines[0].as_str()),
                    category: affiliation.0,
                    club_name: affiliation.1,
                    team_name: affiliation.2,
                    events: nonblank(&event_texts),
                },
            )
        },
        _ => Err(ExtractError::FieldParseError),
    }
}

/// Reads the participants of a competition from the page of the mobile site.
pub fn parse(html: Html) -> (r: Result<RegistrationsList, ExtractError>)
    ensures
        match r {
            Ok(list) => registrations_page(&html) == Ok::<Seq<RegistrationView>, ExtractError>(
                list.deep_view(),
            ),
            Err(e) => registrations_page(&html) == Err::<Seq<RegistrationView>, ExtractError>(e),
        },
{
    let script = match select_first_in_page(&html, SELECT_SCRIPT) {
        Some(v) => v,
        None => return Err(ExtractError::StructureNotFound),
    };
    let inner = inner_markup(script);
    let half = replace(inner.as_str(), "&lt;", "<");
    let markup = replace(half.as_str(), "&gt;", ">");
    let fragment = parse_fragment(markup.as_str());
    let items = match select_in_page(&fragment, SELECT_ITEM) {
        Some(v) => v,
        None => return Err(ExtractError::StructureNotFound),
    };
    let mut out: Vec<RegistrationsListElement> = Vec::new();
    let mut i: usize = 0;
    assert(items@.take(0).filter_map(|item: ElementRef| registration_of(item)) == Seq::<
        RegistrationView,
    >::empty());
    assert(out.deep_view() == Seq::<RegistrationView>::empty());
    while i < items.len()
        invariant
            i <= items.len(),
            out.deep_view() == items@.take(i as int).filter_map(
                |item: ElementRef| registration_of(item),
            ),
        decreases items.len() - i,
    {
        let ghost before = out.deep_view();
        assert(items@.take(i + 1).drop_last() == items@.take(i as int));
        assert(items@.take(i + 1).last() == items@[i as int]);
        match parse_item(items[i]) {
            Ok(record) => {
                let ghost view = record.deep_view();
                out.push(record);
                assert(out.deep_view() == before.push(view));
            },
            Err(_) => {},
        }
        i += 1;
    }
    assert(items@.take(items.len() as int) == items@);
    Ok(out)
}

} // verus!
