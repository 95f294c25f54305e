//! The competitions that a search of the mobile site finds.

use crate::dom::{
    first_selected, fragment_of, inner_markup, inner_markup_of, parse_fragment, select_first,
    select_in_page, selected_attribute, selected_attribute_of, selected_in_page,
    selected_inner_markup, selected_inner_markup_of, texts, texts_of,
};
use crate::models::ExtractError;
use crate::number::{parse_u16, parse_u32, u16_of, u32_of};
use crate::pattern::{capture, captured};
use crate::text::{copy_of, first_nonblank, first_nonblank_of, replace, replaced, trim, trimmed};
use crate::util::{clean_html, top_level_text};
use scraper::{ElementRef, Html};
use vstd::prelude::*;

verus! {

/// Group 1: the number of registrations.
pub const REGEX_REGISTRATIONS: &'static str = "([0-9]{1,}) registrations";

pub const SELECT_LIST: &'static str = "div.competitions-list";

pub const SELECT_ITEM: &'static str = "li";

pub const SELECT_LINK: &'static str = "a";

pub const SELECT_INFO: &'static str = "div.item-inner > div.item-title";

pub const SELECT_TITLE: &'static str = "h6";

pub const SELECT_LOCATION: &'static str = "div.subtitle";

pub const SELECT_REGISTRATIONS: &'static str = "div.item-footer";

pub const SELECT_CLUB_ONLY: &'static str = "span.clubmembersonly";

pub const SELECT_RECOGNIZED: &'static str = "img.WA-label";

/// What stands before the competition's number in the address of its link.
pub const LINK_PREFIX: &'static str = "/event&do=get&event_id=";

pub type CompetitionsList = Vec<CompetitionsListElement>;

/// One competition of a search result.
#[derive(Debug, Clone)]
pub struct CompetitionsListElement {
    pub id: u32,
    pub name: String,
    pub location: String,
    pub registrations: u16,
    pub club_only: bool,
    pub world_athletics_recognized: bool,
}

/// A `CompetitionsListElement` as contracts see it.
pub struct CompetitionView {
    pub id: u32,
    pub name: Seq<char>,
    pub location: Seq<char>,
    pub registrations: u16,
    pub club_only: bool,
    pub world_athletics_recognized: bool,
}

impl DeepView for CompetitionsListElement {
    type V = CompetitionView;

    open spec fn deep_view(&self) -> CompetitionView {
        CompetitionView {
            id: self.id,
            name: self.name@,
            location: self.location@,
            registrations: self.registrations,
            club_only: self.club_only,
            world_athletics_recognized: self.world_athletics_recognized,
        }
    }
}

/// The number of the competition of a list item: what is left of the address
/// of its first link without the prefix.
pub open spec fn item_id(item: ElementRef) -> Option<u32> {
    match selected_attribute_of(item, SELECT_LINK@, "href"@) {
        Some(href) => u32_of(replaced(href, LINK_PREFIX@, ""@)),
        None => None,
    }
}

/// The number of registrations written in the footer of a list item.
pub open spec fn registrations_in(footer: Seq<char>) -> Option<u16> {
    match captured(REGEX_REGISTRATIONS@, footer, 1) {
        Some(digits) => u16_of(digits),
        None => None,
    }
}

/// The competition of one list item, or `None` for an item that lacks a part.
pub open spec fn competition_of(item: ElementRef) -> Option<CompetitionView> {
    match first_selected(item, SELECT_INFO@) {
        Some(info) => match (
            first_selected(info, SELECT_TITLE@),
            first_selected(info, SELECT_LOCATION@),
            selected_inner_markup_of(info, SELECT_REGISTRATIONS@),
        ) {
            (Some(title), Some(location), Some(footer)) => match (
                item_id(item),
                first_nonblank_of(texts_of(title)),
                registrations_in(footer),
            ) {
                (Some(id), Some(name), Some(registrations)) => Some(
                    CompetitionView {
                        id,
                        name,
                        location: trimmed(top_level_text(inner_markup_of(location))),
                        registrations,
                        club_only: first_selected(location, SELECT_CLUB_ONLY@) is Some,
                        world_athletics_recognized: first_selected(title, SELECT_RECOGNIZED@)
                            is Some,
                    },
                ),
                _ => None,
            },
            _ => None,
        },
        None => None,
    }
}

/// The competitions of the list items of a fragment, in order.
pub open spec fn element_list(fragment: &Html) -> Seq<CompetitionView> {
    match selected_in_page(fragment, SELECT_ITEM@) {
        Some(items) => items.filter_map(|item: ElementRef| competition_of(item)),
        None => Seq::empty(),
    }
}

/// The competitions of the lists `lists`, in order: those of each list's
/// content, parsed as a fragment of its own.
pub open spec fn lists_competitions(lists: Seq<ElementRef>) -> Seq<CompetitionView>
    decreases lists.len(),
{
    if lists.len() == 0 {
        Seq::empty()
    } else {
        lists_competitions(lists.drop_last()) + element_list(
            &fragment_of(inner_markup_of(lists.last())),
        )
    }
}

/// What the extractor makes of a search result.
pub open spec fn competitions_page(page: &Html) -> Seq<CompetitionView> {
    match selected_in_page(page, SELECT_LIST@) {
        Some(lists) => lists_competitions(lists),
        None => Seq::empty(),
    }
}

/// Reads one list item.
pub fn parse_item(item: ElementRef) -> (r: Result<CompetitionsListElement, ExtractError>)
    ensures
        match r {
            Ok(record) => competition_of(item) == Some(record.deep_view()),
            Err(e) => e == ExtractError::FieldParseError && competition_of(item) is None,
        },
{
    let info = match select_first(item, SELECT_INFO) {
        Some(v) => v,
        None => return Err(ExtractError::FieldParseError),
    };
    let title = select_first(info, SELECT_TITLE);
    let location = select_first(info, SELECT_LOCATION);
    let footer = selected_inner_markup(info, SELECT_REGISTRATIONS);
    let (title, location, footer) = match (title, location, footer) {
        (Some(a), Some(b), Some(c)) => (a, b, c),
        _ => return Err(ExtractError::FieldParseError),
    };
    let id = match selected_attribute(item, SELECT_LINK, "href") {
        Some(href) => {
            let digits = replace(href.as_str(), LINK_PREFIX, "");
            parse_u32(digits.as_str())
        },
        None => None,
    };
    let title_texts = texts(title);
    let name = first_nonblank(&title_texts);
    let registrations = match capture(REGEX_REGISTRATIONS, footer.as_str(), 1) {
        Some(digits) => parse_u16(digits.as_str()),
        None => None,
    };
    match (id, name, registrations) {
        (Some(id), Some(name), Some(registrations)) => {
            let inner = inner_markup(location);
            let plain = clean_html(inner.as_str());
            Ok(
                CompetitionsListElement {
                    id,
                    name,
                    location: copy_of(trim(plain.as_str())),
                    registrations,
                    club_only: select_first(location, SELECT_CLUB_ONLY).is_some(),
                    world_athletics_recognized: select_first(title, SELECT_RECOGNIZED).is_some(),
                },
            )
        },
        _ => Err(ExtractError::FieldParseError),
    }
}

/// Reads the competitions of the list items of a fragment. An item that
/// cannot be read is left out.
pub fn parse_element_list(html: Html) -> (r: Result<Vec<CompetitionsListElement>, ExtractError>)
    ensures
        r matches Ok(list) && list.deep_view() == element_list(&html),
{
    Ok(read_element_list(&html))
}

fn read_element_list(html: &Html) -> (out: Vec<CompetitionsListElement>)
    ensures
        out.deep_view() == element_list(html),
{
    let mut out: Vec<CompetitionsListElement> = Vec::new();
    let items = match select_in_page(html, SELECT_ITEM) {
        Some(v) => v,
        None => {
            assert(out.deep_view() == element_list(html));
            return out;
        },
    };
    let mut i: usize = 0;
    assert(items@.take(0).filter_map(|item: ElementRef| competition_of(item)) == Seq::<
        CompetitionView,
    >::empty());
    assert(out.deep_view() == Seq::<CompetitionView>::empty());
    while i < items.len()
        invariant
            i <= items.len(),
            out.deep_view() == items@.take(i as int).filter_map(
                |item: ElementRef| competition_of(item),
            ),
        decreases items.len() - i,
    {
        let ghost before = out.deep_view();
        assert(items@.take(i + 1).drop_last() == items@.take(i as int));
        assert(items@.take(i + 1).last() == items@[i as int]);
        match parse_item(items[i]) {
            Ok(record) => {
                let ghost view = record.deep_view();
                out.push(record);
                assert(out.deep_view() == before.push(view));
            },
            Err(_) => {},
        }
        i += 1;
    }
    assert(items@.take(items.len() as int) == items@);
    out
}

/// Reads the competitions of a search result of the mobile site.
pub fn parse(html: Html) -> (r: Result<CompetitionsList, ExtractError>)
    ensures
        r matches Ok(list) && list.deep_view() == competitions_page(&html),
{
    let mut out: Vec<CompetitionsListElement> = Vec::new();
    let lists = match select_in_page(&html, SELECT_LIST) {
        Some(v) => v,
        None => {
            assert(out.deep_view() == competitions_page(&html));
            return Ok(out);
        },
    };
    let mut i: usize = 0;
    assert(lists@.take(0) == Seq::<ElementRef>::empty());
    assert(out.deep_view() == Seq::<CompetitionView>::empty());
    while i < lists.len()
        invariant
            i <= lists.len(),
            out.deep_view() == lists_competitions(lists@.take(i as int)),
        decreases lists.len() - i,
    {
        let ghost before = out.deep_view();
        assert(lists@.take(i + 1).drop_last() == lists@.take(i as int));
        assert(lists@.take(i + 1).last() == lists@[i as int]);
        let inner = inner_markup(lists[i]);
        let fragment = parse_fragment(inner.as_str());
        let mut found = read_element_list(&fragment);
        let ghost more = found.deep_view();
        out.append(&mut found);
        assert(out.deep_view() =~= before + more);
        i += 1;
    }
    assert(lists@.take(lists.len() as int) == lists@);
    Ok(out)
}

} // verus!
