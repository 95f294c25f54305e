//! An athlete's profile: personal bests, the graphs of performance over time,
//! and the competitions taken part in.

use crate::components::wind_speed;
use crate::components::wind_speed::wind_speed_of;
use crate::date::{is_calendar_date, Date};
use crate::decimal::{decimal_of, Decimal};
use crate::dom::{
    attribute, attribute_of, first_selected, first_text, first_text_of, inner_markup,
    inner_markup_of, root_element, root_of, select, select_first, select_in_page,
    selected_attribute, selected_attribute_of, selected_in, selected_in_page,
};
use crate::models::athlete_event_result::{page_name, read_name};
use crate::models::competition_registrations_list;
use crate::models::competition_registrations_list::{
    registrations_of, CompetitionRegistrationList, CompetitionRegistrationView,
};
use crate::models::ExtractError;
use crate::number::{i32_of, parse_i32, parse_u32, u32_of};
use crate::pattern::{
    all_captures, all_matches, capture, captured, first_captures, first_match, group, group_of,
};
use crate::text::{
    char_count, contains, copy_of, has_occurrence, lowercased, push_text, replace, replaced,
    same_text, to_lowercase, trim, trimmed,
};
use scraper::{ElementRef, Html};
use vstd::prelude::*;

verus! {

/// Groups 1 to 3: year, month, day. Group 4: the place. Group 5: the country.
pub const REGEX_PB_SORT_DATA: &'static str =
    r#"([0-9]{4})([0-9]{2})([0-9]{2})([\w\s-]{0,}) \(([\w]{0,})\)"#;

/// Groups 1 to 3: minutes, seconds, fraction. Group 4: the hand-timing mark.
pub const REGEX_PERFORMANCE: &'static str = r#"([0-9]{0,}):([0-9]{0,})[\.,]([0-9]{0,})([h]{0,})"#;

/// Group 1: the value. Group 2: the unit.
pub const REGEX_ATTRIBUTE: &'static str = r#"([\d.]{0,})(cm|kg|gr)"#;

/// Group 1: the event's name. Group 2: the number of results.
pub const REGEX_GRAPH_INFO: &'static str =
    r#"title: \{text: '([\w\d\- ]+)'\},subtitle: \{text: '(\d+) results'\}"#;

/// Groups 1 to 3: year, month counted from 0, day. Group 4: the performance.
pub const REGEX_GRAPH_POINTS: &'static str =
    r#"\[Date.UTC\((\d{0,}), (\d{0,}), (\d{0,})\),([\d.]{0,})\]"#;

/// Group 1: the event's number.
pub const REGEX_GRAPH_EVENT_ID: &'static str = r#"tab-pane#([\d-]+)"#;

/// Group 1: the specification's token.
pub const REGEX_GRAPH_SPECIFICATION: &'static str = r#"history-scores_([\w\d-]+)_1"#;

/// Group 1: the event's number. Group 2: the specification's token.
pub const REGEX_DIV_SPECIFICATION: &'static str = r#"specification-container-([\d-]+)-([al\d-]+)"#;

pub const SELECT_PERSONAL_BEST: &'static str =
    "div#records > table#persoonlijkerecords > tbody > tr";

pub const SELECT_CELL: &'static str = "td";

pub const SELECT_SORT_DATA: &'static str = "span.sortData";

pub const SELECT_SUBTEXT: &'static str = "span.subtext";

pub const SELECT_SPAN: &'static str = "span";

pub const SELECT_GRAPH: &'static str = "div#graphTabs > div";

pub const SELECT_SCRIPT: &'static str = "script";

pub const SELECT_SPECIFICATION: &'static str = "div > a.specification-selector";

/// The class of a row that the page shows less prominently.
pub const NOT_IMPORTANT: &'static str = "notThatImportant";

/// The label of the specification that stands for all of them.
pub const EVERYTHING: &'static str = "Everything";

/// All that an athlete's profile page holds.
#[derive(Debug, Clone)]
pub struct AthleteProfile {
    pub name: String,
    pub personal_bests: Vec<PersonalBestItem>,
    pub graphs: Vec<EventGraph>,
    pub competitions: CompetitionRegistrationList,
}

/// One personal best. `performance` is in seconds or metres.
#[derive(Debug, Clone)]
pub struct PersonalBestItem {
    pub event: String,
    pub performance: Decimal,
    pub wind_speed: Option<Decimal>,
    pub display_performance: String,
    pub hand_measured: bool,
    pub location: String,
    pub country: String,
    pub date: Date,
    pub not_important: bool,
    pub attribute: Option<EventAttribute>,
}

/// What distinguishes one variant of an event from another: a height in
/// metres or a weight in kilograms.
#[derive(Debug, Clone, Copy, PartialEq, Eq, Structural)]
pub enum EventAttribute {
    Height(Decimal),
    UnknownHeight,
    Weight(Decimal),
    All,
}

/// The performances in one event over time.
#[derive(Debug, Clone)]
pub struct EventGraph {
    pub specification: EventAttribute,
    pub event: String,
    pub event_id: i32,
    pub points: Vec<(Date, Decimal)>,
}

/// A `PersonalBestItem` as contracts see it.
pub struct PersonalBestView {
    pub event: Seq<char>,
    pub performance: Decimal,
    pub wind_speed: Option<Decimal>,
    pub display_performance: Seq<char>,
    pub hand_measured: bool,
    pub location: Seq<char>,
    pub country: Seq<char>,
    pub date: Date,
    pub not_important: bool,
    pub attribute: Option<EventAttribute>,
}

/// An `EventGraph` as contracts see it.
pub struct EventGraphView {
    pub specification: EventAttribute,
    pub event: Seq<char>,
    pub event_id: i32,
    pub points: Seq<(Date, Decimal)>,
}

/// An `AthleteProfile` as contracts see it.
pub struct AthleteProfileView {
    pub name: Seq<char>,
    pub personal_bests: Seq<PersonalBestView>,
    pub graphs: Seq<EventGraphView>,
    pub competitions: Seq<CompetitionRegistrationView>,
}

impl DeepView for EventAttribute {
    type V = EventAttribute;

    open spec fn deep_view(&self) -> EventAttribute {
        *self
    }
}

impl DeepView for PersonalBestItem {
    type V = PersonalBestView;

    open spec fn deep_view(&self) -> PersonalBestView {
        PersonalBestView {
            event: self.event@,
            performance: self.performance,
            wind_speed: self.wind_speed,
            display_performance: self.display_performance@,
            hand_measured: self.hand_measured,
            location: self.location@,
            country: self.country@,
            date: self.date,
            not_important: self.not_important,
            attribute: self.attribute,
        }
    }
}

impl DeepView for EventGraph {
    type V = EventGraphView;

    open spec fn deep_view(&self) -> EventGraphView {
        EventGraphView {
            specification: self.specification,
            event: self.event@,
            event_id: self.event_id,
            points: self.points@,
        }
    }
}

impl DeepView for AthleteProfile {
    type V = AthleteProfileView;

    open spec fn deep_view(&self) -> AthleteProfileView {
        AthleteProfileView {
            name: self.name@,
            personal_bests: self.personal_bests.deep_view(),
            graphs: self.graphs.deep_view(),
            competitions: self.competitions.deep_view(),
        }
    }
}

/// The attribute that a value and its unit stand for: centimetres become a
/// height in metres, grams and kilograms a weight in kilograms. A value that
/// is no decimal, and any other unit, stand for nothing.
pub open spec fn attribute_from(value: Seq<char>, unit: Seq<char>) -> Option<EventAttribute> {
    match decimal_of(value) {
        Some(number) => if unit == "cm"@ {
            match number.shift_down(2) {
                Some(metres) => Some(EventAttribute::Height(metres)),
                None => None,
            }
        } else if unit == "gr"@ {
            match number.shift_down(3) {
                Some(kilograms) => Some(EventAttribute::Weight(kilograms)),
                None => None,
            }
        } else if unit == "kg"@ {
            Some(EventAttribute::Weight(number))
        } else {
            None
        },
        None => None,
    }
}

/// The attribute written in `text`: a decimal followed by a unit.
pub open spec fn attribute_in(text: Seq<char>) -> Option<EventAttribute> {
    match first_match(REGEX_ATTRIBUTE@, text) {
        Some(groups) => match (group_of(groups, 1), group_of(groups, 2)) {
            (Some(value), Some(unit)) => attribute_from(value, unit),
            _ => None,
        },
        None => None,
    }
}

/// The attribute that a value and its unit stand for.
pub fn attribute_from_groups(value: &str, unit: &str) -> (r: Option<EventAttribute>)
    ensures
        r == attribute_from(value@, unit@),
{
    let number = match Decimal::parse(value) {
        Some(v) => v,
        None => return None,
    };
    if same_text(unit, "cm") {
        match number.shifted_down(2) {
            Some(metres) => Some(EventAttribute::Height(metres)),
            None => None,
        }
    } else if same_text(unit, "gr") {
        match number.shifted_down(3) {
            Some(kilograms) => Some(EventAttribute::Weight(kilograms)),
            None => None,
        }
    } else if same_text(unit, "kg") {
        Some(EventAttribute::Weight(number))
    } else {
        None
    }
}

/// Reads a height or weight from text such as `84cm` or `7.26kg`.
pub fn parse_attribute(text: &str) -> (r: Option<EventAttribute>)
    ensures
        r == attribute_in(text@),
{
    match first_captures(REGEX_ATTRIBUTE, text) {
        Some(groups) => match (group(&groups, 1), group(&groups, 2)) {
            (Some(value), Some(unit)) => attribute_from_groups(value.as_str(), unit.as_str()),
            _ => None,
        },
        None => None,
    }
}

/// Whether `label` names a unit of height or weight.
pub open spec fn names_unit(label: Seq<char>) -> bool {
    has_occurrence(label, "cm"@) || has_occurrence(label, "gr"@) || has_occurrence(label, "kg"@)
}

/// The attribute after one more label of the event cell has been read. The
/// label is taken trimmed and in lower case. `unknown height` and a label
/// with a unit set the attribute; an empty label, `manual` and any other
/// label leave it as it was.
pub open spec fn with_label(attribute: Option<EventAttribute>, label: ElementRef) -> Option<
    EventAttribute,
> {
    match first_text_of(label) {
        Some(text) => if trimmed(text).len() == 0 {
            attribute
        } else if lowercased(trimmed(text)) == "manual"@ {
            attribute
        } else if lowercased(trimmed(text)) == "unknown height"@ {
            Some(EventAttribute::UnknownHeight)
        } else if names_unit(lowercased(trimmed(text))) {
            attribute_in(lowercased(trimmed(text)))
        } else {
            attribute
        },
        None => attribute,
    }
}

/// The attribute after the first `upto` labels have been read.
pub open spec fn labels_attribute(labels: Seq<ElementRef>, upto: int) -> Option<EventAttribute>
    decreases upto,
{
    if upto <= 0 {
        None
    } else {
        with_label(labels_attribute(labels, upto - 1), labels[upto - 1])
    }
}

/// The attribute of an event cell, from its labels.
pub open spec fn cell_attribute(cell: ElementRef) -> Option<EventAttribute> {
    match selected_in(cell, SELECT_SUBTEXT@) {
        Some(labels) => labels_attribute(labels, labels.len() as int),
        None => None,
    }
}

/// The performance that the groups of a match stand for, rounded to three
/// places, and whether it was timed by hand: minutes, seconds and the digits
/// of the fraction, and the mark that follows them.
pub open spec fn performance_from(
    minutes: Seq<char>,
    seconds: Seq<char>,
    fraction: Seq<char>,
    mark: Seq<char>,
) -> Option<(Decimal, bool)> {
    match (u32_of(minutes), u32_of(seconds), u32_of(fraction)) {
        (Some(m), Some(s), Some(f)) => if fraction.len() <= u32::MAX {
            match (Decimal { negative: false, digits: f as u64, scale: fraction.len() as u32 }).plus_whole(
                (m * 60 + s) as nat,
            ) {
                Some(value) => Some((value.round_to(3), mark.len() > 0)),
                None => None,
            }
        } else {
            None
        },
        _ => None,
    }
}

/// `text` between `0:` and `,0`, so that a performance without minutes or
/// without a fraction matches the pattern too.
pub open spec fn padded(text: Seq<char>) -> Seq<char> {
    "0:"@ + text + ",0"@
}

/// The performance written in `text`, and whether it was timed by hand.
pub open spec fn performance_in(text: Seq<char>) -> Option<(Decimal, bool)> {
    match first_match(REGEX_PERFORMANCE@, padded(text)) {
        Some(groups) => match (
            group_of(groups, 1),
            group_of(groups, 2),
            group_of(groups, 3),
            group_of(groups, 4),
        ) {
            (Some(minutes), Some(seconds), Some(fraction), Some(mark)) => performance_from(
                minutes,
                seconds,
                fraction,
                mark,
            ),
            _ => None,
        },
        None => None,
    }
}

/// The performance that the groups of a match stand for, and whether it was
/// timed by hand.
pub fn performance_from_groups(minutes: &str, seconds: &str, fraction: &str, mark: &str) -> (r:
    Option<(Decimal, bool)>)
    ensures
        r == performance_from(minutes@, seconds@, fraction@, mark@),
{
    match (parse_u32(minutes), parse_u32(seconds), parse_u32(fraction)) {
        (Some(m), Some(s), Some(f)) => {
            let places = char_count(fraction);
            if places <= 0xffff_ffff {
                let part = Decimal { negative: false, digits: f as u64, scale: places as u32 };
                let whole: u64 = m as u64 * 60 + s as u64;
                match part.with_whole(whole) {
                    Some(value) => Some((value.rounded(3), !mark.is_empty())),
                    None => None,
                }
            } else {
                None
            }
        },
        _ => None,
    }
}

/// Reads a performance such as `9.62`, `1:23,45` or `10.3h`.
pub fn parse_performance(text: &str) -> (r: Option<(Decimal, bool)>)
    ensures
        r == performance_in(text@),
{
    let mut wide = String::new();
    push_text(&mut wide, "0:");
    push_text(&mut wide, text);
    push_text(&mut wide, ",0");
    assert(wide@ =~= padded(text@));
    match first_captures(REGEX_PERFORMANCE, wide.as_str()) {
        Some(groups) => match (group(&groups, 1), group(&groups, 2), group(&groups, 3), group(
            &groups,
            4,
        )) {
            (Some(minutes), Some(seconds), Some(fraction), Some(mark)) => performance_from_groups(
                minutes.as_str(),
                seconds.as_str(),
                fraction.as_str(),
                mark.as_str(),
            ),
            _ => None,
        },
        None => None,
    }
}

/// The day that three runs of digits name, where it exists.
pub open spec fn date_from(year: Seq<char>, month: Seq<char>, day: Seq<char>) -> Option<Date> {
    match (i32_of(year), u32_of(month), u32_of(day)) {
        (Some(y), Some(m), Some(d)) => if is_calendar_date(y as int, m as int, d as int) {
            Some(Date { year: y, month: m, day: d })
        } else {
            None
        },
        _ => None,
    }
}

/// The day that three runs of digits name, where it exists.
pub fn date_from_groups(year: &str, month: &str, day: &str) -> (r: Option<Date>)
    ensures
        r == date_from(year@, month@, day@),
{
    match (parse_i32(year), parse_u32(month), parse_u32(day)) {
        (Some(y), Some(m), Some(d)) => Date::checked(y, m, d),
        _ => None,
    }
}

/// When and where a personal best was set: day, place and country, from the
/// sort key of the place cell.
pub open spec fn place_in(key: Seq<char>) -> Option<(Date, Seq<char>, Seq<char>)> {
    match first_match(REGEX_PB_SORT_DATA@, key) {
        Some(groups) => match (
            group_of(groups, 1),
            group_of(groups, 2),
            group_of(groups, 3),
            group_of(groups, 4),
            group_of(groups, 5),
        ) {
            (Some(year), Some(month), Some(day), Some(place), Some(country)) => match date_from(
                year,
                month,
                day,
            ) {
                Some(date) => Some((date, place, country)),
                None => None,
            },
            _ => None,
        },
        None => None,
    }
}

/// Reads day, place and country from the sort key of a place cell.
pub fn parse_place(key: &str) -> (r: Option<(Date, String, String)>)
    ensures
        match r {
            Some(found) => place_in(key@) == Some((found.0, found.1@, found.2@)),
            None => place_in(key@) is None,
        },
{
    match first_captures(REGEX_PB_SORT_DATA, key) {
        Some(groups) => match (group(&groups, 1), group(&groups, 2), group(&groups, 3), group(
            &groups,
            4,
        ), group(&groups, 5)) {
            (Some(year), Some(month), Some(day), Some(place), Some(country)) => match date_from_groups(
                year.as_str(),
                month.as_str(),
                day.as_str(),
            ) {
                Some(date) => Some((date, copy_of(place.as_str()), copy_of(country.as_str()))),
                None => None,
            },
            _ => None,
        },
        None => None,
    }
}

/// The wind speed of a performance cell: that in the first text of the first
/// span inside the cell's first label.
pub open spec fn cell_wind(cell: ElementRef) -> Option<Decimal> {
    match first_selected(cell, SELECT_SUBTEXT@) {
        Some(label) => match first_selected(label, SELECT_SPAN@) {
            Some(span) => match first_text_of(span) {
                Some(text) => wind_speed_of(text),
                None => None,
            },
            None => None,
        },
        None => None,
    }
}

/// Whether a row is one that the page shows less prominently.
pub open spec fn row_not_important(row: ElementRef) -> bool {
    match attribute_of(row, "class"@) {
        Some(class) => has_occurrence(class, NOT_IMPORTANT@),
        None => false,
    }
}

/// The personal best of one row, or `None` for a row that lacks a part.
pub open spec fn personal_best_of(row: ElementRef) -> Option<PersonalBestView> {
    match selected_in(row, SELECT_CELL@) {
        Some(cells) => if cells.len() >= 3 {
            match (
                first_text_of(cells[0]),
                first_text_of(cells[1]),
                selected_attribute_of(cells[2], SELECT_SORT_DATA@, "data"@),
            ) {
                (Some(event), Some(shown), Some(key)) => match (
                    performance_in(trimmed(shown)),
                    place_in(key),
                ) {
                    (Some(performance), Some(place)) => Some(
                        PersonalBestView {
                            event: trimmed(event),
                            performance: performance.0,
                            wind_speed: cell_wind(cells[1]),
                            display_performance: trimmed(shown),
                            hand_measured: performance.1,
                            location: place.1,
                            country: place.2,
                            date: place.0,
                            not_important: row_not_important(row),
                            attribute: cell_attribute(cells[0]),
                        },
                    ),
                    _ => None,
                },
                _ => None,
            }
        } else {
            None
        },
        None => None,
    }
}

/// The personal bests of a page: one for each row that can be read.
pub open spec fn personal_bests_of(page: &Html) -> Seq<PersonalBestView> {
    match selected_in_page(page, SELECT_PERSONAL_BEST@) {
        Some(rows) => rows.filter_map(|row: ElementRef| personal_best_of(row)),
        None => Seq::empty(),
    }
}

/// One entry of the specification table: the token of a specification and the
/// attribute that its label names.
pub open spec fn specification_of(link: ElementRef) -> Option<(Seq<char>, EventAttribute)> {
    match (attribute_of(link, "data-target"@), first_text_of(link)) {
        (Some(target), Some(label)) => match captured(REGEX_DIV_SPECIFICATION@, target, 2) {
            Some(token) => if label == EVERYTHING@ {
                Some((token, EventAttribute::All))
            } else {
                match attribute_in(label) {
                    Some(attribute) => Some((token, attribute)),
                    None => None,
                }
            },
            None => None,
        },
        _ => None,
    }
}

/// The entries of the specification table that one graph tab holds.
pub open spec fn tab_specifications(tab: ElementRef) -> Seq<(Seq<char>, EventAttribute)> {
    match selected_in(tab, SELECT_SPECIFICATION@) {
        Some(links) => links.filter_map(|link: ElementRef| specification_of(link)),
        None => Seq::empty(),
    }
}

/// The entries of the specification table of all graph tabs, in order.
pub open spec fn specifications_of(tabs: Seq<ElementRef>) -> Seq<(Seq<char>, EventAttribute)>
    decreases tabs.len(),
{
    if tabs.len() == 0 {
        Seq::empty()
    } else {
        specifications_of(tabs.drop_last()) + tab_specifications(tabs.last())
    }
}

/// The attribute that the table holds for `token`: that of the last entry
/// with this token.
pub open spec fn lookup_specification(
    table: Seq<(Seq<char>, EventAttribute)>,
    token: Seq<char>,
) -> Option<EventAttribute>
    decreases table.len(),
{
    if table.len() == 0 {
        None
    } else if table.last().0 == token {
        Some(table.last().1)
    } else {
        lookup_specification(table.drop_last(), token)
    }
}

/// The specification of a graph: all of them where the graph's token is its
/// own event number, else what the table holds for the token.
pub open spec fn graph_specification(
    table: Seq<(Seq<char>, EventAttribute)>,
    event_id: Seq<char>,
    token: Seq<char>,
) -> Option<EventAttribute> {
    if token == event_id {
        Some(EventAttribute::All)
    } else {
        lookup_specification(table, token)
    }
}

/// The point that the groups of one match stand for. The month is counted
/// from 0 in the page and from 1 in the date.
pub open spec fn point_of(groups: Seq<Option<Seq<char>>>) -> Option<(Date, Decimal)> {
    match (group_of(groups, 1), group_of(groups, 2), group_of(groups, 3), group_of(groups, 4)) {
        (Some(year), Some(month), Some(day), Some(value)) => match (
            i32_of(year),
            u32_of(month),
            u32_of(day),
            decimal_of(value),
        ) {
            (Some(y), Some(m), Some(d), Some(performance)) => if m < u32::MAX && is_calendar_date(
                y as int,
                m + 1,
                d as int,
            ) {
                Some((Date { year: y, month: (m + 1) as u32, day: d }, performance))
            } else {
                None
            },
            _ => None,
        },
        _ => None,
    }
}

/// The points of a graph's script: one for each match that stands for one.
pub open spec fn points_in(script: Seq<char>) -> Seq<(Date, Decimal)> {
    match all_matches(REGEX_GRAPH_POINTS@, script) {
        Some(found) => found.filter_map(|groups: Seq<Option<Seq<char>>>| point_of(groups)),
        None => Seq::empty(),
    }
}

/// The script of a graph as the patterns see it: trimmed, without tabs and
/// line breaks.
pub open spec fn flattened(script: Seq<char>) -> Seq<char> {
    replaced(replaced(trimmed(script), "\t"@, ""@), "\n"@, ""@)
}

/// The graph that one script draws, or `None` for a script that lacks a part
/// or whose specification the table does not hold.
pub open spec fn graph_in(table: Seq<(Seq<char>, EventAttribute)>, script: Seq<char>) -> Option<
    EventGraphView,
> {
    match (
        captured(REGEX_GRAPH_INFO@, script, 1),
        captured(REGEX_GRAPH_INFO@, script, 2),
        captured(REGEX_GRAPH_EVENT_ID@, script, 1),
        captured(REGEX_GRAPH_SPECIFICATION@, script, 1),
    ) {
        (Some(event), Some(count), Some(event_id), Some(token)) => match (
            u32_of(count),
            i32_of(event_id),
            graph_specification(table, event_id, token),
        ) {
            (Some(_), Some(id), Some(specification)) => Some(
                EventGraphView { specification, event, event_id: id, points: points_in(script) },
            ),
            _ => None,
        },
        _ => None,
    }
}

/// The graphs of the first `upto` scripts, in order.
pub open spec fn scripts_graphs(
    table: Seq<(Seq<char>, EventAttribute)>,
    scripts: Seq<ElementRef>,
    upto: int,
) -> Seq<EventGraphView>
    decreases upto,
{
    if upto <= 0 {
        Seq::empty()
    } else {
        match graph_in(table, flattened(inner_markup_of(scripts[upto - 1]))) {
            Some(graph) => scripts_graphs(table, scripts, upto - 1).push(graph),
            None => scripts_graphs(table, scripts, upto - 1),
        }
    }
}

/// The graphs that one graph tab holds.
pub open spec fn tab_graphs(table: Seq<(Seq<char>, EventAttribute)>, tab: ElementRef) -> Seq<
    EventGraphView,
> {
    match selected_in(tab, SELECT_SCRIPT@) {
        Some(scripts) => scripts_graphs(table, scripts, scripts.len() as int),
        None => Seq::empty(),
    }
}

/// The graphs of the first `upto` graph tabs, in order.
pub open spec fn tabs_graphs(
    table: Seq<(Seq<char>, EventAttribute)>,
    tabs: Seq<ElementRef>,
    upto: int,
) -> Seq<EventGraphView>
    decreases upto,
{
    if upto <= 0 {
        Seq::empty()
    } else {
        tabs_graphs(table, tabs, upto - 1) + tab_graphs(table, tabs[upto - 1])
    }
}

/// The graphs of a page. The specification table is read from all graph tabs
/// first, and each graph then finds its specification in it.
pub open spec fn graphs_of(page: &Html) -> Seq<EventGraphView> {
    match selected_in_page(page, SELECT_GRAPH@) {
        Some(tabs) => tabs_graphs(specifications_of(tabs), tabs, tabs.len() as int),
        None => Seq::empty(),
    }
}

/// What the extractor makes of a profile page. A page without title or root
/// element has not the expected structure.
pub open spec fn profile_page(page: &Html) -> Result<AthleteProfileView, ExtractError> {
    match (page_name(page), root_of(page)) {
        (Some(name), Some(root)) => Ok(
            AthleteProfileView {
                name,
                personal_bests: personal_bests_of(page),
                graphs: graphs_of(page),
                competitions: registrations_of(root),
            },
        ),
        _ => Err(ExtractError::StructureNotFound),
    }
}

fn read_label(attribute: Option<EventAttribute>, label: ElementRef) -> (r: Option<EventAttribute>)
    ensures
        r == with_label(attribute, label),
{
    match first_text(label) {
        Some(text) => {
            let t = trim(text.as_str());
            if t.is_empty() {
                return attribute;
            }
            let x = to_lowercase(t);
            if same_text(x.as_str(), "manual") {
                attribute
            } else if same_text(x.as_str(), "unknown height") {
                Some(EventAttribute::UnknownHeight)
            } else if contains(x.as_str(), "cm") || contains(x.as_str(), "gr") || contains(
                x.as_str(),
                "kg",
            ) {
                parse_attribute(x.as_str())
            } else {
                attribute
            }
        },
        None => attribute,
    }
}

fn read_cell_attribute(cell: ElementRef) -> (r: Option<EventAttribute>)
    ensures
        r == cell_attribute(cell),
{
    let labels = match select(cell, SELECT_SUBTEXT) {
        Some(v) => v,
        None => return None,
    };
    let mut attribute: Option<EventAttribute> = None;
    let mut i: usize = 0;
    while i < labels.len()
        invariant
            i <= labels.len(),
            attribute == labels_attribute(labels@, i as int),
        decreases labels.len() - i,
    {
        attribute = read_label(attribute, labels[i]);
        i += 1;
    }
    attribute
}

fn read_cell_wind(cell: ElementRef) -> (r: Option<Decimal>)
    ensures
        r == cell_wind(cell),
{
    match select_first(cell, SELECT_SUBTEXT) {
        Some(label) => match select_first(label, SELECT_SPAN) {
            Some(span) => match first_text(span) {
                Some(text) => wind_speed::parse(text.as_str()),
                None => None,
            },
            None => None,
        },
        None => None,
    }
}

/// Reads one row of the table of personal bests.
pub fn parse_personal_best(row: ElementRef) -> (r: Result<PersonalBestItem, ExtractError>)
    ensures
        match r {
            Ok(item) => personal_best_of(row) == Some(item.deep_view()),
            Err(e) => e == ExtractError::FieldParseError && personal_best_of(row) is None,
        },
{
    let cells = match select(row, SELECT_CELL) {
        Some(v) => v,
        None => return Err(ExtractError::FieldParseError),
    };
    if cells.len() < 3 {
        return Err(ExtractError::FieldParseError);
    }
    let event = first_text(cells[0]);
    let shown = first_text(cells[1]);
    let key = selected_attribute(cells[2], SELECT_SORT_DATA, "data");
    let (event, shown, key) = match (event, shown, key) {
        (Some(e), Some(s), Some(k)) => (e, s, k),
        _ => return Err(ExtractError::FieldParseError),
    };
    let display = trim(shown.as_str());
    let performance = parse_performance(display);
    let place = parse_place(key.as_str());
    let (performance, place) = match (performance, place) {
        (Some(p), Some(q)) => (p, q),
        _ => return Err(ExtractError::FieldParseError),
    };
    let not_important = match attribute(row, "class") {
        Some(class) => contains(class.as_str(), NOT_IMPORTANT),
        None => false,
    };
    Ok(
        PersonalBestItem {
            event: copy_of(trim(event.as_str())),
            performance: performance.0,
            wind_speed: read_cell_wind(cells[1]),
            display_performance: copy_of(display),
            hand_measured: performance.1,
            location: place.1,
            country: place.2,
            date: place.0,
            not_important,
            attribute: read_cell_attribute(cells[0]),
        },
    )
}

fn read_personal_bests(page: &Html) -> (r: Vec<PersonalBestItem>)
    ensures
        r.deep_view() == personal_bests_of(page),
{
    let mut out: Vec<PersonalBestItem> = Vec::new();
    let rows = match select_in_page(page, SELECT_PERSONAL_BEST) {
        Some(v) => v,
        None => {
            assert(out.deep_view() == personal_bests_of(page));
            return out;
        },
    };
    let mut i: usize = 0;
    assert(rows@.take(0).filter_map(|row: ElementRef| personal_best_of(row)) == Seq::<
        PersonalBestView,
    >::empty());
    assert(out.deep_view() == Seq::<PersonalBestView>::empty());
    while i < rows.len()
        invariant
            i <= rows.len(),
            out.deep_view() == rows@.take(i as int).filter_map(
                |row: ElementRef| personal_best_of(row),
            ),
        decreases rows.len() - i,
    {
        let ghost before = out.deep_view();
        assert(rows@.take(i + 1).drop_last() == rows@.take(i as int));
        assert(rows@.take(i + 1).last() == rows@[i as int]);
        match parse_personal_best(rows[i]) {
            Ok(item) => {
                let ghost view = item.deep_view();
                out.push(item);
                assert(out.deep_view() == before.push(view));
            },
            Err(_) => {},
        }
        i += 1;
    }
    assert(rows@.take(rows.len() as int) == rows@);
    out
}

fn read_specification(link: ElementRef) -> (r: Option<(String, EventAttribute)>)
    ensures
        r.deep_view() == specification_of(link),
{
    match (attribute(link, "data-target"), first_text(link)) {
        (Some(target), Some(label)) => match capture(REGEX_DIV_SPECIFICATION, target.as_str(), 2) {
            Some(token) => if same_text(label.as_str(), EVERYTHING) {
                Some((token, EventAttribute::All))
            } else {
                match parse_attribute(label.as_str()) {
                    Some(found) => Some((token, found)),
                    None => None,
                }
            },
            None => None,
        },
        _ => None,
    }
}

fn read_tab_specifications(table: &mut Vec<(String, EventAttribute)>, tab: ElementRef)
    ensures
        final(table).deep_view() == old(table).deep_view() + tab_specifications(tab),
{
    let ghost start = table.deep_view();
    assert(start + Seq::<(Seq<char>, EventAttribute)>::empty() == start);
    let links = match select(tab, SELECT_SPECIFICATION) {
        Some(v) => v,
        None => return ,
    };
    let mut i: usize = 0;
    assert(links@.take(0).filter_map(|link: ElementRef| specification_of(link)) == Seq::<
        (Seq<char>, EventAttribute),
    >::empty());
    while i < links.len()
        invariant
            i <= links.len(),
            table.deep_view() == start + links@.take(i as int).filter_map(
                |link: ElementRef| specification_of(link),
            ),
        decreases links.len() - i,
    {
        let ghost before = table.deep_view();
        let ghost sofar = links@.take(i as int).filter_map(
            |link: ElementRef| specification_of(link),
        );
        assert(links@.take(i + 1).drop_last() == links@.take(i as int));
        assert(links@.take(i + 1).last() == links@[i as int]);
        match read_specification(links[i]) {
            Some(entry) => {
                let ghost view = entry.deep_view();
                table.push(entry);
                assert(table.deep_view() =~= before.push(view));
                assert(table.deep_view() =~= start + sofar.push(view));
            },
            None => {},
        }
        i += 1;
    }
    assert(links@.take(links.len() as int) == links@);
}

/// Finds the attribute that the table holds for `token`.
pub fn find_specification(table: &Vec<(String, EventAttribute)>, token: &str) -> (r: Option<
    EventAttribute,
>)
    ensures
        r == lookup_specification(table.deep_view(), token@),
{
    let ghost all = table.deep_view();
    let mut i: usize = table.len();
    assert(all.take(i as int) == all);
    while i > 0
        invariant
            i <= table.len(),
            all == table.deep_view(),
            lookup_specification(all.take(i as int), token@) == lookup_specification(all, token@),
        decreases i,
    {
        assert(all.take(i as int).drop_last() == all.take(i - 1));
        assert(all.take(i as int).last() == all[i - 1]);
        assert(all[i - 1] == table[i - 1].deep_view());
        if same_text(table[i - 1].0.as_str(), token) {
            return Some(table[i - 1].1);
        }
        i -= 1;
    }
    None
}

/// Reads the point that the groups of one match stand for.
pub fn parse_point(groups: &Vec<Option<String>>) -> (r: Option<(Date, Decimal)>)
    ensures
        r == point_of(groups.deep_view()),
{
    match (group(groups, 1), group(groups, 2), group(groups, 3), group(groups, 4)) {
        (Some(year), Some(month), Some(day), Some(value)) => match (
            parse_i32(year.as_str()),
            parse_u32(month.as_str()),
            parse_u32(day.as_str()),
            Decimal::parse(value.as_str()),
        ) {
            (Some(y), Some(m), Some(d), Some(performance)) => if m < 0xffff_ffff {
                match Date::checked(y, m + 1, d) {
                    Some(date) => Some((date, performance)),
                    None => None,
                }
            } else {
                None
            },
            _ => None,
        },
        _ => None,
    }
}

fn read_points(script: &str) -> (r: Vec<(Date, Decimal)>)
    ensures
        r@ == points_in(script@),
{
    let mut out: Vec<(Date, Decimal)> = Vec::new();
    let found = match all_captures(REGEX_GRAPH_POINTS, script) {
        Some(v) => v,
        None => return out,
    };
    let ghost all = found.deep_view();
    let mut i: usize = 0;
    assert(all.take(0).filter_map(|groups: Seq<Option<Seq<char>>>| point_of(groups)) == Seq::<
        (Date, Decimal),
    >::empty());
    while i < found.len()
        invariant
            i <= found.len(),
            all == found.deep_view(),
            out@ == all.take(i as int).filter_map(
                |groups: Seq<Option<Seq<char>>>| point_of(groups),
            ),
        decreases found.len() - i,
    {
        assert(all.take(i + 1).drop_last() == all.take(i as int));
        assert(all.take(i + 1).last() == found[i as int].deep_view());
        match parse_point(&found[i]) {
            Some(point) => {
                out.push(point);
            },
            None => {},
        }
        i += 1;
    }
    assert(all.take(found.len() as int) == all);
    out
}

/// Reads the graph that one script draws.
pub fn parse_graph(table: &Vec<(String, EventAttribute)>, script: &str) -> (r: Result<
    EventGraph,
    ExtractError,
>)
    ensures
        match r {
            Ok(graph) => graph_in(table.deep_view(), script@) == Some(graph.deep_view()),
            Err(e) => e == ExtractError::FieldParseError && graph_in(table.deep_view(), script@)
                is None,
        },
{
    let event = capture(REGEX_GRAPH_INFO, script, 1);
    let count = capture(REGEX_GRAPH_INFO, script, 2);
    let event_id = capture(REGEX_GRAPH_EVENT_ID, script, 1);
    let token = capture(REGEX_GRAPH_SPECIFICATION, script, 1);
    let (event, count, event_id, token) = match (event, count, event_id, token) {
        (Some(a), Some(b), Some(c), Some(d)) => (a, b, c, d),
        _ => return Err(ExtractError::FieldParseError),
    };
    let specification = if same_text(token.as_str(), event_id.as_str()) {
        Some(EventAttribute::All)
    } else {
        find_specification(table, token.as_str())
    };
    match (parse_u32(count.as_str()), parse_i32(event_id.as_str()), specification) {
        (Some(_), Some(id), Some(specification)) => Ok(
            EventGraph { specification, event, event_id: id, points: read_points(script) },
        ),
        _ => Err(ExtractError::FieldParseError),
    }
}

fn read_tab_graphs(out: &mut Vec<EventGraph>, table: &Vec<(String, EventAttribute)>, tab: ElementRef)
    ensures
        final(out).deep_view() == old(out).deep_view() + tab_graphs(table.deep_view(), tab),
{
    let ghost start = out.deep_view();
    assert(start + Seq::<EventGraphView>::empty() == start);
    let scripts = match select(tab, SELECT_SCRIPT) {
        Some(v) => v,
        None => return ,
    };
    let mut i: usize = 0;
    while i < scripts.len()
        invariant
            i <= scripts.len(),
            out.deep_view() == start + scripts_graphs(table.deep_view(), scripts@, i as int),
        decreases scripts.len() - i,
    {
        let ghost before = out.deep_view();
        let ghost sofar = scripts_graphs(table.deep_view(), scripts@, i as int);
        let raw = inner_markup(scripts[i]);
        let without_tabs = replace(trim(raw.as_str()), "\t", "");
        let flat = replace(without_tabs.as_str(), "\n", "");
        match parse_graph(table, flat.as_str()) {
            Ok(graph) => {
                let ghost view = graph.deep_view();
                out.push(graph);
                assert(out.deep_view() =~= before.push(view));
                assert(out.deep_view() =~= start + sofar.push(view));
            },
            Err(_) => {},
        }
        i += 1;
    }
}

fn read_graphs(page: &Html) -> (r: Vec<EventGraph>)
    ensures
        r.deep_view() == graphs_of(page),
{
    let mut out: Vec<EventGraph> = Vec::new();
    let tabs = match select_in_page(page, SELECT_GRAPH) {
        Some(v) => v,
        None => {
            assert(out.deep_view() == graphs_of(page));
            return out;
        },
    };
    let mut table: Vec<(String, EventAttribute)> = Vec::new();
    let mut i: usize = 0;
    assert(tabs@.take(0) == Seq::<ElementRef>::empty());
    assert(table.deep_view() == Seq::<(Seq<char>, EventAttribute)>::empty());
    while i < tabs.len()
        invariant
            i <= tabs.len(),
            table.deep_view() == specifications_of(tabs@.take(i as int)),
        decreases tabs.len() - i,
    {
        assert(tabs@.take(i + 1).drop_last() == tabs@.take(i as int));
        assert(tabs@.take(i + 1).last() == tabs@[i as int]);
        read_tab_specifications(&mut table, tabs[i]);
        i += 1;
    }
    assert(tabs@.take(tabs.len() as int) == tabs@);
    let mut k: usize = 0;
    assert(out.deep_view() == Seq::<EventGraphView>::empty());
    while k < tabs.len()
        invariant
            k <= tabs.len(),
            table.deep_view() == specifications_of(tabs@),
            out.deep_view() == tabs_graphs(table.deep_view(), tabs@, k as int),
        decreases tabs.len() - k,
    {
        read_tab_graphs(&mut out, &table, tabs[k]);
        k += 1;
    }
    out
}

/// Reads an athlete's profile from the profile page.
pub fn parse(html: Html) -> (r: Result<AthleteProfile, ExtractError>)
    ensures
        match r {
            Ok(found) => profile_page(&html) == Ok::<AthleteProfileView, ExtractError>(
                found.deep_view(),
            ),
            Err(e) => profile_page(&html) == Err::<AthleteProfileView, ExtractError>(e),
        },
{
    let name = read_name(&html);
    let root = root_element(&html);
    let (name, root) = match (name, root) {
        (Some(n), Some(r)) => (n, r),
        _ => return Err(ExtractError::StructureNotFound),
    };
    let competitions = match competition_registrations_list::parse(root) {
        Ok(v) => v,
        Err(_) => return Err(ExtractError::StructureNotFound),
    };
    let personal_bests = read_personal_bests(&html);
    let graphs = read_graphs(&html);
    Ok(AthleteProfile { name, personal_bests, graphs, competitions })
}

} // verus!
