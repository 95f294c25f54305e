//! The participants of a competition, from the participants table of the
//! desktop site. The table's columns differ between competitions, so each cell
//! is read by the name of its column, never by its place.

use crate::dom::{
    attribute, attribute_of, first_selected, first_selected_in_page, first_text, first_text_of,
    select, select_first, select_first_in_page, selected_in, selected_text,
    selected_text_of, texts, texts_of,
};
use crate::models::ExtractError;
use crate::number::{parse_u32, u32_of};
use crate::pattern::{capture, captured, first_captures, first_match, group, group_of};
use crate::text::{
    contains, copy_of, has_occurrence, lowercased, nonblank, nonblank_of, replace, replaced,
    same_text, to_lowercase, trim, trimmed,
};
use scraper::{ElementRef, Html};
use vstd::prelude::*;

verus! {

/// Group 1: the participant's number.
pub const REGEX_PARTICIPANT_ID: &'static str = r#"deelnemer_id=([0-9]{0,})"#;

/// Group 1: the category. Group 2: the club.
pub const REGEX_CATEGORY_AND_CLUB: &'static str = r#"([\s\S]{1,}) - ([\s\S]{1,})"#;

/// Group 1: the relay team's participant number.
pub const REGEX_RELAY_PARTICIPANT_ID: &'static str =
    r#"https://www.atletiek.nu/estafetteteam/main/(\d{1,})/"#;

pub const SELECT_TABLE: &'static str = "table.deelnemerstabel";

pub const SELECT_HEADER: &'static str = "thead > tr > th";

pub const SELECT_ROW: &'static str = "tbody > tr";

pub const SELECT_CELL: &'static str = "td";

pub const SELECT_SPAN: &'static str = "span";

pub const SELECT_LINK: &'static str = "a";

pub const SELECT_DETAIL: &'static str = "span.deelnemer-smalldetail";

pub const SELECT_TIPPED: &'static str = "span.tipped";

/// The mark of a participant who takes part out of competition.
pub const OUT_OF_COMPETITION: &'static str = "(OoC)";

/// The mark of a text that was cut short.
pub const ELLIPSIS: &'static str = "...";

pub type RegistrationsWebList = Vec<RegistrationsWebListElement>;

/// One participant of a competition.
#[derive(Debug, Clone)]
pub struct RegistrationsWebListElement {
    pub participant_id: u32,
    pub name: String,
    pub category: String,
    pub short_club_name: String,
    pub club_name: String,
    pub team_name: Option<String>,
    pub relay_teams: Vec<RelayTeam>,
    pub events: Vec<(String, EventStatus)>,
    pub out_of_competition: bool,
    pub bib_number: Option<u32>,
}

/// A relay team that a participant belongs to.
#[derive(Debug, Clone)]
pub struct RelayTeam {
    pub participant_id: u32,
    pub name: String,
}

/// The state of a registration for one event.
#[derive(Debug, Clone, Copy, PartialEq, Eq, Structural, Hash)]
pub enum EventStatus {
    Accepted,
    Cancelled,
    Rejected,
    Reserve,
    Unverified,
    CheckedIn,
    /// The page shows no state, or one that is not known.
    Unknown,
}

/// A `RelayTeam` as contracts see it.
pub struct RelayTeamView {
    pub participant_id: u32,
    pub name: Seq<char>,
}

/// A `RegistrationsWebListElement` as contracts see it.
pub struct RegistrationView {
    pub participant_id: u32,
    pub name: Seq<char>,
    pub category: Seq<char>,
    pub short_club_name: Seq<char>,
    pub club_name: Seq<char>,
    pub team_name: Option<Seq<char>>,
    pub relay_teams: Seq<RelayTeamView>,
    pub events: Seq<(Seq<char>, EventStatus)>,
    pub out_of_competition: bool,
    pub bib_number: Option<u32>,
}

impl DeepView for EventStatus {
    type V = EventStatus;

    open spec fn deep_view(&self) -> EventStatus {
        *self
    }
}

impl DeepView for RelayTeam {
    type V = RelayTeamView;

    open spec fn deep_view(&self) -> RelayTeamView {
        RelayTeamView { participant_id: self.participant_id, name: self.name@ }
    }
}

impl DeepView for RegistrationsWebListElement {
    type V = RegistrationView;

    open spec fn deep_view(&self) -> RegistrationView {
        RegistrationView {
            participant_id: self.participant_id,
            name: self.name@,
            category: self.category@,
            short_club_name: self.short_club_name@,
            club_name: self.club_name@,
            team_name: self.team_name.deep_view(),
            relay_teams: self.relay_teams.deep_view(),
            events: self.events.deep_view(),
            out_of_competition: self.out_of_competition,
            bib_number: self.bib_number,
        }
    }
}

/// The state that a keyword stands for. The keyword is taken as it is: case
/// and surrounding space have been dealt with before.
pub open spec fn status_of_keyword(keyword: Seq<char>) -> EventStatus {
    if keyword == "unverified"@ {
        EventStatus::Unverified
    } else if keyword == "cancelled"@ {
        EventStatus::Cancelled
    } else if keyword == "accepted"@ {
        EventStatus::Accepted
    } else if keyword == "rejected"@ {
        EventStatus::Rejected
    } else if keyword == "reserve"@ {
        EventStatus::Reserve
    } else if keyword == "checked-in"@ {
        EventStatus::CheckedIn
    } else {
        EventStatus::Unknown
    }
}

/// The state that a label stands for: that of its keyword, whatever the
/// label's case and the space around it.
pub open spec fn status_of(label: Seq<char>) -> EventStatus {
    status_of_keyword(lowercased(trimmed(label)))
}

/// Whether a keyword is one of the six that name a state.
pub open spec fn is_status_keyword(keyword: Seq<char>) -> bool {
    keyword == "unverified"@ || keyword == "cancelled"@ || keyword == "accepted"@ || keyword
        == "rejected"@ || keyword == "reserve"@ || keyword == "checked-in"@
}

impl EventStatus {
    /// The state that a lower-case keyword stands for, and whether the keyword
    /// is a known one. An unknown keyword stands for `Unknown`; that it was
    /// not known tells the caller that the page's wording has changed.
    pub fn from_keyword(keyword: &str) -> (r: (EventStatus, bool))
        ensures
            r.0 == status_of_keyword(keyword@),
            r.1 == is_status_keyword(keyword@),
    {
        if same_text(keyword, "unverified") {
            (EventStatus::Unverified, true)
        } else if same_text(keyword, "cancelled") {
            (EventStatus::Cancelled, true)
        } else if same_text(keyword, "accepted") {
            (EventStatus::Accepted, true)
        } else if same_text(keyword, "rejected") {
            (EventStatus::Rejected, true)
        } else if same_text(keyword, "reserve") {
            (EventStatus::Reserve, true)
        } else if same_text(keyword, "checked-in") {
            (EventStatus::CheckedIn, true)
        } else {
            (EventStatus::Unknown, false)
        }
    }

    /// The state that a label of the page stands for.
    pub fn from_label(label: &str) -> (r: EventStatus)
        ensures
            r == status_of(label@),
    {
        let keyword = to_lowercase(trim(label));
        EventStatus::from_keyword(keyword.as_str()).0
    }
}

/// What the "name" cell of a row holds.
pub struct NameCell {
    pub name: String,
    pub category: String,
    pub short_club_name: String,
    pub out_of_competition: bool,
}

/// A `NameCell` as contracts see it.
pub struct NameCellView {
    pub name: Seq<char>,
    pub category: Seq<char>,
    pub short_club_name: Seq<char>,
    pub out_of_competition: bool,
}

impl DeepView for NameCell {
    type V = NameCellView;

    open spec fn deep_view(&self) -> NameCellView {
        NameCellView {
            name: self.name@,
            category: self.category@,
            short_club_name: self.short_club_name@,
            out_of_competition: self.out_of_competition,
        }
    }
}

/// A record for participant `id` of which nothing else is known yet.
pub open spec fn blank_registration(id: u32) -> RegistrationView {
    RegistrationView {
        participant_id: id,
        name: Seq::empty(),
        category: Seq::empty(),
        short_club_name: Seq::empty(),
        club_name: Seq::empty(),
        team_name: None,
        relay_teams: Seq::empty(),
        events: Seq::empty(),
        out_of_competition: false,
        bib_number: None,
    }
}

/// The bib number in a "bib" cell: the number in the first text of its first
/// span.
pub open spec fn bib_of(cell: ElementRef) -> Option<u32> {
    match selected_text_of(cell, SELECT_SPAN@) {
        Some(text) => u32_of(text),
        None => None,
    }
}

/// Category and club from the small print under a name, "category - club".
pub open spec fn category_and_club(detail: Seq<char>) -> Option<(Seq<char>, Seq<char>)> {
    match first_match(REGEX_CATEGORY_AND_CLUB@, detail) {
        Some(groups) => match (group_of(groups, 1), group_of(groups, 2)) {
            (Some(category), Some(club)) => Some((category, replaced(club, " -"@, ""@))),
            _ => None,
        },
        None => None,
    }
}

/// Whether the link of a name cell carries the out-of-competition mark.
pub open spec fn marked_out_of_competition(link: ElementRef) -> bool {
    selected_text_of(link, SELECT_TIPPED@) == Some(OUT_OF_COMPETITION@)
}

/// What a "name" cell holds: the name is the first text of its link, trimmed,
/// with single spaces for double ones; category and club stand in the small
/// print. `None` where one of these is missing.
pub open spec fn name_cell_of(cell: ElementRef) -> Option<NameCellView> {
    match first_selected(cell, SELECT_LINK@) {
        Some(link) => match (first_text_of(link), selected_text_of(link, SELECT_DETAIL@)) {
            (Some(text), Some(detail)) => match category_and_club(trimmed(detail)) {
                Some((category, club)) => Some(
                    NameCellView {
                        name: replaced(trimmed(text), "  "@, " "@),
                        category,
                        short_club_name: club,
                        out_of_competition: marked_out_of_competition(link),
                    },
                ),
                None => None,
            },
            _ => None,
        },
        None => None,
    }
}

/// The first of `texts` that, trimmed, is not empty and was not cut short.
pub open spec fn first_full_text(texts: Seq<Seq<char>>) -> Option<Seq<char>>
    decreases texts.len(),
{
    if texts.len() == 0 {
        None
    } else if trimmed(texts[0]).len() > 0 && !has_occurrence(trimmed(texts[0]), ELLIPSIS@) {
        Some(trimmed(texts[0]))
    } else {
        first_full_text(texts.skip(1))
    }
}

/// The club or team in a "club" or "team" cell.
pub open spec fn affiliation_of(cell: ElementRef) -> Option<Seq<char>> {
    match first_selected(cell, SELECT_LINK@) {
        Some(link) => first_full_text(texts_of(link)),
        None => None,
    }
}

/// The event of one annotated label: its text, trimmed, with the state that
/// its title names.
pub open spec fn labelled_event(label: ElementRef) -> Option<(Seq<char>, EventStatus)> {
    match (attribute_of(label, "title"@), first_text_of(label)) {
        (Some(title), Some(text)) => Some((trimmed(text), status_of(title))),
        _ => None,
    }
}

/// The events of the annotated labels of an "events" cell.
pub open spec fn labelled_events(cell: ElementRef) -> Seq<(Seq<char>, EventStatus)> {
    match selected_in(cell, SELECT_TIPPED@) {
        Some(labels) => labels.filter_map(|label: ElementRef| labelled_event(label)),
        None => Seq::empty(),
    }
}

/// Each of `names` as an event of unknown state.
pub open spec fn unlabelled_events(names: Seq<Seq<char>>) -> Seq<(Seq<char>, EventStatus)> {
    names.map_values(|name: Seq<char>| (name, EventStatus::Unknown))
}

/// The events of an "events" cell: those of its annotated labels; where it
/// has none, each line of its plain text as an event of unknown state.
pub open spec fn events_of(cell: ElementRef) -> Seq<(Seq<char>, EventStatus)> {
    if labelled_events(cell).len() > 0 {
        labelled_events(cell)
    } else {
        unlabelled_events(nonblank_of(texts_of(cell)))
    }
}

/// The relay team behind one link of a "relay team" cell.
pub open spec fn relay_team_of(link: ElementRef) -> Option<RelayTeamView> {
    match (attribute_of(link, "href"@), first_text_of(link)) {
        (Some(href), Some(text)) => match captured(REGEX_RELAY_PARTICIPANT_ID@, href, 1) {
            Some(digits) => match u32_of(digits) {
                Some(participant_id) => Some(RelayTeamView { participant_id, name: trimmed(text) }),
                None => None,
            },
            None => None,
        },
        _ => None,
    }
}

/// The relay teams of a "relay team" cell.
pub open spec fn relay_teams_of(cell: ElementRef) -> Seq<RelayTeamView> {
    match selected_in(cell, SELECT_LINK@) {
        Some(links) => links.filter_map(|link: ElementRef| relay_team_of(link)),
        None => Seq::empty(),
    }
}

/// A column of the participants table, by what it holds.
#[derive(Debug, Clone, Copy, PartialEq, Eq, Structural)]
pub enum Column {
    Bib,
    Name,
    Club,
    Team,
    Events,
    RelayTeam,
    /// A column that is not read.
    Other,
}

/// The column that a header in lower case names.
pub open spec fn column_of(header: Seq<char>) -> Column {
    if header == "bib"@ {
        Column::Bib
    } else if header == "name"@ {
        Column::Name
    } else if header == "club"@ {
        Column::Club
    } else if header == "team"@ {
        Column::Team
    } else if header == "events"@ {
        Column::Events
    } else if header == "relay team"@ {
        Column::RelayTeam
    } else {
        Column::Other
    }
}

/// `item` after the cell under the column `header` has been read. A cell that
/// cannot be read, and a cell of a column that is not read, leave `item` as
/// it was.
pub open spec fn with_cell(item: RegistrationView, header: Seq<char>, cell: ElementRef) -> RegistrationView {
    match column_of(header) {
        Column::Bib => match bib_of(cell) {
            Some(bib) => RegistrationView { bib_number: Some(bib), ..item },
            None => item,
        },
        Column::Name => match name_cell_of(cell) {
            Some(found) => RegistrationView {
                name: found.name,
                category: found.category,
                short_club_name: found.short_club_name,
                out_of_competition: item.out_of_competition || found.out_of_competition,
                ..item
            },
            None => item,
        },
        Column::Club => match affiliation_of(cell) {
            Some(club) => RegistrationView { club_name: club, ..item },
            None => item,
        },
        Column::Team => match affiliation_of(cell) {
            Some(team) => RegistrationView { team_name: Some(team), ..item },
            None => item,
        },
        Column::Events => RegistrationView { events: events_of(cell), ..item },
        Column::RelayTeam => RegistrationView {
            relay_teams: item.relay_teams + relay_teams_of(cell),
            ..item
        },
        Column::Other => item,
    }
}

/// `item` after the first `upto` cells of a row have been read, each under
/// the header of its column. A cell beyond the last header is not read.
pub open spec fn with_cells(
    item: RegistrationView,
    headers: Seq<Seq<char>>,
    cells: Seq<ElementRef>,
    upto: int,
) -> RegistrationView
    decreases upto,
{
    if upto <= 0 {
        item
    } else if upto - 1 < headers.len() {
        with_cell(with_cells(item, headers, cells, upto - 1), headers[upto - 1], cells[upto - 1])
    } else {
        with_cells(item, headers, cells, upto - 1)
    }
}

/// The participant number of a row, from its `id` attribute.
pub open spec fn row_participant(row: ElementRef) -> Option<u32> {
    match attribute_of(row, "id"@) {
        Some(id) => match captured(REGEX_PARTICIPANT_ID@, id, 1) {
            Some(digits) => u32_of(digits),
            None => None,
        },
        None => None,
    }
}

/// The record of one row under the given column headers, or `None` for a row
/// without a participant number.
pub open spec fn registration_of(headers: Seq<Seq<char>>, row: ElementRef) -> Option<RegistrationView> {
    match row_participant(row) {
        Some(id) => match selected_in(row, SELECT_CELL@) {
            Some(cells) => Some(
                with_cells(blank_registration(id), headers, cells, cells.len() as int),
            ),
            None => Some(blank_registration(id)),
        },
        None => None,
    }
}

/// The name of a column: the first text of its header cell in lower case, or
/// the empty name for a header cell without text.
pub open spec fn header_of(cell: ElementRef) -> Seq<char> {
    match first_text_of(cell) {
        Some(text) => lowercased(text),
        None => Seq::empty(),
    }
}

/// The names of the table's columns, in order.
pub open spec fn headers_of(table: ElementRef) -> Seq<Seq<char>> {
    match selected_in(table, SELECT_HEADER@) {
        Some(cells) => cells.map_values(|cell: ElementRef| header_of(cell)),
        None => Seq::empty(),
    }
}

/// The records of the rows `rows`, in order, without the rows that have no
/// participant number.
pub open spec fn registrations_of(headers: Seq<Seq<char>>, rows: Seq<ElementRef>) -> Seq<
    RegistrationView,
>
    decreases rows.len(),
{
    if rows.len() == 0 {
        Seq::empty()
    } else {
        match registration_of(headers, rows.last()) {
            Some(record) => registrations_of(headers, rows.drop_last()).push(record),
            None => registrations_of(headers, rows.drop_last()),
        }
    }
}

/// What the extractor makes of a participants page: one record for each row
/// of the participants table that has a participant number, in the table's
/// order. A page without that table has not the expected structure.
pub open spec fn registrations_page(page: &Html) -> Result<Seq<RegistrationView>, ExtractError> {
    match first_selected_in_page(page, SELECT_TABLE@) {
        Some(table) => match selected_in(table, SELECT_ROW@) {
            Some(rows) => Ok(registrations_of(headers_of(table), rows)),
            None => Err(ExtractError::StructureNotFound),
        },
        None => Err(ExtractError::StructureNotFound),
    }
}

/// The participant numbers of the rows `rows` that have one, in order.
pub open spec fn row_participants(rows: Seq<ElementRef>) -> Seq<u32>
    decreases rows.len(),
{
    if rows.len() == 0 {
        Seq::empty()
    } else {
        match row_participant(rows.last()) {
            Some(id) => row_participants(rows.drop_last()).push(id),
            None => row_participants(rows.drop_last()),
        }
    }
}

/// The participant numbers of `records`, in order.
pub open spec fn participants_of(records: Seq<RegistrationView>) -> Seq<u32> {
    records.map_values(|record: RegistrationView| record.participant_id)
}

/// Reading cells changes no participant number.
pub proof fn lemma_cells_keep_the_participant(
    item: RegistrationView,
    headers: Seq<Seq<char>>,
    cells: Seq<ElementRef>,
    upto: int,
)
    ensures
        with_cells(item, headers, cells, upto).participant_id == item.participant_id,
    decreases upto,
{
    if upto > 0 {
        lemma_cells_keep_the_participant(item, headers, cells, upto - 1);
    }
}

/// Each row with a participant number gives one record, under that number,
/// whatever its cells hold: the records carry the numbers of the rows, in the
/// rows' order. So there are as many records as rows with a number, and rows
/// with distinct numbers give records with distinct numbers.
pub proof fn lemma_one_record_for_each_numbered_row(headers: Seq<Seq<char>>, rows: Seq<ElementRef>)
    ensures
        participants_of(registrations_of(headers, rows)) == row_participants(rows),
        registrations_of(headers, rows).len() == row_participants(rows).len(),
        row_participants(rows).no_duplicates() ==> participants_of(
            registrations_of(headers, rows),
        ).no_duplicates(),
    decreases rows.len(),
{
    if rows.len() > 0 {
        let rest = rows.drop_last();
        let row = rows.last();
        lemma_one_record_for_each_numbered_row(headers, rest);
        match row_participant(row) {
            Some(id) => {
                match selected_in(row, SELECT_CELL@) {
                    Some(cells) => {
                        lemma_cells_keep_the_participant(
                            blank_registration(id),
                            headers,
                            cells,
                            cells.len() as int,
                        );
                    },
                    None => {},
                }
                let record = registration_of(headers, row).unwrap();
                assert(record.participant_id == id);
                assert(participants_of(registrations_of(headers, rest).push(record))
                    =~= participants_of(registrations_of(headers, rest)).push(id));
            },
            None => {},
        }
    }
    assert(participants_of(registrations_of(headers, rows)).len() == registrations_of(
        headers,
        rows,
    ).len());
}

/// What an annotated label holds that was not expected: its title, where the
/// label gives an event and the title names none of the known states.
pub open spec fn label_anomaly(label: ElementRef) -> Option<Seq<char>> {
    match (attribute_of(label, "title"@), first_text_of(label)) {
        (Some(title), Some(_)) => if is_status_keyword(lowercased(trimmed(title))) {
            None
        } else {
            Some(title)
        },
        _ => None,
    }
}

/// The unexpected titles among the annotated labels of a cell, in order.
pub open spec fn cell_anomalies(cell: ElementRef) -> Seq<Seq<char>> {
    match selected_in(cell, SELECT_TIPPED@) {
        Some(labels) => labels.filter_map(|label: ElementRef| label_anomaly(label)),
        None => Seq::empty(),
    }
}

/// The unexpected titles in the first `upto` cells of a row: those of its
/// cells under an "events" header.
pub open spec fn cells_anomalies(headers: Seq<Seq<char>>, cells: Seq<ElementRef>, upto: int) -> Seq<
    Seq<char>,
>
    decreases upto,
{
    if upto <= 0 {
        Seq::empty()
    } else if upto - 1 < headers.len() && column_of(headers[upto - 1]) == Column::Events {
        cells_anomalies(headers, cells, upto - 1) + cell_anomalies(cells[upto - 1])
    } else {
        cells_anomalies(headers, cells, upto - 1)
    }
}

/// The unexpected titles of a row. A row without a participant number is not
/// read and gives none.
pub open spec fn row_anomalies(headers: Seq<Seq<char>>, row: ElementRef) -> Seq<Seq<char>> {
    match (row_participant(row), selected_in(row, SELECT_CELL@)) {
        (Some(_), Some(cells)) => cells_anomalies(headers, cells, cells.len() as int),
        _ => Seq::empty(),
    }
}

/// The unexpected titles of the rows `rows`, in order.
pub open spec fn rows_anomalies(headers: Seq<Seq<char>>, rows: Seq<ElementRef>) -> Seq<Seq<char>>
    decreases rows.len(),
{
    if rows.len() == 0 {
        Seq::empty()
    } else {
        rows_anomalies(headers, rows.drop_last()) + row_anomalies(headers, rows.last())
    }
}

/// The titles of a participants page that name a state which is not known,
/// in the order of the page. Each stands behind one event that the extractor
/// gives the state `Unknown`; a page on which the wording has not changed has
/// none.
pub open spec fn unexpected_labels_of(page: &Html) -> Seq<Seq<char>> {
    match first_selected_in_page(page, SELECT_TABLE@) {
        Some(table) => match selected_in(table, SELECT_ROW@) {
            Some(rows) => rows_anomalies(headers_of(table), rows),
            None => Seq::empty(),
        },
        None => Seq::empty(),
    }
}

/// An annotated label is unexpected exactly when the event that it gives has
/// the state `Unknown`.
pub proof fn lemma_unknown_labels_are_the_unexpected(label: ElementRef)
    ensures
        label_anomaly(label) is Some ==> labelled_event(label) is Some,
        labelled_event(label) matches Some(event) ==> (event.1 == EventStatus::Unknown
            <==> label_anomaly(label) is Some),
{
}

fn read_bib(cell: ElementRef) -> (r: Option<u32>)
    ensures
        r == bib_of(cell),
{
    match selected_text(cell, SELECT_SPAN) {
        Some(text) => parse_u32(text.as_str()),
        None => None,
    }
}

/// Splits the small print under a name into category and club.
pub fn split_category_and_club(detail: &str) -> (r: Option<(String, String)>)
    ensures
        r.deep_view() == category_and_club(detail@),
{
    match first_captures(REGEX_CATEGORY_AND_CLUB, detail) {
        Some(groups) => match (group(&groups, 1), group(&groups, 2)) {
            (Some(category), Some(club)) => Some(
                (copy_of(category.as_str()), replace(club.as_str(), " -", "")),
            ),
            _ => None,
        },
        None => None,
    }
}

fn read_name_cell(cell: ElementRef) -> (r: Option<NameCell>)
    ensures
        r.deep_view() == name_cell_of(cell),
{
    let link = match select_first(cell, SELECT_LINK) {
        Some(v) => v,
        None => return None,
    };
    let text = first_text(link);
    let detail = selected_text(link, SELECT_DETAIL);
    match (text, detail) {
        (Some(text), Some(detail)) => match split_category_and_club(trim(detail.as_str())) {
            Some((category, club)) => {
                let mark = selected_text(link, SELECT_TIPPED);
                let out_of_competition = match mark {
                    Some(m) => same_text(m.as_str(), OUT_OF_COMPETITION),
                    None => false,
                };
                Some(
                    NameCell {
                        name: replace(trim(text.as_str()), "  ", " "),
                        category,
                        short_club_name: club,
                        out_of_competition,
                    },
                )
            },
            None => None,
        },
        _ => None,
    }
}

/// The first of `texts` that, trimmed, is not empty and was not cut short.
pub fn pick_full_text(texts: &Vec<String>) -> (r: Option<String>)
    ensures
        r.deep_view() == first_full_text(texts.deep_view()),
{
    let mut i: usize = 0;
    assert(texts.deep_view().skip(0) == texts.deep_view());
    while i < texts.len()
        invariant
            i <= texts.len(),
            first_full_text(texts.deep_view().skip(i as int)) == first_full_text(texts.deep_view()),
        decreases texts.len() - i,
    {
        let ghost rest = texts.deep_view().skip(i as int);
        assert(rest[0] == texts[i as int]@);
        assert(rest.skip(1) == texts.deep_view().skip(i + 1));
        let t = trim(texts[i].as_str());
        if !t.is_empty() && !contains(t, ELLIPSIS) {
            return Some(copy_of(t));
        }
        i += 1;
    }
    None
}

fn read_affiliation(cell: ElementRef) -> (r: Option<String>)
    ensures
        r.deep_view() == affiliation_of(cell),
{
    match select_first(cell, SELECT_LINK) {
        Some(link) => {
            let all = texts(link);
            pick_full_text(&all)
        },
        None => None,
    }
}

fn read_labelled_event(label: ElementRef) -> (r: Option<(String, EventStatus)>)
    ensures
        r.deep_view() == labelled_event(label),
{
    match (attribute(label, "title"), first_text(label)) {
        (Some(title), Some(text)) => Some(
            (copy_of(trim(text.as_str())), EventStatus::from_label(title.as_str())),
        ),
        _ => None,
    }
}

fn read_events(cell: ElementRef) -> (r: Vec<(String, EventStatus)>)
    ensures
        r.deep_view() == events_of(cell),
{
    let mut out: Vec<(String, EventStatus)> = Vec::new();
    match select(cell, SELECT_TIPPED) {
        Some(labels) => {
            let mut i: usize = 0;
            assert(labels@.take(0).filter_map(|label: ElementRef| labelled_event(label)) == Seq::<
                (Seq<char>, EventStatus),
            >::empty());
            assert(out.deep_view() == Seq::<(Seq<char>, EventStatus)>::empty());
            while i < labels.len()
                invariant
                    i <= labels.len(),
                    out.deep_view() == labels@.take(i as int).filter_map(
                        |label: ElementRef| labelled_event(label),
                    ),
                decreases labels.len() - i,
            {
                let ghost before = out.deep_view();
                assert(labels@.take(i + 1).drop_last() == labels@.take(i as int));
                assert(labels@.take(i + 1).last() == labels@[i as int]);
                match read_labelled_event(labels[i]) {
                    Some(event) => {
                        let ghost view = event.deep_view();
                        out.push(event);
                        assert(out.deep_view() == before.push(view));
                    },
                    None => {},
                }
                i += 1;
            }
            assert(labels@.take(labels.len() as int) == labels@);
        },
        None => {
            assert(out.deep_view() == Seq::<(Seq<char>, EventStatus)>::empty());
        },
    }
    assert(out.deep_view() == labelled_events(cell));
    if out.len() > 0 {
        return out;
    }
    let all = texts(cell);
    let names = nonblank(&all);
    let ghost lines = names.deep_view();
    let mut k: usize = 0;
    while k < names.len()
        invariant
            k <= names.len(),
            lines == names.deep_view(),
            out.deep_view() == unlabelled_events(lines.take(k as int)),
        decreases names.len() - k,
    {
        let ghost before = out.deep_view();
        let event = (copy_of(names[k].as_str()), EventStatus::Unknown);
        let ghost view = event.deep_view();
        assert(view == (lines[k as int], EventStatus::Unknown));
        out.push(event);
        assert(out.deep_view() =~= before.push(view));
        assert(lines.take(k + 1) =~= lines.take(k as int).push(lines[k as int]));
        assert(unlabelled_events(lines.take(k + 1)) =~= unlabelled_events(
            lines.take(k as int),
        ).push(view));
        k += 1;
    }
    assert(lines.take(names.len() as int) == lines);
    out
}

fn read_relay_team(link: ElementRef) -> (r: Option<RelayTeam>)
    ensures
        r.deep_view() == relay_team_of(link),
{
    match (attribute(link, "href"), first_text(link)) {
        (Some(href), Some(text)) => match capture(REGEX_RELAY_PARTICIPANT_ID, href.as_str(), 1) {
            Some(digits) => match parse_u32(digits.as_str()) {
                Some(participant_id) => Some(
                    RelayTeam { participant_id, name: copy_of(trim(text.as_str())) },
                ),
                None => None,
            },
            None => None,
        },
        _ => None,
    }
}

fn read_relay_teams(teams: &mut Vec<RelayTeam>, cell: ElementRef)
    ensures
        final(teams).deep_view() == old(teams).deep_view() + relay_teams_of(cell),
{
    let ghost start = teams.deep_view();
    assert(start + Seq::<RelayTeamView>::empty() == start);
    let links = match select(cell, SELECT_LINK) {
        Some(v) => v,
        None => return ,
    };
    let mut i: usize = 0;
    assert(links@.take(0).filter_map(|link: ElementRef| relay_team_of(link)) == Seq::<
        RelayTeamView,
    >::empty());
    while i < links.len()
        invariant
            i <= links.len(),
            teams.deep_view() == start + links@.take(i as int).filter_map(
                |link: ElementRef| relay_team_of(link),
            ),
        decreases links.len() - i,
    {
        let ghost before = teams.deep_view();
        let ghost sofar = links@.take(i as int).filter_map(|link: ElementRef| relay_team_of(link));
        assert(links@.take(i + 1).drop_last() == links@.take(i as int));
        assert(links@.take(i + 1).last() == links@[i as int]);
        match read_relay_team(links[i]) {
            Some(team) => {
                let ghost view = team.deep_view();
                teams.push(team);
                assert(teams.deep_view() =~= before.push(view));
                assert(teams.deep_view() =~= start + sofar.push(view));
            },
            None => {},
        }
        i += 1;
    }
    assert(links@.take(links.len() as int) == links@);
}

fn read_label_anomaly(label: ElementRef) -> (r: Option<String>)
    ensures
        r.deep_view() == label_anomaly(label),
{
    match (attribute(label, "title"), first_text(label)) {
        (Some(title), Some(_)) => {
            let keyword = to_lowercase(trim(title.as_str()));
            if EventStatus::from_keyword(keyword.as_str()).1 {
                None
            } else {
                Some(title)
            }
        },
        _ => None,
    }
}

fn read_cell_anomalies(out: &mut Vec<String>, cell: ElementRef)
    ensures
        final(out).deep_view() == old(out).deep_view() + cell_anomalies(cell),
{
    let ghost start = out.deep_view();
    assert(start + Seq::<Seq<char>>::empty() == start);
    let labels = match select(cell, SELECT_TIPPED) {
        Some(v) => v,
        None => return ,
    };
    let mut i: usize = 0;
    assert(labels@.take(0).filter_map(|label: ElementRef| label_anomaly(label)) == Seq::<
        Seq<char>,
    >::empty());
    while i < labels.len()
        invariant
            i <= labels.len(),
            out.deep_view() == start + labels@.take(i as int).filter_map(
                |label: ElementRef| label_anomaly(label),
            ),
        decreases labels.len() - i,
    {
        let ghost before = out.deep_view();
        let ghost sofar = labels@.take(i as int).filter_map(|label: ElementRef| label_anomaly(label));
        assert(labels@.take(i + 1).drop_last() == labels@.take(i as int));
        assert(labels@.take(i + 1).last() == labels@[i as int]);
        match read_label_anomaly(labels[i]) {
            Some(title) => {
                let ghost view = title@;
                out.push(title);
                assert(out.deep_view() =~= before.push(view));
                assert(out.deep_view() =~= start + sofar.push(view));
            },
            None => {},
        }
        i += 1;
    }
    assert(labels@.take(labels.len() as int) == labels@);
}

fn read_row_anomalies(out: &mut Vec<String>, headers: &Vec<String>, row: ElementRef)
    ensures
        final(out).deep_view() == old(out).deep_view() + row_anomalies(headers.deep_view(), row),
{
    let ghost start = out.deep_view();
    assert(start + Seq::<Seq<char>>::empty() == start);
    if read_participant(row).is_none() {
        return ;
    }
    let cells = match select(row, SELECT_CELL) {
        Some(v) => v,
        None => return ,
    };
    let mut i: usize = 0;
    while i < cells.len()
        invariant
            i <= cells.len(),
            out.deep_view() == start + cells_anomalies(headers.deep_view(), cells@, i as int),
        decreases cells.len() - i,
    {
        let ghost sofar = cells_anomalies(headers.deep_view(), cells@, i as int);
        if i < headers.len() {
            assert(headers.deep_view()[i as int] == headers[i as int]@);
            match column_from_header(headers[i].as_str()) {
                Column::Events => {
                    read_cell_anomalies(out, cells[i]);
                    assert(out.deep_view() =~= start + (sofar + cell_anomalies(cells@[i as int])));
                },
                _ => {},
            }
        }
        i += 1;
    }
}

/// Lists the titles of a participants page that name a state which is not
/// known, so that a caller can report that the wording of the site has
/// changed.
pub fn unexpected_labels(html: &Html) -> (r: Vec<String>)
    ensures
        r.deep_view() == unexpected_labels_of(html),
{
    let mut out: Vec<String> = Vec::new();
    assert(out.deep_view() =~= Seq::<Seq<char>>::empty());
    let table = match select_first_in_page(html, SELECT_TABLE) {
        Some(v) => v,
        None => return out,
    };
    let headers = read_headers(table);
    let rows = match select(table, SELECT_ROW) {
        Some(v) => v,
        None => return out,
    };
    let mut i: usize = 0;
    assert(rows@.take(0) == Seq::<ElementRef>::empty());
    while i < rows.len()
        invariant
            i <= rows.len(),
            out.deep_view() == rows_anomalies(headers.deep_view(), rows@.take(i as int)),
        decreases rows.len() - i,
    {
        assert(rows@.take(i + 1).drop_last() == rows@.take(i as int));
        assert(rows@.take(i + 1).last() == rows@[i as int]);
        read_row_anomalies(&mut out, &headers, rows[i]);
        i += 1;
    }
    assert(rows@.take(rows.len() as int) == rows@);
    out
}

/// Tells which column a header in lower case names.
pub fn column_from_header(header: &str) -> (r: Column)
    ensures
        r == column_of(header@),
{
    if same_text(header, "bib") {
        Column::Bib
    } else if same_text(header, "name") {
        Column::Name
    } else if same_text(header, "club") {
        Column::Club
    } else if same_text(header, "team") {
        Column::Team
    } else if same_text(header, "events") {
        Column::Events
    } else if same_text(header, "relay team") {
        Column::RelayTeam
    } else {
        Column::Other
    }
}

/// Reads the cell under the column `header` into `item`.
pub fn read_cell(item: &mut RegistrationsWebListElement, header: &str, cell: ElementRef)
    ensures
        final(item).deep_view() == with_cell(old(item).deep_view(), header@, cell),
{
    match column_from_header(header) {
        Column::Bib => {
            match read_bib(cell) {
                Some(bib) => {
                    item.bib_number = Some(bib);
                },
                None => {},
            }
        },
        Column::Name => {
            match read_name_cell(cell) {
                Some(found) => {
                    item.name = found.name;
                    item.category = found.category;
                    item.short_club_name = found.short_club_name;
                    item.out_of_competition = item.out_of_competition || found.out_of_competition;
                },
                None => {},
            }
        },
        Column::Club => {
            match read_affiliation(cell) {
                Some(club) => {
                    item.club_name = club;
                },
                None => {},
            }
        },
        Column::Team => {
            match read_affiliation(cell) {
                Some(team) => {
                    item.team_name = Some(team);
                },
                None => {},
            }
        },
        Column::Events => {
            item.events = read_events(cell);
        },
        Column::RelayTeam => {
            read_relay_teams(&mut item.relay_teams, cell);
        },
        Column::Other => {},
    }
}

fn read_participant(row: ElementRef) -> (r: Option<u32>)
    ensures
        r == row_participant(row),
{
    match attribute(row, "id") {
        Some(id) => match capture(REGEX_PARTICIPANT_ID, id.as_str(), 1) {
            Some(digits) => parse_u32(digits.as_str()),
            None => None,
        },
        None => None,
    }
}

/// Reads one row of the participants table under the given column headers.
pub fn parse_row(headers: &Vec<String>, row: ElementRef) -> (r: Result<
    RegistrationsWebListElement,
    ExtractError,
>)
    ensures
        match r {
            Ok(record) => registration_of(headers.deep_view(), row) == Some(record.deep_view()),
            Err(e) => e == ExtractError::FieldParseError && registration_of(
                headers.deep_view(),
                row,
            ) is None,
        },
{
    let id = match read_participant(row) {
        Some(v) => v,
        None => return Err(ExtractError::FieldParseError),
    };
    let mut item = RegistrationsWebListElement {
        participant_id: id,
        name: String::new(),
        category: String::new(),
        short_club_name: String::new(),
        club_name: String::new(),
        team_name: None,
        relay_teams: Vec::new(),
        events: Vec::new(),
        out_of_competition: false,
        bib_number: None,
    };
    assert(item.deep_view() =~= blank_registration(id)) by {
        assert(item.relay_teams.deep_view() =~= Seq::<RelayTeamView>::empty());
        assert(item.events.deep_view() =~= Seq::<(Seq<char>, EventStatus)>::empty());
    }
    let cells = match select(row, SELECT_CELL) {
        Some(v) => v,
        None => return Ok(item),
    };
    let mut i: usize = 0;
    while i < cells.len()
        invariant
            i <= cells.len(),
            item.deep_view() == with_cells(
                blank_registration(id),
                headers.deep_view(),
                cells@,
                i as int,
            ),
        decreases cells.len() - i,
    {
        if i < headers.len() {
            assert(headers.deep_view()[i as int] == headers[i as int]@);
            read_cell(&mut item, headers[i].as_str(), cells[i]);
        }
        i += 1;
    }
    Ok(item)
}

fn read_headers(table: ElementRef) -> (r: Vec<String>)
    ensures
        r.deep_view() == headers_of(table),
{
    let mut out: Vec<String> = Vec::new();
    let cells = match select(table, SELECT_HEADER) {
        Some(v) => v,
        None => {
            assert(out.deep_view() =~= Seq::<Seq<char>>::empty());
            return out;
        },
    };
    let mut i: usize = 0;
    while i < cells.len()
        invariant
            i <= cells.len(),
            out.deep_view() == cells@.take(i as int).map_values(|cell: ElementRef| header_of(cell)),
        decreases cells.len() - i,
    {
        let ghost before = out.deep_view();
        let name = match first_text(cells[i]) {
            Some(text) => to_lowercase(text.as_str()),
            None => String::new(),
        };
        assert(name@ == header_of(cells@[i as int]));
        out.push(name);
        assert(out.deep_view() =~= before.push(header_of(cells@[i as int])));
        assert(cells@.take(i + 1) =~= cells@.take(i as int).push(cells@[i as int]));
        assert(out.deep_view() =~= cells@.take(i + 1).map_values(
            |cell: ElementRef| header_of(cell),
        ));
        i += 1;
    }
    assert(cells@.take(cells.len() as int) == cells@);
    out
}

/// Reads the participants of a competition from its participants page.
pub fn parse(html: Html) -> (r: Result<RegistrationsWebList, ExtractError>)
    ensures
        match r {
            Ok(list) => registrations_page(&html) == Ok::<Seq<RegistrationView>, ExtractError>(
                list.deep_view(),
            ),
            Err(e) => registrations_page(&html) == Err::<Seq<RegistrationView>, ExtractError>(e),
        },
{
    let table = match select_first_in_page(&html, SELECT_TABLE) {
        Some(v) => v,
        None => return Err(ExtractError::StructureNotFound),
    };
    let headers = read_headers(table);
    let rows = match select(table, SELECT_ROW) {
        Some(v) => v,
        None => return Err(ExtractError::StructureNotFound),
    };
    let mut out: Vec<RegistrationsWebListElement> = Vec::new();
    let mut i: usize = 0;
    assert(rows@.take(0) == Seq::<ElementRef>::empty());
    assert(out.deep_view() == Seq::<RegistrationView>::empty());
    while i < rows.len()
        invariant
            i <= rows.len(),
            out.deep_view() == registrations_of(headers.deep_view(), rows@.take(i as int)),
        decreases rows.len() - i,
    {
        let ghost before = out.deep_view();
        assert(rows@.take(i + 1).drop_last() == rows@.take(i as int));
        assert(rows@.take(i + 1).last() == rows@[i as int]);
        match parse_row(&headers, rows[i]) {
            Ok(record) => {
                let ghost view = record.deep_view();
                out.push(record);
                assert(out.deep_view() == before.push(view));
            },
            Err(_) => {},
        }
        i += 1;
    }
    assert(rows@.take(rows.len() as int) == rows@);
    Ok(out)
}

} // verus!
