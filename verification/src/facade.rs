//! The operations of the library, each in two halves: the address of the page
//! to fetch, and what the fetched page holds. Fetching lies between the
//! two and is the caller's.

use crate::components::country::{code_of, Country};
use crate::date::{midnight_of, Date};
use crate::dom::{document_of, fragment_of, parse_document, parse_fragment};
use crate::models::athlete_event_result;
use crate::models::athlete_event_result::{AthleteEventResults, AthleteEventResultsView};
use crate::models::athlete_list;
use crate::models::athlete_list::AthleteList;
use crate::models::athlete_profile;
use crate::models::athlete_profile::{AthleteProfile, AthleteProfileView};
use crate::models::competitions_list;
use crate::models::competitions_list::CompetitionsList;
use crate::models::competitions_list_web;
use crate::models::competitions_list_web::CompetitionsWebList;
use crate::models::registrations_list;
use crate::models::registrations_list::RegistrationsList;
use crate::models::registrations_list_web;
use crate::models::registrations_list_web::RegistrationsWebList;
use crate::models::ExtractError;
use crate::number::{number_text, push_number, push_signed, signed_text};
use crate::text::push_text;
use crate::traits::CompetitionID;
use vstd::prelude::*;

verus! {

/// The header that the site expects of a client. Without it the pages lack
/// the machine-readable values beside the displayed ones.
pub const USER_AGENT: &'static str =
    "Mozilla/5.0 (X11; Linux x86_64; rv:109.0) Gecko/20100101 Firefox/114.0";

/// What `urlencoding::encode` returns for `text`: `text` with every byte of
/// its UTF-8 form percent-encoded, except letters, digits, `-`, `_`, `.`
/// and `~`.
pub uninterp spec fn percent_encoded(text: Seq<char>) -> Seq<char>;

/// Calls `urlencoding::encode`.
#[verifier::external_body]
fn percent_encode(text: &str) -> (r: String)
    ensures
        r@ == percent_encoded(text@),
{
    urlencoding::encode(text).into_owned()
}

/// The address of a search for competitions on the mobile site.
pub open spec fn search_competitions_address(q: Seq<char>) -> Seq<char> {
    "https://www.athletics.app/athleteapp.php?page=events&do=searchresults&country_iso2=NL&search="@
        + percent_encoded(q)
        + "&predefinedSearchTemplate=0&startDate=-30610225172&endDate=-30610225172&language=en_GB&version=1.16&improvePerformance=0"@
}

/// The address of a search for athletes.
pub open spec fn search_athletes_address(q: Seq<char>) -> Seq<char> {
    "https://www.athletics.app/athleteapp.php?page=athletes&do=searchresults&name="@
        + percent_encoded(q) + "&language=en_GB&version=1.16&improvePerformance=0"@
}

/// The address of the participants of a competition on the mobile site.
pub open spec fn registrations_address(id: u32) -> Seq<char> {
    "https://www.athletics.app/athleteapp.php?page=event&do=registrations&event_id="@
        + number_text(id as nat) + "&version=1.16&language=en_GB&improvePerformance=0"@
}

/// The address of the participants of a competition on the desktop site.
pub open spec fn registrations_web_address(id: u32) -> Seq<char> {
    "https://www.athletics.app/wedstrijd/atleten/"@ + number_text(id as nat) + "/"@
}

/// The address of a participant's results.
pub open spec fn event_result_address(participant_id: u32) -> Seq<char> {
    "https://www.athletics.app/atleet/main/"@ + number_text(participant_id as nat) + "/"@
}

/// The address of an athlete's profile.
pub open spec fn profile_address(athlete_id: u32) -> Seq<char> {
    "https://www.athletics.app/atleet/profiel/"@ + number_text(athlete_id as nat)
}

/// The address of a search for the competitions of a country between two
/// days. The days are given by their midnight, in seconds since the Unix
/// epoch. There is no address where one of the days does not exist.
pub open spec fn time_period_address(start: Date, end: Date, country: Country, q: Seq<char>) -> Option<
    Seq<char>,
> {
    if start.is_valid() && end.is_valid() {
        Some(
            "https://www.athletics.app/feeder.php?page=search&do=events&country="@
                + percent_encoded(code_of(country))
                + "&event_soort[]=in&event_soort[]=out&search="@ + percent_encoded(q)
                + "&startDate="@ + signed_text(
                midnight_of(start.year as int, start.month as int, start.day as int) as int,
            ) + "&endDate="@ + signed_text(
                midnight_of(end.year as int, end.month as int, end.day as int) as int,
            ),
        )
    } else {
        None
    }
}

/// The address of a search for competitions on the mobile site.
pub fn search_competitions_url(q: &str) -> (r: String)
    ensures
        r@ == search_competitions_address(q@),
{
    let mut url = String::new();
    push_text(
        &mut url,
        "https://www.athletics.app/athleteapp.php?page=events&do=searchresults&country_iso2=NL&search=",
    );
    push_text(&mut url, percent_encode(q).as_str());
    push_text(
        &mut url,
        "&predefinedSearchTemplate=0&startDate=-30610225172&endDate=-30610225172&language=en_GB&version=1.16&improvePerformance=0",
    );
    assert(url@ =~= search_competitions_address(q@));
    url
}

/// The address of a search for athletes.
pub fn search_athletes_url(q: &str) -> (r: String)
    ensures
        r@ == search_athletes_address(q@),
{
    let mut url = String::new();
    push_text(
        &mut url,
        "https://www.athletics.app/athleteapp.php?page=athletes&do=searchresults&name=",
    );
    push_text(&mut url, percent_encode(q).as_str());
    push_text(&mut url, "&language=en_GB&version=1.16&improvePerformance=0");
    assert(url@ =~= search_athletes_address(q@));
    url
}

/// The address of the participants of a competition on the mobile site.
pub fn get_competition_registrations_url<C: CompetitionID>(competition_id: &C) -> (r: String)
    ensures
        r@ == registrations_address(competition_id.id_of()),
{
    let mut url = String::new();
    push_text(
        &mut url,
        "https://www.athletics.app/athleteapp.php?page=event&do=registrations&event_id=",
    );
    push_number(&mut url, competition_id.competition_id() as u64);
    push_text(&mut url, "&version=1.16&language=en_GB&improvePerformance=0");
    assert(url@ =~= registrations_address(competition_id.id_of()));
    url
}

/// The address of the participants of a competition on the desktop site.
pub fn get_competition_registrations_web_url<C: CompetitionID>(competition_id: &C) -> (r: String)
    ensures
        r@ == registrations_web_address(competition_id.id_of()),
{
    let mut url = String::new();
    push_text(&mut url, "https://www.athletics.app/wedstrijd/atleten/");
    push_number(&mut url, competition_id.competition_id() as u64);
    push_text(&mut url, "/");
    assert(url@ =~= registrations_web_address(competition_id.id_of()));
    url
}

/// The address of a participant's results.
pub fn get_athlete_event_result_url(participant_id: u32) -> (r: String)
    ensures
        r@ == event_result_address(participant_id),
{
    let mut url = String::new();
    push_text(&mut url, "https://www.athletics.app/atleet/main/");
    push_number(&mut url, participant_id as u64);
    push_text(&mut url, "/");
    assert(url@ =~= event_result_address(participant_id));
    url
}

/// The address of an athlete's profile.
pub fn get_athlete_profile_url(athlete_id: u32) -> (r: String)
    ensures
        r@ == profile_address(athlete_id),
{
    let mut url = String::new();
    push_text(&mut url, "https://www.athletics.app/atleet/profiel/");
    push_number(&mut url, athlete_id as u64);
    assert(url@ =~= profile_address(athlete_id));
    url
}

/// The address of a search for the competitions of a country between two
/// days, or `None` where one of the days does not exist.
pub fn search_competitions_for_time_period_url(start: Date, end: Date, country: Country, q: &str) -> (r:
    Option<String>)
    ensures
        r.deep_view() == time_period_address(start, end, country, q@),
{
    let (from, to) = match (start.midnight(), end.midnight()) {
        (Some(a), Some(b)) => (a, b),
        _ => return None,
    };
    let mut url = String::new();
    push_text(&mut url, "https://www.athletics.app/feeder.php?page=search&do=events&country=");
    push_text(&mut url, percent_encode(country.to_str()).as_str());
    push_text(&mut url, "&event_soort[]=in&event_soort[]=out&search=");
    push_text(&mut url, percent_encode(q).as_str());
    push_text(&mut url, "&startDate=");
    push_signed(&mut url, from);
    push_text(&mut url, "&endDate=");
    push_signed(&mut url, to);
    assert(Some(url@) =~= time_period_address(start, end, country, q@));
    Some(url)
}

/// The address of all competitions of a country between two days, or `None`
/// where one of the days does not exist.
pub fn get_competitions_for_time_period_url(start: Date, end: Date, country: Country) -> (r: Option<
    String,
>)
    ensures
        r.deep_view() == time_period_address(start, end, country, ""@),
{
    search_competitions_for_time_period_url(start, end, country, "")
}

/// Reads the answer to a search for competitions on the mobile site.
pub fn read_search_competitions(body: &str) -> (r: Result<CompetitionsList, ExtractError>)
    ensures
        r matches Ok(list) && list.deep_view() == competitions_list::competitions_page(
            &fragment_of(body@),
        ),
{
    competitions_list::parse(parse_fragment(body))
}

/// Reads the answer to a search for athletes.
pub fn read_search_athletes(body: &str) -> (r: Result<AthleteList, ExtractError>)
    ensures
        r matches Ok(list) && list.deep_view() == athlete_list::athletes_page(&fragment_of(body@)),
{
    athlete_list::parse(parse_fragment(body))
}

/// Reads the participants of a competition from the page of the mobile site.
pub fn read_competition_registrations(body: &str) -> (r: Result<RegistrationsList, ExtractError>)
    ensures
        match r {
            Ok(list) => registrations_list::registrations_page(&fragment_of(body@)) == Ok::<
                Seq<registrations_list::RegistrationView>,
                ExtractError,
            >(list.deep_view()),
            Err(e) => registrations_list::registrations_page(&fragment_of(body@)) == Err::<
                Seq<registrations_list::RegistrationView>,
                ExtractError,
            >(e),
        },
{
    registrations_list::parse(parse_fragment(body))
}

/// Reads the participants of a competition from the page of the desktop site.
pub fn read_competition_registrations_web(body: &str) -> (r: Result<
    RegistrationsWebList,
    ExtractError,
>)
    ensures
        match r {
            Ok(list) => registrations_list_web::registrations_page(&document_of(body@)) == Ok::<
                Seq<registrations_list_web::RegistrationView>,
                ExtractError,
            >(list.deep_view()),
            Err(e) => registrations_list_web::registrations_page(&document_of(body@)) == Err::<
                Seq<registrations_list_web::RegistrationView>,
                ExtractError,
            >(e),
        },
{
    registrations_list_web::parse(parse_document(body))
}

/// Reads a participant's results from the results page.
pub fn read_athlete_event_result(body: &str) -> (r: Result<AthleteEventResults, ExtractError>)
    ensures
        match r {
            Ok(found) => athlete_event_result::results_page(&document_of(body@)) == Ok::<
                AthleteEventResultsView,
                ExtractError,
            >(found.deep_view()),
            Err(e) => athlete_event_result::results_page(&document_of(body@)) == Err::<
                AthleteEventResultsView,
                ExtractError,
            >(e),
        },
{
    athlete_event_result::parse(parse_document(body))
}

/// Reads an athlete's profile from the profile page.
pub fn read_athlete_profile(body: &str) -> (r: Result<AthleteProfile, ExtractError>)
    ensures
        match r {
            Ok(found) => athlete_profile::profile_page(&document_of(body@)) == Ok::<
                AthleteProfileView,
                ExtractError,
            >(found.deep_view()),
            Err(e) => athlete_profile::profile_page(&document_of(body@)) == Err::<
                AthleteProfileView,
                ExtractError,
            >(e),
        },
{
    athlete_profile::parse(parse_document(body))
}

/// Reads the answer to a search for competitions of the desktop site, taking
/// `today` for the day of a competition that shows no date.
pub fn read_competitions_for_time_period(body: &str, today: Date) -> (r: Result<
    CompetitionsWebList,
    ExtractError,
>)
    ensures
        r matches Ok(list) && list.deep_view() == competitions_list_web::competitions_page(
            &document_of(body@),
            today,
        ),
{
    let page = parse_document(body);
    competitions_list_web::parse_on(&page, today)
}

} // verus!
