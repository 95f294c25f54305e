//! An athlete's results at one competition: the results table, the timetable
//! and the list of competitions taken part in.

use crate::components::wind_speed;
use crate::components::wind_speed::wind_speed_of;
use crate::date::{is_timestamp, timestamp_exists};
use crate::decimal::{decimal_of, Decimal};
use crate::dom::{
    attribute, attribute_of, first_selected, first_selected_in_page, first_text, first_text_of,
    markup, markup_of, root_element, root_of, select, select_first, select_first_in_page,
    select_in_page, selected_attribute, selected_attribute_of, selected_in, selected_in_page,
    selected_text, selected_text_of, texts, texts_of,
};
use crate::models::competition_registrations_list;
use crate::models::competition_registrations_list::{
    registrations_of, CompetitionRegistrationList, CompetitionRegistrationView,
};
use crate::models::ExtractError;
use crate::number::{i64_of, parse_i64, parse_u16, parse_u32, u16_of, u32_of};
use crate::pattern::{capture, captured};
use crate::text::{contains, copy_of, first_nonblank, first_nonblank_of, has_occurrence, replace, replaced, same_text};
use scraper::{ElementRef, Html};
use vstd::prelude::*;

verus! {

/// Group 1: the event's short name.
pub const REGEX_EVENT: &'static str =
    r#"https://www.athletics.app/wedstrijd/uitslagenonderdeel/[\d]{0,}/([A-z\d-]{0,})/"#;

/// Group 1: the competition's number.
pub const REGEX_COMPETITION_ID: &'static str = r#"wedstrijd/main/([0-9]{0,})/"#;

pub const SELECT_RESULTS: &'static str = "#uitslagentabel > tbody";

pub const SELECT_ROW: &'static str = "tr";

pub const SELECT_CELL: &'static str = "td";

pub const SELECT_LINK: &'static str = "a";

pub const SELECT_SORT_DATA: &'static str = "span.sortData";

pub const SELECT_TIPPED: &'static str = "span.tipped";

pub const SELECT_TITLE: &'static str = "div.pageTitle";

pub const SELECT_COMPETITION: &'static str = "div#menubottom > a.hidden-xs";

pub const SELECT_SHORT: &'static str = "span.visible-xs-inline";

pub const SELECT_LONG: &'static str = "span.hidden-xs";

pub const SELECT_TIMETABLE: &'static str = "table.chronoloogtabel > tbody > tr";

/// The words by which a results table of the unsupported format is known.
pub const UNSUPPORTED_MARKER: &'static str = "Athletics Champs";

/// A measurement above this many units is taken for a sentinel, not a result.
pub const DNF_THRESHOLD: u32 = 10000;

/// Everything that an athlete's page at one competition holds.
#[derive(Debug, Clone)]
pub struct AthleteEventResults {
    pub name: String,
    pub competition_id: u32,
    pub results: Vec<EventResult>,
    pub timetable: Vec<TimetableEvent>,
    pub participated_in: CompetitionRegistrationList,
}

/// What an athlete achieved in one event.
#[derive(Debug, Clone)]
pub struct EventResult {
    pub event_name: String,
    pub event_url: String,
    pub items: Vec<EventResultItem>,
}

/// One slot of the timetable. `time` counts seconds from the Unix epoch.
#[derive(Debug, Clone)]
pub struct TimetableEvent {
    pub time: i64,
    pub startlist_url: String,
    pub event_name: String,
    pub event_short: String,
    pub start_group_name: String,
}

/// One entry of an event's result.
#[derive(Debug, Clone, Copy, PartialEq, Eq)]
pub enum EventResultItem {
    Position { position: u16 },
    Measurement {
        wind_speed: Option<Decimal>,
        result: Decimal,
        dnf: bool,
        /// Why the measurement was taken for "did not finish".
        dnf_reason: Option<DnfReason>,
    },
    Points { amount: u16 },
}

/// Why a measurement was taken for "did not finish" or "did not start".
#[derive(Debug, Clone, Copy, PartialEq, Eq, Structural)]
pub enum DnfReason {
    DataBelowZero,
    DataAboveThreshold { threshold: u32 },
}

/// An `EventResult` as contracts see it.
pub struct EventResultView {
    pub event_name: Seq<char>,
    pub event_url: Seq<char>,
    pub items: Seq<EventResultItem>,
}

/// A `TimetableEvent` as contracts see it.
pub struct TimetableEventView {
    pub time: i64,
    pub startlist_url: Seq<char>,
    pub event_name: Seq<char>,
    pub event_short: Seq<char>,
    pub start_group_name: Seq<char>,
}

/// An `AthleteEventResults` as contracts see it.
pub struct AthleteEventResultsView {
    pub name: Seq<char>,
    pub competition_id: u32,
    pub results: Seq<EventResultView>,
    pub timetable: Seq<TimetableEventView>,
    pub participated_in: Seq<CompetitionRegistrationView>,
}

impl DeepView for EventResult {
    type V = EventResultView;

    open spec fn deep_view(&self) -> EventResultView {
        EventResultView {
            event_name: self.event_name@,
            event_url: self.event_url@,
            items: self.items@,
        }
    }
}

impl DeepView for TimetableEvent {
    type V = TimetableEventView;

    open spec fn deep_view(&self) -> TimetableEventView {
        TimetableEventView {
            time: self.time,
            startlist_url: self.startlist_url@,
            event_name: self.event_name@,
            event_short: self.event_short@,
            start_group_name: self.start_group_name@,
        }
    }
}

impl DeepView for AthleteEventResults {
    type V = AthleteEventResultsView;

    open spec fn deep_view(&self) -> AthleteEventResultsView {
        AthleteEventResultsView {
            name: self.name@,
            competition_id: self.competition_id,
            results: self.results.deep_view(),
            timetable: self.timetable.deep_view(),
            participated_in: self.participated_in.deep_view(),
        }
    }
}

/// Why a measurement of `result` counts as "did not finish", if it does: a
/// value below zero, or one above the threshold.
pub open spec fn dnf_reason_of(result: Decimal) -> Option<DnfReason> {
    if result.below_zero() {
        Some(DnfReason::DataBelowZero)
    } else if result.above(DNF_THRESHOLD as nat) {
        Some(DnfReason::DataAboveThreshold { threshold: DNF_THRESHOLD })
    } else {
        None
    }
}

/// The measurement item for a raw value and a wind speed. The raw value is
/// kept as it is, also where it is implausible.
pub open spec fn measurement_of(result: Decimal, wind_speed: Option<Decimal>) -> EventResultItem {
    EventResultItem::Measurement {
        wind_speed,
        result,
        dnf: dnf_reason_of(result) is Some,
        dnf_reason: dnf_reason_of(result),
    }
}

/// Makes the measurement item for a raw value and a wind speed, and marks an
/// implausible value as "did not finish".
pub fn classify_measurement(result: Decimal, wind_speed: Option<Decimal>) -> (r: EventResultItem)
    ensures
        r == measurement_of(result, wind_speed),
{
    let reason = if result.is_below_zero() {
        Some(DnfReason::DataBelowZero)
    } else if result.is_above(DNF_THRESHOLD as u64) {
        Some(DnfReason::DataAboveThreshold { threshold: DNF_THRESHOLD })
    } else {
        None
    };
    EventResultItem::Measurement { wind_speed, result, dnf: reason.is_some(), dnf_reason: reason }
}

/// The points that one item carries.
pub open spec fn item_points(item: EventResultItem) -> nat {
    match item {
        EventResultItem::Points { amount } => amount as nat,
        _ => 0,
    }
}

/// The sum of the points among `items`.
pub open spec fn items_points(items: Seq<EventResultItem>) -> nat
    decreases items.len(),
{
    if items.len() == 0 {
        0
    } else {
        items_points(items.drop_last()) + item_points(items.last())
    }
}

/// Whether any of `items` is a points item.
pub open spec fn items_have_points(items: Seq<EventResultItem>) -> bool {
    exists|i: int| 0 <= i < items.len() && (#[trigger] items[i]) is Points
}

/// The sum of the points in all of `results`.
pub open spec fn total_points(results: Seq<EventResultView>) -> nat
    decreases results.len(),
{
    if results.len() == 0 {
        0
    } else {
        total_points(results.drop_last()) + items_points(results.last().items)
    }
}

/// Whether any of `results` holds a points item.
pub open spec fn any_points(results: Seq<EventResultView>) -> bool {
    exists|i: int| 0 <= i < results.len() && items_have_points((#[trigger] results[i]).items)
}

/// The points of the first `n` results are no more than the points of all.
pub proof fn lemma_total_points_prefix(results: Seq<EventResultView>, n: int)
    requires
        0 <= n <= results.len(),
    ensures
        total_points(results.take(n)) <= total_points(results),
    decreases results.len(),
{
    if n == results.len() {
        assert(results.take(n) == results);
    } else {
        assert(results.drop_last().take(n) == results.take(n));
        lemma_total_points_prefix(results.drop_last(), n);
    }
}

/// The sum of the points among `items`, and whether there is a points item.
fn points_in(items: &Vec<EventResultItem>) -> (r: (u128, bool))
    ensures
        r.0 == items_points(items@),
        r.1 == items_have_points(items@),
{
    let mut sum: u128 = 0;
    let mut any = false;
    let mut i: usize = 0;
    while i < items.len()
        invariant
            i <= items.len(),
            sum == items_points(items@.take(i as int)),
            sum <= 65535 * i,
            any == items_have_points(items@.take(i as int)),
        decreases items.len() - i,
    {
        let ghost before = items@.take(i as int);
        let ghost after = items@.take(i + 1);
        assert(after.drop_last() == before);
        assert(after.last() == items@[i as int]);
        match items[i] {
            EventResultItem::Points { amount } => {
                sum = sum + amount as u128;
                any = true;
                assert(after[i as int] is Points);
            },
            _ => {
                proof {
                    if any {
                        let k = choose|k: int|
                            0 <= k < before.len() && (#[trigger] before[k]) is Points;
                        assert(after[k] is Points);
                    }
                }
            },
        }
        proof {
            if items_have_points(after) && !any {
                let k = choose|k: int| 0 <= k < after.len() && (#[trigger] after[k]) is Points;
                assert(before[k] is Points);
            }
        }
        i += 1;
    }
    assert(items@.take(items.len() as int) == items@);
    (sum, any)
}

impl AthleteEventResults {
    /// The athlete's points over all events: `None` where no result holds a
    /// points item, the sum of all points items otherwise.
    pub fn get_total_points(&self) -> (r: Option<u16>)
        requires
            total_points(self.results.deep_view()) <= u16::MAX,
        ensures
            r == (if any_points(self.results.deep_view()) {
                Some(total_points(self.results.deep_view()) as u16)
            } else {
                None
            }),
    {
        let ghost all = self.results.deep_view();
        let mut points: u16 = 0;
        let mut no_points = true;
        let mut i: usize = 0;
        while i < self.results.len()
            invariant
                i <= self.results.len(),
                all == self.results.deep_view(),
                total_points(all) <= u16::MAX,
                points == total_points(all.take(i as int)),
                no_points == !any_points(all.take(i as int)),
            decreases self.results.len() - i,
        {
            let ghost before = all.take(i as int);
            let ghost after = all.take(i + 1);
            assert(after.drop_last() == before);
            assert(after.last() == all[i as int]);
            assert(all[i as int].items == self.results[i as int].items@);
            let found = points_in(&self.results[i].items);
            proof {
                lemma_total_points_prefix(all, i + 1);
                if found.1 {
                    assert(items_have_points(after[i as int].items));
                } else if !no_points {
                    let k = choose|k: int|
                        0 <= k < before.len() && items_have_points((#[trigger] before[k]).items);
                    assert(items_have_points(after[k].items));
                }
                if any_points(after) && no_points && !found.1 {
                    let k = choose|k: int|
                        0 <= k < after.len() && items_have_points((#[trigger] after[k]).items);
                    assert(items_have_points(before[k].items));
                }
            }
            points = (points as u128 + found.0) as u16;
            if found.1 {
                no_points = false;
            }
            i += 1;
        }
        assert(all.take(self.results.len() as int) == all);
        if no_points {
            None
        } else {
            Some(points)
        }
    }
}

/// The index of the first of `results` for the event at `url`, or the length
/// of `results` where none is for that event.
pub open spec fn url_index(results: Seq<EventResultView>, url: Seq<char>) -> int
    decreases results.len(),
{
    if results.len() == 0 || results[0].event_url == url {
        0
    } else {
        1 + url_index(results.skip(1), url)
    }
}

/// `merged` with `next` folded in: its items are appended to the result for
/// the same event where there is one, else `next` is added at the end.
pub open spec fn merge_result(merged: Seq<EventResultView>, next: EventResultView) -> Seq<
    EventResultView,
> {
    let at = url_index(merged, next.event_url);
    if at < merged.len() {
        merged.update(
            at,
            EventResultView {
                event_name: merged[at].event_name,
                event_url: merged[at].event_url,
                items: merged[at].items + next.items,
            },
        )
    } else {
        merged.push(next)
    }
}

/// The results of `raw` folded by event: one result for each event address,
/// in the order in which the events first appear, each with the items of all
/// results for that event in their order, under the name that came first.
pub open spec fn folded(raw: Seq<EventResultView>) -> Seq<EventResultView>
    decreases raw.len(),
{
    if raw.len() == 0 {
        Seq::empty()
    } else {
        merge_result(folded(raw.drop_last()), raw.last())
    }
}

/// No two of `results` are for the same event address.
pub open spec fn distinct_urls(results: Seq<EventResultView>) -> bool {
    forall|i: int, j: int|
        0 <= i < j < results.len() ==> (#[trigger] results[i]).event_url != (
        #[trigger] results[j]).event_url
}

/// The items of all of `results` that are for the event at `url`, in order.
pub open spec fn items_for(results: Seq<EventResultView>, url: Seq<char>) -> Seq<EventResultItem>
    decreases results.len(),
{
    if results.len() == 0 {
        Seq::empty()
    } else if results.last().event_url == url {
        items_for(results.drop_last(), url) + results.last().items
    } else {
        items_for(results.drop_last(), url)
    }
}

/// `url_index` is the index of a result for `url`, before which none is for
/// `url`, or the length where none is.
pub proof fn lemma_url_index(results: Seq<EventResultView>, url: Seq<char>)
    ensures
        0 <= url_index(results, url) <= results.len(),
        url_index(results, url) < results.len() ==> results[url_index(results, url)].event_url
            == url,
        forall|i: int| 0 <= i < url_index(results, url) ==> (#[trigger] results[i]).event_url != url,
    decreases results.len(),
{
    if results.len() == 0 || results[0].event_url == url {
    } else {
        let rest = results.skip(1);
        lemma_url_index(rest, url);
        assert forall|i: int| 0 <= i < url_index(results, url) implies (
        #[trigger] results[i]).event_url != url by {
            if i > 0 {
                assert(results[i] == rest[i - 1]);
            }
        }
    }
}

/// Replacing a result by one for the same address with more items adds those
/// items to what is held for that address, and changes nothing for another.
proof fn lemma_items_for_update(
    results: Seq<EventResultView>,
    at: int,
    more: Seq<EventResultItem>,
    url: Seq<char>,
)
    requires
        0 <= at < results.len(),
        distinct_urls(results),
    ensures
        items_for(
            results.update(
                at,
                EventResultView {
                    event_name: results[at].event_name,
                    event_url: results[at].event_url,
                    items: results[at].items + more,
                },
            ),
            url,
        ) == if results[at].event_url == url {
            items_for(results, url) + more
        } else {
            items_for(results, url)
        },
    decreases results.len(),
{
    let changed = EventResultView {
        event_name: results[at].event_name,
        event_url: results[at].event_url,
        items: results[at].items + more,
    };
    let updated = results.update(at, changed);
    if at == results.len() - 1 {
        assert(updated.drop_last() == results.drop_last());
        assert(updated.last() == changed);
        if results[at].event_url == url {
            assert(items_for(results.drop_last(), url) + (results[at].items + more) == (items_for(
                results.drop_last(),
                url,
            ) + results[at].items) + more);
        }
    } else {
        let shorter = results.drop_last();
        assert(distinct_urls(shorter)) by {
            assert forall|i: int, j: int| 0 <= i < j < shorter.len() implies (
            #[trigger] shorter[i]).event_url != (#[trigger] shorter[j]).event_url by {
                assert(shorter[i] == results[i]);
                assert(shorter[j] == results[j]);
            }
        }
        assert(shorter[at] == results[at]);
        lemma_items_for_update(shorter, at, more, url);
        assert(updated.drop_last() == shorter.update(at, changed));
        assert(updated.last() == results.last());
        if results[at].event_url == url {
            assert(results.last().event_url != url) by {
                assert(results[at].event_url != results[results.len() - 1].event_url);
            }
        } else if results.last().event_url == url {
        }
    }
}

/// Folding keeps the event addresses apart and loses no item: no two folded
/// results are for the same address, and for every address the folded results
/// hold exactly the items that `raw` holds for it, in the same order.
pub proof fn lemma_folded_groups_by_event(raw: Seq<EventResultView>, url: Seq<char>)
    ensures
        distinct_urls(folded(raw)),
        items_for(folded(raw), url) == items_for(raw, url),
    decreases raw.len(),
{
    if raw.len() == 0 {
    } else {
        let merged = folded(raw.drop_last());
        let next = raw.last();
        lemma_folded_groups_by_event(raw.drop_last(), url);
        lemma_url_index(merged, next.event_url);
        let at = url_index(merged, next.event_url);
        let out = merge_result(merged, next);
        if at < merged.len() {
            lemma_items_for_update(merged, at, next.items, url);
            assert forall|i: int, j: int| 0 <= i < j < out.len() implies (
            #[trigger] out[i]).event_url != (#[trigger] out[j]).event_url by {
                assert(out[i].event_url == merged[i].event_url);
                assert(out[j].event_url == merged[j].event_url);
            }
        } else {
            assert(out.drop_last() == merged);
            assert(out.last() == next);
            assert forall|i: int, j: int| 0 <= i < j < out.len() implies (
            #[trigger] out[i]).event_url != (#[trigger] out[j]).event_url by {
                assert(out[i] == merged[i]);
                if j < merged.len() {
                    assert(out[j] == merged[j]);
                }
            }
        }
    }
}

/// The name under which `results` hold the event at `url`: that of the first
/// result for it.
pub open spec fn name_for(results: Seq<EventResultView>, url: Seq<char>) -> Option<Seq<char>> {
    if url_index(results, url) < results.len() {
        Some(results[url_index(results, url)].event_name)
    } else {
        None
    }
}

/// Where the first result for `url` stands after one more result has been
/// added at the end.
proof fn lemma_url_index_push(results: Seq<EventResultView>, next: EventResultView, url: Seq<char>)
    ensures
        url_index(results.push(next), url) == (if url_index(results, url) < results.len() {
            url_index(results, url)
        } else if next.event_url == url {
            results.len() as int
        } else {
            results.len() as int + 1
        }),
    decreases results.len(),
{
    let longer = results.push(next);
    lemma_url_index(results, url);
    if results.len() == 0 {
        assert(longer[0] == next);
        assert(longer.skip(1).len() == 0);
        assert(url_index(longer.skip(1), url) == 0);
        assert(url_index(results, url) == 0);
    } else if results[0].event_url == url {
        assert(longer[0] == results[0]);
    } else {
        assert(longer[0] == results[0]);
        assert(longer.skip(1) == results.skip(1).push(next));
        lemma_url_index_push(results.skip(1), next, url);
        lemma_url_index(results.skip(1), url);
    }
}

/// Folding keeps each event under the name that came first: the folded
/// results hold an event at `url` exactly when `raw` does, and under the name
/// of the first result of `raw` for it.
pub proof fn lemma_folded_keeps_first_name(raw: Seq<EventResultView>, url: Seq<char>)
    ensures
        name_for(folded(raw), url) == name_for(raw, url),
    decreases raw.len(),
{
    if raw.len() == 0 {
    } else {
        let rest = raw.drop_last();
        let next = raw.last();
        let merged = folded(rest);
        let out = merge_result(merged, next);
        lemma_folded_keeps_first_name(rest, url);
        lemma_folded_keeps_first_name(rest, next.event_url);
        assert(rest.push(next) == raw);
        lemma_url_index_push(rest, next, url);
        lemma_url_index(rest, url);
        lemma_url_index(merged, url);
        lemma_url_index(merged, next.event_url);
        lemma_url_index(rest, next.event_url);
        let at = url_index(merged, next.event_url);
        if at < merged.len() {
            lemma_url_index_same_urls(merged, out, url);
        } else {
            lemma_url_index_push(merged, next, url);
        }
    }
}

/// Two lists that hold the same addresses in the same places hold the first
/// result for an address in the same place.
proof fn lemma_url_index_same_urls(
    one: Seq<EventResultView>,
    other: Seq<EventResultView>,
    url: Seq<char>,
)
    requires
        one.len() == other.len(),
        forall|i: int| 0 <= i < one.len() ==> (#[trigger] one[i]).event_url == other[i].event_url,
    ensures
        url_index(one, url) == url_index(other, url),
    decreases one.len(),
{
    if one.len() == 0 || one[0].event_url == url {
        assert(one.len() == 0 || other[0].event_url == one[0].event_url);
    } else {
        assert(other[0].event_url == one[0].event_url);
        assert forall|i: int| 0 <= i < one.skip(1).len() implies (#[trigger] one.skip(1)[i]).event_url
            == other.skip(1)[i].event_url by {
            assert(one.skip(1)[i] == one[i + 1]);
            assert(other.skip(1)[i] == other[i + 1]);
        }
        lemma_url_index_same_urls(one.skip(1), other.skip(1), url);
    }
}

/// Appends the items of `more` to `items`.
fn append_items(items: &mut Vec<EventResultItem>, more: &Vec<EventResultItem>)
    ensures
        final(items)@ == old(items)@ + more@,
{
    let ghost before = items@;
    let mut i: usize = 0;
    assert(more@.take(0) == Seq::<EventResultItem>::empty());
    assert(before + more@.take(0) == before);
    while i < more.len()
        invariant
            i <= more.len(),
            items@ == before + more@.take(i as int),
        decreases more.len() - i,
    {
        items.push(more[i]);
        assert(more@.take(i + 1) == more@.take(i as int).push(more@[i as int]));
        assert(before + more@.take(i + 1) == (before + more@.take(i as int)).push(more@[i as int]));
        i += 1;
    }
    assert(more@.take(more.len() as int) == more@);
}

/// Folds one more result into `merged`.
fn merge_into(merged: &mut Vec<EventResult>, next: &EventResult)
    ensures
        final(merged).deep_view() == merge_result(old(merged).deep_view(), next.deep_view()),
{
    let ghost before = merged.deep_view();
    let mut at: usize = 0;
    assert(before.skip(0) == before);
    while at < merged.len() && !same_text(merged[at].event_url.as_str(), next.event_url.as_str())
        invariant
            at <= merged.len(),
            before == merged.deep_view(),
            at + url_index(before.skip(at as int), next.event_url@) == url_index(
                before,
                next.event_url@,
            ),
        decreases merged.len() - at,
    {
        assert(before.skip(at as int)[0] == before[at as int]);
        assert(before.skip(at as int).skip(1) == before.skip(at + 1));
        at += 1;
    }
    assert(at < merged.len() ==> before.skip(at as int)[0] == before[at as int]);
    assert(url_index(before.skip(at as int), next.event_url@) == 0);
    if at < merged.len() {
        let mut entry = merged.remove(at);
        append_items(&mut entry.items, &next.items);
        let ghost changed = entry.deep_view();
        merged.insert(at, entry);
        assert(merged.deep_view() =~= before.update(at as int, changed));
    } else {
        let mut items: Vec<EventResultItem> = Vec::new();
        append_items(&mut items, &next.items);
        assert(items@ == next.items@);
        let entry = EventResult {
            event_name: copy_of(next.event_name.as_str()),
            event_url: copy_of(next.event_url.as_str()),
            items,
        };
        let ghost view = entry.deep_view();
        merged.push(entry);
        assert(merged.deep_view() =~= before.push(view));
    }
}

/// Folds results by event: one result for each event address, in the order in
/// which the events first appear, each with all items for that event.
pub fn fold_results(raw: &Vec<EventResult>) -> (r: Vec<EventResult>)
    ensures
        r.deep_view() == folded(raw.deep_view()),
        distinct_urls(r.deep_view()),
{
    let ghost all = raw.deep_view();
    let mut merged: Vec<EventResult> = Vec::new();
    let mut i: usize = 0;
    assert(all.take(0) == Seq::<EventResultView>::empty());
    assert(merged.deep_view() == Seq::<EventResultView>::empty());
    while i < raw.len()
        invariant
            i <= raw.len(),
            all == raw.deep_view(),
            merged.deep_view() == folded(all.take(i as int)),
        decreases raw.len() - i,
    {
        assert(all.take(i + 1).drop_last() == all.take(i as int));
        assert(all.take(i + 1).last() == raw[i as int].deep_view());
        merge_into(&mut merged, &raw[i]);
        i += 1;
    }
    assert(all.take(raw.len() as int) == all);
    proof {
        lemma_folded_groups_by_event(all, Seq::empty());
    }
    merged
}

/// The shape of a row of the results table.
#[derive(Debug, Clone, Copy, PartialEq, Eq, Structural)]
pub enum RowShape {
    /// The first cell links to the event; the last cell holds the position.
    StandardRow,
    /// The first cell has no link and the second links to the event: a row of
    /// a combined event, whose last cell holds the points and the one before
    /// it the position.
    CombinedEventRow,
    /// Neither: the row names no event.
    NoMatch,
}

/// The shape of a row with the cells `cells`.
pub open spec fn row_shape(cells: Seq<ElementRef>) -> RowShape {
    if cells.len() >= 1 && first_selected(cells[0], SELECT_LINK@) is Some {
        RowShape::StandardRow
    } else if cells.len() >= 2 && first_selected(cells[1], SELECT_LINK@) is Some {
        RowShape::CombinedEventRow
    } else {
        RowShape::NoMatch
    }
}

/// The address of the event that a row is about: the `href` of its event link.
pub open spec fn row_url(cells: Seq<ElementRef>) -> Option<Seq<char>> {
    match row_shape(cells) {
        RowShape::StandardRow => selected_attribute_of(cells[0], SELECT_LINK@, "href"@),
        RowShape::CombinedEventRow => selected_attribute_of(cells[1], SELECT_LINK@, "href"@),
        RowShape::NoMatch => None,
    }
}

/// The cells of a row that follow its event cell.
pub open spec fn value_cells(cells: Seq<ElementRef>) -> Seq<ElementRef> {
    match row_shape(cells) {
        RowShape::StandardRow => cells.skip(1),
        RowShape::CombinedEventRow => cells.skip(2),
        RowShape::NoMatch => Seq::empty(),
    }
}

/// A result with one item, or with none.
pub open spec fn single(
    name: Seq<char>,
    url: Seq<char>,
    items: Seq<EventResultItem>,
) -> EventResultView {
    EventResultView { event_name: name, event_url: url, items }
}

/// The position in `text`, where it is a number.
pub open spec fn position_in(text: Option<Seq<char>>) -> Option<u16> {
    match text {
        Some(t) => u16_of(t),
        None => None,
    }
}

/// What a position cell gives: one result with the position, or nothing where
/// the cell holds no number.
pub open spec fn position_results(cell: ElementRef, name: Seq<char>, url: Seq<char>) -> Seq<
    EventResultView,
> {
    match position_in(first_text_of(cell)) {
        Some(position) => seq![single(name, url, seq![EventResultItem::Position { position }])],
        None => Seq::empty(),
    }
}

/// What a points cell gives first: one result, with the points where the cell
/// holds a number and with no item where it does not.
pub open spec fn points_result(cell: ElementRef, name: Seq<char>, url: Seq<char>) -> EventResultView {
    match position_in(first_text_of(cell)) {
        Some(amount) => single(name, url, seq![EventResultItem::Points { amount }]),
        None => single(name, url, Seq::empty()),
    }
}

/// What a cell gives as a measurement: one result, where the cell holds a
/// machine-readable value that is a decimal and a displayed value beside it.
pub open spec fn measurement_results(cell: ElementRef, name: Seq<char>, url: Seq<char>) -> Seq<
    EventResultView,
> {
    match (
        selected_attribute_of(cell, SELECT_SORT_DATA@, "data"@),
        first_selected(cell, SELECT_TIPPED@),
    ) {
        (Some(data), Some(shown)) => match decimal_of(data) {
            Some(value) => seq![
                single(name, url, seq![measurement_of(value, wind_speed_of(markup_of(shown)))]),
            ],
            None => Seq::empty(),
        },
        _ => Seq::empty(),
    }
}

/// What a value cell holds.
#[derive(Debug, Clone, Copy, PartialEq, Eq, Structural)]
pub enum CellRole {
    /// The position in the event.
    Position,
    /// The points for the event, in a combined event.
    Points,
    /// A measurement.
    Measurement,
}

/// What the cell at `index` of `count` value cells holds. The last cell of a
/// standard row holds the position. In a row of a combined event the last
/// cell holds the points and the one before it the position. Every other
/// cell holds a measurement.
pub open spec fn role_of(index: int, count: int, combined: bool) -> CellRole {
    if (index + 1 == count && !combined) || (index + 2 == count && combined) {
        CellRole::Position
    } else if index + 1 == count && combined {
        CellRole::Points
    } else {
        CellRole::Measurement
    }
}

/// What the value cell at `index` gives. A points cell is read as a
/// measurement too, after its points.
pub open spec fn cell_results(
    cell: ElementRef,
    index: int,
    count: int,
    combined: bool,
    name: Seq<char>,
    url: Seq<char>,
) -> Seq<EventResultView> {
    match role_of(index, count, combined) {
        CellRole::Position => position_results(cell, name, url),
        CellRole::Points => seq![points_result(cell, name, url)] + measurement_results(
            cell,
            name,
            url,
        ),
        CellRole::Measurement => measurement_results(cell, name, url),
    }
}

/// What the first `upto` value cells give, in order.
pub open spec fn cells_results(
    cells: Seq<ElementRef>,
    upto: int,
    combined: bool,
    name: Seq<char>,
    url: Seq<char>,
) -> Seq<EventResultView>
    decreases upto,
{
    if upto <= 0 {
        Seq::empty()
    } else {
        cells_results(cells, upto - 1, combined, name, url) + cell_results(
            cells[upto - 1],
            upto - 1,
            cells.len() as int,
            combined,
            name,
            url,
        )
    }
}

/// What one row of the results table gives: the results of its value cells,
/// under the event that the row links to. A row that names no event gives
/// nothing.
pub open spec fn row_results(row: ElementRef) -> Seq<EventResultView> {
    match selected_in(row, SELECT_CELL@) {
        Some(cells) => match row_url(cells) {
            Some(url) => match captured(REGEX_EVENT@, url, 1) {
                Some(name) => cells_results(
                    value_cells(cells),
                    value_cells(cells).len() as int,
                    row_shape(cells) is CombinedEventRow,
                    name,
                    url,
                ),
                None => Seq::empty(),
            },
            None => Seq::empty(),
        },
        None => Seq::empty(),
    }
}

/// What the rows `rows` give, in order.
pub open spec fn rows_results(rows: Seq<ElementRef>) -> Seq<EventResultView>
    decreases rows.len(),
{
    if rows.len() == 0 {
        Seq::empty()
    } else {
        rows_results(rows.drop_last()) + row_results(rows.last())
    }
}

/// The time of a timetable row: its sort key, where that is a count of seconds
/// that stands for a date and time.
pub open spec fn slot_time(cell: ElementRef) -> Option<i64> {
    match selected_attribute_of(cell, SELECT_SORT_DATA@, "data"@) {
        Some(data) => match i64_of(data) {
            Some(seconds) => if is_timestamp(seconds as int) {
                Some(seconds)
            } else {
                None
            },
            None => None,
        },
        None => None,
    }
}

/// The slot of one timetable row, or `None` for a row that lacks a part.
pub open spec fn timetable_slot(row: ElementRef) -> Option<TimetableEventView> {
    match selected_in(row, SELECT_CELL@) {
        Some(cells) => if cells.len() >= 3 {
            match (first_selected(cells[1], SELECT_LINK@), first_selected(cells[2], SELECT_LINK@)) {
                (Some(group), Some(event)) => match (
                    slot_time(cells[0]),
                    selected_attribute_of(cells[0], SELECT_LINK@, "href"@),
                    selected_text_of(group, SELECT_LONG@),
                    selected_text_of(event, SELECT_SHORT@),
                    selected_text_of(event, SELECT_LONG@),
                ) {
                    (
                        Some(time),
                        Some(startlist_url),
                        Some(start_group_name),
                        Some(event_short),
                        Some(event_name),
                    ) => Some(
                        TimetableEventView {
                            time,
                            startlist_url,
                            event_name,
                            event_short,
                            start_group_name,
                        },
                    ),
                    _ => None,
                },
                _ => None,
            }
        } else {
            None
        },
        None => None,
    }
}

/// The timetable of a page: one slot for each row that can be read.
pub open spec fn timetable_of(page: &Html) -> Seq<TimetableEventView> {
    match selected_in_page(page, SELECT_TIMETABLE@) {
        Some(rows) => rows.filter_map(|row: ElementRef| timetable_slot(row)),
        None => Seq::empty(),
    }
}

/// The athlete's name: the first text of the page title that is not blank,
/// trimmed, with single spaces for double ones.
pub open spec fn page_name(page: &Html) -> Option<Seq<char>> {
    match first_selected_in_page(page, SELECT_TITLE@) {
        Some(title) => match first_nonblank_of(texts_of(title)) {
            Some(name) => Some(replaced(name, "  "@, " "@)),
            None => None,
        },
        None => None,
    }
}

/// The number of the competition that the page belongs to.
pub open spec fn page_competition(page: &Html) -> Option<u32> {
    match first_selected_in_page(page, SELECT_COMPETITION@) {
        Some(link) => match attribute_of(link, "href"@) {
            Some(href) => match captured(REGEX_COMPETITION_ID@, href, 1) {
                Some(digits) => u32_of(digits),
                None => None,
            },
            None => None,
        },
        None => None,
    }
}

/// What the extractor makes of a results page.
///
/// A page without title, competition link, root element or results table has
/// not the expected structure. A results table with the marker of the other
/// format is not supported. Otherwise the page gives the athlete's name, the
/// competition, the results folded by event, the timetable and the
/// competitions taken part in.
pub open spec fn results_page(page: &Html) -> Result<AthleteEventResultsView, ExtractError> {
    match (page_name(page), page_competition(page), root_of(page)) {
        (Some(name), Some(competition_id), Some(root)) => match first_selected_in_page(
            page,
            SELECT_RESULTS@,
        ) {
            Some(table) => if has_occurrence(markup_of(table), UNSUPPORTED_MARKER@) {
                Err(ExtractError::UnsupportedPageVariant)
            } else {
                match selected_in(table, SELECT_ROW@) {
                    Some(rows) => Ok(
                        AthleteEventResultsView {
                            name,
                            competition_id,
                            results: folded(rows_results(rows)),
                            timetable: timetable_of(page),
                            participated_in: registrations_of(root),
                        },
                    ),
                    None => Err(ExtractError::StructureNotFound),
                }
            },
            None => Err(ExtractError::StructureNotFound),
        },
        _ => Err(ExtractError::StructureNotFound),
    }
}

/// Tells the shape of a row from its cells.
pub fn probe_row(cells: &Vec<ElementRef>) -> (r: RowShape)
    ensures
        r == row_shape(cells@),
{
    if cells.len() >= 1 && select_first(cells[0], SELECT_LINK).is_some() {
        RowShape::StandardRow
    } else if cells.len() >= 2 && select_first(cells[1], SELECT_LINK).is_some() {
        RowShape::CombinedEventRow
    } else {
        RowShape::NoMatch
    }
}

/// Tells what the value cell at `index` of `count` holds.
pub fn cell_role(index: usize, count: usize, combined: bool) -> (r: CellRole)
    ensures
        r == role_of(index as int, count as int, combined),
{
    let last = index < count && index == count - 1;
    let before_last = count >= 2 && index == count - 2;
    if (last && !combined) || (before_last && combined) {
        CellRole::Position
    } else if last && combined {
        CellRole::Points
    } else {
        CellRole::Measurement
    }
}

/// Reads a number of at most 65535 from the first text of a cell.
fn read_count(cell: ElementRef) -> (r: Option<u16>)
    ensures
        r == position_in(first_text_of(cell)),
{
    match first_text(cell) {
        Some(t) => parse_u16(t.as_str()),
        None => None,
    }
}

/// Makes a result for the event `name` at `url` with the given items.
fn make_result(name: &str, url: &str, items: Vec<EventResultItem>) -> (r: EventResult)
    ensures
        r.deep_view() == single(name@, url@, items@),
{
    EventResult { event_name: copy_of(name), event_url: copy_of(url), items }
}

/// Appends what a cell gives as a measurement.
fn read_measurement(out: &mut Vec<EventResult>, cell: ElementRef, name: &str, url: &str)
    ensures
        final(out).deep_view() == old(out).deep_view() + measurement_results(cell, name@, url@),
{
    let ghost before = out.deep_view();
    assert(before + Seq::<EventResultView>::empty() == before);
    let data = selected_attribute(cell, SELECT_SORT_DATA, "data");
    let shown = select_first(cell, SELECT_TIPPED);
    match (data, shown) {
        (Some(data), Some(shown)) => match Decimal::parse(data.as_str()) {
            Some(value) => {
                let shown_markup = markup(shown);
                let wind = wind_speed::parse(shown_markup.as_str());
                let mut items: Vec<EventResultItem> = Vec::new();
                items.push(classify_measurement(value, wind));
                let entry = make_result(name, url, items);
                let ghost view = entry.deep_view();
                out.push(entry);
                assert(out.deep_view() =~= before + seq![view]);
            },
            None => {},
        },
        _ => {},
    }
}

/// Appends what the value cell at `index` of `count` gives.
fn read_cell(
    out: &mut Vec<EventResult>,
    cell: ElementRef,
    index: usize,
    count: usize,
    combined: bool,
    name: &str,
    url: &str,
)
    requires
        index < count,
    ensures
        final(out).deep_view() == old(out).deep_view() + cell_results(
            cell,
            index as int,
            count as int,
            combined,
            name@,
            url@,
        ),
{
    let ghost before = out.deep_view();
    assert(before + Seq::<EventResultView>::empty() == before);
    match cell_role(index, count, combined) {
        CellRole::Position => {
            match read_count(cell) {
                Some(position) => {
                    let mut items: Vec<EventResultItem> = Vec::new();
                    items.push(EventResultItem::Position { position });
                    let entry = make_result(name, url, items);
                    let ghost view = entry.deep_view();
                    out.push(entry);
                    assert(out.deep_view() =~= before + seq![view]);
                },
                None => {},
            }
        },
        CellRole::Points => {
            let mut items: Vec<EventResultItem> = Vec::new();
            match read_count(cell) {
                Some(amount) => {
                    items.push(EventResultItem::Points { amount });
                },
                None => {},
            }
            let entry = make_result(name, url, items);
            let ghost view = entry.deep_view();
            out.push(entry);
            assert(out.deep_view() =~= before + seq![view]);
            read_measurement(out, cell, name, url);
            assert(out.deep_view() =~= before + (seq![view] + measurement_results(
                cell,
                name@,
                url@,
            )));
        },
        CellRole::Measurement => {
            read_measurement(out, cell, name, url);
        },
    }
}

/// Appends to `out` what one row of the results table gives.
pub fn read_row(out: &mut Vec<EventResult>, row: ElementRef)
    ensures
        final(out).deep_view() == old(out).deep_view() + row_results(row),
{
    let ghost before = out.deep_view();
    assert(before + Seq::<EventResultView>::empty() == before);
    let cells = match select(row, SELECT_CELL) {
        Some(v) => v,
        None => return ,
    };
    let shape = probe_row(&cells);
    let (link_cell, first_value): (usize, usize) = match shape {
        RowShape::StandardRow => (0, 1),
        RowShape::CombinedEventRow => (1, 2),
        RowShape::NoMatch => return ,
    };
    let url = match selected_attribute(cells[link_cell], SELECT_LINK, "href") {
        Some(v) => v,
        None => return ,
    };
    let name = match capture(REGEX_EVENT, url.as_str(), 1) {
        Some(v) => v,
        None => return ,
    };
    let combined = first_value == 2;
    let ghost values = value_cells(cells@);
    let count = cells.len() - first_value;
    let mut i: usize = 0;
    while i < count
        invariant
            i <= count,
            count == cells.len() - first_value,
            first_value <= cells.len(),
            values == cells@.skip(first_value as int),
            out.deep_view() == before + cells_results(values, i as int, combined, name@, url@),
        decreases count - i,
    {
        let ghost sofar = cells_results(values, i as int, combined, name@, url@);
        assert(values[i as int] == cells@[first_value + i]);
        read_cell(out, cells[first_value + i], i, count, combined, name.as_str(), url.as_str());
        assert(out.deep_view() =~= before + (sofar + cell_results(
            values[i as int],
            i as int,
            values.len() as int,
            combined,
            name@,
            url@,
        )));
        i += 1;
    }
}

/// Reads one row of the timetable.
pub fn parse_slot(row: ElementRef) -> (r: Result<TimetableEvent, ExtractError>)
    ensures
        match r {
            Ok(slot) => timetable_slot(row) == Some(slot.deep_view()),
            Err(e) => e == ExtractError::FieldParseError && timetable_slot(row) is None,
        },
{
    let cells = match select(row, SELECT_CELL) {
        Some(v) => v,
        None => return Err(ExtractError::FieldParseError),
    };
    if cells.len() < 3 {
        return Err(ExtractError::FieldParseError);
    }
    let group = select_first(cells[1], SELECT_LINK);
    let event = select_first(cells[2], SELECT_LINK);
    let (group, event) = match (group, event) {
        (Some(g), Some(e)) => (g, e),
        _ => return Err(ExtractError::FieldParseError),
    };
    let time = match selected_attribute(cells[0], SELECT_SORT_DATA, "data") {
        Some(data) => match parse_i64(data.as_str()) {
            Some(seconds) => if timestamp_exists(seconds) {
                Some(seconds)
            } else {
                None
            },
            None => None,
        },
        None => None,
    };
    let startlist_url = selected_attribute(cells[0], SELECT_LINK, "href");
    let start_group_name = selected_text(group, SELECT_LONG);
    let event_short = selected_text(event, SELECT_SHORT);
    let event_name = selected_text(event, SELECT_LONG);
    match (time, startlist_url, start_group_name, event_short, event_name) {
        (
            Some(time),
            Some(startlist_url),
            Some(start_group_name),
            Some(event_short),
            Some(event_name),
        ) => Ok(TimetableEvent { time, startlist_url, event_name, event_short, start_group_name }),
        _ => Err(ExtractError::FieldParseError),
    }
}

/// Reads the timetable of a page; a row that cannot be read is left out.
fn read_timetable(page: &Html) -> (r: Vec<TimetableEvent>)
    ensures
        r.deep_view() == timetable_of(page),
{
    let mut out: Vec<TimetableEvent> = Vec::new();
    let rows = match select_in_page(page, SELECT_TIMETABLE) {
        Some(v) => v,
        None => {
            assert(out.deep_view() == timetable_of(page));
            return out;
        },
    };
    let mut i: usize = 0;
    assert(rows@.take(0).filter_map(|row: ElementRef| timetable_slot(row)) == Seq::<
        TimetableEventView,
    >::empty());
    assert(out.deep_view() == Seq::<TimetableEventView>::empty());
    while i < rows.len()
        invariant
            i <= rows.len(),
            out.deep_view() == rows@.take(i as int).filter_map(
                |row: ElementRef| timetable_slot(row),
            ),
        decreases rows.len() - i,
    {
        let ghost before = out.deep_view();
        assert(rows@.take(i + 1).drop_last() == rows@.take(i as int));
        assert(rows@.take(i + 1).last() == rows@[i as int]);
        match parse_slot(rows[i]) {
            Ok(slot) => {
                let ghost view = slot.deep_view();
                out.push(slot);
                assert(out.deep_view() == before.push(view));
            },
            Err(_) => {},
        }
        i += 1;
    }
    assert(rows@.take(rows.len() as int) == rows@);
    out
}

/// Reads the athlete's name from the page title.
pub fn read_name(page: &Html) -> (r: Option<String>)
    ensures
        r.deep_view() == page_name(page),
{
    match select_first_in_page(page, SELECT_TITLE) {
        Some(title) => {
            let all = texts(title);
            match first_nonblank(&all) {
                Some(name) => Some(replace(name.as_str(), "  ", " ")),
                None => None,
            }
        },
        None => None,
    }
}

fn read_competition(page: &Html) -> (r: Option<u32>)
    ensures
        r == page_competition(page),
{
    match select_first_in_page(page, SELECT_COMPETITION) {
        Some(link) => match attribute(link, "href") {
            Some(href) => match capture(REGEX_COMPETITION_ID, href.as_str(), 1) {
                Some(digits) => parse_u32(digits.as_str()),
                None => None,
            },
            None => None,
        },
        None => None,
    }
}

/// Reads an athlete's results at one competition from the desktop page.
///
/// The results come folded by event: no two of them are for the same event
/// address.
pub fn parse(html: Html) -> (r: Result<AthleteEventResults, ExtractError>)
    ensures
        match r {
            Ok(found) => results_page(&html) == Ok::<AthleteEventResultsView, ExtractError>(
                found.deep_view(),
            ) && distinct_urls(found.results.deep_view()),
            Err(e) => results_page(&html) == Err::<AthleteEventResultsView, ExtractError>(e),
        },
{
    let name = read_name(&html);
    let competition = read_competition(&html);
    let root = root_element(&html);
    let (name, competition_id, root) = match (name, competition, root) {
        (Some(n), Some(c), Some(r)) => (n, c, r),
        _ => return Err(ExtractError::StructureNotFound),
    };
    let participated_in = match competition_registrations_list::parse(root) {
        Ok(v) => v,
        Err(e) => return Err(ExtractError::StructureNotFound),
    };
    let table = match select_first_in_page(&html, SELECT_RESULTS) {
        Some(v) => v,
        None => return Err(ExtractError::StructureNotFound),
    };
    let table_markup = markup(table);
    if contains(table_markup.as_str(), UNSUPPORTED_MARKER) {
        return Err(ExtractError::UnsupportedPageVariant);
    }
    let rows = match select(table, SELECT_ROW) {
        Some(v) => v,
        None => return Err(ExtractError::StructureNotFound),
    };
    let mut raw: Vec<EventResult> = Vec::new();
    let mut i: usize = 0;
    assert(rows@.take(0) == Seq::<ElementRef>::empty());
    assert(raw.deep_view() == Seq::<EventResultView>::empty());
    while i < rows.len()
        invariant
            i <= rows.len(),
            raw.deep_view() == rows_results(rows@.take(i as int)),
        decreases rows.len() - i,
    {
        assert(rows@.take(i + 1).drop_last() == rows@.take(i as int));
        assert(rows@.take(i + 1).last() == rows@[i as int]);
        read_row(&mut raw, rows[i]);
        i += 1;
    }
    assert(rows@.take(rows.len() as int) == rows@);
    let results = fold_results(&raw);
    let timetable = read_timetable(&html);
    Ok(AthleteEventResults { name, competition_id, results, timetable, participated_in })
}

} // verus!
