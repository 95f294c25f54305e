//! The events of a competition, each named by the two numbers in the address
//! of its start list.

use crate::dom::{attribute, attribute_of, select_in_page, selected_in_page};
use crate::models::ExtractError;
use crate::number::{parse_u32, u32_of};
use crate::pattern::{all_captures, all_matches, group, group_of};
use scraper::{ElementRef, Html};
use vstd::prelude::*;

verus! {

/// Groups 1 and 2: the two numbers that name an event.
pub const REGEX_EVENT: &'static str =
    r#"https://www.athletics.app/wedstrijd/startlijst/([\d]+)/([\d]+)/"#;

pub const SELECT_LINK: &'static str = "tbody > tr > td > span + a";

/// One event of a competition.
#[derive(Debug, Clone, Copy, PartialEq, Eq, Structural, Hash)]
pub struct CompetitionEvent {
    pub id1: u32,
    pub id2: u32,
}

/// The event that the groups of one match name.
pub open spec fn event_of(groups: Seq<Option<Seq<char>>>) -> Option<CompetitionEvent> {
    match (group_of(groups, 1), group_of(groups, 2)) {
        (Some(first), Some(second)) => match (u32_of(first), u32_of(second)) {
            (Some(id1), Some(id2)) => Some(CompetitionEvent { id1, id2 }),
            _ => None,
        },
        _ => None,
    }
}

/// The events named in one address, in order.
pub open spec fn events_in(address: Seq<char>) -> Seq<CompetitionEvent> {
    match all_matches(REGEX_EVENT@, address) {
        Some(found) => found.filter_map(|groups: Seq<Option<Seq<char>>>| event_of(groups)),
        None => Seq::empty(),
    }
}

/// The events named by one link: those in its address, none for a link
/// without one.
pub open spec fn link_events(link: ElementRef) -> Seq<CompetitionEvent> {
    match attribute_of(link, "href"@) {
        Some(address) => events_in(address),
        None => Seq::empty(),
    }
}

/// The events named by the links `links`, in order, each as often as it is
/// named.
pub open spec fn links_events(links: Seq<ElementRef>) -> Seq<CompetitionEvent>
    decreases links.len(),
{
    if links.len() == 0 {
        Seq::empty()
    } else {
        links_events(links.drop_last()) + link_events(links.last())
    }
}

/// `events` without repetitions: each event once, in the order of first
/// appearance.
pub open spec fn distinct(events: Seq<CompetitionEvent>) -> Seq<CompetitionEvent>
    decreases events.len(),
{
    if events.len() == 0 {
        Seq::empty()
    } else if distinct(events.drop_last()).contains(events.last()) {
        distinct(events.drop_last())
    } else {
        distinct(events.drop_last()).push(events.last())
    }
}

/// What the extractor makes of a competition's timetable page.
pub open spec fn events_page(page: &Html) -> Seq<CompetitionEvent> {
    match selected_in_page(page, SELECT_LINK@) {
        Some(links) => distinct(links_events(links)),
        None => Seq::empty(),
    }
}

/// `distinct` holds exactly the events of its argument.
pub proof fn lemma_distinct_member(events: Seq<CompetitionEvent>, e: CompetitionEvent)
    ensures
        distinct(events).contains(e) <==> events.contains(e),
    decreases events.len(),
{
    if events.len() == 0 {
    } else {
        let rest = events.drop_last();
        let last = events.last();
        let inner = distinct(rest);
        let out = distinct(events);
        lemma_distinct_member(rest, e);
        if events.contains(e) {
            let i = choose|i: int| 0 <= i < events.len() && events[i] == e;
            if i < rest.len() {
                assert(rest[i] == e);
                assert(rest.contains(e));
                let k = choose|k: int| 0 <= k < inner.len() && inner[k] == e;
                assert(out[k] == e);
            } else {
                assert(e == last);
                if inner.contains(last) {
                    assert(out == inner);
                } else {
                    assert(out[out.len() - 1] == last);
                }
            }
            assert(out.contains(e));
        }
        if out.contains(e) {
            let k = choose|k: int| 0 <= k < out.len() && out[k] == e;
            if k < inner.len() {
                assert(inner[k] == e);
                assert(inner.contains(e));
                let i = choose|i: int| 0 <= i < rest.len() && rest[i] == e;
                assert(events[i] == e);
            } else {
                assert(events[events.len() - 1] == e);
            }
            assert(events.contains(e));
        }
    }
}

/// `distinct` holds no event twice.
pub proof fn lemma_distinct_no_duplicates(events: Seq<CompetitionEvent>)
    ensures
        distinct(events).no_duplicates(),
    decreases events.len(),
{
    if events.len() > 0 {
        lemma_distinct_no_duplicates(events.drop_last());
    }
}

/// Reads the event that the groups of one match name.
pub fn parse_event(groups: &Vec<Option<String>>) -> (r: Option<CompetitionEvent>)
    ensures
        r == event_of(groups.deep_view()),
{
    match (group(groups, 1), group(groups, 2)) {
        (Some(first), Some(second)) => match (
            parse_u32(first.as_str()),
            parse_u32(second.as_str()),
        ) {
            (Some(id1), Some(id2)) => Some(CompetitionEvent { id1, id2 }),
            _ => None,
        },
        _ => None,
    }
}

/// Adds `event` to `events` unless it is there.
pub fn insert_event(events: &mut Vec<CompetitionEvent>, event: CompetitionEvent)
    ensures
        final(events)@ == (if old(events)@.contains(event) {
            old(events)@
        } else {
            old(events)@.push(event)
        }),
{
    let mut i: usize = 0;
    while i < events.len()
        invariant
            i <= events.len(),
            events@ == old(events)@,
            forall|j: int| 0 <= j < i ==> events@[j] != event,
        decreases events.len() - i,
    {
        if events[i].id1 == event.id1 && events[i].id2 == event.id2 {
            assert(events@[i as int] == event);
            return ;
        }
        i += 1;
    }
    events.push(event);
}

/// Adds the events named in `address` to `events`, each unless it is there.
fn insert_events(events: &mut Vec<CompetitionEvent>, address: &str, Ghost(seen): Ghost<
    Seq<CompetitionEvent>,
>)
    requires
        old(events)@ == distinct(seen),
    ensures
        final(events)@ == distinct(seen + events_in(address@)),
{
    assert(seen + Seq::<CompetitionEvent>::empty() == seen);
    let found = match all_captures(REGEX_EVENT, address) {
        Some(v) => v,
        None => return ,
    };
    let ghost all = found.deep_view();
    let mut i: usize = 0;
    assert(all.take(0).filter_map(|groups: Seq<Option<Seq<char>>>| event_of(groups)) == Seq::<
        CompetitionEvent,
    >::empty());
    while i < found.len()
        invariant
            i <= found.len(),
            all == found.deep_view(),
            events@ == distinct(
                seen + all.take(i as int).filter_map(
                    |groups: Seq<Option<Seq<char>>>| event_of(groups),
                ),
            ),
        decreases found.len() - i,
    {
        let ghost sofar = all.take(i as int).filter_map(
            |groups: Seq<Option<Seq<char>>>| event_of(groups),
        );
        assert(all.take(i + 1).drop_last() == all.take(i as int));
        assert(all.take(i + 1).last() == found[i as int].deep_view());
        let ghost next = all.take(i + 1).filter_map(
            |groups: Seq<Option<Seq<char>>>| event_of(groups),
        );
        match parse_event(&found[i]) {
            Some(event) => {
                assert(next == sofar.push(event));
                assert(seen + next == (seen + sofar).push(event));
                assert((seen + next).drop_last() == seen + sofar);
                assert((seen + next).last() == event);
                insert_event(events, event);
            },
            None => {
                assert(next == sofar);
            },
        }
        i += 1;
    }
    assert(all.take(found.len() as int) == all);
}

/// Reads the events of a competition from its timetable page: each event
/// once, in the order in which the page first names it.
pub fn parse(html: Html) -> (r: Result<Vec<CompetitionEvent>, ExtractError>)
    ensures
        r matches Ok(events) && events@ == events_page(&html) && events@.no_duplicates(),
{
    let mut out: Vec<CompetitionEvent> = Vec::new();
    let links = match select_in_page(&html, SELECT_LINK) {
        Some(v) => v,
        None => return Ok(out),
    };
    let mut i: usize = 0;
    assert(links@.take(0) == Seq::<ElementRef>::empty());
    while i < links.len()
        invariant
            i <= links.len(),
            out@ == distinct(links_events(links@.take(i as int))),
        decreases links.len() - i,
    {
        let ghost seen = links_events(links@.take(i as int));
        assert(links@.take(i + 1).drop_last() == links@.take(i as int));
        assert(links@.take(i + 1).last() == links@[i as int]);
        assert(seen + Seq::<CompetitionEvent>::empty() == seen);
        match attribute(links[i], "href") {
            Some(address) => {
                insert_events(&mut out, address.as_str(), Ghost(seen));
            },
            None => {},
        }
        i += 1;
    }
    assert(links@.take(links.len() as int) == links@);
    proof {
        lemma_distinct_no_duplicates(links_events(links@));
    }
    Ok(out)
}

} // verus!
