//! The request cache: what was extracted for a request, kept under a key that
//! describes the request, with the time at which it was stored.
//!
//! The cache never reads a clock. Every operation that needs the time takes it
//! as seconds since the Unix epoch, so an entry means the same before and
//! after a restart.

use crate::components::country::Country;
use crate::date::Date;
use crate::text::{chars_of, copy_of, lowercased, to_lowercase};
use dashmap::DashMap;
use vstd::prelude::*;

verus! {

pub const HOUR_IN_S: u64 = 3600;

#[verifier::external_type_specification]
#[verifier::external_body]
#[verifier::reject_recursive_types(K)]
#[verifier::reject_recursive_types(V)]
#[verifier::reject_recursive_types(S)]
pub struct ExDashMap<K, V, S>(dashmap::DashMap<K, V, S>);

/// A request by the parameters that determine its result.
#[derive(Debug, Clone, PartialEq, Eq, Hash)]
pub enum CachedRequest {
    SearchCompetitions { start: Date, end: Date, query: String, country: Country },
    GetCompetitionRegistrations { id: u32 },
    GetCompetitionResults { id: u32 },
    SearchAthletes { query: String },
    GetAthleteProfile { id: u32 },
}

/// A `CachedRequest` as contracts see it.
pub enum RequestKey {
    SearchCompetitions { start: Date, end: Date, query: Seq<char>, country: Country },
    GetCompetitionRegistrations { id: u32 },
    GetCompetitionResults { id: u32 },
    SearchAthletes { query: Seq<char> },
    GetAthleteProfile { id: u32 },
}

/// What the cache holds for one request: the payload and the time at which it
/// was stored, in seconds since the Unix epoch.
#[derive(Debug, Clone)]
pub struct CacheEntry {
    pub timestamp: u64,
    pub value: String,
}

/// A `CacheEntry` as contracts see it.
pub struct EntryView {
    pub timestamp: u64,
    pub value: Seq<char>,
}

/// All entries of a cache, as they are written to a durable store.
#[derive(Debug, Clone)]
pub struct DiskCache {
    pub cache: Vec<(CachedRequest, CacheEntry)>,
}

impl DeepView for CachedRequest {
    type V = RequestKey;

    open spec fn deep_view(&self) -> RequestKey {
        match *self {
            CachedRequest::SearchCompetitions { start, end, query, country } => {
                RequestKey::SearchCompetitions { start, end, query: query@, country }
            },
            CachedRequest::GetCompetitionRegistrations { id } => {
                RequestKey::GetCompetitionRegistrations { id }
            },
            CachedRequest::GetCompetitionResults { id } => RequestKey::GetCompetitionResults { id },
            CachedRequest::SearchAthletes { query } => RequestKey::SearchAthletes { query: query@ },
            CachedRequest::GetAthleteProfile { id } => RequestKey::GetAthleteProfile { id },
        }
    }
}

impl DeepView for CacheEntry {
    type V = EntryView;

    open spec fn deep_view(&self) -> EntryView {
        EntryView { timestamp: self.timestamp, value: self.value@ }
    }
}

/// The free text of a search as the key holds it: in lower case, and empty
/// where no text was given.
pub open spec fn normal_query(query: Option<Seq<char>>) -> Seq<char> {
    match query {
        Some(text) => if text.len() == 0 {
            Seq::empty()
        } else {
            lowercased(text)
        },
        None => Seq::empty(),
    }
}

/// The key of a search for competitions.
pub open spec fn search_key(
    start: Date,
    end: Date,
    query: Option<Seq<char>>,
    country: Country,
) -> RequestKey {
    RequestKey::SearchCompetitions { start, end, query: normal_query(query), country }
}

/// The number that a text stands for among `shards` numbers: the sum of its
/// characters, taken modulo `shards` at every step.
pub open spec fn text_number(text: Seq<char>, shards: nat) -> nat
    decreases text.len(),
{
    if text.len() == 0 || shards == 0 {
        0
    } else {
        (text_number(text.drop_last(), shards) + text.last() as u32 as nat) % shards
    }
}

/// The part of a cache split into `shards` parts that holds `key`. Requests
/// by number go by the number, searches by their text. A cache that is not
/// split has one part, 0.
pub open spec fn shard_of(key: RequestKey, shards: nat) -> nat {
    if shards == 0 {
        0
    } else {
        match key {
            RequestKey::SearchCompetitions { query, .. } => text_number(query, shards),
            RequestKey::GetCompetitionRegistrations { id } => id as nat % shards,
            RequestKey::GetCompetitionResults { id } => id as nat % shards,
            RequestKey::SearchAthletes { query } => text_number(query, shards),
            RequestKey::GetAthleteProfile { id } => id as nat % shards,
        }
    }
}

/// Every key has its part among the `shards` parts.
pub proof fn lemma_shard_is_in_range(key: RequestKey, shards: nat)
    requires
        shards > 0,
    ensures
        shard_of(key, shards) < shards,
{
    match key {
        RequestKey::SearchCompetitions { query, .. } => {
            lemma_text_number_is_in_range(query, shards);
        },
        RequestKey::SearchAthletes { query } => {
            lemma_text_number_is_in_range(query, shards);
        },
        _ => {},
    }
}

/// The number of a text among `shards` numbers is below `shards`.
pub proof fn lemma_text_number_is_in_range(text: Seq<char>, shards: nat)
    requires
        shards > 0,
    ensures
        text_number(text, shards) < shards,
    decreases text.len(),
{
}

/// For how many seconds a result for `key` may be served.
pub open spec fn ttl_of(key: RequestKey) -> nat {
    match key {
        RequestKey::GetCompetitionResults { .. } => 24 * 3600,
        _ => 12 * 3600,
    }
}

/// The age of an entry at the time `now`, in seconds. An entry from the
/// future has age 0.
pub open spec fn age_at(entry: EntryView, now: u64) -> nat {
    if now >= entry.timestamp {
        (now - entry.timestamp) as nat
    } else {
        0
    }
}

/// Whether an entry under `key` may still be served at the time `now`: its
/// age does not exceed the time to live of its kind. An entry that is exactly
/// as old as its time to live is still fresh.
pub open spec fn is_fresh(key: RequestKey, entry: EntryView, now: u64) -> bool {
    age_at(entry, now) <= ttl_of(key)
}

/// The entries after `value` has been stored under `key` at the time `now`.
pub open spec fn stored(
    entries: Map<RequestKey, EntryView>,
    key: RequestKey,
    value: Seq<char>,
    now: u64,
) -> Map<RequestKey, EntryView> {
    entries.insert(key, EntryView { timestamp: now, value })
}

/// What a lookup of `key` finds.
pub open spec fn found(entries: Map<RequestKey, EntryView>, key: RequestKey) -> Option<EntryView> {
    if entries.dom().contains(key) {
        Some(entries[key])
    } else {
        None
    }
}

/// The entries that a sweep at the time `now` leaves: those that are fresh.
/// It removes the entries whose age exceeds their time to live, and no other.
pub open spec fn swept(entries: Map<RequestKey, EntryView>, now: u64) -> Map<RequestKey, EntryView> {
    Map::new(
        |key: RequestKey| entries.dom().contains(key) && is_fresh(key, entries[key], now),
        |key: RequestKey| entries[key],
    )
}

/// The entries that a list of pairs stands for. Where a key occurs twice, the
/// later pair counts.
pub open spec fn entries_from(pairs: Seq<(RequestKey, EntryView)>) -> Map<RequestKey, EntryView>
    decreases pairs.len(),
{
    if pairs.len() == 0 {
        Map::empty()
    } else {
        entries_from(pairs.drop_last()).insert(pairs.last().0, pairs.last().1)
    }
}

/// The entries of a cache that holds nothing.
pub open spec fn no_entries() -> Map<RequestKey, EntryView> {
    Map::empty()
}

/// The first `i + 1` keys are the first `i` keys and the key at `i`.
pub proof fn lemma_one_more_key(keys: Seq<RequestKey>, i: int)
    requires
        0 <= i < keys.len(),
    ensures
        forall|key: RequestKey|
            #[trigger] keys.take(i + 1).contains(key) <==> (keys.take(i).contains(key) || key
                == keys[i]),
{
    let done = keys.take(i);
    let next = keys.take(i + 1);
    assert forall|key: RequestKey| next.contains(key) <==> (done.contains(key) || key
        == keys[i]) by {
        if done.contains(key) {
            let j = choose|j: int| 0 <= j < done.len() && done[j] == key;
            assert(next[j] == key);
        }
        if key == keys[i] {
            assert(next[i] == key);
        }
        if next.contains(key) {
            let j = choose|j: int| 0 <= j < next.len() && next[j] == key;
            if j < i {
                assert(done[j] == key);
            }
        }
    }
}

/// What a `DashMap` from requests to entries holds.
pub uninterp spec fn entries_of(map: DashMap<CachedRequest, CacheEntry>) -> Map<RequestKey, EntryView>;

/// Calls `DashMap::new`: the new map holds nothing.
#[verifier::external_body]
fn map_new() -> (r: DashMap<CachedRequest, CacheEntry>)
    ensures
        entries_of(r) == no_entries(),
{
    DashMap::new()
}

/// Calls `DashMap::get` and clones the value that it refers to.
#[verifier::external_body]
fn map_get(map: &DashMap<CachedRequest, CacheEntry>, key: &CachedRequest) -> (r: Option<CacheEntry>)
    ensures
        r.deep_view() == found(entries_of(*map), key.deep_view()),
{
    map.get(key).map(|entry| entry.value().clone())
}

/// Calls `DashMap::insert`, which replaces what the map held for the key.
#[verifier::external_body]
fn map_insert(map: &mut DashMap<CachedRequest, CacheEntry>, key: CachedRequest, value: CacheEntry)
    ensures
        entries_of(*final(map)) == entries_of(*old(map)).insert(key.deep_view(), value.deep_view()),
{
    map.insert(key, value);
}

/// Calls `DashMap::remove`.
#[verifier::external_body]
fn map_remove(map: &mut DashMap<CachedRequest, CacheEntry>, key: &CachedRequest)
    ensures
        entries_of(*final(map)) == entries_of(*old(map)).remove(key.deep_view()),
{
    map.remove(key);
}

/// Walks the map with `DashMap::iter` and clones each key. Every key of the
/// map comes once; nothing is claimed about their order.
#[verifier::external_body]
fn map_keys(map: &DashMap<CachedRequest, CacheEntry>) -> (r: Vec<CachedRequest>)
    ensures
        r.deep_view().no_duplicates(),
        r.deep_view().to_set() == entries_of(*map).dom(),
{
    map.iter().map(|entry| entry.key().clone()).collect()
}

/// The number that a text stands for among `shards` numbers.
fn number_of_text(text: &str, shards: usize) -> (r: usize)
    requires
        shards > 0,
    ensures
        r == text_number(text@, shards as nat),
{
    let chars = chars_of(text);
    let mut acc: usize = 0;
    let mut i: usize = 0;
    assert(chars@.take(0) == Seq::<char>::empty());
    while i < chars.len()
        invariant
            i <= chars.len(),
            shards > 0,
            acc == text_number(chars@.take(i as int), shards as nat),
        decreases chars.len() - i,
    {
        assert(chars@.take(i + 1).drop_last() == chars@.take(i as int));
        assert(chars@.take(i + 1).last() == chars@[i as int]);
        let c: char = chars[i];
        let code: u32 = c as u32;
        let sum: u128 = acc as u128 + code as u128;
        acc = (sum % (shards as u128)) as usize;
        i += 1;
    }
    assert(chars@.take(chars.len() as int) == chars@);
    acc
}

impl CachedRequest {
    /// The key of a search for competitions between two days in a country.
    /// The free text is held in lower case, and no text at all is the same as
    /// empty text.
    pub fn new_search_competitions(
        start: Date,
        end: Date,
        query: Option<String>,
        country: Country,
    ) -> (r: Self)
        ensures
            r.deep_view() == search_key(start, end, query.deep_view(), country),
    {
        let query = match query {
            Some(v) => {
                if v.as_str().is_empty() {
                    String::new()
                } else {
                    to_lowercase(v.as_str())
                }
            },
            None => String::new(),
        };
        CachedRequest::SearchCompetitions { start, end, query, country }
    }

    /// The key of the registrations of the competition `id`.
    pub fn new_get_registrations(id: u32) -> (r: Self)
        ensures
            r.deep_view() == (RequestKey::GetCompetitionRegistrations { id }),
    {
        CachedRequest::GetCompetitionRegistrations { id }
    }

    /// The key of the results of the participant `id`.
    pub fn new_get_results(id: u32) -> (r: Self)
        ensures
            r.deep_view() == (RequestKey::GetCompetitionResults { id }),
    {
        CachedRequest::GetCompetitionResults { id }
    }

    /// The key of a search for athletes. The text is held in lower case.
    pub fn new_search_athletes(query: String) -> (r: Self)
        ensures
            r.deep_view() == (RequestKey::SearchAthletes { query: lowercased(query@) }),
    {
        CachedRequest::SearchAthletes { query: to_lowercase(query.as_str()) }
    }

    /// The key of the profile of the athlete `id`.
    pub fn new_get_athlete_profile(id: u32) -> (r: Self)
        ensures
            r.deep_view() == (RequestKey::GetAthleteProfile { id }),
    {
        CachedRequest::GetAthleteProfile { id }
    }

    /// For how many seconds a result for this request may be served: a day
    /// for results, half a day for everything else.
    pub fn cache_duration(&self) -> (r: u64)
        ensures
            r == ttl_of(self.deep_view()),
    {
        match self {
            CachedRequest::SearchCompetitions { .. } => HOUR_IN_S * 12,
            CachedRequest::GetCompetitionRegistrations { .. } => HOUR_IN_S * 12,
            CachedRequest::GetCompetitionResults { .. } => HOUR_IN_S * 24,
            CachedRequest::SearchAthletes { .. } => HOUR_IN_S * 12,
            CachedRequest::GetAthleteProfile { .. } => HOUR_IN_S * 12,
        }
    }

    /// The part of a cache split into `shards` parts that holds this key, so
    /// that requests for different keys need not wait for one lock. The same
    /// key is always in the same part.
    pub fn shard(&self, shards: usize) -> (r: usize)
        ensures
            r == shard_of(self.deep_view(), shards as nat),
            shards > 0 ==> r < shards,
    {
        if shards == 0 {
            return 0;
        }
        proof {
            lemma_shard_is_in_range(self.deep_view(), shards as nat);
        }
        match self {
            CachedRequest::SearchCompetitions { query, .. } => number_of_text(
                query.as_str(),
                shards,
            ),
            CachedRequest::GetCompetitionRegistrations { id } => (*id as u64 % shards as u64) as usize,
            CachedRequest::GetCompetitionResults { id } => (*id as u64 % shards as u64) as usize,
            CachedRequest::SearchAthletes { query } => number_of_text(query.as_str(), shards),
            CachedRequest::GetAthleteProfile { id } => (*id as u64 % shards as u64) as usize,
        }
    }

    /// A copy of the key.
    pub fn copy(&self) -> (r: Self)
        ensures
            r.deep_view() == self.deep_view(),
    {
        match self {
            CachedRequest::SearchCompetitions { start, end, query, country } => {
                CachedRequest::SearchCompetitions {
                    start: *start,
                    end: *end,
                    query: copy_of(query.as_str()),
                    country: *country,
                }
            },
            CachedRequest::GetCompetitionRegistrations { id } => {
                CachedRequest::GetCompetitionRegistrations { id: *id }
            },
            CachedRequest::GetCompetitionResults { id } => {
                CachedRequest::GetCompetitionResults { id: *id }
            },
            CachedRequest::SearchAthletes { query } => CachedRequest::SearchAthletes {
                query: copy_of(query.as_str()),
            },
            CachedRequest::GetAthleteProfile { id } => CachedRequest::GetAthleteProfile { id: *id },
        }
    }
}

impl CacheEntry {
    /// The age of the entry at the time `now`, in seconds.
    pub fn age(&self, now: u64) -> (r: u64)
        ensures
            r == age_at(self.deep_view(), now),
    {
        if now >= self.timestamp {
            now - self.timestamp
        } else {
            0
        }
    }

    /// Whether the entry, stored under `key`, may still be served at `now`.
    pub fn is_valid(&self, key: &CachedRequest, now: u64) -> (r: bool)
        ensures
            r == is_fresh(key.deep_view(), self.deep_view(), now),
    {
        self.age(now) <= key.cache_duration()
    }
}

/// The request cache.
pub struct Cache {
    cached: DashMap<CachedRequest, CacheEntry>,
}

impl Cache {
    /// What the cache holds.
    pub closed spec fn entries(&self) -> Map<RequestKey, EntryView> {
        entries_of(self.cached)
    }

    /// An empty cache.
    pub fn new() -> (r: Self)
        ensures
            r.entries() == no_entries(),
    {
        Cache { cached: map_new() }
    }

    /// Removes every entry whose age at the time `now` exceeds the time to live
    /// of its kind.
    pub fn clean(&mut self, now: u64)
        ensures
            final(self).entries() == swept(old(self).entries(), now),
    {
        let ghost before = self.entries();
        let keys = map_keys(&self.cached);
        let ghost names = keys.deep_view();
        let mut i: usize = 0;
        assert(self.entries() =~= Map::new(
            |key: RequestKey|
                before.dom().contains(key) && (names.take(0).contains(key) ==> is_fresh(
                    key,
                    before[key],
                    now,
                )),
            |key: RequestKey| before[key],
        ));
        while i < keys.len()
            invariant
                i <= keys.len(),
                names == keys.deep_view(),
                names.no_duplicates(),
                names.to_set() == before.dom(),
                self.entries() == Map::new(
                    |key: RequestKey|
                        before.dom().contains(key) && (names.take(i as int).contains(key)
                            ==> is_fresh(key, before[key], now)),
                    |key: RequestKey| before[key],
                ),
            decreases keys.len() - i,
        {
            let ghost current = self.entries();
            let ghost name = names[i as int];
            assert(name == keys[i as int].deep_view());
            assert(names.contains(name));
            assert(before.dom().contains(name));
            assert(!names.take(i as int).contains(name)) by {
                let earlier = names.take(i as int);
                if earlier.contains(name) {
                    let j = choose|j: int| 0 <= j < earlier.len() && earlier[j] == name;
                    assert(names[j] == names[i as int]);
                }
            }
            assert(names.take(i + 1) == names.take(i as int).push(name));
            proof {
                lemma_one_more_key(names, i as int);
            }
            let expired = match map_get(&self.cached, &keys[i]) {
                Some(entry) => !entry.is_valid(&keys[i], now),
                None => false,
            };
            if expired {
                map_remove(&mut self.cached, &keys[i]);
            }
            assert(self.entries() =~= Map::new(
                |key: RequestKey|
                    before.dom().contains(key) && (names.take(i + 1).contains(key) ==> is_fresh(
                        key,
                        before[key],
                        now,
                    )),
                |key: RequestKey| before[key],
            ));
            i += 1;
        }
        assert(names.take(keys.len() as int) == names);
        assert forall|key: RequestKey| before.dom().contains(key) implies names.contains(key) by {
            assert(names.to_set().contains(key));
        }
        assert(self.entries() =~= swept(before, now));
    }

    /// What the cache holds for `query`, if anything.
    pub fn lookup(&self, query: &CachedRequest) -> (r: Option<CacheEntry>)
        ensures
            r.deep_view() == found(self.entries(), query.deep_view()),
    {
        map_get(&self.cached, query)
    }

    /// Stores `value` under `query` with the time `now`, in place of what the
    /// cache held for `query`.
    pub fn insert(&mut self, query: CachedRequest, value: String, now: u64)
        ensures
            final(self).entries() == stored(old(self).entries(), query.deep_view(), value@, now),
    {
        map_insert(&mut self.cached, query, CacheEntry { timestamp: now, value });
    }

    /// All entries of the cache, for a durable store.
    pub fn snapshot(&self) -> (r: DiskCache)
        ensures
            entries_from(r.cache.deep_view()) == self.entries(),
    {
        let ghost all = self.entries();
        let keys = map_keys(&self.cached);
        let ghost names = keys.deep_view();
        let mut out: Vec<(CachedRequest, CacheEntry)> = Vec::new();
        let mut i: usize = 0;
        assert(out.deep_view() =~= Seq::<(RequestKey, EntryView)>::empty());
        assert(entries_from(out.deep_view()) =~= Map::new(
            |key: RequestKey| names.take(0).contains(key),
            |key: RequestKey| all[key],
        ));
        while i < keys.len()
            invariant
                i <= keys.len(),
                all == self.entries(),
                names == keys.deep_view(),
                names.to_set() == all.dom(),
                entries_from(out.deep_view()) == Map::new(
                    |key: RequestKey| names.take(i as int).contains(key),
                    |key: RequestKey| all[key],
                ),
            decreases keys.len() - i,
        {
            let ghost name = names[i as int];
            let ghost pairs = out.deep_view();
            assert(name == keys[i as int].deep_view());
            assert(names.contains(name));
            assert(all.dom().contains(name)) by {
                assert(names.to_set().contains(name));
            }
            proof {
                lemma_one_more_key(names, i as int);
            }
            match map_get(&self.cached, &keys[i]) {
                Some(entry) => {
                    let pair = (keys[i].copy(), entry);
                    let ghost view = pair.deep_view();
                    assert(view == (name, all[name]));
                    out.push(pair);
                    assert(out.deep_view() =~= pairs.push(view));
                    assert(out.deep_view().drop_last() =~= pairs);
                    assert(entries_from(out.deep_view()) =~= Map::new(
                        |key: RequestKey| names.take(i + 1).contains(key),
                        |key: RequestKey| all[key],
                    ));
                },
                None => {},
            }
            i += 1;
        }
        assert(names.take(keys.len() as int) == names);
        assert forall|key: RequestKey| all.dom().contains(key) <==> names.contains(key) by {
            if all.dom().contains(key) {
                assert(names.to_set().contains(key));
            }
            if names.contains(key) {
                assert(names.to_set().contains(key));
            }
        }
        assert(entries_from(out.deep_view()) =~= all);
        DiskCache { cache: out }
    }

    /// A cache that holds the entries of `disk`, each with the time at which
    /// it was first stored.
    pub fn restore(disk: DiskCache) -> (r: Self)
        ensures
            r.entries() == entries_from(disk.cache.deep_view()),
    {
        let mut cache = Cache::new();
        let ghost pairs = disk.cache.deep_view();
        let mut i: usize = 0;
        assert(pairs.take(0) =~= Seq::<(RequestKey, EntryView)>::empty());
        while i < disk.cache.len()
            invariant
                i <= disk.cache.len(),
                pairs == disk.cache.deep_view(),
                cache.entries() == entries_from(pairs.take(i as int)),
            decreases disk.cache.len() - i,
        {
            assert(pairs.take(i + 1).drop_last() == pairs.take(i as int));
            assert(pairs.take(i + 1).last() == disk.cache[i as int].deep_view());
            let key = disk.cache[i].0.copy();
            let entry = CacheEntry {
                timestamp: disk.cache[i].1.timestamp,
                value: copy_of(disk.cache[i].1.value.as_str()),
            };
            map_insert(&mut cache.cached, key, entry);
            i += 1;
        }
        assert(pairs.take(disk.cache.len() as int) == pairs);
        cache
    }
}

/// No free text and empty free text give the same key.
pub proof fn lemma_absent_query_is_empty_query(start: Date, end: Date, country: Country)
    ensures
        search_key(start, end, None, country) == search_key(
            start,
            end,
            Some(Seq::empty()),
            country,
        ),
{
}

/// Two texts that are the same but for their case give the same key: the key
/// holds a text by its lower case alone.
pub proof fn lemma_query_case_is_folded(
    start: Date,
    end: Date,
    country: Country,
    one: Seq<char>,
    other: Seq<char>,
)
    requires
        one.len() > 0,
        other.len() > 0,
        lowercased(one) == lowercased(other),
    ensures
        search_key(start, end, Some(one), country) == search_key(start, end, Some(other), country),
{
}

/// What was stored is found at once, with the time of storing, so with age 0
/// at that time.
pub proof fn lemma_stored_is_found(
    entries: Map<RequestKey, EntryView>,
    key: RequestKey,
    value: Seq<char>,
    now: u64,
)
    ensures
        found(stored(entries, key, value, now), key) == Some(EntryView { timestamp: now, value }),
        age_at(EntryView { timestamp: now, value }, now) == 0,
{
}

/// Once the age of an entry exceeds its time to live, a sweep removes it: a
/// lookup after the sweep finds nothing. Up to and at that age the sweep
/// keeps it.
pub proof fn lemma_sweep_removes_expired(
    entries: Map<RequestKey, EntryView>,
    key: RequestKey,
    value: Seq<char>,
    stored_at: u64,
    now: u64,
)
    requires
        stored_at <= now,
    ensures
        now - stored_at > ttl_of(key) ==> found(
            swept(stored(entries, key, value, stored_at), now),
            key,
        ) is None,
        now - stored_at <= ttl_of(key) ==> found(
            swept(stored(entries, key, value, stored_at), now),
            key,
        ) == Some(EntryView { timestamp: stored_at, value }),
{
}

/// A sweep touches no entry that is fresh, and leaves nothing that is not.
pub proof fn lemma_sweep_keeps_fresh(entries: Map<RequestKey, EntryView>, key: RequestKey, now: u64)
    ensures
        found(swept(entries, now), key) == (match found(entries, key) {
            Some(entry) => if is_fresh(key, entry, now) {
                Some(entry)
            } else {
                None
            },
            None => None,
        }),
{
}

} // verus!
