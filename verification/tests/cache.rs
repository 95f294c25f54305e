use atletiek_nu_api::cache::{Cache, CacheEntry, CachedRequest, DiskCache};
use atletiek_nu_api::date::Date;
use atletiek_nu_api::Country;

const HOUR: u64 = 3600;

fn ymd(year: i32, month: u32, day: u32) -> Date {
    Date { year, month, day }
}

fn search(query: Option<&str>) -> CachedRequest {
    CachedRequest::new_search_competitions(
        ymd(2023, 1, 1),
        ymd(2023, 12, 1),
        query.map(|q| q.to_string()),
        Country::NL,
    )
}

#[test]
fn what_was_inserted_is_found_at_once() {
    let mut cache = Cache::new();
    let key = CachedRequest::new_get_registrations(38436);
    assert!(cache.lookup(&key).is_none());
    cache.insert(key.clone(), "payload".to_string(), 1_700_000_000);
    let entry = cache.lookup(&key).unwrap();
    assert_eq!(entry.value, "payload");
    assert_eq!(entry.timestamp, 1_700_000_000);
    assert_eq!(entry.age(1_700_000_000), 0);
    assert_eq!(entry.age(1_700_000_007), 7);
}

#[test]
fn an_insert_replaces_the_entry() {
    let mut cache = Cache::new();
    let key = CachedRequest::new_get_athlete_profile(1);
    cache.insert(key.clone(), "old".to_string(), 10);
    cache.insert(key.clone(), "new".to_string(), 20);
    let entry = cache.lookup(&key).unwrap();
    assert_eq!(entry.value, "new");
    assert_eq!(entry.timestamp, 20);
    assert_eq!(cache.snapshot().cache.len(), 1);
}

#[test]
fn a_sweep_removes_what_has_expired() {
    let mut cache = Cache::new();
    let key = CachedRequest::new_get_registrations(1);
    cache.insert(key.clone(), "v".to_string(), 1000);
    cache.clean(1000 + 12 * HOUR - 1);
    assert!(cache.lookup(&key).is_some());
    // An entry as old as its time to live has not exceeded it.
    cache.clean(1000 + 12 * HOUR);
    assert!(cache.lookup(&key).is_some());
    cache.clean(1000 + 12 * HOUR + 1);
    assert!(cache.lookup(&key).is_none());
}

#[test]
fn each_kind_of_request_has_its_time_to_live() {
    assert_eq!(search(None).cache_duration(), 12 * HOUR);
    assert_eq!(CachedRequest::new_get_registrations(1).cache_duration(), 12 * HOUR);
    assert_eq!(CachedRequest::new_get_results(1).cache_duration(), 24 * HOUR);
    assert_eq!(CachedRequest::new_search_athletes("x".to_string()).cache_duration(), 12 * HOUR);
    assert_eq!(CachedRequest::new_get_athlete_profile(1).cache_duration(), 12 * HOUR);
}

#[test]
fn a_sweep_goes_by_the_kind_of_each_entry() {
    let mut cache = Cache::new();
    let keys = vec![
        search(Some("x")),
        CachedRequest::new_get_registrations(1),
        CachedRequest::new_get_results(1),
        CachedRequest::new_search_athletes("bol".to_string()),
        CachedRequest::new_get_athlete_profile(1),
    ];
    for key in &keys {
        cache.insert(key.clone(), "v".to_string(), 0);
    }
    cache.insert(CachedRequest::new_get_registrations(2), "late".to_string(), 10 * HOUR);
    cache.clean(13 * HOUR);
    assert!(cache.lookup(&keys[0]).is_none());
    assert!(cache.lookup(&keys[1]).is_none());
    assert!(cache.lookup(&keys[2]).is_some());
    assert!(cache.lookup(&keys[3]).is_none());
    assert!(cache.lookup(&keys[4]).is_none());
    assert!(cache.lookup(&CachedRequest::new_get_registrations(2)).is_some());
    cache.clean(24 * HOUR);
    assert!(cache.lookup(&keys[2]).is_some());
    cache.clean(24 * HOUR + 1);
    assert!(cache.lookup(&keys[2]).is_none());
    assert!(cache.lookup(&CachedRequest::new_get_registrations(2)).is_none());
    assert!(cache.snapshot().cache.is_empty());
}

#[test]
fn an_entry_from_the_future_is_fresh() {
    let mut cache = Cache::new();
    let key = CachedRequest::new_get_results(1);
    cache.insert(key.clone(), "v".to_string(), 5000);
    cache.clean(10);
    assert_eq!(cache.lookup(&key).unwrap().age(10), 0);
}

#[test]
fn no_query_and_an_empty_query_give_the_same_key() {
    assert!(search(None) == search(Some("")));
    let mut cache = Cache::new();
    cache.insert(search(None), "v".to_string(), 0);
    assert_eq!(cache.lookup(&search(Some(""))).unwrap().value, "v");
}

#[test]
fn queries_are_held_in_lower_case() {
    assert!(search(Some("Foo")) == search(Some("foo")));
    assert!(search(Some("FOO")) == search(Some("foo")));
    assert!(search(Some("foo")) != search(Some("bar")));
    assert!(search(Some("foo")) != search(None));
    assert!(
        CachedRequest::new_search_athletes("Femke BOL".to_string())
            == CachedRequest::new_search_athletes("femke bol".to_string())
    );
    match search(Some("Scopias")) {
        CachedRequest::SearchCompetitions { query, .. } => assert_eq!(query, "scopias"),
        _ => panic!("not a search"),
    }
}

#[test]
fn keys_differ_by_kind_and_by_parameter() {
    assert!(CachedRequest::new_get_registrations(1) != CachedRequest::new_get_results(1));
    assert!(CachedRequest::new_get_registrations(1) != CachedRequest::new_get_registrations(2));
    assert!(CachedRequest::new_get_results(1) != CachedRequest::new_get_athlete_profile(1));
    let other_country = CachedRequest::new_search_competitions(
        ymd(2023, 1, 1),
        ymd(2023, 12, 1),
        None,
        Country::BE,
    );
    assert!(search(None) != other_country);
    let other_day = CachedRequest::new_search_competitions(
        ymd(2023, 1, 2),
        ymd(2023, 12, 1),
        None,
        Country::NL,
    );
    assert!(search(None) != other_day);
}

#[test]
fn a_copy_of_a_key_is_the_same_key() {
    for key in [
        search(Some("x")),
        CachedRequest::new_get_registrations(1),
        CachedRequest::new_get_results(2),
        CachedRequest::new_search_athletes("bol".to_string()),
        CachedRequest::new_get_athlete_profile(3),
    ] {
        assert!(key.copy() == key);
    }
}

#[test]
fn a_restored_cache_holds_what_was_saved() {
    let mut cache = Cache::new();
    cache.insert(search(Some("x")), "a".to_string(), 100);
    cache.insert(CachedRequest::new_get_results(7), "b".to_string(), 200);
    cache.insert(CachedRequest::new_get_athlete_profile(8), "c".to_string(), 300);
    let disk = cache.snapshot();
    assert_eq!(disk.cache.len(), 3);
    let restored = Cache::restore(disk);
    let a = restored.lookup(&search(Some("X"))).unwrap();
    assert_eq!((a.value.as_str(), a.timestamp), ("a", 100));
    let b = restored.lookup(&CachedRequest::new_get_results(7)).unwrap();
    assert_eq!((b.value.as_str(), b.timestamp), ("b", 200));
    let c = restored.lookup(&CachedRequest::new_get_athlete_profile(8)).unwrap();
    assert_eq!((c.value.as_str(), c.timestamp), ("c", 300));
    assert!(restored.lookup(&CachedRequest::new_get_results(8)).is_none());
}

#[test]
fn a_later_pair_of_a_saved_cache_counts() {
    let key = CachedRequest::new_get_results(7);
    let disk = DiskCache {
        cache: vec![
            (key.clone(), CacheEntry { timestamp: 1, value: "first".to_string() }),
            (key.clone(), CacheEntry { timestamp: 2, value: "second".to_string() }),
        ],
    };
    let restored = Cache::restore(disk);
    assert_eq!(restored.lookup(&key).unwrap().value, "second");
    assert!(Cache::restore(DiskCache { cache: Vec::new() }).snapshot().cache.is_empty());
}

#[test]
fn an_entry_tells_whether_it_is_fresh() {
    let entry = CacheEntry { timestamp: 1000, value: String::new() };
    let results = CachedRequest::new_get_results(1);
    let profile = CachedRequest::new_get_athlete_profile(1);
    assert!(entry.is_valid(&results, 1000 + 24 * HOUR));
    assert!(!entry.is_valid(&results, 1000 + 24 * HOUR + 1));
    assert!(entry.is_valid(&profile, 1000 + 12 * HOUR));
    assert!(!entry.is_valid(&profile, 1000 + 12 * HOUR + 1));
    assert!(entry.is_valid(&profile, 0));
}

#[test]
fn results_and_registrations_of_one_age_are_swept_by_their_kind() {
    let mut cache = Cache::new();
    let results = CachedRequest::new_get_results(1);
    let registrations = CachedRequest::new_get_registrations(1);
    cache.insert(results.clone(), "r".to_string(), 0);
    cache.insert(registrations.clone(), "p".to_string(), 0);
    cache.clean(13 * HOUR);
    assert!(cache.lookup(&results).is_some());
    assert!(cache.lookup(&registrations).is_none());
}

#[test]
fn every_key_has_one_part_of_a_split_cache() {
    let keys = vec![
        search(Some("scopias")),
        search(None),
        CachedRequest::new_get_registrations(39657),
        CachedRequest::new_get_results(1793090),
        CachedRequest::new_search_athletes("Femke Bol".to_string()),
        CachedRequest::new_get_athlete_profile(921275),
    ];
    for key in &keys {
        for shards in [1usize, 2, 16, 1000] {
            let part = key.shard(shards);
            assert!(part < shards);
            assert_eq!(part, key.copy().shard(shards));
        }
        assert_eq!(key.shard(0), 0);
    }
    assert_eq!(CachedRequest::new_get_registrations(39657).shard(16), 39657 % 16);
    assert_eq!(CachedRequest::new_get_results(17).shard(16), 1);
    assert_eq!(CachedRequest::new_get_athlete_profile(u32::MAX).shard(usize::MAX), u32::MAX as usize);
    assert_eq!(search(None).shard(16), 0);
    // "ab" is 97 + 98 = 195.
    assert_eq!(CachedRequest::new_search_athletes("AB".to_string()).shard(16), 195 % 16);
    assert_eq!(CachedRequest::new_search_athletes("ab".to_string()).shard(1000), 195);
    assert_eq!(CachedRequest::new_search_athletes("ab".to_string()).shard(100), 95);
}
