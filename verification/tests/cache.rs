use code_usage::usage::cache::LimitsCache;
use std::cell::Cell;
use std::time::Duration;

#[test]
fn refresh_fetches_once_within_the_ttl() {
    let mut cache: LimitsCache<u32> = LimitsCache::new();
    let calls = Cell::new(0);
    let fetch = || {
        calls.set(calls.get() + 1);
        Some(7)
    };

    assert_eq!(cache.refresh(Duration::from_secs(300), fetch), Some(7));
    assert_eq!(cache.refresh(Duration::from_secs(300), fetch), Some(7));
    assert_eq!(calls.get(), 1, "second refresh is served from the cache");
}

#[test]
fn refresh_keeps_the_last_value_when_fetch_fails() {
    let mut cache: LimitsCache<u32> = LimitsCache::new();
    assert_eq!(cache.refresh(Duration::ZERO, || None), None);

    assert_eq!(cache.refresh(Duration::from_secs(300), || Some(3)), Some(3));
    assert_eq!(cache.refresh(Duration::ZERO, || None), Some(3));
}

#[test]
fn last_returns_the_stored_value() {
    let mut cache: LimitsCache<u32> = LimitsCache::new();
    assert_eq!(cache.last(), None);

    cache.refresh(Duration::from_secs(300), || Some(9));
    assert_eq!(cache.last(), Some(9));
}

#[test]
fn forget_makes_the_next_refresh_fetch_again() {
    let mut cache: LimitsCache<u32> = LimitsCache::new();
    let calls = Cell::new(0);
    let fetch = || {
        calls.set(calls.get() + 1);
        Some(calls.get())
    };

    cache.refresh(Duration::from_secs(300), fetch);
    cache.forget();

    assert_eq!(cache.last(), None);
    assert_eq!(cache.refresh(Duration::from_secs(300), fetch), Some(2));
    assert_eq!(calls.get(), 2);
}

#[test]
fn an_expired_value_is_fetched_again_and_replaced() {
    let mut cache: LimitsCache<u32> = LimitsCache::default();
    assert_eq!(cache.refresh(Duration::ZERO, || Some(1)), Some(1));
    assert_eq!(cache.refresh(Duration::ZERO, || Some(2)), Some(2));
    assert_eq!(cache.last(), Some(2));
}

#[test]
fn a_fresh_value_is_served_even_when_fetch_would_fail() {
    let mut cache: LimitsCache<u32> = LimitsCache::new();
    assert_eq!(cache.refresh(Duration::from_secs(300), || Some(5)), Some(5));
    assert_eq!(cache.refresh(Duration::from_secs(300), || None), Some(5));
}

#[test]
fn a_fresh_value_is_served_without_a_fetch() {
    let mut cache: LimitsCache<u32> = LimitsCache::new();
    let calls = Cell::new(0);
    let fetch = || {
        calls.set(calls.get() + 1);
        Some(calls.get())
    };
    assert_eq!(cache.serve_or_fetch(0, 300, fetch), Some(1), "nothing stored: fetched");
    assert_eq!(cache.serve_or_fetch(299, 300, fetch), Some(1), "fresh: served");
    assert_eq!(calls.get(), 1);
    assert_eq!(cache.serve_or_fetch(300, 300, fetch), Some(2), "as old as the limit: fetched again");
    assert_eq!(calls.get(), 2);
    assert_eq!(cache.serve_or_fetch(301, 300, || None), Some(2), "a failed fetch keeps the value");
}
