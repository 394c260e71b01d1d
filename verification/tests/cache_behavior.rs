use kawaii_cache::cache::{default_ttl, CoalescingCache, ResourceKind, TtlConfig};
use kawaii_cache::error::KawaiiError;
use kawaii_cache::keys::{
    episode_key, episode_key_from_query, episode_server_key, episode_server_key_from_query,
    home_key, id_key, id_page_key, page_key, SearchQuery,
};
use kawaii_cache::table::CacheStep;
use std::sync::Arc;

fn query(page: Option<u32>, ep: Option<u32>) -> SearchQuery {
    SearchQuery { page, ep, server: None, category: None }
}

#[test]
fn coalescing_two_concurrent_searches() {
    // Two callers ask for the same search page at the same instant with no
    // existing entry: exactly one is told to fetch, the other waits, and both
    // then read the identical payload.
    let mut cache: CoalescingCache<u64> = CoalescingCache::new();
    let kind = ResourceKind::SearchResults;
    let key_a = id_page_key(String::from("naruto"), 1);
    let key_b = id_page_key(String::from("naruto"), 1);

    let first = cache.poll(kind, &key_a, 100);
    let second = cache.poll(kind, &key_b, 100);
    assert_eq!(first, CacheStep::MustFetch);
    assert_eq!(second, CacheStep::Wait);

    cache.complete_success(kind, key_a.duplicate(), 777, 100);
    assert_eq!(cache.lookup(kind, &key_a, 100), Some(&777));
    assert_eq!(cache.lookup(kind, &key_b, 100), Some(&777));
}

#[test]
fn coalescing_third_caller_also_waits() {
    let mut cache: CoalescingCache<u64> = CoalescingCache::new();
    let kind = ResourceKind::Home;
    let key = home_key();

    assert_eq!(cache.poll(kind, &key, 0), CacheStep::MustFetch);
    assert_eq!(cache.poll(kind, &key, 1), CacheStep::Wait);
    assert_eq!(cache.poll(kind, &key, 2), CacheStep::Wait);
    assert!(cache.is_inflight(kind, &key));

    cache.complete_success(kind, key.duplicate(), 5, 2);
    assert!(!cache.is_inflight(kind, &key));
    assert_eq!(cache.poll(kind, &key, 3), CacheStep::Hit);
}

#[test]
fn failure_is_not_cached() {
    // A transient provider failure for a server list: the initiating caller
    // and a coalesced caller both see the failure path, and the table keeps
    // no entry for the key afterward.
    let mut cache: CoalescingCache<u64> = CoalescingCache::new();
    let kind = ResourceKind::ServerList;
    let key = episode_key(String::from("ep1"), 5);

    assert_eq!(cache.poll(kind, &key, 10), CacheStep::MustFetch);
    assert_eq!(cache.poll(kind, &key, 10), CacheStep::Wait);

    cache.complete_failure(kind, &key);
    assert_eq!(cache.lookup(kind, &key, 10), None);
    assert!(!cache.is_inflight(kind, &key));

    // The very next call triggers a brand-new fetch attempt.
    assert_eq!(cache.poll(kind, &key, 10), CacheStep::MustFetch);
}

#[test]
fn episodes_ttl_scenario() {
    // Episodes list cached at t=0 under the 2 hour TTL: a hit at 3600s, a
    // miss with a fresh fetch at 7201s.
    let mut cache: CoalescingCache<u64> = CoalescingCache::new();
    let kind = ResourceKind::EpisodesList;
    let key = id_key(String::from("one-piece-100"));

    assert_eq!(cache.poll(kind, &key, 0), CacheStep::MustFetch);
    cache.complete_success(kind, key.duplicate(), 1122, 0);

    assert_eq!(cache.lookup(kind, &key, 3600), Some(&1122));
    assert_eq!(cache.poll(kind, &key, 3600), CacheStep::Hit);

    assert_eq!(cache.lookup(kind, &key, 7201), None);
    assert_eq!(cache.poll(kind, &key, 7201), CacheStep::MustFetch);
}

#[test]
fn ttl_boundary_is_exclusive() {
    // An entry inserted at T with TTL D is a hit at T + D - 1 and a miss at
    // exactly T + D.
    let mut cache: CoalescingCache<u64> = CoalescingCache::new();
    let kind = ResourceKind::EpisodesList;
    let key = id_key(String::from("boundary"));

    cache.insert(kind, key.duplicate(), 9, 1000);
    assert_eq!(cache.lookup(kind, &key, 1000), Some(&9));
    assert_eq!(cache.lookup(kind, &key, 1000 + 7199), Some(&9));
    assert_eq!(cache.lookup(kind, &key, 1000 + 7200), None);
    // A time before the insertion is not a hit either.
    assert_eq!(cache.lookup(kind, &key, 999), None);
}

#[test]
fn per_kind_isolation() {
    // The same literal key in the about-item and category-page tables is two
    // independent entries: a store or expiry in one never affects the other.
    let mut cache: CoalescingCache<u64> = CoalescingCache::new();
    let key = id_key(String::from("one-piece-100"));

    cache.insert(ResourceKind::AboutItem, key.duplicate(), 1, 0);
    assert_eq!(cache.lookup(ResourceKind::AboutItem, &key, 0), Some(&1));
    assert_eq!(cache.lookup(ResourceKind::CategoryPage, &key, 0), None);

    cache.insert(ResourceKind::CategoryPage, key.duplicate(), 2, 0);
    assert_eq!(cache.lookup(ResourceKind::AboutItem, &key, 0), Some(&1));
    assert_eq!(cache.lookup(ResourceKind::CategoryPage, &key, 0), Some(&2));

    // Failing an in-flight fetch in one kind leaves the other kind's entry.
    assert_eq!(cache.poll(ResourceKind::CategoryPage, &key, 90000), CacheStep::MustFetch);
    cache.complete_failure(ResourceKind::CategoryPage, &key);
    assert_eq!(cache.lookup(ResourceKind::AboutItem, &key, 100), Some(&1));
}

#[test]
fn insert_replaces_entry() {
    let mut cache: CoalescingCache<u64> = CoalescingCache::new();
    let kind = ResourceKind::AtozPage;
    let key = page_key(3);

    cache.insert(kind, key.duplicate(), 10, 0);
    cache.insert(kind, key.duplicate(), 20, 5);
    assert_eq!(cache.lookup(kind, &key, 5), Some(&20));
}

#[test]
fn ttl_overrides_per_table() {
    let mut cache: CoalescingCache<u64> = CoalescingCache::with_ttls(
        TtlConfig {
            home: 10,
            about_item: 20,
            episodes_list: 30,
            category_page: 40,
            search_results: 50,
            atoz_page: 60,
            server_list: 70,
            streaming_links: 80,
        },
    );
    let key = home_key();
    cache.insert(ResourceKind::Home, key.duplicate(), 1, 0);
    assert_eq!(cache.lookup(ResourceKind::Home, &key, 9), Some(&1));
    assert_eq!(cache.lookup(ResourceKind::Home, &key, 10), None);
}

#[test]
fn default_ttls_match_policy() {
    assert_eq!(default_ttl(ResourceKind::Home), 86400);
    assert_eq!(default_ttl(ResourceKind::AboutItem), 86400);
    assert_eq!(default_ttl(ResourceKind::EpisodesList), 7200);
    assert_eq!(default_ttl(ResourceKind::CategoryPage), 86400);
    assert_eq!(default_ttl(ResourceKind::SearchResults), 2678400);
    assert_eq!(default_ttl(ResourceKind::AtozPage), 86400);
    assert_eq!(default_ttl(ResourceKind::ServerList), 2678400);
    assert_eq!(default_ttl(ResourceKind::StreamingLinks), 2678400);
}

#[test]
fn keys_are_idempotent() {
    // Identical parameters give an equal key, however often it is built.
    let a = id_page_key(String::from("one-piece-100"), 2);
    let b = id_page_key(String::from("one-piece-100"), 2);
    assert!(a.key_eq(&b));
    assert!(b.key_eq(&a));
    assert!(a.key_eq(&a.duplicate()));

    let c = id_page_key(String::from("one-piece-100"), 3);
    assert!(!a.key_eq(&c));
    let d = id_key(String::from("one-piece-100"));
    assert!(!a.key_eq(&d));
}

#[test]
fn episode_keys_do_not_collide() {
    // Structured episode keys: an id that happens to contain separator text
    // cannot collide with a different episode reference.
    let a = episode_key(String::from("ep1"), 5);
    let b = episode_key(String::from("ep1"), 6);
    assert!(!a.key_eq(&b));

    let c = episode_key(String::from("ep1?ep=5"), 7);
    let d = episode_key(String::from("ep1"), 5);
    assert!(!c.key_eq(&d));

    let e = id_key(String::from("ep1?ep=5"));
    assert!(!e.key_eq(&d));
}

#[test]
fn page_defaults_to_one() {
    assert_eq!(query(None, None).page_or_default(), 1);
    assert_eq!(query(Some(4), None).page_or_default(), 4);
}

#[test]
fn missing_episode_selector_is_not_found() {
    let r = episode_key_from_query(String::from("ep1"), &query(None, None));
    match r {
        Ok(_) => panic!("a query without an episode selector must be rejected"),
        Err(e) => assert_eq!(e.status_code(), 404),
    }

    let r = episode_key_from_query(String::from("ep1"), &query(None, Some(5)));
    match r {
        Ok(k) => assert!(k.key_eq(&episode_key(String::from("ep1"), 5))),
        Err(_) => panic!("a query with an episode selector must yield a key"),
    }
}

#[test]
fn error_status_codes() {
    assert_eq!(KawaiiError::NotFound.status_code(), 404);
    assert_eq!(KawaiiError::InternalServerError.status_code(), 500);
    assert_eq!(KawaiiError::AniRustRefError(String::from("upstream broke")).status_code(), 500);
    assert_eq!(KawaiiError::CacheError(String::from("handle lost")).status_code(), 500);
}

#[test]
fn shared_errors_reach_every_caller_alike() {
    let shared = Arc::new(KawaiiError::AniRustRefError(String::from("rate limited")));
    let first = KawaiiError::from_shared(&shared);
    let second = KawaiiError::from_shared(&shared);
    match (&first, &second) {
        (KawaiiError::AniRustRefError(a), KawaiiError::AniRustRefError(b)) => {
            assert_eq!(a, "rate limited");
            assert_eq!(b, "rate limited");
        },
        _ => panic!("the shared failure must keep its variant and message"),
    }
    assert_eq!(KawaiiError::from_shared(&Arc::new(KawaiiError::NotFound)).status_code(), 404);
}

#[test]
fn streaming_keys_distinguish_server_and_category() {
    let base = episode_server_key(String::from("ep1"), 5, String::from("hd-1"), String::from("sub"));
    let same = episode_server_key(String::from("ep1"), 5, String::from("hd-1"), String::from("sub"));
    assert!(base.key_eq(&same));

    let other_server =
        episode_server_key(String::from("ep1"), 5, String::from("hd-2"), String::from("sub"));
    assert!(!base.key_eq(&other_server));

    let other_category =
        episode_server_key(String::from("ep1"), 5, String::from("hd-1"), String::from("dub"));
    assert!(!base.key_eq(&other_category));

    let bare_episode = episode_key(String::from("ep1"), 5);
    assert!(!base.key_eq(&bare_episode));
}

#[test]
fn streaming_key_from_query_requires_episode() {
    let q = SearchQuery {
        page: None,
        ep: None,
        server: Some(String::from("hd-1")),
        category: Some(String::from("sub")),
    };
    match episode_server_key_from_query(String::from("ep1"), q) {
        Ok(_) => panic!("a query without an episode selector must be rejected"),
        Err(e) => assert_eq!(e.status_code(), 404),
    }

    let q = SearchQuery {
        page: None,
        ep: Some(5),
        server: Some(String::from("hd-1")),
        category: Some(String::from("sub")),
    };
    match episode_server_key_from_query(String::from("ep1"), q) {
        Ok(k) => assert!(k.key_eq(&episode_server_key(
            String::from("ep1"),
            5,
            String::from("hd-1"),
            String::from("sub"),
        ))),
        Err(_) => panic!("a query with an episode selector must yield a key"),
    }

    // Absent server and category selectors default to empty text.
    let q = SearchQuery { page: None, ep: Some(5), server: None, category: None };
    match episode_server_key_from_query(String::from("ep1"), q) {
        Ok(k) => assert!(k.key_eq(&episode_server_key(
            String::from("ep1"),
            5,
            String::new(),
            String::new(),
        ))),
        Err(_) => panic!("a query with an episode selector must yield a key"),
    }
}

#[test]
fn streaming_entries_are_per_server() {
    // The same episode cached for one server is a miss for another server,
    // so each server/category selection gets its own fetched payload.
    let mut cache: CoalescingCache<u64> = CoalescingCache::new();
    let kind = ResourceKind::StreamingLinks;
    let hd1 = episode_server_key(String::from("ep1"), 5, String::from("hd-1"), String::from("sub"));
    let hd2 = episode_server_key(String::from("ep1"), 5, String::from("hd-2"), String::from("sub"));

    assert_eq!(cache.poll(kind, &hd1, 0), CacheStep::MustFetch);
    cache.complete_success(kind, hd1.duplicate(), 11, 0);

    assert_eq!(cache.lookup(kind, &hd1, 0), Some(&11));
    assert_eq!(cache.lookup(kind, &hd2, 0), None);
    assert_eq!(cache.poll(kind, &hd2, 0), CacheStep::MustFetch);
    cache.complete_success(kind, hd2.duplicate(), 22, 0);

    assert_eq!(cache.lookup(kind, &hd1, 0), Some(&11));
    assert_eq!(cache.lookup(kind, &hd2, 0), Some(&22));
}
