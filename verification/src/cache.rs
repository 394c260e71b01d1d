use vstd::prelude::*;

use crate::keys::{CacheKey, KeyModel};
use crate::table::{
    empty_table, failure_step, insert_step, poll_step, success_step, table_lookup, CacheStep,
    ResourceTable, TableModel,
};

verus! {

/// The fixed categories of cached data. Each kind owns its own table: kinds
/// never share keys or entries.
#[derive(Clone, Copy, Debug, PartialEq, Eq, Structural)]
pub enum ResourceKind {
    Home,
    AboutItem,
    EpisodesList,
    CategoryPage,
    SearchResults,
    AtozPage,
    ServerList,
    StreamingLinks,
}

/// The default TTL of each resource kind's table, in seconds: volatile
/// listings (episodes) expire after two hours; catalog pages after a day;
/// rarely-changing search, server and streaming data after thirty-one days.
pub open spec fn spec_default_ttl(kind: ResourceKind) -> int {
    match kind {
        ResourceKind::Home => 86400,
        ResourceKind::AboutItem => 86400,
        ResourceKind::EpisodesList => 7200,
        ResourceKind::CategoryPage => 86400,
        ResourceKind::SearchResults => 2678400,
        ResourceKind::AtozPage => 86400,
        ResourceKind::ServerList => 2678400,
        ResourceKind::StreamingLinks => 2678400,
    }
}

/// Executable counterpart of the default TTL table.
pub fn default_ttl(kind: ResourceKind) -> (t: u64)
    ensures
        t as int == spec_default_ttl(kind),
{
    match kind {
        ResourceKind::Home => 86400,
        ResourceKind::AboutItem => 86400,
        ResourceKind::EpisodesList => 7200,
        ResourceKind::CategoryPage => 86400,
        ResourceKind::SearchResults => 2678400,
        ResourceKind::AtozPage => 86400,
        ResourceKind::ServerList => 2678400,
        ResourceKind::StreamingLinks => 2678400,
    }
}

/// Per-table TTL configuration, in seconds. TTLs are configuration: each
/// table's value is fixed at construction and may be overridden here.
#[derive(Clone, Copy, Debug)]
pub struct TtlConfig {
    pub home: u64,
    pub about_item: u64,
    pub episodes_list: u64,
    pub category_page: u64,
    pub search_results: u64,
    pub atoz_page: u64,
    pub server_list: u64,
    pub streaming_links: u64,
}

/// The TTL a configuration assigns to a kind.
pub open spec fn spec_config_ttl(c: TtlConfig, kind: ResourceKind) -> int {
    match kind {
        ResourceKind::Home => c.home as int,
        ResourceKind::AboutItem => c.about_item as int,
        ResourceKind::EpisodesList => c.episodes_list as int,
        ResourceKind::CategoryPage => c.category_page as int,
        ResourceKind::SearchResults => c.search_results as int,
        ResourceKind::AtozPage => c.atoz_page as int,
        ResourceKind::ServerList => c.server_list as int,
        ResourceKind::StreamingLinks => c.streaming_links as int,
    }
}

/// The multi-table cache: one independent TTL table per resource kind, each
/// with per-key fetch coalescing. Its model maps every kind to that kind's
/// table model; every operation touches exactly one kind's table.
pub struct CoalescingCache<V> {
    home: ResourceTable<V>,
    about_item: ResourceTable<V>,
    episodes_list: ResourceTable<V>,
    category_page: ResourceTable<V>,
    search_results: ResourceTable<V>,
    atoz_page: ResourceTable<V>,
    server_list: ResourceTable<V>,
    streaming_links: ResourceTable<V>,
}

/// The table a cache holds for a kind.
pub closed spec fn field_table<V>(c: CoalescingCache<V>, kind: ResourceKind) -> ResourceTable<V> {
    match kind {
        ResourceKind::Home => c.home,
        ResourceKind::AboutItem => c.about_item,
        ResourceKind::EpisodesList => c.episodes_list,
        ResourceKind::CategoryPage => c.category_page,
        ResourceKind::SearchResults => c.search_results,
        ResourceKind::AtozPage => c.atoz_page,
        ResourceKind::ServerList => c.server_list,
        ResourceKind::StreamingLinks => c.streaming_links,
    }
}

impl<V> View for CoalescingCache<V> {
    type V = Map<ResourceKind, TableModel<V>>;

    closed spec fn view(&self) -> Map<ResourceKind, TableModel<V>> {
        Map::new(|kind: ResourceKind| true, |kind: ResourceKind| field_table(*self, kind)@)
    }
}

impl<V> CoalescingCache<V> {
    /// Internal well-formedness: every kind's table is well-formed.
    pub closed spec fn inv(&self) -> bool {
        &&& self.home.inv()
        &&& self.about_item.inv()
        &&& self.episodes_list.inv()
        &&& self.category_page.inv()
        &&& self.search_results.inv()
        &&& self.atoz_page.inv()
        &&& self.server_list.inv()
        &&& self.streaming_links.inv()
    }

    proof fn lemma_field(&self, kind: ResourceKind)
        ensures
            self@.dom().contains(kind),
            self@[kind] == field_table(*self, kind)@,
            self.inv() ==> field_table(*self, kind).inv(),
    {
    }

    /// A cache whose tables carry the configured TTLs and are all empty,
    /// with nothing in flight.
    pub fn with_ttls(ttls: TtlConfig) -> (c: Self)
        ensures
            c.inv(),
            forall|kind: ResourceKind| #![auto]
                c@.dom().contains(kind) && c@[kind] == empty_table::<V>(spec_config_ttl(ttls, kind)),
    {
        CoalescingCache {
            home: ResourceTable::new(ttls.home),
            about_item: ResourceTable::new(ttls.about_item),
            episodes_list: ResourceTable::new(ttls.episodes_list),
            category_page: ResourceTable::new(ttls.category_page),
            search_results: ResourceTable::new(ttls.search_results),
            atoz_page: ResourceTable::new(ttls.atoz_page),
            server_list: ResourceTable::new(ttls.server_list),
            streaming_links: ResourceTable::new(ttls.streaming_links),
        }
    }

    /// A cache with the default TTL per kind, all tables empty, nothing in
    /// flight.
    pub fn new() -> (c: Self)
        ensures
            c.inv(),
            forall|kind: ResourceKind| #![auto]
                c@.dom().contains(kind) && c@[kind] == empty_table::<V>(spec_default_ttl(kind)),
    {
        let c = CoalescingCache::with_ttls(
            TtlConfig {
                home: default_ttl(ResourceKind::Home),
                about_item: default_ttl(ResourceKind::AboutItem),
                episodes_list: default_ttl(ResourceKind::EpisodesList),
                category_page: default_ttl(ResourceKind::CategoryPage),
                search_results: default_ttl(ResourceKind::SearchResults),
                atoz_page: default_ttl(ResourceKind::AtozPage),
                server_list: default_ttl(ResourceKind::ServerList),
                streaming_links: default_ttl(ResourceKind::StreamingLinks),
            },
        );
        c
    }

    fn table_ref(&self, kind: ResourceKind) -> (t: &ResourceTable<V>)
        ensures
            *t == field_table(*self, kind),
    {
        match kind {
            ResourceKind::Home => &self.home,
            ResourceKind::AboutItem => &self.about_item,
            ResourceKind::EpisodesList => &self.episodes_list,
            ResourceKind::CategoryPage => &self.category_page,
            ResourceKind::SearchResults => &self.search_results,
            ResourceKind::AtozPage => &self.atoz_page,
            ResourceKind::ServerList => &self.server_list,
            ResourceKind::StreamingLinks => &self.streaming_links,
        }
    }

    fn table_mut(&mut self, kind: ResourceKind) -> (t: &mut ResourceTable<V>)
        ensures
            *t == field_table(*old(self), kind),
            final(self)@ == old(self)@.insert(kind, final(t)@),
            old(self).inv() && final(t).inv() ==> final(self).inv(),
    {
        match kind {
            ResourceKind::Home => &mut self.home,
            ResourceKind::AboutItem => &mut self.about_item,
            ResourceKind::EpisodesList => &mut self.episodes_list,
            ResourceKind::CategoryPage => &mut self.category_page,
            ResourceKind::SearchResults => &mut self.search_results,
            ResourceKind::AtozPage => &mut self.atoz_page,
            ResourceKind::ServerList => &mut self.server_list,
            ResourceKind::StreamingLinks => &mut self.streaming_links,
        }
    }

    /// Returns the cached value for `key` in `kind`'s table exactly when a
    /// fresh entry exists there at `now`.
    pub fn lookup(&self, kind: ResourceKind, key: &CacheKey, now: u64) -> (r: Option<&V>)
        requires
            self.inv(),
        ensures
            match r {
                Some(v) => table_lookup(self@[kind], key@, now as int) == Some(*v),
                None => table_lookup(self@[kind], key@, now as int) is None,
            },
    {
        proof {
            self.lemma_field(kind);
        }
        self.table_ref(kind).lookup(key, now)
    }

    /// Whether a fetch for `key` is in flight in `kind`'s table.
    pub fn is_inflight(&self, kind: ResourceKind, key: &CacheKey) -> (r: bool)
        ensures
            r == self@[kind].inflight.contains(key@),
    {
        proof {
            self.lemma_field(kind);
        }
        self.table_ref(kind).is_inflight(key)
    }

    /// One atomic step of the miss path on `kind`'s table: a hit, an order
    /// to wait on the key's in-flight fetch, or an order to fetch after
    /// installing the key's handle. No other kind's table is touched.
    pub fn poll(&mut self, kind: ResourceKind, key: &CacheKey, now: u64) -> (s: CacheStep)
        requires
            old(self).inv(),
        ensures
            final(self).inv(),
            s == poll_step(old(self)@[kind], key@, now as int).0,
            final(self)@ == old(self)@.insert(kind, poll_step(old(self)@[kind], key@, now as int).1),
    {
        proof {
            self.lemma_field(kind);
        }
        let t = self.table_mut(kind);
        t.poll(key, now)
    }

    /// Creates or replaces the entry for `key` in `kind`'s table, stored at
    /// `now` with that table's TTL. No other kind's table is touched.
    pub fn insert(&mut self, kind: ResourceKind, key: CacheKey, value: V, now: u64)
        requires
            old(self).inv(),
        ensures
            final(self).inv(),
            final(self)@ == old(self)@.insert(
                kind,
                insert_step(old(self)@[kind], key@, value, now as int),
            ),
    {
        proof {
            self.lemma_field(kind);
        }
        let t = self.table_mut(kind);
        t.insert(key, value, now);
    }

    /// The in-flight owner stores the fetched value and releases the key's
    /// handle in `kind`'s table, so every coalesced waiter reads the same
    /// value. No other kind's table is touched.
    pub fn complete_success(&mut self, kind: ResourceKind, key: CacheKey, value: V, now: u64)
        requires
            old(self).inv(),
            old(self)@[kind].inflight.contains(key@),
        ensures
            final(self).inv(),
            final(self)@ == old(self)@.insert(
                kind,
                success_step(old(self)@[kind], key@, value, now as int),
            ),
    {
        proof {
            self.lemma_field(kind);
        }
        let t = self.table_mut(kind);
        t.complete_success(key, value, now);
    }

    /// The in-flight owner reports a failed fetch: the key's handle in
    /// `kind`'s table is released and no entry anywhere is created or
    /// changed, so the failure is not cached. No other kind's table is
    /// touched.
    pub fn complete_failure(&mut self, kind: ResourceKind, key: &CacheKey)
        requires
            old(self).inv(),
            old(self)@[kind].inflight.contains(key@),
        ensures
            final(self).inv(),
            final(self)@ == old(self)@.insert(kind, failure_step(old(self)@[kind], key@)),
    {
        proof {
            self.lemma_field(kind);
        }
        let t = self.table_mut(kind);
        t.complete_failure(key);
    }
}

/// Per-kind isolation: a step applied to one kind's table leaves every other
/// kind's table — and so every lookup in it — exactly as it was, even for a
/// key with the same literal value.
pub proof fn lemma_per_kind_isolation<V>(
    m: Map<ResourceKind, TableModel<V>>,
    kind: ResourceKind,
    stepped: TableModel<V>,
    other: ResourceKind,
    k: KeyModel,
    now: int,
)
    requires
        other != kind,
        m.dom().contains(other),
    ensures
        m.insert(kind, stepped)[other] == m[other],
        table_lookup(m.insert(kind, stepped)[other], k, now) == table_lookup(m[other], k, now),
{
}

} // verus!
