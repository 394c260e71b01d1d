use vstd::prelude::*;

use crate::error::{ErrorModel, KawaiiError};

verus! {

/// Mathematical model of a cache key: exactly the request parameters the key
/// was built from. Keys are structured, never concatenated strings, so two
/// distinct parameter lists can never collide.
pub enum KeyModel {
    /// The single home-catalog key.
    Home,
    /// A bare resource identifier.
    Id { id: Seq<char> },
    /// A bare page number.
    Page { page: int },
    /// A resource identifier together with a page number.
    IdPage { id: Seq<char>, page: int },
    /// An episode reference: a resource identifier and an episode number.
    Episode { id: Seq<char>, ep: int },
    /// An episode reference together with the requested server and category:
    /// streaming sources fetched for one server are never served for another.
    EpisodeServer { id: Seq<char>, ep: int, server: Seq<char>, category: Seq<char> },
}

/// A structured, value-typed cache key. Equal request parameters always
/// produce an equal key, and keys built from different constructors are
/// never equal.
#[derive(Debug)]
pub enum CacheKey {
    Home,
    Id(String),
    Page(u32),
    IdPage(String, u32),
    Episode(String, u32),
    EpisodeServer(String, u32, String, String),
}

impl View for CacheKey {
    type V = KeyModel;

    open spec fn view(&self) -> KeyModel {
        match self {
            CacheKey::Home => KeyModel::Home,
            CacheKey::Id(id) => KeyModel::Id { id: id@ },
            CacheKey::Page(p) => KeyModel::Page { page: *p as int },
            CacheKey::IdPage(id, p) => KeyModel::IdPage { id: id@, page: *p as int },
            CacheKey::Episode(id, ep) => KeyModel::Episode { id: id@, ep: *ep as int },
            CacheKey::EpisodeServer(id, ep, server, category) => KeyModel::EpisodeServer {
                id: id@,
                ep: *ep as int,
                server: server@,
                category: category@,
            },
        }
    }
}

impl CacheKey {
    /// Structural key equality: two keys are equal exactly when they were
    /// built from the same constructor and the same parameters.
    pub fn key_eq(&self, other: &CacheKey) -> (r: bool)
        ensures
            r == (self@ == other@),
    {
        match (self, other) {
            (CacheKey::Home, CacheKey::Home) => true,
            (CacheKey::Id(a), CacheKey::Id(b)) => a.eq(b),
            (CacheKey::Page(a), CacheKey::Page(b)) => *a == *b,
            (CacheKey::IdPage(a, pa), CacheKey::IdPage(b, pb)) => a.eq(b) && *pa == *pb,
            (CacheKey::Episode(a, ea), CacheKey::Episode(b, eb)) => a.eq(b) && *ea == *eb,
            (
                CacheKey::EpisodeServer(a, ea, sa, ca),
                CacheKey::EpisodeServer(b, eb, sb, cb),
            ) => a.eq(b) && *ea == *eb && sa.eq(sb) && ca.eq(cb),
            _ => false,
        }
    }

    /// An owned copy of this key, equal to the original.
    pub fn duplicate(&self) -> (k: CacheKey)
        ensures
            k@ == self@,
    {
        match self {
            CacheKey::Home => CacheKey::Home,
            CacheKey::Id(id) => CacheKey::Id(id.clone()),
            CacheKey::Page(p) => CacheKey::Page(*p),
            CacheKey::IdPage(id, p) => CacheKey::IdPage(id.clone(), *p),
            CacheKey::Episode(id, ep) => CacheKey::Episode(id.clone(), *ep),
            CacheKey::EpisodeServer(id, ep, server, category) => CacheKey::EpisodeServer(
                id.clone(),
                *ep,
                server.clone(),
                category.clone(),
            ),
        }
    }
}

/// Optional request parameters that may accompany a lookup: a page number, an
/// episode selector, and a server/category selection for streaming sources.
#[derive(Debug)]
pub struct SearchQuery {
    pub page: Option<u32>,
    pub ep: Option<u32>,
    pub server: Option<String>,
    pub category: Option<String>,
}

impl SearchQuery {
    /// The requested page number, defaulting to the first page when absent.
    pub fn page_or_default(&self) -> (p: u32)
        ensures
            self.page is Some ==> p == self.page.unwrap(),
            self.page is None ==> p == 1,
    {
        match self.page {
            Some(p) => p,
            None => 1,
        }
    }
}

/// Key for the home catalog page.
pub fn home_key() -> (k: CacheKey)
    ensures
        k@ == KeyModel::Home,
{
    CacheKey::Home
}

/// Key for a record identified by a bare id (item details, episode lists).
pub fn id_key(id: String) -> (k: CacheKey)
    ensures
        k@ == (KeyModel::Id { id: id@ }),
{
    CacheKey::Id(id)
}

/// Key for a paged listing identified by a page number alone.
pub fn page_key(page: u32) -> (k: CacheKey)
    ensures
        k@ == (KeyModel::Page { page: page as int }),
{
    CacheKey::Page(page)
}

/// Key for a paged listing identified by an id (a category name or a search
/// query) together with a page number.
pub fn id_page_key(id: String, page: u32) -> (k: CacheKey)
    ensures
        k@ == (KeyModel::IdPage { id: id@, page: page as int }),
{
    CacheKey::IdPage(id, page)
}

/// Key for an episode-scoped record (server lists, streaming sources): a
/// structured pair, never a formatted string, so ids containing separator
/// text cannot collide with other episode references.
pub fn episode_key(id: String, ep: u32) -> (k: CacheKey)
    ensures
        k@ == (KeyModel::Episode { id: id@, ep: ep as int }),
{
    CacheKey::Episode(id, ep)
}

/// Builds an episode key from a query, rejecting requests without an episode
/// selector before any cache interaction takes place.
pub fn episode_key_from_query(id: String, query: &SearchQuery) -> (r: Result<CacheKey, KawaiiError>)
    ensures
        query.ep is Some ==> (r matches Ok(k) && k@ == (KeyModel::Episode {
            id: id@,
            ep: query.ep.unwrap() as int,
        })),
        query.ep is None ==> (r matches Err(e) && e@ == ErrorModel::NotFound),
{
    match query.ep {
        Some(ep) => Ok(CacheKey::Episode(id, ep)),
        None => Err(KawaiiError::NotFound),
    }
}

/// The text of an optional selector, empty when the selector is absent.
pub open spec fn spec_selector_or_empty(s: Option<String>) -> Seq<char> {
    match s {
        Some(text) => text@,
        None => Seq::<char>::empty(),
    }
}

/// Key for a streaming-sources record: the episode reference together with
/// the requested server and category, so that sources fetched for one server
/// or category are never served for another.
pub fn episode_server_key(id: String, ep: u32, server: String, category: String) -> (k: CacheKey)
    ensures
        k@ == (KeyModel::EpisodeServer {
            id: id@,
            ep: ep as int,
            server: server@,
            category: category@,
        }),
{
    CacheKey::EpisodeServer(id, ep, server, category)
}

/// Builds a streaming-sources key from a query: the episode selector is
/// required (its absence is rejected before any cache interaction); the
/// server and category selectors default to empty text when absent.
pub fn episode_server_key_from_query(id: String, query: SearchQuery) -> (r: Result<
    CacheKey,
    KawaiiError,
>)
    ensures
        query.ep is Some ==> (r matches Ok(k) && k@ == (KeyModel::EpisodeServer {
            id: id@,
            ep: query.ep.unwrap() as int,
            server: spec_selector_or_empty(query.server),
            category: spec_selector_or_empty(query.category),
        })),
        query.ep is None ==> (r matches Err(e) && e@ == ErrorModel::NotFound),
{
    match query.ep {
        Some(ep) => {
            let server = match query.server {
                Some(s) => s,
                None => String::new(),
            };
            let category = match query.category {
                Some(s) => s,
                None => String::new(),
            };
            Ok(CacheKey::EpisodeServer(id, ep, server, category))
        },
        None => Err(KawaiiError::NotFound),
    }
}

/// Streaming-sources keys are collision-free: two such keys are equal
/// exactly when their ids, episode numbers, servers and categories all are —
/// in particular, the same episode requested for two different servers or
/// categories uses two distinct keys.
pub proof fn lemma_episode_server_key_injective(
    id1: Seq<char>,
    ep1: int,
    server1: Seq<char>,
    category1: Seq<char>,
    id2: Seq<char>,
    ep2: int,
    server2: Seq<char>,
    category2: Seq<char>,
)
    ensures
        ((KeyModel::EpisodeServer { id: id1, ep: ep1, server: server1, category: category1 })
            == (KeyModel::EpisodeServer { id: id2, ep: ep2, server: server2, category: category2 }))
            <==> (id1 == id2 && ep1 == ep2 && server1 == server2 && category1 == category2),
{
}

/// Episode keys are collision-free: two episode keys are equal exactly when
/// both their ids and their episode numbers are equal.
pub proof fn lemma_episode_key_injective(id1: Seq<char>, ep1: int, id2: Seq<char>, ep2: int)
    ensures
        ((KeyModel::Episode { id: id1, ep: ep1 }) == (KeyModel::Episode { id: id2, ep: ep2 }))
            <==> (id1 == id2 && ep1 == ep2),
{
}

} // verus!
