use vstd::prelude::*;

use crate::keys::{CacheKey, KeyModel};

verus! {

/// A cached value together with the time it was stored and its time-to-live.
/// Entries are immutable once created: a re-fetch replaces, never merges.
/// Times and durations are in seconds.
pub struct Entry<V> {
    pub value: V,
    pub inserted_at: u64,
    pub ttl: u64,
}

/// Model of an entry, with times over the unbounded integers.
pub struct EntryModel<V> {
    pub value: V,
    pub inserted_at: int,
    pub ttl: int,
}

impl<V> View for Entry<V> {
    type V = EntryModel<V>;

    open spec fn view(&self) -> EntryModel<V> {
        EntryModel {
            value: self.value,
            inserted_at: self.inserted_at as int,
            ttl: self.ttl as int,
        }
    }
}

/// An entry is fresh at `now` exactly when `now` lies in
/// `[inserted_at, inserted_at + ttl)`.
pub open spec fn entry_fresh<V>(e: EntryModel<V>, now: int) -> bool {
    e.inserted_at <= now < e.inserted_at + e.ttl
}

/// Model of one resource table: its fixed TTL, the map from keys to entries,
/// and the set of keys with an in-flight fetch.
#[verifier::ext_equal]
pub struct TableModel<V> {
    pub ttl: int,
    pub entries: Map<KeyModel, EntryModel<V>>,
    pub inflight: Set<KeyModel>,
}

/// The empty table model with the given TTL.
pub open spec fn empty_table<V>(ttl: int) -> TableModel<V> {
    TableModel { ttl, entries: Map::empty(), inflight: Set::empty() }
}

/// What a lookup returns on a table model: the stored value exactly when an
/// entry exists for the key and is still fresh. An expired entry is treated
/// as absent.
pub open spec fn table_lookup<V>(t: TableModel<V>, k: KeyModel, now: int) -> Option<V> {
    if t.entries.dom().contains(k) && entry_fresh(t.entries[k], now) {
        Some(t.entries[k].value)
    } else {
        None
    }
}

/// What a caller must do after polling a table for a key.
#[derive(Clone, Copy, Debug, PartialEq, Eq, Structural)]
pub enum CacheStep {
    /// A fresh entry exists; read it with `lookup`.
    Hit,
    /// Another caller owns the in-flight fetch for this key; wait for its
    /// outcome instead of fetching.
    Wait,
    /// The caller installed the in-flight handle and must perform the single
    /// upstream fetch itself.
    MustFetch,
}

/// One atomic poll step on the table model. A fresh entry is a hit; on a
/// miss the caller either finds an existing in-flight handle and waits, or
/// installs the handle and becomes the sole fetcher. Polling never creates,
/// replaces or removes an entry.
pub open spec fn poll_step<V>(t: TableModel<V>, k: KeyModel, now: int) -> (CacheStep, TableModel<V>) {
    if table_lookup(t, k, now) is Some {
        (CacheStep::Hit, t)
    } else if t.inflight.contains(k) {
        (CacheStep::Wait, t)
    } else {
        (CacheStep::MustFetch, TableModel { inflight: t.inflight.insert(k), ..t })
    }
}

/// Storing a value at `now` creates or replaces the key's entry, stamped
/// with the table's TTL; in-flight handles are untouched.
pub open spec fn insert_step<V>(t: TableModel<V>, k: KeyModel, v: V, now: int) -> TableModel<V> {
    TableModel {
        entries: t.entries.insert(k, EntryModel { value: v, inserted_at: now, ttl: t.ttl }),
        ..t
    }
}

/// A successful fetch stores a fresh entry under the key (replacing any stale
/// one) and releases the key's in-flight handle.
pub open spec fn success_step<V>(t: TableModel<V>, k: KeyModel, v: V, now: int) -> TableModel<V> {
    TableModel {
        entries: t.entries.insert(k, EntryModel { value: v, inserted_at: now, ttl: t.ttl }),
        inflight: t.inflight.remove(k),
        ..t
    }
}

/// A failed fetch releases the key's in-flight handle and leaves every entry
/// exactly as it was: failures are never cached.
pub open spec fn failure_step<V>(t: TableModel<V>, k: KeyModel) -> TableModel<V> {
    TableModel { inflight: t.inflight.remove(k), ..t }
}

/// The outcomes, and the final state, of a run of poll steps for one key at
/// the given sequence of times, with no fetch completion in between. Each
/// step models one concurrent caller's atomic arrival at the table.
pub open spec fn poll_trace<V>(t: TableModel<V>, k: KeyModel, times: Seq<int>) -> (Seq<CacheStep>, TableModel<V>)
    decreases times.len(),
{
    if times.len() == 0 {
        (Seq::<CacheStep>::empty(), t)
    } else {
        let first = poll_step(t, k, times[0]);
        let rest = poll_trace(first.1, k, times.subrange(1, times.len() as int));
        (seq![first.0] + rest.0, rest.1)
    }
}

proof fn lemma_poll_trace_all_wait<V>(t: TableModel<V>, k: KeyModel, times: Seq<int>)
    requires
        !t.entries.dom().contains(k),
        t.inflight.contains(k),
    ensures
        poll_trace(t, k, times).0.len() == times.len(),
        forall|i: int| 0 <= i < times.len() ==> poll_trace(t, k, times).0[i] == CacheStep::Wait,
        poll_trace(t, k, times).1 == t,
    decreases times.len(),
{
    if times.len() > 0 {
        assert(poll_step(t, k, times[0]).0 == CacheStep::Wait);
        assert(poll_step(t, k, times[0]).1 == t);
        lemma_poll_trace_all_wait(t, k, times.subrange(1, times.len() as int));
    }
}

/// Coalescing: starting from a state with no entry and no in-flight fetch
/// for a key, however many callers poll the table for that key, and at
/// whatever times, before the fetch completes: the first caller is the one
/// and only one told to fetch, and every later caller is told to wait on
/// that single fetch.
pub proof fn lemma_coalescing<V>(t: TableModel<V>, k: KeyModel, times: Seq<int>)
    requires
        !t.entries.dom().contains(k),
        !t.inflight.contains(k),
        times.len() >= 1,
    ensures
        poll_trace(t, k, times).0.len() == times.len(),
        poll_trace(t, k, times).0[0] == CacheStep::MustFetch,
        forall|i: int| 1 <= i < times.len() ==> poll_trace(t, k, times).0[i] == CacheStep::Wait,
        poll_trace(t, k, times).1 == poll_step(t, k, times[0]).1,
        poll_trace(t, k, times).1.entries == t.entries,
{
    let first = poll_step(t, k, times[0]);
    assert(table_lookup(t, k, times[0]) is None);
    assert(first.0 == CacheStep::MustFetch);
    assert(first.1.entries == t.entries);
    assert(first.1.inflight.contains(k));
    let rest_times = times.subrange(1, times.len() as int);
    lemma_poll_trace_all_wait(first.1, k, rest_times);
    assert(forall|i: int|
        1 <= i < times.len() ==> poll_trace(t, k, times).0[i] == poll_trace(first.1, k, rest_times).0[
            i - 1
        ]);
}

/// Every coalesced caller's outcome agrees with the one fetch. After a run
/// of polls that coalesced on a single fetch: if the sole fetcher completes
/// with a value, every lookup while that entry is fresh returns exactly that
/// value; if it fails, the table is left exactly as it was before the run
/// began.
pub proof fn lemma_coalesced_outcome<V>(
    t: TableModel<V>,
    k: KeyModel,
    times: Seq<int>,
    v: V,
    completed_at: int,
    now: int,
)
    requires
        !t.entries.dom().contains(k),
        !t.inflight.contains(k),
        times.len() >= 1,
    ensures
        ({
            let after = poll_trace(t, k, times).1;
            &&& (completed_at <= now < completed_at + t.ttl ==> table_lookup(
                success_step(after, k, v, completed_at),
                k,
                now,
            ) == Some(v))
            &&& failure_step(after, k) == t
        }),
{
    lemma_coalescing(t, k, times);
    assert(failure_step(poll_trace(t, k, times).1, k) =~= t);
}

/// No negative caching: when the in-flight fetch for a key that has no entry
/// fails, the table keeps no trace of the failure, and the very next poll
/// for that key starts a fresh fetch attempt.
pub proof fn lemma_no_negative_caching<V>(t: TableModel<V>, k: KeyModel, now: int)
    requires
        !t.entries.dom().contains(k),
        t.inflight.contains(k),
    ensures
        ({
            let t1 = failure_step(t, k);
            &&& t1.entries == t.entries
            &&& !t1.inflight.contains(k)
            &&& poll_step(t1, k, now).0 == CacheStep::MustFetch
        }),
{
}

/// TTL expiry: an entry stored at time `at` is returned as a hit by every
/// lookup strictly before `at + ttl`, and is treated as absent from
/// `at + ttl` on — at which point a poll (with no fetch in flight) starts a
/// fresh fetch.
pub proof fn lemma_ttl_expiry<V>(t: TableModel<V>, k: KeyModel, v: V, at: int, now: int)
    ensures
        ({
            let t1 = success_step(t, k, v, at);
            &&& (at <= now < at + t.ttl ==> table_lookup(t1, k, now) == Some(v))
            &&& (now >= at + t.ttl ==> table_lookup(t1, k, now) is None)
            &&& (now >= at + t.ttl && !t1.inflight.contains(k) ==> poll_step(t1, k, now).0
                == CacheStep::MustFetch)
        }),
{
}

/// The entry map held by an association sequence; a later binding for a key
/// supersedes an earlier one.
pub closed spec fn entries_map<V>(s: Seq<(CacheKey, Entry<V>)>) -> Map<KeyModel, EntryModel<V>>
    decreases s.len(),
{
    if s.len() == 0 {
        Map::empty()
    } else {
        entries_map(s.drop_last()).insert(s.last().0@, s.last().1@)
    }
}

/// The key set held by a sequence of keys.
pub closed spec fn inflight_set(s: Seq<CacheKey>) -> Set<KeyModel>
    decreases s.len(),
{
    if s.len() == 0 {
        Set::empty()
    } else {
        inflight_set(s.drop_last()).insert(s.last()@)
    }
}

proof fn lemma_entries_map_dom<V>(s: Seq<(CacheKey, Entry<V>)>, k: KeyModel)
    ensures
        entries_map(s).dom().contains(k) <==> exists|i: int|
            0 <= i < s.len() && (#[trigger] s[i]).0@ == k,
    decreases s.len(),
{
    if s.len() > 0 {
        let pre = s.drop_last();
        lemma_entries_map_dom(pre, k);
        assert(forall|i: int| 0 <= i < pre.len() ==> #[trigger] pre[i] == s[i]);
        if entries_map(s).dom().contains(k) {
            if k == s.last().0@ {
                assert(s[s.len() - 1].0@ == k);
            } else {
                let i = choose|i: int| 0 <= i < pre.len() && (#[trigger] pre[i]).0@ == k;
                assert(s[i].0@ == k);
            }
        }
        if exists|i: int| 0 <= i < s.len() && (#[trigger] s[i]).0@ == k {
            let i = choose|i: int| 0 <= i < s.len() && (#[trigger] s[i]).0@ == k;
            if i < s.len() - 1 {
                assert(pre[i].0@ == k);
            }
        }
    }
}

proof fn lemma_entries_map_index<V>(s: Seq<(CacheKey, Entry<V>)>, i: int)
    requires
        0 <= i < s.len(),
        forall|a: int, b: int| 0 <= a < b < s.len() ==> (#[trigger] s[a]).0@ != (#[trigger] s[b]).0@,
    ensures
        entries_map(s).dom().contains(s[i].0@),
        entries_map(s)[s[i].0@] == s[i].1@,
    decreases s.len(),
{
    let pre = s.drop_last();
    if i < s.len() - 1 {
        assert(forall|a: int| 0 <= a < pre.len() ==> #[trigger] pre[a] == s[a]);
        lemma_entries_map_index(pre, i);
        assert(s[i].0@ != s.last().0@);
    }
}

proof fn lemma_entries_map_remove<V>(s: Seq<(CacheKey, Entry<V>)>, i: int)
    requires
        0 <= i < s.len(),
        forall|a: int, b: int| 0 <= a < b < s.len() ==> (#[trigger] s[a]).0@ != (#[trigger] s[b]).0@,
    ensures
        entries_map(s.remove(i)) =~= entries_map(s).remove(s[i].0@),
    decreases s.len(),
{
    let pre = s.drop_last();
    if i == s.len() - 1 {
        assert(s.remove(i) =~= pre);
        lemma_entries_map_dom(pre, s[i].0@);
        assert(forall|a: int| 0 <= a < pre.len() ==> #[trigger] pre[a] == s[a]);
        assert(!entries_map(pre).dom().contains(s[i].0@));
    } else {
        assert(forall|a: int| 0 <= a < pre.len() ==> #[trigger] pre[a] == s[a]);
        lemma_entries_map_remove(pre, i);
        assert(s.remove(i).drop_last() =~= pre.remove(i));
        assert(s.remove(i).last() == s.last());
        assert(s[i].0@ != s.last().0@);
    }
}

proof fn lemma_entries_map_push<V>(s: Seq<(CacheKey, Entry<V>)>, p: (CacheKey, Entry<V>))
    ensures
        entries_map(s.push(p)) =~= entries_map(s).insert(p.0@, p.1@),
{
    assert(s.push(p).drop_last() =~= s);
    assert(s.push(p).last() == p);
}

proof fn lemma_inflight_set_contains(s: Seq<CacheKey>, k: KeyModel)
    ensures
        inflight_set(s).contains(k) <==> exists|i: int| 0 <= i < s.len() && (#[trigger] s[i])@ == k,
    decreases s.len(),
{
    if s.len() > 0 {
        let pre = s.drop_last();
        lemma_inflight_set_contains(pre, k);
        assert(forall|i: int| 0 <= i < pre.len() ==> #[trigger] pre[i] == s[i]);
        if inflight_set(s).contains(k) {
            if k == s.last()@ {
                assert(s[s.len() - 1]@ == k);
            } else {
                let i = choose|i: int| 0 <= i < pre.len() && (#[trigger] pre[i])@ == k;
                assert(s[i]@ == k);
            }
        }
        if exists|i: int| 0 <= i < s.len() && (#[trigger] s[i])@ == k {
            let i = choose|i: int| 0 <= i < s.len() && (#[trigger] s[i])@ == k;
            if i < s.len() - 1 {
                assert(pre[i]@ == k);
            }
        }
    }
}

proof fn lemma_inflight_set_push(s: Seq<CacheKey>, key: CacheKey)
    ensures
        inflight_set(s.push(key)) =~= inflight_set(s).insert(key@),
{
    assert(s.push(key).drop_last() =~= s);
    assert(s.push(key).last() == key);
}

proof fn lemma_inflight_set_remove(s: Seq<CacheKey>, i: int)
    requires
        0 <= i < s.len(),
        forall|a: int, b: int| 0 <= a < b < s.len() ==> (#[trigger] s[a])@ != (#[trigger] s[b])@,
    ensures
        inflight_set(s.remove(i)) =~= inflight_set(s).remove(s[i]@),
    decreases s.len(),
{
    let pre = s.drop_last();
    if i == s.len() - 1 {
        assert(s.remove(i) =~= pre);
        lemma_inflight_set_contains(pre, s[i]@);
        assert(forall|a: int| 0 <= a < pre.len() ==> #[trigger] pre[a] == s[a]);
        assert(!inflight_set(pre).contains(s[i]@));
    } else {
        assert(forall|a: int| 0 <= a < pre.len() ==> #[trigger] pre[a] == s[a]);
        lemma_inflight_set_remove(pre, i);
        assert(s.remove(i).drop_last() =~= pre.remove(i));
        assert(s.remove(i).last() == s.last());
        assert(s[i]@ != s.last()@);
    }
}

/// One resource kind's cache table: a map from keys to entries plus the
/// per-key in-flight fetch handles, backed by duplicate-free association
/// vectors.
pub struct ResourceTable<V> {
    ttl: u64,
    entries: Vec<(CacheKey, Entry<V>)>,
    inflight: Vec<CacheKey>,
}

impl<V> View for ResourceTable<V> {
    type V = TableModel<V>;

    closed spec fn view(&self) -> TableModel<V> {
        TableModel {
            ttl: self.ttl as int,
            entries: entries_map(self.entries@),
            inflight: inflight_set(self.inflight@),
        }
    }
}

impl<V> ResourceTable<V> {
    /// Internal well-formedness: association keys are duplicate-free and
    /// every stored entry carries this table's TTL.
    pub closed spec fn inv(&self) -> bool {
        &&& forall|a: int, b: int|
            0 <= a < b < self.entries@.len() ==> (#[trigger] self.entries@[a]).0@ != (
            #[trigger] self.entries@[b]).0@
        &&& forall|a: int, b: int|
            0 <= a < b < self.inflight@.len() ==> (#[trigger] self.inflight@[a])@ != (
            #[trigger] self.inflight@[b])@
        &&& forall|a: int|
            0 <= a < self.entries@.len() ==> (#[trigger] self.entries@[a]).1.ttl == self.ttl
    }

    /// An empty table whose entries will live for `ttl` seconds.
    pub fn new(ttl: u64) -> (t: Self)
        ensures
            t.inv(),
            t@ == empty_table::<V>(ttl as int),
    {
        let t = ResourceTable { ttl, entries: Vec::new(), inflight: Vec::new() };
        proof {
            assert(t@ =~= empty_table::<V>(ttl as int));
        }
        t
    }

    /// The fixed TTL applied to every entry of this table.
    pub fn ttl(&self) -> (t: u64)
        ensures
            t as int == self@.ttl,
    {
        self.ttl
    }

    fn find_entry(&self, key: &CacheKey) -> (r: Option<usize>)
        ensures
            match r {
                Some(i) => i < self.entries@.len() && self.entries@[i as int].0@ == key@,
                None => forall|i: int|
                    0 <= i < self.entries@.len() ==> (#[trigger] self.entries@[i]).0@ != key@,
            },
    {
        let mut i: usize = 0;
        while i < self.entries.len()
            invariant
                i <= self.entries@.len(),
                forall|j: int| 0 <= j < i ==> (#[trigger] self.entries@[j]).0@ != key@,
            decreases self.entries@.len() - i,
        {
            if self.entries[i].0.key_eq(key) {
                return Some(i);
            }
            i += 1;
        }
        None
    }

    fn find_inflight(&self, key: &CacheKey) -> (r: Option<usize>)
        ensures
            match r {
                Some(i) => i < self.inflight@.len() && self.inflight@[i as int]@ == key@,
                None => forall|i: int|
                    0 <= i < self.inflight@.len() ==> (#[trigger] self.inflight@[i])@ != key@,
            },
    {
        let mut i: usize = 0;
        while i < self.inflight.len()
            invariant
                i <= self.inflight@.len(),
                forall|j: int| 0 <= j < i ==> (#[trigger] self.inflight@[j])@ != key@,
            decreases self.inflight@.len() - i,
        {
            if self.inflight[i].key_eq(key) {
                return Some(i);
            }
            i += 1;
        }
        None
    }

    /// Whether a fetch for `key` is in flight in this table.
    pub fn is_inflight(&self, key: &CacheKey) -> (r: bool)
        ensures
            r == self@.inflight.contains(key@),
    {
        proof {
            lemma_inflight_set_contains(self.inflight@, key@);
        }
        match self.find_inflight(key) {
            Some(_) => true,
            None => false,
        }
    }

    /// Returns the cached value exactly when an entry for `key` exists and is
    /// still fresh at `now`; an expired or missing entry yields nothing.
    pub fn lookup(&self, key: &CacheKey, now: u64) -> (r: Option<&V>)
        requires
            self.inv(),
        ensures
            match r {
                Some(v) => table_lookup(self@, key@, now as int) == Some(*v),
                None => table_lookup(self@, key@, now as int) is None,
            },
    {
        proof {
            lemma_entries_map_dom(self.entries@, key@);
        }
        match self.find_entry(key) {
            Some(i) => {
                proof {
                    lemma_entries_map_index(self.entries@, i as int);
                }
                let e = &self.entries[i].1;
                if e.inserted_at <= now && now - e.inserted_at < e.ttl {
                    Some(&e.value)
                } else {
                    None
                }
            },
            None => None,
        }
    }

    fn remove_entry(&mut self, key: &CacheKey)
        requires
            old(self).inv(),
        ensures
            final(self).inv(),
            final(self)@.ttl == old(self)@.ttl,
            final(self)@.inflight == old(self)@.inflight,
            final(self)@.entries == old(self)@.entries.remove(key@),
    {
        proof {
            lemma_entries_map_dom(self.entries@, key@);
        }
        match self.find_entry(key) {
            Some(i) => {
                proof {
                    lemma_entries_map_remove(self.entries@, i as int);
                }
                let ghost s0 = self.entries@;
                self.entries.remove(i);
                proof {
                    assert(self.entries@ =~= s0.remove(i as int));
                    assert forall|a: int, b: int|
                        0 <= a < b < self.entries@.len() implies (#[trigger] self.entries@[a]).0@
                        != (#[trigger] self.entries@[b]).0@ by {
                        if b < i as int {
                        } else if a < i as int {
                            assert(self.entries@[b] == s0[b + 1]);
                        } else {
                            assert(self.entries@[a] == s0[a + 1]);
                            assert(self.entries@[b] == s0[b + 1]);
                        }
                    }
                    assert forall|a: int|
                        0 <= a < self.entries@.len() implies (#[trigger] self.entries@[a]).1.ttl
                        == self.ttl by {
                        if a >= i as int {
                            assert(self.entries@[a] == s0[a + 1]);
                        }
                    }
                }
            },
            None => {
                proof {
                    assert(!old(self)@.entries.dom().contains(key@));
                    assert(old(self)@.entries =~= old(self)@.entries.remove(key@));
                }
            },
        }
    }

    /// Creates or replaces the entry for `key` with a value stored at `now`
    /// under this table's TTL. In-flight handles are untouched.
    pub fn insert(&mut self, key: CacheKey, value: V, now: u64)
        requires
            old(self).inv(),
        ensures
            final(self).inv(),
            final(self)@ == insert_step(old(self)@, key@, value, now as int),
    {
        self.remove_entry(&key);
        proof {
            lemma_entries_map_dom(self.entries@, key@);
            lemma_entries_map_push(
                self.entries@,
                (key, Entry { value, inserted_at: now, ttl: self.ttl }),
            );
        }
        let ghost s0 = self.entries@;
        let ttl = self.ttl;
        self.entries.push((key, Entry { value, inserted_at: now, ttl }));
        proof {
            assert forall|a: int, b: int|
                0 <= a < b < self.entries@.len() implies (#[trigger] self.entries@[a]).0@ != (
            #[trigger] self.entries@[b]).0@ by {
                if b == self.entries@.len() - 1 {
                    assert(self.entries@[a] == s0[a]);
                    assert(!entries_map(s0).dom().contains(self.entries@[b].0@));
                }
            }
            assert(final(self)@.entries =~= old(self)@.entries.insert(
                self.entries@.last().0@,
                self.entries@.last().1@,
            ));
            assert(final(self)@ =~= insert_step(old(self)@, key@, value, now as int));
        }
    }

    /// One atomic step of the miss path: reports a hit, tells the caller to
    /// wait on an existing in-flight fetch, or installs the in-flight handle
    /// and makes the caller the sole fetcher. Entries are never modified.
    pub fn poll(&mut self, key: &CacheKey, now: u64) -> (s: CacheStep)
        requires
            old(self).inv(),
        ensures
            final(self).inv(),
            s == poll_step(old(self)@, key@, now as int).0,
            final(self)@ == poll_step(old(self)@, key@, now as int).1,
    {
        let hit = self.lookup(key, now).is_some();
        if hit {
            CacheStep::Hit
        } else if self.is_inflight(key) {
            CacheStep::Wait
        } else {
            let dup = key.duplicate();
            proof {
                lemma_inflight_set_contains(self.inflight@, key@);
                lemma_inflight_set_push(self.inflight@, dup);
            }
            let ghost s0 = self.inflight@;
            self.inflight.push(dup);
            proof {
                assert(self.inflight@.drop_last() =~= s0);
                assert forall|a: int, b: int|
                    0 <= a < b < self.inflight@.len() implies (#[trigger] self.inflight@[a])@ != (
                #[trigger] self.inflight@[b])@ by {
                    if b == self.inflight@.len() - 1 {
                        assert(self.inflight@[a] == s0[a]);
                    }
                }
                assert(final(self)@ =~= poll_step(old(self)@, key@, now as int).1);
            }
            CacheStep::MustFetch
        }
    }

    fn remove_inflight(&mut self, key: &CacheKey)
        requires
            old(self).inv(),
        ensures
            final(self).inv(),
            final(self)@.ttl == old(self)@.ttl,
            final(self)@.entries == old(self)@.entries,
            final(self)@.inflight == old(self)@.inflight.remove(key@),
    {
        proof {
            lemma_inflight_set_contains(self.inflight@, key@);
        }
        match self.find_inflight(key) {
            Some(i) => {
                proof {
                    lemma_inflight_set_remove(self.inflight@, i as int);
                }
                let ghost s0 = self.inflight@;
                self.inflight.remove(i);
                proof {
                    assert(self.inflight@ =~= s0.remove(i as int));
                    assert forall|a: int, b: int|
                        0 <= a < b < self.inflight@.len() implies (#[trigger] self.inflight@[a])@
                        != (#[trigger] self.inflight@[b])@ by {
                        if b < i as int {
                        } else if a < i as int {
                            assert(self.inflight@[b] == s0[b + 1]);
                        } else {
                            assert(self.inflight@[a] == s0[a + 1]);
                            assert(self.inflight@[b] == s0[b + 1]);
                        }
                    }
                }
            },
            None => {
                proof {
                    assert(!old(self)@.inflight.contains(key@));
                    assert(old(self)@.inflight =~= old(self)@.inflight.remove(key@));
                }
            },
        }
    }

    /// The in-flight owner reports a successful fetch: the value is stored as
    /// a fresh entry and the key's handle is released, so every waiter can
    /// now read the same value.
    pub fn complete_success(&mut self, key: CacheKey, value: V, now: u64)
        requires
            old(self).inv(),
            old(self)@.inflight.contains(key@),
        ensures
            final(self).inv(),
            final(self)@ == success_step(old(self)@, key@, value, now as int),
    {
        self.remove_inflight(&key);
        self.insert(key, value, now);
        proof {
            assert(final(self)@ =~= success_step(old(self)@, key@, value, now as int));
        }
    }

    /// The in-flight owner reports a failed fetch: the key's handle is
    /// released and no entry is created or modified, so the failure is not
    /// cached and the next poll starts a fresh attempt.
    pub fn complete_failure(&mut self, key: &CacheKey)
        requires
            old(self).inv(),
            old(self)@.inflight.contains(key@),
        ensures
            final(self).inv(),
            final(self)@ == failure_step(old(self)@, key@),
    {
        self.remove_inflight(key);
        proof {
            assert(final(self)@ =~= failure_step(old(self)@, key@));
        }
    }
}

} // verus!
