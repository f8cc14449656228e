//! The directory cache: for the canonical path of a directory, its children.
//!
//! The listings are held by a `moka::sync::Cache`, which drops an entry that
//! was not read for the configured time, and the least recently used entry
//! once more entries are held than the configured number. When it does so
//! cannot be told from here, so the contracts speak of what was stored and
//! not invalidated since: a lookup gives that or nothing.

use vstd::prelude::*;
use crate::drive::model::{listing, Entry, QuarkFile};
use crate::path::{canonical, canonical_path, names, parent_of, parent_path, render, render_prefix, segments, split_path};
use crate::populate::{
    after_lookup, begin_from, completed, found_view, probe_at, step, Descent, FetchResult,
    ProbeView, Progress, WalkStep,
};

verus! {

/// The store behind the cache: a `moka::sync::Cache` from canonical paths to
/// listings. Nothing is known of it but what the functions below state.
#[verifier::external_body]
pub struct ListingStore {
    inner: moka::sync::Cache<String, Vec<QuarkFile>>,
}

/// No listing at all.
pub open spec fn no_listings() -> Map<Seq<char>, Seq<Entry>> {
    Map::empty()
}

/// The longest time to live that the cache accepts: 1000 years, in seconds.
pub const MAX_TTL_SECS: u64 = 31_536_000_000;

/// The listings that were stored in the cache and not invalidated since, by
/// the path they were stored under. The cache may have dropped any of them.
pub uninterp spec fn stored_listings(store: ListingStore) -> Map<Seq<char>, Seq<Entry>>;

/// The number of entries that the store was built to keep at most: beyond
/// it, the store drops entries.
pub uninterp spec fn store_capacity(store: ListingStore) -> u64;

/// The time, in seconds, that the store was built to keep an entry for after
/// it was last read or stored.
pub uninterp spec fn store_idle_secs(store: ListingStore) -> u64;

/// Whether the store was built to drop, when it is over its capacity, the
/// entry that was used least recently.
pub uninterp spec fn store_evicts_lru(store: ListingStore) -> bool;

/// The limits that a store was built with.
pub open spec fn store_limits(store: ListingStore) -> (u64, u64, bool) {
    (store_capacity(store), store_idle_secs(store), store_evicts_lru(store))
}

/// `moka::sync::Cache::builder`, with `max_capacity`, `time_to_idle`,
/// `eviction_policy` and `build`: a cache with these limits that holds
/// nothing yet. `build` panics on a time longer than 1000 years, which
/// `requires` leaves out.
#[verifier::external_body]
fn store_new(max_capacity: u64, ttl_secs: u64) -> (store: ListingStore)
    requires
        ttl_secs <= MAX_TTL_SECS,
    ensures
        stored_listings(store) == no_listings(),
        store_capacity(store) == max_capacity,
        store_idle_secs(store) == ttl_secs,
        store_evicts_lru(store),
{
    let inner = moka::sync::Cache::builder()
        .max_capacity(max_capacity)
        .time_to_idle(std::time::Duration::from_secs(ttl_secs))
        .eviction_policy(moka::policy::EvictionPolicy::lru())
        .build();
    ListingStore { inner }
}

/// `moka::sync::Cache::get`: a clone of the value last stored under the key
/// and not invalidated since, or nothing. Stores nothing.
#[verifier::external_body]
fn store_get(store: &ListingStore, key: &str) -> (found: Option<Vec<QuarkFile>>)
    ensures
        found matches Some(list) ==> stored_listings(*store).contains_key(key@) && listing(list@)
            == stored_listings(*store)[key@],
{
    store.inner.get(key)
}

/// `moka::sync::Cache::insert`: stores the value under the key, in place of
/// what the key had. The limits of the store stay. The call does not panic:
/// the one `expect` in it fails only once the store's own queue is gone.
#[verifier::external_body]
fn store_insert(store: &mut ListingStore, key: String, list: Vec<QuarkFile>)
    ensures
        stored_listings(*final(store)) == stored_listings(*old(store)).insert(key@, listing(list@)),
        store_limits(*final(store)) == store_limits(*old(store)),
    no_unwind
{
    store.inner.insert(key, list)
}

/// `moka::sync::Cache::invalidate`: discards what the key has. The limits of
/// the store stay. The call does not panic: the one `expect` in it fails only
/// once the store's own queue is gone.
#[verifier::external_body]
fn store_invalidate(store: &mut ListingStore, key: &str)
    ensures
        stored_listings(*final(store)) == stored_listings(*old(store)).remove(key@),
        store_limits(*final(store)) == store_limits(*old(store)),
    no_unwind
{
    store.inner.invalidate(key)
}

/// What a probe of a store with these listings can give for the path with
/// these segments: only what is stored, under the path it is stored under.
pub open spec fn observable(
    stored: Map<Seq<char>, Seq<Entry>>,
    segs: Seq<Seq<char>>,
    probe: ProbeView,
) -> bool {
    match probe {
        ProbeView::Hit(list) => stored.contains_key(render(segs)) && stored[render(segs)] == list,
        ProbeView::Ancestor { depth, list } => {
            &&& depth < segs.len()
            &&& stored.contains_key(render(segs.take(depth as int)))
            &&& stored[render(segs.take(depth as int))] == list
        },
        ProbeView::Cold => true,
    }
}

/// The listings stored once a descent has taken an answer: the completed
/// listing is added under its path, and nothing else changes.
pub open spec fn stored_after(
    stored: Map<Seq<char>, Seq<Entry>>,
    d: crate::populate::DescentView,
    a: crate::populate::Answer,
) -> Map<Seq<char>, Seq<Entry>> {
    match completed(d, a) {
        Some((key, children)) => stored.insert(key, children),
        None => stored,
    }
}

/// The directory cache. It is the one handle on its store: it cannot be
/// cloned, and what it holds changes through its methods alone.
pub struct Cache {
    inner: ListingStore,
    max_capacity: u64,
    ttl: u64,
}

impl Cache {
    /// The cache remembers the limits that its store was built with, and the
    /// time among them is one that a store can be built with.
    #[verifier::type_invariant]
    spec fn limits_kept(self) -> bool {
        &&& self.ttl <= MAX_TTL_SECS
        &&& store_capacity(self.inner) == self.max_capacity
        &&& store_idle_secs(self.inner) == self.ttl
        &&& store_evicts_lru(self.inner)
    }

    /// The listings stored and not invalidated since, by canonical path.
    pub closed spec fn stored(&self) -> Map<Seq<char>, Seq<Entry>> {
        stored_listings(self.inner)
    }

    /// The number of listings that the cache keeps at most.
    pub closed spec fn capacity(&self) -> u64 {
        store_capacity(self.inner)
    }

    /// The time, in seconds, that the cache keeps a listing for after it was
    /// last read or stored.
    pub closed spec fn idle_secs(&self) -> u64 {
        store_idle_secs(self.inner)
    }

    /// Whether the cache, once over its capacity, drops the listing that was
    /// used least recently.
    pub closed spec fn evicts_lru(&self) -> bool {
        store_evicts_lru(self.inner)
    }

    /// An empty cache that keeps up to `max_capacity` listings, least recently
    /// used dropped first, each for `ttl` seconds after it was last read or
    /// stored.
    pub fn new(max_capacity: u64, ttl: u64) -> (cache: Self)
        requires
            ttl <= MAX_TTL_SECS,
        ensures
            cache.stored() == no_listings(),
            cache.capacity() == max_capacity,
            cache.idle_secs() == ttl,
            cache.evicts_lru(),
    {
        Cache { inner: store_new(max_capacity, ttl), max_capacity, ttl }
    }

    /// The children stored for the directory, if the cache still has them.
    pub fn get(&self, path: &str) -> (found: Option<Vec<QuarkFile>>)
        ensures
            found matches Some(list) ==> self.stored().contains_key(canonical(path@)) && listing(
                list@,
            ) == self.stored()[canonical(path@)],
    {
        let key = canonical_path(path);
        store_get(&self.inner, key.as_str())
    }

    /// Stores the children of the directory, in place of what was stored for it.
    pub fn insert(&mut self, path: &str, list: Vec<QuarkFile>)
        ensures
            final(self).stored() == old(self).stored().insert(canonical(path@), listing(list@)),
            final(self).same_limits(*old(self)),
    {
        let key = canonical_path(path);
        proof {
            use_type_invariant(&*self);
        }
        store_insert(&mut self.inner, key, list);
    }

    /// Starts the resolution of `key`: asks the store for the path itself, then
    /// for each directory above it, nearest first, and goes by `after_lookup`
    /// on what each lookup gives: it starts from the first listing that is
    /// still there, and from the root where none is. Stores nothing.
    pub fn get_or_insert(&self, key: &str) -> (next: Progress)
        ensures
            exists|probe: ProbeView|
                observable(self.stored(), segments(key@), probe) && next@ == begin_from(
                    segments(key@),
                    probe,
                ),
            next matches Progress::Fetch(d) ==> d.wf(),
    {
        let mut segs = split_path(key);
        let mut depth: usize = segs.len();
        loop
            invariant
                depth <= segs.len(),
                names(segs@) == segments(key@),
            decreases depth,
        {
            let asked = render_prefix(&segs, depth);
            let found = store_get(&self.inner, asked.as_str());
            proof {
                let path = names(segs@);
                if depth == segs.len() {
                    assert(path.take(depth as int) =~= path);
                }
                assert(observable(
                    self.stored(),
                    path,
                    probe_at(path.len(), depth as nat, found_view(found)),
                ));
            }
            match after_lookup(segs, depth, found) {
                WalkStep::Start(next) => {
                    return next;
                },
                WalkStep::Lookup { segs: same, depth: above } => {
                    segs = same;
                    depth = above;
                },
            }
        }
    }

    /// Takes the answer to a descent's request. Once the directory's last page
    /// has come, stores its children, all of them at once, under its path; no
    /// other answer changes what is stored. Gives the next request, or the end.
    pub fn advance(&mut self, descent: Descent, fetched: FetchResult) -> (next: Progress)
        requires
            descent.wf(),
        ensures
            next@ == step(descent@, fetched@),
            final(self).stored() == stored_after(old(self).stored(), descent@, fetched@),
            final(self).same_limits(*old(self)),
            next matches Progress::Fetch(d) ==> d.wf(),
    {
        let (complete, next) = descent.advance(fetched);
        match complete {
            Some((key, list)) => {
                proof {
                    use_type_invariant(&*self);
                }
                store_insert(&mut self.inner, key, list);
            },
            None => {},
        }
        next
    }

    /// Discards the listing of this one directory.
    pub fn invalidate(&mut self, path: &str)
        ensures
            final(self).stored() == old(self).stored().remove(canonical(path@)),
            final(self).same_limits(*old(self)),
    {
        let key = canonical_path(path);
        proof {
            use_type_invariant(&*self);
        }
        store_invalidate(&mut self.inner, key.as_str());
    }

    /// Discards the listing of the directory that holds `path`, and no other.
    /// Does nothing for the root, which no directory holds.
    pub fn invalidate_parent(&mut self, path: &str)
        ensures
            final(self).stored() == match parent_of(path@) {
                Some(parent) => old(self).stored().remove(parent),
                None => old(self).stored(),
            },
            final(self).same_limits(*old(self)),
    {
        match parent_path(path) {
            Some(parent) => {
                proof {
                    use_type_invariant(&*self);
                }
                store_invalidate(&mut self.inner, parent.as_str());
            },
            None => {},
        }
    }

    /// Discards every listing: the store gives way to a new one with the
    /// same limits, which holds nothing.
    pub fn invalidate_all(&mut self)
        ensures
            final(self).stored() == no_listings(),
            final(self).same_limits(*old(self)),
    {
        proof {
            use_type_invariant(&*self);
        }
        self.inner = store_new(self.max_capacity, self.ttl);
    }

    /// The two caches have the same limits.
    pub closed spec fn same_limits(&self, other: Cache) -> bool {
        store_limits(self.inner) == store_limits(other.inner)
    }
}

/// The number of the hang-up signal.
pub const SIGHUP: i32 = 1;

/// What can ask for the whole cache to be dropped.
#[derive(Debug, Clone, Copy)]
pub enum Trigger {
    /// The periodic timer ran out.
    Timer,
    /// The process got the signal of this number.
    Signal(i32),
    /// Somebody asked for it.
    Direct,
}

/// Whether the trigger drops the cache: each does, but a signal other than
/// the hang-up.
pub open spec fn drops_all(trigger: Trigger) -> bool {
    match trigger {
        Trigger::Timer => true,
        Trigger::Signal(number) => number == SIGHUP,
        Trigger::Direct => true,
    }
}

impl Cache {
    /// Serves a trigger: drops every listing, or, for a signal that calls for
    /// nothing, leaves the cache as it is. Fills nothing in again. Says
    /// whether it dropped the listings.
    pub fn on_trigger(&mut self, trigger: Trigger) -> (dropped: bool)
        ensures
            dropped == drops_all(trigger),
            final(self).stored() == if drops_all(trigger) {
                no_listings()
            } else {
                old(self).stored()
            },
            final(self).same_limits(*old(self)),
    {
        let due = match trigger {
            Trigger::Timer => true,
            Trigger::Signal(number) => number == SIGHUP,
            Trigger::Direct => true,
        };
        if due {
            self.invalidate_all();
        }
        due
    }
}

} // verus!
