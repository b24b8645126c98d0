//! The session cache: at most one entry per site, each with the instant at
//! which it was cached, and the sweep that evicts by three expiry signals.

use vstd::prelude::*;
use vstd::seq_lib::seq_to_set_is_finite;
use crate::instant::{elapsed_minutes, elapsed_minutes_spec, Instant, MILLIS_PER_MINUTE};
use crate::models::{ClassData, ClassDataView};
use crate::time_utils::{parsed_time, TimeProcessor};

verus! {

/// A session record in the cache, with the instant of its insertion.
#[derive(Debug, PartialEq, Eq)]
pub struct CachedEntry {
    pub record: ClassData,
    pub cached_at: Instant,
}

pub struct CachedEntryView {
    pub record: ClassDataView,
    pub cached_at: int,
}

impl View for CachedEntry {
    type V = CachedEntryView;

    open spec fn view(&self) -> CachedEntryView {
        CachedEntryView { record: self.record@, cached_at: self.cached_at@ }
    }
}

/// Whether no two of the entries are of the same site.
pub open spec fn has_distinct_keys(entries: Seq<CachedEntry>) -> bool {
    forall|i: int, j: int|
        0 <= i < entries.len() && 0 <= j < entries.len() && i != j
            ==> entries[i].record.site_id@ != entries[j].record.site_id@
}

/// Whether one of the entries is of the site `key`.
pub open spec fn holds_key(entries: Seq<CachedEntry>, key: Seq<char>) -> bool {
    exists|i: int| 0 <= i < entries.len() && #[trigger] entries[i].record.site_id@ == key
}

/// The entries by site.
pub open spec fn entries_by_key(entries: Seq<CachedEntry>) -> Map<Seq<char>, CachedEntryView> {
    Map::new(
        |key: Seq<char>| holds_key(entries, key),
        |key: Seq<char>|
            entries[choose|i: int|
                0 <= i < entries.len() && #[trigger] entries[i].record.site_id@ == key]@,
    )
}

/// Whether the scan that the record holds lies more than `course_ttl` whole
/// minutes before `now`. A record without a scan, or with a timestamp that
/// names no instant, has not aged out.
pub open spec fn has_aged_out(record: ClassDataView, now: int, course_ttl: int) -> bool {
    match record.last_created_time {
        Some(text) => match parsed_time(text) {
            Some(scanned) => elapsed_minutes_spec(scanned, now) > course_ttl,
            None => false,
        },
        None => false,
    }
}

/// Whether the sweep at `now` evicts the entry: it was cached more than
/// `cache_ttl` minutes ago, or its record is flagged expired, or its scan has
/// aged out.
pub open spec fn is_stale(
    entry: CachedEntryView,
    now: int,
    cache_ttl: int,
    course_ttl: int,
) -> bool {
    ||| now - entry.cached_at > cache_ttl * MILLIS_PER_MINUTE
    ||| entry.record.is_expired
    ||| has_aged_out(entry.record, now, course_ttl)
}

/// The sites whose entries the sweep at `now` evicts.
pub open spec fn evicted_keys(
    cache: Map<Seq<char>, CachedEntryView>,
    now: int,
    cache_ttl: int,
    course_ttl: int,
) -> Set<Seq<char>> {
    Set::new(
        |key: Seq<char>|
            cache.dom().contains(key) && is_stale(cache[key], now, cache_ttl, course_ttl),
    )
}

/// The cache after the sweep at `now`: the entries that are not evicted, as
/// they were.
pub open spec fn survivors(
    cache: Map<Seq<char>, CachedEntryView>,
    now: int,
    cache_ttl: int,
    course_ttl: int,
) -> Map<Seq<char>, CachedEntryView> {
    cache.remove_keys(evicted_keys(cache, now, cache_ttl, course_ttl))
}

/// Whether `key` is among the listed sites.
pub open spec fn lists_key(keys: Seq<String>, key: Seq<char>) -> bool {
    exists|j: int| 0 <= j < keys.len() && #[trigger] keys[j]@ == key
}

/// Whether no site is listed twice.
pub open spec fn lists_each_once(keys: Seq<String>) -> bool {
    forall|i: int, j: int|
        0 <= i < keys.len() && 0 <= j < keys.len() && i != j ==> keys[i]@ != keys[j]@
}

/// A sweep that follows a sweep at the same instant and with the same limits
/// evicts nothing and leaves the cache as it is.
pub proof fn lemma_second_sweep_evicts_nothing(
    cache: Map<Seq<char>, CachedEntryView>,
    now: int,
    cache_ttl: int,
    course_ttl: int,
)
    ensures
        evicted_keys(survivors(cache, now, cache_ttl, course_ttl), now, cache_ttl, course_ttl)
            == Set::<Seq<char>>::empty(),
        survivors(survivors(cache, now, cache_ttl, course_ttl), now, cache_ttl, course_ttl)
            == survivors(cache, now, cache_ttl, course_ttl),
{
    let once = survivors(cache, now, cache_ttl, course_ttl);
    assert(evicted_keys(once, now, cache_ttl, course_ttl) =~= Set::<Seq<char>>::empty());
    assert(survivors(once, now, cache_ttl, course_ttl) =~= once);
}

/// Among entries of distinct sites, the entry at a position is the one its
/// site leads to.
pub proof fn lemma_entry_by_key(entries: Seq<CachedEntry>, at: int)
    requires
        has_distinct_keys(entries),
        0 <= at < entries.len(),
    ensures
        entries_by_key(entries).dom().contains(entries[at].record.site_id@),
        entries_by_key(entries)[entries[at].record.site_id@] == entries[at]@,
{
    let key = entries[at].record.site_id@;
    assert(holds_key(entries, key));
    let chosen = choose|i: int|
        0 <= i < entries.len() && #[trigger] entries[i].record.site_id@ == key;
    assert(chosen == at);
}

/// The in-memory mirror of the store: a map from site to cached record. The
/// entries stand in a vector and are found by the text of their site; no two
/// of them are of one site.
pub struct CourseCache {
    entries: Vec<CachedEntry>,
    last_cleanup: Option<Instant>,
}

impl View for CourseCache {
    type V = Map<Seq<char>, CachedEntryView>;

    closed spec fn view(&self) -> Map<Seq<char>, CachedEntryView> {
        entries_by_key(self.entries@)
    }
}

impl CourseCache {
    #[verifier::type_invariant]
    spec fn distinct(self) -> bool {
        has_distinct_keys(self.entries@)
    }

    /// The instant of the last sweep, if there was one.
    pub closed spec fn swept_at(&self) -> Option<int> {
        match self.last_cleanup {
            Some(at) => Some(at@),
            None => None,
        }
    }

    /// An empty cache that was never swept.
    pub fn new() -> (cache: Self)
        ensures
            cache@ == Map::<Seq<char>, CachedEntryView>::empty(),
            cache.swept_at() is None,
    {
        let cache = CourseCache { entries: Vec::new(), last_cleanup: None };
        assert(cache@ =~= Map::<Seq<char>, CachedEntryView>::empty());
        cache
    }

    /// The position of the entry of site `key`, if there is one.
    fn position(&self, key: &String) -> (at: Option<usize>)
        ensures
            match at {
                Some(i) => i < self.entries.len() && self.entries[i as int].record.site_id@
                    == key@,
                None => !holds_key(self.entries@, key@),
            },
    {
        let mut i: usize = 0;
        while i < self.entries.len()
            invariant
                i <= self.entries.len(),
                forall|j: int| 0 <= j < i ==> self.entries[j].record.site_id@ != key@,
            decreases self.entries.len() - i,
        {
            if self.entries[i].record.site_id == *key {
                return Some(i);
            }
            i += 1;
        }
        None
    }

    /// The cached record of site `key`, if the cache holds one. Changes
    /// nothing.
    pub fn get(&self, key: &str) -> (record: Option<ClassData>)
        ensures
            match record {
                Some(r) => self@.dom().contains(key@) && self@[key@].record == r@,
                None => !self@.dom().contains(key@),
            },
    {
        proof {
            use_type_invariant(self);
        }
        let owned = key.to_owned();
        match self.position(&owned) {
            Some(i) => {
                proof {
                    lemma_entry_by_key(self.entries@, i as int);
                }
                Some(self.entries[i].record.clone())
            },
            None => None,
        }
    }

    /// The number of cached records.
    pub fn len(&self) -> (count: usize)
        ensures
            self@.dom().finite(),
            count == self@.dom().len(),
    {
        proof {
            use_type_invariant(self);
            let keys = self.entries@.map_values(|e: CachedEntry| e.record.site_id@);
            assert(keys.no_duplicates());
            keys.unique_seq_to_set();
            seq_to_set_is_finite(keys);
            assert forall|k: Seq<char>| keys.to_set().contains(k) <==> holds_key(
                self.entries@,
                k,
            ) by {
                if keys.contains(k) {
                    let i = choose|i: int| 0 <= i < keys.len() && keys[i] == k;
                    assert(self.entries@[i].record.site_id@ == k);
                }
                if holds_key(self.entries@, k) {
                    let i = choose|i: int|
                        0 <= i < self.entries@.len() && #[trigger] self.entries@[i].record.site_id@
                            == k;
                    assert(keys[i] == k);
                }
            }
            assert(self@.dom() =~= keys.to_set());
        }
        self.entries.len()
    }

    /// The instant of the last sweep, if there was one.
    pub fn last_cleanup(&self) -> (at: Option<Instant>)
        ensures
            match at {
                Some(t) => self.swept_at() == Some(t@),
                None => self.swept_at() is None,
            },
    {
        self.last_cleanup
    }

    /// Caches `record` as of `now`, in place of any record of the same site.
    pub fn insert(&mut self, record: ClassData, now: Instant)
        ensures
            final(self)@ == old(self)@.insert(
                record.site_id@,
                CachedEntryView { record: record@, cached_at: now@ },
            ),
            final(self).swept_at() == old(self).swept_at(),
    {
        proof {
            use_type_invariant(&*self);
        }
        let ghost before = self.entries@;
        let ghost key = record.site_id@;
        let at = self.position(&record.site_id);
        let entry = CachedEntry { record, cached_at: now };
        let mut entries: Vec<CachedEntry> = Vec::new();
        std::mem::swap(&mut self.entries, &mut entries);
        match at {
            Some(i) => {
                entries.set(i, entry);
            },
            None => {
                entries.push(entry);
            },
        }
        proof {
            let after = entries@;
            assert(has_distinct_keys(after));
            assert forall|k: Seq<char>| holds_key(after, k) <==> (k == key || holds_key(
                before,
                k,
            )) by {
                if holds_key(after, k) {
                    let j = choose|j: int|
                        0 <= j < after.len() && #[trigger] after[j].record.site_id@ == k;
                    if k != key {
                        assert(before[j].record.site_id@ == k);
                    }
                }
                if k == key {
                    match at {
                        Some(i) => {
                            assert(after[i as int].record.site_id@ == k);
                        },
                        None => {
                            assert(after[before.len() as int].record.site_id@ == k);
                        },
                    }
                } else if holds_key(before, k) {
                    let j = choose|j: int|
                        0 <= j < before.len() && #[trigger] before[j].record.site_id@ == k;
                    assert(after[j].record.site_id@ == k);
                }
            }
            assert forall|k: Seq<char>| holds_key(after, k) implies entries_by_key(after)[k]
                == entries_by_key(before).insert(key, entry@)[k] by {
                let j = choose|j: int|
                    0 <= j < after.len() && #[trigger] after[j].record.site_id@ == k;
                lemma_entry_by_key(after, j);
                if k != key {
                    lemma_entry_by_key(before, j);
                }
            }
            assert(entries_by_key(after) =~= entries_by_key(before).insert(key, entry@));
        }
        self.entries = entries;
    }

    /// Takes the entry of site `key` out of the cache, if the cache holds one.
    /// A `get` of the same site misses from then on, until the next `insert`.
    pub fn remove(&mut self, key: &str) -> (entry: Option<CachedEntry>)
        ensures
            final(self)@ == old(self)@.remove(key@),
            !final(self)@.dom().contains(key@),
            final(self).swept_at() == old(self).swept_at(),
            match entry {
                Some(e) => old(self)@.dom().contains(key@) && old(self)@[key@] == e@,
                None => !old(self)@.dom().contains(key@),
            },
    {
        proof {
            use_type_invariant(&*self);
        }
        let ghost before = self.entries@;
        let owned = key.to_owned();
        match self.position(&owned) {
            None => {
                assert(entries_by_key(before) =~= entries_by_key(before).remove(key@));
                None
            },
            Some(i) => {
                let mut entries: Vec<CachedEntry> = Vec::new();
                std::mem::swap(&mut self.entries, &mut entries);
                let entry = entries.remove(i);
                proof {
                    lemma_entry_by_key(before, i as int);
                    lemma_entries_without(before, i as int);
                }
                self.entries = entries;
                Some(entry)
            },
        }
    }

    /// Whether the sweep at `now` evicts the entry.
    fn is_entry_stale(entry: &CachedEntry, now: Instant, cache_ttl: i64, course_ttl: i64) -> (stale:
        bool)
        ensures
            stale == is_stale(entry@, now@, cache_ttl as int, course_ttl as int),
    {
        let age: i64 = now.millis() - entry.cached_at.millis();
        if (age as i128) > (cache_ttl as i128) * (MILLIS_PER_MINUTE as i128) {
            return true;
        }
        if entry.record.is_expired {
            return true;
        }
        match &entry.record.last_created_time {
            Some(text) => match TimeProcessor::parse_time_string(text.as_str()) {
                Ok(scanned) => elapsed_minutes(scanned, now) > course_ttl,
                Err(_) => false,
            },
            None => false,
        }
    }

    /// Sweeps the cache at `now`: evicts every entry that was cached more than
    /// `cache_ttl` minutes ago, whose record is flagged expired, or whose scan
    /// lies more than `course_ttl` whole minutes back. Returns the sites of the
    /// evicted entries, each once, for the caller to flag them expired in the
    /// store.
    pub fn cleanup_expired(&mut self, now: Instant, cache_ttl: i64, course_ttl: i64) -> (evicted:
        Vec<String>)
        ensures
            final(self)@ == survivors(old(self)@, now@, cache_ttl as int, course_ttl as int),
            forall|key: Seq<char>|
                final(self)@.dom().contains(key) ==> !is_stale(
                    #[trigger] final(self)@[key],
                    now@,
                    cache_ttl as int,
                    course_ttl as int,
                ),
            forall|key: Seq<char>|
                lists_key(evicted@, key) <==> evicted_keys(
                    old(self)@,
                    now@,
                    cache_ttl as int,
                    course_ttl as int,
                ).contains(key),
            lists_each_once(evicted@),
            final(self).swept_at() == Some(now@),
    {
        proof {
            use_type_invariant(&*self);
        }
        let ghost before = self.entries@;
        let ghost cache = entries_by_key(before);
        let mut entries: Vec<CachedEntry> = Vec::new();
        std::mem::swap(&mut self.entries, &mut entries);
        let mut evicted: Vec<String> = Vec::new();
        let mut i: usize = 0;
        proof {
            assert forall|idx: int| 0 <= idx < entries@.len() implies cache.dom().contains(
                #[trigger] entries@[idx].record.site_id@,
            ) && cache[entries@[idx].record.site_id@] == entries@[idx]@ by {
                lemma_entry_by_key(before, idx);
            }
        }
        while i < entries.len()
            invariant
                i <= entries.len(),
                cache == entries_by_key(before),
                has_distinct_keys(entries@),
                forall|idx: int|
                    0 <= idx < entries@.len() ==> cache.dom().contains(
                        #[trigger] entries@[idx].record.site_id@,
                    ) && cache[entries@[idx].record.site_id@] == entries@[idx]@,
                forall|idx: int|
                    0 <= idx < i ==> !is_stale(
                        #[trigger] entries@[idx]@,
                        now@,
                        cache_ttl as int,
                        course_ttl as int,
                    ),
                forall|j: int|
                    0 <= j < evicted@.len() ==> cache.dom().contains(#[trigger] evicted@[j]@)
                        && is_stale(cache[evicted@[j]@], now@, cache_ttl as int, course_ttl as int)
                        && !holds_key(entries@, evicted@[j]@),
                forall|key: Seq<char>|
                    cache.dom().contains(key) ==> holds_key(entries@, key) || lists_key(
                        evicted@,
                        key,
                    ),
                lists_each_once(evicted@),
            decreases entries.len() - i,
        {
            if Self::is_entry_stale(&entries[i], now, cache_ttl, course_ttl) {
                let ghost held = entries@;
                let ghost listed = evicted@;
                let entry = entries.remove(i);
                proof {
                    lemma_entries_without(held, i as int);
                }
                evicted.push(entry.record.site_id);
                proof {
                    let gone = held[i as int].record.site_id@;
                    assert(evicted@[listed.len() as int]@ == gone);
                    assert forall|j: int| 0 <= j < evicted@.len() implies cache.dom().contains(
                        #[trigger] evicted@[j]@,
                    ) && is_stale(cache[evicted@[j]@], now@, cache_ttl as int, course_ttl as int)
                        && !holds_key(entries@, evicted@[j]@) by {
                        if j < listed.len() {
                            assert(evicted@[j] == listed[j]);
                            assert(!holds_key(held, listed[j]@));
                        }
                    }
                    assert forall|key: Seq<char>| cache.dom().contains(key) implies holds_key(
                        entries@,
                        key,
                    ) || lists_key(evicted@, key) by {
                        if key == gone {
                            assert(lists_key(evicted@, key));
                        } else if lists_key(listed, key) {
                            let j = choose|j: int|
                                0 <= j < listed.len() && #[trigger] listed[j]@ == key;
                            assert(evicted@[j]@ == key);
                        }
                    }
                    assert forall|a: int, b: int|
                        0 <= a < evicted@.len() && 0 <= b < evicted@.len() && a != b implies
                        evicted@[a]@ != evicted@[b]@ by {
                        if a < listed.len() && b < listed.len() {
                            assert(evicted@[a] == listed[a] && evicted@[b] == listed[b]);
                        } else if a < listed.len() {
                            assert(evicted@[a] == listed[a]);
                            assert(!holds_key(held, listed[a]@));
                        } else {
                            assert(evicted@[b] == listed[b]);
                            assert(!holds_key(held, listed[b]@));
                        }
                    }
                }
            } else {
                i += 1;
            }
        }
        proof {
            let after = entries@;
            let swept = survivors(cache, now@, cache_ttl as int, course_ttl as int);
            assert forall|key: Seq<char>| holds_key(after, key) <==> swept.dom().contains(
                key,
            ) by {
                if holds_key(after, key) {
                    let idx = choose|idx: int|
                        0 <= idx < after.len() && #[trigger] after[idx].record.site_id@ == key;
                    assert(!is_stale(after[idx]@, now@, cache_ttl as int, course_ttl as int));
                }
                if swept.dom().contains(key) {
                    if lists_key(evicted@, key) {
                        let j = choose|j: int|
                            0 <= j < evicted@.len() && #[trigger] evicted@[j]@ == key;
                    }
                }
            }
            assert forall|key: Seq<char>| holds_key(after, key) implies entries_by_key(after)[key]
                == swept[key] by {
                let idx = choose|idx: int|
                    0 <= idx < after.len() && #[trigger] after[idx].record.site_id@ == key;
                lemma_entry_by_key(after, idx);
            }
            assert(entries_by_key(after) =~= swept);
            assert forall|key: Seq<char>| lists_key(evicted@, key) <==> evicted_keys(
                cache,
                now@,
                cache_ttl as int,
                course_ttl as int,
            ).contains(key) by {
                if lists_key(evicted@, key) {
                    let j = choose|j: int|
                        0 <= j < evicted@.len() && #[trigger] evicted@[j]@ == key;
                }
                if cache.dom().contains(key) && is_stale(
                    cache[key],
                    now@,
                    cache_ttl as int,
                    course_ttl as int,
                ) {
                    if holds_key(after, key) {
                        let idx = choose|idx: int|
                            0 <= idx < after.len() && #[trigger] after[idx].record.site_id@
                                == key;
                        assert(!is_stale(after[idx]@, now@, cache_ttl as int, course_ttl as int));
                    }
                }
            }
        }
        self.entries = entries;
        self.last_cleanup = Some(now);
        evicted
    }
}

/// Taking the entry at a position out of entries of distinct sites leaves
/// entries of distinct sites, and takes that site, and no other, out of the
/// map.
pub proof fn lemma_entries_without(entries: Seq<CachedEntry>, at: int)
    requires
        has_distinct_keys(entries),
        0 <= at < entries.len(),
    ensures
        has_distinct_keys(entries.remove(at)),
        !holds_key(entries.remove(at), entries[at].record.site_id@),
        forall|key: Seq<char>|
            key != entries[at].record.site_id@ ==> (holds_key(entries.remove(at), key)
                <==> holds_key(entries, key)),
        entries_by_key(entries.remove(at)) == entries_by_key(entries).remove(
            entries[at].record.site_id@,
        ),
{
    let rest = entries.remove(at);
    let gone = entries[at].record.site_id@;
    assert forall|i: int, j: int|
        0 <= i < rest.len() && 0 <= j < rest.len() && i != j implies rest[i].record.site_id@
        != rest[j].record.site_id@ by {
        let a = if i < at { i } else { i + 1 };
        let b = if j < at { j } else { j + 1 };
        assert(rest[i] == entries[a] && rest[j] == entries[b]);
    }
    assert forall|i: int| 0 <= i < rest.len() implies #[trigger] rest[i].record.site_id@
        != gone by {
        let a = if i < at { i } else { i + 1 };
        assert(rest[i] == entries[a]);
    }
    assert forall|key: Seq<char>| key != gone implies (holds_key(rest, key) <==> holds_key(
        entries,
        key,
    )) by {
        if holds_key(rest, key) {
            let i = choose|i: int| 0 <= i < rest.len() && #[trigger] rest[i].record.site_id@ == key;
            let a = if i < at { i } else { i + 1 };
            assert(entries[a].record.site_id@ == key);
        }
        if holds_key(entries, key) {
            let a = choose|a: int|
                0 <= a < entries.len() && #[trigger] entries[a].record.site_id@ == key;
            let i = if a < at { a } else { a - 1 };
            assert(rest[i].record.site_id@ == key);
        }
    }
    assert forall|key: Seq<char>| holds_key(rest, key) implies entries_by_key(rest)[key]
        == entries_by_key(entries).remove(gone)[key] by {
        let i = choose|i: int| 0 <= i < rest.len() && #[trigger] rest[i].record.site_id@ == key;
        let a = if i < at { i } else { i + 1 };
        assert(rest[i] == entries[a]);
        lemma_entry_by_key(rest, i);
        lemma_entry_by_key(entries, a);
    }
    assert(entries_by_key(rest) =~= entries_by_key(entries).remove(gone));
}

} // verus!
