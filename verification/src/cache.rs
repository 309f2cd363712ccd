//! The in-memory cache of heuristics and recent events.
//!
//! Heuristics are kept by identifier, at most `max_heuristics` of them. Each
//! carries the time of its last access and, to tell apart accesses that fall
//! into the same millisecond, the number of the operation that last placed it.
//! When room is needed the least recently used heuristic leaves. A heuristic
//! past its lifetime stays resident but no lookup returns it.
//!
//! The cache is not synchronised; callers that share it guard it themselves.

use crate::clock::current_time_ms;
use crate::embedding::{cosine_similarity, is_similarity, kernel_accepts};
use crate::heuristic::{CacheConfig, CacheStats, CachedEvent, CachedHeuristic};
use crate::model::{
    event_age, ids_of, is_candidate, is_confident, is_listing, is_oldest, is_oldest_event,
    lemma_oldest_event_unique, lemma_oldest_unique, oldest, oldest_event, recency, score,
    CacheModel, MatchQuery, Slot,
};
use crate::ranking::{before, comes_before, distinct_ids, is_top_of, last_of, rank_top, Ranked};
use crate::scalar::Scalar;
use std::collections::HashMap;
use vstd::prelude::*;
use vstd::std_specs::iter::IteratorSpec;

verus! {

/// The cache itself.
pub struct MemoryCache {
    events_by_id: HashMap<u128, CachedEvent>,
    heuristics: HashMap<u128, Slot>,
    config: CacheConfig,
    total_hits: u64,
    total_misses: u64,
    next_tick: u64,
}

impl View for MemoryCache {
    type V = CacheModel;

    closed spec fn view(&self) -> CacheModel {
        CacheModel {
            heuristics: self.heuristics@,
            events: self.events_by_id@,
            config: self.config,
            total_hits: self.total_hits,
            total_misses: self.total_misses,
            next_tick: self.next_tick,
        }
    }
}

/// The keys of a map, each once, in the order in which the map hands them out.
fn keys_of<V>(m: &HashMap<u128, V>) -> (keys: Vec<u128>)
    ensures
        keys@.no_duplicates(),
        keys@.to_set() == m@.dom(),
        keys@.len() == m@.dom().len(),
{
    broadcast use vstd::std_specs::hash::group_hash_axioms;

    let mut keys: Vec<u128> = Vec::new();
    for k in it: m.keys()
        invariant
            keys@.len() == it.index(),
            it.seq() == m.keys().remaining(),
            keys@ == m.keys().remaining().take(keys@.len() as int).unref(),
    {
        keys.push(*k);
    }
    proof {
        let all = m.keys().remaining();
        assert(all.take(keys@.len() as int) =~= all);
    }
    keys
}

/// The heuristics of a map as entries of a ranking by use, one for each.
fn recency_items(heuristics: &HashMap<u128, Slot>) -> (items: Vec<Ranked>)
    ensures
        distinct_ids(items@),
        items@.len() == heuristics@.len(),
        forall|i: int|
            0 <= i < items@.len() ==> heuristics@.contains_key((#[trigger] items@[i]).id)
                && items@[i] == recency(heuristics@, items@[i].id),
        forall|id: u128|
            heuristics@.contains_key(id) ==> items@.contains(#[trigger] recency(heuristics@, id)),
{
    broadcast use vstd::std_specs::hash::group_hash_axioms;

    let keys = keys_of(heuristics);
    let ghost m = heuristics@;
    let mut items: Vec<Ranked> = Vec::new();
    let mut i: usize = 0;
    while i < keys.len()
        invariant
            i <= keys.len(),
            m == heuristics@,
            keys@.to_set() == m.dom(),
            items@.len() == i,
            forall|j: int| 0 <= j < i ==> #[trigger] items@[j] == recency(m, keys@[j]),
        decreases keys.len() - i,
    {
        let k = keys[i];
        assert(keys@.to_set().contains(keys@[i as int]));
        let found = heuristics.get(&k);
        assert(found is Some);
        let slot = found.unwrap();
        items.push(Ranked { id: k, major: slot.heuristic.last_accessed_ms, minor: slot.tick });
        i += 1;
    }
    proof {
        assert forall|a: int, b: int| 0 <= a < b < items@.len() implies (#[trigger] items@[a]).id
            != (#[trigger] items@[b]).id by {
            assert(keys@[a] != keys@[b]);
        }
        assert forall|j: int| 0 <= j < items@.len() implies m.contains_key(
            (#[trigger] items@[j]).id,
        ) by {
            assert(keys@.to_set().contains(keys@[j]));
        }
        assert forall|id: u128| m.contains_key(id) implies items@.contains(
            #[trigger] recency(m, id),
        ) by {
            assert(keys@.to_set().contains(id));
            let j = choose|j: int| 0 <= j < keys@.len() && keys@[j] == id;
            assert(items@[j] == recency(m, id));
        }
    }
    items
}

/// The events of a map as entries of a ranking by age, one for each.
fn age_items(events: &HashMap<u128, CachedEvent>) -> (items: Vec<Ranked>)
    ensures
        distinct_ids(items@),
        items@.len() == events@.len(),
        forall|i: int|
            0 <= i < items@.len() ==> events@.contains_key((#[trigger] items@[i]).id)
                && items@[i] == event_age(events@, items@[i].id),
        forall|id: u128|
            events@.contains_key(id) ==> items@.contains(#[trigger] event_age(events@, id)),
{
    broadcast use vstd::std_specs::hash::group_hash_axioms;

    let keys = keys_of(events);
    let ghost m = events@;
    let mut items: Vec<Ranked> = Vec::new();
    let mut i: usize = 0;
    while i < keys.len()
        invariant
            i <= keys.len(),
            m == events@,
            keys@.to_set() == m.dom(),
            items@.len() == i,
            forall|j: int| 0 <= j < i ==> #[trigger] items@[j] == event_age(m, keys@[j]),
        decreases keys.len() - i,
    {
        let k = keys[i];
        assert(keys@.to_set().contains(keys@[i as int]));
        let found = events.get(&k);
        assert(found is Some);
        items.push(Ranked { id: k, major: found.unwrap().timestamp_ms, minor: 0 });
        i += 1;
    }
    proof {
        assert forall|a: int, b: int| 0 <= a < b < items@.len() implies (#[trigger] items@[a]).id
            != (#[trigger] items@[b]).id by {
            assert(keys@[a] != keys@[b]);
        }
        assert forall|j: int| 0 <= j < items@.len() implies m.contains_key(
            (#[trigger] items@[j]).id,
        ) by {
            assert(keys@.to_set().contains(keys@[j]));
        }
        assert forall|id: u128| m.contains_key(id) implies items@.contains(
            #[trigger] event_age(m, id),
        ) by {
            assert(keys@.to_set().contains(id));
            let j = choose|j: int| 0 <= j < keys@.len() && keys@[j] == id;
            assert(items@[j] == event_age(m, id));
        }
    }
    items
}

/// The least recently used heuristic of a map, if it holds any.
fn oldest_key(heuristics: &HashMap<u128, Slot>) -> (r: Option<u128>)
    ensures
        match r {
            Some(id) => is_oldest(heuristics@, id) && oldest(heuristics@) == id,
            None => heuristics@.len() == 0,
        },
{
    let items = recency_items(heuristics);
    match last_of(&items) {
        None => None,
        Some(last) => {
            proof {
                let m = heuristics@;
                let j = choose|j: int| 0 <= j < items@.len() && items@[j] == last;
                assert(last == recency(m, last.id));
                assert forall|other: u128|
                    m.contains_key(other) && other != last.id implies before(
                    #[trigger] recency(m, other),
                    recency(m, last.id),
                ) by {
                    let x = recency(m, other);
                    assert(items@.contains(x));
                    let k = choose|k: int| 0 <= k < items@.len() && items@[k] == x;
                    assert(before(items@[k], last));
                }
                lemma_oldest_unique(m, last.id, last.id);
            }
            Some(last.id)
        },
    }
}

/// The identifiers of `heuristics` from the most to the least recently used,
/// cut to `limit`.
fn ranked_ids(heuristics: &HashMap<u128, Slot>, limit: usize) -> (ids: Vec<u128>)
    ensures
        is_listing(heuristics@, ids@, limit as nat),
{
    let items = recency_items(heuristics);
    let ghost m = heuristics@;
    let top = rank_top(&items, limit);
    let mut ids: Vec<u128> = Vec::new();
    let mut n: usize = 0;
    while n < top.len()
        invariant
            n <= top.len(),
            ids@.len() == n,
            forall|j: int| 0 <= j < n ==> #[trigger] ids@[j] == top@[j].id,
        decreases top.len() - n,
    {
        ids.push(top[n].id);
        n += 1;
    }
    proof {
        assert(is_top_of(top@, items@, limit as nat));
        assert forall|i: int| 0 <= i < ids@.len() implies m.contains_key(#[trigger] ids@[i])
            && recency(m, ids@[i]) == top@[i] by {
            assert(items@.contains(top@[i]));
            let j = choose|j: int| 0 <= j < items@.len() && items@[j] == top@[i];
            assert(items@[j] == recency(m, items@[j].id));
        }
        assert forall|a: int, b: int| 0 <= a < b < ids@.len() implies before(
            #[trigger] recency(m, ids@[a]),
            #[trigger] recency(m, ids@[b]),
        ) by {
            assert(before(top@[a], top@[b]));
        }
        assert forall|id: u128, i: int|
            m.contains_key(id) && !ids@.contains(id) && 0 <= i < ids@.len() implies before(
            #[trigger] recency(m, ids@[i]),
            #[trigger] recency(m, id),
        ) by {
            let x = recency(m, id);
            assert(items@.contains(x));
            if top@.contains(x) {
                let q = choose|q: int| 0 <= q < top@.len() && top@[q] == x;
                assert(ids@[q] == id);
            }
            assert(before(top@[i], x));
        }
    }
    ids
}

/// The oldest event of a map, if it holds any.
fn oldest_event_key(events: &HashMap<u128, CachedEvent>) -> (r: Option<u128>)
    ensures
        match r {
            Some(id) => is_oldest_event(events@, id) && oldest_event(events@) == id,
            None => events@.len() == 0,
        },
{
    let items = age_items(events);
    match last_of(&items) {
        None => None,
        Some(last) => {
            proof {
                let m = events@;
                let j = choose|j: int| 0 <= j < items@.len() && items@[j] == last;
                assert(last == event_age(m, last.id));
                assert forall|other: u128|
                    m.contains_key(other) && other != last.id implies before(
                    #[trigger] event_age(m, other),
                    event_age(m, last.id),
                ) by {
                    let x = event_age(m, other);
                    assert(items@.contains(x));
                    let k = choose|k: int| 0 <= k < items@.len() && items@[k] == x;
                    assert(before(items@[k], last));
                }
                lemma_oldest_event_unique(m, last.id, last.id);
            }
            Some(last.id)
        },
    }
}

impl MemoryCache {
    #[verifier::type_invariant]
    spec fn well_formed(self) -> bool {
        self@.is_valid()
    }

    /// An empty cache under `config`.
    pub fn new(config: CacheConfig) -> (cache: Self)
        ensures
            cache@ == CacheModel::empty(config),
            cache@.is_valid(),
    {
        broadcast use vstd::std_specs::hash::group_hash_axioms;

        MemoryCache {
            events_by_id: HashMap::new(),
            heuristics: HashMap::new(),
            config,
            total_hits: 0,
            total_misses: 0,
            next_tick: 0,
        }
    }

    /// Counts one more lookup that the cache answered.
    pub fn record_hit(&mut self)
        requires
            old(self)@.total_hits < u64::MAX,
        ensures
            final(self)@ == (CacheModel {
                total_hits: (old(self)@.total_hits + 1) as u64,
                ..old(self)@
            }),
            final(self)@.is_valid(),
    {
        proof {
            use_type_invariant(&*self);
        }
        self.total_hits = self.total_hits + 1;
    }

    /// Counts one more lookup that had to go to storage.
    pub fn record_miss(&mut self)
        requires
            old(self)@.total_misses < u64::MAX,
        ensures
            final(self)@ == (CacheModel {
                total_misses: (old(self)@.total_misses + 1) as u64,
                ..old(self)@
            }),
            final(self)@.is_valid(),
    {
        proof {
            use_type_invariant(&*self);
        }
        self.total_misses = self.total_misses + 1;
    }

    /// The heuristic filed under `id`. Looking does not count as use.
    pub fn get_heuristic(&self, id: &u128) -> (found: Option<&CachedHeuristic>)
        ensures
            match found {
                Some(h) => self@.heuristics.contains_key(*id) && *h
                    == self@.heuristics[*id].heuristic,
                None => !self@.heuristics.contains_key(*id),
            },
    {
        broadcast use vstd::std_specs::hash::group_hash_axioms;

        match self.heuristics.get(id) {
            Some(slot) => Some(&slot.heuristic),
            None => None,
        }
    }

    /// Removes the heuristic filed under `id` and says whether there was one.
    pub fn remove_heuristic(&mut self, id: &u128) -> (found: bool)
        ensures
            found == old(self)@.heuristics.contains_key(*id),
            final(self)@ == (CacheModel {
                heuristics: old(self)@.heuristics.remove(*id),
                ..old(self)@
            }),
            final(self)@.is_valid(),
    {
        broadcast use vstd::std_specs::hash::group_hash_axioms;

        proof {
            use_type_invariant(&*self);
        }
        // The map is taken out while it changes and put back when it is
        // whole again, so that the cache is valid at every step.
        let mut heuristics: HashMap<u128, Slot> = HashMap::new();
        std::mem::swap(&mut heuristics, &mut self.heuristics);
        let removed = heuristics.remove(id);
        self.heuristics = heuristics;
        removed.is_some()
    }

    /// Removes every heuristic and says how many there were.
    pub fn flush_heuristics(&mut self) -> (count: usize)
        ensures
            count == old(self)@.heuristics.len(),
            final(self)@ == (CacheModel { heuristics: Map::empty(), ..old(self)@ }),
            final(self)@.is_valid(),
    {
        broadcast use vstd::std_specs::hash::group_hash_axioms;

        proof {
            use_type_invariant(&*self);
        }
        let count = self.heuristics.len();
        self.heuristics = HashMap::new();
        count
    }

    /// Adds `heuristic` as of `now_ms`. A heuristic that carries no insertion
    /// time is stamped with `now_ms`. If the cache is at its capacity the least
    /// recently used heuristic leaves first; then the new one is filed under
    /// its identifier, replacing any that was there.
    pub fn add_heuristic_at(&mut self, heuristic: CachedHeuristic, now_ms: i64)
        ensures
            final(self)@ == old(self)@.with_heuristic(heuristic.spec_stamped(now_ms)),
            final(self)@.is_valid(),
    {
        broadcast use vstd::std_specs::hash::group_hash_axioms;

        proof {
            use_type_invariant(&*self);
        }
        let stamped = heuristic.stamped(now_ms);
        let mut heuristics: HashMap<u128, Slot> = HashMap::new();
        std::mem::swap(&mut heuristics, &mut self.heuristics);
        if heuristics.len() > 0 && heuristics.len() >= self.config.max_heuristics {
            match oldest_key(&heuristics) {
                Some(victim) => {
                    heuristics.remove(&victim);
                },
                None => {},
            }
        }
        assert(heuristics@ == old(self)@.with_room());
        let id = stamped.id;
        let tick = self.next_tick;
        heuristics.insert(id, Slot { heuristic: stamped, tick });
        if tick < u64::MAX {
            self.next_tick = tick + 1;
        }
        self.heuristics = heuristics;
    }

    /// Adds `heuristic` as of the current time.
    pub fn add_heuristic(&mut self, heuristic: CachedHeuristic)
        ensures
            exists|now_ms: i64|
                final(self)@ == #[trigger] old(self)@.with_heuristic(
                    heuristic.spec_stamped(now_ms),
                ),
            final(self)@.is_valid(),
    {
        let now_ms = current_time_ms();
        self.add_heuristic_at(heuristic, now_ms);
    }

    /// Marks the heuristic filed under `id` as used at `now_ms`: both its
    /// access time and its hit time become `now_ms` and its hit count grows
    /// by one. Does nothing when there is no such heuristic.
    pub fn touch_heuristic_at(&mut self, id: &u128, now_ms: i64)
        requires
            old(self)@.heuristics.contains_key(*id) ==> old(
                self,
            )@.heuristics[*id].heuristic.hit_count < u64::MAX,
        ensures
            final(self)@ == old(self)@.with_touch(*id, now_ms),
            final(self)@.is_valid(),
    {
        broadcast use vstd::std_specs::hash::group_hash_axioms;

        proof {
            use_type_invariant(&*self);
        }
        let mut heuristics: HashMap<u128, Slot> = HashMap::new();
        std::mem::swap(&mut heuristics, &mut self.heuristics);
        match heuristics.remove(id) {
            Some(slot) => {
                let touched = slot.heuristic.touched(now_ms);
                let tick = self.next_tick;
                heuristics.insert(*id, Slot { heuristic: touched, tick });
                assert(heuristics@ =~= old(self)@.with_touch(*id, now_ms).heuristics);
                if tick < u64::MAX {
                    self.next_tick = tick + 1;
                }
                self.heuristics = heuristics;
            },
            None => {
                assert(heuristics@ =~= old(self)@.heuristics);
                self.heuristics = heuristics;
            },
        }
    }

    /// Marks the heuristic filed under `id` as used at the current time.
    pub fn touch_heuristic(&mut self, id: &u128)
        requires
            old(self)@.heuristics.contains_key(*id) ==> old(
                self,
            )@.heuristics[*id].heuristic.hit_count < u64::MAX,
        ensures
            exists|now_ms: i64| final(self)@ == #[trigger] old(self)@.with_touch(*id, now_ms),
            final(self)@.is_valid(),
    {
        let now_ms = current_time_ms();
        self.touch_heuristic_at(id, now_ms);
    }

    /// The heuristics from the most to the least recently used, at most
    /// `limit` of them, or all when `limit` is zero.
    pub fn list_heuristics(&self, limit: usize) -> (list: Vec<&CachedHeuristic>)
        ensures
            is_listing(self@.heuristics, ids_of(list@), limit as nat),
            forall|i: int|
                0 <= i < list@.len() ==> *(#[trigger] list@[i])
                    == self@.heuristics[list@[i].id].heuristic,
    {
        broadcast use vstd::std_specs::hash::group_hash_axioms;

        proof {
            use_type_invariant(self);
        }
        let ids = ranked_ids(&self.heuristics, limit);
        let mut list: Vec<&CachedHeuristic> = Vec::new();
        let mut i: usize = 0;
        while i < ids.len()
            invariant
                i <= ids.len(),
                list@.len() == i,
                self@.is_valid(),
                is_listing(self.heuristics@, ids@, limit as nat),
                forall|j: int|
                    0 <= j < i ==> *(#[trigger] list@[j]) == self.heuristics@[ids@[j]].heuristic,
            decreases ids.len() - i,
        {
            let found = self.heuristics.get(&ids[i]);
            assert(self.heuristics@.contains_key(ids@[i as int]));
            assert(found is Some);
            list.push(&found.unwrap().heuristic);
            i += 1;
        }
        proof {
            assert forall|j: int| 0 <= j < list@.len() implies (#[trigger] list@[j]).id
                == ids@[j] by {
                assert(self.heuristics@.contains_key(ids@[j]));
            }
            assert(ids_of(list@) =~= ids@);
        }
        list
    }

    /// The heuristics whose confidence is at least `min_confidence` and that
    /// have not expired at `now_ms`, each once, in no particular order.
    pub fn get_heuristics_by_confidence_at(&self, min_confidence: Scalar, now_ms: i64) -> (list:
        Vec<&CachedHeuristic>)
        ensures
            self@.is_confident_list(list@, min_confidence, now_ms),
    {
        broadcast use vstd::std_specs::hash::group_hash_axioms;

        proof {
            use_type_invariant(self);
        }
        let keys = keys_of(&self.heuristics);
        let ghost m = self.heuristics@;
        let ttl = self.config.heuristic_ttl_ms;
        let mut list: Vec<&CachedHeuristic> = Vec::new();
        let mut i: usize = 0;
        while i < keys.len()
            invariant
                i <= keys.len(),
                m == self.heuristics@,
                self@.is_valid(),
                ttl == self@.config.heuristic_ttl_ms,
                keys@.to_set() == m.dom(),
                keys@.no_duplicates(),
                forall|j: int|
                    0 <= j < list@.len() ==> {
                        &&& m.contains_key((#[trigger] list@[j]).id)
                        &&& *list@[j] == m[list@[j].id].heuristic
                        &&& is_confident(*list@[j], min_confidence, now_ms, ttl)
                        &&& exists|a: int| 0 <= a < i && keys@[a] == list@[j].id
                    },
                ids_of(list@).no_duplicates(),
                forall|a: int|
                    0 <= a < i && is_confident(
                        m[#[trigger] keys@[a]].heuristic,
                        min_confidence,
                        now_ms,
                        ttl,
                    ) ==> ids_of(list@).contains(keys@[a]),
            decreases keys.len() - i,
        {
            let k = keys[i];
            assert(keys@.to_set().contains(keys@[i as int]));
            let found = self.heuristics.get(&k);
            assert(found is Some);
            let h = &found.unwrap().heuristic;
            let ghost before_ids = ids_of(list@);
            if h.confidence.at_least(min_confidence) && !h.is_expired(now_ms, ttl) {
                list.push(h);
                proof {
                    let after_ids = ids_of(list@);
                    assert(after_ids =~= before_ids.push(k));
                    assert forall|a: int, b: int|
                        0 <= a < b < after_ids.len() implies after_ids[a] != after_ids[b] by {
                        if b == after_ids.len() - 1 {
                            let c = choose|c: int| 0 <= c < i && keys@[c] == list@[a].id;
                            assert(keys@[c] != keys@[i as int]);
                        } else {
                            assert(before_ids[a] != before_ids[b]);
                        }
                    }
                    assert forall|a: int|
                        0 <= a < i + 1 && is_confident(
                            m[#[trigger] keys@[a]].heuristic,
                            min_confidence,
                            now_ms,
                            ttl,
                        ) implies after_ids.contains(keys@[a]) by {
                        if a < i {
                            let c = choose|c: int|
                                0 <= c < before_ids.len() && before_ids[c] == keys@[a];
                            assert(after_ids[c] == keys@[a]);
                        } else {
                            assert(after_ids[after_ids.len() - 1] == keys@[a]);
                        }
                    }
                }
            }
            i += 1;
        }
        proof {
            assert forall|id: u128| #[trigger]
                m.contains_key(id) && is_confident(
                    m[id].heuristic,
                    min_confidence,
                    now_ms,
                    ttl,
                ) implies ids_of(list@).contains(id) by {
                assert(keys@.to_set().contains(id));
                let a = choose|a: int| 0 <= a < keys@.len() && keys@[a] == id;
                assert(ids_of(list@).contains(keys@[a]));
            }
        }
        list
    }

    /// The heuristics whose confidence is at least `min_confidence` and that
    /// have not expired at the current time.
    pub fn get_heuristics_by_confidence(&self, min_confidence: Scalar) -> (list: Vec<
        &CachedHeuristic,
    >)
        ensures
            exists|now_ms: i64| #[trigger] self@.is_confident_list(list@, min_confidence, now_ms),
    {
        let now_ms = current_time_ms();
        self.get_heuristics_by_confidence_at(min_confidence, now_ms)
    }

    /// The heuristics most similar to `query_embedding` at `now_ms`.
    ///
    /// Expired heuristics, those whose confidence is below `min_confidence`
    /// and those without an embedding take no part. Of the others, those
    /// whose similarity under `kernel` is at least `min_similarity` are
    /// returned with it, the most similar first, at most `limit` of them, or
    /// all when `limit` is zero. An empty query finds nothing.
    pub fn find_matching_heuristics_at<F: Fn(&Vec<Scalar>, &Vec<Scalar>) -> Scalar>(
        &self,
        query_embedding: &Vec<Scalar>,
        min_similarity: Scalar,
        min_confidence: Scalar,
        limit: usize,
        now_ms: i64,
        kernel: &F,
    ) -> (found: Vec<(u128, Scalar)>)
        requires
            kernel_accepts(*kernel),
        ensures
            query_embedding@.len() == 0 ==> found@.len() == 0,
            query_embedding@.len() > 0 ==> exists|sims: Map<u128, Scalar>| #[trigger]
                self@.answers(
                    *kernel,
                    query_embedding,
                    (MatchQuery { min_similarity, min_confidence, limit, now_ms }),
                    sims,
                    found@,
                ),
    {
        broadcast use vstd::std_specs::hash::group_hash_axioms;

        if query_embedding.len() == 0 {
            return Vec::new();
        }
        proof {
            use_type_invariant(self);
        }
        let ghost q = MatchQuery { min_similarity, min_confidence, limit, now_ms };
        let ghost model = self@;
        let ghost m = self.heuristics@;
        let ttl = self.config.heuristic_ttl_ms;
        let keys = keys_of(&self.heuristics);
        let mut items: Vec<Ranked> = Vec::new();
        let ghost mut sims: Map<u128, Scalar> = Map::empty();
        let mut i: usize = 0;
        while i < keys.len()
            invariant
                i <= keys.len(),
                kernel_accepts(*kernel),
                model == self@,
                m == model.heuristics,
                m == self.heuristics@,
                ttl == model.config.heuristic_ttl_ms,
                q == (MatchQuery { min_similarity, min_confidence, limit, now_ms }),
                keys@.to_set() == m.dom(),
                keys@.no_duplicates(),
                forall|id: u128|
                    sims.contains_key(id) ==> exists|a: int| 0 <= a < i && #[trigger] keys@[a] == id,
                forall|a: int|
                    0 <= a < i && is_candidate(
                        m[#[trigger] keys@[a]].heuristic,
                        min_confidence,
                        now_ms,
                        ttl,
                    ) ==> sims.contains_key(keys@[a]) && is_similarity(
                        *kernel,
                        query_embedding,
                        &m[keys@[a]].heuristic.condition_embedding,
                        sims[keys@[a]],
                    ),
                forall|j: int|
                    0 <= j < items@.len() ==> model.is_hit(q, sims, (#[trigger] items@[j]).id)
                        && items@[j] == score(items@[j].id, sims[items@[j].id]),
                distinct_ids(items@),
                forall|a: int|
                    0 <= a < i && model.is_hit(q, sims, #[trigger] keys@[a]) ==> items@.contains(
                        score(keys@[a], sims[keys@[a]]),
                    ),
            decreases keys.len() - i,
        {
            let k = keys[i];
            assert(keys@.to_set().contains(keys@[i as int]));
            let slot = self.heuristics.get(&k);
            assert(slot is Some);
            let h = &slot.unwrap().heuristic;
            let ghost before_sims = sims;
            let ghost before_items = items@;
            proof {
                assert(!before_sims.contains_key(k)) by {
                    if before_sims.contains_key(k) {
                        let a = choose|a: int| 0 <= a < i && #[trigger] keys@[a] == k;
                        assert(keys@[a] != keys@[i as int]);
                    }
                }
            }
            if !h.is_expired(now_ms, ttl) && !h.confidence.below(min_confidence)
                && h.condition_embedding.len() > 0 {
                let s = cosine_similarity(query_embedding, &h.condition_embedding, kernel);
                proof {
                    sims = sims.insert(k, s);
                }
                if s.at_least(min_similarity) {
                    items.push(Ranked { id: k, major: s.rank_value(), minor: s.bits as u64 });
                }
            }
            proof {
                assert forall|id: u128| sims.contains_key(id) implies exists|a: int|
                    0 <= a < i + 1 && #[trigger] keys@[a] == id by {
                    if id == k {
                        assert(keys@[i as int] == id);
                    } else {
                        let a = choose|a: int| 0 <= a < i && #[trigger] keys@[a] == id;
                        assert(keys@[a] == id);
                    }
                }
                assert forall|j: int| 0 <= j < before_items.len() implies model.is_hit(
                    q,
                    sims,
                    (#[trigger] before_items[j]).id,
                ) && before_items[j] == score(before_items[j].id, sims[before_items[j].id]) by {
                    assert(model.is_hit(q, before_sims, before_items[j].id));
                    assert(before_items[j].id != k);
                }
                assert forall|a: int|
                    0 <= a < i + 1 && model.is_hit(q, sims, #[trigger] keys@[a])
                    implies items@.contains(score(keys@[a], sims[keys@[a]])) by {
                    if a < i {
                        assert(keys@[a] != keys@[i as int]);
                        assert(model.is_hit(q, before_sims, keys@[a]));
                        let x = score(keys@[a], before_sims[keys@[a]]);
                        let c = choose|c: int| 0 <= c < before_items.len() && before_items[c] == x;
                        assert(items@[c] == x);
                    } else {
                        assert(items@[items@.len() - 1] == score(k, sims[k]));
                    }
                }
                assert forall|a: int|
                    0 <= a < i + 1 && is_candidate(
                        m[#[trigger] keys@[a]].heuristic,
                        min_confidence,
                        now_ms,
                        ttl,
                    ) implies sims.contains_key(keys@[a]) && is_similarity(
                    *kernel,
                    query_embedding,
                    &m[keys@[a]].heuristic.condition_embedding,
                    sims[keys@[a]],
                ) by {
                    if a < i {
                        assert(keys@[a] != keys@[i as int]);
                    }
                }
                assert(distinct_ids(items@)) by {
                    assert forall|a: int, b: int| 0 <= a < b < items@.len() implies (
                    #[trigger] items@[a]).id != (#[trigger] items@[b]).id by {
                        if b < before_items.len() {
                            assert(before_items[a].id != before_items[b].id);
                        } else {
                            assert(model.is_hit(q, before_sims, before_items[a].id));
                        }
                    }
                }
            }
            i += 1;
        }
        let top = rank_top(&items, limit);
        let mut found: Vec<(u128, Scalar)> = Vec::new();
        let mut n: usize = 0;
        while n < top.len()
            invariant
                n <= top.len(),
                found@.len() == n,
                forall|j: int|
                    0 <= j < n ==> (#[trigger] found@[j]).0 == top@[j].id && found@[j].1.bits
                        == top@[j].minor,
                forall|j: int| 0 <= j < top@.len() ==> (#[trigger] top@[j]).minor <= u32::MAX,
            decreases top.len() - n,
        {
            let t = top[n];
            found.push((t.id, Scalar::from_bits(t.minor as u32)));
            n += 1;
        }
        proof {
            assert(is_top_of(top@, items@, limit as nat));
            assert forall|j: int| 0 <= j < found@.len() implies model.is_hit(
                q,
                sims,
                (#[trigger] found@[j]).0,
            ) && found@[j].1 == sims[found@[j].0] && top@[j] == score(found@[j].0, found@[j].1) by {
                assert(items@.contains(top@[j]));
                let c = choose|c: int| 0 <= c < items@.len() && items@[c] == top@[j];
                assert(model.is_hit(q, sims, items@[c].id));
            }
            assert forall|a: int, b: int| 0 <= a < b < found@.len() implies before(
                score((#[trigger] found@[a]).0, found@[a].1),
                score((#[trigger] found@[b]).0, found@[b].1),
            ) by {
                assert(before(top@[a], top@[b]));
            }
            assert forall|id: u128| model.is_hit(q, sims, id) implies items@.contains(
                score(id, sims[id]),
            ) by {
                assert(keys@.to_set().contains(id));
                let a = choose|a: int| 0 <= a < keys@.len() && keys@[a] == id;
                assert(model.is_hit(q, sims, keys@[a]));
            }
            assert forall|id: u128|
                model.is_hit(q, sims, id) && (limit == 0 || found@.len() < limit)
                implies found@.contains((id, #[trigger] sims[id])) by {
                let x = score(id, sims[id]);
                assert(items@.contains(x));
                let c = choose|c: int| 0 <= c < items@.len() && items@[c] == x;
                assert(top@.len() == items@.len());
                assert(top@.contains(items@[c]));
                let t = choose|t: int| 0 <= t < top@.len() && top@[t] == x;
                assert(found@[t] == (id, sims[id]));
            }
            assert forall|id: u128, j: int|
                model.is_hit(q, sims, id) && !found@.contains((id, sims[id])) && 0 <= j
                    < found@.len() implies before(
                score((#[trigger] found@[j]).0, found@[j].1),
                #[trigger] score(id, sims[id]),
            ) by {
                let x = score(id, sims[id]);
                assert(items@.contains(x));
                if top@.contains(x) {
                    let t = choose|t: int| 0 <= t < top@.len() && top@[t] == x;
                    assert(found@[t] == (id, sims[id]));
                }
                assert(before(top@[j], x));
            }
            assert(model.measured_by(*kernel, query_embedding, q, sims)) by {
                assert forall|id: u128| #[trigger]
                    model.heuristics.contains_key(id) && is_candidate(
                        model.heuristics[id].heuristic,
                        q.min_confidence,
                        q.now_ms,
                        model.config.heuristic_ttl_ms,
                    ) implies sims.contains_key(id) && is_similarity(
                    *kernel,
                    query_embedding,
                    &model.heuristics[id].heuristic.condition_embedding,
                    sims[id],
                ) by {
                    assert(keys@.to_set().contains(id));
                    let a = choose|a: int| 0 <= a < keys@.len() && keys@[a] == id;
                    assert(is_candidate(m[keys@[a]].heuristic, min_confidence, now_ms, ttl));
                }
            }
            assert(model.is_answer(q, sims, found@));
            assert(model.answers(*kernel, query_embedding, q, sims, found@));
        }
        found
    }

    /// The heuristics most similar to `query_embedding` at the current time.
    pub fn find_matching_heuristics<F: Fn(&Vec<Scalar>, &Vec<Scalar>) -> Scalar>(
        &self,
        query_embedding: &Vec<Scalar>,
        min_similarity: Scalar,
        min_confidence: Scalar,
        limit: usize,
        kernel: &F,
    ) -> (found: Vec<(u128, Scalar)>)
        requires
            kernel_accepts(*kernel),
        ensures
            query_embedding@.len() == 0 ==> found@.len() == 0,
            query_embedding@.len() > 0 ==> exists|now_ms: i64, sims: Map<u128, Scalar>| #[trigger]
                self@.answers(
                    *kernel,
                    query_embedding,
                    (MatchQuery { min_similarity, min_confidence, limit, now_ms }),
                    sims,
                    found@,
                ),
    {
        let now_ms = current_time_ms();
        self.find_matching_heuristics_at(
            query_embedding,
            min_similarity,
            min_confidence,
            limit,
            now_ms,
            kernel,
        )
    }

    /// Whether an event with this embedding is novel: no cached event is at
    /// least as similar to it as the novelty threshold. The events are asked
    /// one by one until one reaches the threshold.
    pub fn is_novel<F: Fn(&Vec<Scalar>, &Vec<Scalar>) -> Scalar>(
        &self,
        embedding: &Vec<Scalar>,
        kernel: &F,
    ) -> (novel: bool)
        requires
            kernel_accepts(*kernel),
        ensures
            novel ==> exists|sims: Map<u128, Scalar>| #[trigger]
                self@.all_below_threshold(*kernel, embedding, sims),
            !novel ==> exists|id: u128, s: Scalar| #[trigger]
                self@.reaches_threshold(*kernel, embedding, id, s),
    {
        broadcast use vstd::std_specs::hash::group_hash_axioms;

        let keys = keys_of(&self.events_by_id);
        let ghost model = self@;
        let ghost m = self.events_by_id@;
        let threshold = self.config.novelty_threshold;
        let ghost mut sims: Map<u128, Scalar> = Map::empty();
        let mut i: usize = 0;
        while i < keys.len()
            invariant
                i <= keys.len(),
                kernel_accepts(*kernel),
                model == self@,
                m == model.events,
                m == self.events_by_id@,
                threshold == model.config.novelty_threshold,
                keys@.to_set() == m.dom(),
                forall|a: int|
                    0 <= a < i ==> sims.contains_key(#[trigger] keys@[a]) && is_similarity(
                        *kernel,
                        embedding,
                        &m[keys@[a]].embedding,
                        sims[keys@[a]],
                    ) && !sims[keys@[a]].spec_at_least(threshold),
            decreases keys.len() - i,
        {
            let k = keys[i];
            assert(keys@.to_set().contains(keys@[i as int]));
            let found = self.events_by_id.get(&k);
            assert(found is Some);
            let s = cosine_similarity(embedding, &found.unwrap().embedding, kernel);
            if s.at_least(threshold) {
                assert(model.reaches_threshold(*kernel, embedding, k, s));
                return false;
            }
            proof {
                sims = sims.insert(k, s);
            }
            i += 1;
        }
        proof {
            assert forall|id: u128| #[trigger] m.contains_key(id) implies sims.contains_key(id)
                && is_similarity(*kernel, embedding, &m[id].embedding, sims[id])
                && !sims[id].spec_at_least(threshold) by {
                assert(keys@.to_set().contains(id));
                let a = choose|a: int| 0 <= a < keys@.len() && keys@[a] == id;
                assert(sims.contains_key(keys@[a]));
            }
            assert(model.all_below_threshold(*kernel, embedding, sims));
        }
        true
    }

    /// The cached event most similar to `embedding` among those whose
    /// similarity is at least `threshold`, with that similarity.
    pub fn find_similar<F: Fn(&Vec<Scalar>, &Vec<Scalar>) -> Scalar>(
        &self,
        embedding: &Vec<Scalar>,
        threshold: Scalar,
        kernel: &F,
    ) -> (found: Option<(u128, Scalar)>)
        requires
            kernel_accepts(*kernel),
        ensures
            exists|sims: Map<u128, Scalar>| #[trigger]
                self@.finds_similar(*kernel, embedding, threshold, sims, found),
    {
        broadcast use vstd::std_specs::hash::group_hash_axioms;

        let keys = keys_of(&self.events_by_id);
        let ghost model = self@;
        let ghost m = self.events_by_id@;
        let ghost mut sims: Map<u128, Scalar> = Map::empty();
        let mut best: Option<(u128, Scalar)> = None;
        let mut i: usize = 0;
        while i < keys.len()
            invariant
                i <= keys.len(),
                kernel_accepts(*kernel),
                model == self@,
                m == model.events,
                m == self.events_by_id@,
                keys@.to_set() == m.dom(),
                keys@.no_duplicates(),
                forall|id: u128|
                    sims.contains_key(id) ==> exists|a: int| 0 <= a < i && #[trigger] keys@[a] == id,
                forall|a: int|
                    0 <= a < i ==> sims.contains_key(#[trigger] keys@[a]) && is_similarity(
                        *kernel,
                        embedding,
                        &m[keys@[a]].embedding,
                        sims[keys@[a]],
                    ),
                match best {
                    None => forall|a: int|
                        0 <= a < i ==> !sims[#[trigger] keys@[a]].spec_at_least(threshold),
                    Some((id, s)) => {
                        &&& model.event_reaches(sims, threshold, id)
                        &&& s == sims[id]
                        &&& forall|a: int|
                            0 <= a < i && #[trigger] keys@[a] != id && sims[keys@[a]].spec_at_least(
                                threshold,
                            ) ==> before(score(id, s), score(keys@[a], sims[keys@[a]]))
                    },
                },
            decreases keys.len() - i,
        {
            let k = keys[i];
            assert(keys@.to_set().contains(keys@[i as int]));
            let entry = self.events_by_id.get(&k);
            assert(entry is Some);
            let s = cosine_similarity(embedding, &entry.unwrap().embedding, kernel);
            let ghost before_sims = sims;
            proof {
                assert(!before_sims.contains_key(k)) by {
                    if before_sims.contains_key(k) {
                        let a = choose|a: int| 0 <= a < i && #[trigger] keys@[a] == k;
                        assert(keys@[a] != keys@[i as int]);
                    }
                }
                sims = sims.insert(k, s);
                assert forall|id: u128| sims.contains_key(id) implies exists|a: int|
                    0 <= a < i + 1 && #[trigger] keys@[a] == id by {
                    if id == k {
                        assert(keys@[i as int] == id);
                    } else {
                        let a = choose|a: int| 0 <= a < i && #[trigger] keys@[a] == id;
                        assert(keys@[a] == id);
                    }
                }
                assert forall|a: int| 0 <= a < i implies sims[#[trigger] keys@[a]]
                    == before_sims[keys@[a]] by {
                    assert(keys@[a] != keys@[i as int]);
                }
            }
            if s.at_least(threshold) {
                let r = Ranked { id: k, major: s.rank_value(), minor: s.bits as u64 };
                match best {
                    None => {
                        best = Some((k, s));
                    },
                    Some((id, t)) => {
                        let current = Ranked {
                            id,
                            major: t.rank_value(),
                            minor: t.bits as u64,
                        };
                        if comes_before(&r, &current) {
                            best = Some((k, s));
                        }
                    },
                }
            }
            i += 1;
        }
        proof {
            assert forall|id: u128| #[trigger] m.contains_key(id) implies sims.contains_key(id)
                && is_similarity(*kernel, embedding, &m[id].embedding, sims[id]) by {
                assert(keys@.to_set().contains(id));
                let a = choose|a: int| 0 <= a < keys@.len() && keys@[a] == id;
                assert(sims.contains_key(keys@[a]));
            }
            match best {
                None => {
                    assert forall|id: u128| !#[trigger] model.event_reaches(
                        sims,
                        threshold,
                        id,
                    ) by {
                        if model.events.contains_key(id) {
                            assert(keys@.to_set().contains(id));
                            let a = choose|a: int| 0 <= a < keys@.len() && keys@[a] == id;
                            assert(!sims[keys@[a]].spec_at_least(threshold));
                        }
                    }
                },
                Some((best_id, s)) => {
                    assert forall|other: u128| #[trigger]
                        model.event_reaches(sims, threshold, other) && other
                            != best_id implies before(
                        score(best_id, s),
                        score(other, sims[other]),
                    ) by {
                        assert(keys@.to_set().contains(other));
                        let a = choose|a: int| 0 <= a < keys@.len() && keys@[a] == other;
                        assert(keys@[a] != best_id);
                    }
                },
            }
            assert(model.finds_similar(*kernel, embedding, threshold, sims, best));
        }
        best
    }

    /// Adds `event`. If the cache is at its capacity for events the oldest one
    /// leaves first; then the event is filed under its identifier.
    pub fn add_event(&mut self, event: CachedEvent)
        ensures
            final(self)@ == old(self)@.with_event(event),
            final(self)@.is_valid(),
    {
        broadcast use vstd::std_specs::hash::group_hash_axioms;

        proof {
            use_type_invariant(&*self);
        }
        let mut events: HashMap<u128, CachedEvent> = HashMap::new();
        std::mem::swap(&mut events, &mut self.events_by_id);
        if events.len() > 0 && events.len() >= self.config.max_events {
            match oldest_event_key(&events) {
                Some(victim) => {
                    events.remove(&victim);
                },
                None => {},
            }
        }
        assert(events@ == old(self)@.with_event_room());
        let id = event.id;
        events.insert(id, event);
        self.events_by_id = events;
    }

    /// The event filed under `id`.
    pub fn get_event(&self, id: &u128) -> (found: Option<&CachedEvent>)
        ensures
            match found {
                Some(e) => self@.events.contains_key(*id) && *e == self@.events[*id],
                None => !self@.events.contains_key(*id),
            },
    {
        broadcast use vstd::std_specs::hash::group_hash_axioms;

        self.events_by_id.get(id)
    }

    /// Sizes, capacities and counters.
    pub fn stats(&self) -> (s: CacheStats)
        ensures
            s == (CacheStats {
                event_count: self@.events.len() as usize,
                heuristic_count: self@.heuristics.len() as usize,
                max_events: self@.config.max_events,
                max_heuristics: self@.config.max_heuristics,
                total_hits: self@.total_hits,
                total_misses: self@.total_misses,
            }),
            s.event_count == self@.events.len(),
            s.heuristic_count == self@.heuristics.len(),
            self@.is_valid(),
    {
        broadcast use vstd::std_specs::hash::group_hash_axioms;

        proof {
            use_type_invariant(self);
        }

        CacheStats {
            event_count: self.events_by_id.len(),
            heuristic_count: self.heuristics.len(),
            max_events: self.config.max_events,
            max_heuristics: self.config.max_heuristics,
            total_hits: self.total_hits,
            total_misses: self.total_misses,
        }
    }
}

} // verus!
