//! The cache as a mathematical value, and what its operations mean.
//!
//! Every contract of [`crate::cache::MemoryCache`] is stated over the
//! [`CacheModel`] that a cache stands for.

use crate::embedding::is_similarity;
use crate::heuristic::{CacheConfig, CachedEvent, CachedHeuristic};
use crate::ranking::{before, kept, Ranked};
use crate::scalar::Scalar;
use vstd::prelude::*;

verus! {

/// A cached heuristic together with the number of the operation that last
/// added or touched it.
pub struct Slot {
    pub heuristic: CachedHeuristic,
    pub tick: u64,
}

/// The cache as a mathematical value.
pub struct CacheModel {
    pub heuristics: Map<u128, Slot>,
    pub events: Map<u128, CachedEvent>,
    pub config: CacheConfig,
    pub total_hits: u64,
    pub total_misses: u64,
    /// The number that the next add or touch hands out.
    pub next_tick: u64,
}

/// The place of a heuristic in the order of use: later access first, then the
/// later operation, then the smaller identifier.
pub open spec fn recency(m: Map<u128, Slot>, id: u128) -> Ranked {
    Ranked { id, major: m[id].heuristic.last_accessed_ms, minor: m[id].tick }
}

/// `id` is the least recently used heuristic of `m`: every other one comes
/// before it in the order of use.
pub open spec fn is_oldest(m: Map<u128, Slot>, id: u128) -> bool {
    &&& m.contains_key(id)
    &&& forall|other: u128|
        m.contains_key(other) && other != id ==> before(
            #[trigger] recency(m, other),
            recency(m, id),
        )
}

/// The least recently used heuristic of a map that holds one.
pub open spec fn oldest(m: Map<u128, Slot>) -> u128 {
    choose|id: u128| is_oldest(m, id)
}

/// The place of an event in the order of age: later timestamp first, then the
/// smaller identifier.
pub open spec fn event_age(m: Map<u128, CachedEvent>, id: u128) -> Ranked {
    Ranked { id, major: m[id].timestamp_ms, minor: 0 }
}

/// `id` is the oldest event of `m`.
pub open spec fn is_oldest_event(m: Map<u128, CachedEvent>, id: u128) -> bool {
    &&& m.contains_key(id)
    &&& forall|other: u128|
        m.contains_key(other) && other != id ==> before(
            #[trigger] event_age(m, other),
            event_age(m, id),
        )
}

/// The oldest event of a map that holds one.
pub open spec fn oldest_event(m: Map<u128, CachedEvent>) -> u128 {
    choose|id: u128| is_oldest_event(m, id)
}

/// The tick after `tick`; the count stops at its largest value.
pub open spec fn next_after(tick: u64) -> u64 {
    if tick < u64::MAX {
        (tick + 1) as u64
    } else {
        tick
    }
}

/// The larger of a capacity and one: what a map under that capacity may hold.
pub open spec fn bound(capacity: usize) -> int {
    if capacity == 0 {
        1
    } else {
        capacity as int
    }
}

impl CacheModel {
    /// A cache that holds nothing and has counted nothing.
    pub open spec fn empty(config: CacheConfig) -> CacheModel {
        CacheModel {
            heuristics: Map::empty(),
            events: Map::empty(),
            config,
            total_hits: 0,
            total_misses: 0,
            next_tick: 0,
        }
    }

    /// What holds of every cache: entries are filed under their own
    /// identifiers, neither map exceeds its capacity (a capacity of zero still
    /// admits the entry added last), and until the count of ticks has reached
    /// its end every heuristic carries a tick that was handed out before.
    pub open spec fn is_valid(self) -> bool {
        &&& self.heuristics.dom().finite()
        &&& self.events.dom().finite()
        &&& forall|id: u128| #[trigger]
            self.heuristics.contains_key(id) ==> self.heuristics[id].heuristic.id == id
        &&& forall|id: u128| #[trigger]
            self.heuristics.contains_key(id) ==> self.heuristics[id].tick < self.next_tick
                || self.next_tick == u64::MAX
        &&& forall|id: u128| #[trigger] self.events.contains_key(id) ==> self.events[id].id == id
        &&& self.heuristics.len() <= bound(self.config.max_heuristics)
        &&& self.events.len() <= bound(self.config.max_events)
    }

    /// The heuristics after room was made for one more: when the map is at its
    /// capacity, the least recently used one has left.
    pub open spec fn with_room(self) -> Map<u128, Slot> {
        if self.heuristics.len() > 0 && self.heuristics.len() >= self.config.max_heuristics {
            self.heuristics.remove(oldest(self.heuristics))
        } else {
            self.heuristics
        }
    }

    /// The cache after `heuristic` was added as it stands: room is made, the
    /// heuristic is filed under its identifier, replacing what was there, and
    /// takes the current tick.
    pub open spec fn with_heuristic(self, heuristic: CachedHeuristic) -> CacheModel {
        CacheModel {
            heuristics: self.with_room().insert(
                heuristic.id,
                Slot { heuristic, tick: self.next_tick },
            ),
            next_tick: next_after(self.next_tick),
            ..self
        }
    }

    /// The cache after the heuristic `id` was touched at `now_ms`; unchanged
    /// when it holds none of that identifier.
    pub open spec fn with_touch(self, id: u128, now_ms: i64) -> CacheModel {
        if self.heuristics.contains_key(id) {
            CacheModel {
                heuristics: self.heuristics.insert(
                    id,
                    Slot {
                        heuristic: self.heuristics[id].heuristic.spec_touched(now_ms),
                        tick: self.next_tick,
                    },
                ),
                next_tick: next_after(self.next_tick),
                ..self
            }
        } else {
            self
        }
    }

    /// The events after room was made for one more: when the map is at its
    /// capacity, the oldest event has left.
    pub open spec fn with_event_room(self) -> Map<u128, CachedEvent> {
        if self.events.len() > 0 && self.events.len() >= self.config.max_events {
            self.events.remove(oldest_event(self.events))
        } else {
            self.events
        }
    }

    /// The cache after `event` was added: room is made and the event is filed
    /// under its identifier, replacing what was there.
    pub open spec fn with_event(self, event: CachedEvent) -> CacheModel {
        CacheModel { events: self.with_event_room().insert(event.id, event), ..self }
    }

    /// `sims` holds a similarity to `embedding` for every event.
    pub open spec fn events_measured_by<F: Fn(&Vec<Scalar>, &Vec<Scalar>) -> Scalar>(
        self,
        kernel: F,
        embedding: &Vec<Scalar>,
        sims: Map<u128, Scalar>,
    ) -> bool {
        forall|id: u128| #[trigger]
            self.events.contains_key(id) ==> sims.contains_key(id) && is_similarity(
                kernel,
                embedding,
                &self.events[id].embedding,
                sims[id],
            )
    }

    /// Whether the event `id` is at least as similar as `threshold` under the
    /// similarities `sims`.
    pub open spec fn event_reaches(self, sims: Map<u128, Scalar>, threshold: Scalar, id: u128) -> bool {
        &&& self.events.contains_key(id)
        &&& sims.contains_key(id)
        &&& sims[id].spec_at_least(threshold)
    }

    /// `best` is the event most similar under `sims` among those that reach
    /// `threshold`, or nothing when none does.
    pub open spec fn is_most_similar(
        self,
        sims: Map<u128, Scalar>,
        threshold: Scalar,
        best: Option<(u128, Scalar)>,
    ) -> bool {
        match best {
            None => forall|id: u128| !#[trigger] self.event_reaches(sims, threshold, id),
            Some((id, s)) => {
                &&& self.event_reaches(sims, threshold, id)
                &&& s == sims[id]
                &&& forall|other: u128| #[trigger]
                    self.event_reaches(sims, threshold, other) && other != id ==> before(
                        score(id, s),
                        score(other, sims[other]),
                    )
            },
        }
    }

    /// `found` names the most similar event for `embedding` under `kernel`,
    /// with `sims` as the similarities that the kernel gave.
    pub open spec fn finds_similar<F: Fn(&Vec<Scalar>, &Vec<Scalar>) -> Scalar>(
        self,
        kernel: F,
        embedding: &Vec<Scalar>,
        threshold: Scalar,
        sims: Map<u128, Scalar>,
        found: Option<(u128, Scalar)>,
    ) -> bool {
        self.events_measured_by(kernel, embedding, sims) && self.is_most_similar(
            sims,
            threshold,
            found,
        )
    }

    /// No event reaches the novelty threshold under `sims`, which holds a
    /// similarity to `embedding` for every event.
    pub open spec fn all_below_threshold<F: Fn(&Vec<Scalar>, &Vec<Scalar>) -> Scalar>(
        self,
        kernel: F,
        embedding: &Vec<Scalar>,
        sims: Map<u128, Scalar>,
    ) -> bool {
        &&& self.events_measured_by(kernel, embedding, sims)
        &&& forall|id: u128|
            !#[trigger] self.event_reaches(sims, self.config.novelty_threshold, id)
    }

    /// The event `id` has the similarity `s` to `embedding`, and that reaches
    /// the novelty threshold.
    pub open spec fn reaches_threshold<F: Fn(&Vec<Scalar>, &Vec<Scalar>) -> Scalar>(
        self,
        kernel: F,
        embedding: &Vec<Scalar>,
        id: u128,
        s: Scalar,
    ) -> bool {
        &&& self.events.contains_key(id)
        &&& is_similarity(kernel, embedding, &self.events[id].embedding, s)
        &&& s.spec_at_least(self.config.novelty_threshold)
    }
}

/// The identifiers of a list of heuristics, in its order.
pub open spec fn ids_of(list: Seq<&CachedHeuristic>) -> Seq<u128> {
    Seq::new(list.len(), |i: int| list[i].id)
}

/// `ids` lists the heuristics of `m` from the most to the least recently used,
/// cut to `limit` (zero: no cut): it names only heuristics of `m`, in the order
/// of use, as many as the limit allows, and every one it leaves out was used
/// less recently than all it names.
pub open spec fn is_listing(m: Map<u128, Slot>, ids: Seq<u128>, limit: nat) -> bool {
    &&& ids.len() == kept(m.len(), limit)
    &&& forall|i: int| 0 <= i < ids.len() ==> m.contains_key(#[trigger] ids[i])
    &&& forall|i: int, j: int|
        0 <= i < j < ids.len() ==> before(
            #[trigger] recency(m, ids[i]),
            #[trigger] recency(m, ids[j]),
        )
    &&& forall|id: u128, i: int|
        m.contains_key(id) && !ids.contains(id) && 0 <= i < ids.len() ==> before(
            #[trigger] recency(m, ids[i]),
            #[trigger] recency(m, id),
        )
}

/// Whether a heuristic is returned by a lookup by confidence: its confidence
/// is at least `min_confidence` and it has not expired.
pub open spec fn is_confident(
    h: CachedHeuristic,
    min_confidence: Scalar,
    now_ms: i64,
    ttl_ms: i64,
) -> bool {
    h.confidence.spec_at_least(min_confidence) && !h.spec_is_expired(now_ms, ttl_ms)
}

/// Whether a heuristic takes part in a lookup by similarity: it has not
/// expired, its confidence is not below `min_confidence`, and it has an
/// embedding.
pub open spec fn is_candidate(
    h: CachedHeuristic,
    min_confidence: Scalar,
    now_ms: i64,
    ttl_ms: i64,
) -> bool {
    &&& !h.spec_is_expired(now_ms, ttl_ms)
    &&& !h.confidence.spec_below(min_confidence)
    &&& h.condition_embedding@.len() > 0
}

/// The place of a scored identifier in a ranking by similarity: the larger
/// similarity first, then, between equal numbers, the larger bit pattern, then
/// the smaller identifier.
pub open spec fn score(id: u128, similarity: Scalar) -> Ranked {
    Ranked { id, major: similarity.rank() as i64, minor: similarity.bits as u64 }
}

/// What a lookup by similarity is asked.
#[derive(Clone, Copy, Debug)]
pub struct MatchQuery {
    pub min_similarity: Scalar,
    pub min_confidence: Scalar,
    pub limit: usize,
    pub now_ms: i64,
}

impl CacheModel {
    /// `list` holds the heuristics whose confidence is at least
    /// `min_confidence` and that have not expired at `now_ms`: each of its
    /// entries is such a heuristic of the cache, none occurs twice, and none
    /// is missing.
    pub open spec fn is_confident_list(
        self,
        list: Seq<&CachedHeuristic>,
        min_confidence: Scalar,
        now_ms: i64,
    ) -> bool {
        &&& forall|i: int|
            0 <= i < list.len() ==> {
                &&& self.heuristics.contains_key((#[trigger] list[i]).id)
                &&& *list[i] == self.heuristics[list[i].id].heuristic
                &&& is_confident(*list[i], min_confidence, now_ms, self.config.heuristic_ttl_ms)
            }
        &&& ids_of(list).no_duplicates()
        &&& forall|id: u128| #[trigger]
            self.heuristics.contains_key(id) && is_confident(
                self.heuristics[id].heuristic,
                min_confidence,
                now_ms,
                self.config.heuristic_ttl_ms,
            ) ==> ids_of(list).contains(id)
    }

    /// `sims` holds a similarity to `query` for every heuristic that takes
    /// part in the lookup `q`.
    pub open spec fn measured_by<F: Fn(&Vec<Scalar>, &Vec<Scalar>) -> Scalar>(
        self,
        kernel: F,
        query: &Vec<Scalar>,
        q: MatchQuery,
        sims: Map<u128, Scalar>,
    ) -> bool {
        forall|id: u128| #[trigger]
            self.heuristics.contains_key(id) && is_candidate(
                self.heuristics[id].heuristic,
                q.min_confidence,
                q.now_ms,
                self.config.heuristic_ttl_ms,
            ) ==> sims.contains_key(id) && is_similarity(
                kernel,
                query,
                &self.heuristics[id].heuristic.condition_embedding,
                sims[id],
            )
    }

    /// Whether the heuristic `id` is a hit of the lookup `q` under the
    /// similarities `sims`: it takes part and its similarity is at least the
    /// one asked for.
    pub open spec fn is_hit(self, q: MatchQuery, sims: Map<u128, Scalar>, id: u128) -> bool {
        &&& self.heuristics.contains_key(id)
        &&& is_candidate(
            self.heuristics[id].heuristic,
            q.min_confidence,
            q.now_ms,
            self.config.heuristic_ttl_ms,
        )
        &&& sims.contains_key(id)
        &&& sims[id].spec_at_least(q.min_similarity)
    }

    /// `found` answers the lookup `q` for `query` under `kernel`, with `sims`
    /// as the similarities that the kernel gave.
    pub open spec fn answers<F: Fn(&Vec<Scalar>, &Vec<Scalar>) -> Scalar>(
        self,
        kernel: F,
        query: &Vec<Scalar>,
        q: MatchQuery,
        sims: Map<u128, Scalar>,
        found: Seq<(u128, Scalar)>,
    ) -> bool {
        self.measured_by(kernel, query, q, sims) && self.is_answer(q, sims, found)
    }

    /// `found` is the answer to the lookup `q` under the similarities `sims`:
    /// every pair is a hit with its similarity; the pairs stand in the order
    /// of [`score`]; under a limit there are no more than the limit; and
    /// unless the limit is reached every hit is there, while a hit that is
    /// left out ranks behind all that are there.
    pub open spec fn is_answer(
        self,
        q: MatchQuery,
        sims: Map<u128, Scalar>,
        found: Seq<(u128, Scalar)>,
    ) -> bool {
        &&& forall|i: int|
            0 <= i < found.len() ==> self.is_hit(q, sims, (#[trigger] found[i]).0) && found[i].1
                == sims[found[i].0]
        &&& forall|i: int, j: int|
            0 <= i < j < found.len() ==> before(
                score((#[trigger] found[i]).0, found[i].1),
                score((#[trigger] found[j]).0, found[j].1),
            )
        &&& q.limit > 0 ==> found.len() <= q.limit
        &&& forall|id: u128|
            self.is_hit(q, sims, id) && (q.limit == 0 || found.len() < q.limit) ==> found.contains(
                (id, #[trigger] sims[id]),
            )
        &&& forall|id: u128, i: int|
            self.is_hit(q, sims, id) && !found.contains((id, sims[id])) && 0 <= i < found.len()
                ==> before(
                score((#[trigger] found[i]).0, found[i].1),
                #[trigger] score(id, sims[id]),
            )
    }
}

/// A map has at most one least recently used heuristic.
pub proof fn lemma_oldest_unique(m: Map<u128, Slot>, a: u128, b: u128)
    requires
        is_oldest(m, a),
    ensures
        is_oldest(m, oldest(m)),
        is_oldest(m, b) ==> a == b,
        oldest(m) == a,
{
    if is_oldest(m, b) && a != b {
        assert(before(recency(m, b), recency(m, a)));
        assert(before(recency(m, a), recency(m, b)));
    }
    let c = oldest(m);
    if a != c {
        assert(before(recency(m, c), recency(m, a)));
        assert(before(recency(m, a), recency(m, c)));
    }
}

/// A map has at most one oldest event.
pub proof fn lemma_oldest_event_unique(m: Map<u128, CachedEvent>, a: u128, b: u128)
    requires
        is_oldest_event(m, a),
    ensures
        is_oldest_event(m, b) ==> a == b,
        oldest_event(m) == a,
{
    if is_oldest_event(m, b) && a != b {
        assert(before(event_age(m, b), event_age(m, a)));
        assert(before(event_age(m, a), event_age(m, b)));
    }
    let c = oldest_event(m);
    if a != c {
        assert(before(event_age(m, c), event_age(m, a)));
        assert(before(event_age(m, a), event_age(m, c)));
    }
}

} // verus!
