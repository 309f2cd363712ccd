//! What the cache holds: heuristics, events, and the limits they live under.

use crate::salience::SalienceBoost;
use crate::scalar::Scalar;
use vstd::prelude::*;

verus! {

/// Default number of events that the cache keeps.
pub const DEFAULT_MAX_EVENTS: usize = 1000;

/// Default number of heuristics that the cache keeps.
pub const DEFAULT_MAX_HEURISTICS: usize = 50;

/// Default novelty threshold, the pattern of 0.7.
pub const DEFAULT_NOVELTY_THRESHOLD_BITS: u32 = 0x3f33_3333;

/// Default lifetime of a cached heuristic, five minutes.
pub const DEFAULT_HEURISTIC_TTL_MS: i64 = 300_000;

/// What a heuristic does when it matches. Only `salience` is interpreted here;
/// `message` is handed on as the suggested action.
#[derive(Clone, Debug)]
pub struct Action {
    pub message: String,
    pub salience: Option<SalienceBoost>,
}

/// A learned rule as the cache holds it.
#[derive(Clone, Debug)]
pub struct CachedHeuristic {
    pub id: u128,
    pub name: String,
    /// The trigger in words; carried along, never interpreted.
    pub condition_text: String,
    pub action: Action,
    pub confidence: Scalar,
    /// Embedding of the condition; empty when the heuristic cannot be matched
    /// by similarity.
    pub condition_embedding: Vec<Scalar>,
    /// Time of the last match or touch, for eviction.
    pub last_accessed_ms: i64,
    /// Time of insertion, for expiry.
    pub cached_at_ms: i64,
    pub hit_count: u64,
    pub last_hit_ms: i64,
}

/// A recent event as the cache holds it.
#[derive(Clone, Debug)]
pub struct CachedEvent {
    pub id: u128,
    pub timestamp_ms: i64,
    pub source: String,
    pub raw_text: String,
    pub embedding: Vec<Scalar>,
    pub access_count: u32,
}

/// Sizing and policy of the cache.
#[derive(Clone, Copy, Debug)]
pub struct CacheConfig {
    pub max_events: usize,
    pub max_heuristics: usize,
    /// An event is novel when it is less similar than this to every cached event.
    pub novelty_threshold: Scalar,
    /// Lifetime of a cached heuristic; zero or less means that none expires.
    pub heuristic_ttl_ms: i64,
}

impl Default for CacheConfig {
    fn default() -> (c: Self)
        ensures
            c.max_events == DEFAULT_MAX_EVENTS,
            c.max_heuristics == DEFAULT_MAX_HEURISTICS,
            c.novelty_threshold.bits == DEFAULT_NOVELTY_THRESHOLD_BITS,
            c.heuristic_ttl_ms == DEFAULT_HEURISTIC_TTL_MS,
    {
        CacheConfig {
            max_events: DEFAULT_MAX_EVENTS,
            max_heuristics: DEFAULT_MAX_HEURISTICS,
            novelty_threshold: Scalar::from_bits(DEFAULT_NOVELTY_THRESHOLD_BITS),
            heuristic_ttl_ms: DEFAULT_HEURISTIC_TTL_MS,
        }
    }
}

/// Counters and sizes of the cache at one moment.
#[derive(Clone, Copy, Debug, PartialEq, Eq, Structural)]
pub struct CacheStats {
    pub event_count: usize,
    pub heuristic_count: usize,
    pub max_events: usize,
    pub max_heuristics: usize,
    pub total_hits: u64,
    pub total_misses: u64,
}

impl CacheStats {
    /// The share of lookups that the cache answered, as a fraction: the hits
    /// over all lookups. The rate is zero while there were no lookups.
    pub fn hit_ratio(&self) -> (ratio: (u64, u128))
        ensures
            ratio.0 == self.total_hits,
            ratio.1 == self.total_hits + self.total_misses,
    {
        (self.total_hits, self.total_hits as u128 + self.total_misses as u128)
    }
}

impl CachedHeuristic {
    /// Whether the heuristic is past its lifetime at `now_ms`: a lifetime is
    /// set, and at least that much time has gone by since insertion.
    pub open spec fn spec_is_expired(&self, now_ms: i64, ttl_ms: i64) -> bool {
        ttl_ms > 0 && now_ms - self.cached_at_ms >= ttl_ms
    }

    #[verifier::when_used_as_spec(spec_is_expired)]
    pub fn is_expired(&self, now_ms: i64, ttl_ms: i64) -> (r: bool)
        ensures
            r == self.spec_is_expired(now_ms, ttl_ms),
    {
        ttl_ms > 0 && (now_ms as i128) - (self.cached_at_ms as i128) >= ttl_ms as i128
    }

    /// The heuristic as it enters the cache at `now_ms`: one that carries no
    /// insertion time gets `now_ms` for both of its timestamps.
    pub open spec fn spec_stamped(self, now_ms: i64) -> CachedHeuristic {
        if self.cached_at_ms == 0 {
            CachedHeuristic { last_accessed_ms: now_ms, cached_at_ms: now_ms, ..self }
        } else {
            self
        }
    }

    #[verifier::when_used_as_spec(spec_stamped)]
    pub fn stamped(self, now_ms: i64) -> (h: CachedHeuristic)
        ensures
            h == self.spec_stamped(now_ms),
    {
        if self.cached_at_ms == 0 {
            let mut h = self;
            h.last_accessed_ms = now_ms;
            h.cached_at_ms = now_ms;
            h
        } else {
            self
        }
    }

    /// The heuristic after a match at `now_ms`.
    pub open spec fn spec_touched(self, now_ms: i64) -> CachedHeuristic
        recommends
            self.hit_count < u64::MAX,
    {
        CachedHeuristic {
            last_accessed_ms: now_ms,
            last_hit_ms: now_ms,
            hit_count: (self.hit_count + 1) as u64,
            ..self
        }
    }

    #[verifier::when_used_as_spec(spec_touched)]
    pub fn touched(self, now_ms: i64) -> (h: CachedHeuristic)
        requires
            self.hit_count < u64::MAX,
        ensures
            h == self.spec_touched(now_ms),
    {
        let mut h = self;
        h.last_accessed_ms = now_ms;
        h.last_hit_ms = now_ms;
        h.hit_count = h.hit_count + 1;
        h
    }
}

} // verus!
