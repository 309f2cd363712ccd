//! The gateway: evaluation of salience and administration of the cache.
//!
//! Every operation works on a cache that the caller hands in, so that the
//! caller decides how the cache is shared. Evaluation takes the outcome of
//! scoring as an argument: the requests to storage that scoring needs are made
//! by the caller, between the steps of [`crate::scorer`].

use crate::cache::MemoryCache;
use crate::config::SalienceConfig;
use crate::heuristic::{CacheStats, CachedHeuristic};
use crate::ident::{parse_uuid, print_uuid, text_of_uuid, uuid_of_text};
use crate::model::{ids_of, is_listing, CacheModel};
use crate::salience::{apply_salience_boost, merged, SalienceBoost, SalienceVector};
use crate::scalar::{Scalar, ONE_BITS};
use crate::scorer::{ScoredMatch, ScoringError};
use vstd::prelude::*;

verus! {

/// An event to be evaluated.
#[derive(Clone, Debug)]
pub struct EvaluateSalienceRequest {
    pub event_id: String,
    pub source: String,
    pub raw_text: String,
    pub structured_json: String,
    pub entity_ids: Vec<String>,
}

/// The outcome of an evaluation.
#[derive(Clone, Debug)]
pub struct EvaluateSalienceResponse {
    pub salience: SalienceVector,
    /// Whether a heuristic matched.
    pub from_cache: bool,
    /// The heuristic that matched, or empty.
    pub matched_heuristic_id: String,
    /// Why scoring failed, or empty.
    pub error: String,
    /// Always set: novelty between events is not computed here.
    pub novelty_detection_skipped: bool,
}

#[derive(Clone, Copy, Debug, PartialEq, Eq, Structural)]
pub struct FlushCacheResponse {
    pub entries_flushed: i32,
}

#[derive(Clone, Copy, Debug, PartialEq, Eq, Structural)]
pub struct EvictFromCacheResponse {
    pub found: bool,
}

/// Sizes and counters as they go over the wire; the hit rate is their quotient
/// [`CacheStats::hit_ratio`].
#[derive(Clone, Copy, Debug, PartialEq, Eq, Structural)]
pub struct GetCacheStatsResponse {
    pub current_size: i32,
    pub max_capacity: i32,
    pub total_hits: i64,
    pub total_misses: i64,
}

/// One line of the listing of the cache.
#[derive(Clone, Debug)]
pub struct CachedHeuristicInfo {
    pub heuristic_id: String,
    pub name: String,
    pub hit_count: i32,
    pub cached_at_unix: i64,
    pub last_hit_unix: i64,
}

#[derive(Clone, Copy, Debug, PartialEq, Eq, Structural)]
pub struct NotifyHeuristicChangeResponse {
    pub success: bool,
    /// Whether the kind of change was one of the known ones; an unknown kind
    /// evicts all the same.
    pub known_change: bool,
}

#[derive(Clone, Copy, Debug, PartialEq, Eq, Structural)]
pub enum HealthStatus {
    Healthy,
    Degraded,
    Unhealthy,
}

#[derive(Clone, Copy, Debug, PartialEq, Eq, Structural)]
pub struct GetHealthResponse {
    pub status: HealthStatus,
}

/// Health with the figures that go into its details.
#[derive(Clone, Copy, Debug, PartialEq, Eq, Structural)]
pub struct GetHealthDetailsResponse {
    pub status: HealthStatus,
    pub uptime_seconds: i64,
    pub stats: CacheStats,
}

/// Why a request was refused.
#[derive(Debug)]
pub enum GatewayError {
    /// The identifier is no UUID; the reason is the parser's.
    InvalidArgument(uuid::Error),
}

/// Seconds for milliseconds, rounded towards zero.
pub open spec fn unix_seconds(ms: i64) -> i64 {
    if ms >= 0 {
        (ms / 1000) as i64
    } else {
        (-((-ms) / 1000)) as i64
    }
}

/// The line of the listing for a heuristic.
pub open spec fn is_info_of(info: CachedHeuristicInfo, h: CachedHeuristic) -> bool {
    &&& info.heuristic_id@ == text_of_uuid(h.id)
    &&& info.name@ == h.name@
    &&& info.hit_count == h.hit_count as i32
    &&& info.cached_at_unix == unix_seconds(h.cached_at_ms)
    &&& info.last_hit_unix == unix_seconds(h.last_hit_ms)
}

/// Whether the counters can take the bookkeeping of a match of the heuristic
/// `id` with this similarity: none of those it raises stands at its limit.
pub open spec fn countable(model: CacheModel, id: u128, similarity: Scalar) -> bool {
    &&& similarity.spec_at_least(Scalar { bits: ONE_BITS }) ==> model.total_misses < u64::MAX
    &&& !similarity.spec_at_least(Scalar { bits: ONE_BITS }) ==> model.total_hits < u64::MAX
    &&& model.heuristics.contains_key(id) ==> model.heuristics[id].heuristic.hit_count
        < u64::MAX
}

/// The cache after a lookup was counted: as a miss when the similarity is one
/// or more, which marks a match that storage made, and as a hit otherwise.
pub open spec fn counted(model: CacheModel, similarity: Scalar) -> CacheModel {
    if similarity.spec_at_least(Scalar { bits: ONE_BITS }) {
        CacheModel { total_misses: (model.total_misses + 1) as u64, ..model }
    } else {
        CacheModel { total_hits: (model.total_hits + 1) as u64, ..model }
    }
}

/// The cache after the bookkeeping of a match: where the identifier is a UUID
/// and the counters can take it, the lookup is counted once and the heuristic
/// is touched once; otherwise nothing changes.
pub open spec fn recorded(
    model: CacheModel,
    id: Option<u128>,
    similarity: Scalar,
    now_ms: i64,
) -> CacheModel {
    match id {
        Some(id) => if countable(model, id, similarity) {
            counted(model, similarity).with_touch(id, now_ms)
        } else {
            model
        },
        None => model,
    }
}

/// The salience of an event that the heuristic with this boost matched.
pub open spec fn matched_salience(config: SalienceConfig, boost: Option<SalienceBoost>) -> SalienceVector {
    let base = SalienceVector::spec_baseline(config.baseline_novelty);
    match boost {
        Some(b) => merged(base, b),
        None => base,
    }
}

/// The salience of an event with a text that no heuristic matched.
pub open spec fn unmatched_salience(config: SalienceConfig) -> SalienceVector {
    let base = SalienceVector::spec_baseline(config.baseline_novelty);
    SalienceVector { novelty: base.novelty.spec_max(config.unmatched_novelty_boost), ..base }
}

/// The bookkeeping of a match: counts the lookup and touches the heuristic.
///
/// A similarity of one or more marks a match that storage made and counts as
/// a miss; any other counts as a hit. Either way the heuristic is touched at
/// `now_ms`. Nothing happens when the identifier is no UUID or a counter that
/// would be raised stands at its limit.
pub fn record_match(cache: &mut MemoryCache, heuristic_id: &str, similarity: Scalar, now_ms: i64)
    ensures
        final(cache)@ == recorded(old(cache)@, uuid_of_text(heuristic_id@), similarity, now_ms),
{
    match parse_uuid(heuristic_id) {
        Err(_) => {},
        Ok(id) => {
            let stats = cache.stats();
            let from_storage = similarity.at_least(Scalar::one());
            let counter_free = if from_storage {
                stats.total_misses < u64::MAX
            } else {
                stats.total_hits < u64::MAX
            };
            let entry_free = match cache.get_heuristic(&id) {
                Some(h) => h.hit_count < u64::MAX,
                None => true,
            };
            if counter_free && entry_free {
                if from_storage {
                    cache.record_miss();
                } else {
                    cache.record_hit();
                }
                cache.touch_heuristic_at(&id, now_ms);
            }
        },
    }
}

/// The gateway service.
#[derive(Clone, Copy, Debug)]
pub struct SalienceService {
    config: SalienceConfig,
}

impl SalienceService {
    pub closed spec fn spec_config(&self) -> SalienceConfig {
        self.config
    }

    /// A service with the default configuration.
    pub fn new() -> (service: Self)
        ensures
            service.spec_config().min_heuristic_confidence.bits
                == crate::config::DEFAULT_MIN_CONFIDENCE_BITS,
            service.spec_config().baseline_novelty.bits
                == crate::config::DEFAULT_BASELINE_NOVELTY_BITS,
            service.spec_config().unmatched_novelty_boost.bits
                == crate::config::DEFAULT_UNMATCHED_NOVELTY_BITS,
            service.spec_config().min_heuristic_similarity.bits
                == crate::config::DEFAULT_MIN_SIMILARITY_BITS,
    {
        SalienceService { config: SalienceConfig::default() }
    }

    /// A service with this configuration.
    pub fn with_config(config: SalienceConfig) -> (service: Self)
        ensures
            service.spec_config() == config,
    {
        SalienceService { config }
    }

    /// The configuration of the service.
    #[verifier::when_used_as_spec(spec_config)]
    pub fn config(&self) -> (c: SalienceConfig)
        ensures
            c == self.spec_config(),
    {
        self.config
    }

    /// Whether an event is scored at all: only one with a text is.
    pub open spec fn spec_needs_scoring(request: &EvaluateSalienceRequest) -> bool {
        request.raw_text@.len() > 0
    }

    #[verifier::when_used_as_spec(spec_needs_scoring)]
    pub fn needs_scoring(request: &EvaluateSalienceRequest) -> (r: bool)
        ensures
            r == Self::spec_needs_scoring(request),
    {
        !request.raw_text.as_str().is_empty()
    }

    /// `response` is what the evaluation of `request` returns for the outcome
    /// `scored` of scoring.
    ///
    /// An event without text is not scored and keeps the baseline. With a
    /// match, the first one wins: its boost is merged into the baseline and it
    /// is named. Without one, or when scoring failed, novelty is raised to the
    /// novelty of unmatched events, and a failure is reported in words.
    pub open spec fn responds(
        &self,
        request: &EvaluateSalienceRequest,
        scored: Result<Vec<ScoredMatch>, ScoringError>,
        response: EvaluateSalienceResponse,
    ) -> bool {
        let config = self.spec_config();
        &&& response.novelty_detection_skipped
        &&& if !Self::spec_needs_scoring(request) {
            &&& response.salience == SalienceVector::spec_baseline(config.baseline_novelty)
            &&& !response.from_cache
            &&& response.matched_heuristic_id@.len() == 0
            &&& response.error@.len() == 0
        } else {
            match scored {
                Ok(matches) => if matches@.len() > 0 {
                    &&& response.salience == matched_salience(config, matches@[0].salience_boost)
                    &&& response.from_cache
                    &&& response.matched_heuristic_id@ == matches@[0].heuristic_id@
                    &&& response.error@.len() == 0
                } else {
                    &&& response.salience == unmatched_salience(config)
                    &&& !response.from_cache
                    &&& response.matched_heuristic_id@.len() == 0
                    &&& response.error@.len() == 0
                },
                Err(e) => {
                    &&& response.salience == unmatched_salience(config)
                    &&& !response.from_cache
                    &&& response.matched_heuristic_id@.len() == 0
                    &&& response.error@ == e.spec_message()
                    &&& response.error@.len() > 0
                },
            }
        }
    }

    /// The cache after the evaluation of `request` for the outcome `scored`:
    /// the bookkeeping of the winning match when there is one, and no change
    /// otherwise.
    pub open spec fn bookkeeping(
        request: &EvaluateSalienceRequest,
        scored: Result<Vec<ScoredMatch>, ScoringError>,
        model: CacheModel,
        now_ms: i64,
    ) -> CacheModel {
        if !Self::spec_needs_scoring(request) {
            model
        } else {
            match scored {
                Ok(matches) => if matches@.len() > 0 {
                    recorded(
                        model,
                        uuid_of_text(matches@[0].heuristic_id@),
                        matches@[0].similarity,
                        now_ms,
                    )
                } else {
                    model
                },
                Err(_) => model,
            }
        }
    }

    /// Evaluates the salience of `request`, given the outcome of scoring its
    /// text. For a request without text the outcome is not looked at.
    pub fn evaluate_salience(
        &self,
        cache: &mut MemoryCache,
        request: &EvaluateSalienceRequest,
        scored: Result<Vec<ScoredMatch>, ScoringError>,
        now_ms: i64,
    ) -> (response: EvaluateSalienceResponse)
        ensures
            self.responds(request, scored, response),
            final(cache)@ == Self::bookkeeping(request, scored, old(cache)@, now_ms),
    {
        let mut salience = SalienceVector::baseline(self.config.baseline_novelty);
        if !Self::needs_scoring(request) {
            return EvaluateSalienceResponse {
                salience,
                from_cache: false,
                matched_heuristic_id: String::new(),
                error: String::new(),
                novelty_detection_skipped: true,
            };
        }
        match scored {
            Ok(matches) => {
                if matches.len() > 0 {
                    let best = &matches[0];
                    match best.salience_boost {
                        Some(boost) => {
                            apply_salience_boost(&mut salience, &boost);
                        },
                        None => {},
                    }
                    record_match(cache, best.heuristic_id.as_str(), best.similarity, now_ms);
                    EvaluateSalienceResponse {
                        salience,
                        from_cache: true,
                        matched_heuristic_id: best.heuristic_id.clone(),
                        error: String::new(),
                        novelty_detection_skipped: true,
                    }
                } else {
                    salience.raise_novelty(self.config.unmatched_novelty_boost);
                    EvaluateSalienceResponse {
                        salience,
                        from_cache: false,
                        matched_heuristic_id: String::new(),
                        error: String::new(),
                        novelty_detection_skipped: true,
                    }
                }
            },
            Err(e) => {
                salience.raise_novelty(self.config.unmatched_novelty_boost);
                EvaluateSalienceResponse {
                    salience,
                    from_cache: false,
                    matched_heuristic_id: String::new(),
                    error: e.message(),
                    novelty_detection_skipped: true,
                }
            },
        }
    }

    /// Removes every heuristic from the cache and reports how many there were.
    pub fn flush_cache(&self, cache: &mut MemoryCache) -> (response: FlushCacheResponse)
        ensures
            response.entries_flushed == old(cache)@.heuristics.len() as usize as i32,
            final(cache)@ == (CacheModel { heuristics: Map::empty(), ..old(cache)@ }),
    {
        let count = cache.flush_heuristics();
        FlushCacheResponse {
            entries_flushed: #[verifier::truncate]
            (count as i32),
        }
    }

    /// Removes one heuristic from the cache and reports whether it was there.
    /// An identifier that is no UUID is refused and changes nothing.
    pub fn evict_from_cache(&self, cache: &mut MemoryCache, heuristic_id: &str) -> (response:
        Result<EvictFromCacheResponse, GatewayError>)
        ensures
            match uuid_of_text(heuristic_id@) {
                Some(id) => {
                    &&& response == Ok::<EvictFromCacheResponse, GatewayError>(
                        EvictFromCacheResponse { found: old(cache)@.heuristics.contains_key(id) },
                    )
                    &&& final(cache)@ == (CacheModel {
                        heuristics: old(cache)@.heuristics.remove(id),
                        ..old(cache)@
                    })
                },
                None => response is Err && final(cache)@ == old(cache)@,
            },
    {
        match parse_uuid(heuristic_id) {
            Ok(id) => {
                let found = cache.remove_heuristic(&id);
                Ok(EvictFromCacheResponse { found })
            },
            Err(e) => Err(GatewayError::InvalidArgument(e)),
        }
    }

    /// Sizes and counters of the cache, in the widths of the wire.
    pub fn get_cache_stats(&self, cache: &MemoryCache) -> (response: GetCacheStatsResponse)
        ensures
            response == (GetCacheStatsResponse {
                current_size: cache@.heuristics.len() as usize as i32,
                max_capacity: cache@.config.max_heuristics as i32,
                total_hits: cache@.total_hits as i64,
                total_misses: cache@.total_misses as i64,
            }),
    {
        let stats = cache.stats();
        GetCacheStatsResponse {
            current_size: #[verifier::truncate]
            (stats.heuristic_count as i32),
            max_capacity: #[verifier::truncate]
            (stats.max_heuristics as i32),
            total_hits: #[verifier::truncate]
            (stats.total_hits as i64),
            total_misses: #[verifier::truncate]
            (stats.total_misses as i64),
        }
    }

    /// The heuristics of the cache from the most to the least recently used,
    /// one line each, at most `limit` of them; a limit of zero lists all.
    pub fn list_cached_heuristics(&self, cache: &MemoryCache, limit: i32) -> (lines: Vec<
        CachedHeuristicInfo,
    >)
        ensures
            exists|ids: Seq<u128>|
                {
                    &&& #[trigger] is_listing(cache@.heuristics, ids, limit as usize as nat)
                    &&& lines@.len() == ids.len()
                    &&& forall|i: int|
                        0 <= i < ids.len() ==> is_info_of(
                            #[trigger] lines@[i],
                            cache@.heuristics[ids[i]].heuristic,
                        )
                },
    {
        let list = cache.list_heuristics(
            #[verifier::truncate]
            (limit as usize),
        );
        let mut lines: Vec<CachedHeuristicInfo> = Vec::new();
        let mut i: usize = 0;
        while i < list.len()
            invariant
                i <= list.len(),
                lines@.len() == i,
                forall|j: int| 0 <= j < i ==> is_info_of(#[trigger] lines@[j], *list@[j]),
            decreases list.len() - i,
        {
            let h = list[i];
            lines.push(
                CachedHeuristicInfo {
                    heuristic_id: print_uuid(h.id),
                    name: h.name.clone(),
                    hit_count: #[verifier::truncate]
                    (h.hit_count as i32),
                    cached_at_unix: h.cached_at_ms / 1000,
                    last_hit_unix: h.last_hit_ms / 1000,
                },
            );
            i += 1;
        }
        proof {
            let ids = ids_of(list@);
            assert forall|i: int| 0 <= i < ids.len() implies is_info_of(
                #[trigger] lines@[i],
                cache@.heuristics[ids[i]].heuristic,
            ) by {
                assert(*list@[i] == cache@.heuristics[list@[i].id].heuristic);
            }
            assert(is_listing(cache@.heuristics, ids, limit as usize as nat));
        }
        lines
    }

    /// Takes note that storage changed a heuristic: whatever the kind of
    /// change, the heuristic leaves the cache, so that the next evaluation
    /// fetches it anew. An identifier that is no UUID is refused.
    pub fn notify_heuristic_change(
        &self,
        cache: &mut MemoryCache,
        heuristic_id: &str,
        change_type: &str,
    ) -> (response: Result<NotifyHeuristicChangeResponse, GatewayError>)
        ensures
            match uuid_of_text(heuristic_id@) {
                Some(id) => {
                    &&& response == Ok::<NotifyHeuristicChangeResponse, GatewayError>(
                        NotifyHeuristicChangeResponse {
                            success: true,
                            known_change: is_known_change(change_type@),
                        },
                    )
                    &&& final(cache)@ == (CacheModel {
                        heuristics: old(cache)@.heuristics.remove(id),
                        ..old(cache)@
                    })
                    &&& !final(cache)@.heuristics.contains_key(id)
                },
                None => response is Err && final(cache)@ == old(cache)@,
            },
    {
        match parse_uuid(heuristic_id) {
            Ok(id) => {
                let known_change = known_change(change_type);
                cache.remove_heuristic(&id);
                Ok(NotifyHeuristicChangeResponse { success: true, known_change })
            },
            Err(e) => Err(GatewayError::InvalidArgument(e)),
        }
    }

    /// The service is healthy whenever it answers.
    pub fn get_health(&self) -> (response: GetHealthResponse)
        ensures
            response.status == HealthStatus::Healthy,
    {
        GetHealthResponse { status: HealthStatus::Healthy }
    }

    /// Health, the time the service has been up, and the figures of the cache.
    pub fn get_health_details(&self, cache: &MemoryCache, uptime_seconds: i64) -> (response:
        GetHealthDetailsResponse)
        ensures
            response.status == HealthStatus::Healthy,
            response.uptime_seconds == uptime_seconds,
            response.stats == (CacheStats {
                event_count: cache@.events.len() as usize,
                heuristic_count: cache@.heuristics.len() as usize,
                max_events: cache@.config.max_events,
                max_heuristics: cache@.config.max_heuristics,
                total_hits: cache@.total_hits,
                total_misses: cache@.total_misses,
            }),
    {
        GetHealthDetailsResponse {
            status: HealthStatus::Healthy,
            uptime_seconds,
            stats: cache.stats(),
        }
    }
}

/// Whether a kind of change is one of those that storage announces.
pub open spec fn is_known_change(change_type: Seq<char>) -> bool {
    change_type == "created"@ || change_type == "updated"@ || change_type == "deleted"@
}

/// Executable form of [`is_known_change`].
pub fn known_change(change_type: &str) -> (known: bool)
    ensures
        known == is_known_change(change_type@),
{
    let kind = String::from_str(change_type);
    kind == String::from_str("created") || kind == String::from_str("updated") || kind
        == String::from_str("deleted")
}

} // verus!
