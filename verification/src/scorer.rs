//! Scoring an event against the learned heuristics.
//!
//! The scorer looks in the cache first and asks the storage service only when
//! the cache has nothing. The two requests to storage, for an embedding of the
//! text and for the heuristics that match it, are made by the caller: each
//! step here says which request comes next, and the following step takes what
//! came back. No step waits, so a caller can release the cache between steps.

use crate::cache::MemoryCache;
use crate::embedding::kernel_accepts;
use crate::heuristic::CachedHeuristic;
use crate::ident::{print_uuid, text_of_uuid};
use crate::model::{CacheModel, MatchQuery};
use crate::salience::SalienceBoost;
use crate::scalar::{Scalar, BELOW_ONE_BITS, ONE_BITS};
use vstd::prelude::*;

verus! {

/// How many matches a lookup in the cache returns at most.
pub const CACHE_MATCH_LIMIT: usize = 5;

/// How many heuristics a query to storage asks for.
pub const STORAGE_MATCH_LIMIT: i32 = 10;

/// A heuristic that applies to an event.
#[derive(Clone, Debug)]
pub struct ScoredMatch {
    pub heuristic_id: String,
    /// Similarity between event and condition. Exactly one means that storage
    /// made the match and the similarity is not known here; a match from the
    /// cache is always below one.
    pub similarity: Scalar,
    pub confidence: Scalar,
    pub condition_text: String,
    pub suggested_action: String,
    pub salience_boost: Option<SalienceBoost>,
}

/// Why scoring failed.
#[derive(Clone, Debug)]
pub enum ScoringError {
    /// The query to storage failed, with the message it gave.
    StorageError(String),
}

impl ScoringError {
    /// The error in words.
    pub open spec fn spec_message(self) -> Seq<char> {
        match self {
            ScoringError::StorageError(reason) => "Storage error: "@ + reason@,
        }
    }

    /// The error in words; never empty.
    pub fn message(&self) -> (text: String)
        ensures
            text@ == self.spec_message(),
            text@.len() > 0,
    {
        proof {
            reveal_strlit("Storage error: ");
        }
        match self {
            ScoringError::StorageError(reason) => String::from_str("Storage error: ").concat(
                reason.as_str(),
            ),
        }
    }
}

/// What the caller does next.
#[derive(Debug)]
pub enum ScoreStep {
    /// Scoring is over, with these matches, the best first.
    Done(Vec<ScoredMatch>),
    /// Ask storage for an embedding of the text, then go on with
    /// [`EmbeddingSimilarityScorer::after_embedding`].
    GenerateEmbedding,
    /// Ask storage for the heuristics that match the text, with this minimum
    /// confidence, this limit and no filter on the source, then go on with
    /// [`EmbeddingSimilarityScorer::after_storage`].
    QueryStorage { min_confidence: Scalar, limit: i32 },
}

/// What a scorer was set up with.
#[derive(Clone, Copy, Debug, PartialEq, Eq, Structural)]
pub struct ScorerConfig {
    pub min_similarity: Scalar,
    pub min_confidence: Scalar,
}

/// Scores by similarity of embeddings.
#[derive(Clone, Copy, Debug)]
pub struct EmbeddingSimilarityScorer {
    min_similarity: Scalar,
    min_confidence: Scalar,
}

/// A similarity as a match from the cache reports it: kept below one, which
/// is reserved for matches that storage made.
pub open spec fn below_sentinel(similarity: Scalar) -> Scalar {
    if similarity.spec_at_least(Scalar { bits: ONE_BITS }) {
        Scalar { bits: BELOW_ONE_BITS }
    } else {
        similarity
    }
}

/// `m` reports the heuristic `h` with the similarity `similarity`.
pub open spec fn describes(m: ScoredMatch, h: CachedHeuristic, similarity: Scalar) -> bool {
    &&& m.heuristic_id@ == text_of_uuid(h.id)
    &&& m.similarity == similarity
    &&& m.confidence == h.confidence
    &&& m.condition_text@ == h.condition_text@
    &&& m.suggested_action@ == h.action.message@
    &&& m.salience_boost == h.action.salience
}

/// The cache after each of `heuristics` was added at `now_ms`, in order.
pub open spec fn warmed(model: CacheModel, heuristics: Seq<CachedHeuristic>, now_ms: i64) -> CacheModel
    decreases heuristics.len(),
{
    if heuristics.len() == 0 {
        model
    } else {
        warmed(model, heuristics.drop_last(), now_ms).with_heuristic(
            heuristics.last().spec_stamped(now_ms),
        )
    }
}

/// `matches` reports `heuristics` one by one as matches made by storage.
pub open spec fn reports_storage(matches: Seq<ScoredMatch>, heuristics: Seq<CachedHeuristic>) -> bool {
    &&& matches.len() == heuristics.len()
    &&& forall|i: int|
        0 <= i < matches.len() ==> describes(
            #[trigger] matches[i],
            heuristics[i],
            Scalar { bits: ONE_BITS },
        )
}

fn report(h: &CachedHeuristic, similarity: Scalar) -> (m: ScoredMatch)
    ensures
        describes(m, *h, similarity),
{
    ScoredMatch {
        heuristic_id: print_uuid(h.id),
        similarity,
        confidence: h.confidence,
        condition_text: h.condition_text.clone(),
        suggested_action: h.action.message.clone(),
        salience_boost: h.action.salience,
    }
}

impl EmbeddingSimilarityScorer {
    pub closed spec fn spec_config(&self) -> ScorerConfig {
        ScorerConfig { min_similarity: self.min_similarity, min_confidence: self.min_confidence }
    }

    pub fn new(min_similarity: Scalar, min_confidence: Scalar) -> (scorer: Self)
        ensures
            scorer.spec_config() == (ScorerConfig { min_similarity, min_confidence }),
    {
        EmbeddingSimilarityScorer { min_similarity, min_confidence }
    }

    /// What the scorer was set up with.
    #[verifier::when_used_as_spec(spec_config)]
    pub fn config(&self) -> (c: ScorerConfig)
        ensures
            c == self.spec_config(),
    {
        ScorerConfig { min_similarity: self.min_similarity, min_confidence: self.min_confidence }
    }

    /// The name under which this way of scoring is configured and reported.
    pub fn name(&self) -> (name: &'static str)
        ensures
            name@ == "embedding_similarity"@,
    {
        "embedding_similarity"
    }

    /// The request to storage that scoring falls back on.
    pub open spec fn fallback(&self) -> ScoreStep {
        ScoreStep::QueryStorage {
            min_confidence: self.spec_config().min_confidence,
            limit: STORAGE_MATCH_LIMIT,
        }
    }

    /// The lookup that the scorer makes in the cache at `now_ms`.
    pub open spec fn lookup(&self, now_ms: i64) -> MatchQuery {
        MatchQuery {
            min_similarity: self.spec_config().min_similarity,
            min_confidence: self.spec_config().min_confidence,
            limit: CACHE_MATCH_LIMIT,
            now_ms,
        }
    }

    /// The step that follows a lookup in the cache which found `found`:
    /// without a match the query to storage, and otherwise the end, with one
    /// report for each match, in the same order.
    pub open spec fn follows_lookup(
        &self,
        model: CacheModel,
        found: Seq<(u128, Scalar)>,
        step: ScoreStep,
    ) -> bool {
        if found.len() == 0 {
            step == self.fallback()
        } else {
            &&& step matches ScoreStep::Done(matches)
            &&& matches@.len() == found.len()
            &&& forall|i: int|
                0 <= i < found.len() ==> describes(
                    #[trigger] matches@[i],
                    model.heuristics[found[i].0].heuristic,
                    below_sentinel(found[i].1),
                )
        }
    }

    /// `step` follows from a lookup for `embedding` in the cache, with `sims`
    /// as the similarities that the kernel gave and `found` as what was found.
    pub open spec fn follows_embedding<F: Fn(&Vec<Scalar>, &Vec<Scalar>) -> Scalar>(
        &self,
        model: CacheModel,
        kernel: F,
        embedding: &Vec<Scalar>,
        now_ms: i64,
        sims: Map<u128, Scalar>,
        found: Seq<(u128, Scalar)>,
        step: ScoreStep,
    ) -> bool {
        &&& model.answers(kernel, embedding, self.lookup(now_ms), sims, found)
        &&& self.follows_lookup(model, found, step)
    }

    /// First step: an empty text has no matches, and for any other the
    /// embedding is asked for.
    pub fn begin(&self, event_text: &str) -> (step: ScoreStep)
        ensures
            event_text@.len() == 0 ==> (step matches ScoreStep::Done(matches) && matches@.len()
                == 0),
            event_text@.len() > 0 ==> step == ScoreStep::GenerateEmbedding,
    {
        if event_text.is_empty() {
            ScoreStep::Done(Vec::new())
        } else {
            ScoreStep::GenerateEmbedding
        }
    }

    /// Second step, with what the request for an embedding gave.
    ///
    /// With an embedding, the cache is searched as of `now_ms` for at most
    /// five heuristics; if any is found, scoring ends with them, each reported
    /// with a similarity below one. Without an embedding, or without a match
    /// in the cache, storage is asked for matching heuristics.
    pub fn after_embedding<F: Fn(&Vec<Scalar>, &Vec<Scalar>) -> Scalar>(
        &self,
        cache: &MemoryCache,
        embedding: Result<Vec<Scalar>, String>,
        now_ms: i64,
        kernel: &F,
    ) -> (step: ScoreStep)
        requires
            kernel_accepts(*kernel),
        ensures
            match embedding {
                Err(_) => step == self.fallback(),
                Ok(e) => if e@.len() == 0 {
                    step == self.fallback()
                } else {
                    exists|sims: Map<u128, Scalar>, found: Seq<(u128, Scalar)>| #[trigger]
                        self.follows_embedding(cache@, *kernel, &e, now_ms, sims, found, step)
                },
            },
    {
        let fallback = ScoreStep::QueryStorage {
            min_confidence: self.min_confidence,
            limit: STORAGE_MATCH_LIMIT,
        };
        match embedding {
            Err(_) => fallback,
            Ok(e) => {
                let found = cache.find_matching_heuristics_at(
                    &e,
                    self.min_similarity,
                    self.min_confidence,
                    CACHE_MATCH_LIMIT,
                    now_ms,
                    kernel,
                );
                if found.len() == 0 {
                    proof {
                        if e@.len() > 0 {
                            let sims = choose|sims: Map<u128, Scalar>| #[trigger]
                                cache@.answers(*kernel, &e, self.lookup(now_ms), sims, found@);
                            assert(self.follows_embedding(
                                cache@,
                                *kernel,
                                &e,
                                now_ms,
                                sims,
                                found@,
                                fallback,
                            ));
                        }
                    }
                    return fallback;
                }
                let ghost sims = choose|sims: Map<u128, Scalar>| #[trigger]
                    cache@.answers(*kernel, &e, self.lookup(now_ms), sims, found@);
                let mut matches: Vec<ScoredMatch> = Vec::new();
                let mut i: usize = 0;
                while i < found.len()
                    invariant
                        i <= found.len(),
                        matches@.len() == i,
                        cache@.is_answer(self.lookup(now_ms), sims, found@),
                        forall|j: int|
                            0 <= j < i ==> describes(
                                #[trigger] matches@[j],
                                cache@.heuristics[found@[j].0].heuristic,
                                below_sentinel(found@[j].1),
                            ),
                    decreases found.len() - i,
                {
                    let (id, similarity) = found[i];
                    assert(cache@.is_hit(self.lookup(now_ms), sims, found@[i as int].0));
                    let entry = cache.get_heuristic(&id);
                    assert(entry is Some);
                    let reported = if similarity.at_least(Scalar::one()) {
                        Scalar::from_bits(BELOW_ONE_BITS)
                    } else {
                        similarity
                    };
                    matches.push(report(entry.unwrap(), reported));
                    i += 1;
                }
                let step = ScoreStep::Done(matches);
                proof {
                    assert(self.follows_embedding(cache@, *kernel, &e, now_ms, sims, found@, step));
                }
                step
            },
        }
    }

    /// Last step, with what the query to storage gave.
    ///
    /// A failure of the query is the failure of scoring. Otherwise every
    /// heuristic that storage returned is reported, in the order of storage
    /// and with the similarity one, and is added to the cache as of `now_ms`.
    pub fn after_storage(
        &self,
        cache: &mut MemoryCache,
        result: Result<Vec<CachedHeuristic>, String>,
        now_ms: i64,
    ) -> (scored: Result<Vec<ScoredMatch>, ScoringError>)
        ensures
            match result {
                Err(e) => scored == Err::<Vec<ScoredMatch>, ScoringError>(
                    ScoringError::StorageError(e),
                ) && final(cache)@ == old(cache)@,
                Ok(heuristics) => {
                    &&& scored matches Ok(matches) && reports_storage(matches@, heuristics@)
                    &&& final(cache)@ == warmed(old(cache)@, heuristics@, now_ms)
                },
            },
    {
        match result {
            Err(e) => Err(ScoringError::StorageError(e)),
            Ok(heuristics) => {
                let mut matches: Vec<ScoredMatch> = Vec::new();
                let mut i: usize = 0;
                while i < heuristics.len()
                    invariant
                        i <= heuristics.len(),
                        matches@.len() == i,
                        forall|j: int|
                            0 <= j < i ==> describes(
                                #[trigger] matches@[j],
                                heuristics@[j],
                                Scalar { bits: ONE_BITS },
                            ),
                    decreases heuristics.len() - i,
                {
                    matches.push(report(&heuristics[i], Scalar::one()));
                    i += 1;
                }
                let ghost all = heuristics@;
                let ghost start = cache@;
                for h in it: heuristics
                    invariant
                        it.seq() == all,
                        cache@ == warmed(start, all.take(it.index()), now_ms),
                {
                    proof {
                        let n = it.index();
                        assert(all.take(n + 1).drop_last() =~= all.take(n));
                        assert(all.take(n + 1).last() == all[n]);
                    }
                    cache.add_heuristic_at(h, now_ms);
                }
                proof {
                    assert(all.take(all.len() as int) =~= all);
                }
                Ok(matches)
            },
        }
    }
}

} // verus!
