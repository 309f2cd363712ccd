use salience_gateway::cache::MemoryCache;
use salience_gateway::clock::current_time_ms;
use salience_gateway::config::SalienceConfig;
use salience_gateway::heuristic::{Action, CacheConfig, CachedHeuristic};
use salience_gateway::salience::SalienceBoost;
use salience_gateway::scalar::Scalar;
use salience_gateway::scorer::{
    EmbeddingSimilarityScorer, ScoreStep, ScoredMatch, ScoringError,
};
use salience_gateway::service::{EvaluateSalienceRequest, EvaluateSalienceResponse, SalienceService};
use std::cell::Cell;
use uuid::Uuid;

fn s(x: f32) -> Scalar {
    Scalar::from_bits(x.to_bits())
}

fn f(x: Scalar) -> f32 {
    f32::from_bits(x.to_bits())
}

fn embedding(values: &[f32]) -> Vec<Scalar> {
    values.iter().map(|v| s(*v)).collect()
}

fn unit_embedding() -> Vec<Scalar> {
    let mut values = vec![0.0f32; 384];
    values[0] = 1.0;
    embedding(&values)
}

fn kernel(a: &Vec<Scalar>, b: &Vec<Scalar>) -> Scalar {
    let dot: f32 = a.iter().zip(b.iter()).map(|(x, y)| f(*x) * f(*y)).sum();
    let norm_a: f32 = a.iter().map(|x| f(*x) * f(*x)).sum::<f32>().sqrt();
    let norm_b: f32 = b.iter().map(|x| f(*x) * f(*x)).sum::<f32>().sqrt();
    if norm_a == 0.0 || norm_b == 0.0 {
        return s(0.0);
    }
    s(dot / (norm_a * norm_b))
}

fn heuristic(
    id: u128,
    name: &str,
    condition_text: &str,
    message: &str,
    salience: Option<SalienceBoost>,
    confidence: f32,
    condition_embedding: Vec<Scalar>,
) -> CachedHeuristic {
    CachedHeuristic {
        id,
        name: name.to_string(),
        condition_text: condition_text.to_string(),
        action: Action { message: message.to_string(), salience },
        confidence: s(confidence),
        condition_embedding,
        last_accessed_ms: 0,
        cached_at_ms: 0,
        hit_count: 0,
        last_hit_ms: 0,
    }
}

struct MockStorageBackend {
    heuristics: Vec<CachedHeuristic>,
    embedding: Vec<Scalar>,
    should_fail_embedding: bool,
    should_fail_query: bool,
    embedding_calls: Cell<u32>,
    query_calls: Cell<u32>,
}

impl MockStorageBackend {
    fn new(heuristics: Vec<CachedHeuristic>, embedding: Vec<Scalar>) -> Self {
        MockStorageBackend {
            heuristics,
            embedding,
            should_fail_embedding: false,
            should_fail_query: false,
            embedding_calls: Cell::new(0),
            query_calls: Cell::new(0),
        }
    }

    fn query_matching_heuristics(
        &self,
        _text: &str,
        _min_conf: Scalar,
        _limit: i32,
    ) -> Result<Vec<CachedHeuristic>, String> {
        self.query_calls.set(self.query_calls.get() + 1);
        if self.should_fail_query {
            return Err("Mock query failure".into());
        }
        Ok(self.heuristics.clone())
    }

    fn generate_embedding(&self, _text: &str) -> Result<Vec<Scalar>, String> {
        self.embedding_calls.set(self.embedding_calls.get() + 1);
        if self.should_fail_embedding {
            return Err("Mock embedding failure".into());
        }
        Ok(self.embedding.clone())
    }
}

/// Runs the steps of the scorer against the mock, as a host program would.
fn score(
    scorer: &EmbeddingSimilarityScorer,
    cache: &mut MemoryCache,
    storage: &MockStorageBackend,
    event_text: &str,
    now_ms: i64,
) -> Result<Vec<ScoredMatch>, ScoringError> {
    match scorer.begin(event_text) {
        ScoreStep::Done(matches) => Ok(matches),
        ScoreStep::QueryStorage { .. } => unreachable!(),
        ScoreStep::GenerateEmbedding => {
            let generated = storage.generate_embedding(event_text);
            match scorer.after_embedding(cache, generated, now_ms, &kernel) {
                ScoreStep::Done(matches) => Ok(matches),
                ScoreStep::GenerateEmbedding => unreachable!(),
                ScoreStep::QueryStorage { min_confidence, limit } => {
                    let result = storage.query_matching_heuristics(event_text, min_confidence, limit);
                    scorer.after_storage(cache, result, now_ms)
                }
            }
        }
    }
}

fn evaluate(
    service: &SalienceService,
    scorer: &EmbeddingSimilarityScorer,
    cache: &mut MemoryCache,
    storage: &MockStorageBackend,
    raw_text: &str,
    now_ms: i64,
) -> EvaluateSalienceResponse {
    let request = EvaluateSalienceRequest {
        event_id: "event-1".to_string(),
        source: "test".to_string(),
        raw_text: raw_text.to_string(),
        structured_json: String::new(),
        entity_ids: Vec::new(),
    };
    let scored = if SalienceService::needs_scoring(&request) {
        score(scorer, cache, storage, raw_text, now_ms)
    } else {
        Ok(Vec::new())
    };
    service.evaluate_salience(cache, &request, scored, now_ms)
}

fn boost_threat(value: f32) -> SalienceBoost {
    let mut boost = SalienceBoost::none();
    boost.threat = Some(s(value));
    boost
}

#[test]
fn test_scorer_empty_text() {
    let mut cache = MemoryCache::new(CacheConfig::default());
    let mock_storage = MockStorageBackend::new(vec![], vec![]);
    let scorer = EmbeddingSimilarityScorer::new(s(0.7), s(0.5));

    let results = score(&scorer, &mut cache, &mock_storage, "", current_time_ms()).unwrap();
    assert!(results.is_empty());
    assert_eq!(mock_storage.embedding_calls.get(), 0);
    assert_eq!(mock_storage.query_calls.get(), 0);
}

#[test]
fn test_scorer_cache_hit() {
    let mut cache = MemoryCache::new(CacheConfig::default());

    let h_id = Uuid::new_v4();
    let emb = embedding(&[1.0; 384]);
    cache.add_heuristic(heuristic(
        h_id.as_u128(),
        "test_heuristic",
        "test condition",
        "test action",
        Some(boost_threat(0.5)),
        0.9,
        emb.clone(),
    ));

    let mock_storage = MockStorageBackend::new(vec![], emb.clone());

    let scorer = EmbeddingSimilarityScorer::new(s(0.7), s(0.5));
    let results = score(&scorer, &mut cache, &mock_storage, "test event", current_time_ms()).unwrap();

    assert_eq!(results.len(), 1);
    assert_eq!(results[0].heuristic_id, h_id.to_string());
    assert!(f(results[0].similarity) > 0.99);
    assert_eq!(results[0].suggested_action, "test action");
    assert_eq!(results[0].condition_text, "test condition");
    assert_eq!(results[0].confidence, s(0.9));
    assert_eq!(results[0].salience_boost, Some(boost_threat(0.5)));
    assert_eq!(mock_storage.query_calls.get(), 0);
}

#[test]
fn a_match_from_the_cache_is_reported_below_one() {
    let mut cache = MemoryCache::new(CacheConfig::default());
    let emb = unit_embedding();
    cache.add_heuristic(heuristic(7, "h", "", "", None, 0.9, emb.clone()));
    // The exact self-match has similarity one under the kernel.
    assert_eq!(kernel(&emb, &emb), s(1.0));
    let mock_storage = MockStorageBackend::new(vec![], emb);
    let scorer = EmbeddingSimilarityScorer::new(s(0.7), s(0.5));
    let results = score(&scorer, &mut cache, &mock_storage, "text", current_time_ms()).unwrap();
    assert_eq!(results.len(), 1);
    assert_eq!(results[0].similarity.to_bits(), 0x3f7f_ffff);
    assert!(f(results[0].similarity) < 1.0);
}

#[test]
fn test_scorer_storage_fallback() {
    let mut cache = MemoryCache::new(CacheConfig::default());

    let h_id = Uuid::new_v4();
    let emb = embedding(&[1.0; 384]);
    let storage_heuristic = heuristic(
        h_id.as_u128(),
        "storage_heuristic",
        "storage condition",
        "storage action",
        None,
        0.8,
        vec![],
    );

    let mock_storage = MockStorageBackend::new(vec![storage_heuristic], emb);

    let scorer = EmbeddingSimilarityScorer::new(s(0.7), s(0.5));
    let results = score(&scorer, &mut cache, &mock_storage, "test event", current_time_ms()).unwrap();

    assert_eq!(results.len(), 1);
    assert_eq!(results[0].heuristic_id, h_id.to_string());
    assert_eq!(results[0].similarity, s(1.0)); // Storage fallback uses 1.0
    assert_eq!(results[0].suggested_action, "storage action");
}

#[test]
fn test_storage_match_warms_cache() {
    let mut cache = MemoryCache::new(CacheConfig::default());

    let h_id = Uuid::new_v4().as_u128();
    let storage_heuristic = heuristic(
        h_id,
        "storage_heuristic",
        "storage condition",
        "storage action",
        None,
        0.8,
        embedding(&[1.0; 384]),
    );

    let mock_storage = MockStorageBackend::new(vec![storage_heuristic], embedding(&[1.0; 384]));

    let scorer = EmbeddingSimilarityScorer::new(s(0.7), s(0.5));

    // 1. Initial check: cache is empty
    assert!(cache.get_heuristic(&h_id).is_none());

    // 2. Score (should hit storage and warm cache)
    let now = current_time_ms();
    let _ = score(&scorer, &mut cache, &mock_storage, "test event", now).unwrap();

    // 3. Verify cache is now warmed
    assert!(cache.get_heuristic(&h_id).is_some());
    assert_eq!(cache.get_heuristic(&h_id).unwrap().name, "storage_heuristic");
    assert_eq!(cache.get_heuristic(&h_id).unwrap().cached_at_ms, now);
}

#[test]
fn test_embedding_failure_falls_back_to_storage() {
    let mut cache = MemoryCache::new(CacheConfig::default());

    let h_id = Uuid::new_v4();
    let storage_heuristic = heuristic(
        h_id.as_u128(),
        "storage_heuristic",
        "storage condition",
        "storage action",
        None,
        0.8,
        vec![],
    );

    let mut mock_storage = MockStorageBackend::new(vec![storage_heuristic], vec![]);
    mock_storage.should_fail_embedding = true; // Force embedding failure

    let scorer = EmbeddingSimilarityScorer::new(s(0.7), s(0.5));

    // Should NOT return error, should fall back to storage
    let results = score(&scorer, &mut cache, &mock_storage, "test event", current_time_ms()).unwrap();

    assert_eq!(results.len(), 1);
    assert_eq!(results[0].heuristic_id, h_id.to_string());
    assert_eq!(results[0].similarity, s(1.0));
}

#[test]
fn scoring_fails_when_embedding_and_query_both_fail() {
    let mut cache = MemoryCache::new(CacheConfig::default());
    let mut mock_storage = MockStorageBackend::new(vec![], vec![]);
    mock_storage.should_fail_embedding = true;
    mock_storage.should_fail_query = true;
    let scorer = EmbeddingSimilarityScorer::new(s(0.7), s(0.5));
    let outcome = score(&scorer, &mut cache, &mock_storage, "test event", 1_000);
    match outcome {
        Err(ScoringError::StorageError(reason)) => assert_eq!(reason, "Mock query failure"),
        Ok(_) => panic!("scoring should have failed"),
    }
    assert_eq!(cache.stats().heuristic_count, 0);
}

#[test]
fn test_create_scorer_default() {
    let config = salience_gateway::config::Config::default();
    let scorer = EmbeddingSimilarityScorer::new(
        config.salience.min_heuristic_similarity,
        config.salience.min_heuristic_confidence,
    );
    assert_eq!(scorer.name(), "embedding_similarity");
    assert_eq!(scorer.config().min_similarity, s(0.7));
    assert_eq!(scorer.config().min_confidence, s(0.5));
}

#[test]
fn scoring_error_message_names_the_reason() {
    let error = ScoringError::StorageError("down".to_string());
    assert_eq!(error.message(), "Storage error: down");
}

#[test]
fn the_scorer_asks_storage_for_ten_with_its_minimum_confidence() {
    let cache = MemoryCache::new(CacheConfig::default());
    let scorer = EmbeddingSimilarityScorer::new(s(0.7), s(0.25));
    match scorer.after_embedding(&cache, Err("no embedding".to_string()), 1_000, &kernel) {
        ScoreStep::QueryStorage { min_confidence, limit } => {
            assert_eq!(min_confidence, s(0.25));
            assert_eq!(limit, 10);
        }
        _ => panic!("the query to storage should follow"),
    }
    assert_eq!(scorer.config().min_similarity, s(0.7));
    assert_eq!(scorer.config().min_confidence, s(0.25));
    assert_eq!(scorer.name(), "embedding_similarity");
}

#[test]
fn the_scorer_returns_at_most_five_from_the_cache() {
    let mut cache = MemoryCache::new(CacheConfig::default());
    let emb = unit_embedding();
    for id in 1..=8u128 {
        cache.add_heuristic_at(heuristic(id, "h", "", "", None, 0.9, emb.clone()), 1_000);
    }
    let scorer = EmbeddingSimilarityScorer::new(s(0.7), s(0.5));
    match scorer.after_embedding(&cache, Ok(emb), 2_000, &kernel) {
        ScoreStep::Done(matches) => {
            let ids: Vec<String> = matches.iter().map(|m| m.heuristic_id.clone()).collect();
            let expected: Vec<String> =
                (1..=5u128).map(|id| Uuid::from_u128(id).to_string()).collect();
            assert_eq!(ids, expected);
        }
        _ => panic!("the cache should have answered"),
    }
}

#[test]
fn an_empty_embedding_leads_to_the_query_to_storage() {
    let mut cache = MemoryCache::new(CacheConfig::default());
    cache.add_heuristic_at(heuristic(1, "h", "", "", None, 0.9, unit_embedding()), 1_000);
    let scorer = EmbeddingSimilarityScorer::new(s(0.0), s(0.0));
    match scorer.after_embedding(&cache, Ok(Vec::new()), 2_000, &kernel) {
        ScoreStep::QueryStorage { .. } => {}
        _ => panic!("the query to storage should follow"),
    }
}

#[test]
fn storage_results_keep_their_order_and_enter_the_cache_in_it() {
    let mut cache = MemoryCache::new(CacheConfig {
        max_events: 10,
        max_heuristics: 2,
        novelty_threshold: s(0.9),
        heuristic_ttl_ms: 0,
    });
    let scorer = EmbeddingSimilarityScorer::new(s(0.7), s(0.5));
    let returned = vec![
        heuristic(3, "c", "", "", None, 0.9, vec![]),
        heuristic(1, "a", "", "", None, 0.8, vec![]),
        heuristic(2, "b", "", "", None, 0.7, vec![]),
    ];
    let matches = scorer.after_storage(&mut cache, Ok(returned), 5_000).unwrap();
    let ids: Vec<String> = matches.iter().map(|m| m.heuristic_id.clone()).collect();
    let expected: Vec<String> =
        [3u128, 1, 2].iter().map(|id| Uuid::from_u128(*id).to_string()).collect();
    assert_eq!(ids, expected);
    // The cache holds two: the first one added had to leave.
    assert!(cache.get_heuristic(&3).is_none());
    assert!(cache.get_heuristic(&1).is_some());
    assert!(cache.get_heuristic(&2).is_some());
}

// The scenarios of the gateway, end to end.

#[test]
fn cold_cache_storage_hit() {
    let mut cache = MemoryCache::new(CacheConfig::default());
    let h1 = Uuid::new_v4();
    let storage = MockStorageBackend::new(
        vec![heuristic(h1.as_u128(), "storm", "", "", Some(boost_threat(0.9)), 0.8, vec![])],
        unit_embedding(),
    );
    let config = SalienceConfig::default();
    let service = SalienceService::with_config(config);
    let scorer = EmbeddingSimilarityScorer::new(
        config.min_heuristic_similarity,
        config.min_heuristic_confidence,
    );
    let response = evaluate(
        &service,
        &scorer,
        &mut cache,
        &storage,
        "severe thunderstorm warning",
        10_000,
    );
    assert!(response.from_cache);
    assert_eq!(response.matched_heuristic_id, h1.to_string());
    assert_eq!(response.salience.threat, s(0.9));
    assert_eq!(response.salience.novelty, config.baseline_novelty);
    assert_eq!(response.salience.opportunity, s(0.0));
    assert_eq!(response.salience.humor, s(0.0));
    assert_eq!(response.salience.goal_relevance, s(0.0));
    assert_eq!(response.salience.social, s(0.0));
    assert_eq!(response.salience.emotional, s(0.0));
    assert_eq!(response.salience.actionability, s(0.0));
    assert_eq!(response.salience.habituation, s(0.0));
    assert_eq!(response.error, "");
    assert!(response.novelty_detection_skipped);
    assert!(cache.get_heuristic(&h1.as_u128()).is_some());
    assert_eq!(cache.stats().total_misses, 1);
    assert_eq!(cache.stats().total_hits, 0);
    assert_eq!(cache.get_heuristic(&h1.as_u128()).unwrap().hit_count, 1);
}

#[test]
fn warm_cache_cosine_hit() {
    let mut cache = MemoryCache::new(CacheConfig::default());
    let h1 = Uuid::new_v4();
    let mut boost = SalienceBoost::none();
    boost.opportunity = Some(s(0.6));
    cache.add_heuristic_at(
        heuristic(h1.as_u128(), "h1", "", "", Some(boost), 0.9, unit_embedding()),
        9_000,
    );
    let storage = MockStorageBackend::new(vec![], unit_embedding());
    let config = SalienceConfig::default();
    let service = SalienceService::with_config(config);
    let scorer = EmbeddingSimilarityScorer::new(
        config.min_heuristic_similarity,
        config.min_heuristic_confidence,
    );
    let response = evaluate(&service, &scorer, &mut cache, &storage, "an opening", 10_000);
    assert!(response.from_cache);
    assert_eq!(response.matched_heuristic_id, h1.to_string());
    assert_eq!(response.salience.opportunity, s(0.6));
    assert_eq!(cache.stats().total_hits, 1);
    assert_eq!(cache.stats().total_misses, 0);
    assert_eq!(storage.query_calls.get(), 0);
    let touched = cache.get_heuristic(&h1.as_u128()).unwrap();
    assert_eq!(touched.hit_count, 1);
    assert_eq!(touched.last_accessed_ms, 10_000);
    assert_eq!(touched.last_hit_ms, 10_000);
}

#[test]
fn no_match_novelty_boost() {
    let mut cache = MemoryCache::new(CacheConfig::default());
    let storage = MockStorageBackend::new(vec![], unit_embedding());
    let config = SalienceConfig {
        min_heuristic_confidence: s(0.5),
        baseline_novelty: s(0.1),
        unmatched_novelty_boost: s(0.4),
        min_heuristic_similarity: s(0.7),
    };
    let service = SalienceService::with_config(config);
    let scorer = EmbeddingSimilarityScorer::new(s(0.7), s(0.5));
    let response = evaluate(&service, &scorer, &mut cache, &storage, "today I drank coffee", 10_000);
    assert!(!response.from_cache);
    assert_eq!(response.matched_heuristic_id, "");
    assert_eq!(response.salience.novelty, s(0.4));
    assert_eq!(response.error, "");
    assert_eq!(cache.stats().total_hits, 0);
    assert_eq!(cache.stats().total_misses, 0);
}

#[test]
fn embedding_failure_storage_succeeds() {
    let mut cache = MemoryCache::new(CacheConfig::default());
    let h2 = Uuid::new_v4();
    let mut boost = SalienceBoost::none();
    boost.social = Some(s(0.7));
    let mut storage = MockStorageBackend::new(
        vec![heuristic(h2.as_u128(), "h2", "", "", Some(boost), 0.8, vec![])],
        vec![],
    );
    storage.should_fail_embedding = true;
    let config = SalienceConfig::default();
    let service = SalienceService::with_config(config);
    let scorer = EmbeddingSimilarityScorer::new(s(0.7), s(0.5));
    let response = evaluate(&service, &scorer, &mut cache, &storage, "someone came in", 10_000);
    assert!(response.from_cache);
    assert_eq!(response.salience.social, s(0.7));
    assert!(cache.get_heuristic(&h2.as_u128()).is_some());
}

#[test]
fn scoring_failure_is_reported_with_the_novelty_boost() {
    let mut cache = MemoryCache::new(CacheConfig::default());
    let mut storage = MockStorageBackend::new(vec![], vec![]);
    storage.should_fail_embedding = true;
    storage.should_fail_query = true;
    let config = SalienceConfig::default();
    let service = SalienceService::with_config(config);
    let scorer = EmbeddingSimilarityScorer::new(s(0.7), s(0.5));
    let response = evaluate(&service, &scorer, &mut cache, &storage, "anything", 10_000);
    assert!(!response.from_cache);
    assert_eq!(response.matched_heuristic_id, "");
    assert_eq!(response.error, "Storage error: Mock query failure");
    assert_eq!(response.salience.novelty, config.unmatched_novelty_boost);
    assert_eq!(response.salience.threat, s(0.0));
    assert!(response.novelty_detection_skipped);
}

#[test]
fn invalidation() {
    let mut cache = MemoryCache::new(CacheConfig::default());
    let h1 = Uuid::new_v4();
    cache.add_heuristic_at(heuristic(h1.as_u128(), "h1", "", "", None, 0.9, vec![]), 1_000);
    cache.add_heuristic_at(heuristic(5, "other", "", "", None, 0.9, vec![]), 1_000);
    let service = SalienceService::new();
    let before = service.get_cache_stats(&cache).current_size;
    let response = service.notify_heuristic_change(&mut cache, &h1.to_string(), "updated").unwrap();
    assert!(response.success);
    assert!(response.known_change);
    assert_eq!(service.get_cache_stats(&cache).current_size, before - 1);
    assert!(cache.get_heuristic(&h1.as_u128()).is_none());
    assert!(cache.get_heuristic(&5).is_some());
}

#[test]
fn empty_text() {
    let mut cache = MemoryCache::new(CacheConfig::default());
    let storage = MockStorageBackend::new(
        vec![heuristic(1, "h", "", "", Some(boost_threat(0.9)), 0.9, vec![])],
        unit_embedding(),
    );
    let config = SalienceConfig::default();
    let service = SalienceService::with_config(config);
    let scorer = EmbeddingSimilarityScorer::new(s(0.7), s(0.5));
    let response = evaluate(&service, &scorer, &mut cache, &storage, "", 10_000);
    assert!(!response.from_cache);
    assert_eq!(response.matched_heuristic_id, "");
    assert_eq!(response.salience.novelty, config.baseline_novelty);
    assert_eq!(response.salience.threat, s(0.0));
    assert_eq!(storage.embedding_calls.get(), 0);
    assert_eq!(storage.query_calls.get(), 0);
    assert_eq!(cache.stats().heuristic_count, 0);
}
