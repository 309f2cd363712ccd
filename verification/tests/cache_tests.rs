use salience_gateway::cache::MemoryCache;
use salience_gateway::embedding::cosine_similarity;
use salience_gateway::heuristic::{Action, CacheConfig, CachedEvent, CachedHeuristic};
use salience_gateway::scalar::Scalar;
use uuid::Uuid;

fn s(x: f32) -> Scalar {
    Scalar::from_bits(x.to_bits())
}

fn f(x: Scalar) -> f32 {
    f32::from_bits(x.to_bits())
}

fn embedding(values: &[f32]) -> Vec<Scalar> {
    values.iter().map(|v| s(*v)).collect()
}

/// Dot product over the product of the norms; zero when a norm is zero.
fn kernel(a: &Vec<Scalar>, b: &Vec<Scalar>) -> Scalar {
    let dot: f32 = a.iter().zip(b.iter()).map(|(x, y)| f(*x) * f(*y)).sum();
    let norm_a: f32 = a.iter().map(|x| f(*x) * f(*x)).sum::<f32>().sqrt();
    let norm_b: f32 = b.iter().map(|x| f(*x) * f(*x)).sum::<f32>().sqrt();
    if norm_a == 0.0 || norm_b == 0.0 {
        return s(0.0);
    }
    s(dot / (norm_a * norm_b))
}

fn new_id() -> u128 {
    Uuid::new_v4().as_u128()
}

fn config(max_events: usize, max_heuristics: usize, ttl: i64) -> CacheConfig {
    CacheConfig {
        max_events,
        max_heuristics,
        novelty_threshold: s(0.9),
        heuristic_ttl_ms: ttl,
    }
}

fn heuristic(
    id: u128,
    name: &str,
    confidence: f32,
    condition_embedding: Vec<Scalar>,
    last_accessed_ms: i64,
    cached_at_ms: i64,
) -> CachedHeuristic {
    CachedHeuristic {
        id,
        name: name.to_string(),
        condition_text: String::new(),
        action: Action { message: String::new(), salience: None },
        confidence: s(confidence),
        condition_embedding,
        last_accessed_ms,
        cached_at_ms,
        hit_count: 0,
        last_hit_ms: 0,
    }
}

fn event(id: u128, timestamp_ms: i64, raw_text: &str, embedding: Vec<Scalar>) -> CachedEvent {
    CachedEvent {
        id,
        timestamp_ms,
        source: "test".to_string(),
        raw_text: raw_text.to_string(),
        embedding,
        access_count: 0,
    }
}

#[test]
fn test_cosine_similarity_identical() {
    let a = embedding(&[1.0, 0.0, 0.0]);
    let b = embedding(&[1.0, 0.0, 0.0]);
    assert!((f(cosine_similarity(&a, &b, &kernel)) - 1.0).abs() < 0.0001);
}

#[test]
fn test_cosine_similarity_orthogonal() {
    let a = embedding(&[1.0, 0.0, 0.0]);
    let b = embedding(&[0.0, 1.0, 0.0]);
    assert!((f(cosine_similarity(&a, &b, &kernel))).abs() < 0.0001);
}

#[test]
fn cosine_similarity_of_degenerate_inputs_is_exactly_zero() {
    let a = embedding(&[1.0, 2.0, 3.0]);
    let shorter = embedding(&[1.0, 2.0]);
    let empty: Vec<Scalar> = Vec::new();
    let zeros = embedding(&[0.0, 0.0, 0.0]);
    assert_eq!(cosine_similarity(&a, &shorter, &kernel).to_bits(), 0);
    assert_eq!(cosine_similarity(&a, &empty, &kernel).to_bits(), 0);
    assert_eq!(cosine_similarity(&empty, &empty, &kernel).to_bits(), 0);
    assert_eq!(cosine_similarity(&a, &zeros, &kernel).to_bits(), 0);
    assert_eq!(cosine_similarity(&zeros, &a, &kernel).to_bits(), 0);
}

#[test]
fn cosine_similarity_does_not_ask_the_kernel_about_zero_vectors() {
    let a = embedding(&[1.0, 2.0]);
    let zeros = embedding(&[0.0, -0.0]);
    let one = |_: &Vec<Scalar>, _: &Vec<Scalar>| s(1.0);
    assert_eq!(cosine_similarity(&a, &zeros, &one).to_bits(), 0);
    assert_eq!(cosine_similarity(&zeros, &a, &one).to_bits(), 0);
    assert_eq!(cosine_similarity(&zeros, &zeros, &one).to_bits(), 0);
    let tiny = embedding(&[1.0e-30, 0.0]);
    assert_eq!(cosine_similarity(&a, &tiny, &one), s(1.0));
    // A norm that vanishes in the arithmetic is the kernel's to catch.
    assert_eq!(cosine_similarity(&a, &tiny, &kernel).to_bits(), 0);
}

#[test]
fn cosine_similarity_never_returns_nan() {
    let a = embedding(&[1.0, 2.0]);
    let b = embedding(&[3.0, 4.0]);
    let broken = |_: &Vec<Scalar>, _: &Vec<Scalar>| s(f32::NAN);
    assert_eq!(cosine_similarity(&a, &b, &broken).to_bits(), 0);
}

#[test]
fn cosine_similarity_does_not_ask_the_kernel_about_unequal_lengths() {
    let a = embedding(&[1.0, 2.0]);
    let b = embedding(&[3.0]);
    let one = |_: &Vec<Scalar>, _: &Vec<Scalar>| s(1.0);
    assert_eq!(cosine_similarity(&a, &b, &one).to_bits(), 0);
    assert_eq!(cosine_similarity(&a, &a, &one), s(1.0));
}

#[test]
fn test_novelty_empty_cache() {
    let cache = MemoryCache::new(CacheConfig::default());
    let embedding = embedding(&[0.1; 384]);
    assert!(cache.is_novel(&embedding, &kernel));
}

#[test]
fn test_novelty_with_similar_event() {
    let mut cache = MemoryCache::new(CacheConfig {
        max_events: 100,
        max_heuristics: 50,
        novelty_threshold: s(0.9),
        heuristic_ttl_ms: 5000,
    });

    let emb = embedding(&[1.0; 384]);
    cache.add_event(event(new_id(), 1000, "test event", emb.clone()));

    // Identical embedding should not be novel
    assert!(!cache.is_novel(&emb, &kernel));

    // Very different embedding should be novel
    let different = embedding(&[-1.0; 384]);
    assert!(cache.is_novel(&different, &kernel));
}

#[test]
fn test_cache_eviction() {
    let mut cache = MemoryCache::new(CacheConfig {
        max_events: 3,
        max_heuristics: 50,
        novelty_threshold: s(0.9),
        heuristic_ttl_ms: 5000,
    });

    // Add 4 events to trigger eviction
    for i in 0..4 {
        cache.add_event(event(
            new_id(),
            i * 1000,
            &format!("event {}", i),
            embedding(&[i as f32; 384]),
        ));
    }

    // Should only have 3 events (oldest evicted)
    assert_eq!(cache.stats().event_count, 3);
}

#[test]
fn add_event_evicts_the_oldest_timestamp() {
    let mut cache = MemoryCache::new(config(2, 50, 0));
    let (a, b, c) = (1u128, 2u128, 3u128);
    cache.add_event(event(a, 3000, "a", Vec::new()));
    cache.add_event(event(b, 1000, "b", Vec::new()));
    cache.add_event(event(c, 2000, "c", Vec::new()));
    assert!(cache.get_event(&a).is_some());
    assert!(cache.get_event(&b).is_none());
    assert!(cache.get_event(&c).is_some());
    assert_eq!(cache.get_event(&c).unwrap().raw_text, "c");
}

#[test]
fn add_event_breaks_ties_of_age_by_the_larger_identifier() {
    let mut cache = MemoryCache::new(config(2, 50, 0));
    cache.add_event(event(7, 1000, "a", Vec::new()));
    cache.add_event(event(9, 1000, "b", Vec::new()));
    cache.add_event(event(8, 1000, "c", Vec::new()));
    assert!(cache.get_event(&7).is_some());
    assert!(cache.get_event(&9).is_none());
    assert!(cache.get_event(&8).is_some());
}

#[test]
fn test_find_similar() {
    let mut cache = MemoryCache::new(CacheConfig::default());

    let event_id = new_id();
    let emb = embedding(&[1.0; 384]);
    cache.add_event(event(event_id, 1000, "test event", emb.clone()));

    // Should find the event with high similarity
    let result = cache.find_similar(&emb, s(0.9), &kernel);
    assert!(result.is_some());
    let (found_id, similarity) = result.unwrap();
    assert_eq!(found_id, event_id);
    assert!(f(similarity) > 0.99);

    // Should not find with very different embedding
    let different = embedding(&[-1.0; 384]);
    assert!(cache.find_similar(&different, s(0.9), &kernel).is_none());
}

#[test]
fn find_similar_returns_the_most_similar_event() {
    let mut cache = MemoryCache::new(config(10, 50, 0));
    cache.add_event(event(1, 10, "far", embedding(&[1.0, 1.0])));
    cache.add_event(event(2, 20, "near", embedding(&[1.0, 0.1])));
    cache.add_event(event(3, 30, "off", embedding(&[0.0, 1.0])));
    let query = embedding(&[1.0, 0.0]);
    let (id, similarity) = cache.find_similar(&query, s(0.5), &kernel).unwrap();
    assert_eq!(id, 2);
    assert!(f(similarity) > 0.99);
}

#[test]
fn test_heuristics_by_confidence() {
    let mut cache = MemoryCache::new(CacheConfig::default());

    cache.add_heuristic(heuristic(new_id(), "low_confidence", 0.3, Vec::new(), 0, 0));
    cache.add_heuristic(heuristic(new_id(), "high_confidence", 0.9, Vec::new(), 0, 0));

    let high_conf = cache.get_heuristics_by_confidence(s(0.5));
    assert_eq!(high_conf.len(), 1);
    assert_eq!(high_conf[0].name, "high_confidence");

    let all = cache.get_heuristics_by_confidence(s(0.0));
    assert_eq!(all.len(), 2);
}

#[test]
fn heuristics_by_confidence_leaves_out_expired_ones() {
    let mut cache = MemoryCache::new(config(10, 10, 100));
    cache.add_heuristic_at(heuristic(1, "old", 0.9, Vec::new(), 0, 0), 1_000);
    cache.add_heuristic_at(heuristic(2, "new", 0.9, Vec::new(), 0, 0), 1_050);
    let at_1099 = cache.get_heuristics_by_confidence_at(s(0.5), 1_099);
    assert_eq!(at_1099.len(), 2);
    let at_1100 = cache.get_heuristics_by_confidence_at(s(0.5), 1_100);
    assert_eq!(at_1100.len(), 1);
    assert_eq!(at_1100[0].name, "new");
    assert!(cache.get_heuristic(&1).is_some());
}

#[test]
fn test_heuristic_lru_eviction() {
    // Create cache with max_heuristics = 3
    let mut cache = MemoryCache::new(CacheConfig {
        max_events: 100,
        max_heuristics: 3,
        novelty_threshold: s(0.9),
        heuristic_ttl_ms: 5000,
    });

    // Add 3 heuristics with different last_accessed times
    let id1 = new_id();
    let id2 = new_id();
    let id3 = new_id();

    cache.add_heuristic(heuristic(id1, "first", 0.5, Vec::new(), 1000, 0));
    cache.add_heuristic(heuristic(id2, "second", 0.5, Vec::new(), 2000, 0));
    cache.add_heuristic(heuristic(id3, "third", 0.5, Vec::new(), 3000, 0));

    assert_eq!(cache.stats().heuristic_count, 3);

    // Add a 4th heuristic - should evict the oldest (id1)
    let id4 = new_id();
    cache.add_heuristic(heuristic(id4, "fourth", 0.5, Vec::new(), 4000, 0));

    assert_eq!(cache.stats().heuristic_count, 3);
    assert!(cache.get_heuristic(&id1).is_none()); // id1 should be evicted
    assert!(cache.get_heuristic(&id2).is_some());
    assert!(cache.get_heuristic(&id3).is_some());
    assert!(cache.get_heuristic(&id4).is_some());
}

#[test]
fn test_heuristic_touch_updates_lru() {
    let mut cache = MemoryCache::new(CacheConfig {
        max_events: 100,
        max_heuristics: 3,
        novelty_threshold: s(0.9),
        heuristic_ttl_ms: 5000,
    });

    let id1 = new_id();
    let id2 = new_id();
    let id3 = new_id();

    // Add heuristics with id1 being oldest
    cache.add_heuristic(heuristic(id1, "first", 0.5, Vec::new(), 1000, 0));
    cache.add_heuristic(heuristic(id2, "second", 0.5, Vec::new(), 2000, 0));
    cache.add_heuristic(heuristic(id3, "third", 0.5, Vec::new(), 3000, 0));

    // Touch id1 - should update its last_accessed to now
    cache.touch_heuristic(&id1);

    // Now id2 should be the oldest (since id1 was touched)
    // Add a 4th heuristic - should evict id2
    let id4 = new_id();
    cache.add_heuristic(heuristic(id4, "fourth", 0.5, Vec::new(), 0, 0));

    assert!(cache.get_heuristic(&id1).is_some()); // id1 was touched, should survive
    assert!(cache.get_heuristic(&id2).is_none()); // id2 should be evicted (was oldest)
    assert!(cache.get_heuristic(&id3).is_some());
    assert!(cache.get_heuristic(&id4).is_some());
}

#[test]
fn lru_eviction_keeps_the_last_n_of_n_plus_k() {
    let n = 4usize;
    let k = 3usize;
    let mut cache = MemoryCache::new(config(10, n, 0));
    for i in 0..(n + k) {
        let stamp = 1_000 + 10 * i as i64;
        cache.add_heuristic_at(heuristic(100 + i as u128, "h", 0.5, Vec::new(), stamp, stamp), 5_000);
    }
    assert_eq!(cache.stats().heuristic_count, n);
    for i in 0..k {
        assert!(cache.get_heuristic(&(100 + i as u128)).is_none());
    }
    for i in k..(n + k) {
        assert!(cache.get_heuristic(&(100 + i as u128)).is_some());
    }
}

#[test]
fn eviction_within_one_millisecond_follows_the_order_of_use() {
    let mut cache = MemoryCache::new(config(10, 3, 0));
    // All stamped with the same time: the order of the operations decides.
    cache.add_heuristic_at(heuristic(30, "a", 0.5, Vec::new(), 0, 0), 1_000);
    cache.add_heuristic_at(heuristic(20, "b", 0.5, Vec::new(), 0, 0), 1_000);
    cache.add_heuristic_at(heuristic(10, "c", 0.5, Vec::new(), 0, 0), 1_000);
    cache.touch_heuristic_at(&30, 1_000);
    cache.add_heuristic_at(heuristic(40, "d", 0.5, Vec::new(), 0, 0), 1_000);
    assert!(cache.get_heuristic(&30).is_some());
    assert!(cache.get_heuristic(&20).is_none());
    assert!(cache.get_heuristic(&10).is_some());
    assert!(cache.get_heuristic(&40).is_some());
}

#[test]
fn add_heuristic_stamps_only_what_carries_no_insertion_time() {
    let mut cache = MemoryCache::new(config(10, 10, 0));
    cache.add_heuristic_at(heuristic(1, "unstamped", 0.5, Vec::new(), 77, 0), 9_000);
    cache.add_heuristic_at(heuristic(2, "stamped", 0.5, Vec::new(), 0, 55), 9_000);
    let a = cache.get_heuristic(&1).unwrap();
    assert_eq!(a.cached_at_ms, 9_000);
    assert_eq!(a.last_accessed_ms, 9_000);
    let b = cache.get_heuristic(&2).unwrap();
    assert_eq!(b.cached_at_ms, 55);
    assert_eq!(b.last_accessed_ms, 0);
}

#[test]
fn add_heuristic_replaces_an_entry_of_the_same_identifier() {
    let mut cache = MemoryCache::new(config(10, 10, 0));
    cache.add_heuristic_at(heuristic(1, "before", 0.5, Vec::new(), 0, 0), 1_000);
    cache.add_heuristic_at(heuristic(1, "after", 0.6, Vec::new(), 0, 0), 2_000);
    assert_eq!(cache.stats().heuristic_count, 1);
    let h = cache.get_heuristic(&1).unwrap();
    assert_eq!(h.name, "after");
    assert_eq!(h.cached_at_ms, 2_000);
    assert_eq!(h.last_accessed_ms, 2_000);
}

#[test]
fn a_cache_without_capacity_keeps_the_entry_added_last() {
    let mut cache = MemoryCache::new(config(10, 0, 0));
    cache.add_heuristic_at(heuristic(1, "a", 0.5, Vec::new(), 0, 0), 1_000);
    cache.add_heuristic_at(heuristic(2, "b", 0.5, Vec::new(), 0, 0), 1_001);
    assert_eq!(cache.stats().heuristic_count, 1);
    assert!(cache.get_heuristic(&1).is_none());
    assert!(cache.get_heuristic(&2).is_some());
}

#[test]
fn touch_sets_both_times_and_counts_the_hit() {
    let mut cache = MemoryCache::new(config(10, 10, 0));
    cache.add_heuristic_at(heuristic(1, "a", 0.5, Vec::new(), 0, 0), 1_000);
    cache.touch_heuristic_at(&1, 2_500);
    cache.touch_heuristic_at(&1, 2_600);
    let h = cache.get_heuristic(&1).unwrap();
    assert_eq!(h.last_accessed_ms, 2_600);
    assert_eq!(h.last_hit_ms, 2_600);
    assert_eq!(h.hit_count, 2);
    assert_eq!(h.cached_at_ms, 1_000);
    // Touching what is not there changes nothing.
    cache.touch_heuristic_at(&2, 3_000);
    assert_eq!(cache.stats().heuristic_count, 1);
}

#[test]
fn get_heuristic_does_not_count_as_use() {
    let mut cache = MemoryCache::new(config(10, 2, 0));
    cache.add_heuristic_at(heuristic(1, "a", 0.5, Vec::new(), 0, 0), 1_000);
    cache.add_heuristic_at(heuristic(2, "b", 0.5, Vec::new(), 0, 0), 2_000);
    assert!(cache.get_heuristic(&1).is_some());
    cache.add_heuristic_at(heuristic(3, "c", 0.5, Vec::new(), 0, 0), 3_000);
    assert!(cache.get_heuristic(&1).is_none());
    assert!(cache.get_heuristic(&2).is_some());
}

#[test]
fn list_heuristics_is_ordered_from_most_to_least_recent() {
    let mut cache = MemoryCache::new(config(10, 10, 0));
    cache.add_heuristic_at(heuristic(1, "a", 0.5, Vec::new(), 2_000, 1), 0);
    cache.add_heuristic_at(heuristic(2, "b", 0.5, Vec::new(), 3_000, 1), 0);
    cache.add_heuristic_at(heuristic(3, "c", 0.5, Vec::new(), 1_000, 1), 0);
    let all: Vec<u128> = cache.list_heuristics(0).iter().map(|h| h.id).collect();
    assert_eq!(all, vec![2, 1, 3]);
    let two: Vec<u128> = cache.list_heuristics(2).iter().map(|h| h.id).collect();
    assert_eq!(two, vec![2, 1]);
    let many: Vec<u128> = cache.list_heuristics(9).iter().map(|h| h.id).collect();
    assert_eq!(many, vec![2, 1, 3]);
}

#[test]
fn flush_heuristics_reports_the_count_and_empties_the_cache() {
    let mut cache = MemoryCache::new(config(10, 10, 0));
    cache.add_heuristic_at(heuristic(1, "a", 0.5, Vec::new(), 0, 0), 1_000);
    cache.add_heuristic_at(heuristic(2, "b", 0.5, Vec::new(), 0, 0), 1_000);
    cache.record_hit();
    assert_eq!(cache.flush_heuristics(), 2);
    assert_eq!(cache.stats().heuristic_count, 0);
    assert_eq!(cache.stats().total_hits, 1);
    assert_eq!(cache.flush_heuristics(), 0);
}

#[test]
fn test_find_matching_heuristics_basic() {
    let mut cache = MemoryCache::new(CacheConfig {
        max_events: 100,
        max_heuristics: 50,
        novelty_threshold: s(0.9),
        heuristic_ttl_ms: 300_000, // 5 min
    });

    // Create two heuristics with different embeddings
    let id1 = new_id();
    let id2 = new_id();

    // Embedding: mostly positive values
    let emb1: Vec<Scalar> = (0..384).map(|i| s(i as f32 / 384.0)).collect();
    // Embedding: same direction, should be very similar
    let emb2: Vec<Scalar> = (0..384).map(|i| s((i as f32 / 384.0) + 0.01)).collect();

    cache.add_heuristic(heuristic(id1, "h1", 0.8, emb1.clone(), 0, 0));
    cache.add_heuristic(heuristic(id2, "h2", 0.3, emb2, 0, 0)); // Below threshold

    // Query with emb1 — should match h1 (high confidence), not h2 (low confidence)
    let matches = cache.find_matching_heuristics(&emb1, s(0.7), s(0.5), 10, &kernel);
    assert_eq!(matches.len(), 1);
    assert_eq!(matches[0].0, id1);
    assert!(f(matches[0].1) > 0.99); // Self-similarity

    // Query with no minimum confidence — should match both
    let matches_all = cache.find_matching_heuristics(&emb1, s(0.7), s(0.0), 10, &kernel);
    assert_eq!(matches_all.len(), 2);
    // Results should be sorted by similarity (h1 first = exact match)
    assert_eq!(matches_all[0].0, id1);
}

#[test]
fn test_find_matching_heuristics_empty_embedding() {
    let cache = MemoryCache::new(CacheConfig::default());
    let matches = cache.find_matching_heuristics(&Vec::new(), s(0.7), s(0.5), 10, &kernel);
    assert!(matches.is_empty());
}

#[test]
fn test_find_matching_heuristics_ttl_expiry() {
    let mut cache = MemoryCache::new(CacheConfig {
        max_events: 100,
        max_heuristics: 50,
        novelty_threshold: s(0.9),
        heuristic_ttl_ms: 1, // 1ms TTL — will expire immediately
    });

    let emb: Vec<Scalar> = embedding(&[1.0; 384]);
    cache.add_heuristic(heuristic(new_id(), "expired", 0.9, emb.clone(), 0, 1)); // Very old

    let matches = cache.find_matching_heuristics(&emb, s(0.5), s(0.0), 10, &kernel);
    assert!(matches.is_empty(), "Expired heuristic should not match");
}

#[test]
fn expiry_starts_exactly_when_the_lifetime_has_passed() {
    let mut cache = MemoryCache::new(config(10, 10, 100));
    let emb = embedding(&[1.0, 0.0]);
    cache.add_heuristic_at(heuristic(1, "h", 0.9, emb.clone(), 0, 0), 1_000);
    assert_eq!(cache.find_matching_heuristics_at(&emb, s(0.5), s(0.0), 10, 1_099, &kernel).len(), 1);
    assert_eq!(cache.find_matching_heuristics_at(&emb, s(0.5), s(0.0), 10, 1_100, &kernel).len(), 0);
}

#[test]
fn a_lifetime_of_zero_means_no_expiry() {
    let mut cache = MemoryCache::new(config(10, 10, 0));
    let emb = embedding(&[1.0, 0.0]);
    cache.add_heuristic_at(heuristic(1, "h", 0.9, emb.clone(), 0, 0), 1_000);
    let found = cache.find_matching_heuristics_at(&emb, s(0.5), s(0.0), 10, i64::MAX, &kernel);
    assert_eq!(found.len(), 1);
}

#[test]
fn find_matching_never_returns_an_entry_below_the_confidence() {
    let mut cache = MemoryCache::new(config(10, 10, 0));
    let emb = embedding(&[1.0, 0.0]);
    cache.add_heuristic_at(heuristic(1, "low", 0.49, emb.clone(), 0, 0), 1_000);
    cache.add_heuristic_at(heuristic(2, "edge", 0.5, emb.clone(), 0, 0), 1_000);
    cache.add_heuristic_at(heuristic(3, "high", 0.51, emb.clone(), 0, 0), 1_000);
    let found = cache.find_matching_heuristics_at(&emb, s(0.5), s(0.5), 0, 2_000, &kernel);
    let mut ids: Vec<u128> = found.iter().map(|m| m.0).collect();
    ids.sort();
    assert_eq!(ids, vec![2, 3]);
}

#[test]
fn find_matching_skips_entries_without_embedding() {
    let mut cache = MemoryCache::new(config(10, 10, 0));
    cache.add_heuristic_at(heuristic(1, "bare", 0.9, Vec::new(), 0, 0), 1_000);
    let query = embedding(&[1.0, 0.0]);
    // Even a similarity threshold of zero does not let it in.
    let found = cache.find_matching_heuristics_at(&query, s(0.0), s(0.0), 0, 2_000, &kernel);
    assert!(found.is_empty());
}

#[test]
fn find_matching_sorts_by_similarity_and_cuts_to_the_limit() {
    let mut cache = MemoryCache::new(config(10, 10, 0));
    cache.add_heuristic_at(heuristic(1, "a", 0.9, embedding(&[1.0, 1.0]), 0, 0), 1_000);
    cache.add_heuristic_at(heuristic(2, "b", 0.9, embedding(&[1.0, 0.0]), 0, 0), 1_000);
    cache.add_heuristic_at(heuristic(3, "c", 0.9, embedding(&[1.0, 0.2]), 0, 0), 1_000);
    cache.add_heuristic_at(heuristic(4, "d", 0.9, embedding(&[0.0, 1.0]), 0, 0), 1_000);
    let query = embedding(&[1.0, 0.0]);
    let all = cache.find_matching_heuristics_at(&query, s(0.5), s(0.0), 0, 2_000, &kernel);
    let ids: Vec<u128> = all.iter().map(|m| m.0).collect();
    assert_eq!(ids, vec![2, 3, 1]);
    assert_eq!(all[0].1, s(1.0));
    assert!(f(all[1].1) > f(all[2].1));
    let two = cache.find_matching_heuristics_at(&query, s(0.5), s(0.0), 2, 2_000, &kernel);
    let ids: Vec<u128> = two.iter().map(|m| m.0).collect();
    assert_eq!(ids, vec![2, 3]);
}

#[test]
fn find_matching_breaks_ties_by_the_smaller_identifier() {
    let mut cache = MemoryCache::new(config(10, 10, 0));
    let emb = embedding(&[1.0, 0.0]);
    cache.add_heuristic_at(heuristic(9, "a", 0.9, emb.clone(), 0, 0), 1_000);
    cache.add_heuristic_at(heuristic(3, "b", 0.9, emb.clone(), 0, 0), 1_000);
    cache.add_heuristic_at(heuristic(5, "c", 0.9, emb.clone(), 0, 0), 1_000);
    let found = cache.find_matching_heuristics_at(&emb, s(0.5), s(0.0), 2, 2_000, &kernel);
    let ids: Vec<u128> = found.iter().map(|m| m.0).collect();
    assert_eq!(ids, vec![3, 5]);
}

#[test]
fn test_cache_invalidation_removes_heuristic() {
    let mut cache = MemoryCache::new(CacheConfig::default());

    let id = new_id();
    cache.add_heuristic(heuristic(id, "to_remove", 0.9, embedding(&[1.0; 384]), 0, 0));

    assert!(cache.get_heuristic(&id).is_some());
    assert!(cache.remove_heuristic(&id));
    assert!(cache.get_heuristic(&id).is_none());

    // Subsequent queries should not find it
    let emb = embedding(&[1.0; 384]);
    let matches = cache.find_matching_heuristics(&emb, s(0.5), s(0.0), 10, &kernel);
    assert!(matches.is_empty());
}

#[test]
fn remove_heuristic_reports_absence() {
    let mut cache = MemoryCache::new(config(10, 10, 0));
    assert!(!cache.remove_heuristic(&1));
}

#[test]
fn stats_arithmetic() {
    let mut cache = MemoryCache::new(config(7, 9, 0));
    assert_eq!(cache.stats().hit_ratio(), (0, 0));
    cache.record_hit();
    cache.record_hit();
    cache.record_hit();
    cache.record_miss();
    let stats = cache.stats();
    assert_eq!(stats.total_hits, 3);
    assert_eq!(stats.total_misses, 1);
    assert_eq!(stats.max_events, 7);
    assert_eq!(stats.max_heuristics, 9);
    let (hits, lookups) = stats.hit_ratio();
    assert_eq!((hits, lookups), (3, 4));
    assert_eq!(hits as f32 / lookups as f32, 0.75);
}
