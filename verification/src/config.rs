//! Configuration of the service and of its parts.
//!
//! Every section has documented defaults. Reading the environment is left to
//! the program that hosts the library.

use crate::heuristic::{
    CacheConfig, DEFAULT_HEURISTIC_TTL_MS, DEFAULT_MAX_EVENTS, DEFAULT_MAX_HEURISTICS,
    DEFAULT_NOVELTY_THRESHOLD_BITS,
};
use crate::scalar::Scalar;
use std::time::Duration;
use vstd::prelude::*;

verus! {

/// Default port of the gateway.
pub const DEFAULT_PORT: u16 = 50052;

/// Default budget for connecting to storage, in seconds.
pub const DEFAULT_CONNECT_TIMEOUT_SECS: u64 = 5;

/// Default budget for one request to storage, in seconds.
pub const DEFAULT_REQUEST_TIMEOUT_SECS: u64 = 30;

/// Default time between two refreshes, in seconds.
pub const DEFAULT_REFRESH_INTERVAL_SECS: u64 = 5;

/// Default number of heuristics loaded by one refresh.
pub const DEFAULT_REFRESH_MAX_HEURISTICS: i32 = 100;

/// Default minimum confidence of a heuristic, the pattern of 0.5.
pub const DEFAULT_MIN_CONFIDENCE_BITS: u32 = 0x3f00_0000;

/// Default novelty of every event, the pattern of 0.1.
pub const DEFAULT_BASELINE_NOVELTY_BITS: u32 = 0x3dcc_cccd;

/// Default novelty of an event that no heuristic matched, the pattern of 0.4.
pub const DEFAULT_UNMATCHED_NOVELTY_BITS: u32 = 0x3ecc_cccd;

/// Default minimum similarity of a match, the pattern of 0.7.
pub const DEFAULT_MIN_SIMILARITY_BITS: u32 = 0x3f33_3333;

/// The duration that `Duration::from_secs` makes of a number of seconds.
pub uninterp spec fn duration_of_secs(secs: u64) -> Duration;

/// `Duration::from_secs` makes a duration of that many whole seconds; the
/// contract gives the result its name and claims no more.
pub assume_specification[ Duration::from_secs ](secs: u64) -> (d: Duration)
    ensures
        d == duration_of_secs(secs),
;

/// Where the gateway listens.
#[derive(Clone, Debug)]
pub struct ServerConfig {
    pub host: String,
    pub port: u16,
}

/// How storage is reached.
#[derive(Clone, Debug)]
pub struct StorageConfig {
    pub address: String,
    pub connect_timeout_secs: u64,
    pub request_timeout_secs: u64,
}

/// Thresholds and defaults of salience evaluation.
#[derive(Clone, Copy, Debug, PartialEq, Eq, Structural)]
pub struct SalienceConfig {
    /// Heuristics below this confidence are not considered.
    pub min_heuristic_confidence: Scalar,
    /// Novelty that every evaluation starts from.
    pub baseline_novelty: Scalar,
    /// Novelty of an event that no heuristic matched.
    pub unmatched_novelty_boost: Scalar,
    /// Heuristics less similar than this do not match.
    pub min_heuristic_similarity: Scalar,
}

/// How often heuristics are refreshed, and how many at once.
#[derive(Clone, Copy, Debug, PartialEq, Eq, Structural)]
pub struct RefreshConfig {
    pub interval_secs: u64,
    pub max_heuristics: i32,
}

/// All sections together.
#[derive(Clone, Debug)]
pub struct Config {
    pub server: ServerConfig,
    pub storage: StorageConfig,
    pub cache: CacheConfig,
    pub salience: SalienceConfig,
    pub refresh: RefreshConfig,
}

impl Default for ServerConfig {
    fn default() -> (c: Self)
        ensures
            c.host@ == "0.0.0.0"@,
            c.port == DEFAULT_PORT,
    {
        ServerConfig { host: String::from_str("0.0.0.0"), port: DEFAULT_PORT }
    }
}

impl Default for StorageConfig {
    fn default() -> (c: Self)
        ensures
            c.address@ == "http://localhost:50051"@,
            c.connect_timeout_secs == DEFAULT_CONNECT_TIMEOUT_SECS,
            c.request_timeout_secs == DEFAULT_REQUEST_TIMEOUT_SECS,
    {
        StorageConfig {
            address: String::from_str("http://localhost:50051"),
            connect_timeout_secs: DEFAULT_CONNECT_TIMEOUT_SECS,
            request_timeout_secs: DEFAULT_REQUEST_TIMEOUT_SECS,
        }
    }
}

impl StorageConfig {
    /// The budget for connecting.
    pub fn connect_timeout(&self) -> (d: Duration)
        ensures
            d == duration_of_secs(self.connect_timeout_secs),
    {
        Duration::from_secs(self.connect_timeout_secs)
    }

    /// The budget for one request.
    pub fn request_timeout(&self) -> (d: Duration)
        ensures
            d == duration_of_secs(self.request_timeout_secs),
    {
        Duration::from_secs(self.request_timeout_secs)
    }
}

impl Default for SalienceConfig {
    fn default() -> (c: Self)
        ensures
            c.min_heuristic_confidence.bits == DEFAULT_MIN_CONFIDENCE_BITS,
            c.baseline_novelty.bits == DEFAULT_BASELINE_NOVELTY_BITS,
            c.unmatched_novelty_boost.bits == DEFAULT_UNMATCHED_NOVELTY_BITS,
            c.min_heuristic_similarity.bits == DEFAULT_MIN_SIMILARITY_BITS,
    {
        SalienceConfig {
            min_heuristic_confidence: Scalar::from_bits(DEFAULT_MIN_CONFIDENCE_BITS),
            baseline_novelty: Scalar::from_bits(DEFAULT_BASELINE_NOVELTY_BITS),
            unmatched_novelty_boost: Scalar::from_bits(DEFAULT_UNMATCHED_NOVELTY_BITS),
            min_heuristic_similarity: Scalar::from_bits(DEFAULT_MIN_SIMILARITY_BITS),
        }
    }
}

impl Default for RefreshConfig {
    fn default() -> (c: Self)
        ensures
            c.interval_secs == DEFAULT_REFRESH_INTERVAL_SECS,
            c.max_heuristics == DEFAULT_REFRESH_MAX_HEURISTICS,
    {
        RefreshConfig {
            interval_secs: DEFAULT_REFRESH_INTERVAL_SECS,
            max_heuristics: DEFAULT_REFRESH_MAX_HEURISTICS,
        }
    }
}

impl RefreshConfig {
    /// The time between two refreshes.
    pub fn interval(&self) -> (d: Duration)
        ensures
            d == duration_of_secs(self.interval_secs),
    {
        Duration::from_secs(self.interval_secs)
    }
}

impl Default for Config {
    /// Every section with its defaults.
    fn default() -> (c: Self)
        ensures
            c.server.host@ == "0.0.0.0"@,
            c.server.port == DEFAULT_PORT,
            c.storage.address@ == "http://localhost:50051"@,
            c.storage.connect_timeout_secs == DEFAULT_CONNECT_TIMEOUT_SECS,
            c.storage.request_timeout_secs == DEFAULT_REQUEST_TIMEOUT_SECS,
            c.cache.max_events == DEFAULT_MAX_EVENTS,
            c.cache.max_heuristics == DEFAULT_MAX_HEURISTICS,
            c.cache.novelty_threshold.bits == DEFAULT_NOVELTY_THRESHOLD_BITS,
            c.cache.heuristic_ttl_ms == DEFAULT_HEURISTIC_TTL_MS,
            c.salience.min_heuristic_confidence.bits == DEFAULT_MIN_CONFIDENCE_BITS,
            c.salience.baseline_novelty.bits == DEFAULT_BASELINE_NOVELTY_BITS,
            c.salience.unmatched_novelty_boost.bits == DEFAULT_UNMATCHED_NOVELTY_BITS,
            c.salience.min_heuristic_similarity.bits == DEFAULT_MIN_SIMILARITY_BITS,
            c.refresh.interval_secs == DEFAULT_REFRESH_INTERVAL_SECS,
            c.refresh.max_heuristics == DEFAULT_REFRESH_MAX_HEURISTICS,
    {
        Config {
            server: ServerConfig::default(),
            storage: StorageConfig::default(),
            cache: CacheConfig::default(),
            salience: SalienceConfig::default(),
            refresh: RefreshConfig::default(),
        }
    }
}

} // verus!
