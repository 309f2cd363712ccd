//! The storage service as the scorer sees it: what is asked of it and how its
//! answers become cache entries.

use crate::client::{ClientConfig, ClientError, Heuristic};
use crate::config::{duration_of_secs, StorageConfig};
use crate::embedding::{bytes_to_embedding, decoded};
use crate::heuristic::{Action, CachedHeuristic};
use crate::ident::{parse_uuid, uuid_of_text};
use crate::scalar::Scalar;
use vstd::prelude::*;

verus! {

/// The query for the heuristics that match a text.
#[derive(Clone, Debug)]
pub struct QueryMatchingHeuristicsRequest {
    pub event_text: String,
    pub min_confidence: Scalar,
    pub limit: i32,
    /// The source to restrict the query to; empty for none.
    pub source_filter: String,
}

/// The request for an embedding of a text.
#[derive(Clone, Debug)]
pub struct GenerateEmbeddingRequest {
    pub text: String,
}

/// One match as storage returned it, with its effects read from their JSON:
/// `effects` is nothing when that JSON was malformed.
#[derive(Clone, Debug)]
pub struct StorageMatch {
    pub heuristic: Option<Heuristic>,
    pub effects: Option<Action>,
    pub similarity: Scalar,
}

/// Whether a match can enter the cache: it holds a heuristic whose identifier
/// is a UUID, whose effects could be read and whose embedding is a whole
/// number of values.
pub open spec fn is_usable(m: StorageMatch) -> bool {
    &&& m.heuristic matches Some(h)
    &&& uuid_of_text(h.id@) is Some
    &&& m.effects is Some
    &&& h.condition_embedding@.len() % 4 == 0
}

/// `cached` is the cache entry for the usable match `m`: identifier, name,
/// condition, effects, confidence and embedding are those of the match; the
/// entry is not stamped and was never hit.
pub open spec fn is_entry_of(cached: CachedHeuristic, m: StorageMatch) -> bool {
    let h = m.heuristic->0;
    &&& Some(cached.id) == uuid_of_text(h.id@)
    &&& cached.name == h.name
    &&& cached.condition_text == h.condition_text
    &&& cached.action == m.effects->0
    &&& cached.confidence == h.confidence
    &&& cached.condition_embedding@ == decoded(h.condition_embedding@)
    &&& cached.last_accessed_ms == 0
    &&& cached.cached_at_ms == 0
    &&& cached.hit_count == 0
    &&& cached.last_hit_ms == 0
}

/// `entries` holds the cache entries for the usable ones among `matches`, in
/// their order.
pub open spec fn are_entries_of(entries: Seq<CachedHeuristic>, matches: Seq<StorageMatch>) -> bool
    decreases matches.len(),
{
    if matches.len() == 0 {
        entries.len() == 0
    } else if is_usable(matches.last()) {
        &&& entries.len() > 0
        &&& is_entry_of(entries.last(), matches.last())
        &&& are_entries_of(entries.drop_last(), matches.drop_last())
    } else {
        are_entries_of(entries, matches.drop_last())
    }
}

/// The cache entry for one match, or nothing when the match is not usable.
pub fn entry_from_match(m: StorageMatch) -> (entry: Option<CachedHeuristic>)
    ensures
        match entry {
            Some(cached) => is_usable(m) && is_entry_of(cached, m),
            None => !is_usable(m),
        },
{
    let h = match m.heuristic {
        Some(h) => h,
        None => {
            return None;
        },
    };
    let id = match parse_uuid(h.id.as_str()) {
        Ok(id) => id,
        Err(_) => {
            return None;
        },
    };
    let action = match m.effects {
        Some(action) => action,
        None => {
            return None;
        },
    };
    let condition_embedding = match bytes_to_embedding(&h.condition_embedding) {
        Ok(values) => values,
        Err(_) => {
            return None;
        },
    };
    Some(
        CachedHeuristic {
            id,
            name: h.name,
            condition_text: h.condition_text,
            action,
            confidence: h.confidence,
            condition_embedding,
            last_accessed_ms: 0,
            cached_at_ms: 0,
            hit_count: 0,
            last_hit_ms: 0,
        },
    )
}

/// The cache entries for the matches that storage returned. A match that is
/// not usable is left out; the others keep their order.
pub fn entries_from_matches(matches: Vec<StorageMatch>) -> (entries: Vec<CachedHeuristic>)
    ensures
        are_entries_of(entries@, matches@),
{
    let ghost all = matches@;
    let mut entries: Vec<CachedHeuristic> = Vec::new();
    for m in it: matches
        invariant
            it.seq() == all,
            are_entries_of(entries@, all.take(it.index())),
    {
        let ghost n = it.index();
        let ghost before = entries@;
        proof {
            assert(all.take(n + 1).drop_last() =~= all.take(n));
            assert(all.take(n + 1).last() == all[n]);
        }
        match entry_from_match(m) {
            Some(cached) => {
                entries.push(cached);
                proof {
                    assert(entries@.drop_last() =~= before);
                }
            },
            None => {},
        }
    }
    proof {
        assert(all.take(all.len() as int) =~= all);
    }
    entries
}

/// The storage service reached over the network.
#[derive(Clone, Debug)]
pub struct GrpcStorageBackend {
    config: StorageConfig,
}

impl View for GrpcStorageBackend {
    type V = StorageConfig;

    closed spec fn view(&self) -> StorageConfig {
        self.config
    }
}

impl GrpcStorageBackend {
    pub fn new(config: StorageConfig) -> (backend: Self)
        ensures
            backend@ == config,
    {
        GrpcStorageBackend { config }
    }

    /// How a client for one call is set up: the address and the two budgets
    /// of the configuration.
    pub fn client_config(&self) -> (c: ClientConfig)
        ensures
            c.address@ == self@.address@,
            c.connect_timeout == duration_of_secs(self@.connect_timeout_secs),
            c.request_timeout == duration_of_secs(self@.request_timeout_secs),
    {
        ClientConfig {
            address: self.config.address.clone(),
            connect_timeout: self.config.connect_timeout(),
            request_timeout: self.config.request_timeout(),
        }
    }

    /// The query for the heuristics that match a text.
    pub fn matching_request(
        event_text: &str,
        min_confidence: Scalar,
        limit: i32,
        source_filter: Option<&str>,
    ) -> (request: QueryMatchingHeuristicsRequest)
        ensures
            request.event_text@ == event_text@,
            request.min_confidence == min_confidence,
            request.limit == limit,
            match source_filter {
                Some(source) => request.source_filter@ == source@,
                None => request.source_filter@.len() == 0,
            },
    {
        QueryMatchingHeuristicsRequest {
            event_text: String::from_str(event_text),
            min_confidence,
            limit,
            source_filter: match source_filter {
                Some(source) => String::from_str(source),
                None => String::new(),
            },
        }
    }

    /// The request for an embedding of a text.
    pub fn embedding_request(text: &str) -> (request: GenerateEmbeddingRequest)
        ensures
            request.text@ == text@,
    {
        GenerateEmbeddingRequest { text: String::from_str(text) }
    }

    /// What the scorer is told when the query for heuristics failed.
    pub fn query_failure(error: &ClientError) -> (text: String)
        ensures
            text@ == "Failed to query storage for heuristics: "@ + error.spec_message(),
    {
        String::from_str("Failed to query storage for heuristics: ").concat(
            error.message().as_str(),
        )
    }

    /// What the scorer is told when no embedding could be generated.
    pub fn embedding_failure(error: &ClientError) -> (text: String)
        ensures
            text@ == "Failed to generate embedding: "@ + error.spec_message(),
    {
        String::from_str("Failed to generate embedding: ").concat(error.message().as_str())
    }

    /// What the scorer is told when storage could not be reached.
    pub fn connection_failure(error: &ClientError) -> (text: String)
        ensures
            text@ == "Failed to connect to storage: "@ + error.spec_message(),
    {
        String::from_str("Failed to connect to storage: ").concat(error.message().as_str())
    }

    /// What the query for heuristics came to: the message of the failure, or
    /// the cache entries for the usable matches.
    pub fn query_matching_heuristics(outcome: Result<Vec<StorageMatch>, ClientError>) -> (result:
        Result<Vec<CachedHeuristic>, String>)
        ensures
            match outcome {
                Ok(matches) => result matches Ok(entries) && are_entries_of(entries@, matches@),
                Err(e) => result matches Err(text) && text@
                    == "Failed to query storage for heuristics: "@ + e.spec_message(),
            },
    {
        match outcome {
            Ok(matches) => Ok(entries_from_matches(matches)),
            Err(e) => Err(Self::query_failure(&e)),
        }
    }

    /// What the request for an embedding came to: the message of the failure,
    /// or the embedding.
    pub fn generate_embedding(outcome: Result<Vec<Scalar>, ClientError>) -> (result: Result<
        Vec<Scalar>,
        String,
    >)
        ensures
            match outcome {
                Ok(values) => result == Ok::<Vec<Scalar>, String>(values),
                Err(e) => result matches Err(text) && text@ == "Failed to generate embedding: "@
                    + e.spec_message(),
            },
    {
        match outcome {
            Ok(values) => Ok(values),
            Err(e) => Err(Self::embedding_failure(&e)),
        }
    }
}

} // verus!
