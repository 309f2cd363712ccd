//! What a client of the storage service sends and what it makes of the
//! answers. The calls themselves are made by the program that hosts the
//! library.

use crate::clock::current_time_ms;
use crate::config::{
    duration_of_secs, DEFAULT_CONNECT_TIMEOUT_SECS, DEFAULT_MIN_CONFIDENCE_BITS,
    DEFAULT_MIN_SIMILARITY_BITS, DEFAULT_REQUEST_TIMEOUT_SECS,
};
use crate::embedding::{bytes_to_embedding, decoded, embedding_to_bytes, encoded};
use crate::ident::{print_uuid, text_of_uuid};
use crate::salience::SalienceVector;
use crate::scalar::Scalar;
use std::time::Duration;
use vstd::prelude::*;

verus! {

/// Default learning rate of a heuristic, the pattern of 0.1.
pub const DEFAULT_LEARNING_RATE_BITS: u32 = 0x3dcc_cccd;

/// Why a call to storage failed.
#[derive(Clone, Debug)]
pub enum ClientError {
    /// No connection could be made; with the reason.
    ConnectionFailed(String),
    /// The call itself failed; with the status.
    RpcFailed(String),
    /// Storage answered with an error.
    StorageError(String),
    /// Storage answered with something that cannot be read.
    InvalidResponse,
}

impl ClientError {
    /// The error in words.
    pub open spec fn spec_message(self) -> Seq<char> {
        match self {
            ClientError::ConnectionFailed(reason) => "Failed to connect to storage service: "@
                + reason@,
            ClientError::RpcFailed(status) => "RPC failed: "@ + status@,
            ClientError::StorageError(reason) => "Storage service returned error: "@ + reason@,
            ClientError::InvalidResponse => "Invalid response from storage service"@,
        }
    }

    /// The error in words.
    pub fn message(&self) -> (text: String)
        ensures
            text@ == self.spec_message(),
    {
        match self {
            ClientError::ConnectionFailed(reason) => String::from_str(
                "Failed to connect to storage service: ",
            ).concat(reason.as_str()),
            ClientError::RpcFailed(status) => String::from_str("RPC failed: ").concat(
                status.as_str(),
            ),
            ClientError::StorageError(reason) => String::from_str(
                "Storage service returned error: ",
            ).concat(reason.as_str()),
            ClientError::InvalidResponse => String::from_str(
                "Invalid response from storage service",
            ),
        }
    }
}

/// How the client reaches storage.
#[derive(Debug)]
pub struct ClientConfig {
    pub address: String,
    pub connect_timeout: Duration,
    pub request_timeout: Duration,
}

impl Clone for ClientConfig {
    fn clone(&self) -> (copy: Self)
        ensures
            copy == *self,
    {
        ClientConfig {
            address: self.address.clone(),
            connect_timeout: self.connect_timeout,
            request_timeout: self.request_timeout,
        }
    }
}

impl Default for ClientConfig {
    fn default() -> (c: Self)
        ensures
            c.address@ == "http://localhost:50051"@,
            c.connect_timeout == duration_of_secs(DEFAULT_CONNECT_TIMEOUT_SECS),
            c.request_timeout == duration_of_secs(DEFAULT_REQUEST_TIMEOUT_SECS),
    {
        ClientConfig {
            address: String::from_str("http://localhost:50051"),
            connect_timeout: Duration::from_secs(DEFAULT_CONNECT_TIMEOUT_SECS),
            request_timeout: Duration::from_secs(DEFAULT_REQUEST_TIMEOUT_SECS),
        }
    }
}

/// An event as storage keeps it.
#[derive(Clone, Debug)]
pub struct EpisodicEvent {
    pub id: String,
    pub timestamp_ms: i64,
    pub source: String,
    pub raw_text: String,
    /// The embedding in its byte format.
    pub embedding: Vec<u8>,
    pub salience: Option<SalienceVector>,
    pub structured_json: String,
    pub entity_ids: Vec<String>,
    pub predicted_success: Scalar,
    pub prediction_confidence: Scalar,
    pub response_id: String,
    pub response_text: String,
    pub matched_heuristic_id: String,
}

/// A heuristic as storage keeps it.
#[derive(Clone, Debug)]
pub struct Heuristic {
    pub id: String,
    pub name: String,
    pub condition_text: String,
    /// The embedding of the condition in its byte format.
    pub condition_embedding: Vec<u8>,
    pub similarity_threshold: Scalar,
    /// What the heuristic does, as JSON.
    pub effects_json: String,
    pub confidence: Scalar,
    pub learning_rate: Scalar,
    pub origin: String,
    pub origin_id: String,
    pub next_heuristic_ids: Vec<String>,
    pub is_terminal: bool,
    pub last_fired_ms: i64,
    pub fire_count: i32,
    pub success_count: i32,
    pub created_at_ms: i64,
    pub updated_at_ms: i64,
}

/// What a call that stores something came to: an error with the reason that
/// storage gave unless storage reported success.
pub fn stored(success: bool, error: String) -> (outcome: Result<(), ClientError>)
    ensures
        success ==> outcome is Ok,
        !success ==> outcome == Err::<(), ClientError>(ClientError::StorageError(error)),
{
    if success {
        Ok(())
    } else {
        Err(ClientError::StorageError(error))
    }
}

/// What a call that asks for something came to: the payload when storage gave
/// no error, and otherwise an error with the reason that storage gave.
pub fn answered<T>(error: String, payload: T) -> (outcome: Result<T, ClientError>)
    ensures
        error@.len() == 0 ==> outcome == Ok::<T, ClientError>(payload),
        error@.len() > 0 ==> outcome == Err::<T, ClientError>(ClientError::StorageError(error)),
{
    if error.as_str().is_empty() {
        Ok(payload)
    } else {
        Err(ClientError::StorageError(error))
    }
}

/// The embedding that storage generated: its error if it gave one, an invalid
/// response when the bytes are no whole number of values, and the values
/// otherwise.
pub fn generated_embedding(error: String, embedding: &Vec<u8>) -> (outcome: Result<
    Vec<Scalar>,
    ClientError,
>)
    ensures
        error@.len() > 0 ==> outcome == Err::<Vec<Scalar>, ClientError>(
            ClientError::StorageError(error),
        ),
        error@.len() == 0 && embedding@.len() % 4 != 0 ==> outcome == Err::<
            Vec<Scalar>,
            ClientError,
        >(ClientError::InvalidResponse),
        error@.len() == 0 && embedding@.len() % 4 == 0 ==> (outcome matches Ok(values)
            && values@ == decoded(embedding@)),
{
    if !error.as_str().is_empty() {
        return Err(ClientError::StorageError(error));
    }
    match bytes_to_embedding(embedding) {
        Ok(values) => Ok(values),
        Err(_) => Err(ClientError::InvalidResponse),
    }
}

/// Builds an event step by step.
pub struct EventBuilder {
    event: EpisodicEvent,
}

impl View for EventBuilder {
    type V = EpisodicEvent;

    closed spec fn view(&self) -> EpisodicEvent {
        self.event
    }
}

impl EventBuilder {
    /// Starts an event with the current time, no embedding, no salience, an
    /// empty JSON object as structure and nothing else set.
    pub fn new(id: u128, source: &str, raw_text: &str) -> (builder: Self)
        ensures
            builder@.id@ == text_of_uuid(id),
            builder@.source@ == source@,
            builder@.raw_text@ == raw_text@,
            builder@.timestamp_ms >= 0,
            builder@.embedding@.len() == 0,
            builder@.salience is None,
            builder@.structured_json@ == "{}"@,
            builder@.entity_ids@.len() == 0,
            builder@.predicted_success.bits == 0,
            builder@.prediction_confidence.bits == 0,
            builder@.response_id@.len() == 0,
            builder@.response_text@.len() == 0,
            builder@.matched_heuristic_id@.len() == 0,
    {
        EventBuilder {
            event: EpisodicEvent {
                id: print_uuid(id),
                timestamp_ms: current_time_ms(),
                source: String::from_str(source),
                raw_text: String::from_str(raw_text),
                embedding: Vec::new(),
                salience: None,
                structured_json: String::from_str("{}"),
                entity_ids: Vec::new(),
                predicted_success: Scalar::zero(),
                prediction_confidence: Scalar::zero(),
                response_id: String::new(),
                response_text: String::new(),
                matched_heuristic_id: String::new(),
            },
        }
    }

    pub fn timestamp_ms(self, ts: i64) -> (builder: Self)
        ensures
            builder@ == (EpisodicEvent { timestamp_ms: ts, ..self@ }),
    {
        let mut event = self.event;
        event.timestamp_ms = ts;
        EventBuilder { event }
    }

    /// Sets the embedding, in its byte format.
    pub fn embedding(self, embedding: &Vec<Scalar>) -> (builder: Self)
        ensures
            builder@.embedding@ == encoded(embedding@),
            builder@ == (EpisodicEvent { embedding: builder@.embedding, ..self@ }),
    {
        let mut event = self.event;
        event.embedding = embedding_to_bytes(embedding);
        EventBuilder { event }
    }

    pub fn salience(self, salience: SalienceVector) -> (builder: Self)
        ensures
            builder@ == (EpisodicEvent { salience: Some(salience), ..self@ }),
    {
        let mut event = self.event;
        event.salience = Some(salience);
        EventBuilder { event }
    }

    pub fn structured_json(self, json: &str) -> (builder: Self)
        ensures
            builder@.structured_json@ == json@,
            builder@ == (EpisodicEvent { structured_json: builder@.structured_json, ..self@ }),
    {
        let mut event = self.event;
        event.structured_json = String::from_str(json);
        EventBuilder { event }
    }

    /// Sets the entities, each as the text of its identifier.
    pub fn entity_ids(self, ids: Vec<u128>) -> (builder: Self)
        ensures
            builder@.entity_ids@.len() == ids@.len(),
            forall|i: int|
                0 <= i < ids@.len() ==> (#[trigger] builder@.entity_ids@[i])@ == text_of_uuid(
                    ids@[i],
                ),
            builder@ == (EpisodicEvent { entity_ids: builder@.entity_ids, ..self@ }),
    {
        let mut texts: Vec<String> = Vec::new();
        let mut i: usize = 0;
        while i < ids.len()
            invariant
                i <= ids.len(),
                texts@.len() == i,
                forall|j: int| 0 <= j < i ==> (#[trigger] texts@[j])@ == text_of_uuid(ids@[j]),
            decreases ids.len() - i,
        {
            texts.push(print_uuid(ids[i]));
            i += 1;
        }
        let mut event = self.event;
        event.entity_ids = texts;
        EventBuilder { event }
    }

    pub fn build(self) -> (event: EpisodicEvent)
        ensures
            event == self@,
    {
        self.event
    }
}

/// Builds a heuristic step by step.
pub struct HeuristicBuilder {
    heuristic: Heuristic,
}

impl View for HeuristicBuilder {
    type V = Heuristic;

    closed spec fn view(&self) -> Heuristic {
        self.heuristic
    }
}

impl HeuristicBuilder {
    /// Starts a terminal heuristic made by a user, created and updated now,
    /// with no condition, an empty JSON object as effects, the default
    /// threshold, confidence and learning rate, and never fired.
    pub fn new(id: u128, name: &str) -> (builder: Self)
        ensures
            builder@.id@ == text_of_uuid(id),
            builder@.name@ == name@,
            builder@.condition_text@.len() == 0,
            builder@.condition_embedding@.len() == 0,
            builder@.similarity_threshold.bits == DEFAULT_MIN_SIMILARITY_BITS,
            builder@.effects_json@ == "{}"@,
            builder@.confidence.bits == DEFAULT_MIN_CONFIDENCE_BITS,
            builder@.learning_rate.bits == DEFAULT_LEARNING_RATE_BITS,
            builder@.origin@ == "user"@,
            builder@.origin_id@.len() == 0,
            builder@.next_heuristic_ids@.len() == 0,
            builder@.is_terminal,
            builder@.last_fired_ms == 0,
            builder@.fire_count == 0,
            builder@.success_count == 0,
            builder@.created_at_ms >= 0,
            builder@.updated_at_ms >= 0,
    {
        HeuristicBuilder {
            heuristic: Heuristic {
                id: print_uuid(id),
                name: String::from_str(name),
                condition_text: String::new(),
                condition_embedding: Vec::new(),
                similarity_threshold: Scalar::from_bits(DEFAULT_MIN_SIMILARITY_BITS),
                effects_json: String::from_str("{}"),
                confidence: Scalar::from_bits(DEFAULT_MIN_CONFIDENCE_BITS),
                learning_rate: Scalar::from_bits(DEFAULT_LEARNING_RATE_BITS),
                origin: String::from_str("user"),
                origin_id: String::new(),
                next_heuristic_ids: Vec::new(),
                is_terminal: true,
                last_fired_ms: 0,
                fire_count: 0,
                success_count: 0,
                created_at_ms: current_time_ms(),
                updated_at_ms: current_time_ms(),
            },
        }
    }

    pub fn condition_text(self, text: &str) -> (builder: Self)
        ensures
            builder@.condition_text@ == text@,
            builder@ == (Heuristic { condition_text: builder@.condition_text, ..self@ }),
    {
        let mut heuristic = self.heuristic;
        heuristic.condition_text = String::from_str(text);
        HeuristicBuilder { heuristic }
    }

    pub fn effects_json(self, json: &str) -> (builder: Self)
        ensures
            builder@.effects_json@ == json@,
            builder@ == (Heuristic { effects_json: builder@.effects_json, ..self@ }),
    {
        let mut heuristic = self.heuristic;
        heuristic.effects_json = String::from_str(json);
        HeuristicBuilder { heuristic }
    }

    pub fn confidence(self, confidence: Scalar) -> (builder: Self)
        ensures
            builder@ == (Heuristic { confidence, ..self@ }),
    {
        let mut heuristic = self.heuristic;
        heuristic.confidence = confidence;
        HeuristicBuilder { heuristic }
    }

    pub fn origin(self, origin: &str) -> (builder: Self)
        ensures
            builder@.origin@ == origin@,
            builder@ == (Heuristic { origin: builder@.origin, ..self@ }),
    {
        let mut heuristic = self.heuristic;
        heuristic.origin = String::from_str(origin);
        HeuristicBuilder { heuristic }
    }

    pub fn build(self) -> (heuristic: Heuristic)
        ensures
            heuristic == self@,
    {
        self.heuristic
    }
}

} // verus!
