//! Fast-path salience evaluation: an in-memory heuristic cache with LRU and TTL
//! semantics, the scoring pipeline that consults it before falling back to the
//! storage service, and the gateway operations built on both.
//!
//! Floating-point quantities are carried as IEEE-754 bit patterns ([`scalar::Scalar`]);
//! the library orders and merges them with integer logic and leaves arithmetic on
//! them to its callers.

pub mod cache;
pub mod client;
pub mod clock;
pub mod config;
pub mod embedding;
pub mod heuristic;
pub mod ident;
pub mod laws;
pub mod model;
pub mod ranking;
pub mod salience;
pub mod scalar;
pub mod scorer;
pub mod service;
pub mod storage;
pub mod trace;
