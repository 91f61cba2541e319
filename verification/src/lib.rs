//! Client-side facade over a Kafka-style message broker.
//!
//! The crate models the facade's own engineering: a unified error taxonomy,
//! an immutable queryable cluster-metadata value, a record abstraction with
//! typed decoding, and the decision logic of the administrative layer.
//! The network calls themselves belong to the native client and are kept
//! outside this library.

pub mod admin;
pub mod consumer;
pub mod error;
pub mod metadata;
mod native;
pub mod record;
pub mod strutil;
