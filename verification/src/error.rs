//! Unified error taxonomy.
//!
//! Every fallible operation in the crate reports its failure through
//! [`Error`]; record encode/decode failures have their own nested
//! taxonomy [`RecordError`], convertible losslessly into [`Error::Record`].

use vstd::prelude::*;

verus! {

/// Failure kinds specific to record encoding and decoding.
#[derive(Debug, Clone)]
pub enum RecordError {
    /// The record key could not be deserialized.
    KeyDeserialize(String),
    /// The record value could not be deserialized.
    ValueDeserialize(String),
    /// The record could not be serialized.
    Serialize(String),
    /// A structured (JSON) encode or decode failed.
    Json(String),
    /// A required field was absent.
    MissingField(String),
}

/// The single failure vocabulary of the facade.
#[derive(Debug, Clone)]
pub enum Error {
    /// A broker or transport failure reported by the native client.
    Kafka(String),
    /// A record-level failure.
    Record(RecordError),
    /// Invalid user configuration.
    Config(String),
    /// A topic-lifecycle precondition failed.
    TopicValidation(String),
    /// An administrative operation failed server-side.
    Admin(String),
    /// Connectivity could not be established or verified.
    Connection(String),
    /// An operation exceeded its deadline, in milliseconds.
    Timeout(u64),
    /// Escape hatch carrying a free-text message.
    Other(String),
}

impl From<RecordError> for Error {
    /// A record failure converts losslessly into the `Record` variant.
    fn from(e: RecordError) -> (r: Error) {
        Error::Record(e)
    }
}

impl vstd::std_specs::convert::FromSpecImpl<RecordError> for Error {
    open spec fn obeys_from_spec() -> bool {
        true
    }

    open spec fn from_spec(e: RecordError) -> Error {
        Error::Record(e)
    }
}

impl From<String> for Error {
    /// A plain textual error converts into the `Other` variant.
    fn from(s: String) -> (r: Error) {
        Error::Other(s)
    }
}

impl vstd::std_specs::convert::FromSpecImpl<String> for Error {
    open spec fn obeys_from_spec() -> bool {
        true
    }

    open spec fn from_spec(s: String) -> Error {
        Error::Other(s)
    }
}

} // verus!
