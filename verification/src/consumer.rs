//! Consumer-side values: configuration enums and the read-only view of
//! one received message.

use vstd::prelude::*;
use vstd::utf8::{decode_utf8, valid_utf8};
use crate::error::{Error, RecordError};
use crate::native::{from_json_slice, string_from_utf8};
use crate::record::{Header, HeaderView, Timestamp};

verus! {

/// Where a consumer without a committed offset starts reading.
#[derive(Debug, Clone, Copy, PartialEq, Eq, Structural)]
pub enum AutoOffsetReset {
    /// Start from the smallest, earliest offset.
    Earliest,
    /// Start from the largest, latest offset.
    Latest,
    /// Fail when no offset is found.
    Error,
}

impl AutoOffsetReset {
    /// The value this policy takes in a native configuration.
    pub fn as_str(&self) -> (r: &'static str)
        ensures
            (match self {
                AutoOffsetReset::Earliest => r@ == "earliest"@,
                AutoOffsetReset::Latest => r@ == "latest"@,
                AutoOffsetReset::Error => r@ == "error"@,
            }),
    {
        match self {
            AutoOffsetReset::Earliest => "earliest",
            AutoOffsetReset::Latest => "latest",
            AutoOffsetReset::Error => "error",
        }
    }
}

impl Default for AutoOffsetReset {
    /// Without an explicit choice, reading starts at the latest offset.
    fn default() -> (r: AutoOffsetReset)
        ensures
            r is Latest,
    {
        AutoOffsetReset::Latest
    }
}

/// Which messages a consumer reads relative to transactions.
#[derive(Debug, Clone, Copy, PartialEq, Eq, Structural)]
pub enum IsolationLevel {
    /// Read messages whether or not their transaction committed.
    ReadUncommitted,
    /// Read only messages of committed transactions.
    ReadCommitted,
}

impl IsolationLevel {
    /// The value this level takes in a native configuration.
    pub fn as_str(&self) -> (r: &'static str)
        ensures
            (match self {
                IsolationLevel::ReadUncommitted => r@ == "read_uncommitted"@,
                IsolationLevel::ReadCommitted => r@ == "read_committed"@,
            }),
    {
        match self {
            IsolationLevel::ReadUncommitted => "read_uncommitted",
            IsolationLevel::ReadCommitted => "read_committed",
        }
    }
}

impl Default for IsolationLevel {
    /// Without an explicit choice, uncommitted messages are read too.
    fn default() -> (r: IsolationLevel)
        ensures
            r is ReadUncommitted,
    {
        IsolationLevel::ReadUncommitted
    }
}

/// Marker for the consumer role whose native callbacks the surrounding
/// application wires up.
#[derive(Debug, Clone)]
pub struct ConsumerContext;

/// The mathematical value of a consumed message.
pub ghost struct ConsumerMessageView {
    /// Topic the message came from.
    pub topic: Seq<char>,
    /// Partition the message came from.
    pub partition: i32,
    /// Partition-local position of the message.
    pub offset: i64,
    /// Broker-reported timestamp.
    pub timestamp: Timestamp,
    /// Key bytes, when the message has a key.
    pub key: Option<Seq<u8>>,
    /// Payload bytes, when the message has a payload.
    pub payload: Option<Seq<u8>>,
    /// Headers, when the message has headers.
    pub headers: Option<Seq<HeaderView>>,
}

/// One message received from the broker: a read-only view copied out of
/// a single poll step. Topic, partition and offset together form the
/// message's durable position identity.
#[derive(Debug, Clone)]
pub struct ConsumerMessage {
    topic: String,
    partition: i32,
    offset: i64,
    timestamp: Timestamp,
    key: Option<Vec<u8>>,
    payload: Option<Vec<u8>>,
    headers: Option<Vec<Header>>,
}

impl View for ConsumerMessage {
    type V = ConsumerMessageView;

    closed spec fn view(&self) -> ConsumerMessageView {
        ConsumerMessageView {
            topic: self.topic@,
            partition: self.partition,
            offset: self.offset,
            timestamp: self.timestamp,
            key: match self.key {
                Some(k) => Some(k@),
                None => None,
            },
            payload: match self.payload {
                Some(p) => Some(p@),
                None => None,
            },
            headers: match self.headers {
                Some(hs) => Some(hs@.map_values(|h: Header| h@)),
                None => None,
            },
        }
    }
}

impl ConsumerMessage {
    /// Assemble the view of one received message from its parts, as the
    /// surrounding application copies them out of the native message.
    pub fn from_parts(
        topic: String,
        partition: i32,
        offset: i64,
        timestamp: Timestamp,
        key: Option<Vec<u8>>,
        payload: Option<Vec<u8>>,
        headers: Option<Vec<Header>>,
    ) -> (r: ConsumerMessage)
        ensures
            r@.topic == topic@,
            r@.partition == partition,
            r@.offset == offset,
            r@.timestamp == timestamp,
            (match key {
                Some(k) => r@.key == Some(k@),
                None => r@.key is None,
            }),
            (match payload {
                Some(p) => r@.payload == Some(p@),
                None => r@.payload is None,
            }),
            (match headers {
                Some(hs) => r@.headers == Some(hs@.map_values(|h: Header| h@)),
                None => r@.headers is None,
            }),
    {
        ConsumerMessage { topic, partition, offset, timestamp, key, payload, headers }
    }

    /// The topic the message came from.
    pub fn topic(&self) -> (r: &str)
        ensures
            r@ == self@.topic,
    {
        self.topic.as_str()
    }

    /// The partition the message came from.
    pub fn partition(&self) -> (r: i32)
        ensures
            r == self@.partition,
    {
        self.partition
    }

    /// The partition-local position of the message.
    pub fn offset(&self) -> (r: i64)
        ensures
            r == self@.offset,
    {
        self.offset
    }

    /// The broker-reported timestamp of the message.
    pub fn timestamp(&self) -> (r: Timestamp)
        ensures
            r == self@.timestamp,
    {
        self.timestamp
    }

    /// The key bytes, when the message has a key.
    pub fn key(&self) -> (r: Option<&Vec<u8>>)
        ensures
            (match r {
                Some(k) => self@.key == Some(k@),
                None => self@.key is None,
            }),
    {
        self.key.as_ref()
    }

    /// The payload bytes, when the message has a payload.
    pub fn payload(&self) -> (r: Option<&Vec<u8>>)
        ensures
            (match r {
                Some(p) => self@.payload == Some(p@),
                None => self@.payload is None,
            }),
    {
        self.payload.as_ref()
    }

    /// The headers, when the message has headers.
    pub fn headers(&self) -> (r: Option<&Vec<Header>>)
        ensures
            (match r {
                Some(hs) => self@.headers == Some(hs@.map_values(|h: Header| h@)),
                None => self@.headers is None,
            }),
    {
        self.headers.as_ref()
    }

    /// Decode the payload as UTF-8. A missing payload reports as a
    /// missing-field record error; invalid bytes report as a
    /// value-deserialize record error, never as a substituted string.
    pub fn payload_string(&self) -> (r: Result<String, Error>)
        ensures
            (match self@.payload {
                None => (match r {
                    Err(Error::Record(RecordError::MissingField(f))) => f@ == "payload"@,
                    _ => false,
                }),
                Some(bytes) => {
                    &&& valid_utf8(bytes) ==> (r matches Ok(s) && s@ == decode_utf8(bytes))
                    &&& !valid_utf8(bytes) ==> (r matches Err(e) && e matches Error::Record(
                        RecordError::ValueDeserialize(_),
                    ))
                },
            }),
    {
        match &self.payload {
            None => Err(
                Error::Record(RecordError::MissingField("payload".to_owned())),
            ),
            Some(bytes) => match string_from_utf8(bytes.clone()) {
                Ok(s) => Ok(s),
                Err(m) => Err(Error::Record(RecordError::ValueDeserialize(m))),
            },
        }
    }

    /// Decode the payload as JSON into the target type. A missing
    /// payload reports as a missing-field record error; a deserializer
    /// failure reports as a JSON record error.
    pub fn payload_json<T: serde::de::DeserializeOwned>(&self) -> (r: Result<T, Error>)
        ensures
            self@.payload is None ==> (match r {
                Err(Error::Record(RecordError::MissingField(f))) => f@ == "payload"@,
                _ => false,
            }),
            r matches Err(e) ==> e matches Error::Record(_),
            (r matches Err(Error::Record(e)) ==> e matches RecordError::MissingField(_)
                || e matches RecordError::Json(_)),
    {
        match &self.payload {
            None => Err(
                Error::Record(RecordError::MissingField("payload".to_owned())),
            ),
            Some(bytes) => match from_json_slice(bytes) {
                Ok(v) => Ok(v),
                Err(m) => Err(Error::Record(RecordError::Json(m))),
            },
        }
    }
}

} // verus!
