//! The record abstraction: an owned outbound message and its borrowing
//! wire-send projection.

use vstd::prelude::*;
use vstd::string::StrSliceExecFns;
use vstd::utf8::{decode_utf8, encode_utf8, valid_utf8};
use crate::error::{Error, RecordError};
use crate::native::{from_json_slice, now_millis, string_from_utf8, to_json_vec};

verus! {

/// A message timestamp, in milliseconds since the Unix epoch.
#[derive(Debug, Clone, Copy, PartialEq, Eq, Structural)]
pub enum Timestamp {
    /// The instant the record was created by its producer.
    CreateTime(i64),
    /// The instant the broker appended the record to the log.
    LogAppendTime(i64),
    /// No timestamp is available.
    NotAvailable,
}

impl Timestamp {
    /// The milliseconds the timestamp carries, if any.
    pub open spec fn spec_to_millis(self) -> Option<i64> {
        match self {
            Timestamp::CreateTime(ms) => Some(ms),
            Timestamp::LogAppendTime(ms) => Some(ms),
            Timestamp::NotAvailable => None,
        }
    }

    /// The milliseconds the timestamp carries, if any.
    pub fn to_millis(self) -> (r: Option<i64>)
        ensures
            r == self.spec_to_millis(),
    {
        match self {
            Timestamp::CreateTime(ms) => Some(ms),
            Timestamp::LogAppendTime(ms) => Some(ms),
            Timestamp::NotAvailable => None,
        }
    }

    /// The current wall-clock instant as a creation timestamp.
    pub fn now() -> (r: Timestamp)
        ensures
            r is CreateTime,
    {
        Timestamp::CreateTime(now_millis())
    }
}

/// One record header: a name/value pair. Names may repeat and order is
/// preserved.
#[derive(Debug, Clone)]
pub struct Header {
    /// Header name.
    pub name: String,
    /// Header value bytes.
    pub value: Vec<u8>,
}

/// The mathematical value of a header.
pub ghost struct HeaderView {
    /// Header name.
    pub name: Seq<char>,
    /// Header value bytes.
    pub value: Seq<u8>,
}

impl View for Header {
    type V = HeaderView;

    open spec fn view(&self) -> HeaderView {
        HeaderView { name: self.name@, value: self.value@ }
    }
}

/// The mathematical value of a record.
pub ghost struct RecordView {
    /// Destination topic name.
    pub topic: Seq<char>,
    /// Optional key bytes.
    pub key: Option<Seq<u8>>,
    /// Payload bytes.
    pub payload: Seq<u8>,
    /// Optional ordered headers.
    pub headers: Option<Seq<HeaderView>>,
    /// Stored creation timestamp.
    pub created_timestamp: Option<Timestamp>,
}

/// An outbound record: owned by the caller until handed to a send
/// operation, which only borrows its wire projection.
#[derive(Debug, Clone)]
pub struct Record {
    topic: String,
    key: Option<Vec<u8>>,
    payload: Vec<u8>,
    headers: Option<Vec<Header>>,
    created_timestamp: Option<Timestamp>,
}

impl View for Record {
    type V = RecordView;

    closed spec fn view(&self) -> RecordView {
        RecordView {
            topic: self.topic@,
            key: match self.key {
                Some(k) => Some(k@),
                None => None,
            },
            payload: self.payload@,
            headers: match self.headers {
                Some(hs) => Some(hs@.map_values(|h: Header| h@)),
                None => None,
            },
            created_timestamp: self.created_timestamp,
        }
    }
}

impl Record {
    /// Create a record bound for `topic` with a raw payload. The
    /// creation timestamp defaults to the construction instant and is
    /// preserved verbatim thereafter.
    pub fn new(topic: &str, payload: Vec<u8>) -> (r: Record)
        ensures
            r@.topic == topic@,
            r@.key is None,
            r@.payload == payload@,
            r@.headers is None,
            r@.created_timestamp matches Some(t) && t is CreateTime,
    {
        Record {
            topic: topic.to_owned(),
            key: None,
            payload,
            headers: None,
            created_timestamp: Some(Timestamp::now()),
        }
    }

    /// Create a record whose payload is the UTF-8 encoding of a string.
    pub fn with_string(topic: &str, payload: &str) -> (r: Record)
        ensures
            r@.topic == topic@,
            r@.key is None,
            r@.payload == encode_utf8(payload@),
            r@.headers is None,
            r@.created_timestamp matches Some(t) && t is CreateTime,
    {
        Record::new(topic, payload.as_bytes_vec())
    }

    /// Create a record whose payload is the JSON encoding of a value;
    /// a serializer failure reports as a JSON record error.
    pub fn with_json<T: serde::Serialize>(topic: &str, payload: &T) -> (r: Result<Record, Error>)
        ensures
            (r matches Ok(rec) ==> {
                &&& rec@.topic == topic@
                &&& rec@.key is None
                &&& rec@.headers is None
                &&& rec@.created_timestamp matches Some(t) && t is CreateTime
            }),
            (r matches Err(e) ==> e matches Error::Record(RecordError::Json(_))),
    {
        match to_json_vec(payload) {
            Ok(bytes) => Ok(Record::new(topic, bytes)),
            Err(m) => Err(Error::Record(RecordError::Json(m))),
        }
    }

    /// Attach a raw key; everything else is unchanged.
    pub fn with_key(self, key: Vec<u8>) -> (r: Record)
        ensures
            r@ == (RecordView { key: Some(key@), ..self@ }),
    {
        Record {
            topic: self.topic,
            key: Some(key),
            payload: self.payload,
            headers: self.headers,
            created_timestamp: self.created_timestamp,
        }
    }

    /// Attach the UTF-8 encoding of a string as the key.
    pub fn with_string_key(self, key: &str) -> (r: Record)
        ensures
            r@ == (RecordView { key: Some(encode_utf8(key@)), ..self@ }),
    {
        let bytes = key.as_bytes_vec();
        self.with_key(bytes)
    }

    /// Attach the JSON encoding of a value as the key; a serializer
    /// failure reports as a JSON record error.
    pub fn with_json_key<T: serde::Serialize>(self, key: &T) -> (r: Result<Record, Error>)
        ensures
            (r matches Ok(rec) ==> {
                &&& rec@.topic == self@.topic
                &&& rec@.key is Some
                &&& rec@.payload == self@.payload
                &&& rec@.headers == self@.headers
                &&& rec@.created_timestamp == self@.created_timestamp
            }),
            (r matches Err(e) ==> e matches Error::Record(RecordError::Json(_))),
    {
        match to_json_vec(key) {
            Ok(bytes) => Ok(self.with_key(bytes)),
            Err(m) => Err(Error::Record(RecordError::Json(m))),
        }
    }

    /// Attach headers; everything else is unchanged.
    pub fn with_headers(self, headers: Vec<Header>) -> (r: Record)
        ensures
            r@ == (RecordView {
                headers: Some(headers@.map_values(|h: Header| h@)),
                ..self@
            }),
    {
        Record {
            topic: self.topic,
            key: self.key,
            payload: self.payload,
            headers: Some(headers),
            created_timestamp: self.created_timestamp,
        }
    }

    /// Override the stored creation timestamp.
    pub fn with_timestamp(self, ts: Timestamp) -> (r: Record)
        ensures
            r@ == (RecordView { created_timestamp: Some(ts), ..self@ }),
    {
        Record {
            topic: self.topic,
            key: self.key,
            payload: self.payload,
            headers: self.headers,
            created_timestamp: Some(ts),
        }
    }

    /// The destination topic name.
    pub fn topic(&self) -> (r: &str)
        ensures
            r@ == self@.topic,
    {
        self.topic.as_str()
    }

    /// The key bytes, if a key was set.
    pub fn key(&self) -> (r: Option<&Vec<u8>>)
        ensures
            (match r {
                Some(k) => self@.key == Some(k@),
                None => self@.key is None,
            }),
    {
        self.key.as_ref()
    }

    /// The payload bytes.
    pub fn payload(&self) -> (r: &Vec<u8>)
        ensures
            r@ == self@.payload,
    {
        &self.payload
    }

    /// The headers, if any were set.
    pub fn headers(&self) -> (r: Option<&Vec<Header>>)
        ensures
            (match r {
                Some(hs) => self@.headers == Some(hs@.map_values(|h: Header| h@)),
                None => self@.headers is None,
            }),
    {
        self.headers.as_ref()
    }

    /// The stored creation timestamp.
    pub fn created_timestamp(&self) -> (r: Option<Timestamp>)
        ensures
            r == self@.created_timestamp,
    {
        self.created_timestamp
    }

    /// The record's creation time in milliseconds since the epoch. A
    /// record that carries no time reads the clock instead.
    pub fn created_at(&self) -> (r: i64)
        ensures
            (match self@.created_timestamp {
                Some(Timestamp::CreateTime(ms)) => r == ms,
                Some(Timestamp::LogAppendTime(ms)) => r == ms,
                _ => true,
            }),
    {
        let ts = match &self.created_timestamp {
            Some(t) => *t,
            None => Timestamp::now(),
        };
        match ts {
            Timestamp::CreateTime(ms) => ms,
            Timestamp::LogAppendTime(ms) => ms,
            Timestamp::NotAvailable => now_millis(),
        }
    }

    /// Decode the payload as UTF-8, afresh on every call. Invalid bytes
    /// report as a value-deserialize record error, never as a lossily
    /// substituted string.
    pub fn payload_string(&self) -> (r: Result<String, Error>)
        ensures
            valid_utf8(self@.payload) ==> (r matches Ok(s) && s@ == decode_utf8(self@.payload)),
            !valid_utf8(self@.payload) ==> (r matches Err(e) && e matches Error::Record(
                RecordError::ValueDeserialize(_),
            )),
    {
        match string_from_utf8(self.payload.clone()) {
            Ok(s) => Ok(s),
            Err(m) => Err(Error::Record(RecordError::ValueDeserialize(m))),
        }
    }

    /// Decode the payload as JSON into the target type, afresh on every
    /// call; a deserializer failure reports as a JSON record error.
    pub fn payload_json<T: serde::de::DeserializeOwned>(&self) -> (r: Result<T, Error>)
        ensures
            r matches Err(e) ==> e matches Error::Record(RecordError::Json(_)),
    {
        match from_json_slice(&self.payload) {
            Ok(v) => Ok(v),
            Err(m) => Err(Error::Record(RecordError::Json(m))),
        }
    }

    /// Project the record to its wire-send form: topic, key, payload
    /// and headers by reference, and the recorded creation time, not
    /// the projection time. The record stays usable afterwards.
    pub fn to_wire(&self) -> (r: WireRecord<'_>)
        ensures
            r.topic@ == self@.topic,
            r.partition is None,
            r.payload matches Some(p) && p@ == self@.payload,
            (match r.key {
                Some(k) => self@.key == Some(k@),
                None => self@.key is None,
            }),
            (self@.created_timestamp matches Some(t) ==> r.timestamp == t.spec_to_millis()),
            (self@.created_timestamp is None ==> r.timestamp is Some),
            (match r.headers {
                Some(hs) => self@.headers == Some(hs@.map_values(|h: Header| h@)),
                None => self@.headers is None,
            }),
    {
        let ts = match &self.created_timestamp {
            Some(t) => *t,
            None => Timestamp::now(),
        };
        WireRecord {
            topic: self.topic.as_str(),
            partition: None,
            payload: Some(&self.payload),
            key: self.key.as_ref(),
            timestamp: ts.to_millis(),
            headers: self.headers.as_ref(),
        }
    }
}

impl Default for Record {
    /// An empty record: no topic, no key, empty payload, stamped with
    /// the construction instant.
    fn default() -> (r: Record)
        ensures
            r@.topic.len() == 0,
            r@.key is None,
            r@.payload.len() == 0,
            r@.headers is None,
            r@.created_timestamp matches Some(t) && t is CreateTime,
    {
        Record {
            topic: String::new(),
            key: None,
            payload: Vec::new(),
            headers: None,
            created_timestamp: Some(Timestamp::now()),
        }
    }
}

/// What `with_string` stores, `payload_string` recovers: the UTF-8
/// encoding of any character sequence is valid and decodes back to the
/// same characters.
pub proof fn lemma_string_payload_round_trips(s: Seq<char>)
    ensures
        valid_utf8(encode_utf8(s)),
        decode_utf8(encode_utf8(s)) == s,
{
    broadcast use vstd::utf8::encode_utf8_valid_utf8;
    broadcast use vstd::utf8::encode_utf8_decode_utf8;

    assert(valid_utf8(encode_utf8(s)));
}

/// The borrowing wire-send projection of a record: what the native
/// produce call is handed. Nothing is copied out of the record.
pub struct WireRecord<'a> {
    /// Destination topic name.
    pub topic: &'a str,
    /// Destination partition; the facade lets the broker assign one.
    pub partition: Option<i32>,
    /// Borrowed payload bytes.
    pub payload: Option<&'a Vec<u8>>,
    /// Borrowed key bytes, when a key was set.
    pub key: Option<&'a Vec<u8>>,
    /// The record's timestamp in milliseconds, when one is carried.
    pub timestamp: Option<i64>,
    /// Borrowed headers, when headers were set.
    pub headers: Option<&'a Vec<Header>>,
}

} // verus!
