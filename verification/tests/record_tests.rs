use std::collections::BTreeMap;

use kafka_oxide::error::{Error, RecordError};
use kafka_oxide::record::{Header, Record, Timestamp};

#[test]
fn new_record_carries_topic_and_payload() {
    let r = Record::new("events", vec![1, 2, 3]);
    assert_eq!(r.topic(), "events");
    assert_eq!(r.payload(), &vec![1, 2, 3]);
    assert!(r.key().is_none());
    assert!(r.headers().is_none());
    assert!(matches!(r.created_timestamp(), Some(Timestamp::CreateTime(_))));
}

#[test]
fn with_string_encodes_utf8() {
    let r = Record::with_string("events", "héllo");
    assert_eq!(r.payload(), &"héllo".as_bytes().to_vec());
    assert_eq!(r.payload_string().unwrap(), "héllo");
}

#[test]
fn json_payload_round_trips() {
    let mut original: BTreeMap<String, i64> = BTreeMap::new();
    original.insert("id".to_string(), 1);
    original.insert("amount".to_string(), 250);
    let r = Record::with_json("orders", &original).unwrap();
    let decoded: BTreeMap<String, i64> = r.payload_json().unwrap();
    assert_eq!(decoded, original);
}

#[test]
fn json_key_round_trips_through_payload_of_another_record() {
    let key: Vec<u64> = vec![9, 8, 7];
    let r = Record::new("events", Vec::new()).with_json_key(&key).unwrap();
    let key_bytes = r.key().unwrap().clone();
    let reread: Vec<u64> = Record::new("events", key_bytes).payload_json().unwrap();
    assert_eq!(reread, key);
}

#[test]
fn payload_string_rejects_invalid_utf8() {
    let r = Record::new("events", vec![0xff, 0xfe, 0xfd]);
    let e = r.payload_string().unwrap_err();
    assert!(matches!(e, Error::Record(RecordError::ValueDeserialize(_))));
}

#[test]
fn payload_json_rejects_non_json_bytes() {
    let r = Record::new("events", vec![b'{', b'o']);
    let e = r.payload_json::<BTreeMap<String, i64>>().unwrap_err();
    assert!(matches!(e, Error::Record(RecordError::Json(_))));
}

#[test]
fn wire_projection_of_an_orders_record() {
    let r = Record::new("orders", b"{\"id\":1}".to_vec());
    let created = r.created_at();
    let wire = r.to_wire();
    assert_eq!(wire.topic, "orders");
    assert!(wire.partition.is_none());
    assert!(wire.key.is_none());
    assert_eq!(wire.payload.unwrap(), &b"{\"id\":1}".to_vec());
    assert_eq!(wire.payload.unwrap().len(), 8);
    assert_eq!(wire.timestamp, Some(created));
    let after = r.to_wire();
    assert_eq!(after.timestamp, Some(created));
}

#[test]
fn wire_projection_keeps_overridden_timestamp() {
    let r = Record::new("orders", vec![1]).with_timestamp(Timestamp::CreateTime(123));
    assert_eq!(r.created_at(), 123);
    let wire = r.to_wire();
    assert_eq!(wire.timestamp, Some(123));
}

#[test]
fn wire_projection_borrows_key_and_headers() {
    let r = Record::new("orders", vec![1, 2])
        .with_key(vec![7])
        .with_headers(vec![Header { name: "trace".to_string(), value: vec![9] }]);
    let wire = r.to_wire();
    assert_eq!(wire.key.unwrap(), &vec![7]);
    let hs = wire.headers.unwrap();
    assert_eq!(hs.len(), 1);
    assert_eq!(hs[0].name, "trace");
    assert_eq!(hs[0].value, vec![9]);
    assert_eq!(r.topic(), "orders");
}

#[test]
fn key_mutators() {
    let r = Record::new("events", Vec::new()).with_key(vec![1, 2]);
    assert_eq!(r.key().unwrap(), &vec![1, 2]);
    let r = Record::new("events", Vec::new()).with_string_key("k1");
    assert_eq!(r.key().unwrap(), &b"k1".to_vec());
}

#[test]
fn timestamp_millis() {
    assert_eq!(Timestamp::CreateTime(5).to_millis(), Some(5));
    assert_eq!(Timestamp::LogAppendTime(6).to_millis(), Some(6));
    assert_eq!(Timestamp::NotAvailable.to_millis(), None);
    assert!(matches!(Timestamp::now(), Timestamp::CreateTime(_)));
}

#[test]
fn default_record_is_empty_and_stamped() {
    let r = Record::default();
    assert_eq!(r.topic(), "");
    assert!(r.payload().is_empty());
    assert!(r.key().is_none());
    assert!(r.headers().is_none());
    assert!(matches!(r.created_timestamp(), Some(Timestamp::CreateTime(_))));
}

#[test]
fn record_error_converts_into_record_variant() {
    let e = Error::from(RecordError::Serialize("boom".to_string()));
    assert!(matches!(e, Error::Record(RecordError::Serialize(_))));
    let e = Error::from(RecordError::KeyDeserialize("short".to_string()));
    assert!(matches!(e, Error::Record(RecordError::KeyDeserialize(_))));
    let other = Error::from("free text".to_string());
    assert!(matches!(other, Error::Other(_)));
    let timeout = Error::Timeout(5000);
    assert!(matches!(timeout, Error::Timeout(5000)));
}
