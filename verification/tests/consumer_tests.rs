use std::collections::BTreeMap;

use kafka_oxide::consumer::{AutoOffsetReset, ConsumerMessage, IsolationLevel};
use kafka_oxide::error::{Error, RecordError};
use kafka_oxide::record::{Header, Timestamp};

fn message(payload: Option<Vec<u8>>) -> ConsumerMessage {
    ConsumerMessage::from_parts(
        "orders".to_string(),
        2,
        41,
        Timestamp::CreateTime(1000),
        Some(vec![b'k']),
        payload,
        Some(vec![Header { name: "trace".to_string(), value: vec![1] }]),
    )
}

#[test]
fn accessors_expose_the_copied_parts() {
    let m = message(Some(b"payload".to_vec()));
    assert_eq!(m.topic(), "orders");
    assert_eq!(m.partition(), 2);
    assert_eq!(m.offset(), 41);
    assert_eq!(m.timestamp(), Timestamp::CreateTime(1000));
    assert_eq!(m.key().unwrap(), &vec![b'k']);
    assert_eq!(m.payload().unwrap(), &b"payload".to_vec());
    let hs = m.headers().unwrap();
    assert_eq!(hs[0].name, "trace");
    assert_eq!(hs[0].value, vec![1]);
}

#[test]
fn payload_string_decodes_utf8() {
    let m = message(Some("héllo".as_bytes().to_vec()));
    assert_eq!(m.payload_string().unwrap(), "héllo");
}

#[test]
fn payload_string_on_missing_payload_is_missing_field() {
    let m = message(None);
    let e = m.payload_string().unwrap_err();
    assert!(matches!(e, Error::Record(RecordError::MissingField(f)) if f == "payload"));
}

#[test]
fn payload_string_on_invalid_bytes_is_value_deserialize() {
    let m = message(Some(vec![0xff, 0x00, 0xfe]));
    let e = m.payload_string().unwrap_err();
    assert!(matches!(e, Error::Record(RecordError::ValueDeserialize(_))));
}

#[test]
fn payload_json_decodes_and_reports_kinds() {
    let m = message(Some(b"{\"id\":1}".to_vec()));
    let decoded: BTreeMap<String, i64> = m.payload_json().unwrap();
    assert_eq!(decoded.get("id"), Some(&1));

    let missing = message(None);
    let e = missing.payload_json::<BTreeMap<String, i64>>().unwrap_err();
    assert!(matches!(e, Error::Record(RecordError::MissingField(_))));

    let broken = message(Some(b"{".to_vec()));
    let e = broken.payload_json::<BTreeMap<String, i64>>().unwrap_err();
    assert!(matches!(e, Error::Record(RecordError::Json(_))));
}

#[test]
fn offset_reset_labels_and_default() {
    assert_eq!(AutoOffsetReset::Earliest.as_str(), "earliest");
    assert_eq!(AutoOffsetReset::Latest.as_str(), "latest");
    assert_eq!(AutoOffsetReset::Error.as_str(), "error");
    assert_eq!(AutoOffsetReset::default(), AutoOffsetReset::Latest);
}

#[test]
fn isolation_labels_and_default() {
    assert_eq!(IsolationLevel::ReadUncommitted.as_str(), "read_uncommitted");
    assert_eq!(IsolationLevel::ReadCommitted.as_str(), "read_committed");
    assert_eq!(IsolationLevel::default(), IsolationLevel::ReadUncommitted);
}
