//! Trusted boundary: the native JSON codec and the system clock.
//!
//! Each function here wraps exactly one outside call; everything that
//! reasons about their results lives in verified code elsewhere.

use vstd::prelude::*;
use vstd::utf8::{decode_utf8, valid_utf8};

verus! {

/// Relies on std::time::SystemTime::now, read as whole milliseconds
/// since the Unix epoch; a clock standing before the epoch reads as
/// zero. Nothing can be promised of a clock reading.
#[verifier::external_body]
pub(crate) fn now_millis() -> (r: i64) {
    match std::time::SystemTime::now().duration_since(std::time::SystemTime::UNIX_EPOCH) {
        Ok(d) => d.as_millis() as i64,
        Err(_) => 0,
    }
}

/// Relies on serde_json::to_vec: the JSON encoding of the value as
/// bytes, or the serializer's failure as a message. What the bytes
/// are depends on the target type's own `Serialize` impl, so nothing is
/// promised of them.
#[verifier::external_body]
pub(crate) fn to_json_vec<T: serde::Serialize>(value: &T) -> (r: Result<Vec<u8>, String>) {
    match serde_json::to_vec(value) {
        Ok(bytes) => Ok(bytes),
        Err(e) => Err(e.to_string()),
    }
}

/// Relies on serde_json::from_slice: the bytes decoded as a JSON value
/// of the target type, or the deserializer's failure as a message.
/// What decodes depends on the target type's own `Deserialize` impl, so
/// nothing is promised of the result.
#[verifier::external_body]
pub(crate) fn from_json_slice<T: serde::de::DeserializeOwned>(
    bytes: &Vec<u8>,
) -> (r: Result<T, String>) {
    match serde_json::from_slice(bytes.as_slice()) {
        Ok(v) => Ok(v),
        Err(e) => Err(e.to_string()),
    }
}

/// Relies on String::from_utf8: it succeeds exactly on valid UTF-8
/// input and decodes it, as vstd's UTF-8 model states; on other input
/// it fails with the error as a message.
#[verifier::external_body]
pub(crate) fn string_from_utf8(bytes: Vec<u8>) -> (r: Result<String, String>)
    ensures
        (match r {
            Ok(s) => valid_utf8(bytes@) && s@ == decode_utf8(bytes@),
            Err(_) => !valid_utf8(bytes@),
        }),
{
    match String::from_utf8(bytes) {
        Ok(s) => Ok(s),
        Err(e) => Err(e.to_string()),
    }
}

} // verus!
