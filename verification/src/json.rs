//! The library's only window onto JSON: trusted wrappers around
//! `serde_json` that parse a frame and extract one named field as a
//! plain string.  Each extraction result is a function of the frame
//! text alone, named by an uninterpreted spec function, so the decoder
//! can state exactly which outcome a given frame produces; every
//! decision on the extracted fields is made by verified code.

use vstd::prelude::*;

verus! {

/// Whether a string parses as JSON; a function of the characters alone.
pub uninterp spec fn json_ok(s: Seq<char>) -> bool;

/// The string value of the top-level field `key` of the parsed frame:
/// `Some` exactly when the frame is a JSON map holding `key` with a
/// string value.  A function of the frame text and the key alone.
pub uninterp spec fn field_of(frame: Seq<char>, key: Seq<char>) -> Option<Seq<char>>;

/// The string value of the field `key` of the first element of the
/// frame's top-level `data` array, when all of that exists.  A
/// function of the frame text and the key alone.
pub uninterp spec fn data0_field_of(frame: Seq<char>, key: Seq<char>) -> Option<Seq<char>>;

/// Relies on `serde_json::from_str::<Value>`: parsing succeeds or fails
/// depending on the input string alone.
#[verifier::external_body]
pub(crate) fn json_parses(s: &str) -> (r: bool)
    ensures
        r == json_ok(s@),
{
    serde_json::from_str::<serde_json::Value>(s).is_ok()
}

/// Relies on `serde_json::from_str::<Value>`, `Value::get` and
/// `Value::as_str`: parses the frame and extracts the string value of
/// one top-level field.  All three are deterministic in the frame and
/// the key, so the result is the named `field_of`.
#[verifier::external_body]
pub(crate) fn json_str_field(frame: &str, key: &str) -> (r: Option<String>)
    ensures
        json_ok(frame@) ==> (match r {
            Some(s) => field_of(frame@, key@) == Some(s@),
            None => field_of(frame@, key@) is None,
        }),
        !json_ok(frame@) ==> r is None,
{
    serde_json::from_str::<serde_json::Value>(frame).ok().and_then(
        |v| v.get(key).and_then(|f| f.as_str()).map(str::to_owned),
    )
}

/// Relies on `serde_json::from_str::<Value>`, `Value::get`,
/// `Value::as_array` and `Value::as_str`: parses the frame and extracts
/// the string value of one field of `data[0]`.  All are deterministic
/// in the frame and the key, so the result is the named
/// `data0_field_of`.
#[verifier::external_body]
pub(crate) fn json_data0_field(frame: &str, key: &str) -> (r: Option<String>)
    ensures
        json_ok(frame@) ==> (match r {
            Some(s) => data0_field_of(frame@, key@) == Some(s@),
            None => data0_field_of(frame@, key@) is None,
        }),
        !json_ok(frame@) ==> r is None,
{
    serde_json::from_str::<serde_json::Value>(frame).ok().and_then(
        |v| {
            v.get("data").and_then(|d| d.as_array()).and_then(|a| a.first()).and_then(
                |e| e.get(key).and_then(|f| f.as_str()).map(str::to_owned),
            )
        },
    )
}

} // verus!
