//! Parsing the sound server's structured listings into device records.
//!
//! The surrounding application obtains the listing as JSON text; this
//! module reduces it to [`DeviceRecord`]s through the JSON library behind
//! trusted declarations. The values inside a parsed document are opaque
//! here, so the contracts are deliberately thin: the decisions — a missing
//! or non-numeric index is a parse failure rather than a default, a record
//! keeps its optional properties, and a malformed listing degrades to an
//! empty one — are made in verified code, and everything downstream of the
//! records is verified against exact contracts in the device module.
use vstd::prelude::*;
use crate::device::{DeviceKind, DeviceRecord};

verus! {

#[verifier::external_type_specification]
#[verifier::external_body]
pub struct ExValue(serde_json::Value);

/// Whether the JSON grammar accepts the text as one document; the outcome
/// depends on the text alone.
pub uninterp spec fn json_accepts(text: Seq<char>) -> bool;

/// Relies on serde_json::from_str::<Value>: parses the text as one JSON
/// document, and succeeds or fails on the text alone.
#[verifier::external_body]
fn parse_json(text: &str) -> (r: Option<serde_json::Value>)
    ensures
        r is Some <==> json_accepts(text@),
{
    serde_json::from_str(text).ok()
}

/// Relies on serde_json::Value::as_array: the elements, exactly when the
/// value is a JSON array.
#[verifier::external_body]
fn value_as_array(v: &serde_json::Value) -> (r: Option<&Vec<serde_json::Value>>) {
    v.as_array()
}

/// Relies on serde_json::Value::get with a string key: the entry under the
/// key, exactly when the value is a JSON object carrying it.
#[verifier::external_body]
fn value_get<'a>(v: &'a serde_json::Value, key: &str) -> (r: Option<&'a serde_json::Value>) {
    v.get(key)
}

/// Relies on serde_json::Value::as_u64: the number, exactly when the value
/// is an integer representable in 64 unsigned bits.
#[verifier::external_body]
fn value_as_u64(v: &serde_json::Value) -> (r: Option<u64>) {
    v.as_u64()
}

/// Relies on serde_json::Value::as_str: the text, exactly when the value is
/// a JSON string.
#[verifier::external_body]
fn value_as_string(v: &serde_json::Value) -> (r: Option<String>) {
    match v.as_str() {
        Some(s) => Some(s.to_owned()),
        None => None,
    }
}

/// One listing entry reduced to a record. The numeric index is required:
/// a missing or non-numeric index fails the record, never defaults. The
/// properties the routing logic reads are kept as they are, present or
/// absent.
fn record_of_value(v: &serde_json::Value, kind: DeviceKind) -> (r: Option<DeviceRecord>) {
    let idx_val = match value_get(v, "index") {
        Option::Some(x) => x,
        Option::None => {
            return Option::None;
        },
    };
    let index = match value_as_u64(idx_val) {
        Option::Some(n) => n,
        Option::None => {
            return Option::None;
        },
    };
    let mut node_name: Option<String> = Option::None;
    let mut application_name: Option<String> = Option::None;
    let mut application_binary: Option<String> = Option::None;
    match value_get(v, "properties") {
        Option::Some(props) => {
            node_name = match value_get(props, "node.name") {
                Option::Some(x) => value_as_string(x),
                Option::None => Option::None,
            };
            application_name = match value_get(props, "application.name") {
                Option::Some(x) => value_as_string(x),
                Option::None => Option::None,
            };
            application_binary = match value_get(props, "application.process.binary") {
                Option::Some(x) => value_as_string(x),
                Option::None => Option::None,
            };
        },
        Option::None => {},
    }
    Option::Some(DeviceRecord {
        kind: kind,
        index: index,
        node_name: node_name,
        application_name: application_name,
        application_binary: application_binary,
    })
}

/// Parses a listing into records: the text must be one JSON array whose
/// every entry carries a numeric index. Anything else is a parse failure of
/// the whole listing.
pub fn parse_device_records(text: &str, kind: DeviceKind) -> (r: Option<Vec<DeviceRecord>>)
    ensures
        !json_accepts(text@) ==> r is None,
{
    let doc = match parse_json(text) {
        Option::Some(v) => v,
        Option::None => {
            return Option::None;
        },
    };
    let entries = match value_as_array(&doc) {
        Option::Some(a) => a,
        Option::None => {
            return Option::None;
        },
    };
    let mut records: Vec<DeviceRecord> = Vec::new();
    let mut i: usize = 0;
    while i < entries.len()
        decreases entries@.len() - i,
    {
        match record_of_value(&entries[i], kind) {
            Option::Some(rec) => records.push(rec),
            Option::None => {
                return Option::None;
            },
        }
        i = i + 1;
    }
    Option::Some(records)
}

/// The fail-soft listing query: a malformed or unparsable listing degrades
/// to an empty one, and never panics the caller.
pub fn parse_device_records_or_empty(text: &str, kind: DeviceKind) -> (r: Vec<DeviceRecord>)
    ensures
        !json_accepts(text@) ==> r@.len() == 0,
{
    match parse_device_records(text, kind) {
        Option::Some(v) => v,
        Option::None => Vec::new(),
    }
}

} // verus!
