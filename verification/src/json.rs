//! The `serde_json::Value` boundary: response bodies arrive as opaque
//! JSON values, and the few observations the logic needs — array
//! elements, string content, one field — go through trusted wrappers.
//!
//! The cached- and loaded-model endpoints answer with either a bare array
//! of id strings or an object holding a `models` array; the shape
//! sniffing is done once here, for both.

use vstd::prelude::*;
use crate::errors::FoundryError;
use crate::stream::{lossy_decoded, StreamDecoder};

verus! {

#[verifier::external_type_specification]
#[verifier::external_body]
pub struct ExValue(serde_json::Value);

/// What `serde_json::from_slice::<Value>` decodes a byte sequence to: a
/// function of the bytes alone, absent when they are not well-formed
/// JSON.
pub uninterp spec fn json_value_of(bytes: Seq<u8>) -> Option<serde_json::Value>;

/// Whether these bytes parse as JSON.
pub open spec fn json_parses(bytes: Seq<u8>) -> bool {
    json_value_of(bytes) is Some
}

/// Whether a JSON value is an array.
pub uninterp spec fn val_is_array(v: serde_json::Value) -> bool;

/// The elements of a JSON array value.
pub uninterp spec fn val_elems(v: serde_json::Value) -> Seq<serde_json::Value>;

/// The characters of a JSON string value, absent for non-strings.
pub uninterp spec fn val_str(v: serde_json::Value) -> Option<Seq<char>>;

/// The named member of a JSON object value, absent for missing members
/// and for non-objects.
pub uninterp spec fn val_field(v: serde_json::Value, name: Seq<char>) -> Option<
    serde_json::Value,
>;

/// Relies on `serde_json::from_slice::<Value>`: succeeds exactly on bytes
/// that are well-formed JSON, and the decoded value is a function of the
/// bytes alone.
#[verifier::external_body]
fn parse_json(bytes: &[u8]) -> (r: Option<serde_json::Value>)
    ensures
        r == json_value_of(bytes@),
{
    serde_json::from_slice::<serde_json::Value>(bytes).ok()
}

/// Relies on `serde_json::Value::as_array`: hands out the elements of an
/// array value, nothing for any other value.
#[verifier::external_body]
fn value_as_array(v: &serde_json::Value) -> (r: Option<&Vec<serde_json::Value>>)
    ensures
        r is Some <==> val_is_array(*v),
        match r {
            Some(elems) => elems@ == val_elems(*v),
            None => true,
        },
{
    v.as_array()
}

/// Relies on `serde_json::Value::as_str`: hands out the characters of a
/// string value, nothing for any other value.
#[verifier::external_body]
fn value_as_str<'a>(v: &'a serde_json::Value) -> (r: Option<&'a str>)
    ensures
        match r {
            Some(s) => val_str(*v) == Some(s@),
            None => val_str(*v) is None,
        },
{
    v.as_str()
}

/// Relies on `serde_json::Value::get` with a string index: hands out the
/// named member of an object value, nothing for other values or a missing
/// member.
#[verifier::external_body]
fn value_get<'a>(v: &'a serde_json::Value, name: &str) -> (r: Option<&'a serde_json::Value>)
    ensures
        match r {
            Some(f) => val_field(*v, name@) == Some(*f),
            None => val_field(*v, name@) is None,
        },
{
    v.get(name)
}

/// The string elements of a JSON array, in order, non-strings dropped.
pub open spec fn strings_of(es: Seq<serde_json::Value>) -> Seq<Seq<char>>
    decreases es.len(),
{
    if es.len() == 0 {
        Seq::empty()
    } else {
        let p = strings_of(es.drop_last());
        match val_str(es.last()) {
            Some(s) => p.push(s),
            None => p,
        }
    }
}

/// The model ids a cached- or loaded-list response carries: the string
/// elements of a bare array, or of the array under `models`.
pub open spec fn ids_of(v: serde_json::Value) -> Option<Seq<Seq<char>>> {
    if val_is_array(v) {
        Some(strings_of(val_elems(v)))
    } else {
        match val_field(v, "models"@) {
            Some(m) => if val_is_array(m) {
                Some(strings_of(val_elems(m)))
            } else {
                None
            },
            None => None,
        }
    }
}

/// The cache directory a cache-location response carries.
pub open spec fn location_of(v: serde_json::Value) -> Option<Seq<char>> {
    match val_field(v, "location"@) {
        Some(f) => val_str(f),
        None => None,
    }
}

fn collect_strings(elems: &Vec<serde_json::Value>) -> (r: Vec<String>)
    ensures
        r.deep_view() == strings_of(elems@),
{
    let mut r: Vec<String> = Vec::new();
    let mut i: usize = 0;
    while i < elems.len()
        invariant
            0 <= i <= elems.len(),
            r.deep_view() =~= strings_of(elems@.take(i as int)),
        decreases elems.len() - i,
    {
        proof {
            assert(elems@.take(i + 1).drop_last() =~= elems@.take(i as int));
            assert(elems@.take(i + 1).last() == elems@[i as int]);
        }
        match value_as_str(&elems[i]) {
            Some(s) => {
                let owned = s.to_owned();
                r.push(owned);
            },
            None => {},
        }
        i += 1;
    }
    proof {
        assert(elems@.take(elems@.len() as int) =~= elems@);
    }
    r
}

/// Read the model ids out of a cached- or loaded-list response, which is
/// either a bare array of id strings or an object with a `models` array;
/// non-string elements are dropped. Any other shape is a decode error.
pub fn extract_model_ids(v: &serde_json::Value) -> (r: Result<Vec<String>, FoundryError>)
    ensures
        match r {
            Ok(ids) => ids_of(*v) == Some(ids.deep_view()),
            Err(e) => ids_of(*v) is None && e is DecodeError,
        },
{
    match value_as_array(v) {
        Some(elems) => Ok(collect_strings(elems)),
        None => {
            match value_get(v, "models") {
                Some(m) => {
                    match value_as_array(m) {
                        Some(elems) => Ok(collect_strings(elems)),
                        None => Err(FoundryError::DecodeError),
                    }
                },
                None => Err(FoundryError::DecodeError),
            }
        },
    }
}

/// Read the cache directory out of a cache-location response: its
/// `location` member, which must be a string.
pub fn extract_cache_location(v: &serde_json::Value) -> (r: Result<String, FoundryError>)
    ensures
        match r {
            Ok(s) => location_of(*v) == Some(s@),
            Err(e) => location_of(*v) is None && e is DecodeError,
        },
{
    match value_get(v, "location") {
        Some(f) => {
            match value_as_str(f) {
                Some(s) => Ok(s.to_owned()),
                None => Err(FoundryError::DecodeError),
            }
        },
        None => Err(FoundryError::DecodeError),
    }
}

/// Decode a non-streaming response: an error status carries the body
/// text, an empty success body is a valid absence of payload, and
/// anything else must parse as JSON.
pub fn decode_get_body(status: u16, body: &[u8]) -> (r: Result<
    Option<serde_json::Value>,
    FoundryError,
>)
    ensures
        match r {
            Ok(opt) => {
                &&& 200 <= status < 300
                &&& match opt {
                    None => body@.len() == 0,
                    Some(v) => body@.len() > 0 && json_value_of(body@) == Some(v),
                }
            },
            Err(e) => match e {
                FoundryError::HttpStatus(code, text) => {
                    &&& !(200 <= status < 300)
                    &&& code == status
                    &&& text@ == lossy_decoded(body@)
                },
                FoundryError::DecodeError => {
                    &&& 200 <= status < 300
                    &&& body@.len() > 0
                    &&& !json_parses(body@)
                },
                _ => false,
            },
        },
{
    if !(200 <= status && status < 300) {
        let text = crate::stream::bytes_to_string_lossy(body);
        return Err(FoundryError::HttpStatus(status, text));
    }
    if body.len() == 0 {
        return Ok(None);
    }
    match parse_json(body) {
        Some(v) => Ok(Some(v)),
        None => Err(FoundryError::DecodeError),
    }
}

/// Decode the end of a streaming download: the accumulated body must be a
/// complete JSON object, and an error status carries the body text.
pub fn finish_download(dec: StreamDecoder, status: u16) -> (r: Result<
    serde_json::Value,
    FoundryError,
>)
    ensures
        match r {
            Ok(v) => {
                &&& 200 <= status < 300
                &&& dec@.buffer.len() > 0
                &&& dec@.buffer.last() == 125
                &&& json_value_of(dec@.buffer) == Some(v)
            },
            Err(e) => match e {
                FoundryError::HttpStatus(code, text) => {
                    &&& !(200 <= status < 300)
                    &&& code == status
                    &&& text@ == lossy_decoded(dec@.buffer)
                },
                FoundryError::EmptyBody => {
                    &&& 200 <= status < 300
                    &&& dec@.buffer.len() == 0
                },
                FoundryError::MalformedBody => {
                    &&& 200 <= status < 300
                    &&& dec@.buffer.len() > 0
                    &&& dec@.buffer.last() != 125
                },
                FoundryError::DecodeError => {
                    &&& 200 <= status < 300
                    &&& dec@.buffer.len() > 0
                    &&& dec@.buffer.last() == 125
                    &&& !json_parses(dec@.buffer)
                },
                _ => false,
            },
        },
{
    match dec.finish(status) {
        Ok(body) => {
            match parse_json(body.as_slice()) {
                Some(v) => Ok(v),
                None => Err(FoundryError::DecodeError),
            }
        },
        Err(e) => Err(e),
    }
}

/// Cached- and loaded-list shape tolerance: an object whose `models`
/// member is an array with the same elements as a bare array answer
/// yields the same ids as that bare array.
pub proof fn lemma_id_list_shape_tolerance(arr: serde_json::Value, obj: serde_json::Value, m: serde_json::Value)
    requires
        val_is_array(arr),
        !val_is_array(obj),
        val_field(obj, "models"@) == Some(m),
        val_is_array(m),
        val_elems(m) == val_elems(arr),
    ensures
        ids_of(obj) == ids_of(arr),
        ids_of(obj) is Some,
{
}

} // verus!
