//! Trusted interface to serde_json for the journal parser: parsing one line
//! as a JSON document and reading its string-valued top-level fields. The
//! rest of the journal logic is verified against these contracts.

use vstd::prelude::*;

verus! {

#[verifier::external_type_specification]
#[verifier::external_body]
pub struct ExValue(serde_json::Value);

/// The string-valued entries of a parsed JSON document: the domain holds
/// every key of the top-level object (and is empty when the document is not
/// an object); a key maps to `Some` of the string content when its value is
/// a JSON string, and to `None` otherwise.
pub uninterp spec fn json_str_fields(v: serde_json::Value) -> Map<Seq<char>, Option<Seq<char>>>;

/// What `serde_json::from_str::<Value>` yields on a line: `None` when it
/// does not accept the text as one JSON document, otherwise the
/// string-valued fields of that document. A function of the text alone.
pub uninterp spec fn json_doc(s: Seq<char>) -> Option<Map<Seq<char>, Option<Seq<char>>>>;

/// Relies on `serde_json::from_str::<Value>`: it returns `Ok` exactly on
/// text it accepts as one JSON document, never panics, and is deterministic
/// in its input.
#[verifier::external_body]
pub fn json_parse(line: &str) -> (r: Option<serde_json::Value>)
    ensures
        r is Some <==> json_doc(line@) is Some,
        r matches Some(v) ==> json_doc(line@) == Some(json_str_fields(v)),
{
    serde_json::from_str::<serde_json::Value>(line).ok()
}

/// Relies on `serde_json::Value::get` (with a string index: `Some` exactly
/// for a key of a JSON object) and `serde_json::Value::as_str` (`Some`
/// exactly for a JSON string). Reads one top-level field: `None` when the
/// key is absent, `Some(None)` when it is present but not a string, and
/// `Some(Some(text))` for a string field.
#[verifier::external_body]
pub fn json_get_str(v: &serde_json::Value, key: &str) -> (r: Option<Option<String>>)
    ensures
        r is Some <==> json_str_fields(*v).dom().contains(key@),
        r matches Some(f) ==> json_str_fields(*v)[key@] == f.deep_view(),
{
    match v.get(key) {
        None => None,
        Some(x) => Some(x.as_str().map(|s| s.to_owned())),
    }
}

} // verus!
