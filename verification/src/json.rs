//! The document tree that the schema decoder works on.
//!
//! The profile file is one JSON document. `serde_json` tokenizes the text;
//! everything read out of the resulting tree — field lookup, tag dispatch,
//! the array-or-sentinel rule, string-encoded numbers — is decoded by
//! verified code over the library's own [`Json`] value.

use vstd::prelude::*;

verus! {

/// One JSON value. A native number carries no payload here: every numeric
/// leaf of the profile format is string-encoded, so a native number is never
/// read, only recognized (and rejected where a string or array is expected).
pub enum Json {
    Null,
    Bool(bool),
    Number,
    Text(String),
    Array(Vec<Json>),
    Object(Vec<(String, Json)>),
}

#[verifier::external_type_specification]
#[verifier::external_body]
pub struct ExSerdeValue(serde_json::Value);

/// What parsing a given document text yields, carried over into the
/// library's own value tree: `None` exactly when the parser refuses the
/// text — not valid JSON, or nested beyond the parser's fixed recursion
/// limit. The result depends on the text alone.
pub uninterp spec fn json_document_of(text: Seq<char>) -> Option<Json>;

/// Relies on the variants of `serde_json::Value`: each node of the parsed
/// tree is carried over one-for-one into the library's own value tree, in
/// the parser's (deterministic, key-sorted) field order.
#[verifier::external_body]
fn value_to_json(v: &serde_json::Value) -> Json {
    match v {
        serde_json::Value::Null => Json::Null,
        serde_json::Value::Bool(b) => Json::Bool(*b),
        serde_json::Value::Number(_) => Json::Number,
        serde_json::Value::String(s) => Json::Text(s.clone()),
        serde_json::Value::Array(a) => Json::Array(a.iter().map(value_to_json).collect()),
        serde_json::Value::Object(o) => Json::Object(
            o.iter().map(|(k, w)| (k.clone(), value_to_json(w))).collect(),
        ),
    }
}

/// Relies on `serde_json::from_str`: it parses one JSON document as a
/// function of the text alone (no environment or randomness; the recursion
/// limit is a constant), and fails exactly when it refuses the text.
#[verifier::external_body]
pub fn parse_json(text: &str) -> (r: Option<Json>)
    ensures
        r == json_document_of(text@),
{
    match serde_json::from_str::<serde_json::Value>(text) {
        Ok(v) => Some(value_to_json(&v)),
        Err(_) => None,
    }
}

/// The value of the first field named `key`, if any.
pub open spec fn spec_obj_get(fields: Seq<(String, Json)>, key: Seq<char>) -> Option<Json>
    decreases fields.len(),
{
    if fields.len() == 0 {
        None
    } else if fields[0].0@ == key {
        Some(fields[0].1)
    } else {
        spec_obj_get(fields.drop_first(), key)
    }
}

/// Looks a field up by name, first occurrence winning.
pub fn obj_get<'a>(fields: &'a Vec<(String, Json)>, key: &str) -> (r: Option<&'a Json>)
    ensures
        match r {
            Some(v) => spec_obj_get(fields@, key@) == Some(*v),
            None => spec_obj_get(fields@, key@) is None,
        },
{
    let mut i: usize = 0;
    proof {
        assert(fields@.skip(0) =~= fields@);
    }
    while i < fields.len()
        invariant
            0 <= i <= fields@.len(),
            spec_obj_get(fields@, key@) == spec_obj_get(fields@.skip(i as int), key@),
        decreases fields@.len() - i,
    {
        let pair = &fields[i];
        proof {
            assert(fields@.skip(i as int)[0] == fields@[i as int]);
            assert(fields@.skip(i as int).drop_first() =~= fields@.skip(i + 1));
        }
        if crate::numeric::str_eq(pair.0.as_str(), key) {
            return Some(&pair.1);
        }
        i += 1;
    }
    proof {
        assert(fields@.skip(fields@.len() as int) =~= Seq::<(String, Json)>::empty());
    }
    None
}

} // verus!
