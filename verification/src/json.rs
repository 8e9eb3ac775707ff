//! The crate's only contact with `serde_json`.
//!
//! The snapshot that the ledger persists is a JSON object holding one key
//! whose value is an object of strings (the name to session-id mapping), and
//! the remote endpoint replies with a JSON object whose recognized field is a
//! string. Both directions go through `serde_json` here, behind contracts
//! stated over named results: what the parser yields for a given text is a
//! function of that text alone.

use vstd::prelude::*;

verus! {

/// The mapping held under `key` in `text`, when `text` is a JSON object of
/// objects of strings; `None` when it is not. What `serde_json::from_str`
/// yields depends on the text and the key alone.
pub uninterp spec fn parsed_string_map(text: Seq<char>, key: Seq<char>) -> Option<
    Map<Seq<char>, Seq<char>>,
>;

/// The JSON text `serde_json::to_string_pretty` produces for a single-key
/// object holding the given mapping; a function of the key and mapping alone.
pub uninterp spec fn string_map_json(key: Seq<char>, m: Map<Seq<char>, Seq<char>>) -> Seq<char>;

/// The string held under `field` at the top of `body`, when `body` is a JSON
/// object holding a string there; `None` otherwise. A function of the body
/// and field alone.
pub uninterp spec fn json_string_field_of(body: Seq<char>, field: Seq<char>) -> Option<Seq<char>>;

/// No two entries share a name.
pub open spec fn distinct_names(s: Seq<(String, String)>) -> bool {
    forall|i: int, j: int| 0 <= i < j < s.len() ==> s[i].0@ != s[j].0@
}

/// The mapping that a sequence of (name, value) pairs describes, later
/// entries winning.
pub open spec fn pairs_map(s: Seq<(String, String)>) -> Map<Seq<char>, Seq<char>>
    decreases s.len(),
{
    if s.len() == 0 {
        Map::empty()
    } else {
        pairs_map(s.drop_last()).insert(s.last().0@, s.last().1@)
    }
}

/// Relies on `serde_json::from_str::<BTreeMap<String, BTreeMap<String, String>>>`:
/// it returns `Ok` exactly when the text is a JSON object whose values are
/// objects of strings, and then yields their contents with unique keys; an
/// absent `key` means an empty mapping.
#[verifier::external_body]
pub(crate) fn parse_string_map(text: &str, key: &str) -> (r: Option<Vec<(String, String)>>)
    ensures
        match r {
            Some(v) => {
                &&& parsed_string_map(text@, key@) == Some(pairs_map(v@))
                &&& distinct_names(v@)
            },
            None => parsed_string_map(text@, key@) is None,
        },
{
    let outer: std::collections::BTreeMap<String, std::collections::BTreeMap<String, String>> =
        match serde_json::from_str(text) {
            Ok(m) => m,
            Err(_) => return None,
        };
    let inner = outer.get(key).cloned().unwrap_or_default();
    Some(inner.into_iter().collect())
}

/// Relies on `serde_json::to_string_pretty` on a `BTreeMap` built from the
/// pairs: serialization of string maps never fails, is a function of the
/// mapping alone, and `serde_json::from_str` parses the text back to the
/// same mapping.
#[verifier::external_body]
pub(crate) fn write_string_map(key: &str, pairs: &Vec<(String, String)>) -> (r: String)
    ensures
        r@ == string_map_json(key@, pairs_map(pairs@)),
        parsed_string_map(r@, key@) == Some(pairs_map(pairs@)),
{
    let inner: std::collections::BTreeMap<String, String> = pairs.iter().map(
        |p| (p.0.clone(), p.1.clone()),
    ).collect();
    let mut outer = std::collections::BTreeMap::new();
    outer.insert(key.to_string(), inner);
    serde_json::to_string_pretty(&outer).unwrap()
}

/// Relies on `serde_json::from_str::<serde_json::Value>` and `Value::get`:
/// yields the string under `field` when `body` is a JSON object holding a
/// string there, and `None` for any other body.
#[verifier::external_body]
pub(crate) fn json_string_field(body: &str, field: &str) -> (r: Option<String>)
    ensures
        match r {
            Some(t) => json_string_field_of(body@, field@) == Some(t@),
            None => json_string_field_of(body@, field@) is None,
        },
{
    let v: serde_json::Value = match serde_json::from_str(body) {
        Ok(v) => v,
        Err(_) => return None,
    };
    match v.get(field) {
        Some(serde_json::Value::String(s)) => Some(s.clone()),
        _ => None,
    }
}

} // verus!
