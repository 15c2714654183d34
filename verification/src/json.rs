//! JSON objects given on the command line, kept as pairs of key and value
//! text.
use vstd::prelude::*;

verus! {

/// The entries of a JSON object in the text, each key with its value written
/// as JSON, or the text of the error `serde_json` gives for it.
pub uninterp spec fn json_object_entries(text: Seq<char>) -> Result<Seq<(Seq<char>, Seq<char>)>, Seq<char>>;

/// The model of metadata pairs.
pub open spec fn pairs_view(v: Seq<(String, String)>) -> Seq<(Seq<char>, Seq<char>)> {
    v.map_values(|p: (String, String)| (p.0@, p.1@))
}

/// Calls `serde_json::from_str` for a JSON object and writes each value back
/// with `serde_json::Value::to_string`; the contract claims only that the result
/// is a function of the text.
#[verifier::external_body]
pub(crate) fn parse_json_object(text: &str) -> (r: Result<Vec<(String, String)>, String>)
    ensures
        match r {
            Ok(v) => json_object_entries(text@) == Ok::<Seq<(Seq<char>, Seq<char>)>, Seq<char>>(pairs_view(v@)),
            Err(e) => json_object_entries(text@) == Err::<Seq<(Seq<char>, Seq<char>)>, Seq<char>>(e@),
        },
{
    match serde_json::from_str::<serde_json::Map<String, serde_json::Value>>(text) {
        Ok(m) => Ok(m.into_iter().map(|(k, v)| (k, v.to_string())).collect()),
        Err(e) => Err(e.to_string()),
    }
}

/// The JSON object a command-line value holds, if it holds one: a value that
/// is not a JSON object counts as absent.
pub fn maybe_json(data: &Option<String>) -> (r: Option<Vec<(String, String)>>)
    ensures
        match data {
            Some(d) => match json_object_entries(d@) {
                Ok(m) => r matches Some(v) && pairs_view(v@) == m,
                Err(_) => r is None,
            },
            None => r is None,
        },
{
    match data {
        Some(d) => match parse_json_object(d.as_str()) {
            Ok(v) => Some(v),
            Err(_) => None,
        },
        None => None,
    }
}

} // verus!
