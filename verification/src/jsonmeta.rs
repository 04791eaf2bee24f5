//! Reading one field out of a fetched metadata document. The caller
//! performs the fetch; extracting a named string field from the JSON
//! body is done here, through serde_json.

use vstd::prelude::*;

use crate::identity::opt_view;
use serde_json::Value;

verus! {

/// The string at the given top-level field of a JSON document: what
/// parsing the body and reading that field yields, if the body parses
/// and the field holds a string. A function of the body and the field
/// name alone.
pub uninterp spec fn json_str_field(body: Seq<char>, field: Seq<char>) -> Option<Seq<char>>;

/// Relies on serde_json::from_str::<Value> and
/// serde_json::Value::{get, as_str}: parses the body and reads the
/// named top-level field as a string. Parsing is a function of the
/// body and field alone.
#[verifier::external_body]
fn json_field_lookup(body: &str, field: &str) -> (r: Option<String>)
    ensures
        match r {
            Some(v) => json_str_field(body@, field@) == Some(v@),
            None => json_str_field(body@, field@) is None,
        },
{
    let v: Value = serde_json::from_str(body).ok()?;
    let s = v.get(field)?.as_str()?;
    Some(s.to_string())
}

/// The named string field of a fetched metadata body, when a body was
/// fetched at all, it parses, and the field holds a string. Feeds the
/// fetched leg of an identity fallback chain.
pub fn metadata_field(body: &Option<String>, field: &str) -> (r: Option<String>)
    ensures
        match body {
            Some(b) => opt_view(r) == json_str_field(b@, field@),
            None => r is None,
        },
{
    match body {
        Some(b) => json_field_lookup(b.as_str(), field),
        None => None,
    }
}

} // verus!
