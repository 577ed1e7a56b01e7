//! The trusted boundary to the JSON reader that checks witness text.
//! Whether a text is JSON, the message when it is not, and the compact
//! form of the value when it is, are all functions of the text alone
//! (the reader keeps object keys in a sorted map), so they carry names.

use vstd::prelude::*;

verus! {

/// The diagnostic of `serde_json::from_str::<Value>` on a text: `None`
/// where the text is JSON, the message otherwise.
pub uninterp spec fn json_parse_error(s: Seq<char>) -> Option<Seq<char>>;

/// The compact form of the JSON value a text holds: what the value
/// prints as, keys sorted, no added spacing.
pub uninterp spec fn json_canon(s: Seq<char>) -> Seq<char>;

/// Relies on `serde_json::from_str::<Value>` and on the `Display` of the
/// parsed value: parsing is deterministic in the text, and a `Value`
/// prints as its compact JSON form.
#[verifier::external_body]
pub fn canonical_json(s: &str) -> (r: Result<String, String>)
    ensures
        r is Ok <==> json_parse_error(s@) is None,
        r matches Ok(c) ==> c@ == json_canon(s@),
        r matches Err(m) ==> Some(m@) == json_parse_error(s@),
{
    match serde_json::from_str::<serde_json::Value>(s) {
        Ok(v) => Ok(v.to_string()),
        Err(e) => Err(format!("{}", e)),
    }
}

} // verus!
