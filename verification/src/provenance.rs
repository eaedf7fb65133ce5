//! Best-effort parsing of the embedded pandas provenance record.
//!
//! A footer may carry a key-value property whose value is a JSON document
//! describing the data-frame library that wrote the file.  The record is
//! accepted only when the document parses as JSON and holds a string
//! `pandas_version` together with a `creator` object holding string
//! `library` and `version` fields; any other shape yields no provenance,
//! never an error.

use vstd::prelude::*;

verus! {

/// Structured provenance extracted from the embedded pandas record:
/// the data-frame library version and a `<library>-<version>` signature.
pub struct Pandas {
    pub version: String,
    pub library: String,
}

/// The string value at top-level key `key` of the JSON document `doc`:
/// `Some` exactly when `doc` parses as a JSON object whose `key` member is a
/// string.  The result is a function of the document and key alone.
pub uninterp spec fn json_str_field(doc: Seq<char>, key: Seq<char>) -> Option<Seq<char>>;

/// The string value at `outer.inner` of the JSON document `doc`: `Some`
/// exactly when `doc` parses as a JSON object whose `outer` member is an
/// object whose `inner` member is a string.  The result is a function of the
/// document and keys alone.
pub uninterp spec fn json_str_field2(doc: Seq<char>, outer: Seq<char>, inner: Seq<char>) -> Option<Seq<char>>;

/// Relies on `serde_json::from_str`, `serde_json::Value::get` and
/// `serde_json::Value::as_str`: returns the string at top-level key `key`
/// of `doc`, or `None` when `doc` is not a JSON object, lacks the key, or
/// holds a non-string there.  The result depends on `doc` and `key` alone.
#[verifier::external_body]
fn get_json_str_field(doc: &str, key: &str) -> (r: Option<String>)
    ensures
        r.deep_view() == json_str_field(doc@, key@),
{
    match serde_json::from_str::<serde_json::Value>(doc) {
        Ok(v) => v.get(key).and_then(|f| f.as_str()).map(|s| s.to_owned()),
        Err(_) => None,
    }
}

/// Relies on `serde_json::from_str`, `serde_json::Value::get` and
/// `serde_json::Value::as_str`: returns the string at `outer.inner` of
/// `doc`, or `None` when any step of that path is absent or of the wrong
/// shape.  The result depends on `doc` and the keys alone.
#[verifier::external_body]
fn get_json_str_field2(doc: &str, outer: &str, inner: &str) -> (r: Option<String>)
    ensures
        r.deep_view() == json_str_field2(doc@, outer@, inner@),
{
    match serde_json::from_str::<serde_json::Value>(doc) {
        Ok(v) => v
            .get(outer)
            .and_then(|o| o.get(inner))
            .and_then(|f| f.as_str())
            .map(|s| s.to_owned()),
        Err(_) => None,
    }
}

/// How the three raw fields combine into a provenance record: all three must
/// be present, the record's version is `pandas_version` and its library
/// signature is `<library>-<version>`.
pub open spec fn pandas_parts(
    pandas_version: Option<Seq<char>>,
    library: Option<Seq<char>>,
    version: Option<Seq<char>>,
) -> Option<(Seq<char>, Seq<char>)> {
    match (pandas_version, library, version) {
        (Some(p), Some(l), Some(v)) => Some((p, l + "-"@ + v)),
        _ => None,
    }
}

/// The provenance record described by the JSON document `doc`, if any.
pub open spec fn pandas_of(doc: Seq<char>) -> Option<(Seq<char>, Seq<char>)> {
    pandas_parts(
        json_str_field(doc, "pandas_version"@),
        json_str_field2(doc, "creator"@, "library"@),
        json_str_field2(doc, "creator"@, "version"@),
    )
}

/// Relates an optional provenance record to its specification: present with
/// the given version and library signature, or absent on both sides.
pub open spec fn is_pandas_of(r: Option<Pandas>, m: Option<(Seq<char>, Seq<char>)>) -> bool {
    match (r, m) {
        (Some(p), Some(q)) => p.version@ == q.0 && p.library@ == q.1,
        (None, None) => true,
        _ => false,
    }
}

/// Combines the three raw provenance fields into a record: `Some` exactly
/// when all three fields are present.
pub fn pandas_from_parts(
    pandas_version: Option<String>,
    library: Option<String>,
    version: Option<String>,
) -> (r: Option<Pandas>)
    ensures
        is_pandas_of(
            r,
            pandas_parts(pandas_version.deep_view(), library.deep_view(), version.deep_view()),
        ),
{
    match (pandas_version, library, version) {
        (Some(p), Some(l), Some(v)) => {
            let signature = l.concat("-").concat(v.as_str());
            Some(Pandas { version: p, library: signature })
        },
        _ => None,
    }
}

/// Parses the embedded pandas provenance document.  Returns `Some` exactly
/// when the document holds all three expected string fields; a document of
/// any other shape — including one that is not JSON at all — yields `None`,
/// never an error.
pub fn parse_pandas(doc: &str) -> (r: Option<Pandas>)
    ensures
        is_pandas_of(r, pandas_of(doc@)),
{
    let pandas_version = get_json_str_field(doc, "pandas_version");
    let library = get_json_str_field2(doc, "creator", "library");
    let version = get_json_str_field2(doc, "creator", "version");
    pandas_from_parts(pandas_version, library, version)
}

} // verus!
