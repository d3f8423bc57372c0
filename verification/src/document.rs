//! The translation document: a flat map from string keys to values, of which
//! only string values are resolvable.
//!
//! A document is deserialized fresh from JSON text on every translate call.
//! Here it is modelled as the sequence of the top-level object's entries, each
//! value reduced to `Some(text)` where it is a JSON string and `None` where it
//! is anything else; text whose top level is not an object yields no entries,
//! so every lookup in it fails, exactly as indexing a non-object does.

use vstd::prelude::*;

verus! {

/// The entries of a document, as sequences of characters: for each key of the
/// top-level JSON object, in the document's iteration order, its key and the
/// value's text where the value is a string.
pub open spec fn entries_view(entries: Seq<(String, Option<String>)>) -> Seq<
    (Seq<char>, Option<Seq<char>>),
> {
    entries.map_values(
        |p: (String, Option<String>)|
            (
                p.0@,
                match p.1 {
                    Some(s) => Some(s@),
                    None => None,
                },
            ),
    )
}

/// What parsing JSON text yields: the entries of the top-level object on
/// success, or the parser's message on malformed input. Both are functions of
/// the text alone.
pub uninterp spec fn parsed_document(content: Seq<char>) -> Result<
    Seq<(Seq<char>, Option<Seq<char>>)>,
    Seq<char>,
>;

/// The view of a concrete parse result, for comparing it with
/// [`parsed_document`].
pub open spec fn parse_result_view(r: Result<Vec<(String, Option<String>)>, String>) -> Result<
    Seq<(Seq<char>, Option<Seq<char>>)>,
    Seq<char>,
> {
    match r {
        Ok(entries) => Ok(entries_view(entries@)),
        Err(msg) => Err(msg@),
    }
}

/// Relies on `serde_json::from_str::<serde_json::Value>`, `Value::as_object`
/// and `Value::as_str`: parsing is deterministic in the text, duplicate keys
/// keep the last value, and the object's iteration order (sorted keys) is a
/// function of the text alone, so the result is named by [`parsed_document`].
/// The error message carries the parser's own description of the failure.
#[verifier::external_body]
pub(crate) fn parse_document(content: &str) -> (r: Result<Vec<(String, Option<String>)>, String>)
    ensures
        parse_result_view(r) == parsed_document(content@),
{
    match serde_json::from_str::<serde_json::Value>(content) {
        Err(e) => Err(e.to_string()),
        Ok(serde_json::Value::Object(map)) => Ok(
            map.into_iter().map(|(k, v)| match v {
                serde_json::Value::String(s) => (k, Some(s)),
                _ => (k, None),
            }).collect(),
        ),
        Ok(_) => Ok(Vec::new()),
    }
}

/// The template at `key`: the text of the first entry whose key matches, where
/// that entry's value is a string; `None` where the key is absent or its value
/// is not a string.
pub open spec fn doc_lookup(entries: Seq<(Seq<char>, Option<Seq<char>>)>, key: Seq<char>) -> Option<
    Seq<char>,
>
    decreases entries.len(),
{
    if entries.len() == 0 {
        None
    } else if entries[0].0 == key {
        entries[0].1
    } else {
        doc_lookup(entries.skip(1), key)
    }
}

/// Whether the characters of `a` and `b` are the same.
fn str_eq(a: &str, b: &str) -> (r: bool)
    ensures
        r == (a@ == b@),
{
    let na = a.unicode_len();
    let nb = b.unicode_len();
    if na != nb {
        return false;
    }
    let mut i: usize = 0;
    while i < na
        invariant
            na == a@.len(),
            na == b@.len(),
            i <= na,
            forall|k: int| 0 <= k < i ==> a@[k] == b@[k],
        decreases na - i,
    {
        if a.get_char(i) != b.get_char(i) {
            return false;
        }
        i += 1;
    }
    proof {
        assert(a@ =~= b@);
    }
    true
}

/// Looks `key` up among the document's entries: the first entry whose key
/// matches decides, and only a string value resolves.
pub(crate) fn lookup(entries: &Vec<(String, Option<String>)>, key: &str) -> (r: Option<String>)
    ensures
        match r {
            Some(template) => doc_lookup(entries_view(entries@), key@) == Some(template@),
            None => doc_lookup(entries_view(entries@), key@) is None,
        },
{
    let ghost all = entries_view(entries@);
    let mut i: usize = 0;
    proof {
        assert(all.skip(0) =~= all);
    }
    while i < entries.len()
        invariant
            all == entries_view(entries@),
            i <= entries.len(),
            doc_lookup(all, key@) == doc_lookup(all.skip(i as int), key@),
        decreases entries.len() - i,
    {
        proof {
            assert(all.skip(i as int)[0] == all[i as int]);
            assert(all.skip(i as int).skip(1) =~= all.skip(i + 1));
        }
        if str_eq(entries[i].0.as_str(), key) {
            return match &entries[i].1 {
                Some(s) => Some(s.clone()),
                None => None,
            };
        }
        i += 1;
    }
    None
}

} // verus!
