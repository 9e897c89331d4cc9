//! Trusted bindings to the `serde_json` crate, from texts to texts.
use vstd::prelude::*;

verus! {

/// A text result as plain texts.
pub open spec fn json_text_result(r: Result<String, String>) -> Result<Seq<char>, Seq<char>> {
    match r {
        Ok(s) => Ok(s@),
        Err(e) => Err(e@),
    }
}

/// A looked-up member as plain texts.
pub open spec fn json_lookup_view(r: Result<Option<String>, String>) -> Result<Option<Seq<char>>, Seq<char>> {
    match r {
        Ok(Some(s)) => Ok(Some(s@)),
        Ok(None) => Ok(None),
        Err(e) => Err(e@),
    }
}

/// A rewritten document as plain texts.
pub open spec fn json_rewrite_view(r: Result<(bool, String), String>) -> Result<(bool, Seq<char>), Seq<char>> {
    match r {
        Ok((b, s)) => Ok((b, s@)),
        Err(e) => Err(e@),
    }
}

/// What `serde_json::from_str::<Value>(text)` gives, followed by `get(key)` and
/// `as_str()`: the parse error's message, or the member's text when the root holds
/// a string member of that name.
pub uninterp spec fn json_string_member(text: Seq<char>, key: Seq<char>) -> Result<Option<Seq<char>>, Seq<char>>;

/// Parses `text` with `serde_json::from_str::<serde_json::Value>` and reads the
/// string member `key` of the root (`Value::get`, then `Value::as_str`). Claimed:
/// the result is the name [`json_string_member`] of the two texts.
#[verifier::external_body]
pub(crate) fn json_get_string_member(text: &str, key: &str) -> (r: Result<Option<String>, String>)
    ensures
        json_lookup_view(r) == json_string_member(text@, key@),
{
    match serde_json::from_str::<serde_json::Value>(text) {
        Ok(v) => Ok(v.get(key).and_then(|m| m.as_str()).map(|s| s.to_string())),
        Err(e) => Err(e.to_string()),
    }
}

/// Whether parsing `printed`, alone or with a line break after it, gives the
/// string `value` under `key` of the root.
pub open spec fn json_reads_back(printed: Seq<char>, key: Seq<char>, value: Seq<char>) -> bool {
    &&& json_string_member(printed, key) == Ok::<Option<Seq<char>>, Seq<char>>(Some(value))
    &&& json_string_member(printed.push('\n'), key) == Ok::<Option<Seq<char>>, Seq<char>>(Some(value))
}

/// Whether parsing `printed`, alone or with a line break after it, reads every
/// string member of the root other than `key` as parsing `text` does.
pub open spec fn json_keeps_others(printed: Seq<char>, text: Seq<char>, key: Seq<char>) -> bool {
    forall|k: Seq<char>|
        #![trigger json_string_member(printed, k)]
        #![trigger json_string_member(printed.push('\n'), k)]
        k != key ==> json_string_member(printed, k) == json_string_member(text, k)
            && json_string_member(printed.push('\n'), k) == json_string_member(text, k)
}

/// What parsing `text` as a `serde_json::Value`, inserting the string `value` under
/// `key` when the root is an object, and `serde_json::to_string_pretty` give: the
/// parse error's message, or whether the root is an object with the printed
/// document.
pub uninterp spec fn json_member_set(text: Seq<char>, key: Seq<char>, value: Seq<char>) -> Result<(bool, Seq<char>), Seq<char>>;

/// Parses `text` (`serde_json::from_str`), inserts `key: value` into the root when
/// it is an object (`Value::as_object_mut`, `Map::insert`), and prints the document
/// with `serde_json::to_string_pretty`. Claimed: the result is the name
/// [`json_member_set`] of the three texts. Printing a `Value` does not fail (its
/// maps have string keys), so an error is the parse error. Claimed too, of a
/// printed document: it holds no carriage return (the printer escapes control
/// characters and ends lines with `\n`), and where the root is an object, parsing
/// the document, alone or with a line break after it, gives the string `value`
/// under `key` (what is printed parses back to the same value), every other
/// string member of the root as in `text`, and the root holding the same members
/// as in `text`, with `key` among them (`Map::insert` touches only `key`). Of
/// other members that are not strings only their presence is claimed: without
/// its `float_roundtrip` feature, `serde_json` parses a printed float back only
/// as nearly as it can.
#[verifier::external_body]
pub(crate) fn json_set_member(text: &str, key: &str, value: &str) -> (r: Result<(bool, String), String>)
    ensures
        json_rewrite_view(r) == json_member_set(text@, key@, value@),
        r is Ok ==> !r->Ok_0.1@.contains('\r'),
        r is Ok && r->Ok_0.0 ==> json_reads_back(r->Ok_0.1@, key@, value@),
        r is Ok && r->Ok_0.0 ==> json_keeps_others(r->Ok_0.1@, text@, key@),
        r is Ok && r->Ok_0.0 ==> forall|k: Seq<char>|
            #![trigger json_member_present(r->Ok_0.1@, k)]
            #![trigger json_member_present(r->Ok_0.1@.push('\n'), k)]
            json_member_present(r->Ok_0.1@, k) == (if k == key@ { Ok(true) } else { json_member_present(text@, k) })
                && json_member_present(r->Ok_0.1@.push('\n'), k) == (if k == key@ { Ok(true) } else { json_member_present(text@, k) }),
{
    let mut v: serde_json::Value = serde_json::from_str(text).map_err(|e| e.to_string())?;
    let is_object = match v.as_object_mut() {
        Some(obj) => {
            obj.insert(key.to_string(), serde_json::Value::String(value.to_string()));
            true
        },
        None => false,
    };
    serde_json::to_string_pretty(&v).map(|s| (is_object, s)).map_err(|e| e.to_string())
}

/// What `serde_json::from_str::<Value>(text)` gives, followed by whether the root
/// is an object holding a member `key`: the parse error's message, or that answer.
pub uninterp spec fn json_member_present(text: Seq<char>, key: Seq<char>) -> Result<bool, Seq<char>>;

/// A yes-or-no answer, or an error text, as plain values.
pub open spec fn json_answer_view(r: Result<bool, String>) -> Result<bool, Seq<char>> {
    match r {
        Ok(b) => Ok(b),
        Err(e) => Err(e@),
    }
}

/// Parses `text` (`serde_json::from_str::<serde_json::Value>`) and asks whether the
/// root is an object (`Value::as_object`) that holds `key` (`Map::contains_key`).
/// Claimed: the result is the name [`json_member_present`] of the two texts.
#[verifier::external_body]
pub(crate) fn json_has_member(text: &str, key: &str) -> (r: Result<bool, String>)
    ensures
        json_answer_view(r) == json_member_present(text@, key@),
{
    let v: serde_json::Value = serde_json::from_str(text).map_err(|e| e.to_string())?;
    match v.as_object() {
        Some(obj) => Ok(obj.contains_key(key)),
        None => Ok(false),
    }
}

/// What parsing `text` as a `serde_json::Value` and printing it with
/// `serde_json::to_string_pretty` give.
pub uninterp spec fn json_reprinted(text: Seq<char>) -> Result<Seq<char>, Seq<char>>;

/// Parses `text` (`serde_json::from_str::<serde_json::Value>`) and prints it with
/// `serde_json::to_string_pretty`. Claimed: the result is the name
/// [`json_reprinted`] of the text.
#[verifier::external_body]
pub(crate) fn json_reprint(text: &str) -> (r: Result<String, String>)
    ensures
        json_text_result(r) == json_reprinted(text@),
{
    let v: serde_json::Value = serde_json::from_str(text).map_err(|e| e.to_string())?;
    serde_json::to_string_pretty(&v).map_err(|e| e.to_string())
}

/// What parsing `text` as a `serde_json::Value`, inserting the string `value`
/// under `key` in the object `root[outer][inner]` where there is one, and printing
/// it with `serde_json::to_string_pretty` give: the parse error's message, or the
/// printed document.
pub uninterp spec fn json_nested_member_set(text: Seq<char>, outer: Seq<char>, inner: Seq<char>, key: Seq<char>, value: Seq<char>) -> Result<Seq<char>, Seq<char>>;

/// Parses `text` (`serde_json::from_str`), goes to the member `outer` of the root
/// and its member `inner` (`Value::get_mut`, which finds nothing in a value that
/// is not an object), inserts `key: value` there when it is an object
/// (`Value::as_object_mut`, `Map::insert`), and prints the document with
/// `serde_json::to_string_pretty`. Claimed: the result is the name
/// [`json_nested_member_set`] of the five texts.
#[verifier::external_body]
pub(crate) fn json_set_nested_member(text: &str, outer: &str, inner: &str, key: &str, value: &str) -> (r: Result<String, String>)
    ensures
        json_text_result(r) == json_nested_member_set(text@, outer@, inner@, key@, value@),
{
    let mut v: serde_json::Value = serde_json::from_str(text).map_err(|e| e.to_string())?;
    if let Some(o) = v.get_mut(outer) {
        if let Some(i) = o.get_mut(inner) {
            if let Some(m) = i.as_object_mut() {
                m.insert(key.to_string(), serde_json::Value::String(value.to_string()));
            }
        }
    }
    serde_json::to_string_pretty(&v).map_err(|e| e.to_string())
}

} // verus!
