//! Trusted bindings to the `toml` crate, from texts to texts.
use vstd::prelude::*;

verus! {

/// A looked-up entry as plain texts: `None` where there is no such entry,
/// `Some(None)` where it is not a string.
pub open spec fn toml_lookup_view(r: Result<Option<Option<String>>, String>) -> Result<Option<Option<Seq<char>>>, Seq<char>> {
    match r {
        Ok(Some(Some(s))) => Ok(Some(Some(s@))),
        Ok(Some(None)) => Ok(Some(None)),
        Ok(None) => Ok(None),
        Err(e) => Err(e@),
    }
}

/// A rewritten table as plain texts: whether the table was there, whether it was
/// a table and took the entry, and the printed document or the printer's error.
pub open spec fn toml_rewrite_view(r: Result<(bool, bool, Result<String, String>), String>) -> Result<(bool, bool, Result<Seq<char>, Seq<char>>), Seq<char>> {
    match r {
        Ok((b, t, Ok(s))) => Ok((b, t, Ok(s@))),
        Ok((b, t, Err(e))) => Ok((b, t, Err(e@))),
        Err(e) => Err(e@),
    }
}

/// What parsing `text` as a `toml::Value` and reading `doc[table][key]` give: the
/// parse error's message, or the entry (and its text where it is a string).
pub uninterp spec fn toml_entry(text: Seq<char>, table: Seq<char>, key: Seq<char>) -> Result<Option<Option<Seq<char>>>, Seq<char>>;

/// Parses `text` with `str::parse::<toml::Value>` and reads `doc.get(table)`, then
/// `.get(key)`, then `.as_str()`. Claimed: the result is the name [`toml_entry`] of
/// the three texts.
#[verifier::external_body]
pub(crate) fn toml_get_entry(text: &str, table: &str, key: &str) -> (r: Result<Option<Option<String>>, String>)
    ensures
        toml_lookup_view(r) == toml_entry(text@, table@, key@),
{
    let doc = text.parse::<toml::Value>().map_err(|e| e.to_string())?;
    let entry = doc.get(table).and_then(|t| t.get(key));
    Ok(entry.map(|v| v.as_str().map(|s| s.to_string())))
}

/// What parsing `text` as a `toml::Value` and reading `doc[table][sub][key]` give.
pub uninterp spec fn toml_nested_entry(text: Seq<char>, table: Seq<char>, sub: Seq<char>, key: Seq<char>) -> Result<Option<Option<Seq<char>>>, Seq<char>>;

/// Parses `text` as a `toml::Value` and reads `doc.get(table)`, `.get(sub)`,
/// `.get(key)`, then `.as_str()`. Claimed: the result is the name
/// [`toml_nested_entry`] of the four texts.
#[verifier::external_body]
pub(crate) fn toml_get_nested_entry(text: &str, table: &str, sub: &str, key: &str) -> (r: Result<Option<Option<String>>, String>)
    ensures
        toml_lookup_view(r) == toml_nested_entry(text@, table@, sub@, key@),
{
    let doc = text.parse::<toml::Value>().map_err(|e| e.to_string())?;
    let entry = doc.get(table).and_then(|t| t.get(sub)).and_then(|t| t.get(key));
    Ok(entry.map(|v| v.as_str().map(|s| s.to_string())))
}

/// Whether parsing `printed`, with a line break after it, gives the string `value`
/// at `[table][key]`.
pub open spec fn toml_reads_back(printed: Seq<char>, table: Seq<char>, key: Seq<char>, value: Seq<char>) -> bool {
    toml_entry(printed.push('\n'), table, key) == Ok::<Option<Option<Seq<char>>>, Seq<char>>(Some(Some(value)))
}

/// Whether parsing `printed`, with a line break after it, reads every entry
/// `[t][k]` other than `[table][key]` as parsing `text` does.
pub open spec fn toml_keeps_others(printed: Seq<char>, text: Seq<char>, table: Seq<char>, key: Seq<char>) -> bool {
    forall|t: Seq<char>, k: Seq<char>|
        (t, k) != (table, key) ==> #[trigger] toml_entry(printed.push('\n'), t, k) == toml_entry(text, t, k)
}

/// What parsing `text` as a `toml::Value`, setting `doc[table][key]` to the string
/// `value` where `doc[table]` is a table, and `toml::to_string_pretty` give: the
/// parse error's message, or whether `doc[table]` exists, whether it is a table
/// (and so took the entry), and the printed document or the printer's error.
pub uninterp spec fn toml_table_set(text: Seq<char>, table: Seq<char>, key: Seq<char>, value: Seq<char>) -> Result<(bool, bool, Result<Seq<char>, Seq<char>>), Seq<char>>;

/// Parses `text` as a `toml::Value`; where `doc.get_mut(table)` is a table
/// (`as_table_mut`), inserts `key = value`; prints with `toml::to_string_pretty`.
/// Claimed: the result is the name [`toml_table_set`] of the four texts. Claimed
/// too, of a printed document: it holds no carriage return (the printer escapes
/// control characters in strings and keys and ends lines with `\n`), and where the
/// table took the entry, parsing the document, with a line break after it, gives
/// the string `value` at `[table][key]` (what is printed parses back to the same
/// value) and every other entry as in `text` (`Map::insert` touches only `key`).
#[verifier::external_body]
pub(crate) fn toml_set_in_table(text: &str, table: &str, key: &str, value: &str) -> (r: Result<(bool, bool, Result<String, String>), String>)
    ensures
        toml_rewrite_view(r) == toml_table_set(text@, table@, key@, value@),
        r is Ok && r->Ok_0.2 is Ok ==> !r->Ok_0.2->Ok_0@.contains('\r'),
        r is Ok && r->Ok_0.1 && r->Ok_0.2 is Ok ==> toml_reads_back(r->Ok_0.2->Ok_0@, table@, key@, value@),
        r is Ok && r->Ok_0.2 is Ok ==> toml_keeps_others(r->Ok_0.2->Ok_0@, text@, table@, key@),
{
    let mut doc = text.parse::<toml::Value>().map_err(|e| e.to_string())?;
    let present = doc.get(table).is_some();
    let inserted = match doc.get_mut(table).and_then(|t| t.as_table_mut()) {
        Some(t) => {
            t.insert(key.to_string(), toml::Value::String(value.to_string()));
            true
        },
        None => false,
    };
    Ok((present, inserted, toml::to_string_pretty(&doc).map_err(|e| e.to_string())))
}

} // verus!
