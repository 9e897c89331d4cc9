//! The version entries of `pyproject.toml`, read and set line by line so that the
//! rest of the file, comments and quoting included, stays as it is.
use crate::text::{
    append_chars, chars_eq, chars_of, find_char_from, lemma_next_index_of_bounds, lemma_next_index_of_shift,
    next_index_of, slice_chars, string_of, trim_chars,
};
use crate::updaters::generic::lemma_next_after;
use vstd::prelude::*;

verus! {

/// The tables of `pyproject.toml` that declare a version.
#[derive(Clone, Copy, PartialEq, Eq, Structural)]
pub enum PyTable {
    /// `[project]`
    Project,
    /// `[tool.poetry]`
    Poetry,
    /// Any other table, or none yet.
    Other,
}

/// Whether a line opens a table: it begins with `[`.
pub open spec fn opens_table(line: Seq<char>) -> bool {
    line.len() > 0 && line[0] == '['
}

/// The table that a line opening a table opens, by its header (white space after
/// the closing bracket aside).
pub open spec fn table_opened(line: Seq<char>) -> PyTable {
    let h = crate::text::trim(line);
    if h == "[project]"@ {
        PyTable::Project
    } else if h == "[tool.poetry]"@ {
        PyTable::Poetry
    } else {
        PyTable::Other
    }
}

/// The table in force after a line.
pub open spec fn table_after(line: Seq<char>, tbl: PyTable) -> PyTable {
    if opens_table(line) { table_opened(line) } else { tbl }
}

/// Whether a character is a blank within a line: a space or a tab.
pub open spec fn is_blank(c: char) -> bool {
    c == ' ' || c == '\t'
}

/// Whether a character is a quote.
pub open spec fn is_quote(c: char) -> bool {
    c == '"' || c == '\''
}

/// The first index at or after `i` that holds no blank (or the line's length).
pub open spec fn skip_blank(l: Seq<char>, i: int) -> int
    decreases l.len() - i,
{
    if i < 0 || i >= l.len() {
        i
    } else if is_blank(l[i]) {
        skip_blank(l, i + 1)
    } else {
        i
    }
}

/// The first index at or after `i` that holds a quote (or the line's length).
pub open spec fn next_quote(l: Seq<char>, i: int) -> int
    decreases l.len() - i,
{
    if i < 0 || i >= l.len() {
        l.len() as int
    } else if is_quote(l[i]) {
        i
    } else {
        next_quote(l, i + 1)
    }
}

/// Where the quoted value of a `version = "…"` line begins: after blanks, the key
/// `version`, blanks, `=`, blanks and an opening quote.
pub open spec fn value_start(l: Seq<char>) -> Option<int> {
    let a = skip_blank(l, 0);
    if !(a + 7 <= l.len() && l.subrange(a, a + 7) == "version"@) {
        None
    } else {
        let b = skip_blank(l, a + 7);
        if !(b < l.len() && l[b] == '=') {
            None
        } else {
            let c = skip_blank(l, b + 1);
            if !(c < l.len() && is_quote(l[c])) {
                None
            } else {
                Some(c + 1)
            }
        }
    }
}

/// The bounds of the value of a `version = "…"` line: from [`value_start`] to the
/// closing quote, where there is one.
pub open spec fn version_span(l: Seq<char>) -> Option<(int, int)> {
    match value_start(l) {
        Some(s) => if next_quote(l, s) < l.len() { Some((s, next_quote(l, s))) } else { None },
        None => None,
    }
}

/// The version that the first `version = "…"` line of a `want` table declares,
/// reading `s` line by line from a line in table `tbl`.
pub open spec fn table_version_from(s: Seq<char>, want: PyTable, tbl: PyTable) -> Option<Seq<char>>
    decreases s.len(),
{
    let k = next_index_of(s, '\n', 0);
    if !(0 <= k <= s.len()) {
        None
    } else {
        let line = s.subrange(0, k);
        if !opens_table(line) && tbl == want && version_span(line) is Some {
            Some(line.subrange(version_span(line)->Some_0.0, version_span(line)->Some_0.1))
        } else if k < s.len() {
            table_version_from(s.subrange(k + 1, s.len() as int), want, table_after(line, tbl))
        } else {
            None
        }
    }
}

/// The version that the table `want` (`[project]` or `[tool.poetry]`) of a
/// `pyproject.toml` content declares on its first `version = "…"` line.
pub open spec fn table_version(s: Seq<char>, want: PyTable) -> Option<Seq<char>> {
    table_version_from(s, want, PyTable::Other)
}

/// Whether a line is the one whose version is set: a `version = "…"` line, in
/// `[project]` or `[tool.poetry]`, before which that table had none.
pub open spec fn is_target(line: Seq<char>, tbl: PyTable, dp: bool, dq: bool) -> bool {
    &&& !opens_table(line)
    &&& version_span(line) is Some
    &&& ((tbl == PyTable::Project && !dp) || (tbl == PyTable::Poetry && !dq))
}

/// A line with its version value replaced by `v` where it is the target.
pub open spec fn line_set(line: Seq<char>, v: Seq<char>, tbl: PyTable, dp: bool, dq: bool) -> Seq<char> {
    if is_target(line, tbl, dp, dq) {
        line.subrange(0, version_span(line)->Some_0.0) + v + line.subrange(version_span(line)->Some_0.1, line.len() as int)
    } else {
        line
    }
}

/// The text `s`, read from a line in table `tbl`, with the value of the first
/// `version = "…"` line of `[project]` (unless `dp`) and of `[tool.poetry]`
/// (unless `dq`) set to `v`; every other character stays.
pub open spec fn set_versions_from(s: Seq<char>, v: Seq<char>, tbl: PyTable, dp: bool, dq: bool) -> Seq<char>
    decreases s.len(),
{
    let k = next_index_of(s, '\n', 0);
    if !(0 <= k <= s.len()) {
        s
    } else {
        let line = s.subrange(0, k);
        let t = is_target(line, tbl, dp, dq);
        let nl = line_set(line, v, tbl, dp, dq);
        if k < s.len() {
            nl + seq!['\n'] + set_versions_from(
                s.subrange(k + 1, s.len() as int),
                v,
                table_after(line, tbl),
                dp || (t && tbl == PyTable::Project),
                dq || (t && tbl == PyTable::Poetry),
            )
        } else {
            nl
        }
    }
}

/// A `pyproject.toml` content with the version of `[project]` and that of
/// `[tool.poetry]` set to `v` in place.
pub open spec fn set_versions(s: Seq<char>, v: Seq<char>) -> Seq<char> {
    set_versions_from(s, v, PyTable::Other, false, false)
}

/// Skipping blanks from `i` stops at the first character that is no blank.
proof fn lemma_skip_blank(l: Seq<char>, i: int)
    requires
        0 <= i,
    ensures
        i <= skip_blank(l, i),
        i <= l.len() ==> skip_blank(l, i) <= l.len(),
        forall|j: int| i <= j < skip_blank(l, i) ==> is_blank(#[trigger] l[j]),
        skip_blank(l, i) < l.len() ==> !is_blank(l[skip_blank(l, i)]),
    decreases l.len() - i,
{
    if i < l.len() && is_blank(l[i]) {
        lemma_skip_blank(l, i + 1);
    }
}

/// Skipping blanks stops at the same place in two lines that agree up to past it.
proof fn lemma_skip_blank_prefix(x: Seq<char>, y: Seq<char>, i: int, p: int)
    requires
        0 <= i,
        skip_blank(x, i) < p <= x.len(),
        p <= y.len(),
        forall|j: int| 0 <= j < p ==> x[j] == y[j],
    ensures
        skip_blank(y, i) == skip_blank(x, i),
    decreases x.len() - i,
{
    if i < x.len() && is_blank(x[i]) {
        lemma_skip_blank(x, i + 1);
        lemma_skip_blank_prefix(x, y, i + 1, p);
    }
}

/// A value begins after at least the key, `=` and a quote, within the line.
proof fn lemma_value_start_bounds(l: Seq<char>)
    requires
        value_start(l) is Some,
    ensures
        9 <= value_start(l)->Some_0 <= l.len(),
{
    let a = skip_blank(l, 0);
    lemma_skip_blank(l, 0);
    let b = skip_blank(l, a + 7);
    lemma_skip_blank(l, a + 7);
    let c = skip_blank(l, b + 1);
    lemma_skip_blank(l, b + 1);
}

/// Where a value begins depends only on the line up to there.
proof fn lemma_value_start_prefix(x: Seq<char>, y: Seq<char>, p: int)
    requires
        value_start(x) is Some,
        value_start(x)->Some_0 <= p <= x.len(),
        p <= y.len(),
        forall|j: int| 0 <= j < p ==> x[j] == y[j],
    ensures
        value_start(y) == value_start(x),
{
    let a = skip_blank(x, 0);
    lemma_skip_blank(x, 0);
    let b = skip_blank(x, a + 7);
    lemma_skip_blank(x, a + 7);
    let c = skip_blank(x, b + 1);
    lemma_skip_blank(x, b + 1);
    lemma_skip_blank_prefix(x, y, 0, p);
    lemma_skip_blank_prefix(x, y, a + 7, p);
    lemma_skip_blank_prefix(x, y, b + 1, p);
    assert(y.subrange(a, a + 7) =~= x.subrange(a, a + 7));
    assert(y[b] == x[b]);
    assert(y[c] == x[c]);
}

/// The first quote from `i` is at `i + n` where none comes before and one is there.
proof fn lemma_next_quote_at(l: Seq<char>, i: int, n: int)
    requires
        0 <= i,
        0 <= n,
        i + n < l.len(),
        is_quote(l[i + n]),
        forall|j: int| i <= j < i + n ==> !is_quote(#[trigger] l[j]),
    ensures
        next_quote(l, i) == i + n,
    decreases n,
{
    if n > 0 {
        assert(!is_quote(l[i]));
        lemma_next_quote_at(l, i + 1, n - 1);
    }
}

proof fn lemma_next_quote_bounds(l: Seq<char>, i: int)
    requires
        0 <= i,
    ensures
        i <= l.len() ==> i <= next_quote(l, i) <= l.len(),
        forall|j: int| i <= j < next_quote(l, i) && j < l.len() ==> !is_quote(#[trigger] l[j]),
        next_quote(l, i) < l.len() ==> is_quote(l[next_quote(l, i)]),
    decreases l.len() - i,
{
    if i < l.len() && !is_quote(l[i]) {
        lemma_next_quote_bounds(l, i + 1);
    }
}

/// A version line with its value replaced by a version without quotes or line
/// feeds is still a version line, now with that version as its value, and opens
/// no table where the line opened none.
proof fn lemma_line_set_reads(line: Seq<char>, v: Seq<char>)
    requires
        version_span(line) is Some,
        !v.contains('"'),
        !v.contains('\''),
    ensures
        ({
            let (s0, e) = version_span(line)->Some_0;
            let nl = line.subrange(0, s0) + v + line.subrange(e, line.len() as int);
            &&& version_span(nl) == Some((s0, s0 + v.len()))
            &&& nl.subrange(s0, s0 + v.len()) == v
            &&& opens_table(nl) == opens_table(line)
        }),
{
    let (s0, e) = version_span(line)->Some_0;
    let nl = line.subrange(0, s0) + v + line.subrange(e, line.len() as int);
    lemma_value_start_bounds(line);
    lemma_next_quote_bounds(line, s0);
    assert(0 < s0 <= e < line.len());
    lemma_value_start_prefix(line, nl, s0);
    assert forall|j: int| s0 <= j < s0 + v.len() implies !is_quote(#[trigger] nl[j]) by {
        assert(nl[j] == v[j - s0]);
        if is_quote(nl[j]) {
            assert(v.contains(v[j - s0]));
        }
    }
    assert(nl[s0 + v.len()] == line[e]);
    lemma_next_quote_at(nl, s0, v.len() as int);
    assert(nl.subrange(s0, s0 + v.len()) =~= v);
    assert(nl[0] == line[0]);
}

/// Whether a line is where the reader of table `want` finds its version.
spec fn reads_here(line: Seq<char>, want: PyTable, tbl: PyTable) -> bool {
    !opens_table(line) && tbl == want && version_span(line) is Some
}

/// What setting a line does, as the reader of table `want` sees it: the line stays
/// free of line feeds and in the same table; where the reader finds the version
/// there, it now finds `v`; elsewhere it finds nothing there still, and the
/// version of `want` has not been set.
proof fn lemma_line_set_facts(line: Seq<char>, v: Seq<char>, want: PyTable, tbl: PyTable, dp: bool, dq: bool)
    requires
        !line.contains('\n'),
        want != PyTable::Other,
        want == PyTable::Project ==> !dp,
        want == PyTable::Poetry ==> !dq,
        !v.contains('"'),
        !v.contains('\''),
        !v.contains('\n'),
    ensures
        !line_set(line, v, tbl, dp, dq).contains('\n'),
        table_after(line_set(line, v, tbl, dp, dq), tbl) == table_after(line, tbl),
        reads_here(line, want, tbl) ==> reads_here(line_set(line, v, tbl, dp, dq), want, tbl)
            && line_set(line, v, tbl, dp, dq).subrange(
                version_span(line_set(line, v, tbl, dp, dq))->Some_0.0,
                version_span(line_set(line, v, tbl, dp, dq))->Some_0.1,
            ) == v,
        !reads_here(line, want, tbl) ==> !reads_here(line_set(line, v, tbl, dp, dq), want, tbl)
            && (want == PyTable::Project ==> !(dp || (is_target(line, tbl, dp, dq) && tbl == PyTable::Project)))
            && (want == PyTable::Poetry ==> !(dq || (is_target(line, tbl, dp, dq) && tbl == PyTable::Poetry))),
{
    let nl = line_set(line, v, tbl, dp, dq);
    if is_target(line, tbl, dp, dq) {
        lemma_line_set_reads(line, v);
        let (s0, e) = version_span(line)->Some_0;
        lemma_value_start_bounds(line);
        lemma_next_quote_bounds(line, s0);
        assert(!nl.contains('\n')) by {
            if nl.contains('\n') {
                let i = choose|i: int| 0 <= i < nl.len() && nl[i] == '\n';
                if i < s0 {
                    assert(nl[i] == line[i]);
                    assert(line.contains('\n'));
                } else if i < s0 + v.len() {
                    assert(nl[i] == v[i - s0]);
                    assert(v.contains(v[i - s0]));
                } else {
                    assert(nl[i] == line[e + i - s0 - v.len()]);
                    assert(line.contains('\n'));
                }
            }
        }
    }
}

/// The first line of a line, a line feed and more text is that line.
proof fn lemma_first_line_of(nl: Seq<char>, rr: Seq<char>)
    requires
        !nl.contains('\n'),
    ensures
        next_index_of(nl + seq!['\n'] + rr, '\n', 0) == nl.len(),
        (nl + seq!['\n'] + rr).subrange(0, nl.len() as int) == nl,
        (nl + seq!['\n'] + rr).subrange(nl.len() as int + 1, (nl + seq!['\n'] + rr).len() as int) == rr,
        next_index_of(nl, '\n', 0) == nl.len(),
        nl.subrange(0, nl.len() as int) == nl,
{
    let r = nl + seq!['\n'] + rr;
    assert(r =~= nl + (seq!['\n'] + rr));
    lemma_next_after(nl, seq!['\n'] + rr, 0);
    assert(r.subrange(0, nl.len() as int) =~= nl);
    assert(r.subrange(nl.len() as int + 1, r.len() as int) =~= rr);
    lemma_next_after(nl, Seq::empty(), 0);
    assert(nl + Seq::<char>::empty() =~= nl);
    assert(nl.subrange(0, nl.len() as int) =~= nl);
}

/// Setting the versions of a text read from table `tbl` and then reading the
/// first version of table `want`, whose version was not set yet, gives `v` where
/// the text declared one, and nothing where it did not.
proof fn lemma_set_then_read_from(s: Seq<char>, v: Seq<char>, want: PyTable, tbl: PyTable, dp: bool, dq: bool)
    requires
        want != PyTable::Other,
        want == PyTable::Project ==> !dp,
        want == PyTable::Poetry ==> !dq,
        !v.contains('"'),
        !v.contains('\''),
        !v.contains('\n'),
    ensures
        table_version_from(set_versions_from(s, v, tbl, dp, dq), want, tbl)
            == if table_version_from(s, want, tbl) is Some { Some(v) } else { None::<Seq<char>> },
    decreases s.len(),
{
    let k = next_index_of(s, '\n', 0);
    lemma_next_index_of_bounds(s, '\n', 0);
    let line = s.subrange(0, k);
    let t = is_target(line, tbl, dp, dq);
    let nl = line_set(line, v, tbl, dp, dq);
    assert(!line.contains('\n')) by {
        if line.contains('\n') {
            let i = choose|i: int| 0 <= i < line.len() && line[i] == '\n';
            assert(s[i] == line[i]);
        }
    }
    lemma_line_set_facts(line, v, want, tbl, dp, dq);
    if k < s.len() {
        let rest = s.subrange(k + 1, s.len() as int);
        let dp2 = dp || (t && tbl == PyTable::Project);
        let dq2 = dq || (t && tbl == PyTable::Poetry);
        let rr = set_versions_from(rest, v, table_after(line, tbl), dp2, dq2);
        lemma_first_line_of(nl, rr);
        assert(set_versions_from(s, v, tbl, dp, dq) == nl + seq!['\n'] + rr);
        if !reads_here(line, want, tbl) {
            lemma_set_then_read_from(rest, v, want, table_after(line, tbl), dp2, dq2);
        }
    } else {
        lemma_first_line_of(nl, Seq::empty());
        assert(set_versions_from(s, v, tbl, dp, dq) == nl);
    }
}

/// Setting the versions of a `pyproject.toml` content to `v` and reading each of
/// `[project]` and `[tool.poetry]` back gives `v` wherever that table declared a
/// version, for a version without quotes and line feeds.
pub proof fn lemma_set_versions_then_read(s: Seq<char>, v: Seq<char>)
    requires
        !v.contains('"'),
        !v.contains('\''),
        !v.contains('\n'),
    ensures
        table_version(s, PyTable::Project) is Some ==> table_version(set_versions(s, v), PyTable::Project) == Some(v),
        table_version(s, PyTable::Poetry) is Some ==> table_version(set_versions(s, v), PyTable::Poetry) == Some(v),
{
    lemma_set_then_read_from(s, v, PyTable::Project, PyTable::Other, false, false);
    lemma_set_then_read_from(s, v, PyTable::Poetry, PyTable::Other, false, false);
}

/// The first index at or after `i` that holds no blank ([`skip_blank`]).
fn skip_blank_from(l: &Vec<char>, i: usize) -> (r: usize)
    requires
        i <= l@.len(),
    ensures
        r == skip_blank(l@, i as int),
        r <= l@.len(),
{
    let mut j = i;
    proof {
        lemma_skip_blank(l@, i as int);
    }
    while j < l.len() && (l[j] == ' ' || l[j] == '\t')
        invariant
            i <= j <= l@.len(),
            skip_blank(l@, j as int) == skip_blank(l@, i as int),
        decreases l@.len() - j,
    {
        j = j + 1;
    }
    j
}

/// The first index at or after `i` that holds a quote ([`next_quote`]).
fn next_quote_from(l: &Vec<char>, i: usize) -> (r: usize)
    requires
        i <= l@.len(),
    ensures
        r == next_quote(l@, i as int),
        r <= l@.len(),
{
    let mut j = i;
    while j < l.len() && !(l[j] == '"' || l[j] == '\'')
        invariant
            i <= j <= l@.len(),
            next_quote(l@, j as int) == next_quote(l@, i as int),
        decreases l@.len() - j,
    {
        j = j + 1;
    }
    j
}

/// The bounds of the value of a `version = "…"` line ([`version_span`]).
fn version_span_of(l: &Vec<char>) -> (r: Option<(usize, usize)>)
    ensures
        match r {
            Some((a, b)) => version_span(l@) == Some((a as int, b as int)) && a <= b <= l@.len(),
            None => version_span(l@) is None,
        },
{
    proof {
        reveal_strlit("version");
    }
    let a = skip_blank_from(l, 0);
    if !(a <= l.len() && l.len() - a >= 7) {
        return None;
    }
    let key = slice_chars(l, a, a + 7);
    if !chars_eq(&key, &chars_of("version")) {
        return None;
    }
    let b = skip_blank_from(l, a + 7);
    if !(b < l.len() && l[b] == '=') {
        return None;
    }
    let c = skip_blank_from(l, b + 1);
    if !(c < l.len() && (l[c] == '"' || l[c] == '\'')) {
        return None;
    }
    let e = next_quote_from(l, c + 1);
    proof {
        lemma_next_quote_bounds(l@, c + 1);
    }
    if e < l.len() {
        Some((c + 1, e))
    } else {
        None
    }
}

/// The table a line opens ([`table_opened`]).
fn table_opened_of(line: &Vec<char>) -> (r: PyTable)
    ensures
        r == table_opened(line@),
{
    let h = trim_chars(line);
    if chars_eq(&h, &chars_of("[project]")) {
        PyTable::Project
    } else if chars_eq(&h, &chars_of("[tool.poetry]")) {
        PyTable::Poetry
    } else {
        PyTable::Other
    }
}

/// One line with its version set where it is the target ([`line_set`]), and
/// whether it was.
fn set_line(line: &Vec<char>, v: &Vec<char>, tbl: PyTable, dp: bool, dq: bool) -> (r: (Vec<char>, bool))
    ensures
        r.0@ == line_set(line@, v@, tbl, dp, dq),
        r.1 == is_target(line@, tbl, dp, dq),
{
    let opens = line.len() > 0 && line[0] == '[';
    let span = if opens { None } else { version_span_of(line) };
    match span {
        Some((s0, e)) => {
            if (tbl == PyTable::Project && !dp) || (tbl == PyTable::Poetry && !dq) {
                let mut out = slice_chars(line, 0, s0);
                append_chars(&mut out, v);
                append_chars(&mut out, &slice_chars(line, e, line.len()));
                (out, true)
            } else {
                assert(line@.subrange(0, line@.len() as int) =~= line@);
                (slice_chars(line, 0, line.len()), false)
            }
        },
        None => {
            assert(line@.subrange(0, line@.len() as int) =~= line@);
            (slice_chars(line, 0, line.len()), false)
        },
    }
}

/// The table in force after a line ([`table_after`]).
fn table_after_of(line: &Vec<char>, tbl: PyTable) -> (r: PyTable)
    ensures
        r == table_after(line@, tbl),
{
    if line.len() > 0 && line[0] == '[' {
        table_opened_of(line)
    } else {
        tbl
    }
}

/// Setting the versions of a text whose first line ends at `k` sets that line, then
/// the rest after the line feed.
proof fn lemma_set_versions_step(s: Seq<char>, v: Seq<char>, tbl: PyTable, dp: bool, dq: bool)
    ensures
        ({
            let k = next_index_of(s, '\n', 0);
            let line = s.subrange(0, k);
            let t = is_target(line, tbl, dp, dq);
            &&& 0 <= k <= s.len()
            &&& k < s.len() ==> set_versions_from(s, v, tbl, dp, dq) == line_set(line, v, tbl, dp, dq) + seq!['\n']
                + set_versions_from(s.subrange(k + 1, s.len() as int), v, table_after(line, tbl),
                    dp || (t && tbl == PyTable::Project), dq || (t && tbl == PyTable::Poetry))
            &&& k == s.len() ==> set_versions_from(s, v, tbl, dp, dq) == line_set(line, v, tbl, dp, dq)
        }),
{
    lemma_next_index_of_bounds(s, '\n', 0);
}

/// A `pyproject.toml` content with the version of `[project]` and that of
/// `[tool.poetry]` set to `version` in place ([`set_versions`]).
pub fn set_versions_text(content: &str, version: &str) -> (r: String)
    ensures
        r@ == set_versions(content@, version@),
{
    let c = chars_of(content);
    let v = chars_of(version);
    let n = c.len();
    let mut out: Vec<char> = Vec::new();
    let mut i: usize = 0;
    let mut tbl = PyTable::Other;
    let mut dp = false;
    let mut dq = false;
    assert(c@.subrange(0, n as int) =~= c@);
    assert(out@ + set_versions_from(c@.subrange(0, n as int), v@, tbl, dp, dq) =~= set_versions(c@, v@));
    loop
        invariant
            n == c@.len(),
            c@ == content@,
            v@ == version@,
            i <= n,
            out@ + set_versions_from(c@.subrange(i as int, n as int), v@, tbl, dp, dq) == set_versions(c@, v@),
        decreases n - i,
    {
        let ghost rest = c@.subrange(i as int, n as int);
        let k = find_char_from(&c, '\n', i);
        proof {
            lemma_next_index_of_shift(c@, '\n', i as int, i as int);
            assert(rest.subrange(0, k - i) =~= c@.subrange(i as int, k as int));
            lemma_set_versions_step(rest, v@, tbl, dp, dq);
        }
        let line = slice_chars(&c, i, k);
        let (nl, target) = set_line(&line, &v, tbl, dp, dq);
        let next_tbl = table_after_of(&line, tbl);
        let ghost before = out@;
        append_chars(&mut out, &nl);
        if k >= n {
            assert(out@ =~= set_versions(c@, v@));
            return string_of(&out);
        }
        out.push('\n');
        proof {
            assert(rest.subrange(k - i + 1, rest.len() as int) =~= c@.subrange(k + 1, n as int));
        }
        let ghost tail = set_versions_from(c@.subrange(k + 1, n as int), v@, next_tbl,
            dp || (target && tbl == PyTable::Project), dq || (target && tbl == PyTable::Poetry));
        assert(out@ + tail =~= before + (nl@ + seq!['\n'] + tail));
        if target && tbl == PyTable::Project {
            dp = true;
        }
        if target && tbl == PyTable::Poetry {
            dq = true;
        }
        tbl = next_tbl;
        i = k + 1;
    }
}

} // verus!
