//! Laws of reading a command line with the grammar of [`crate::cli::args`]: a
//! one-letter option means its long name, clusters of switches read in any order
//! and as their switches one by one, and an option given again overrides.
use crate::cli::args::{
    cluster_step, long_option, long_step, parse_options, parsed_options, short_option, takes_value,
    token_step, value_from_next, value_ok, value_token, OptionValues,
};
use crate::text::next_index_of;
use vstd::prelude::*;

verus! {

/// Whether the token after `q` is taken as a value alike in both command lines,
/// and is then the same token.
pub open spec fn next_agrees(toks: Seq<Seq<char>>, toks2: Seq<Seq<char>>, q: int) -> bool {
    &&& (q + 1 < toks.len() && value_token(toks[q + 1])) == (q + 1 < toks2.len() && value_token(toks2[q + 1]))
    &&& (q + 1 < toks.len() && value_token(toks[q + 1])) ==> toks[q + 1] == toks2[q + 1]
}

proof fn lemma_value_from_next_frame(toks: Seq<Seq<char>>, toks2: Seq<Seq<char>>, q: int, acc: OptionValues, id: int)
    requires
        0 <= q,
        next_agrees(toks, toks2, q),
    ensures
        value_from_next(toks, q, acc, id) == value_from_next(toks2, q, acc, id),
{
}

proof fn lemma_cluster_frame(toks: Seq<Seq<char>>, toks2: Seq<Seq<char>>, q: int, acc: OptionValues, j: int)
    requires
        0 <= q < toks.len(),
        q < toks2.len(),
        toks[q] == toks2[q],
        next_agrees(toks, toks2, q),
    ensures
        cluster_step(toks, q, acc, j) == cluster_step(toks2, q, acc, j),
    decreases toks[q].len() - j,
{
    let t = toks[q];
    if 0 < j < t.len() {
        match short_option(t[j]) {
            None => {},
            Some(id) => {
                if takes_value(id) {
                    if j + 1 >= t.len() {
                        lemma_value_from_next_frame(toks, toks2, q, acc, id);
                    }
                } else if j + 1 < t.len() {
                    lemma_cluster_frame(toks, toks2, q, acc.insert(id, "true"@), j + 1);
                }
            },
        }
    }
}

proof fn lemma_long_frame(toks: Seq<Seq<char>>, toks2: Seq<Seq<char>>, q: int, acc: OptionValues)
    requires
        0 <= q < toks.len(),
        q < toks2.len(),
        toks[q] == toks2[q],
        next_agrees(toks, toks2, q),
    ensures
        long_step(toks, q, acc) == long_step(toks2, q, acc),
{
    let body = toks[q].subrange(2, toks[q].len() as int);
    let k = next_index_of(body, '=', 0);
    if let Some(id) = long_option(body.subrange(0, k)) {
        lemma_value_from_next_frame(toks, toks2, q, acc, id);
    }
}

/// Reading one token depends only on that token, on whether the token after it is
/// taken as a value (and which), and, for `--`, on whether tokens follow.
proof fn lemma_token_frame(toks: Seq<Seq<char>>, toks2: Seq<Seq<char>>, q: int, acc: OptionValues)
    requires
        0 <= q < toks.len(),
        q < toks2.len(),
        toks[q] == toks2[q],
        next_agrees(toks, toks2, q),
        toks[q] == seq!['-', '-'] ==> toks.len() == toks2.len() || (q + 1 < toks.len() && q + 1 < toks2.len()),
    ensures
        token_step(toks, q, acc) == token_step(toks2, q, acc),
{
    lemma_long_frame(toks, toks2, q, acc);
    lemma_cluster_frame(toks, toks2, q, acc, 1);
}

/// Two command lines of one length that differ in token `p` only, where that token
/// is read alike and neither is taken as a value, are read alike from any token on.
proof fn lemma_parse_frame(toks: Seq<Seq<char>>, toks2: Seq<Seq<char>>, p: int, i: int, acc: OptionValues)
    requires
        toks.len() == toks2.len(),
        0 <= p < toks.len(),
        forall|r: int| 0 <= r < toks.len() && r != p ==> toks[r] == toks2[r],
        !value_token(toks[p]),
        !value_token(toks2[p]),
        forall|a: OptionValues| #[trigger] token_step(toks, p, a) == token_step(toks2, p, a),
    ensures
        parse_options(toks, i, acc) == parse_options(toks2, i, acc),
    decreases toks.len() - i,
{
    if 0 <= i < toks.len() {
        if i != p {
            if i + 1 < toks.len() && i + 1 != p {
                assert(toks[i + 1] == toks2[i + 1]);
            }
            lemma_token_frame(toks, toks2, i, acc);
        }
        assert(token_step(toks, i, acc) == token_step(toks2, i, acc));
        if let Some((a, j)) = token_step(toks, i, acc) {
            if i < j <= toks.len() {
                lemma_parse_frame(toks, toks2, p, j, a);
            }
        }
    }
}

proof fn lemma_no_char_index(s: Seq<char>, c: char, i: int)
    requires
        0 <= i <= s.len(),
        !s.contains(c),
    ensures
        next_index_of(s, c, i) == s.len(),
    decreases s.len() - i,
{
    if i < s.len() {
        assert(s[i] != c);
        lemma_no_char_index(s, c, i + 1);
    }
}

/// The long names are not empty and hold no `=`.
proof fn lemma_long_name_plain(name: Seq<char>)
    requires
        long_option(name) is Some,
    ensures
        name.len() > 0,
        !name.contains('='),
{
    reveal_strlit("bump-type");
    reveal_strlit("technology");
    reveal_strlit("create-tag");
    reveal_strlit("tag-prefix");
    reveal_strlit("dry-run");
    reveal_strlit("path");
    reveal_strlit("force");
    reveal_strlit("commit");
    reveal_strlit("commit-message");
    reveal_strlit("verbose");
    reveal_strlit("output");
    reveal_strlit("show-info");
    reveal_strlit("analyze");
    reveal_strlit("rollback");
    reveal_strlit("rollback-version");
    reveal_strlit("rollback-files-only");
    reveal_strlit("rollback-git-only");
    reveal_strlit("rollback-revert-commit");
}

/// A one-letter option is read as its long name: on any command line, writing
/// `--name` where `-x` stands, for the same option, reads the same.
pub proof fn lemma_short_means_long(toks: Seq<Seq<char>>, p: int, c: char, name: Seq<char>)
    requires
        1 <= p < toks.len(),
        short_option(c) is Some,
        long_option(name) == short_option(c),
        toks[p] == seq!['-', c],
    ensures
        parsed_options(toks) == parsed_options(toks.update(p, seq!['-', '-'] + name)),
{
    let toks2 = toks.update(p, seq!['-', '-'] + name);
    let id = short_option(c)->Some_0;
    lemma_long_name_plain(name);
    let t2 = seq!['-', '-'] + name;
    assert(t2.subrange(2, t2.len() as int) =~= name);
    lemma_no_char_index(name, '=', 0);
    assert(name.subrange(0, name.len() as int) =~= name);
    assert(c != '-');
    assert(toks[p] != seq!['-', '-']);
    assert(t2 != seq!['-', '-']) by {
        assert(t2.len() > 2);
    }
    assert forall|a: OptionValues| #[trigger] token_step(toks, p, a) == token_step(toks2, p, a) by {
        assert(toks2[p] == t2);
        if p + 1 < toks.len() {
            assert(toks2[p + 1] == toks[p + 1]);
        }
        lemma_value_from_next_frame(toks, toks2, p, a, id);
    }
    assert(!value_token(toks[p]));
    assert(!value_token(toks2[p]));
    lemma_parse_frame(toks, toks2, p, 1, Map::empty());
}

/// Whether a token is a cluster of switches, such as `-cdf`.
pub open spec fn switch_cluster(t: Seq<char>) -> bool {
    &&& t.len() > 1
    &&& t[0] == '-'
    &&& forall|j: int| 1 <= j < t.len() ==> (#[trigger] short_option(t[j])) is Some && !takes_value(short_option(t[j])->Some_0)
}

/// Whether a cluster names the option `id` at its character `j` or after.
pub open spec fn cluster_holds(t: Seq<char>, id: int, j: int) -> bool {
    exists|k: int| j <= k < t.len() && short_option(t[k]) == Some(id)
}

/// The options `acc` with the switches that a cluster names from its character
/// `j` on set.
pub open spec fn with_switches(acc: OptionValues, t: Seq<char>, j: int) -> OptionValues {
    Map::new(
        |id: int| acc.dom().contains(id) || cluster_holds(t, id, j),
        |id: int| if cluster_holds(t, id, j) { "true"@ } else { acc[id] },
    )
}

proof fn lemma_cluster_from(toks: Seq<Seq<char>>, i: int, acc: OptionValues, j: int)
    requires
        0 <= i < toks.len(),
        switch_cluster(toks[i]),
        1 <= j < toks[i].len(),
    ensures
        cluster_step(toks, i, acc, j) == Some((with_switches(acc, toks[i], j), i + 1)),
    decreases toks[i].len() - j,
{
    let t = toks[i];
    assert(short_option(t[j]) is Some);
    let id = short_option(t[j])->Some_0;
    let acc2 = acc.insert(id, "true"@);
    if j + 1 < t.len() {
        lemma_cluster_from(toks, i, acc2, j + 1);
        assert forall|x: int| #![auto] cluster_holds(t, x, j) == (x == id || cluster_holds(t, x, j + 1)) by {
            if cluster_holds(t, x, j) && x != id {
                let k = choose|k: int| j <= k < t.len() && short_option(t[k]) == Some(x);
                assert(k != j);
            }
            if x == id {
                assert(j <= j < t.len() && short_option(t[j]) == Some(x));
            }
        }
        assert(with_switches(acc2, t, j + 1) =~= with_switches(acc, t, j));
    } else {
        assert forall|x: int| #![auto] cluster_holds(t, x, j) == (x == id) by {
            if x == id {
                assert(j <= j < t.len() && short_option(t[j]) == Some(x));
            }
        }
        assert(acc2 =~= with_switches(acc, t, j));
    }
}

/// A cluster of switches (`-cdf`) sets each switch that it names, and nothing else.
pub proof fn lemma_cluster_sets_switches(toks: Seq<Seq<char>>, i: int, acc: OptionValues)
    requires
        0 <= i < toks.len(),
        switch_cluster(toks[i]),
    ensures
        token_step(toks, i, acc) == Some((with_switches(acc, toks[i], 1), i + 1)),
{
    let t = toks[i];
    assert(short_option(t[1]) is Some);
    assert(t[1] != '-');
    assert(t != seq!['-', '-']);
    lemma_cluster_from(toks, i, acc, 1);
}

/// The order of the letters in a cluster of switches does not matter: clusters
/// that name the same switches (`-cdf`, `-fdc`, `-dfc`) read the same on any
/// command line.
pub proof fn lemma_cluster_order(toks: Seq<Seq<char>>, p: int, t2: Seq<char>)
    requires
        1 <= p < toks.len(),
        switch_cluster(toks[p]),
        switch_cluster(t2),
        forall|id: int| cluster_holds(toks[p], id, 1) == cluster_holds(t2, id, 1),
    ensures
        parsed_options(toks) == parsed_options(toks.update(p, t2)),
{
    let toks2 = toks.update(p, t2);
    assert forall|a: OptionValues| #[trigger] token_step(toks, p, a) == token_step(toks2, p, a) by {
        lemma_cluster_sets_switches(toks, p, a);
        lemma_cluster_sets_switches(toks2, p, a);
        assert(with_switches(a, toks[p], 1) =~= with_switches(a, t2, 1));
    }
    assert(!value_token(toks[p])) by {
        assert(short_option(toks[p][1]) is Some);
        assert(toks[p] != seq!['-']);
    }
    assert(!value_token(toks2[p])) by {
        assert(short_option(t2[1]) is Some);
        assert(t2 != seq!['-']);
    }
    lemma_parse_frame(toks, toks2, p, 1, Map::empty());
}

proof fn lemma_cluster_bound(toks: Seq<Seq<char>>, i: int, acc: OptionValues, j: int)
    requires
        0 <= i < toks.len(),
    ensures
        cluster_step(toks, i, acc, j) matches Some((_, n)) ==> n <= toks.len(),
    decreases toks[i].len() - j,
{
    let t = toks[i];
    if 0 < j < t.len() {
        if let Some(id) = short_option(t[j]) {
            if !takes_value(id) && j + 1 < t.len() {
                lemma_cluster_bound(toks, i, acc.insert(id, "true"@), j + 1);
            }
        }
    }
}

/// Reading a token goes on at a token of the command line, or just after its end.
proof fn lemma_token_bound(toks: Seq<Seq<char>>, i: int, acc: OptionValues)
    requires
        0 <= i < toks.len(),
    ensures
        token_step(toks, i, acc) matches Some((_, n)) ==> n <= toks.len(),
{
    lemma_cluster_bound(toks, i, acc, 1);
}

/// A command line with one more token, which cannot be taken as a value, is read
/// as the former tokens and then the new one (where the former tokens do not end
/// with `--`, after which nothing may follow).
proof fn lemma_parse_push(toks: Seq<Seq<char>>, x: Seq<char>, i: int, acc: OptionValues)
    requires
        1 <= i <= toks.len(),
        !value_token(x),
        toks.len() >= 2 ==> toks.last() != seq!['-', '-'],
    ensures
        parse_options(toks.push(x), i, acc) == match parse_options(toks, i, acc) {
            None => None,
            Some(m) => parse_options(toks.push(x), toks.len() as int, m),
        },
    decreases toks.len() - i,
{
    let pushed = toks.push(x);
    if i < toks.len() {
        assert(pushed[i] == toks[i]);
        if i + 1 < toks.len() {
            assert(pushed[i + 1] == toks[i + 1]);
        } else {
            assert(pushed[i + 1] == x);
        }
        if toks[i] == seq!['-', '-'] {
            assert(i + 1 < toks.len()) by {
                if i + 1 >= toks.len() {
                    assert(toks.last() == toks[i]);
                }
            }
        }
        lemma_token_frame(toks, pushed, i, acc);
        lemma_token_bound(toks, i, acc);
        if let Some((a, j)) = token_step(toks, i, acc) {
            if i < j <= toks.len() {
                lemma_parse_push(toks, x, j, a);
            }
        }
    }
}

proof fn lemma_first_eq(name: Seq<char>, rest: Seq<char>, i: int)
    requires
        0 <= i <= name.len(),
        !name.contains('='),
    ensures
        next_index_of(name + seq!['='] + rest, '=', i) == name.len(),
    decreases name.len() - i,
{
    let s = name + seq!['='] + rest;
    if i < name.len() {
        assert(s[i] == name[i]);
        lemma_first_eq(name, rest, i + 1);
    } else {
        assert(s[i] == '=');
    }
}

/// Giving an option again overrides it, the last value winning: after a command
/// line that is read (and does not end with `--`), `--name=value` sets the option
/// to that value.
pub proof fn lemma_last_value_wins(toks: Seq<Seq<char>>, name: Seq<char>, v: Seq<char>)
    requires
        toks.len() >= 1,
        toks.len() >= 2 ==> toks.last() != seq!['-', '-'],
        long_option(name) is Some,
        takes_value(long_option(name)->Some_0),
        value_ok(long_option(name)->Some_0, v),
        parsed_options(toks) is Some,
    ensures
        parsed_options(toks.push(seq!['-', '-'] + name + seq!['='] + v)) == Some(
            parsed_options(toks)->Some_0.insert(long_option(name)->Some_0, v),
        ),
{
    let x = seq!['-', '-'] + name + seq!['='] + v;
    let id = long_option(name)->Some_0;
    let pushed = toks.push(x);
    let m = parsed_options(toks)->Some_0;
    lemma_long_name_plain(name);
    assert(!value_token(x)) by {
        assert(x[0] == '-');
        assert(x.len() > 1);
    }
    lemma_parse_push(toks, x, 1, Map::empty());
    {
        let k = toks.len() as int;
        assert(pushed[k] == x);
        let body = x.subrange(2, x.len() as int);
        assert(body =~= name + seq!['='] + v);
        lemma_first_eq(name, v, 0);
        assert(body.subrange(0, name.len() as int) =~= name);
        assert(body.subrange(name.len() + 1int, body.len() as int) =~= v);
        assert(x != seq!['-', '-']);
        assert(token_step(pushed, k, m) == Some((m.insert(id, v), k + 1)));
        assert(parse_options(pushed, k + 1, m.insert(id, v)) == Some(m.insert(id, v)));
        assert(parse_options(pushed, k, m) == Some(m.insert(id, v)));
    }
}

/// A step's outcome with its next token moved by `d`.
pub open spec fn shifted(r: Option<(OptionValues, int)>, d: int) -> Option<(OptionValues, int)> {
    match r {
        Some((a, j)) => Some((a, j + d)),
        None => None,
    }
}

/// Whether `toks2` is `toks` from token `i` on, moved one token later.
pub open spec fn shifted_tail(toks: Seq<Seq<char>>, toks2: Seq<Seq<char>>, i: int) -> bool {
    &&& toks2.len() == toks.len() + 1
    &&& forall|r: int| i <= r < toks.len() ==> toks[r] == #[trigger] toks2[r + 1]
}

proof fn lemma_value_shift(toks: Seq<Seq<char>>, toks2: Seq<Seq<char>>, i: int, acc: OptionValues, id: int)
    requires
        0 <= i,
        shifted_tail(toks, toks2, i),
    ensures
        value_from_next(toks2, i + 1, acc, id) == shifted(value_from_next(toks, i, acc, id), 1),
{
    if i + 1 < toks.len() {
        assert(toks[i + 1] == toks2[i + 2]);
    }
}

proof fn lemma_cluster_shift(toks: Seq<Seq<char>>, toks2: Seq<Seq<char>>, i: int, acc: OptionValues, j: int)
    requires
        0 <= i < toks.len(),
        shifted_tail(toks, toks2, i),
    ensures
        cluster_step(toks2, i + 1, acc, j) == shifted(cluster_step(toks, i, acc, j), 1),
    decreases toks[i].len() - j,
{
    let t = toks[i];
    assert(toks2[i + 1] == t);
    if 0 < j < t.len() {
        match short_option(t[j]) {
            None => {},
            Some(id) => {
                if takes_value(id) {
                    if j + 1 >= t.len() {
                        lemma_value_shift(toks, toks2, i, acc, id);
                    }
                } else if j + 1 < t.len() {
                    lemma_cluster_shift(toks, toks2, i, acc.insert(id, "true"@), j + 1);
                }
            },
        }
    }
}

proof fn lemma_token_shift(toks: Seq<Seq<char>>, toks2: Seq<Seq<char>>, i: int, acc: OptionValues)
    requires
        0 <= i < toks.len(),
        shifted_tail(toks, toks2, i),
    ensures
        token_step(toks2, i + 1, acc) == shifted(token_step(toks, i, acc), 1),
{
    assert(toks2[i + 1] == toks[i]);
    let body = toks[i].subrange(2, toks[i].len() as int);
    let k = next_index_of(body, '=', 0);
    if let Some(id) = long_option(body.subrange(0, k)) {
        lemma_value_shift(toks, toks2, i, acc, id);
    }
    lemma_cluster_shift(toks, toks2, i, acc, 1);
}

/// A command line read from token `i` on is read alike when moved one token later.
proof fn lemma_parse_shift(toks: Seq<Seq<char>>, toks2: Seq<Seq<char>>, i: int, acc: OptionValues)
    requires
        0 <= i,
        shifted_tail(toks, toks2, i),
    ensures
        parse_options(toks2, i + 1, acc) == parse_options(toks, i, acc),
    decreases toks.len() - i,
{
    if i < toks.len() {
        lemma_token_shift(toks, toks2, i, acc);
        if let Some((a, j)) = token_step(toks, i, acc) {
            if i < j <= toks.len() {
                assert(shifted_tail(toks, toks2, j));
                lemma_parse_shift(toks, toks2, j, a);
            }
        }
    }
}

proof fn lemma_cluster_reach(toks: Seq<Seq<char>>, i: int, acc: OptionValues, j: int, p: int)
    requires
        0 <= i < p < toks.len(),
        !value_token(toks[p]),
    ensures
        cluster_step(toks, i, acc, j) matches Some((_, n)) ==> n <= p,
    decreases toks[i].len() - j,
{
    let t = toks[i];
    if 0 < j < t.len() {
        if let Some(id) = short_option(t[j]) {
            if !takes_value(id) && j + 1 < t.len() {
                lemma_cluster_reach(toks, i, acc.insert(id, "true"@), j + 1, p);
            }
        }
    }
}

/// Reading a token before a token that cannot be a value goes on at a token no
/// later than that one.
proof fn lemma_token_reach(toks: Seq<Seq<char>>, i: int, acc: OptionValues, p: int)
    requires
        0 <= i < p < toks.len(),
        !value_token(toks[p]),
    ensures
        token_step(toks, i, acc) matches Some((_, n)) ==> n <= p,
{
    lemma_cluster_reach(toks, i, acc, 1, p);
}

/// Two command lines that agree before token `p`, hold there tokens that cannot be
/// values, and are read alike from `p` on, are read alike from any token before.
proof fn lemma_parse_prefix(toks: Seq<Seq<char>>, toks2: Seq<Seq<char>>, p: int, i: int, acc: OptionValues)
    requires
        0 <= i <= p,
        p < toks.len(),
        p < toks2.len(),
        forall|r: int| 0 <= r < p ==> toks[r] == toks2[r],
        !value_token(toks[p]),
        !value_token(toks2[p]),
        forall|a: OptionValues| #[trigger] parse_options(toks, p, a) == parse_options(toks2, p, a),
    ensures
        parse_options(toks, i, acc) == parse_options(toks2, i, acc),
    decreases p - i,
{
    if i < p {
        assert(toks[i] == toks2[i]);
        if i + 1 < p {
            assert(toks[i + 1] == toks2[i + 1]);
        }
        lemma_token_frame(toks, toks2, i, acc);
        lemma_token_reach(toks, i, acc, p);
        if let Some((a, j)) = token_step(toks, i, acc) {
            if i < j {
                lemma_parse_prefix(toks, toks2, p, j, a);
            }
        }
    } else {
        assert(parse_options(toks, p, acc) == parse_options(toks2, p, acc));
    }
}

/// A cluster of switches reads as its switches given one by one: splitting its
/// last letter off into a token of its own (`-cdf` into `-cd -f`) reads the same on
/// any command line.
pub proof fn lemma_cluster_splits(toks: Seq<Seq<char>>, p: int)
    requires
        1 <= p < toks.len(),
        switch_cluster(toks[p]),
        toks[p].len() > 2,
    ensures
        parsed_options(toks) == parsed_options(
            toks.subrange(0, p) + seq![toks[p].drop_last(), seq!['-', toks[p].last()]] + toks.subrange(p + 1, toks.len() as int),
        ),
{
    let t = toks[p];
    let t1 = t.drop_last();
    let t2 = seq!['-', t.last()];
    let toks2 = toks.subrange(0, p) + seq![t1, t2] + toks.subrange(p + 1, toks.len() as int);
    assert(toks2.len() == toks.len() + 1);
    assert(toks2[p] == t1);
    assert(toks2[p + 1] == t2);
    assert(switch_cluster(t1)) by {
        assert forall|j: int| 1 <= j < t1.len() implies (#[trigger] short_option(t1[j])) is Some && !takes_value(short_option(t1[j])->Some_0) by {
            assert(t1[j] == t[j]);
            assert(short_option(t[j]) is Some);
        }
    }
    assert(switch_cluster(t2)) by {
        assert(t2[1] == t[t.len() - 1]);
        assert(short_option(t[t.len() - 1]) is Some);
    }
    assert(shifted_tail(toks, toks2, p + 1)) by {
        assert forall|r: int| p + 1 <= r < toks.len() implies toks[r] == #[trigger] toks2[r + 1] by {
            assert(toks2[r + 1] == toks.subrange(p + 1, toks.len() as int)[r - p - 1]);
        }
    }
    assert forall|a: OptionValues| #[trigger] parse_options(toks, p, a) == parse_options(toks2, p, a) by {
        lemma_cluster_sets_switches(toks, p, a);
        lemma_cluster_sets_switches(toks2, p, a);
        let a1 = with_switches(a, t1, 1);
        lemma_cluster_sets_switches(toks2, p + 1, a1);
        let m = with_switches(a, t, 1);
        assert(with_switches(a1, t2, 1) =~= m) by {
            assert forall|x: int| #![auto] cluster_holds(t, x, 1) == (cluster_holds(t1, x, 1) || cluster_holds(t2, x, 1)) by {
                if cluster_holds(t, x, 1) {
                    let k = choose|k: int| 1 <= k < t.len() && short_option(t[k]) == Some(x);
                    if k < t.len() - 1 {
                        assert(t1[k] == t[k]);
                    } else {
                        assert(t2[1] == t[k]);
                    }
                }
                if cluster_holds(t1, x, 1) {
                    let k = choose|k: int| 1 <= k < t1.len() && short_option(t1[k]) == Some(x);
                    assert(t1[k] == t[k]);
                }
                if cluster_holds(t2, x, 1) {
                    let k = choose|k: int| 1 <= k < t2.len() && short_option(t2[k]) == Some(x);
                    assert(k == 1);
                    assert(t2[1] == t[t.len() - 1]);
                }
            }
        }
        lemma_parse_shift(toks, toks2, p + 1, m);
        assert(parse_options(toks2, p + 1, a1) == parse_options(toks2, p + 2, m));
        assert(parse_options(toks, p, a) == parse_options(toks, p + 1, m));
    }
    assert forall|r: int| 0 <= r < p implies toks[r] == toks2[r] by {
        assert(toks2[r] == toks.subrange(0, p)[r]);
    }
    assert(!value_token(t)) by {
        assert(t != seq!['-']);
    }
    assert(!value_token(t1)) by {
        assert(t1 != seq!['-']);
    }
    lemma_parse_prefix(toks, toks2, p, 1, Map::empty());
}

} // verus!
