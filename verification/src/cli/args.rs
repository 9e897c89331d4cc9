//! The command-line arguments of the program, how they are read from the command
//! line, and which combinations are valid.
use crate::std_api::path_canonicalize;
use crate::utils::security::probe_path_kind;
use crate::text::{chars_eq, chars_of, find_char_from, next_index_of, slice_chars, string_of};
use crate::updaters::traits::unit_result;
use vstd::prelude::*;

verus! {

/// The options of the command line, by number.
pub const BUMP_TYPE: usize = 0;
pub const TECHNOLOGY: usize = 1;
pub const CREATE_TAG: usize = 2;
pub const TAG_PREFIX: usize = 3;
pub const DRY_RUN: usize = 4;
pub const PATH: usize = 5;
pub const FORCE: usize = 6;
pub const COMMIT: usize = 7;
pub const COMMIT_MESSAGE: usize = 8;
pub const VERBOSE: usize = 9;
pub const OUTPUT: usize = 10;
pub const SHOW_INFO: usize = 11;
pub const ANALYZE: usize = 12;
pub const ROLLBACK: usize = 13;
pub const ROLLBACK_VERSION: usize = 14;
pub const ROLLBACK_FILES_ONLY: usize = 15;
pub const ROLLBACK_GIT_ONLY: usize = 16;
pub const ROLLBACK_REVERT_COMMIT: usize = 17;

/// How many options there are.
pub const OPTION_COUNT: usize = 18;

/// The option with a long name.
pub open spec fn long_option(name: Seq<char>) -> Option<int> {
    if name == "bump-type"@ {
        Some(BUMP_TYPE as int)
    } else if name == "technology"@ {
        Some(TECHNOLOGY as int)
    } else if name == "create-tag"@ {
        Some(CREATE_TAG as int)
    } else if name == "tag-prefix"@ {
        Some(TAG_PREFIX as int)
    } else if name == "dry-run"@ {
        Some(DRY_RUN as int)
    } else if name == "path"@ {
        Some(PATH as int)
    } else if name == "force"@ {
        Some(FORCE as int)
    } else if name == "commit"@ {
        Some(COMMIT as int)
    } else if name == "commit-message"@ {
        Some(COMMIT_MESSAGE as int)
    } else if name == "verbose"@ {
        Some(VERBOSE as int)
    } else if name == "output"@ {
        Some(OUTPUT as int)
    } else if name == "show-info"@ {
        Some(SHOW_INFO as int)
    } else if name == "analyze"@ {
        Some(ANALYZE as int)
    } else if name == "rollback"@ {
        Some(ROLLBACK as int)
    } else if name == "rollback-version"@ {
        Some(ROLLBACK_VERSION as int)
    } else if name == "rollback-files-only"@ {
        Some(ROLLBACK_FILES_ONLY as int)
    } else if name == "rollback-git-only"@ {
        Some(ROLLBACK_GIT_ONLY as int)
    } else if name == "rollback-revert-commit"@ {
        Some(ROLLBACK_REVERT_COMMIT as int)
    } else {
        None
    }
}

/// The option with a one-letter name.
pub open spec fn short_option(c: char) -> Option<int> {
    if c == 'b' {
        Some(BUMP_TYPE as int)
    } else if c == 't' {
        Some(TECHNOLOGY as int)
    } else if c == 'c' {
        Some(CREATE_TAG as int)
    } else if c == 'd' {
        Some(DRY_RUN as int)
    } else if c == 'p' {
        Some(PATH as int)
    } else if c == 'f' {
        Some(FORCE as int)
    } else if c == 'C' {
        Some(COMMIT as int)
    } else if c == 'm' {
        Some(COMMIT_MESSAGE as int)
    } else if c == 'v' {
        Some(VERBOSE as int)
    } else if c == 'o' {
        Some(OUTPUT as int)
    } else if c == 'i' {
        Some(SHOW_INFO as int)
    } else if c == 'a' {
        Some(ANALYZE as int)
    } else if c == 'r' {
        Some(ROLLBACK as int)
    } else {
        None
    }
}

/// Whether an option takes a value (the others are switches).
pub open spec fn takes_value(id: int) -> bool {
    id == BUMP_TYPE || id == TECHNOLOGY || id == TAG_PREFIX || id == PATH || id == COMMIT_MESSAGE
        || id == OUTPUT || id == ROLLBACK_VERSION
}

/// The options given so far, with their values (`true` for a switch).
pub type OptionValues = Map<int, Seq<char>>;

/// Whether a token can be the value of the option before it: it does not start with
/// `-`, or it is `-` alone.
pub open spec fn value_token(t: Seq<char>) -> bool {
    !(t.len() > 0 && t[0] == '-') || t == seq!['-']
}

/// Whether a value is accepted for an option: a path must not be empty.
pub open spec fn value_ok(id: int, v: Seq<char>) -> bool {
    id != PATH || v.len() > 0
}

/// Records the value of an option and goes on at token `next`.
pub open spec fn set_value(acc: OptionValues, id: int, v: Seq<char>, next: int) -> Option<(OptionValues, int)> {
    if value_ok(id, v) {
        Some((acc.insert(id, v), next))
    } else {
        None
    }
}

/// The option at token `i` takes the next token as its value.
pub open spec fn value_from_next(toks: Seq<Seq<char>>, i: int, acc: OptionValues, id: int) -> Option<(OptionValues, int)> {
    if 0 <= i && i + 1 < toks.len() && value_token(toks[i + 1]) {
        set_value(acc, id, toks[i + 1], i + 2)
    } else {
        None
    }
}

/// Reads the one-letter options of token `i` from its character `j` on: switches
/// may follow each other; an option with a value takes the rest of the token (after
/// an optional `=`), or the next token.
pub open spec fn cluster_step(toks: Seq<Seq<char>>, i: int, acc: OptionValues, j: int) -> Option<(OptionValues, int)>
    decreases toks[i].len() - j,
{
    let t = toks[i];
    if !(0 < j < t.len()) {
        None
    } else {
        match short_option(t[j]) {
            None => None,
            Some(id) => if takes_value(id) {
                if j + 1 < t.len() {
                    let rest = t.subrange(j + 1, t.len() as int);
                    let v = if rest[0] == '=' { rest.drop_first() } else { rest };
                    set_value(acc, id, v, i + 1)
                } else {
                    value_from_next(toks, i, acc, id)
                }
            } else {
                let acc2 = acc.insert(id, "true"@);
                if j + 1 < t.len() {
                    cluster_step(toks, i, acc2, j + 1)
                } else {
                    Some((acc2, i + 1))
                }
            },
        }
    }
}

/// Reads the long option of token `i` (`--name`, `--name=value`, or `--name` with
/// the next token as value).
pub open spec fn long_step(toks: Seq<Seq<char>>, i: int, acc: OptionValues) -> Option<(OptionValues, int)> {
    let t = toks[i];
    let body = t.subrange(2, t.len() as int);
    let k = next_index_of(body, '=', 0);
    match long_option(body.subrange(0, k)) {
        None => None,
        Some(id) => if takes_value(id) {
            if k < body.len() {
                set_value(acc, id, body.subrange(k + 1, body.len() as int), i + 1)
            } else {
                value_from_next(toks, i, acc, id)
            }
        } else if k < body.len() {
            None
        } else {
            Some((acc.insert(id, "true"@), i + 1))
        },
    }
}

/// Reads token `i`: `--` ends the options (nothing may follow), `--name` is a long
/// option, `-x...` holds one-letter options; anything else is refused, as the
/// program takes no positional argument.
pub open spec fn token_step(toks: Seq<Seq<char>>, i: int, acc: OptionValues) -> Option<(OptionValues, int)> {
    let t = toks[i];
    if t == seq!['-', '-'] {
        if i + 1 < toks.len() {
            None
        } else {
            Some((acc, toks.len() as int))
        }
    } else if t.len() > 2 && t[0] == '-' && t[1] == '-' {
        long_step(toks, i, acc)
    } else if t.len() > 1 && t[0] == '-' {
        cluster_step(toks, i, acc, 1)
    } else {
        None
    }
}

/// Reads the tokens from `i` on; `None` where the command line is refused. An
/// option given again overrides what it was given before.
pub open spec fn parse_options(toks: Seq<Seq<char>>, i: int, acc: OptionValues) -> Option<OptionValues>
    decreases toks.len() - i,
{
    if i < 0 || i >= toks.len() {
        Some(acc)
    } else {
        match token_step(toks, i, acc) {
            None => None,
            Some((a, j)) => if i < j <= toks.len() {
                parse_options(toks, j, a)
            } else {
                None
            },
        }
    }
}

/// The options of a command line whose first token is the program's name.
pub open spec fn parsed_options(argv: Seq<Seq<char>>) -> Option<OptionValues> {
    parse_options(argv, 1, Map::empty())
}

/// The texts of a command line.
pub open spec fn argv_model(argv: Seq<&str>) -> Seq<Seq<char>> {
    argv.map_values(|s: &str| s@)
}

/// The value given to an option, or its default.
pub open spec fn value_or(m: OptionValues, id: int, default: Seq<char>) -> Seq<char> {
    if m.dom().contains(id) {
        m[id]
    } else {
        default
    }
}

/// The value given to an option, if any.
pub open spec fn value_if(m: OptionValues, id: int) -> Option<Seq<char>> {
    if m.dom().contains(id) {
        Some(m[id])
    } else {
        None
    }
}

/// An optional string as an optional text.
pub open spec fn opt_view(o: Option<String>) -> Option<Seq<char>> {
    match o {
        Some(s) => Some(s@),
        None => None,
    }
}

/// The command-line arguments of the program.
pub struct Args {
    /// Type of version bump: auto, major, minor, patch.
    pub bump_type: String,
    /// Technology type: auto, npm, cargo, maven, python, generic.
    pub technology: String,
    /// Create a git tag for the new version.
    pub create_tag: bool,
    /// Prefix for git tags.
    pub tag_prefix: String,
    /// Preview changes without modifying files.
    pub dry_run: bool,
    /// Path to the project directory.
    pub path: String,
    /// Bump even with uncommitted changes.
    pub force: bool,
    /// Commit the version changes.
    pub commit: bool,
    /// Commit message template (`{version}` stands for the version).
    pub commit_message: Option<String>,
    /// Verbose output.
    pub verbose: bool,
    /// Output format: human, json, github-actions.
    pub output_format: String,
    /// Show project information and exit.
    pub show_info: bool,
    /// Analyze commits and show the recommended bump.
    pub analyze: bool,
    /// Roll back the last version bump.
    pub rollback: bool,
    /// The version whose tag a rollback deletes.
    pub rollback_version: Option<String>,
    /// Only restore files when rolling back.
    pub rollback_files_only: bool,
    /// Only undo git operations when rolling back.
    pub rollback_git_only: bool,
    /// Revert the last commit when rolling back.
    pub rollback_revert_commit: bool,
}

/// The arguments that the options `m` give, defaults filling the rest.
pub open spec fn args_reflect(a: Args, m: OptionValues) -> bool {
    &&& a.bump_type@ == value_or(m, BUMP_TYPE as int, "auto"@)
    &&& a.technology@ == value_or(m, TECHNOLOGY as int, "auto"@)
    &&& a.create_tag == m.dom().contains(CREATE_TAG as int)
    &&& a.tag_prefix@ == value_or(m, TAG_PREFIX as int, "v"@)
    &&& a.dry_run == m.dom().contains(DRY_RUN as int)
    &&& a.path@ == value_or(m, PATH as int, "."@)
    &&& a.force == m.dom().contains(FORCE as int)
    &&& a.commit == m.dom().contains(COMMIT as int)
    &&& opt_view(a.commit_message) == value_if(m, COMMIT_MESSAGE as int)
    &&& a.verbose == m.dom().contains(VERBOSE as int)
    &&& a.output_format@ == value_or(m, OUTPUT as int, "human"@)
    &&& a.show_info == m.dom().contains(SHOW_INFO as int)
    &&& a.analyze == m.dom().contains(ANALYZE as int)
    &&& a.rollback == m.dom().contains(ROLLBACK as int)
    &&& opt_view(a.rollback_version) == value_if(m, ROLLBACK_VERSION as int)
    &&& a.rollback_files_only == m.dom().contains(ROLLBACK_FILES_ONLY as int)
    &&& a.rollback_git_only == m.dom().contains(ROLLBACK_GIT_ONLY as int)
    &&& a.rollback_revert_commit == m.dom().contains(ROLLBACK_REVERT_COMMIT as int)
}

/// The options held so far, as a map.
pub open spec fn values_model(v: Seq<Option<String>>) -> OptionValues {
    Map::new(|i: int| 0 <= i < v.len() && v[i] is Some, |i: int| v[i]->Some_0@)
}

/// The option with a long name.
fn long_option_id(name: &Vec<char>) -> (r: Option<usize>)
    ensures
        match long_option(name@) {
            Some(id) => r == Some(id as usize),
            None => r is None,
        },
{
    if chars_eq(name, &chars_of("bump-type")) {
        Some(BUMP_TYPE)
    } else if chars_eq(name, &chars_of("technology")) {
        Some(TECHNOLOGY)
    } else if chars_eq(name, &chars_of("create-tag")) {
        Some(CREATE_TAG)
    } else if chars_eq(name, &chars_of("tag-prefix")) {
        Some(TAG_PREFIX)
    } else if chars_eq(name, &chars_of("dry-run")) {
        Some(DRY_RUN)
    } else if chars_eq(name, &chars_of("path")) {
        Some(PATH)
    } else if chars_eq(name, &chars_of("force")) {
        Some(FORCE)
    } else if chars_eq(name, &chars_of("commit")) {
        Some(COMMIT)
    } else if chars_eq(name, &chars_of("commit-message")) {
        Some(COMMIT_MESSAGE)
    } else if chars_eq(name, &chars_of("verbose")) {
        Some(VERBOSE)
    } else if chars_eq(name, &chars_of("output")) {
        Some(OUTPUT)
    } else if chars_eq(name, &chars_of("show-info")) {
        Some(SHOW_INFO)
    } else if chars_eq(name, &chars_of("analyze")) {
        Some(ANALYZE)
    } else if chars_eq(name, &chars_of("rollback")) {
        Some(ROLLBACK)
    } else if chars_eq(name, &chars_of("rollback-version")) {
        Some(ROLLBACK_VERSION)
    } else if chars_eq(name, &chars_of("rollback-files-only")) {
        Some(ROLLBACK_FILES_ONLY)
    } else if chars_eq(name, &chars_of("rollback-git-only")) {
        Some(ROLLBACK_GIT_ONLY)
    } else if chars_eq(name, &chars_of("rollback-revert-commit")) {
        Some(ROLLBACK_REVERT_COMMIT)
    } else {
        None
    }
}

/// The option with a one-letter name.
fn short_option_id(c: char) -> (r: Option<usize>)
    ensures
        match short_option(c) {
            Some(id) => r == Some(id as usize),
            None => r is None,
        },
{
    if c == 'b' {
        Some(BUMP_TYPE)
    } else if c == 't' {
        Some(TECHNOLOGY)
    } else if c == 'c' {
        Some(CREATE_TAG)
    } else if c == 'd' {
        Some(DRY_RUN)
    } else if c == 'p' {
        Some(PATH)
    } else if c == 'f' {
        Some(FORCE)
    } else if c == 'C' {
        Some(COMMIT)
    } else if c == 'm' {
        Some(COMMIT_MESSAGE)
    } else if c == 'v' {
        Some(VERBOSE)
    } else if c == 'o' {
        Some(OUTPUT)
    } else if c == 'i' {
        Some(SHOW_INFO)
    } else if c == 'a' {
        Some(ANALYZE)
    } else if c == 'r' {
        Some(ROLLBACK)
    } else {
        None
    }
}

/// Whether an option takes a value.
fn option_takes_value(id: usize) -> (r: bool)
    ensures
        r == takes_value(id as int),
{
    id == BUMP_TYPE || id == TECHNOLOGY || id == TAG_PREFIX || id == PATH || id == COMMIT_MESSAGE
        || id == OUTPUT || id == ROLLBACK_VERSION
}

/// The texts of the tokens.
pub open spec fn tokens_model(toks: Seq<Vec<char>>) -> Seq<Seq<char>> {
    toks.map_values(|v: Vec<char>| v@)
}

/// Records the value of an option, where it is accepted.
fn set_option(vals: &mut Vec<Option<String>>, id: usize, v: &Vec<char>) -> (ok: bool)
    requires
        old(vals)@.len() == OPTION_COUNT,
        id < OPTION_COUNT,
    ensures
        final(vals)@.len() == OPTION_COUNT,
        ok == value_ok(id as int, v@),
        ok ==> values_model(final(vals)@) == values_model(old(vals)@).insert(id as int, v@),
{
    if id == PATH && v.len() == 0 {
        return false;
    }
    let ghost before = vals@;
    vals.set(id, Some(string_of(v)));
    assert(values_model(vals@) =~= values_model(before).insert(id as int, v@));
    true
}

/// The option at token `i` takes the next token as its value.
fn value_from_next_exec(toks: &Vec<Vec<char>>, i: usize, vals: &mut Vec<Option<String>>, id: usize) -> (r: Option<usize>)
    requires
        i < toks@.len(),
        old(vals)@.len() == OPTION_COUNT,
        id < OPTION_COUNT,
    ensures
        final(vals)@.len() == OPTION_COUNT,
        match value_from_next(tokens_model(toks@), i as int, values_model(old(vals)@), id as int) {
            None => r is None,
            Some((a, j)) => r is Some && r->Some_0 == j && values_model(final(vals)@) == a,
        },
{
    let _n = toks.len();
    let ghost tm = tokens_model(toks@);
    if i + 1 < toks.len() {
        let next = &toks[i + 1];
        assert(tm[i + 1] == next@);
        let is_value = !(next.len() > 0 && next[0] == '-') || (next.len() == 1 && next[0] == '-');
        assert(is_value == value_token(next@)) by {
            if next.len() == 1 && next[0] == '-' {
                assert(next@ =~= seq!['-']);
            }
        }
        if is_value {
            if set_option(vals, id, next) {
                return Some(i + 2);
            }
        }
    }
    None
}

/// Reads the one-letter options of token `i`.
fn cluster_step_exec(toks: &Vec<Vec<char>>, i: usize, vals: &mut Vec<Option<String>>) -> (r: Option<usize>)
    requires
        i < toks@.len(),
        toks@[i as int]@.len() > 1,
        old(vals)@.len() == OPTION_COUNT,
    ensures
        final(vals)@.len() == OPTION_COUNT,
        match cluster_step(tokens_model(toks@), i as int, values_model(old(vals)@), 1) {
            None => r is None,
            Some((a, j)) => r is Some && r->Some_0 == j && values_model(final(vals)@) == a,
        },
{
    let _n = toks.len();
    let ghost tm = tokens_model(toks@);
    let ghost m0 = values_model(vals@);
    let t = &toks[i];
    assert(tm[i as int] == t@);
    let tl = t.len();
    let mut j: usize = 1;
    loop
        invariant
            tl == t@.len(),
            _n == toks@.len(),
            tm == tokens_model(toks@),
            tm[i as int] == t@,
            i < toks@.len(),
            1 <= j < t@.len(),
            vals@.len() == OPTION_COUNT,
            m0 == values_model(old(vals)@),
            cluster_step(tm, i as int, values_model(vals@), j as int) == cluster_step(tm, i as int, m0, 1),
        decreases t@.len() - j,
    {
        let c = t[j];
        let id = match short_option_id(c) {
            Some(id) => id,
            None => {
                assert(short_option(tm[i as int][j as int]) is None);
                assert(cluster_step(tm, i as int, values_model(vals@), j as int) is None);
                return None;
            },
        };
        if option_takes_value(id) {
            if j + 1 < t.len() {
                let rest = slice_chars(t, j + 1, t.len());
                let v = if rest[0] == '=' { slice_chars(&rest, 1, rest.len()) } else { rest };
                assert(rest@.drop_first() =~= rest@.subrange(1, rest@.len() as int));
                if set_option(vals, id, &v) {
                    return Some(i + 1);
                }
                return None;
            }
            return value_from_next_exec(toks, i, vals, id);
        }
        let truth = chars_of("true");
        let ok = set_option(vals, id, &truth);
        assert(ok);
        if j + 1 < t.len() {
            j = j + 1;
        } else {
            return Some(i + 1);
        }
    }
}

/// Reads the long option of token `i`.
fn long_step_exec(toks: &Vec<Vec<char>>, i: usize, vals: &mut Vec<Option<String>>) -> (r: Option<usize>)
    requires
        i < toks@.len(),
        toks@[i as int]@.len() > 2,
        old(vals)@.len() == OPTION_COUNT,
    ensures
        final(vals)@.len() == OPTION_COUNT,
        match long_step(tokens_model(toks@), i as int, values_model(old(vals)@)) {
            None => r is None,
            Some((a, j)) => r is Some && r->Some_0 == j && values_model(final(vals)@) == a,
        },
{
    let _n = toks.len();
    let ghost tm = tokens_model(toks@);
    let t = &toks[i];
    assert(tm[i as int] == t@);
    let body = slice_chars(t, 2, t.len());
    let k = find_char_from(&body, '=', 0);
    let name = slice_chars(&body, 0, k);
    let id = match long_option_id(&name) {
        Some(id) => id,
        None => return None,
    };
    if option_takes_value(id) {
        if k < body.len() {
            let v = slice_chars(&body, k + 1, body.len());
            if set_option(vals, id, &v) {
                return Some(i + 1);
            }
            return None;
        }
        return value_from_next_exec(toks, i, vals, id);
    }
    if k < body.len() {
        return None;
    }
    let truth = chars_of("true");
    let ok = set_option(vals, id, &truth);
    assert(ok);
    Some(i + 1)
}

/// Reads token `i`.
fn token_step_exec(toks: &Vec<Vec<char>>, i: usize, vals: &mut Vec<Option<String>>) -> (r: Option<usize>)
    requires
        i < toks@.len(),
        old(vals)@.len() == OPTION_COUNT,
    ensures
        final(vals)@.len() == OPTION_COUNT,
        match token_step(tokens_model(toks@), i as int, values_model(old(vals)@)) {
            None => r is None,
            Some((a, j)) => r is Some && r->Some_0 == j && values_model(final(vals)@) == a,
        },
{
    let _n = toks.len();
    let ghost tm = tokens_model(toks@);
    let t = &toks[i];
    assert(tm[i as int] == t@);
    let double_dash = t.len() == 2 && t[0] == '-' && t[1] == '-';
    assert(double_dash == (t@ == seq!['-', '-'])) by {
        if double_dash {
            assert(t@ =~= seq!['-', '-']);
        }
    }
    if double_dash {
        if i + 1 < toks.len() {
            None
        } else {
            Some(toks.len())
        }
    } else if t.len() > 2 && t[0] == '-' && t[1] == '-' {
        long_step_exec(toks, i, vals)
    } else if t.len() > 1 && t[0] == '-' {
        cluster_step_exec(toks, i, vals)
    } else {
        None
    }
}

/// The value given to an option, or its default.
fn value_or_default(vals: &Vec<Option<String>>, id: usize, default: &str) -> (r: String)
    requires
        id < vals@.len(),
    ensures
        r@ == value_or(values_model(vals@), id as int, default@),
{
    match &vals[id] {
        Some(s) => s.clone(),
        None => String::from_str(default),
    }
}

/// The value given to an option, if any.
fn value_given(vals: &Vec<Option<String>>, id: usize) -> (r: Option<String>)
    requires
        id < vals@.len(),
    ensures
        opt_view(r) == value_if(values_model(vals@), id as int),
{
    match &vals[id] {
        Some(s) => Some(s.clone()),
        None => None,
    }
}

impl Args {
    /// The arguments when no option is given.
    fn with_defaults() -> (r: Args)
        ensures
            args_reflect(r, Map::empty()),
    {
        Args {
            bump_type: String::from_str("auto"),
            technology: String::from_str("auto"),
            create_tag: false,
            tag_prefix: String::from_str("v"),
            dry_run: false,
            path: String::from_str("."),
            force: false,
            commit: false,
            commit_message: None,
            verbose: false,
            output_format: String::from_str("human"),
            show_info: false,
            analyze: false,
            rollback: false,
            rollback_version: None,
            rollback_files_only: false,
            rollback_git_only: false,
            rollback_revert_commit: false,
        }
    }

    /// Reads the arguments from a command line whose first token is the program's
    /// name; an error where the command line is refused: an unknown option, a
    /// missing or empty-path value, a value given to a switch, or a positional
    /// argument. An option given again overrides what it was given before.
    pub fn try_parse_from(argv: &[&str]) -> (r: Result<Args, String>)
        ensures
            match parsed_options(argv_model(argv@)) {
                None => r is Err,
                Some(m) => r is Ok && args_reflect(r->Ok_0, m),
            },
    {
        let mut toks: Vec<Vec<char>> = Vec::new();
        let mut k: usize = 0;
        while k < argv.len()
            invariant
                k <= argv@.len(),
                toks@.len() == k,
                tokens_model(toks@) == argv_model(argv@).subrange(0, k as int),
            decreases argv@.len() - k,
        {
            let ghost before = toks@;
            let c = chars_of(argv[k]);
            assert(argv_model(argv@)[k as int] == argv@[k as int]@);
            toks.push(c);
            assert forall|x: int| 0 <= x < k + 1 implies tokens_model(toks@)[x] == argv_model(argv@).subrange(0, k + 1)[x] by {
                if x < k {
                    assert(toks@[x] == before[x]);
                    assert(tokens_model(before)[x] == argv_model(argv@).subrange(0, k as int)[x]);
                }
            }
            assert(tokens_model(toks@) =~= argv_model(argv@).subrange(0, k + 1));
            k = k + 1;
        }
        assert(argv_model(argv@).subrange(0, argv@.len() as int) =~= argv_model(argv@));
        let ghost tm = tokens_model(toks@);
        let mut vals: Vec<Option<String>> = Vec::new();
        while vals.len() < OPTION_COUNT
            invariant
                vals@.len() <= OPTION_COUNT,
                forall|x: int| 0 <= x < vals@.len() ==> vals@[x] is None,
            decreases OPTION_COUNT - vals@.len(),
        {
            vals.push(None);
        }
        assert(values_model(vals@) =~= Map::<int, Seq<char>>::empty());
        let mut i: usize = 1;
        while i < toks.len()
            invariant
                tm == tokens_model(toks@),
                tm == argv_model(argv@),
                1 <= i,
                vals@.len() == OPTION_COUNT,
                parse_options(tm, i as int, values_model(vals@)) == parsed_options(tm),
            decreases toks@.len() - i,
        {
            let tok = i;
            let ghost m_before = values_model(vals@);
            match token_step_exec(&toks, i, &mut vals) {
                None => return Err(String::from_str("invalid command-line argument: ").concat(argv[tok])),
                Some(j) => {
                    if !(i < j && j <= toks.len()) {
                        return Err(String::from_str("invalid command-line argument: ").concat(argv[tok]));
                    }
                    assert(parse_options(tm, i as int, m_before) == parse_options(tm, j as int, values_model(vals@)));
                    i = j;
                },
            }
        }
        let ghost m = values_model(vals@);
        Ok(Args {
            bump_type: value_or_default(&vals, BUMP_TYPE, "auto"),
            technology: value_or_default(&vals, TECHNOLOGY, "auto"),
            create_tag: vals[CREATE_TAG].is_some(),
            tag_prefix: value_or_default(&vals, TAG_PREFIX, "v"),
            dry_run: vals[DRY_RUN].is_some(),
            path: value_or_default(&vals, PATH, "."),
            force: vals[FORCE].is_some(),
            commit: vals[COMMIT].is_some(),
            commit_message: value_given(&vals, COMMIT_MESSAGE),
            verbose: vals[VERBOSE].is_some(),
            output_format: value_or_default(&vals, OUTPUT, "human"),
            show_info: vals[SHOW_INFO].is_some(),
            analyze: vals[ANALYZE].is_some(),
            rollback: vals[ROLLBACK].is_some(),
            rollback_version: value_given(&vals, ROLLBACK_VERSION),
            rollback_files_only: vals[ROLLBACK_FILES_ONLY].is_some(),
            rollback_git_only: vals[ROLLBACK_GIT_ONLY].is_some(),
            rollback_revert_commit: vals[ROLLBACK_REVERT_COMMIT].is_some(),
        })
    }

    /// Reads the arguments from a command line that is accepted (see
    /// [`Args::try_parse_from`]).
    pub fn parse_from(argv: &[&str]) -> (r: Args)
        requires
            parsed_options(argv_model(argv@)) is Some,
        ensures
            args_reflect(r, parsed_options(argv_model(argv@))->Some_0),
    {
        match Self::try_parse_from(argv) {
            Ok(a) => a,
            Err(_) => Self::with_defaults(),
        }
    }
}

/// Whether a text is one of the bump types.
pub open spec fn valid_bump_type(s: Seq<char>) -> bool {
    s == "auto"@ || s == "major"@ || s == "minor"@ || s == "patch"@
}

/// Whether a text is one of the technologies the command line accepts.
pub open spec fn valid_technology(s: Seq<char>) -> bool {
    s == "auto"@ || s == "npm"@ || s == "cargo"@ || s == "maven"@ || s == "python"@ || s == "generic"@
}

/// Whether a text is one of the output formats.
pub open spec fn valid_output_format(s: Seq<char>) -> bool {
    s == "human"@ || s == "json"@ || s == "github-actions"@
}

/// The verdict on the arguments, given whether the project path exists and is a
/// directory: the first rule they break, in this order, or success.
pub open spec fn args_verdict(a: Args, path_exists: bool, path_is_dir: bool) -> Result<(), Seq<char>> {
    if !valid_bump_type(a.bump_type@) {
        Err("Invalid bump type '"@ + a.bump_type@ + "'. Valid options: auto, major, minor, patch"@)
    } else if !valid_technology(a.technology@) {
        Err("Invalid technology '"@ + a.technology@ + "'. Valid options: auto, npm, cargo, maven, python, generic"@)
    } else if !valid_output_format(a.output_format@) {
        Err("Invalid output format '"@ + a.output_format@ + "'. Valid options: human, json, github-actions"@)
    } else if !path_exists {
        Err("Project path does not exist: "@ + a.path@)
    } else if !path_is_dir {
        Err("Project path is not a directory: "@ + a.path@)
    } else if a.commit_message is Some && !a.commit {
        Err("--commit-message can only be used with --commit"@)
    } else if a.show_info && a.analyze {
        Err("Cannot use --show-info and --analyze together"@)
    } else if (a.show_info || a.analyze) && a.dry_run {
        Err("--dry-run is redundant with --show-info or --analyze"@)
    } else if a.rollback && a.rollback_files_only && a.rollback_git_only {
        Err("Cannot use --rollback-files-only and --rollback-git-only together"@)
    } else if a.rollback && (a.create_tag || a.commit) {
        Err("Cannot use --create-tag or --commit with --rollback"@)
    } else if a.rollback && !a.dry_run && a.bump_type@ != "auto"@ {
        Err("Cannot specify --bump-type with --rollback"@)
    } else if !a.rollback && a.rollback_version is Some {
        Err("--rollback-version can only be used with --rollback"@)
    } else if !a.rollback && a.rollback_files_only {
        Err("--rollback-files-only can only be used with --rollback"@)
    } else if !a.rollback && a.rollback_git_only {
        Err("--rollback-git-only can only be used with --rollback"@)
    } else if !a.rollback && a.rollback_revert_commit {
        Err("--rollback-revert-commit can only be used with --rollback"@)
    } else {
        Ok(())
    }
}

/// The arguments as the program starts them when only a technology is given:
/// automatic bump, human output, and no option that asks for more.
pub open spec fn plain_run(a: Args) -> bool {
    &&& a.bump_type@ == "auto"@
    &&& a.output_format@ == "human"@
    &&& a.commit_message is None
    &&& !a.commit
    &&& !a.create_tag
    &&& !a.dry_run
    &&& !a.show_info
    &&& !a.analyze
    &&& !a.rollback
    &&& a.rollback_version is None
    &&& !a.rollback_files_only
    &&& !a.rollback_git_only
    &&& !a.rollback_revert_commit
}

/// Every technology that the help and the error text name (auto, npm, cargo,
/// maven, python, generic) is accepted: with it, the verdict never rejects the
/// technology, and a plain run in an existing directory is accepted.
pub proof fn lemma_listed_technologies_accepted(a: Args, path_exists: bool, path_is_dir: bool)
    requires
        a.technology@ == "auto"@ || a.technology@ == "npm"@ || a.technology@ == "cargo"@
            || a.technology@ == "maven"@ || a.technology@ == "python"@ || a.technology@ == "generic"@,
    ensures
        args_verdict(a, path_exists, path_is_dir) != Err::<(), Seq<char>>(
            "Invalid technology '"@ + a.technology@ + "'. Valid options: auto, npm, cargo, maven, python, generic"@,
        ),
        plain_run(a) ==> args_verdict(a, true, true) == Ok::<(), Seq<char>>(()),
{
    let t = "Invalid technology '"@ + a.technology@ + "'. Valid options: auto, npm, cargo, maven, python, generic"@;
    reveal_strlit("Invalid technology '");
    reveal_strlit("Invalid bump type '");
    reveal_strlit("Invalid output format '");
    reveal_strlit("Project path does not exist: ");
    reveal_strlit("Project path is not a directory: ");
    reveal_strlit("--commit-message can only be used with --commit");
    reveal_strlit("Cannot use --show-info and --analyze together");
    reveal_strlit("--dry-run is redundant with --show-info or --analyze");
    reveal_strlit("Cannot use --rollback-files-only and --rollback-git-only together");
    reveal_strlit("Cannot use --create-tag or --commit with --rollback");
    reveal_strlit("Cannot specify --bump-type with --rollback");
    reveal_strlit("--rollback-version can only be used with --rollback");
    reveal_strlit("--rollback-files-only can only be used with --rollback");
    reveal_strlit("--rollback-git-only can only be used with --rollback");
    reveal_strlit("--rollback-revert-commit can only be used with --rollback");
    assert(t[0] == 'I');
    assert(t[8] == 't');
    let r = args_verdict(a, path_exists, path_is_dir);
    if r == Err::<(), Seq<char>>(t) {
        let m = r->Err_0;
        assert(m[0] == 'I' && m[8] == 't');
        if !valid_bump_type(a.bump_type@) {
            assert(m[8] == 'b');
        } else if !valid_output_format(a.output_format@) {
            assert(m[8] == 'o');
        }
    }
}

/// Whether the text of `s` is one of the words.
fn is_one_of(s: &str, words: &Vec<&str>) -> (r: bool)
    ensures
        r == exists|i: int| 0 <= i < words@.len() && s@ == (#[trigger] words@[i])@,
{
    let c = chars_of(s);
    let mut i: usize = 0;
    while i < words.len()
        invariant
            c@ == s@,
            i <= words@.len(),
            forall|j: int| 0 <= j < i ==> s@ != (#[trigger] words@[j])@,
        decreases words@.len() - i,
    {
        if chars_eq(&c, &chars_of(words[i])) {
            return true;
        }
        i = i + 1;
    }
    false
}

impl Args {
    /// Checks the arguments, given whether the project path exists and is a
    /// directory.
    pub fn validate_with(&self, path_exists: bool, path_is_dir: bool) -> (r: Result<(), String>)
        ensures
            unit_result(r) == args_verdict(*self, path_exists, path_is_dir),
    {
        let bump_types = vec!["auto", "major", "minor", "patch"];
        let ok_bump = is_one_of(self.bump_type.as_str(), &bump_types);
        assert(ok_bump == valid_bump_type(self.bump_type@)) by {
            if valid_bump_type(self.bump_type@) {
                if self.bump_type@ == "auto"@ { assert(bump_types@[0]@ == "auto"@); }
                if self.bump_type@ == "major"@ { assert(bump_types@[1]@ == "major"@); }
                if self.bump_type@ == "minor"@ { assert(bump_types@[2]@ == "minor"@); }
                if self.bump_type@ == "patch"@ { assert(bump_types@[3]@ == "patch"@); }
            }
        }
        if !ok_bump {
            return Err(String::from_str("Invalid bump type '").concat(self.bump_type.as_str()).concat(
                "'. Valid options: auto, major, minor, patch",
            ));
        }
        let technologies = vec!["auto", "npm", "cargo", "maven", "python", "generic"];
        let ok_tech = is_one_of(self.technology.as_str(), &technologies);
        assert(ok_tech == valid_technology(self.technology@)) by {
            if valid_technology(self.technology@) {
                if self.technology@ == "auto"@ { assert(technologies@[0]@ == "auto"@); }
                if self.technology@ == "npm"@ { assert(technologies@[1]@ == "npm"@); }
                if self.technology@ == "cargo"@ { assert(technologies@[2]@ == "cargo"@); }
                if self.technology@ == "maven"@ { assert(technologies@[3]@ == "maven"@); }
                if self.technology@ == "python"@ { assert(technologies@[4]@ == "python"@); }
                if self.technology@ == "generic"@ { assert(technologies@[5]@ == "generic"@); }
            }
        }
        if !ok_tech {
            return Err(String::from_str("Invalid technology '").concat(self.technology.as_str()).concat(
                "'. Valid options: auto, npm, cargo, maven, python, generic",
            ));
        }
        let formats = vec!["human", "json", "github-actions"];
        let ok_format = is_one_of(self.output_format.as_str(), &formats);
        assert(ok_format == valid_output_format(self.output_format@)) by {
            if valid_output_format(self.output_format@) {
                if self.output_format@ == "human"@ { assert(formats@[0]@ == "human"@); }
                if self.output_format@ == "json"@ { assert(formats@[1]@ == "json"@); }
                if self.output_format@ == "github-actions"@ { assert(formats@[2]@ == "github-actions"@); }
            }
        }
        if !ok_format {
            return Err(String::from_str("Invalid output format '").concat(self.output_format.as_str()).concat(
                "'. Valid options: human, json, github-actions",
            ));
        }
        if !path_exists {
            return Err(String::from_str("Project path does not exist: ").concat(self.path.as_str()));
        }
        if !path_is_dir {
            return Err(String::from_str("Project path is not a directory: ").concat(self.path.as_str()));
        }
        if self.commit_message.is_some() && !self.commit {
            return Err(String::from_str("--commit-message can only be used with --commit"));
        }
        if self.show_info && self.analyze {
            return Err(String::from_str("Cannot use --show-info and --analyze together"));
        }
        if (self.show_info || self.analyze) && self.dry_run {
            return Err(String::from_str("--dry-run is redundant with --show-info or --analyze"));
        }
        if self.rollback {
            if self.rollback_files_only && self.rollback_git_only {
                return Err(String::from_str("Cannot use --rollback-files-only and --rollback-git-only together"));
            }
            if self.create_tag || self.commit {
                return Err(String::from_str("Cannot use --create-tag or --commit with --rollback"));
            }
            let is_auto = chars_eq(&chars_of(self.bump_type.as_str()), &chars_of("auto"));
            if !self.dry_run && !is_auto {
                return Err(String::from_str("Cannot specify --bump-type with --rollback"));
            }
        }
        if !self.rollback {
            if self.rollback_version.is_some() {
                return Err(String::from_str("--rollback-version can only be used with --rollback"));
            }
            if self.rollback_files_only {
                return Err(String::from_str("--rollback-files-only can only be used with --rollback"));
            }
            if self.rollback_git_only {
                return Err(String::from_str("--rollback-git-only can only be used with --rollback"));
            }
            if self.rollback_revert_commit {
                return Err(String::from_str("--rollback-revert-commit can only be used with --rollback"));
            }
        }
        Ok(())
    }

    /// Checks the arguments; the file system is asked whether the project path
    /// exists and is a directory ([`probe_path_kind`]). The result is the verdict
    /// for what it answered.
    pub fn validate(&self) -> (r: Result<(), String>)
        ensures
            exists|e: bool, d: bool| unit_result(r) == #[trigger] args_verdict(*self, e, d),
    {
        let (exists, is_dir, _) = probe_path_kind(self.path.as_str());
        let r = self.validate_with(exists, is_dir);
        assert(unit_result(r) == args_verdict(*self, exists, is_dir));
        r
    }

    /// The canonical absolute form of the project path, as the file system gives it.
    pub fn get_absolute_path(&self) -> (r: Result<String, String>) {
        path_canonicalize(self.path.as_str()).1
    }

    /// Whether the program runs for GitHub Actions: the environment says so, or the
    /// output format asks for it.
    pub fn is_github_actions(&self, github_actions_env: bool) -> (r: bool)
        ensures
            r == (github_actions_env || self.output_format@ == "github-actions"@),
    {
        github_actions_env || chars_eq(&chars_of(self.output_format.as_str()), &chars_of("github-actions"))
    }

    /// The output format to use: `github-actions` in place of the default `human`
    /// when the program runs for GitHub Actions, else the format asked for.
    pub fn get_effective_output_format(&self, github_actions_env: bool) -> (r: &str)
        ensures
            r@ == if (github_actions_env || self.output_format@ == "github-actions"@) && self.output_format@ == "human"@ {
                "github-actions"@
            } else {
                self.output_format@
            },
    {
        if self.is_github_actions(github_actions_env) && chars_eq(&chars_of(self.output_format.as_str()), &chars_of("human")) {
            "github-actions"
        } else {
            self.output_format.as_str()
        }
    }
}

} // verus!
