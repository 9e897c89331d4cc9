//! Names of backup files and line-ending normalization.
use crate::constants::BACKUP_FILE_EXTENSION;
use crate::text::{
    chars_of, concat_chars, has_infix, has_prefix, replace_all, replace_chars, slice_chars,
    string_of, contains_chars, starts_with,
};
use vstd::prelude::*;

verus! {

/// The index where the last path component begins (just after the last `/`).
pub open spec fn name_start(p: Seq<char>) -> int
    decreases p.len(),
{
    if p.len() == 0 {
        0
    } else if p.last() == '/' {
        p.len() as int
    } else {
        name_start(p.drop_last())
    }
}

/// The last component of a path.
pub open spec fn file_name(p: Seq<char>) -> Seq<char> {
    p.subrange(name_start(p), p.len() as int)
}

/// Whether a path's last component names a file: it is not empty, `.` or `..`.
pub open spec fn names_a_file(p: Seq<char>) -> bool {
    let n = file_name(p);
    n.len() > 0 && n != seq!['.'] && n != seq!['.', '.']
}

/// Whether a file name has an extension in the sense of `Path::extension`: a `.`
/// after its first character.
pub open spec fn has_extension(name: Seq<char>) -> bool {
    exists|i: int| 1 <= i < name.len() && name[i] == '.'
}

/// The path of the backup of a file: `Path::with_extension` with the file's
/// extension followed by `.autoversion.backup`, which appends
/// `.autoversion.backup` to a name with an extension and `..autoversion.backup`
/// to a name without one.
pub open spec fn backup_path_spec(p: Seq<char>) -> Seq<char> {
    if has_extension(file_name(p)) {
        p + BACKUP_FILE_EXTENSION@
    } else {
        p + seq!['.'] + BACKUP_FILE_EXTENSION@
    }
}

/// The backup's path without its `.autoversion.backup` ending; none when it does
/// not end so.
pub open spec fn restored_path_spec(b: Seq<char>) -> Option<Seq<char>> {
    let e = BACKUP_FILE_EXTENSION@;
    if e.len() <= b.len() && b.subrange(b.len() - e.len(), b.len() as int) == e {
        Some(b.subrange(0, b.len() - e.len()))
    } else {
        None
    }
}

/// Whether a path stripped of its backup ending may also be the backup of the
/// path without its last `.`: it ends with `.`, and the name before that dot has
/// no extension, so that [`backup_path_spec`] adds a `.` to it.
pub open spec fn dot_twin(s: Seq<char>) -> bool {
    s.len() > 0 && s.last() == '.' && !has_extension(file_name(s.drop_last()))
}

proof fn lemma_name_start_bounds(p: Seq<char>)
    ensures
        0 <= name_start(p) <= p.len(),
        name_start(p) > 0 ==> p[name_start(p) - 1] == '/',
        forall|j: int| name_start(p) <= j < p.len() ==> p[j] != '/',
    decreases p.len(),
{
    if p.len() > 0 && p.last() != '/' {
        lemma_name_start_bounds(p.drop_last());
        assert forall|j: int| name_start(p) <= j < p.len() implies p[j] != '/' by {
            if j < p.len() - 1 {
                assert(p.drop_last()[j] == p[j]);
            }
        }
    }
}

/// The index where the last component of a path begins.
fn name_start_index(p: &Vec<char>) -> (r: usize)
    ensures
        r == name_start(p@),
        r <= p@.len(),
{
    let mut i = p.len();
    proof {
        lemma_name_start_bounds(p@);
    }
    assert(p@.subrange(0, i as int) =~= p@);
    while i > 0 && p[i - 1] != '/'
        invariant
            i <= p@.len(),
            name_start(p@.subrange(0, i as int)) == name_start(p@),
        decreases i,
    {
        assert(p@.subrange(0, i as int).drop_last() =~= p@.subrange(0, i - 1));
        i = i - 1;
    }
    assert(i > 0 ==> p@.subrange(0, i as int).last() == '/');
    i
}

/// Whether a file name has an extension.
fn name_has_extension(n: &Vec<char>) -> (r: bool)
    ensures
        r == has_extension(n@),
{
    let mut i: usize = 1;
    while i < n.len()
        invariant
            1 <= i,
            i <= n@.len() || n@.len() == 0,
            forall|j: int| 1 <= j < i && j < n@.len() ==> n@[j] != '.',
        decreases n@.len() - i,
    {
        if n[i] == '.' {
            return true;
        }
        i = i + 1;
    }
    false
}

/// Whether a path's last component names a file (see [`names_a_file`]).
pub fn path_names_a_file(file_path: &str) -> (r: bool)
    ensures
        r == names_a_file(file_path@),
{
    let p = chars_of(file_path);
    let start = name_start_index(&p);
    let name = slice_chars(&p, start, p.len());
    if name.len() == 0 {
        return false;
    }
    if name.len() == 1 && name[0] == '.' {
        assert(name@ =~= seq!['.']);
        return false;
    }
    if name.len() == 2 && name[0] == '.' && name[1] == '.' {
        assert(name@ =~= seq!['.', '.']);
        return false;
    }
    assert(name@ != seq!['.']) by {
        if name@ == seq!['.'] {
            assert(name@.len() == 1 && name@[0] == '.');
        }
    }
    assert(name@ != seq!['.', '.']) by {
        if name@ == seq!['.', '.'] {
            assert(name@.len() == 2 && name@[0] == '.' && name@[1] == '.');
        }
    }
    true
}

/// The path of the backup of a file (see [`backup_path_spec`]).
pub fn backup_path(file_path: &str) -> (r: String)
    requires
        names_a_file(file_path@),
    ensures
        r@ == backup_path_spec(file_path@),
{
    let p = chars_of(file_path);
    let start = name_start_index(&p);
    let name = slice_chars(&p, start, p.len());
    let ext = chars_of(BACKUP_FILE_EXTENSION);
    if name_has_extension(&name) {
        string_of(&concat_chars(&p, &ext))
    } else {
        let mut q = p;
        q.push('.');
        string_of(&concat_chars(&q, &ext))
    }
}

/// The path of the file that a backup saves (see [`restored_path_spec`]).
pub fn restored_path(backup: &str) -> (r: Option<String>)
    ensures
        match restored_path_spec(backup@) {
            Some(p) => r is Some && r->Some_0@ == p,
            None => r is None,
        },
{
    let b = chars_of(backup);
    let e = chars_of(BACKUP_FILE_EXTENSION);
    if e.len() > b.len() {
        return None;
    }
    let cut = b.len() - e.len();
    let tail = slice_chars(&b, cut, b.len());
    if crate::text::chars_eq(&tail, &e) {
        Some(string_of(&slice_chars(&b, 0, cut)))
    } else {
        None
    }
}

/// The path without its last `.`, where it is a [`dot_twin`].
pub fn without_added_dot(s: &str) -> (r: Option<String>)
    ensures
        r is Some <==> dot_twin(s@),
        r is Some ==> r->Some_0@ == s@.drop_last(),
{
    let c = chars_of(s);
    if c.len() > 0 && c[c.len() - 1] == '.' {
        let x = slice_chars(&c, 0, c.len() - 1);
        assert(x@ =~= s@.drop_last());
        let start = name_start_index(&x);
        let name = slice_chars(&x, start, x.len());
        if !name_has_extension(&name) {
            return Some(string_of(&x));
        }
    }
    None
}

/// The last component of a path.
pub fn file_name_of(p: &str) -> (r: String)
    ensures
        r@ == file_name(p@),
{
    let c = chars_of(p);
    let start = name_start_index(&c);
    string_of(&slice_chars(&c, start, c.len()))
}

/// Whether a file name is that of a backup: it ends with `.autoversion.backup`.
pub fn is_backup_name(name: &str) -> (r: bool)
    ensures
        r == (restored_path_spec(name@) is Some),
{
    restored_path(name).is_some()
}

/// Whether a file name mentions `.autoversion.backup` anywhere.
pub fn mentions_backup(name: &str) -> (r: bool)
    ensures
        r == has_infix(name@, BACKUP_FILE_EXTENSION@),
{
    contains_chars(&chars_of(name), &chars_of(BACKUP_FILE_EXTENSION))
}

/// Unix line endings: every line break made of carriage returns followed by `\n`
/// becomes `\n` (read from the end: a `\r` just before a `\n` of the result goes).
pub open spec fn unix_line_endings(s: Seq<char>) -> Seq<char>
    decreases s.len(),
{
    if s.len() == 0 {
        s
    } else {
        let r = unix_line_endings(s.drop_first());
        if s[0] == '\r' && r.len() > 0 && r[0] == '\n' {
            r
        } else {
            seq![s[0]] + r
        }
    }
}

/// No `\r\n` is left in a text with Unix line endings.
pub proof fn lemma_unix_has_no_crlf(s: Seq<char>)
    ensures
        !has_infix(unix_line_endings(s), seq!['\r', '\n']),
    decreases s.len(),
{
    if s.len() > 0 {
        let r = unix_line_endings(s.drop_first());
        lemma_unix_has_no_crlf(s.drop_first());
        let u = unix_line_endings(s);
        if has_infix(u, seq!['\r', '\n']) {
            let i = choose|i: int| 0 <= i && i + 2 <= u.len() && #[trigger] u.subrange(i, i + 2) == seq!['\r', '\n'];
            assert(u.subrange(i, i + 2)[0] == u[i]);
            assert(u.subrange(i, i + 2)[1] == u[i + 1]);
            if u != r {
                assert(u == seq![s[0]] + r);
                if i == 0 {
                    assert(u[0] == s[0] && u[1] == r[0]);
                } else {
                    assert(r.subrange(i - 1, i - 1 + 2) =~= u.subrange(i, i + 2));
                    assert(has_infix(r, seq!['\r', '\n']));
                }
            } else {
                assert(r.subrange(i, i + 2) =~= u.subrange(i, i + 2));
                assert(has_infix(r, seq!['\r', '\n']));
            }
        }
    }
}

/// A text without `\r\n` already has Unix line endings.
pub proof fn lemma_unix_keeps(s: Seq<char>)
    requires
        !has_infix(s, seq!['\r', '\n']),
    ensures
        unix_line_endings(s) == s,
    decreases s.len(),
{
    if s.len() > 0 {
        let t = s.drop_first();
        assert(!has_infix(t, seq!['\r', '\n'])) by {
            if has_infix(t, seq!['\r', '\n']) {
                let i = choose|i: int| 0 <= i && i + 2 <= t.len() && #[trigger] t.subrange(i, i + 2) == seq!['\r', '\n'];
                assert(s.subrange(i + 1, i + 1 + 2) =~= t.subrange(i, i + 2));
                assert(has_infix(s, seq!['\r', '\n']));
            }
        }
        lemma_unix_keeps(t);
        if s[0] == '\r' && t.len() > 0 && t[0] == '\n' {
            assert(s.subrange(0, 0int + 2) =~= seq!['\r', '\n']);
            assert(has_infix(s, seq!['\r', '\n']));
        }
        assert(seq![s[0]] + t =~= s);
    }
}

/// Making line endings Unix twice changes nothing more.
pub proof fn lemma_unix_idempotent(s: Seq<char>)
    ensures
        unix_line_endings(unix_line_endings(s)) == unix_line_endings(s),
{
    lemma_unix_has_no_crlf(s);
    lemma_unix_keeps(unix_line_endings(s));
}

/// Line endings made Unix (see [`unix_line_endings`]): no `\r\n` is left, and a
/// second call changes nothing.
pub fn normalize_line_endings(content: &str) -> (r: String)
    ensures
        r@ == unix_line_endings(content@),
        !has_infix(r@, seq!['\r', '\n']),
        unix_line_endings(r@) == r@,
{
    let c = chars_of(content);
    let n = c.len();
    let mut rev: Vec<char> = Vec::new();
    let mut i: usize = n;
    assert(c@.subrange(n as int, n as int) =~= Seq::<char>::empty());
    while i > 0
        invariant
            n == c@.len(),
            i <= n,
            rev@.len() == unix_line_endings(c@.subrange(i as int, n as int)).len(),
            forall|j: int| 0 <= j < rev@.len() ==> #[trigger] rev@[j] == unix_line_endings(c@.subrange(i as int, n as int))[rev@.len() - 1 - j],
        decreases i,
    {
        let ghost before = unix_line_endings(c@.subrange(i as int, n as int));
        let ch = c[i - 1];
        assert(c@.subrange(i - 1, n as int).drop_first() =~= c@.subrange(i as int, n as int));
        assert(c@.subrange(i - 1, n as int)[0] == ch);
        let drop = ch == '\r' && rev.len() > 0 && rev[rev.len() - 1] == '\n';
        if drop {
            assert(before[0] == rev@[rev@.len() - 1]);
        } else {
            if rev.len() > 0 {
                assert(before[0] == rev@[rev@.len() - 1]);
            }
            let ghost old_rev = rev@;
            rev.push(ch);
            assert forall|j: int| 0 <= j < rev@.len() implies #[trigger] rev@[j] == unix_line_endings(c@.subrange(i - 1, n as int))[rev@.len() - 1 - j] by {
                let u = unix_line_endings(c@.subrange(i - 1, n as int));
                assert(u == seq![ch] + before);
                if j < old_rev.len() {
                    assert(rev@[j] == old_rev[j]);
                }
            }
        }
        i = i - 1;
    }
    assert(c@.subrange(0, n as int) =~= c@);
    let ghost u = unix_line_endings(c@);
    let mut out: Vec<char> = Vec::new();
    let m = rev.len();
    while out.len() < m
        invariant
            m == rev@.len(),
            m == u.len(),
            out@.len() <= m,
            forall|j: int| 0 <= j < rev@.len() ==> #[trigger] rev@[j] == u[m - 1 - j],
            forall|k: int| 0 <= k < out@.len() ==> #[trigger] out@[k] == u[k],
        decreases m - out@.len(),
    {
        let k = out.len();
        out.push(rev[m - 1 - k]);
    }
    assert(out@ =~= u);
    proof {
        lemma_unix_has_no_crlf(content@);
        lemma_unix_idempotent(content@);
    }
    string_of(&out)
}

/// Stripping the backup ending from a file's backup gives the file's path, with a
/// `.` after it where its name has no extension; that path is then a [`dot_twin`]
/// of the file's path.
pub proof fn lemma_backup_stripped(p: Seq<char>)
    requires
        file_name(p).len() > 0,
    ensures
        has_extension(file_name(p)) ==> restored_path_spec(backup_path_spec(p)) == Some(p),
        !has_extension(file_name(p)) ==> restored_path_spec(backup_path_spec(p)) == Some(p.push('.'))
            && dot_twin(p.push('.')) && p.push('.').drop_last() == p
            && file_name(p.push('.')) == file_name(p).push('.'),
{
    let b = backup_path_spec(p);
    let e = BACKUP_FILE_EXTENSION@;
    lemma_name_start_bounds(p);
    assert(p.last() == file_name(p).last());
    assert(b.subrange(b.len() - e.len(), b.len() as int) =~= e);
    if has_extension(file_name(p)) {
        assert(b.subrange(0, b.len() - e.len()) =~= p);
    } else {
        let s = b.subrange(0, b.len() - e.len());
        assert(s =~= p.push('.'));
        assert(s.drop_last() =~= p);
        assert(name_start(s) == name_start(p));
        assert(file_name(s) =~= file_name(p).push('.'));
    }
}

/// A backup's name is recognized as that of a backup.
pub proof fn lemma_backup_is_backup(p: Seq<char>)
    ensures
        restored_path_spec(backup_path_spec(p)) is Some,
{
    let b = backup_path_spec(p);
    let e = BACKUP_FILE_EXTENSION@;
    assert(b.subrange(b.len() - e.len(), b.len() as int) =~= e);
}

} // verus!
