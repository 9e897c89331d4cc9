//! Path validation and sanitization of file names and messages.
use crate::engine::project_files::{join_path, join_path_string};
use crate::regex_api::{regex_replace_all, regex_replaced_all};
use crate::std_api::{
    char_is_alphanumeric, path_canonicalize, path_exists, path_file_name, path_is_dir,
    path_parent, path_starts_with, std_path_file_name, std_path_parent, std_path_starts_with,
    unicode_alphanumeric,
};
use crate::text::{
    chars_of, contains_chars, has_infix, replace_all, replace_chars, strip_all_leading,
    strip_leading_char, string_of,
};
use vstd::prelude::*;

verus! {

/// The result of a step as plain texts.
pub open spec fn text_result(r: Result<String, String>) -> Result<Seq<char>, Seq<char>> {
    match r {
        Ok(s) => Ok(s@),
        Err(e) => Err(e@),
    }
}

/// Whether a path is absolute on Unix: it begins with `/`.
pub open spec fn is_absolute(p: Seq<char>) -> bool {
    p.len() > 0 && p[0] == '/'
}

/// The verdict on a project path, given what the file system said of it: whether
/// it exists, whether it is a directory, and its canonical form.
pub open spec fn project_path_verdict(
    path: Seq<char>,
    exists: bool,
    is_dir: bool,
    canonical: Result<Seq<char>, Seq<char>>,
) -> Result<Seq<char>, Seq<char>> {
    if !exists {
        Err("Project path does not exist: "@ + path)
    } else if !is_dir {
        Err("Project path must be a directory, not a file: "@ + path)
    } else {
        match canonical {
            Err(e) => Err("Failed to canonicalize path "@ + path + ": "@ + e),
            Ok(c) => if is_absolute(c) {
                Ok(c)
            } else {
                Err("Path must be absolute: "@ + c)
            },
        }
    }
}

/// Decides on a project path from what the file system said of it (see
/// [`project_path_verdict`]).
pub fn check_project_path(path: &str, exists: bool, is_dir: bool, canonical: Result<String, String>) -> (r: Result<String, String>)
    ensures
        text_result(r) == project_path_verdict(path@, exists, is_dir, text_result(canonical)),
{
    if !exists {
        return Err(String::from_str("Project path does not exist: ").concat(path));
    }
    if !is_dir {
        return Err(String::from_str("Project path must be a directory, not a file: ").concat(path));
    }
    match canonical {
        Err(e) => Err(String::from_str("Failed to canonicalize path ").concat(path).concat(": ").concat(e.as_str())),
        Ok(c) => {
            let cc = chars_of(c.as_str());
            if cc.len() > 0 && cc[0] == '/' {
                Ok(c)
            } else {
                Err(String::from_str("Path must be absolute: ").concat(c.as_str()))
            }
        },
    }
}

/// What the file system says of a path: whether it exists and, where it does,
/// whether it is a directory (else "no"), with the paths asked about: the path
/// itself, once per question.
pub fn probe_path_kind(path: &str) -> (r: (bool, bool, Vec<String>))
    ensures
        r.2@.len() == if r.0 { 2int } else { 1int },
        forall|i: int| 0 <= i < r.2@.len() ==> (#[trigger] r.2@[i])@ == path@,
        !r.0 ==> !r.1,
{
    let mut asked: Vec<String> = Vec::new();
    let (q0, exists) = path_exists(path);
    asked.push(q0);
    if !exists {
        return (false, false, asked);
    }
    let (q1, is_dir) = path_is_dir(path);
    asked.push(q1);
    (true, is_dir, asked)
}

/// What the file system says of a project path: whether it exists, whether it is
/// a directory, and, where it is, its canonical form (else an empty error), with
/// the paths asked about: the path itself, once per question, as far as the
/// answers lead.
pub fn probe_project_path(path: &str) -> (r: (bool, bool, Result<String, String>, Vec<String>))
    ensures
        r.3@.len() == if !r.0 { 1int } else if !r.1 { 2int } else { 3int },
        forall|i: int| 0 <= i < r.3@.len() ==> (#[trigger] r.3@[i])@ == path@,
        !r.0 ==> !r.1,
        !r.1 ==> r.2 is Err && r.2->Err_0@.len() == 0,
        r.2 is Ok ==> is_absolute(r.2->Ok_0@),
{
    let (exists, is_dir, mut asked) = probe_path_kind(path);
    if !is_dir {
        return (exists, false, Err(String::new()), asked);
    }
    let (q, canonical) = path_canonicalize(path);
    asked.push(q);
    (true, true, canonical, asked)
}

/// Validates that a project path exists, is a directory, and returns its canonical
/// absolute form. The file system is asked in that order, and only as far as
/// needed ([`probe_project_path`]); the result is the verdict for what it answered.
pub fn validate_project_path(path: &str) -> (r: Result<String, String>)
    ensures
        exists|e: bool, d: bool, c: Result<Seq<char>, Seq<char>>|
            text_result(r) == #[trigger] project_path_verdict(path@, e, d, c),
{
    let (exists, is_dir, canonical, _) = probe_project_path(path);
    check_project_path(path, exists, is_dir, canonical)
}

/// What the file system said while a file path was validated.
pub struct FilePathProbe {
    /// The canonical project path, or the error of canonicalizing it.
    pub project: Result<String, String>,
    /// Whether the absolute file path exists.
    pub file_exists: bool,
    /// The canonical file path, when it exists.
    pub file: Result<String, String>,
    /// Whether the parent directory exists, when the file does not.
    pub parent_exists: bool,
    /// The canonical parent directory, when it exists.
    pub parent: Result<String, String>,
}

/// The file path made absolute: itself when absolute, else joined to the project.
pub open spec fn absolute_file(file: Seq<char>, project: Seq<char>) -> Seq<char> {
    if is_absolute(file) { file } else { join_path(project, file) }
}

/// The verdict on a file path, given what the file system said (see
/// [`FilePathProbe`]): its canonical form must lie in the canonical project.
pub open spec fn file_path_verdict(
    file: Seq<char>,
    project_path: Seq<char>,
    project: Result<Seq<char>, Seq<char>>,
    file_exists: bool,
    canonical_file: Result<Seq<char>, Seq<char>>,
    parent_exists: bool,
    canonical_parent: Result<Seq<char>, Seq<char>>,
) -> Result<Seq<char>, Seq<char>> {
    match project {
        Err(e) => Err("Failed to canonicalize project path "@ + project_path + ": "@ + e),
        Ok(cp) => {
            let abs = absolute_file(file, cp);
            let located: Result<Seq<char>, Seq<char>> = if file_exists {
                canonical_file
            } else {
                match std_path_parent(abs) {
                    None => Err("Invalid file path: no parent directory"@),
                    Some(parent) => if !parent_exists {
                        Err("Parent directory does not exist: "@ + parent)
                    } else {
                        match canonical_parent {
                            Err(e) => Err(e),
                            Ok(cpar) => match std_path_file_name(abs) {
                                Some(n) => Ok(join_path(cpar, n)),
                                None => Err("Invalid file path: missing filename"@),
                            },
                        }
                    },
                }
            };
            match located {
                Err(e) => Err(e),
                Ok(f) => if std_path_starts_with(f, cp) {
                    Ok(f)
                } else {
                    Err("File path "@ + f + " is outside project directory "@ + cp)
                },
            }
        },
    }
}

/// Decides on a file path from what the file system said (see [`file_path_verdict`]).
pub fn check_file_path(file_path: &str, project_path: &str, probe: FilePathProbe) -> (r: Result<String, String>)
    ensures
        text_result(r) == file_path_verdict(
            file_path@,
            project_path@,
            text_result(probe.project),
            probe.file_exists,
            text_result(probe.file),
            probe.parent_exists,
            text_result(probe.parent),
        ),
{
    let cp = match probe.project {
        Err(e) => {
            return Err(String::from_str("Failed to canonicalize project path ").concat(project_path).concat(
                ": ",
            ).concat(e.as_str()));
        },
        Ok(c) => c,
    };
    let fc = chars_of(file_path);
    let abs = if fc.len() > 0 && fc[0] == '/' {
        string_of(&fc)
    } else {
        join_path_string(cp.as_str(), file_path)
    };
    let located: Result<String, String> = if probe.file_exists {
        probe.file
    } else {
        match path_parent(abs.as_str()) {
            None => Err(String::from_str("Invalid file path: no parent directory")),
            Some(parent) => if !probe.parent_exists {
                Err(String::from_str("Parent directory does not exist: ").concat(parent.as_str()))
            } else {
                match probe.parent {
                    Err(e) => Err(e),
                    Ok(cpar) => match path_file_name(abs.as_str()) {
                        Some(n) => Ok(join_path_string(cpar.as_str(), n.as_str())),
                        None => Err(String::from_str("Invalid file path: missing filename")),
                    },
                }
            },
        }
    };
    match located {
        Err(e) => Err(e),
        Ok(f) => if path_starts_with(f.as_str(), cp.as_str()) {
            Ok(f)
        } else {
            Err(String::from_str("File path ").concat(f.as_str()).concat(" is outside project directory ").concat(
                cp.as_str(),
            ))
        },
    }
}

/// The paths the file system is asked about while a file path is validated, in
/// order: the project path (to canonicalize it); where that succeeded, the file
/// path made absolute (whether it exists); then that path again (to canonicalize
/// it) where it exists, or else its parent directory (whether it exists) and, where
/// it exists, the parent again (to canonicalize it).
pub open spec fn file_path_questions(
    file: Seq<char>,
    project_path: Seq<char>,
    project: Result<Seq<char>, Seq<char>>,
    file_exists: bool,
    parent_exists: bool,
) -> Seq<Seq<char>> {
    match project {
        Err(_) => seq![project_path],
        Ok(cp) => {
            let abs = absolute_file(file, cp);
            if file_exists {
                seq![project_path, abs, abs]
            } else {
                match std_path_parent(abs) {
                    None => seq![project_path, abs],
                    Some(parent) => if parent_exists {
                        seq![project_path, abs, parent, parent]
                    } else {
                        seq![project_path, abs, parent]
                    },
                }
            }
        },
    }
}

/// Asks the file system what [`check_file_path`] needs to know of a file path, and
/// lists the paths it asked about ([`file_path_questions`]). An answer that was not
/// asked for stays "does not exist".
pub fn probe_file_path(file_path: &str, project_path: &str) -> (r: (FilePathProbe, Vec<String>))
    ensures
        r.1@.map_values(|s: String| s@) == file_path_questions(
            file_path@,
            project_path@,
            text_result(r.0.project),
            r.0.file_exists,
            r.0.parent_exists,
        ),
        r.0.project is Err ==> !r.0.file_exists && !r.0.parent_exists,
        r.0.file_exists ==> !r.0.parent_exists,
        r.0.project is Ok ==> is_absolute(r.0.project->Ok_0@),
{
    let (q0, project) = path_canonicalize(project_path);
    let mut asked: Vec<String> = Vec::new();
    asked.push(q0);
    let ghost mut expect: Seq<Seq<char>> = seq![project_path@];
    assert(asked@.map_values(|s: String| s@) =~= expect);
    let mut probe = FilePathProbe {
        project,
        file_exists: false,
        file: Err(String::new()),
        parent_exists: false,
        parent: Err(String::new()),
    };
    if let Ok(cp) = &probe.project {
        let fc = chars_of(file_path);
        let abs = if fc.len() > 0 && fc[0] == '/' {
            string_of(&fc)
        } else {
            join_path_string(cp.as_str(), file_path)
        };
        assert(abs@ == absolute_file(file_path@, cp@));
        let (q1, exists) = path_exists(abs.as_str());
        asked.push(q1);
        proof {
            expect = expect.push(abs@);
        }
        assert(asked@.map_values(|s: String| s@) =~= expect);
        if exists {
            probe.file_exists = true;
            let (q2, file) = path_canonicalize(abs.as_str());
            asked.push(q2);
            proof {
                expect = expect.push(abs@);
            }
            assert(asked@.map_values(|s: String| s@) =~= expect);
            probe.file = file;
        } else if let Some(parent) = path_parent(abs.as_str()) {
            let (q2, pe) = path_exists(parent.as_str());
            asked.push(q2);
            proof {
                expect = expect.push(parent@);
            }
            assert(asked@.map_values(|s: String| s@) =~= expect);
            if pe {
                probe.parent_exists = true;
                let (q3, par) = path_canonicalize(parent.as_str());
                asked.push(q3);
                proof {
                    expect = expect.push(parent@);
                }
                assert(asked@.map_values(|s: String| s@) =~= expect);
                probe.parent = par;
            }
        }
    }
    (probe, asked)
}

/// Validates that a file path lies within the project directory, and returns its
/// canonical form. The file system is asked as far as needed
/// ([`probe_file_path`]); the result is the verdict for what it answered, so an
/// accepted path always lies in the project.
pub fn validate_file_path(file_path: &str, project_path: &str) -> (r: Result<String, String>)
    ensures
        exists|p: Result<Seq<char>, Seq<char>>, fe: bool, f: Result<Seq<char>, Seq<char>>, pe: bool, q: Result<Seq<char>, Seq<char>>|
            text_result(r) == #[trigger] file_path_verdict(file_path@, project_path@, p, fe, f, pe, q),
{
    let (probe, _) = probe_file_path(file_path, project_path);
    check_file_path(file_path, project_path, probe)
}

/// Whether a character may stay in a sanitized file name: alphanumeric, `-`, `_` or `.`.
pub open spec fn allowed_in_file_name(c: char) -> bool {
    unicode_alphanumeric(c) || c == '-' || c == '_' || c == '.'
}

/// The characters of `s` that may stay in a file name, in order.
pub open spec fn keep_allowed(s: Seq<char>) -> Seq<char>
    decreases s.len(),
{
    if s.len() == 0 {
        s
    } else if allowed_in_file_name(s.last()) {
        keep_allowed(s.drop_last()).push(s.last())
    } else {
        keep_allowed(s.drop_last())
    }
}

/// A sanitized file name: the allowed characters, without leading dots.
pub open spec fn sanitized_file_name(s: Seq<char>) -> Seq<char> {
    strip_all_leading(keep_allowed(s), '.')
}

/// Keeps only alphanumeric characters, `-`, `_` and `.`, then removes leading dots.
pub fn sanitize_filename(filename: &str) -> (r: String)
    ensures
        r@ == sanitized_file_name(filename@),
{
    let s = chars_of(filename);
    let mut kept: Vec<char> = Vec::new();
    let mut i: usize = 0;
    assert(s@.take(0) =~= Seq::<char>::empty());
    while i < s.len()
        invariant
            s@ == filename@,
            i <= s@.len(),
            kept@ == keep_allowed(s@.take(i as int)),
        decreases s@.len() - i,
    {
        let c = s[i];
        assert(s@.take(i + 1).drop_last() =~= s@.take(i as int));
        assert(s@.take(i + 1).last() == c);
        if char_is_alphanumeric(c) || c == '-' || c == '_' || c == '.' {
            kept.push(c);
        }
        i = i + 1;
    }
    assert(s@.take(s@.len() as int) =~= s@);
    string_of(&strip_leading_char(&kept, '.'))
}

proof fn lemma_keep_allowed_all_allowed(s: Seq<char>)
    ensures
        forall|i: int| 0 <= i < keep_allowed(s).len() ==> allowed_in_file_name(#[trigger] keep_allowed(s)[i]),
    decreases s.len(),
{
    if s.len() > 0 {
        lemma_keep_allowed_all_allowed(s.drop_last());
        let k = keep_allowed(s.drop_last());
        assert forall|i: int| 0 <= i < keep_allowed(s).len() implies allowed_in_file_name(#[trigger] keep_allowed(s)[i]) by {
            if i < k.len() {
                assert(keep_allowed(s)[i] == k[i]);
            }
        }
    }
}

proof fn lemma_keep_allowed_fixed(s: Seq<char>)
    requires
        forall|i: int| 0 <= i < s.len() ==> allowed_in_file_name(#[trigger] s[i]),
    ensures
        keep_allowed(s) == s,
    decreases s.len(),
{
    if s.len() > 0 {
        lemma_keep_allowed_fixed(s.drop_last());
        assert(s.drop_last().push(s.last()) =~= s);
    }
}

proof fn lemma_strip_leading_props(s: Seq<char>, c: char)
    ensures
        strip_all_leading(s, c).len() > 0 ==> strip_all_leading(s, c)[0] != c,
        forall|i: int| 0 <= i < strip_all_leading(s, c).len() ==> exists|j: int| 0 <= j < s.len() && #[trigger] strip_all_leading(s, c)[i] == s[j],
    decreases s.len(),
{
    if s.len() > 0 && s[0] == c {
        lemma_strip_leading_props(s.drop_first(), c);
        assert forall|i: int| 0 <= i < strip_all_leading(s, c).len() implies exists|j: int| 0 <= j < s.len() && #[trigger] strip_all_leading(s, c)[i] == s[j] by {
            let j = choose|j: int| 0 <= j < s.drop_first().len() && strip_all_leading(s.drop_first(), c)[i] == s.drop_first()[j];
            assert(s[j + 1] == s.drop_first()[j]);
        }
    } else {
        assert forall|i: int| 0 <= i < strip_all_leading(s, c).len() implies exists|j: int| 0 <= j < s.len() && #[trigger] strip_all_leading(s, c)[i] == s[j] by {
            assert(strip_all_leading(s, c)[i] == s[i]);
        }
    }
}

/// A file path is accepted only inside the project: whatever the file system said,
/// an accepted path is the canonical form found for the file, and it starts with
/// the canonical project path.
pub proof fn lemma_accepted_file_in_project(
    file: Seq<char>,
    project_path: Seq<char>,
    project: Result<Seq<char>, Seq<char>>,
    file_exists: bool,
    canonical_file: Result<Seq<char>, Seq<char>>,
    parent_exists: bool,
    canonical_parent: Result<Seq<char>, Seq<char>>,
)
    requires
        file_path_verdict(file, project_path, project, file_exists, canonical_file, parent_exists, canonical_parent) is Ok,
    ensures
        project is Ok,
        std_path_starts_with(
            file_path_verdict(file, project_path, project, file_exists, canonical_file, parent_exists, canonical_parent)->Ok_0,
            project->Ok_0,
        ),
        file_exists ==> canonical_file == file_path_verdict(file, project_path, project, file_exists, canonical_file, parent_exists, canonical_parent),
{
}

/// A sanitized file name holds only allowed characters and does not begin with a dot.
pub proof fn lemma_sanitized_file_name_is_safe(s: Seq<char>)
    ensures
        forall|i: int| 0 <= i < sanitized_file_name(s).len() ==> allowed_in_file_name(#[trigger] sanitized_file_name(s)[i]),
        sanitized_file_name(s).len() > 0 ==> sanitized_file_name(s)[0] != '.',
{
    lemma_keep_allowed_all_allowed(s);
    lemma_strip_leading_props(keep_allowed(s), '.');
    assert forall|i: int| 0 <= i < sanitized_file_name(s).len() implies allowed_in_file_name(#[trigger] sanitized_file_name(s)[i]) by {
        let j = choose|j: int| 0 <= j < keep_allowed(s).len() && sanitized_file_name(s)[i] == keep_allowed(s)[j];
    }
}

/// Sanitizing a sanitized file name changes nothing.
pub proof fn lemma_sanitize_idempotent(s: Seq<char>)
    ensures
        sanitized_file_name(sanitized_file_name(s)) == sanitized_file_name(s),
{
    let t = sanitized_file_name(s);
    lemma_sanitized_file_name_is_safe(s);
    lemma_keep_allowed_fixed(t);
}

/// Whether a character is a control code (general category `Cc`, as
/// `char::is_control` tests): U+0000 to U+001F and U+007F to U+009F.
pub open spec fn is_control(c: char) -> bool {
    (c as u32) <= 0x1F || (0x7F <= (c as u32) && (c as u32) <= 0x9F)
}

/// Whether a path text holds a traversal (`..`), a NUL, or any control character
/// (line feed and carriage return included).
pub open spec fn suspicious(s: Seq<char>) -> bool {
    ||| has_infix(s, seq!['.', '.'])
    ||| s.contains('\0')
    ||| exists|i: int| 0 <= i < s.len() && is_control(#[trigger] s[i])
}

/// Checks a path for traversal sequences, NULs and control characters.
pub fn contains_suspicious_patterns(path: &str) -> (r: bool)
    ensures
        r == suspicious(path@),
{
    let s = chars_of(path);
    let dots = vec!['.', '.'];
    assert(dots@ =~= seq!['.', '.']);
    if contains_chars(&s, &dots) {
        return true;
    }
    if crate::text::contains_char(&s, '\0') {
        return true;
    }
    let mut i: usize = 0;
    while i < s.len()
        invariant
            s@ == path@,
            i <= s@.len(),
            forall|j: int| 0 <= j < i ==> !is_control(#[trigger] s@[j]),
        decreases s@.len() - i,
    {
        let c = s[i];
        let u = c as u32;
        if u <= 0x1F || (0x7F <= u && u <= 0x9F) {
            return true;
        }
        i = i + 1;
    }
    false
}

/// Pattern of a Unix home directory.
pub const HOME_PATTERN: &'static str = "/home/[^/\\s]+";

/// Pattern of a macOS home directory.
pub const USERS_PATTERN: &'static str = "/Users/[^/\\s]+";

/// Pattern of a Windows home directory.
pub const WINDOWS_USERS_PATTERN: &'static str = "C:\\\\Users\\\\[^\\\\\\s]+";

/// A message with user names in home directories masked and `/root/` hidden.
pub open spec fn sanitized_message(m: Seq<char>) -> Seq<char> {
    let a = regex_replaced_all(HOME_PATTERN@, m, "/home/***"@);
    let b = regex_replaced_all(USERS_PATTERN@, a, "/Users/***"@);
    let c = regex_replaced_all(WINDOWS_USERS_PATTERN@, b, "C:\\Users\\***"@);
    replace_all(c, "/root/"@, "/***/"@)
}

/// Masks user names in home directories (Unix, macOS, Windows) and replaces
/// `/root/` with `/***/`.
pub fn sanitize_error_message(error_message: &str) -> (r: String)
    ensures
        r@ == sanitized_message(error_message@),
{
    let a = regex_replace_all(HOME_PATTERN, error_message, "/home/***");
    let b = regex_replace_all(USERS_PATTERN, a.as_str(), "/Users/***");
    let c = regex_replace_all(WINDOWS_USERS_PATTERN, b.as_str(), "C:\\Users\\***");
    let from = chars_of("/root/");
    proof {
        reveal_strlit("/root/");
    }
    string_of(&replace_chars(&chars_of(c.as_str()), &from, &chars_of("/***/")))
}

} // verus!
