//! Version of any project, in a plain version file such as `VERSION`.
use crate::constants::{version_files, version_files_spec};
use crate::engine::project_files::ProjectFiles;
use crate::regex_api::{regex_is_match, regex_matches};
use crate::text::{
    is_white, lead_len, lemma_next_index_of_bounds, lemma_trim_drops_newline, lemma_trim_padded,
    lemma_trim_split, lemma_trim_start_split, lemma_trim_unchanged, append_chars, chars_of,
    contains_chars, find_char_from, has_infix, has_prefix, lemma_next_index_of_shift,
    next_index_of, slice_chars, starts_with, string_of, trail_start, trim, trim_chars,
    trim_end, trim_start, trim_start_chars,
};
use crate::updaters::traits::{
    change_model, changes_model, changes_result, normalized, path_in, plan_model,
    read_file_safe, read_safe, result_text, step_model, unit_result, ChangeModel, FileReads,
    PlanModel, PlanStep, StepModel, UpdatePlan, VersionChange, VersionUpdater,
};
use crate::utils::files::{normalize_line_endings, unix_line_endings};
use vstd::prelude::*;

verus! {

/// What a version looks like at its start: three dot-separated numbers.
pub const GENERIC_VERSION_PATTERN: &'static str = r"^\d+\.\d+\.\d+";

/// The file written when a project has no version file yet.
pub const PREFERRED_VERSION_FILE: &'static str = "VERSION";

/// Whether a text starts like a version.
pub open spec fn looks_like_version(s: Seq<char>) -> bool {
    regex_matches(GENERIC_VERSION_PATTERN@, s)
}

/// Where, in a trimmed line, the version it offers begins: nowhere for a blank
/// or comment line; after a `version=` or `VERSION=` key; after a `Version:` or
/// `version:` label and the white space that follows it; after a `v` prefix; or
/// at the start of the line.
pub open spec fn candidate_start(line: Seq<char>) -> Option<int> {
    if line.len() == 0 || has_prefix(line, "#"@) || has_prefix(line, "//"@) {
        None
    } else if has_prefix(line, "version="@) || has_prefix(line, "VERSION="@) {
        Some(8)
    } else if has_prefix(line, "Version:"@) || has_prefix(line, "version:"@) {
        Some(8 + lead_len(line.subrange(8, line.len() as int)))
    } else if line[0] == 'v' && line.len() > 1 {
        Some(1)
    } else {
        Some(0)
    }
}

/// What a trimmed line offers as a version: the rest of the line from
/// [`candidate_start`] on.
pub open spec fn line_candidate(line: Seq<char>) -> Option<Seq<char>> {
    match candidate_start(line) {
        Some(j) => Some(line.subrange(j, line.len() as int)),
        None => None,
    }
}

/// The version that a trimmed line holds, if it looks like one.
pub open spec fn line_version(line: Seq<char>) -> Option<Seq<char>> {
    match line_candidate(line) {
        Some(v) => if looks_like_version(v) { Some(v) } else { None },
        None => None,
    }
}

/// The first version held by a line of `s` (lines end at `\n`; each is trimmed).
pub open spec fn first_version_in_lines(s: Seq<char>) -> Option<Seq<char>>
    decreases s.len(),
{
    let k = next_index_of(s, '\n', 0);
    if 0 <= k <= s.len() {
        match line_version(trim(s.subrange(0, k))) {
            Some(v) => Some(v),
            None => if k < s.len() {
                first_version_in_lines(s.subrange(k + 1, s.len() as int))
            } else {
                None
            },
        }
    } else {
        None
    }
}

/// The version held by a version file's content.
pub open spec fn generic_parsed(content: Seq<char>) -> Result<Seq<char>, Seq<char>> {
    let c = trim(content);
    if c.len() == 0 {
        Err("Version file is empty"@)
    } else {
        match first_version_in_lines(c) {
            Some(v) => Ok(v),
            None => Err("No valid version found in file content"@),
        }
    }
}

/// `s` with the version of its first version line replaced by `v`: everything
/// before the version (the line's white start and its prefix) and everything
/// after the line's version (its white end and the lines below) stays. `None`
/// where no line holds a version.
pub open spec fn rewrite_lines(s: Seq<char>, v: Seq<char>) -> Option<Seq<char>>
    decreases s.len(),
{
    let k = next_index_of(s, '\n', 0);
    if 0 <= k <= s.len() {
        let line = s.subrange(0, k);
        let t = trim(line);
        match line_version(t) {
            Some(_) => Some(
                line.subrange(0, lead_len(line) + candidate_start(t)->Some_0) + v
                    + s.subrange(trail_start(line), s.len() as int),
            ),
            None => if k < s.len() {
                match rewrite_lines(s.subrange(k + 1, s.len() as int), v) {
                    Some(r) => Some(s.subrange(0, k + 1) + r),
                    None => None,
                }
            } else {
                None
            },
        }
    } else {
        None
    }
}

/// What follows the trimmed content of a file when it is rewritten: its own white
/// end, or a line feed where it has none.
pub open spec fn content_end(o: Seq<char>) -> Seq<char> {
    if trail_start(o) < o.len() {
        o.subrange(trail_start(o), o.len() as int)
    } else {
        "\n"@
    }
}

/// A single line for version `v`, in the style of the former content: a
/// `version=` or `VERSION=` line, a `v` prefix, or the bare version.
pub open spec fn styled_line(v: Seq<char>, original: Option<Seq<char>>) -> Seq<char> {
    match original {
        Some(o) => if has_infix(o, "version="@) {
            "version="@ + v + "\n"@
        } else if has_infix(o, "VERSION="@) {
            "VERSION="@ + v + "\n"@
        } else if trim_start(o).len() > 0 && trim_start(o)[0] == 'v' {
            seq!['v'] + v + "\n"@
        } else {
            v + "\n"@
        },
        None => v + "\n"@,
    }
}

/// The content written for version `v`: the former content with the version of
/// its first version line replaced (every other line, the prefix and the white
/// space kept, and a final line feed added where the content had no white end);
/// where no line held a version, or there was no former content, a single line
/// in the former style.
pub open spec fn generic_content_for(v: Seq<char>, original: Option<Seq<char>>) -> Seq<char> {
    match original {
        Some(o) => match rewrite_lines(trim(o), v) {
            Some(n) => o.subrange(0, lead_len(o)) + n + content_end(o),
            None => styled_line(v, original),
        },
        None => styled_line(v, original),
    }
}

/// The index of the first version file, from `k` on, that is a regular file.
pub open spec fn version_file_from(files: ProjectFiles, k: int) -> Option<int>
    decreases 5 - k,
{
    if k >= 5 || k < 0 {
        None
    } else if files.spec_is_file(version_files_spec()[k]) {
        Some(k)
    } else {
        version_file_from(files, k + 1)
    }
}

/// The name of the project's version file, if it has one.
pub open spec fn found_version_file(files: ProjectFiles) -> Option<Seq<char>> {
    match version_file_from(files, 0) {
        Some(k) => Some(version_files_spec()[k]),
        None => None,
    }
}

/// The file an update writes: the version file, or `VERSION`.
pub open spec fn target_version_file(files: ProjectFiles) -> Seq<char> {
    match found_version_file(files) {
        Some(n) => n,
        None => PREFERRED_VERSION_FILE@,
    }
}

/// The message when no version file is found.
pub open spec fn generic_no_file() -> Seq<char> {
    "No version file found. Looked for: [\"VERSION\", \"version.txt\", \".version\", \"version\", \"VERSION.txt\"]"@
}

/// The current version of a project with a version file.
pub open spec fn generic_current_version(files: ProjectFiles, reads: FileReads) -> Result<Seq<char>, Seq<char>> {
    match found_version_file(files) {
        None => Err(generic_no_file()),
        Some(n) => match read_safe(files, reads, n) {
            Err(e) => Err(e),
            Ok(c) => generic_parsed(c),
        },
    }
}

/// The update of a project to `v`: the target file is backed up and read where it
/// exists, and written in its former style.
pub open spec fn generic_update_plan(files: ProjectFiles, reads: FileReads, v: Seq<char>) -> PlanModel {
    let name = target_version_file(files);
    let p = path_in(files, name);
    if files.spec_exists(name) {
        let s0 = seq![StepModel::Backup(p)];
        match read_safe(files, reads, name) {
            Err(e) => (s0, Err(e)),
            Ok(o) => (s0.push(StepModel::Write(p, normalized(generic_content_for(v, Some(o))))), Ok(seq![p])),
        }
    } else {
        (seq![StepModel::Write(p, normalized(generic_content_for(v, None)))], Ok(seq![p]))
    }
}

/// The outcome of checking a project's version file, where it has one.
pub open spec fn generic_validation(files: ProjectFiles, reads: FileReads) -> Result<(), Seq<char>> {
    match found_version_file(files) {
        None => Ok(()),
        Some(n) => match read_safe(files, reads, n) {
            Err(e) => Err(e),
            Ok(c) => match generic_parsed(c) {
                Err(e) => Err(e),
                Ok(_) => Ok(()),
            },
        },
    }
}

/// The change that setting a project's version to `v` would make.
pub open spec fn generic_preview(files: ProjectFiles, reads: FileReads, v: Seq<char>) -> Result<Seq<ChangeModel>, Seq<char>> {
    let name = target_version_file(files);
    let old = if files.spec_exists(name) { read_safe(files, reads, name) } else { Ok(Seq::empty()) };
    match old {
        Err(e) => Err(e),
        Ok(o) => {
            let ov = if files.spec_exists(name) {
                match generic_current_version(files, reads) {
                    Ok(x) => x,
                    Err(_) => "0.0.0"@,
                }
            } else {
                "0.0.0"@
            };
            let new = generic_content_for(v, if o.len() == 0 { None } else { Some(o) });
            Ok(seq![(path_in(files, name), o, new, ov, v)])
        },
    }
}

/// Where the version of a trimmed line begins ([`candidate_start`]).
fn candidate_start_of(line: &Vec<char>) -> (r: Option<usize>)
    ensures
        match r {
            Some(j) => candidate_start(line@) == Some(j as int) && j <= line@.len(),
            None => candidate_start(line@) is None,
        },
{
    proof {
        reveal_strlit("version=");
        reveal_strlit("VERSION=");
        reveal_strlit("Version:");
        reveal_strlit("version:");
    }
    if line.len() == 0 || starts_with(line, &chars_of("#")) || starts_with(line, &chars_of("//")) {
        None
    } else if starts_with(line, &chars_of("version=")) || starts_with(line, &chars_of("VERSION=")) {
        Some(8)
    } else if starts_with(line, &chars_of("Version:")) || starts_with(line, &chars_of("version:")) {
        let rest = slice_chars(line, 8, line.len());
        let t = trim_start_chars(&rest);
        proof {
            lemma_trim_start_split(rest@);
        }
        Some(8 + (rest.len() - t.len()))
    } else if line[0] == 'v' && line.len() > 1 {
        Some(1)
    } else {
        Some(0)
    }
}

/// Reads and writes plain version files.
pub struct GenericUpdater {
    version_files: Vec<String>,
}

impl GenericUpdater {
    /// The updater knows the version file names in the order they are looked for.
    #[verifier::type_invariant]
    spec fn spec_valid(&self) -> bool {
        self.version_files@.map_values(|s: String| s@) == version_files_spec()
    }

    /// The version file names the updater looks for, in order.
    pub closed spec fn file_names(&self) -> Seq<Seq<char>> {
        self.version_files@.map_values(|s: String| s@)
    }

    /// An updater that looks for the names of [`version_files_spec`], in order.
    pub fn new() -> (r: Self)
        ensures
            r.file_names() == version_files_spec(),
    {
        GenericUpdater { version_files: version_files() }
    }

    /// The name of the first version file that is a regular file.
    pub fn find_version_file(&self, files: &ProjectFiles) -> (r: Option<String>)
        ensures
            match r {
                Some(n) => found_version_file(*files) == Some(n@),
                None => found_version_file(*files) is None,
            },
    {
        proof {
            use_type_invariant(self);
            assert(version_files_spec().len() == 5);
            assert(self.version_files@.map_values(|s: String| s@).len() == self.version_files@.len());
        }
        let mut k: usize = 0;
        while k < self.version_files.len()
            invariant
                self.version_files@.map_values(|s: String| s@) == version_files_spec(),
                self.version_files@.len() == 5,
                k <= 5,
                version_file_from(*files, k as int) == version_file_from(*files, 0),
            decreases 5 - k,
        {
            let name = &self.version_files[k];
            assert(name@ == version_files_spec()[k as int]);
            if files.is_file(name.as_str()) {
                return Some(string_of(&chars_of(name.as_str())));
            }
            k = k + 1;
        }
        None
    }

    /// Whether a text starts like a version.
    pub fn looks_like_version(&self, s: &str) -> (r: bool)
        ensures
            r == looks_like_version(s@),
    {
        regex_is_match(GENERIC_VERSION_PATTERN, s)
    }

    /// Where the version of a trimmed line begins, if the line holds one.
    fn version_start(&self, line: &Vec<char>) -> (r: Option<usize>)
        ensures
            match r {
                Some(j) => line_version(line@) is Some && candidate_start(line@) == Some(j as int)
                    && j <= line@.len(),
                None => line_version(line@) is None,
            },
    {
        let j = match candidate_start_of(line) {
            Some(j) => j,
            None => return None,
        };
        let v = string_of(&slice_chars(line, j, line.len()));
        if self.looks_like_version(v.as_str()) {
            Some(j)
        } else {
            None
        }
    }

    /// The version that a trimmed line holds, if it looks like one.
    fn line_version(&self, line: &Vec<char>) -> (r: Option<String>)
        ensures
            match r {
                Some(v) => line_version(line@) == Some(v@),
                None => line_version(line@) is None,
            },
    {
        match self.version_start(line) {
            Some(j) => Some(string_of(&slice_chars(line, j, line.len()))),
            None => None,
        }
    }

    /// `c` with the version of its first version line replaced by `version`.
    fn rewrite_first_version(&self, c: &Vec<char>, version: &Vec<char>) -> (r: Option<Vec<char>>)
        ensures
            match r {
                Some(n) => rewrite_lines(c@, version@) == Some(n@),
                None => rewrite_lines(c@, version@) is None,
            },
    {
        let n = c.len();
        let mut i: usize = 0;
        proof {
            assert(c@.subrange(0, n as int) =~= c@);
            if let Some(r) = rewrite_lines(c@, version@) {
                assert(c@.subrange(0, 0) + r =~= r);
            }
        }
        loop
            invariant
                n == c@.len(),
                i <= n,
                match rewrite_lines(c@.subrange(i as int, n as int), version@) {
                    Some(r) => rewrite_lines(c@, version@) == Some(c@.subrange(0, i as int) + r),
                    None => rewrite_lines(c@, version@) is None,
                },
            decreases n - i,
        {
            let ghost rest = c@.subrange(i as int, n as int);
            let k = find_char_from(c, '\n', i);
            proof {
                lemma_next_index_of_shift(c@, '\n', i as int, i as int);
                assert(rest.subrange(0, k - i) =~= c@.subrange(i as int, k as int));
            }
            let line = slice_chars(c, i, k);
            let t = trim_chars(&line);
            if let Some(j) = self.version_start(&t) {
                proof {
                    lemma_trim_split(line@);
                }
                let lead = line.len() - trim_start_chars(&line).len();
                let b = lead + t.len();
                let mut out = slice_chars(c, 0, i + lead + j);
                append_chars(&mut out, version);
                let after = slice_chars(c, i + b, n);
                append_chars(&mut out, &after);
                proof {
                    let r = line@.subrange(0, lead + j) + version@ + rest.subrange(b as int, rest.len() as int);
                    assert(rewrite_lines(rest, version@) == Some(r));
                    assert(c@.subrange(0, i as int) + r =~= out@);
                }
                return Some(out);
            }
            if k >= n {
                return None;
            }
            proof {
                assert(rest.subrange(k - i + 1, rest.len() as int) =~= c@.subrange(k + 1, n as int));
                if let Some(r) = rewrite_lines(c@.subrange(k + 1, n as int), version@) {
                    assert(c@.subrange(0, i as int) + (rest.subrange(0, k - i + 1) + r) =~= c@.subrange(0, k + 1) + r);
                }
            }
            i = k + 1;
        }
    }

    /// The version held by a version file's content: the first line, trimmed and
    /// without a `version=` or `VERSION=` key, a `Version:` or `version:` label, or
    /// a `v` prefix, that looks like a version.
    pub fn parse_version_content(&self, content: &str) -> (r: Result<String, String>)
        ensures
            result_text(r) == generic_parsed(content@),
    {
        let c = trim_chars(&chars_of(content));
        if c.len() == 0 {
            return Err(String::from_str("Version file is empty"));
        }
        let n = c.len();
        let mut i: usize = 0;
        assert(c@.subrange(0, n as int) =~= c@);
        loop
            invariant
                n == c@.len(),
                n > 0,
                c@ == trim(content@),
                i <= n,
                first_version_in_lines(c@.subrange(i as int, n as int)) == first_version_in_lines(c@),
            decreases n - i,
        {
            let ghost rest = c@.subrange(i as int, n as int);
            let k = find_char_from(&c, '\n', i);
            proof {
                lemma_next_index_of_shift(c@, '\n', i as int, i as int);
                assert(rest.subrange(0, k - i) =~= c@.subrange(i as int, k as int));
            }
            let line = trim_chars(&slice_chars(&c, i, k));
            if let Some(v) = self.line_version(&line) {
                return Ok(v);
            }
            if k >= n {
                return Err(String::from_str("No valid version found in file content"));
            }
            assert(rest.subrange(k - i + 1, rest.len() as int) =~= c@.subrange(k + 1, n as int));
            i = k + 1;
        }
    }

    /// The content to write for `version`: the former content with the version of
    /// its first version line replaced, or a single line in the former style.
    pub fn create_version_content(&self, version: &str, original_content: Option<&str>) -> (r: String)
        ensures
            r@ == generic_content_for(version@, match original_content { Some(o) => Some(o@), None => None }),
    {
        if let Some(original) = original_content {
            let o = chars_of(original);
            let t = trim_chars(&o);
            if let Some(body) = self.rewrite_first_version(&t, &chars_of(version)) {
                proof {
                    lemma_trim_split(o@);
                }
                let lead = o.len() - trim_start_chars(&o).len();
                let b = lead + t.len();
                let mut out = slice_chars(&o, 0, lead);
                append_chars(&mut out, &body);
                if b < o.len() {
                    append_chars(&mut out, &slice_chars(&o, b, o.len()));
                } else {
                    append_chars(&mut out, &chars_of("\n"));
                }
                return string_of(&out);
            }
        }
        self.styled_line(version, original_content)
    }

    /// A single line for `version` in the style of the former content: a
    /// `version=` or `VERSION=` line, a `v` prefix, or the bare version.
    fn styled_line(&self, version: &str, original_content: Option<&str>) -> (r: String)
        ensures
            r@ == styled_line(version@, match original_content { Some(o) => Some(o@), None => None }),
    {
        match original_content {
            Some(original) => {
                let o = chars_of(original);
                if contains_chars(&o, &chars_of("version=")) {
                    String::from_str("version=").concat(version).concat("\n")
                } else if contains_chars(&o, &chars_of("VERSION=")) {
                    String::from_str("VERSION=").concat(version).concat("\n")
                } else {
                    let t = trim_start_chars(&o);
                    if t.len() > 0 && t[0] == 'v' {
                        let mut out = vec!['v'];
                        append_chars(&mut out, &chars_of(version));
                        assert(out@ =~= seq!['v'] + version@);
                        string_of(&out).concat("\n")
                    } else {
                        String::from_str(version).concat("\n")
                    }
                }
            },
            None => String::from_str(version).concat("\n"),
        }
    }

    /// The file written when a project has no version file.
    pub fn get_preferred_filename(&self) -> (r: &'static str)
        ensures
            r@ == PREFERRED_VERSION_FILE@,
    {
        PREFERRED_VERSION_FILE
    }

    /// The name of the file an update writes.
    fn target_file(&self, files: &ProjectFiles) -> (r: String)
        ensures
            r@ == target_version_file(*files),
    {
        match self.find_version_file(files) {
            Some(n) => n,
            None => String::from_str(PREFERRED_VERSION_FILE),
        }
    }
}

/// Without a line feed, the first line is the whole text.
proof fn lemma_no_newline(x: Seq<char>, j: int)
    requires
        0 <= j <= x.len(),
        !x.contains('\n'),
    ensures
        next_index_of(x, '\n', j) == x.len(),
    decreases x.len() - j,
{
    if j < x.len() {
        assert(x[j] != '\n') by {
            if x[j] == '\n' {
                assert(x.contains('\n'));
            }
        }
        lemma_no_newline(x, j + 1);
    }
}

/// The version read from `prefix + v` written on one line.
proof fn lemma_first_line_is_version(x: Seq<char>, v: Seq<char>)
    requires
        x.len() > 0,
        !x.contains('\n'),
        !is_white(x[0]),
        !is_white(x.last()),
        line_version(x) == Some(v),
    ensures
        generic_parsed(x + seq!['\n']) == Ok::<Seq<char>, Seq<char>>(v),
{
    lemma_trim_drops_newline(x);
    lemma_no_newline(x, 0);
    lemma_trim_unchanged(x);
    assert(x.subrange(0, x.len() as int) =~= x);
}

/// A version that reads back as itself wherever it is written: alone on a line,
/// after a `v`, after a key or after a label. It looks like a version, has no
/// white space at its ends and no line feed, and does not itself begin like a
/// comment, a key, a label or a `v` prefix, nor like the rest of `version=` or
/// `version:` (which a `v` before it would complete).
pub open spec fn stands_alone(v: Seq<char>) -> bool {
    &&& v.len() > 0
    &&& !is_white(v[0])
    &&& !is_white(v.last())
    &&& !v.contains('\n')
    &&& looks_like_version(v)
    &&& !has_prefix(v, "#"@)
    &&& !has_prefix(v, "//"@)
    &&& !has_prefix(v, "VERSION="@)
    &&& !has_prefix(v, "Version:"@)
    &&& !has_prefix(v, "ersion="@)
    &&& !has_prefix(v, "ersion:"@)
    &&& !(v[0] == 'v' && v.len() > 1)
}

/// Alone on a line, such a version is read from its first character.
proof fn lemma_bare_candidate(v: Seq<char>)
    requires
        stands_alone(v),
    ensures
        candidate_start(v) == Some(0int),
{
    reveal_strlit("version=");
    reveal_strlit("version:");
    assert(!has_prefix(v, "version="@)) by {
        if has_prefix(v, "version="@) {
            assert(v.subrange(0, 8)[0] == v[0]);
        }
    }
    assert(!has_prefix(v, "version:"@)) by {
        if has_prefix(v, "version:"@) {
            assert(v.subrange(0, 8)[0] == v[0]);
        }
    }
}

/// After a `v`, such a version is read from the second character.
proof fn lemma_v_candidate(v: Seq<char>)
    requires
        stands_alone(v),
    ensures
        candidate_start(seq!['v'] + v) == Some(1int),
{
    reveal_strlit("#");
    reveal_strlit("//");
    reveal_strlit("version=");
    reveal_strlit("VERSION=");
    reveal_strlit("Version:");
    reveal_strlit("version:");
    reveal_strlit("ersion=");
    reveal_strlit("ersion:");
    let u = seq!['v'] + v;
    assert(u[0] == 'v');
    assert(!has_prefix(u, "#"@)) by {
        if has_prefix(u, "#"@) {
            assert(u.subrange(0, 1)[0] == u[0]);
        }
    }
    assert(!has_prefix(u, "//"@)) by {
        if has_prefix(u, "//"@) {
            assert(u.subrange(0, 2)[0] == u[0]);
        }
    }
    assert(!has_prefix(u, "version="@)) by {
        if has_prefix(u, "version="@) {
            assert(v.subrange(0, 7) =~= u.subrange(0, 8).subrange(1, 8));
            assert("version="@.subrange(1, 8) =~= "ersion="@);
        }
    }
    assert(!has_prefix(u, "VERSION="@)) by {
        if has_prefix(u, "VERSION="@) {
            assert(u.subrange(0, 8)[0] == u[0]);
        }
    }
    assert(!has_prefix(u, "Version:"@)) by {
        if has_prefix(u, "Version:"@) {
            assert(u.subrange(0, 8)[0] == u[0]);
        }
    }
    assert(!has_prefix(u, "version:"@)) by {
        if has_prefix(u, "version:"@) {
            assert(v.subrange(0, 7) =~= u.subrange(0, 8).subrange(1, 8));
            assert("version:"@.subrange(1, 8) =~= "ersion:"@);
        }
    }
}

/// After a `version=` or `VERSION=` key, a version is read from the ninth character.
proof fn lemma_key_candidate(key: Seq<char>, v: Seq<char>)
    requires
        key == "version="@ || key == "VERSION="@,
    ensures
        candidate_start(key + v) == Some(8int),
{
    reveal_strlit("#");
    reveal_strlit("//");
    reveal_strlit("version=");
    reveal_strlit("VERSION=");
    let u = key + v;
    assert(u.subrange(0, 8) =~= key);
    assert(u[0] == key[0]);
    assert(!has_prefix(u, "#"@)) by {
        if has_prefix(u, "#"@) {
            assert(u.subrange(0, 1)[0] == u[0]);
        }
    }
    assert(!has_prefix(u, "//"@)) by {
        if has_prefix(u, "//"@) {
            assert(u.subrange(0, 2)[0] == u[0]);
        }
    }
}

/// White space before a text whose first character is not white is trimmed away.
proof fn lemma_trim_start_padded(w: Seq<char>, x: Seq<char>)
    requires
        forall|i: int| 0 <= i < w.len() ==> is_white(#[trigger] w[i]),
        x.len() > 0,
        !is_white(x[0]),
    ensures
        trim_start(w + x) == x,
    decreases w.len(),
{
    if w.len() > 0 {
        assert((w + x)[0] == w[0]);
        assert((w + x).drop_first() =~= w.drop_first() + x);
        assert forall|i: int| 0 <= i < w.drop_first().len() implies is_white(#[trigger] w.drop_first()[i]) by {
            assert(w.drop_first()[i] == w[i + 1]);
        }
        lemma_trim_start_padded(w.drop_first(), x);
    } else {
        assert(w + x =~= x);
    }
}

/// Replacing what follows the start of a trimmed line's version keeps that start.
proof fn lemma_candidate_kept(t: Seq<char>, v: Seq<char>)
    requires
        candidate_start(t) is Some,
        stands_alone(v),
    ensures
        0 <= candidate_start(t)->Some_0 <= t.len(),
        candidate_start(t)->Some_0 > 0 ==> t.len() > 0,
        candidate_start(t.subrange(0, candidate_start(t)->Some_0) + v) == candidate_start(t),
{
    reveal_strlit("#");
    reveal_strlit("//");
    reveal_strlit("version=");
    reveal_strlit("VERSION=");
    reveal_strlit("Version:");
    reveal_strlit("version:");
    let j = candidate_start(t)->Some_0;
    let u = t.subrange(0, j) + v;
    if has_prefix(t, "version="@) || has_prefix(t, "VERSION="@) {
        let key = t.subrange(0, 8);
        assert(u =~= key + v);
        lemma_key_candidate(key, v);
    } else if has_prefix(t, "Version:"@) || has_prefix(t, "version:"@) {
        let rest = t.subrange(8, t.len() as int);
        lemma_trim_start_split(rest);
        let w = rest.subrange(0, lead_len(rest));
        assert(u.subrange(0, 8) =~= t.subrange(0, 8));
        assert(u[0] == t[0]);
        assert(!has_prefix(u, "#"@)) by {
            if has_prefix(u, "#"@) {
                assert(u.subrange(0, 1)[0] == u[0]);
                assert(t.subrange(0, 1)[0] == t[0]);
            }
        }
        assert(!has_prefix(u, "//"@)) by {
            if has_prefix(u, "//"@) {
                assert(u.subrange(0, 2) =~= t.subrange(0, 2));
            }
        }
        assert(!has_prefix(u, "version="@));
        assert(!has_prefix(u, "VERSION="@));
        assert(u.subrange(8, u.len() as int) =~= w + v);
        assert forall|i: int| 0 <= i < w.len() implies is_white(#[trigger] w[i]) by {
            assert(w[i] == rest[i]);
        }
        lemma_trim_start_padded(w, v);
    } else if t[0] == 'v' && t.len() > 1 {
        assert(u =~= seq!['v'] + v);
        lemma_v_candidate(v);
    } else {
        assert(u =~= v);
        lemma_bare_candidate(v);
    }
}

/// The first line feed at or after `i` is also the first at or after any later
/// index up to it.
proof fn lemma_next_same(s: Seq<char>, c: char, i: int, j: int)
    requires
        0 <= i <= j <= next_index_of(s, c, i),
    ensures
        next_index_of(s, c, j) == next_index_of(s, c, i),
    decreases j - i,
{
    if i < j {
        lemma_next_same(s, c, i + 1, j);
    }
}

/// Without a line feed in `p`, the first line feed of `p + q` is the first of `q`,
/// moved by the length of `p`.
pub(crate) proof fn lemma_next_after(p: Seq<char>, q: Seq<char>, i: int)
    requires
        0 <= i <= p.len(),
        !p.contains('\n'),
    ensures
        next_index_of(p + q, '\n', i) == p.len() + next_index_of(q, '\n', 0),
    decreases p.len() - i,
{
    let s = p + q;
    if i < p.len() {
        assert(s[i] == p[i]);
        assert(p[i] != '\n') by {
            if p[i] == '\n' {
                assert(p.contains('\n'));
            }
        }
        lemma_next_after(p, q, i + 1);
    } else {
        lemma_next_index_of_shift(s, '\n', i, i);
        assert(s.subrange(i, s.len() as int) =~= q);
    }
}

/// Rewriting the first version line of `s` gives a text whose first version is
/// `v`; the text is not empty and keeps the non-white ends of `s`.
proof fn lemma_rewrite_reads_back(s: Seq<char>, v: Seq<char>)
    requires
        rewrite_lines(s, v) is Some,
        stands_alone(v),
    ensures
        s.len() > 0,
        rewrite_lines(s, v)->Some_0.len() > 0,
        first_version_in_lines(rewrite_lines(s, v)->Some_0) == Some(v),
        !is_white(s[0]) ==> !is_white(rewrite_lines(s, v)->Some_0[0]),
        !is_white(s.last()) ==> !is_white(rewrite_lines(s, v)->Some_0.last()),
    decreases s.len(),
{
    let k = next_index_of(s, '\n', 0);
    lemma_next_index_of_bounds(s, '\n', 0);
    let line = s.subrange(0, k);
    let t = trim(line);
    let n = rewrite_lines(s, v)->Some_0;
    lemma_trim_split(line);
    if s.len() == 0 {
        assert(line.len() == 0);
        assert(t.len() == 0);
        assert(candidate_start(t) is None);
        assert(false);
    }
    if line_version(t) is Some {
        let j = candidate_start(t)->Some_0;
        lemma_candidate_kept(t, v);
        let a = lead_len(line);
        let b = trail_start(line);
        let p = line.subrange(0, a + j) + v;
        let q = s.subrange(b, s.len() as int);
        assert(n == p + q);
        assert(!p.contains('\n')) by {
            if p.contains('\n') {
                let i = choose|i: int| 0 <= i < p.len() && p[i] == '\n';
                if i < a + j {
                    assert(p[i] == s[i]);
                } else {
                    assert(v[i - a - j] == p[i]);
                    assert(v.contains('\n'));
                }
            }
        }
        lemma_next_after(p, q, 0);
        lemma_next_index_of_shift(s, '\n', b, b);
        lemma_next_same(s, '\n', 0, b);
        let k2 = p.len() + k - b;
        let x = t.subrange(0, j) + v;
        let w1 = line.subrange(0, a);
        let w2 = line.subrange(b, k);
        assert(n.subrange(0, k2) =~= w1 + x + w2);
        assert forall|i: int| 0 <= i < w1.len() implies is_white(#[trigger] w1[i]) by {
            assert(w1[i] == line[i]);
        }
        assert forall|i: int| 0 <= i < w2.len() implies is_white(#[trigger] w2[i]) by {
            assert(w2[i] == line[b + i]);
        }
        assert(x[0] == if j > 0 { t[0] } else { v[0] });
        assert(x.last() == v.last());
        lemma_trim_padded(w1, x, w2);
        assert(x.subrange(j, x.len() as int) =~= v);
        assert(line_version(x) == Some(v));
        if a + j > 0 {
            assert(n[0] == s[0]);
        } else {
            assert(n[0] == v[0]);
        }
        if q.len() > 0 {
            assert(n.last() == s.last());
        } else {
            assert(n.last() == v.last());
        }
    } else {
        let s2 = s.subrange(k + 1, s.len() as int);
        lemma_rewrite_reads_back(s2, v);
        let r = rewrite_lines(s2, v)->Some_0;
        assert(n == s.subrange(0, k + 1) + r);
        let p = s.subrange(0, k);
        assert(!p.contains('\n')) by {
            if p.contains('\n') {
                let i = choose|i: int| 0 <= i < p.len() && p[i] == '\n';
                assert(p[i] == s[i]);
            }
        }
        assert(n =~= p + (seq!['\n'] + r));
        lemma_next_after(p, seq!['\n'] + r, 0);
        assert(n.subrange(0, k) =~= line);
        assert(n.subrange(k + 1, n.len() as int) =~= r);
        assert(n[0] == s[0]);
        assert(n.last() == r.last());
        assert(s2.last() == s.last());
    }
}

/// A single styled line for such a version reads back as the version.
proof fn lemma_styled_round_trip(v: Seq<char>, original: Option<Seq<char>>)
    requires
        stands_alone(v),
    ensures
        generic_parsed(styled_line(v, original)) == Ok::<Seq<char>, Seq<char>>(v),
{
    reveal_strlit("version=");
    reveal_strlit("VERSION=");
    reveal_strlit("\n");
    let p: Seq<char> = match original {
        Some(o) => if has_infix(o, "version="@) {
            "version="@
        } else if has_infix(o, "VERSION="@) {
            "VERSION="@
        } else if trim_start(o).len() > 0 && trim_start(o)[0] == 'v' {
            seq!['v']
        } else {
            Seq::empty()
        },
        None => Seq::empty(),
    };
    let x = p + v;
    assert(styled_line(v, original) == x + seq!['\n']) by {
        assert(p + v + "\n"@ =~= x + seq!['\n']);
    }
    assert(!x.contains('\n')) by {
        if x.contains('\n') {
            let i = choose|i: int| 0 <= i < x.len() && x[i] == '\n';
            assert(v[i - p.len()] == '\n');
            assert(v.contains('\n'));
        }
    }
    assert(x.last() == v.last());
    if p.len() == 0 {
        assert(x =~= v);
        lemma_bare_candidate(v);
    } else if p == seq!['v'] {
        lemma_v_candidate(v);
    } else {
        lemma_key_candidate(p, v);
    }
    assert(x[0] == if p.len() > 0 { p[0] } else { v[0] });
    assert(x.subrange(p.len() as int, x.len() as int) =~= v);
    lemma_first_line_is_version(x, v);
}

/// A version file written for a version reads back as that version, whatever the
/// file held before: the version of its first version line is replaced, or, where
/// no line held one, the version is written on one line in the former style, and
/// reading takes the first version line again. It holds for a version that
/// [`stands_alone`].
pub proof fn lemma_generic_round_trip(v: Seq<char>, original: Option<Seq<char>>)
    requires
        stands_alone(v),
    ensures
        generic_parsed(generic_content_for(v, original)) == Ok::<Seq<char>, Seq<char>>(v),
{
    lemma_styled_round_trip(v, original);
    if let Some(o) = original {
        if let Some(n) = rewrite_lines(trim(o), v) {
            let s = trim(o);
            lemma_trim_split(o);
            lemma_rewrite_reads_back(s, v);
            let w1 = o.subrange(0, lead_len(o));
            let w2 = content_end(o);
            reveal_strlit("\n");
            assert forall|i: int| 0 <= i < w1.len() implies is_white(#[trigger] w1[i]) by {
                assert(w1[i] == o[i]);
            }
            assert forall|i: int| 0 <= i < w2.len() implies is_white(#[trigger] w2[i]) by {
                if trail_start(o) < o.len() {
                    assert(w2[i] == o[trail_start(o) + i]);
                } else {
                    assert(w2[i] == '\n');
                }
            }
            lemma_trim_padded(w1, n, w2);
        }
    }
}

/// The carriage returns that end a text, dropped.
spec fn drop_end_returns(p: Seq<char>) -> Seq<char>
    decreases p.len(),
{
    if p.len() == 0 {
        p
    } else {
        let r = drop_end_returns(p.drop_first());
        if p[0] == '\r' && r.len() == 0 {
            r
        } else {
            seq![p[0]] + r
        }
    }
}

/// A text without its ending carriage returns is a prefix of it, followed there
/// only by carriage returns.
proof fn lemma_drop_end_returns(p: Seq<char>)
    ensures
        drop_end_returns(p).len() <= p.len(),
        drop_end_returns(p) == p.subrange(0, drop_end_returns(p).len() as int),
        forall|i: int| drop_end_returns(p).len() <= i < p.len() ==> p[i] == '\r',
    decreases p.len(),
{
    if p.len() > 0 {
        let t = p.drop_first();
        lemma_drop_end_returns(t);
        let r = drop_end_returns(t);
        if p[0] == '\r' && r.len() == 0 {
            assert forall|i: int| 0 <= i < p.len() implies p[i] == '\r' by {
                if i > 0 {
                    assert(p[i] == t[i - 1]);
                }
            }
            assert(p.subrange(0, 0) =~= r);
        } else {
            assert(seq![p[0]] + r =~= p.subrange(0, r.len() as int + 1)) by {
                assert(r == t.subrange(0, r.len() as int));
            }
            assert forall|i: int| r.len() + 1 <= i < p.len() implies p[i] == '\r' by {
                assert(p[i] == t[i - 1]);
            }
        }
    }
}

/// Without a line feed in `p`, Unix line endings for `p + q` are those of `q`
/// after `p`, whose ending carriage returns go where `q` then begins with a line
/// feed.
proof fn lemma_unix_append(p: Seq<char>, q: Seq<char>)
    requires
        !p.contains('\n'),
    ensures
        unix_line_endings(p + q) == (if unix_line_endings(q).len() > 0 && unix_line_endings(q)[0] == '\n' {
            drop_end_returns(p)
        } else {
            p
        }) + unix_line_endings(q),
    decreases p.len(),
{
    let u = unix_line_endings(q);
    let nl = u.len() > 0 && u[0] == '\n';
    if p.len() == 0 {
        assert(p + q =~= q);
        assert(p + u =~= u);
    } else {
        let t = p.drop_first();
        assert(!t.contains('\n')) by {
            if t.contains('\n') {
                let i = choose|i: int| 0 <= i < t.len() && t[i] == '\n';
                assert(p[i + 1] == t[i]);
            }
        }
        lemma_unix_append(t, q);
        assert((p + q).drop_first() =~= t + q);
        assert((p + q)[0] == p[0]);
        let r = unix_line_endings(t + q);
        let x = if nl { drop_end_returns(t) } else { t };
        assert(r == x + u);
        lemma_drop_end_returns(t);
        if x.len() > 0 {
            assert(r[0] == x[0]);
            assert(x[0] == t[0]);
            assert(t[0] != '\n') by {
                if t[0] == '\n' {
                    assert(t.contains('\n'));
                }
            }
        } else {
            assert(r =~= u);
        }
        if nl && p[0] == '\r' && x.len() == 0 {
            assert(drop_end_returns(p) == x);
            assert(x + u =~= u);
        } else {
            assert(unix_line_endings(p + q) == seq![p[0]] + r);
            if nl {
                assert(drop_end_returns(p) == seq![p[0]] + x);
            } else {
                assert(seq![p[0]] + t =~= p);
            }
            assert(seq![p[0]] + (x + u) =~= (seq![p[0]] + x) + u);
        }
    }
}

/// Whether every character of a text is white space.
spec fn all_white(x: Seq<char>) -> bool {
    forall|i: int| 0 <= i < x.len() ==> is_white(#[trigger] x[i])
}

/// A text trims to nothing exactly where it is all white space.
proof fn lemma_trim_empty(x: Seq<char>)
    ensures
        trim(x).len() == 0 <==> all_white(x),
{
    lemma_trim_split(x);
    if trim(x).len() > 0 {
        assert(trim(x)[0] == x[lead_len(x)]);
    } else {
        assert forall|i: int| 0 <= i < x.len() implies is_white(#[trigger] x[i]) by {
            if i >= lead_len(x) {
                assert(i >= trail_start(x));
            }
        }
    }
}

/// White space after a text does not change it trimmed.
proof fn lemma_trim_white_end(s: Seq<char>, w: Seq<char>)
    requires
        all_white(w),
    ensures
        trim(s + w) == trim(s),
{
    lemma_trim_split(s);
    let t = trim(s);
    if t.len() > 0 {
        let w1 = s.subrange(0, lead_len(s));
        let w2 = s.subrange(trail_start(s), s.len() as int) + w;
        assert(s + w =~= w1 + t + w2);
        assert forall|i: int| 0 <= i < w1.len() implies is_white(#[trigger] w1[i]) by {
            assert(w1[i] == s[i]);
        }
        assert forall|i: int| 0 <= i < w2.len() implies is_white(#[trigger] w2[i]) by {
            if i < s.len() - trail_start(s) {
                assert(w2[i] == s[trail_start(s) + i]);
            } else {
                assert(w2[i] == w[i - (s.len() - trail_start(s))]);
            }
        }
        lemma_trim_padded(w1, t, w2);
    } else {
        lemma_trim_empty(s);
        assert forall|i: int| 0 <= i < (s + w).len() implies is_white(#[trigger] (s + w)[i]) by {
            if i < s.len() {
                assert((s + w)[i] == s[i]);
            } else {
                assert((s + w)[i] == w[i - s.len()]);
            }
        }
        lemma_trim_empty(s + w);
    }
}

/// The first line feed of `s` is at `k` when none comes before and one is there.
proof fn lemma_next_is(s: Seq<char>, k: int)
    requires
        0 <= k <= s.len(),
        forall|j: int| 0 <= j < k ==> s[j] != '\n',
        k < s.len() ==> s[k] == '\n',
    ensures
        next_index_of(s, '\n', 0) == k,
{
    lemma_next_index_of_bounds(s, '\n', 0);
    let n = next_index_of(s, '\n', 0);
    if n < k {
        assert(s[n] == '\n');
    }
    if n > k {
        assert(s[k] != '\n');
    }
}

/// Making a text's line endings Unix does not change its first version.
proof fn lemma_unix_first_version(s: Seq<char>)
    ensures
        first_version_in_lines(unix_line_endings(s)) == first_version_in_lines(s),
    decreases s.len(),
{
    let k = next_index_of(s, '\n', 0);
    lemma_next_index_of_bounds(s, '\n', 0);
    let line = s.subrange(0, k);
    assert(!line.contains('\n')) by {
        if line.contains('\n') {
            let i = choose|i: int| 0 <= i < line.len() && line[i] == '\n';
            assert(s[i] == line[i]);
        }
    }
    if k == s.len() {
        assert(line =~= s);
        lemma_unix_append(s, Seq::empty());
        assert(s + Seq::<char>::empty() =~= s);
        assert(unix_line_endings(Seq::<char>::empty()).len() == 0);
        assert(s + unix_line_endings(Seq::<char>::empty()) =~= s);
    } else {
        let rest = s.subrange(k + 1, s.len() as int);
        let q = seq!['\n'] + rest;
        assert(s =~= line + q);
        assert(q.drop_first() =~= rest);
        assert(q[0] == '\n');
        let ur = unix_line_endings(rest);
        assert(unix_line_endings(q) == seq!['\n'] + ur);
        lemma_unix_append(line, q);
        let x = drop_end_returns(line);
        lemma_drop_end_returns(line);
        let u = unix_line_endings(s);
        assert(u == x + (seq!['\n'] + ur));
        assert(!x.contains('\n')) by {
            if x.contains('\n') {
                let i = choose|i: int| 0 <= i < x.len() && x[i] == '\n';
                assert(line[i] == x[i]);
            }
        }
        lemma_next_after(x, seq!['\n'] + ur, 0);
        assert(u.subrange(0, x.len() as int) =~= x);
        assert(u.subrange(x.len() as int + 1, u.len() as int) =~= ur);
        let w = line.subrange(x.len() as int, line.len() as int);
        assert(line =~= x + w);
        assert forall|i: int| 0 <= i < w.len() implies is_white(#[trigger] w[i]) by {
            assert(w[i] == line[x.len() + i]);
        }
        lemma_trim_white_end(x, w);
        lemma_unix_first_version(rest);
    }
}

/// A white character at the start of a text does not change its first version.
proof fn lemma_first_version_drop_white(x: Seq<char>)
    requires
        x.len() > 0,
        is_white(x[0]),
    ensures
        first_version_in_lines(x.drop_first()) == first_version_in_lines(x),
{
    let y = x.drop_first();
    lemma_next_index_of_bounds(x, '\n', 0);
    assert(x.subrange(1, x.len() as int) =~= y);
    if x[0] == '\n' {
        assert(x.subrange(0, 0) =~= Seq::<char>::empty());
        assert(trim(Seq::<char>::empty()) =~= Seq::<char>::empty());
    } else {
        lemma_next_index_of_shift(x, '\n', 1, 1);
        let k = next_index_of(x, '\n', 0);
        assert(next_index_of(y, '\n', 0) == k - 1);
        assert(x.subrange(0, k).drop_first() =~= y.subrange(0, k - 1));
        assert(x.subrange(0, k)[0] == x[0]);
        assert(trim_start(x.subrange(0, k)) == trim_start(y.subrange(0, k - 1)));
        if k < x.len() {
            assert(x.subrange(k + 1, x.len() as int) =~= y.subrange(k, y.len() as int));
        }
    }
}

/// A white character at the end of a text does not change its first version.
proof fn lemma_first_version_drop_white_end(x: Seq<char>)
    requires
        x.len() > 0,
        is_white(x.last()),
    ensures
        first_version_in_lines(x.drop_last()) == first_version_in_lines(x),
    decreases x.len(),
{
    let y = x.drop_last();
    let k = next_index_of(x, '\n', 0);
    lemma_next_index_of_bounds(x, '\n', 0);
    if k == x.len() {
        lemma_next_is(y, y.len() as int);
        assert(x.subrange(0, k) =~= x);
        assert(y.subrange(0, y.len() as int) =~= y);
        assert(x =~= y + seq![x.last()]);
        assert(all_white(seq![x.last()]));
        lemma_trim_white_end(y, seq![x.last()]);
    } else if k == x.len() - 1 {
        lemma_next_is(y, k);
        assert(x.subrange(0, k) =~= y.subrange(0, k));
        let e = x.subrange(k + 1, x.len() as int);
        assert(e.len() == 0);
        assert(next_index_of(e, '\n', 0) == 0);
        assert(e.subrange(0, 0) =~= e);
        assert(trim(e) =~= e);
        assert(candidate_start(e) is None);
        assert(first_version_in_lines(e) is None);
        assert(next_index_of(y, '\n', 0) == y.len());
        assert(y.subrange(0, y.len() as int) =~= y);
    } else {
        lemma_next_is(y, k);
        assert(x.subrange(0, k) =~= y.subrange(0, k));
        let rx = x.subrange(k + 1, x.len() as int);
        assert(rx.last() == x.last());
        assert(rx.drop_last() =~= y.subrange(k + 1, y.len() as int));
        lemma_first_version_drop_white_end(rx);
    }
}

/// Trimming a text does not change its first version.
proof fn lemma_first_version_trim(x: Seq<char>)
    ensures
        first_version_in_lines(trim(x)) == first_version_in_lines(x),
{
    lemma_first_version_trim_start(x);
    lemma_first_version_trim_end(trim_start(x));
}

proof fn lemma_first_version_trim_start(x: Seq<char>)
    ensures
        first_version_in_lines(trim_start(x)) == first_version_in_lines(x),
    decreases x.len(),
{
    if x.len() > 0 && is_white(x[0]) {
        lemma_first_version_trim_start(x.drop_first());
        lemma_first_version_drop_white(x);
    }
}

proof fn lemma_first_version_trim_end(x: Seq<char>)
    ensures
        first_version_in_lines(trim_end(x)) == first_version_in_lines(x),
    decreases x.len(),
{
    if x.len() > 0 && is_white(x.last()) {
        lemma_first_version_trim_end(x.drop_last());
        lemma_first_version_drop_white_end(x);
    }
}

/// Unix line endings keep a text all white space exactly where it was.
proof fn lemma_unix_all_white(c: Seq<char>)
    ensures
        all_white(unix_line_endings(c)) == all_white(c),
    decreases c.len(),
{
    if c.len() > 0 {
        let t = c.drop_first();
        lemma_unix_all_white(t);
        let r = unix_line_endings(t);
        if all_white(c) {
            assert forall|i: int| 0 <= i < t.len() implies is_white(#[trigger] t[i]) by {
                assert(t[i] == c[i + 1]);
            }
        }
        if all_white(t) && is_white(c[0]) {
            assert forall|i: int| 0 <= i < c.len() implies is_white(#[trigger] c[i]) by {
                if i > 0 {
                    assert(c[i] == t[i - 1]);
                }
            }
        }
        if !(c[0] == '\r' && r.len() > 0 && r[0] == '\n') {
            let u = seq![c[0]] + r;
            if all_white(r) && is_white(c[0]) {
                assert forall|i: int| 0 <= i < u.len() implies is_white(#[trigger] u[i]) by {
                    if i > 0 {
                        assert(u[i] == r[i - 1]);
                    }
                }
            }
            if all_white(u) {
                assert(u[0] == c[0]);
                assert forall|i: int| 0 <= i < r.len() implies is_white(#[trigger] r[i]) by {
                    assert(u[i + 1] == r[i]);
                }
            }
        } else {
            assert(is_white(c[0]));
        }
    }
}

/// Reading a version file gives the same after its line endings are made Unix.
proof fn lemma_parsed_after_unix(c: Seq<char>)
    ensures
        generic_parsed(unix_line_endings(c)) == generic_parsed(c),
{
    let u = unix_line_endings(c);
    lemma_unix_first_version(c);
    lemma_first_version_trim(c);
    lemma_first_version_trim(u);
    lemma_unix_all_white(c);
    lemma_trim_empty(c);
    lemma_trim_empty(u);
}

/// An update of a project whose version file exists writes a content that, read
/// back, gives the new version (for a version that [`stands_alone`]), whatever the
/// file held before: making the line endings Unix on writing changes nothing that
/// reading looks at.
pub proof fn lemma_generic_update_then_read(files: ProjectFiles, reads: FileReads, after: FileReads, v: Seq<char>, previous: Seq<char>)
    requires
        stands_alone(v),
        found_version_file(files) is Some,
        reads.spec_read(target_version_file(files)) == Ok::<Seq<char>, Seq<char>>(previous),
        after.spec_read(target_version_file(files)) == Ok::<Seq<char>, Seq<char>>(normalized(generic_content_for(v, Some(previous)))),
    ensures
        generic_update_plan(files, reads, v).1 == Ok::<Seq<Seq<char>>, Seq<char>>(seq![path_in(files, target_version_file(files))]),
        generic_current_version(files, after) == Ok::<Seq<char>, Seq<char>>(v),
{
    let name = target_version_file(files);
    lemma_found_is_file(files, 0);
    assert(files.spec_exists(name)) by {
        let i = choose|i: int| 0 <= i < files.entries@.len() && (#[trigger] files.entries@[i]).name@ == name && files.entries@[i].is_file;
        assert(files.entries@[i].name@ == name);
    }
    lemma_generic_round_trip(v, Some(previous));
    lemma_parsed_after_unix(generic_content_for(v, Some(previous)));
}

/// The version file found is a regular file of the project.
proof fn lemma_found_is_file(files: ProjectFiles, k: int)
    requires
        0 <= k,
        version_file_from(files, k) is Some,
    ensures
        0 <= version_file_from(files, k)->Some_0 < 5,
        files.spec_is_file(version_files_spec()[version_file_from(files, k)->Some_0]),
    decreases 5 - k,
{
    if k < 5 && !files.spec_is_file(version_files_spec()[k]) {
        lemma_found_is_file(files, k + 1);
    }
}

impl VersionUpdater for GenericUpdater {
    fn technology_name(&self) -> (r: &'static str)
        ensures
            r@ == "generic"@,
    {
        "generic"
    }

    fn can_handle(&self, files: &ProjectFiles) -> (r: bool)
        ensures
            r == found_version_file(*files) is Some,
    {
        self.find_version_file(files).is_some()
    }

    fn validate_project(&self, files: &ProjectFiles, reads: &FileReads) -> (r: Result<(), String>)
        ensures
            unit_result(r) == generic_validation(*files, *reads),
    {
        match self.find_version_file(files) {
            None => Ok(()),
            Some(name) => {
                let content = match read_file_safe(files, reads, name.as_str()) {
                    Ok(c) => c,
                    Err(e) => return Err(e),
                };
                match self.parse_version_content(content.as_str()) {
                    Err(e) => Err(e),
                    Ok(_) => Ok(()),
                }
            },
        }
    }

    fn get_primary_file(&self, files: &ProjectFiles) -> (r: Result<String, String>)
        ensures
            result_text(r) == Ok::<Seq<char>, Seq<char>>(path_in(*files, target_version_file(*files))),
    {
        let name = self.target_file(files);
        Ok(files.path_of(name.as_str()))
    }

    fn get_current_version(&self, files: &ProjectFiles, reads: &FileReads) -> (r: Result<String, String>)
        ensures
            result_text(r) == generic_current_version(*files, *reads),
    {
        match self.find_version_file(files) {
            None => Err(String::from_str(
                "No version file found. Looked for: [\"VERSION\", \"version.txt\", \".version\", \"version\", \"VERSION.txt\"]",
            )),
            Some(name) => {
                let content = match read_file_safe(files, reads, name.as_str()) {
                    Ok(c) => c,
                    Err(e) => return Err(e),
                };
                self.parse_version_content(content.as_str())
            },
        }
    }

    fn update_version(&self, files: &ProjectFiles, reads: &FileReads, new_version: &str) -> (r: UpdatePlan)
        ensures
            plan_model(r) == generic_update_plan(*files, *reads, new_version@),
    {
        let name = self.target_file(files);
        let p = files.path_of(name.as_str());
        let mut steps: Vec<PlanStep> = Vec::new();
        let original = if files.has_entry(name.as_str()) {
            steps.push(PlanStep::Backup(p.clone()));
            assert(steps@.map_values(|s: PlanStep| step_model(s)) =~= seq![StepModel::Backup(p@)]);
            match read_file_safe(files, reads, name.as_str()) {
                Ok(c) => Some(c),
                Err(e) => return UpdatePlan { steps, outcome: Err(e) },
            }
        } else {
            assert(steps@.map_values(|s: PlanStep| step_model(s)) =~= Seq::<StepModel>::empty());
            None
        };
        let ghost s0 = steps@.map_values(|s: PlanStep| step_model(s));
        let content = match &original {
            Some(o) => self.create_version_content(new_version, Some(o.as_str())),
            None => self.create_version_content(new_version, None),
        };
        let w = normalize_line_endings(content.as_str());
        steps.push(PlanStep::Write(p.clone(), w));
        assert(steps@.map_values(|s: PlanStep| step_model(s)) =~= s0.push(StepModel::Write(p@, w@)));
        let updated = vec![p];
        assert(updated@.map_values(|s: String| s@) =~= seq![p@]);
        UpdatePlan { steps, outcome: Ok(updated) }
    }

    fn preview_changes(&self, files: &ProjectFiles, reads: &FileReads, new_version: &str) -> (r: Result<Vec<VersionChange>, String>)
        ensures
            changes_result(r) == generic_preview(*files, *reads, new_version@),
    {
        let name = self.target_file(files);
        let exists = files.has_entry(name.as_str());
        let old_content = if exists {
            match read_file_safe(files, reads, name.as_str()) {
                Ok(c) => c,
                Err(e) => return Err(e),
            }
        } else {
            String::new()
        };
        let old_version = if exists {
            match self.get_current_version(files, reads) {
                Ok(v) => v,
                Err(_) => String::from_str("0.0.0"),
            }
        } else {
            String::from_str("0.0.0")
        };
        let new_content = if old_content.unicode_len() == 0 {
            self.create_version_content(new_version, None)
        } else {
            self.create_version_content(new_version, Some(old_content.as_str()))
        };
        let change = VersionChange::new(files.path_of(name.as_str()), old_content, new_content, old_version, String::from_str(new_version));
        let changes = vec![change];
        assert(changes_model(changes@) =~= seq![change_model(change)]);
        Ok(changes)
    }
}

} // verus!
