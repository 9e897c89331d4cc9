//! A snapshot of which files stand in a project directory.
use crate::text::{append_chars, chars_eq, chars_of, chars_of_string, string_of};
use vstd::prelude::*;

verus! {

/// `dir` joined with the relative name `name`, as `Path::join` writes it on Unix:
/// the name alone for an empty directory, else one `/` between the two.
pub open spec fn join_path(dir: Seq<char>, name: Seq<char>) -> Seq<char> {
    if dir.len() == 0 {
        name
    } else if dir.last() == '/' {
        dir + name
    } else {
        dir + seq!['/'] + name
    }
}

/// Joins a directory and a relative file name.
pub fn join_path_string(dir: &str, name: &str) -> (r: String)
    ensures
        r@ == join_path(dir@, name@),
{
    let d = chars_of(dir);
    let n = chars_of(name);
    if d.len() == 0 {
        string_of(&n)
    } else if d[d.len() - 1] == '/' {
        let mut v = d;
        append_chars(&mut v, &n);
        string_of(&v)
    } else {
        let mut v = d;
        v.push('/');
        append_chars(&mut v, &n);
        string_of(&v)
    }
}

/// One entry of a project directory: its name, and whether it is a regular file.
pub struct ProjectFile {
    pub name: String,
    pub is_file: bool,
}

/// The entries of a project directory that the library looks at, with the
/// directory's path. The caller fills it from the file system; every decision of
/// the library about which files are present is taken from it.
pub struct ProjectFiles {
    pub root: String,
    pub entries: Vec<ProjectFile>,
}

impl ProjectFiles {
    /// Whether an entry of that name exists (a file or a directory).
    pub open spec fn spec_exists(&self, name: Seq<char>) -> bool {
        exists|i: int| 0 <= i < self.entries@.len() && (#[trigger] self.entries@[i]).name@ == name
    }

    /// Whether a regular file of that name exists.
    pub open spec fn spec_is_file(&self, name: Seq<char>) -> bool {
        exists|i: int|
            0 <= i < self.entries@.len() && (#[trigger] self.entries@[i]).name@ == name
                && self.entries@[i].is_file
    }

    /// An empty snapshot of the directory `root`.
    pub fn new(root: &str) -> (r: Self)
        ensures
            r.root@ == root@,
            r.entries@.len() == 0,
    {
        ProjectFiles { root: string_of(&chars_of(root)), entries: Vec::new() }
    }

    /// Records an entry.
    pub fn add(&mut self, name: &str, is_file: bool)
        ensures
            final(self).root == old(self).root,
            final(self).entries@.len() == old(self).entries@.len() + 1,
            forall|i: int| 0 <= i < old(self).entries@.len() ==> final(self).entries@[i] == old(self).entries@[i],
            final(self).entries@.last().name@ == name@,
            final(self).entries@.last().is_file == is_file,
    {
        self.entries.push(ProjectFile { name: string_of(&chars_of(name)), is_file });
    }

    /// Whether an entry of that name exists.
    pub fn has_entry(&self, name: &str) -> (r: bool)
        ensures
            r == self.spec_exists(name@),
    {
        let n = chars_of(name);
        let mut i: usize = 0;
        while i < self.entries.len()
            invariant
                n@ == name@,
                i <= self.entries@.len(),
                forall|j: int| 0 <= j < i ==> (#[trigger] self.entries@[j]).name@ != name@,
            decreases self.entries@.len() - i,
        {
            if chars_eq(&chars_of_string(&self.entries[i].name), &n) {
                return true;
            }
            i = i + 1;
        }
        false
    }

    /// Whether a regular file of that name exists.
    pub fn is_file(&self, name: &str) -> (r: bool)
        ensures
            r == self.spec_is_file(name@),
    {
        let n = chars_of(name);
        let mut i: usize = 0;
        while i < self.entries.len()
            invariant
                n@ == name@,
                i <= self.entries@.len(),
                forall|j: int|
                    0 <= j < i ==> !((#[trigger] self.entries@[j]).name@ == name@
                        && self.entries@[j].is_file),
            decreases self.entries@.len() - i,
        {
            if self.entries[i].is_file && chars_eq(&chars_of_string(&self.entries[i].name), &n) {
                return true;
            }
            i = i + 1;
        }
        false
    }

    /// The path of a file of the project.
    pub fn path_of(&self, name: &str) -> (r: String)
        ensures
            r@ == join_path(self.root@, name@),
    {
        join_path_string(self.root.as_str(), name)
    }
}

} // verus!
