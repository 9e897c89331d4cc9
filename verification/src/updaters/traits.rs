//! What every version updater offers, and the values it works on.
//!
//! An updater never touches the file system itself: it is handed which files stand
//! in the project ([`ProjectFiles`]) and what reading them gave ([`FileReads`]),
//! and it answers with values: a version, the changes a bump would make, or an
//! [`UpdatePlan`] of backups and writes for the caller to carry out in order.
use crate::engine::project_files::{join_path, ProjectFiles};
use crate::text::{chars_of, has_infix, string_of};
use crate::utils::files::{lemma_unix_keeps, unix_line_endings};
use vstd::prelude::*;

verus! {

/// A text result as plain texts.
pub open spec fn result_text(r: Result<String, String>) -> Result<Seq<char>, Seq<char>> {
    match r {
        Ok(s) => Ok(s@),
        Err(e) => Err(e@),
    }
}

/// A unit result with its error as a plain text.
pub open spec fn unit_result(r: Result<(), String>) -> Result<(), Seq<char>> {
    match r {
        Ok(()) => Ok(()),
        Err(e) => Err(e@),
    }
}

/// What reading one file of the project gave: its content, or the reader's error
/// message.
pub struct FileRead {
    pub name: String,
    pub content: Result<String, String>,
}

/// What reading the files of a project gave, by file name.
pub struct FileReads {
    pub entries: Vec<FileRead>,
}

/// The message for a file that was not read at all.
pub open spec fn not_read_message(name: Seq<char>) -> Seq<char> {
    name + " was not read"@
}

/// What the first entry of that name holds, or an error when there is none.
pub open spec fn read_in(entries: Seq<FileRead>, name: Seq<char>) -> Result<Seq<char>, Seq<char>>
    decreases entries.len(),
{
    if entries.len() == 0 {
        Err(not_read_message(name))
    } else if entries[0].name@ == name {
        result_text(entries[0].content)
    } else {
        read_in(entries.drop_first(), name)
    }
}

impl FileReads {
    /// What reading the file `name` gave.
    pub open spec fn spec_read(&self, name: Seq<char>) -> Result<Seq<char>, Seq<char>> {
        read_in(self.entries@, name)
    }

    /// No file read yet.
    pub fn new() -> (r: Self)
        ensures
            r.entries@.len() == 0,
    {
        FileReads { entries: Vec::new() }
    }

    /// Records what reading the file `name` gave.
    pub fn add(&mut self, name: &str, content: Result<String, String>)
        ensures
            final(self).entries@ == old(self).entries@.push(FileRead { name: final(self).entries@.last().name, content }),
            final(self).entries@.last().name@ == name@,
    {
        self.entries.push(FileRead { name: string_of(&chars_of(name)), content });
    }

    /// What reading the file `name` gave: the first record of that name.
    pub fn read(&self, name: &str) -> (r: Result<String, String>)
        ensures
            result_text(r) == self.spec_read(name@),
    {
        let n = chars_of(name);
        let mut i: usize = 0;
        assert(self.entries@.subrange(0, self.entries@.len() as int) =~= self.entries@);
        while i < self.entries.len()
            invariant
                n@ == name@,
                i <= self.entries@.len(),
                read_in(self.entries@.subrange(i as int, self.entries@.len() as int), name@)
                    == read_in(self.entries@, name@),
            decreases self.entries@.len() - i,
        {
            let ghost rest = self.entries@.subrange(i as int, self.entries@.len() as int);
            if crate::text::chars_eq(&chars_of(self.entries[i].name.as_str()), &n) {
                assert(rest[0] == self.entries@[i as int]);
                return match &self.entries[i].content {
                    Ok(c) => Ok(string_of(&chars_of(c.as_str()))),
                    Err(e) => Err(string_of(&chars_of(e.as_str()))),
                };
            }
            assert(rest.drop_first() =~= self.entries@.subrange(i + 1, self.entries@.len() as int));
            i = i + 1;
        }
        assert(self.entries@.subrange(i as int, self.entries@.len() as int).len() == 0);
        Err(string_of(&chars_of(name)).concat(" was not read"))
    }
}

/// The path of the file `name` of the project.
pub open spec fn path_in(files: ProjectFiles, name: Seq<char>) -> Seq<char> {
    join_path(files.root@, name)
}

/// What `read_file_safe` gives for the file `name`: its content, or an error that
/// names the path.
pub open spec fn read_safe(files: ProjectFiles, reads: FileReads, name: Seq<char>) -> Result<Seq<char>, Seq<char>> {
    match reads.spec_read(name) {
        Ok(c) => Ok(c),
        Err(e) => Err("Failed to read "@ + path_in(files, name) + ": "@ + e),
    }
}

/// Reads the file `name` as `read_file_safe` does.
pub fn read_file_safe(files: &ProjectFiles, reads: &FileReads, name: &str) -> (r: Result<String, String>)
    ensures
        result_text(r) == read_safe(*files, *reads, name@),
{
    match reads.read(name) {
        Ok(c) => Ok(c),
        Err(e) => Err(String::from_str("Failed to read ").concat(files.path_of(name).as_str()).concat(": ").concat(e.as_str())),
    }
}

/// What `write_file_safe` writes for a content: its line endings normalized.
pub open spec fn normalized(content: Seq<char>) -> Seq<char> {
    unix_line_endings(content)
}

/// A content without carriage returns is written as it is.
pub proof fn lemma_normalized_without_cr(content: Seq<char>)
    requires
        !content.contains('\r'),
    ensures
        normalized(content) == content,
{
    assert(!has_infix(content, seq!['\r', '\n'])) by {
        if has_infix(content, seq!['\r', '\n']) {
            let i = choose|i: int| 0 <= i && i + 2 <= content.len() && #[trigger] content.subrange(i, i + 2) == seq!['\r', '\n'];
            assert(content.subrange(i, i + 2)[0] == content[i]);
        }
    }
    lemma_unix_keeps(content);
}

/// A change that a version bump makes to one file.
pub struct VersionChange {
    pub file_path: String,
    pub old_content: String,
    pub new_content: String,
    pub old_version: String,
    pub new_version: String,
}

/// A change as plain texts: path, old content, new content, old version, new
/// version.
pub type ChangeModel = (Seq<char>, Seq<char>, Seq<char>, Seq<char>, Seq<char>);

/// A change as plain texts.
pub open spec fn change_model(c: VersionChange) -> ChangeModel {
    (c.file_path@, c.old_content@, c.new_content@, c.old_version@, c.new_version@)
}

/// A list of changes as plain texts.
pub open spec fn changes_model(v: Seq<VersionChange>) -> Seq<ChangeModel> {
    v.map_values(|c: VersionChange| change_model(c))
}

/// A list of changes, or an error, as plain texts.
pub open spec fn changes_result(r: Result<Vec<VersionChange>, String>) -> Result<Seq<ChangeModel>, Seq<char>> {
    match r {
        Ok(v) => Ok(changes_model(v@)),
        Err(e) => Err(e@),
    }
}

impl VersionChange {
    /// A change from its parts.
    pub fn new(file_path: String, old_content: String, new_content: String, old_version: String, new_version: String) -> (r: Self)
        ensures
            change_model(r) == (file_path@, old_content@, new_content@, old_version@, new_version@),
    {
        VersionChange { file_path, old_content, new_content, old_version, new_version }
    }
}

/// One step of carrying out an update: saving a backup of a file (where it
/// exists), or writing a file.
pub enum PlanStep {
    Backup(String),
    Write(String, String),
}

/// A step as plain texts.
pub enum StepModel {
    Backup(Seq<char>),
    Write(Seq<char>, Seq<char>),
}

/// A step as plain texts.
pub open spec fn step_model(s: PlanStep) -> StepModel {
    match s {
        PlanStep::Backup(p) => StepModel::Backup(p@),
        PlanStep::Write(p, c) => StepModel::Write(p@, c@),
    }
}

/// What an update does: its steps, carried out in order until one fails, and what it
/// returns when all of them succeed (the updated files, or an error).
pub struct UpdatePlan {
    pub steps: Vec<PlanStep>,
    pub outcome: Result<Vec<String>, String>,
}

/// A plan as plain texts.
pub type PlanModel = (Seq<StepModel>, Result<Seq<Seq<char>>, Seq<char>>);

/// A plan as plain texts.
pub open spec fn plan_model(p: UpdatePlan) -> PlanModel {
    (
        p.steps@.map_values(|s: PlanStep| step_model(s)),
        match p.outcome {
            Ok(v) => Ok(v@.map_values(|s: String| s@)),
            Err(e) => Err(e@),
        },
    )
}

/// The interface of every version updater.
pub trait VersionUpdater {
    /// The name of the technology this updater handles.
    fn technology_name(&self) -> &'static str;

    /// Whether this updater can handle the project.
    fn can_handle(&self, files: &ProjectFiles) -> bool;

    /// Checks that the project is one this updater works on.
    fn validate_project(&self, files: &ProjectFiles, reads: &FileReads) -> Result<(), String>;

    /// The path of the file that holds the version.
    fn get_primary_file(&self, files: &ProjectFiles) -> Result<String, String>;

    /// The current version of the project.
    fn get_current_version(&self, files: &ProjectFiles, reads: &FileReads) -> Result<String, String>;

    /// The backups and writes that set the version to `new_version`.
    fn update_version(&self, files: &ProjectFiles, reads: &FileReads, new_version: &str) -> UpdatePlan;

    /// The changes that setting the version to `new_version` would make.
    fn preview_changes(&self, files: &ProjectFiles, reads: &FileReads, new_version: &str) -> Result<Vec<VersionChange>, String>;
}

} // verus!
