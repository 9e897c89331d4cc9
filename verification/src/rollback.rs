//! Undoing a version bump: which backups to restore, which tag to delete, and
//! whether to revert the last commit. The caller carries out the plan.
use crate::engine::project_files::{join_path, ProjectFile, ProjectFiles};
use crate::utils::files::{
    backup_path_spec, dot_twin, file_name, file_name_of, has_extension, lemma_backup_stripped, restored_path,
    restored_path_spec, without_added_dot,
};
use vstd::prelude::*;

verus! {

/// What a rollback undoes.
pub struct RollbackOptions {
    /// Restore the files from their backups.
    pub restore_files: bool,
    /// Delete the tag of the version.
    pub delete_tags: bool,
    /// Revert the last commit.
    pub revert_commits: bool,
    /// The version whose tag is deleted.
    pub version: Option<String>,
}

impl Default for RollbackOptions {
    /// Restore files and delete the tag, but keep commits.
    fn default() -> (r: Self)
        ensures
            r.restore_files,
            r.delete_tags,
            !r.revert_commits,
            r.version is None,
    {
        RollbackOptions { restore_files: true, delete_tags: true, revert_commits: false, version: None }
    }
}

/// Whether a directory entry is a backup: a regular file whose name ends with the
/// backup extension.
pub open spec fn is_backup_entry(e: ProjectFile) -> bool {
    e.is_file && restored_path_spec(e.name@) is Some
}

/// The paths of the backups among the entries, in their order.
pub open spec fn backups_in(entries: Seq<ProjectFile>, root: Seq<char>) -> Seq<Seq<char>>
    decreases entries.len(),
{
    if entries.len() == 0 {
        Seq::empty()
    } else {
        let rest = backups_in(entries.drop_last(), root);
        if is_backup_entry(entries.last()) {
            rest.push(join_path(root, entries.last().name@))
        } else {
            rest
        }
    }
}

/// The paths of the backups of a project, in directory order.
pub fn find_backup_files(files: &ProjectFiles) -> (r: Vec<String>)
    ensures
        r@.map_values(|s: String| s@) == backups_in(files.entries@, files.root@),
{
    let mut out: Vec<String> = Vec::new();
    let mut i: usize = 0;
    assert(files.entries@.subrange(0, 0) =~= Seq::<ProjectFile>::empty());
    while i < files.entries.len()
        invariant
            i <= files.entries@.len(),
            out@.map_values(|s: String| s@) == backups_in(files.entries@.subrange(0, i as int), files.root@),
        decreases files.entries@.len() - i,
    {
        let e = &files.entries[i];
        let ghost before = out@.map_values(|s: String| s@);
        assert(files.entries@.subrange(0, i + 1).drop_last() =~= files.entries@.subrange(0, i as int));
        if e.is_file && restored_path(e.name.as_str()).is_some() {
            let p = files.path_of(e.name.as_str());
            out.push(p);
            assert(out@.map_values(|s: String| s@) =~= before.push(p@));
        }
        i = i + 1;
    }
    assert(files.entries@.subrange(0, files.entries@.len() as int) =~= files.entries@);
    out
}

/// One backup to restore: its path, and the path it is restored to where that can
/// be told.
pub struct RestoreStep {
    pub backup: String,
    pub original: Option<String>,
}

/// What a rollback does: the restores (each followed by deleting the backup), then
/// the tag to delete where there is one, then whether the last commit is reverted.
pub struct RollbackPlan {
    pub restores: Vec<RestoreStep>,
    pub delete_tag: Option<String>,
    pub revert_commit: bool,
}

/// A restore step as plain texts.
pub open spec fn restore_model(s: RestoreStep) -> (Seq<char>, Option<Seq<char>>) {
    (s.backup@, match s.original { Some(o) => Some(o@), None => None })
}

/// The file a backup is restored to: the backup's path without its backup ending,
/// unless that path is a [`dot_twin`] that the project does not list, whose
/// backup is then that of the path without its last `.` (a name without an
/// extension gets `..autoversion.backup`, so `x` and `x.` share one backup).
pub open spec fn restore_target(b: Seq<char>, files: ProjectFiles) -> Option<Seq<char>> {
    match restored_path_spec(b) {
        None => None,
        Some(s) => if dot_twin(s) && !files.spec_exists(file_name(s)) {
            Some(s.drop_last())
        } else {
            Some(s)
        },
    }
}

/// The restores of the backups: each with the path it is restored to.
pub open spec fn restores_for(backups: Seq<Seq<char>>, files: ProjectFiles) -> Seq<(Seq<char>, Option<Seq<char>>)> {
    backups.map_values(|b: Seq<char>| (b, restore_target(b, files)))
}

/// The file a backup is restored to ([`restore_target`]).
pub fn restore_target_of(b: &str, files: &ProjectFiles) -> (r: Option<String>)
    ensures
        match restore_target(b@, *files) {
            Some(p) => r is Some && r->Some_0@ == p,
            None => r is None,
        },
{
    let s = match restored_path(b) {
        Some(s) => s,
        None => return None,
    };
    match without_added_dot(s.as_str()) {
        Some(x) => if !files.has_entry(file_name_of(s.as_str()).as_str()) {
            Some(x)
        } else {
            Some(s)
        },
        None => Some(s),
    }
}

/// A backup is restored to the file it was taken from: for a file that the project
/// lists, restoring its backup gives back its path. It holds unless the file's
/// name has no extension and the project also lists that name followed by `.`
/// (the two share one backup, which is then taken for the latter).
pub proof fn lemma_backup_restores_file(p: Seq<char>, files: ProjectFiles)
    requires
        file_name(p).len() > 0,
        files.spec_exists(file_name(p)),
        !has_extension(file_name(p)) ==> !files.spec_exists(file_name(p).push('.')),
    ensures
        restore_target(backup_path_spec(p), files) == Some(p),
{
    lemma_backup_stripped(p);
}

/// The name of the tag that a rollback deletes for a version.
pub open spec fn rollback_tag_for(version: Seq<char>) -> Seq<char> {
    seq!['v'] + version
}

/// Plans the rollback of a project: an error where it has no backup.
pub fn plan_rollback(files: &ProjectFiles, options: &RollbackOptions) -> (r: Result<RollbackPlan, String>)
    ensures
        ({
            let backups = backups_in(files.entries@, files.root@);
            if backups.len() == 0 {
                r is Err && r->Err_0@ == "No backup files found in "@ + files.root@
            } else {
                &&& r is Ok
                &&& r->Ok_0.restores@.map_values(|s: RestoreStep| restore_model(s)) == (if options.restore_files {
                    restores_for(backups, *files)
                } else {
                    Seq::empty()
                })
                &&& (match r->Ok_0.delete_tag {
                    Some(t) => options.delete_tags && options.version is Some && t@ == rollback_tag_for(options.version->Some_0@),
                    None => !(options.delete_tags && options.version is Some),
                })
                &&& r->Ok_0.revert_commit == options.revert_commits
            }
        }),
{
    let backups = find_backup_files(files);
    if backups.len() == 0 {
        return Err(String::from_str("No backup files found in ").concat(files.root.as_str()));
    }
    let mut restores: Vec<RestoreStep> = Vec::new();
    if options.restore_files {
        let mut i: usize = 0;
        while i < backups.len()
            invariant
                i <= backups@.len(),
                restores@.map_values(|s: RestoreStep| restore_model(s)) == restores_for(backups@.map_values(|s: String| s@), *files).subrange(0, i as int),
            decreases backups@.len() - i,
        {
            let b = &backups[i];
            let step = RestoreStep { backup: b.clone(), original: restore_target_of(b.as_str(), files) };
            let ghost before = restores@.map_values(|s: RestoreStep| restore_model(s));
            restores.push(step);
            assert(restores@.map_values(|s: RestoreStep| restore_model(s)) =~= before.push(restore_model(step)));
            assert(restores_for(backups@.map_values(|s: String| s@), *files).subrange(0, i + 1) =~= restores_for(backups@.map_values(|s: String| s@), *files).subrange(0, i as int).push((b@, restore_target(b@, *files))));
            i = i + 1;
        }
        assert(restores_for(backups@.map_values(|s: String| s@), *files).subrange(0, backups@.len() as int) =~= restores_for(backups@.map_values(|s: String| s@), *files));
    } else {
        assert(restores@.map_values(|s: RestoreStep| restore_model(s)) =~= Seq::<(Seq<char>, Option<Seq<char>>)>::empty());
    }
    let delete_tag = if options.delete_tags {
        match &options.version {
            Some(v) => {
                let mut t = vec!['v'];
                crate::text::append_chars(&mut t, &crate::text::chars_of(v.as_str()));
                assert(t@ =~= seq!['v'] + v@);
                Some(crate::text::string_of(&t))
            },
            None => None,
        }
    } else {
        None
    };
    Ok(RollbackPlan { restores, delete_tag, revert_commit: options.revert_commits })
}

} // verus!
