//! Link-aware backups and symlink swaps: where backups live, which paths are safe,
//! and what a swap or a restore has to do given what is found on disk.

use vstd::prelude::*;
use crate::config::paths::BACKUP_SUFFIX;
use crate::config::security::MAX_PATH_LENGTH;
use crate::error::Error;
use crate::utils::paths::{
    file_name, join, parent, paths_equal, path_eq, path_file_name, path_join, path_parent,
};
use crate::utils::text::{
    contains_chars, has_sub, utf8_len, utf8_len_exceeds, split_char, split_on, str_chars, string_from, views,
};

verus! {

/// The file name used when the target has none.
pub open spec fn name_or_default(t: Seq<char>, default: Seq<char>) -> Seq<char> {
    match path_file_name(t) {
        Some(n) => n,
        None => default,
    }
}

/// The directory used when the target has no parent.
pub open spec fn parent_or_dot(t: Seq<char>) -> Seq<char> {
    match path_parent(t) {
        Some(p) => p,
        None => seq!['.'],
    }
}

/// The backup of `t`: `.<name>.oxidizr.bak` beside it.
pub open spec fn spec_backup_path(t: Seq<char>) -> Seq<char> {
    path_join(
        parent_or_dot(t),
        seq!['.'] + name_or_default(t, seq!['b', 'a', 'c', 'k', 'u', 'p']) + BACKUP_SUFFIX@,
    )
}

/// The temporary link used for an atomic swap onto `t`: `.<name>.oxidizr.tmp` beside it.
pub open spec fn spec_tmp_link_path(t: Seq<char>) -> Seq<char> {
    path_join(
        parent_or_dot(t),
        seq!['.'] + name_or_default(t, seq!['t', 'a', 'r', 'g', 'e', 't']) + ".oxidizr.tmp"@,
    )
}

/// The name of `t`, or `default` when it has none, followed by `suffix`, prefixed by `.`,
/// placed in the directory of `t`.
fn hidden_sibling(target: &str, default: &str, suffix: &str) -> (r: String)
    ensures
        r@ == path_join(parent_or_dot(target@), seq!['.'] + name_or_default(target@, default@) + suffix@),
{
    let t = str_chars(target);
    let name = match file_name(t.as_slice()) {
        Some(n) => n,
        None => str_chars(default),
    };
    let dir = match parent(t.as_slice()) {
        Some(p) => p,
        None => str_chars("."),
    };
    proof {
        reveal_strlit(".");
    }
    let mut leaf: Vec<char> = Vec::new();
    leaf.push('.');
    crate::utils::text::extend_chars(&mut leaf, name.as_slice());
    let sfx = str_chars(suffix);
    crate::utils::text::extend_chars(&mut leaf, sfx.as_slice());
    assert(leaf@ =~= seq!['.'] + name_or_default(target@, default@) + suffix@);
    let joined = join(dir.as_slice(), leaf.as_slice());
    string_from(joined.as_slice())
}

/// Generate the backup path for a target file: `.<name>.oxidizr.bak` in the same directory.
pub fn backup_path(target: &str) -> (r: String)
    ensures
        r@ == spec_backup_path(target@),
{
    proof {
        reveal_strlit("backup");
    }
    hidden_sibling(target, "backup", BACKUP_SUFFIX)
}

/// The temporary link path used to swap a symlink onto `target` atomically.
pub fn tmp_link_path(target: &str) -> (r: String)
    ensures
        r@ == spec_tmp_link_path(target@),
{
    proof {
        reveal_strlit("target");
    }
    hidden_sibling(target, "target", ".oxidizr.tmp")
}

/// Some component of the path is `..`.
pub open spec fn has_parent_dir(s: Seq<char>) -> bool {
    split_on(s, '/').contains(seq!['.', '.'])
}

/// A path is safe when it has no `..` component, is at most `MAX_PATH_LENGTH` bytes long
/// in UTF-8,
/// and holds neither `/../` nor `..\`.
pub open spec fn spec_is_safe_path(s: Seq<char>) -> bool {
    &&& !has_parent_dir(s)
    &&& utf8_len(s) <= MAX_PATH_LENGTH
    &&& !has_sub(s, seq!['/', '.', '.', '/'])
    &&& !has_sub(s, seq!['.', '.', '\\'])
}

fn is_dotdot(v: &Vec<char>) -> (r: bool)
    ensures
        r == (v@ == seq!['.', '.']),
{
    let r = v.len() == 2 && v[0] == '.' && v[1] == '.';
    if r {
        assert(v@ =~= seq!['.', '.']);
    }
    r
}

/// Validate a path to prevent directory traversal.
pub fn is_safe_path(path: &str) -> (r: bool)
    ensures
        r == spec_is_safe_path(path@),
{
    let s = str_chars(path);
    let segs = split_char(s.as_slice(), '/');
    let mut i: usize = 0;
    while i < segs.len()
        invariant
            i <= segs@.len(),
            views(segs@) == split_on(s@, '/'),
            s@ == path@,
            forall|k: int| 0 <= k < i ==> segs@[k]@ != seq!['.', '.'],
        decreases segs@.len() - i,
    {
        if is_dotdot(&segs[i]) {
            assert(views(segs@)[i as int] == seq!['.', '.']);
            assert(split_on(s@, '/').contains(seq!['.', '.']));
            return false;
        }
        i = i + 1;
    }
    assert(!split_on(s@, '/').contains(seq!['.', '.'])) by {
        if split_on(s@, '/').contains(seq!['.', '.']) {
            let k = choose|k: int| 0 <= k < split_on(s@, '/').len() && split_on(s@, '/')[k] == seq!['.', '.'];
            assert(segs@[k]@ == seq!['.', '.']);
        }
    }
    if utf8_len_exceeds(s.as_slice(), MAX_PATH_LENGTH) {
        return false;
    }
    let mut p1: Vec<char> = Vec::new();
    p1.push('/');
    p1.push('.');
    p1.push('.');
    p1.push('/');
    let mut p2: Vec<char> = Vec::new();
    p2.push('.');
    p2.push('.');
    p2.push('\\');
    assert(p1@ =~= seq!['/', '.', '.', '/']);
    assert(p2@ =~= seq!['.', '.', '\\']);
    if contains_chars(s.as_slice(), p1.as_slice()) || contains_chars(s.as_slice(), p2.as_slice()) {
        return false;
    }
    true
}

// ---------------------------------------------------------------------------
// Swapping a target for a symlink
// ---------------------------------------------------------------------------

/// What is found at a target path before it is swapped for a symlink.
pub struct TargetState {
    /// Something (file, directory or link) exists at the path.
    pub existed: bool,
    /// That something is a symlink.
    pub is_symlink: bool,
    /// Where the symlink points, as read from it, if it could be read.
    pub current_dest: Option<String>,
    /// The symlink resolves to the same place as the desired source.
    pub points_to_source: bool,
}

/// The work that swapping a target for a symlink to the source takes.
pub enum SymlinkPlan {
    /// Dry run: nothing is changed.
    DryRun,
    /// The target already is a symlink to the source: nothing to do.
    AlreadyCorrect,
    /// The target is a symlink elsewhere: when its destination is known, the backup is made
    /// a symlink to that same destination; then the target is swapped for a link to the source.
    ReplaceLink { backup: String, backup_dest: Option<String> },
    /// The target is not a symlink: it is copied to the backup (permissions kept) and removed,
    /// then swapped for a link to the source.
    BackupAndLink { backup: String },
    /// Nothing exists at the target: a link to the source is created.
    Link,
}

/// The view of an optional string.
pub open spec fn opt_view(o: Option<String>) -> Option<Seq<char>> {
    match o {
        Some(s) => Some(s@),
        None => None,
    }
}

/// The plan that a swap of `target` for a symlink follows, given what was found there:
/// nothing in a dry run; nothing when the link is already right; otherwise a backup
/// beside the target (a link to the old destination when the target was a link) and a
/// fresh link.
pub open spec fn plan_matches(p: SymlinkPlan, target: Seq<char>, dry_run: bool, st: TargetState) -> bool {
    if dry_run {
        p is DryRun
    } else if st.is_symlink {
        if st.points_to_source {
            p is AlreadyCorrect
        } else {
            p matches SymlinkPlan::ReplaceLink { backup, backup_dest } && backup@ == spec_backup_path(
                target,
            ) && opt_view(backup_dest) == opt_view(st.current_dest)
        }
    } else if st.existed {
        p matches SymlinkPlan::BackupAndLink { backup } && backup@ == spec_backup_path(target)
    } else {
        p is Link
    }
}

fn clone_opt(o: &Option<String>) -> (r: Option<String>)
    ensures
        opt_view(r) == opt_view(*o),
{
    match o {
        Some(s) => Some(s.clone()),
        None => None,
    }
}

/// The plan for swapping `target` for a symlink, given what was found there.
pub fn symlink_plan(target: &str, dry_run: bool, st: &TargetState) -> (p: SymlinkPlan)
    ensures
        plan_matches(p, target@, dry_run, *st),
{
    if dry_run {
        SymlinkPlan::DryRun
    } else if st.is_symlink {
        if st.points_to_source {
            SymlinkPlan::AlreadyCorrect
        } else {
            SymlinkPlan::ReplaceLink {
                backup: backup_path(target),
                backup_dest: clone_opt(&st.current_dest),
            }
        }
    } else if st.existed {
        SymlinkPlan::BackupAndLink { backup: backup_path(target) }
    } else {
        SymlinkPlan::Link
    }
}

/// Where a link at `target` with destination `dest` points: an absolute destination as
/// it is, a relative one joined to the target's directory.
pub open spec fn spec_link_location(target: Seq<char>, dest: Seq<char>) -> Seq<char> {
    if dest.len() > 0 && dest[0] == '/' {
        dest
    } else {
        match path_parent(target) {
            Some(p) => path_join(p, dest),
            None => dest,
        }
    }
}

/// Where a link at `target` with destination `dest` points.
pub fn link_location(target: &str, dest: &str) -> (r: String)
    ensures
        r@ == spec_link_location(target@, dest@),
{
    let d = str_chars(dest);
    if d.len() > 0 && d[0] == '/' {
        return dest.to_owned();
    }
    let t = str_chars(target);
    match parent(t.as_slice()) {
        Some(p) => string_from(join(p.as_slice(), d.as_slice()).as_slice()),
        None => dest.to_owned(),
    }
}

/// The check that the target's directory is a real directory (opened without following
/// a symlink): when that open failed, the swap is refused, naming the directory and why.
pub fn parent_gate(parent: &str, opened: core::result::Result<(), String>) -> (r: Result<(), Error>)
    ensures
        opened is Ok ==> r is Ok,
        opened matches Err(e) ==> (r matches Err(Error::ExecutionFailed(m)) && m@ == "failed parent no-follow open on "@
            + parent@ + ": "@ + e@),
{
    match opened {
        Ok(()) => Ok(()),
        Err(e) => {
            let mut m = "failed parent no-follow open on ".to_owned();
            m.append(parent);
            m.append(": ");
            m.append(e.as_str());
            Err(Error::ExecutionFailed(m))
        },
    }
}

/// The message of a refused traversal path.
pub open spec fn traversal_message() -> Seq<char> {
    "Invalid path: contains directory traversal"@
}

/// Before any work on a swap: the same source and target need no link (`Ok(false)`),
/// paths with traversal are refused, and otherwise the swap proceeds (`Ok(true)`).
pub fn symlink_precheck(source: &str, target: &str) -> (r: Result<bool, Error>)
    ensures
        path_eq(source@, target@) ==> r matches Ok(false),
        !path_eq(source@, target@) && !(spec_is_safe_path(source@) && spec_is_safe_path(target@))
            ==> (r matches Err(Error::ExecutionFailed(m)) && m@ == traversal_message()),
        !path_eq(source@, target@) && spec_is_safe_path(source@) && spec_is_safe_path(target@)
            ==> r matches Ok(true),
{
    let sv = str_chars(source);
    let tv = str_chars(target);
    if paths_equal(sv.as_slice(), tv.as_slice()) {
        return Ok(false);
    }
    if !is_safe_path(source) || !is_safe_path(target) {
        return Err(Error::ExecutionFailed("Invalid path: contains directory traversal".to_owned()));
    }
    Ok(true)
}

// ---------------------------------------------------------------------------
// Restoring a target from its backup
// ---------------------------------------------------------------------------

/// The work that restoring a target from its backup takes.
pub enum RestorePlan {
    /// Dry run with a backup present: nothing is changed.
    DryRun { backup: String },
    /// The target is removed and the backup renamed onto it.
    Restore { backup: String },
    /// No backup, best effort: the target is left as it is.
    LeaveAsIs,
}

/// The plan for restoring `target`, given whether its backup exists: with no backup it
/// is an error naming the target, unless best effort is forced.
pub fn restore_plan(target: &str, backup_exists: bool, dry_run: bool, force_best_effort: bool) -> (r: Result<RestorePlan, Error>)
    ensures
        backup_exists && dry_run ==> (r matches Ok(RestorePlan::DryRun { backup }) && backup@
            == spec_backup_path(target@)),
        backup_exists && !dry_run ==> (r matches Ok(RestorePlan::Restore { backup }) && backup@
            == spec_backup_path(target@)),
        !backup_exists && force_best_effort ==> r matches Ok(RestorePlan::LeaveAsIs),
        !backup_exists && !force_best_effort ==> (r matches Err(Error::RestoreBackupMissing(m)) && m@
            == target@),
{
    if backup_exists {
        let backup = backup_path(target);
        if dry_run {
            Ok(RestorePlan::DryRun { backup })
        } else {
            Ok(RestorePlan::Restore { backup })
        }
    } else if force_best_effort {
        Ok(RestorePlan::LeaveAsIs)
    } else {
        Err(Error::RestoreBackupMissing(target.to_owned()))
    }
}

} // verus!
