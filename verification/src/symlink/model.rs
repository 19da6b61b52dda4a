//! What swap and restore plans do to the files at a target and at its backup, and the
//! properties that follow: backups sit beside their targets, a restore after a swap
//! gives back what the target held, re-running a swap changes nothing, and dry runs change
//! nothing.

use vstd::prelude::*;
use crate::config::paths::BACKUP_SUFFIX;
use crate::symlink::ops::{opt_view, plan_matches, spec_backup_path, RestorePlan, SymlinkPlan, TargetState};
use crate::utils::paths::{lemma_join_leaf, lemma_last_component_parts, path_file_name, path_parent};

verus! {

/// What a path holds: nothing, a regular file (known by its content and its permission
/// bits), or a symlink to a destination.
pub enum Entry {
    Absent,
    File { content: nat, mode: nat },
    Link(Seq<char>),
}

/// The entries of a file tree, by path; paths not in the map hold nothing.
pub open spec fn entry_at(fs: Map<Seq<char>, Entry>, path: Seq<char>) -> Entry {
    if fs.contains_key(path) {
        fs[path]
    } else {
        Entry::Absent
    }
}

/// What inspecting a target holding `e` reports, when the symlink's destination could be
/// read and a link counts as pointing to the source exactly when its destination is the
/// source.
pub open spec fn observed(st: TargetState, e: Entry, source: Seq<char>) -> bool {
    &&& st.existed == !(e is Absent)
    &&& st.is_symlink == (e is Link)
    &&& match e {
        Entry::Link(d) => opt_view(st.current_dest) == Some(d) && st.points_to_source == (d == source),
        _ => opt_view(st.current_dest) is None && !st.points_to_source,
    }
}

/// The file tree after a swap of `target` for a link to `source` follows plan `p`: a
/// replaced link is backed up as a link to its old destination (when that is known), a
/// replaced file is copied to the backup with its permission bits, and the target becomes
/// a link to the source.
/// A dry run and an already correct link change nothing.
pub open spec fn apply_swap(fs: Map<Seq<char>, Entry>, p: SymlinkPlan, target: Seq<char>, source: Seq<char>) -> Map<
    Seq<char>,
    Entry,
> {
    match p {
        SymlinkPlan::DryRun => fs,
        SymlinkPlan::AlreadyCorrect => fs,
        SymlinkPlan::ReplaceLink { backup, backup_dest } => {
            let with_backup = match opt_view(backup_dest) {
                Some(d) => fs.insert(backup@, Entry::Link(d)),
                None => fs,
            };
            with_backup.insert(target, Entry::Link(source))
        },
        SymlinkPlan::BackupAndLink { backup } => fs.insert(backup@, entry_at(fs, target)).insert(
            target,
            Entry::Link(source),
        ),
        SymlinkPlan::Link => fs.insert(target, Entry::Link(source)),
    }
}

/// The file tree after a restore of `target` follows plan `r`: the backup is renamed onto
/// the target; a dry run, or a target left as it is, changes nothing.
pub open spec fn apply_restore(fs: Map<Seq<char>, Entry>, r: RestorePlan, target: Seq<char>) -> Map<Seq<char>, Entry> {
    match r {
        RestorePlan::Restore { backup } => fs.remove(backup@).insert(target, entry_at(fs, backup@)),
        _ => fs,
    }
}

/// Backups live beside their targets: the backup of a target whose file name is `n` is
/// the file `.n.oxidizr.bak` in the target's own directory.
pub proof fn law_backup_beside_target(target: Seq<char>)
    requires
        path_file_name(target) is Some,
    ensures
        path_file_name(spec_backup_path(target)) == Some(
            seq!['.'] + path_file_name(target).unwrap() + BACKUP_SUFFIX@,
        ),
        path_parent(spec_backup_path(target)) == path_parent(target),
{
    reveal_strlit(".oxidizr.bak");
    lemma_last_component_parts(target);
    let n = path_file_name(target).unwrap();
    let p = path_parent(target).unwrap();
    let leaf = seq!['.'] + n + BACKUP_SUFFIX@;
    assert forall|k: int| 0 <= k < leaf.len() implies leaf[k] != '/' by {
        if 1 <= k < 1 + n.len() {
            assert(leaf[k] == n[k - 1]);
        } else if k >= 1 + n.len() {
            assert(leaf[k] == BACKUP_SUFFIX@[k - 1 - n.len()]);
        }
    }
    assert(leaf.last() == 'k');
    lemma_join_leaf(p, leaf);
}

/// A target is never its own backup: the two differ in their file names.
pub proof fn law_backup_differs_from_target(target: Seq<char>)
    requires
        path_file_name(target) is Some,
    ensures
        spec_backup_path(target) != target,
{
    law_backup_beside_target(target);
    let n = path_file_name(target).unwrap();
    assert((seq!['.'] + n + BACKUP_SUFFIX@).len() > n.len());
}

/// A restore undoes a swap: when a target holding a file, or a link elsewhere whose
/// destination was read, is swapped for a link to the source, its backup holds what the
/// target held (a file with its content and permission bits, a link as a link to the same
/// destination), the
/// restore plan renames that very backup onto the target, and afterwards the target holds
/// what it held before.
pub proof fn law_restore_undoes_swap(
    fs: Map<Seq<char>, Entry>,
    target: Seq<char>,
    source: Seq<char>,
    st: TargetState,
    p: SymlinkPlan,
    r: RestorePlan,
)
    requires
        path_file_name(target) is Some,
        entry_at(fs, target) is File || (entry_at(fs, target) matches Entry::Link(d) && d != source),
        observed(st, entry_at(fs, target), source),
        plan_matches(p, target, false, st),
        r matches RestorePlan::Restore { backup } && backup@ == spec_backup_path(target),
    ensures
        entry_at(apply_swap(fs, p, target, source), target) == Entry::Link(source),
        entry_at(apply_swap(fs, p, target, source), spec_backup_path(target)) == entry_at(fs, target),
        entry_at(apply_restore(apply_swap(fs, p, target, source), r, target), target) == entry_at(fs, target),
{
    law_backup_differs_from_target(target);
    let b = spec_backup_path(target);
    let fs1 = apply_swap(fs, p, target, source);
    assert(fs1.contains_key(b));
    assert(fs1.contains_key(target));
    assert(entry_at(fs1, b) == entry_at(fs, target));
}

/// Swapping is idempotent: once the target is a link to the source, a second swap plans
/// no change and the file tree stays as it is.
pub proof fn law_swap_idempotent(
    fs: Map<Seq<char>, Entry>,
    target: Seq<char>,
    source: Seq<char>,
    st: TargetState,
    p: SymlinkPlan,
    st2: TargetState,
    p2: SymlinkPlan,
)
    requires
        observed(st, entry_at(fs, target), source),
        plan_matches(p, target, false, st),
        observed(st2, entry_at(apply_swap(fs, p, target, source), target), source),
        plan_matches(p2, target, false, st2),
    ensures
        p2 is AlreadyCorrect,
        apply_swap(apply_swap(fs, p, target, source), p2, target, source) == apply_swap(fs, p, target, source),
{
    let fs1 = apply_swap(fs, p, target, source);
    assert(fs1.contains_key(target));
    assert(entry_at(fs1, target) == Entry::Link(source));
}

/// Dry runs change nothing: neither a dry-run swap nor a dry-run restore touches the
/// file tree.
pub proof fn law_dry_run_changes_nothing(
    fs: Map<Seq<char>, Entry>,
    target: Seq<char>,
    source: Seq<char>,
    st: TargetState,
    p: SymlinkPlan,
    r: RestorePlan,
)
    requires
        plan_matches(p, target, true, st),
        r is DryRun,
    ensures
        apply_swap(fs, p, target, source) == fs,
        apply_restore(fs, r, target) == fs,
{
}

// ---------------------------------------------------------------------------
// Whole experiments: swapping and restoring lists of targets
// ---------------------------------------------------------------------------

/// One swap of `target` for a link to `source`, as its plan does it when the link's
/// destination can be read: nothing for a link already to the source; otherwise the old
/// entry (a file, or a link elsewhere) goes to the backup and the target becomes the link.
pub open spec fn swap_step(fs: Map<Seq<char>, Entry>, target: Seq<char>, source: Seq<char>) -> Map<Seq<char>, Entry> {
    match entry_at(fs, target) {
        Entry::Absent => fs.insert(target, Entry::Link(source)),
        Entry::Link(d) => if d == source {
            fs
        } else {
            fs.insert(spec_backup_path(target), Entry::Link(d)).insert(target, Entry::Link(source))
        },
        Entry::File { .. } => fs.insert(spec_backup_path(target), entry_at(fs, target)).insert(
            target,
            Entry::Link(source),
        ),
    }
}

/// One restore of `target`: its backup, when there is one, is renamed onto it; without a
/// backup nothing changes (the best-effort case; otherwise the restore is an error).
pub open spec fn restore_step(fs: Map<Seq<char>, Entry>, target: Seq<char>) -> Map<Seq<char>, Entry> {
    if entry_at(fs, spec_backup_path(target)) is Absent {
        fs
    } else {
        fs.remove(spec_backup_path(target)).insert(target, entry_at(fs, spec_backup_path(target)))
    }
}

/// Enabling: each (target, source) pair swapped in turn.
pub open spec fn enable_all(fs: Map<Seq<char>, Entry>, pairs: Seq<(Seq<char>, Seq<char>)>) -> Map<Seq<char>, Entry>
    decreases pairs.len(),
{
    if pairs.len() == 0 {
        fs
    } else {
        swap_step(enable_all(fs, pairs.drop_last()), pairs.last().0, pairs.last().1)
    }
}

/// Disabling: each target restored in turn.
pub open spec fn disable_all(fs: Map<Seq<char>, Entry>, targets: Seq<Seq<char>>) -> Map<Seq<char>, Entry>
    decreases targets.len(),
{
    if targets.len() == 0 {
        fs
    } else {
        restore_step(disable_all(fs, targets.drop_last()), targets.last())
    }
}

/// The targets of a list of pairs.
pub open spec fn targets_of(pairs: Seq<(Seq<char>, Seq<char>)>) -> Seq<Seq<char>> {
    pairs.map_values(|p: (Seq<char>, Seq<char>)| p.0)
}

/// The targets are distinct, so are their backups, and no target is a backup.
pub open spec fn slots_apart(pairs: Seq<(Seq<char>, Seq<char>)>) -> bool {
    &&& forall|i: int, j: int|
        #![trigger pairs[i], pairs[j]]
        0 <= i < pairs.len() && 0 <= j < pairs.len() && i != j ==> pairs[i].0 != pairs[j].0
            && spec_backup_path(pairs[i].0) != spec_backup_path(pairs[j].0)
    &&& forall|i: int, j: int|
        #![trigger pairs[i], pairs[j]]
        0 <= i < pairs.len() && 0 <= j < pairs.len() ==> pairs[i].0 != spec_backup_path(pairs[j].0)
}

/// Every target holds something a restore can give back: a file, or a link elsewhere
/// than its source.
pub open spec fn restorable(fs: Map<Seq<char>, Entry>, pairs: Seq<(Seq<char>, Seq<char>)>) -> bool {
    forall|i: int|
        0 <= i < pairs.len() ==> (#[trigger] entry_at(fs, pairs[i].0) is File || (entry_at(fs, pairs[i].0) matches Entry::Link(
            d,
        ) && d != pairs[i].1))
}

/// The model's swap step is what the swap plan does, for every plan that matches what
/// was found at the target.
pub proof fn lemma_swap_step_follows_plan(
    fs: Map<Seq<char>, Entry>,
    target: Seq<char>,
    source: Seq<char>,
    st: TargetState,
    p: SymlinkPlan,
)
    requires
        observed(st, entry_at(fs, target), source),
        plan_matches(p, target, false, st),
    ensures
        apply_swap(fs, p, target, source) == swap_step(fs, target, source),
{
    match entry_at(fs, target) {
        Entry::File { .. } => {
            assert(apply_swap(fs, p, target, source) =~= swap_step(fs, target, source));
        },
        Entry::Link(d) => {
            assert(apply_swap(fs, p, target, source) =~= swap_step(fs, target, source));
        },
        Entry::Absent => {
            assert(apply_swap(fs, p, target, source) =~= swap_step(fs, target, source));
        },
    }
}

proof fn lemma_swap_frame(fs: Map<Seq<char>, Entry>, target: Seq<char>, source: Seq<char>, q: Seq<char>)
    requires
        q != target,
        q != spec_backup_path(target),
    ensures
        entry_at(swap_step(fs, target, source), q) == entry_at(fs, q),
{
}

proof fn lemma_restore_frame(fs: Map<Seq<char>, Entry>, target: Seq<char>, q: Seq<char>)
    requires
        q != target,
        q != spec_backup_path(target),
    ensures
        entry_at(restore_step(fs, target), q) == entry_at(fs, q),
{
}

/// After enabling the first `k` pairs: their targets are links to their sources and their
/// backups hold what the targets held (for restorable targets); the later targets are as
/// they were.
proof fn lemma_enable_prefix(fs: Map<Seq<char>, Entry>, pairs: Seq<(Seq<char>, Seq<char>)>, k: int)
    requires
        slots_apart(pairs),
        0 <= k <= pairs.len(),
    ensures
        forall|i: int| 0 <= i < k ==> entry_at(enable_all(fs, pairs.take(k)), #[trigger] pairs[i].0) == Entry::Link(pairs[i].1),
        forall|i: int| k <= i < pairs.len() ==> entry_at(enable_all(fs, pairs.take(k)), #[trigger] pairs[i].0) == entry_at(fs, pairs[i].0),
        restorable(fs, pairs) ==> forall|i: int|
            0 <= i < k ==> entry_at(enable_all(fs, pairs.take(k)), spec_backup_path(#[trigger] pairs[i].0)) == entry_at(fs, pairs[i].0),
    decreases k,
{
    if k > 0 {
        lemma_enable_prefix(fs, pairs, k - 1);
        let prev = enable_all(fs, pairs.take(k - 1));
        assert(pairs.take(k).drop_last() =~= pairs.take(k - 1));
        assert(pairs.take(k).last() == pairs[k - 1]);
        let t = pairs[k - 1].0;
        let cur = enable_all(fs, pairs.take(k));
        assert(cur == swap_step(prev, t, pairs[k - 1].1));
        assert forall|i: int| 0 <= i < k implies entry_at(cur, #[trigger] pairs[i].0) == Entry::Link(pairs[i].1) by {
            if i < k - 1 {
                lemma_swap_frame(prev, t, pairs[k - 1].1, pairs[i].0);
            }
        }
        assert forall|i: int| k <= i < pairs.len() implies entry_at(cur, #[trigger] pairs[i].0) == entry_at(fs, pairs[i].0) by {
            lemma_swap_frame(prev, t, pairs[k - 1].1, pairs[i].0);
        }
        if restorable(fs, pairs) {
            assert forall|i: int| 0 <= i < k implies entry_at(cur, spec_backup_path(#[trigger] pairs[i].0)) == entry_at(fs, pairs[i].0) by {
                if i < k - 1 {
                    lemma_swap_frame(prev, t, pairs[k - 1].1, spec_backup_path(pairs[i].0));
                } else {
                    assert(entry_at(prev, t) == entry_at(fs, t));
                    assert(entry_at(fs, pairs[k - 1].0) is File || (entry_at(fs, pairs[k - 1].0) matches Entry::Link(d)
                        && d != pairs[k - 1].1));
                }
            }
        }
    }
}

proof fn lemma_enable_fixed(g: Map<Seq<char>, Entry>, pairs: Seq<(Seq<char>, Seq<char>)>, k: int)
    requires
        0 <= k <= pairs.len(),
        forall|i: int| 0 <= i < pairs.len() ==> entry_at(g, #[trigger] pairs[i].0) == Entry::Link(pairs[i].1),
    ensures
        enable_all(g, pairs.take(k)) == g,
    decreases k,
{
    if k > 0 {
        lemma_enable_fixed(g, pairs, k - 1);
        assert(pairs.take(k).drop_last() =~= pairs.take(k - 1));
        assert(pairs.take(k).last() == pairs[k - 1]);
        assert(entry_at(g, pairs[k - 1].0) == Entry::Link(pairs[k - 1].1));
    }
}

/// Enabling twice leaves what enabling once left: on the second run every target is
/// already a link to its source, so nothing changes.
pub proof fn law_enable_idempotent(fs: Map<Seq<char>, Entry>, pairs: Seq<(Seq<char>, Seq<char>)>)
    requires
        slots_apart(pairs),
    ensures
        enable_all(enable_all(fs, pairs), pairs) == enable_all(fs, pairs),
{
    lemma_enable_prefix(fs, pairs, pairs.len() as int);
    assert(pairs.take(pairs.len() as int) =~= pairs);
    lemma_enable_fixed(enable_all(fs, pairs), pairs, pairs.len() as int);
}

/// While disabling after an enable: the first `k` targets hold what they held before the
/// enable, the later ones still have their backups.
proof fn lemma_disable_prefix(fs: Map<Seq<char>, Entry>, pairs: Seq<(Seq<char>, Seq<char>)>, k: int)
    requires
        slots_apart(pairs),
        restorable(fs, pairs),
        0 <= k <= pairs.len(),
    ensures
        forall|i: int|
            0 <= i < k ==> entry_at(disable_all(enable_all(fs, pairs), targets_of(pairs).take(k)), #[trigger] pairs[i].0)
                == entry_at(fs, pairs[i].0),
        forall|i: int|
            k <= i < pairs.len() ==> entry_at(
                disable_all(enable_all(fs, pairs), targets_of(pairs).take(k)),
                spec_backup_path(#[trigger] pairs[i].0),
            ) == entry_at(fs, pairs[i].0),
    decreases k,
{
    let e = enable_all(fs, pairs);
    if k == 0 {
        lemma_enable_prefix(fs, pairs, pairs.len() as int);
        assert(pairs.take(pairs.len() as int) =~= pairs);
        assert(targets_of(pairs).take(0) =~= Seq::<Seq<char>>::empty());
    } else {
        lemma_disable_prefix(fs, pairs, k - 1);
        let ts = targets_of(pairs);
        assert(ts.take(k).drop_last() =~= ts.take(k - 1));
        assert(ts.take(k).last() == pairs[k - 1].0);
        let prev = disable_all(e, ts.take(k - 1));
        let cur = disable_all(e, ts.take(k));
        let t = pairs[k - 1].0;
        assert(cur == restore_step(prev, t));
        assert(entry_at(prev, spec_backup_path(t)) == entry_at(fs, t));
        assert(!(entry_at(fs, t) is Absent));
        assert forall|i: int| 0 <= i < k implies entry_at(cur, #[trigger] pairs[i].0) == entry_at(fs, pairs[i].0) by {
            if i < k - 1 {
                lemma_restore_frame(prev, t, pairs[i].0);
            }
        }
        assert forall|i: int| k <= i < pairs.len() implies entry_at(cur, spec_backup_path(#[trigger] pairs[i].0))
            == entry_at(fs, pairs[i].0) by {
            lemma_restore_frame(prev, t, spec_backup_path(pairs[i].0));
        }
    }
}

/// Disabling undoes enabling: restoring the targets, in order, after they were swapped
/// gives every target back what it held before (a file with its content and permission
/// bits, or the link it was).
pub proof fn law_disable_undoes_enable(fs: Map<Seq<char>, Entry>, pairs: Seq<(Seq<char>, Seq<char>)>)
    requires
        slots_apart(pairs),
        restorable(fs, pairs),
    ensures
        forall|i: int|
            0 <= i < pairs.len() ==> entry_at(disable_all(enable_all(fs, pairs), targets_of(pairs)), #[trigger] pairs[i].0)
                == entry_at(fs, pairs[i].0),
{
    lemma_disable_prefix(fs, pairs, pairs.len() as int);
    assert(targets_of(pairs).take(pairs.len() as int) =~= targets_of(pairs));
}

} // verus!
