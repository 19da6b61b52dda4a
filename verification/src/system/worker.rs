//! The system worker's policy: which helpers to try, how the distribution and the
//! repositories are read, and the step-by-step decisions of the package operations.
//! The operations themselves (running pacman, reading files, sleeping) are carried
//! out by the caller, which reports each outcome back.

use vstd::prelude::*;
use crate::checks::Distribution;
use crate::config::packages::UUTILS_FINDUTILS;
use crate::error::{Error, Result};
use crate::symlink::ops::{
    plan_matches, restore_plan, spec_backup_path, spec_is_safe_path, symlink_plan,
    symlink_precheck, traversal_message, RestorePlan, SymlinkPlan, TargetState,
};
use crate::utils::paths::path_eq;
use crate::utils::text::{
    ascii_lower, ascii_lowercase, chars_eq_str, contains_str, has_prefix, has_sub, is_char_pred,
    lines, split_lines, starts_with, str_chars, string_from, trim, trim_by, trim_char, trim_ws,
    views,
};
use crate::utils::worker::{
    default_helper_list, default_helpers, is_valid_package_name, spec_is_valid_package_name,
    strings_view,
};

verus! {

/// System worker settings.
pub struct Worker {
    pub aur_helper: String,
    pub dry_run: bool,
    pub wait_lock_secs: Option<u64>,
    pub flip_checksums: bool,
}

/// The helpers to try for a configured helper: the configured one first unless it is
/// empty, `auto` or `none`, then the defaults.
pub open spec fn spec_worker_helper_candidates(configured: Seq<char>) -> Seq<Seq<char>> {
    if configured.len() > 0 && configured != "auto"@ && configured != "none"@ {
        seq![configured] + default_helpers()
    } else {
        default_helpers()
    }
}

impl Worker {
    /// Create a new worker.
    pub fn new(aur_helper: String, dry_run: bool, wait_lock_secs: Option<u64>, flip_checksums: bool) -> (r: Self)
        ensures
            r.aur_helper == aur_helper,
            r.dry_run == dry_run,
            r.wait_lock_secs == wait_lock_secs,
            r.flip_checksums == flip_checksums,
    {
        Self { aur_helper, dry_run, wait_lock_secs, flip_checksums }
    }

    /// The AUR helpers to try, in order.
    pub fn aur_helper_candidates(&self) -> (r: Vec<String>)
        ensures
            strings_view(r@) == spec_worker_helper_candidates(self.aur_helper@),
    {
        let defaults = default_helper_list();
        let h = str_chars(self.aur_helper.as_str());
        if h.len() > 0 && !chars_eq_str(h.as_slice(), "auto") && !chars_eq_str(h.as_slice(), "none") {
            let mut r: Vec<String> = Vec::new();
            r.push(self.aur_helper.clone());
            let mut i: usize = 0;
            while i < defaults.len()
                invariant
                    i <= defaults@.len(),
                    strings_view(defaults@) == default_helpers(),
                    strings_view(r@) == seq![self.aur_helper@] + default_helpers().take(i as int),
                decreases defaults@.len() - i,
            {
                let d = defaults[i].clone();
                assert(d@ == default_helpers()[i as int]);
                let ghost old_r = r@;
                r.push(d);
                assert(strings_view(r@) =~= strings_view(old_r).push(d@));
                i = i + 1;
                assert(strings_view(r@) =~= seq![self.aur_helper@] + default_helpers().take(i as int));
            }
            assert(default_helpers().take(4) =~= default_helpers());
            r
        } else {
            defaults
        }
    }

    /// Whether a package name is safe to hand to the package manager.
    pub fn is_valid_package_name(name: &str) -> (r: bool)
        ensures
            r == spec_is_valid_package_name(name@),
    {
        is_valid_package_name(name)
    }

    /// The first step of swapping `target` for a symlink to `source`, given what was
    /// found at the target: `None` when source and target are the same path, an error
    /// for paths with traversal, otherwise the plan (nothing changes in a dry run).
    pub fn replace_file_with_symlink(&self, source: &str, target: &str, state: &TargetState) -> (r: Result<Option<SymlinkPlan>>)
        ensures
            path_eq(source@, target@) ==> r matches Ok(None),
            !path_eq(source@, target@) && !(spec_is_safe_path(source@) && spec_is_safe_path(target@))
                ==> (r matches Err(Error::ExecutionFailed(m)) && m@ == traversal_message()),
            !path_eq(source@, target@) && spec_is_safe_path(source@) && spec_is_safe_path(target@)
                ==> (r matches Ok(Some(p)) && plan_matches(p, target@, self.dry_run, *state)),
    {
        match symlink_precheck(source, target) {
            Err(e) => Err(e),
            Ok(false) => Ok(None),
            Ok(true) => Ok(Some(symlink_plan(target, self.dry_run, state))),
        }
    }

    /// The plan for restoring `target` from its backup (nothing changes in a dry run).
    pub fn restore_file(&self, target: &str, backup_exists: bool, force_best_effort: bool) -> (r: Result<RestorePlan>)
        ensures
            backup_exists && self.dry_run ==> (r matches Ok(RestorePlan::DryRun { backup })
                && backup@ == spec_backup_path(target@)),
            backup_exists && !self.dry_run ==> (r matches Ok(RestorePlan::Restore { backup })
                && backup@ == spec_backup_path(target@)),
            !backup_exists && force_best_effort ==> r matches Ok(RestorePlan::LeaveAsIs),
            !backup_exists && !force_best_effort ==> (r matches Err(Error::RestoreBackupMissing(m))
                && m@ == target@),
    {
        restore_plan(target, backup_exists, self.dry_run, force_best_effort)
    }
}

// ---------------------------------------------------------------------------
// /etc/os-release
// ---------------------------------------------------------------------------

/// The value of the last line of `ls` that starts with `key`, with surrounding `"` removed.
pub open spec fn last_value(ls: Seq<Seq<char>>, key: Seq<char>) -> Option<Seq<char>>
    decreases ls.len(),
{
    if ls.len() == 0 {
        None
    } else if has_prefix(ls.last(), key) {
        Some(trim_by(ls.last().skip(key.len() as int), is_char_pred('"')))
    } else {
        last_value(ls.drop_last(), key)
    }
}

/// The distribution described by an os-release text: the last `ID=` (default `arch`),
/// the last `ID_LIKE=` (default empty), release `rolling`.
pub open spec fn spec_distribution_id(content: Seq<char>) -> Seq<char> {
    match last_value(split_lines(content), "ID="@) {
        Some(v) => v,
        None => "arch"@,
    }
}

pub open spec fn spec_distribution_id_like(content: Seq<char>) -> Seq<char> {
    match last_value(split_lines(content), "ID_LIKE="@) {
        Some(v) => v,
        None => seq![],
    }
}

fn value_after(line: &Vec<char>, key: &str) -> (r: Option<Vec<char>>)
    ensures
        match r {
            Some(v) => has_prefix(line@, key@) && v@ == trim_by(line@.skip(key@.len() as int), is_char_pred('"')),
            None => !has_prefix(line@, key@),
        },
{
    let k = str_chars(key);
    if starts_with(line.as_slice(), k.as_slice()) {
        let mut rest: Vec<char> = Vec::new();
        let mut i: usize = k.len();
        while i < line.len()
            invariant
                k@.len() <= i <= line@.len(),
                rest@ == line@.subrange(k@.len() as int, i as int),
            decreases line@.len() - i,
        {
            rest.push(line[i]);
            i = i + 1;
        }
        assert(rest@ =~= line@.skip(k@.len() as int));
        Some(trim_char(rest.as_slice(), '"'))
    } else {
        None
    }
}

/// `last_value` matches what a scan up to position `i` found.
pub open spec fn found_matches(found: Option<Vec<char>>, ls: Seq<Seq<char>>, key: Seq<char>) -> bool {
    match found {
        Some(v) => last_value(ls, key) == Some(v@),
        None => last_value(ls, key) is None,
    }
}

/// The distribution described by an os-release text.
pub fn parse_os_release(content: &str) -> (d: Distribution)
    ensures
        d.id@ == spec_distribution_id(content@),
        d.id_like@ == spec_distribution_id_like(content@),
        d.release@ == "rolling"@,
{
    let c = str_chars(content);
    let ls = lines(c.as_slice());
    let mut id: Option<Vec<char>> = None;
    let mut id_like: Option<Vec<char>> = None;
    let mut i: usize = 0;
    assert(views(ls@).take(0) =~= seq![]);
    while i < ls.len()
        invariant
            i <= ls@.len(),
            views(ls@) == split_lines(content@),
            found_matches(id, views(ls@).take(i as int), "ID="@),
            found_matches(id_like, views(ls@).take(i as int), "ID_LIKE="@),
        decreases ls@.len() - i,
    {
        proof {
            assert(views(ls@).take(i + 1).drop_last() =~= views(ls@).take(i as int));
            assert(views(ls@).take(i + 1).last() == ls@[i as int]@);
        }
        match value_after(&ls[i], "ID=") {
            Some(v) => {
                id = Some(v);
            },
            None => {},
        }
        match value_after(&ls[i], "ID_LIKE=") {
            Some(v) => {
                id_like = Some(v);
            },
            None => {},
        }
        i = i + 1;
    }
    assert(views(ls@).take(ls@.len() as int) =~= views(ls@));
    let id_s = match id {
        Some(v) => string_from(v.as_slice()),
        None => "arch".to_owned(),
    };
    let id_like_s = match id_like {
        Some(v) => string_from(v.as_slice()),
        None => String::new(),
    };
    Distribution { id: id_s, id_like: id_like_s, release: "rolling".to_owned() }
}

// ---------------------------------------------------------------------------
// Is the official `extra` repository configured?
// ---------------------------------------------------------------------------

/// The probes tried, in order, to learn whether the `extra` repository is configured.
pub enum ExtraRepoProbe {
    /// `pacman-conf --repo-list`: its output and whether it succeeded.
    RepoList,
    /// `pacman -Sl extra`: whether it succeeded.
    SyncDb,
    /// `pacman-conf -l`: its output and whether it succeeded.
    ConfigDump,
    /// The text of `/etc/pacman.conf` (empty when unreadable).
    ConfigFile,
}

/// After a probe: the answer, or the probe to run next.
pub enum ExtraRepoStep {
    Found(bool),
    Next(ExtraRepoProbe),
}

/// Some line of the repository list, trimmed and in ASCII lowercase, is `extra`.
pub open spec fn spec_repo_list_has_extra(out: Seq<char>) -> bool {
    exists|k: int| 0 <= k < split_lines(out).len() && ascii_lower(trim_ws(#[trigger] split_lines(out)[k])) == "extra"@
}

/// The text, in ASCII lowercase, holds `[extra]`.
pub open spec fn spec_lists_extra_section(text: Seq<char>) -> bool {
    has_sub(ascii_lower(text), "[extra]"@)
}

/// Whether the repository list names `extra`.
pub fn repo_list_has_extra(out: &str) -> (r: bool)
    ensures
        r == spec_repo_list_has_extra(out@),
{
    let c = str_chars(out);
    let ls = lines(c.as_slice());
    let mut k: usize = 0;
    while k < ls.len()
        invariant
            k <= ls@.len(),
            views(ls@) == split_lines(out@),
            forall|j: int| 0 <= j < k ==> ascii_lower(trim_ws(#[trigger] split_lines(out@)[j])) != "extra"@,
        decreases ls@.len() - k,
    {
        let t = trim(ls[k].as_slice());
        let l = ascii_lowercase(t.as_slice());
        assert(split_lines(out@)[k as int] == ls@[k as int]@);
        if chars_eq_str(l.as_slice(), "extra") {
            return true;
        }
        k = k + 1;
    }
    false
}

/// Whether a configuration text holds an `[extra]` section header (ASCII case ignored).
pub fn lists_extra_section(text: &str) -> (r: bool)
    ensures
        r == spec_lists_extra_section(text@),
{
    let c = str_chars(text);
    let l = ascii_lowercase(c.as_slice());
    contains_str(l.as_slice(), "[extra]")
}

/// The answer of a probe, or the next probe: the repository list or the configuration
/// dump answers yes only when the command succeeded and names `extra`; the sync database
/// answers yes when listing `extra` succeeded; the configuration file answers last.
pub fn extra_repo_step(probe: ExtraRepoProbe, success: bool, text: &str) -> (r: ExtraRepoStep)
    ensures
        probe is RepoList ==> (if success && spec_repo_list_has_extra(text@) {
            r matches ExtraRepoStep::Found(true)
        } else {
            r matches ExtraRepoStep::Next(ExtraRepoProbe::SyncDb)
        }),
        probe is SyncDb ==> (if success {
            r matches ExtraRepoStep::Found(true)
        } else {
            r matches ExtraRepoStep::Next(ExtraRepoProbe::ConfigDump)
        }),
        probe is ConfigDump ==> (if success && spec_lists_extra_section(text@) {
            r matches ExtraRepoStep::Found(true)
        } else {
            r matches ExtraRepoStep::Next(ExtraRepoProbe::ConfigFile)
        }),
        probe is ConfigFile ==> (r matches ExtraRepoStep::Found(b) && b == spec_lists_extra_section(text@)),
{
    match probe {
        ExtraRepoProbe::RepoList => {
            if success && repo_list_has_extra(text) {
                ExtraRepoStep::Found(true)
            } else {
                ExtraRepoStep::Next(ExtraRepoProbe::SyncDb)
            }
        },
        ExtraRepoProbe::SyncDb => {
            if success {
                ExtraRepoStep::Found(true)
            } else {
                ExtraRepoStep::Next(ExtraRepoProbe::ConfigDump)
            }
        },
        ExtraRepoProbe::ConfigDump => {
            if success && lists_extra_section(text) {
                ExtraRepoStep::Found(true)
            } else {
                ExtraRepoStep::Next(ExtraRepoProbe::ConfigFile)
            }
        },
        ExtraRepoProbe::ConfigFile => ExtraRepoStep::Found(lists_extra_section(text)),
    }
}


// ---------------------------------------------------------------------------
// Waiting for the pacman database lock
// ---------------------------------------------------------------------------

/// What to do about the pacman database lock.
pub enum LockStep {
    /// The lock is clear: go on.
    Clear,
    /// Stop waiting: the lock is held and there is no time left (or no wait allowed).
    GiveUp,
    /// Sleep one check interval, then look again.
    Sleep,
}

/// The lock decision, given whether the lock is held, the allowed wait, and the time
/// already waited: a free lock clears; a held one is given up at once when no wait is
/// allowed, waited for while the allowed seconds have not passed, then given up.
pub fn lock_wait_step(locked: bool, wait_lock_secs: Option<u64>, elapsed_ms: u64) -> (r: LockStep)
    ensures
        !locked ==> r is Clear,
        locked && wait_lock_secs is None ==> r is GiveUp,
        locked && wait_lock_secs is Some && elapsed_ms < wait_lock_secs->0 * 1000 ==> r is Sleep,
        locked && wait_lock_secs is Some && elapsed_ms >= wait_lock_secs->0 * 1000 ==> r is GiveUp,
{
    if !locked {
        return LockStep::Clear;
    }
    match wait_lock_secs {
        None => LockStep::GiveUp,
        Some(secs) => {
            if (elapsed_ms as u128) < (secs as u128) * 1000 {
                LockStep::Sleep
            } else {
                LockStep::GiveUp
            }
        },
    }
}

// ---------------------------------------------------------------------------
// Package operations, step by step
// ---------------------------------------------------------------------------

/// What the caller is asked to do next in a package operation.
pub enum PacmanAction {
    /// The operation is over, with this outcome.
    Finish(Result<()>),
    /// Report whether the package is installed (`pacman -Qi`).
    CheckInstalled,
    /// Wait for the database lock (see `lock_wait_step`) and report whether it cleared.
    WaitLock,
    /// Report whether the official repositories carry the package (`pacman -Si`); a failed
    /// probe counts as no.
    ProbeRepo,
    /// Run `pacman` with these arguments and report whether it succeeded.
    RunPacman(Vec<String>),
    /// Report which of these helpers are found on the search path, in this order.
    ListHelpers(Vec<String>),
    /// Run this command as the `builder` user (`su - builder -c <command>`) and report
    /// whether it succeeded.
    RunHelper(String),
}

/// The package operations.
pub enum PacmanOp {
    Update,
    Install,
    Remove,
}

/// Where a package operation stands: which answer it waits for.
pub enum PacmanStage {
    AwaitInstalled,
    AwaitLock,
    AwaitProbe,
    AwaitPacman,
    AwaitCheck,
    AwaitHelpers,
    AwaitHelper,
    AwaitHelperCheck,
    Finished,
}

/// A package operation under way.
pub struct PacmanRun {
    pub op: PacmanOp,
    pub package: String,
    pub assume_yes: bool,
    pub stage: PacmanStage,
    pub attempted_pacman: bool,
    pub pacman_ok: bool,
    /// The AUR helpers to look for, in order of preference.
    pub candidates: Vec<String>,
    /// The helpers found on the search path.
    pub helpers: Vec<String>,
    pub next_helper: usize,
    pub tried_any: bool,
}

/// A copy of a list of strings.
pub fn clone_strings(v: &Vec<String>) -> (r: Vec<String>)
    ensures
        strings_view(r@) == strings_view(v@),
{
    let mut r: Vec<String> = Vec::new();
    let mut i: usize = 0;
    while i < v.len()
        invariant
            i <= v@.len(),
            strings_view(r@) == strings_view(v@).take(i as int),
        decreases v@.len() - i,
    {
        let ghost o = r@;
        r.push(v[i].clone());
        assert(strings_view(r@) =~= strings_view(o).push(v@[i as int]@));
        i = i + 1;
        assert(strings_view(v@).take(i as int) =~= strings_view(v@).take(i - 1).push(v@[i - 1]@));
    }
    assert(strings_view(v@).take(v@.len() as int) =~= strings_view(v@));
    r
}

/// The message when the pacman database stays locked.
pub open spec fn lock_message() -> Seq<char> {
    "pacman database lock present at /var/lib/pacman/db.lck; retry later"@
}

/// The arguments of a pacman run: the operation flag, `--noconfirm` when confirmations
/// are assumed, then the package (none for a refresh).
pub open spec fn spec_pacman_args(flag: Seq<char>, assume_yes: bool, package: Option<Seq<char>>) -> Seq<Seq<char>> {
    seq![flag] + (if assume_yes {
        seq!["--noconfirm"@]
    } else {
        seq![]
    }) + match package {
        Some(p) => seq![p],
        None => seq![],
    }
}

/// The AUR helper command line: `<helper>[ --batchinstall --noconfirm] -S --needed <package>`.
pub open spec fn spec_aur_command(helper: Seq<char>, package: Seq<char>, assume_yes: bool) -> Seq<char> {
    helper + (if assume_yes {
        " --batchinstall --noconfirm"@
    } else {
        seq![]
    }) + " -S --needed"@ + seq![' '] + package
}

fn pacman_args(flag: &str, assume_yes: bool, package: Option<&str>) -> (r: Vec<String>)
    ensures
        strings_view(r@) == spec_pacman_args(flag@, assume_yes, match package {
            Some(p) => Some(p@),
            None => None,
        }),
{
    let mut r: Vec<String> = Vec::new();
    r.push(flag.to_owned());
    if assume_yes {
        r.push("--noconfirm".to_owned());
    }
    match package {
        Some(p) => {
            r.push(p.to_owned());
        },
        None => {},
    }
    assert(strings_view(r@) =~= spec_pacman_args(flag@, assume_yes, match package {
        Some(p) => Some(p@),
        None => None,
    }));
    r
}

/// The AUR helper command line for installing `package`.
pub fn aur_command(helper: &str, package: &str, assume_yes: bool) -> (r: String)
    ensures
        r@ == spec_aur_command(helper@, package@, assume_yes),
{
    let mut s = helper.to_owned();
    if assume_yes {
        s.append(" --batchinstall --noconfirm");
    }
    s.append(" -S --needed");
    crate::utils::text::push_char(&mut s, ' ');
    s.append(package);
    s
}

/// The message of a failed install from the official repositories.
pub open spec fn official_failed_message(p: Seq<char>) -> Seq<char> {
    "❌ Expected: '"@ + p
        + "' installed, Received: absent. Failed to install from official repositories (pacman -S). Package may be unavailable in configured repos or mirrors."@
}

/// The message when no AUR helper was found.
pub open spec fn no_helper_message(p: Seq<char>) -> Seq<char> {
    "❌ Expected: '"@ + p
        + "' installed, Received: absent. Reason: no AUR helper found. Install an AUR helper (e.g., paru or yay) or pass --package-manager to specify one."@
}

/// The message when pacman and every available AUR helper failed.
pub open spec fn aur_failed_message(p: Seq<char>, attempted_pacman: bool, pacman_ok: bool) -> Seq<char> {
    "❌ Expected: '"@ + p + "' installed, Received: absent. "@ + (if attempted_pacman {
        seq![]
    } else {
        "(official repos do not carry this package)."@
    }) + " Failed to install via pacman"@ + (if attempted_pacman && !pacman_ok {
        " (pacman reported target not found)"@
    } else {
        seq![]
    }) + " or any available AUR helper. Ensure networking and helper are functional."@
}

/// The message when a removed package is still installed.
pub open spec fn still_present_message(p: Seq<char>) -> Seq<char> {
    "❌ Expected: '"@ + p + "' absent after removal, Received: present"@
}

/// The message when `pacman -R` fails.
pub open spec fn remove_failed_message(p: Seq<char>) -> Seq<char> {
    "❌ Expected: '"@ + p + "' absent after removal, Received: present (pacman -R failed)"@
}

fn cat3(a: &str, b: &str, c: &str) -> (r: String)
    ensures
        r@ == a@ + b@ + c@,
{
    let mut s = a.to_owned();
    s.append(b);
    s.append(c);
    s
}

fn failed(m: String) -> (r: PacmanAction)
    ensures
        r matches PacmanAction::Finish(Err(Error::ExecutionFailed(x))) && x@ == m@,
{
    PacmanAction::Finish(Err(Error::ExecutionFailed(m)))
}

/// The outcome of an operation is a failure with this message.
pub open spec fn fails_with(a: PacmanAction, m: Seq<char>) -> bool {
    a matches PacmanAction::Finish(Err(Error::ExecutionFailed(x))) && x@ == m
}

/// The run asks for pacman with exactly these arguments.
pub open spec fn runs_pacman(a: PacmanAction, args: Seq<Seq<char>>) -> bool {
    a matches PacmanAction::RunPacman(v) && strings_view(v@) == args
}

impl PacmanRun {
    /// The helper counter stays within the helpers found.
    pub open spec fn wf(&self) -> bool {
        self.next_helper <= self.helpers@.len()
    }

    /// The run waits for a yes/no answer.
    pub open spec fn awaits_answer(&self) -> bool {
        !(self.stage is AwaitHelpers || self.stage is Finished)
    }

    /// The run's flag for pacman.
    pub open spec fn is_findutils(&self) -> bool {
        self.package@ == UUTILS_FINDUTILS@
    }

    fn finish(&mut self, a: PacmanAction) -> (r: PacmanAction)
        ensures
            r == a,
            final(self).stage is Finished,
            final(self).op == old(self).op,
            final(self).package == old(self).package,
            final(self).helpers == old(self).helpers,
            final(self).candidates == old(self).candidates,
            final(self).next_helper == old(self).next_helper,
    {
        self.stage = PacmanStage::Finished;
        a
    }

    /// The step after the official repositories were tried (or skipped): the AUR is
    /// tried only for the AUR-only findutils package; anything else has failed.
    fn after_pacman(&mut self) -> (r: PacmanAction)
        requires
            old(self).wf(),
        ensures
            final(self).wf(),
            final(self).package == old(self).package,
            final(self).op == old(self).op,
            final(self).candidates == old(self).candidates,
            final(self).assume_yes == old(self).assume_yes,
            final(self).attempted_pacman == old(self).attempted_pacman,
            final(self).pacman_ok == old(self).pacman_ok,
            final(self).tried_any == old(self).tried_any,
            final(self).helpers == old(self).helpers,
            final(self).next_helper == old(self).next_helper,
            old(self).is_findutils() ==> (final(self).stage is AwaitHelpers && (r matches PacmanAction::ListHelpers(v)
                && strings_view(v@) == strings_view(old(self).candidates@))),
            !old(self).is_findutils() ==> (final(self).stage is Finished && fails_with(
                r,
                official_failed_message(old(self).package@),
            )),
    {
        let p = str_chars(self.package.as_str());
        if chars_eq_str(p.as_slice(), UUTILS_FINDUTILS) {
            self.stage = PacmanStage::AwaitHelpers;
            PacmanAction::ListHelpers(clone_strings(&self.candidates))
        } else {
            let m = cat3(
                "❌ Expected: '",
                self.package.as_str(),
                "' installed, Received: absent. Failed to install from official repositories (pacman -S). Package may be unavailable in configured repos or mirrors.",
            );
            self.stage = PacmanStage::Finished;
            failed(m)
        }
    }
}


/// What follows once the official repositories were tried or skipped: the helpers are
/// looked for (findutils only), or the install has failed.
pub open spec fn after_pacman_outcome(old_run: PacmanRun, new_run: PacmanRun, r: PacmanAction) -> bool {
    if old_run.is_findutils() {
        new_run.stage is AwaitHelpers && (r matches PacmanAction::ListHelpers(v) && strings_view(v@)
            == strings_view(old_run.candidates@))
    } else {
        new_run.stage is Finished && fails_with(r, official_failed_message(old_run.package@))
    }
}

/// What follows when a helper is due: the next found helper is run, or, when none is
/// left, the install has failed (no helper at all, or all of them failed).
pub open spec fn helper_outcome(run: PacmanRun, r: PacmanAction) -> bool {
    if run.next_helper < run.helpers@.len() {
        run.stage is AwaitHelper && (r matches PacmanAction::RunHelper(c) && c@ == spec_aur_command(
            run.helpers@[run.next_helper as int]@,
            run.package@,
            run.assume_yes,
        ))
    } else {
        run.stage is Finished && fails_with(
            r,
            if run.tried_any {
                aur_failed_message(run.package@, run.attempted_pacman, run.pacman_ok)
            } else {
                no_helper_message(run.package@)
            },
        )
    }
}

/// The stages at which an operation waits for a yes/no answer.
pub open spec fn answer_stage(op: PacmanOp, stage: PacmanStage) -> bool {
    match op {
        PacmanOp::Update => stage is AwaitLock || stage is AwaitPacman,
        PacmanOp::Remove => stage is AwaitInstalled || stage is AwaitLock || stage is AwaitPacman
            || stage is AwaitCheck,
        PacmanOp::Install => !(stage is AwaitHelpers || stage is Finished),
    }
}

/// The run asks whether the package is installed, at the given stage.
pub open spec fn asks(r: PacmanAction, a: PacmanAction) -> bool {
    &&& (a is CheckInstalled ==> r is CheckInstalled)
    &&& (a is WaitLock ==> r is WaitLock)
    &&& (a is ProbeRepo ==> r is ProbeRepo)
}

impl PacmanRun {
    /// The same run, with one more helper counted as tried.
    fn next_helper_step(&mut self) -> (r: PacmanAction)
        requires
            old(self).next_helper <= old(self).helpers@.len(),
        ensures
            final(self).wf(),
            final(self).package == old(self).package,
            final(self).op == old(self).op,
            final(self).assume_yes == old(self).assume_yes,
            final(self).helpers == old(self).helpers,
            final(self).candidates == old(self).candidates,
            final(self).next_helper == old(self).next_helper,
            final(self).tried_any == old(self).tried_any,
            final(self).attempted_pacman == old(self).attempted_pacman,
            final(self).pacman_ok == old(self).pacman_ok,
            helper_outcome(*final(self), r),
    {
        if self.next_helper < self.helpers.len() {
            let c = aur_command(self.helpers[self.next_helper].as_str(), self.package.as_str(), self.assume_yes);
            self.stage = PacmanStage::AwaitHelper;
            PacmanAction::RunHelper(c)
        } else {
            self.stage = PacmanStage::Finished;
            if self.tried_any {
                let a = cat3("❌ Expected: '", self.package.as_str(), "' installed, Received: absent. ");
                let b = if self.attempted_pacman {
                    String::new()
                } else {
                    "(official repos do not carry this package).".to_owned()
                };
                let c = if self.attempted_pacman && !self.pacman_ok {
                    " (pacman reported target not found)".to_owned()
                } else {
                    String::new()
                };
                let m = cat3(a.as_str(), b.as_str(), " Failed to install via pacman");
                let m2 = cat3(m.as_str(), c.as_str(), " or any available AUR helper. Ensure networking and helper are functional.");
                failed(m2)
            } else {
                let m = cat3(
                    "❌ Expected: '",
                    self.package.as_str(),
                    "' installed, Received: absent. Reason: no AUR helper found. Install an AUR helper (e.g., paru or yay) or pass --package-manager to specify one.",
                );
                failed(m)
            }
        }
    }

    /// The helpers found on the search path, in the order asked: they are tried in turn.
    pub fn helpers_found(&mut self, available: Vec<String>) -> (r: PacmanAction)
        requires
            old(self).stage is AwaitHelpers,
        ensures
            final(self).wf(),
            final(self).package == old(self).package,
            final(self).op == old(self).op,
            final(self).helpers == available,
            final(self).next_helper == 0,
            final(self).tried_any == old(self).tried_any,
            final(self).attempted_pacman == old(self).attempted_pacman,
            final(self).pacman_ok == old(self).pacman_ok,
            helper_outcome(*final(self), r),
    {
        self.helpers = available;
        self.next_helper = 0;
        self.next_helper_step()
    }

    /// The answer to the last yes/no question of the run, and what comes next.
    pub fn answer(&mut self, yes: bool) -> (r: PacmanAction)
        requires
            old(self).wf(),
            answer_stage(old(self).op, old(self).stage),
        ensures
            final(self).wf(),
            final(self).op == old(self).op,
            final(self).package == old(self).package,
            final(self).assume_yes == old(self).assume_yes,
            final(self).candidates == old(self).candidates,
            // Refreshing the databases.
            old(self).op is Update && old(self).stage is AwaitLock ==> if yes {
                final(self).stage is AwaitPacman && runs_pacman(r, spec_pacman_args("-Sy"@, old(self).assume_yes, None))
            } else {
                fails_with(r, lock_message())
            },
            old(self).op is Update && old(self).stage is AwaitPacman ==> if yes {
                r matches PacmanAction::Finish(Ok(()))
            } else {
                fails_with(r, "pacman -Sy failed (could not refresh package databases)"@)
            },
            // Removing a package.
            old(self).op is Remove && old(self).stage is AwaitInstalled ==> if yes {
                final(self).stage is AwaitLock && r is WaitLock
            } else {
                r matches PacmanAction::Finish(Ok(()))
            },
            old(self).op is Remove && old(self).stage is AwaitLock ==> if yes {
                final(self).stage is AwaitPacman && runs_pacman(r, spec_pacman_args("-R"@, old(self).assume_yes, Some(old(self).package@)))
            } else {
                fails_with(r, lock_message())
            },
            old(self).op is Remove && old(self).stage is AwaitPacman ==> if yes {
                final(self).stage is AwaitCheck && r is CheckInstalled
            } else {
                fails_with(r, remove_failed_message(old(self).package@))
            },
            old(self).op is Remove && old(self).stage is AwaitCheck ==> if yes {
                fails_with(r, still_present_message(old(self).package@))
            } else {
                r matches PacmanAction::Finish(Ok(()))
            },
            // Installing a package.
            old(self).op is Install && old(self).stage is AwaitInstalled ==> if yes {
                r matches PacmanAction::Finish(Ok(()))
            } else {
                final(self).stage is AwaitLock && r is WaitLock
            },
            old(self).op is Install && old(self).stage is AwaitLock ==> if !yes {
                fails_with(r, lock_message())
            } else if old(self).is_findutils() {
                final(self).stage is AwaitProbe && r is ProbeRepo
            } else {
                final(self).stage is AwaitPacman && final(self).attempted_pacman && runs_pacman(
                    r,
                    spec_pacman_args("-S"@, old(self).assume_yes, Some(old(self).package@)),
                )
            },
            old(self).op is Install && old(self).stage is AwaitProbe ==> if yes {
                final(self).stage is AwaitPacman && final(self).attempted_pacman && runs_pacman(
                    r,
                    spec_pacman_args("-S"@, old(self).assume_yes, Some(old(self).package@)),
                )
            } else {
                final(self).attempted_pacman == old(self).attempted_pacman && after_pacman_outcome(*old(self), *final(self), r)
            },
            old(self).op is Install && old(self).stage is AwaitPacman ==> final(self).pacman_ok == yes
                && if yes {
                final(self).stage is AwaitCheck && r is CheckInstalled
            } else {
                after_pacman_outcome(*old(self), *final(self), r)
            },
            old(self).op is Install && old(self).stage is AwaitCheck ==> if yes {
                r matches PacmanAction::Finish(Ok(()))
            } else {
                after_pacman_outcome(*old(self), *final(self), r)
            },
            old(self).op is Install && (old(self).stage is AwaitHelper || old(self).stage is AwaitHelperCheck)
                && !(old(self).next_helper < old(self).helpers@.len()) ==> r is Finish,
            old(self).op is Install && old(self).stage is AwaitHelper && old(self).next_helper
                < old(self).helpers@.len() ==> if yes {
                final(self).stage is AwaitHelperCheck && r is CheckInstalled
            } else {
                final(self).tried_any && final(self).next_helper == old(self).next_helper + 1
                    && final(self).helpers == old(self).helpers && helper_outcome(*final(self), r)
            },
            old(self).op is Install && old(self).stage is AwaitHelperCheck && old(self).next_helper
                < old(self).helpers@.len() ==> if yes {
                r matches PacmanAction::Finish(Ok(()))
            } else {
                final(self).tried_any && final(self).next_helper == old(self).next_helper + 1
                    && final(self).helpers == old(self).helpers && helper_outcome(*final(self), r)
            },
    {
        match self.op {
            PacmanOp::Update => match self.stage {
                PacmanStage::AwaitLock => {
                    if yes {
                        self.stage = PacmanStage::AwaitPacman;
                        PacmanAction::RunPacman(pacman_args("-Sy", self.assume_yes, None))
                    } else {
                        self.stage = PacmanStage::Finished;
                        failed("pacman database lock present at /var/lib/pacman/db.lck; retry later".to_owned())
                    }
                },
                _ => {
                    self.stage = PacmanStage::Finished;
                    if yes {
                        PacmanAction::Finish(Ok(()))
                    } else {
                        failed("pacman -Sy failed (could not refresh package databases)".to_owned())
                    }
                },
            },
            PacmanOp::Remove => match self.stage {
                PacmanStage::AwaitInstalled => {
                    if yes {
                        self.stage = PacmanStage::AwaitLock;
                        PacmanAction::WaitLock
                    } else {
                        self.stage = PacmanStage::Finished;
                        PacmanAction::Finish(Ok(()))
                    }
                },
                PacmanStage::AwaitLock => {
                    if yes {
                        self.stage = PacmanStage::AwaitPacman;
                        PacmanAction::RunPacman(pacman_args("-R", self.assume_yes, Some(self.package.as_str())))
                    } else {
                        self.stage = PacmanStage::Finished;
                        failed("pacman database lock present at /var/lib/pacman/db.lck; retry later".to_owned())
                    }
                },
                PacmanStage::AwaitPacman => {
                    if yes {
                        self.stage = PacmanStage::AwaitCheck;
                        PacmanAction::CheckInstalled
                    } else {
                        self.stage = PacmanStage::Finished;
                        failed(cat3("❌ Expected: '", self.package.as_str(), "' absent after removal, Received: present (pacman -R failed)"))
                    }
                },
                _ => {
                    self.stage = PacmanStage::Finished;
                    if yes {
                        failed(cat3("❌ Expected: '", self.package.as_str(), "' absent after removal, Received: present"))
                    } else {
                        PacmanAction::Finish(Ok(()))
                    }
                },
            },
            PacmanOp::Install => match self.stage {
                PacmanStage::AwaitInstalled => {
                    if yes {
                        self.stage = PacmanStage::Finished;
                        PacmanAction::Finish(Ok(()))
                    } else {
                        self.stage = PacmanStage::AwaitLock;
                        PacmanAction::WaitLock
                    }
                },
                PacmanStage::AwaitLock => {
                    if !yes {
                        self.stage = PacmanStage::Finished;
                        failed("pacman database lock present at /var/lib/pacman/db.lck; retry later".to_owned())
                    } else {
                        let p = str_chars(self.package.as_str());
                        if chars_eq_str(p.as_slice(), UUTILS_FINDUTILS) {
                            self.stage = PacmanStage::AwaitProbe;
                            PacmanAction::ProbeRepo
                        } else {
                            self.attempted_pacman = true;
                            self.stage = PacmanStage::AwaitPacman;
                            PacmanAction::RunPacman(pacman_args("-S", self.assume_yes, Some(self.package.as_str())))
                        }
                    }
                },
                PacmanStage::AwaitProbe => {
                    if yes {
                        self.attempted_pacman = true;
                        self.stage = PacmanStage::AwaitPacman;
                        PacmanAction::RunPacman(pacman_args("-S", self.assume_yes, Some(self.package.as_str())))
                    } else {
                        self.after_pacman()
                    }
                },
                PacmanStage::AwaitPacman => {
                    self.pacman_ok = yes;
                    if yes {
                        self.stage = PacmanStage::AwaitCheck;
                        PacmanAction::CheckInstalled
                    } else {
                        self.after_pacman()
                    }
                },
                PacmanStage::AwaitCheck => {
                    if yes {
                        self.stage = PacmanStage::Finished;
                        PacmanAction::Finish(Ok(()))
                    } else {
                        self.after_pacman()
                    }
                },
                PacmanStage::AwaitHelper => {
                    if self.next_helper >= self.helpers.len() {
                        return self.next_helper_step();
                    }
                    if yes {
                        self.stage = PacmanStage::AwaitHelperCheck;
                        PacmanAction::CheckInstalled
                    } else {
                        self.tried_any = true;
                        self.next_helper = self.next_helper + 1;
                        self.next_helper_step()
                    }
                },
                _ => {
                    if self.next_helper >= self.helpers.len() {
                        return self.next_helper_step();
                    }
                    if yes {
                        self.stage = PacmanStage::Finished;
                        PacmanAction::Finish(Ok(()))
                    } else {
                        self.tried_any = true;
                        self.next_helper = self.next_helper + 1;
                        self.next_helper_step()
                    }
                },
            },
        }
    }
}

impl Worker {
    fn start_run(&self, op: PacmanOp, package: &str, assume_yes: bool, stage: PacmanStage) -> (r: PacmanRun)
        ensures
            r.op == op,
            r.package@ == package@,
            r.assume_yes == assume_yes,
            r.stage == stage,
            !r.attempted_pacman,
            !r.pacman_ok,
            !r.tried_any,
            r.next_helper == 0,
            r.helpers@.len() == 0,
            strings_view(r.candidates@) == spec_worker_helper_candidates(self.aur_helper@),
            r.wf(),
    {
        PacmanRun {
            op,
            package: package.to_owned(),
            assume_yes,
            stage,
            attempted_pacman: false,
            pacman_ok: false,
            candidates: self.aur_helper_candidates(),
            helpers: Vec::new(),
            next_helper: 0,
            tried_any: false,
        }
    }

    /// Start refreshing the package databases (`pacman -Sy`): nothing in a dry run,
    /// otherwise first wait for the database lock.
    pub fn update_packages(&self, assume_yes: bool) -> (r: (PacmanRun, PacmanAction))
        ensures
            r.0.wf(),
            r.0.op is Update,
            r.0.assume_yes == assume_yes,
            self.dry_run ==> r.1 matches PacmanAction::Finish(Ok(())),
            !self.dry_run ==> r.0.stage is AwaitLock && r.1 is WaitLock,
    {
        if self.dry_run {
            (self.start_run(PacmanOp::Update, "", assume_yes, PacmanStage::Finished), PacmanAction::Finish(Ok(())))
        } else {
            (self.start_run(PacmanOp::Update, "", assume_yes, PacmanStage::AwaitLock), PacmanAction::WaitLock)
        }
    }

    /// Start installing a package: an invalid name is refused, nothing happens in a dry
    /// run, otherwise it is first checked whether the package is already installed.
    pub fn install_package(&self, package: &str, assume_yes: bool) -> (r: (PacmanRun, PacmanAction))
        ensures
            r.0.wf(),
            r.0.op is Install,
            r.0.package@ == package@,
            r.0.assume_yes == assume_yes,
            !r.0.attempted_pacman && !r.0.pacman_ok && !r.0.tried_any,
            strings_view(r.0.candidates@) == spec_worker_helper_candidates(self.aur_helper@),
            !spec_is_valid_package_name(package@) ==> fails_with(r.1, "Invalid or unsafe package name: "@ + package@),
            spec_is_valid_package_name(package@) && self.dry_run ==> r.1 matches PacmanAction::Finish(Ok(())),
            spec_is_valid_package_name(package@) && !self.dry_run ==> r.0.stage is AwaitInstalled && r.1 is CheckInstalled,
    {
        if !is_valid_package_name(package) {
            let m = crate::utils::text::concat_str("Invalid or unsafe package name: ", package);
            (self.start_run(PacmanOp::Install, package, assume_yes, PacmanStage::Finished), failed(m))
        } else if self.dry_run {
            (self.start_run(PacmanOp::Install, package, assume_yes, PacmanStage::Finished), PacmanAction::Finish(Ok(())))
        } else {
            (self.start_run(PacmanOp::Install, package, assume_yes, PacmanStage::AwaitInstalled), PacmanAction::CheckInstalled)
        }
    }

    /// Start removing a package: an invalid name is refused, nothing happens in a dry
    /// run, otherwise it is first checked whether the package is installed at all.
    pub fn remove_package(&self, package: &str, assume_yes: bool) -> (r: (PacmanRun, PacmanAction))
        ensures
            r.0.wf(),
            r.0.op is Remove,
            r.0.package@ == package@,
            r.0.assume_yes == assume_yes,
            !spec_is_valid_package_name(package@) ==> fails_with(r.1, "Invalid or unsafe package name for removal: "@ + package@),
            spec_is_valid_package_name(package@) && self.dry_run ==> r.1 matches PacmanAction::Finish(Ok(())),
            spec_is_valid_package_name(package@) && !self.dry_run ==> r.0.stage is AwaitInstalled && r.1 is CheckInstalled,
    {
        if !is_valid_package_name(package) {
            let m = crate::utils::text::concat_str("Invalid or unsafe package name for removal: ", package);
            (self.start_run(PacmanOp::Remove, package, assume_yes, PacmanStage::Finished), failed(m))
        } else if self.dry_run {
            (self.start_run(PacmanOp::Remove, package, assume_yes, PacmanStage::Finished), PacmanAction::Finish(Ok(())))
        } else {
            (self.start_run(PacmanOp::Remove, package, assume_yes, PacmanStage::AwaitInstalled), PacmanAction::CheckInstalled)
        }
    }
}

} // verus!
