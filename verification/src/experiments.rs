//! The experiments: which tool families are switched, and how they are gated.

pub mod checksums;
pub mod coreutils;
pub mod findutils;
pub mod sudors;
pub mod util;
pub mod uutils;

pub use crate::experiments::uutils::UutilsExperiment;

use vstd::prelude::*;
use crate::checks::{spec_is_supported_distro, Distribution};
use crate::error::{Error, Result};
use crate::experiments::coreutils::{spec_coreutils_targets, CoreutilsExperiment};
use crate::experiments::findutils::{spec_findutils_targets, FindutilsExperiment};
use crate::experiments::sudors::{spec_sudors_disable_ran, spec_sudors_targets, sudors_disable_failure, SudoRsExperiment};
use crate::experiments::checksums::{spec_checksums_targets, ChecksumsExperiment};
use crate::experiments::util::{law_restores_made_by_worker, restore_calls, restore_failed_message};
use crate::utils::text::{chars_eq_str, str_chars};
use crate::utils::session::{
    all_answered_by, answered_by, effects_since, extends, lemma_answered_since, lemma_effects_none, lemma_effects_push,
    refresh_then_run, remove_answered, remove_ran, restore_answered, Call, Effect, Session,
};
use crate::utils::worker::{strings_view, Worker};

verus! {

pub const UUTILS_COREUTILS: &'static str = "uutils-coreutils";
pub const UUTILS_FINDUTILS: &'static str = "uutils-findutils-bin";
pub const SUDO_RS: &'static str = "sudo-rs";

/// Packages that must come from the official `extra` repository.
pub open spec fn spec_repo_only(package: Seq<char>) -> bool {
    package == UUTILS_COREUTILS@ || package == SUDO_RS@
}

/// The repository gate before probing the repositories: with neither `extra` nor an AUR
/// helper nothing can be installed; coreutils and sudo-rs need `extra` (and then a probe
/// that the package is there: `Ok(true)`); findutils needs an AUR helper.
pub open spec fn spec_repo_gate(package: Seq<char>, extra: bool, aur: bool, r: Result<bool>) -> bool {
    if !extra && !aur {
        r matches Err(Error::RepoGateFailed { package: p, details: d }) && p@ == package && d@
            == "no 'extra' repo and no AUR helper available (extra_available=false, aur_available=false)"@
    } else if spec_repo_only(package) {
        if !extra {
            r matches Err(Error::RepoGateFailed { package: p, details: d }) && p@ == package && d@
                == "extra repo unavailable"@
        } else {
            r matches Ok(true)
        }
    } else if package == UUTILS_FINDUTILS@ && !aur {
        r matches Err(Error::RepoGateFailed { package: p, details: d }) && p@ == package && d@
            == "no AUR helper available"@
    } else {
        r matches Ok(false)
    }
}

fn gate_failed(package: &str, details: &str) -> (r: Error)
    ensures
        r matches Error::RepoGateFailed { package: p, details: d } && p@ == package@ && d@ == details@,
{
    Error::RepoGateFailed { package: package.to_owned(), details: details.to_owned() }
}

/// The repository gate given what is available; `Ok(true)` asks for a probe that the
/// official repositories carry the package.
pub fn repo_gate(package: &str, extra_available: bool, aur_available: bool) -> (r: Result<bool>)
    ensures
        spec_repo_gate(package@, extra_available, aur_available, r),
{
    if !extra_available && !aur_available {
        return Err(gate_failed(
            package,
            "no 'extra' repo and no AUR helper available (extra_available=false, aur_available=false)",
        ));
    }
    let p = str_chars(package);
    if chars_eq_str(p.as_slice(), UUTILS_COREUTILS) || chars_eq_str(p.as_slice(), SUDO_RS) {
        if !extra_available {
            return Err(gate_failed(package, "extra repo unavailable"));
        }
        return Ok(true);
    }
    if chars_eq_str(p.as_slice(), UUTILS_FINDUTILS) && !aur_available {
        return Err(gate_failed(package, "no AUR helper available"));
    }
    Ok(false)
}

/// The check after `pacman -Si`: a package that the repositories lack is refused; when
/// the lookup itself could not run, the install goes ahead.
pub fn repo_probe_gate(package: &str, probe: Result<bool>) -> (r: Result<()>)
    ensures
        probe matches Ok(false) ==> (r matches Err(Error::RepoGateFailed { package: p, details: d })
            && p@ == package@ && d@ == "package not present in repos (pacman -Si)"@),
        !(probe matches Ok(false)) ==> r is Ok,
{
    match probe {
        Ok(false) => Err(gate_failed(package, "package not present in repos (pacman -Si)")),
        _ => Ok(()),
    }
}

/// Why a download is refused, given whether `extra` is configured, whether an AUR helper
/// is available and what the repository probe answered (`None` when it could not run):
/// the details of the `RepoGateFailed` error, or `None` when the download may go ahead.
pub open spec fn spec_download_failure(package: Seq<char>, extra: bool, aur: bool, has: Option<bool>) -> Option<
    Seq<char>,
> {
    if !extra && !aur {
        Some("no 'extra' repo and no AUR helper available (extra_available=false, aur_available=false)"@)
    } else if spec_repo_only(package) {
        if !extra {
            Some("extra repo unavailable"@)
        } else if has == Some(false) {
            Some("package not present in repos (pacman -Si)"@)
        } else {
            None
        }
    } else if package == UUTILS_FINDUTILS@ && !aur {
        Some("no AUR helper available"@)
    } else {
        None
    }
}

/// The download gate for a package on this worker: `Some(details)` when the download is
/// refused, `None` when it may go ahead or when the repository queries themselves fail.
pub open spec fn worker_download_failure<W: Worker>(worker: &W, package: Seq<char>) -> Option<Seq<char>> {
    match (worker.spec_extra_repo(), worker.spec_aur_helper()) {
        (Some(extra), Some(aur)) => spec_download_failure(package, extra, aur, worker.spec_repo_has(package)),
        _ => None,
    }
}

/// Repository gating before a download: ask the worker what is available, apply
/// `repo_gate`, probe the repositories when asked to and apply `repo_probe_gate`, and
/// finally ask whether the package is already installed (an installed package is reused).
/// A refused download is `RepoGateFailed` with the package and the details, and nothing
/// is recorded; otherwise the installed query is the one call recorded, and the result is
/// `Ok` exactly when it was answered.
pub fn check_download_prerequisites<W: Worker>(session: &mut Session<W>, package: &str, assume_yes: bool) -> (r: Result<()>)
    ensures
        final(session).worker == old(session).worker,
        extends(old(session).effects@, final(session).effects@),
        all_answered_by(&old(session).worker, old(session).effects@) ==> all_answered_by(
            &final(session).worker,
            final(session).effects@,
        ),
        effects_since(old(session).effects@, final(session).effects@).len() <= 1,
        effects_since(old(session).effects@, final(session).effects@).len() == 1 ==> effects_since(
            old(session).effects@,
            final(session).effects@,
        )[0].0 == Call::CheckInstalled(package@),
        old(session).worker.spec_extra_repo() is None || old(session).worker.spec_aur_helper() is None ==> r is Err,
        worker_download_failure(&old(session).worker, package@) matches Some(d) ==> (r matches Err(
            Error::RepoGateFailed { package: p, details: q },
        ) && p@ == package@ && q@ == d && effects_since(old(session).effects@, final(session).effects@).len() == 0),
        r is Ok <==> (old(session).worker.spec_extra_repo() is Some && old(session).worker.spec_aur_helper() is Some
            && worker_download_failure(&old(session).worker, package@) is None && effects_since(
            old(session).effects@,
            final(session).effects@,
        ).len() == 1 && effects_since(old(session).effects@, final(session).effects@)[0].1 is Some),
{
    proof {
        lemma_effects_none(session.effects@);
    }
    let extra_available = session.worker.extra_repo_available()?;
    let aur_available = match session.worker.aur_helper_name()? {
        Some(_) => true,
        None => false,
    };
    let probe = repo_gate(package, extra_available, aur_available)?;
    if probe {
        let has = session.worker.repo_has_package(package);
        assert(spec_repo_only(package@) && extra_available);
        repo_probe_gate(package, has)?;
    }
    let ghost e0 = session.effects@;
    let res = session.check_installed(package);
    proof {
        lemma_effects_push(e0, e0, (Call::CheckInstalled(package@), match res {
            Ok(b) => Some(b),
            Err(_) => None,
        }));
        assert(effects_since(e0, e0) =~= Seq::<Effect>::empty());
    }
    let _installed = res?;
    Ok(())
}

/// Operations common to experiments.
pub trait ExperimentOps {
    fn name(&self) -> &str;
    fn package_name(&self) -> &str;
    fn check_compatible(&self, distro: &Distribution) -> Result<bool>;
    fn enable<W: Worker>(&self, session: &mut Session<W>, assume_yes: bool, update_lists: bool) -> Result<()>;
    fn disable<W: Worker>(&self, session: &mut Session<W>, assume_yes: bool, update_lists: bool) -> Result<()>;
    fn remove<W: Worker>(&self, session: &mut Session<W>, assume_yes: bool, update_lists: bool) -> Result<()>;
    fn list_targets(&self) -> Vec<String>;
}

/// The experiments, unified.
pub enum Experiment {
    Coreutils(CoreutilsExperiment),
    Findutils(FindutilsExperiment),
    SudoRs(SudoRsExperiment),
    Checksums(ChecksumsExperiment),
}

/// The message of an unsupported distribution.
pub open spec fn incompatible_message(id: Seq<char>) -> Seq<char> {
    "Unsupported distro '"@ + id
        + "'. Supported: [\"arch\", \"manjaro\", \"cachyos\", \"endeavouros\"]. Pass --skip-compatibility-check to override."@
}

impl Experiment {
    /// The experiment's name.
    pub open spec fn spec_name(&self) -> Seq<char> {
        match self {
            Experiment::Coreutils(e) => e.name@,
            Experiment::Findutils(e) => e.name@,
            Experiment::SudoRs(e) => e.name@,
            Experiment::Checksums(e) => e.name@,
        }
    }

    /// The experiment's package.
    pub open spec fn spec_package(&self) -> Seq<char> {
        match self {
            Experiment::Coreutils(e) => e.package_name@,
            Experiment::Findutils(e) => e.package_name@,
            Experiment::SudoRs(e) => e.package_name@,
            Experiment::Checksums(e) => e.package_name@,
        }
    }

    /// The experiment's targets.
    pub open spec fn spec_targets(&self) -> Seq<Seq<char>> {
        match self {
            Experiment::Coreutils(_) => spec_coreutils_targets(),
            Experiment::Findutils(_) => spec_findutils_targets(),
            Experiment::SudoRs(_) => spec_sudors_targets(),
            Experiment::Checksums(_) => spec_checksums_targets(),
        }
    }

    pub fn name(&self) -> (r: &str)
        ensures
            r@ == self.spec_name(),
    {
        match self {
            Experiment::Coreutils(e) => e.name(),
            Experiment::Findutils(e) => e.name(),
            Experiment::SudoRs(e) => e.name(),
            Experiment::Checksums(e) => e.name(),
        }
    }

    /// The compatibility gate: passed when skipped or when the distribution is supported;
    /// otherwise `Incompatible`, naming the distribution and the supported ones.
    pub fn compat_gate(&self, distro: &Distribution, skip_compat_check: bool) -> (r: Result<()>)
        ensures
            skip_compat_check || spec_is_supported_distro(distro.id@) ==> r is Ok,
            !skip_compat_check && !spec_is_supported_distro(distro.id@) ==> (r matches Err(Error::Incompatible(m))
                && m@ == incompatible_message(distro.id@)),
    {
        if skip_compat_check {
            return Ok(());
        }
        let compatible = self.check_compatible(distro)?;
        if compatible {
            Ok(())
        } else {
            let mut m = "Unsupported distro '".to_owned();
            m.append(distro.id.as_str());
            m.append("'. Supported: [\"arch\", \"manjaro\", \"cachyos\", \"endeavouros\"]. Pass --skip-compatibility-check to override.");
            Err(Error::Incompatible(m))
        }
    }

    /// What enabling the experiment records and returns past the compatibility gate.
    pub open spec fn spec_enable_ran<W: Worker>(&self, w: &W, e: Seq<Effect>, update_lists: bool, r: Result<()>) -> bool {
        match self {
            Experiment::Coreutils(x) => x.spec_enable_ran(w, e, update_lists, r),
            Experiment::Findutils(x) => x.spec_enable_ran(w, e, update_lists, r),
            Experiment::SudoRs(x) => x.spec_enable_ran(w, e, update_lists, r),
            Experiment::Checksums(x) => x.spec_enable_ran(w, e, update_lists, r),
        }
    }

    /// What disabling the experiment records (`ok` for success): the refresh when asked
    /// for, then the restores of its targets in order (for sudo-rs, then the checks that
    /// they are no longer symlinks), stopping at the first failure.
    pub open spec fn spec_disable_ran(&self, e: Seq<Effect>, update_lists: bool, ok: bool) -> bool {
        match self {
            Experiment::SudoRs(_) => spec_sudors_disable_ran(e, update_lists, ok),
            _ => refresh_then_run(e, update_lists, restore_calls(self.spec_targets()), ok),
        }
    }

    /// What removing the experiment records and returns: the disable, then, but
    /// for the checksum tools whose package is the coreutils experiment's, the removal of
    /// the package and the check that it is gone (see `remove_ran`).
    pub open spec fn spec_remove_ran(&self, e: Seq<Effect>, update_lists: bool, r: Result<()>) -> bool {
        match self {
            Experiment::Checksums(_) => self.spec_disable_ran(e, update_lists, r is Ok),
            _ => remove_ran(e, |d: Seq<Effect>, k: bool| self.spec_disable_ran(d, update_lists, k), self.spec_package(), r),
        }
    }

    /// Enable the experiment after the compatibility check of the worker's distribution.
    /// An unknown distribution is an error, and so is an unsupported one unless the check
    /// is switched off; in both cases the session records nothing. Otherwise the result
    /// and the record are those of the experiment's own `enable`.
    pub fn enable<W: Worker>(&self, session: &mut Session<W>, assume_yes: bool, update_lists: bool, skip_compat_check: bool) -> (r: Result<()>)
        ensures
            final(session).worker == old(session).worker,
            extends(old(session).effects@, final(session).effects@),
            all_answered_by(&old(session).worker, old(session).effects@) ==> all_answered_by(
                &final(session).worker,
                final(session).effects@,
            ),
            match old(session).worker.spec_distribution_id() {
                None => r == Err::<(), Error>(old(session).worker.spec_distribution_error()) && effects_since(
                    old(session).effects@,
                    final(session).effects@,
                ).len() == 0,
                Some(id) => if !skip_compat_check && !spec_is_supported_distro(id) {
                    r matches Err(Error::Incompatible(m)) && m@ == incompatible_message(id) && effects_since(
                        old(session).effects@,
                        final(session).effects@,
                    ).len() == 0
                } else {
                    self.spec_enable_ran(
                        &old(session).worker,
                        effects_since(old(session).effects@, final(session).effects@),
                        update_lists,
                        r,
                    )
                },
            },
            r is Ok ==> old(session).worker.spec_extra_repo() is Some && old(session).worker.spec_aur_helper() is Some
                && worker_download_failure(&old(session).worker, self.spec_package()) is None,
    {
        proof {
            lemma_effects_none(session.effects@);
        }
        let distro = match session.worker.distribution() {
            Ok(d) => d,
            Err(e) => {
                return Err(e);
            },
        };
        self.compat_gate(&distro, skip_compat_check)?;
        match self {
            Experiment::Coreutils(e) => e.enable(session, assume_yes, update_lists),
            Experiment::Findutils(e) => e.enable(session, assume_yes, update_lists),
            Experiment::SudoRs(e) => e.enable(session, assume_yes, update_lists),
            Experiment::Checksums(e) => e.enable(session, assume_yes, update_lists),
        }
    }

    /// Disable the experiment (see `spec_disable_ran`); no package is installed or
    /// removed. Without a refresh, a failure names the target it stopped at (for sudo-rs,
    /// also a target still a symlink after its restore).
    pub fn disable<W: Worker>(&self, session: &mut Session<W>, assume_yes: bool, update_lists: bool) -> (r: Result<()>)
        ensures
            final(session).worker == old(session).worker,
            extends(old(session).effects@, final(session).effects@),
            all_answered_by(&old(session).worker, old(session).effects@) ==> all_answered_by(
                &final(session).worker,
                final(session).effects@,
            ),
            self.spec_disable_ran(effects_since(old(session).effects@, final(session).effects@), update_lists, r is Ok),
            !update_lists && !(self is SudoRs) && r is Err ==> r matches Err(Error::ExecutionFailed(_)),
            !update_lists && !(self is SudoRs) ==> (r matches Err(Error::ExecutionFailed(m)) ==> exists|
                i: int,
                e: Error,
            |
                0 <= i < self.spec_targets().len() && m@ == restore_failed_message(
                    self.spec_targets()[i],
                    e.spec_message(),
                )),
            !update_lists && self is SudoRs && r is Err ==> (r matches Err(Error::ExecutionFailed(m))
                && sudors_disable_failure(m@)),
    {
        match self {
            Experiment::Coreutils(e) => {
                let r = e.disable(session, assume_yes, update_lists);
                proof {
                    if !update_lists {
                        if let Err(Error::ExecutionFailed(m)) = &r {
                            let (i, x) = choose|i: int, x: Error|
                                0 <= i < spec_coreutils_targets().len() && m@ == restore_failed_message(
                                    spec_coreutils_targets()[i],
                                    x.spec_message(),
                                );
                            assert(self.spec_targets() == spec_coreutils_targets());
                            assert(0 <= i < self.spec_targets().len() && m@ == restore_failed_message(
                                self.spec_targets()[i],
                                x.spec_message(),
                            ));
                        }
                    }
                }
                r
            },
            Experiment::Findutils(e) => {
                let r = e.disable(session, assume_yes, update_lists);
                proof {
                    let ts = spec_findutils_targets();
                    assert(self.spec_targets() == ts);
                    if !update_lists {
                        if let Err(Error::ExecutionFailed(m)) = &r {
                            let (i, x) = choose|i: int, x: Error|
                                0 <= i < ts.len() && m@ == restore_failed_message(ts[i], x.spec_message());
                            assert(0 <= i < self.spec_targets().len() && m@ == restore_failed_message(
                                self.spec_targets()[i],
                                x.spec_message(),
                            ));
                        }
                    }
                }
                r
            },
            Experiment::SudoRs(e) => e.disable(session, assume_yes, update_lists),
            Experiment::Checksums(e) => {
                let r = e.disable(session, assume_yes, update_lists);
                proof {
                    if !update_lists {
                        if let Err(Error::ExecutionFailed(m)) = &r {
                            let (i, x) = choose|i: int, x: Error|
                                0 <= i < spec_checksums_targets().len() && m@ == restore_failed_message(
                                    spec_checksums_targets()[i],
                                    x.spec_message(),
                                );
                            assert(self.spec_targets() == spec_checksums_targets());
                            assert(0 <= i < self.spec_targets().len() && m@ == restore_failed_message(
                                self.spec_targets()[i],
                                x.spec_message(),
                            ));
                        }
                    }
                }
                r
            },
        }
    }

    /// Remove the experiment (see `spec_remove_ran`).
    pub fn remove<W: Worker>(&self, session: &mut Session<W>, assume_yes: bool, update_lists: bool) -> (r: Result<()>)
        ensures
            final(session).worker == old(session).worker,
            extends(old(session).effects@, final(session).effects@),
            all_answered_by(&old(session).worker, old(session).effects@) ==> all_answered_by(
                &final(session).worker,
                final(session).effects@,
            ),
            self.spec_remove_ran(effects_since(old(session).effects@, final(session).effects@), update_lists, r),
    {
        match self {
            Experiment::Coreutils(e) => e.remove(session, assume_yes, update_lists),
            Experiment::Findutils(e) => e.remove(session, assume_yes, update_lists),
            Experiment::SudoRs(e) => e.remove(session, assume_yes, update_lists),
            Experiment::Checksums(e) => e.remove(session, assume_yes, update_lists),
        }
    }

    /// Every experiment supports exactly the supported distributions.
    pub fn check_compatible(&self, distro: &Distribution) -> (r: Result<bool>)
        ensures
            r matches Ok(b) && b == spec_is_supported_distro(distro.id@),
    {
        match self {
            Experiment::Coreutils(e) => e.check_compatible(distro),
            Experiment::Findutils(e) => e.check_compatible(distro),
            Experiment::SudoRs(e) => e.check_compatible(distro),
            Experiment::Checksums(e) => e.check_compatible(distro),
        }
    }

    pub fn list_targets(&self) -> (r: Vec<String>)
        ensures
            strings_view(r@) == self.spec_targets(),
    {
        match self {
            Experiment::Coreutils(e) => e.list_targets(),
            Experiment::Findutils(e) => e.list_targets(),
            Experiment::SudoRs(e) => e.list_targets(),
            Experiment::Checksums(e) => e.list_targets(),
        }
    }
}

/// All experiments, in the order `--all` runs them: findutils first (its AUR build still
/// has the GNU checksum tools), then coreutils, sudo-rs, and last the checksum tools.
pub fn all_experiments() -> (r: Vec<Experiment>)
    ensures
        r@.len() == 4,
        r@[0] is Findutils && r@[0].spec_name() == "findutils"@,
        r@[1] is Coreutils && r@[1].spec_name() == "coreutils"@,
        r@[2] is SudoRs && r@[2].spec_name() == "sudo-rs"@,
        r@[3] is Checksums && r@[3].spec_name() == "checksums"@,
{
    let mut v: Vec<Experiment> = Vec::new();
    v.push(Experiment::Findutils(FindutilsExperiment::new()));
    v.push(Experiment::Coreutils(CoreutilsExperiment::new()));
    v.push(Experiment::SudoRs(SudoRsExperiment::new()));
    v.push(Experiment::Checksums(ChecksumsExperiment::new()));
    v
}

/// A successful remove of an experiment whose package it owns (all but the checksum
/// tools), on a session whose record the worker answered: the worker answered success to
/// removing exactly the experiment's package, and then answered that it is not installed.
pub proof fn law_remove_made_by_worker<W: Worker>(
    x: &Experiment,
    w: &W,
    before: Seq<Effect>,
    after: Seq<Effect>,
    update_lists: bool,
)
    requires
        !(x is Checksums),
        extends(before, after),
        all_answered_by(w, after),
        x.spec_remove_ran(effects_since(before, after), update_lists, Ok(())),
    ensures
        remove_answered(w, x.spec_package(), Some(true)),
        w.spec_installed_answer(x.spec_package(), Ok(false)),
{
    lemma_answered_since(w, before, after);
    crate::experiments::util::law_remove_made_by_worker(
        w,
        effects_since(before, after),
        |d: Seq<Effect>, k: bool| x.spec_disable_ran(d, update_lists, k),
        x.spec_package(),
    );
}

/// A successful disable of an experiment other than sudo-rs, on a session whose record
/// the worker answered: the worker answered success to restoring every one of the
/// experiment's targets.
pub proof fn law_disable_made_by_worker<W: Worker>(
    x: &Experiment,
    w: &W,
    before: Seq<Effect>,
    after: Seq<Effect>,
    update_lists: bool,
)
    requires
        !(x is SudoRs),
        extends(before, after),
        all_answered_by(w, after),
        x.spec_disable_ran(effects_since(before, after), update_lists, true),
    ensures
        forall|i: int| 0 <= i < x.spec_targets().len() ==> restore_answered(w, #[trigger] x.spec_targets()[i], Some(true)),
{
    lemma_answered_since(w, before, after);
    let e = effects_since(before, after);
    let l = if update_lists {
        e.skip(1)
    } else {
        e
    };
    assert(all_answered_by(w, l)) by {
        assert forall|i: int| 0 <= i < l.len() implies answered_by(w, #[trigger] l[i]) by {
            if update_lists {
                assert(l[i] == e[i + 1]);
            }
        }
    }
    law_restores_made_by_worker(w, l, x.spec_targets());
}

} // verus!
