//! The enable flow of a uutils experiment.

use vstd::prelude::*;
use crate::utils::session::all_answered_by;
use crate::config::packages::{UUTILS_COREUTILS, UUTILS_FINDUTILS};
use crate::checks::spec_is_supported_distro;
use crate::error::{Error, Result};
use crate::experiments::uutils::model::UutilsExperiment;
use crate::utils::text::{chars_eq_str, str_chars};
use crate::utils::worker::Worker;
use crate::experiments::util::{pairs_view, spec_list_names};
use crate::experiments::uutils::constants::COREUTILS_BINS_LIST;
use crate::experiments::uutils::enable::coreutils::{unified_selection, unified_source};
use crate::experiments::uutils::utils::spec_uutils_target;
use crate::utils::session::links_onto;
use crate::experiments::uutils::enable::coreutils::unified_prep;
use crate::experiments::uutils::enable::non_coreutils::{found_or_copied, nothing_found_message, spec_known_applets};
use crate::experiments::uutils::enable::utils::uutils_link_calls;
use crate::utils::session::{
    all_ran, done, effects_since, extends, lemma_effects_concat, lemma_effects_none, lemma_effects_push, ran_in_order,
    Call, Effect, Session,
};

verus! {

/// The repository gate of a uutils package: with neither `extra` nor an AUR helper
/// nothing can be downloaded; uutils-coreutils needs `extra`; uutils-findutils needs an
/// AUR helper.
pub open spec fn spec_uutils_repo_gate(package: Seq<char>, extra: bool, aur: bool, r: Result<()>) -> bool {
    if !extra && !aur {
        r matches Err(Error::ExecutionFailed(m)) && m@ == "You do not have access to extra or AUR repositories."@
    } else if package == UUTILS_COREUTILS@ && !extra {
        r matches Err(Error::ExecutionFailed(m)) && m@ == "Cannot download because the extra repository is not available."@
    } else if package == UUTILS_FINDUTILS@ && !aur {
        r matches Err(Error::ExecutionFailed(m)) && m@
            == "Cannot download uutils-findutils because no AUR helper is installed."@
    } else {
        r is Ok
    }
}

/// The repository gate of a uutils package.
pub fn uutils_repo_gate(package: &str, extra_available: bool, aur_available: bool) -> (r: Result<()>)
    ensures
        spec_uutils_repo_gate(package@, extra_available, aur_available, r),
{
    if !extra_available && !aur_available {
        return Err(Error::ExecutionFailed("You do not have access to extra or AUR repositories.".to_owned()));
    }
    let p = str_chars(package);
    proof {
        reveal_strlit("uutils-coreutils");
        reveal_strlit("uutils-findutils-bin");
    }
    if chars_eq_str(p.as_slice(), UUTILS_COREUTILS) {
        assert(UUTILS_COREUTILS@ == "uutils-coreutils"@);
        assert(UUTILS_COREUTILS@.len() == 16);
        assert(UUTILS_FINDUTILS@.len() == 20);
        assert(p@ != UUTILS_FINDUTILS@);
        if !extra_available {
            return Err(Error::ExecutionFailed("Cannot download because the extra repository is not available.".to_owned()));
        }
    } else if chars_eq_str(p.as_slice(), UUTILS_FINDUTILS) {
        if !aur_available {
            return Err(Error::ExecutionFailed(
                "Cannot download uutils-findutils because no AUR helper is installed.".to_owned(),
            ));
        }
    }
    Ok(())
}

/// The message when no applet was selected.
pub open spec fn no_applets_message(family: Seq<char>, dir: Seq<char>, package: Seq<char>) -> Seq<char> {
    "No applets selected for family '"@ + family + "' (bin_directory: "@ + dir
        + "). This usually means the package did not install binaries in expected locations. Hints: ensure '"@
        + package + "' is installed; verify presence under "@ + dir + " or cargo-style /usr/lib/cargo/bin/<family>/."@
}

/// The error when no applet was selected.
pub fn no_applets(family: &str, dir: &str, package: &str) -> (r: Error)
    ensures
        r matches Error::ExecutionFailed(m) && m@ == no_applets_message(family@, dir@, package@),
{
    let mut m = "No applets selected for family '".to_owned();
    m.append(family);
    m.append("' (bin_directory: ");
    m.append(dir);
    m.append("). This usually means the package did not install binaries in expected locations. Hints: ensure '");
    m.append(package);
    m.append("' is installed; verify presence under ");
    m.append(dir);
    m.append(" or cargo-style /usr/lib/cargo/bin/<family>/.");
    Error::ExecutionFailed(m)
}

impl UutilsExperiment {
    /// What an enable records and returns: on an unsupported (or unknown) distribution,
    /// nothing is done; otherwise the refresh when asked for (a failed one ends the run),
    /// then the repository gate (see `spec_after_refresh`).
    pub open spec fn spec_enable_ran<W: Worker>(&self, w: &W, e: Seq<Effect>, update_lists: bool, r: Result<()>) -> bool {
        match w.spec_distribution_id() {
            None => e.len() == 0 && r == Err::<(), Error>(w.spec_distribution_error()),
            Some(id) => if !spec_is_supported_distro(id) {
                e.len() == 0 && (r matches Err(Error::Incompatible(m)) && m@ == "Unsupported Arch release"@)
            } else if update_lists {
                &&& e.len() > 0
                &&& e[0].0 == Call::Update
                &&& if e[0].1 is None {
                    e.len() == 1 && r is Err
                } else {
                    self.spec_after_refresh(w, e.skip(1), r)
                }
            } else {
                self.spec_after_refresh(w, e, r)
            },
        }
    }

    /// After the refresh: the repository gate (see `spec_uutils_repo_gate`), which refuses
    /// with nothing done, then the installed query and the install (a failure of either
    /// ends the run), then the selection and the links (see `spec_after_install`).
    pub open spec fn spec_after_refresh<W: Worker>(&self, w: &W, e: Seq<Effect>, r: Result<()>) -> bool {
        match (w.spec_extra_repo(), w.spec_aur_helper()) {
            (Some(x), Some(a)) => if !spec_uutils_repo_gate(self.package_name@, x, a, Ok(())) {
                e.len() == 0 && spec_uutils_repo_gate(self.package_name@, x, a, r)
            } else {
                &&& e.len() >= 1
                &&& e[0].0 == Call::CheckInstalled(self.package_name@)
                &&& if e[0].1 is None {
                    e.len() == 1 && r is Err
                } else {
                    &&& e.len() >= 2
                    &&& e[1].0 == Call::Install(self.package_name@)
                    &&& if e[1].1 is None {
                        e.len() == 2 && r is Err
                    } else {
                        self.spec_after_install(w, e.skip(2), r)
                    }
                }
            },
            _ => e.len() == 0 && r is Err,
        }
    }

    /// The selection's own steps are the first `k` of `l`, and it selected `v`: for
    /// coreutils, at most the link that provides the unified dispatcher, and a coreutils
    /// selection (see `spec_coreutils_selection`); for another family, copies only, and
    /// each selected applet a declared one onto what the search path finds or onto its copy
    /// (see `found_or_copied`).
    pub open spec fn spec_selected<W: Worker>(&self, w: &W, l: Seq<Effect>, k: int, v: Seq<(Seq<char>, Seq<char>)>) -> bool {
        &&& 0 <= k <= l.len()
        &&& if self.name@ == "coreutils"@ {
            unified_prep(l.take(k)) && self.spec_coreutils_selection(w, v)
        } else {
            &&& forall|j: int| 0 <= j < k ==> (#[trigger] l[j]).0 is Copy
            &&& forall|i: int| 0 <= i < v.len() ==> spec_known_applets(self.name@).contains(#[trigger] v[i].0)
                && found_or_copied(w, l.take(k), self.bin_directory@, v[i].0, v[i].1)
        }
    }

    /// After the install: the selection (see `spec_selected`), then, with nothing
    /// selected, the error naming the family; otherwise each selected applet linked onto
    /// its target (see `uutils_link_calls`), in order, stopping at the first failure, and
    /// success exactly when every link was made. For another family, a selection that
    /// found nothing is an error, with only copies done.
    pub open spec fn spec_after_install<W: Worker>(&self, w: &W, l: Seq<Effect>, r: Result<()>) -> bool {
        ||| exists|k: int, v: Seq<(Seq<char>, Seq<char>)>|
            #[trigger] self.spec_selected(w, l, k, v) && if v.len() == 0 {
                l.len() == k && (r matches Err(Error::ExecutionFailed(m)) && m@ == no_applets_message(
                    self.name@,
                    self.bin_directory@,
                    self.package_name@,
                ))
            } else {
                ran_in_order(l.skip(k), uutils_link_calls(w, v)) && (r is Ok <==> all_ran(
                    l.skip(k),
                    uutils_link_calls(w, v),
                ))
            }
        ||| self.name@ != "coreutils"@ && (forall|j: int| 0 <= j < l.len() ==> (#[trigger] l[j]).0 is Copy) && (r matches Err(
            Error::ExecutionFailed(m),
        ) && m@ == nothing_found_message(self.name@, self.bin_directory@, self.package_name@))
    }

    /// Enable: refuse unsupported distributions, refresh the package lists if asked, pass
    /// the repository gate, install the package, select the applets (coreutils or another
    /// family; none is an error) and link them (see `spec_enable_ran`).
    pub fn enable<W: Worker>(&self, session: &mut Session<W>, assume_yes: bool, update_lists: bool) -> (r: Result<()>)
        ensures
            final(session).worker == old(session).worker,
            extends(old(session).effects@, final(session).effects@),
            all_answered_by(&old(session).worker, old(session).effects@) ==> all_answered_by(
                &final(session).worker,
                final(session).effects@,
            ),
            self.spec_enable_ran(&old(session).worker, effects_since(old(session).effects@, final(session).effects@), update_lists, r),
            r is Ok ==> (old(session).worker.spec_distribution_id() matches Some(id) && spec_is_supported_distro(id)),
            r is Ok ==> (old(session).worker.spec_extra_repo() matches Some(x) && old(session).worker.spec_aur_helper() matches Some(
                a,
            ) && spec_uutils_repo_gate(self.package_name@, x, a, Ok(()))),
    {
        let ghost e0 = session.effects@;
        let ghost w = session.worker;
        proof {
            lemma_effects_none(e0);
        }
        let compatible = match self.check_compatible(&session.worker) {
            Ok(b) => b,
            Err(e) => {
                return Err(e);
            },
        };
        if !compatible {
            return Err(Error::Incompatible("Unsupported Arch release".to_owned()));
        }
        if update_lists {
            let u = session.update_packages(assume_yes);
            proof {
                lemma_effects_push(e0, e0, (Call::Update, done(u)));
                assert(effects_since(e0, session.effects@) =~= seq![(Call::Update, done(u))]);
            }
            u?;
        }
        let ghost e1 = session.effects@;
        let r = self.enable_after_refresh(session, assume_yes);
        proof {
            lemma_effects_concat(e0, e1, session.effects@);
            if update_lists {
                assert(effects_since(e0, session.effects@).skip(1) =~= effects_since(e1, session.effects@));
            } else {
                assert(effects_since(e0, e1) =~= Seq::<Effect>::empty());
                assert(effects_since(e0, session.effects@) =~= effects_since(e1, session.effects@));
            }
        }
        r
    }

    fn enable_after_refresh<W: Worker>(&self, session: &mut Session<W>, assume_yes: bool) -> (r: Result<()>)
        ensures
            final(session).worker == old(session).worker,
            extends(old(session).effects@, final(session).effects@),
            all_answered_by(&old(session).worker, old(session).effects@) ==> all_answered_by(
                &final(session).worker,
                final(session).effects@,
            ),
            self.spec_after_refresh(&old(session).worker, effects_since(old(session).effects@, final(session).effects@), r),
            r is Ok ==> (old(session).worker.spec_extra_repo() matches Some(x) && old(session).worker.spec_aur_helper() matches Some(
                a,
            ) && spec_uutils_repo_gate(self.package_name@, x, a, Ok(()))),
    {
        let ghost e0 = session.effects@;
        let ghost w = session.worker;
        proof {
            lemma_effects_none(e0);
        }
        let extra_available = session.worker.extra_repo_available()?;
        let aur_available = match session.worker.aur_helper_name()? {
            Some(_) => true,
            None => false,
        };
        let g = uutils_repo_gate(self.package_name.as_str(), extra_available, aur_available);
        if g.is_err() {
            return g;
        }
        let c = session.check_installed(self.package_name.as_str());
        proof {
            lemma_effects_push(e0, e0, session.effects@.last());
            assert(session.effects@ =~= e0.push(session.effects@.last()));
        }
        let _installed = c?;
        let ghost e1 = session.effects@;
        let i = session.install_package(self.package_name.as_str(), assume_yes);
        proof {
            lemma_effects_push(e0, e1, (Call::Install(self.package_name@), done(i)));
        }
        i?;
        let ghost e2 = session.effects@;
        let r = self.enable_after_install(session);
        proof {
            lemma_effects_concat(e0, e2, session.effects@);
            assert(effects_since(e0, session.effects@).skip(2) =~= effects_since(e2, session.effects@));
        }
        r
    }

    fn enable_after_install<W: Worker>(&self, session: &mut Session<W>) -> (r: Result<()>)
        ensures
            final(session).worker == old(session).worker,
            extends(old(session).effects@, final(session).effects@),
            all_answered_by(&old(session).worker, old(session).effects@) ==> all_answered_by(
                &final(session).worker,
                final(session).effects@,
            ),
            self.spec_after_install(&old(session).worker, effects_since(old(session).effects@, final(session).effects@), r),
    {
        let ghost e0 = session.effects@;
        let ghost w = session.worker;
        let fam = str_chars(self.name.as_str());
        proof {
            reveal_strlit("coreutils");
        }
        let is_core = chars_eq_str(fam.as_slice(), "coreutils");
        let applets = if is_core {
            self.handle_coreutils_applets(session)?
        } else {
            match self.handle_non_coreutils_applets(session) {
                Ok(v) => v,
                Err(e) => {
                    return Err(e);
                },
            }
        };
        let ghost e1 = session.effects@;
        let ghost k = effects_since(e0, e1).len() as int;
        let ghost v = pairs_view(applets@);
        proof {
            lemma_effects_none(e1);
            if is_core {
                assert(self.spec_selected(&w, effects_since(e0, e1), k, v)) by {
                    assert(effects_since(e0, e1).take(k) =~= effects_since(e0, e1));
                }
            } else {
                assert(effects_since(e0, e1).take(k) =~= effects_since(e0, e1));
                assert forall|i: int| 0 <= i < v.len() implies spec_known_applets(self.name@).contains(#[trigger] v[i].0)
                    && found_or_copied(&w, effects_since(e0, e1).take(k), self.bin_directory@, v[i].0, v[i].1) by {
                    assert(v[i] == (applets@[i].0@, applets@[i].1@));
                }
                assert(self.spec_selected(&w, effects_since(e0, e1), k, v));
            }
        }
        if applets.len() == 0 {
            proof {
                assert(self.spec_selected(&w, effects_since(e0, session.effects@), k, v));
            }
            return Err(no_applets(self.name.as_str(), self.bin_directory.as_str(), self.package_name.as_str()));
        }
        let r = self.create_symlinks(session, applets.as_slice());
        proof {
            lemma_effects_concat(e0, e1, session.effects@);
            let l = effects_since(e0, session.effects@);
            assert(l.take(k) =~= effects_since(e0, e1));
            assert(l.skip(k) =~= effects_since(e1, session.effects@));
            assert(self.spec_selected(&w, l, k, v));
        }
        r
    }
}

/// The targets that disabling the coreutils family restores accept `t`.
pub open spec fn restorable_by<W: Worker>(x: &UutilsExperiment, w: &W, t: Seq<char>) -> bool {
    x.spec_restore_targets(w) matches Some(ts) && ts.contains(t)
}

proof fn lemma_after_install_restorable<W: Worker>(x: &UutilsExperiment, w: &W, l: Seq<Effect>, r: Result<()>)
    requires
        x.name@ == "coreutils"@,
        x.spec_after_install(w, l, r),
    ensures
        links_onto(l, |t: Seq<char>| restorable_by(x, w, t)),
{
    let all = spec_list_names(COREUTILS_BINS_LIST@);
    let ts = all.map_values(|n: Seq<char>| spec_uutils_target(w, n));
    assert(x.spec_restore_targets(w) == Some(ts));
    let (k, v) = choose|k: int, v: Seq<(Seq<char>, Seq<char>)>|
        #[trigger] x.spec_selected(w, l, k, v) && if v.len() == 0 {
            l.len() == k && (r matches Err(Error::ExecutionFailed(m)) && m@ == no_applets_message(
                x.name@,
                x.bin_directory@,
                x.package_name@,
            ))
        } else {
            ran_in_order(l.skip(k), uutils_link_calls(w, v)) && (r is Ok <==> all_ran(l.skip(k), uutils_link_calls(w, v)))
        };
    assert(forall|i: int| 0 <= i < v.len() ==> all.contains(#[trigger] v[i].0)) by {
        assert forall|i: int| 0 <= i < v.len() implies all.contains(#[trigger] v[i].0) by {
            if unified_selection(w, v) {
                assert(v[i] == (all[i], unified_source(w, all[i])));
            }
        }
    }
    assert forall|i: int| 0 <= i < l.len() implies match (#[trigger] l[i]).0 {
        Call::Link(_, t) => restorable_by(x, w, t),
        _ => true,
    } by {
        if i < k {
            assert(l[i] == l.take(k)[i]);
        } else {
            let c = uutils_link_calls(w, v);
            assert(l[i] == l.skip(k)[i - k]);
            assert(l.skip(k)[i - k].0 == c[i - k]);
            let n = v[i - k].0;
            assert(c[i - k] == Call::Link(v[i - k].1, spec_uutils_target(w, n)));
            let j = choose|j: int| 0 <= j < all.len() && all[j] == n;
            assert(ts[j] == spec_uutils_target(w, n));
        }
    }
}

proof fn lemma_after_refresh_restorable<W: Worker>(x: &UutilsExperiment, w: &W, e: Seq<Effect>, r: Result<()>)
    requires
        x.name@ == "coreutils"@,
        x.spec_after_refresh(w, e, r),
    ensures
        links_onto(e, |t: Seq<char>| restorable_by(x, w, t)),
{
    if e.len() >= 2 && e[0].1 is Some && e[1].1 is Some && e[0].0 == Call::CheckInstalled(x.package_name@) && e[1].0
        == Call::Install(x.package_name@) {
        if x.spec_after_install(w, e.skip(2), r) {
            lemma_after_install_restorable(x, w, e.skip(2), r);
            assert forall|i: int| 0 <= i < e.len() implies match (#[trigger] e[i]).0 {
                Call::Link(_, t) => restorable_by(x, w, t),
                _ => true,
            } by {
                if i >= 2 {
                    assert(e[i] == e.skip(2)[i - 2]);
                }
            }
        }
    }
}

/// Enabling the coreutils family of uutils links only targets that disabling it
/// restores: every link is onto the target of a listed applet.
pub proof fn law_uutils_coreutils_enable_restorable<W: Worker>(
    x: &UutilsExperiment,
    w: &W,
    e: Seq<Effect>,
    update_lists: bool,
    r: Result<()>,
)
    requires
        x.name@ == "coreutils"@,
        x.spec_enable_ran(w, e, update_lists, r),
    ensures
        links_onto(e, |t: Seq<char>| restorable_by(x, w, t)),
{
    if w.spec_distribution_id() matches Some(id) && spec_is_supported_distro(id) {
        if update_lists {
            if e[0].1 is Some {
                lemma_after_refresh_restorable(x, w, e.skip(1), r);
                assert forall|i: int| 0 <= i < e.len() implies match (#[trigger] e[i]).0 {
                    Call::Link(_, t) => restorable_by(x, w, t),
                    _ => true,
                } by {
                    if i >= 1 {
                        assert(e[i] == e.skip(1)[i - 1]);
                    }
                }
            }
        } else {
            lemma_after_refresh_restorable(x, w, e, r);
        }
    }
}

} // verus!
