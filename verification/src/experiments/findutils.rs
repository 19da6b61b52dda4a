//! Findutils: GNU findutils switched to uutils-findutils (from the AUR).

use vstd::prelude::*;
use crate::utils::session::{answered_by, lemma_answered_since, link_answered};
use crate::utils::session::all_answered_by;
use crate::symlink::model::{disable_all, enable_all, entry_at, restorable, slots_apart, targets_of, Entry};
use crate::checks::{is_supported_distro, spec_is_supported_distro, Distribution};
use crate::error::{Error, Result};
use crate::experiments::worker_download_failure;
use crate::experiments::util::{
    law_links_made_by_worker, law_setup_made_by_worker,
    lemma_slots_undo, usrbin_slots,
    applet_source, find_applet_source, lemma_enable_links_onto, lemma_links_made_onto, lemma_sources_names, link_under_usrbin, links_made, pairs_view, prepare_package,
    refresh_then_restore, resolve_usrbin, restore_calls, restore_failed_message, spec_resolve_usrbin, spec_sources,
    verify_removed,
};
use crate::config::packages::UUTILS_FINDUTILS;
use crate::utils::paths::{join, path_join};
use crate::utils::text::{concat_str, str_chars, string_from};
use crate::utils::session::{
    done, effects_since, enable_ran, extends, lemma_effects_concat, lemma_effects_none, lemma_effects_push,
    links_onto, refresh_then_run, remove_ran, setup_len, Call, Effect, Session,
};
use crate::utils::worker::{strings_view, Worker};

verus! {

/// The findutils experiment.
pub struct FindutilsExperiment {
    pub name: String,
    pub package_name: String,
    pub bin_directory: String,
}

/// The applets of findutils.
pub open spec fn spec_findutils_applets() -> Seq<Seq<char>> {
    seq!["find"@, "xargs"@]
}

/// The targets of findutils: `find` and `xargs` under `/usr/bin`.
pub open spec fn spec_findutils_targets() -> Seq<Seq<char>> {
    spec_findutils_applets().map_values(|n: Seq<char>| spec_resolve_usrbin(n))
}

/// The places where a findutils binary is looked for, in order.
pub open spec fn spec_findutils_candidates(bin_directory: Seq<char>, name: Seq<char>) -> Seq<Seq<char>> {
    seq![
        path_join(bin_directory, name),
        "/usr/bin/uu-"@ + name,
        "/usr/lib/cargo/bin/"@ + name,
        "/usr/bin/"@ + name,
    ]
}

impl FindutilsExperiment {
    /// The findutils experiment with its defaults.
    pub fn new() -> (r: Self)
        ensures
            r.name@ == "findutils"@,
            r.package_name@ == UUTILS_FINDUTILS@,
            r.bin_directory@ == "/usr/lib/cargo/bin/findutils"@,
    {
        Self {
            name: "findutils".to_owned(),
            package_name: UUTILS_FINDUTILS.to_owned(),
            bin_directory: "/usr/lib/cargo/bin/findutils".to_owned(),
        }
    }

    pub fn name(&self) -> (r: &str)
        ensures
            r@ == self.name@,
    {
        self.name.as_str()
    }

    /// Compatible exactly with the supported distributions.
    pub fn check_compatible(&self, distro: &Distribution) -> (r: Result<bool>)
        ensures
            r matches Ok(b) && b == spec_is_supported_distro(distro.id@),
    {
        Ok(is_supported_distro(distro.id.as_str()))
    }

    /// The target of an applet: under `/usr/bin`.
    pub fn resolve_target(&self, filename: &str) -> (r: String)
        ensures
            r@ == spec_resolve_usrbin(filename@),
    {
        resolve_usrbin(filename)
    }

    /// The targets: `/usr/bin/find` and `/usr/bin/xargs`.
    pub fn list_targets(&self) -> (r: Vec<String>)
        ensures
            strings_view(r@) == spec_findutils_applets().map_values(|n: Seq<char>| spec_resolve_usrbin(n)),
    {
        let mut r: Vec<String> = Vec::new();
        r.push(self.resolve_target("find"));
        r.push(self.resolve_target("xargs"));
        assert(strings_view(r@) =~= spec_findutils_applets().map_values(|n: Seq<char>| spec_resolve_usrbin(n)));
        r
    }

    /// The places where a findutils binary is looked for.
    pub fn applet_candidates(&self, name: &str) -> (r: Vec<String>)
        ensures
            strings_view(r@) == spec_findutils_candidates(self.bin_directory@, name@),
    {
        let d = str_chars(self.bin_directory.as_str());
        let n = str_chars(name);
        let mut r: Vec<String> = Vec::new();
        r.push(string_from(join(d.as_slice(), n.as_slice()).as_slice()));
        r.push(concat_str("/usr/bin/uu-", name));
        r.push(concat_str("/usr/lib/cargo/bin/", name));
        r.push(concat_str("/usr/bin/", name));
        assert(strings_view(r@) =~= spec_findutils_candidates(self.bin_directory@, name@));
        r
    }

    /// The applets found after install, with their sources (see `find_source`).
    pub open spec fn spec_discovery<W: Worker>(&self, w: &W) -> Seq<(Seq<char>, Seq<char>)> {
        spec_sources(w, spec_findutils_applets(), |n: Seq<char>| spec_findutils_candidates(self.bin_directory@, n), true)
    }

    /// The source of one applet: the first candidate that exists, else what the search
    /// path gives, else none.
    pub fn find_source<W: Worker>(&self, worker: &W, name: &str) -> (r: Option<String>)
        ensures
            match r {
                Some(p) => applet_source(worker, name@, spec_findutils_candidates(self.bin_directory@, name@)) == Some(p@),
                None => applet_source(worker, name@, spec_findutils_candidates(self.bin_directory@, name@)) is None,
            },
    {
        let cands = self.applet_candidates(name);
        find_applet_source(worker, name, cands.as_slice())
    }

    /// Discover `find` and `xargs` and their sources; an applet without a source is skipped.
    pub fn discover_applets<W: Worker>(&self, worker: &W) -> (r: Result<Vec<(String, String)>>)
        ensures
            r matches Ok(v) && pairs_view(v@) == self.spec_discovery(worker),
    {
        let ghost cf = |n: Seq<char>| spec_findutils_candidates(self.bin_directory@, n);
        let ghost names = spec_findutils_applets();
        let mut applets: Vec<(String, String)> = Vec::new();
        proof {
            assert(names.drop_last() =~= seq!["find"@]);
            assert(seq!["find"@].drop_last() =~= Seq::<Seq<char>>::empty());
            assert(spec_sources(worker, Seq::<Seq<char>>::empty(), cf, true) == Seq::<(Seq<char>, Seq<char>)>::empty());
        }
        let ghost o = applets@;
        match self.find_source(worker, "find") {
            Some(p) => {
                applets.push(("find".to_owned(), p));
            },
            None => {},
        }
        assert(pairs_view(applets@) =~= spec_sources(worker, seq!["find"@], cf, true));
        match self.find_source(worker, "xargs") {
            Some(p) => {
                applets.push(("xargs".to_owned(), p));
            },
            None => {},
        }
        assert(pairs_view(applets@) =~= spec_sources(worker, names, cf, true));
        Ok(applets)
    }

    /// What follows a successful setup in an enable: with no applet found, nothing and
    /// `NothingToLink`; otherwise the links of the found applets under `/usr/bin`, in order,
    /// stopping at the first failure, and success exactly when every link was made.
    pub open spec fn spec_after_setup<W: Worker>(&self, w: &W, l: Seq<Effect>, r: Result<()>) -> bool {
        let d = self.spec_discovery(w);
        if d.len() == 0 {
            l.len() == 0 && (r matches Err(Error::NothingToLink(m)) && m@ == "no findutils applets discovered after install"@)
        } else {
            links_made(l, d, r is Ok)
        }
    }

    /// What an enable records and returns (see `enable`).
    pub open spec fn spec_enable_ran<W: Worker>(&self, w: &W, e: Seq<Effect>, update_lists: bool, r: Result<()>) -> bool {
        enable_ran(e, update_lists, self.package_name@, r is Ok, |l: Seq<Effect>| self.spec_after_setup(w, l, r))
    }

    /// Enable: refresh the package lists if asked, pass the repository gate, install the
    /// package, discover the applets (none is `NothingToLink`), and link them under
    /// `/usr/bin`, each found source onto its name there.
    pub fn enable<W: Worker>(&self, session: &mut Session<W>, assume_yes: bool, update_lists: bool) -> (r: Result<()>)
        ensures
            final(session).worker == old(session).worker,
            extends(old(session).effects@, final(session).effects@),
            all_answered_by(&old(session).worker, old(session).effects@) ==> all_answered_by(
                &final(session).worker,
                final(session).effects@,
            ),
            self.spec_enable_ran(&old(session).worker, effects_since(old(session).effects@, final(session).effects@), update_lists, r),
            !update_lists && (old(session).worker.spec_extra_repo() is None || old(session).worker.spec_aur_helper()
                is None) ==> r is Err,
            !update_lists ==> (worker_download_failure(&old(session).worker, self.package_name@) matches Some(d) ==> (
            r matches Err(Error::RepoGateFailed { package: p, details: q }) && p@ == self.package_name@ && q@ == d)),
            r is Ok ==> old(session).worker.spec_extra_repo() is Some && old(session).worker.spec_aur_helper() is Some
                && worker_download_failure(&old(session).worker, self.package_name@) is None,
    {
        let ghost e0 = session.effects@;
        let p = prepare_package(session, self.package_name.as_str(), assume_yes, update_lists);
        if p.is_err() {
            return p;
        }
        let ghost e1 = session.effects@;
        let applets = self.discover_applets(&session.worker)?;
        if applets.len() == 0 {
            proof {
                lemma_effects_none(e1);
                assert(effects_since(e0, session.effects@).take(setup_len(update_lists)) =~= effects_since(e0, e1));
                assert(effects_since(e0, session.effects@).skip(setup_len(update_lists)) =~= Seq::<Effect>::empty());
            }
            return Err(Error::NothingToLink("no findutils applets discovered after install".to_owned()));
        }
        let r = link_under_usrbin(session, applets.as_slice());
        proof {
            lemma_effects_concat(e0, e1, session.effects@);
            let e = effects_since(e0, session.effects@);
            assert(e.take(setup_len(update_lists)) =~= effects_since(e0, e1));
            assert(e.skip(setup_len(update_lists)) =~= effects_since(e1, session.effects@));
        }
        r
    }

    /// Disable: refresh the package lists if asked, then restore `find` and `xargs` in
    /// order; nothing else is done, the run stops at the first failure, and success means
    /// every step succeeded. Without a refresh, a failure names the target it stopped at.
    pub fn disable<W: Worker>(&self, session: &mut Session<W>, assume_yes: bool, update_lists: bool) -> (r: Result<()>)
        ensures
            final(session).worker == old(session).worker,
            extends(old(session).effects@, final(session).effects@),
            all_answered_by(&old(session).worker, old(session).effects@) ==> all_answered_by(
                &final(session).worker,
                final(session).effects@,
            ),
            refresh_then_run(
                effects_since(old(session).effects@, final(session).effects@),
                update_lists,
                restore_calls(spec_findutils_targets()),
                r is Ok,
            ),
            !update_lists && r is Err ==> r matches Err(Error::ExecutionFailed(_)),
            !update_lists ==> (r matches Err(Error::ExecutionFailed(m)) ==> exists|i: int, e: Error|
                0 <= i < spec_findutils_targets().len() && m@ == restore_failed_message(
                    spec_findutils_targets()[i],
                    e.spec_message(),
                )),
    {
        let targets = self.list_targets();
        let r = refresh_then_restore(session, targets.as_slice(), assume_yes, update_lists);
        proof {
            assert(strings_view(targets@) == spec_findutils_targets());
            if let Err(Error::ExecutionFailed(m)) = &r {
                if !update_lists {
                    let (i, e) = choose|i: int, e: Error|
                        0 <= i < targets@.len() && m@ == restore_failed_message(targets@[i]@, e.spec_message());
                    assert(targets@[i]@ == strings_view(targets@)[i]);
                    assert(strings_view(targets@).len() == targets@.len());
                }
            }
        }
        r
    }

    /// Remove: disable, then remove the package, then check that it is gone; each step
    /// only after the previous one succeeded.
    pub fn remove<W: Worker>(&self, session: &mut Session<W>, assume_yes: bool, update_lists: bool) -> (r: Result<()>)
        ensures
            final(session).worker == old(session).worker,
            extends(old(session).effects@, final(session).effects@),
            all_answered_by(&old(session).worker, old(session).effects@) ==> all_answered_by(
                &final(session).worker,
                final(session).effects@,
            ),
            remove_ran(
                effects_since(old(session).effects@, final(session).effects@),
                |d: Seq<Effect>, ok: bool| refresh_then_run(d, update_lists, restore_calls(spec_findutils_targets()), ok),
                self.package_name@,
                r,
            ),
    {
        let ghost e0 = session.effects@;
        let d = self.disable(session, assume_yes, update_lists);
        let ghost e1 = session.effects@;
        if d.is_err() {
            return d;
        }
        let rm = session.remove_package(self.package_name.as_str(), assume_yes);
        proof {
            lemma_effects_push(e0, e1, (Call::Remove(self.package_name@), done(rm)));
            assert(effects_since(e0, session.effects@).drop_last() =~= effects_since(e0, e1));
        }
        if rm.is_err() {
            return rm;
        }
        let ghost e2 = session.effects@;
        let v = verify_removed(session, self.package_name.as_str());
        proof {
            lemma_effects_push(e0, e2, session.effects@.last());
            assert(session.effects@ =~= e2.push(session.effects@.last()));
            let e = effects_since(e0, session.effects@);
            assert(e.drop_last().drop_last() =~= effects_since(e0, e1));
            assert(e[e.len() - 2] == (Call::Remove(self.package_name@), Some(true)));
            assert(e.last() == session.effects@.last());
            if v is Ok {
                match session.effects@.last().1 {
                    Some(b) => {
                        assert(!b);
                    },
                    None => {
                        assert(false);
                    },
                }
            }
        }
        v
    }
}

/// Enabling findutils links only `find` and `xargs` under `/usr/bin`, which are the
/// targets that disabling restores.
pub proof fn law_findutils_enable_links_restorable<W: Worker>(
    x: &FindutilsExperiment,
    w: &W,
    e: Seq<Effect>,
    update_lists: bool,
    r: Result<()>,
)
    requires
        x.spec_enable_ran(w, e, update_lists, r),
    ensures
        links_onto(e, |t: Seq<char>| spec_findutils_targets().contains(t)),
{
    let allowed = |t: Seq<char>| spec_findutils_targets().contains(t);
    let all = spec_findutils_applets();
    let cf = |n: Seq<char>| spec_findutils_candidates(x.bin_directory@, n);
    let d = x.spec_discovery(w);
    lemma_sources_names(w, all, cf, true);
    assert forall|i: int| 0 <= i < d.len() implies allowed(spec_resolve_usrbin(#[trigger] d[i].0)) by {
        let k = choose|k: int| 0 <= k < all.len() && all[k] == d[i].0;
        assert(spec_findutils_targets()[k] == spec_resolve_usrbin(d[i].0));
    }
    let n0 = setup_len(update_lists);
    if e.len() >= n0 && x.spec_after_setup(w, e.skip(n0), r) {
        if d.len() > 0 {
            lemma_links_made_onto(e.skip(n0), d, r is Ok, allowed);
        }
    }
    lemma_enable_links_onto(e, update_lists, x.package_name@, r is Ok, |l: Seq<Effect>| x.spec_after_setup(w, l, r), allowed);
}

/// A successful findutils enable made exactly the links for the applets it found, each
/// under `/usr/bin`; on a file tree where those targets are apart and each holds a file or
/// a link elsewhere, replaying those links and then restoring their targets in order gives
/// every linked target back what it held, and replaying the links again changes nothing.
pub proof fn law_findutils_disable_undoes_enable<W: Worker>(
    x: &FindutilsExperiment,
    w: &W,
    e: Seq<Effect>,
    update_lists: bool,
    fs: Map<Seq<char>, Entry>,
)
    requires
        x.spec_enable_ran(w, e, update_lists, Ok(())),
        slots_apart(usrbin_slots(x.spec_discovery(w))),
        restorable(fs, usrbin_slots(x.spec_discovery(w))),
    ensures
        e.len() >= setup_len(update_lists),
        links_made(e.skip(setup_len(update_lists)), x.spec_discovery(w), true),
        ({
            let s = usrbin_slots(x.spec_discovery(w));
            &&& forall|i: int|
                0 <= i < s.len() ==> entry_at(disable_all(enable_all(fs, s), targets_of(s)), #[trigger] s[i].0) == entry_at(
                    fs,
                    s[i].0,
                )
            &&& enable_all(enable_all(fs, s), s) == enable_all(fs, s)
        }),
{
    let p = x.spec_discovery(w);
    lemma_slots_undo(fs, p);
    let s = usrbin_slots(p);
    assert forall|i: int| 0 <= i < s.len() implies entry_at(disable_all(enable_all(fs, s), targets_of(s)), #[trigger] s[i].0)
        == entry_at(fs, s[i].0) by {
        assert(s[i].0 == spec_resolve_usrbin(p[i].0));
    }
}

/// A successful enable, on a session whose record the worker answered: the worker
/// answered success to installing exactly the experiment's package, and to swapping each
/// linked applet's place under `/usr/bin` for a link to that applet's source.
pub proof fn law_findutils_enable_made_by_worker<W: Worker>(
    x: &FindutilsExperiment,
    w: &W,
    before: Seq<Effect>,
    after: Seq<Effect>,
    update_lists: bool,
)
    requires
        extends(before, after),
        all_answered_by(w, after),
        x.spec_enable_ran(w, effects_since(before, after), update_lists, Ok(())),
    ensures
        exists|y: bool, r: Result<()>| #[trigger] w.spec_install_outcome(x.package_name@, y, r) && r is Ok,
        forall|i: int|
            0 <= i < x.spec_discovery(w).len() ==> link_answered(
                w,
                #[trigger] x.spec_discovery(w)[i].1,
                spec_resolve_usrbin(x.spec_discovery(w)[i].0),
                Some(true),
            ),
{
    lemma_answered_since(w, before, after);
    let e = effects_since(before, after);
    let n = setup_len(update_lists);
    assert(all_answered_by(w, e.take(n))) by {
        assert forall|i: int| 0 <= i < e.take(n).len() implies answered_by(w, #[trigger] e.take(n)[i]) by {
            assert(e.take(n)[i] == e[i]);
        }
    }
    assert(all_answered_by(w, e.skip(n))) by {
        assert forall|i: int| 0 <= i < e.skip(n).len() implies answered_by(w, #[trigger] e.skip(n)[i]) by {
            assert(e.skip(n)[i] == e[i + n]);
        }
    }
    law_setup_made_by_worker(w, e.take(n), update_lists, x.package_name@);
    law_links_made_by_worker(w, e.skip(n), x.spec_discovery(w));
}

} // verus!
