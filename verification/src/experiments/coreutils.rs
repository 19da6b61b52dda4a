//! Coreutils: GNU coreutils switched to uutils-coreutils.

use vstd::prelude::*;
use crate::utils::session::{answered_by, lemma_answered_since, link_answered};
use crate::utils::session::all_answered_by;
use crate::symlink::model::{disable_all, enable_all, entry_at, restorable, slots_apart, targets_of, Entry};
use crate::checks::{is_supported_distro, spec_is_supported_distro, Distribution};
use crate::error::{Error, Result};
use crate::experiments::worker_download_failure;
use crate::experiments::util::{
    law_links_made_by_worker, law_setup_made_by_worker,
    lemma_slots_undo, usrbin_slots,
    find_applet_source, lemma_enable_links_onto, lemma_links_made_onto, lemma_sources_names, lemma_sources_step, link_under_usrbin, links_made, list_names, pairs_view, prepare_package,
    refresh_then_restore, resolve_usrbin, restore_calls, restore_failed_message, spec_list_names,
    spec_resolve_usrbin, spec_sources, verify_removed, which_found,
};
use crate::utils::session::{
    done, effects_since, enable_ran, extends, lemma_effects_concat, lemma_effects_none, lemma_effects_push,
    links_onto, refresh_then_run, remove_ran, setup_len, Call, Effect, Session,
};
use crate::experiments::uutils::constants::COREUTILS_BINS_LIST;
use crate::config::packages::UUTILS_COREUTILS;
use crate::utils::paths::{join, path_join};
use crate::utils::text::{chars_eq_str, concat_str, str_chars, string_from};
use crate::utils::worker::{strings_view, Worker};

verus! {

/// Binaries that are never replaced, so that packaging tools (makepkg) keep working.
pub const PRESERVE_BINS: [&'static str; 7] = [
    "b2sum",
    "md5sum",
    "sha1sum",
    "sha224sum",
    "sha256sum",
    "sha384sum",
    "sha512sum",
];

/// The checksum tools that are preserved.
pub open spec fn spec_preserved(name: Seq<char>) -> bool {
    name == "b2sum"@ || name == "md5sum"@ || name == "sha1sum"@ || name == "sha224sum"@ || name
        == "sha256sum"@ || name == "sha384sum"@ || name == "sha512sum"@
}

/// Whether an applet is one of the preserved checksum tools.
pub fn is_preserved(name: &str) -> (r: bool)
    ensures
        r == spec_preserved(name@),
{
    let v = str_chars(name);
    let s = v.as_slice();
    chars_eq_str(s, "b2sum") || chars_eq_str(s, "md5sum") || chars_eq_str(s, "sha1sum")
        || chars_eq_str(s, "sha224sum") || chars_eq_str(s, "sha256sum") || chars_eq_str(s, "sha384sum")
        || chars_eq_str(s, "sha512sum")
}

/// The applets without the preserved checksum tools, in order.
pub open spec fn spec_without_preserved(v: Seq<(Seq<char>, Seq<char>)>) -> Seq<(Seq<char>, Seq<char>)> {
    v.filter(|p: (Seq<char>, Seq<char>)| !spec_preserved(p.0))
}

proof fn lemma_filter_push_pair(s: Seq<(Seq<char>, Seq<char>)>, x: (Seq<char>, Seq<char>))
    ensures
        spec_without_preserved(s.push(x)) == if !spec_preserved(x.0) {
            spec_without_preserved(s).push(x)
        } else {
            spec_without_preserved(s)
        },
{
    reveal(Seq::filter);
    assert(s.push(x).drop_last() =~= s);
}

/// Coreutils never takes over the checksum tools: no preserved applet survives the
/// filter, and every applet that is not preserved does.
pub proof fn law_checksum_tools_never_linked(v: Seq<(Seq<char>, Seq<char>)>)
    ensures
        forall|i: int| 0 <= i < spec_without_preserved(v).len() ==> !spec_preserved(
            #[trigger] spec_without_preserved(v)[i].0,
        ),
        forall|i: int| 0 <= i < v.len() && !spec_preserved(v[i].0) ==> spec_without_preserved(v).contains(
            #[trigger] v[i],
        ),
{
    let pred = |p: (Seq<char>, Seq<char>)| !spec_preserved(p.0);
    assert forall|i: int| 0 <= i < spec_without_preserved(v).len() implies !spec_preserved(
        #[trigger] spec_without_preserved(v)[i].0,
    ) by {
        v.lemma_filter_pred(pred, i);
    }
    assert forall|i: int| 0 <= i < v.len() && !spec_preserved(v[i].0) implies spec_without_preserved(v).contains(
        #[trigger] v[i],
    ) by {
        v.lemma_filter_contains(pred, i);
    }
}

/// Drop the preserved checksum tools from a list of (applet, source) pairs.
pub fn filter_preserved(applets: &[(String, String)]) -> (r: Vec<(String, String)>)
    ensures
        pairs_view(r@) == spec_without_preserved(pairs_view(applets@)),
{
    let mut out: Vec<(String, String)> = Vec::new();
    let mut i: usize = 0;
    assert(pairs_view(applets@).take(0) =~= seq![]);
    while i < applets.len()
        invariant
            i <= applets@.len(),
            pairs_view(out@) == spec_without_preserved(pairs_view(applets@).take(i as int)),
        decreases applets@.len() - i,
    {
        proof {
            assert(pairs_view(applets@).take(i + 1) =~= pairs_view(applets@).take(i as int).push(
                (applets@[i as int].0@, applets@[i as int].1@),
            ));
            lemma_filter_push_pair(pairs_view(applets@).take(i as int), (applets@[i as int].0@, applets@[i as int].1@));
        }
        if !is_preserved(applets[i].0.as_str()) {
            let ghost o = out@;
            out.push((applets[i].0.clone(), applets[i].1.clone()));
            assert(pairs_view(out@) =~= pairs_view(o).push((applets@[i as int].0@, applets@[i as int].1@)));
        }
        i = i + 1;
    }
    assert(pairs_view(applets@).take(applets@.len() as int) =~= pairs_view(applets@));
    out
}

/// The places where a per-applet binary is looked for, in order.
pub open spec fn spec_applet_candidates(bin_directory: Seq<char>, name: Seq<char>) -> Seq<Seq<char>> {
    seq![
        path_join(bin_directory, name),
        "/usr/bin/uu-"@ + name,
        "/usr/lib/cargo/bin/coreutils/"@ + name,
        "/usr/lib/cargo/bin/"@ + name,
    ]
}

/// The coreutils experiment.
pub struct CoreutilsExperiment {
    pub name: String,
    pub package_name: String,
    pub unified_binary: Option<String>,
    pub bin_directory: String,
}

/// The targets of the coreutils experiment: every listed applet under `/usr/bin`.
pub open spec fn spec_coreutils_targets() -> Seq<Seq<char>> {
    spec_list_names(COREUTILS_BINS_LIST@).map_values(|n: Seq<char>| spec_resolve_usrbin(n))
}

/// The targets under `/usr/bin` of a list of names.
pub fn usrbin_targets(names: &Vec<String>) -> (r: Vec<String>)
    ensures
        strings_view(r@) == strings_view(names@).map_values(|n: Seq<char>| spec_resolve_usrbin(n)),
{
    let mut out: Vec<String> = Vec::new();
    let mut i: usize = 0;
    while i < names.len()
        invariant
            i <= names@.len(),
            strings_view(out@) == strings_view(names@).take(i as int).map_values(|n: Seq<char>| spec_resolve_usrbin(n)),
        decreases names@.len() - i,
    {
        let t = resolve_usrbin(names[i].as_str());
        let ghost o = out@;
        out.push(t);
        assert(strings_view(out@) =~= strings_view(o).push(t@));
        assert(strings_view(names@).take(i + 1) =~= strings_view(names@).take(i as int).push(names@[i as int]@));
        i = i + 1;
        assert(strings_view(out@) =~= strings_view(names@).take(i as int).map_values(|n: Seq<char>| spec_resolve_usrbin(n)));
    }
    assert(strings_view(names@).take(names@.len() as int) =~= strings_view(names@));
    out
}

/// The message when no coreutils applet was discovered.
pub open spec fn no_coreutils_applets_message(package: Seq<char>) -> Seq<char> {
    "❌ Expected: coreutils applets discovered; Received: 0. Ensure "@ + package + " is installed correctly."@
}

impl CoreutilsExperiment {
    /// The coreutils experiment with its defaults.
    pub fn new() -> (r: Self)
        ensures
            r.name@ == "coreutils"@,
            r.package_name@ == UUTILS_COREUTILS@,
            r.unified_binary matches Some(u) && u@ == "/usr/bin/coreutils"@,
            r.bin_directory@ == "/usr/lib/uutils/coreutils"@,
    {
        Self {
            name: "coreutils".to_owned(),
            package_name: UUTILS_COREUTILS.to_owned(),
            unified_binary: Some("/usr/bin/coreutils".to_owned()),
            bin_directory: "/usr/lib/uutils/coreutils".to_owned(),
        }
    }

    pub fn name(&self) -> (r: &str)
        ensures
            r@ == self.name@,
    {
        self.name.as_str()
    }

    /// Compatible exactly with the supported distributions.
    pub fn check_compatible(&self, distro: &Distribution) -> (r: Result<bool>)
        ensures
            r matches Ok(b) && b == spec_is_supported_distro(distro.id@),
    {
        Ok(is_supported_distro(distro.id.as_str()))
    }

    /// The target of an applet: under `/usr/bin`.
    pub fn resolve_target(&self, filename: &str) -> (r: String)
        ensures
            r@ == spec_resolve_usrbin(filename@),
    {
        resolve_usrbin(filename)
    }

    /// The targets that enabling may replace: every listed applet under `/usr/bin`.
    pub fn list_targets(&self) -> (r: Vec<String>)
        ensures
            strings_view(r@) == spec_coreutils_targets(),
    {
        let names = list_names(COREUTILS_BINS_LIST);
        usrbin_targets(&names)
    }

    /// The places where a per-applet binary is looked for.
    pub fn applet_candidates(&self, name: &str) -> (r: Vec<String>)
        ensures
            strings_view(r@) == spec_applet_candidates(self.bin_directory@, name@),
    {
        let d = str_chars(self.bin_directory.as_str());
        let n = str_chars(name);
        let mut r: Vec<String> = Vec::new();
        r.push(string_from(join(d.as_slice(), n.as_slice()).as_slice()));
        r.push(concat_str("/usr/bin/uu-", name));
        r.push(concat_str("/usr/lib/cargo/bin/coreutils/", name));
        r.push(concat_str("/usr/lib/cargo/bin/", name));
        assert(strings_view(r@) =~= spec_applet_candidates(self.bin_directory@, name@));
        r
    }

    /// The unified dispatcher, when one is configured: the configured path when it exists,
    /// else what the search path finds for `coreutils`.
    pub open spec fn spec_unified<W: Worker>(&self, w: &W) -> Option<Seq<char>> {
        match self.unified_binary {
            Some(p) => if w.spec_path_exists(p@) {
                Some(p@)
            } else {
                which_found(w, "coreutils"@)
            },
            None => None,
        }
    }

    /// The applets found after install, with their sources: with a unified dispatcher,
    /// every listed applet onto it; otherwise each listed applet that has a source (see
    /// `applet_source`) onto it.
    pub open spec fn spec_discovery<W: Worker>(&self, w: &W) -> Seq<(Seq<char>, Seq<char>)> {
        let names = spec_list_names(COREUTILS_BINS_LIST@);
        match self.spec_unified(w) {
            Some(u) => names.map_values(|n: Seq<char>| (n, u)),
            None => spec_sources(w, names, |n: Seq<char>| spec_applet_candidates(self.bin_directory@, n), true),
        }
    }

    /// Discover the applets to link and their sources (see `spec_discovery`).
    pub fn discover_applets<W: Worker>(&self, worker: &W) -> (r: Result<Vec<(String, String)>>)
        ensures
            r matches Ok(v) && pairs_view(v@) == self.spec_discovery(worker),
    {
        let names = list_names(COREUTILS_BINS_LIST);
        let ghost all = spec_list_names(COREUTILS_BINS_LIST@);
        let ghost cf = |n: Seq<char>| spec_applet_candidates(self.bin_directory@, n);
        let unified: Option<String> = match &self.unified_binary {
            Some(path) => {
                if worker.path_exists(path.as_str()) {
                    Some(path.clone())
                } else {
                    match worker.which("coreutils") {
                        Ok(Some(found)) => Some(found),
                        _ => None,
                    }
                }
            },
            None => None,
        };
        let mut applets: Vec<(String, String)> = Vec::new();
        let mut i: usize = 0;
        assert(all.take(0) =~= Seq::<Seq<char>>::empty());
        while i < names.len()
            invariant
                i <= names@.len(),
                strings_view(names@) == all,
                cf == (|n: Seq<char>| spec_applet_candidates(self.bin_directory@, n)),
                match unified {
                    Some(u) => self.spec_unified(worker) == Some(u@) && pairs_view(applets@) == all.take(i as int).map_values(
                        |n: Seq<char>| (n, u@),
                    ),
                    None => self.spec_unified(worker) is None && pairs_view(applets@) == spec_sources(
                        worker,
                        all.take(i as int),
                        cf,
                        true,
                    ),
                },
            decreases names@.len() - i,
        {
            let name = names[i].as_str();
            proof {
                assert(all[i as int] == names@[i as int]@);
                lemma_sources_step(worker, all, i as int, cf, true);
                assert(all.take(i + 1) =~= all.take(i as int).push(all[i as int]));
            }
            let ghost o = applets@;
            match &unified {
                Some(u) => {
                    let uc = u.clone();
                    applets.push((name.to_owned(), uc));
                    assert(pairs_view(applets@) =~= pairs_view(o).push((name@, u@)));
                    assert(pairs_view(applets@) =~= all.take(i + 1).map_values(|n: Seq<char>| (n, u@)));
                },
                None => {
                    let cands = self.applet_candidates(name);
                    assert(cf(name@) == strings_view(cands@));
                    match find_applet_source(worker, name, cands.as_slice()) {
                        Some(f) => {
                            applets.push((name.to_owned(), f));
                            assert(pairs_view(applets@) =~= pairs_view(o) + seq![(name@, f@)]);
                        },
                        None => {
                            assert(pairs_view(applets@) =~= pairs_view(o) + Seq::<(Seq<char>, Seq<char>)>::empty());
                        },
                    }
                },
            }
            i = i + 1;
        }
        assert(all.take(names@.len() as int) =~= all);
        Ok(applets)
    }

    /// What follows a successful setup in an enable: with no applet found, nothing and an
    /// error; otherwise the links, under `/usr/bin`, of the found applets other than the
    /// preserved checksum tools, in order, stopping at the first failure, and success
    /// exactly when every link was made.
    pub open spec fn spec_after_setup<W: Worker>(&self, w: &W, l: Seq<Effect>, r: Result<()>) -> bool {
        let d = self.spec_discovery(w);
        if d.len() == 0 {
            l.len() == 0 && (r matches Err(Error::ExecutionFailed(m)) && m@ == no_coreutils_applets_message(
                self.package_name@,
            ))
        } else {
            links_made(l, spec_without_preserved(d), r is Ok)
        }
    }

    /// What an enable records and returns (see `enable`).
    pub open spec fn spec_enable_ran<W: Worker>(&self, w: &W, e: Seq<Effect>, update_lists: bool, r: Result<()>) -> bool {
        enable_ran(e, update_lists, self.package_name@, r is Ok, |l: Seq<Effect>| self.spec_after_setup(w, l, r))
    }

    /// Enable: refresh the package lists if asked, pass the repository gate, install the
    /// package, discover applets (none is an error), and link all of them but the
    /// preserved checksum tools under `/usr/bin`.
    pub fn enable<W: Worker>(&self, session: &mut Session<W>, assume_yes: bool, update_lists: bool) -> (r: Result<()>)
        ensures
            final(session).worker == old(session).worker,
            extends(old(session).effects@, final(session).effects@),
            all_answered_by(&old(session).worker, old(session).effects@) ==> all_answered_by(
                &final(session).worker,
                final(session).effects@,
            ),
            self.spec_enable_ran(&old(session).worker, effects_since(old(session).effects@, final(session).effects@), update_lists, r),
            !update_lists && (old(session).worker.spec_extra_repo() is None || old(session).worker.spec_aur_helper()
                is None) ==> r is Err,
            !update_lists ==> (worker_download_failure(&old(session).worker, self.package_name@) matches Some(d) ==> (
            r matches Err(Error::RepoGateFailed { package: p, details: q }) && p@ == self.package_name@ && q@ == d)),
            r is Ok ==> old(session).worker.spec_extra_repo() is Some && old(session).worker.spec_aur_helper() is Some
                && worker_download_failure(&old(session).worker, self.package_name@) is None,
    {
        let ghost e0 = session.effects@;
        let p = prepare_package(session, self.package_name.as_str(), assume_yes, update_lists);
        if p.is_err() {
            return p;
        }
        let ghost e1 = session.effects@;
        let applets = self.discover_applets(&session.worker)?;
        if applets.len() == 0 {
            proof {
                lemma_effects_none(e1);
                assert(effects_since(e0, session.effects@).take(setup_len(update_lists)) =~= effects_since(e0, e1));
                assert(effects_since(e0, session.effects@).skip(setup_len(update_lists)) =~= Seq::<Effect>::empty());
            }
            let mut m = "❌ Expected: coreutils applets discovered; Received: 0. Ensure ".to_owned();
            m.append(self.package_name.as_str());
            m.append(" is installed correctly.");
            return Err(Error::ExecutionFailed(m));
        }
        let filtered = filter_preserved(applets.as_slice());
        let r = link_under_usrbin(session, filtered.as_slice());
        proof {
            lemma_effects_concat(e0, e1, session.effects@);
            let e = effects_since(e0, session.effects@);
            assert(e.take(setup_len(update_lists)) =~= effects_since(e0, e1));
            assert(e.skip(setup_len(update_lists)) =~= effects_since(e1, session.effects@));
        }
        r
    }

    /// Disable: refresh the package lists if asked, then restore every target in order;
    /// nothing else is done (packages stay installed), the run stops at the first failure,
    /// and success means every step succeeded. Without a refresh, a failure names the
    /// coreutils target it stopped at.
    pub fn disable<W: Worker>(&self, session: &mut Session<W>, assume_yes: bool, update_lists: bool) -> (r: Result<()>)
        ensures
            final(session).worker == old(session).worker,
            extends(old(session).effects@, final(session).effects@),
            all_answered_by(&old(session).worker, old(session).effects@) ==> all_answered_by(
                &final(session).worker,
                final(session).effects@,
            ),
            refresh_then_run(
                effects_since(old(session).effects@, final(session).effects@),
                update_lists,
                restore_calls(spec_coreutils_targets()),
                r is Ok,
            ),
            !update_lists && r is Err ==> r matches Err(Error::ExecutionFailed(_)),
            !update_lists ==> (r matches Err(Error::ExecutionFailed(m)) ==> exists|i: int, e: Error|
                0 <= i < spec_coreutils_targets().len() && m@ == restore_failed_message(
                    spec_coreutils_targets()[i],
                    e.spec_message(),
                )),
    {
        let targets = self.list_targets();
        let r = refresh_then_restore(session, targets.as_slice(), assume_yes, update_lists);
        proof {
            if let Err(Error::ExecutionFailed(m)) = &r {
                if !update_lists {
                    let (i, e) = choose|i: int, e: Error|
                        0 <= i < targets@.len() && m@ == restore_failed_message(targets@[i]@, e.spec_message());
                    assert(targets@[i]@ == strings_view(targets@)[i]);
                    assert(strings_view(targets@).len() == targets@.len());
                }
            }
        }
        r
    }

    /// Remove: disable, then remove the package, then check that it is gone; each step
    /// only after the previous one succeeded.
    pub fn remove<W: Worker>(&self, session: &mut Session<W>, assume_yes: bool, update_lists: bool) -> (r: Result<()>)
        ensures
            final(session).worker == old(session).worker,
            extends(old(session).effects@, final(session).effects@),
            all_answered_by(&old(session).worker, old(session).effects@) ==> all_answered_by(
                &final(session).worker,
                final(session).effects@,
            ),
            remove_ran(
                effects_since(old(session).effects@, final(session).effects@),
                |d: Seq<Effect>, ok: bool| refresh_then_run(d, update_lists, restore_calls(spec_coreutils_targets()), ok),
                self.package_name@,
                r,
            ),
    {
        let ghost e0 = session.effects@;
        let d = self.disable(session, assume_yes, update_lists);
        let ghost e1 = session.effects@;
        if d.is_err() {
            return d;
        }
        let rm = session.remove_package(self.package_name.as_str(), assume_yes);
        proof {
            lemma_effects_push(e0, e1, (Call::Remove(self.package_name@), done(rm)));
            assert(effects_since(e0, session.effects@).drop_last() =~= effects_since(e0, e1));
        }
        if rm.is_err() {
            return rm;
        }
        let ghost e2 = session.effects@;
        let v = verify_removed(session, self.package_name.as_str());
        proof {
            lemma_effects_push(e0, e2, session.effects@.last());
            assert(session.effects@ =~= e2.push(session.effects@.last()));
            let e = effects_since(e0, session.effects@);
            assert(e.drop_last().drop_last() =~= effects_since(e0, e1));
            assert(e[e.len() - 2] == (Call::Remove(self.package_name@), Some(true)));
            assert(e.last() == session.effects@.last());
            if v is Ok {
                match session.effects@.last().1 {
                    Some(b) => {
                        assert(!b);
                    },
                    None => {
                        assert(false);
                    },
                }
            }
        }
        v
    }
}

/// A target that coreutils links: the place under `/usr/bin` of a listed applet that is
/// not one of the preserved checksum tools.
pub open spec fn coreutils_link_target(t: Seq<char>) -> bool {
    exists|n: Seq<char>|
        #[trigger] spec_list_names(COREUTILS_BINS_LIST@).contains(n) && !spec_preserved(n) && t == spec_resolve_usrbin(n)
}

/// Enabling coreutils links only listed applets other than the preserved checksum tools,
/// each at its place under `/usr/bin`; every target it links is one that disabling
/// restores.
pub proof fn law_coreutils_enable_links_restorable<W: Worker>(
    x: &CoreutilsExperiment,
    w: &W,
    e: Seq<Effect>,
    update_lists: bool,
    r: Result<()>,
)
    requires
        x.spec_enable_ran(w, e, update_lists, r),
    ensures
        links_onto(e, |t: Seq<char>| coreutils_link_target(t) && spec_coreutils_targets().contains(t)),
{
    let allowed = |t: Seq<char>| coreutils_link_target(t) && spec_coreutils_targets().contains(t);
    let all = spec_list_names(COREUTILS_BINS_LIST@);
    let cf = |n: Seq<char>| spec_applet_candidates(x.bin_directory@, n);
    let d = x.spec_discovery(w);
    let wp = spec_without_preserved(d);
    let pred = |p: (Seq<char>, Seq<char>)| !spec_preserved(p.0);
    lemma_sources_names(w, all, cf, true);
    assert forall|i: int| 0 <= i < wp.len() implies allowed(spec_resolve_usrbin(#[trigger] wp[i].0)) by {
        d.lemma_filter_pred(pred, i);
        assert(wp.contains(wp[i]));
        d.lemma_filter_contains_rev(pred, wp[i]);
        let j = choose|j: int| 0 <= j < d.len() && d[j] == wp[i];
        let n = wp[i].0;
        assert(all.contains(n)) by {
            match x.spec_unified(w) {
                Some(u) => {
                    assert(d[j] == (all[j], u));
                },
                None => {
                    assert(d[j].0 == spec_sources(w, all, cf, true)[j].0);
                },
            }
        }
        let k = choose|k: int| 0 <= k < all.len() && all[k] == n;
        assert(spec_coreutils_targets()[k] == spec_resolve_usrbin(n));
        assert(coreutils_link_target(spec_resolve_usrbin(n)));
    }
    let n0 = setup_len(update_lists);
    if e.len() >= n0 && x.spec_after_setup(w, e.skip(n0), r) {
        if d.len() > 0 {
            lemma_links_made_onto(e.skip(n0), wp, r is Ok, allowed);
        }
    }
    lemma_enable_links_onto(e, update_lists, x.package_name@, r is Ok, |l: Seq<Effect>| x.spec_after_setup(w, l, r), allowed);
}

/// A successful coreutils enable made exactly the links for the applets it found other
/// than the checksum tools, each under `/usr/bin`; on a file tree where those targets are
/// apart and each holds a file or a link elsewhere, replaying those links and then
/// restoring their targets in order gives every linked target back what it held, and
/// replaying the links again changes nothing.
pub proof fn law_coreutils_disable_undoes_enable<W: Worker>(
    x: &CoreutilsExperiment,
    w: &W,
    e: Seq<Effect>,
    update_lists: bool,
    fs: Map<Seq<char>, Entry>,
)
    requires
        x.spec_enable_ran(w, e, update_lists, Ok(())),
        slots_apart(usrbin_slots(spec_without_preserved(x.spec_discovery(w)))),
        restorable(fs, usrbin_slots(spec_without_preserved(x.spec_discovery(w)))),
    ensures
        e.len() >= setup_len(update_lists),
        links_made(e.skip(setup_len(update_lists)), spec_without_preserved(x.spec_discovery(w)), true),
        ({
            let s = usrbin_slots(spec_without_preserved(x.spec_discovery(w)));
            &&& forall|i: int|
                0 <= i < s.len() ==> entry_at(disable_all(enable_all(fs, s), targets_of(s)), #[trigger] s[i].0) == entry_at(
                    fs,
                    s[i].0,
                )
            &&& enable_all(enable_all(fs, s), s) == enable_all(fs, s)
        }),
{
    let p = spec_without_preserved(x.spec_discovery(w));
    lemma_slots_undo(fs, p);
    let s = usrbin_slots(p);
    assert forall|i: int| 0 <= i < s.len() implies entry_at(disable_all(enable_all(fs, s), targets_of(s)), #[trigger] s[i].0)
        == entry_at(fs, s[i].0) by {
        assert(s[i].0 == spec_resolve_usrbin(p[i].0));
    }
}

/// A successful enable, on a session whose record the worker answered: the worker
/// answered success to installing exactly the experiment's package, and to swapping each
/// linked applet's place under `/usr/bin` for a link to that applet's source.
pub proof fn law_coreutils_enable_made_by_worker<W: Worker>(
    x: &CoreutilsExperiment,
    w: &W,
    before: Seq<Effect>,
    after: Seq<Effect>,
    update_lists: bool,
)
    requires
        extends(before, after),
        all_answered_by(w, after),
        x.spec_enable_ran(w, effects_since(before, after), update_lists, Ok(())),
    ensures
        exists|y: bool, r: Result<()>| #[trigger] w.spec_install_outcome(x.package_name@, y, r) && r is Ok,
        forall|i: int|
            0 <= i < spec_without_preserved(x.spec_discovery(w)).len() ==> link_answered(
                w,
                #[trigger] spec_without_preserved(x.spec_discovery(w))[i].1,
                spec_resolve_usrbin(spec_without_preserved(x.spec_discovery(w))[i].0),
                Some(true),
            ),
{
    lemma_answered_since(w, before, after);
    let e = effects_since(before, after);
    let n = setup_len(update_lists);
    assert(all_answered_by(w, e.take(n))) by {
        assert forall|i: int| 0 <= i < e.take(n).len() implies answered_by(w, #[trigger] e.take(n)[i]) by {
            assert(e.take(n)[i] == e[i]);
        }
    }
    assert(all_answered_by(w, e.skip(n))) by {
        assert forall|i: int| 0 <= i < e.skip(n).len() implies answered_by(w, #[trigger] e.skip(n)[i]) by {
            assert(e.skip(n)[i] == e[i + n]);
        }
    }
    law_setup_made_by_worker(w, e.take(n), update_lists, x.package_name@);
    law_links_made_by_worker(w, e.skip(n), spec_without_preserved(x.spec_discovery(w)));
}

} // verus!
