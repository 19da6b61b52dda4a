//! Applet selection for the coreutils family.

use vstd::prelude::*;
use crate::utils::session::all_answered_by;
use crate::error::Result;
use crate::experiments::util::{list_names, pairs_view, spec_list_names, which_found};
use crate::utils::session::{effects_since, extends, lemma_effects_none, lemma_effects_push, Call, Effect, Session};
use crate::experiments::uutils::constants::{COREUTILS_BINS_LIST, COREUTILS_UNIFIED_CANDIDATES, COREUTILS_UNIFIED_PATH};
use crate::experiments::uutils::model::UutilsExperiment;
use crate::utils::paths::{join, path_join, paths_equal};
use crate::utils::text::{chars_eq_str, concat_str, str_chars, string_from};
use crate::utils::worker::{strings_view, Worker};

verus! {

/// The places where a per-applet coreutils binary is looked for, in order.
pub open spec fn spec_coreutils_candidates(bin_directory: Seq<char>, probe: Seq<char>) -> Seq<Seq<char>> {
    seq![
        path_join(bin_directory, probe),
        "/usr/bin/uu-"@ + probe,
        "/usr/lib/cargo/bin/coreutils/"@ + probe,
        "/usr/lib/cargo/bin/"@ + probe,
    ]
}

/// The name an applet is probed under: `tsort` for the list's `tsor`, else itself.
pub open spec fn spec_probe_name(name: Seq<char>) -> Seq<char> {
    if name == "tsor"@ {
        "tsort"@
    } else {
        name
    }
}

/// Where the per-binary selection may link an applet: one of its candidates, or, for
/// `arch` when none fits, `/usr/bin/uu-arch`.
pub open spec fn spec_per_binary_source(bin_directory: Seq<char>, name: Seq<char>, src: Seq<char>) -> bool {
    spec_coreutils_candidates(bin_directory, spec_probe_name(name)).contains(src) || (name == "arch"@ && src
        == "/usr/bin/uu-arch"@)
}

/// Some selected applet has the given name.
pub open spec fn links_applet(v: Seq<(String, String)>, name: Seq<char>) -> bool {
    exists|i: int| 0 <= i < v.len() && #[trigger] v[i].0@ == name
}

fn probe_name(name: &str) -> (r: String)
    ensures
        r@ == spec_probe_name(name@),
{
    let v = str_chars(name);
    if chars_eq_str(v.as_slice(), "tsor") {
        "tsort".to_owned()
    } else {
        name.to_owned()
    }
}

impl UutilsExperiment {
    /// The places where a per-applet binary is looked for.
    pub fn get_coreutils_candidates(&self, probe_name: &str) -> (r: [String; 4])
        ensures
            r@.map_values(|s: String| s@) == spec_coreutils_candidates(self.bin_directory@, probe_name@),
    {
        let d = str_chars(self.bin_directory.as_str());
        let n = str_chars(probe_name);
        let r = [
            string_from(join(d.as_slice(), n.as_slice()).as_slice()),
            concat_str("/usr/bin/uu-", probe_name),
            concat_str("/usr/lib/cargo/bin/coreutils/", probe_name),
            concat_str("/usr/lib/cargo/bin/", probe_name),
        ];
        assert(r@.map_values(|s: String| s@) =~= spec_coreutils_candidates(self.bin_directory@, probe_name@));
        r
    }

    /// The unified dispatcher path: the configured one when it exists, else the one on the
    /// search path, else `/usr/bin/coreutils`, which is made a link to the first known
    /// dispatcher location that exists when it does not exist itself (best effort: at most
    /// that one link is attempted, and nothing else is done).
    pub fn resolve_unified_coreutils_path<W: Worker>(&self, session: &mut Session<W>) -> (r: String)
        ensures
            final(session).worker == old(session).worker,
            extends(old(session).effects@, final(session).effects@),
            all_answered_by(&old(session).worker, old(session).effects@) ==> all_answered_by(
                &final(session).worker,
                final(session).effects@,
            ),
            unified_prep(effects_since(old(session).effects@, final(session).effects@)),
            r@ == self.spec_resolved_unified(&old(session).worker),
    {
        let ghost e0 = session.effects@;
        proof {
            lemma_effects_none(e0);
        }
        match &self.unified_binary {
            Some(cfg) => {
                if session.worker.path_exists(cfg.as_str()) {
                    return cfg.clone();
                }
                match session.worker.which("coreutils") {
                    Ok(Some(found)) => {
                        return found;
                    },
                    _ => {},
                }
            },
            None => match session.worker.which("coreutils") {
                Ok(Some(found)) => {
                    return found;
                },
                _ => {},
            },
        }
        assert(self.spec_resolved_unified(&session.worker) == COREUTILS_UNIFIED_PATH@);
        if !session.worker.path_exists(COREUTILS_UNIFIED_PATH) {
            let mut k: usize = 0;
            while k < 3
                invariant
                    k <= 3,
                    self.spec_resolved_unified(&old(session).worker) == COREUTILS_UNIFIED_PATH@,
                    session.worker == old(session).worker,
                    e0 == old(session).effects@,
                    all_answered_by(&old(session).worker, old(session).effects@) ==> all_answered_by(&session.worker, session.effects@),
                    extends(e0, session.effects@),
                    effects_since(e0, session.effects@).len() == 0,
                decreases 3 - k,
            {
                let cand = COREUTILS_UNIFIED_CANDIDATES[k];
                if session.worker.path_exists(cand) {
                    let ghost before = session.effects@;
                    let res = session.force_symlink(cand, COREUTILS_UNIFIED_PATH);
                    proof {
                        lemma_effects_push(e0, before, session.effects@.last());
                        assert(session.effects@ =~= before.push(session.effects@.last()));
                        assert(unified_candidates().contains(cand@)) by {
                            assert(unified_candidates()[k as int] == cand@);
                        }
                    }
                    return COREUTILS_UNIFIED_PATH.to_owned();
                }
                k = k + 1;
            }
        }
        COREUTILS_UNIFIED_PATH.to_owned()
    }

    /// The unified dispatcher path (see `resolve_unified_coreutils_path`).
    pub open spec fn spec_resolved_unified<W: Worker>(&self, w: &W) -> Seq<char> {
        let searched = match which_found(w, "coreutils"@) {
            Some(p) => p,
            None => COREUTILS_UNIFIED_PATH@,
        };
        match self.unified_binary {
            Some(cfg) => if w.spec_path_exists(cfg@) {
                cfg@
            } else {
                searched
            },
            None => searched,
        }
    }

    /// Every listed applet onto the unified dispatcher; the list's `tsor` goes onto what
    /// the search path gives for `tsort` (else for `tsor`, else the dispatcher).
    #[verifier::spinoff_prover]
    pub fn collect_applets_with_unified_dispatcher<W: Worker>(&self, worker: &W) -> (r: Vec<(String, String)>)
        ensures
            unified_selection(worker, pairs_view(r@)),
    {
        let names = list_names(COREUTILS_BINS_LIST);
        let ghost all = spec_list_names(COREUTILS_BINS_LIST@);
        let mut applets: Vec<(String, String)> = Vec::new();
        let mut i: usize = 0;
        while i < names.len()
            invariant
                i <= names@.len(),
                strings_view(names@) == all,
                all == spec_list_names(COREUTILS_BINS_LIST@),
                applets@.len() == i,
                forall|k: int|
                    0 <= k < i ==> #[trigger] applets@[k].0@ == all[k] && applets@[k].1@ == unified_source(
                        worker,
                        all[k],
                    ),
            decreases names@.len() - i,
        {
            let name = names[i].as_str();
            assert(all[i as int] == name@);
            let v = str_chars(name);
            if chars_eq_str(v.as_slice(), "tsor") {
                let src = match worker.which("tsort") {
                    Ok(Some(p)) => p,
                    _ => match worker.which("tsor") {
                        Ok(Some(p)) => p,
                        _ => COREUTILS_UNIFIED_PATH.to_owned(),
                    },
                };
                assert(name@ == "tsor"@);
                assert(src@ == unified_source(worker, name@));
                applets.push((name.to_owned(), src));
            } else {
                let u = COREUTILS_UNIFIED_PATH.to_owned();
                assert(name@ != "tsor"@);
                assert(u@ == unified_source(worker, name@));
                applets.push((name.to_owned(), u));
            }
            i = i + 1;
        }
        proof {
            let pv = pairs_view(applets@);
            assert forall|k: int| 0 <= k < pv.len() implies #[trigger] pv[k] == (all[k], unified_source(worker, all[k])) by {
                assert(pv[k] == (applets@[k].0@, applets@[k].1@));
            }
        }
        applets
    }

    /// Each listed applet onto its own binary: `arch` onto the first candidate that exists
    /// and is not itself a link to the unified dispatcher (else `/usr/bin/uu-arch`); any
    /// other applet, when the search path knows it, onto the first candidate that exists.
    /// Whatever the worker answers, every source is one of the applet's candidates (or
    /// `/usr/bin/uu-arch` for `arch`), and `arch` is always linked when it is listed.
    #[verifier::spinoff_prover]
    #[verifier::rlimit(40)]
    pub fn collect_applets_per_binary<W: Worker>(&self, worker: &W) -> (r: Vec<(String, String)>)
        ensures
            forall|i: int| 0 <= i < r@.len() ==> spec_list_names(COREUTILS_BINS_LIST@).contains(#[trigger] r@[i].0@),
            forall|i: int|
                0 <= i < r@.len() ==> spec_per_binary_source(self.bin_directory@, #[trigger] r@[i].0@, r@[i].1@),
            spec_list_names(COREUTILS_BINS_LIST@).contains("arch"@) ==> exists|i: int|
                0 <= i < r@.len() && #[trigger] r@[i].0@ == "arch"@,
    {
        let names = list_names(COREUTILS_BINS_LIST);
        let ghost all = spec_list_names(COREUTILS_BINS_LIST@);
        let ghost bd = self.bin_directory@;
        let unified = str_chars(COREUTILS_UNIFIED_PATH);
        let mut applets: Vec<(String, String)> = Vec::new();
        let mut i: usize = 0;
        while i < names.len()
            invariant
                i <= names@.len(),
                strings_view(names@) == all,
                bd == self.bin_directory@,
                all == spec_list_names(COREUTILS_BINS_LIST@),
                forall|k: int| 0 <= k < applets@.len() ==> all.contains(#[trigger] applets@[k].0@),
                forall|k: int|
                    0 <= k < applets@.len() ==> spec_per_binary_source(bd, #[trigger] applets@[k].0@, applets@[k].1@),
                (exists|k: int| 0 <= k < i && #[trigger] all[k] == "arch"@) ==> exists|j: int|
                    0 <= j < applets@.len() && #[trigger] applets@[j].0@ == "arch"@,
            decreases names@.len() - i,
        {
            let name = names[i].as_str();
            assert(all[i as int] == name@);
            let probe = probe_name(name);
            let cands = self.get_coreutils_candidates(probe.as_str());
            let ghost cv = spec_coreutils_candidates(bd, spec_probe_name(name@));
            assert(cands@.map_values(|s: String| s@) == cv);
            let ghost old_applets = applets@;
            let v = str_chars(name);
            if chars_eq_str(v.as_slice(), "arch") {
                let mut found: Option<String> = None;
                let mut k: usize = 0;
                while k < 4
                    invariant
                        k <= 4,
                        cands@.map_values(|s: String| s@) == cv,
                        found matches Some(f) ==> cv.contains(f@),
                    decreases 4 - k,
                {
                    let c = cands[k].as_str();
                    let to_unified = match worker.read_link(c) {
                        Some(dest) => {
                            let dv = str_chars(dest.as_str());
                            paths_equal(dv.as_slice(), unified.as_slice())
                        },
                        None => false,
                    };
                    if !to_unified && worker.path_exists(c) {
                        assert(cv[k as int] == c@);
                        found = Some(c.to_owned());
                        break;
                    }
                    k = k + 1;
                }
                let src = match found {
                    Some(f) => f,
                    None => "/usr/bin/uu-arch".to_owned(),
                };
                assert(spec_per_binary_source(bd, name@, src@));
                applets.push((name.to_owned(), src));
                assert(applets@[applets@.len() - 1].0@ == "arch"@);
            } else {
                let known = match worker.which(name) {
                    Ok(Some(_)) => true,
                    _ => false,
                };
                if known {
                    let mut k: usize = 0;
                    while k < 4
                        invariant
                            k <= 4,
                            cands@.map_values(|s: String| s@) == cv,
                            cv == spec_coreutils_candidates(bd, spec_probe_name(name@)),
                            forall|j: int| 0 <= j < applets@.len() ==> all.contains(#[trigger] applets@[j].0@),
                            forall|j: int|
                                0 <= j < applets@.len() ==> spec_per_binary_source(bd, #[trigger] applets@[j].0@, applets@[j].1@),
                            applets@.len() >= old_applets.len(),
                            forall|j: int| 0 <= j < old_applets.len() ==> #[trigger] applets@[j] == old_applets[j],
                            all[i as int] == name@,
                            0 <= i < all.len(),
                        decreases 4 - k,
                    {
                        if worker.path_exists(cands[k].as_str()) {
                            let c = cands[k].clone();
                            assert(cv[k as int] == c@);
                            applets.push((name.to_owned(), c));
                            break;
                        }
                        k = k + 1;
                    }
                }
            }
            proof {
                if exists|k: int| 0 <= k < i + 1 && #[trigger] all[k] == "arch"@ {
                    let k = choose|k: int| 0 <= k < i + 1 && #[trigger] all[k] == "arch"@;
                    if k < i {
                        let j = choose|j: int| 0 <= j < old_applets.len() && #[trigger] old_applets[j].0@ == "arch"@;
                        assert(applets@[j] == old_applets[j]);
                    } else {
                        assert(name@ == "arch"@);
                        assert(applets@[applets@.len() - 1].0@ == "arch"@);
                    }
                }
            }
            i = i + 1;
        }
        proof {
            if all.contains("arch"@) {
                let k = choose|k: int| 0 <= k < all.len() && all[k] == "arch"@;
                assert(0 <= k < i && all[k] == "arch"@);
            }
        }
        applets
    }

    /// The coreutils applets: onto the unified dispatcher when `/usr/bin/coreutils` exists
    /// (after trying to provide it), else onto per-applet binaries. At most one link is
    /// made, putting a known dispatcher at `/usr/bin/coreutils`.
    pub fn handle_coreutils_applets<W: Worker>(&self, session: &mut Session<W>) -> (r: Result<Vec<(String, String)>>)
        ensures
            final(session).worker == old(session).worker,
            extends(old(session).effects@, final(session).effects@),
            all_answered_by(&old(session).worker, old(session).effects@) ==> all_answered_by(
                &final(session).worker,
                final(session).effects@,
            ),
            unified_prep(effects_since(old(session).effects@, final(session).effects@)),
            r matches Ok(v) && self.spec_coreutils_selection(&old(session).worker, pairs_view(v@)),
            r matches Ok(v) && forall|i: int|
                0 <= i < v@.len() ==> spec_list_names(COREUTILS_BINS_LIST@).contains(#[trigger] v@[i].0@),
            spec_list_names(COREUTILS_BINS_LIST@).contains("arch"@) ==> (r matches Ok(v) && links_applet(v@, "arch"@)),
    {
        let _unified = self.resolve_unified_coreutils_path(session);
        if session.worker.path_exists(COREUTILS_UNIFIED_PATH) {
            let v = self.collect_applets_with_unified_dispatcher(&session.worker);
            proof {
                let pv = pairs_view(v@);
                assert forall|i: int| 0 <= i < v@.len() implies spec_list_names(COREUTILS_BINS_LIST@).contains(
                    #[trigger] v@[i].0@,
                ) by {
                    assert(pv[i] == (v@[i].0@, v@[i].1@));
                    assert(v@[i].0@ == spec_list_names(COREUTILS_BINS_LIST@)[i]);
                }
                if spec_list_names(COREUTILS_BINS_LIST@).contains("arch"@) {
                    let k = choose|k: int|
                        0 <= k < spec_list_names(COREUTILS_BINS_LIST@).len() && spec_list_names(COREUTILS_BINS_LIST@)[k]
                            == "arch"@;
                    assert(pv[k] == (v@[k].0@, v@[k].1@));
                    assert(v@[k].0@ == "arch"@);
                    assert(links_applet(v@, "arch"@));
                }
            }
            Ok(v)
        } else {
            let v = self.collect_applets_per_binary(&session.worker);
            proof {
                let pv = pairs_view(v@);
                assert forall|i: int| 0 <= i < pv.len() implies spec_list_names(COREUTILS_BINS_LIST@).contains(
                    #[trigger] pv[i].0,
                ) && spec_per_binary_source(self.bin_directory@, pv[i].0, pv[i].1) by {
                    assert(pv[i] == (v@[i].0@, v@[i].1@));
                }
                if spec_list_names(COREUTILS_BINS_LIST@).contains("arch"@) {
                    let j = choose|j: int| 0 <= j < v@.len() && #[trigger] v@[j].0@ == "arch"@;
                    assert(v@[j].0@ == "arch"@);
                    assert(links_applet(v@, "arch"@));
                }
            }
            Ok(v)
        }
    }

    /// The coreutils selection: with the unified dispatcher (see `unified_selection`), or
    /// each selected applet a listed one onto one of its own binaries (see
    /// `spec_per_binary_source`).
    pub open spec fn spec_coreutils_selection<W: Worker>(&self, w: &W, pv: Seq<(Seq<char>, Seq<char>)>) -> bool {
        ||| unified_selection(w, pv)
        ||| forall|i: int|
            0 <= i < pv.len() ==> spec_list_names(COREUTILS_BINS_LIST@).contains(#[trigger] pv[i].0)
                && spec_per_binary_source(self.bin_directory@, pv[i].0, pv[i].1)
    }
}

/// The known locations of the unified dispatcher.
pub open spec fn unified_candidates() -> Seq<Seq<char>> {
    seq![COREUTILS_UNIFIED_CANDIDATES[0]@, COREUTILS_UNIFIED_CANDIDATES[1]@, COREUTILS_UNIFIED_CANDIDATES[2]@]
}

/// What preparing the unified dispatcher did: nothing, or one link putting a known
/// dispatcher location at `/usr/bin/coreutils`.
pub open spec fn unified_prep(e: Seq<Effect>) -> bool {
    &&& e.len() <= 1
    &&& e.len() == 1 ==> (e[0].0 matches Call::ForceLink(c, t) && t == COREUTILS_UNIFIED_PATH@
        && unified_candidates().contains(c))
}

/// The source of a listed applet under the unified dispatcher: the dispatcher, but for
/// the list's `tsor`, what the search path finds for `tsort`, else for `tsor`, else the
/// dispatcher.
pub open spec fn unified_source<W: Worker>(w: &W, name: Seq<char>) -> Seq<char> {
    if name == "tsor"@ {
        match which_found(w, "tsort"@) {
            Some(p) => p,
            None => match which_found(w, "tsor"@) {
                Some(p) => p,
                None => COREUTILS_UNIFIED_PATH@,
            },
        }
    } else {
        COREUTILS_UNIFIED_PATH@
    }
}

/// Every listed applet, in order, onto its unified source (see `unified_source`).
pub open spec fn unified_selection<W: Worker>(w: &W, pv: Seq<(Seq<char>, Seq<char>)>) -> bool {
    let all = spec_list_names(COREUTILS_BINS_LIST@);
    pv.len() == all.len() && forall|i: int| 0 <= i < pv.len() ==> #[trigger] pv[i] == (all[i], unified_source(w, all[i]))
}

} // verus!
