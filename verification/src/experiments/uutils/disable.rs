//! Disabling and removing a uutils experiment.

use vstd::prelude::*;
use crate::utils::session::all_answered_by;
use crate::config::packages::{UUTILS_COREUTILS, UUTILS_FINDUTILS};
use crate::error::Result;
use crate::experiments::util::{list_names, spec_list_names};
use crate::experiments::uutils::constants::COREUTILS_BINS_LIST;
use crate::experiments::uutils::model::UutilsExperiment;
use crate::experiments::uutils::targets::spec_file_targets;
use crate::experiments::uutils::utils::{resolve_target, spec_uutils_target};
use crate::experiments::util::{restore_calls, restore_targets};
use crate::utils::text::{chars_eq_str, str_chars};
use crate::utils::worker::{strings_view, Worker};
use crate::utils::session::{
    all_ran, done, effects_since, extends, lemma_effects_concat, lemma_effects_none, lemma_effects_push, ran_in_order,
    Call, Effect, Session,
};

verus! {

/// The package that removing a family uninstalls: exactly the family's own package,
/// none for other families.
pub open spec fn spec_family_package(family: Seq<char>) -> Option<Seq<char>> {
    if family == "coreutils"@ {
        Some(UUTILS_COREUTILS@)
    } else if family == "findutils"@ {
        Some(UUTILS_FINDUTILS@)
    } else {
        None
    }
}

/// The package that removing a family uninstalls.
pub fn family_package(family: &str) -> (r: Option<&'static str>)
    ensures
        match r {
            Some(p) => spec_family_package(family@) == Some(p@),
            None => spec_family_package(family@) is None,
        },
{
    let f = str_chars(family);
    if chars_eq_str(f.as_slice(), "coreutils") {
        Some(UUTILS_COREUTILS)
    } else if chars_eq_str(f.as_slice(), "findutils") {
        Some(UUTILS_FINDUTILS)
    } else {
        None
    }
}

impl UutilsExperiment {
    /// The targets a disable restores: for coreutils, every listed applet's target; for
    /// another family, the targets of the binary directory's files (`None` when the
    /// listing fails).
    pub open spec fn spec_restore_targets<W: Worker>(&self, w: &W) -> Option<Seq<Seq<char>>> {
        if self.name@ == "coreutils"@ {
            Some(spec_list_names(COREUTILS_BINS_LIST@).map_values(|n: Seq<char>| spec_uutils_target(w, n)))
        } else {
            match w.spec_list_files(self.bin_directory@) {
                Some(fs) => Some(spec_file_targets(w, fs)),
                None => None,
            }
        }
    }

    /// What a disable records: the refresh when asked for (a failed one ends the run),
    /// then the restores of the targets in order, stopping at the first failure; `ok`
    /// exactly when every step succeeded. No package is installed or removed.
    pub open spec fn spec_disable_ran<W: Worker>(&self, w: &W, e: Seq<Effect>, update_lists: bool, ok: bool) -> bool {
        if update_lists {
            &&& e.len() > 0
            &&& e[0].0 == Call::Update
            &&& if e[0].1 is None {
                e.len() == 1 && !ok
            } else {
                self.spec_restores(w, e.skip(1), ok)
            }
        } else {
            self.spec_restores(w, e, ok)
        }
    }

    /// The restores of a disable (see `spec_restore_targets`).
    pub open spec fn spec_restores<W: Worker>(&self, w: &W, l: Seq<Effect>, ok: bool) -> bool {
        match self.spec_restore_targets(w) {
            None => l.len() == 0 && !ok,
            Some(ts) => ran_in_order(l, restore_calls(ts)) && (ok <==> all_ran(l, restore_calls(ts))),
        }
    }

    /// Restore the targets from their backups (packages stay installed): for coreutils
    /// every listed applet, for other families every file of the binary directory.
    pub fn disable<W: Worker>(&self, session: &mut Session<W>, assume_yes: bool, update_lists: bool) -> (r: Result<()>)
        ensures
            final(session).worker == old(session).worker,
            extends(old(session).effects@, final(session).effects@),
            all_answered_by(&old(session).worker, old(session).effects@) ==> all_answered_by(
                &final(session).worker,
                final(session).effects@,
            ),
            self.spec_disable_ran(&old(session).worker, effects_since(old(session).effects@, final(session).effects@), update_lists, r is Ok),
    {
        let ghost e0 = session.effects@;
        proof {
            lemma_effects_none(e0);
        }
        if update_lists {
            let u = session.update_packages(assume_yes);
            proof {
                lemma_effects_push(e0, e0, (Call::Update, done(u)));
                assert(effects_since(e0, session.effects@) =~= seq![(Call::Update, done(u))]);
            }
            if u.is_err() {
                return u;
            }
        }
        let ghost e1 = session.effects@;
        let targets = self.disable_targets(&session.worker);
        let r = match targets {
            Ok(ts) => restore_targets(session, ts.as_slice()),
            Err(e) => Err(e),
        };
        proof {
            lemma_effects_none(e1);
            lemma_effects_concat(e0, e1, session.effects@);
            if update_lists {
                assert(effects_since(e0, session.effects@).skip(1) =~= effects_since(e1, session.effects@));
            } else {
                assert(effects_since(e0, e1) =~= Seq::<Effect>::empty());
                assert(effects_since(e0, session.effects@) =~= effects_since(e1, session.effects@));
            }
        }
        r
    }

    fn disable_targets<W: Worker>(&self, worker: &W) -> (r: Result<Vec<String>>)
        ensures
            match self.spec_restore_targets(worker) {
                Some(ts) => r matches Ok(v) && strings_view(v@) == ts,
                None => r is Err,
            },
    {
        let fam = str_chars(self.name.as_str());
        proof {
            reveal_strlit("coreutils");
        }
        if chars_eq_str(fam.as_slice(), "coreutils") {
            let names = list_names(COREUTILS_BINS_LIST);
            let ghost nv = strings_view(names@);
            let mut out: Vec<String> = Vec::new();
            let mut i: usize = 0;
            while i < names.len()
                invariant
                    i <= names@.len(),
                    nv == strings_view(names@),
                    strings_view(out@) == nv.take(i as int).map_values(|n: Seq<char>| spec_uutils_target(worker, n)),
                decreases names@.len() - i,
            {
                let t = resolve_target(worker, names[i].as_str());
                let ghost o = out@;
                out.push(t);
                assert(strings_view(out@) =~= strings_view(o).push(t@));
                assert(nv.take(i + 1) =~= nv.take(i as int).push(names@[i as int]@));
                i = i + 1;
                assert(strings_view(out@) =~= nv.take(i as int).map_values(|n: Seq<char>| spec_uutils_target(worker, n)));
            }
            assert(nv.take(names@.len() as int) =~= nv);
            Ok(out)
        } else {
            self.list_targets(worker)
        }
    }

    /// What a remove records: the disable (see `spec_disable_ran`), then, once it
    /// succeeded, the removal of the family's package (see `spec_family_package`); `ok`
    /// exactly when every step succeeded. A family without a package is only disabled.
    pub open spec fn spec_remove_ran<W: Worker>(&self, w: &W, e: Seq<Effect>, update_lists: bool, ok: bool) -> bool {
        match spec_family_package(self.name@) {
            None => self.spec_disable_ran(w, e, update_lists, ok),
            Some(p) => {
                ||| !ok && self.spec_disable_ran(w, e, update_lists, false)
                ||| e.len() >= 1 && self.spec_disable_ran(w, e.drop_last(), update_lists, true) && e.last().0 == Call::Remove(
                    p,
                ) && (ok <==> e.last().1 is Some)
            },
        }
    }

    /// Restore first, then remove exactly the family's package (see `family_package`).
    pub fn remove<W: Worker>(&self, session: &mut Session<W>, assume_yes: bool, update_lists: bool) -> (r: Result<()>)
        ensures
            final(session).worker == old(session).worker,
            extends(old(session).effects@, final(session).effects@),
            all_answered_by(&old(session).worker, old(session).effects@) ==> all_answered_by(
                &final(session).worker,
                final(session).effects@,
            ),
            self.spec_remove_ran(&old(session).worker, effects_since(old(session).effects@, final(session).effects@), update_lists, r is Ok),
    {
        let ghost e0 = session.effects@;
        let d = self.disable(session, assume_yes, update_lists);
        if d.is_err() {
            return d;
        }
        let ghost e1 = session.effects@;
        match family_package(self.name.as_str()) {
            Some(p) => {
                let rm = session.remove_package(p, assume_yes);
                proof {
                    lemma_effects_push(e0, e1, (Call::Remove(p@), done(rm)));
                    assert(effects_since(e0, session.effects@).drop_last() =~= effects_since(e0, e1));
                }
                rm
            },
            None => Ok(()),
        }
    }
}

} // verus!
