//! Summaries and links of the applets a uutils experiment selected.

use vstd::prelude::*;
use crate::utils::session::all_answered_by;
use crate::error::Result;
use crate::experiments::util::{pairs_view, resolve_usrbin, spec_resolve_usrbin};
use crate::experiments::uutils::model::UutilsExperiment;
use crate::experiments::uutils::utils::{resolve_target, spec_uutils_target};
use crate::utils::session::{
    all_ran, done, effects_since, extends, lemma_effects_none, lemma_effects_push, ran_in_order, Call, Session,
};
use crate::utils::text::{decimal, string_from, u64_decimal};
use crate::utils::worker::{strings_view, Worker};

verus! {

/// The line of the `i`-th (from 0) applet in a summary, with a truncation mark on the
/// eighth when more follow.
pub open spec fn spec_summary_entry(i: int, applets: Seq<(Seq<char>, Seq<char>)>) -> Seq<char> {
    "  ["@ + decimal((i + 1) as nat) + "] "@ + applets[i].1 + " -> "@ + spec_resolve_usrbin(applets[i].0) + if i
        + 1 == 8 && applets.len() > 8 {
        " (…truncated)"@
    } else {
        seq![]
    }
}

/// The summary: a header naming the count, family and package, then the first eight applets.
pub open spec fn spec_family_summary(
    family: Seq<char>,
    package: Seq<char>,
    applets: Seq<(Seq<char>, Seq<char>)>,
) -> Seq<Seq<char>> {
    let shown = if applets.len() <= 8 {
        applets.len()
    } else {
        8
    };
    seq!["Preparing to link "@ + decimal(applets.len()) + " applet(s) for '"@ + family + "' (package: "@ + package
        + ")"@] + Seq::new(shown, |i: int| spec_summary_entry(i, applets))
}

fn decimal_string(n: usize) -> (r: String)
    ensures
        r@ == decimal(n as nat),
{
    let d = u64_decimal(n as u64);
    string_from(d.as_slice())
}

impl UutilsExperiment {
    /// The summary of the applets to be linked, as log lines.
    pub fn log_applets_summary(&self, applets: &[(String, String)]) -> (r: Vec<String>)
        ensures
            strings_view(r@) == spec_family_summary(self.name@, self.package_name@, pairs_view(applets@)),
    {
        let mut out: Vec<String> = Vec::new();
        let mut h = "Preparing to link ".to_owned();
        h.append(decimal_string(applets.len()).as_str());
        h.append(" applet(s) for '");
        h.append(self.name.as_str());
        h.append("' (package: ");
        h.append(self.package_name.as_str());
        h.append(")");
        out.push(h);
        let shown: usize = if applets.len() <= 8 {
            applets.len()
        } else {
            8
        };
        let ghost pv = pairs_view(applets@);
        let ghost head = seq!["Preparing to link "@ + decimal(applets@.len()) + " applet(s) for '"@ + self.name@
            + "' (package: "@ + self.package_name@ + ")"@];
        let mut i: usize = 0;
        assert(strings_view(out@) =~= head + Seq::new(0, |k: int| spec_summary_entry(k, pv)));
        while i < shown
            invariant
                i <= shown <= applets@.len(),
                shown == (if applets@.len() <= 8 {
                    applets@.len()
                } else {
                    8
                }),
                pv == pairs_view(applets@),
                strings_view(out@) == head + Seq::new(i as nat, |k: int| spec_summary_entry(k, pv)),
            decreases shown - i,
        {
            let target = resolve_usrbin(applets[i].0.as_str());
            let mut l = "  [".to_owned();
            l.append(decimal_string(i + 1).as_str());
            l.append("] ");
            l.append(applets[i].1.as_str());
            l.append(" -> ");
            l.append(target.as_str());
            if i + 1 == 8 && applets.len() > 8 {
                l.append(" (…truncated)");
            } else {
                assert(l@ =~= l@ + seq![]);
            }
            assert(l@ == spec_summary_entry(i as int, pv));
            let ghost o = out@;
            out.push(l);
            assert(strings_view(out@) =~= strings_view(o).push(l@));
            i = i + 1;
            assert(strings_view(out@) =~= head + Seq::new(i as nat, |k: int| spec_summary_entry(k, pv)));
        }
        out
    }

    /// Create symlinks for the selected applets, each source onto its applet's target (see
    /// `spec_uutils_target`), in order; the first failure stops the run, and success means
    /// every link was made.
    pub fn create_symlinks<W: Worker>(&self, session: &mut Session<W>, applets: &[(String, String)]) -> (r: Result<()>)
        ensures
            final(session).worker == old(session).worker,
            extends(old(session).effects@, final(session).effects@),
            all_answered_by(&old(session).worker, old(session).effects@) ==> all_answered_by(
                &final(session).worker,
                final(session).effects@,
            ),
            ran_in_order(
                effects_since(old(session).effects@, final(session).effects@),
                uutils_link_calls(&old(session).worker, pairs_view(applets@)),
            ),
            r is Ok <==> all_ran(
                effects_since(old(session).effects@, final(session).effects@),
                uutils_link_calls(&old(session).worker, pairs_view(applets@)),
            ),
    {
        let ghost e0 = session.effects@;
        let ghost calls = uutils_link_calls(&session.worker, pairs_view(applets@));
        proof {
            lemma_effects_none(e0);
        }
        let mut i: usize = 0;
        while i < applets.len()
            invariant
                i <= applets@.len(),
                calls == uutils_link_calls(&old(session).worker, pairs_view(applets@)),
                calls.len() == applets@.len(),
                session.worker == old(session).worker,
                e0 == old(session).effects@,
                all_answered_by(&old(session).worker, old(session).effects@) ==> all_answered_by(&session.worker, session.effects@),
                extends(e0, session.effects@),
                effects_since(e0, session.effects@).len() == i,
                forall|k: int| 0 <= k < i ==> #[trigger] effects_since(e0, session.effects@)[k].0 == calls[k],
                forall|k: int| 0 <= k < i ==> #[trigger] effects_since(e0, session.effects@)[k].1 is Some,
            decreases applets@.len() - i,
        {
            let target = resolve_target(&session.worker, applets[i].0.as_str());
            let ghost before = session.effects@;
            let res = session.replace_file_with_symlink(applets[i].1.as_str(), target.as_str());
            proof {
                lemma_effects_push(e0, before, (Call::Link(applets@[i as int].1@, target@), done(res)));
                assert(calls[i as int] == Call::Link(applets@[i as int].1@, target@));
            }
            res?;
            i = i + 1;
        }
        Ok(())
    }
}

/// The link calls that put each (name, source) pair's source at the name's target.
pub open spec fn uutils_link_calls<W: Worker>(w: &W, applets: Seq<(Seq<char>, Seq<char>)>) -> Seq<Call> {
    applets.map_values(|a: (Seq<char>, Seq<char>)| Call::Link(a.1, spec_uutils_target(w, a.0)))
}

} // verus!
