//! Applet selection for families other than coreutils.

use vstd::prelude::*;
use crate::utils::session::all_answered_by;
use crate::error::{Error, Result};
use crate::experiments::uutils::model::UutilsExperiment;
use crate::utils::paths::{join, path_join};
use crate::utils::text::{chars_eq_str, concat_str, str_chars, string_from};
use crate::utils::worker::{strings_view, Worker};
use crate::experiments::util::which_found;
use crate::utils::session::{effects_since, extends, lemma_effects_none, lemma_effects_push, Call, Effect, Session};

verus! {

/// The applets declared for a family: `find` and `xargs` for findutils, none otherwise.
pub open spec fn spec_known_applets(family: Seq<char>) -> Seq<Seq<char>> {
    if family == "findutils"@ {
        seq!["find"@, "xargs"@]
    } else {
        seq![]
    }
}

/// The applets declared for a family.
pub fn known_applets(family: &str) -> (r: Vec<String>)
    ensures
        strings_view(r@) == spec_known_applets(family@),
{
    let f = str_chars(family);
    let mut r: Vec<String> = Vec::new();
    if chars_eq_str(f.as_slice(), "findutils") {
        r.push("find".to_owned());
        r.push("xargs".to_owned());
    }
    assert(strings_view(r@) =~= spec_known_applets(family@));
    r
}

/// The places where a binary of the family is looked for, in order.
pub open spec fn spec_non_coreutils_candidates(family: Seq<char>, name: Seq<char>) -> Seq<Seq<char>> {
    seq![
        "/usr/bin/uu-"@ + name,
        "/usr/lib/cargo/bin/"@ + family + seq!['/'] + name,
        "/usr/lib/cargo/bin/"@ + name,
        "/usr/bin/"@ + name,
    ]
}

/// The message when no binary could be found or copied for a family.
pub open spec fn nothing_found_message(family: Seq<char>, dir: Seq<char>, package: Seq<char>) -> Seq<char> {
    "No '"@ + family + "' applet binaries found or synthesized under "@ + dir + ". Ensure '"@ + package
        + "' installed correctly; if installed via AUR, verify that the helper completed successfully."@
}

impl UutilsExperiment {
    /// The places where a binary of the family is looked for.
    pub fn get_non_coreutils_candidates(&self, name: &str) -> (r: [String; 4])
        ensures
            r@.map_values(|s: String| s@) == spec_non_coreutils_candidates(self.name@, name@),
    {
        let mut b = concat_str("/usr/lib/cargo/bin/", self.name.as_str());
        crate::utils::text::push_char(&mut b, '/');
        b.append(name);
        assert(b@ =~= "/usr/lib/cargo/bin/"@ + self.name@ + seq!['/'] + name@);
        let r = [
            concat_str("/usr/bin/uu-", name),
            b,
            concat_str("/usr/lib/cargo/bin/", name),
            concat_str("/usr/bin/", name),
        ];
        assert(r@[1]@ == "/usr/lib/cargo/bin/"@ + self.name@ + seq!['/'] + name@);
        assert(r@.map_values(|s: String| s@) =~= spec_non_coreutils_candidates(self.name@, name@));
        r
    }

    /// The applets of the family: those the search path knows, each onto what it finds;
    /// when it knows none, each binary found among the candidates is copied to
    /// `<bin directory>/<name>` and the applet goes onto that copy; when still none, an
    /// error naming the family, directory and package. A family with no declared applets
    /// has none. Nothing but those copies is done.
    pub fn handle_non_coreutils_applets<W: Worker>(&self, session: &mut Session<W>) -> (r: Result<Vec<(String, String)>>)
        ensures
            final(session).worker == old(session).worker,
            extends(old(session).effects@, final(session).effects@),
            all_answered_by(&old(session).worker, old(session).effects@) ==> all_answered_by(
                &final(session).worker,
                final(session).effects@,
            ),
            forall|j: int|
                0 <= j < effects_since(old(session).effects@, final(session).effects@).len() ==> (#[trigger] effects_since(
                    old(session).effects@,
                    final(session).effects@,
                )[j]).0 is Copy,
            spec_known_applets(self.name@).len() == 0 ==> (r matches Ok(v) && v@.len() == 0),
            r matches Err(e) ==> (e matches Error::ExecutionFailed(m) && m@ == nothing_found_message(
                self.name@,
                self.bin_directory@,
                self.package_name@,
            )),
            r matches Ok(v) ==> forall|i: int| 0 <= i < v@.len() ==> spec_known_applets(self.name@).contains(#[trigger] v@[i].0@),
            r matches Ok(v) ==> forall|i: int|
                0 <= i < v@.len() ==> #[trigger] found_or_copied(
                    &old(session).worker,
                    effects_since(old(session).effects@, final(session).effects@),
                    self.bin_directory@,
                    v@[i].0@,
                    v@[i].1@,
                ),
            spec_known_applets(self.name@).len() > 0 ==> (r matches Ok(v) ==> v@.len() > 0),
    {
        let ghost e0 = session.effects@;
        let ghost w = session.worker;
        proof {
            lemma_effects_none(e0);
        }
        let known = known_applets(self.name.as_str());
        let ghost kn = spec_known_applets(self.name@);
        let mut applets: Vec<(String, String)> = Vec::new();
        if known.len() == 0 {
            return Ok(applets);
        }
        let mut i: usize = 0;
        while i < known.len()
            invariant
                i <= known@.len(),
                strings_view(known@) == kn,
                session.worker == w,
                session.effects@ == e0,
                forall|k: int| 0 <= k < applets@.len() ==> kn.contains(#[trigger] applets@[k].0@),
                forall|k: int| 0 <= k < applets@.len() ==> which_found(&w, #[trigger] applets@[k].0@) == Some(applets@[k].1@),
            decreases known@.len() - i,
        {
            assert(kn[i as int] == known@[i as int]@);
            match session.worker.which(known[i].as_str()) {
                Ok(Some(p)) => {
                    applets.push((known[i].clone(), p));
                },
                _ => {},
            }
            i = i + 1;
        }
        proof {
            assert forall|k: int| 0 <= k < applets@.len() implies #[trigger] found_or_copied(
                &w,
                effects_since(e0, session.effects@),
                self.bin_directory@,
                applets@[k].0@,
                applets@[k].1@,
            ) by {
                assert(which_found(&w, applets@[k].0@) == Some(applets@[k].1@));
            }
        }
        if applets.len() == 0 {
            let dir = str_chars(self.bin_directory.as_str());
            let mut i: usize = 0;
            while i < known.len()
                invariant
                    i <= known@.len(),
                    strings_view(known@) == kn,
                    dir@ == self.bin_directory@,
                    session.worker == w,
                    e0 == old(session).effects@,
                    all_answered_by(&old(session).worker, old(session).effects@) ==> all_answered_by(&session.worker, session.effects@),
                    w == old(session).worker,
                    extends(e0, session.effects@),
                    forall|j: int|
                        0 <= j < effects_since(e0, session.effects@).len() ==> (#[trigger] effects_since(
                            e0,
                            session.effects@,
                        )[j]).0 is Copy,
                    forall|k: int| 0 <= k < applets@.len() ==> kn.contains(#[trigger] applets@[k].0@),
                    forall|k: int|
                        0 <= k < applets@.len() ==> #[trigger] found_or_copied(
                            &w,
                            effects_since(e0, session.effects@),
                            self.bin_directory@,
                            applets@[k].0@,
                            applets@[k].1@,
                        ),
                decreases known@.len() - i,
            {
                assert(kn[i as int] == known@[i as int]@);
                let name = known[i].as_str();
                let cands = self.get_non_coreutils_candidates(name);
                let mut source: Option<&str> = None;
                let mut k: usize = 0;
                while k < 4
                    invariant
                        k <= 4,
                    decreases 4 - k,
                {
                    if session.worker.path_exists(cands[k].as_str()) {
                        source = Some(cands[k].as_str());
                        break;
                    }
                    k = k + 1;
                }
                match source {
                    Some(from) => {
                        let n = str_chars(name);
                        let canonical = string_from(join(dir.as_slice(), n.as_slice()).as_slice());
                        let ghost before = session.effects@;
                        let res = session.copy_file_with_permissions(from, canonical.as_str());
                        let ghost x = session.effects@.last();
                        proof {
                            lemma_effects_push(e0, before, x);
                            assert(session.effects@ =~= before.push(x));
                            let l0 = effects_since(e0, before);
                            let l1 = effects_since(e0, session.effects@);
                            assert(l1 =~= l0.push(x));
                            assert forall|kk: int| 0 <= kk < applets@.len() implies #[trigger] found_or_copied(
                                &w,
                                l1,
                                self.bin_directory@,
                                applets@[kk].0@,
                                applets@[kk].1@,
                            ) by {
                                lemma_found_or_copied_push(&w, l0, x, self.bin_directory@, applets@[kk].0@, applets@[kk].1@);
                            }
                        }
                        match res {
                            Ok(()) => {
                                proof {
                                    let l1 = effects_since(e0, session.effects@);
                                    assert(copy_done(l1[l1.len() - 1], canonical@));
                                    assert(canonical@ == path_join(self.bin_directory@, name@));
                                    assert(found_or_copied(&w, l1, self.bin_directory@, name@, canonical@));
                                }
                                applets.push((known[i].clone(), canonical));
                            },
                            Err(_) => {},
                        }
                    },
                    None => {},
                }
                i = i + 1;
            }
            if applets.len() == 0 {
                let mut m = "No '".to_owned();
                m.append(self.name.as_str());
                m.append("' applet binaries found or synthesized under ");
                m.append(self.bin_directory.as_str());
                m.append(". Ensure '");
                m.append(self.package_name.as_str());
                m.append("' installed correctly; if installed via AUR, verify that the helper completed successfully.");
                return Err(Error::ExecutionFailed(m));
            }
        }
        Ok(applets)
    }
}

/// The effect is a successful copy to `dst`.
pub open spec fn copy_done(e: Effect, dst: Seq<char>) -> bool {
    e.0 matches Call::Copy(_, d) && d == dst && e.1 == Some(true)
}

/// The source of a selected applet of another family: what the search path finds for
/// its name, or its copy at `<bin directory>/<name>`, made by a successful copy recorded
/// in `l`.
pub open spec fn found_or_copied<W: Worker>(w: &W, l: Seq<Effect>, bin_directory: Seq<char>, name: Seq<char>, src: Seq<char>) -> bool {
    ||| which_found(w, name) == Some(src)
    ||| src == path_join(bin_directory, name) && exists|j: int| 0 <= j < l.len() && #[trigger] copy_done(l[j], src)
}

proof fn lemma_found_or_copied_push<W: Worker>(w: &W, l: Seq<Effect>, x: Effect, bin_directory: Seq<char>, name: Seq<char>, src: Seq<char>)
    requires
        found_or_copied(w, l, bin_directory, name, src),
    ensures
        found_or_copied(w, l.push(x), bin_directory, name, src),
{
    if which_found(w, name) != Some(src) {
        let j = choose|j: int| 0 <= j < l.len() && #[trigger] copy_done(l[j], src);
        assert(l.push(x)[j] == l[j]);
    }
}

} // verus!
