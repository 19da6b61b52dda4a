//! sudo-rs: sudo, su and visudo switched to sudo-rs through stable aliases.

use vstd::prelude::*;
use crate::utils::session::all_answered_by;
use crate::checks::{is_supported_distro, spec_is_supported_distro, Distribution};
use crate::error::{Error, Result};
use crate::experiments::worker_download_failure;
use crate::experiments::util::{
    find_first_existing, first_existing, lemma_enable_links_onto, prepare_package, resolve_usrbin, restore_calls, restore_failed_message,
    restore_targets, spec_resolve_usrbin, verify_removed, which_found,
};
use crate::utils::session::{
    all_ran, done, effects_since, enable_ran, extends, lemma_effects_concat, lemma_effects_none, lemma_effects_push,
    links_onto, ran_in_order, lemma_refresh_prefix, remove_ran, setup_len, Call, Effect, Session,
};
use crate::config::packages::SUDO_RS;
use crate::utils::text::concat_str;
use crate::utils::worker::{strings_view, Worker};

verus! {

/// The sudo-rs experiment.
pub struct SudoRsExperiment {
    pub name: String,
    pub package_name: String,
}

/// The stable alias through which a target is linked: `/usr/bin/<name>.sudo-rs`.
pub open spec fn spec_alias_path(name: Seq<char>) -> Seq<char> {
    "/usr/bin/"@ + name + ".sudo-rs"@
}

/// Where a sudo-rs binary is looked for before the search path, in order.
pub open spec fn spec_source_candidates(name: Seq<char>) -> Seq<Seq<char>> {
    seq!["/usr/lib/cargo/bin/"@ + name, "/usr/bin/"@ + name + "-rs"@]
}

/// The targets: `/usr/bin/sudo`, `/usr/bin/su`, `/usr/sbin/visudo`.
pub open spec fn spec_sudors_targets() -> Seq<Seq<char>> {
    seq![spec_resolve_usrbin("sudo"@), spec_resolve_usrbin("su"@), "/usr/sbin/visudo"@]
}

/// The alias path of an applet.
pub fn alias_path(name: &str) -> (r: String)
    ensures
        r@ == spec_alias_path(name@),
{
    let mut s = concat_str("/usr/bin/", name);
    s.append(".sudo-rs");
    s
}

/// The outcome of checking that a freshly made link (`what` is `alias` or `target`) is a
/// symlink: not a symlink, or not inspectable, is an error naming the applet and the path.
pub fn link_check(what: &str, name: &str, path: &str, status: core::result::Result<bool, String>) -> (r: Result<()>)
    ensures
        status matches Ok(true) ==> r is Ok,
        status matches Ok(false) ==> (r matches Err(Error::ExecutionFailed(m)) && m@ == what@ + " for '"@
            + name@ + "' not a symlink: "@ + path@),
        status matches Err(e) ==> (r matches Err(Error::ExecutionFailed(m)) && m@ == what@ + " for '"@
            + name@ + "' missing: "@ + path@ + " (err: "@ + e@ + ")"@),
{
    match status {
        Ok(true) => Ok(()),
        Ok(false) => {
            let mut m = what.to_owned();
            m.append(" for '");
            m.append(name);
            m.append("' not a symlink: ");
            m.append(path);
            Err(Error::ExecutionFailed(m))
        },
        Err(e) => {
            let mut m = what.to_owned();
            m.append(" for '");
            m.append(name);
            m.append("' missing: ");
            m.append(path);
            m.append(" (err: ");
            m.append(e.as_str());
            m.append(")");
            Err(Error::ExecutionFailed(m))
        },
    }
}

/// The outcome of checking that a restored target is no longer a symlink.
pub fn restored_check(name: &str, target: &str, status: core::result::Result<bool, String>) -> (r: Result<()>)
    ensures
        status matches Ok(false) ==> r is Ok,
        status matches Ok(true) ==> (r matches Err(Error::ExecutionFailed(m)) && m@ == name@
            + " was expected restored to non-symlink but is still a symlink: "@ + target@),
        status matches Err(e) ==> (r matches Err(Error::ExecutionFailed(m)) && m@ == name@
            + " missing after restore: "@ + target@ + " (err: "@ + e@ + ")"@),
{
    match status {
        Ok(false) => Ok(()),
        Ok(true) => {
            let mut m = name.to_owned();
            m.append(" was expected restored to non-symlink but is still a symlink: ");
            m.append(target);
            Err(Error::ExecutionFailed(m))
        },
        Err(e) => {
            let mut m = name.to_owned();
            m.append(" missing after restore: ");
            m.append(target);
            m.append(" (err: ");
            m.append(e.as_str());
            m.append(")");
            Err(Error::ExecutionFailed(m))
        },
    }
}

/// The applets that sudo-rs switches, in the order of its targets.
pub open spec fn spec_sudors_applets() -> Seq<Seq<char>> {
    seq!["sudo"@, "su"@, "visudo"@]
}

/// A failure at the `i`-th target (with `x` the message of the underlying error): it
/// could not be restored, or once restored it is still a symlink or cannot be inspected.
pub open spec fn sudors_failure_at(m: Seq<char>, i: int, x: Seq<char>) -> bool {
    &&& 0 <= i < 3
    &&& (m == restore_failed_message(spec_sudors_targets()[i], x) || m == spec_sudors_applets()[i]
        + " was expected restored to non-symlink but is still a symlink: "@ + spec_sudors_targets()[i] || m
        == spec_sudors_applets()[i] + " missing after restore: "@ + spec_sudors_targets()[i] + " (err: "@ + x
        + ")"@)
}

/// A failure of disabling sudo-rs without a refresh: a target could not be restored, or a
/// restored target is still a symlink or cannot be inspected.
pub open spec fn sudors_disable_failure(m: Seq<char>) -> bool {
    exists|i: int, x: Seq<char>| #[trigger] sudors_failure_at(m, i, x)
}

/// The message when no sudo-rs binary is found for an applet.
pub open spec fn source_missing_message(name: Seq<char>) -> Seq<char> {
    "Could not find installed sudo-rs binary for '"@ + name + "'. Checked: /usr/lib/cargo/bin/"@ + name
        + " and /usr/bin/"@ + name + "-rs. Hints: ensure 'sudo-rs' is installed and provides '"@ + name
        + "' on this distro."@
}

/// The error when no sudo-rs binary is found for an applet.
pub fn source_missing(name: &str) -> (r: Error)
    ensures
        r matches Error::ExecutionFailed(m) && m@ == source_missing_message(name@),
{
    let mut m = "Could not find installed sudo-rs binary for '".to_owned();
    m.append(name);
    m.append("'. Checked: /usr/lib/cargo/bin/");
    m.append(name);
    m.append(" and /usr/bin/");
    m.append(name);
    m.append("-rs. Hints: ensure 'sudo-rs' is installed and provides '");
    m.append(name);
    m.append("' on this distro.");
    Error::ExecutionFailed(m)
}

impl SudoRsExperiment {
    /// The sudo-rs experiment with its defaults.
    pub fn new() -> (r: Self)
        ensures
            r.name@ == "sudo-rs"@,
            r.package_name@ == SUDO_RS@,
    {
        Self { name: "sudo-rs".to_owned(), package_name: SUDO_RS.to_owned() }
    }

    pub fn name(&self) -> (r: &str)
        ensures
            r@ == self.name@,
    {
        self.name.as_str()
    }

    /// Compatible exactly with the supported distributions.
    pub fn check_compatible(&self, distro: &Distribution) -> (r: Result<bool>)
        ensures
            r matches Ok(b) && b == spec_is_supported_distro(distro.id@),
    {
        Ok(is_supported_distro(distro.id.as_str()))
    }

    /// The target of an applet: under `/usr/bin`.
    pub fn resolve_target(&self, filename: &str) -> (r: String)
        ensures
            r@ == spec_resolve_usrbin(filename@),
    {
        resolve_usrbin(filename)
    }

    /// The targets: sudo, su and visudo.
    pub fn list_targets(&self) -> (r: Vec<String>)
        ensures
            strings_view(r@) == spec_sudors_targets(),
    {
        let mut r: Vec<String> = Vec::new();
        r.push(self.resolve_target("sudo"));
        r.push(self.resolve_target("su"));
        r.push("/usr/sbin/visudo".to_owned());
        assert(strings_view(r@) =~= spec_sudors_targets());
        r
    }

    /// Where a sudo-rs binary is looked for before the search path.
    pub fn source_candidates(&self, name: &str) -> (r: Vec<String>)
        ensures
            strings_view(r@) == spec_source_candidates(name@),
    {
        let mut r: Vec<String> = Vec::new();
        r.push(concat_str("/usr/lib/cargo/bin/", name));
        let mut b = concat_str("/usr/bin/", name);
        b.append("-rs");
        r.push(b);
        assert(strings_view(r@) =~= spec_source_candidates(name@));
        r
    }

    /// The sudo-rs binary for an applet: the first candidate that exists, else
    /// `<name>-rs` on the search path; never the system's own binary.
    pub fn find_sudors_source<W: Worker>(&self, worker: &W, name: &str) -> (r: Option<String>)
        ensures
            match r {
                Some(p) => spec_sudors_source(worker, name@) == Some(p@),
                None => spec_sudors_source(worker, name@) is None,
            },
    {
        let cands = self.source_candidates(name);
        match find_first_existing(worker, cands.as_slice()) {
            Some(p) => Some(p),
            None => {
                let rs_name = concat_str(name, "-rs");
                match worker.which(rs_name.as_str()) {
                    Ok(Some(p)) => Some(p),
                    _ => None,
                }
            },
        }
    }

    /// Link one applet: its sudo-rs source onto the alias, then the alias onto the target,
    /// each checked to be a symlink afterwards; the first step that fails (a link not made,
    /// or a path not a symlink) ends the run. With no sudo-rs binary, nothing is done.
    fn link_applet<W: Worker>(&self, session: &mut Session<W>, name: &str, target: &str) -> (r: Result<()>)
        ensures
            final(session).worker == old(session).worker,
            extends(old(session).effects@, final(session).effects@),
            all_answered_by(&old(session).worker, old(session).effects@) ==> all_answered_by(
                &final(session).worker,
                final(session).effects@,
            ),
            match spec_sudors_source(&old(session).worker, name@) {
                None => effects_since(old(session).effects@, final(session).effects@).len() == 0 && (r matches Err(
                    Error::ExecutionFailed(m),
                ) && m@ == source_missing_message(name@)),
                Some(s) => ran_checked(
                    effects_since(old(session).effects@, final(session).effects@),
                    applet_calls(s, name@, target@),
                ) && (r is Ok <==> all_checked(
                    effects_since(old(session).effects@, final(session).effects@),
                    applet_calls(s, name@, target@),
                )),
            },
    {
        let ghost e0 = session.effects@;
        proof {
            lemma_effects_none(e0);
        }
        let source = match self.find_sudors_source(&session.worker, name) {
            Some(s) => s,
            None => {
                return Err(source_missing(name));
            },
        };
        let ghost calls = applet_calls(source@, name@, target@);
        let alias = alias_path(name);
        let r1 = session.replace_file_with_symlink(source.as_str(), alias.as_str());
        proof {
            lemma_effects_push(e0, e0, (Call::Link(source@, alias@), done(r1)));
        }
        r1?;
        let ghost e1 = session.effects@;
        let st1 = session.symlink_status(alias.as_str());
        proof {
            lemma_effects_push(e0, e1, session.effects@.last());
            assert(session.effects@ =~= e1.push(session.effects@.last()));
        }
        link_check("alias", name, alias.as_str(), st1)?;
        let ghost e2 = session.effects@;
        let r3 = session.replace_file_with_symlink(alias.as_str(), target);
        proof {
            lemma_effects_push(e0, e2, (Call::Link(alias@, target@), done(r3)));
        }
        r3?;
        let ghost e3 = session.effects@;
        let st4 = session.symlink_status(target);
        proof {
            lemma_effects_push(e0, e3, session.effects@.last());
            assert(session.effects@ =~= e3.push(session.effects@.last()));
        }
        link_check("target", name, target, st4)
    }

    /// What follows a successful setup in an enable: the installed query, which must
    /// answer that the package is installed, then sudo, su and visudo linked in turn (see
    /// `spec_applets_ran`).
    pub open spec fn spec_after_setup<W: Worker>(&self, w: &W, l: Seq<Effect>, r: Result<()>) -> bool {
        &&& l.len() >= 1
        &&& l[0].0 == Call::CheckInstalled(self.package_name@)
        &&& if l[0].1 != Some(true) {
            l.len() == 1 && r is Err
        } else {
            spec_applets_ran(w, l.skip(1), 0, r is Ok)
        }
    }

    /// What an enable records and returns (see `enable`).
    pub open spec fn spec_enable_ran<W: Worker>(&self, w: &W, e: Seq<Effect>, update_lists: bool, r: Result<()>) -> bool {
        enable_ran(e, update_lists, self.package_name@, r is Ok, |l: Seq<Effect>| self.spec_after_setup(w, l, r))
    }

    /// Enable: refresh the package lists if asked, pass the repository gate, install the
    /// package and check it is installed, then link sudo, su and visudo through their
    /// aliases, each link checked to be a symlink.
    pub fn enable<W: Worker>(&self, session: &mut Session<W>, assume_yes: bool, update_lists: bool) -> (r: Result<()>)
        ensures
            final(session).worker == old(session).worker,
            extends(old(session).effects@, final(session).effects@),
            all_answered_by(&old(session).worker, old(session).effects@) ==> all_answered_by(
                &final(session).worker,
                final(session).effects@,
            ),
            self.spec_enable_ran(&old(session).worker, effects_since(old(session).effects@, final(session).effects@), update_lists, r),
            !update_lists && (old(session).worker.spec_extra_repo() is None || old(session).worker.spec_aur_helper()
                is None) ==> r is Err,
            !update_lists ==> (worker_download_failure(&old(session).worker, self.package_name@) matches Some(d) ==> (
            r matches Err(Error::RepoGateFailed { package: p, details: q }) && p@ == self.package_name@ && q@ == d)),
            r is Ok ==> old(session).worker.spec_extra_repo() is Some && old(session).worker.spec_aur_helper() is Some
                && worker_download_failure(&old(session).worker, self.package_name@) is None,
    {
        let ghost e0 = session.effects@;
        let ghost w = session.worker;
        let p = prepare_package(session, self.package_name.as_str(), assume_yes, update_lists);
        if p.is_err() {
            return p;
        }
        let ghost e1 = session.effects@;
        let ghost n = setup_len(update_lists);
        let inst = session.check_installed(self.package_name.as_str());
        let ghost e2 = session.effects@;
        proof {
            lemma_effects_push(e0, e1, session.effects@.last());
            assert(session.effects@ =~= e1.push(session.effects@.last()));
            lemma_effects_none(e1);
            lemma_effects_push(e1, e1, session.effects@.last());
            let e = effects_since(e0, e2);
            assert(e.take(n) =~= effects_since(e0, e1));
            assert(e.skip(n) =~= effects_since(e1, e2));
        }
        let installed = inst?;
        if !installed {
            let mut m = "❌ Expected: '".to_owned();
            m.append(self.package_name.as_str());
            m.append("' installed, Received: absent");
            return Err(Error::ExecutionFailed(m));
        }
        let targets = self.list_targets();
        proof {
            reveal_strlit("sudo");
            reveal_strlit("su");
            reveal_strlit("visudo");
            assert(strings_view(targets@).len() == 3);
            assert(spec_sudors_targets()[0] == targets@[0]@);
            assert(spec_sudors_targets()[1] == targets@[1]@);
            assert(spec_sudors_targets()[2] == targets@[2]@);
        }
        let r0 = self.link_applet(session, "sudo", targets[0].as_str());
        let ghost e3 = session.effects@;
        let ghost a0 = effects_since(e2, e3);
        proof {
            lemma_effects_concat(e0, e2, e3);
            lemma_effects_concat(e1, e2, e3);
            let e = effects_since(e0, e3);
            assert(e.take(n) =~= effects_since(e0, e1));
            assert(e.skip(n) =~= effects_since(e1, e3));
            assert(effects_since(e1, e3).skip(1) =~= a0);
            if r0 is Err {
                lemma_applets_stop(&w, a0, 0);
            }
        }
        if r0.is_err() {
            return r0;
        }
        let r1 = self.link_applet(session, "su", targets[1].as_str());
        let ghost e4 = session.effects@;
        let ghost a1 = effects_since(e3, e4);
        proof {
            lemma_effects_concat(e0, e3, e4);
            lemma_effects_concat(e1, e3, e4);
            lemma_effects_concat(e2, e3, e4);
            let e = effects_since(e0, e4);
            assert(e.take(n) =~= effects_since(e0, e1));
            assert(e.skip(n) =~= effects_since(e1, e4));
            assert(effects_since(e1, e4).skip(1) =~= effects_since(e2, e4));
            if r1 is Err {
                lemma_applets_stop(&w, a1, 1);
                lemma_applets_cont(&w, a0, a1, 0, false);
            }
        }
        if r1.is_err() {
            return r1;
        }
        let r2 = self.link_applet(session, "visudo", targets[2].as_str());
        let ghost e5 = session.effects@;
        let ghost a2 = effects_since(e4, e5);
        proof {
            lemma_effects_concat(e0, e4, e5);
            lemma_effects_concat(e1, e4, e5);
            lemma_effects_concat(e2, e4, e5);
            lemma_effects_concat(e3, e4, e5);
            let e = effects_since(e0, e5);
            assert(e.take(n) =~= effects_since(e0, e1));
            assert(e.skip(n) =~= effects_since(e1, e5));
            assert(effects_since(e1, e5).skip(1) =~= effects_since(e2, e5));
            assert(effects_since(e2, e5) =~= a0 + (a1 + a2));
            if r2 is Err {
                lemma_applets_stop(&w, a2, 2);
            } else {
                assert(spec_applets_ran(&w, Seq::<Effect>::empty(), 3, true));
                lemma_applets_cont(&w, a2, Seq::<Effect>::empty(), 2, true);
                assert(a2 + Seq::<Effect>::empty() =~= a2);
            }
            lemma_applets_cont(&w, a1, a2, 1, r2 is Ok);
            lemma_applets_cont(&w, a0, a1 + a2, 0, r2 is Ok);
        }
        r2
    }

    /// Disable: refresh the package lists if asked, restore the three targets in order,
    /// then check that none of them is still a symlink; the first step that fails ends the
    /// run (see `spec_restore_then_check`), and no package is installed or removed. Without
    /// a refresh, a failure is one of those.
    pub fn disable<W: Worker>(&self, session: &mut Session<W>, assume_yes: bool, update_lists: bool) -> (r: Result<()>)
        ensures
            final(session).worker == old(session).worker,
            extends(old(session).effects@, final(session).effects@),
            all_answered_by(&old(session).worker, old(session).effects@) ==> all_answered_by(
                &final(session).worker,
                final(session).effects@,
            ),
            spec_sudors_disable_ran(effects_since(old(session).effects@, final(session).effects@), update_lists, r is Ok),
            !update_lists && r is Err ==> (r matches Err(Error::ExecutionFailed(m)) && sudors_disable_failure(m@)),
    {
        let ghost e0 = session.effects@;
        proof {
            lemma_effects_none(e0);
        }
        if update_lists {
            let u = session.update_packages(assume_yes);
            proof {
                lemma_effects_push(e0, e0, (Call::Update, done(u)));
                assert(effects_since(e0, session.effects@) =~= seq![(Call::Update, done(u))]);
            }
            if u.is_err() {
                return u;
            }
        }
        let ghost e1 = session.effects@;
        let targets = self.list_targets();
        assert(strings_view(targets@).len() == 3);
        assert(targets@[0]@ == spec_sudors_targets()[0]);
        assert(targets@[1]@ == spec_sudors_targets()[1]);
        assert(targets@[2]@ == spec_sudors_targets()[2]);
        proof {
            reveal_strlit("sudo");
            reveal_strlit("su");
            reveal_strlit("visudo");
            assert(strings_view(targets@) =~= spec_sudors_targets());
        }
        let r0 = restore_targets(session, targets.as_slice());
        let ghost e2 = session.effects@;
        proof {
            lemma_effects_concat(e0, e1, e2);
            if update_lists {
                assert(effects_since(e0, e2).skip(1) =~= effects_since(e1, e2));
            } else {
                assert(effects_since(e0, e1) =~= Seq::<Effect>::empty());
                assert(effects_since(e0, e2) =~= effects_since(e1, e2));
            }
        }
        if let Err(e0r) = r0 {
            proof {
                if let Error::ExecutionFailed(m) = &e0r {
                    let (i, x) = choose|i: int, x: Error|
                        0 <= i < targets@.len() && m@ == restore_failed_message(targets@[i]@, x.spec_message());
                    assert(targets@[i]@ == spec_sudors_targets()[i]);
                    assert(sudors_failure_at(m@, i, x.spec_message()));
                }
                lemma_restore_failed(effects_since(e1, e2));
                lemma_refresh_prefix(e0, e1, e2, update_lists);
                lemma_disable_shape(effects_since(e1, e2), update_lists, effects_since(e0, e2), false);
            }
            return Err(e0r);
        }
        let st1 = session.symlink_status(targets[0].as_str());
        let ghost e3 = session.effects@;
        let ghost y1 = session.effects@.last();
        proof {
            assert(session.effects@ =~= e2.push(y1));
            lemma_effects_push(e1, e2, y1);
            lemma_effects_push(e0, e2, y1);
            lemma_effects_none(e2);
            lemma_effects_push(e2, e2, y1);
            lemma_effects_concat(e1, e2, e3);
        }
        let ghost x1: Seq<char> = match &st1 { Err(ee) => ee@, _ => seq![] };
        let r1 = restored_check("sudo", targets[0].as_str(), st1);
        if let Err(e1r) = r1 {
            proof {
                if let Error::ExecutionFailed(m) = &e1r {
                    assert(spec_sudors_applets()[0] == "sudo"@);
                    assert(sudors_failure_at(m@, 0, x1));
                    assert(sudors_disable_failure(m@));
                }
                lemma_checks(effects_since(e1, e2), effects_since(e2, e3), false);
                lemma_refresh_prefix(e0, e1, e3, update_lists);
                lemma_disable_shape(effects_since(e1, e3), update_lists, effects_since(e0, e3), false);
            }
            return Err(e1r);
        }
        let st2 = session.symlink_status(targets[1].as_str());
        let ghost e4 = session.effects@;
        let ghost y2 = session.effects@.last();
        proof {
            assert(session.effects@ =~= e3.push(y2));
            lemma_effects_push(e1, e3, y2);
            lemma_effects_push(e0, e3, y2);
            lemma_effects_push(e2, e3, y2);
            lemma_effects_concat(e1, e2, e4);
        }
        let ghost x2: Seq<char> = match &st2 { Err(ee) => ee@, _ => seq![] };
        let r2 = restored_check("su", targets[1].as_str(), st2);
        if let Err(e2r) = r2 {
            proof {
                if let Error::ExecutionFailed(m) = &e2r {
                    assert(spec_sudors_applets()[1] == "su"@);
                    assert(sudors_failure_at(m@, 1, x2));
                    assert(sudors_disable_failure(m@));
                }
                lemma_checks(effects_since(e1, e2), effects_since(e2, e4), false);
                lemma_refresh_prefix(e0, e1, e4, update_lists);
                lemma_disable_shape(effects_since(e1, e4), update_lists, effects_since(e0, e4), false);
            }
            return Err(e2r);
        }
        let st3 = session.symlink_status(targets[2].as_str());
        let ghost e5 = session.effects@;
        let ghost y3 = session.effects@.last();
        proof {
            assert(session.effects@ =~= e4.push(y3));
            lemma_effects_push(e1, e4, y3);
            lemma_effects_push(e0, e4, y3);
            lemma_effects_push(e2, e4, y3);
            lemma_effects_concat(e1, e2, e5);
        }
        let ghost x3: Seq<char> = match &st3 { Err(ee) => ee@, _ => seq![] };
        let r3 = restored_check("visudo", targets[2].as_str(), st3);
        proof {
            if let Err(Error::ExecutionFailed(m)) = &r3 {
                assert(spec_sudors_applets()[2] == "visudo"@);
                assert(sudors_failure_at(m@, 2, x3));
                assert(sudors_disable_failure(m@));
            }
            lemma_checks(effects_since(e1, e2), effects_since(e2, e5), r3 is Ok);
            lemma_refresh_prefix(e0, e1, e5, update_lists);
                lemma_disable_shape(effects_since(e1, e5), update_lists, effects_since(e0, e5), r3 is Ok);
        }
        r3
    }

    /// Remove: disable, then remove the package, then check that it is gone; each step
    /// only after the previous one succeeded.
    pub fn remove<W: Worker>(&self, session: &mut Session<W>, assume_yes: bool, update_lists: bool) -> (r: Result<()>)
        ensures
            final(session).worker == old(session).worker,
            extends(old(session).effects@, final(session).effects@),
            all_answered_by(&old(session).worker, old(session).effects@) ==> all_answered_by(
                &final(session).worker,
                final(session).effects@,
            ),
            remove_ran(
                effects_since(old(session).effects@, final(session).effects@),
                |d: Seq<Effect>, ok: bool| spec_sudors_disable_ran(d, update_lists, ok),
                self.package_name@,
                r,
            ),
    {
        let ghost e0 = session.effects@;
        let d = self.disable(session, assume_yes, update_lists);
        let ghost e1 = session.effects@;
        if d.is_err() {
            return d;
        }
        let rm = session.remove_package(self.package_name.as_str(), assume_yes);
        proof {
            lemma_effects_push(e0, e1, (Call::Remove(self.package_name@), done(rm)));
            assert(effects_since(e0, session.effects@).drop_last() =~= effects_since(e0, e1));
        }
        if rm.is_err() {
            return rm;
        }
        let ghost e2 = session.effects@;
        let v = verify_removed(session, self.package_name.as_str());
        proof {
            lemma_effects_push(e0, e2, session.effects@.last());
            assert(session.effects@ =~= e2.push(session.effects@.last()));
            let e = effects_since(e0, session.effects@);
            assert(e.drop_last().drop_last() =~= effects_since(e0, e1));
            assert(e[e.len() - 2] == (Call::Remove(self.package_name@), Some(true)));
            assert(e.last() == session.effects@.last());
            if v is Ok {
                match session.effects@.last().1 {
                    Some(b) => {
                        assert(!b);
                    },
                    None => {
                        assert(false);
                    },
                }
            }
        }
        v
    }
}

/// The sudo-rs binary for an applet: the first of its candidates that exists, else what
/// the search path finds for `<name>-rs`.
pub open spec fn spec_sudors_source<W: Worker>(w: &W, name: Seq<char>) -> Option<Seq<char>> {
    match first_existing(w, spec_source_candidates(name)) {
        Some(p) => Some(p),
        None => which_found(w, name + "-rs"@),
    }
}

/// The calls that link one applet: the source onto the alias, the alias checked, the
/// alias onto the target, the target checked.
pub open spec fn applet_calls(source: Seq<char>, name: Seq<char>, target: Seq<char>) -> Seq<Call> {
    seq![
        Call::Link(source, spec_alias_path(name)),
        Call::LinkStatus(spec_alias_path(name)),
        Call::Link(spec_alias_path(name), target),
        Call::LinkStatus(target),
    ]
}

/// The calls ran in order, each step (a link made, a path found to be a symlink) before
/// the next one, and the run stopped at the first that did not succeed.
pub open spec fn ran_checked(e: Seq<Effect>, calls: Seq<Call>) -> bool {
    &&& e.len() <= calls.len()
    &&& forall|i: int| 0 <= i < e.len() ==> #[trigger] e[i].0 == calls[i]
    &&& forall|i: int| 0 <= i < e.len() - 1 ==> #[trigger] e[i].1 == Some(true)
    &&& e.len() < calls.len() ==> e.len() > 0 && e.last().1 != Some(true)
}

/// Every one of the calls ran and succeeded.
pub open spec fn all_checked(e: Seq<Effect>, calls: Seq<Call>) -> bool {
    e.len() == calls.len() && forall|i: int| 0 <= i < e.len() ==> #[trigger] e[i].1 == Some(true)
}

/// The applets from the `k`-th on linked in turn: each with a sudo-rs binary has its four
/// steps run in order (see `applet_calls`), the next applet only once they all succeeded; an
/// applet without one ends the run with nothing done for it. `ok` exactly when every
/// applet was linked.
pub open spec fn spec_applets_ran<W: Worker>(w: &W, l: Seq<Effect>, k: nat, ok: bool) -> bool
    decreases 3 - k,
{
    if k >= 3 {
        l.len() == 0 && ok
    } else {
        match spec_sudors_source(w, spec_sudors_applets()[k as int]) {
            None => l.len() == 0 && !ok,
            Some(s) => {
                let c = applet_calls(s, spec_sudors_applets()[k as int], spec_sudors_targets()[k as int]);
                if l.len() >= 4 && ran_checked(l.take(4), c) && all_checked(l.take(4), c) {
                    spec_applets_ran(w, l.skip(4), k + 1, ok)
                } else {
                    ran_checked(l, c) && !all_checked(l, c) && !ok
                }
            },
        }
    }
}

/// An applet's run that stopped (no sudo-rs binary, or a step that did not succeed) is
/// the end of the run from it, which then fails.
proof fn lemma_applets_stop<W: Worker>(w: &W, a: Seq<Effect>, k: nat)
    requires
        k < 3,
        match spec_sudors_source(w, spec_sudors_applets()[k as int]) {
            None => a.len() == 0,
            Some(s) => ran_checked(a, applet_calls(s, spec_sudors_applets()[k as int], spec_sudors_targets()[k as int]))
                && !all_checked(a, applet_calls(s, spec_sudors_applets()[k as int], spec_sudors_targets()[k as int])),
        },
    ensures
        spec_applets_ran(w, a, k, false),
{
    if let Some(s) = spec_sudors_source(w, spec_sudors_applets()[k as int]) {
        if a.len() >= 4 {
            assert(a.take(4) =~= a);
        }
    }
}

/// An applet's run that went to its end, followed by the run from the next applet, is the
/// run from it.
proof fn lemma_applets_cont<W: Worker>(w: &W, a: Seq<Effect>, rest: Seq<Effect>, k: nat, ok: bool)
    requires
        k < 3,
        spec_sudors_source(w, spec_sudors_applets()[k as int]) matches Some(s) && ran_checked(
            a,
            applet_calls(s, spec_sudors_applets()[k as int], spec_sudors_targets()[k as int]),
        ) && all_checked(a, applet_calls(s, spec_sudors_applets()[k as int], spec_sudors_targets()[k as int])),
        spec_applets_ran(w, rest, k + 1, ok),
    ensures
        spec_applets_ran(w, a + rest, k, ok),
{
    let l = a + rest;
    assert(l.take(4) =~= a);
    assert(l.skip(4) =~= rest);
}

/// The restores of the three targets, in order and stopping at the first failure, then,
/// once all three succeeded, the checks that each is no longer a symlink, in order and
/// stopping at the first that finds a symlink or fails; `ok` exactly when every step
/// succeeded.
pub open spec fn spec_restore_then_check(e: Seq<Effect>, ok: bool) -> bool {
    let t = spec_sudors_targets();
    let rc = restore_calls(t);
    if e.len() >= 3 && ran_in_order(e.take(3), rc) && all_ran(e.take(3), rc) {
        let c = e.skip(3);
        &&& c.len() <= 3
        &&& forall|i: int| 0 <= i < c.len() ==> #[trigger] c[i].0 == Call::LinkStatus(t[i])
        &&& forall|i: int| 0 <= i < c.len() - 1 ==> #[trigger] c[i].1 == Some(false)
        &&& c.len() < 3 ==> c.len() > 0 && c.last().1 != Some(false)
        &&& ok <==> (c.len() == 3 && forall|i: int| 0 <= i < c.len() ==> #[trigger] c[i].1 == Some(false))
    } else {
        ran_in_order(e, rc) && !all_ran(e, rc) && !ok
    }
}

/// A disable of sudo-rs: the refresh first when asked for (a failed refresh ends it),
/// then the restores and checks (see `spec_restore_then_check`).
pub open spec fn spec_sudors_disable_ran(e: Seq<Effect>, update_lists: bool, ok: bool) -> bool {
    if update_lists {
        &&& e.len() > 0
        &&& e[0].0 == Call::Update
        &&& if e[0].1 is None {
            e.len() == 1 && !ok
        } else {
            spec_restore_then_check(e.skip(1), ok)
        }
    } else {
        spec_restore_then_check(e, ok)
    }
}

/// Restores that stopped at a failure end the restores and checks, which then fail.
proof fn lemma_restore_failed(d: Seq<Effect>)
    requires
        ran_in_order(d, restore_calls(spec_sudors_targets())),
        !all_ran(d, restore_calls(spec_sudors_targets())),
    ensures
        spec_restore_then_check(d, false),
{
    if d.len() >= 3 {
        assert(d.take(3) =~= d);
    }
}

/// The three restores, then checks that ran in order and stopped at the first that did
/// not find a plain file, are the restores and checks.
proof fn lemma_checks(d: Seq<Effect>, c: Seq<Effect>, ok: bool)
    requires
        ran_in_order(d, restore_calls(spec_sudors_targets())),
        all_ran(d, restore_calls(spec_sudors_targets())),
        c.len() <= 3,
        forall|i: int| 0 <= i < c.len() ==> #[trigger] c[i].0 == Call::LinkStatus(spec_sudors_targets()[i]),
        forall|i: int| 0 <= i < c.len() - 1 ==> #[trigger] c[i].1 == Some(false),
        c.len() < 3 ==> c.len() > 0 && c.last().1 != Some(false),
        ok <==> (c.len() == 3 && forall|i: int| 0 <= i < c.len() ==> #[trigger] c[i].1 == Some(false)),
    ensures
        spec_restore_then_check(d + c, ok),
{
    let e = d + c;
    assert(restore_calls(spec_sudors_targets()).len() == 3);
    assert(e.take(3) =~= d);
    assert(e.skip(3) =~= c);
}

proof fn lemma_disable_shape(d: Seq<Effect>, update_lists: bool, e: Seq<Effect>, ok: bool)
    requires
        spec_restore_then_check(d, ok),
        update_lists ==> e.len() > 0 && e[0] == (Call::Update, Some(true)) && e.skip(1) == d,
        !update_lists ==> e == d,
    ensures
        spec_sudors_disable_ran(e, update_lists, ok),
{
}

/// The aliases of sudo, su and visudo.
pub open spec fn spec_sudors_aliases() -> Seq<Seq<char>> {
    spec_sudors_applets().map_values(|n: Seq<char>| spec_alias_path(n))
}

proof fn lemma_applets_links_onto<W: Worker>(w: &W, l: Seq<Effect>, k: nat, ok: bool)
    requires
        spec_applets_ran(w, l, k, ok),
    ensures
        links_onto(l, |t: Seq<char>| spec_sudors_targets().contains(t) || spec_sudors_aliases().contains(t)),
    decreases 3 - k,
{
    let allowed = |t: Seq<char>| spec_sudors_targets().contains(t) || spec_sudors_aliases().contains(t);
    if k < 3 {
        if let Some(s) = spec_sudors_source(w, spec_sudors_applets()[k as int]) {
            let c = applet_calls(s, spec_sudors_applets()[k as int], spec_sudors_targets()[k as int]);
            assert(spec_sudors_aliases()[k as int] == spec_alias_path(spec_sudors_applets()[k as int]));
            assert(allowed(spec_sudors_aliases()[k as int]));
            assert(allowed(spec_sudors_targets()[k as int]));
            if l.len() >= 4 && ran_checked(l.take(4), c) && all_checked(l.take(4), c) {
                lemma_applets_links_onto(w, l.skip(4), k + 1, ok);
                assert forall|i: int| 0 <= i < l.len() implies match (#[trigger] l[i]).0 {
                    Call::Link(_, t) => allowed(t),
                    _ => true,
                } by {
                    if i < 4 {
                        assert(l[i] == l.take(4)[i]);
                    } else {
                        assert(l[i] == l.skip(4)[i - 4]);
                    }
                }
            }
        }
    }
}

/// Enabling sudo-rs links only the aliases of sudo, su and visudo and their three
/// targets; the targets are what disabling restores.
pub proof fn law_sudors_enable_links<W: Worker>(
    x: &SudoRsExperiment,
    w: &W,
    e: Seq<Effect>,
    update_lists: bool,
    r: Result<()>,
)
    requires
        x.spec_enable_ran(w, e, update_lists, r),
    ensures
        links_onto(e, |t: Seq<char>| spec_sudors_targets().contains(t) || spec_sudors_aliases().contains(t)),
{
    let allowed = |t: Seq<char>| spec_sudors_targets().contains(t) || spec_sudors_aliases().contains(t);
    let n0 = setup_len(update_lists);
    if e.len() >= n0 && x.spec_after_setup(w, e.skip(n0), r) {
        let l = e.skip(n0);
        if l[0].1 == Some(true) {
            lemma_applets_links_onto(w, l.skip(1), 0, r is Ok);
            assert forall|i: int| 0 <= i < l.len() implies match (#[trigger] l[i]).0 {
                Call::Link(_, t) => allowed(t),
                _ => true,
            } by {
                if i >= 1 {
                    assert(l[i] == l.skip(1)[i - 1]);
                }
            }
        }
    }
    lemma_enable_links_onto(e, update_lists, x.package_name@, r is Ok, |l: Seq<Effect>| x.spec_after_setup(w, l, r), allowed);
}

} // verus!
