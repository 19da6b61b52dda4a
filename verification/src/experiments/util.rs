//! Helpers shared by the experiments: target paths, applet lists, linking and restoring.

use vstd::prelude::*;
use crate::config::paths::SYSTEM_BIN_DIR;
use crate::error::{Error, Result};
use crate::utils::paths::{join, path_join};
use crate::utils::text::{
    decimal, lines, split_lines, str_chars, string_from, trim, trim_ws, u64_decimal, views,
};
use crate::experiments::{check_download_prerequisites, worker_download_failure};
use crate::utils::session::{
    all_ran, done, effects_since, extends, lemma_effects_concat, lemma_effects_none, lemma_effects_push, ran_in_order,
    all_answered_by, answer, answered_by, link_answered, restore_answered, enable_ran, links_onto, refresh_then_run, remove_ran, setup_done, setup_len, setup_steps, Call, Effect, Session,
};
use crate::utils::worker::{strings_view, Worker};
use crate::symlink::model::{
    disable_all, enable_all, entry_at, law_disable_undoes_enable, law_enable_idempotent, restorable, slots_apart,
    targets_of, Entry,
};

verus! {

/// The path of `filename` under `/usr/bin`.
pub open spec fn spec_resolve_usrbin(filename: Seq<char>) -> Seq<char> {
    path_join(SYSTEM_BIN_DIR@, filename)
}

/// Resolve a target path under `/usr/bin`.
pub fn resolve_usrbin(filename: &str) -> (r: String)
    ensures
        r@ == spec_resolve_usrbin(filename@),
{
    let b = str_chars(SYSTEM_BIN_DIR);
    let f = str_chars(filename);
    let j = join(b.as_slice(), f.as_slice());
    string_from(j.as_slice())
}

/// The names in a list of lines: each line trimmed, empty ones skipped.
pub open spec fn spec_names_of(ls: Seq<Seq<char>>) -> Seq<Seq<char>>
    decreases ls.len(),
{
    if ls.len() == 0 {
        seq![]
    } else {
        spec_names_of(ls.drop_last()) + if trim_ws(ls.last()).len() > 0 {
            seq![trim_ws(ls.last())]
        } else {
            seq![]
        }
    }
}

/// The applet names of a newline-separated list: each line trimmed, empty lines skipped.
pub open spec fn spec_list_names(list: Seq<char>) -> Seq<Seq<char>> {
    spec_names_of(split_lines(list))
}

/// The applet names of a newline-separated list.
pub fn list_names(list: &str) -> (r: Vec<String>)
    ensures
        strings_view(r@) == spec_list_names(list@),
{
    let c = str_chars(list);
    let ls = lines(c.as_slice());
    let mut out: Vec<String> = Vec::new();
    let mut i: usize = 0;
    assert(views(ls@).take(0) =~= seq![]);
    while i < ls.len()
        invariant
            i <= ls@.len(),
            views(ls@) == split_lines(list@),
            strings_view(out@) == spec_names_of(views(ls@).take(i as int)),
        decreases ls@.len() - i,
    {
        proof {
            assert(views(ls@).take(i + 1).drop_last() =~= views(ls@).take(i as int));
            assert(views(ls@).take(i + 1).last() == ls@[i as int]@);
        }
        let t = trim(ls[i].as_slice());
        let ghost o = out@;
        if t.len() > 0 {
            out.push(string_from(t.as_slice()));
            assert(strings_view(out@) =~= strings_view(o).push(t@));
        } else {
            assert(strings_view(out@) =~= strings_view(o) + seq![]);
        }
        i = i + 1;
    }
    assert(views(ls@).take(ls@.len() as int) =~= views(ls@));
    out
}

/// The views of a list of (name, source) pairs.
pub open spec fn pairs_view(v: Seq<(String, String)>) -> Seq<(Seq<char>, Seq<char>)> {
    v.map_values(|p: (String, String)| (p.0@, p.1@))
}

/// The message of a failed link.
pub open spec fn symlink_failed_message(src: Seq<char>, target: Seq<char>, e: Seq<char>) -> Seq<char> {
    "failed to symlink "@ + src + " -> "@ + target + ": "@ + e
}

/// `t` is what `resolve` gives for `name`.
pub open spec fn resolves_to<F: Fn(&str) -> String>(resolve: F, name: Seq<char>, t: Seq<char>) -> bool {
    exists|n: &str, ts: String| n@ == name && #[trigger] call_ensures(resolve, (n,), ts) && ts@ == t
}

/// The effect is the link of the (name, source) pair's source onto what `resolve` gives
/// for its name.
pub open spec fn link_for<F: Fn(&str) -> String>(e: Effect, applet: (Seq<char>, Seq<char>), resolve: F) -> bool {
    match e.0 {
        Call::Link(s, t) => s == applet.1 && resolves_to(resolve, applet.0, t),
        _ => false,
    }
}

/// The links made for `applets`: each (name, source) pair's source linked onto the target
/// that `resolve` gives for its name, in order, stopping after the first failure; `ok`
/// exactly when every link was made.
pub open spec fn linked_in_order<F: Fn(&str) -> String>(
    e: Seq<Effect>,
    applets: Seq<(Seq<char>, Seq<char>)>,
    resolve: F,
    ok: bool,
) -> bool {
    &&& e.len() <= applets.len()
    &&& forall|i: int|
        0 <= i < e.len() ==> link_for(#[trigger] e[i], applets[i], resolve)
    &&& forall|i: int| 0 <= i < e.len() - 1 ==> (#[trigger] e[i]).1 is Some
    &&& e.len() < applets.len() ==> e.len() > 0 && e.last().1 is None
    &&& ok <==> (e.len() == applets.len() && forall|i: int| 0 <= i < e.len() ==> (#[trigger] e[i]).1 is Some)
}

/// Create symlinks for (filename, source) applets at the targets that `resolve` gives,
/// stopping at the first failure, which is reported with its source and target.
pub fn create_symlinks<W: Worker, F: Fn(&str) -> String>(
    session: &mut Session<W>,
    applets: &[(String, String)],
    resolve: F,
) -> (r: Result<()>)
    requires
        forall|n: &str| call_requires(resolve, (n,)),
    ensures
        final(session).worker == old(session).worker,
        extends(old(session).effects@, final(session).effects@),
        all_answered_by(&old(session).worker, old(session).effects@) ==> all_answered_by(
            &final(session).worker,
            final(session).effects@,
        ),
        linked_in_order(effects_since(old(session).effects@, final(session).effects@), pairs_view(applets@), resolve, r is Ok),
        r is Err ==> r matches Err(Error::ExecutionFailed(_)),
        r matches Err(Error::ExecutionFailed(m)) ==> exists|i: int, n: &str, t: String, e: Error|
            0 <= i < applets@.len() && n@ == applets@[i].0@ && call_ensures(resolve, (n,), t) && m@
                == symlink_failed_message(applets@[i].1@, t@, e.spec_message()),
{
    let ghost e0 = session.effects@;
    let ghost pv = pairs_view(applets@);
    proof {
        lemma_effects_none(e0);
    }
    let mut i: usize = 0;
    while i < applets.len()
        invariant
            forall|n: &str| call_requires(resolve, (n,)),
            i <= applets@.len(),
            pv == pairs_view(applets@),
            session.worker == old(session).worker,
            e0 == old(session).effects@,
            all_answered_by(&old(session).worker, old(session).effects@) ==> all_answered_by(&session.worker, session.effects@),
            extends(e0, session.effects@),
            effects_since(e0, session.effects@).len() == i,
            forall|k: int|
                0 <= k < i ==> link_for(#[trigger] effects_since(e0, session.effects@)[k], pv[k], resolve),
            forall|k: int| 0 <= k < i ==> (#[trigger] effects_since(e0, session.effects@)[k]).1 is Some,
        decreases applets@.len() - i,
    {
        let n = applets[i].0.as_str();
        let target = resolve(n);
        let ghost before = session.effects@;
        let res = session.replace_file_with_symlink(applets[i].1.as_str(), target.as_str());
        proof {
            lemma_effects_push(e0, before, (Call::Link(applets@[i as int].1@, target@), done(res)));
            assert(resolves_to(resolve, pv[i as int].0, target@));
        }
        match res {
            Ok(()) => {},
            Err(e) => {
                let mut m = "failed to symlink ".to_owned();
                m.append(applets[i].1.as_str());
                m.append(" -> ");
                m.append(target.as_str());
                m.append(": ");
                m.append(e.message().as_str());
                assert(m@ == symlink_failed_message(applets@[i as int].1@, target@, e.spec_message()));
                return Err(Error::ExecutionFailed(m));
            },
        }
        i = i + 1;
    }
    Ok(())
}

/// The message of a failed restore.
pub open spec fn restore_failed_message(target: Seq<char>, e: Seq<char>) -> Seq<char> {
    "failed to restore "@ + target + ": "@ + e
}

/// The restore calls for a list of targets, in order.
pub open spec fn restore_calls(targets: Seq<Seq<char>>) -> Seq<Call> {
    targets.map_values(|t: Seq<char>| Call::Restore(t))
}

/// Restore a list of targets in order, stopping at the first failure, which is reported
/// with its target.
pub fn restore_targets<W: Worker>(session: &mut Session<W>, targets: &[String]) -> (r: Result<()>)
    ensures
        final(session).worker == old(session).worker,
        extends(old(session).effects@, final(session).effects@),
        all_answered_by(&old(session).worker, old(session).effects@) ==> all_answered_by(
            &final(session).worker,
            final(session).effects@,
        ),
        ran_in_order(effects_since(old(session).effects@, final(session).effects@), restore_calls(strings_view(targets@))),
        r is Ok <==> all_ran(
            effects_since(old(session).effects@, final(session).effects@),
            restore_calls(strings_view(targets@)),
        ),
        r is Err ==> r matches Err(Error::ExecutionFailed(_)),
        r matches Err(Error::ExecutionFailed(m)) ==> exists|i: int, e: Error|
            0 <= i < targets@.len() && m@ == restore_failed_message(targets@[i]@, e.spec_message()),
{
    let ghost e0 = session.effects@;
    let ghost calls = restore_calls(strings_view(targets@));
    proof {
        lemma_effects_none(e0);
    }
    let mut i: usize = 0;
    while i < targets.len()
        invariant
            i <= targets@.len(),
            calls == restore_calls(strings_view(targets@)),
            calls.len() == targets@.len(),
            session.worker == old(session).worker,
            e0 == old(session).effects@,
            all_answered_by(&old(session).worker, old(session).effects@) ==> all_answered_by(&session.worker, session.effects@),
            extends(e0, session.effects@),
            effects_since(e0, session.effects@).len() == i,
            forall|k: int| 0 <= k < i ==> #[trigger] effects_since(e0, session.effects@)[k].0 == calls[k],
            forall|k: int| 0 <= k < i ==> #[trigger] effects_since(e0, session.effects@)[k].1 is Some,
        decreases targets@.len() - i,
    {
        let ghost before = session.effects@;
        let res = session.restore_file(targets[i].as_str());
        proof {
            lemma_effects_push(e0, before, (Call::Restore(targets@[i as int]@), done(res)));
            assert(calls[i as int] == Call::Restore(targets@[i as int]@));
        }
        match res {
            Ok(()) => {},
            Err(e) => {
                let mut m = "failed to restore ".to_owned();
                m.append(targets[i].as_str());
                m.append(": ");
                m.append(e.message().as_str());
                assert(m@ == restore_failed_message(targets@[i as int]@, e.spec_message()));
                return Err(Error::ExecutionFailed(m));
            },
        }
        i = i + 1;
    }
    Ok(())
}

/// The summary line of one applet: `  [<n>] <source> -> <target>`.
pub open spec fn summary_line(n: nat, src: Seq<char>, target: Seq<char>) -> Seq<char> {
    "  ["@ + decimal(n) + "] "@ + src + " -> "@ + target
}

/// The lines of an applet summary: a header, one line for each of the first `max_items`
/// applets (target under `/usr/bin`), then `  (…truncated)` if more remain.
pub open spec fn spec_applets_summary(
    prefix: Seq<char>,
    applets: Seq<(Seq<char>, Seq<char>)>,
    max_items: nat,
) -> Seq<Seq<char>> {
    let shown = if applets.len() <= max_items {
        applets.len()
    } else {
        max_items
    };
    seq!["Preparing to link "@ + decimal(applets.len()) + " applet(s) for "@ + prefix] + Seq::new(
        shown,
        |i: int| summary_line((i + 1) as nat, applets[i].1, spec_resolve_usrbin(applets[i].0)),
    ) + if applets.len() > max_items {
        seq!["  (…truncated)"@]
    } else {
        seq![]
    }
}

fn decimal_string(n: usize) -> (r: String)
    ensures
        r@ == decimal(n as nat),
{
    let d = u64_decimal(n as u64);
    string_from(d.as_slice())
}

/// The summary of the applets to be linked, as log lines.
pub fn log_applets_summary(prefix: &str, applets: &[(String, String)], max_items: usize) -> (r: Vec<String>)
    ensures
        strings_view(r@) == spec_applets_summary(prefix@, pairs_view(applets@), max_items as nat),
{
    let mut out: Vec<String> = Vec::new();
    let mut h = "Preparing to link ".to_owned();
    h.append(decimal_string(applets.len()).as_str());
    h.append(" applet(s) for ");
    h.append(prefix);
    out.push(h);
    let shown = if applets.len() <= max_items {
        applets.len()
    } else {
        max_items
    };
    let ghost pv = pairs_view(applets@);
    let mut i: usize = 0;
    while i < shown
        invariant
            i <= shown <= applets@.len(),
            pv == pairs_view(applets@),
            strings_view(out@) == seq!["Preparing to link "@ + decimal(applets@.len()) + " applet(s) for "@ + prefix@]
                + Seq::new(i as nat, |k: int| summary_line((k + 1) as nat, pv[k].1, spec_resolve_usrbin(pv[k].0))),
        decreases shown - i,
    {
        let target = resolve_usrbin(applets[i].0.as_str());
        let mut l = "  [".to_owned();
        l.append(decimal_string(i + 1).as_str());
        l.append("] ");
        l.append(applets[i].1.as_str());
        l.append(" -> ");
        l.append(target.as_str());
        assert(l@ == summary_line((i + 1) as nat, pv[i as int].1, spec_resolve_usrbin(pv[i as int].0)));
        let ghost o = out@;
        out.push(l);
        assert(strings_view(out@) =~= strings_view(o).push(l@));
        i = i + 1;
        assert(strings_view(out@) =~= seq!["Preparing to link "@ + decimal(applets@.len()) + " applet(s) for "@ + prefix@]
            + Seq::new(i as nat, |k: int| summary_line((k + 1) as nat, pv[k].1, spec_resolve_usrbin(pv[k].0))));
    }
    if applets.len() > max_items {
        let ghost o = out@;
        out.push("  (…truncated)".to_owned());
        assert(strings_view(out@) =~= strings_view(o) + seq!["  (…truncated)"@]);
    } else {
        assert(strings_view(out@) =~= strings_view(out@) + seq![]);
    }
    out
}

/// The message of a package missing after an install.
pub open spec fn not_installed_message(package: Seq<char>) -> Seq<char> {
    "package '"@ + package + "' not installed after operation"@
}

/// The message of a package still present after a removal.
pub open spec fn still_installed_message(package: Seq<char>) -> Seq<char> {
    "package '"@ + package + "' still installed after removal"@
}

/// The verdict on a package that should be installed, given whether it is.
pub fn installed_verdict(package: &str, installed: bool) -> (r: Result<()>)
    ensures
        installed ==> r is Ok,
        !installed ==> (r matches Err(Error::ExecutionFailed(m)) && m@ == not_installed_message(package@)),
{
    if installed {
        Ok(())
    } else {
        let mut m = "package '".to_owned();
        m.append(package);
        m.append("' not installed after operation");
        Err(Error::ExecutionFailed(m))
    }
}

/// The verdict on a package that should be removed, given whether it is still installed.
pub fn removed_verdict(package: &str, installed: bool) -> (r: Result<()>)
    ensures
        !installed ==> r is Ok,
        installed ==> (r matches Err(Error::ExecutionFailed(m)) && m@ == still_installed_message(package@)),
{
    if installed {
        let mut m = "package '".to_owned();
        m.append(package);
        m.append("' still installed after removal");
        Err(Error::ExecutionFailed(m))
    } else {
        Ok(())
    }
}

/// Verify a package is installed, asking the worker (see `installed_verdict`).
pub fn verify_installed<W: Worker>(session: &mut Session<W>, package: &str) -> (r: Result<()>)
    ensures
        final(session).worker == old(session).worker,
        all_answered_by(&old(session).worker, old(session).effects@) ==> all_answered_by(
            &final(session).worker,
            final(session).effects@,
        ),
        final(session).effects@.len() == old(session).effects@.len() + 1,
        final(session).effects@.drop_last() == old(session).effects@,
        final(session).effects@.last().0 == Call::CheckInstalled(package@),
        final(session).effects@.last().1 == Some(true) ==> r is Ok,
        final(session).effects@.last().1 == Some(false) ==> (r matches Err(Error::ExecutionFailed(m)) && m@
            == not_installed_message(package@)),
        final(session).effects@.last().1 is None ==> r is Err,
{
    let ghost e0 = session.effects@;
    let res = session.check_installed(package);
    assert(session.effects@.drop_last() =~= e0);
    let installed = res?;
    installed_verdict(package, installed)
}

/// Verify a package is removed, asking the worker (see `removed_verdict`).
pub fn verify_removed<W: Worker>(session: &mut Session<W>, package: &str) -> (r: Result<()>)
    ensures
        final(session).worker == old(session).worker,
        all_answered_by(&old(session).worker, old(session).effects@) ==> all_answered_by(
            &final(session).worker,
            final(session).effects@,
        ),
        final(session).effects@.len() == old(session).effects@.len() + 1,
        final(session).effects@.drop_last() == old(session).effects@,
        final(session).effects@.last().0 == Call::CheckInstalled(package@),
        final(session).effects@.last().1 == Some(false) ==> r is Ok,
        final(session).effects@.last().1 == Some(true) ==> (r matches Err(Error::ExecutionFailed(m)) && m@
            == still_installed_message(package@)),
        final(session).effects@.last().1 is None ==> r is Err,
{
    let ghost e0 = session.effects@;
    let res = session.check_installed(package);
    assert(session.effects@.drop_last() =~= e0);
    let installed = res?;
    removed_verdict(package, installed)
}

/// Prepare a package for an experiment: refresh the package databases when asked, pass
/// the download gate, and install the package. Nothing but those steps is recorded, and
/// success means each of them succeeded.
pub fn prepare_package<W: Worker>(session: &mut Session<W>, package: &str, assume_yes: bool, update_lists: bool) -> (r: Result<()>)
    ensures
        final(session).worker == old(session).worker,
        extends(old(session).effects@, final(session).effects@),
        all_answered_by(&old(session).worker, old(session).effects@) ==> all_answered_by(
            &final(session).worker,
            final(session).effects@,
        ),
        effects_since(old(session).effects@, final(session).effects@).len() <= setup_len(update_lists),
        forall|i: int|
            0 <= i < effects_since(old(session).effects@, final(session).effects@).len() ==> {
                let c = (#[trigger] effects_since(old(session).effects@, final(session).effects@)[i]).0;
                c == Call::Update || c == Call::CheckInstalled(package@) || c == Call::Install(package@)
            },
        setup_steps(effects_since(old(session).effects@, final(session).effects@), update_lists, package@),
        r is Ok <==> setup_done(effects_since(old(session).effects@, final(session).effects@), update_lists, package@),
        r is Ok ==> old(session).worker.spec_extra_repo() is Some && old(session).worker.spec_aur_helper() is Some
            && worker_download_failure(&old(session).worker, package@) is None,
        !update_lists && (old(session).worker.spec_extra_repo() is None || old(session).worker.spec_aur_helper() is None)
            ==> r is Err,
        !update_lists ==> (worker_download_failure(&old(session).worker, package@) matches Some(d) ==> (r matches Err(
            Error::RepoGateFailed { package: p, details: q },
        ) && p@ == package@ && q@ == d)),
{
    let ghost e0 = session.effects@;
    proof {
        lemma_effects_none(e0);
    }
    if update_lists {
        let res = session.update_packages(assume_yes);
        proof {
            lemma_effects_push(e0, e0, (Call::Update, done(res)));
        }
        res?;
    }
    let ghost e1 = session.effects@;
    let g = check_download_prerequisites(session, package, assume_yes);
    proof {
        lemma_effects_concat(e0, e1, session.effects@);
    }
    g?;
    let ghost e2 = session.effects@;
    let res = session.install_package(package, assume_yes);
    proof {
        lemma_effects_push(e0, e2, (Call::Install(package@), done(res)));
        if res is Ok {
            let e = effects_since(e0, session.effects@);
            let k = setup_len(update_lists) - 2;
            assert(e.len() == setup_len(update_lists));
            assert(e[k] == effects_since(e1, e2)[0]);
        }
    }
    res
}

/// Refresh the package databases when asked, then restore the targets in order: only a
/// refresh and restores are recorded, the run stops at the first failure, and success
/// means every step succeeded.
pub fn refresh_then_restore<W: Worker>(session: &mut Session<W>, targets: &[String], assume_yes: bool, update_lists: bool) -> (r: Result<()>)
    ensures
        final(session).worker == old(session).worker,
        extends(old(session).effects@, final(session).effects@),
        all_answered_by(&old(session).worker, old(session).effects@) ==> all_answered_by(
            &final(session).worker,
            final(session).effects@,
        ),
        refresh_then_run(
            effects_since(old(session).effects@, final(session).effects@),
            update_lists,
            restore_calls(strings_view(targets@)),
            r is Ok,
        ),
        !update_lists && r is Err ==> r matches Err(Error::ExecutionFailed(_)),
        !update_lists ==> (r matches Err(Error::ExecutionFailed(m)) ==> exists|i: int, e: Error|
            0 <= i < targets@.len() && m@ == restore_failed_message(targets@[i]@, e.spec_message())),
{
    let ghost e0 = session.effects@;
    proof {
        lemma_effects_none(e0);
    }
    if update_lists {
        let res = session.update_packages(assume_yes);
        proof {
            lemma_effects_push(e0, e0, (Call::Update, done(res)));
            assert(effects_since(e0, session.effects@) =~= seq![(Call::Update, done(res))]);
        }
        if res.is_err() {
            return res;
        }
    }
    let ghost e1 = session.effects@;
    let r = restore_targets(session, targets);
    proof {
        lemma_effects_concat(e0, e1, session.effects@);
        if update_lists {
            assert(effects_since(e0, session.effects@).skip(1) =~= effects_since(e1, session.effects@));
        } else {
            assert(effects_since(e0, e1) =~= Seq::<Effect>::empty());
            assert(effects_since(e0, session.effects@) =~= effects_since(e1, session.effects@));
        }
    }
    r
}

/// The link calls that put each (name, source) pair's source at the name under
/// `/usr/bin`, in order.
pub open spec fn usrbin_link_calls(applets: Seq<(Seq<char>, Seq<char>)>) -> Seq<Call> {
    applets.map_values(|a: (Seq<char>, Seq<char>)| Call::Link(a.1, spec_resolve_usrbin(a.0)))
}

/// The links for `pairs` under `/usr/bin` ran in order, stopping at the first failure;
/// `ok` exactly when every one of them was made.
pub open spec fn links_made(l: Seq<Effect>, pairs: Seq<(Seq<char>, Seq<char>)>, ok: bool) -> bool {
    ran_in_order(l, usrbin_link_calls(pairs)) && (ok <==> all_ran(l, usrbin_link_calls(pairs)))
}

/// What the search path finds for `name`, when it finds something.
pub open spec fn which_found<W: Worker>(w: &W, name: Seq<char>) -> Option<Seq<char>> {
    match w.spec_which(name) {
        Some(Some(p)) => Some(p),
        _ => None,
    }
}

/// The first of `cands` that exists.
pub open spec fn first_existing<W: Worker>(w: &W, cands: Seq<Seq<char>>) -> Option<Seq<char>>
    decreases cands.len(),
{
    if cands.len() == 0 {
        None
    } else if w.spec_path_exists(cands[0]) {
        Some(cands[0])
    } else {
        first_existing(w, cands.skip(1))
    }
}

/// The source of an applet: the first of its candidates that exists, else what the
/// search path finds for `name`.
pub open spec fn applet_source<W: Worker>(w: &W, name: Seq<char>, cands: Seq<Seq<char>>) -> Option<Seq<char>> {
    match first_existing(w, cands) {
        Some(p) => Some(p),
        None => which_found(w, name),
    }
}

/// The (name, source) pairs of the names that have a source, in order.
pub open spec fn spec_sources<W: Worker>(
    w: &W,
    names: Seq<Seq<char>>,
    cands: spec_fn(Seq<char>) -> Seq<Seq<char>>,
    search: bool,
) -> Seq<(Seq<char>, Seq<char>)>
    decreases names.len(),
{
    if names.len() == 0 {
        seq![]
    } else {
        let n = names.last();
        let src = if search {
            applet_source(w, n, cands(n))
        } else {
            first_existing(w, cands(n))
        };
        spec_sources(w, names.drop_last(), cands, search) + match src {
            Some(s) => seq![(n, s)],
            None => seq![],
        }
    }
}

/// The sources of the first `i + 1` names: those of the first `i`, then the `i`-th name
/// with its source, when it has one.
pub proof fn lemma_sources_step<W: Worker>(
    w: &W,
    names: Seq<Seq<char>>,
    i: int,
    cands: spec_fn(Seq<char>) -> Seq<Seq<char>>,
    search: bool,
)
    requires
        0 <= i < names.len(),
    ensures
        spec_sources(w, names.take(i + 1), cands, search) == spec_sources(w, names.take(i), cands, search) + match (
        if search {
            applet_source(w, names[i], cands(names[i]))
        } else {
            first_existing(w, cands(names[i]))
        }) {
            Some(s) => seq![(names[i], s)],
            None => Seq::<(Seq<char>, Seq<char>)>::empty(),
        },
{
    assert(names.take(i + 1).drop_last() =~= names.take(i));
    assert(names.take(i + 1).last() == names[i]);
}

/// Every name in the sources is one of `names`.
pub proof fn lemma_sources_names<W: Worker>(
    w: &W,
    names: Seq<Seq<char>>,
    cands: spec_fn(Seq<char>) -> Seq<Seq<char>>,
    search: bool,
)
    ensures
        forall|i: int|
            0 <= i < spec_sources(w, names, cands, search).len() ==> names.contains(
                #[trigger] spec_sources(w, names, cands, search)[i].0,
            ),
    decreases names.len(),
{
    if names.len() > 0 {
        let front = names.drop_last();
        lemma_sources_names(w, front, cands, search);
        let s = spec_sources(w, names, cands, search);
        let f = spec_sources(w, front, cands, search);
        assert forall|i: int| 0 <= i < s.len() implies names.contains(#[trigger] s[i].0) by {
            if i < f.len() {
                assert(s[i] == f[i]);
                let j = choose|j: int| 0 <= j < front.len() && front[j] == f[i].0;
                assert(names[j] == front[j]);
            } else {
                assert(s[i].0 == names.last());
                assert(names[names.len() - 1] == names.last());
            }
        }
    }
}

/// Links made for `pairs` under `/usr/bin` are onto targets that `allowed` accepts when
/// each pair's name under `/usr/bin` is accepted.
pub proof fn lemma_links_made_onto(
    l: Seq<Effect>,
    pairs: Seq<(Seq<char>, Seq<char>)>,
    ok: bool,
    allowed: spec_fn(Seq<char>) -> bool,
)
    requires
        links_made(l, pairs, ok),
        forall|i: int| 0 <= i < pairs.len() ==> allowed(spec_resolve_usrbin(#[trigger] pairs[i].0)),
    ensures
        links_onto(l, allowed),
{
    assert forall|i: int| 0 <= i < l.len() implies match (#[trigger] l[i]).0 {
        Call::Link(_, t) => allowed(t),
        _ => true,
    } by {
        assert(l[i].0 == usrbin_link_calls(pairs)[i]);
        assert(usrbin_link_calls(pairs)[i] == Call::Link(pairs[i].1, spec_resolve_usrbin(pairs[i].0)));
    }
}

/// The (target, source) slots of links for (name, source) pairs under `/usr/bin`.
pub open spec fn usrbin_slots(pairs: Seq<(Seq<char>, Seq<char>)>) -> Seq<(Seq<char>, Seq<char>)> {
    pairs.map_values(|p: (Seq<char>, Seq<char>)| (spec_resolve_usrbin(p.0), p.1))
}

/// On the file model, links made for `pairs` under `/usr/bin`, then restores of their
/// targets in the same order, give every linked target back what it held; making the
/// links again changes nothing.
pub proof fn lemma_slots_undo(fs: Map<Seq<char>, Entry>, pairs: Seq<(Seq<char>, Seq<char>)>)
    requires
        slots_apart(usrbin_slots(pairs)),
        restorable(fs, usrbin_slots(pairs)),
    ensures
        forall|i: int|
            0 <= i < pairs.len() ==> entry_at(
                disable_all(enable_all(fs, usrbin_slots(pairs)), targets_of(usrbin_slots(pairs))),
                spec_resolve_usrbin(#[trigger] pairs[i].0),
            ) == entry_at(fs, spec_resolve_usrbin(pairs[i].0)),
        enable_all(enable_all(fs, usrbin_slots(pairs)), usrbin_slots(pairs)) == enable_all(fs, usrbin_slots(pairs)),
{
    let s = usrbin_slots(pairs);
    law_disable_undoes_enable(fs, s);
    law_enable_idempotent(fs, s);
    assert forall|i: int| 0 <= i < pairs.len() implies entry_at(
        disable_all(enable_all(fs, s), targets_of(s)),
        spec_resolve_usrbin(#[trigger] pairs[i].0),
    ) == entry_at(fs, spec_resolve_usrbin(pairs[i].0)) by {
        assert(s[i].0 == spec_resolve_usrbin(pairs[i].0));
    }
}

/// In an enable, the setup makes no link, so every link is one that follows the setup.
pub proof fn lemma_enable_links_onto(
    e: Seq<Effect>,
    update_lists: bool,
    package: Seq<char>,
    ok: bool,
    after: spec_fn(Seq<Effect>) -> bool,
    allowed: spec_fn(Seq<char>) -> bool,
)
    requires
        enable_ran(e, update_lists, package, ok, after),
        e.len() >= setup_len(update_lists) && after(e.skip(setup_len(update_lists))) ==> links_onto(
            e.skip(setup_len(update_lists)),
            allowed,
        ),
    ensures
        links_onto(e, allowed),
{
    let n = setup_len(update_lists);
    if e.len() >= n && setup_done(e.take(n), update_lists, package) && after(e.skip(n)) {
        assert forall|i: int| 0 <= i < e.len() implies match (#[trigger] e[i]).0 {
            Call::Link(_, t) => allowed(t),
            _ => true,
        } by {
            if i < n {
                assert(e[i] == e.take(n)[i]);
                if update_lists {
                    assert(i == 0 || i == 1 || i == 2);
                } else {
                    assert(i == 0 || i == 1);
                }
            } else {
                assert(e[i] == e.skip(n)[i - n]);
            }
        }
    } else {
        assert forall|i: int| 0 <= i < e.len() implies match (#[trigger] e[i]).0 {
            Call::Link(_, t) => allowed(t),
            _ => true,
        } by {
            let c = e[i].0;
            assert(c == Call::Update || c == Call::CheckInstalled(package) || c == Call::Install(package));
        }
    }
}

/// The first of `cands` that exists.
pub fn find_first_existing<W: Worker>(worker: &W, cands: &[String]) -> (r: Option<String>)
    ensures
        match r {
            Some(p) => first_existing(worker, strings_view(cands@)) == Some(p@),
            None => first_existing(worker, strings_view(cands@)) is None,
        },
{
    let ghost cv = strings_view(cands@);
    assert(cv.skip(0) =~= cv);
    let mut k: usize = 0;
    while k < cands.len()
        invariant
            k <= cands@.len(),
            cv == strings_view(cands@),
            first_existing(worker, cv) == first_existing(worker, cv.skip(k as int)),
        decreases cands@.len() - k,
    {
        proof {
            assert(cv.skip(k as int)[0] == cands@[k as int]@);
            assert(cv.skip(k as int).skip(1) =~= cv.skip(k + 1));
        }
        if worker.path_exists(cands[k].as_str()) {
            return Some(cands[k].clone());
        }
        k = k + 1;
    }
    assert(cv.skip(k as int).len() == 0);
    None
}

/// The source of an applet: the first candidate that exists, else what the search path
/// finds for `name`.
pub fn find_applet_source<W: Worker>(worker: &W, name: &str, cands: &[String]) -> (r: Option<String>)
    ensures
        match r {
            Some(p) => applet_source(worker, name@, strings_view(cands@)) == Some(p@),
            None => applet_source(worker, name@, strings_view(cands@)) is None,
        },
{
    match find_first_existing(worker, cands) {
        Some(p) => Some(p),
        None => match worker.which(name) {
            Ok(Some(p)) => Some(p),
            _ => None,
        },
    }
}

/// Link each (name, source) applet's source at the name under `/usr/bin`, in order,
/// stopping at the first failure; success means every link was made.
pub fn link_under_usrbin<W: Worker>(session: &mut Session<W>, applets: &[(String, String)]) -> (r: Result<()>)
    ensures
        final(session).worker == old(session).worker,
        extends(old(session).effects@, final(session).effects@),
        all_answered_by(&old(session).worker, old(session).effects@) ==> all_answered_by(
            &final(session).worker,
            final(session).effects@,
        ),
        ran_in_order(
            effects_since(old(session).effects@, final(session).effects@),
            usrbin_link_calls(pairs_view(applets@)),
        ),
        r is Ok <==> all_ran(
            effects_since(old(session).effects@, final(session).effects@),
            usrbin_link_calls(pairs_view(applets@)),
        ),
{
    let resolve = |name: &str| -> (t: String)
        ensures
            t@ == spec_resolve_usrbin(name@),
        { resolve_usrbin(name) };
    let r = create_symlinks(session, applets, resolve);
    proof {
        let e = effects_since(old(session).effects@, session.effects@);
        let pv = pairs_view(applets@);
        let calls = usrbin_link_calls(pv);
        assert forall|i: int| 0 <= i < e.len() implies #[trigger] e[i].0 == calls[i] by {
            assert(link_for(e[i], pv[i], resolve));
            if let Call::Link(src, t) = e[i].0 {
                let (n, ts) = choose|n: &str, ts: String|
                    n@ == pv[i].0 && #[trigger] call_ensures(resolve, (n,), ts) && ts@ == t;
                assert(t == spec_resolve_usrbin(pv[i].0));
            }
        }
    }
    r
}

/// Links recorded as all made, each answered by the worker, were made by the worker: for
/// each (name, source) pair, the worker answered success to swapping the name's place
/// under `/usr/bin` for a link to that source (not the other way round).
pub proof fn law_links_made_by_worker<W: Worker>(w: &W, l: Seq<Effect>, pairs: Seq<(Seq<char>, Seq<char>)>)
    requires
        all_answered_by(w, l),
        links_made(l, pairs, true),
    ensures
        forall|i: int|
            0 <= i < pairs.len() ==> link_answered(w, #[trigger] pairs[i].1, spec_resolve_usrbin(pairs[i].0), Some(true)),
{
    let calls = usrbin_link_calls(pairs);
    assert forall|i: int| 0 <= i < pairs.len() implies link_answered(w, #[trigger] pairs[i].1, spec_resolve_usrbin(pairs[i].0), Some(true)) by {
        assert(l[i].0 == calls[i]);
        assert(calls[i] == Call::Link(pairs[i].1, spec_resolve_usrbin(pairs[i].0)));
        assert(answered_by(w, l[i]));
        assert(l[i].1 is Some);
        let r = choose|r: Result<()>| #[trigger] w.spec_link_outcome(pairs[i].1, spec_resolve_usrbin(pairs[i].0), r) && done(r)
            == l[i].1;
        assert(r is Ok);
    }
}

/// Restores recorded as all made, each answered by the worker, were made by the worker:
/// for each target, in order, the worker answered success to restoring that target.
pub proof fn law_restores_made_by_worker<W: Worker>(w: &W, l: Seq<Effect>, targets: Seq<Seq<char>>)
    requires
        all_answered_by(w, l),
        ran_in_order(l, restore_calls(targets)),
        all_ran(l, restore_calls(targets)),
    ensures
        forall|i: int| 0 <= i < targets.len() ==> restore_answered(w, #[trigger] targets[i], Some(true)),
{
    let calls = restore_calls(targets);
    assert forall|i: int| 0 <= i < targets.len() implies restore_answered(w, #[trigger] targets[i], Some(true)) by {
        assert(l[i].0 == calls[i]);
        assert(calls[i] == Call::Restore(targets[i]));
        assert(answered_by(w, l[i]));
        assert(l[i].1 is Some);
        let r = choose|r: Result<()>| #[trigger] w.spec_restore_outcome(targets[i], r) && done(r) == l[i].1;
        assert(r is Ok);
    }
}

/// A successful setup for `package`, each step answered by the worker: the worker
/// answered success to installing exactly that package (and to the refresh when asked
/// for), and answered the installed query for it.
pub proof fn law_setup_made_by_worker<W: Worker>(w: &W, p: Seq<Effect>, update_lists: bool, package: Seq<char>)
    requires
        all_answered_by(w, p),
        setup_done(p, update_lists, package),
    ensures
        exists|y: bool, r: Result<()>| #[trigger] w.spec_install_outcome(package, y, r) && r is Ok,
        exists|q: Result<bool>| #[trigger] w.spec_installed_answer(package, q) && q is Ok,
        update_lists ==> exists|y: bool, r: Result<()>| #[trigger] w.spec_update_outcome(y, r) && r is Ok,
{
    let k = setup_len(update_lists) - 2;
    assert(answered_by(w, p[k + 1]));
    assert(answered_by(w, p[k]));
    if update_lists {
        assert(answered_by(w, p[0]));
    }
}

/// A remove recorded as successful, each step answered by the worker: the worker
/// answered success to removing exactly `package`, and then answered that it is not
/// installed.
pub proof fn law_remove_made_by_worker<W: Worker>(
    w: &W,
    e: Seq<Effect>,
    disable: spec_fn(Seq<Effect>, bool) -> bool,
    package: Seq<char>,
)
    requires
        all_answered_by(w, e),
        remove_ran(e, disable, package, Ok(())),
    ensures
        exists|y: bool, r: Result<()>| #[trigger] w.spec_remove_outcome(package, y, r) && r is Ok,
        w.spec_installed_answer(package, Ok(false)),
{
    let n = e.len();
    assert(answered_by(w, e[n - 2]));
    assert(answered_by(w, e[n - 1]));
    let q = choose|q: Result<bool>| #[trigger] w.spec_installed_answer(package, q) && answer(q) == e[n - 1].1;
    assert(q == Ok::<bool, Error>(false));
}

} // verus!
