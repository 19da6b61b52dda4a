//! A session with a worker: every call that changes the system (and the installed and
//! symlink checks whose answers decide an operation) is recorded, with its outcome, so
//! that an operation can state what it did.

use vstd::prelude::*;
use crate::error::{Error, Result};
use crate::experiments::util::still_installed_message;
use crate::utils::worker::Worker;

verus! {

/// A call made through a session.
pub enum Call {
    /// Refresh the package databases.
    Update,
    /// Install a package.
    Install(Seq<char>),
    /// Remove a package.
    Remove(Seq<char>),
    /// Ask whether a package is installed.
    CheckInstalled(Seq<char>),
    /// Swap a target (second) for a symlink to a source (first), with a backup.
    Link(Seq<char>, Seq<char>),
    /// Restore a target from its backup.
    Restore(Seq<char>),
    /// Put a symlink to a source (first) at a path (second), without backup.
    ForceLink(Seq<char>, Seq<char>),
    /// Copy a file (first) to a path (second), keeping its permissions.
    Copy(Seq<char>, Seq<char>),
    /// Ask whether a path is a symlink.
    LinkStatus(Seq<char>),
}

/// A recorded call and its outcome: `None` when the call failed, `Some(true)` for an
/// operation that succeeded, and `Some(answer)` for a question answered.
pub type Effect = (Call, Option<bool>);

/// The outcome of an operation.
pub open spec fn done(r: Result<()>) -> Option<bool> {
    match r {
        Ok(()) => Some(true),
        Err(_) => None,
    }
}

/// The outcome recorded for an answer to a check: the answer, or `None` when the check
/// failed.
pub open spec fn answer<E>(r: core::result::Result<bool, E>) -> Option<bool> {
    match r {
        Ok(b) => Some(b),
        Err(_) => None,
    }
}

/// The outcome recorded for a call that returns nothing: `Some(true)` on success.
pub open spec fn done_with<E>(r: core::result::Result<(), E>) -> Option<bool> {
    match r {
        Ok(()) => Some(true),
        Err(_) => None,
    }
}

/// The worker can answer a refresh with the outcome `o`.
pub open spec fn update_answered<W: Worker>(w: &W, o: Option<bool>) -> bool {
    exists|y: bool, r: Result<()>| #[trigger] w.spec_update_outcome(y, r) && done(r) == o
}

/// The worker can answer the install of `p` with the outcome `o`.
pub open spec fn install_answered<W: Worker>(w: &W, p: Seq<char>, o: Option<bool>) -> bool {
    exists|y: bool, r: Result<()>| #[trigger] w.spec_install_outcome(p, y, r) && done(r) == o
}

/// The worker can answer the removal of `p` with the outcome `o`.
pub open spec fn remove_answered<W: Worker>(w: &W, p: Seq<char>, o: Option<bool>) -> bool {
    exists|y: bool, r: Result<()>| #[trigger] w.spec_remove_outcome(p, y, r) && done(r) == o
}

/// The worker can answer whether `p` is installed with `o`.
pub open spec fn installed_answered<W: Worker>(w: &W, p: Seq<char>, o: Option<bool>) -> bool {
    exists|r: Result<bool>| #[trigger] w.spec_installed_answer(p, r) && answer(r) == o
}

/// The worker can answer the swap of `t` for a link to `s` with the outcome `o`.
pub open spec fn link_answered<W: Worker>(w: &W, s: Seq<char>, t: Seq<char>, o: Option<bool>) -> bool {
    exists|r: Result<()>| #[trigger] w.spec_link_outcome(s, t, r) && done(r) == o
}

/// The worker can answer the restore of `t` with the outcome `o`.
pub open spec fn restore_answered<W: Worker>(w: &W, t: Seq<char>, o: Option<bool>) -> bool {
    exists|r: Result<()>| #[trigger] w.spec_restore_outcome(t, r) && done(r) == o
}

/// The worker can answer putting a link to `s` at `l` with the outcome `o`.
pub open spec fn force_link_answered<W: Worker>(w: &W, s: Seq<char>, l: Seq<char>, o: Option<bool>) -> bool {
    exists|r: core::result::Result<(), String>| #[trigger] w.spec_force_link_outcome(s, l, r) && done_with(r) == o
}

/// The worker can answer copying `f` to `t` with the outcome `o`.
pub open spec fn copy_answered<W: Worker>(w: &W, f: Seq<char>, t: Seq<char>, o: Option<bool>) -> bool {
    exists|r: core::result::Result<(), String>| #[trigger] w.spec_copy_outcome(f, t, r) && done_with(r) == o
}

/// The worker can answer whether `p` is a symlink with `o`.
pub open spec fn status_answered<W: Worker>(w: &W, p: Seq<char>, o: Option<bool>) -> bool {
    exists|r: core::result::Result<bool, String>| #[trigger] w.spec_link_status(p, r) && answer(r) == o
}

/// The worker can answer the recorded call, with the recorded arguments, with an answer
/// whose outcome is the recorded one.
pub open spec fn answered_by<W: Worker>(w: &W, e: Effect) -> bool {
    match e.0 {
        Call::Update => update_answered(w, e.1),
        Call::Install(p) => install_answered(w, p, e.1),
        Call::Remove(p) => remove_answered(w, p, e.1),
        Call::CheckInstalled(p) => installed_answered(w, p, e.1),
        Call::Link(s, t) => link_answered(w, s, t, e.1),
        Call::Restore(t) => restore_answered(w, t, e.1),
        Call::ForceLink(s, l) => force_link_answered(w, s, l, e.1),
        Call::Copy(f, t) => copy_answered(w, f, t, e.1),
        Call::LinkStatus(p) => status_answered(w, p, e.1),
    }
}

/// Every recorded effect is one the worker answered (see `answered_by`).
pub open spec fn all_answered_by<W: Worker>(w: &W, e: Seq<Effect>) -> bool {
    forall|i: int| 0 <= i < e.len() ==> answered_by(w, #[trigger] e[i])
}

/// What was recorded since an earlier point was answered by the worker when the whole
/// record was.
pub proof fn lemma_answered_since<W: Worker>(w: &W, old: Seq<Effect>, new: Seq<Effect>)
    requires
        extends(old, new),
        all_answered_by(w, new),
    ensures
        all_answered_by(w, effects_since(old, new)),
{
    assert forall|i: int| 0 <= i < effects_since(old, new).len() implies answered_by(
        w,
        #[trigger] effects_since(old, new)[i],
    ) by {
        assert(effects_since(old, new)[i] == new[old.len() + i]);
    }
}

/// A worker and the record of what was done through it.
pub struct Session<W: Worker> {
    pub worker: W,
    pub effects: Ghost<Seq<Effect>>,
}

/// The effects recorded from `old` on, in `new`.
pub open spec fn effects_since(old: Seq<Effect>, new: Seq<Effect>) -> Seq<Effect> {
    new.subrange(old.len() as int, new.len() as int)
}

/// `new` is `old` with more effects recorded after it.
pub open spec fn extends(old: Seq<Effect>, new: Seq<Effect>) -> bool {
    old.len() <= new.len() && new.subrange(0, old.len() as int) == old
}

/// The effects are the calls `calls`, made in order, each after the previous one
/// succeeded: the run stops after the first failure.
pub open spec fn ran_in_order(e: Seq<Effect>, calls: Seq<Call>) -> bool {
    &&& e.len() <= calls.len()
    &&& forall|i: int| 0 <= i < e.len() ==> #[trigger] e[i].0 == calls[i]
    &&& forall|i: int| 0 <= i < e.len() - 1 ==> #[trigger] e[i].1 is Some
    &&& e.len() < calls.len() ==> e.len() > 0 && e.last().1 is None
}

/// Every one of `calls` ran and succeeded.
pub open spec fn all_ran(e: Seq<Effect>, calls: Seq<Call>) -> bool {
    e.len() == calls.len() && forall|i: int| 0 <= i < e.len() ==> #[trigger] e[i].1 is Some
}

/// A package-database refresh first when asked for, then `calls` in order: a failed
/// refresh ends the run; `ok` holds exactly when everything ran and succeeded.
pub open spec fn refresh_then_run(e: Seq<Effect>, update_lists: bool, calls: Seq<Call>, ok: bool) -> bool {
    if update_lists {
        &&& e.len() > 0
        &&& e[0].0 == Call::Update
        &&& if e[0].1 is None {
            e.len() == 1 && !ok
        } else {
            ran_in_order(e.skip(1), calls) && (ok <==> all_ran(e.skip(1), calls))
        }
    } else {
        ran_in_order(e, calls) && (ok <==> all_ran(e, calls))
    }
}

impl<W: Worker> Session<W> {
    /// A session with nothing done yet.
    pub fn new(worker: W) -> (s: Self)
        ensures
            s.worker == worker,
            s.effects@ == Seq::<Effect>::empty(),
            all_answered_by(&s.worker, s.effects@),
    {
        Session { worker, effects: Ghost(Seq::empty()) }
    }

    /// Refresh the package databases.
    pub fn update_packages(&mut self, assume_yes: bool) -> (r: Result<()>)
        ensures
            final(self).worker == old(self).worker,
            final(self).effects@ == old(self).effects@.push((Call::Update, done(r))),
            old(self).worker.spec_update_outcome(assume_yes, r),
            answered_by(&old(self).worker, final(self).effects@.last()),
            all_answered_by(&old(self).worker, old(self).effects@) ==> all_answered_by(
                &final(self).worker,
                final(self).effects@,
            ),
    {
        let r = self.worker.update_packages(assume_yes);
        self.effects = Ghost(self.effects@.push((Call::Update, done(r))));
        assert(answered_by(&self.worker, (Call::Update, done(r))));
        r
    }

    /// Install a package.
    pub fn install_package(&mut self, package: &str, assume_yes: bool) -> (r: Result<()>)
        ensures
            final(self).worker == old(self).worker,
            final(self).effects@ == old(self).effects@.push((Call::Install(package@), done(r))),
            old(self).worker.spec_install_outcome(package@, assume_yes, r),
            answered_by(&old(self).worker, final(self).effects@.last()),
            all_answered_by(&old(self).worker, old(self).effects@) ==> all_answered_by(
                &final(self).worker,
                final(self).effects@,
            ),
    {
        let r = self.worker.install_package(package, assume_yes);
        self.effects = Ghost(self.effects@.push((Call::Install(package@), done(r))));
        assert(install_answered(&self.worker, package@, done(r)));
        assert(answered_by(&self.worker, (Call::Install(package@), done(r))));
        r
    }

    /// Remove a package.
    pub fn remove_package(&mut self, package: &str, assume_yes: bool) -> (r: Result<()>)
        ensures
            final(self).worker == old(self).worker,
            final(self).effects@ == old(self).effects@.push((Call::Remove(package@), done(r))),
            old(self).worker.spec_remove_outcome(package@, assume_yes, r),
            answered_by(&old(self).worker, final(self).effects@.last()),
            all_answered_by(&old(self).worker, old(self).effects@) ==> all_answered_by(
                &final(self).worker,
                final(self).effects@,
            ),
    {
        let r = self.worker.remove_package(package, assume_yes);
        self.effects = Ghost(self.effects@.push((Call::Remove(package@), done(r))));
        assert(remove_answered(&self.worker, package@, done(r)));
        assert(answered_by(&self.worker, (Call::Remove(package@), done(r))));
        r
    }

    /// Whether a package is installed.
    pub fn check_installed(&mut self, package: &str) -> (r: Result<bool>)
        ensures
            final(self).worker == old(self).worker,
            final(self).effects@ == old(self).effects@.push(
                (
                    Call::CheckInstalled(package@),
                    match r {
                        Ok(b) => Some(b),
                        Err(_) => None,
                    },
                ),
            ),
            old(self).worker.spec_installed_answer(package@, r),
            answered_by(&old(self).worker, final(self).effects@.last()),
            all_answered_by(&old(self).worker, old(self).effects@) ==> all_answered_by(
                &final(self).worker,
                final(self).effects@,
            ),
    {
        let r = self.worker.check_installed(package);
        let ghost o = match r {
            Ok(b) => Some(b),
            Err(_) => None,
        };
        self.effects = Ghost(self.effects@.push((Call::CheckInstalled(package@), o)));
        assert(installed_answered(&self.worker, package@, o));
        assert(answered_by(&self.worker, (Call::CheckInstalled(package@), o)));
        r
    }

    /// Swap `target` for a symlink to `source`, backing it up.
    pub fn replace_file_with_symlink(&mut self, source: &str, target: &str) -> (r: Result<()>)
        ensures
            final(self).worker == old(self).worker,
            final(self).effects@ == old(self).effects@.push((Call::Link(source@, target@), done(r))),
            old(self).worker.spec_link_outcome(source@, target@, r),
            answered_by(&old(self).worker, final(self).effects@.last()),
            all_answered_by(&old(self).worker, old(self).effects@) ==> all_answered_by(
                &final(self).worker,
                final(self).effects@,
            ),
    {
        let r = self.worker.replace_file_with_symlink(source, target);
        self.effects = Ghost(self.effects@.push((Call::Link(source@, target@), done(r))));
        assert(link_answered(&self.worker, source@, target@, done(r)));
        assert(answered_by(&self.worker, (Call::Link(source@, target@), done(r))));
        r
    }

    /// Restore `target` from its backup.
    pub fn restore_file(&mut self, target: &str) -> (r: Result<()>)
        ensures
            final(self).worker == old(self).worker,
            final(self).effects@ == old(self).effects@.push((Call::Restore(target@), done(r))),
            old(self).worker.spec_restore_outcome(target@, r),
            answered_by(&old(self).worker, final(self).effects@.last()),
            all_answered_by(&old(self).worker, old(self).effects@) ==> all_answered_by(
                &final(self).worker,
                final(self).effects@,
            ),
    {
        let r = self.worker.restore_file(target);
        self.effects = Ghost(self.effects@.push((Call::Restore(target@), done(r))));
        assert(restore_answered(&self.worker, target@, done(r)));
        assert(answered_by(&self.worker, (Call::Restore(target@), done(r))));
        r
    }

    /// Put a symlink to `source` at `link`, without backup.
    pub fn force_symlink(&mut self, source: &str, link: &str) -> (r: core::result::Result<(), String>)
        ensures
            final(self).worker == old(self).worker,
            final(self).effects@ == old(self).effects@.push(
                (
                    Call::ForceLink(source@, link@),
                    match r {
                        Ok(()) => Some(true),
                        Err(_) => None,
                    },
                ),
            ),
            old(self).worker.spec_force_link_outcome(source@, link@, r),
            answered_by(&old(self).worker, final(self).effects@.last()),
            all_answered_by(&old(self).worker, old(self).effects@) ==> all_answered_by(
                &final(self).worker,
                final(self).effects@,
            ),
    {
        let r = self.worker.force_symlink(source, link);
        let ghost o = match r {
            Ok(()) => Some(true),
            Err(_) => None,
        };
        self.effects = Ghost(self.effects@.push((Call::ForceLink(source@, link@), o)));
        assert(force_link_answered(&self.worker, source@, link@, o));
        assert(answered_by(&self.worker, (Call::ForceLink(source@, link@), o)));
        r
    }

    /// Copy a file, keeping its permissions.
    pub fn copy_file_with_permissions(&mut self, from: &str, to: &str) -> (r: core::result::Result<(), String>)
        ensures
            final(self).worker == old(self).worker,
            final(self).effects@ == old(self).effects@.push(
                (
                    Call::Copy(from@, to@),
                    match r {
                        Ok(()) => Some(true),
                        Err(_) => None,
                    },
                ),
            ),
            old(self).worker.spec_copy_outcome(from@, to@, r),
            answered_by(&old(self).worker, final(self).effects@.last()),
            all_answered_by(&old(self).worker, old(self).effects@) ==> all_answered_by(
                &final(self).worker,
                final(self).effects@,
            ),
    {
        let r = self.worker.copy_file_with_permissions(from, to);
        let ghost o = match r {
            Ok(()) => Some(true),
            Err(_) => None,
        };
        self.effects = Ghost(self.effects@.push((Call::Copy(from@, to@), o)));
        assert(copy_answered(&self.worker, from@, to@, o));
        assert(answered_by(&self.worker, (Call::Copy(from@, to@), o)));
        r
    }

    /// Whether the path itself is a symlink.
    pub fn symlink_status(&mut self, path: &str) -> (r: core::result::Result<bool, String>)
        ensures
            final(self).worker == old(self).worker,
            final(self).effects@ == old(self).effects@.push(
                (
                    Call::LinkStatus(path@),
                    match r {
                        Ok(b) => Some(b),
                        Err(_) => None,
                    },
                ),
            ),
            old(self).worker.spec_link_status(path@, r),
            answered_by(&old(self).worker, final(self).effects@.last()),
            all_answered_by(&old(self).worker, old(self).effects@) ==> all_answered_by(
                &final(self).worker,
                final(self).effects@,
            ),
    {
        let r = self.worker.symlink_status(path);
        let ghost o = match r {
            Ok(b) => Some(b),
            Err(_) => None,
        };
        self.effects = Ghost(self.effects@.push((Call::LinkStatus(path@), o)));
        assert(status_answered(&self.worker, path@, o));
        assert(answered_by(&self.worker, (Call::LinkStatus(path@), o)));
        r
    }
}

/// The number of steps before linking starts in an enable: the refresh when asked for,
/// the installed query of the download gate, and the install.
pub open spec fn setup_len(update_lists: bool) -> int {
    if update_lists {
        3
    } else {
        2
    }
}

/// A successful setup for installing `package`: the refresh when asked for, the installed
/// query (answered), and the install.
pub open spec fn setup_done(p: Seq<Effect>, update_lists: bool, package: Seq<char>) -> bool {
    let k: int = setup_len(update_lists) - 2;
    &&& p.len() == setup_len(update_lists)
    &&& update_lists ==> p[0] == (Call::Update, Some(true))
    &&& p[k].0 == Call::CheckInstalled(package) && p[k].1 is Some
    &&& p[k + 1] == (Call::Install(package), Some(true))
}

/// Only setup steps for `package` are recorded, no more of them than a setup makes.
pub open spec fn setup_steps(p: Seq<Effect>, update_lists: bool, package: Seq<char>) -> bool {
    &&& p.len() <= setup_len(update_lists)
    &&& forall|i: int|
        0 <= i < p.len() ==> {
            let c = (#[trigger] p[i]).0;
            c == Call::Update || c == Call::CheckInstalled(package) || c == Call::Install(package)
        }
}

/// An enable of `package`: either the setup stopped (only setup steps recorded, and `ok`
/// false), or it succeeded and what followed it satisfies `after`.
pub open spec fn enable_ran(
    e: Seq<Effect>,
    update_lists: bool,
    package: Seq<char>,
    ok: bool,
    after: spec_fn(Seq<Effect>) -> bool,
) -> bool {
    ||| setup_steps(e, update_lists, package) && !setup_done(e, update_lists, package) && !ok
    ||| e.len() >= setup_len(update_lists) && setup_done(e.take(setup_len(update_lists)), update_lists, package)
        && after(e.skip(setup_len(update_lists)))
}

/// Every link recorded is made onto a target that `allowed` accepts.
pub open spec fn links_onto(e: Seq<Effect>, allowed: spec_fn(Seq<char>) -> bool) -> bool {
    forall|i: int| 0 <= i < e.len() ==> match (#[trigger] e[i]).0 {
        Call::Link(_, t) => allowed(t),
        _ => true,
    }
}

/// Effects recorded over two calls in a row are the first call's, then the second's.
pub proof fn lemma_effects_concat(a: Seq<Effect>, b: Seq<Effect>, c: Seq<Effect>)
    requires
        extends(a, b),
        extends(b, c),
    ensures
        extends(a, c),
        effects_since(a, c) == effects_since(a, b) + effects_since(b, c),
{
    assert(c.subrange(0, a.len() as int) =~= b.subrange(0, a.len() as int));
    assert(effects_since(a, c) =~= effects_since(a, b) + effects_since(b, c));
}

/// A session that recorded nothing new.
pub proof fn lemma_effects_none(a: Seq<Effect>)
    ensures
        extends(a, a),
        effects_since(a, a) == Seq::<Effect>::empty(),
{
    assert(a.subrange(0, a.len() as int) =~= a);
    assert(effects_since(a, a) =~= Seq::<Effect>::empty());
}

/// A successful refresh first when asked for (else nothing), then more effects: the
/// whole is the refresh, then those effects.
pub proof fn lemma_refresh_prefix(e0: Seq<Effect>, e1: Seq<Effect>, ex: Seq<Effect>, update_lists: bool)
    requires
        extends(e0, e1),
        extends(e1, ex),
        update_lists ==> effects_since(e0, e1) == seq![(Call::Update, Some(true))],
        !update_lists ==> e1 == e0,
    ensures
        extends(e0, ex),
        update_lists ==> effects_since(e0, ex).len() > 0 && effects_since(e0, ex)[0] == (Call::Update, Some(true))
            && effects_since(e0, ex).skip(1) == effects_since(e1, ex),
        !update_lists ==> effects_since(e0, ex) == effects_since(e1, ex),
{
    lemma_effects_concat(e0, e1, ex);
    if update_lists {
        assert(effects_since(e0, ex)[0] == effects_since(e0, e1)[0]);
        assert(effects_since(e0, ex).skip(1) =~= effects_since(e1, ex));
    } else {
        assert(effects_since(e0, e1) =~= Seq::<Effect>::empty());
        assert(effects_since(e0, ex) =~= effects_since(e1, ex));
    }
}

/// One more effect recorded.
pub proof fn lemma_effects_push(a: Seq<Effect>, b: Seq<Effect>, x: Effect)
    requires
        extends(a, b),
    ensures
        extends(a, b.push(x)),
        effects_since(a, b.push(x)) == effects_since(a, b).push(x),
{
    assert(b.push(x).subrange(0, a.len() as int) =~= b.subrange(0, a.len() as int));
    assert(effects_since(a, b.push(x)) =~= effects_since(a, b).push(x));
}

/// A remove: the disable's effects (judged by `disable`, with whether it succeeded), then,
/// once it succeeded, the removal of `package`, then, once that succeeded, the query that
/// it is gone. `r` is `Ok` exactly when all of that succeeded and the package is no longer
/// installed; a package still installed is reported as such.
pub open spec fn remove_ran(
    e: Seq<Effect>,
    disable: spec_fn(Seq<Effect>, bool) -> bool,
    package: Seq<char>,
    r: Result<()>,
) -> bool {
    ||| r is Err && disable(e, false)
    ||| e.len() >= 1 && disable(e.drop_last(), true) && e.last() == (Call::Remove(package), None::<bool>) && r is Err
    ||| e.len() >= 2 && disable(e.drop_last().drop_last(), true) && e[e.len() - 2] == (
        Call::Remove(package),
        Some(true),
    ) && e.last().0 == Call::CheckInstalled(package) && (r is Ok <==> e.last().1 == Some(false)) && (e.last().1
        == Some(true) ==> (r matches Err(Error::ExecutionFailed(m)) && m@ == still_installed_message(package)))
}

} // verus!
