//! Package management through pacman, with an AUR helper as fallback for installs.
//!
//! Running processes is the caller's part; the manager decides, step by step, what to
//! run next and what the outcome is. Each step takes the event that the previous action
//! produced (`Start` first) and names the next action.

use vstd::prelude::*;
use crate::config::security::MAX_PACKAGE_NAME_LENGTH;
use crate::error::{Error, Result};
use crate::logging::provenance::OperationEvent;
use crate::utils::command::{str_views, Command};
use crate::utils::text::{concat_str, is_alphanumeric, str_chars, utf8_len, utf8_len_exceeds};
use crate::utils::worker::{aur_helper_candidates, is_name_char, spec_aur_helper_candidates, strings_view};

verus! {

/// Package management operations.
pub trait PackageManager {
    fn update(&self) -> Result<()>;
    fn install(&self, package: &str) -> Result<()>;
    fn remove(&self, package: &str) -> Result<()>;
    fn is_installed(&self, package: &str) -> Result<bool>;
}

/// Pacman-based package manager for Arch Linux.
pub struct PacmanManager {
    pub aur_helper: String,
    pub dry_run: bool,
}

/// What the caller observed after the previous action.
pub enum PmEvent {
    /// The operation begins.
    Start,
    /// `pacman -Qi` exited, successfully or not.
    QueryExited(bool),
    /// `pacman -S` exited.
    InstallExited(bool),
    /// The first AUR helper found on the search path, if any.
    HelperFound(Option<String>),
    /// The AUR helper's install exited.
    HelperExited(bool),
    /// `pacman -R` exited.
    RemoveExited(bool),
    /// `pacman -Sy` exited.
    UpdateExited(bool),
}

/// What the caller does next.
pub enum PmAction {
    /// Run a command and report whether it exited successfully.
    Run(Command),
    /// Look the helpers up on the search path, in order, and report the first found.
    FindHelper(Vec<String>),
    /// The operation is over: its result and the audit record to write, if any.
    Finish { result: Result<()>, audit: Option<OperationEvent> },
}

/// The command is `prog` with exactly the arguments `args`.
pub open spec fn runs(c: Command, prog: Seq<char>, args: Seq<Seq<char>>) -> bool {
    c.command@ == prog && str_views(c.args@) == args
}

/// The action runs `prog` with `args`.
pub open spec fn action_runs(a: PmAction, prog: Seq<char>, args: Seq<Seq<char>>) -> bool {
    a matches PmAction::Run(c) && runs(c, prog, args)
}

/// The action finishes with success and the given audit record (`None` for no record).
pub open spec fn finishes_ok(a: PmAction, audit: Option<(Seq<char>, Seq<char>, bool)>) -> bool {
    a matches PmAction::Finish { result, audit: rec } && result is Ok && audit_is(rec, audit)
}

/// The action finishes with `ExecutionFailed(msg)` and the given audit record.
pub open spec fn finishes_failed(a: PmAction, msg: Seq<char>, audit: Option<(Seq<char>, Seq<char>, bool)>) -> bool {
    a matches PmAction::Finish { result, audit: rec } && (result matches Err(Error::ExecutionFailed(m)) && m@ == msg)
        && audit_is(rec, audit)
}

/// The audit record holds operation, target and status as given.
pub open spec fn audit_is(rec: Option<OperationEvent>, want: Option<(Seq<char>, Seq<char>, bool)>) -> bool {
    match (rec, want) {
        (None, None) => true,
        (Some(r), Some(w)) => r.operation@ == w.0 && r.target@ == w.1 && r.success == w.2,
        _ => false,
    }
}

/// Why a package name is refused, in the order the checks run; `None` when it is valid.
pub open spec fn spec_name_problem(name: Seq<char>) -> Option<Seq<char>> {
    if name.len() == 0 || name[0] == '-' {
        Some("Invalid package name: "@ + name)
    } else if utf8_len(name) > MAX_PACKAGE_NAME_LENGTH {
        Some("Package name too long"@)
    } else if !(forall|i: int| 0 <= i < name.len() ==> is_name_char(#[trigger] name[i])) {
        Some("Invalid characters in package name: "@ + name)
    } else {
        None
    }
}

/// The result of validating a name: `Ok`, or `ExecutionFailed` with the problem.
pub open spec fn validation_is(r: Result<()>, name: Seq<char>) -> bool {
    match spec_name_problem(name) {
        None => r is Ok,
        Some(msg) => r matches Err(Error::ExecutionFailed(m)) && m@ == msg,
    }
}

fn failed(msg: String) -> (e: Error)
    ensures
        e matches Error::ExecutionFailed(m) && m@ == msg@,
{
    Error::ExecutionFailed(msg)
}

fn audit(operation: &str, target: &str, success: bool) -> (r: Option<OperationEvent>)
    ensures
        audit_is(r, Some((operation@, target@, success))),
{
    Some(OperationEvent { operation: operation.to_owned(), target: target.to_owned(), success })
}

fn command3(prog: &str, a: &str, b: &str, c: &str) -> (r: Command)
    ensures
        runs(r, prog@, seq![a@, b@, c@]),
{
    let mut args: Vec<String> = Vec::new();
    args.push(a.to_owned());
    args.push(b.to_owned());
    args.push(c.to_owned());
    assert(str_views(args@) =~= seq![a@, b@, c@]);
    Command { command: prog.to_owned(), args }
}

/// The AUR install command, run as the `builder` user.
pub open spec fn aur_install_args(helper: Seq<char>, package: Seq<char>) -> Seq<Seq<char>> {
    seq!["-u"@, "builder"@, "--"@, helper, "-S"@, "--noconfirm"@, "--needed"@, package]
}

fn aur_install_command(helper: &str, package: &str) -> (r: Command)
    ensures
        runs(r, "sudo"@, aur_install_args(helper@, package@)),
{
    let mut args: Vec<String> = Vec::new();
    args.push("-u".to_owned());
    args.push("builder".to_owned());
    args.push("--".to_owned());
    args.push(helper.to_owned());
    args.push("-S".to_owned());
    args.push("--noconfirm".to_owned());
    args.push("--needed".to_owned());
    args.push(package.to_owned());
    assert(str_views(args@) =~= aur_install_args(helper@, package@));
    Command { command: "sudo".to_owned(), args }
}

impl PacmanManager {
    pub fn new(aur_helper: String, dry_run: bool) -> (r: Self)
        ensures
            r.aur_helper == aur_helper,
            r.dry_run == dry_run,
    {
        Self { aur_helper, dry_run }
    }

    /// Refuse a name that is empty or starts with `-`, is longer than
    /// `MAX_PACKAGE_NAME_LENGTH` bytes, or holds a character other than alphanumerics
    /// and `- _ + .`; the first failing check names the error.
    pub fn validate_package_name(&self, name: &str) -> (r: Result<()>)
        ensures
            validation_is(r, name@),
            r is Ok <==> spec_name_problem(name@) is None,
    {
        let v = str_chars(name);
        if v.len() == 0 || v[0] == '-' {
            return Err(failed(concat_str("Invalid package name: ", name)));
        }
        if utf8_len_exceeds(v.as_slice(), MAX_PACKAGE_NAME_LENGTH) {
            return Err(failed("Package name too long".to_owned()));
        }
        let mut i: usize = 0;
        while i < v.len()
            invariant
                i <= v@.len(),
                v@ == name@,
                v@.len() > 0 && v@[0] != '-',
                utf8_len(v@) <= MAX_PACKAGE_NAME_LENGTH,
                forall|k: int| 0 <= k < i ==> is_name_char(#[trigger] v@[k]),
            decreases v@.len() - i,
        {
            let c = v[i];
            if !(is_alphanumeric(c) || c == '-' || c == '_' || c == '+' || c == '.') {
                assert(!is_name_char(v@[i as int]));
                return Err(failed(concat_str("Invalid characters in package name: ", name)));
            }
            i = i + 1;
        }
        Ok(())
    }

    /// The AUR helpers to look for: the configured one first when it is set, then the
    /// defaults.
    pub fn helper_candidates(&self) -> (r: Vec<String>)
        ensures
            strings_view(r@) == spec_aur_helper_candidates(self.aur_helper@),
    {
        aur_helper_candidates(self.aur_helper.as_str())
    }

    /// Install: validate the name; in a dry run stop there; skip a package that is
    /// already installed; try `pacman -S --noconfirm`, then, if that fails, the first AUR
    /// helper found, run as `builder` with `-S --noconfirm --needed`. Success through
    /// pacman or the helper is audited as such; failure, with or without a helper, is
    /// audited as a failed install and reported as `Failed to install '<package>'`.
    pub fn install_step(&self, package: &str, event: PmEvent) -> (a: PmAction)
        ensures
            match event {
                PmEvent::Start => match spec_name_problem(package@) {
                    Some(msg) => finishes_failed(a, msg, None),
                    None => if self.dry_run {
                        finishes_ok(a, None)
                    } else {
                        action_runs(a, "pacman"@, seq!["-Qi"@, package@])
                    },
                },
                PmEvent::QueryExited(installed) => if installed {
                    finishes_ok(a, None)
                } else {
                    action_runs(a, "pacman"@, seq!["-S"@, "--noconfirm"@, package@])
                },
                PmEvent::InstallExited(success) => if success {
                    finishes_ok(a, Some(("PACKAGE_INSTALL"@, package@, true)))
                } else {
                    a matches PmAction::FindHelper(c) && strings_view(c@) == spec_aur_helper_candidates(
                        self.aur_helper@,
                    )
                },
                PmEvent::HelperFound(found) => match found {
                    Some(h) => action_runs(a, "sudo"@, aur_install_args(h@, package@)),
                    None => finishes_failed(
                        a,
                        "Failed to install '"@ + package@ + "'"@,
                        Some(("PACKAGE_INSTALL"@, package@, false)),
                    ),
                },
                PmEvent::HelperExited(success) => if success {
                    finishes_ok(a, Some(("PACKAGE_INSTALL_AUR"@, package@, true)))
                } else {
                    finishes_failed(
                        a,
                        "Failed to install '"@ + package@ + "'"@,
                        Some(("PACKAGE_INSTALL"@, package@, false)),
                    )
                },
                _ => finishes_ok(a, None),
            },
    {
        match event {
            PmEvent::Start => {
                let v = self.validate_package_name(package);
                match v {
                    Err(e) => PmAction::Finish { result: Err(e), audit: None },
                    Ok(()) => {
                        if self.dry_run {
                            PmAction::Finish { result: Ok(()), audit: None }
                        } else {
                            let mut args: Vec<String> = Vec::new();
                            args.push("-Qi".to_owned());
                            args.push(package.to_owned());
                            assert(str_views(args@) =~= seq!["-Qi"@, package@]);
                            PmAction::Run(Command { command: "pacman".to_owned(), args })
                        }
                    },
                }
            },
            PmEvent::QueryExited(installed) => {
                if installed {
                    PmAction::Finish { result: Ok(()), audit: None }
                } else {
                    PmAction::Run(command3("pacman", "-S", "--noconfirm", package))
                }
            },
            PmEvent::InstallExited(success) => {
                if success {
                    PmAction::Finish { result: Ok(()), audit: audit("PACKAGE_INSTALL", package, true) }
                } else {
                    PmAction::FindHelper(self.helper_candidates())
                }
            },
            PmEvent::HelperFound(found) => match found {
                Some(h) => PmAction::Run(aur_install_command(h.as_str(), package)),
                None => {
                    let m = concat_str("Failed to install '", package);
                    PmAction::Finish {
                        result: Err(failed(concat_str(m.as_str(), "'"))),
                        audit: audit("PACKAGE_INSTALL", package, false),
                    }
                },
            },
            PmEvent::HelperExited(success) => {
                if success {
                    PmAction::Finish { result: Ok(()), audit: audit("PACKAGE_INSTALL_AUR", package, true) }
                } else {
                    let m = concat_str("Failed to install '", package);
                    PmAction::Finish {
                        result: Err(failed(concat_str(m.as_str(), "'"))),
                        audit: audit("PACKAGE_INSTALL", package, false),
                    }
                }
            },
            _ => PmAction::Finish { result: Ok(()), audit: None },
        }
    }

    /// Remove: validate the name; in a dry run stop there; run `pacman -R --noconfirm`
    /// and audit the outcome, reporting `Failed to remove '<package>'` on failure.
    pub fn remove_step(&self, package: &str, event: PmEvent) -> (a: PmAction)
        ensures
            match event {
                PmEvent::Start => match spec_name_problem(package@) {
                    Some(msg) => finishes_failed(a, msg, None),
                    None => if self.dry_run {
                        finishes_ok(a, None)
                    } else {
                        action_runs(a, "pacman"@, seq!["-R"@, "--noconfirm"@, package@])
                    },
                },
                PmEvent::RemoveExited(success) => if success {
                    finishes_ok(a, Some(("PACKAGE_REMOVE"@, package@, true)))
                } else {
                    finishes_failed(
                        a,
                        "Failed to remove '"@ + package@ + "'"@,
                        Some(("PACKAGE_REMOVE"@, package@, false)),
                    )
                },
                _ => finishes_ok(a, None),
            },
    {
        match event {
            PmEvent::Start => {
                let v = self.validate_package_name(package);
                match v {
                    Err(e) => PmAction::Finish { result: Err(e), audit: None },
                    Ok(()) => {
                        if self.dry_run {
                            PmAction::Finish { result: Ok(()), audit: None }
                        } else {
                            PmAction::Run(command3("pacman", "-R", "--noconfirm", package))
                        }
                    },
                }
            },
            PmEvent::RemoveExited(success) => {
                if success {
                    PmAction::Finish { result: Ok(()), audit: audit("PACKAGE_REMOVE", package, true) }
                } else {
                    let m = concat_str("Failed to remove '", package);
                    PmAction::Finish {
                        result: Err(failed(concat_str(m.as_str(), "'"))),
                        audit: audit("PACKAGE_REMOVE", package, false),
                    }
                }
            },
            _ => PmAction::Finish { result: Ok(()), audit: None },
        }
    }

    /// Update: in a dry run nothing runs; otherwise `pacman -Sy`, audited, with
    /// `pacman -Sy failed` on failure.
    pub fn update_step(&self, event: PmEvent) -> (a: PmAction)
        ensures
            match event {
                PmEvent::Start => if self.dry_run {
                    finishes_ok(a, None)
                } else {
                    action_runs(a, "pacman"@, seq!["-Sy"@])
                },
                PmEvent::UpdateExited(success) => if success {
                    finishes_ok(a, Some(("PACKAGE_UPDATE"@, "pacman -Sy"@, true)))
                } else {
                    finishes_failed(a, "pacman -Sy failed"@, Some(("PACKAGE_UPDATE"@, "pacman -Sy"@, false)))
                },
                _ => finishes_ok(a, None),
            },
    {
        match event {
            PmEvent::Start => {
                if self.dry_run {
                    PmAction::Finish { result: Ok(()), audit: None }
                } else {
                    let mut args: Vec<String> = Vec::new();
                    args.push("-Sy".to_owned());
                    assert(str_views(args@) =~= seq!["-Sy"@]);
                    PmAction::Run(Command { command: "pacman".to_owned(), args })
                }
            },
            PmEvent::UpdateExited(success) => {
                if success {
                    PmAction::Finish { result: Ok(()), audit: audit("PACKAGE_UPDATE", "pacman -Sy", true) }
                } else {
                    PmAction::Finish {
                        result: Err(failed("pacman -Sy failed".to_owned())),
                        audit: audit("PACKAGE_UPDATE", "pacman -Sy", false),
                    }
                }
            },
            _ => PmAction::Finish { result: Ok(()), audit: None },
        }
    }

    /// The query behind `is_installed`: the validation error, or `pacman -Qi <package>`,
    /// whose success answers the question. Dry runs query too.
    pub fn installed_query(&self, package: &str) -> (r: Result<Command>)
        ensures
            spec_name_problem(package@) matches Some(msg) ==> (r matches Err(Error::ExecutionFailed(m))
                && m@ == msg),
            spec_name_problem(package@) is None ==> (r matches Ok(c) && runs(c, "pacman"@, seq!["-Qi"@, package@])),
    {
        self.validate_package_name(package)?;
        let mut args: Vec<String> = Vec::new();
        args.push("-Qi".to_owned());
        args.push(package.to_owned());
        assert(str_views(args@) =~= seq!["-Qi"@, package@]);
        Ok(Command { command: "pacman".to_owned(), args })
    }
}

} // verus!
