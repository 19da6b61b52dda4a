//! Errors of the switch, their messages and the exit codes they map to.

use vstd::prelude::*;
use crate::utils::text::concat_str;

verus! {

/// Core error type for switch operations.
#[derive(Debug)]
pub enum Error {
    CommandNotFound(String),
    ExecutionFailed(String),
    InvalidImplementation(String),
    /// An input/output failure, by its message.
    Io(String),
    Incompatible(String),
    /// No applets discovered to link after ensuring provider installation.
    NothingToLink(String),
    /// Restore failed because a backup file is missing (unless forced best-effort).
    RestoreBackupMissing(String),
    /// Repository gating failed for a package.
    RepoGateFailed { package: String, details: String },
    Other(String),
}

pub type Result<T> = core::result::Result<T, Error>;

/// The name under which the error type is re-exported.
pub type CoreutilsError = Error;

impl Error {
    /// The human-readable message of the error.
    pub open spec fn spec_message(&self) -> Seq<char> {
        match self {
            Error::CommandNotFound(s) => "Command not found: "@ + s@,
            Error::ExecutionFailed(s) => "Execution failed: "@ + s@,
            Error::InvalidImplementation(s) => "Invalid implementation: "@ + s@,
            Error::Io(s) => "IO error: "@ + s@,
            Error::Incompatible(s) => "Unsupported distribution or release: "@ + s@,
            Error::NothingToLink(s) => "nothing to link: "@ + s@,
            Error::RestoreBackupMissing(s) => "restore backup missing for: "@ + s@,
            Error::RepoGateFailed { package, details } => "repo gate failed for '"@ + package@ + "': "@
                + details@,
            Error::Other(s) => "Other error: "@ + s@,
        }
    }

    /// The process exit code documented for the error.
    pub open spec fn spec_exit_code(&self) -> i32 {
        match self {
            Error::Incompatible(_) => 10,
            Error::NothingToLink(_) => 20,
            Error::RestoreBackupMissing(_) => 30,
            Error::RepoGateFailed { .. } => 40,
            _ => 1,
        }
    }

    /// The human-readable message of the error.
    pub fn message(&self) -> (m: String)
        ensures
            m@ == self.spec_message(),
    {
        match self {
            Error::CommandNotFound(s) => concat_str("Command not found: ", s.as_str()),
            Error::ExecutionFailed(s) => concat_str("Execution failed: ", s.as_str()),
            Error::InvalidImplementation(s) => concat_str("Invalid implementation: ", s.as_str()),
            Error::Io(s) => concat_str("IO error: ", s.as_str()),
            Error::Incompatible(s) => concat_str("Unsupported distribution or release: ", s.as_str()),
            Error::NothingToLink(s) => concat_str("nothing to link: ", s.as_str()),
            Error::RestoreBackupMissing(s) => concat_str("restore backup missing for: ", s.as_str()),
            Error::RepoGateFailed { package, details } => {
                let a = concat_str("repo gate failed for '", package.as_str());
                let b = concat_str(a.as_str(), "': ");
                concat_str(b.as_str(), details.as_str())
            },
            Error::Other(s) => concat_str("Other error: ", s.as_str()),
        }
    }

    /// The process exit code documented for the error: 10 for an incompatible
    /// distribution, 20 for nothing to link, 30 for a missing restore backup,
    /// 40 for a failed repository gate, 1 otherwise.
    pub fn exit_code(&self) -> (c: i32)
        ensures
            c == self.spec_exit_code(),
    {
        match self {
            Error::Incompatible(_) => 10,
            Error::NothingToLink(_) => 20,
            Error::RestoreBackupMissing(_) => 30,
            Error::RepoGateFailed { .. } => 40,
            _ => 1,
        }
    }
}

} // verus!
