//! The uutils experiment and its compatibility check.

use vstd::prelude::*;
use crate::checks::{is_supported_distro, spec_is_supported_distro};
use crate::error::{Error, Result};
use crate::utils::worker::Worker;

verus! {

/// An experiment replacing system utilities with uutils equivalents.
#[derive(Debug)]
pub struct UutilsExperiment {
    /// The family, e.g. `coreutils`.
    pub name: String,
    /// The provider package, e.g. `uutils-coreutils`.
    pub package_name: String,
    /// The unified dispatcher, e.g. `/usr/bin/coreutils`.
    pub unified_binary: Option<String>,
    /// Where the per-applet binaries live, e.g. `/usr/lib/uutils/coreutils`.
    pub bin_directory: String,
}

impl UutilsExperiment {
    /// Whether the worker's distribution is one of the supported ones
    /// (see `crate::checks::is_supported_distro`).
    pub fn check_compatible<W: Worker>(&self, worker: &W) -> (r: Result<bool>)
        ensures
            match worker.spec_distribution_id() {
                Some(id) => r matches Ok(b) && b == spec_is_supported_distro(id),
                None => r == Err::<bool, Error>(worker.spec_distribution_error()),
            },
    {
        match worker.distribution() {
            Ok(d) => Ok(is_supported_distro(d.id.as_str())),
            Err(e) => Err(e),
        }
    }
}

} // verus!
