//! Limits and locations that guard the switch.

use vstd::prelude::*;

verus! {

pub const MAX_PATH_LENGTH: usize = 4096;
pub const MAX_PACKAGE_NAME_LENGTH: usize = 256;
pub const AUDIT_LOG_SYSTEM: &'static str = "/var/log/oxidizr-arch-audit.log";
pub const AUDIT_LOG_USER: &'static str = ".oxidizr-arch-audit.log";

} // verus!
