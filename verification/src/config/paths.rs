//! Well-known system paths.

use vstd::prelude::*;

verus! {

pub const SYSTEM_BIN_DIR: &'static str = "/usr/bin";
pub const SYSTEM_SBIN_DIR: &'static str = "/usr/sbin";
pub const SYSTEM_LIB_DIR: &'static str = "/usr/lib";
pub const CARGO_BIN_DIR: &'static str = "/usr/lib/cargo/bin";
pub const UUTILS_LIB_DIR: &'static str = "/usr/lib/uutils";
pub const PACMAN_LOCK: &'static str = "/var/lib/pacman/db.lck";
pub const BACKUP_SUFFIX: &'static str = ".oxidizr.bak";

} // verus!
