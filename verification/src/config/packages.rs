//! Provider package names.

use vstd::prelude::*;

verus! {

pub const UUTILS_COREUTILS: &'static str = "uutils-coreutils";
/// The binary AUR package, which avoids provider prompts during non-interactive installations.
pub const UUTILS_FINDUTILS: &'static str = "uutils-findutils-bin";
pub const SUDO_RS: &'static str = "sudo-rs";

} // verus!
