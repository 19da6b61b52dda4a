//! The AUR helpers that may be used.

use vstd::prelude::*;

verus! {

pub const PARU: &'static str = "paru";
pub const YAY: &'static str = "yay";
pub const TRIZEN: &'static str = "trizen";
pub const PAMAC: &'static str = "pamac";

/// The helpers tried, in order, when none is configured.
pub const DEFAULT_HELPERS: [&'static str; 4] = ["paru", "yay", "trizen", "pamac"];

} // verus!
