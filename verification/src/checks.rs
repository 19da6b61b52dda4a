//! Distribution gating: which distributions the experiments support.

use vstd::prelude::*;
use crate::utils::text::{ascii_lower, ascii_lowercase, chars_eq_str, str_chars};

pub use crate::utils::Distribution;

verus! {

/// The supported distribution ids.
pub const SUPPORTED_DISTROS: [&'static str; 4] = ["arch", "manjaro", "cachyos", "endeavouros"];

/// A distribution id is supported when, in ASCII lowercase, it is one of
/// `arch`, `manjaro`, `cachyos` or `endeavouros`.
pub open spec fn spec_is_supported_distro(id: Seq<char>) -> bool {
    let l = ascii_lower(id);
    l == "arch"@ || l == "manjaro"@ || l == "cachyos"@ || l == "endeavouros"@
}

/// Whether a distribution id is one of the supported Arch-family distributions.
pub fn is_supported_distro(id: &str) -> (r: bool)
    ensures
        r == spec_is_supported_distro(id@),
{
    let v = str_chars(id);
    let l = ascii_lowercase(v.as_slice());
    chars_eq_str(l.as_slice(), "arch") || chars_eq_str(l.as_slice(), "manjaro") || chars_eq_str(
        l.as_slice(),
        "cachyos",
    ) || chars_eq_str(l.as_slice(), "endeavouros")
}

} // verus!
