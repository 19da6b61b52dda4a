//! Where a uutils applet is linked.

use vstd::prelude::*;
use crate::error::Result;
use crate::experiments::util::{resolve_usrbin, spec_resolve_usrbin, which_found};
use crate::utils::worker::Worker;

verus! {

/// The target for `filename`, given what the search path answered: the path found
/// there, else the path under `/usr/bin`.
pub fn target_from(filename: &str, found: Result<Option<String>>) -> (r: String)
    ensures
        found matches Ok(Some(p)) ==> r@ == p@,
        !(found matches Ok(Some(_))) ==> r@ == spec_resolve_usrbin(filename@),
{
    match found {
        Ok(Some(p)) => p,
        _ => resolve_usrbin(filename),
    }
}

/// The target of `filename` on this worker: where the search path finds it, else under
/// `/usr/bin`.
pub open spec fn spec_uutils_target<W: Worker>(w: &W, filename: Seq<char>) -> Seq<char> {
    match which_found(w, filename) {
        Some(p) => p,
        None => spec_resolve_usrbin(filename),
    }
}

/// Resolve the target path for a given filename: where the search path finds it,
/// else under `/usr/bin`.
pub fn resolve_target<W: Worker>(worker: &W, filename: &str) -> (r: String)
    ensures
        r@ == spec_uutils_target(worker, filename@),
{
    target_from(filename, worker.which(filename))
}

} // verus!
