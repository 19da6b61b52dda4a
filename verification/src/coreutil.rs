//! Per-command abstractions kept for compatibility with earlier scaffolding.

use vstd::prelude::*;

verus! {

/// Which implementation of the core utilities is in use.
#[derive(PartialEq, Eq, Structural, Clone, Copy, Debug)]
pub enum CoreUtilsImpl {
    Gnu,
    Uutils,
}

/// A core utility, known by its name.
pub trait CoreUtil: Send + Sync {
    fn name(&self) -> &'static str;
}

} // verus!
