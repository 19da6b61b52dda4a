//! The system side: worker policy and filesystem checks.

pub mod fs_checks;
pub mod worker;
