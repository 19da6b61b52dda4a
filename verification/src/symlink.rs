//! Symlink swaps with link-aware backups.

pub mod model;
pub mod ops;
