//! The uutils experiment: a family of tools switched to uutils binaries.

pub mod constants;
pub mod disable;
pub mod enable;
pub mod model;
pub mod targets;
pub mod utils;

pub use model::UutilsExperiment;
