//! Safe switching of Arch Linux core utilities to Rust replacements:
//! the decisions, path rules and plans behind the switch, with their contracts.

pub mod checks;
pub mod cli;
pub mod config;
pub mod coreutil;
pub mod error;
pub mod experiments;
pub mod logging;
pub mod package_manager;
pub mod switchyard;
pub mod symlink;
pub mod system;
pub mod utils;

pub use crate::error::{CoreutilsError, Error, Result};
pub use crate::experiments as experiment;
pub use crate::utils::worker;
