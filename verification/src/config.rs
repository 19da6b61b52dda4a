//! Configuration constants for the switch.

pub mod aur_helpers;
pub mod packages;
pub mod paths;
pub mod security;
pub mod timeouts;
