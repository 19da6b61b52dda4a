//! The switchyard façade: the sinks through which the safety layer reports facts and
//! messages, and the adapters that route them into the product's audit and logs.

pub mod adapters;

use vstd::prelude::*;
use crate::logging::init::LogLevel;

verus! {

/// Receives structured facts: a subsystem, an event, a decision and named fields.
pub trait FactsEmitter {
    type Record;

    fn emit(&self, subsystem: &str, event: &str, decision: &str, fields: &adapters::FactFields) -> Self::Record;
}

/// Receives human-readable messages at a level.
pub trait AuditSink {
    type Line;

    fn log(&self, level: LogLevel, msg: &str) -> Self::Line;
}

} // verus!
