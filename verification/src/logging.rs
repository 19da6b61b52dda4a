//! Logging: the verbosity rule, the audit file locations and the structured
//! provenance events that the audit sink writes.

pub mod init;
pub mod provenance;

pub use init::{verbosity_level, AuditMakeWriter, LogLevel};
pub use provenance::{AuditEvent, OperationEvent, ProvenanceLogger};
