//! Structured provenance events, handed to the audit sink.

use vstd::prelude::*;

verus! {

/// A structured provenance event: component, event, decision, inputs, outputs and the exit
/// code where there is one.
pub struct AuditEvent {
    pub component: String,
    pub event: String,
    pub decision: String,
    pub inputs: String,
    pub outputs: String,
    pub exit_code: Option<i32>,
}

/// A simple operation and whether it succeeded.
pub struct OperationEvent {
    pub operation: String,
    pub target: String,
    pub success: bool,
}

/// Builds the provenance events that the audit sink records.
pub struct ProvenanceLogger;

impl Default for ProvenanceLogger {
    fn default() -> (r: Self)
        ensures
            r == ProvenanceLogger,
    {
        ProvenanceLogger
    }
}

impl ProvenanceLogger {
    pub fn new() -> (r: Self)
        ensures
            r == ProvenanceLogger,
    {
        ProvenanceLogger
    }

    /// The structured entry for a decision: its fields, as given.
    pub fn log(
        &self,
        component: &str,
        event: &str,
        decision: &str,
        inputs: &str,
        outputs: &str,
        exit_code: Option<i32>,
    ) -> (r: AuditEvent)
        ensures
            r.component@ == component@,
            r.event@ == event@,
            r.decision@ == decision@,
            r.inputs@ == inputs@,
            r.outputs@ == outputs@,
            r.exit_code == exit_code,
    {
        AuditEvent {
            component: component.to_owned(),
            event: event.to_owned(),
            decision: decision.to_owned(),
            inputs: inputs.to_owned(),
            outputs: outputs.to_owned(),
            exit_code,
        }
    }

    /// The entry for a simple operation with its success or failure.
    pub fn log_operation(&self, operation: &str, target: &str, success: bool) -> (r: OperationEvent)
        ensures
            r.operation@ == operation@,
            r.target@ == target@,
            r.success == success,
    {
        OperationEvent { operation: operation.to_owned(), target: target.to_owned(), success }
    }
}

} // verus!
