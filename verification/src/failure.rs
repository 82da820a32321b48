//! Failures of the runtime that calls into Plugin code.
use vstd::prelude::*;
use vstd::string::*;

use crate::text;

verus! {

/// Why the runtime could not carry out a request or prepare a Plugin.
#[derive(Debug, PartialEq, Eq)]
pub enum RuntimeFailure {
    /// The consumer has no resolved binding for this Capability.
    Unavailable { capability: String },
    /// The bound provider does not declare the requested Operation.
    UnknownOperation { capability: String, operation: String },
    /// Generated types disagreed with the prepared endpoint.
    ProtocolViolation { capability: String },
    /// A package selected by the Plan was not linked into the native App.
    MissingPluginFactory { instance: String, package_id: String },
    /// No installed Execution Adapter provides the class selected by one Instance.
    UnavailableExecutionClass { instance_key: String, execution_class: String },
    /// The Resolved Plan or the prepared endpoint set is inconsistent.
    InvalidResolvedPlan { detail: String },
    /// New request admission is closed.
    AdmissionClosed,
    /// The request could not enter a full bounded admission queue.
    ResourceExhausted { capability: String, operation: String },
    /// The caller cancelled the invocation before it completed.
    Cancelled { request_id: u64 },
    /// The Runtime Driver or Adapter reported an internal execution failure.
    Internal { detail: String },
    /// A Plugin generation reported a failure that should trigger supervision.
    PluginFailure { detail: String },
}

/// What a failure says, with its texts as sequences of characters.
pub enum FailureView {
    Unavailable { capability: Seq<char> },
    UnknownOperation { capability: Seq<char>, operation: Seq<char> },
    ProtocolViolation { capability: Seq<char> },
    MissingPluginFactory { instance: Seq<char>, package_id: Seq<char> },
    UnavailableExecutionClass { instance_key: Seq<char>, execution_class: Seq<char> },
    InvalidResolvedPlan { detail: Seq<char> },
    AdmissionClosed,
    ResourceExhausted { capability: Seq<char>, operation: Seq<char> },
    Cancelled { request_id: u64 },
    Internal { detail: Seq<char> },
    PluginFailure { detail: Seq<char> },
}

impl View for RuntimeFailure {
    type V = FailureView;

    open spec fn view(&self) -> FailureView {
        match *self {
            RuntimeFailure::Unavailable { capability } => FailureView::Unavailable { capability: capability@ },
            RuntimeFailure::UnknownOperation { capability, operation } => FailureView::UnknownOperation {
                capability: capability@,
                operation: operation@,
            },
            RuntimeFailure::ProtocolViolation { capability } => FailureView::ProtocolViolation { capability: capability@ },
            RuntimeFailure::MissingPluginFactory { instance, package_id } => FailureView::MissingPluginFactory {
                instance: instance@,
                package_id: package_id@,
            },
            RuntimeFailure::UnavailableExecutionClass { instance_key, execution_class } => FailureView::UnavailableExecutionClass {
                instance_key: instance_key@,
                execution_class: execution_class@,
            },
            RuntimeFailure::InvalidResolvedPlan { detail } => FailureView::InvalidResolvedPlan { detail: detail@ },
            RuntimeFailure::AdmissionClosed => FailureView::AdmissionClosed,
            RuntimeFailure::ResourceExhausted { capability, operation } => FailureView::ResourceExhausted {
                capability: capability@,
                operation: operation@,
            },
            RuntimeFailure::Cancelled { request_id } => FailureView::Cancelled { request_id },
            RuntimeFailure::Internal { detail } => FailureView::Internal { detail: detail@ },
            RuntimeFailure::PluginFailure { detail } => FailureView::PluginFailure { detail: detail@ },
        }
    }
}

/// What a call that may fail came to, by the facts of its failure.
pub open spec fn outcome<T>(r: Result<T, RuntimeFailure>) -> Result<T, FailureView> {
    match r {
        Ok(value) => Ok(value),
        Err(failure) => Err(failure@),
    }
}

/// The Plan is invalid for the stated reason.
pub open spec fn invalid_plan(detail: Seq<char>) -> FailureView {
    FailureView::InvalidResolvedPlan { detail }
}

/// An invalid Plan, with a text about one subject.
pub fn invalid_about(prefix: &str, subject: &str, suffix: &str) -> (r: RuntimeFailure)
    ensures
        r@ == invalid_plan(prefix@ + subject@ + suffix@),
{
    RuntimeFailure::InvalidResolvedPlan { detail: text::around(prefix, subject, suffix) }
}

/// An invalid Plan.
pub fn invalid(detail: &str) -> (r: RuntimeFailure)
    ensures
        r@ == invalid_plan(detail@),
{
    RuntimeFailure::InvalidResolvedPlan { detail: detail.to_owned() }
}

} // verus!
