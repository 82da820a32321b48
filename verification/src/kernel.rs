//! What the outcomes of a Kernel Generation mean to the control plane.
use vstd::prelude::*;
use vstd::string::*;

use crate::error::{ControlPlaneError, ErrorView};
use crate::text;
use crate::text::opt_text;

verus! {

/// How the start of a Kernel Generation ended; a failure by its text.
#[derive(Debug)]
pub enum StartOutcome {
    Ready,
    TimedOut,
    Failed(String),
}

/// How the shutdown of a Kernel Generation ended; a failure by its text.
#[derive(Debug)]
pub enum ShutdownOutcome {
    Clean,
    RuntimeFailure(String),
    Timeout,
}

/// The host failed in the stated way.
pub open spec fn host_failure(detail: Seq<char>) -> ErrorView {
    ErrorView::HostFailure { detail }
}

/// The host failed, with a text behind a prefix.
fn failed(prefix: &str, detail: &str) -> (r: ControlPlaneError)
    ensures
        r@ == host_failure(prefix@ + detail@),
{
    ControlPlaneError::HostFailure { detail: text::behind(prefix, detail) }
}

/// What an operation that may fail came to.
pub open spec fn gate(r: Result<(), ControlPlaneError>) -> Option<ErrorView> {
    match r {
        Ok(()) => None,
        Err(error) => Some(error@),
    }
}

/// What the start of a lane-local Generation means.
pub open spec fn start_judged(outcome: StartOutcome, r: Result<(), ControlPlaneError>) -> bool {
    gate(r) == match outcome {
        StartOutcome::Ready => None,
        StartOutcome::TimedOut => Some(host_failure("Kernel Generation Ready Gate timed out"@)),
        StartOutcome::Failed(detail) => Some(host_failure("Kernel Generation failed before Ready: "@ + detail@)),
    }
}

/// Judges the start of a lane-local Generation.
pub fn judge_start(outcome: StartOutcome) -> (r: Result<(), ControlPlaneError>)
    ensures
        start_judged(outcome, r),
{
    match outcome {
        StartOutcome::Ready => Ok(()),
        StartOutcome::TimedOut => Err(ControlPlaneError::HostFailure { detail: "Kernel Generation Ready Gate timed out".to_owned() }),
        StartOutcome::Failed(detail) => Err(failed("Kernel Generation failed before Ready: ", detail.as_str())),
    }
}

/// What the shutdown of a lane-local Generation means.
pub open spec fn shutdown_judged(outcome: ShutdownOutcome, r: Result<(), ControlPlaneError>) -> bool {
    gate(r) == match outcome {
        ShutdownOutcome::Clean => None,
        ShutdownOutcome::RuntimeFailure(detail) => Some(host_failure("Generation cleanup failed: "@ + detail@)),
        ShutdownOutcome::Timeout => Some(host_failure("Generation drain timed out"@)),
    }
}

/// Judges the shutdown of a lane-local Generation.
pub fn judge_shutdown(outcome: ShutdownOutcome) -> (r: Result<(), ControlPlaneError>)
    ensures
        shutdown_judged(outcome, r),
{
    match outcome {
        ShutdownOutcome::Clean => Ok(()),
        ShutdownOutcome::RuntimeFailure(detail) => Err(failed("Generation cleanup failed: ", detail.as_str())),
        ShutdownOutcome::Timeout => Err(ControlPlaneError::HostFailure { detail: "Generation drain timed out".to_owned() }),
    }
}

/// What the failure of a lane-local Generation after Ready means.
pub fn terminal_failure(error: Option<&str>) -> (r: Option<ControlPlaneError>)
    ensures
        match error {
            Some(detail) => r is Some && r->Some_0@ == host_failure("Kernel Generation failed after Ready: "@ + detail@),
            None => r is None,
        },
{
    match error {
        Some(detail) => Some(failed("Kernel Generation failed after Ready: ", detail)),
        None => None,
    }
}

/// What the failed start of a replicated Generation means.
pub fn replicated_start_failure(detail: &str) -> (r: ControlPlaneError)
    ensures
        r@ == host_failure("replicated Kernel Generation failed before Ready: "@ + detail@),
{
    failed("replicated Kernel Generation failed before Ready: ", detail)
}

/// What the shutdown of a replicated Generation means, that some failure had already ended or none.
pub open spec fn replicas_judged(terminal: Option<Seq<char>>, outcome: Result<(), String>, r: Result<(), ControlPlaneError>) -> bool {
    gate(r) == match outcome {
        Ok(()) => None,
        Err(detail) => if terminal == Some(detail@) {
            None
        } else {
            Some(host_failure("replicated Generation cleanup failed: "@ + detail@))
        },
    }
}

/// A Generation counts as started exactly where it is Ready, and as stopped exactly where its cleanup was
/// clean; of a replicated one the failure that had ended it already is no failure of its cleanup.
pub proof fn only_what_succeeded_passes(
    start: (StartOutcome, Result<(), ControlPlaneError>),
    stop: (ShutdownOutcome, Result<(), ControlPlaneError>),
    replicas: (Option<Seq<char>>, Result<(), String>, Result<(), ControlPlaneError>),
)
    requires
        start_judged(start.0, start.1),
        shutdown_judged(stop.0, stop.1),
        replicas_judged(replicas.0, replicas.1, replicas.2),
    ensures
        start.1 is Ok <==> start.0 is Ready,
        stop.1 is Ok <==> stop.0 is Clean,
        replicas.2 is Ok <==> replicas.1 is Ok || replicas.0 == Some(replicas.1->Err_0@),
        start.1 is Err ==> start.1->Err_0@ is HostFailure,
        stop.1 is Err ==> stop.1->Err_0@ is HostFailure,
        replicas.2 is Err ==> replicas.2->Err_0@ is HostFailure,
{
}

/// Judges the shutdown of a replicated Generation: the failure that already ended the Generation is no
/// failure of its cleanup.
pub fn judge_replicated_shutdown(terminal: &Option<String>, outcome: Result<(), String>) -> (r: Result<(), ControlPlaneError>)
    ensures
        replicas_judged(opt_text(*terminal), outcome, r),
{
    match outcome {
        Ok(()) => Ok(()),
        Err(detail) => {
            if text::is_text(terminal, detail.as_str()) {
                return Ok(());
            }
            Err(failed("replicated Generation cleanup failed: ", detail.as_str()))
        },
    }
}

/// What the failure of a replicated Generation after Ready means.
pub fn replicated_terminal_failure(error: Option<&str>) -> (r: Option<ControlPlaneError>)
    ensures
        match error {
            Some(detail) => r is Some && r->Some_0@ == host_failure("replicated Kernel Generation failed after Ready: "@ + detail@),
            None => r is None,
        },
{
    match error {
        Some(detail) => Some(failed("replicated Kernel Generation failed after Ready: ", detail)),
        None => None,
    }
}

} // verus!
