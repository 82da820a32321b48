//! Lowering of portable Plugins to Wasm Component and Process transports.
use vstd::prelude::*;
use vstd::string::*;
use vstd::utf8::encode_utf8;

use crate::authoring::{refused, AuthoringError};
use crate::json;
use crate::json::{compact_json, read_json, Json, JsonView};
use crate::text;

verus! {

/// Transport-neutral result produced by a product SDK's generated dispatcher.
#[derive(Debug)]
pub enum InvocationOutcome {
    /// A successful Capability response.
    Success(Json),
    /// A domain error defined by the Capability contract.
    DomainError(Json),
    /// An adapter-safe implementation failure.
    Failure(String),
}

impl InvocationOutcome {
    /// The documents in the outcome are ones that a JSON reader could hand out.
    pub open spec fn sound(self) -> bool {
        match self {
            InvocationOutcome::Success(value) => value.model().sound(),
            InvocationOutcome::DomainError(value) => value.model().sound(),
            InvocationOutcome::Failure(_) => true,
        }
    }
}

/// JSON request seam implemented by generated product SDK glue.
pub trait JsonRequestHandler: Sized {
    /// Handles one validated Capability request.
    fn invoke(&self, capability: &str, operation: &str, request: Json) -> InvocationOutcome;
}

/// What a Wasm Component answers for an outcome: the bytes of a response, or of an error.
pub open spec fn answer(outcome: InvocationOutcome) -> Result<Seq<u8>, Seq<u8>> {
    match outcome {
        InvocationOutcome::Success(value) => Ok(compact_json(value.model())),
        InvocationOutcome::DomainError(value) => Err(compact_json(value.model())),
        InvocationOutcome::Failure(detail) => Err(compact_json(JsonView::Text(detail@))),
    }
}

/// The bytes of an answer.
pub open spec fn answer_bytes(r: Result<String, String>) -> Result<Seq<u8>, Seq<u8>> {
    match r {
        Ok(response) => Ok(encode_utf8(response@)),
        Err(error) => Err(encode_utf8(error@)),
    }
}

/// Lowers an outcome to the answer of a Wasm Component.
pub fn wasm_answer(outcome: InvocationOutcome) -> (r: Result<String, String>)
    requires
        outcome.sound(),
    ensures
        answer_bytes(r) == answer(outcome),
{
    match outcome {
        InvocationOutcome::Success(value) => Ok(json::to_text(&value)),
        InvocationOutcome::DomainError(value) => Err(json::to_text(&value)),
        InvocationOutcome::Failure(detail) => Err(json::to_text(&Json::Text(detail))),
    }
}

/// What a request comes to before it reaches the handler: the request, or the answer to a text that is
/// no JSON.
pub fn read_request(request_json: &str) -> (r: Result<Json, String>)
    ensures
        match read_json(encode_utf8(request_json@)) {
            Ok(request) => r is Ok && r->Ok_0.model() == request && request.sound(),
            Err(_) => r is Err && r->Err_0@ == "\"invalid_arguments\""@,
        },
{
    match json::from_bytes(request_json.as_bytes()) {
        Ok(request) => Ok(request),
        Err(_) => Err("\"invalid_arguments\"".to_owned()),
    }
}

/// An outcome is one that a handler gives for a request.
pub open spec fn handled<H: JsonRequestHandler>(
    handler: H,
    capability: &str,
    operation: &str,
    tree: JsonView,
    outcome: InvocationOutcome,
) -> bool {
    exists|request: Json| request.model() == tree && #[trigger] call_ensures(H::invoke, (&handler, capability, operation, request), outcome)
}

/// Hands a request to a handler, and gives back the outcome; a text that is no JSON does not reach the handler.
pub fn invoke<H: JsonRequestHandler>(handler: &H, capability: &str, operation: &str, request_json: &str) -> (r: Result<
    InvocationOutcome,
    String,
>)
    ensures
        match read_json(encode_utf8(request_json@)) {
            Ok(tree) => r is Ok && handled(*handler, capability, operation, tree, r->Ok_0),
            Err(_) => r is Err && r->Err_0@ == "\"invalid_arguments\""@,
        },
{
    match read_request(request_json) {
        Err(answer) => Err(answer),
        Ok(request) => {
            let ghost given = request;
            let outcome = handler.invoke(capability, operation, request);
            assert(call_ensures(H::invoke, (handler, capability, operation, given), outcome));
            Ok(outcome)
        },
    }
}

/// What a Process Plugin answers.
#[derive(Debug)]
pub enum ProcessOutcome {
    Success { value: Json },
    Domain { error: Json },
    /// The Plugin failed.
    PluginFailure { detail: String },
}

/// What a Process Plugin answers for an outcome.
pub open spec fn process_answered(outcome: InvocationOutcome, r: ProcessOutcome) -> bool {
    match outcome {
        InvocationOutcome::Success(value) => r == (ProcessOutcome::Success { value }),
        InvocationOutcome::DomainError(error) => r == (ProcessOutcome::Domain { error }),
        InvocationOutcome::Failure(detail) => r == (ProcessOutcome::PluginFailure { detail }),
    }
}

/// A Plugin gives one answer, whether it runs as a Component or as a process: a response where its
/// handler succeeded and an error where it did not, with the value or the text of the outcome.
pub proof fn both_kinds_of_plugin_answer_alike(outcome: InvocationOutcome, r: ProcessOutcome)
    requires
        process_answered(outcome, r),
    ensures
        answer(outcome) is Ok <==> outcome is Success,
        r is Success <==> outcome is Success,
        r is Domain <==> outcome is DomainError,
        r matches ProcessOutcome::Success { value } ==> outcome->Success_0 == value && answer(outcome) == Ok::<Seq<u8>, Seq<u8>>(
            compact_json(value.model()),
        ),
        r matches ProcessOutcome::Domain { error } ==> outcome->DomainError_0 == error && answer(outcome) == Err::<Seq<u8>, Seq<u8>>(
            compact_json(error.model()),
        ),
        r matches ProcessOutcome::PluginFailure { detail } ==> outcome->Failure_0 == detail && answer(outcome) == Err::<Seq<u8>, Seq<u8>>(
            compact_json(JsonView::Text(detail@)),
        ),
{
}

/// Lowers an outcome to the answer of a Process Plugin.
pub fn process_answer(outcome: InvocationOutcome) -> (r: ProcessOutcome)
    ensures
        process_answered(outcome, r),
{
    match outcome {
        InvocationOutcome::Success(value) => ProcessOutcome::Success { value },
        InvocationOutcome::DomainError(error) => ProcessOutcome::Domain { error },
        InvocationOutcome::Failure(detail) => ProcessOutcome::PluginFailure { detail },
    }
}

/// Decides by its first argument whether a Process Plugin only describes itself.
pub fn only_describes(first: Option<&str>) -> (r: bool)
    ensures
        r == (text::opt_str(first) == Some("--lenso-describe"@)),
{
    match first {
        Some(argument) => text::same(argument, "--lenso-describe"),
        None => false,
    }
}

/// Checks the portable Plugin marker, which takes no arguments.
pub fn check_marker(has_arguments: bool) -> (r: Result<(), AuthoringError>)
    ensures
        match r {
            Ok(()) => !has_arguments,
            Err(error) => has_arguments && error@ == "portable #[lenso::plugin] does not accept lifecycle arguments"@,
        },
{
    if has_arguments {
        Err(refused("portable #[lenso::plugin] does not accept lifecycle arguments"))
    } else {
        Ok(())
    }
}

} // verus!
