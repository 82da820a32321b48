use lenso_runtime::driver::{is_due, BrowserTimer, Jitter, TimerStep, MAX_DELAY_MILLIS};
use lenso_runtime::error::ControlPlaneError;
use lenso_runtime::json::{from_bytes, Json};
use lenso_runtime::kernel::{
    judge_replicated_shutdown, judge_shutdown, judge_start, replicated_start_failure, replicated_terminal_failure, terminal_failure, ShutdownOutcome,
    StartOutcome,
};
use lenso_runtime::portable::{check_marker, invoke, only_describes, process_answer, wasm_answer, InvocationOutcome, JsonRequestHandler, ProcessOutcome};

struct Echo;

impl JsonRequestHandler for Echo {
    fn invoke(&self, capability: &str, operation: &str, request: Json) -> InvocationOutcome {
        assert_eq!(capability, "example.echo@1");
        match operation {
            "echo" => InvocationOutcome::Success(request),
            "deny" => InvocationOutcome::DomainError(request),
            _ => InvocationOutcome::Failure("unknown \"operation\"".to_owned()),
        }
    }
}

fn answer(operation: &str, request: &str) -> Result<String, String> {
    wasm_answer(invoke(&Echo, "example.echo@1", operation, request)?)
}

#[test]
fn outcomes_lower_to_component_answers() {
    assert_eq!(answer("echo", " {\"b\": 1, \"a\": [true]} "), Ok("{\"b\":1,\"a\":[true]}".to_owned()));
    assert_eq!(answer("deny", "{\"code\":\"denied\"}"), Err("{\"code\":\"denied\"}".to_owned()));
    assert_eq!(answer("other", "null"), Err("\"unknown \\\"operation\\\"\"".to_owned()));
    assert_eq!(answer("echo", "{"), Err("\"invalid_arguments\"".to_owned()));
}

#[test]
fn outcomes_lower_to_process_answers() {
    let value = from_bytes(b"{\"ok\":1}").unwrap();
    match process_answer(InvocationOutcome::Success(value.clone())) {
        ProcessOutcome::Success { value: found } => assert_eq!(found, value),
        other => panic!("{other:?}"),
    }
    assert!(matches!(process_answer(InvocationOutcome::DomainError(Json::Null)), ProcessOutcome::Domain { error: Json::Null }));
    match process_answer(InvocationOutcome::Failure("broken".to_owned())) {
        ProcessOutcome::PluginFailure { detail } => assert_eq!(detail, "broken"),
        other => panic!("{other:?}"),
    }
}

#[test]
fn a_process_only_describes_itself_on_request() {
    assert!(only_describes(Some("--lenso-describe")));
    assert!(!only_describes(Some("--help")));
    assert!(!only_describes(None));
    assert!(check_marker(false).is_ok());
    assert_eq!(check_marker(true).unwrap_err().detail, "portable #[lenso::plugin] does not accept lifecycle arguments");
}

#[test]
fn a_timer_arms_once_and_finishes_at_its_deadline() {
    let mut timer = BrowserTimer::new(5_999_999);
    assert_eq!(timer.poll(1_000_000), TimerStep::Arm(4));
    assert_eq!(timer.poll(1_000_000), TimerStep::Wait);
    assert!(!timer.fired());
    assert_eq!(timer.poll(5_500_000), TimerStep::Arm(0));
    assert_eq!(timer.poll(5_999_999), TimerStep::Finish);
    let mut far = BrowserTimer::new(u128::MAX);
    assert_eq!(far.poll(0), TimerStep::Arm(MAX_DELAY_MILLIS));
    let mut turn = BrowserTimer::next_turn();
    assert_eq!(turn.poll(10), TimerStep::Arm(0));
    assert!(turn.fired());
    assert!(is_due(3, 3) && !is_due(4, 3));
}

#[test]
fn jitter_stays_within_its_maximum() {
    let mut jitter = Jitter::seeded(0);
    assert_eq!(jitter.state, 0x9e37_79b9_7f4a_7c15);
    assert_eq!(jitter.draw(0), 0);
    assert_eq!(jitter.state, 0x9e37_79b9_7f4a_7c15);
    let next = 0x9e37_79b9_7f4a_7c15u64.wrapping_mul(6_364_136_223_846_793_005).wrapping_add(1_442_695_040_888_963_407);
    assert_eq!(jitter.draw(9), next % 10);
    assert_eq!(jitter.state, next);
    for _ in 0..100 {
        assert!(jitter.draw(1) <= 1);
    }
    let mut other = Jitter::seeded(7);
    let drawn = other.draw(u128::MAX);
    assert_eq!(drawn, other.state);
}

fn failure(error: ControlPlaneError) -> String {
    assert!(matches!(error, ControlPlaneError::HostFailure { .. }));
    error.message()
}

#[test]
fn kernel_outcomes_are_judged() {
    assert!(judge_start(StartOutcome::Ready).is_ok());
    assert_eq!(failure(judge_start(StartOutcome::TimedOut).unwrap_err()), "Kernel Generation Ready Gate timed out");
    assert_eq!(
        failure(judge_start(StartOutcome::Failed("boom".to_owned())).unwrap_err()),
        "Kernel Generation failed before Ready: boom"
    );
    assert!(judge_shutdown(ShutdownOutcome::Clean).is_ok());
    assert_eq!(failure(judge_shutdown(ShutdownOutcome::Timeout).unwrap_err()), "Generation drain timed out");
    assert_eq!(
        failure(judge_shutdown(ShutdownOutcome::RuntimeFailure("boom".to_owned())).unwrap_err()),
        "Generation cleanup failed: boom"
    );
    assert!(terminal_failure(None).is_none());
    assert_eq!(failure(terminal_failure(Some("boom")).unwrap()), "Kernel Generation failed after Ready: boom");
}

#[test]
fn replicated_outcomes_are_judged() {
    assert_eq!(failure(replicated_start_failure("boom")), "replicated Kernel Generation failed before Ready: boom");
    assert_eq!(failure(replicated_terminal_failure(Some("boom")).unwrap()), "replicated Kernel Generation failed after Ready: boom");
    assert!(replicated_terminal_failure(None).is_none());
    let terminal = Some("lane failed".to_owned());
    assert!(judge_replicated_shutdown(&terminal, Err("lane failed".to_owned())).is_ok());
    assert!(judge_replicated_shutdown(&terminal, Ok(())).is_ok());
    assert_eq!(
        failure(judge_replicated_shutdown(&None, Err("lane failed".to_owned())).unwrap_err()),
        "replicated Generation cleanup failed: lane failed"
    );
}
