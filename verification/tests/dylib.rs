use lenso_runtime::dylib::{
    bounded, check_operation, has_line, is_native_library, validate_content_addressed_path, validate_descriptor, validate_root, AllocatorState,
    CapabilityAbiDescriptor, CodeSignatureVerifier, DylibDescriptor, DylibGeneration, DylibLimits, DylibVerifier, ExplicitDigestTrust,
    InvokeEvent, JsonInvocationOutcome, LensoBufferV1, LoadedDylib, RootTable, WorkerStop, ABI_VERSION, EXECUTION_CLASS, STATUS_DOMAIN_ERROR,
    STATUS_FATAL, STATUS_OK,
};
use lenso_runtime::failure::RuntimeFailure;
use lenso_runtime::generation::ArtifactHandle;
use lenso_runtime::json::Json;

fn plugin_failure(detail: &str) -> RuntimeFailure {
    RuntimeFailure::PluginFailure { detail: detail.to_owned() }
}

fn invalid(detail: &str) -> RuntimeFailure {
    RuntimeFailure::InvalidResolvedPlan { detail: detail.to_owned() }
}

fn root() -> RootTable {
    RootTable {
        abi_version: ABI_VERSION,
        struct_size: 136,
        has_invoke: true,
        has_shutdown: true,
        reserved_is_zero: true,
        has_descriptor: true,
        descriptor_json_len: 2,
    }
}

fn capability() -> CapabilityAbiDescriptor {
    CapabilityAbiDescriptor {
        capability_id: "test.echo@1".to_owned(),
        descriptor_version: "1.0.0".to_owned(),
        request_operations: vec!["echo".to_owned(), "fail".to_owned()],
    }
}

fn loaded() -> LoadedDylib {
    let descriptor = Ok(DylibDescriptor { capabilities: vec![capability()] });
    LoadedDylib::load(Some(STATUS_OK), &root(), 136, &vec![capability()], &descriptor, AllocatorState::new(), DylibLimits::default()).unwrap()
}

fn artifact(digest: &str) -> ArtifactHandle {
    ArtifactHandle { path: "/store/plugin".to_owned(), digest: digest.to_owned(), size: 6 }
}

#[test]
fn bounded_failure_preserves_utf8() {
    let detail = bounded("界".repeat(400));

    assert_eq!(detail.len(), 1023);
    assert_eq!(detail.chars().count(), 341);
}

#[test]
fn short_failures_are_not_cut() {
    assert_eq!(bounded("a".repeat(1024)), "a".repeat(1024));
    assert_eq!(bounded("a".repeat(1025)), "a".repeat(1024));
    assert_eq!(bounded(String::new()), "");
}

#[test]
fn only_exact_digests_are_trusted() {
    let trust = ExplicitDigestTrust::new(vec!["sha256:aa".to_owned()]);
    assert_eq!(trust.verify(&artifact("sha256:aa")), Ok(()));
    assert_eq!(
        trust.verify(&artifact("sha256:ab")),
        Err(invalid("native dylib `sha256:ab` lacks an exact explicit trust decision"))
    );
}

#[test]
fn code_signature_needs_the_exact_team() {
    let verifier = CodeSignatureVerifier::new("TEAM1".to_owned(), vec!["sha256:aa".to_owned()]);
    assert_eq!(verifier.check_trust(&artifact("sha256:aa")), Ok(()));
    assert_eq!(verifier.check_trust(&artifact("sha256:bb")), Err(invalid("native dylib digest lacks explicit trust")));
    assert_eq!(verifier.judge_signature(Ok(true)), Ok(()));
    assert_eq!(verifier.judge_signature(Ok(false)), Err(invalid("native dylib has an invalid code signature")));
    assert_eq!(
        verifier.judge_signature(Err("absent".to_owned())),
        Err(RuntimeFailure::Internal { detail: "failed to execute codesign: absent".to_owned() })
    );
    assert_eq!(verifier.judge_identity(Ok((true, "Format=x\r\nTeamIdentifier=TEAM1\n".to_owned()))), Ok(()));
    assert_eq!(
        verifier.judge_identity(Ok((true, "TeamIdentifier=TEAM12\n".to_owned()))),
        Err(invalid("native dylib Team Identifier is not admitted"))
    );
    assert_eq!(
        verifier.judge_identity(Err("absent".to_owned())),
        Err(RuntimeFailure::Internal { detail: "failed to inspect codesign identity: absent".to_owned() })
    );
}

#[test]
fn lines_are_those_of_the_standard_library() {
    for text in ["", "a", "a\n", "a\r\nb", "b\r", "\n\na", "a\r\r\n", "x\n\r\n"] {
        for line in ["", "a", "b", "b\r", "a\r", "x"] {
            assert_eq!(has_line(text, line), text.lines().any(|found| found == line), "{text:?} {line:?}");
        }
    }
}

#[test]
fn root_table_is_validated() {
    let limits = DylibLimits::default();
    assert_eq!(validate_root(&root(), 136, &limits), Ok(()));
    let broken = [
        RootTable { abi_version: 2, ..root() },
        RootTable { struct_size: 128, ..root() },
        RootTable { has_invoke: false, ..root() },
        RootTable { reserved_is_zero: false, ..root() },
        RootTable { descriptor_json_len: 256 * 1024 + 1, ..root() },
        RootTable { has_descriptor: false, ..root() },
    ];
    for table in &broken {
        assert_eq!(
            validate_root(table, 136, &limits),
            Err(plugin_failure("native dylib returned an invalid V1 root table"))
        );
    }
    let bare = RootTable { has_descriptor: false, descriptor_json_len: 0, ..root() };
    assert_eq!(validate_root(&bare, 136, &limits), Ok(()));
}

#[test]
fn descriptor_must_match_the_plan() {
    let planned = vec![capability()];
    assert_eq!(validate_descriptor(&planned, &Ok(DylibDescriptor { capabilities: vec![capability()] })), Ok(()));
    assert_eq!(
        validate_descriptor(&planned, &Ok(DylibDescriptor { capabilities: Vec::new() })),
        Err(plugin_failure("native dylib Capability table does not match the Plan"))
    );
    let mut other = capability();
    other.request_operations.pop();
    assert_eq!(
        validate_descriptor(&planned, &Ok(DylibDescriptor { capabilities: vec![other] })),
        Err(RuntimeFailure::ProtocolViolation { capability: "test.echo@1".to_owned() })
    );
    assert_eq!(
        validate_descriptor(&planned, &Err("expected value".to_owned())),
        Err(invalid("native dylib descriptor is invalid: expected value"))
    );
}

#[test]
fn loading_judges_the_entry_point() {
    let descriptor = Ok(DylibDescriptor { capabilities: Vec::new() });
    let load = |status| LoadedDylib::load(status, &root(), 136, &Vec::new(), &descriptor, AllocatorState::new(), DylibLimits::default());
    assert_eq!(
        load(None).unwrap_err(),
        plugin_failure("native dylib panicked while constructing its root table")
    );
    assert_eq!(load(Some(STATUS_FATAL)).unwrap_err(), plugin_failure("native dylib rejected V1 host table"));
    assert!(load(Some(STATUS_OK)).is_ok());
}

#[test]
fn host_owns_every_buffer() {
    let mut state = AllocatorState::new();
    assert!(AllocatorState::begin_allocate(true, 0).is_none());
    assert!(AllocatorState::begin_allocate(false, 4).is_none());
    let bytes = AllocatorState::begin_allocate(true, 4).unwrap();
    assert_eq!(bytes, vec![0, 0, 0, 0]);
    let buffer = state.hold(100, bytes, 4, 0);
    assert_eq!(buffer, LensoBufferV1 { pointer: 100, length: 0, capacity: 4 });
    assert!(!state.is_empty());

    assert!(state.begin_reallocate(true, LensoBufferV1 { capacity: 5, ..buffer }, 8).is_none());
    assert!(state.begin_reallocate(true, LensoBufferV1 { length: 9, ..buffer }, 8).is_none());
    let grown = state.begin_reallocate(true, buffer, 8).unwrap();
    assert_eq!(grown, vec![0; 8]);
    assert!(state.is_empty());
    let moved = state.hold(200, grown, 8, 3);
    assert_eq!(state.free(false, moved), STATUS_FATAL);
    assert_eq!(state.free(true, moved), STATUS_OK);
    assert_eq!(state.free(true, moved), STATUS_FATAL);
    assert!(state.is_empty());
}

#[test]
fn completed_calls_are_read_from_host_buffers() {
    let mut library = loaded();
    assert_eq!(library.begin_invoke(1024 * 1024), Ok(()));
    assert_eq!(
        library.begin_invoke(1024 * 1024 + 1),
        Err(plugin_failure("native dylib request exceeds max_request_bytes"))
    );
    let output = library.allocator.hold(8, b"7   ".to_vec(), 4, 1);
    assert_eq!(library.finish_invoke(Some(STATUS_OK), output), Ok(JsonInvocationOutcome::Success(Json::Unsigned(7))));
    assert_eq!(
        library.finish_invoke(Some(STATUS_OK), output),
        Err(plugin_failure("native dylib returned a buffer not owned by the host allocator"))
    );
    assert!(!library.failed);
    let output = library.allocator.hold(8, b"\"declared\"".to_vec(), 10, 10);
    assert_eq!(
        library.finish_invoke(Some(STATUS_DOMAIN_ERROR), output),
        Ok(JsonInvocationOutcome::DomainError(Json::Text("declared".to_owned())))
    );
    let output = library.allocator.hold(8, b"{".to_vec(), 1, 1);
    match library.finish_invoke(Some(STATUS_OK), output) {
        Err(RuntimeFailure::PluginFailure { detail }) => assert!(detail.starts_with("native dylib returned invalid JSON: ")),
        other => panic!("unexpected {other:?}"),
    }
    assert!(!library.failed);
    let output = library.allocator.hold(8, b"null".to_vec(), 4, 4);
    assert_eq!(
        library.finish_invoke(Some(STATUS_FATAL), output),
        Err(plugin_failure("native dylib returned a fatal status"))
    );
    assert!(library.failed);
    assert_eq!(library.begin_invoke(0), Err(plugin_failure("native dylib generation is retired")));
}

#[test]
fn broken_buffers_retire_the_library() {
    let mut library = loaded();
    let output = LensoBufferV1 { pointer: 8, length: 5, capacity: 4 };
    assert_eq!(
        library.take_output(output),
        Err(plugin_failure("native dylib returned an invalid output buffer length"))
    );
    assert!(library.failed);

    let mut library = loaded();
    let output = library.allocator.hold(8, b"1".to_vec(), 1, 1);
    assert_eq!(
        library.take_output(LensoBufferV1 { capacity: 2, ..output }),
        Err(plugin_failure("native dylib changed output buffer ownership metadata"))
    );
    assert!(library.failed);
    assert_eq!(
        library.finish_invoke(None, output),
        Err(plugin_failure("native dylib panicked across its invoke callback"))
    );
}

#[test]
fn shutdown_runs_once_and_reports_leaks() {
    let mut library = loaded();
    assert!(library.begin_shutdown(true));
    assert!(!library.begin_shutdown(true));
    assert_eq!(library.finish_shutdown(Some(STATUS_OK)), Ok(()));
    assert_eq!(
        library.finish_shutdown(None),
        Err(plugin_failure("native dylib panicked across its shutdown callback"))
    );
    assert_eq!(
        library.finish_shutdown(Some(STATUS_FATAL)),
        Err(plugin_failure("native dylib shutdown returned a fatal status"))
    );
    let _ = library.allocator.hold(8, b"1".to_vec(), 1, 1);
    assert_eq!(
        library.finish_shutdown(Some(STATUS_OK)),
        Err(plugin_failure("native dylib leaked host-owned output buffers"))
    );
    assert_eq!(library.begin_invoke(0), Err(plugin_failure("native dylib generation is retired")));
}

#[test]
fn worker_retires_its_generation() {
    let mut generation = DylibGeneration::start(Ok(()), Ok(Ok(()))).unwrap();
    assert_eq!(generation.begin_invoke(), Ok(()));
    generation.begin_call();
    assert!(generation.finish_call(false));
    generation.begin_call();
    assert!(!generation.finish_call(true));
    assert_eq!(generation.begin_invoke(), Err(plugin_failure("native dylib generation is retired")));

    let mut generation = DylibGeneration::start(Ok(()), Ok(Ok(()))).unwrap();
    assert_eq!(
        generation.settle(InvokeEvent::Cancelled { request_id: 4 }),
        Err(RuntimeFailure::Cancelled { request_id: 4 })
    );
    assert!(generation.failed);
    assert_eq!(generation.settle(InvokeEvent::WorkerStopped), Err(plugin_failure("native dylib worker stopped")));
    generation.begin_call();
    assert_eq!(generation.stop(), WorkerStop::Detach);
    assert_eq!(generation.stop(), WorkerStop::Nothing);
    let mut idle = DylibGeneration::start(Ok(()), Ok(Ok(()))).unwrap();
    assert_eq!(idle.stop(), WorkerStop::Join);
    assert_eq!(
        DylibGeneration::start(Err("no thread".to_owned()), Ok(Ok(()))),
        Err(RuntimeFailure::Internal { detail: "failed to start native dylib worker: no thread".to_owned() })
    );
    assert_eq!(
        DylibGeneration::start(Ok(()), Err("gone".to_owned())),
        Err(plugin_failure("native dylib worker stopped before Ready: gone"))
    );
    assert_eq!(
        DylibGeneration::refused(),
        RuntimeFailure::ResourceExhausted { capability: EXECUTION_CLASS.to_owned(), operation: "invoke".to_owned() }
    );
}

#[test]
fn endpoint_knows_its_operations() {
    let operations = vec!["echo".to_owned()];
    assert_eq!(check_operation("test.echo@1", &operations, "echo", false, 1), Ok(()));
    assert_eq!(
        check_operation("test.echo@1", &operations, "echo", true, 1),
        Err(RuntimeFailure::Cancelled { request_id: 1 })
    );
    assert_eq!(
        check_operation("test.echo@1", &operations, "other", false, 1),
        Err(RuntimeFailure::UnknownOperation { capability: "test.echo@1".to_owned(), operation: "other".to_owned() })
    );
}

#[test]
fn library_is_loaded_from_its_content_address() {
    let hex = "0123456789abcdef".repeat(4);
    let handle = artifact(&format!("sha256:{hex}"));
    assert_eq!(validate_content_addressed_path(&handle, Some(hex.as_str()), "/x"), Ok(()));
    assert_eq!(
        validate_content_addressed_path(&handle, Some("plugin.so"), "/x/plugin.so"),
        Err(invalid("native dylib `/x/plugin.so` is not loaded from its content-addressed path"))
    );
    assert_eq!(
        validate_content_addressed_path(&handle, None, "/"),
        Err(invalid("native dylib `/` is not loaded from its content-addressed path"))
    );
    for name in ["plugin", "plugin.so", "a.dylib", "b.dll", "..", ".so", "x.tar.so"] {
        assert!(is_native_library(name), "{name}");
    }
    for name in ["plugin.wasm", "a.so.1", "a."] {
        assert!(!is_native_library(name), "{name}");
    }
}
