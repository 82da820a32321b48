use std::cell::RefCell;
use std::collections::VecDeque;
use std::rc::Rc;

use lenso_runtime::guest::{
    decode_invocation, decode_transport_success, envelope_of, operations_match, WireEnvelope, GuestContext, GuestError, GuestProtocolError, GuestSessionError, GuestSessions, GuestStreamEvent, HostImports,
};
use lenso_runtime::json::{from_bytes, Json};

fn json(text: &str) -> Json {
    from_bytes(text.as_bytes()).unwrap()
}

#[derive(Clone, Debug)]
struct MockHost {
    responses: Rc<RefCell<VecDeque<String>>>,
    requests: Rc<RefCell<Vec<String>>>,
    cancelled: Rc<RefCell<Vec<u64>>>,
}

impl MockHost {
    fn new(responses: &[&str]) -> Self {
        Self {
            responses: Rc::new(RefCell::new(responses.iter().map(|value| value.to_string()).collect())),
            requests: Rc::new(RefCell::new(Vec::new())),
            cancelled: Rc::new(RefCell::new(Vec::new())),
        }
    }

    fn next(&self) -> String {
        self.responses.borrow_mut().pop_front().unwrap()
    }
}

impl HostImports for MockHost {
    fn bindings(&self) -> String {
        self.next()
    }

    fn invoke(&self, binding_id: u32, operation: &str, request_json: &str) -> String {
        self.requests.borrow_mut().push(format!("{binding_id} {operation} {request_json}"));
        self.next()
    }

    fn stream_open(&self, binding_id: u32, operation: &str, request_json: &str) -> String {
        self.requests.borrow_mut().push(format!("{binding_id} {operation} {request_json}"));
        self.next()
    }

    fn stream_send(&self, stream_id: u64, message_json: &str) -> String {
        self.requests.borrow_mut().push(format!("{stream_id} {message_json}"));
        self.next()
    }

    fn stream_receive(&self, _: u64) -> String {
        self.next()
    }

    fn stream_close_send(&self, _: u64) -> String {
        self.next()
    }

    fn stream_cancel(&self, stream_id: u64) -> String {
        self.cancelled.borrow_mut().push(stream_id);
        self.responses.borrow_mut().pop_front().unwrap_or_else(|| "{\"ok\":null}".to_owned())
    }
}

const BINDING: &str = "{\"binding_id\":7,\"provider_instance\":\"provider\",\"capability_id\":\"example.chat@1\",\"descriptor_version\":\"1.0.0\",\"request_operations\":[\"inspect\"],\"stream_operations\":[\"chat\"]}";

fn bindings() -> String {
    format!("{{\"ok\":[{BINDING}]}}")
}

/// Imports connected one by one, as a generated world hands them out.
#[derive(Clone, Copy, Debug, Default)]
struct ConnectedHost;

impl HostImports for ConnectedHost {
    fn bindings(&self) -> String {
        "{\"ok\":[]}".to_owned()
    }

    fn invoke(&self, _: u32, _: &str, _: &str) -> String {
        "{\"ok\":null}".to_owned()
    }

    fn stream_open(&self, _: u32, _: &str, _: &str) -> String {
        "{\"ok\":null}".to_owned()
    }

    fn stream_send(&self, _: u64, _: &str) -> String {
        "{\"ok\":null}".to_owned()
    }

    fn stream_receive(&self, _: u64) -> String {
        "{\"ok\":null}".to_owned()
    }

    fn stream_close_send(&self, _: u64) -> String {
        "{\"ok\":null}".to_owned()
    }

    fn stream_cancel(&self, _: u64) -> String {
        "{\"ok\":null}".to_owned()
    }
}

#[test]
fn wasm_host_macro_connects_generated_world_imports() {
    let host = ConnectedHost;
    assert_eq!(host.bindings(), "{\"ok\":[]}");
    assert_eq!(host.invoke(0, "operation", "{}"), "{\"ok\":null}");
    assert!(GuestContext::load(host).is_ok());
}

#[test]
fn guest_sessions_issue_non_zero_ids_and_fail_closed_for_unknown_sessions() {
    let mut sessions = GuestSessions::new();
    let first = sessions.insert("first").unwrap();
    let second = sessions.insert("second").unwrap();
    assert_eq!((first, second), (1, 2));
    assert_eq!(sessions.len(), 2);
    assert_eq!(*sessions.get_mut(first).unwrap(), "first");
    assert_eq!(sessions.remove(first).unwrap(), "first");
    assert!(matches!(sessions.get_mut(first), Err(GuestSessionError::UnknownSession(id)) if id == first));
    assert!(matches!(sessions.remove(0), Err(GuestSessionError::UnknownSession(0))));
}

#[test]
fn borrowing_a_session_keeps_the_number_of_sessions() {
    let mut sessions = GuestSessions::new();
    let id = sessions.insert(1u8).unwrap();
    *sessions.get_mut(id).unwrap() = 2;
    assert_eq!(sessions.len(), 1);
    assert!(!sessions.is_empty());
    assert_eq!(sessions.remove(id).unwrap(), 2);
    assert!(sessions.is_empty());
}

#[test]
fn context_selects_one_exact_plan_binding_and_invokes_requests() {
    let host = MockHost::new(&[&bindings(), "{\"ok\":{\"answer\":\"ready\"}}"]);
    let requests = host.requests.clone();
    let context = GuestContext::load(host).unwrap();
    let capability = context.require("example.chat@1", "1.0.0", &["inspect"], &["chat"]).unwrap();
    assert_eq!(capability.binding().binding_id(), 7);
    assert_eq!(capability.binding().provider_instance(), "provider");
    let response = capability.request("inspect", &json("{\"input\":\"hello\"}")).unwrap();
    assert_eq!(response, json("{\"answer\":\"ready\"}"));
    assert_eq!(*requests.borrow(), ["7 inspect {\"input\":\"hello\"}"]);
}

#[test]
fn require_tells_missing_ambiguous_and_mismatched_bindings_apart() {
    let twice = format!("{{\"ok\":[{BINDING},{BINDING}]}}");
    let context = GuestContext::load(MockHost::new(&[&twice])).unwrap();
    assert!(matches!(
        context.require("example.chat@1", "1.0.0", &["inspect"], &["chat"]),
        Err(GuestError::Protocol(GuestProtocolError::AmbiguousBinding { capability_id: "example.chat@1", descriptor_version: "1.0.0" }))
    ));
    assert!(matches!(
        context.require("example.chat@1", "2.0.0", &["inspect"], &["chat"]),
        Err(GuestError::Protocol(GuestProtocolError::MissingBinding { .. }))
    ));
    let context = GuestContext::load(MockHost::new(&[&bindings()])).unwrap();
    assert!(matches!(
        context.require("example.chat@1", "1.0.0", &["other"], &["chat"]),
        Err(GuestError::Protocol(GuestProtocolError::DescriptorMismatch { .. }))
    ));
}

#[test]
fn a_table_with_a_malformed_binding_is_refused() {
    let loaded = GuestContext::load(MockHost::new(&["{\"ok\":[{\"binding_id\":7}]}"]));
    assert!(matches!(loaded.err(), Some(GuestError::Protocol(GuestProtocolError::InvalidValue))));
}

#[test]
fn domain_runtime_and_protocol_failures_remain_distinct() {
    let domain = decode_invocation("{\"error\":{\"code\":\"denied\"}}");
    assert!(matches!(domain, Err(GuestError::Domain(error)) if error == json("{\"code\":\"denied\"}")));

    let runtime = decode_invocation("{\"runtime\":{\"kind\":\"deadline-exceeded\",\"request_id\":\"request-1\"}}");
    assert!(matches!(runtime, Err(GuestError::Runtime(error)) if error.kind() == "deadline-exceeded"));

    let protocol = decode_invocation("{\"ok\":null,\"error\":null}");
    assert!(matches!(protocol, Err(GuestError::Protocol(GuestProtocolError::InvalidEnvelope))));
}

#[test]
fn typed_stream_receives_terminal_error_and_drop_cancels_live_stream() {
    let host = MockHost::new(&[
        &bindings(),
        "{\"ok\":9}",
        "{\"ok\":{\"kind\":\"message\",\"value\":{\"text\":\"hello\"}}}",
        "{\"ok\":{\"kind\":\"terminal-error\",\"value\":{\"code\":\"closed\"}}}",
        "{\"ok\":10}",
    ]);
    let cancellations = host.cancelled.clone();
    let context = GuestContext::load(host).unwrap();
    let capability = context.require("example.chat@1", "1.0.0", &["inspect"], &["chat"]).unwrap();
    let mut stream = capability.open_stream("chat", &json("{}")).unwrap();
    assert!(matches!(stream.receive().unwrap(), GuestStreamEvent::Message(value) if value == json("{\"text\":\"hello\"}")));
    assert!(matches!(stream.receive().unwrap(), GuestStreamEvent::Terminal(Err(value)) if value == json("{\"code\":\"closed\"}")));
    assert!(stream.release().is_none());
    assert!(cancellations.borrow().is_empty());

    let mut live = capability.open_stream("chat", &json("{}")).unwrap();
    assert!(live.release().is_some());
    assert_eq!(*cancellations.borrow(), [10]);
}

#[test]
fn a_stream_sends_half_closes_and_cancels() {
    let host = MockHost::new(&[
        &bindings(),
        "{\"ok\":9}",
        "{\"ok\":null}",
        "{\"ok\":null}",
        "{\"ok\":{\"kind\":\"peer-half-closed\"}}",
        "{\"runtime\":{\"kind\":\"cancelled\"}}",
    ]);
    let requests = host.requests.clone();
    let cancellations = host.cancelled.clone();
    let context = GuestContext::load(host).unwrap();
    let capability = context.require("example.chat@1", "1.0.0", &["inspect"], &["chat"]).unwrap();
    let mut stream = capability.open_stream("chat", &json("{}")).unwrap();
    assert!(stream.send(&json("{\"n\":-3}")).is_ok());
    assert_eq!(requests.borrow().last().unwrap(), "9 {\"n\":-3}");
    assert!(stream.close_send().is_ok());
    assert!(matches!(stream.receive().unwrap(), GuestStreamEvent::PeerHalfClosed));
    assert!(matches!(stream.cancel(), Err(GuestError::Runtime(error)) if error.kind() == "cancelled"));
    assert_eq!(*cancellations.borrow(), [9]);
}

#[test]
fn a_transport_call_has_no_domain_error() {
    let refused = decode_transport_success("{\"error\":{\"code\":\"denied\"}}");
    assert!(matches!(refused, Err(GuestError::Protocol(GuestProtocolError::InvalidEnvelope))));
    assert_eq!(decode_transport_success("{\"ok\":9}").unwrap(), json("9"));
    assert!(GuestSessions::<u8>::default().is_empty());
}

#[test]
fn operations_match_in_any_order_and_as_often() {
    let list = |items: &[&str]| items.iter().map(|item| (*item).to_owned()).collect::<Vec<String>>();
    assert!(operations_match(&list(&["b", "a"]), &["a", "b"]));
    assert!(!operations_match(&list(&["a"]), &["a", "a"]));
    assert!(!operations_match(&list(&["a", "a"]), &["a", "b"]));
}

#[test]
fn a_tree_is_taken_as_a_reply() {
    assert_eq!(envelope_of(json("{\"ok\":1}")), Some(WireEnvelope::Success(Json::Unsigned(1))));
    assert_eq!(envelope_of(json("{\"error\":null}")), Some(WireEnvelope::Domain(Json::Null)));
    assert!(matches!(envelope_of(json("{\"runtime\":{\"kind\":\"closed\"}}")), Some(WireEnvelope::Runtime(failure)) if failure.kind() == "closed"));
    assert_eq!(envelope_of(json("{\"runtime\":{\"kind\":\"\"}}")), None);
    assert_eq!(envelope_of(json("{\"ok\":1,\"error\":2}")), None);
}
