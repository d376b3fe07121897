//! Transport scenarios: correlation, isolation, ordering, shutdown — each
//! played against a simulated peer that feeds frames into the read path.

use headless_chrome::transport::{ReadDirective, Transport};
use headless_chrome::CdpError;

fn fresh() -> Transport {
    Transport::new(b"ws://127.0.0.1:1/devtools".to_vec(), None)
}

#[test]
fn echoed_response_completes_the_call() {
    // a peer that echoes {"id":1,"result":{}} for an incoming call
    let mut t = fresh();
    let id = t.call_method_on_browser(b"X", b"{}").unwrap();
    assert_eq!(id, 1);
    assert_eq!(
        t.outbound[0],
        br#"{"id":1,"method":"X","params":{}}"#.to_vec()
    );
    match t.handle_incoming(br#"{"id":1,"result":{}}"#) {
        ReadDirective::Carry => {}
        ReadDirective::Malformed => panic!("well-formed frame"),
    }
    let r = t.take_response(&None, 1).unwrap();
    assert_eq!(r.unwrap(), b"{}".to_vec());
    // the slot is consumed: a second pickup finds nothing
    assert!(t.take_response(&None, 1).is_none());
}

#[test]
fn hundred_reversed_responses_reach_their_own_callers() {
    let mut t = fresh();
    let mut ids = Vec::new();
    for _ in 0..100 {
        ids.push(t.call_method_on_browser(b"M", b"{}").unwrap());
    }
    // the peer answers in reverse order, each result naming its id
    for id in ids.iter().rev() {
        let frame = format!("{{\"id\":{},\"result\":{{\"n\":{}}}}}", id, id);
        match t.handle_incoming(frame.as_bytes()) {
            ReadDirective::Carry => {}
            ReadDirective::Malformed => panic!("well-formed frame"),
        }
    }
    for id in ids {
        let r = t.take_response(&None, id).unwrap().unwrap();
        let expected = format!("{{\"n\":{}}}", id);
        assert_eq!(r, expected.as_bytes().to_vec());
    }
}

#[test]
fn response_with_no_slot_is_dropped() {
    let mut t = fresh();
    match t.handle_incoming(br#"{"id":42,"result":{}}"#) {
        ReadDirective::Carry => {}
        ReadDirective::Malformed => panic!("well-formed frame"),
    }
    assert!(t.take_response(&None, 42).is_none());
}

#[test]
fn session_wrapped_response_reaches_only_its_session() {
    let mut t = fresh();
    let id = t.call_method_on_target(b"abc", b"DOM.getDocument", b"{}").unwrap();
    // the outer frame wraps the inner one for session abc
    let sent = String::from_utf8(t.outbound[0].clone()).unwrap();
    assert!(sent.contains("Target.sendMessageToTarget"));
    assert!(sent.contains("\"sessionId\":\"abc\""));
    // a response keyed to another session does not complete the slot
    let other = format!(
        "{{\"method\":\"Target.receivedMessageFromTarget\",\"params\":{{\"sessionId\":\"def\",\"message\":\"{{\\\"id\\\":{},\\\"result\\\":{{}}}}\"}}}}",
        id
    );
    t.handle_incoming(other.as_bytes());
    assert!(t.take_response(&Some(b"abc".to_vec()), id).is_none());
    // the response on its own session does
    let own = format!(
        "{{\"method\":\"Target.receivedMessageFromTarget\",\"params\":{{\"sessionId\":\"abc\",\"message\":\"{{\\\"id\\\":{},\\\"result\\\":{{}}}}\"}}}}",
        id
    );
    t.handle_incoming(own.as_bytes());
    let r = t.take_response(&Some(b"abc".to_vec()), id).unwrap();
    assert_eq!(r.unwrap(), b"{}".to_vec());
}

#[test]
fn session_event_is_isolated_to_its_listener() {
    let mut t = fresh();
    t.listen_to_target(b"abc".to_vec());
    t.listen_to_target(b"def".to_vec());
    let line =
        br#"{"method":"Target.receivedMessageFromTarget","params":{"sessionId":"abc","message":"{\"method\":\"Page.loadEventFired\",\"params\":{}}"}}"#;
    t.handle_incoming(line);
    let got = t.pop_session_event(&b"abc".to_vec()).expect("listener abc sees it");
    assert_eq!(got.name, b"Page.loadEventFired".to_vec());
    assert!(t.pop_session_event(&b"def".to_vec()).is_none());
    assert!(t.pop_session_event(&b"abc".to_vec()).is_none());
}

#[test]
fn browser_events_arrive_in_socket_order() {
    let mut t = fresh();
    t.listen_to_browser_events();
    t.handle_incoming(br#"{"method":"A","params":{"n":1}}"#);
    t.handle_incoming(
        br#"{"method":"Target.receivedMessageFromTarget","params":{"sessionId":"s","message":"{\"method\":\"B\",\"params\":{}}"}}"#,
    );
    t.handle_incoming(br#"{"method":"C","params":{"n":3}}"#);
    // the browser listener sees exactly its scope, in arrival order
    assert_eq!(t.pop_browser_event().unwrap().name, b"A".to_vec());
    assert_eq!(t.pop_browser_event().unwrap().name, b"C".to_vec());
    assert!(t.pop_browser_event().is_none());
}

#[test]
fn listener_registered_late_misses_earlier_events() {
    let mut t = fresh();
    t.handle_incoming(br#"{"method":"Early","params":{}}"#);
    t.listen_to_browser_events();
    t.handle_incoming(br#"{"method":"Late","params":{}}"#);
    assert_eq!(t.pop_browser_event().unwrap().name, b"Late".to_vec());
    assert!(t.pop_browser_event().is_none());
}

#[test]
fn shutdown_fails_every_pending_call_and_subsequent_calls() {
    let mut t = fresh();
    let a = t.call_method_on_browser(b"M", b"{}").unwrap();
    let b = t.call_method_on_target(b"s", b"N", b"{}").unwrap();
    t.shutdown();
    // every waiter observes TransportClosed
    assert_eq!(
        t.take_response(&None, a).unwrap(),
        Err(CdpError::TransportClosed)
    );
    assert_eq!(
        t.take_response(&Some(b"s".to_vec()), b).unwrap(),
        Err(CdpError::TransportClosed)
    );
    // a subsequent call fails immediately
    assert_eq!(
        t.call_method_on_browser(b"M", b"{}"),
        Err(CdpError::TransportClosed)
    );
    // shutdown is idempotent
    t.shutdown();
    assert_eq!(
        t.call_method_on_target(b"s", b"N", b"{}"),
        Err(CdpError::TransportClosed)
    );
}

#[test]
fn peer_error_surfaces_to_the_caller_only() {
    let mut t = fresh();
    let id = t.call_method_on_browser(b"M", b"{}").unwrap();
    t.handle_incoming(br#"{"id":1,"error":{"code":-32000,"message":"boom"}}"#);
    match t.take_response(&None, id).unwrap() {
        Err(CdpError::ProtocolError { code, message }) => {
            assert_eq!(code, -32000);
            assert_eq!(message, b"boom".to_vec());
        }
        other => panic!("expected a protocol error, got {:?}", other),
    }
}

#[test]
fn detached_session_fails_its_calls_with_session_closed() {
    let mut t = fresh();
    let root = t.call_method_on_browser(b"M", b"{}").unwrap();
    let scoped = t.call_method_on_target(b"gone", b"N", b"{}").unwrap();
    t.listen_to_target(b"gone".to_vec());
    t.session_detached(&b"gone".to_vec());
    assert_eq!(
        t.take_response(&Some(b"gone".to_vec()), scoped).unwrap(),
        Err(CdpError::SessionClosed)
    );
    // the root call is untouched
    assert!(t.take_response(&None, root).is_none());
    // the evicted listener is gone
    assert!(t.pop_session_event(&b"gone".to_vec()).is_none());
}

#[test]
fn malformed_frame_stops_the_read_loop() {
    let mut t = fresh();
    match t.handle_incoming(b"garbage") {
        ReadDirective::Malformed => {}
        ReadDirective::Carry => panic!("malformed frame must stop the loop"),
    }
}

#[test]
fn frame_without_id_or_method_is_dropped_not_fatal() {
    // a well-formed object that is neither response nor event is logged and
    // dropped; only malformed JSON stops the read loop
    let mut t = fresh();
    let id = t.call_method_on_browser(b"M", b"{}").unwrap();
    match t.handle_incoming(b"{}") {
        ReadDirective::Carry => {}
        ReadDirective::Malformed => panic!("dropped, not fatal"),
    }
    match t.handle_incoming(br#"{"sessionId":"x"}"#) {
        ReadDirective::Carry => {}
        ReadDirective::Malformed => panic!("dropped, not fatal"),
    }
    // the transport is untouched: the call can still complete
    t.handle_incoming(br#"{"id":1,"result":{}}"#);
    assert_eq!(t.take_response(&None, id).unwrap().unwrap(), b"{}".to_vec());
}
