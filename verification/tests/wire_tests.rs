//! Codec tests: framing, classification, escaping, numerals, URL discovery.

use headless_chrome::wire::{
    build_call_frame, build_wrapper_params, escape, extract_ws_url, parse_envelope, parse_i64,
    parse_u64, unescape, CallOutcome, Envelope,
};

#[test]
fn outbound_frame_shape() {
    let frame = build_call_frame(1, b"X", b"{}");
    assert_eq!(frame, br#"{"id":1,"method":"X","params":{}}"#.to_vec());
}

#[test]
fn outbound_frame_escapes_method() {
    let frame = build_call_frame(7, b"we\"ird", b"{}");
    assert_eq!(frame, br#"{"id":7,"method":"we\"ird","params":{}}"#.to_vec());
}

#[test]
fn wrapper_params_embed_escaped_inner_frame() {
    let inner = build_call_frame(2, b"Page.enable", b"{}");
    let wrapped = build_wrapper_params(b"abc", inner.as_slice());
    assert_eq!(
        wrapped,
        br#"{"sessionId":"abc","message":"{\"id\":2,\"method\":\"Page.enable\",\"params\":{}}"}"#
            .to_vec()
    );
}

#[test]
fn classify_success_response() {
    let env = parse_envelope(br#"{"id":1,"result":{}}"#).unwrap();
    match env {
        Envelope::Response { id, session_id, outcome } => {
            assert_eq!(id, 1);
            assert!(session_id.is_none());
            match outcome {
                CallOutcome::Success(raw) => assert_eq!(raw, b"{}".to_vec()),
                _ => panic!("expected success"),
            }
        }
        _ => panic!("expected response"),
    }
}

#[test]
fn classify_error_response() {
    let env = parse_envelope(br#"{"id":9,"error":{"code":-32601,"message":"no method"}}"#).unwrap();
    match env {
        Envelope::Response { id, outcome, .. } => {
            assert_eq!(id, 9);
            match outcome {
                CallOutcome::Failure { code, message } => {
                    assert_eq!(code, -32601);
                    assert_eq!(message, b"no method".to_vec());
                }
                _ => panic!("expected failure"),
            }
        }
        _ => panic!("expected response"),
    }
}

#[test]
fn classify_event() {
    let env = parse_envelope(br#"{"method":"Target.targetCreated","params":{"x":1}}"#).unwrap();
    match env {
        Envelope::Event { name, params, session_id } => {
            assert_eq!(name, b"Target.targetCreated".to_vec());
            assert_eq!(params, br#"{"x":1}"#.to_vec());
            assert!(session_id.is_none());
        }
        _ => panic!("expected event"),
    }
}

#[test]
fn classify_event_without_params_gets_empty_object() {
    let env = parse_envelope(br#"{"method":"Inspector.detached"}"#).unwrap();
    match env {
        Envelope::Event { params, .. } => assert_eq!(params, b"{}".to_vec()),
        _ => panic!("expected event"),
    }
}

#[test]
fn classify_unwraps_session_response() {
    let line =
        br#"{"method":"Target.receivedMessageFromTarget","params":{"sessionId":"abc","message":"{\"id\":3,\"result\":{\"ok\":true}}"}}"#;
    let env = parse_envelope(line).unwrap();
    match env {
        Envelope::Response { id, session_id, outcome } => {
            assert_eq!(id, 3);
            assert_eq!(session_id, Some(b"abc".to_vec()));
            match outcome {
                CallOutcome::Success(raw) => assert_eq!(raw, br#"{"ok":true}"#.to_vec()),
                _ => panic!("expected success"),
            }
        }
        _ => panic!("expected response"),
    }
}

#[test]
fn classify_unwraps_session_event() {
    let line =
        br#"{"method":"Target.receivedMessageFromTarget","params":{"sessionId":"s1","message":"{\"method\":\"Page.frameNavigated\",\"params\":{}}"}}"#;
    let env = parse_envelope(line).unwrap();
    match env {
        Envelope::Event { name, session_id, .. } => {
            assert_eq!(name, b"Page.frameNavigated".to_vec());
            assert_eq!(session_id, Some(b"s1".to_vec()));
        }
        _ => panic!("expected event"),
    }
}

#[test]
fn malformed_frames_are_rejected() {
    assert!(parse_envelope(b"not json").is_none());
    assert!(parse_envelope(b"{\"id\":}").is_none());
    assert!(parse_envelope(b"{}").is_none());
    assert!(parse_envelope(br#"{"id":"abc","result":{}}"#).is_none());
    assert!(parse_envelope(br#"{"id":4}"#).is_none());
}

#[test]
fn whitespace_and_member_order_are_accepted() {
    let env = parse_envelope(b" { \"result\" : { } , \"id\" : 12 } ").unwrap();
    match env {
        Envelope::Response { id, .. } => assert_eq!(id, 12),
        _ => panic!("expected response"),
    }
}

#[test]
fn escape_round_trip() {
    let raw = b"a\"b\\c\nd\te\rf".to_vec();
    let escaped = escape(raw.as_slice());
    assert_eq!(escaped, b"a\\\"b\\\\c\\nd\\te\\rf".to_vec());
    assert_eq!(unescape(escaped.as_slice()), raw);
}

#[test]
fn decimal_numerals() {
    assert_eq!(parse_u64(b"0"), Some(0));
    assert_eq!(parse_u64(b"18446744073709551615"), Some(u64::MAX));
    assert_eq!(parse_u64(b"18446744073709551616"), None);
    assert_eq!(parse_u64(b""), None);
    assert_eq!(parse_u64(b"12a"), None);
    assert_eq!(parse_i64(b"-32601"), Some(-32601));
    assert_eq!(parse_i64(b"-9223372036854775808"), Some(i64::MIN));
    assert_eq!(parse_i64(b"9223372036854775807"), Some(i64::MAX));
    assert_eq!(parse_i64(b"9223372036854775808"), None);
}

#[test]
fn ws_url_is_found_in_stderr_line() {
    let line = b"DevTools listening on ws://127.0.0.1:9222/devtools/browser/uuid";
    assert_eq!(
        extract_ws_url(line),
        Some(b"ws://127.0.0.1:9222/devtools/browser/uuid".to_vec())
    );
    assert_eq!(extract_ws_url(b"no url here"), None);
    assert_eq!(
        extract_ws_url(b"x ws://a/b tail"),
        Some(b"ws://a/b".to_vec())
    );
}

#[test]
fn duplicate_keys_first_member_wins() {
    let env = parse_envelope(br#"{"id":1,"result":{"a":1},"result":{"b":2}}"#).unwrap();
    match env {
        Envelope::Response { outcome, .. } => match outcome {
            CallOutcome::Success(raw) => assert_eq!(raw, br#"{"a":1}"#.to_vec()),
            _ => panic!("expected success"),
        },
        _ => panic!("expected response"),
    }
}

#[test]
fn nested_payloads_are_captured_verbatim() {
    let env = parse_envelope(
        br#"{"id":5,"result":{"deep":{"arr":[1,"a]}",{"x":[]}],"t":true}}}"#,
    )
    .unwrap();
    match env {
        Envelope::Response { outcome, .. } => match outcome {
            CallOutcome::Success(raw) => {
                assert_eq!(raw, br#"{"deep":{"arr":[1,"a]}",{"x":[]}],"t":true}}"#.to_vec())
            }
            _ => panic!("expected success"),
        },
        _ => panic!("expected response"),
    }
}

#[test]
fn empty_payload_call_frame() {
    assert_eq!(
        build_call_frame(18446744073709551615, b"M", b"{}"),
        br#"{"id":18446744073709551615,"method":"M","params":{}}"#.to_vec()
    );
}
