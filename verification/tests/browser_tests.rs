//! Browser supervisor scenarios: tab registry, discovery, waiting, teardown.

use headless_chrome::browser::{Browser, ProcessHandle, Tab, Context};
use headless_chrome::protocol::{
    decode_browser_context_id, decode_session_id, decode_target_id, CreateTarget,
    VersionInformationReturnObject,
};
use headless_chrome::router::RoutedEvent;
use headless_chrome::waiter::{
    wait_result, Wait, WaitOutcome, DEFAULT_CALL_TIMEOUT_MS, EVENT_RECV_TIMEOUT_MS,
    INITIAL_TAB_TIMEOUT_MS, NEW_TAB_TIMEOUT_MS,
};
use headless_chrome::CdpError;

fn page_created_event(target_id: &str) -> RoutedEvent {
    RoutedEvent {
        name: b"Target.targetCreated".to_vec(),
        params: format!(
            "{{\"targetInfo\":{{\"targetId\":\"{}\",\"type\":\"page\",\"url\":\"about:blank\"}}}}",
            target_id
        )
        .into_bytes(),
    }
}

#[test]
fn target_created_page_grows_the_tab_set() {
    let mut b = Browser::connect(b"ws://127.0.0.1:1/x".to_vec()).unwrap();
    assert!(b.wait_for_initial_tab().is_none());
    b.handle_browser_event(&page_created_event("T1"));
    assert_eq!(b.get_tabs().len(), 1);
    let tab = b.wait_for_initial_tab().expect("initial tab resolves");
    assert_eq!(tab.get_target_id(), &b"T1".to_vec());
}

#[test]
fn non_page_targets_are_ignored() {
    let mut b = Browser::connect(b"ws://127.0.0.1:1/x".to_vec()).unwrap();
    b.handle_browser_event(&RoutedEvent {
        name: b"Target.targetCreated".to_vec(),
        params: br#"{"targetInfo":{"targetId":"W","type":"service_worker","url":"u"}}"#.to_vec(),
    });
    assert_eq!(b.get_tabs().len(), 0);
}

#[test]
fn target_info_changed_updates_the_known_tab() {
    let mut b = Browser::connect(b"ws://127.0.0.1:1/x".to_vec()).unwrap();
    b.handle_browser_event(&page_created_event("T1"));
    b.handle_browser_event(&RoutedEvent {
        name: b"Target.targetInfoChanged".to_vec(),
        params: br#"{"targetInfo":{"targetId":"T1","type":"page","url":"https://example.test/"}}"#
            .to_vec(),
    });
    assert_eq!(b.get_tabs()[0].info.url, b"https://example.test/".to_vec());
    // an event about an unknown tab changes nothing
    b.handle_browser_event(&RoutedEvent {
        name: b"Target.targetInfoChanged".to_vec(),
        params: br#"{"targetInfo":{"targetId":"NOPE","type":"page","url":"u"}}"#.to_vec(),
    });
    assert_eq!(b.get_tabs().len(), 1);
}

#[test]
fn target_destroyed_keeps_the_tab_set() {
    let mut b = Browser::connect(b"ws://127.0.0.1:1/x".to_vec()).unwrap();
    b.handle_browser_event(&page_created_event("T1"));
    b.handle_browser_event(&RoutedEvent {
        name: b"Target.targetDestroyed".to_vec(),
        params: br#"{"targetId":"T1"}"#.to_vec(),
    });
    assert_eq!(b.get_tabs().len(), 1);
}

#[test]
fn construction_starts_discovery() {
    let b = Browser::connect(b"ws://127.0.0.1:1/x".to_vec()).unwrap();
    assert_eq!(b.transport.outbound.len(), 1);
    assert_eq!(
        b.transport.outbound[0],
        br#"{"id":1,"method":"Target.setDiscoverTargets","params":{"discover":true}}"#.to_vec()
    );
    assert_eq!(b.get_process_id(), None);
}

#[test]
fn owned_process_keeps_its_id() {
    let p = ProcessHandle::from_stderr_line(
        4242,
        b"DevTools listening on ws://127.0.0.1:9222/devtools/browser/u",
    )
    .unwrap();
    assert_eq!(p.debug_ws_url, b"ws://127.0.0.1:9222/devtools/browser/u".to_vec());
    let b = Browser::new(p).unwrap();
    assert_eq!(b.get_process_id(), Some(4242));
    assert!(b.process().is_some());
}

#[test]
fn launch_without_advertised_url_is_a_launch_error() {
    assert_eq!(
        ProcessHandle::from_stderr_line(1, b"no url on this line").unwrap_err(),
        CdpError::LaunchError
    );
}

#[test]
fn new_tab_issues_create_target_and_resolves_by_target_id() {
    let mut b = Browser::connect(b"ws://127.0.0.1:1/x".to_vec()).unwrap();
    let id = b.new_tab().unwrap();
    assert_eq!(
        b.transport.outbound[1],
        format!(
            "{{\"id\":{},\"method\":\"Target.createTarget\",\"params\":{{\"url\":\"about:blank\"}}}}",
            id
        )
        .into_bytes()
    );
    // the peer answers with the new target's id, then announces the target
    let resp = format!("{{\"id\":{},\"result\":{{\"targetId\":\"NEW\"}}}}", id);
    b.transport.handle_incoming(resp.as_bytes());
    let raw = b.transport.take_response(&None, id).unwrap().unwrap();
    let tid = decode_target_id(raw.as_slice()).unwrap();
    assert_eq!(tid, b"NEW".to_vec());
    b.handle_browser_event(&page_created_event("NEW"));
    let tab: &Tab = b.find_tab_by_target_id(tid.as_slice()).expect("tab appears");
    assert_eq!(tab.target_id, b"NEW".to_vec());
}

#[test]
fn new_tab_with_options_serializes_every_option() {
    let mut b = Browser::connect(b"ws://127.0.0.1:1/x".to_vec()).unwrap();
    let id = b
        .new_tab_with_options(CreateTarget {
            url: "chrome://version".to_string(),
            width: Some(1024),
            height: Some(800),
            browser_context_id: Some("CTX".to_string()),
            enable_begin_frame_control: Some(false),
        })
        .unwrap();
    let expected = format!(
        "{{\"id\":{},\"method\":\"Target.createTarget\",\"params\":{{\"url\":\"chrome://version\",\"width\":1024,\"height\":800,\"browserContextId\":\"CTX\",\"enableBeginFrameControl\":false}}}}",
        id
    );
    assert_eq!(b.transport.outbound[1], expected.into_bytes());
}

#[test]
fn new_context_round_trip() {
    let mut b = Browser::connect(b"ws://127.0.0.1:1/x".to_vec()).unwrap();
    let id = b.new_context().unwrap();
    let resp = format!("{{\"id\":{},\"result\":{{\"browserContextId\":\"CTX9\"}}}}", id);
    b.transport.handle_incoming(resp.as_bytes());
    let raw = b.transport.take_response(&None, id).unwrap().unwrap();
    let ctx = Context::new(decode_browser_context_id(raw.as_slice()).unwrap());
    assert_eq!(ctx.get_id(), &b"CTX9".to_vec());
}

#[test]
fn get_version_decodes_the_product() {
    let mut b = Browser::connect(b"ws://127.0.0.1:1/x".to_vec()).unwrap();
    let id = b.get_version().unwrap();
    let resp = format!(
        "{{\"id\":{},\"result\":{{\"protocolVersion\":\"1.3\",\"product\":\"HeadlessChrome/90.0\",\"revision\":\"r1\",\"userAgent\":\"UA\",\"jsVersion\":\"9.0\"}}}}",
        id
    );
    b.transport.handle_incoming(resp.as_bytes());
    let raw = b.transport.take_response(&None, id).unwrap().unwrap();
    let v = VersionInformationReturnObject::from_result(raw.as_slice()).unwrap();
    assert!(v.product.starts_with("HeadlessChrome/") || v.product.starts_with("Chrome/"));
    assert_eq!(v.user_agent, "UA");
}

#[test]
fn version_of_wrong_shape_is_a_decode_error() {
    assert_eq!(
        VersionInformationReturnObject::from_result(br#"{"product":"only"}"#).unwrap_err(),
        CdpError::DecodeError
    );
}

#[test]
fn dropping_browser_releases_waiters_on_tabs() {
    // an unrelated waiter holds a tab handle and waits on a call while the
    // browser is torn down: the waiter observes TransportClosed, not a hang
    let mut b = Browser::connect(b"ws://127.0.0.1:1/x".to_vec()).unwrap();
    b.handle_browser_event(&page_created_event("T1"));
    let held_tab = b.get_tabs()[0].target_id.clone();
    let pending = b.get_version().unwrap();
    b.shutdown();
    assert_eq!(
        b.transport.take_response(&None, pending).unwrap(),
        Err(CdpError::TransportClosed)
    );
    // the tab handle stays readable after the drop
    assert_eq!(held_tab, b"T1".to_vec());
    assert!(b.fanout_shutdown);
}

#[test]
fn wait_resolves_times_out_and_backs_off() {
    let mut w = Wait::with_timeout(10_000);
    // pending polls back off but never reach a second
    let mut elapsed: u64 = 0;
    let mut sleeps: Vec<u64> = Vec::new();
    for _ in 0..16 {
        match w.until_step::<u32>(elapsed, None) {
            WaitOutcome::Pending { sleep_ms } => {
                assert!(0 < sleep_ms && sleep_ms < 1000);
                sleeps.push(sleep_ms);
                elapsed += sleep_ms;
            }
            _ => panic!("deadline not reached yet"),
        }
    }
    assert_eq!(sleeps[0], 100);
    assert_eq!(sleeps[1], 150);
    assert!(sleeps.iter().all(|s| *s <= 800));
    // a successful poll resolves
    match w.until_step(elapsed, Some(7u32)) {
        WaitOutcome::Resolved(v) => assert_eq!(v, 7),
        _ => panic!("poll resolved"),
    }
    // past the deadline the wait times out, and maps to the Timeout error
    let out = w.until_step::<u32>(10_000, None);
    assert_eq!(wait_result(out).unwrap_err(), CdpError::Timeout);
}

#[test]
fn lazy_attach_gives_the_tab_a_session() {
    let mut b = Browser::connect(b"ws://127.0.0.1:1/x".to_vec()).unwrap();
    b.handle_browser_event(&page_created_event("T1"));
    // first session-scoped interaction triggers the attach handshake
    let id = b.attach_target(b"T1").unwrap();
    assert_eq!(
        b.transport.outbound[1],
        format!(
            "{{\"id\":{},\"method\":\"Target.attachToTarget\",\"params\":{{\"targetId\":\"T1\"}}}}",
            id
        )
        .into_bytes()
    );
    let resp = format!("{{\"id\":{},\"result\":{{\"sessionId\":\"S9\"}}}}", id);
    b.transport.handle_incoming(resp.as_bytes());
    let raw = b.transport.take_response(&None, id).unwrap().unwrap();
    let session = decode_session_id(raw.as_slice()).unwrap();
    b.tabs[0].set_session(session.clone());
    assert_eq!(b.tabs[0].session_id, Some(b"S9".to_vec()));
    // session-scoped calls now go through the wrapper route
    let sid = b
        .transport
        .call_method_on_target(session.as_slice(), b"Page.enable", b"{}")
        .unwrap();
    let sent = String::from_utf8(b.transport.outbound[2].clone()).unwrap();
    assert!(sent.contains("Target.sendMessageToTarget"));
    assert!(sent.contains("\"sessionId\":\"S9\""));
    assert!(sid > id);
}

#[test]
fn duplicate_target_created_does_not_duplicate_the_tab() {
    // the tab registry is a set keyed by target id
    let mut b = Browser::connect(b"ws://127.0.0.1:1/x".to_vec()).unwrap();
    b.handle_browser_event(&page_created_event("T1"));
    b.handle_browser_event(&page_created_event("T1"));
    assert_eq!(b.get_tabs().len(), 1);
    b.handle_browser_event(&page_created_event("T2"));
    assert_eq!(b.get_tabs().len(), 2);
}

#[test]
fn timeout_defaults_are_shared() {
    assert_eq!(DEFAULT_CALL_TIMEOUT_MS, 15_000);
    assert_eq!(EVENT_RECV_TIMEOUT_MS, 20_000);
    assert_eq!(INITIAL_TAB_TIMEOUT_MS, 10_000);
    assert_eq!(NEW_TAB_TIMEOUT_MS, 20_000);
}
