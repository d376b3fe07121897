//! Page-domain serialization and decoding.

use headless_chrome::page::{
    CaptureScreenshotReturnObject, EmulateMediaOptions, Enable, GetFrameTree, Navigate,
    NavigateReturnObject, PrintToPdfReturnObject, Reload, ScreenshotFormat,
    SetLifecycleEventsEnabled,
};
use headless_chrome::CdpError;

#[test]
fn navigate_params() {
    let m = Navigate { url: "http://127.0.0.1:8000/a?b=1".to_string() };
    assert_eq!(m.method_name(), "Page.navigate");
    assert_eq!(
        m.params_json(),
        br#"{"url":"http://127.0.0.1:8000/a?b=1"}"#.to_vec()
    );
}

#[test]
fn navigate_result_decodes() {
    let v = NavigateReturnObject::from_result(
        br#"{"frameId":"F1","loaderId":"L1"}"#,
    )
    .unwrap();
    assert_eq!(v.frame_id, "F1");
    assert_eq!(v.loader_id, Some("L1".to_string()));
    assert_eq!(v.error_text, None);
    assert_eq!(
        NavigateReturnObject::from_result(br#"{"loaderId":"L1"}"#).unwrap_err(),
        CdpError::DecodeError
    );
}

#[test]
fn reload_params_with_and_without_script() {
    let plain = Reload { ignore_cache: false, script_to_evaluate: None };
    assert_eq!(plain.method_name(), "Page.reload");
    assert_eq!(plain.params_json(), br#"{"ignoreCache":false}"#.to_vec());
    let scripted = Reload {
        ignore_cache: true,
        script_to_evaluate: Some("console.log(1)".to_string()),
    };
    assert_eq!(
        scripted.params_json(),
        br#"{"ignoreCache":true,"scriptToEvaluateOnLoad":"console.log(1)"}"#.to_vec()
    );
}

#[test]
fn lifecycle_and_enable_params() {
    let m = SetLifecycleEventsEnabled { enabled: true };
    assert_eq!(m.method_name(), "Page.setLifecycleEventsEnabled");
    assert_eq!(m.params_json(), br#"{"enabled":true}"#.to_vec());
    assert_eq!(Enable {}.params_json(), b"{}".to_vec());
    assert_eq!(Enable {}.method_name(), "Page.enable");
    assert_eq!(GetFrameTree {}.method_name(), "Page.getFrameTree");
}

#[test]
fn emulate_media_params() {
    let m = EmulateMediaOptions { media_type: "screen".to_string() };
    assert_eq!(m.method_name(), "Emulation.setEmulatedMedia");
    assert_eq!(m.params_json(), br#"{"mediaType":"screen"}"#.to_vec());
}

#[test]
fn screenshot_and_pdf_results_decode() {
    let s = CaptureScreenshotReturnObject::from_result(br#"{"data":"aGVsbG8="}"#).unwrap();
    assert_eq!(s.data, "aGVsbG8=");
    let p = PrintToPdfReturnObject::from_result(br#"{"data":"JVBERg=="}"#).unwrap();
    assert_eq!(p.data, "JVBERg==");
    assert_eq!(
        CaptureScreenshotReturnObject::from_result(br#"{"nope":1}"#).unwrap_err(),
        CdpError::DecodeError
    );
    // the format choice carries the optional JPEG quality
    match ScreenshotFormat::JPEG(Some(100)) {
        ScreenshotFormat::JPEG(q) => assert_eq!(q, Some(100)),
        ScreenshotFormat::PNG => panic!("chose jpeg"),
    }
}

#[test]
fn non_utf8_member_is_a_decode_error() {
    // {"data":"<0xFF>"} — present and a string, but not valid UTF-8
    let mut raw = br#"{"data":""#.to_vec();
    raw.push(0xFF);
    raw.extend_from_slice(br#""}"#);
    assert_eq!(
        CaptureScreenshotReturnObject::from_result(raw.as_slice()).unwrap_err(),
        CdpError::DecodeError
    );
}

#[test]
fn navigate_optional_member_of_bad_encoding_is_absent() {
    let mut raw = br#"{"frameId":"F","loaderId":""#.to_vec();
    raw.push(0xFF);
    raw.extend_from_slice(br#""}"#);
    let v = NavigateReturnObject::from_result(raw.as_slice()).unwrap();
    assert_eq!(v.frame_id, "F");
    assert_eq!(v.loader_id, None);
}
