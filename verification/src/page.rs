//! Page-domain protocol shapes: frames, navigation, screenshots, PDF
//! printing, media emulation, and page lifecycle events.

use vstd::prelude::*;
use vstd::string::StringSliceAdditionalSpecFns;
use crate::wire;
use crate::CdpError;
use crate::protocol::{decode_utf8_member, opt_utf8_member, spec_bool_bytes, spec_string_member_utf8, string_bytes, utf8_bytes};

verus! {

/// One frame of a page's frame tree.
pub struct Frame {
    pub id: String,
    pub parent_id: Option<String>,
    pub loader_id: String,
    pub name: Option<String>,
    pub url: String,
    pub security_origin: String,
    pub mime_type: String,
    pub unreachable_url: Option<String>,
}

/// The format a screenshot will be captured in; JPEG carries an optional
/// compression quality from 0 to 100.
pub enum ScreenshotFormat {
    JPEG(Option<u8>),
    PNG,
}

/// `Emulation.setEmulatedMedia` options.
pub struct EmulateMediaOptions {
    pub media_type: String,
}

pub open spec fn spec_emulate_media_params(m: EmulateMediaOptions) -> Seq<u8> {
    "{\"mediaType\":\"".spec_bytes() + wire::spec_escape(utf8_bytes(m.media_type))
        + "\"}".spec_bytes()
}

impl EmulateMediaOptions {
    pub fn method_name(&self) -> (r: &'static str)
        ensures
            r@ == "Emulation.setEmulatedMedia"@,
    {
        "Emulation.setEmulatedMedia"
    }

    pub fn params_json(&self) -> (r: Vec<u8>)
        ensures
            r@ == spec_emulate_media_params(*self),
    {
        let mut r: Vec<u8> = Vec::new();
        wire::append_bytes(&mut r, "{\"mediaType\":\"".as_bytes());
        let mb = string_bytes(&self.media_type);
        let me = wire::escape(mb.as_slice());
        wire::append_bytes(&mut r, me.as_slice());
        wire::append_bytes(&mut r, "\"}".as_bytes());
        proof {
            assert(r@ =~= spec_emulate_media_params(*self));
        }
        r
    }
}

// ---------------------------------------------------------------------------
// lifecycle events
// ---------------------------------------------------------------------------

/// `Page.frameStartedLoading`.
pub struct FrameStartedLoadingEvent {
    pub params: FrameStartedLoadingParams,
}

pub struct FrameStartedLoadingParams {
    pub frame_id: String,
}

/// `Page.frameNavigated`.
pub struct FrameNavigatedEvent {
    pub params: FrameNavigatedParams,
}

pub struct FrameNavigatedParams {
    pub frame: Frame,
}

/// `Page.frameStoppedLoading`.
pub struct FrameStoppedLoadingEvent {
    pub params: FrameStoppedLoadingParams,
}

pub struct FrameStoppedLoadingParams {
    pub frame_id: String,
}

// ---------------------------------------------------------------------------
// methods and their return shapes
// ---------------------------------------------------------------------------

/// What `Page.captureScreenshot` returns: image data, base64-encoded.
#[derive(Debug)]
pub struct CaptureScreenshotReturnObject {
    pub data: String,
}

impl CaptureScreenshotReturnObject {
    /// Decode a `Page.captureScreenshot` result; `DecodeError` exactly when
    /// `data` is missing, not a string, or not valid UTF-8.
    pub fn from_result(raw: &[u8]) -> (r: Result<CaptureScreenshotReturnObject, CdpError>)
        ensures
            match r {
                Ok(v) => spec_string_member_utf8(raw@, "data".spec_bytes()) == Some(
                    utf8_bytes(v.data),
                ),
                Err(e) => (spec_string_member_utf8(raw@, "data".spec_bytes()) is None) && e
                    == CdpError::DecodeError,
            },
    {
        match decode_utf8_member(raw, "data") {
            Ok(data) => Ok(CaptureScreenshotReturnObject { data }),
            Err(e) => Err(e),
        }
    }
}

/// What `Page.printToPDF` returns: document data, base64-encoded.
#[derive(Debug)]
pub struct PrintToPdfReturnObject {
    pub data: String,
}

impl PrintToPdfReturnObject {
    /// Decode a `Page.printToPDF` result; `DecodeError` exactly when `data`
    /// is missing, not a string, or not valid UTF-8.
    pub fn from_result(raw: &[u8]) -> (r: Result<PrintToPdfReturnObject, CdpError>)
        ensures
            match r {
                Ok(v) => spec_string_member_utf8(raw@, "data".spec_bytes()) == Some(
                    utf8_bytes(v.data),
                ),
                Err(e) => (spec_string_member_utf8(raw@, "data".spec_bytes()) is None) && e
                    == CdpError::DecodeError,
            },
    {
        match decode_utf8_member(raw, "data") {
            Ok(data) => Ok(PrintToPdfReturnObject { data }),
            Err(e) => Err(e),
        }
    }
}

/// What `Emulation.setEmulatedMedia` returns.
pub struct EmulateMediaReturnObject {
    pub data: String,
}

/// `Page.reload`.
pub struct Reload {
    pub ignore_cache: bool,
    pub script_to_evaluate: Option<String>,
}

pub open spec fn spec_reload_params(m: Reload) -> Seq<u8> {
    "{\"ignoreCache\":".spec_bytes() + spec_bool_bytes(m.ignore_cache) + (
    match m.script_to_evaluate {
        Some(s) => ",\"scriptToEvaluateOnLoad\":\"".spec_bytes() + wire::spec_escape(
            utf8_bytes(s),
        ) + "\"".spec_bytes(),
        None => Seq::<u8>::empty(),
    }) + "}".spec_bytes()
}

impl Reload {
    pub fn method_name(&self) -> (r: &'static str)
        ensures
            r@ == "Page.reload"@,
    {
        "Page.reload"
    }

    pub fn params_json(&self) -> (r: Vec<u8>)
        ensures
            r@ == spec_reload_params(*self),
    {
        let mut r: Vec<u8> = Vec::new();
        wire::append_bytes(&mut r, "{\"ignoreCache\":".as_bytes());
        if self.ignore_cache {
            wire::append_bytes(&mut r, "true".as_bytes());
        } else {
            wire::append_bytes(&mut r, "false".as_bytes());
        }
        match &self.script_to_evaluate {
            Some(s) => {
                wire::append_bytes(&mut r, ",\"scriptToEvaluateOnLoad\":\"".as_bytes());
                let sb = string_bytes(s);
                let se = wire::escape(sb.as_slice());
                wire::append_bytes(&mut r, se.as_slice());
                wire::append_bytes(&mut r, "\"".as_bytes());
            },
            None => {},
        }
        wire::append_bytes(&mut r, "}".as_bytes());
        proof {
            assert(r@ =~= spec_reload_params(*self));
        }
        r
    }
}

/// What `Page.reload` returns.
pub struct ReloadReturnObject {}

/// `Page.setLifecycleEventsEnabled`.
pub struct SetLifecycleEventsEnabled {
    pub enabled: bool,
}

pub open spec fn spec_set_lifecycle_params(m: SetLifecycleEventsEnabled) -> Seq<u8> {
    "{\"enabled\":".spec_bytes() + spec_bool_bytes(m.enabled) + "}".spec_bytes()
}

impl SetLifecycleEventsEnabled {
    pub fn method_name(&self) -> (r: &'static str)
        ensures
            r@ == "Page.setLifecycleEventsEnabled"@,
    {
        "Page.setLifecycleEventsEnabled"
    }

    pub fn params_json(&self) -> (r: Vec<u8>)
        ensures
            r@ == spec_set_lifecycle_params(*self),
    {
        let mut r: Vec<u8> = Vec::new();
        wire::append_bytes(&mut r, "{\"enabled\":".as_bytes());
        if self.enabled {
            wire::append_bytes(&mut r, "true".as_bytes());
        } else {
            wire::append_bytes(&mut r, "false".as_bytes());
        }
        wire::append_bytes(&mut r, "}".as_bytes());
        proof {
            assert(r@ =~= spec_set_lifecycle_params(*self));
        }
        r
    }
}

/// What `Page.setLifecycleEventsEnabled` returns.
pub struct SetLifecycleEventsEnabledReturnObject {}

/// `Page.getFrameTree`.
pub struct GetFrameTree {}

impl GetFrameTree {
    pub fn method_name(&self) -> (r: &'static str)
        ensures
            r@ == "Page.getFrameTree"@,
    {
        "Page.getFrameTree"
    }

    pub fn params_json(&self) -> (r: Vec<u8>)
        ensures
            r@ == wire::empty_obj(),
    {
        let mut r: Vec<u8> = Vec::new();
        r.push(123);
        r.push(125);
        proof {
            assert(r@ =~= wire::empty_obj());
        }
        r
    }
}

/// A frame and its children.
pub struct FrameTree {
    pub frame: Frame,
    pub child_frames: Option<Vec<FrameTree>>,
}

/// What `Page.getFrameTree` returns.
pub struct GetFrameTreeReturnObject {
    pub frame_tree: FrameTree,
}

/// `Page.navigate`.
pub struct Navigate {
    pub url: String,
}

pub open spec fn spec_navigate_params(m: Navigate) -> Seq<u8> {
    "{\"url\":\"".spec_bytes() + wire::spec_escape(utf8_bytes(m.url)) + "\"}".spec_bytes()
}

impl Navigate {
    pub fn method_name(&self) -> (r: &'static str)
        ensures
            r@ == "Page.navigate"@,
    {
        "Page.navigate"
    }

    pub fn params_json(&self) -> (r: Vec<u8>)
        ensures
            r@ == spec_navigate_params(*self),
    {
        let mut r: Vec<u8> = Vec::new();
        wire::append_bytes(&mut r, "{\"url\":\"".as_bytes());
        let ub = string_bytes(&self.url);
        let ue = wire::escape(ub.as_slice());
        wire::append_bytes(&mut r, ue.as_slice());
        wire::append_bytes(&mut r, "\"}".as_bytes());
        proof {
            assert(r@ =~= spec_navigate_params(*self));
        }
        r
    }
}

/// What `Page.navigate` returns.
#[derive(Debug)]
pub struct NavigateReturnObject {
    pub frame_id: String,
    pub loader_id: Option<String>,
    pub error_text: Option<String>,
}

impl NavigateReturnObject {
    /// Decode a `Page.navigate` result.  Succeeds if and only if `frameId`
    /// is a string of valid UTF-8; `loaderId` and `errorText` are kept when
    /// they decode, absent otherwise.
    pub fn from_result(raw: &[u8]) -> (r: Result<NavigateReturnObject, CdpError>)
        ensures
            match r {
                Ok(v) => {
                    &&& spec_string_member_utf8(raw@, "frameId".spec_bytes()) == Some(
                        utf8_bytes(v.frame_id),
                    )
                    &&& match v.loader_id {
                        Some(s) => spec_string_member_utf8(raw@, "loaderId".spec_bytes()) == Some(
                            utf8_bytes(s),
                        ),
                        None => spec_string_member_utf8(raw@, "loaderId".spec_bytes()) is None,
                    }
                    &&& match v.error_text {
                        Some(s) => spec_string_member_utf8(raw@, "errorText".spec_bytes()) == Some(
                            utf8_bytes(s),
                        ),
                        None => spec_string_member_utf8(raw@, "errorText".spec_bytes()) is None,
                    }
                },
                Err(e) => (spec_string_member_utf8(raw@, "frameId".spec_bytes()) is None) && e
                    == CdpError::DecodeError,
            },
    {
        let frame_id = match decode_utf8_member(raw, "frameId") {
            Ok(s) => s,
            Err(e) => {
                return Err(e);
            },
        };
        let loader_id = opt_utf8_member(raw, "loaderId");
        let error_text = opt_utf8_member(raw, "errorText");
        Ok(NavigateReturnObject { frame_id, loader_id, error_text })
    }
}

/// `Page.enable`.
pub struct Enable {}

impl Enable {
    pub fn method_name(&self) -> (r: &'static str)
        ensures
            r@ == "Page.enable"@,
    {
        "Page.enable"
    }

    pub fn params_json(&self) -> (r: Vec<u8>)
        ensures
            r@ == wire::empty_obj(),
    {
        let mut r: Vec<u8> = Vec::new();
        r.push(123);
        r.push(125);
        proof {
            assert(r@ =~= wire::empty_obj());
        }
        r
    }
}

/// What `Page.enable` returns.
pub struct EnableReturnObject {}

} // verus!
