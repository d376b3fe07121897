//! Target- and browser-domain methods and their return shapes: target
//! creation and discovery, browser contexts, version information, and the
//! target-info payloads the supervisor reads from `Target.*` events.

use vstd::prelude::*;
use vstd::string::StringSliceAdditionalSpecFns;
use vstd::string::StrSliceExecFns;
use vstd::utf8::{encode_utf8, valid_utf8};
use crate::wire;
use crate::CdpError;

verus! {

/// The UTF-8 bytes of a string.
pub open spec fn utf8_bytes(s: String) -> Seq<u8> {
    encode_utf8(s@)
}

/// Relies on `String::from_utf8`: succeeds exactly on valid UTF-8, returning
/// the string with that encoding.
#[verifier::external_body]
pub fn string_from_utf8(b: Vec<u8>) -> (r: Option<String>)
    ensures
        match r {
            Some(s) => valid_utf8(b@) && encode_utf8(s@) == b@,
            None => !valid_utf8(b@),
        },
{
    String::from_utf8(b).ok()
}

/// The UTF-8 bytes of a string, as a fresh vector.
pub fn string_bytes(s: &String) -> (r: Vec<u8>)
    ensures
        r@ == utf8_bytes(*s),
{
    s.as_str().as_bytes_vec()
}

pub open spec fn spec_bool_bytes(b: bool) -> Seq<u8> {
    if b {
        "true".spec_bytes()
    } else {
        "false".spec_bytes()
    }
}

fn append_bool(r: &mut Vec<u8>, b: bool)
    ensures
        final(r)@ == old(r)@ + spec_bool_bytes(b),
{
    if b {
        wire::append_bytes(r, "true".as_bytes());
    } else {
        wire::append_bytes(r, "false".as_bytes());
    }
}

// ---------------------------------------------------------------------------
// target methods
// ---------------------------------------------------------------------------

/// `Target.setDiscoverTargets`: subscribe to target lifecycle events.
pub struct SetDiscoverTargets {
    pub discover: bool,
}

pub open spec fn spec_set_discover_targets_params(m: SetDiscoverTargets) -> Seq<u8> {
    "{\"discover\":".spec_bytes() + spec_bool_bytes(m.discover) + "}".spec_bytes()
}

impl SetDiscoverTargets {
    pub fn method_name(&self) -> (r: &'static str)
        ensures
            r@ == "Target.setDiscoverTargets"@,
    {
        "Target.setDiscoverTargets"
    }

    pub fn params_json(&self) -> (r: Vec<u8>)
        ensures
            r@ == spec_set_discover_targets_params(*self),
    {
        let mut r: Vec<u8> = Vec::new();
        wire::append_bytes(&mut r, "{\"discover\":".as_bytes());
        append_bool(&mut r, self.discover);
        wire::append_bytes(&mut r, "}".as_bytes());
        proof {
            assert(r@ =~= spec_set_discover_targets_params(*self));
        }
        r
    }
}

/// `Target.createTarget`: open a new target (tab).
pub struct CreateTarget {
    pub url: String,
    pub width: Option<u32>,
    pub height: Option<u32>,
    pub browser_context_id: Option<String>,
    pub enable_begin_frame_control: Option<bool>,
}

pub open spec fn spec_create_target_params(m: CreateTarget) -> Seq<u8> {
    "{\"url\":\"".spec_bytes() + wire::spec_escape(utf8_bytes(m.url)) + "\"".spec_bytes() + (
    match m.width {
        Some(n) => ",\"width\":".spec_bytes() + wire::spec_dec(n as u64),
        None => Seq::<u8>::empty(),
    }) + (match m.height {
        Some(n) => ",\"height\":".spec_bytes() + wire::spec_dec(n as u64),
        None => Seq::<u8>::empty(),
    }) + (match m.browser_context_id {
        Some(s) => ",\"browserContextId\":\"".spec_bytes() + wire::spec_escape(utf8_bytes(s))
            + "\"".spec_bytes(),
        None => Seq::<u8>::empty(),
    }) + (match m.enable_begin_frame_control {
        Some(b) => ",\"enableBeginFrameControl\":".spec_bytes() + spec_bool_bytes(b),
        None => Seq::<u8>::empty(),
    }) + "}".spec_bytes()
}

impl CreateTarget {
    pub fn method_name(&self) -> (r: &'static str)
        ensures
            r@ == "Target.createTarget"@,
    {
        "Target.createTarget"
    }

    #[verifier::rlimit(50)]
    pub fn params_json(&self) -> (r: Vec<u8>)
        ensures
            r@ == spec_create_target_params(*self),
    {
        let mut r: Vec<u8> = Vec::new();
        wire::append_bytes(&mut r, "{\"url\":\"".as_bytes());
        let ub = string_bytes(&self.url);
        let ue = wire::escape(ub.as_slice());
        wire::append_bytes(&mut r, ue.as_slice());
        wire::append_bytes(&mut r, "\"".as_bytes());
        match &self.width {
            Some(n) => {
                wire::append_bytes(&mut r, ",\"width\":".as_bytes());
                let d = wire::dec_of_u64(*n as u64);
                wire::append_bytes(&mut r, d.as_slice());
            },
            None => {},
        }
        match &self.height {
            Some(n) => {
                wire::append_bytes(&mut r, ",\"height\":".as_bytes());
                let d = wire::dec_of_u64(*n as u64);
                wire::append_bytes(&mut r, d.as_slice());
            },
            None => {},
        }
        match &self.browser_context_id {
            Some(s) => {
                wire::append_bytes(&mut r, ",\"browserContextId\":\"".as_bytes());
                let sb = string_bytes(s);
                let se = wire::escape(sb.as_slice());
                wire::append_bytes(&mut r, se.as_slice());
                wire::append_bytes(&mut r, "\"".as_bytes());
            },
            None => {},
        }
        match &self.enable_begin_frame_control {
            Some(b) => {
                wire::append_bytes(&mut r, ",\"enableBeginFrameControl\":".as_bytes());
                append_bool(&mut r, *b);
            },
            None => {},
        }
        wire::append_bytes(&mut r, "}".as_bytes());
        proof {
            assert(r@ =~= spec_create_target_params(*self));
        }
        r
    }
}

/// `Target.createBrowserContext`: open an incognito-equivalent context.
pub struct CreateBrowserContext {}

impl CreateBrowserContext {
    pub fn method_name(&self) -> (r: &'static str)
        ensures
            r@ == "Target.createBrowserContext"@,
    {
        "Target.createBrowserContext"
    }

    pub fn params_json(&self) -> (r: Vec<u8>)
        ensures
            r@ == wire::empty_obj(),
    {
        let mut r: Vec<u8> = Vec::new();
        r.push(123);
        r.push(125);
        proof {
            assert(r@ =~= wire::empty_obj());
        }
        r
    }
}

/// `Browser.getVersion`: version information about the browser.
pub struct GetVersion {}

impl GetVersion {
    pub fn method_name(&self) -> (r: &'static str)
        ensures
            r@ == "Browser.getVersion"@,
    {
        "Browser.getVersion"
    }

    pub fn params_json(&self) -> (r: Vec<u8>)
        ensures
            r@ == wire::empty_obj(),
    {
        let mut r: Vec<u8> = Vec::new();
        r.push(123);
        r.push(125);
        proof {
            assert(r@ =~= wire::empty_obj());
        }
        r
    }
}

// ---------------------------------------------------------------------------
// result decoding
// ---------------------------------------------------------------------------

/// The string value of member `key` in the raw object `raw`.
pub open spec fn spec_string_member(raw: Seq<u8>, key: Seq<u8>) -> Option<Seq<u8>> {
    match wire::spec_obj(raw) {
        None => None,
        Some(ms) => match wire::spec_lookup(ms, key) {
            None => None,
            Some(v) => wire::spec_decode_string(v),
        },
    }
}

/// Decode the string member `key` of a raw result object; `DecodeError`
/// exactly when the member is missing or not a string.
fn decode_string_member(raw: &[u8], key: &str) -> (r: Result<Vec<u8>, CdpError>)
    ensures
        match r {
            Ok(v) => spec_string_member(raw@, key.spec_bytes()) == Some(v@),
            Err(e) => (spec_string_member(raw@, key.spec_bytes()) is None) && e
                == CdpError::DecodeError,
        },
{
    match wire::parse_members(raw) {
        None => Err(CdpError::DecodeError),
        Some(ms) => match wire::find_member(&ms, key.as_bytes()) {
            None => Err(CdpError::DecodeError),
            Some(j) => match wire::decode_string_val(ms[j].val.as_slice()) {
                None => Err(CdpError::DecodeError),
                Some(v) => Ok(v),
            },
        },
    }
}

/// The string member `key`, kept only when its bytes are valid UTF-8 (a
/// member that is missing, not a string, or not UTF-8 counts as absent).
pub open spec fn spec_string_member_utf8(raw: Seq<u8>, key: Seq<u8>) -> Option<Seq<u8>> {
    match spec_string_member(raw, key) {
        Some(b) => if valid_utf8(b) {
            Some(b)
        } else {
            None
        },
        None => None,
    }
}

/// Decode the string member `key` into a `String`; `DecodeError` exactly
/// when the member is missing, not a string, or not valid UTF-8.
pub(crate) fn decode_utf8_member(raw: &[u8], key: &str) -> (r: Result<String, CdpError>)
    ensures
        match r {
            Ok(s) => spec_string_member_utf8(raw@, key.spec_bytes()) == Some(utf8_bytes(s)),
            Err(e) => (spec_string_member_utf8(raw@, key.spec_bytes()) is None) && e
                == CdpError::DecodeError,
        },
{
    match decode_string_member(raw, key) {
        Err(e) => Err(e),
        Ok(v) => match string_from_utf8(v) {
            Some(s) => Ok(s),
            None => Err(CdpError::DecodeError),
        },
    }
}

/// Decode an optional string member: `None` when it is missing, not a
/// string, or not valid UTF-8.
pub(crate) fn opt_utf8_member(raw: &[u8], key: &str) -> (r: Option<String>)
    ensures
        match r {
            Some(s) => spec_string_member_utf8(raw@, key.spec_bytes()) == Some(utf8_bytes(s)),
            None => spec_string_member_utf8(raw@, key.spec_bytes()) is None,
        },
{
    match decode_utf8_member(raw, key) {
        Ok(s) => Some(s),
        Err(_) => None,
    }
}

/// The `targetId` of a `Target.createTarget` result.
pub fn decode_target_id(raw: &[u8]) -> (r: Result<Vec<u8>, CdpError>)
    ensures
        match r {
            Ok(v) => spec_string_member(raw@, "targetId".spec_bytes()) == Some(v@),
            Err(e) => (spec_string_member(raw@, "targetId".spec_bytes()) is None) && e
                == CdpError::DecodeError,
        },
{
    decode_string_member(raw, "targetId")
}

/// The `sessionId` of a `Target.attachToTarget` result.
pub fn decode_session_id(raw: &[u8]) -> (r: Result<Vec<u8>, CdpError>)
    ensures
        match r {
            Ok(v) => spec_string_member(raw@, "sessionId".spec_bytes()) == Some(v@),
            Err(e) => (spec_string_member(raw@, "sessionId".spec_bytes()) is None) && e
                == CdpError::DecodeError,
        },
{
    decode_string_member(raw, "sessionId")
}

/// The `browserContextId` of a `Target.createBrowserContext` result.
pub fn decode_browser_context_id(raw: &[u8]) -> (r: Result<Vec<u8>, CdpError>)
    ensures
        match r {
            Ok(v) => spec_string_member(raw@, "browserContextId".spec_bytes()) == Some(v@),
            Err(e) => (spec_string_member(raw@, "browserContextId".spec_bytes()) is None) && e
                == CdpError::DecodeError,
        },
{
    decode_string_member(raw, "browserContextId")
}

// ---------------------------------------------------------------------------
// version information
// ---------------------------------------------------------------------------

/// What `Browser.getVersion` returns.
#[derive(Debug)]
pub struct VersionInformationReturnObject {
    pub protocol_version: String,
    pub product: String,
    pub revision: String,
    pub user_agent: String,
    pub js_version: String,
}

impl VersionInformationReturnObject {
    /// Decode a `Browser.getVersion` result.  Succeeds if and only if all
    /// five members are present as strings of valid UTF-8; fails with
    /// `DecodeError` otherwise.
    pub fn from_result(raw: &[u8]) -> (r: Result<VersionInformationReturnObject, CdpError>)
        ensures
            match r {
                Ok(v) => {
                    &&& spec_string_member_utf8(raw@, "protocolVersion".spec_bytes()) == Some(
                        utf8_bytes(v.protocol_version),
                    )
                    &&& spec_string_member_utf8(raw@, "product".spec_bytes()) == Some(
                        utf8_bytes(v.product),
                    )
                    &&& spec_string_member_utf8(raw@, "revision".spec_bytes()) == Some(
                        utf8_bytes(v.revision),
                    )
                    &&& spec_string_member_utf8(raw@, "userAgent".spec_bytes()) == Some(
                        utf8_bytes(v.user_agent),
                    )
                    &&& spec_string_member_utf8(raw@, "jsVersion".spec_bytes()) == Some(
                        utf8_bytes(v.js_version),
                    )
                },
                Err(e) => {
                    &&& e == CdpError::DecodeError
                    &&& {
                        ||| (spec_string_member_utf8(raw@, "protocolVersion".spec_bytes())
                            is None)
                        ||| (spec_string_member_utf8(raw@, "product".spec_bytes()) is None)
                        ||| (spec_string_member_utf8(raw@, "revision".spec_bytes()) is None)
                        ||| (spec_string_member_utf8(raw@, "userAgent".spec_bytes()) is None)
                        ||| (spec_string_member_utf8(raw@, "jsVersion".spec_bytes()) is None)
                    }
                },
            },
    {
        let protocol_version = match decode_utf8_member(raw, "protocolVersion") {
            Ok(s) => s,
            Err(e) => {
                return Err(e);
            },
        };
        let product = match decode_utf8_member(raw, "product") {
            Ok(s) => s,
            Err(e) => {
                return Err(e);
            },
        };
        let revision = match decode_utf8_member(raw, "revision") {
            Ok(s) => s,
            Err(e) => {
                return Err(e);
            },
        };
        let user_agent = match decode_utf8_member(raw, "userAgent") {
            Ok(s) => s,
            Err(e) => {
                return Err(e);
            },
        };
        let js_version = match decode_utf8_member(raw, "jsVersion") {
            Ok(s) => s,
            Err(e) => {
                return Err(e);
            },
        };
        Ok(
            VersionInformationReturnObject {
                protocol_version,
                product,
                revision,
                user_agent,
                js_version,
            },
        )
    }
}

// ---------------------------------------------------------------------------
// target info
// ---------------------------------------------------------------------------

/// What the supervisor reads from a `Target.*` event: the target's identity,
/// kind, URL, and owning context.
pub struct TargetInfo {
    pub target_id: Vec<u8>,
    pub target_type: Vec<u8>,
    pub url: Vec<u8>,
    pub browser_context_id: Option<Vec<u8>>,
}

/// Mathematical model of `TargetInfo`.
pub struct TargetInfoModel {
    pub target_id: Seq<u8>,
    pub target_type: Seq<u8>,
    pub url: Seq<u8>,
    pub browser_context_id: Option<Seq<u8>>,
}

impl View for TargetInfo {
    type V = TargetInfoModel;

    open spec fn view(&self) -> TargetInfoModel {
        TargetInfoModel {
            target_id: self.target_id@,
            target_type: self.target_type@,
            url: self.url@,
            browser_context_id: wire::opt_bytes_view(self.browser_context_id),
        }
    }
}

impl TargetInfo {
    pub open spec fn is_page(self) -> bool {
        self.target_type@ == "page".spec_bytes()
    }
}

/// The target info embedded in a `Target.targetCreated` /
/// `Target.targetInfoChanged` event's params: member `targetInfo` with
/// string members `targetId`, `type`, `url`, and optionally
/// `browserContextId`.
pub open spec fn spec_target_info(params: Seq<u8>) -> Option<TargetInfoModel> {
    match wire::spec_obj(params) {
        None => None,
        Some(ms) => match wire::spec_lookup(ms, "targetInfo".spec_bytes()) {
            None => None,
            Some(tiv) => match wire::spec_obj(tiv) {
                None => None,
                Some(tims) => match (
                    wire::spec_lookup(tims, "targetId".spec_bytes()),
                    wire::spec_lookup(tims, "type".spec_bytes()),
                    wire::spec_lookup(tims, "url".spec_bytes()),
                ) {
                    (Some(idv), Some(tyv), Some(urlv)) => match (
                        wire::spec_decode_string(idv),
                        wire::spec_decode_string(tyv),
                        wire::spec_decode_string(urlv),
                    ) {
                        (Some(id), Some(ty), Some(url)) => match wire::spec_lookup(
                            tims,
                            "browserContextId".spec_bytes(),
                        ) {
                            None => Some(
                                TargetInfoModel {
                                    target_id: id,
                                    target_type: ty,
                                    url,
                                    browser_context_id: None,
                                },
                            ),
                            Some(bcv) => match wire::spec_decode_string(bcv) {
                                Some(bc) => Some(
                                    TargetInfoModel {
                                        target_id: id,
                                        target_type: ty,
                                        url,
                                        browser_context_id: Some(bc),
                                    },
                                ),
                                None => None,
                            },
                        },
                        _ => None,
                    },
                    _ => None,
                },
            },
        },
    }
}

/// Decode the target info of a `Target.*` event's params.
pub fn decode_target_info(params: &[u8]) -> (r: Option<TargetInfo>)
    ensures
        match r {
            Some(ti) => spec_target_info(params@) == Some(ti@),
            None => spec_target_info(params@) is None,
        },
{
    let ms = match wire::parse_members(params) {
        Some(ms) => ms,
        None => {
            return None;
        },
    };
    let tij = match wire::find_member(&ms, "targetInfo".as_bytes()) {
        Some(j) => j,
        None => {
            return None;
        },
    };
    let tims = match wire::parse_members(ms[tij].val.as_slice()) {
        Some(t) => t,
        None => {
            return None;
        },
    };
    let idj = match wire::find_member(&tims, "targetId".as_bytes()) {
        Some(j) => j,
        None => {
            return None;
        },
    };
    let tyj = match wire::find_member(&tims, "type".as_bytes()) {
        Some(j) => j,
        None => {
            return None;
        },
    };
    let urlj = match wire::find_member(&tims, "url".as_bytes()) {
        Some(j) => j,
        None => {
            return None;
        },
    };
    let id = match wire::decode_string_val(tims[idj].val.as_slice()) {
        Some(v) => v,
        None => {
            return None;
        },
    };
    let ty = match wire::decode_string_val(tims[tyj].val.as_slice()) {
        Some(v) => v,
        None => {
            return None;
        },
    };
    let url = match wire::decode_string_val(tims[urlj].val.as_slice()) {
        Some(v) => v,
        None => {
            return None;
        },
    };
    match wire::find_member(&tims, "browserContextId".as_bytes()) {
        None => Some(
            TargetInfo { target_id: id, target_type: ty, url, browser_context_id: None },
        ),
        Some(bcj) => match wire::decode_string_val(tims[bcj].val.as_slice()) {
            Some(bc) => Some(
                TargetInfo {
                    target_id: id,
                    target_type: ty,
                    url,
                    browser_context_id: Some(bc),
                },
            ),
            None => None,
        },
    }
}

} // verus!
