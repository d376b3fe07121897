//! Browser supervisor: owns the (optional) child process handle and the
//! transport, translates `Target.*` events into the tab registry, and tears
//! the transport down on drop.
//!
//! The child process, the socket and the clock live with the caller: the
//! caller launches the process, discovers the WebSocket URL from its error
//! stream (`ProcessHandle::from_stderr_line`), pumps inbound frames through
//! `Transport::handle_incoming`, drains `Transport.outbound` into the socket,
//! and feeds browser events to `handle_browser_event`.

use vstd::prelude::*;
use vstd::string::StringSliceAdditionalSpecFns;
use vstd::string::StringExecFns;
use crate::wire;
use crate::transport::Transport;
use crate::router::RoutedEvent;
use crate::protocol::{
    decode_target_info,
    spec_create_target_params,
    spec_set_discover_targets_params,
    spec_target_info,
    CreateBrowserContext,
    CreateTarget,
    GetVersion,
    SetDiscoverTargets,
    TargetInfo,
};
use crate::CdpError;

verus! {

/// A handle to an owned child browser process: its PID and the WebSocket URL
/// it advertised.  The process itself lives with the caller.
#[derive(Debug)]
pub struct ProcessHandle {
    pub id: u32,
    pub debug_ws_url: Vec<u8>,
}

impl ProcessHandle {
    /// Read the WebSocket URL a freshly launched browser prints on its error
    /// stream; `LaunchError` exactly when the line holds no `ws://` token —
    /// the process never advertised a URL.
    pub fn from_stderr_line(id: u32, line: &[u8]) -> (r: Result<ProcessHandle, CdpError>)
        ensures
            match r {
                Ok(p) => p.id == id && wire::spec_extract_ws_url(line@) == Some(p.debug_ws_url@),
                Err(e) => (wire::spec_extract_ws_url(line@) is None) && e == CdpError::LaunchError,
            },
    {
        match wire::extract_ws_url(line) {
            Some(url) => Ok(ProcessHandle { id, debug_ws_url: url }),
            None => Err(CdpError::LaunchError),
        }
    }

    pub fn get_id(&self) -> (r: u32)
        ensures
            r == self.id,
    {
        self.id
    }
}

/// A handle to one page target.  A session is attached lazily: it is `None`
/// until the attach handshake completes.
pub struct Tab {
    pub target_id: Vec<u8>,
    pub session_id: Option<Vec<u8>>,
    pub info: TargetInfo,
}

impl Tab {
    /// A tab for a freshly created page target, no session attached yet.
    pub fn new(info: TargetInfo) -> (r: Tab)
        ensures
            r.target_id@ == info.target_id@,
            (r.session_id is None),
            r.info == info,
    {
        let tid = wire::clone_bytes(&info.target_id);
        Tab { target_id: tid, session_id: None, info }
    }

    pub fn get_target_id(&self) -> (r: &Vec<u8>)
        ensures
            r == &self.target_id,
    {
        &self.target_id
    }

    /// Record the latest target info (guarded write in the fan-out worker).
    pub fn update_target_info(&mut self, info: TargetInfo)
        ensures
            final(self).info == info,
            final(self).target_id == old(self).target_id,
            final(self).session_id == old(self).session_id,
    {
        self.info = info;
    }

    /// Record the session the attach handshake returned.
    pub fn set_session(&mut self, session: Vec<u8>)
        ensures
            final(self).session_id == Some(session),
            final(self).target_id == old(self).target_id,
            final(self).info == old(self).info,
    {
        self.session_id = Some(session);
    }
}

/// A browser context (incognito-equivalent), grouping targets.
pub struct Context {
    pub id: Vec<u8>,
}

impl Context {
    pub fn new(id: Vec<u8>) -> (r: Context)
        ensures
            r.id == id,
    {
        Context { id }
    }

    pub fn get_id(&self) -> (r: &Vec<u8>)
        ensures
            r == &self.id,
    {
        &self.id
    }
}

/// The params of a `Target.attachToTarget` call.
pub open spec fn spec_attach_params(tid: Seq<u8>) -> Seq<u8> {
    "{\"targetId\":\"".spec_bytes() + wire::spec_escape(tid) + "\"}".spec_bytes()
}

/// The index of the first tab with the given target ID, scanning from `i`.
pub open spec fn spec_tab_index(tabs: Seq<Tab>, tid: Seq<u8>, i: int) -> Option<int>
    decreases tabs.len() - i,
{
    if i < 0 || i >= tabs.len() {
        None
    } else if tabs[i].target_id@ == tid {
        Some(i)
    } else {
        spec_tab_index(tabs, tid, i + 1)
    }
}

/// `spec_tab_index` finds an index exactly when a tab with the ID exists
/// at or after `i`.
proof fn lemma_tab_index(tabs: Seq<Tab>, tid: Seq<u8>, i: int)
    requires
        0 <= i <= tabs.len(),
    ensures
        match spec_tab_index(tabs, tid, i) {
            Some(j) => i <= j < tabs.len() && tabs[j].target_id@ == tid,
            None => forall|x: int| i <= x < tabs.len() ==> (#[trigger] tabs[x]).target_id@ != tid,
        },
    decreases tabs.len() - i,
{
    if i < tabs.len() && tabs[i].target_id@ != tid {
        lemma_tab_index(tabs, tid, i + 1);
    }
}

/// The tab registry is a set keyed by target ID: at most one tab per ID.
pub open spec fn tabs_keyed(tabs: Seq<Tab>) -> bool {
    forall|i: int, j: int|
        0 <= i < j < tabs.len() ==> (#[trigger] tabs[i]).target_id@ != (
        #[trigger] tabs[j]).target_id@
}

/// The index of the first tab with the given target ID.
#[verifier::loop_isolation(false)]
fn tab_index(tabs: &Vec<Tab>, tid: &[u8]) -> (r: Option<usize>)
    ensures
        match r {
            Some(i) => i < tabs@.len() && tabs@[i as int].target_id@ == tid@ && spec_tab_index(
                tabs@,
                tid@,
                0,
            ) == Some(i as int),
            None => spec_tab_index(tabs@, tid@, 0) is None,
        },
{
    let mut i: usize = 0;
    while i < tabs.len()
        invariant
            i <= tabs@.len(),
            spec_tab_index(tabs@, tid@, 0) == spec_tab_index(tabs@, tid@, i as int),
        decreases tabs@.len() - i,
    {
        if wire::bytes_eq(tabs[i].target_id.as_slice(), tid) {
            return Some(i);
        }
        i = i + 1;
    }
    None
}

/// A handle to an instance of a Chromium-class browser, wrapping the
/// transport to its debugging WebSocket.  It either owns a child process or
/// is connected to a remote one.
pub struct Browser {
    pub process: Option<ProcessHandle>,
    pub transport: Transport,
    pub tabs: Vec<Tab>,
    pub fanout_shutdown: bool,
}

impl Browser {
    pub open spec fn wf(self) -> bool {
        &&& self.transport.wf()
        &&& tabs_keyed(self.tabs@)
    }


    /// Launch supervision over an owned process: bind the transport to the
    /// URL the process advertised and start discovery.
    pub fn new(process: ProcessHandle) -> (r: Result<Browser, CdpError>)
        ensures
            (r is Ok),
            r matches Ok(b) ==> {
                &&& b.wf()
                &&& b.process matches Some(p) && p.id == process.id && p.debug_ws_url@
                    == process.debug_ws_url@
                &&& b.transport.process_id == Some(process.id)
                &&& b.transport.ws_url@ == process.debug_ws_url@
                &&& b.tabs@.len() == 0
                &&& (b.transport.router.browser is Some)
                &&& b.transport.outbound@.len() == 1
                &&& b.transport.outbound@[0]@ == wire::spec_call_frame(
                    1,
                    "Target.setDiscoverTargets".spec_bytes(),
                    spec_set_discover_targets_params(SetDiscoverTargets { discover: true }),
                )
                &&& b.transport.registry.has_pending((None, 1))
                &&& b.transport.registry.next_id == 2
                &&& !b.transport.closed
            },
    {
        let url = wire::clone_bytes(&process.debug_ws_url);
        let id = process.id;
        let transport = Transport::new(url, Some(id));
        Browser::create_browser(Some(process), transport)
    }

    /// Supervise a remote browser over its debugging URL.
    pub fn connect(debug_ws_url: Vec<u8>) -> (r: Result<Browser, CdpError>)
        ensures
            (r is Ok),
            r matches Ok(b) ==> {
                &&& b.wf()
                &&& (b.process is None)
                &&& b.transport.ws_url@ == debug_ws_url@
                &&& b.tabs@.len() == 0
                &&& (b.transport.router.browser is Some)
                &&& b.transport.outbound@.len() == 1
                &&& b.transport.outbound@[0]@ == wire::spec_call_frame(
                    1,
                    "Target.setDiscoverTargets".spec_bytes(),
                    spec_set_discover_targets_params(SetDiscoverTargets { discover: true }),
                )
                &&& b.transport.registry.has_pending((None, 1))
                &&& b.transport.registry.next_id == 2
                &&& !b.transport.closed
            },
    {
        let transport = Transport::new(debug_ws_url, None);
        Browser::create_browser(None, transport)
    }

    /// Common construction: register the browser event listener and ask for
    /// target discovery, so `targetCreated` and `targetDestroyed` events
    /// arrive.  The initial tab appears once the caller pumps the read loop;
    /// it waits on `wait_for_initial_tab` with a `Wait`.
    pub fn create_browser(process: Option<ProcessHandle>, transport: Transport) -> (r: Result<
        Browser,
        CdpError,
    >)
        requires
            transport.wf(),
            !transport.closed,
            transport.registry.next_id < u64::MAX,
        ensures
            (r is Ok),
            r matches Ok(b) ==> {
                &&& b.wf()
                &&& b.process == process
                &&& !b.fanout_shutdown
                &&& b.tabs@.len() == 0
                &&& b.transport.ws_url == transport.ws_url
                &&& b.transport.process_id == transport.process_id
                &&& (b.transport.router.browser is Some)
                &&& b.transport.outbound@.len() == transport.outbound@.len() + 1
                &&& b.transport.outbound@.last()@ == wire::spec_call_frame(
                    transport.registry.next_id,
                    "Target.setDiscoverTargets".spec_bytes(),
                    spec_set_discover_targets_params(SetDiscoverTargets { discover: true }),
                )
                &&& b.transport.registry.has_pending((None, transport.registry.next_id))
                &&& b.transport.registry.next_id == transport.registry.next_id + 1
                &&& b.transport.closed == transport.closed
            },
    {
        let ghost id0 = transport.registry.next_id;
        let mut transport = transport;
        transport.listen_to_browser_events();
        let discover = SetDiscoverTargets { discover: true };
        let params = discover.params_json();
        let name = discover.method_name();
        let res = transport.call_method_on_browser(name.as_bytes(), params.as_slice());
        proof {
            assert(res is Ok);
            assert(transport.registry.pending_keys().last() == (None::<Seq<u8>>, id0));
            assert(transport.registry.has_pending((None, id0)));
        }
        Ok(Browser { process, transport, tabs: Vec::new(), fanout_shutdown: false })
    }

    pub fn get_process_id(&self) -> (r: Option<u32>)
        ensures
            r == match self.process {
                Some(p) => Some(p.id),
                None => None::<u32>,
            },
    {
        match &self.process {
            Some(p) => Some(p.get_id()),
            None => None,
        }
    }

    /// The process handle, when this browser owns one.
    pub fn process(&self) -> (r: Option<&ProcessHandle>)
        ensures
            match r {
                Some(p) => self.process matches Some(q) && *p == q,
                None => (self.process is None),
            },
    {
        self.process.as_ref()
    }

    /// The tabs, visible to every thread that observes this browser; the
    /// fan-out worker appends on `targetCreated`.
    pub fn get_tabs(&self) -> (r: &Vec<Tab>)
        ensures
            r == &self.tabs,
    {
        &self.tabs
    }

    /// Poll for the initial tab.  Information about it is not available
    /// immediately after launch: the caller retries under a `Wait` deadline
    /// while pumping events.
    pub fn wait_for_initial_tab(&self) -> (r: Option<&Tab>)
        ensures
            (r is Some) <==> self.tabs@.len() > 0,
            r matches Some(t) ==> *t == self.tabs@[0],
    {
        if self.tabs.len() > 0 {
            Some(&self.tabs[0])
        } else {
            None
        }
    }

    /// Poll for a tab by target ID (first match); used to synchronize on a
    /// tab created by `new_tab`.
    pub fn find_tab_by_target_id(&self, target_id: &[u8]) -> (r: Option<&Tab>)
        ensures
            match r {
                Some(t) => exists|j: int|
                    {
                        &&& 0 <= j < self.tabs@.len()
                        &&& (#[trigger] self.tabs@[j]).target_id@ == target_id@
                        &&& *t == self.tabs@[j]
                        &&& forall|i: int|
                            0 <= i < j ==> (#[trigger] self.tabs@[i]).target_id@ != target_id@
                    },
                None => forall|i: int|
                    0 <= i < self.tabs@.len() ==> (#[trigger] self.tabs@[i]).target_id@
                        != target_id@,
            },
    {
        let mut i: usize = 0;
        while i < self.tabs.len()
            invariant
                i <= self.tabs@.len(),
                forall|j: int| 0 <= j < i ==> (#[trigger] self.tabs@[j]).target_id@ != target_id@,
            decreases self.tabs@.len() - i,
        {
            if wire::bytes_eq(self.tabs[i].target_id.as_slice(), target_id) {
                return Some(&self.tabs[i]);
            }
            i = i + 1;
        }
        None
    }

    /// Create a new tab at `about:blank`; the call is issued here and the
    /// caller synchronizes on the tab's appearance with
    /// `find_tab_by_target_id` once the response names the target.
    pub fn new_tab(&mut self) -> (r: Result<u64, CdpError>)
        requires
            old(self).wf(),
            old(self).transport.registry.next_id < u64::MAX,
        ensures
            final(self).wf(),
            final(self).tabs@ == old(self).tabs@,
            old(self).transport.closed ==> r == Err::<u64, CdpError>(CdpError::TransportClosed),
            !old(self).transport.closed ==> {
                let id = old(self).transport.registry.next_id;
                &&& r == Ok::<u64, CdpError>(id)
                &&& final(self).transport.outbound@.len() == old(self).transport.outbound@.len()
                    + 1
                &&& (exists|m: CreateTarget|
                    {
                        &&& (#[trigger] m.url)@ == "about:blank"@
                        &&& (m.width is None)
                        &&& (m.height is None)
                        &&& (m.browser_context_id is None)
                        &&& (m.enable_begin_frame_control is None)
                        &&& final(self).transport.outbound@.last()@ == wire::spec_call_frame(
                            id,
                            "Target.createTarget".spec_bytes(),
                            spec_create_target_params(m),
                        )
                    })
                &&& final(self).transport.registry.has_pending((None, id))
            },
    {
        let default_blank_tab = CreateTarget {
            url: String::from_str("about:blank"),
            width: None,
            height: None,
            browser_context_id: None,
            enable_begin_frame_control: None,
        };
        self.new_tab_with_options(default_blank_tab)
    }

    /// Create a new tab with explicit target options.
    pub fn new_tab_with_options(&mut self, create_target_params: CreateTarget) -> (r: Result<
        u64,
        CdpError,
    >)
        requires
            old(self).wf(),
            old(self).transport.registry.next_id < u64::MAX,
        ensures
            final(self).wf(),
            final(self).tabs@ == old(self).tabs@,
            old(self).transport.closed ==> r == Err::<u64, CdpError>(CdpError::TransportClosed),
            !old(self).transport.closed ==> {
                let id = old(self).transport.registry.next_id;
                &&& r == Ok::<u64, CdpError>(id)
                &&& final(self).transport.outbound@.len() == old(self).transport.outbound@.len()
                    + 1
                &&& final(self).transport.outbound@.last()@ == wire::spec_call_frame(
                    id,
                    "Target.createTarget".spec_bytes(),
                    spec_create_target_params(create_target_params),
                )
                &&& final(self).transport.registry.has_pending((None, id))
            },
    {
        let params = create_target_params.params_json();
        let name = create_target_params.method_name();
        let r = self.transport.call_method_on_browser(name.as_bytes(), params.as_slice());
        proof {
            if !old(self).transport.closed {
                assert(self.transport.registry.pending_keys().last() == (
                    None::<Seq<u8>>,
                    old(self).transport.registry.next_id,
                ));
            }
        }
        r
    }

    /// Create the equivalent of a new incognito window: a browser context.
    /// The response's `browserContextId` (see
    /// `protocol::decode_browser_context_id`) names the `Context`.
    pub fn new_context(&mut self) -> (r: Result<u64, CdpError>)
        requires
            old(self).wf(),
            old(self).transport.registry.next_id < u64::MAX,
        ensures
            final(self).wf(),
            final(self).tabs@ == old(self).tabs@,
            old(self).transport.closed ==> r == Err::<u64, CdpError>(CdpError::TransportClosed),
            !old(self).transport.closed ==> {
                let id = old(self).transport.registry.next_id;
                &&& r == Ok::<u64, CdpError>(id)
                &&& final(self).transport.outbound@.len() == old(self).transport.outbound@.len()
                    + 1
                &&& final(self).transport.outbound@.last()@ == wire::spec_call_frame(
                    id,
                    "Target.createBrowserContext".spec_bytes(),
                    wire::empty_obj(),
                )
                &&& final(self).transport.registry.has_pending((None, id))
            },
    {
        let m = CreateBrowserContext {};
        let params = m.params_json();
        let name = m.method_name();
        let r = self.transport.call_method_on_browser(name.as_bytes(), params.as_slice());
        proof {
            if !old(self).transport.closed {
                assert(self.transport.registry.pending_keys().last() == (
                    None::<Seq<u8>>,
                    old(self).transport.registry.next_id,
                ));
            }
        }
        r
    }

    /// Ask for version information; the response decodes through
    /// `VersionInformationReturnObject::from_result`.
    pub fn get_version(&mut self) -> (r: Result<u64, CdpError>)
        requires
            old(self).wf(),
            old(self).transport.registry.next_id < u64::MAX,
        ensures
            final(self).wf(),
            final(self).tabs@ == old(self).tabs@,
            old(self).transport.closed ==> r == Err::<u64, CdpError>(CdpError::TransportClosed),
            !old(self).transport.closed ==> {
                let id = old(self).transport.registry.next_id;
                &&& r == Ok::<u64, CdpError>(id)
                &&& final(self).transport.outbound@.len() == old(self).transport.outbound@.len()
                    + 1
                &&& final(self).transport.outbound@.last()@ == wire::spec_call_frame(
                    id,
                    "Browser.getVersion".spec_bytes(),
                    wire::empty_obj(),
                )
                &&& final(self).transport.registry.has_pending((None, id))
            },
    {
        let m = GetVersion {};
        let params = m.params_json();
        let name = m.method_name();
        let r = self.transport.call_method_on_browser(name.as_bytes(), params.as_slice());
        proof {
            if !old(self).transport.closed {
                assert(self.transport.registry.pending_keys().last() == (
                    None::<Seq<u8>>,
                    old(self).transport.registry.next_id,
                ));
            }
        }
        r
    }

    /// Attach a session to a target: the handshake a tab performs lazily on
    /// its first session-scoped interaction.  The response's `sessionId`
    /// (see `protocol::decode_session_id`) is recorded with
    /// `Tab::set_session`.
    pub fn attach_target(&mut self, target_id: &[u8]) -> (r: Result<u64, CdpError>)
        requires
            old(self).wf(),
            old(self).transport.registry.next_id < u64::MAX,
        ensures
            final(self).wf(),
            final(self).tabs@ == old(self).tabs@,
            old(self).transport.closed ==> r == Err::<u64, CdpError>(CdpError::TransportClosed),
            !old(self).transport.closed ==> {
                let id = old(self).transport.registry.next_id;
                &&& r == Ok::<u64, CdpError>(id)
                &&& final(self).transport.outbound@.len() == old(self).transport.outbound@.len()
                    + 1
                &&& final(self).transport.outbound@.last()@ == wire::spec_call_frame(
                    id,
                    "Target.attachToTarget".spec_bytes(),
                    spec_attach_params(target_id@),
                )
                &&& final(self).transport.registry.has_pending((None, id))
            },
    {
        let mut params: Vec<u8> = Vec::new();
        wire::append_bytes(&mut params, "{\"targetId\":\"".as_bytes());
        let te = wire::escape(target_id);
        wire::append_bytes(&mut params, te.as_slice());
        wire::append_bytes(&mut params, "\"}".as_bytes());
        proof {
            assert(params@ =~= spec_attach_params(target_id@));
        }
        let r = self.transport.call_method_on_browser(
            "Target.attachToTarget".as_bytes(),
            params.as_slice(),
        );
        proof {
            if !old(self).transport.closed {
                assert(self.transport.registry.pending_keys().last() == (
                    None::<Seq<u8>>,
                    old(self).transport.registry.next_id,
                ));
            }
        }
        r
    }

    /// One step of the browser-level fan-out: on `targetCreated` of a page,
    /// a tab handle joins the set; on `targetInfoChanged` of a known page,
    /// its latest info is updated (first match); `targetDestroyed` and
    /// everything else change nothing — destroyed targets are only logged in
    /// this design.
    #[verifier::loop_isolation(false)]
    pub fn handle_browser_event(&mut self, ev: &RoutedEvent)
        ensures
            final(self).transport == old(self).transport,
            final(self).process == old(self).process,
            final(self).fanout_shutdown == old(self).fanout_shutdown,
            old(self).wf() ==> final(self).wf(),
            ({
                if ev.name@ == "Target.targetCreated".spec_bytes() {
                    match spec_target_info(ev.params@) {
                        Some(ti) => if ti.target_type == "page".spec_bytes() {
                            match spec_tab_index(old(self).tabs@, ti.target_id, 0) {
                                // the set is keyed by target id: a known id adds nothing
                                Some(_) => final(self).tabs@ == old(self).tabs@,
                                None => {
                                    &&& final(self).tabs@.len() == old(self).tabs@.len() + 1
                                    &&& final(self).tabs@.last().target_id@ == ti.target_id
                                    &&& (final(self).tabs@.last().session_id is None)
                                    &&& final(self).tabs@.last().info@ == ti
                                    &&& forall|i: int|
                                        0 <= i < old(self).tabs@.len() ==> #[trigger] final(self).tabs@[i] == old(self).tabs@[i]
                                },
                            }
                        } else {
                            final(self).tabs@ == old(self).tabs@
                        },
                        None => final(self).tabs@ == old(self).tabs@,
                    }
                } else if ev.name@ == "Target.targetInfoChanged".spec_bytes() {
                    match spec_target_info(ev.params@) {
                        Some(ti) => if ti.target_type == "page".spec_bytes() {
                            match spec_tab_index(old(self).tabs@, ti.target_id, 0) {
                                Some(j) => {
                                    &&& final(self).tabs@.len() == old(self).tabs@.len()
                                    &&& final(self).tabs@[j].target_id == old(
                                        self,
                                    ).tabs@[j].target_id
                                    &&& final(self).tabs@[j].session_id == old(
                                        self,
                                    ).tabs@[j].session_id
                                    &&& final(self).tabs@[j].info@ == ti
                                    &&& forall|i: int|
                                        0 <= i < old(self).tabs@.len() && i != j ==> #[trigger] final(self).tabs@[i] == old(self).tabs@[i]
                                },
                                None => final(self).tabs@ == old(self).tabs@,
                            }
                        } else {
                            final(self).tabs@ == old(self).tabs@
                        },
                        None => final(self).tabs@ == old(self).tabs@,
                    }
                } else {
                    final(self).tabs@ == old(self).tabs@
                }
            }),
    {
        if wire::bytes_eq(ev.name.as_slice(), "Target.targetCreated".as_bytes()) {
            match decode_target_info(ev.params.as_slice()) {
                Some(ti) => {
                    if wire::bytes_eq(ti.target_type.as_slice(), "page".as_bytes()) {
                        match tab_index(&self.tabs, ti.target_id.as_slice()) {
                            Some(_) => {},
                            None => {
                                let ghost ots = self.tabs@;
                                let ghost tid = ti.target_id@;
                                let tab = Tab::new(ti);
                                self.tabs.push(tab);
                                proof {
                                    lemma_tab_index(ots, tid, 0);
                                    assert forall|i: int, j: int|
                                        0 <= i < j < self.tabs@.len() && tabs_keyed(ots) implies (
                                    #[trigger] self.tabs@[i]).target_id@ != (
                                    #[trigger] self.tabs@[j]).target_id@ by {
                                        if j == self.tabs@.len() - 1 {
                                            assert(self.tabs@[i] == ots[i]);
                                            assert(self.tabs@[j].target_id@ == tid);
                                        } else {
                                            assert(self.tabs@[i] == ots[i]);
                                            assert(self.tabs@[j] == ots[j]);
                                        }
                                    }
                                }
                            },
                        }
                    }
                },
                None => {},
            }
        } else if wire::bytes_eq(ev.name.as_slice(), "Target.targetInfoChanged".as_bytes()) {
            match decode_target_info(ev.params.as_slice()) {
                Some(ti) => {
                    if wire::bytes_eq(ti.target_type.as_slice(), "page".as_bytes()) {
                        let mut i: usize = 0;
                        while i < self.tabs.len()
                            invariant
                                *self == *old(self),
                                i <= self.tabs@.len(),
                                spec_tab_index(self.tabs@, ti.target_id@, 0) == spec_tab_index(
                                    self.tabs@,
                                    ti.target_id@,
                                    i as int,
                                ),
                            decreases self.tabs@.len() - i,
                        {
                            if wire::bytes_eq(
                                self.tabs[i].target_id.as_slice(),
                                ti.target_id.as_slice(),
                            ) {
                                let ghost tim = ti@;
                                let ghost ots = self.tabs@;
                                proof {
                                    assert(spec_tab_index(ots, tim.target_id, i as int) == Some(
                                        i as int,
                                    ));
                                    assert(spec_tab_index(ots, tim.target_id, 0) == Some(i as int));
                                }
                                let slot = &mut self.tabs[i];
                                slot.update_target_info(ti);
                                proof {
                                    let nts = self.tabs@;
                                    assert(nts.len() == ots.len());
                                    assert(nts[i as int].info@ == tim);
                                    assert(nts[i as int].target_id == ots[i as int].target_id);
                                    assert(nts[i as int].session_id == ots[i as int].session_id);
                                    assert(forall|x: int|
                                        0 <= x < ots.len() && x != i ==> #[trigger] nts[x]
                                            == ots[x]);
                                    assert(forall|x: int|
                                        0 <= x < ots.len() ==> (#[trigger] nts[x]).target_id
                                            == ots[x].target_id);
                                }
                                return ;
                            }
                            i = i + 1;
                        }
                    }
                },
                None => {},
            }
        }
    }

    /// A session went away: evict its listener and fail its pending calls
    /// with `SessionClosed`.
    pub fn handle_detached(&mut self, session: &Vec<u8>)
        requires
            old(self).wf(),
        ensures
            final(self).wf(),
            final(self).tabs@ == old(self).tabs@,
            forall|k: (Option<Seq<u8>>, u64)|
                k.0 == Some(session@) ==> !final(self).transport.registry.has_pending(k),
            forall|k: (Option<Seq<u8>>, u64)|
                k.0 == Some(session@) && old(self).transport.registry.has_pending(k)
                    ==> #[trigger] final(self).transport.registry.delivered_value(k) == Some(
                    Err::<Vec<u8>, CdpError>(CdpError::SessionClosed),
                ),
            !final(self).transport.router.has_session(session@),
    {
        self.transport.session_detached(session);
    }

    /// Tear down: signal the fan-out worker first, then shut the transport
    /// down, so the read loop exits cleanly.  Law: drop safety — every
    /// thread waiting on a pending call observes `TransportClosed` rather
    /// than blocking forever, whatever tab handles are still held.
    pub fn shutdown(&mut self)
        requires
            old(self).wf(),
        ensures
            final(self).wf(),
            final(self).fanout_shutdown,
            final(self).transport.closed,
            final(self).transport.registry.pending@.len() == 0,
            forall|k: (Option<Seq<u8>>, u64)|
                old(self).transport.registry.has_pending(k) ==> #[trigger] final(self).transport.registry.delivered_value(k) == Some(
                    Err::<Vec<u8>, CdpError>(CdpError::TransportClosed),
                ),
            forall|k: (Option<Seq<u8>>, u64)|
                !old(self).transport.registry.has_pending(k) ==> #[trigger] final(self).transport.registry.delivered_value(k) == old(
                    self,
                ).transport.registry.delivered_value(k),
            final(self).tabs@ == old(self).tabs@,
            final(self).process == old(self).process,
    {
        self.fanout_shutdown = true;
        self.transport.shutdown();
    }
}

} // verus!
