//! Transport: the session multiplexer over one WebSocket.
//!
//! The transport owns the call registry and the event router, frames
//! outbound calls into `outbound` (a queue the socket writer drains), and
//! classifies each inbound frame, completing the addressed call slot or
//! routing the event.  The socket, the threads and the clock live with the
//! caller; every decision the read loop and the callers make is here.

use vstd::prelude::*;
use crate::wire;
use crate::wire::{opt_bytes_view, CallOutcome, Envelope, EnvelopeModel, OutcomeModel};
use crate::registry::CallRegistry;
use crate::router::EventRouter;
use crate::CdpError;
use vstd::string::StringSliceAdditionalSpecFns;

verus! {

/// What the read loop should do after one inbound frame: go on, or stop
/// because the frame was malformed (fatal to the read loop).
pub enum ReadDirective {
    Carry,
    Malformed,
}

/// A completed slot's value corresponds to a response outcome: the raw
/// `result` bytes on success, the peer's error surfaced as `ProtocolError`
/// otherwise.
pub open spec fn value_matches_outcome(v: Result<Vec<u8>, CdpError>, o: OutcomeModel) -> bool {
    match o {
        OutcomeModel::Success(raw) => v matches Ok(b) && b@ == raw,
        OutcomeModel::Failure { code, message } => v matches Err(CdpError::ProtocolError {
            code: c,
            message: m,
        }) && c == code && m@ == message,
    }
}

/// The transport state: registry, router, the outbound frame queue, and
/// whether the socket has been shut down.
pub struct Transport {
    pub registry: CallRegistry,
    pub router: EventRouter,
    pub outbound: Vec<Vec<u8>>,
    pub closed: bool,
    pub ws_url: Vec<u8>,
    pub process_id: Option<u32>,
}

impl Transport {
    /// Well-formedness: both tables are well-formed, and a closed transport
    /// holds no pending call.
    pub open spec fn wf(self) -> bool {
        &&& self.registry.wf()
        &&& self.router.wf()
        &&& self.closed ==> self.registry.pending@.len() == 0
    }

    /// Bind a transport to a WebSocket URL; `process_id` is set when the
    /// browser process is owned.
    pub fn new(ws_url: Vec<u8>, process_id: Option<u32>) -> (r: Transport)
        ensures
            r.wf(),
            !r.closed,
            r.registry.next_id == 1,
            r.registry.pending@.len() == 0,
            r.registry.delivered@.len() == 0,
            (r.router.browser is None),
            r.router.sessions@.len() == 0,
            r.outbound@.len() == 0,
            r.ws_url@ == ws_url@,
            r.process_id == process_id,
    {
        Transport {
            registry: CallRegistry::new(),
            router: EventRouter::new(),
            outbound: Vec::new(),
            closed: false,
            ws_url,
            process_id,
        }
    }

    /// Issue a browser-scoped call: allocate an ID, register the slot under
    /// `(root, id)`, and queue the frame
    /// `{"id":<id>,"method":"<method>","params":<params>}`.
    /// On a closed transport the call fails immediately with
    /// `TransportClosed` and nothing changes.
    pub fn call_method_on_browser(&mut self, method: &[u8], params: &[u8]) -> (r: Result<
        u64,
        CdpError,
    >)
        requires
            old(self).wf(),
            old(self).registry.next_id < u64::MAX,
        ensures
            final(self).wf(),
            final(self).ws_url == old(self).ws_url,
            final(self).process_id == old(self).process_id,
            old(self).closed ==> r == Err::<u64, CdpError>(CdpError::TransportClosed)
                && *final(self) == *old(self),
            !old(self).closed ==> {
                let id = old(self).registry.next_id;
                &&& r == Ok::<u64, CdpError>(id)
                &&& final(self).registry.pending_keys() == old(self).registry.pending_keys().push(
                    (None, id),
                )
                &&& final(self).registry.next_id == id + 1
                &&& final(self).registry.delivered@ == old(self).registry.delivered@
                &&& final(self).registry.history@ == old(self).registry.history@
                &&& final(self).outbound@.len() == old(self).outbound@.len() + 1
                &&& final(self).outbound@.last()@ == wire::spec_call_frame(id, method@, params@)
                &&& forall|i: int|
                    0 <= i < old(self).outbound@.len() ==> #[trigger] final(self).outbound@[i]
                        == old(self).outbound@[i]
                &&& final(self).router == old(self).router
                &&& final(self).closed == old(self).closed
            },
    {
        if self.closed {
            return Err(CdpError::TransportClosed);
        }
        let id = self.registry.issue(None);
        let frame = wire::build_call_frame(id, method, params);
        self.outbound.push(frame);
        Ok(id)
    }

    /// Issue a session-scoped call: allocate an ID, register the slot under
    /// `(session, id)`, and queue the inner frame wrapped in
    /// `Target.sendMessageToTarget` — the only route to a session here.  The
    /// wrapper reuses the inner ID; its own empty ack answers to the root
    /// key, which has no slot, and is dropped as a late delivery.
    pub fn call_method_on_target(&mut self, session: &[u8], method: &[u8], params: &[u8]) -> (r:
        Result<u64, CdpError>)
        requires
            old(self).wf(),
            old(self).registry.next_id < u64::MAX,
        ensures
            final(self).wf(),
            final(self).ws_url == old(self).ws_url,
            final(self).process_id == old(self).process_id,
            old(self).closed ==> r == Err::<u64, CdpError>(CdpError::TransportClosed)
                && *final(self) == *old(self),
            !old(self).closed ==> {
                let id = old(self).registry.next_id;
                &&& r == Ok::<u64, CdpError>(id)
                &&& final(self).registry.pending_keys() == old(self).registry.pending_keys().push(
                    (Some(session@), id),
                )
                &&& final(self).registry.next_id == id + 1
                &&& final(self).registry.delivered@ == old(self).registry.delivered@
                &&& final(self).registry.history@ == old(self).registry.history@
                &&& final(self).outbound@.len() == old(self).outbound@.len() + 1
                &&& final(self).outbound@.last()@ == wire::spec_call_frame(
                    id,
                    "Target.sendMessageToTarget".spec_bytes(),
                    wire::spec_wrapper_params(
                        session@,
                        wire::spec_call_frame(id, method@, params@),
                    ),
                )
                &&& forall|i: int|
                    0 <= i < old(self).outbound@.len() ==> #[trigger] final(self).outbound@[i]
                        == old(self).outbound@[i]
                &&& final(self).router == old(self).router
                &&& final(self).closed == old(self).closed
            },
    {
        if self.closed {
            return Err(CdpError::TransportClosed);
        }
        let mut owned: Vec<u8> = Vec::new();
        wire::append_bytes(&mut owned, session);
        let id = self.registry.issue(Some(owned));
        let inner = wire::build_call_frame(id, method, params);
        let wparams = wire::build_wrapper_params(session, inner.as_slice());
        let frame = wire::build_call_frame(
            id,
            "Target.sendMessageToTarget".as_bytes(),
            wparams.as_slice(),
        );
        self.outbound.push(frame);
        Ok(id)
    }

    /// Register (or keep) the single browser event listener.
    pub fn listen_to_browser_events(&mut self)
        requires
            old(self).wf(),
        ensures
            final(self).wf(),
            final(self).ws_url == old(self).ws_url,
            final(self).process_id == old(self).process_id,
            (final(self).router.browser is Some),
            final(self).registry == old(self).registry,
            final(self).outbound@ == old(self).outbound@,
            final(self).closed == old(self).closed,
            final(self).router.log@ == old(self).router.log@,
            final(self).router.sessions@ == old(self).router.sessions@,
            old(self).router.browser is Some ==> final(self).router.browser == old(self).router.browser,
    {
        self.router.listen_browser();
    }

    /// Register a listener scoped to one session.
    pub fn listen_to_target(&mut self, session: Vec<u8>)
        requires
            old(self).wf(),
        ensures
            final(self).wf(),
            final(self).ws_url == old(self).ws_url,
            final(self).process_id == old(self).process_id,
            final(self).router.has_session(session@),
            final(self).registry == old(self).registry,
            final(self).outbound@ == old(self).outbound@,
            final(self).closed == old(self).closed,
            final(self).router.log@ == old(self).router.log@,
            final(self).router.browser == old(self).router.browser,
    {
        self.router.listen_session(session);
    }

    /// Classify and dispatch one inbound frame, exactly as the codec reads
    /// it: a response completes the slot keyed by `(session, id)` (or is
    /// dropped when no slot waits); an event is routed to the listener of its
    /// scope.  Malformed JSON changes nothing and stops the read loop; a
    /// well-formed object that is neither a response nor an event (missing
    /// `id`/`method`) is dropped and the loop carries on.
    pub fn handle_incoming(&mut self, line: &[u8]) -> (r: ReadDirective)
        requires
            old(self).wf(),
        ensures
            final(self).wf(),
            final(self).ws_url == old(self).ws_url,
            final(self).process_id == old(self).process_id,
            final(self).closed == old(self).closed,
            final(self).outbound@ == old(self).outbound@,
            final(self).registry.next_id == old(self).registry.next_id,
            match wire::spec_obj(line@) {
                None => (r is Malformed) && *final(self) == *old(self),
                Some(ms) => match wire::spec_classify(ms) {
                    None => (r is Carry) && *final(self) == *old(self),
                    Some(env) => (r is Carry) && match env {
                        EnvelopeModel::Response { id, session_id, outcome } => {
                            let k = (session_id, id);
                            &&& final(self).router == old(self).router
                            &&& old(self).registry.has_pending(k) ==> {
                                &&& !final(self).registry.has_pending(k)
                                &&& (final(self).registry.delivered_value(k) matches Some(v)
                                    && value_matches_outcome(v, outcome))
                                &&& forall|k2: (Option<Seq<u8>>, u64)|
                                    k2 != k ==> #[trigger] final(self).registry.has_pending(k2)
                                        == old(self).registry.has_pending(k2)
                                &&& forall|k2: (Option<Seq<u8>>, u64)|
                                    k2 != k ==> #[trigger] final(self).registry.delivered_value(
                                        k2,
                                    ) == old(self).registry.delivered_value(k2)
                            }
                            &&& !old(self).registry.has_pending(k) ==> final(self).registry
                                == old(self).registry
                        },
                        EnvelopeModel::Event { name, params, session_id } => {
                            &&& final(self).registry == old(self).registry
                            &&& final(self).router.log@ == old(self).router.log@.push(
                                crate::router::EventRecord { session: session_id, name, params },
                            )
                            &&& (session_id is None ==> {
                                &&& final(self).router.sessions@ == old(self).router.sessions@
                                &&& match old(self).router.browser {
                                    Some(och) => {
                                        &&& (final(self).router.browser is Some)
                                        &&& final(self).router.browser->Some_0.received()
                                            == och.received().push((name, params))
                                        &&& final(self).router.browser->Some_0.consumed
                                            == och.consumed
                                    },
                                    None => (final(self).router.browser is None),
                                }
                            })
                            &&& (session_id matches Some(s) ==> {
                                &&& final(self).router.browser == old(self).router.browser
                                &&& forall|t: Seq<u8>|
                                    #[trigger] final(self).router.has_session(t) == old(
                                        self,
                                    ).router.has_session(t)
                                &&& old(self).router.has_session(s) ==> {
                                    &&& final(self).router.session_chan(s).received() == old(
                                        self,
                                    ).router.session_chan(s).received().push((name, params))
                                    &&& final(self).router.session_chan(s).consumed == old(
                                        self,
                                    ).router.session_chan(s).consumed
                                }
                                &&& forall|t: Seq<u8>|
                                    t != s && old(self).router.has_session(t) ==> #[trigger] final(self).router.session_chan(t) == old(self).router.session_chan(t)
                            })
                        },
                    },
                },
            },
    {
        match wire::parse_members(line) {
            None => ReadDirective::Malformed,
            Some(ms) => match wire::classify(&ms) {
                None => ReadDirective::Carry,
                Some(env) => match env {
                    Envelope::Response { id, session_id, outcome } => {
                        let value: Result<Vec<u8>, CdpError> = match outcome {
                            CallOutcome::Success(raw) => Ok(raw),
                            CallOutcome::Failure { code, message } => Err(
                                CdpError::ProtocolError { code, message },
                            ),
                        };
                        let _found = self.registry.complete(&session_id, id, value);
                        ReadDirective::Carry
                    },
                    Envelope::Event { name, params, session_id } => {
                        let _delivered = self.router.route(session_id, name, params);
                        ReadDirective::Carry
                    },
                },
            },
        }
    }

    /// Pick up the completed slot for a call issued earlier.
    pub fn take_response(&mut self, session: &Option<Vec<u8>>, id: u64) -> (r: Option<
        Result<Vec<u8>, CdpError>,
    >)
        requires
            old(self).wf(),
        ensures
            final(self).wf(),
            final(self).ws_url == old(self).ws_url,
            final(self).process_id == old(self).process_id,
            r == old(self).registry.delivered_value((opt_bytes_view(*session), id)),
            final(self).registry.pending@ == old(self).registry.pending@,
            final(self).registry.history@ == old(self).registry.history@,
            final(self).registry.next_id == old(self).registry.next_id,
            (final(self).registry.delivered_value((opt_bytes_view(*session), id)) is None),
            forall|k2: (Option<Seq<u8>>, u64)|
                k2 != (opt_bytes_view(*session), id) ==> #[trigger] final(self).registry.delivered_value(k2) == old(self).registry.delivered_value(k2),
            final(self).router == old(self).router,
            final(self).outbound@ == old(self).outbound@,
            final(self).closed == old(self).closed,
    {
        self.registry.take(session, id)
    }

    /// Take the next browser event, in arrival order.
    pub fn pop_browser_event(&mut self) -> (r: Option<crate::router::RoutedEvent>)
        requires
            old(self).wf(),
            (old(self).router.browser is Some),
        ensures
            final(self).wf(),
            final(self).ws_url == old(self).ws_url,
            final(self).process_id == old(self).process_id,
            final(self).registry == old(self).registry,
            final(self).outbound@ == old(self).outbound@,
            final(self).closed == old(self).closed,
            final(self).router.log@ == old(self).router.log@,
            final(self).router.sessions@ == old(self).router.sessions@,
            (final(self).router.browser is Some),
            ({
                let oq = old(self).router.browser->Some_0.queue@;
                match r {
                    Some(e) => oq.len() > 0 && e == oq[0] && final(self).router.browser->Some_0.queue@ == oq.drop_first(),
                    None => oq.len() == 0 && final(self).router.browser->Some_0.queue@ == oq,
                }
            }),
    {
        self.router.pop_browser()
    }

    /// Take the next event of one session, in arrival order.
    pub fn pop_session_event(&mut self, session: &Vec<u8>) -> (r: Option<
        crate::router::RoutedEvent,
    >)
        requires
            old(self).wf(),
        ensures
            final(self).wf(),
            final(self).ws_url == old(self).ws_url,
            final(self).process_id == old(self).process_id,
            final(self).registry == old(self).registry,
            final(self).outbound@ == old(self).outbound@,
            final(self).closed == old(self).closed,
            final(self).router.log@ == old(self).router.log@,
            !old(self).router.has_session(session@) ==> (r is None),
            (old(self).router.has_session(session@) ==> {
                let oq = old(self).router.session_chan(session@).queue@;
                match r {
                    Some(e) => oq.len() > 0 && e == oq[0] && final(self).router.session_chan(
                        session@,
                    ).queue@ == oq.drop_first(),
                    None => oq.len() == 0 && final(self).router.session_chan(session@).queue@
                        == oq,
                }
            }),
    {
        self.router.pop_session(session)
    }

    /// A session went away (`Target.detachedFromTarget` or target
    /// destruction): evict its listener and fail every pending call scoped to
    /// it with `SessionClosed`.  Calls of other sessions and of the root are
    /// untouched.
    pub fn session_detached(&mut self, session: &Vec<u8>)
        requires
            old(self).wf(),
        ensures
            final(self).wf(),
            final(self).ws_url == old(self).ws_url,
            final(self).process_id == old(self).process_id,
            final(self).closed == old(self).closed,
            final(self).outbound@ == old(self).outbound@,
            final(self).registry.next_id == old(self).registry.next_id,
            forall|k: (Option<Seq<u8>>, u64)|
                k.0 == Some(session@) ==> !final(self).registry.has_pending(k),
            forall|k: (Option<Seq<u8>>, u64)|
                k.0 == Some(session@) && old(self).registry.has_pending(k) ==> #[trigger] final(self).registry.delivered_value(k) == Some(
                    Err::<Vec<u8>, CdpError>(CdpError::SessionClosed),
                ),
            forall|k: (Option<Seq<u8>>, u64)|
                k.0 != Some(session@) ==> #[trigger] final(self).registry.has_pending(k) == old(self).registry.has_pending(k) && final(self).registry.delivered_value(k) == old(self).registry.delivered_value(k),
            !final(self).router.has_session(session@),
            final(self).router.browser == old(self).router.browser,
            final(self).router.log@ == old(self).router.log@,
    {
        if self.closed {
            proof {
                assert(self.registry.pending_keys().len() == 0);
                assert forall|k: (Option<Seq<u8>>, u64)| true implies !self.registry.has_pending(
                    k,
                ) by {
                    if self.registry.has_pending(k) {
                        let j = choose|j: int|
                            0 <= j < self.registry.pending_keys().len()
                                && self.registry.pending_keys()[j] == k;
                    }
                }
            }
        }
        self.registry.fail_session(session);
        self.router.drop_session(session);
        proof {
            if self.closed && self.registry.pending@.len() > 0 {
                let k0 = self.registry.pending_keys()[0];
                assert(self.registry.pending_keys().contains(k0));
                assert(self.registry.has_pending(k0));
                if k0.0 != Some(session@) {
                    assert(old(self).registry.has_pending(k0));
                    let j = choose|j: int|
                        0 <= j < old(self).registry.pending_keys().len() && old(
                            self,
                        ).registry.pending_keys()[j] == k0;
                    assert(false);
                }
            }
        }
    }

    /// Shut the transport down.  Law: shutdown liveness — after this returns
    /// no pending call remains; every slot that was pending is completed with
    /// `TransportClosed`, so every waiter picking it up observes that error;
    /// every event channel is closed.  Idempotent: a second shutdown finds
    /// nothing pending and changes no slot.
    pub fn shutdown(&mut self)
        requires
            old(self).wf(),
        ensures
            final(self).wf(),
            final(self).ws_url == old(self).ws_url,
            final(self).process_id == old(self).process_id,
            final(self).closed,
            final(self).registry.pending@.len() == 0,
            forall|k: (Option<Seq<u8>>, u64)|
                old(self).registry.has_pending(k) ==> #[trigger] final(self).registry.delivered_value(k) == Some(
                    Err::<Vec<u8>, CdpError>(CdpError::TransportClosed),
                ),
            forall|k: (Option<Seq<u8>>, u64)|
                !old(self).registry.has_pending(k) ==> #[trigger] final(self).registry.delivered_value(k) == old(self).registry.delivered_value(k),
            (final(self).router.browser is None),
            final(self).router.sessions@.len() == 0,
            final(self).outbound@ == old(self).outbound@,
            final(self).registry.next_id == old(self).registry.next_id,
    {
        self.registry.fail_all(CdpError::TransportClosed);
        self.router.close_all();
        self.closed = true;
    }
}

} // verus!
