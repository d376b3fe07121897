//! Event router: delivery of inbound events to the browser listener and to
//! per-session listeners.
//!
//! Events without a session go to the single browser channel; events
//! unwrapped from a session wrapper go to that session's channel; events with
//! no matching channel are dropped silently.  The full routed stream is
//! carried as ghost state, so each channel's contract can say exactly which
//! slice of the stream it received, in order.

use vstd::prelude::*;
use crate::wire::opt_bytes_view;

verus! {

/// One event as seen by a listener: its name and raw params.
pub struct RoutedEvent {
    pub name: Vec<u8>,
    pub params: Vec<u8>,
}

impl View for RoutedEvent {
    type V = (Seq<u8>, Seq<u8>);

    open spec fn view(&self) -> (Seq<u8>, Seq<u8>) {
        (self.name@, self.params@)
    }
}

/// One record of the routed stream: the scope an event arrived on and its
/// payload.
pub struct EventRecord {
    pub session: Option<Seq<u8>>,
    pub name: Seq<u8>,
    pub params: Seq<u8>,
}

pub open spec fn queue_views(q: Seq<RoutedEvent>) -> Seq<(Seq<u8>, Seq<u8>)> {
    q.map_values(|e: RoutedEvent| e@)
}

/// The sub-stream of `evs` visible to a listener on `scope`, in arrival
/// order.
pub open spec fn scope_filter(evs: Seq<EventRecord>, scope: Option<Seq<u8>>) -> Seq<
    (Seq<u8>, Seq<u8>),
>
    decreases evs.len(),
{
    if evs.len() == 0 {
        Seq::empty()
    } else {
        scope_filter(evs.drop_last(), scope) + if evs.last().session == scope {
            seq![(evs.last().name, evs.last().params)]
        } else {
            Seq::empty()
        }
    }
}

/// A listener's FIFO channel.  `consumed` records what the listener already
/// took, `from` where in the routed stream the channel was registered.
pub struct EventChannel {
    pub queue: Vec<RoutedEvent>,
    pub consumed: Ghost<Seq<(Seq<u8>, Seq<u8>)>>,
    pub from: Ghost<int>,
}

impl EventChannel {
    /// Everything ever delivered to this channel, in order.
    pub open spec fn received(self) -> Seq<(Seq<u8>, Seq<u8>)> {
        self.consumed@ + queue_views(self.queue@)
    }
}

/// A session listener: the session it is scoped to and its channel.
pub struct SessionSlot {
    pub session: Vec<u8>,
    pub chan: EventChannel,
}

/// The registration table: at most one browser listener and at most one
/// listener per session, plus the ghost stream of all routed events.
pub struct EventRouter {
    pub browser: Option<EventChannel>,
    pub sessions: Vec<SessionSlot>,
    pub log: Ghost<Seq<EventRecord>>,
}

/// A channel is synchronized with the routed stream: what it received is
/// exactly the scoped slice of the stream since its registration.
pub open spec fn chan_wf(ch: EventChannel, log: Seq<EventRecord>, scope: Option<Seq<u8>>) -> bool {
    &&& 0 <= ch.from@ <= log.len()
    &&& ch.received() == scope_filter(log.subrange(ch.from@, log.len() as int), scope)
}

impl EventRouter {
    pub open spec fn has_session(self, s: Seq<u8>) -> bool {
        exists|i: int| 0 <= i < self.sessions@.len() && (#[trigger] self.sessions@[i]).session@ == s
    }

    pub open spec fn session_chan(self, s: Seq<u8>) -> EventChannel {
        self.sessions@[choose|i: int|
            0 <= i < self.sessions@.len() && (#[trigger] self.sessions@[i]).session@ == s].chan
    }

    pub open spec fn wf(self) -> bool {
        &&& forall|i: int, j: int|
            0 <= i < j < self.sessions@.len() ==> (#[trigger] self.sessions@[i]).session@ != (
            #[trigger] self.sessions@[j]).session@
        &&& match self.browser {
            Some(ch) => chan_wf(ch, self.log@, None),
            None => true,
        }
        &&& forall|i: int|
            0 <= i < self.sessions@.len() ==> chan_wf(
                (#[trigger] self.sessions@[i]).chan,
                self.log@,
                Some(self.sessions@[i].session@),
            )
    }

    /// An empty router: no listeners, nothing routed.
    pub fn new() -> (r: EventRouter)
        ensures
            r.wf(),
            r.browser is None,
            r.sessions@.len() == 0,
            r.log@.len() == 0,
    {
        EventRouter { browser: None, sessions: Vec::new(), log: Ghost(Seq::empty()) }
    }

    /// Register (or keep) the single browser listener.  A fresh channel sees
    /// only events routed from now on.
    pub fn listen_browser(&mut self)
        requires
            old(self).wf(),
        ensures
            final(self).wf(),
            final(self).browser is Some,
            final(self).log@ == old(self).log@,
            final(self).sessions@ == old(self).sessions@,
            old(self).browser is Some ==> final(self).browser == old(self).browser,
            old(self).browser is None ==> final(self).browser->Some_0.received() == Seq::<
                (Seq<u8>, Seq<u8>),
            >::empty(),
    {
        if self.browser.is_none() {
            let ch = EventChannel {
                queue: Vec::new(),
                consumed: Ghost(Seq::empty()),
                from: Ghost(self.log@.len() as int),
            };
            proof {
                assert(self.log@.subrange(self.log@.len() as int, self.log@.len() as int)
                    =~= Seq::<EventRecord>::empty());
                assert(ch.received() =~= Seq::<(Seq<u8>, Seq<u8>)>::empty());
            }
            self.browser = Some(ch);
        }
    }

    /// Register a listener for `session` if none exists.  A fresh channel
    /// sees only events routed from now on.
    #[verifier::loop_isolation(false)]
    pub fn listen_session(&mut self, session: Vec<u8>)
        requires
            old(self).wf(),
        ensures
            final(self).wf(),
            final(self).has_session(session@),
            final(self).log@ == old(self).log@,
            final(self).browser == old(self).browser,
            old(self).has_session(session@) ==> final(self).sessions@ == old(self).sessions@,
            !old(self).has_session(session@) ==> {
                &&& final(self).sessions@.len() == old(self).sessions@.len() + 1
                &&& final(self).sessions@.last().session@ == session@
                &&& final(self).sessions@.last().chan.received() == Seq::<
                    (Seq<u8>, Seq<u8>),
                >::empty()
                &&& forall|i: int|
                    0 <= i < old(self).sessions@.len() ==> #[trigger] final(self).sessions@[i]
                        == old(self).sessions@[i]
            },
    {
        let mut i: usize = 0;
        while i < self.sessions.len()
            invariant
                *self == *old(self),
                i <= self.sessions@.len(),
                forall|j: int| 0 <= j < i ==> (#[trigger] self.sessions@[j]).session@ != session@,
            decreases self.sessions@.len() - i,
        {
            if crate::wire::bytes_eq(self.sessions[i].session.as_slice(), session.as_slice()) {
                proof {
                    assert(self.sessions@[i as int].session@ == session@);
                }
                return ;
            }
            i = i + 1;
        }
        let ch = EventChannel {
            queue: Vec::new(),
            consumed: Ghost(Seq::empty()),
            from: Ghost(self.log@.len() as int),
        };
        proof {
            assert(self.log@.subrange(self.log@.len() as int, self.log@.len() as int) =~= Seq::<
                EventRecord,
            >::empty());
            assert(ch.received() =~= Seq::<(Seq<u8>, Seq<u8>)>::empty());
        }
        self.sessions.push(SessionSlot { session, chan: ch });
        proof {
            assert(self.sessions@.last().session@ == session@);
        }
    }

    /// Remove the listener for `session`, if any (a handle unregisters on
    /// drop, and a detached session evicts its channel).
    #[verifier::loop_isolation(false)]
    pub fn drop_session(&mut self, session: &Vec<u8>)
        requires
            old(self).wf(),
        ensures
            final(self).wf(),
            !final(self).has_session(session@),
            final(self).log@ == old(self).log@,
            final(self).browser == old(self).browser,
            forall|t: Seq<u8>|
                t != session@ ==> #[trigger] final(self).has_session(t) == old(self).has_session(t),
            forall|t: Seq<u8>|
                t != session@ && old(self).has_session(t) ==> #[trigger] final(self).session_chan(t)
                    == old(self).session_chan(t),
    {
        let mut i: usize = 0;
        while i < self.sessions.len()
            invariant
                *self == *old(self),
                i <= self.sessions@.len(),
                forall|j: int| 0 <= j < i ==> (#[trigger] self.sessions@[j]).session@ != session@,
            decreases self.sessions@.len() - i,
        {
            if crate::wire::bytes_eq(self.sessions[i].session.as_slice(), session.as_slice()) {
                let ghost oss = self.sessions@;
                let _ = self.sessions.remove(i);
                proof {
                    let nss = self.sessions@;
                    assert(nss =~= oss.remove(i as int));
                    assert forall|j: int| 0 <= j < nss.len() implies (#[trigger] nss[j]).session@
                        != session@ by {
                        if j < i {
                            assert(nss[j] == oss[j]);
                        } else {
                            assert(nss[j] == oss[j + 1]);
                        }
                    }
                    if self.has_session(session@) {
                        let j = choose|j: int|
                            0 <= j < nss.len() && (#[trigger] nss[j]).session@ == session@;
                    }
                    assert forall|t: Seq<u8>| t != session@ implies #[trigger] self.has_session(t)
                        == old(self).has_session(t) by {
                        if old(self).has_session(t) {
                            let j = choose|j: int|
                                0 <= j < oss.len() && (#[trigger] oss[j]).session@ == t;
                            if j < i {
                                assert(nss[j] == oss[j]);
                            } else {
                                assert(j != i);
                                assert(nss[j - 1] == oss[j]);
                            }
                        }
                        if self.has_session(t) {
                            let j = choose|j: int|
                                0 <= j < nss.len() && (#[trigger] nss[j]).session@ == t;
                            if j < i {
                                assert(oss[j] == nss[j]);
                            } else {
                                assert(oss[j + 1] == nss[j]);
                            }
                        }
                    }
                    assert forall|t: Seq<u8>| t != session@ && old(self).has_session(t) implies
                        #[trigger] self.session_chan(t) == old(self).session_chan(t) by {
                        assert(self.has_session(t));
                        let j1 = choose|j: int|
                            0 <= j < oss.len() && (#[trigger] oss[j]).session@ == t;
                        let j2 = choose|j: int|
                            0 <= j < nss.len() && (#[trigger] nss[j]).session@ == t;
                        if j2 < i {
                            assert(nss[j2] == oss[j2]);
                            assert(oss[j2].session@ == t);
                            assert(j1 == j2);
                        } else {
                            assert(nss[j2] == oss[j2 + 1]);
                            assert(oss[j2 + 1].session@ == t);
                            assert(j1 == j2 + 1);
                        }
                    }
                }
                return ;
            }
            i = i + 1;
        }
        proof {
            if self.has_session(session@) {
                let j = choose|j: int|
                    0 <= j < self.sessions@.len() && (#[trigger] self.sessions@[j]).session@
                        == session@;
            }
        }
    }

    /// Route one event to the listener of its scope; an event with no
    /// matching listener is dropped silently.  Only the addressed channel
    /// changes: a session event is delivered to its own session's listener
    /// and to no other.
    #[verifier::loop_isolation(false)]
    pub fn route(&mut self, session: Option<Vec<u8>>, name: Vec<u8>, params: Vec<u8>) -> (delivered:
        bool)
        requires
            old(self).wf(),
        ensures
            final(self).wf(),
            final(self).log@ == old(self).log@.push(
                EventRecord { session: opt_bytes_view(session), name: name@, params: params@ },
            ),
            // scope: the browser
            session is None ==> {
                &&& final(self).sessions@ == old(self).sessions@
                &&& delivered == (old(self).browser is Some)
                &&& match old(self).browser {
                    Some(och) => {
                        &&& final(self).browser is Some
                        &&& final(self).browser->Some_0.received() == och.received().push(
                            (name@, params@),
                        )
                        &&& final(self).browser->Some_0.consumed == och.consumed
                    },
                    None => final(self).browser is None,
                }
            },
            // scope: one session; every other channel is untouched
            session matches Some(s) ==> {
                &&& final(self).browser == old(self).browser
                &&& delivered == old(self).has_session(s@)
                &&& forall|t: Seq<u8>|
                    #[trigger] final(self).has_session(t) == old(self).has_session(t)
                &&& old(self).has_session(s@) ==> {
                    &&& final(self).session_chan(s@).received() == old(self).session_chan(
                        s@,
                    ).received().push((name@, params@))
                    &&& final(self).session_chan(s@).consumed == old(self).session_chan(s@).consumed
                }
                &&& forall|t: Seq<u8>|
                    t != opt_bytes_view(session)->Some_0 && old(self).has_session(t)
                        ==> #[trigger] final(self).session_chan(t) == old(self).session_chan(t)
            },
    {
        let ghost rec = EventRecord {
            session: opt_bytes_view(session),
            name: name@,
            params: params@,
        };
        let ghost oldlog = self.log@;
        proof {
            self.log@ = self.log@.push(rec);
            lemma_scope_filter_push(oldlog, rec);
        }
        match session {
            None => {
                match &mut self.browser {
                    Some(ch) => {
                        let ghost oldch = *ch;
                        ch.queue.push(RoutedEvent { name, params });
                        proof {
                            assert(queue_views(ch.queue@) =~= queue_views(oldch.queue@).push(
                                (name@, params@),
                            ));
                            assert(ch.received() =~= oldch.received().push((name@, params@)));
                            lemma_filter_frame(oldlog, rec, oldch.from@, None);
                            assert(oldch.received().push((name@, params@)) =~= oldch.received()
                                + seq![(name@, params@)]);
                            assert(self.log@.subrange(oldch.from@, self.log@.len() as int)
                                == oldlog.push(rec).subrange(oldch.from@, oldlog.len() as int + 1));
                            assert(chan_wf(*ch, self.log@, None));
                            assert forall|i: int| 0 <= i < self.sessions@.len() implies chan_wf(
                                (#[trigger] self.sessions@[i]).chan,
                                self.log@,
                                Some(self.sessions@[i].session@),
                            ) by {
                                lemma_filter_frame(
                                    oldlog,
                                    rec,
                                    self.sessions@[i].chan.from@,
                                    Some(self.sessions@[i].session@),
                                );
                            }
                        }
                        true
                    },
                    None => {
                        proof {
                            lemma_all_frames(oldlog, rec, *self);
                        }
                        false
                    },
                }
            },
            Some(s) => {
                let mut i: usize = 0;
                while i < self.sessions.len()
                    invariant
                        self.log@ == oldlog.push(rec),
                        self.browser == old(self).browser,
                        self.sessions@ == old(self).sessions@,
                        i <= self.sessions@.len(),
                        forall|j: int| 0 <= j < i ==> (#[trigger] self.sessions@[j]).session@ != s@,
                    decreases self.sessions@.len() - i,
                {
                    if crate::wire::bytes_eq(self.sessions[i].session.as_slice(), s.as_slice()) {
                        let ghost oss = self.sessions@;
                        let ghost oldch = self.sessions@[i as int].chan;
                        let slot = &mut self.sessions[i];
                        slot.chan.queue.push(RoutedEvent { name, params });
                        proof {
                            let nss = self.sessions@;
                            assert(nss[i as int].session == oss[i as int].session);
                            assert(nss[i as int].chan.queue@ == oldch.queue@.push(
                                RoutedEvent { name: name, params: params },
                            ));
                            assert(forall|j: int|
                                0 <= j < nss.len() && j != i ==> #[trigger] nss[j] == oss[j]);
                            assert(queue_views(nss[i as int].chan.queue@) =~= queue_views(
                                oldch.queue@,
                            ).push((name@, params@)));
                            assert(nss[i as int].chan.received() =~= oldch.received().push(
                                (name@, params@),
                            ));
                            // the addressed channel stays synchronized
                            assert(rec.session == Some(oss[i as int].session@));
                            lemma_filter_frame(oldlog, rec, oldch.from@, Some(oss[i as int].session@));
                            assert(forall|j: int|
                                0 <= j < nss.len() ==> (#[trigger] nss[j]).session@
                                    == oss[j].session@);
                            assert(chan_wf(
                                nss[i as int].chan,
                                self.log@,
                                Some(nss[i as int].session@),
                            )) by {
                                assert(oldch.received() == scope_filter(
                                    oldlog.subrange(oldch.from@, oldlog.len() as int),
                                    Some(oss[i as int].session@),
                                ));
                                assert(oldch.received().push((name@, params@)) =~= oldch.received()
                                    + seq![(name@, params@)]);
                                assert(self.log@.subrange(oldch.from@, self.log@.len() as int)
                                    == oldlog.push(rec).subrange(
                                    oldch.from@,
                                    oldlog.len() as int + 1,
                                ));
                            }
                            // every other channel is framed
                            assert forall|j: int| 0 <= j < nss.len() && j != i implies chan_wf(
                                (#[trigger] nss[j]).chan,
                                self.log@,
                                Some(nss[j].session@),
                            ) by {
                                assert(nss[j] == oss[j]);
                                assert(oss[j].session@ != oss[i as int].session@);
                                lemma_filter_frame(oldlog, rec, oss[j].chan.from@, Some(oss[j].session@));
                            }
                            if old(self).browser is Some {
                                let bch = old(self).browser->Some_0;
                                lemma_filter_frame(oldlog, rec, bch.from@, None);
                                assert(scope_filter(
                                    oldlog.subrange(bch.from@, oldlog.len() as int),
                                    None,
                                ) + Seq::<(Seq<u8>, Seq<u8>)>::empty() =~= scope_filter(
                                    oldlog.subrange(bch.from@, oldlog.len() as int),
                                    None,
                                ));
                                assert(self.log@.subrange(bch.from@, self.log@.len() as int)
                                    == oldlog.push(rec).subrange(
                                    bch.from@,
                                    oldlog.len() as int + 1,
                                ));
                                assert(chan_wf(bch, self.log@, None));
                            }
                            // session membership is unchanged
                            assert forall|t: Seq<u8>| #[trigger] self.has_session(t) == old(
                                self,
                            ).has_session(t) by {
                                if old(self).has_session(t) {
                                    let j = choose|j: int|
                                        0 <= j < oss.len() && (#[trigger] oss[j]).session@ == t;
                                    assert(nss[j].session@ == t);
                                }
                                if self.has_session(t) {
                                    let j = choose|j: int|
                                        0 <= j < nss.len() && (#[trigger] nss[j]).session@ == t;
                                    assert(oss[j].session@ == t);
                                }
                            }
                            // the addressed channel is the one under its key
                            assert(self.session_chan(s@) == nss[i as int].chan) by {
                                let j = choose|j: int|
                                    0 <= j < nss.len() && (#[trigger] nss[j]).session@ == s@;
                                assert(j == i);
                            }
                            assert(old(self).session_chan(s@) == oldch) by {
                                let j = choose|j: int|
                                    0 <= j < oss.len() && (#[trigger] oss[j]).session@ == s@;
                                assert(j == i);
                            }
                            assert forall|t: Seq<u8>| t != s@ && old(self).has_session(t) implies
                                #[trigger] self.session_chan(t) == old(self).session_chan(
                                t,
                            ) by {
                                assert(self.has_session(t));
                                let j1 = choose|j: int|
                                    0 <= j < oss.len() && (#[trigger] oss[j]).session@ == t;
                                let j2 = choose|j: int|
                                    0 <= j < nss.len() && (#[trigger] nss[j]).session@ == t;
                                assert(j1 != i && j2 != i);
                                assert(nss[j2] == oss[j2]);
                                assert(j1 == j2);
                            }
                        }
                        return true;
                    }
                    i = i + 1;
                }
                proof {
                    lemma_all_frames(oldlog, rec, *self);
                    if self.has_session(s@) {
                        let j = choose|j: int|
                            0 <= j < self.sessions@.len() && (#[trigger] self.sessions@[j]).session@
                                == s@;
                    }
                }
                false
            },
        }
    }

    /// Take the next event from the browser channel, in arrival order.
    pub fn pop_browser(&mut self) -> (r: Option<RoutedEvent>)
        requires
            old(self).wf(),
            (old(self).browser is Some),
        ensures
            final(self).wf(),
            final(self).log@ == old(self).log@,
            final(self).sessions@ == old(self).sessions@,
            (final(self).browser is Some),
            final(self).browser->Some_0.received() == old(self).browser->Some_0.received(),
            ({
                let oq = old(self).browser->Some_0.queue@;
                match r {
                    Some(e) => oq.len() > 0 && e == oq[0] && final(self).browser->Some_0.queue@
                        == oq.drop_first(),
                    None => oq.len() == 0 && final(self).browser->Some_0.queue@ == oq,
                }
            }),
    {
        match &mut self.browser {
            Some(ch) => {
                if ch.queue.len() == 0 {
                    None
                } else {
                    let ghost oldch = *ch;
                    let e = ch.queue.remove(0);
                    proof {
                        ch.consumed@ = ch.consumed@.push(e@);
                        assert(ch.queue@ =~= oldch.queue@.drop_first());
                        lemma_views_shift(oldch.queue@, ch.queue@, e);
                        assert(ch.received() =~= oldch.received());
                    }
                    Some(e)
                }
            },
            None => None,
        }
    }

    /// Take the next event from one session's channel, in arrival order.
    #[verifier::loop_isolation(false)]
    pub fn pop_session(&mut self, session: &Vec<u8>) -> (r: Option<RoutedEvent>)
        requires
            old(self).wf(),
        ensures
            final(self).wf(),
            final(self).log@ == old(self).log@,
            final(self).browser == old(self).browser,
            forall|t: Seq<u8>| #[trigger] final(self).has_session(t) == old(self).has_session(t),
            !old(self).has_session(session@) ==> (r is None) && final(self).sessions@ == old(
                self,
            ).sessions@,
            (old(self).has_session(session@) ==> {
                let oq = old(self).session_chan(session@).queue@;
                &&& final(self).session_chan(session@).received() == old(self).session_chan(
                    session@,
                ).received()
                &&& forall|t: Seq<u8>|
                    t != session@ && old(self).has_session(t)
                        ==> #[trigger] final(self).session_chan(t) == old(self).session_chan(t)
                &&& match r {
                    Some(e) => oq.len() > 0 && e == oq[0] && final(self).session_chan(
                        session@,
                    ).queue@ == oq.drop_first(),
                    None => oq.len() == 0 && final(self).session_chan(session@).queue@ == oq,
                }
            }),
    {
        let mut i: usize = 0;
        while i < self.sessions.len()
            invariant
                *self == *old(self),
                i <= self.sessions@.len(),
                forall|j: int| 0 <= j < i ==> (#[trigger] self.sessions@[j]).session@ != session@,
            decreases self.sessions@.len() - i,
        {
            if crate::wire::bytes_eq(self.sessions[i].session.as_slice(), session.as_slice()) {
                let ghost oss = self.sessions@;
                let ghost oldch = self.sessions@[i as int].chan;
                proof {
                    assert(old(self).session_chan(session@) == oldch) by {
                        let j = choose|j: int|
                            0 <= j < oss.len() && (#[trigger] oss[j]).session@ == session@;
                        assert(j == i);
                    }
                }
                if self.sessions[i].chan.queue.len() == 0 {
                    proof {
                        lemma_same_sessions(*old(self), *self);
                    }
                    return None;
                }
                let slot = &mut self.sessions[i];
                let e = slot.chan.queue.remove(0);
                proof {
                    slot.chan.consumed@ = slot.chan.consumed@.push(e@);
                }
                proof {
                    let nss = self.sessions@;
                    assert(forall|j: int|
                        0 <= j < nss.len() && j != i ==> #[trigger] nss[j] == oss[j]);
                    assert(nss[i as int].session == oss[i as int].session);
                    assert(nss[i as int].chan.queue@ =~= oldch.queue@.drop_first());
                    lemma_views_shift(oldch.queue@, nss[i as int].chan.queue@, e);
                    assert(nss[i as int].chan.received() =~= oldch.received());
                    assert forall|t: Seq<u8>| #[trigger] self.has_session(t) == old(
                        self,
                    ).has_session(t) by {
                        if old(self).has_session(t) {
                            let j = choose|j: int|
                                0 <= j < oss.len() && (#[trigger] oss[j]).session@ == t;
                            assert(nss[j].session@ == t);
                        }
                        if self.has_session(t) {
                            let j = choose|j: int|
                                0 <= j < nss.len() && (#[trigger] nss[j]).session@ == t;
                            assert(oss[j].session@ == t);
                        }
                    }
                    assert(self.session_chan(session@) == nss[i as int].chan) by {
                        let j = choose|j: int|
                            0 <= j < nss.len() && (#[trigger] nss[j]).session@ == session@;
                        assert(j == i);
                    }
                    assert forall|t: Seq<u8>| t != session@ && old(self).has_session(t) implies
                        #[trigger] self.session_chan(t) == old(self).session_chan(t) by {
                        assert(self.has_session(t));
                        let j1 = choose|j: int|
                            0 <= j < oss.len() && (#[trigger] oss[j]).session@ == t;
                        let j2 = choose|j: int|
                            0 <= j < nss.len() && (#[trigger] nss[j]).session@ == t;
                        assert(j1 != i && j2 != i);
                        assert(nss[j2] == oss[j2]);
                        assert(j1 == j2);
                    }
                }
                return Some(e);
            }
            i = i + 1;
        }
        proof {
            lemma_same_sessions(*old(self), *self);
            if old(self).has_session(session@) {
                let j = choose|j: int|
                    0 <= j < self.sessions@.len() && (#[trigger] self.sessions@[j]).session@
                        == session@;
            }
        }
        None
    }

    /// Close every channel (transport shutdown): the browser channel and all
    /// session channels are gone; the routed stream stays on record.
    pub fn close_all(&mut self)
        requires
            old(self).wf(),
        ensures
            final(self).wf(),
            final(self).browser is None,
            final(self).sessions@.len() == 0,
            final(self).log@ == old(self).log@,
    {
        self.browser = None;
        self.sessions.clear();
    }
}

proof fn lemma_same_sessions(a: EventRouter, b: EventRouter)
    requires
        a.sessions@ == b.sessions@,
    ensures
        forall|t: Seq<u8>| #[trigger] a.has_session(t) == b.has_session(t),
        forall|t: Seq<u8>|
            a.has_session(t) ==> #[trigger] a.session_chan(t) == b.session_chan(t),
{
}

/// Appending one record extends a scope's stream by the record's payload
/// when the scope matches, else leaves it unchanged.
proof fn lemma_scope_filter_push(log: Seq<EventRecord>, rec: EventRecord)
    ensures
        forall|scope: Option<Seq<u8>>|
            #[trigger] scope_filter(log.push(rec), scope) == scope_filter(log, scope) + (
            if rec.session == scope {
                seq![(rec.name, rec.params)]
            } else {
                Seq::<(Seq<u8>, Seq<u8>)>::empty()
            }),
{
    assert forall|scope: Option<Seq<u8>>|
        #[trigger] scope_filter(log.push(rec), scope) == scope_filter(log, scope) + (
        if rec.session == scope {
            seq![(rec.name, rec.params)]
        } else {
            Seq::<(Seq<u8>, Seq<u8>)>::empty()
        }) by {
        assert(log.push(rec).drop_last() =~= log);
        assert(log.push(rec).last() == rec);
    }
}

/// A channel registered at `from` stays synchronized across a push of the
/// stream: the new slice filters to the old slice plus the record if and
/// only if the scope matches.
proof fn lemma_filter_frame(log: Seq<EventRecord>, rec: EventRecord, from: int, scope: Option<
    Seq<u8>,
>)
    requires
        0 <= from <= log.len(),
    ensures
        scope_filter(log.push(rec).subrange(from, log.len() as int + 1), scope) == scope_filter(
            log.subrange(from, log.len() as int),
            scope,
        ) + (if rec.session == scope {
            seq![(rec.name, rec.params)]
        } else {
            Seq::<(Seq<u8>, Seq<u8>)>::empty()
        }),
{
    let sub = log.push(rec).subrange(from, log.len() as int + 1);
    assert(sub =~= log.subrange(from, log.len() as int).push(rec));
    lemma_scope_filter_push(log.subrange(from, log.len() as int), rec);
}

/// When no channel matches, pushing the record onto the stream leaves every
/// registered channel synchronized.
proof fn lemma_all_frames(oldlog: Seq<EventRecord>, rec: EventRecord, r: EventRouter)
    requires
        r.log@ == oldlog.push(rec),
        match r.browser {
            Some(ch) => chan_wf(ch, oldlog, None) && rec.session is Some,
            None => true,
        },
        forall|i: int|
            0 <= i < r.sessions@.len() ==> chan_wf(
                (#[trigger] r.sessions@[i]).chan,
                oldlog,
                Some(r.sessions@[i].session@),
            ) && rec.session != Some(r.sessions@[i].session@),
    ensures
        match r.browser {
            Some(ch) => chan_wf(ch, r.log@, None),
            None => true,
        },
        forall|i: int|
            0 <= i < r.sessions@.len() ==> chan_wf(
                (#[trigger] r.sessions@[i]).chan,
                r.log@,
                Some(r.sessions@[i].session@),
            ),
{
    match r.browser {
        Some(ch) => {
            lemma_filter_frame(oldlog, rec, ch.from@, None);
        },
        None => {},
    }
    assert forall|i: int| 0 <= i < r.sessions@.len() implies chan_wf(
        (#[trigger] r.sessions@[i]).chan,
        r.log@,
        Some(r.sessions@[i].session@),
    ) by {
        lemma_filter_frame(oldlog, rec, r.sessions@[i].chan.from@, Some(r.sessions@[i].session@));
    }
}

/// Removing the queue's front while recording it as consumed keeps the
/// received stream intact.
proof fn lemma_views_shift(oq: Seq<RoutedEvent>, nq: Seq<RoutedEvent>, e: RoutedEvent)
    requires
        oq.len() > 0,
        e == oq[0],
        nq == oq.drop_first(),
    ensures
        queue_views(oq) == seq![e@] + queue_views(nq),
{
    assert(queue_views(oq) =~= seq![e@] + queue_views(nq));
}

/// Law: ordering.  What a listener receives is exactly the routed stream
/// since its registration, restricted to its scope, in arrival order — a
/// prefix-preserving subsequence of the inbound stream.
pub proof fn lemma_ordering(r: EventRouter, s: Seq<u8>)
    requires
        r.wf(),
        r.has_session(s),
    ensures
        r.session_chan(s).received() == scope_filter(
            r.log@.subrange(r.session_chan(s).from@, r.log@.len() as int),
            Some(s),
        ),
{
    let i = choose|i: int|
        0 <= i < r.sessions@.len() && (#[trigger] r.sessions@[i]).session@ == s;
    assert(chan_wf(r.sessions@[i].chan, r.log@, Some(r.sessions@[i].session@)));
}

/// Law: ordering, for the browser listener.
pub proof fn lemma_ordering_browser(r: EventRouter)
    requires
        r.wf(),
        r.browser is Some,
    ensures
        r.browser->Some_0.received() == scope_filter(
            r.log@.subrange(r.browser->Some_0.from@, r.log@.len() as int),
            None,
        ),
{
}

/// Law: session isolation.  An event emitted on session `s` never appears in
/// the scoped stream of a different session `t`, whatever the stream around
/// it holds.
pub proof fn lemma_session_isolation(
    evs: Seq<EventRecord>,
    rec: EventRecord,
    s: Seq<u8>,
    t: Seq<u8>,
)
    requires
        rec.session == Some(s),
        s != t,
    ensures
        scope_filter(evs.push(rec), Some(t)) == scope_filter(evs, Some(t)),
        scope_filter(evs.push(rec), Some(s)) == scope_filter(evs, Some(s)).push(
            (rec.name, rec.params),
        ),
        scope_filter(evs.push(rec), None) == scope_filter(evs, None),
{
    lemma_scope_filter_push(evs, rec);
    assert(scope_filter(evs, Some(s)) + seq![(rec.name, rec.params)] =~= scope_filter(
        evs,
        Some(s),
    ).push((rec.name, rec.params)));
    assert(scope_filter(evs.push(rec), Some(t)) =~= scope_filter(evs, Some(t)));
    assert(scope_filter(evs.push(rec), None) =~= scope_filter(evs, None));
}

} // verus!
