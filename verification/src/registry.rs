//! Call registry: allocation of call IDs and the pending-call table.
//!
//! A call is keyed by `(session, id)`; IDs come from one monotonically
//! increasing counter and are never reused within a process.  A slot is
//! consumed by exactly one of: the arriving response, a hard transport
//! error, or shutdown.  The completion history is carried as ghost state so
//! the at-most-once and correlation laws can be stated and proved.

use vstd::prelude::*;
use crate::wire::opt_bytes_view;
use crate::CdpError;

verus! {

/// The key of a pending call: the session it is scoped to (or `None` for the
/// root session) and its call ID.
pub struct PendingKey {
    pub session: Option<Vec<u8>>,
    pub id: u64,
}

impl View for PendingKey {
    type V = (Option<Seq<u8>>, u64);

    open spec fn view(&self) -> (Option<Seq<u8>>, u64) {
        (opt_bytes_view(self.session), self.id)
    }
}

/// What a completed slot holds for its caller: the raw `result` bytes, or
/// the error that consumed the slot.
pub struct Delivery {
    pub key: PendingKey,
    pub value: Result<Vec<u8>, CdpError>,
}

pub open spec fn keys_of(ps: Seq<PendingKey>) -> Seq<(Option<Seq<u8>>, u64)> {
    ps.map_values(|p: PendingKey| p@)
}

/// The value delivered for key `k`, if a completed slot still awaits pickup.
pub open spec fn lookup_delivery(ds: Seq<Delivery>, k: (Option<Seq<u8>>, u64)) -> Option<
    Result<Vec<u8>, CdpError>,
>
    decreases ds.len(),
{
    if ds.len() == 0 {
        None
    } else if ds[0].key@ == k {
        Some(ds[0].value)
    } else {
        lookup_delivery(ds.drop_first(), k)
    }
}

/// The pending-call table.
///
/// `pending` holds the keys of calls issued and not yet consumed;
/// `delivered` holds completed slots not yet picked up by their caller;
/// `history` records every completion ever made, in order.
pub struct CallRegistry {
    pub next_id: u64,
    pub pending: Vec<PendingKey>,
    pub delivered: Vec<Delivery>,
    pub history: Ghost<Seq<((Option<Seq<u8>>, u64), Result<Vec<u8>, CdpError>)>>,
}

impl CallRegistry {
    pub open spec fn pending_keys(self) -> Seq<(Option<Seq<u8>>, u64)> {
        keys_of(self.pending@)
    }

    pub open spec fn has_pending(self, k: (Option<Seq<u8>>, u64)) -> bool {
        self.pending_keys().contains(k)
    }

    pub open spec fn delivered_value(self, k: (Option<Seq<u8>>, u64)) -> Option<
        Result<Vec<u8>, CdpError>,
    > {
        lookup_delivery(self.delivered@, k)
    }

    /// Well-formedness: pending keys are distinct; a key is completed at most
    /// once; a key is never both pending and completed; IDs never exceed the
    /// counter; a slot awaiting pickup records a completion that happened.
    pub open spec fn wf(self) -> bool {
        &&& self.next_id >= 1
        &&& forall|i: int, j: int|
            0 <= i < j < self.pending@.len() ==> #[trigger] self.pending@[i]@
                != #[trigger] self.pending@[j]@
        &&& forall|i: int, j: int|
            0 <= i < j < self.history@.len() ==> (#[trigger] self.history@[i]).0
                != (#[trigger] self.history@[j]).0
        &&& forall|i: int|
            0 <= i < self.pending@.len() ==> (#[trigger] self.pending@[i]@).1 < self.next_id
        &&& forall|i: int|
            0 <= i < self.history@.len() ==> (#[trigger] self.history@[i]).0.1 < self.next_id
        &&& forall|i: int, j: int|
            0 <= i < self.pending@.len() && 0 <= j < self.history@.len()
                ==> #[trigger] self.pending@[i]@ != (#[trigger] self.history@[j]).0
        &&& forall|i: int|
            0 <= i < self.delivered@.len() ==> self.history@.contains(
                ((#[trigger] self.delivered@[i]).key@, self.delivered@[i].value),
            )
        &&& forall|i: int, j: int|
            0 <= i < j < self.delivered@.len() ==> (#[trigger] self.delivered@[i]).key@
                != (#[trigger] self.delivered@[j]).key@
    }

    /// An empty registry; the counter starts at 1 as the protocol asks for
    /// IDs that are at least 1.
    pub fn new() -> (r: CallRegistry)
        ensures
            r.wf(),
            r.next_id == 1,
            r.pending@.len() == 0,
            r.delivered@.len() == 0,
            r.history@.len() == 0,
    {
        CallRegistry {
            next_id: 1,
            pending: Vec::new(),
            delivered: Vec::new(),
            history: Ghost(Seq::empty()),
        }
    }

    /// Allocate a fresh call ID and store a slot for `(session, id)`.
    pub fn issue(&mut self, session: Option<Vec<u8>>) -> (r: u64)
        requires
            old(self).wf(),
            old(self).next_id < u64::MAX,
        ensures
            final(self).wf(),
            r == old(self).next_id,
            final(self).next_id == old(self).next_id + 1,
            final(self).pending_keys() == old(self).pending_keys().push(
                (opt_bytes_view(session), r),
            ),
            final(self).has_pending((opt_bytes_view(session), r)),
            final(self).delivered@ == old(self).delivered@,
            final(self).history@ == old(self).history@,
    {
        let id = self.next_id;
        self.next_id = self.next_id + 1;
        self.pending.push(PendingKey { session, id });
        proof {
            assert(self.pending_keys() =~= old(self).pending_keys().push(
                (opt_bytes_view(session), id),
            ));
            assert(self.pending_keys().last() == (opt_bytes_view(session), id));
        }
        id
    }

    /// Complete the slot `(session, id)` with `value`.  Returns whether a
    /// slot existed; a response with no slot is dropped (late delivery after
    /// caller cancellation).
    #[verifier::loop_isolation(false)]
    pub fn complete(
        &mut self,
        session: &Option<Vec<u8>>,
        id: u64,
        value: Result<Vec<u8>, CdpError>,
    ) -> (r: bool)
        requires
            old(self).wf(),
        ensures
            final(self).wf(),
            r == old(self).has_pending((opt_bytes_view(*session), id)),
            final(self).next_id == old(self).next_id,
            r ==> {
                let k = (opt_bytes_view(*session), id);
                &&& final(self).pending@.len() == old(self).pending@.len() - 1
                &&& final(self).history@ == old(self).history@.push((k, value))
                &&& !final(self).has_pending(k)
                &&& forall|k2: (Option<Seq<u8>>, u64)|
                    k2 != k ==> #[trigger] final(self).has_pending(k2) == old(self).has_pending(
                        k2,
                    )
                &&& final(self).delivered_value(k) == Some(value)
                &&& forall|k2: (Option<Seq<u8>>, u64)|
                    k2 != k ==> #[trigger] final(self).delivered_value(k2) == old(self).delivered_value(k2)
            },
            !r ==> *final(self) == *old(self),
    {
        let ghost k = (opt_bytes_view(*session), id);
        let found = find_key_idx(&self.pending, session, id);
        match found {
            None => {
                proof {
                    assert(!old(self).has_pending(k)) by {
                        assert(forall|j: int|
                            0 <= j < self.pending@.len() ==> #[trigger] self.pending@[j]@ != k);
                        assert forall|j: int| 0 <= j < self.pending_keys().len() implies
                            self.pending_keys()[j] != k by {
                            assert(self.pending_keys()[j] == self.pending@[j]@);
                        }
                        if self.pending_keys().contains(k) {
                            let j = choose|j: int|
                                0 <= j < self.pending_keys().len() && self.pending_keys()[j] == k;
                        }
                    }
                }
                proof {
                    assert(self.wf());
                }
                false
            },
            Some(idx) => {
                proof {
                    assert(self.pending@[idx as int]@ == k);
                    assert(self.pending_keys()[idx as int] == k);
                    assert(old(self).has_pending(k));
                }
                let kv = self.pending.remove(idx);
                let ghost old_dv = self.delivered@;
                self.delivered.push(Delivery { key: kv, value });
                proof {
                    self.history@ = self.history@.push((k, value));
                }
                proof {
                    let opk = old(self).pending_keys();
                    let npk = self.pending_keys();
                    assert(npk =~= opk.remove(idx as int));
                    // the removed key is gone: it appeared only at idx
                    assert forall|j: int| 0 <= j < npk.len() implies npk[j] != k by {
                        if j < idx {
                            assert(npk[j] == opk[j]);
                        } else {
                            assert(npk[j] == opk[j + 1]);
                        }
                    }
                    assert(!self.has_pending(k)) by {
                        if npk.contains(k) {
                            let j = choose|j: int| 0 <= j < npk.len() && npk[j] == k;
                        }
                    }
                    // all other keys keep their membership
                    assert forall|k2: (Option<Seq<u8>>, u64)| k2 != k implies
                        self.has_pending(k2) == old(self).has_pending(k2) by {
                        if opk.contains(k2) {
                            let j = choose|j: int| 0 <= j < opk.len() && opk[j] == k2;
                            if j < idx {
                                assert(npk[j] == k2);
                            } else {
                                assert(j != idx);
                                assert(npk[j - 1] == k2);
                            }
                            assert(npk.contains(k2));
                        }
                        if npk.contains(k2) {
                            let j = choose|j: int| 0 <= j < npk.len() && npk[j] == k2;
                            if j < idx {
                                assert(opk[j] == k2);
                            } else {
                                assert(opk[j + 1] == k2);
                            }
                            assert(opk.contains(k2));
                        }
                    }
                    // delivered lookups
                    assert(self.delivered@ =~= old_dv.push(
                        Delivery { key: kv, value: value },
                    ));
                    lemma_lookup_membership(old_dv, k);
                    assert(lookup_delivery(old_dv, k) is None) by {
                        if lookup_delivery(old_dv, k) is Some {
                            let j = choose|j: int|
                                0 <= j < old_dv.len() && old_dv[j].key@ == k;
                            assert(old(self).history@.contains((old_dv[j].key@, old_dv[j].value)));
                            let h = choose|h: int|
                                0 <= h < old(self).history@.len() && old(self).history@[h] == (
                                old_dv[j].key@,
                                old_dv[j].value,
                                );
                            assert(old(self).pending@[idx as int]@ == old(self).history@[h].0);
                        }
                    }
                    assert(forall|j: int|
                        0 <= j < old_dv.len() ==> (#[trigger] old_dv[j]).key@ != k);
                    lemma_lookup_push_new(old_dv, Delivery { key: kv, value: value });
                    assert forall|k2: (Option<Seq<u8>>, u64)| k2 != k implies
                        #[trigger] self.delivered_value(k2) == lookup_delivery(old_dv, k2) by {
                        lemma_lookup_push_other(old_dv, Delivery { key: kv, value: value }, k2);
                    }
                    // wf of the result
                    let nh = self.history@;
                    let ohl = old(self).history@.len() as int;
                    assert forall|i2: int, j2: int|
                        0 <= i2 < j2 < nh.len() implies (#[trigger] nh[i2]).0 != (
                    #[trigger] nh[j2]).0 by {
                        if j2 < ohl {
                        } else {
                            assert(nh[j2] == (k, value));
                            assert(nh[i2] == old(self).history@[i2]);
                            assert(old(self).pending@[idx as int]@ == k);
                        }
                    }
                    assert(nh[nh.len() - 1] == (k, value));
                    assert(kv@ == k);
                    assert forall|i2: int|
                        0 <= i2 < self.delivered@.len() implies nh.contains(
                        ((#[trigger] self.delivered@[i2]).key@, self.delivered@[i2].value),
                    ) by {
                        if i2 < old_dv.len() {
                            let e = old_dv[i2];
                            assert(self.delivered@[i2] == e);
                            assert(old(self).history@.contains((e.key@, e.value)));
                            let h = choose|h: int|
                                0 <= h < ohl && old(self).history@[h] == (e.key@, e.value);
                            assert(nh[h] == (e.key@, e.value));
                        } else {
                            assert(self.delivered@[i2] == Delivery { key: kv, value: value });
                        }
                    }
                    assert forall|i2: int, j2: int|
                        0 <= i2 < j2 < self.delivered@.len() implies (
                    #[trigger] self.delivered@[i2]).key@ != (#[trigger] self.delivered@[j2]).key@ by {
                        if j2 == self.delivered@.len() - 1 {
                            assert(self.delivered@[i2] == old_dv[i2]);
                            assert(old_dv[i2].key@ != k);
                        } else {
                            assert(self.delivered@[i2] == old_dv[i2]);
                            assert(self.delivered@[j2] == old_dv[j2]);
                        }
                    }
                    // pending keys: distinct, fresh, and disjoint from history
                    let opk = old(self).pending_keys();
                    let npk = self.pending_keys();
                    assert(forall|i2: int|
                        0 <= i2 < npk.len() ==> #[trigger] npk[i2] == self.pending@[i2]@);
                    assert(forall|i2: int|
                        0 <= i2 < opk.len() ==> #[trigger] opk[i2] == old(self).pending@[i2]@);
                    assert forall|i2: int, j2: int|
                        0 <= i2 < self.pending@.len() && 0 <= j2 < nh.len() implies
                        #[trigger] self.pending@[i2]@ != (#[trigger] nh[j2]).0 by {
                        if i2 < idx {
                            assert(npk[i2] == opk[i2]);
                        } else {
                            assert(npk[i2] == opk[i2 + 1]);
                        }
                        if j2 >= ohl {
                            assert(nh[j2].0 == k);
                            assert(npk[i2] != k);
                        }
                    }
                    assert forall|i2: int, j2: int|
                        0 <= i2 < j2 < self.pending@.len() implies #[trigger] self.pending@[i2]@
                        != #[trigger] self.pending@[j2]@ by {
                        if j2 < idx {
                            assert(npk[i2] == opk[i2] && npk[j2] == opk[j2]);
                        } else if i2 < idx {
                            assert(npk[i2] == opk[i2] && npk[j2] == opk[j2 + 1]);
                        } else {
                            assert(npk[i2] == opk[i2 + 1] && npk[j2] == opk[j2 + 1]);
                        }
                    }
                    assert forall|i2: int|
                        0 <= i2 < self.pending@.len() implies (#[trigger] self.pending@[i2]@).1
                        < self.next_id by {
                        if i2 < idx {
                            assert(npk[i2] == opk[i2]);
                        } else {
                            assert(npk[i2] == opk[i2 + 1]);
                        }
                    }
                }
                true
            },
        }
    }

    /// Drain every pending slot with the same error (transport shutdown).
    #[verifier::loop_isolation(false)]
    pub fn fail_all(&mut self, err: CdpError)
        requires
            old(self).wf(),
            err is TransportClosed || err is SessionClosed,
        ensures
            final(self).wf(),
            final(self).next_id == old(self).next_id,
            final(self).pending@.len() == 0,
            final(self).history@ == old(self).history@ + old(self).pending_keys().map_values(
                |k: (Option<Seq<u8>>, u64)| (k, Err::<Vec<u8>, CdpError>(err)),
            ),
            forall|k: (Option<Seq<u8>>, u64)|
                old(self).has_pending(k) ==> #[trigger] final(self).delivered_value(k) == Some(
                    Err::<Vec<u8>, CdpError>(err),
                ),
            forall|k: (Option<Seq<u8>>, u64)|
                !old(self).has_pending(k) ==> #[trigger] final(self).delivered_value(k) == old(self).delivered_value(k),
    {
        let ghost opk = old(self).pending_keys();
        proof {
            assert(opk.len() == old(self).pending@.len());
        }
        let ghost fail_of = |k: (Option<Seq<u8>>, u64)| (k, Err::<Vec<u8>, CdpError>(err));
        while self.pending.len() > 0
            invariant
                old(self).wf(),
                err is TransportClosed || err is SessionClosed,
                self.next_id == old(self).next_id,
                opk == old(self).pending_keys(),
                opk.len() == old(self).pending@.len(),
                self.pending@.len() <= opk.len(),
                self.pending@ =~= old(self).pending@.skip(
                    opk.len() - self.pending@.len(),
                ),
                self.history@ =~= old(self).history@ + opk.take(
                    opk.len() - self.pending@.len(),
                ).map_values(fail_of),
                self.delivered@ =~= old(self).delivered@ + Seq::new(
                    (opk.len() - self.pending@.len()) as nat,
                    |j: int|
                        Delivery {
                            key: old(self).pending@[j],
                            value: Err::<Vec<u8>, CdpError>(err),
                        },
                ),
            decreases self.pending@.len(),
        {
            let ghost done = opk.len() - self.pending@.len();
            let kv = self.pending.remove(0);
            proof {
                assert(kv == old(self).pending@[done]);
                assert(self.pending@ =~= old(self).pending@.skip(done + 1));
            }
            let e2 = match &err {
                CdpError::SessionClosed => CdpError::SessionClosed,
                _ => CdpError::TransportClosed,
            };
            proof {
                assert(e2 == err);
            }
            proof {
                self.history@ = self.history@.push((kv@, Err(err)));
            }
            self.delivered.push(Delivery { key: kv, value: Err(e2) });
            proof {
                assert(self.history@ =~= old(self).history@ + opk.take(done + 1).map_values(
                    fail_of,
                )) by {
                    assert(opk.take(done + 1) =~= opk.take(done).push(opk[done]));
                    assert(opk.take(done).push(opk[done]).map_values(fail_of) =~= opk.take(
                        done,
                    ).map_values(fail_of).push(fail_of(opk[done])));
                    assert(opk[done] == old(self).pending@[done]@);
                }
                assert(self.delivered@ =~= old(self).delivered@ + Seq::new(
                    (done + 1) as nat,
                    |j: int|
                        Delivery {
                            key: old(self).pending@[j],
                            value: Err::<Vec<u8>, CdpError>(err),
                        },
                ));
            }
        }
        proof {
            assert(opk.take(opk.len() as int) =~= opk);
            assert(self.history@ =~= old(self).history@ + opk.map_values(fail_of));
            // membership consequences
            let nd = self.delivered@;
            let odl = old(self).delivered@.len() as int;
            assert forall|k: (Option<Seq<u8>>, u64)| old(self).has_pending(k) implies
                #[trigger] self.delivered_value(k) == Some(
                Err::<Vec<u8>, CdpError>(err),
            ) by {
                let j = choose|j: int| 0 <= j < opk.len() && opk[j] == k;
                assert(nd[odl + j].key@ == k);
                lemma_lookup_value(nd, k, odl + j, *old(self), opk, err);
            }
            assert forall|k: (Option<Seq<u8>>, u64)| !old(self).has_pending(k) implies
                #[trigger] self.delivered_value(k) == old(self).delivered_value(k) by {
                lemma_lookup_absent_suffix(old(self).delivered@, nd, k, *old(self), opk, err);
            }
            // wf: history uniqueness
            assert forall|i2: int, j2: int|
                0 <= i2 < j2 < self.history@.len() implies (#[trigger] self.history@[i2]).0 != (#[trigger] self.history@[j2]).0 by {
                let ohl = old(self).history@.len() as int;
                if j2 < ohl {
                } else if i2 < ohl {
                    assert(self.history@[j2].0 == opk[j2 - ohl]);
                    assert(old(self).pending@[j2 - ohl]@ == opk[j2 - ohl]);
                } else {
                    assert(self.history@[i2].0 == opk[i2 - ohl]);
                    assert(self.history@[j2].0 == opk[j2 - ohl]);
                    assert(old(self).pending@[i2 - ohl]@ != old(self).pending@[j2 - ohl]@);
                }
            }
            // wf: delivered subset of history and distinct
            assert forall|i2: int|
                0 <= i2 < self.delivered@.len() implies self.history@.contains(
                ((#[trigger] self.delivered@[i2]).key@, self.delivered@[i2].value),
            ) by {
                if i2 < odl {
                    let e = old(self).delivered@[i2];
                    assert(old(self).history@.contains((e.key@, e.value)));
                    let h = choose|h: int|
                        0 <= h < old(self).history@.len() && old(self).history@[h] == (
                        e.key@,
                        e.value,
                        );
                    assert(self.history@[h] == (e.key@, e.value));
                } else {
                    let ohl = old(self).history@.len() as int;
                    assert(self.delivered@[i2].key@ == old(self).pending@[i2 - odl]@);
                    assert(self.history@[ohl + (i2 - odl)] == (
                        opk[i2 - odl],
                        Err::<Vec<u8>, CdpError>(err),
                    ));
                }
            }
            assert forall|i2: int, j2: int|
                0 <= i2 < j2 < self.delivered@.len() implies (#[trigger] self.delivered@[i2]).key@ != (#[trigger] self.delivered@[j2]).key@ by {
                if j2 < odl {
                } else if i2 < odl {
                    let e = old(self).delivered@[i2];
                    assert(old(self).history@.contains((e.key@, e.value)));
                    let h = choose|h: int|
                        0 <= h < old(self).history@.len() && old(self).history@[h] == (
                        e.key@,
                        e.value,
                        );
                    assert(self.delivered@[j2].key@ == old(self).pending@[j2 - odl]@);
                } else {
                    assert(self.delivered@[i2].key@ == old(self).pending@[i2 - odl]@);
                    assert(self.delivered@[j2].key@ == old(self).pending@[j2 - odl]@);
                }
            }
        }
    }

    /// Pick up the completed slot for `(session, id)`, removing it.
    #[verifier::loop_isolation(false)]
    pub fn take(&mut self, session: &Option<Vec<u8>>, id: u64) -> (r: Option<
        Result<Vec<u8>, CdpError>,
    >)
        requires
            old(self).wf(),
        ensures
            final(self).wf(),
            r == old(self).delivered_value((opt_bytes_view(*session), id)),
            final(self).next_id == old(self).next_id,
            final(self).pending@ == old(self).pending@,
            final(self).history@ == old(self).history@,
            final(self).delivered_value((opt_bytes_view(*session), id)) is None,
            forall|k2: (Option<Seq<u8>>, u64)|
                k2 != (opt_bytes_view(*session), id) ==> #[trigger] final(self).delivered_value(k2)
                    == old(self).delivered_value(k2),
    {
        let ghost k = (opt_bytes_view(*session), id);
        match find_delivery_idx(&self.delivered, session, id) {
            Some(i) => {
                proof {
                    lemma_lookup_at(self.delivered@, k, i as int);
                }
                let d = self.delivered.remove(i);
                proof {
                    let odv = old(self).delivered@;
                    let ndv = self.delivered@;
                    assert(ndv =~= odv.remove(i as int));
                    assert forall|j: int| 0 <= j < ndv.len() implies ndv[j].key@ != k by {
                        if j < i {
                            assert(ndv[j] == odv[j]);
                        } else {
                            assert(ndv[j] == odv[j + 1]);
                        }
                    }
                    lemma_lookup_membership(ndv, k);
                    assert forall|k2: (Option<Seq<u8>>, u64)| k2 != k implies
                        #[trigger] lookup_delivery(ndv, k2) == lookup_delivery(odv, k2) by {
                        lemma_lookup_remove_other(odv, i as int, k2);
                    }
                }
                Some(d.value)
            },
            None => {
                proof {
                    lemma_lookup_membership(self.delivered@, k);
                }
                None
            },
        }
    }
}

impl CallRegistry {
    /// Drain every pending slot scoped to `session` with `SessionClosed`
    /// (the session went away while calls were outstanding).  Slots of other
    /// sessions and of the root are untouched.
    #[verifier::loop_isolation(false)]
    pub fn fail_session(&mut self, session: &Vec<u8>)
        requires
            old(self).wf(),
        ensures
            final(self).wf(),
            final(self).next_id == old(self).next_id,
            forall|k: (Option<Seq<u8>>, u64)|
                k.0 == Some(session@) ==> !final(self).has_pending(k),
            forall|k: (Option<Seq<u8>>, u64)|
                k.0 == Some(session@) && old(self).has_pending(k) ==> #[trigger] final(self).delivered_value(k) == Some(Err::<Vec<u8>, CdpError>(CdpError::SessionClosed)),
            forall|k: (Option<Seq<u8>>, u64)|
                k.0 == Some(session@) && !old(self).has_pending(k) ==> #[trigger] final(self).delivered_value(k) == old(self).delivered_value(k),
            forall|k: (Option<Seq<u8>>, u64)|
                k.0 != Some(session@) ==> #[trigger] final(self).has_pending(k) == old(self).has_pending(k) && final(self).delivered_value(k) == old(self).delivered_value(k),
    {
        loop
            invariant
                self.wf(),
                self.next_id == old(self).next_id,
                forall|k: (Option<Seq<u8>>, u64)|
                    k.0 == Some(session@) && #[trigger] self.has_pending(k) ==> old(self).has_pending(k) && self.delivered_value(k) == old(self).delivered_value(k),
                forall|k: (Option<Seq<u8>>, u64)|
                    k.0 == Some(session@) && !self.has_pending(k) && old(self).has_pending(k)
                        ==> #[trigger] self.delivered_value(k) == Some(
                        Err::<Vec<u8>, CdpError>(CdpError::SessionClosed),
                    ),
                forall|k: (Option<Seq<u8>>, u64)|
                    k.0 == Some(session@) && !self.has_pending(k) && !old(self).has_pending(k)
                        ==> #[trigger] self.delivered_value(k) == old(self).delivered_value(k),
                forall|k: (Option<Seq<u8>>, u64)|
                    k.0 != Some(session@) ==> #[trigger] self.has_pending(k) == old(self).has_pending(k) && self.delivered_value(k) == old(self).delivered_value(k),
            decreases self.pending@.len(),
        {
            match find_session_id(&self.pending, session) {
                None => {
                    proof {
                        assert forall|k: (Option<Seq<u8>>, u64)| k.0 == Some(session@) implies
                            !self.has_pending(k) by {
                            if self.has_pending(k) {
                                let j = choose|j: int|
                                    0 <= j < self.pending_keys().len() && self.pending_keys()[j]
                                        == k;
                                assert(self.pending@[j]@ == k);
                            }
                        }
                    }
                    return ;
                },
                Some(id) => {
                    let ghost len0 = self.pending@.len();
                    let mut owned: Vec<u8> = Vec::new();
                    crate::wire::append_bytes(&mut owned, session.as_slice());
                    proof {
                        assert(owned@ =~= session@);
                    }
                    let skey = Some(owned);
                    proof {
                        assert(keys_of(self.pending@).contains((Some(session@), id)));
                        assert(opt_bytes_view(skey) == Some(session@));
                        assert(self.has_pending((Some(session@), id)));
                    }
                    let found = self.complete(&skey, id, Err(CdpError::SessionClosed));
                    proof {
                        assert(found);
                        assert(self.pending@.len() < len0);
                    }
                },
            }
        }
    }
}

/// Some pending call scoped to `session`, if any.
#[verifier::loop_isolation(false)]
fn find_session_id(ps: &Vec<PendingKey>, session: &Vec<u8>) -> (r: Option<u64>)
    ensures
        match r {
            Some(id) => keys_of(ps@).contains((Some(session@), id)),
            None => forall|j: int| 0 <= j < ps@.len() ==> (#[trigger] ps@[j]@).0 != Some(session@),
        },
{
    let mut i: usize = 0;
    while i < ps.len()
        invariant
            i <= ps@.len(),
            forall|j: int| 0 <= j < i ==> (#[trigger] ps@[j]@).0 != Some(session@),
        decreases ps@.len() - i,
    {
        let hit = match &ps[i].session {
            Some(s) => crate::wire::bytes_eq(s.as_slice(), session.as_slice()),
            None => false,
        };
        if hit {
            proof {
                assert(ps@[i as int]@ == keys_of(ps@)[i as int]);
            }
            return Some(ps[i].id);
        }
        i = i + 1;
    }
    None
}

/// Equality of optional session identifiers, by contents.
pub fn opt_bytes_match(a: &Option<Vec<u8>>, b: &Option<Vec<u8>>) -> (r: bool)
    ensures
        r == (opt_bytes_view(*a) == opt_bytes_view(*b)),
{
    match (a, b) {
        (None, None) => true,
        (Some(x), Some(y)) => crate::wire::bytes_eq(x.as_slice(), y.as_slice()),
        _ => false,
    }
}


/// Index of the pending key `(session, id)`, scanning from the front.
#[verifier::loop_isolation(false)]
fn find_key_idx(ps: &Vec<PendingKey>, session: &Option<Vec<u8>>, id: u64) -> (r: Option<usize>)
    ensures
        match r {
            Some(i) => i < ps@.len() && ps@[i as int]@ == (opt_bytes_view(*session), id),
            None => forall|j: int|
                0 <= j < ps@.len() ==> #[trigger] ps@[j]@ != (opt_bytes_view(*session), id),
        },
{
    let ghost k = (opt_bytes_view(*session), id);
    let mut i: usize = 0;
    while i < ps.len()
        invariant
            i <= ps@.len(),
            forall|j: int| 0 <= j < i ==> #[trigger] ps@[j]@ != k,
        decreases ps@.len() - i,
    {
        let hit = ps[i].id == id && opt_bytes_match(&ps[i].session, session);
        if hit {
            return Some(i);
        }
        proof {
            assert(ps@[i as int]@ != k);
        }
        i = i + 1;
    }
    None
}

/// Index of the first delivery whose key is `(session, id)`.
#[verifier::loop_isolation(false)]
fn find_delivery_idx(ds: &Vec<Delivery>, session: &Option<Vec<u8>>, id: u64) -> (r: Option<usize>)
    ensures
        match r {
            Some(i) => i < ds@.len() && ds@[i as int].key@ == (opt_bytes_view(*session), id)
                && forall|j: int|
                0 <= j < i ==> (#[trigger] ds@[j]).key@ != (opt_bytes_view(*session), id),
            None => forall|j: int|
                0 <= j < ds@.len() ==> (#[trigger] ds@[j]).key@ != (opt_bytes_view(*session), id),
        },
{
    let ghost k = (opt_bytes_view(*session), id);
    let mut i: usize = 0;
    while i < ds.len()
        invariant
            i <= ds@.len(),
            forall|j: int| 0 <= j < i ==> (#[trigger] ds@[j]).key@ != k,
        decreases ds@.len() - i,
    {
        let hit = ds[i].key.id == id && opt_bytes_match(&ds[i].key.session, session);
        if hit {
            return Some(i);
        }
        proof {
            assert(ds@[i as int].key@ != k);
        }
        i = i + 1;
    }
    None
}

/// `lookup_delivery` finds an entry iff one with that key exists.
proof fn lemma_lookup_membership(ds: Seq<Delivery>, k: (Option<Seq<u8>>, u64))
    ensures
        (lookup_delivery(ds, k) is Some) <==> exists|j: int| 0 <= j < ds.len() && ds[j].key@ == k,
    decreases ds.len(),
{
    if ds.len() > 0 {
        lemma_lookup_membership(ds.drop_first(), k);
        if ds[0].key@ != k {
            if exists|j: int| 0 <= j < ds.len() && ds[j].key@ == k {
                let j = choose|j: int| 0 <= j < ds.len() && ds[j].key@ == k;
                assert(ds.drop_first()[j - 1].key@ == k);
            }
            if lookup_delivery(ds, k) is Some {
                let j = choose|j: int|
                    0 <= j < ds.drop_first().len() && ds.drop_first()[j].key@ == k;
                assert(ds[j + 1].key@ == k);
            }
        }
    }
}

/// Pushing a delivery makes its key found when it was absent.
proof fn lemma_lookup_push_new(ds: Seq<Delivery>, d: Delivery)
    requires
        lookup_delivery(ds, d.key@) is None,
    ensures
        lookup_delivery(ds.push(d), d.key@) == Some(d.value),
    decreases ds.len(),
{
    if ds.len() == 0 {
        assert(ds.push(d)[0] == d);
    } else {
        assert(ds.push(d)[0] == ds[0]);
        assert(ds.push(d).drop_first() =~= ds.drop_first().push(d));
        lemma_lookup_push_new(ds.drop_first(), d);
    }
}

/// Pushing a delivery leaves other keys' lookups unchanged.
proof fn lemma_lookup_push_other(ds: Seq<Delivery>, d: Delivery, k2: (Option<Seq<u8>>, u64))
    requires
        k2 != d.key@,
    ensures
        lookup_delivery(ds.push(d), k2) == lookup_delivery(ds, k2),
    decreases ds.len(),
{
    if ds.len() == 0 {
        assert(ds.push(d)[0] == d);
        assert(ds.push(d).drop_first() =~= Seq::<Delivery>::empty());
        assert(lookup_delivery(ds.push(d), k2) == lookup_delivery(
            Seq::<Delivery>::empty(),
            k2,
        ));
        assert(lookup_delivery(Seq::<Delivery>::empty(), k2) is None);
    } else {
        assert(ds.push(d)[0] == ds[0]);
        assert(ds.push(d).drop_first() =~= ds.drop_first().push(d));
        if ds[0].key@ == k2 {
            assert(lookup_delivery(ds.push(d), k2) == Some(ds[0].value));
            assert(lookup_delivery(ds, k2) == Some(ds[0].value));
        } else {
            lemma_lookup_push_other(ds.drop_first(), d, k2);
            assert(lookup_delivery(ds.push(d), k2) == lookup_delivery(
                ds.drop_first().push(d),
                k2,
            ));
            assert(lookup_delivery(ds, k2) == lookup_delivery(ds.drop_first(), k2));
        }
    }
}

/// If the keys before `j` all differ from `k` and `ds[j]` has key `k`, the
/// lookup returns `ds[j]`'s value.
proof fn lemma_lookup_at(ds: Seq<Delivery>, k: (Option<Seq<u8>>, u64), j: int)
    requires
        0 <= j < ds.len(),
        ds[j].key@ == k,
        forall|i: int| 0 <= i < j ==> (#[trigger] ds[i]).key@ != k,
    ensures
        lookup_delivery(ds, k) == Some(ds[j].value),
    decreases j,
{
    if j > 0 {
        lemma_lookup_at(ds.drop_first(), k, j - 1);
    }
}

/// Removing one entry leaves lookups for other keys unchanged, provided keys
/// are distinct.
proof fn lemma_lookup_remove_other(ds: Seq<Delivery>, idx: int, k2: (Option<Seq<u8>>, u64))
    requires
        0 <= idx < ds.len(),
        ds[idx].key@ != k2,
    ensures
        lookup_delivery(ds.remove(idx), k2) == lookup_delivery(ds, k2),
    decreases ds.len(),
{
    if idx == 0 {
        assert(ds.remove(0) =~= ds.drop_first());
    } else {
        assert(ds.remove(idx)[0] == ds[0]);
        if ds[0].key@ != k2 {
            assert(ds.remove(idx).drop_first() =~= ds.drop_first().remove(idx - 1));
            lemma_lookup_remove_other(ds.drop_first(), idx - 1, k2);
        }
    }
}

/// After `fail_all`, a previously pending key's lookup yields the drain
/// error: its delivery sits at a known index and no earlier one shares it.
proof fn lemma_lookup_value(
    nd: Seq<Delivery>,
    k: (Option<Seq<u8>>, u64),
    at: int,
    o: CallRegistry,
    opk: Seq<(Option<Seq<u8>>, u64)>,
    err: CdpError,
)
    requires
        o.wf(),
        opk == o.pending_keys(),
        nd =~= o.delivered@ + Seq::new(
            opk.len(),
            |j: int| Delivery { key: o.pending@[j], value: Err::<Vec<u8>, CdpError>(err) },
        ),
        o.delivered@.len() <= at < nd.len(),
        nd[at].key@ == k,
        forall|i2: int, j2: int| 0 <= i2 < j2 < nd.len() ==> (#[trigger] nd[i2]).key@ != (#[trigger] nd[j2]).key@,
    ensures
        lookup_delivery(nd, k) == Some(Err::<Vec<u8>, CdpError>(err)),
{
    assert forall|i: int| 0 <= i < at implies (#[trigger] nd[i]).key@ != k by {}
    lemma_lookup_at(nd, k, at);
    assert(nd[at].value == Err::<Vec<u8>, CdpError>(err));
}

/// After `fail_all`, a key that was not pending keeps its old lookup.
proof fn lemma_lookup_absent_suffix(
    od: Seq<Delivery>,
    nd: Seq<Delivery>,
    k: (Option<Seq<u8>>, u64),
    o: CallRegistry,
    opk: Seq<(Option<Seq<u8>>, u64)>,
    err: CdpError,
)
    requires
        opk == o.pending_keys(),
        nd =~= od + Seq::new(
            opk.len(),
            |j: int| Delivery { key: o.pending@[j], value: Err::<Vec<u8>, CdpError>(err) },
        ),
        !opk.contains(k),
    ensures
        lookup_delivery(nd, k) == lookup_delivery(od, k),
    decreases od.len(),
{
    if od.len() == 0 {
        lemma_lookup_suffix_none(nd, k, o, opk, err, 0);
    } else {
        assert(nd[0] == od[0]);
        if od[0].key@ == k {
        } else {
            assert(nd.drop_first() =~= od.drop_first() + Seq::new(
                opk.len(),
                |j: int| Delivery { key: o.pending@[j], value: Err::<Vec<u8>, CdpError>(err) },
            ));
            lemma_lookup_absent_suffix(od.drop_first(), nd.drop_first(), k, o, opk, err);
        }
    }
}

/// A delivery list made only of pending keys finds nothing for an absent key.
proof fn lemma_lookup_suffix_none(
    nd: Seq<Delivery>,
    k: (Option<Seq<u8>>, u64),
    o: CallRegistry,
    opk: Seq<(Option<Seq<u8>>, u64)>,
    err: CdpError,
    from: int,
)
    requires
        opk == o.pending_keys(),
        0 <= from <= opk.len(),
        nd =~= Seq::new(
            (opk.len() - from) as nat,
            |j: int| Delivery { key: o.pending@[from + j], value: Err::<Vec<u8>, CdpError>(err) },
        ),
        !opk.contains(k),
    ensures
        lookup_delivery(nd, k) is None,
    decreases nd.len(),
{
    if nd.len() > 0 {
        assert(nd[0].key@ == opk[from]);
        assert(opk[from] != k);
        assert(nd.drop_first() =~= Seq::new(
            (opk.len() - (from + 1)) as nat,
            |j: int|
                Delivery {
                    key: o.pending@[from + 1 + j],
                    value: Err::<Vec<u8>, CdpError>(err),
                },
        ));
        lemma_lookup_suffix_none(nd.drop_first(), k, o, opk, err, from + 1);
    }
}

/// Law: at-most-once delivery.  The completion history never records the
/// same pending-call slot twice: a slot is consumed by exactly one of the
/// arriving response, a hard transport error, or shutdown.
pub proof fn lemma_at_most_once_delivery(r: CallRegistry, i: int, j: int)
    requires
        r.wf(),
        0 <= i < j < r.history@.len(),
    ensures
        r.history@[i].0 != r.history@[j].0,
{
}

/// Law: correlation.  All completions recorded for one call key carry the
/// same value, so the caller that picks up the slot of its own call ID
/// receives exactly the value completed for that ID — never another
/// caller's.
pub proof fn lemma_correlation(
    r: CallRegistry,
    k: (Option<Seq<u8>>, u64),
    v1: Result<Vec<u8>, CdpError>,
    v2: Result<Vec<u8>, CdpError>,
)
    requires
        r.wf(),
        r.history@.contains((k, v1)),
        r.history@.contains((k, v2)),
    ensures
        v1 == v2,
{
    let i = choose|i: int| 0 <= i < r.history@.len() && r.history@[i] == (k, v1);
    let j = choose|j: int| 0 <= j < r.history@.len() && r.history@[j] == (k, v2);
    if i < j {
        assert(r.history@[i].0 != r.history@[j].0);
    } else if j < i {
        assert(r.history@[j].0 != r.history@[i].0);
    }
}

/// Law: what a caller picks up was really completed for its own key.
pub proof fn lemma_pickup_from_history(r: CallRegistry, k: (Option<Seq<u8>>, u64))
    requires
        r.wf(),
        r.delivered_value(k) is Some,
    ensures
        r.history@.contains((k, r.delivered_value(k)->Some_0)),
{
    lemma_lookup_in_history(r.delivered@, r, k);
}

proof fn lemma_lookup_in_history(ds: Seq<Delivery>, r: CallRegistry, k: (Option<Seq<u8>>, u64))
    requires
        forall|i: int|
            0 <= i < ds.len() ==> r.history@.contains(((#[trigger] ds[i]).key@, ds[i].value)),
        lookup_delivery(ds, k) is Some,
    ensures
        r.history@.contains((k, lookup_delivery(ds, k)->Some_0)),
    decreases ds.len(),
{
    if ds.len() > 0 {
        if ds[0].key@ == k {
        } else {
            assert(forall|i: int|
                0 <= i < ds.drop_first().len() ==> r.history@.contains(
                    ((#[trigger] ds.drop_first()[i]).key@, ds.drop_first()[i].value),
                ));
            lemma_lookup_in_history(ds.drop_first(), r, k);
        }
    }
}

} // verus!

