//! The registry of sessions by controller address, and the routing of
//! inbound cyclic datagrams to the consumer they belong to.
use vstd::prelude::*;
use crate::address::EipAddr;
use crate::consumer::Consumer;
use crate::eip::{cyclic_datagram, parse_cyclic_datagram, EipError, forward_open_result};
use crate::plc::Plc;

verus! {

/// The sessions this client holds, at most one per controller address,
/// each registered.
pub struct Registry {
    sessions: Vec<Plc>,
}

impl Registry {
    pub closed spec fn spec_sessions(&self) -> Seq<Plc> {
        self.sessions@
    }

    /// Every session is registered and well formed, and no two share an
    /// address.
    pub open spec fn wf(&self) -> bool {
        &&& forall|i: int|
            0 <= i < self.spec_sessions().len() ==> #[trigger] self.spec_sessions()[i].wf()
                && self.spec_sessions()[i].spec_registered()
        &&& forall|i: int, j: int|
            0 <= i < self.spec_sessions().len() && 0 <= j < self.spec_sessions().len() && i != j
                ==> #[trigger] self.spec_sessions()[i].spec_addr()
                != #[trigger] self.spec_sessions()[j].spec_addr()
    }

    /// The registry holds a session with the controller at `addr`.
    pub open spec fn holds_session(&self, addr: EipAddr) -> bool {
        exists|i: int|
            0 <= i < self.spec_sessions().len() && #[trigger] self.spec_sessions()[i].spec_addr()
                == addr
    }

    /// Adding a consumer for `addr` first calls for a RegisterSession
    /// exchange: there is no session with that controller yet.
    pub open spec fn needs_registration(&self, addr: EipAddr) -> bool {
        !self.holds_session(addr)
    }

    /// `other` holds sessions with the same controllers, in the same places.
    pub open spec fn same_sessions(&self, other: &Registry) -> bool {
        &&& other.spec_sessions().len() == self.spec_sessions().len()
        &&& forall|i: int|
            0 <= i < self.spec_sessions().len() ==> #[trigger] other.spec_sessions()[i].spec_addr()
                == self.spec_sessions()[i].spec_addr()
    }

    /// An inbound datagram from `src` goes to consumer `id` of session `i`:
    /// session `i` is the one with `src`, `id` is the connection id the
    /// datagram carries, and that session has a consumer under it.
    pub open spec fn delivers_to(&self, src: EipAddr, d: Seq<u8>, i: int, id: u32) -> bool {
        &&& 0 <= i < self.spec_sessions().len()
        &&& self.spec_sessions()[i].spec_addr() == src
        &&& cyclic_datagram(d) matches Some((cid, _)) && cid == id
        &&& self.spec_sessions()[i].spec_consumers().contains_key(id)
    }

    /// No T->O connection id is in use in two sessions.
    pub open spec fn ids_distinct_across_sessions(&self) -> bool {
        forall|i: int, j: int, id: u32|
            0 <= i < self.spec_sessions().len() && 0 <= j < self.spec_sessions().len()
                && #[trigger] self.spec_sessions()[i].spec_consumers().contains_key(id)
                && #[trigger] self.spec_sessions()[j].spec_consumers().contains_key(id) ==> i == j
    }

    /// An empty registry.
    pub fn new() -> (r: Registry)
        ensures
            r.wf(),
            r.spec_sessions().len() == 0,
    {
        Registry { sessions: Vec::new() }
    }

    /// Where the session with `addr` stands, if there is one.
    fn find(&self, addr: &EipAddr) -> (r: Option<usize>)
        ensures
            match r {
                Some(i) => i < self.spec_sessions().len() && self.spec_sessions()[i as int].spec_addr()
                    == *addr,
                None => !self.holds_session(*addr),
            },
    {
        let mut i: usize = 0;
        while i < self.sessions.len()
            invariant
                i <= self.sessions@.len(),
                forall|k: int| 0 <= k < i ==> #[trigger] self.sessions@[k].spec_addr() != *addr,
            decreases self.sessions@.len() - i,
        {
            if self.sessions[i].addr() == *addr {
                return Some(i);
            }
            i = i + 1;
        }
        None
    }

    /// Tells whether a session with `addr` is held.
    pub fn has_session(&self, addr: &EipAddr) -> (r: bool)
        ensures
            r == self.holds_session(*addr),
    {
        self.find(addr).is_some()
    }

    /// The handle of the session with `addr`, if there is one.
    pub fn session_handle(&self, addr: &EipAddr) -> (r: Option<u32>)
        ensures
            match r {
                Some(h) => exists|i: int|
                    0 <= i < self.spec_sessions().len() && self.spec_sessions()[i].spec_addr()
                        == *addr && #[trigger] self.spec_sessions()[i].spec_session_handle() == h,
                None => !self.holds_session(*addr),
            },
    {
        match self.find(addr) {
            Some(i) => Some(self.sessions[i].session_handle()),
            None => None,
        }
    }

    /// Files a freshly registered session, with no consumers yet.
    pub fn add_session(&mut self, plc: Plc)
        requires
            old(self).wf(),
            plc.spec_registered(),
            plc.wf(),
            !old(self).holds_session(plc.spec_addr()),
        ensures
            final(self).wf(),
            final(self).spec_sessions() == old(self).spec_sessions().push(plc),
            final(self).holds_session(plc.spec_addr()),
    {
        let ghost a = plc.spec_addr();
        self.sessions.push(plc);
        assert(self.spec_sessions()[self.spec_sessions().len() - 1].spec_addr() == a);
    }

    /// Takes the controller's response to `consumer`'s ForwardOpen request,
    /// sent on the session with `addr`: on success the consumer is filed in
    /// that session under its T->O connection id, which is returned. Without
    /// such a session, or on a failed response, nothing changes.
    pub fn add_consumer(&mut self, addr: &EipAddr, consumer: Consumer, response: &[u8]) -> (r:
        Result<u32, EipError>)
        requires
            old(self).wf(),
        ensures
            final(self).wf(),
            old(self).same_sessions(final(self)),
            !old(self).holds_session(*addr) ==> r == Err::<u32, EipError>(EipError::UnknownSession)
                && *final(self) == *old(self),
            old(self).holds_session(*addr) ==> match forward_open_result(response@) {
                Ok(ids) => {
                    &&& r == Ok::<u32, EipError>(ids.to_connection_id)
                    &&& exists|i: int|
                        0 <= i < old(self).spec_sessions().len()
                            && #[trigger] old(self).spec_sessions()[i].spec_addr() == *addr
                            && final(self).spec_sessions() == old(self).spec_sessions().update(
                            i,
                            final(self).spec_sessions()[i],
                        ) && final(self).spec_sessions()[i].spec_consumers() == old(
                            self,
                        ).spec_sessions()[i].spec_consumers().insert(
                            ids.to_connection_id,
                            final(self).spec_sessions()[i].spec_consumers()[ids.to_connection_id],
                        ) && final(self).spec_sessions()[i].spec_consumers()[ids.to_connection_id].spec_ids()
                            == Some(ids) && final(self).spec_sessions()[i].spec_consumers()[ids.to_connection_id].spec_hint()
                            == consumer.spec_hint()
                },
                Err(e) => r == Err::<u32, EipError>(e) && final(self).spec_sessions() == old(
                    self,
                ).spec_sessions(),
            },
    {
        match self.find(addr) {
            None => Err(EipError::UnknownSession),
            Some(i) => {
                let ghost before = self.sessions@;
                assert(self.spec_sessions()[i as int].wf());
                let r = self.sessions[i].add_consumer(consumer, response);
                proof {
                    assert(self.sessions@ == before.update(i as int, self.sessions@[i as int]));
                    assert forall|k: int| 0 <= k < self.spec_sessions().len() implies #[trigger] self.spec_sessions()[k].wf()
                        && self.spec_sessions()[k].spec_registered() by {
                        if k != i {
                            assert(before[k].wf());
                        }
                    }
                    assert forall|k: int, j: int|
                        0 <= k < self.spec_sessions().len() && 0 <= j < self.spec_sessions().len() && k != j
                            implies #[trigger] self.spec_sessions()[k].spec_addr()
                            != #[trigger] self.spec_sessions()[j].spec_addr() by {
                        assert(before[k].spec_addr() != before[j].spec_addr());
                    }
                    if r is Err {
                        assert(self.sessions@ =~= before);
                    } else {
                        assert(before[i as int].spec_addr() == *addr);
                    }
                }
                r
            },
        }
    }

    /// The consumer filed under T->O connection id `id` in the session with
    /// `addr`.
    pub fn consumer(&self, addr: &EipAddr, id: u32) -> (r: Option<&Consumer>)
        requires
            self.wf(),
        ensures
            match r {
                Some(c) => exists|i: int|
                    0 <= i < self.spec_sessions().len() && #[trigger] self.spec_sessions()[i].spec_addr()
                        == *addr && self.spec_sessions()[i].spec_consumers().contains_key(id)
                        && *c == self.spec_sessions()[i].spec_consumers()[id],
                None => forall|i: int|
                    0 <= i < self.spec_sessions().len() && #[trigger] self.spec_sessions()[i].spec_addr()
                        == *addr ==> !self.spec_sessions()[i].spec_consumers().contains_key(id),
            },
    {
        match self.find(addr) {
            Some(i) => {
                let r = self.sessions[i].consumer(id);
                proof {
                    if r is None {
                        assert forall|k: int|
                            0 <= k < self.spec_sessions().len() && #[trigger] self.spec_sessions()[k].spec_addr()
                                == *addr implies !self.spec_sessions()[k].spec_consumers().contains_key(id) by {
                            if k != i {
                                assert(self.spec_sessions()[k].spec_addr() != self.spec_sessions()[i as int].spec_addr());
                            }
                        }
                    }
                }
                r
            },
            None => None,
        }
    }

    /// Takes consumer `id` out of the session with `addr` and clears its
    /// liveness flag; tells whether there was such a consumer.
    pub fn stop_consumer(&mut self, addr: &EipAddr, id: u32) -> (r: bool)
        requires
            old(self).wf(),
        ensures
            final(self).wf(),
            old(self).same_sessions(final(self)),
            r == exists|i: int|
                0 <= i < old(self).spec_sessions().len() && #[trigger] old(self).spec_sessions()[i].spec_addr()
                    == *addr && old(self).spec_sessions()[i].spec_consumers().contains_key(id),
            forall|i: int|
                0 <= i < old(self).spec_sessions().len() ==> (#[trigger] final(self).spec_sessions()[i]).spec_consumers()
                    == if old(self).spec_sessions()[i].spec_addr() == *addr {
                    old(self).spec_sessions()[i].spec_consumers().remove(id)
                } else {
                    old(self).spec_sessions()[i].spec_consumers()
                },
    {
        match self.find(addr) {
            None => false,
            Some(i) => {
                let ghost before = self.sessions@;
                assert(self.spec_sessions()[i as int].wf());
                let removed = self.sessions[i].remove_consumer(id);
                proof {
                    assert(self.sessions@ == before.update(i as int, self.sessions@[i as int]));
                    assert forall|k: int| 0 <= k < self.spec_sessions().len() implies #[trigger] self.spec_sessions()[k].wf()
                        && self.spec_sessions()[k].spec_registered() by {
                        if k != i {
                            assert(before[k].wf());
                        }
                    }
                    assert forall|k: int, j: int|
                        0 <= k < self.spec_sessions().len() && 0 <= j < self.spec_sessions().len() && k != j
                            implies #[trigger] self.spec_sessions()[k].spec_addr()
                            != #[trigger] self.spec_sessions()[j].spec_addr() by {
                        assert(before[k].spec_addr() != before[j].spec_addr());
                    }
                    assert forall|k: int| 0 <= k < before.len() && k != i implies before[k].spec_addr() != *addr by {
                        assert(before[k].spec_addr() != before[i as int].spec_addr());
                    }
                    if removed is None {
                        assert forall|k: int| 0 <= k < before.len() && #[trigger] before[k].spec_addr() == *addr
                            implies !before[k].spec_consumers().contains_key(id) by {
                            if k != i {
                                assert(before[k].spec_addr() != before[i as int].spec_addr());
                            }
                        }
                    }
                }
                match removed {
                    Some(c) => {
                        c.stop();
                        true
                    },
                    None => false,
                }
            },
        }
    }

    /// Finds the consumer an inbound datagram from `src` belongs to, and
    /// its payload: the session is looked up by the sender's address, the
    /// consumer by the connection id at offset 6.
    pub fn route(&self, src: &EipAddr, datagram: &[u8]) -> (r: Option<(&Consumer, Vec<u8>)>)
        requires
            self.wf(),
        ensures
            match r {
                Some((c, payload)) => exists|i: int, id: u32|
                    #[trigger] self.delivers_to(*src, datagram@, i, id) && *c
                        == self.spec_sessions()[i].spec_consumers()[id] && cyclic_datagram(
                        datagram@,
                    ) == Some((id, payload@)),
                None => forall|i: int, id: u32| !#[trigger] self.delivers_to(*src, datagram@, i, id),
            },
    {
        match parse_cyclic_datagram(datagram) {
            None => None,
            Some((id, payload)) => match self.consumer(src, id) {
                Some(c) => {
                    proof {
                        let i = choose|i: int|
                            0 <= i < self.spec_sessions().len()
                                && #[trigger] self.spec_sessions()[i].spec_addr() == *src
                                && self.spec_sessions()[i].spec_consumers().contains_key(id)
                                && *c == self.spec_sessions()[i].spec_consumers()[id];
                        assert(self.delivers_to(*src, datagram@, i, id));
                    }
                    Some((c, payload))
                },
                None => None,
            },
        }
    }

    /// Delivers an inbound datagram's payload to the consumer it belongs
    /// to; tells whether there was one. A datagram without one is dropped.
    pub fn dispatch(&self, src: &EipAddr, datagram: &[u8]) -> (r: bool)
        requires
            self.wf(),
        ensures
            r == exists|i: int, id: u32| #[trigger] self.delivers_to(*src, datagram@, i, id),
    {
        match self.route(src, datagram) {
            Some((c, payload)) => {
                c.deliver(payload);
                true
            },
            None => false,
        }
    }
}

/// With T->O ids distinct across sessions, an inbound datagram reaches at
/// most one consumer, and that consumer owns the connection id the
/// datagram carries: no other consumer, in its session or any other, is
/// filed under that id.
pub proof fn lemma_routing_reaches_only_the_owner(
    reg: &Registry,
    src: EipAddr,
    d: Seq<u8>,
    i: int,
    id: u32,
)
    requires
        reg.wf(),
        reg.ids_distinct_across_sessions(),
        reg.delivers_to(src, d, i, id),
    ensures
        reg.spec_sessions()[i].spec_consumers()[id].spec_ids() matches Some(ids)
            && ids.to_connection_id == id,
        cyclic_datagram(d) matches Some((cid, _)) && cid == id,
        forall|j: int, other: u32| #[trigger] reg.delivers_to(src, d, j, other) ==> j == i && other == id,
        forall|j: int|
            0 <= j < reg.spec_sessions().len() && j != i ==> !(#[trigger] reg.spec_sessions()[j]).spec_consumers().contains_key(id),
{
    assert(reg.spec_sessions()[i].wf());
    assert forall|j: int, other: u32| #[trigger] reg.delivers_to(src, d, j, other) implies j == i && other == id by {
        if j != i {
            assert(reg.spec_sessions()[i].spec_addr() != reg.spec_sessions()[j].spec_addr());
        }
    }
    assert forall|j: int|
        0 <= j < reg.spec_sessions().len() && j != i implies !(#[trigger] reg.spec_sessions()[j]).spec_consumers().contains_key(id) by {
        if reg.spec_sessions()[j].spec_consumers().contains_key(id) {
            assert(reg.spec_sessions()[i].spec_consumers().contains_key(id));
        }
    }
}

/// Adding consumers keeps the sessions in place, so once a session with a
/// controller is held, adding another consumer for that controller calls
/// for no second RegisterSession exchange.
pub proof fn lemma_session_reused(before: &Registry, after: &Registry, addr: EipAddr)
    requires
        before.holds_session(addr),
        before.same_sessions(after),
    ensures
        !after.needs_registration(addr),
{
    let i = choose|i: int|
        0 <= i < before.spec_sessions().len() && #[trigger] before.spec_sessions()[i].spec_addr()
            == addr;
    assert(after.spec_sessions()[i].spec_addr() == addr);
}

} // verus!
