//! One registered explicit-messaging session with a controller, and the
//! consumer connections opened through it.
use std::collections::HashMap;
use vstd::prelude::*;
use crate::address::EipAddr;
use crate::consumer::Consumer;
use crate::eip::{forward_open_result, parse_session_token, session_token_result, EipError};

verus! {

/// A session with one controller. It is registered once the controller has
/// answered the RegisterSession request with a session handle; its
/// consumers are keyed by their T->O connection id.
pub struct Plc {
    addr: EipAddr,
    consumers: HashMap<u32, Consumer>,
    session_handle: u32,
    registered: bool,
}

impl Plc {
    pub closed spec fn spec_addr(&self) -> EipAddr {
        self.addr
    }

    pub closed spec fn spec_session_handle(&self) -> u32 {
        self.session_handle
    }

    pub closed spec fn spec_registered(&self) -> bool {
        self.registered
    }

    /// The open consumers, by T->O connection id.
    pub closed spec fn spec_consumers(&self) -> Map<u32, Consumer> {
        self.consumers@
    }

    /// Each consumer is open and filed under its own T->O connection id.
    pub open spec fn wf(&self) -> bool {
        forall|id: u32| #[trigger]
            self.spec_consumers().contains_key(id) ==> {
                &&& self.spec_consumers()[id].spec_ids() is Some
                &&& self.spec_consumers()[id].spec_ids()->0.to_connection_id == id
            }
    }

    /// A session with the controller at `addr`, not yet registered.
    pub fn new(addr: EipAddr) -> (r: Plc)
        ensures
            r.spec_addr() == addr,
            !r.spec_registered(),
            r.spec_consumers() == Map::<u32, Consumer>::empty(),
            r.wf(),
    {
        Plc { addr, consumers: HashMap::new(), session_handle: 0, registered: false }
    }

    pub fn addr(&self) -> (r: EipAddr)
        ensures
            r == self.spec_addr(),
    {
        self.addr
    }

    pub fn session_handle(&self) -> (r: u32)
        ensures
            r == self.spec_session_handle(),
    {
        self.session_handle
    }

    pub fn is_registered(&self) -> (r: bool)
        ensures
            r == self.spec_registered(),
    {
        self.registered
    }

    /// Takes the controller's RegisterSession response: on success the
    /// session is registered under the handle it carries; on failure
    /// nothing changes.
    pub fn register(&mut self, response: &[u8]) -> (r: Result<(), EipError>)
        ensures
            match session_token_result(response@) {
                Ok(handle) => r is Ok && final(self).spec_registered()
                    && final(self).spec_session_handle() == handle && final(self).spec_addr()
                    == old(self).spec_addr() && final(self).spec_consumers() == old(
                    self,
                ).spec_consumers(),
                Err(e) => r == Err::<(), EipError>(e) && *final(self) == *old(self),
            },
    {
        match parse_session_token(response) {
            Ok(handle) => {
                self.session_handle = handle;
                self.registered = true;
                Ok(())
            },
            Err(e) => Err(e),
        }
    }

    /// Takes the controller's response to `consumer`'s ForwardOpen request:
    /// on success the now open consumer is filed under its T->O connection
    /// id, which is returned; on failure nothing is filed.
    pub fn add_consumer(&mut self, consumer: Consumer, response: &[u8]) -> (r: Result<
        u32,
        EipError,
    >)
        requires
            old(self).spec_registered(),
            old(self).wf(),
        ensures
            final(self).wf(),
            final(self).spec_addr() == old(self).spec_addr(),
            final(self).spec_registered(),
            final(self).spec_session_handle() == old(self).spec_session_handle(),
            match forward_open_result(response@) {
                Ok(ids) => {
                    &&& r == Ok::<u32, EipError>(ids.to_connection_id)
                    &&& final(self).spec_consumers().contains_key(ids.to_connection_id)
                    &&& final(self).spec_consumers() == old(self).spec_consumers().insert(
                        ids.to_connection_id,
                        final(self).spec_consumers()[ids.to_connection_id],
                    )
                    &&& final(self).spec_consumers()[ids.to_connection_id].spec_ids() == Some(ids)
                    &&& final(self).spec_consumers()[ids.to_connection_id].spec_hint()
                        == consumer.spec_hint()
                },
                Err(e) => r == Err::<u32, EipError>(e) && *final(self) == *old(self),
            },
    {
        let mut consumer = consumer;
        match consumer.complete_forward_open(response) {
            Ok(id) => {
                self.consumers.insert(id, consumer);
                Ok(id)
            },
            Err(e) => Err(e),
        }
    }

    /// The consumer filed under a T->O connection id.
    pub fn consumer(&self, id: u32) -> (r: Option<&Consumer>)
        ensures
            match r {
                Some(c) => self.spec_consumers().contains_key(id) && *c
                    == self.spec_consumers()[id],
                None => !self.spec_consumers().contains_key(id),
            },
    {
        self.consumers.get(&id)
    }

    /// Takes the consumer filed under a T->O connection id out of the
    /// session.
    pub fn remove_consumer(&mut self, id: u32) -> (r: Option<Consumer>)
        requires
            old(self).wf(),
        ensures
            final(self).wf(),
            final(self).spec_addr() == old(self).spec_addr(),
            final(self).spec_registered() == old(self).spec_registered(),
            final(self).spec_session_handle() == old(self).spec_session_handle(),
            final(self).spec_consumers() == old(self).spec_consumers().remove(id),
            match r {
                Some(c) => old(self).spec_consumers().contains_key(id) && c == old(
                    self,
                ).spec_consumers()[id],
                None => !old(self).spec_consumers().contains_key(id),
            },
    {
        self.consumers.remove(&id)
    }
}

} // verus!
