//! One cyclic consumer connection: what the caller asked for, what the
//! ForwardOpen handshake negotiated, where its data goes and whether its
//! keep-alive traffic should go on.
use vstd::prelude::*;
use std::sync::atomic::{AtomicBool, Ordering};
use std::sync::Arc;
use crossbeam::queue::SegQueue;
use crate::eip::{
    build_forward_open_packet, build_response_packet, forward_open_packet, forward_open_result,
    keep_alive_bytes, parse_forward_open_response, tag_components_fit, tag_ioi, tag_path_fits,
    ConnectionIds, EipError, MAX_TAG_PATH_LEN, RANDOM_ID_BOUND,
};

verus! {

/// What a caller asks for when it opens a consumer connection: the dotted
/// tag path, the payload size in bytes, and the requested T->O and O->T
/// packet intervals in microseconds.
pub struct ConsumerHint {
    pub tag: String,
    pub data_size: usize,
    pub rpi: usize,
    pub otrpi: usize,
}

impl ConsumerHint {
    /// Every field fits the wire field that carries it: both intervals in 32
    /// bits, the payload size in 16, each tag component in a one-byte length,
    /// and the whole connection path in a one-byte count of 16-bit words.
    pub open spec fn encodable(&self) -> bool {
        &&& self.rpi <= u32::MAX
        &&& self.otrpi <= u32::MAX
        &&& self.data_size <= u16::MAX
        &&& tag_components_fit(self.tag@)
        &&& tag_ioi(self.tag@).len() <= MAX_TAG_PATH_LEN
    }

    /// Checks whether every field of the hint fits its wire field.
    pub fn is_encodable(&self) -> (r: bool)
        ensures
            r == self.encodable(),
    {
        self.rpi <= u32::MAX as usize && self.otrpi <= u32::MAX as usize && self.data_size
            <= u16::MAX as usize && tag_path_fits(self.tag.as_str())
    }
}

#[verifier::external_type_specification]
#[verifier::external_body]
#[verifier::reject_recursive_types(T)]
pub struct ExSegQueue<T>(SegQueue<T>);

/// Relies on crossbeam's `SegQueue::push`: it enqueues the value and does
/// not fail; the queue lives behind shared references, so no contract
/// speaks of its contents.
pub assume_specification<T>[ SegQueue::<T>::push ](queue: &SegQueue<T>, value: T);

/// The queue that receives the payloads of one consumer's datagrams.
pub type ConsumerQueue = SegQueue<Vec<u8>>;

/// One consumer connection. It is created from a hint, opened by a
/// ForwardOpen handshake that fixes its connection ids, and stopped by
/// clearing its liveness flag, which its keep-alive task reads on each
/// wake.
pub struct Consumer {
    hint: ConsumerHint,
    queue: Arc<ConsumerQueue>,
    ids: Option<ConnectionIds>,
    alive: Arc<AtomicBool>,
}

impl Consumer {
    /// The hint the consumer was created from.
    pub closed spec fn spec_hint(&self) -> ConsumerHint {
        self.hint
    }

    /// The connection ids once the ForwardOpen succeeded.
    pub closed spec fn spec_ids(&self) -> Option<ConnectionIds> {
        self.ids
    }

    /// A consumer in the created state, delivering into `queue`.
    pub fn new(hint: ConsumerHint, queue: &Arc<ConsumerQueue>) -> (r: Consumer)
        ensures
            r.spec_hint() == hint,
            r.spec_ids() is None,
    {
        Consumer {
            hint,
            queue: Arc::clone(queue),
            ids: None,
            alive: Arc::new(AtomicBool::new(true)),
        }
    }

    pub fn hint(&self) -> (r: &ConsumerHint)
        ensures
            *r == self.spec_hint(),
    {
        &self.hint
    }

    pub fn ids(&self) -> (r: Option<ConnectionIds>)
        ensures
            r == self.spec_ids(),
    {
        self.ids
    }

    /// The ForwardOpen request for this consumer on a session with the
    /// given handle, with fresh random ids; refused for a hint that does not
    /// fit the request's fields.
    pub fn forward_open_request(&self, session_handle: u32) -> (r: Result<Vec<u8>, EipError>)
        ensures
            self.spec_hint().encodable() <==> r is Ok,
            !self.spec_hint().encodable() ==> r == Err::<Vec<u8>, EipError>(
                EipError::InvalidHint,
            ),
            r matches Ok(bytes) ==> exists|to_connection_id: u32, serial: u16|
                to_connection_id < RANDOM_ID_BOUND && serial < RANDOM_ID_BOUND && bytes@
                    == forward_open_packet(
                    session_handle,
                    &self.spec_hint(),
                    to_connection_id,
                    serial,
                ),
    {
        if self.hint.is_encodable() {
            let bytes = build_forward_open_packet(session_handle, &self.hint);
            assert(self.spec_hint() == self.hint);
            Ok(bytes)
        } else {
            Err(EipError::InvalidHint)
        }
    }

    /// Takes the controller's ForwardOpen response: on success the
    /// consumer is open with the ids it carries and the T->O id is
    /// returned; on failure nothing changes.
    pub fn complete_forward_open(&mut self, response: &[u8]) -> (r: Result<u32, EipError>)
        ensures
            final(self).spec_hint() == old(self).spec_hint(),
            match forward_open_result(response@) {
                Ok(ids) => r == Ok::<u32, EipError>(ids.to_connection_id)
                    && final(self).spec_ids() == Some(ids),
                Err(e) => r == Err::<u32, EipError>(e) && *final(self) == *old(self),
            },
    {
        match parse_forward_open_response(response) {
            Ok(ids) => {
                self.ids = Some(ids);
                Ok(ids.to_connection_id)
            },
            Err(e) => Err(e),
        }
    }

    /// The keep-alive period, the O->T interval, as whole seconds and
    /// nanoseconds.
    pub fn keep_alive_period(&self) -> (r: (u64, u32))
        ensures
            r.0 == self.spec_hint().otrpi / 1_000_000,
            r.1 == (self.spec_hint().otrpi % 1_000_000) * 1000,
    {
        let secs = (self.hint.otrpi / 1_000_000) as u64;
        let nanos = ((self.hint.otrpi % 1_000_000) * 1000) as u32;
        (secs, nanos)
    }

    /// Clears the liveness flag; the keep-alive task sees it on its next
    /// wake.
    pub fn stop(&self) {
        self.alive.store(false, Ordering::Release);
    }

    /// Reads the liveness flag.
    pub fn is_alive(&self) -> bool {
        self.alive.load(Ordering::Acquire)
    }

    /// The liveness flag, shared with the keep-alive task.
    pub fn alive_flag(&self) -> Arc<AtomicBool> {
        Arc::clone(&self.alive)
    }

    /// The queue this consumer delivers into.
    pub fn queue(&self) -> Arc<ConsumerQueue> {
        Arc::clone(&self.queue)
    }

    /// Hands one payload to the consumer's queue.
    pub fn deliver(&self, payload: Vec<u8>) {
        self.queue.push(payload);
    }
}

/// What a keep-alive task does when it wakes: nothing once the liveness
/// flag is clear, else send the keep-alive datagram for the connection
/// with the rolling sequence count it drew.
pub open spec fn keep_alive_action(alive: bool, ot_connection_id: u32, sequence_count: u32) -> Option<
    Seq<u8>,
> {
    if alive {
        Some(keep_alive_bytes(ot_connection_id, sequence_count))
    } else {
        None
    }
}

/// Decides what a waking keep-alive task sends, if anything.
pub fn keep_alive_step(alive: bool, ot_connection_id: u32, sequence_count: u32) -> (r: Option<
    Vec<u8>,
>)
    ensures
        r matches Some(b) ==> keep_alive_action(alive, ot_connection_id, sequence_count) == Some(
            b@,
        ),
        r is None ==> keep_alive_action(alive, ot_connection_id, sequence_count) is None,
{
    if alive {
        Some(build_response_packet(ot_connection_id, sequence_count))
    } else {
        None
    }
}

/// Once a consumer's liveness flag is clear, its keep-alive task sends
/// nothing on any later wake, whatever sequence count it would have used.
pub proof fn lemma_stopped_consumer_sends_nothing(ot_connection_id: u32, sequence_count: u32)
    ensures
        keep_alive_action(false, ot_connection_id, sequence_count) is None,
{
}

} // verus!
