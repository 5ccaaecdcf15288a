//! The EtherNet/IP and CIP messages this client sends and parses.
use vstd::prelude::*;
use vstd::utf8::encode_utf8;
use encoding::all::UTF_8;
use encoding::{EncoderTrap, Encoding};
use rand::Rng;
use crate::consumer::ConsumerHint;
use vstd::slice::{slice_subrange, slice_to_vec};
use crate::wire::{
    le_u16_value, le_u32_value, lemma_u32_le_round_trip, push_u16_le, push_u32_le, push_u64_le,
    read_u16_le, read_u32_le, u16_le, u32_le, u64_le,
};

verus! {

/// The longest tag path that leaves the whole connection path (twelve bytes
/// of port and key segments before it) within 255 16-bit words.
pub const MAX_TAG_PATH_LEN: usize = 498;

/// Length of the ForwardOpen request body before the connection path.
pub const FORWARD_OPEN_FIXED_LEN: usize = 42;

/// The RegisterSession request: command 0x65, length 4, protocol version 1,
/// every other field zero.
pub open spec fn register_session_bytes() -> Seq<u8> {
    u16_le(0x65) + u16_le(4) + u32_le(0) + u32_le(0) + u64_le(0) + u32_le(0) + u16_le(1)
        + u16_le(0)
}

/// Builds the 24-byte RegisterSession request.
pub fn build_register_session() -> (r: Vec<u8>)
    ensures
        r@ == register_session_bytes(),
{
    let mut out: Vec<u8> = Vec::with_capacity(24);
    push_u16_le(&mut out, 0x65);
    push_u16_le(&mut out, 4);
    push_u32_le(&mut out, 0);
    push_u32_le(&mut out, 0);
    push_u64_le(&mut out, 0);
    push_u32_le(&mut out, 0);
    push_u16_le(&mut out, 1);
    push_u16_le(&mut out, 0);
    out
}

/// The components of a dotted tag path, empty ones included: `"a..b"` has
/// three, and the empty path has one.
pub open spec fn split_dots(s: Seq<char>) -> Seq<Seq<char>>
    decreases s.len(),
{
    if s.len() == 0 {
        seq![Seq::empty()]
    } else {
        let init = split_dots(s.drop_last());
        if s.last() == '.' {
            init.push(Seq::empty())
        } else {
            init.update(init.len() - 1, init.last().push(s.last()))
        }
    }
}

/// The ANSI extended symbol segment of one tag component: 0x91, the length
/// of its bytes, its bytes, and one zero byte when that length is odd.
pub open spec fn tag_segment(c: Seq<char>) -> Seq<u8> {
    let b = encode_utf8(c);
    seq![0x91u8, b.len() as u8] + b + if b.len() % 2 == 1 {
        seq![0u8]
    } else {
        Seq::<u8>::empty()
    }
}

/// The segments of the components, one after the other.
pub open spec fn segments_bytes(cs: Seq<Seq<char>>) -> Seq<u8>
    decreases cs.len(),
{
    if cs.len() == 0 {
        Seq::empty()
    } else {
        segments_bytes(cs.drop_last()) + tag_segment(cs.last())
    }
}

/// Each component's bytes can be counted in the one-byte length field.
pub open spec fn components_fit(cs: Seq<Seq<char>>) -> bool {
    forall|k: int| 0 <= k < cs.len() ==> #[trigger] encode_utf8(cs[k]).len() <= 255
}

/// The tag path of a dotted tag: one symbol segment per component.
pub open spec fn tag_ioi(tag: Seq<char>) -> Seq<u8> {
    segments_bytes(split_dots(tag))
}

/// Each component of the dotted tag fits its one-byte length field.
pub open spec fn tag_components_fit(tag: Seq<char>) -> bool {
    components_fit(split_dots(tag))
}

/// Relies on the `encoding` crate's UTF-8 encoder: `encode` hands back the
/// string's own UTF-8 bytes and reports no error for any `str`.
#[verifier::external_body]
fn utf8_bytes(s: &str) -> (r: Vec<u8>)
    ensures
        r@ == encode_utf8(s@),
{
    match UTF_8.encode(s, EncoderTrap::Strict) {
        Ok(v) => v,
        Err(_) => Vec::new(),
    }
}

/// Appends the symbol segment of one component; tells whether its length
/// fitted in one byte.
fn push_tag_segment(out: &mut Vec<u8>, component: &str) -> (fits: bool)
    ensures
        final(out)@ == old(out)@ + tag_segment(component@),
        fits == (encode_utf8(component@).len() <= 255),
{
    let mut bytes = utf8_bytes(component);
    let len = bytes.len();
    out.push(0x91u8);
    out.push(len as u8);
    out.append(&mut bytes);
    if len % 2 == 1 {
        out.push(0u8);
    }
    proof {
        assert(out@ =~= old(out)@ + tag_segment(component@));
    }
    len <= 255
}

proof fn lemma_components_fit_push(cs: Seq<Seq<char>>, c: Seq<char>)
    ensures
        components_fit(cs.push(c)) == (components_fit(cs) && encode_utf8(c).len() <= 255),
{
    let d = cs.push(c);
    if components_fit(cs) && encode_utf8(c).len() <= 255 {
        assert forall|k: int| 0 <= k < d.len() implies #[trigger] encode_utf8(d[k]).len() <= 255 by {
            if k < cs.len() {
                assert(d[k] == cs[k]);
            }
        }
    }
    if components_fit(d) {
        assert(encode_utf8(d[d.len() - 1]).len() <= 255);
        assert forall|k: int| 0 <= k < cs.len() implies #[trigger] encode_utf8(cs[k]).len()
            <= 255 by {
            assert(d[k] == cs[k]);
        }
    }
}

proof fn lemma_split_dots_step(s: Seq<char>, i: int)
    requires
        0 <= i < s.len(),
    ensures
        split_dots(s.subrange(0, i + 1)) == if s[i] == '.' {
            split_dots(s.subrange(0, i)).push(Seq::empty())
        } else {
            let init = split_dots(s.subrange(0, i));
            init.update(init.len() - 1, init.last().push(s[i]))
        },
{
    let t = s.subrange(0, i + 1);
    assert(t.drop_last() =~= s.subrange(0, i));
    assert(t.last() == s[i]);
}

/// Encodes a dotted tag path; also tells whether every component fitted
/// its one-byte length field.
fn encode_tag_path(tag: &str) -> (r: (Vec<u8>, bool))
    ensures
        r.0@ == tag_ioi(tag@),
        r.1 == tag_components_fit(tag@),
{
    let n = tag.unicode_len();
    let mut out: Vec<u8> = Vec::new();
    let mut fits = true;
    let mut start: usize = 0;
    let mut i: usize = 0;
    let ghost mut done: Seq<Seq<char>> = Seq::empty();
    proof {
        assert(tag@.subrange(0, 0) =~= Seq::<char>::empty());
        assert(split_dots(tag@.subrange(0, 0)) =~= done.push(tag@.subrange(0, 0)));
    }
    while i < n
        invariant
            n == tag@.len(),
            start <= i <= n,
            split_dots(tag@.subrange(0, i as int)) == done.push(
                tag@.subrange(start as int, i as int),
            ),
            out@ == segments_bytes(done),
            fits == components_fit(done),
        decreases n - i,
    {
        let c = tag.get_char(i);
        proof {
            lemma_split_dots_step(tag@, i as int);
        }
        if c == '.' {
            let component = tag.substring_char(start, i);
            let ok = push_tag_segment(&mut out, component);
            proof {
                let d2 = done.push(tag@.subrange(start as int, i as int));
                assert(d2.drop_last() =~= done);
                lemma_components_fit_push(done, tag@.subrange(start as int, i as int));
                done = d2;
                assert(tag@.subrange(i + 1, i + 1) =~= Seq::<char>::empty());
            }
            fits = fits && ok;
            start = i + 1;
        } else {
            proof {
                assert(tag@.subrange(start as int, i + 1) =~= tag@.subrange(
                    start as int,
                    i as int,
                ).push(tag@[i as int]));
                assert(done.push(tag@.subrange(start as int, i as int)).update(
                    done.len() as int,
                    tag@.subrange(start as int, i + 1),
                ) =~= done.push(tag@.subrange(start as int, i + 1)));
            }
        }
        i = i + 1;
    }
    let component = tag.substring_char(start, n);
    let ok = push_tag_segment(&mut out, component);
    proof {
        assert(tag@.subrange(0, n as int) =~= tag@);
        let d2 = done.push(tag@.subrange(start as int, n as int));
        assert(d2.drop_last() =~= done);
        lemma_components_fit_push(done, tag@.subrange(start as int, n as int));
    }
    (out, fits && ok)
}

/// Builds the tag path of a dotted tag name: per component, 0x91, its byte
/// length, its bytes and a pad byte when that length is odd.
pub fn build_tag_ioi(tag: &str) -> (r: Vec<u8>)
    ensures
        r@ == tag_ioi(tag@),
{
    let (out, _fits) = encode_tag_path(tag);
    out
}

/// Checks that every component of the dotted tag fits its length field and
/// that the whole tag path fits the connection path.
pub fn tag_path_fits(tag: &str) -> (r: bool)
    ensures
        r == (tag_components_fit(tag@) && tag_ioi(tag@).len() <= MAX_TAG_PATH_LEN),
{
    let (out, fits) = encode_tag_path(tag);
    fits && out.len() <= MAX_TAG_PATH_LEN
}

/// The connection path: backplane port segment, an electronic key whose
/// vendor, device type, product code and revisions are all wildcards, then
/// the tag path.
pub open spec fn connection_path(tag: Seq<char>) -> Seq<u8> {
    seq![1u8, 0u8, 0x34u8, 4u8] + u16_le(0) + u16_le(0) + u16_le(0) + seq![0u8, 0u8] + tag_ioi(
        tag,
    )
}

/// Builds the connection path for the hint's tag.
pub fn build_connection_path(hint: &ConsumerHint) -> (r: Vec<u8>)
    ensures
        r@ == connection_path(hint.tag@),
{
    let mut path: Vec<u8> = Vec::with_capacity(96);
    path.push(1u8);
    path.push(0u8);
    path.push(0x34u8);
    path.push(4u8);
    push_u16_le(&mut path, 0);
    push_u16_le(&mut path, 0);
    push_u16_le(&mut path, 0);
    path.push(0u8);
    path.push(0u8);
    let mut tag = build_tag_ioi(hint.tag.as_str());
    path.append(&mut tag);
    proof {
        assert(path@ =~= connection_path(hint.tag@));
    }
    path
}

/// The SendRRData encapsulation header in front of a CIP frame of
/// `frame_len` bytes: command 0x6F, the fixed sender context, an empty
/// address item and an unconnected data item of `frame_len` bytes.
pub open spec fn send_rr_data_header(frame_len: u16, session_handle: u32) -> Seq<u8>
    recommends
        frame_len + 16 <= u16::MAX,
{
    u16_le(0x6f) + u16_le((16 + frame_len) as u16) + u32_le(session_handle) + u32_le(0) + u64_le(
        0x8000_004a_0000_0000,
    ) + u32_le(0) + u32_le(0) + u16_le(0) + u16_le(2) + u16_le(0) + u16_le(0) + u16_le(0xb2)
        + u16_le(frame_len)
}

/// Builds the 40-byte SendRRData header for a CIP frame of `frame_len`
/// bytes.
pub fn build_eip_send_rr_data_header(frame_len: u16, session_handle: u32) -> (r: Vec<u8>)
    requires
        frame_len + 16 <= u16::MAX,
    ensures
        r@ == send_rr_data_header(frame_len, session_handle),
{
    let mut header: Vec<u8> = Vec::with_capacity(40);
    push_u16_le(&mut header, 0x6f);
    push_u16_le(&mut header, 16 + frame_len);
    push_u32_le(&mut header, session_handle);
    push_u32_le(&mut header, 0);
    push_u64_le(&mut header, 0x8000_004a_0000_0000);
    push_u32_le(&mut header, 0);
    push_u32_le(&mut header, 0);
    push_u16_le(&mut header, 0);
    push_u16_le(&mut header, 2);
    push_u16_le(&mut header, 0);
    push_u16_le(&mut header, 0);
    push_u16_le(&mut header, 0xb2);
    push_u16_le(&mut header, frame_len);
    header
}

/// The O->T network connection parameters: fixed size, point to point,
/// scheduled priority.
pub const OT_CONNECTION_PARAMETERS: u16 = 0x4802;

/// The T->O network connection parameters without the payload size.
pub const TO_CONNECTION_PARAMETERS: u16 = 0x4800;

/// The CIP Forward_Open request (service 0x54 to the Connection Manager,
/// class 6 instance 1) for the hint, with the given T->O connection id and
/// connection serial number.
pub open spec fn cip_forward_open(
    hint_tag: Seq<char>,
    data_size: usize,
    rpi: usize,
    otrpi: usize,
    to_connection_id: u32,
    serial: u16,
) -> Seq<u8> {
    let path = connection_path(hint_tag);
    seq![0x54u8, 2u8, 0x20u8, 6u8, 0x24u8, 1u8, 0x0au8, 0x0eu8] + u32_le(0) + u32_le(
        to_connection_id,
    ) + u16_le(serial) + u16_le(1) + u32_le(42) + u32_le(0) + u32_le(otrpi as u32) + u16_le(
        OT_CONNECTION_PARAMETERS,
    ) + u32_le(rpi as u32) + u16_le(TO_CONNECTION_PARAMETERS | (data_size as u16)) + seq![
        0x81u8,
        (path.len() / 2) as u8,
    ] + path
}

/// The Forward_Open request for a hint.
pub open spec fn hint_forward_open(hint: &ConsumerHint, to_connection_id: u32, serial: u16) -> Seq<
    u8,
> {
    cip_forward_open(hint.tag@, hint.data_size, hint.rpi, hint.otrpi, to_connection_id, serial)
}

/// Builds the CIP Forward_Open request for the hint.
pub fn build_cip_forward_open(hint: &ConsumerHint, to_connection_id: u32, serial: u16) -> (r: Vec<
    u8,
>)
    requires
        hint.encodable(),
    ensures
        r@ == hint_forward_open(hint, to_connection_id, serial),
        r@.len() == FORWARD_OPEN_FIXED_LEN + connection_path(hint.tag@).len(),
        r@.len() <= FORWARD_OPEN_FIXED_LEN + 12 + MAX_TAG_PATH_LEN,
{
    let mut out: Vec<u8> = Vec::with_capacity(328);
    out.push(0x54u8);
    out.push(2u8);
    out.push(0x20u8);
    out.push(6u8);
    out.push(0x24u8);
    out.push(1u8);
    out.push(0x0au8);
    out.push(0x0eu8);
    push_u32_le(&mut out, 0);
    push_u32_le(&mut out, to_connection_id);
    push_u16_le(&mut out, serial);
    push_u16_le(&mut out, 1);
    push_u32_le(&mut out, 42);
    push_u32_le(&mut out, 0);
    push_u32_le(&mut out, hint.otrpi as u32);
    push_u16_le(&mut out, OT_CONNECTION_PARAMETERS);
    push_u32_le(&mut out, hint.rpi as u32);
    push_u16_le(&mut out, TO_CONNECTION_PARAMETERS | (hint.data_size as u16));
    out.push(0x81u8);
    let mut path = build_connection_path(hint);
    out.push((path.len() / 2) as u8);
    out.append(&mut path);
    proof {
        assert(out@ =~= hint_forward_open(hint, to_connection_id, serial));
    }
    out
}

/// A complete ForwardOpen packet: the SendRRData header followed by the
/// Forward_Open request.
pub open spec fn forward_open_packet(
    session_handle: u32,
    hint: &ConsumerHint,
    to_connection_id: u32,
    serial: u16,
) -> Seq<u8> {
    let cip = hint_forward_open(hint, to_connection_id, serial);
    send_rr_data_header(cip.len() as u16, session_handle) + cip
}

/// Builds the ForwardOpen packet with the given T->O connection id and
/// connection serial number.
pub fn build_forward_open_packet_with(
    session_handle: u32,
    hint: &ConsumerHint,
    to_connection_id: u32,
    serial: u16,
) -> (r: Vec<u8>)
    requires
        hint.encodable(),
    ensures
        r@ == forward_open_packet(session_handle, hint, to_connection_id, serial),
{
    let mut forward_open = build_cip_forward_open(hint, to_connection_id, serial);
    let mut header = build_eip_send_rr_data_header(forward_open.len() as u16, session_handle);
    header.append(&mut forward_open);
    header
}

/// Relies on rand's `thread_rng().gen_range`: a value drawn from
/// `0..bound`; it panics on an empty range.
#[verifier::external_body]
fn random_below(bound: u32) -> (r: u32)
    requires
        bound > 0,
    ensures
        r < bound,
{
    rand::thread_rng().gen_range(0..bound)
}

/// Bound of the randomly drawn T->O connection id and serial number.
pub const RANDOM_ID_BOUND: u32 = 65000;

/// Builds the ForwardOpen packet for the hint, with a T->O connection id
/// and a connection serial number drawn at random below 65000.
pub fn build_forward_open_packet(session_handle: u32, hint: &ConsumerHint) -> (r: Vec<u8>)
    requires
        hint.encodable(),
    ensures
        exists|to_connection_id: u32, serial: u16|
            to_connection_id < RANDOM_ID_BOUND && serial < RANDOM_ID_BOUND && r@
                == forward_open_packet(session_handle, hint, to_connection_id, serial),
{
    let to_connection_id = random_below(RANDOM_ID_BOUND);
    let serial = random_below(RANDOM_ID_BOUND) as u16;
    build_forward_open_packet_with(session_handle, hint, to_connection_id, serial)
}

/// The class 1 keep-alive datagram: a sequenced address item carrying the
/// O->T connection id and the rolling sequence count, then a connected data
/// item holding the fixed CIP sequence number 1.
pub open spec fn keep_alive_bytes(ot_connection_id: u32, sequence_count: u32) -> Seq<u8> {
    u16_le(2) + u16_le(0x8002) + u16_le(8) + u32_le(ot_connection_id) + u32_le(sequence_count)
        + u16_le(0xb1) + u16_le(2) + u16_le(1)
}

/// Builds the 20-byte keep-alive datagram.
pub fn build_response_packet(ot_connection_id: u32, sequence_count: u32) -> (r: Vec<u8>)
    ensures
        r@ == keep_alive_bytes(ot_connection_id, sequence_count),
{
    let mut payload: Vec<u8> = Vec::with_capacity(20);
    push_u16_le(&mut payload, 2);
    push_u16_le(&mut payload, 0x8002);
    push_u16_le(&mut payload, 8);
    push_u32_le(&mut payload, ot_connection_id);
    push_u32_le(&mut payload, sequence_count);
    push_u16_le(&mut payload, 0xb1);
    push_u16_le(&mut payload, 2);
    push_u16_le(&mut payload, 1);
    payload
}

/// The tag-list query is not supported: nothing is built.
pub fn build_get_tag_list_query() {
}

/// Why a handshake step failed.
#[derive(Clone, Copy, Debug, PartialEq, Eq, Structural)]
pub enum EipError {
    /// The response is shorter than its fields.
    Framing,
    /// The controller answered the ForwardOpen with a nonzero general status.
    ForwardOpenRejected,
    /// The hint does not fit the fields of a ForwardOpen request.
    InvalidHint,
    /// No session is registered with that controller.
    UnknownSession,
}

/// The pair of connection ids that a ForwardOpen negotiates.
#[derive(Clone, Copy, Debug, PartialEq, Eq, Structural)]
pub struct ConnectionIds {
    /// Carried in the keep-alive datagrams this client sends.
    pub ot_connection_id: u32,
    /// Carried in the datagrams the controller produces: the dispatch key.
    pub to_connection_id: u32,
}

/// The shortest ForwardOpen response that holds both connection ids.
pub const FORWARD_OPEN_RESPONSE_MIN_LEN: usize = 52;

/// What a ForwardOpen response says: too short, rejected by the general
/// status byte at offset 42, or the O->T and T->O ids at offsets 44 and 48.
pub open spec fn forward_open_result(b: Seq<u8>) -> Result<ConnectionIds, EipError> {
    if b.len() < FORWARD_OPEN_RESPONSE_MIN_LEN {
        Err(EipError::Framing)
    } else if b[42] != 0 {
        Err(EipError::ForwardOpenRejected)
    } else {
        Ok(
            ConnectionIds {
                ot_connection_id: le_u32_value(b.subrange(44, 48)),
                to_connection_id: le_u32_value(b.subrange(48, 52)),
            },
        )
    }
}

/// Parses a ForwardOpen response.
pub fn parse_forward_open_response(b: &[u8]) -> (r: Result<ConnectionIds, EipError>)
    ensures
        r == forward_open_result(b@),
{
    if b.len() < FORWARD_OPEN_RESPONSE_MIN_LEN {
        Err(EipError::Framing)
    } else if b[42] != 0 {
        Err(EipError::ForwardOpenRejected)
    } else {
        Ok(
            ConnectionIds {
                ot_connection_id: read_u32_le(b, 44),
                to_connection_id: read_u32_le(b, 48),
            },
        )
    }
}

/// A reply that a controller could give to a ForwardOpen request: the
/// request's 40 bytes of header, a successful Forward_Open reply
/// (service 0xD4, general status 0, no extended status), the two ids, and
/// whatever follows them.
pub open spec fn forward_open_reply(request: Seq<u8>, ot: u32, to: u32, tail: Seq<u8>) -> Seq<u8> {
    request.subrange(0, 40) + seq![0xd4u8, 0u8, 0u8, 0u8] + u32_le(ot) + u32_le(to) + tail
}

/// Parsing a successful reply to any ForwardOpen request this library
/// builds gives back exactly the two connection ids the reply carries.
pub proof fn lemma_forward_open_round_trip(
    session_handle: u32,
    hint: &ConsumerHint,
    to_connection_id: u32,
    serial: u16,
    ot: u32,
    to: u32,
    tail: Seq<u8>,
)
    requires
        hint.encodable(),
    ensures
        forward_open_result(
            forward_open_reply(
                forward_open_packet(session_handle, hint, to_connection_id, serial),
                ot,
                to,
                tail,
            ),
        ) == Ok::<ConnectionIds, EipError>(
            ConnectionIds { ot_connection_id: ot, to_connection_id: to },
        ),
{
    let request = forward_open_packet(session_handle, hint, to_connection_id, serial);
    assert(request.len() >= 40);
    let reply = forward_open_reply(request, ot, to, tail);
    lemma_u32_le_round_trip(ot);
    lemma_u32_le_round_trip(to);
    assert(reply.subrange(44, 48) =~= u32_le(ot));
    assert(reply.subrange(48, 52) =~= u32_le(to));
    assert(reply[42] == 0);
}

/// What a RegisterSession response says: too short, or the session handle
/// at offset 4. The status field is not consulted.
pub open spec fn session_token_result(b: Seq<u8>) -> Result<u32, EipError> {
    if b.len() < 8 {
        Err(EipError::Framing)
    } else {
        Ok(le_u32_value(b.subrange(4, 8)))
    }
}

/// Reads the session handle out of a RegisterSession response.
pub fn parse_session_token(b: &[u8]) -> (r: Result<u32, EipError>)
    ensures
        r == session_token_result(b@),
{
    if b.len() < 8 {
        Err(EipError::Framing)
    } else {
        Ok(read_u32_le(b, 4))
    }
}

/// Size of the encapsulation header, which the length field does not count.
pub const HEADER_SIZE: usize = 24;

/// A response read so far is whole: its length field (offset 2) can be read
/// and the bytes after the 24-byte header reach that length.
pub open spec fn frame_complete(b: Seq<u8>) -> bool {
    b.len() >= 4 && b.len() >= HEADER_SIZE + le_u16_value(b.subrange(2, 4))
}

/// Tells whether the bytes received so far hold a whole encapsulated
/// response.
pub fn is_frame_complete(b: &[u8]) -> (r: bool)
    ensures
        r == frame_complete(b@),
{
    if b.len() < 4 {
        false
    } else {
        let declared = read_u16_le(b, 2);
        b.len() >= HEADER_SIZE + declared as usize
    }
}

/// Offset of the connection id in an inbound cyclic datagram.
pub const DATAGRAM_ID_OFFSET: usize = 6;

/// Offset of the payload in an inbound cyclic datagram.
pub const DATAGRAM_PAYLOAD_OFFSET: usize = 20;

/// An inbound cyclic datagram: its connection id at offset 6 and its
/// payload from offset 20 on; nothing for one shorter than 20 bytes.
pub open spec fn cyclic_datagram(d: Seq<u8>) -> Option<(u32, Seq<u8>)> {
    if d.len() < DATAGRAM_PAYLOAD_OFFSET {
        None
    } else {
        Some(
            (
                le_u32_value(d.subrange(6, 10)),
                d.subrange(DATAGRAM_PAYLOAD_OFFSET as int, d.len() as int),
            ),
        )
    }
}

/// Splits an inbound cyclic datagram into its connection id and payload.
pub fn parse_cyclic_datagram(d: &[u8]) -> (r: Option<(u32, Vec<u8>)>)
    ensures
        match (r, cyclic_datagram(d@)) {
            (Some((id, payload)), Some((sid, spayload))) => id == sid && payload@ == spayload,
            (None, None) => true,
            _ => false,
        },
{
    if d.len() < DATAGRAM_PAYLOAD_OFFSET {
        None
    } else {
        let id = read_u32_le(d, DATAGRAM_ID_OFFSET);
        let payload = slice_to_vec(slice_subrange(d, DATAGRAM_PAYLOAD_OFFSET, d.len()));
        Some((id, payload))
    }
}

} // verus!
