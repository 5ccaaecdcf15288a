use rconpro::eip::{
    build_connection_path, build_eip_send_rr_data_header, build_forward_open_packet,
    build_forward_open_packet_with, build_get_tag_list_query, build_register_session,
    build_response_packet, build_tag_ioi, is_frame_complete, parse_cyclic_datagram,
    parse_forward_open_response, parse_session_token, tag_path_fits, ConnectionIds, EipError,
};
use rconpro::ConsumerHint;

fn hint(tag: &str) -> ConsumerHint {
    ConsumerHint { tag: String::from(tag), data_size: 6, rpi: 1000, otrpi: 1100 }
}

fn le32(n: u32) -> Vec<u8> {
    n.to_le_bytes().to_vec()
}

#[test]
fn test_build_register_session() {
    assert_eq!(
        build_register_session(),
        vec![101, 0, 4, 0, 0, 0, 0,
             0, 0, 0, 0, 0, 0, 0, 0,
             0, 0, 0, 0, 0, 0, 0, 0,
             0, 1, 0, 0, 0]
    );
}

#[test]
fn test_build_eip_send_rr_data_header() {
    assert_eq!(
        build_eip_send_rr_data_header(0, 0),
        vec![111, 0, 16, 0, 0, 0, 0, 0, 0, 0, 0, 0, 0, 0, 0, 0, 74, 0, 0, 128, 0, 0,
             0, 0, 0, 0, 0, 0, 0, 0, 2, 0, 0, 0, 0, 0, 178, 0, 0, 0]
    )
}

#[test]
fn test_build_connection_path() {
    let hint = ConsumerHint {
        tag: String::from("Test"),
        data_size: 6,
        rpi: 1000,
        otrpi: 1100,
    };
    assert_eq!(
        build_connection_path(&hint),
        vec![1, 0, 52, 4, 0, 0, 0, 0, 0, 0, 0, 0, 145, 4, 84, 101, 115, 116]
    );
}

#[test]
fn test_build_tag_ioi() {
    assert_eq!(build_tag_ioi("Test"), vec![145, 4, 84, 101, 115, 116]);
}

#[test]
fn test_build_response_packet() {
    assert_eq!(
        build_response_packet(0, 0),
        vec![2, 0, 2, 128, 8, 0, 0, 0, 0, 0, 0, 0, 0, 0, 177, 0, 2, 0, 1, 0]
    );
}

#[test]
fn send_rr_data_header_counts_the_frame() {
    let h = build_eip_send_rr_data_header(0x0102, 0x0a0b0c0d);
    assert_eq!(&h[0..4], &[111, 0, 0x12, 0x01]);
    assert_eq!(&h[4..8], &[0x0d, 0x0c, 0x0b, 0x0a]);
    assert_eq!(&h[36..40], &[178, 0, 0x02, 0x01]);
}

#[test]
fn keep_alive_packet_carries_id_and_sequence() {
    let p = build_response_packet(0x11223344, 0x01020304);
    assert_eq!(
        p,
        vec![2, 0, 2, 128, 8, 0, 0x44, 0x33, 0x22, 0x11, 4, 3, 2, 1, 177, 0, 2, 0, 1, 0]
    );
}

#[test]
fn tag_ioi_pads_odd_components_and_splits_on_dots() {
    assert_eq!(
        build_tag_ioi("Abc.De"),
        vec![0x91, 3, b'A', b'b', b'c', 0, 0x91, 2, b'D', b'e']
    );
    assert_eq!(build_tag_ioi(""), vec![0x91, 0]);
    assert_eq!(build_tag_ioi("a..b"), vec![0x91, 1, b'a', 0, 0x91, 0, 0x91, 1, b'b', 0]);
}

#[test]
fn tag_ioi_counts_utf8_bytes() {
    // 'ë' takes two bytes in UTF-8
    assert_eq!(build_tag_ioi("Të"), vec![0x91, 3, b'T', 0xc3, 0xab, 0]);
}

#[test]
fn tag_path_limits() {
    let long: String = std::iter::repeat('x').take(256).collect();
    assert!(!tag_path_fits(&long));
    let just: String = std::iter::repeat('x').take(255).collect();
    assert!(tag_path_fits(&just));
    assert!(tag_path_fits("Program.Tag"));
    let mut h = hint("Test");
    assert!(h.is_encodable());
    h.data_size = 70000;
    assert!(!h.is_encodable());
}

#[test]
fn forward_open_packet_layout() {
    let h = hint("Test");
    let p = build_forward_open_packet_with(0x01020304, &h, 0x0000abcd, 0x1234);
    // 40 bytes of header, 42 of request body, 18 of connection path
    assert_eq!(p.len(), 100);
    assert_eq!(&p[0..4], &[0x6f, 0, 76, 0]);
    assert_eq!(&p[4..8], &[4, 3, 2, 1]);
    assert_eq!(&p[38..40], &[60, 0]);
    let body = &p[40..];
    assert_eq!(&body[0..8], &[0x54, 2, 0x20, 6, 0x24, 1, 0x0a, 0x0e]);
    assert_eq!(&body[8..12], &[0, 0, 0, 0]);
    assert_eq!(&body[12..16], &[0xcd, 0xab, 0, 0]);
    assert_eq!(&body[16..18], &[0x34, 0x12]);
    assert_eq!(&body[18..20], &[1, 0]);
    assert_eq!(&body[20..24], &[42, 0, 0, 0]);
    assert_eq!(&body[24..28], &[0, 0, 0, 0]);
    assert_eq!(&body[28..32], &le32(1100)[..]);
    assert_eq!(&body[32..34], &[0x02, 0x48]);
    assert_eq!(&body[34..38], &le32(1000)[..]);
    assert_eq!(&body[38..40], &[0x06, 0x48]);
    assert_eq!(body[40], 0x81);
    assert_eq!(body[41], 9);
    assert_eq!(&body[42..], &[1, 0, 52, 4, 0, 0, 0, 0, 0, 0, 0, 0, 145, 4, 84, 101, 115, 116]);
}

#[test]
fn random_forward_open_ids_stay_below_bound() {
    let h = hint("Test");
    for _ in 0..50 {
        let p = build_forward_open_packet(7, &h);
        assert_eq!(p.len(), 100);
        let to_id = u32::from_le_bytes([p[52], p[53], p[54], p[55]]);
        let serial = u16::from_le_bytes([p[56], p[57]]);
        assert!(to_id < 65000);
        assert!(serial < 65000);
        let fixed = build_forward_open_packet_with(7, &h, to_id, serial);
        assert_eq!(p, fixed);
    }
}

fn reply_to(request: &[u8], status: u8, ot: u32, to: u32) -> Vec<u8> {
    let mut r = request[0..40].to_vec();
    r.extend_from_slice(&[0xd4, 0, status, 0]);
    r.extend_from_slice(&le32(ot));
    r.extend_from_slice(&le32(to));
    r
}

#[test]
fn forward_open_round_trip() {
    let h = hint("Program.Motor.Speed");
    let request = build_forward_open_packet(99, &h);
    let reply = reply_to(&request, 0, 0x80010203, 0x00fe0001);
    assert_eq!(
        parse_forward_open_response(&reply),
        Ok(ConnectionIds { ot_connection_id: 0x80010203, to_connection_id: 0x00fe0001 })
    );
}

#[test]
fn forward_open_rejected_and_short() {
    let h = hint("Test");
    let request = build_forward_open_packet(1, &h);
    let rejected = reply_to(&request, 1, 5, 6);
    assert_eq!(parse_forward_open_response(&rejected), Err(EipError::ForwardOpenRejected));
    assert_eq!(parse_forward_open_response(&rejected[0..51]), Err(EipError::Framing));
    assert_eq!(parse_forward_open_response(&[]), Err(EipError::Framing));
}

#[test]
fn session_token_is_read_at_offset_four() {
    let mut resp = build_register_session();
    resp[4..8].copy_from_slice(&[0x78, 0x56, 0x34, 0x12]);
    assert_eq!(parse_session_token(&resp), Ok(0x12345678));
    assert_eq!(parse_session_token(&resp[0..7]), Err(EipError::Framing));
    assert_eq!(parse_session_token(&[]), Err(EipError::Framing));
}

#[test]
fn frame_completeness() {
    let mut f = vec![0x65, 0, 4, 0];
    f.extend_from_slice(&[0; 20]);
    assert!(!is_frame_complete(&f));
    f.extend_from_slice(&[1, 0, 0]);
    assert!(!is_frame_complete(&f));
    f.push(0);
    assert!(is_frame_complete(&f));
    assert!(!is_frame_complete(&[0x65, 0, 0]));
    let mut empty_body = vec![0x6f, 0, 0, 0];
    empty_body.extend_from_slice(&[0; 20]);
    assert!(is_frame_complete(&empty_body));
}

#[test]
fn cyclic_datagram_split() {
    let mut d = build_response_packet(0x0a0b0c0d, 3);
    assert_eq!(parse_cyclic_datagram(&d), Some((0x0a0b0c0d, vec![])));
    d.extend_from_slice(&[9, 8, 7]);
    assert_eq!(parse_cyclic_datagram(&d), Some((0x0a0b0c0d, vec![9, 8, 7])));
    assert_eq!(parse_cyclic_datagram(&d[0..19]), None);
}

#[test]
fn tag_list_query_builds_nothing() {
    build_get_tag_list_query();
}
