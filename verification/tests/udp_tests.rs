use remotedesk::error::Error;
use remotedesk::udp::{
    build_stun_binding_request, decode_header, encode_frame, parse_stun_response, rand_transaction_id, StunAddress,
    UdpSequencer, FLAG_FRAGMENTED, FLAG_LAST_FRAGMENT, FLAG_RELIABLE, HEADER_SIZE, MAX_FRAGMENT_PAYLOAD,
};

#[test]
fn test_frame_encode_decode() {
    let data = b"hello";
    let frame = encode_frame(data, 42, 0, 1, false, false);
    assert_eq!(frame.len(), HEADER_SIZE + 5);

    let (seq, frag_id, frag_count, flags) = decode_header(&frame[..HEADER_SIZE]);
    assert_eq!(seq, 42);
    assert_eq!(frag_id, 0);
    assert_eq!(frag_count, 1);
    assert_eq!(flags, 0);
    assert_eq!(&frame[HEADER_SIZE..], b"hello");
}

#[test]
fn test_frame_fragmented() {
    let data = b"hello";
    let frame = encode_frame(data, 1, 0, 3, true, false);
    let (_, _, _, flags) = decode_header(&frame[..HEADER_SIZE]);
    assert!(flags & FLAG_FRAGMENTED != 0);
    assert!(flags & FLAG_RELIABLE != 0);
    assert!(flags & FLAG_LAST_FRAGMENT == 0);
}

#[test]
fn header_is_little_endian() {
    let frame = encode_frame(&[], 0x0403_0201, 0x0605, 0x0807, true, true);
    assert_eq!(frame, vec![1, 2, 3, 4, 5, 6, 7, 8, 0x07, 0x00]);
}

#[test]
fn single_datagram_roundtrip() {
    let mut sender = UdpSequencer::new();
    let mut receiver = UdpSequencer::new();
    let dgrams = sender.datagrams_for(b"ping", true);
    assert_eq!(dgrams.len(), 1);
    let (payload, reliable) = receiver.accept(&dgrams[0]).unwrap().unwrap();
    assert_eq!(payload, b"ping".to_vec());
    assert!(reliable);
    // The next message gets the next sequence number.
    let dgrams2 = sender.datagrams_for(b"pong", false);
    let (seq, _, _, flags) = decode_header(&dgrams2[0]);
    assert_eq!(seq, 1);
    assert_eq!(flags, 0);
}

#[test]
fn fragmented_message_reassembles() {
    let data: Vec<u8> = (0..3000u32).map(|i| (i % 251) as u8).collect();
    let mut sender = UdpSequencer::new();
    let dgrams = sender.datagrams_for(&data, false);
    assert_eq!(dgrams.len(), 3);
    let mut joined = Vec::new();
    for (i, d) in dgrams.iter().enumerate() {
        let (seq, frag_id, frag_count, flags) = decode_header(d);
        assert_eq!(seq, 0);
        assert_eq!(frag_id as usize, i);
        assert_eq!(frag_count, 3);
        assert!(flags & FLAG_FRAGMENTED != 0);
        assert_eq!(flags & FLAG_LAST_FRAGMENT != 0, i == 2);
        joined.extend_from_slice(&d[HEADER_SIZE..]);
    }
    assert_eq!(joined, data);
    assert_eq!(dgrams[0].len(), HEADER_SIZE + MAX_FRAGMENT_PAYLOAD);
}

#[test]
fn exact_payload_fits_one_datagram() {
    let data = vec![7u8; MAX_FRAGMENT_PAYLOAD];
    let mut sender = UdpSequencer::new();
    assert_eq!(sender.datagrams_for(&data, false).len(), 1);
    let data = vec![7u8; MAX_FRAGMENT_PAYLOAD + 1];
    assert_eq!(sender.datagrams_for(&data, false).len(), 2);
}

#[test]
fn short_datagram_is_refused() {
    let mut receiver = UdpSequencer::new();
    match receiver.accept(&[1, 2, 3]) {
        Err(Error::Network(m)) => assert_eq!(m, "UDP frame too short"),
        _ => panic!("expected an error"),
    }
}

#[test]
fn fragments_are_held_until_the_message_is_complete() {
    let mut receiver = UdpSequencer::new();
    let d = encode_frame(b"part", 9, 1, 2, false, true);
    assert_eq!(receiver.accept(&d).unwrap(), None);
    let d = encode_frame(b"first ", 9, 0, 2, false, false);
    let (payload, reliable) = receiver.accept(&d).unwrap().unwrap();
    assert_eq!(payload, b"first part".to_vec());
    assert!(!reliable);
}

#[test]
fn fragmented_message_is_delivered_whole() {
    let data: Vec<u8> = (0..5000u32).map(|i| (i % 253) as u8).collect();
    let mut sender = UdpSequencer::new();
    let mut receiver = UdpSequencer::new();
    let dgrams = sender.datagrams_for(&data, true);
    assert_eq!(dgrams.len(), 5);
    for d in &dgrams[..4] {
        assert_eq!(receiver.accept(d).unwrap(), None);
    }
    let (payload, reliable) = receiver.accept(&dgrams[4]).unwrap().unwrap();
    assert_eq!(payload, data);
    assert!(reliable);
}

#[test]
fn a_new_message_drops_an_unfinished_one() {
    let mut receiver = UdpSequencer::new();
    assert_eq!(receiver.accept(&encode_frame(b"a", 1, 0, 2, false, false)).unwrap(), None);
    assert_eq!(receiver.accept(&encode_frame(b"x", 2, 0, 2, false, false)).unwrap(), None);
    let (payload, _) = receiver.accept(&encode_frame(b"y", 2, 1, 2, false, true)).unwrap().unwrap();
    assert_eq!(payload, b"xy".to_vec());
    // The first message's fragment 0 was dropped: its fragment 1 alone is not enough.
    assert_eq!(receiver.accept(&encode_frame(b"b", 1, 1, 2, false, true)).unwrap(), None);
}

#[test]
fn fragment_index_out_of_range_is_refused() {
    let mut receiver = UdpSequencer::new();
    match receiver.accept(&encode_frame(b"z", 3, 2, 2, false, true)) {
        Err(Error::Network(m)) => assert_eq!(m, "UDP fragment index out of range"),
        _ => panic!("expected an error"),
    }
}

fn stun_response(attrs: &[u8]) -> Vec<u8> {
    let mut v = vec![0x01, 0x01, 0x00, attrs.len() as u8, 0x21, 0x12, 0xA4, 0x42];
    v.extend_from_slice(&[0u8; 12]);
    v.extend_from_slice(attrs);
    v
}

#[test]
fn stun_mapped_address() {
    let attrs = [0x00, 0x01, 0x00, 0x08, 0x00, 0x01, 0x1F, 0x90, 192, 168, 1, 7];
    let addr = parse_stun_response(&stun_response(&attrs)).unwrap();
    assert_eq!(addr, StunAddress { ip: [192, 168, 1, 7], port: 8080 });
}

#[test]
fn stun_xor_mapped_address() {
    // Port 8080 ^ 0x2112 = 0x3E82; 1.2.3.4 ^ 0x2112A442 = 0x2010A746.
    let attrs = [0x00, 0x20, 0x00, 0x08, 0x00, 0x01, 0x3E, 0x82, 0x20, 0x10, 0xA7, 0x46];
    let addr = parse_stun_response(&stun_response(&attrs)).unwrap();
    assert_eq!(addr, StunAddress { ip: [1, 2, 3, 4], port: 8080 });
}

#[test]
fn stun_skips_unknown_attributes_with_padding() {
    let attrs = [
        0x80, 0x22, 0x00, 0x03, b'a', b'b', b'c', 0x00, // SOFTWARE, 3 bytes + 1 padding
        0x00, 0x01, 0x00, 0x08, 0x00, 0x01, 0x00, 0x50, 10, 0, 0, 1,
    ];
    let addr = parse_stun_response(&stun_response(&attrs)).unwrap();
    assert_eq!(addr, StunAddress { ip: [10, 0, 0, 1], port: 80 });
}

fn stun_error_message(data: &[u8]) -> String {
    match parse_stun_response(data) {
        Err(Error::Network(m)) => m,
        other => panic!("unexpected {:?}", other),
    }
}

#[test]
fn stun_errors() {
    assert_eq!(stun_error_message(&[0u8; 10]), "STUN response too short");
    let mut wrong = stun_response(&[]);
    wrong[0] = 0x01;
    wrong[1] = 0x11;
    assert_eq!(stun_error_message(&wrong), "Unexpected STUN response type: 0x0111");
    let mut truncated = stun_response(&[]);
    truncated[3] = 8;
    assert_eq!(stun_error_message(&truncated), "STUN response truncated");
    assert_eq!(stun_error_message(&stun_response(&[])), "No MAPPED-ADDRESS in STUN response");
}

#[test]
fn stun_binding_request_layout() {
    let req = build_stun_binding_request(1, 0x1_0000_0005);
    assert_eq!(req.len(), 20);
    assert_eq!(&req[..8], &[0x00, 0x01, 0x00, 0x00, 0x21, 0x12, 0xA4, 0x42]);
    assert_eq!(&req[8..], &[1, 0, 0, 0, 0, 0, 0, 0, 5, 0, 0, 0]);
    assert_eq!(rand_transaction_id(0x0102, 0), [2, 1, 0, 0, 0, 0, 0, 0, 0, 0, 0, 0]);
}
