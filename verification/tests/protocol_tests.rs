use remotedesk::error::Error;
use remotedesk::protocol::{chunk_offset, decode_length_prefix, encode_message_frame, file_chunks, MAX_MESSAGE_LEN};

#[test]
fn message_frame_roundtrip() {
    let payload = vec![9u8; 300];
    let frame = encode_message_frame(&payload);
    assert_eq!(&frame[..4], &[44, 1, 0, 0]);
    let len = decode_length_prefix([frame[0], frame[1], frame[2], frame[3]]).unwrap();
    assert_eq!(len, 300);
    assert_eq!(&frame[4..], &payload[..]);
}

#[test]
fn oversized_message_refused() {
    assert_eq!(decode_length_prefix([0, 0, 0x40, 0x06]), Ok(MAX_MESSAGE_LEN));
    match decode_length_prefix([1, 0, 0x40, 0x06]) {
        Err(Error::Network(m)) => assert_eq!(m, "Message too large: 104857601 bytes"),
        other => panic!("unexpected {:?}", other),
    }
}

#[test]
fn file_chunks_cover_the_file() {
    let data: Vec<u8> = (0..150_000u32).map(|i| (i % 7) as u8).collect();
    let chunks = file_chunks(&data);
    assert_eq!(chunks.len(), 3);
    let mut rebuilt = vec![0u8; data.len()];
    for (index, chunk) in &chunks {
        let off = chunk_offset(*index) as usize;
        rebuilt[off..off + chunk.len()].copy_from_slice(chunk);
    }
    assert_eq!(rebuilt, data);
    assert_eq!(chunks[2].1.len(), 150_000 - 2 * 65536);
    assert!(file_chunks(&[]).is_empty());
    assert_eq!(chunk_offset(3), 196608);
}
