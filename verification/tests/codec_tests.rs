use remotedesk::codec::{negotiate_codec, supported_codecs, CompressedFrame, CompressionType, FrameDecoder, FrameEncoder};
use remotedesk::error::Error;

#[test]
fn codec_names() {
    assert_eq!(CompressionType::Zstd.name(), "zstd");
    assert_eq!(CompressionType::H264.name(), "H.264");
    assert_eq!(CompressionType::H265.name(), "H.265");
    assert_eq!(CompressionType::VP9.name(), "VP9");
    assert_eq!(CompressionType::Raw.name(), "raw");
    assert!(CompressionType::Zstd.is_intra_only());
    assert!(CompressionType::Raw.is_intra_only());
    assert!(!CompressionType::H264.is_intra_only());
}

#[test]
fn this_build_supports_zstd_and_raw() {
    assert_eq!(supported_codecs(), vec![CompressionType::Zstd, CompressionType::Raw]);
}

#[test]
fn negotiation_follows_host_preference() {
    let (zstd, h264, h265, raw) =
        (CompressionType::Zstd, CompressionType::H264, CompressionType::H265, CompressionType::Raw);
    assert_eq!(negotiate_codec(&[h264, zstd, raw], &[raw, zstd]), Some(zstd));
    assert_eq!(negotiate_codec(&[raw, zstd], &[zstd, raw]), Some(raw));
    assert_eq!(negotiate_codec(&[h264], &[h265]), None);
    assert_eq!(negotiate_codec(&[], &[zstd]), None);
}

#[test]
fn zstd_frame_roundtrip() {
    let data: Vec<u8> = (0..4096u32).map(|i| (i / 16) as u8).collect();
    let mut enc = FrameEncoder::new();
    let frame = enc.compress(&data, 32, 32).unwrap();
    assert_eq!(frame.compression, CompressionType::Zstd);
    assert_eq!(frame.sequence, 0);
    assert!(frame.key_frame);
    assert_ne!(frame.data, data);
    let mut dec = FrameDecoder::new();
    assert_eq!(dec.decompress(&frame).unwrap(), data);
    let frame2 = enc.compress(&data, 32, 32).unwrap();
    assert_eq!(frame2.sequence, 1);
}

#[test]
fn raw_frames_pass_through() {
    let mut enc = FrameEncoder::new().with_codec(CompressionType::Raw);
    assert_eq!(enc.codec(), CompressionType::Raw);
    let frame = enc.compress(&[1, 2, 3, 4], 1, 1).unwrap();
    assert_eq!(frame.compression, CompressionType::Raw);
    assert_eq!(frame.data, vec![1, 2, 3, 4]);
    assert_eq!(FrameDecoder::new().decompress(&frame).unwrap(), vec![1, 2, 3, 4]);
}

#[test]
fn native_codecs_fall_back_to_zstd() {
    for c in [CompressionType::H264, CompressionType::H265, CompressionType::VP9] {
        let mut enc = FrameEncoder::new().with_codec(c).with_zstd_level(50);
        let frame = enc.compress(b"abcabcabcabc", 3, 1).unwrap();
        assert_eq!(frame.compression, CompressionType::Zstd);
        assert_eq!(FrameDecoder::default().decompress(&frame).unwrap(), b"abcabcabcabc".to_vec());
    }
}

#[test]
fn decoder_refuses_native_codecs() {
    let frame = CompressedFrame {
        data: vec![],
        width: 1,
        height: 1,
        compression: CompressionType::H265,
        key_frame: true,
        sequence: 0,
    };
    match FrameDecoder::new().decompress(&frame) {
        Err(Error::Codec(m)) => assert_eq!(m, "Unsupported compression: H265"),
        _ => panic!("expected an error"),
    }
}

#[test]
fn decoder_reports_corrupt_zstd() {
    let frame = CompressedFrame {
        data: vec![1, 2, 3],
        width: 1,
        height: 1,
        compression: CompressionType::Zstd,
        key_frame: true,
        sequence: 0,
    };
    match FrameDecoder::new().decompress(&frame) {
        Err(Error::Codec(m)) => assert!(m.starts_with("Zstd decompression failed: ")),
        _ => panic!("expected an error"),
    }
    assert!(FrameDecoder::new().buffer().is_empty());
}

#[test]
fn decoder_checks_the_frame_size() {
    let mut enc = FrameEncoder::new();
    let frame = enc.compress(&[9u8; 12], 2, 2).unwrap();
    let mut dec = FrameDecoder::new();
    match dec.decompress(&frame) {
        Err(Error::Codec(m)) => assert_eq!(m, "Decompressed size mismatch: got 12, expected 16"),
        other => panic!("expected a size error, got {:?}", other),
    }
    assert!(dec.buffer().is_empty());
}

#[test]
fn decoder_keeps_the_last_frame() {
    let mut enc = FrameEncoder::new();
    let mut dec = FrameDecoder::new();
    let frame = enc.compress(&[1, 2, 3, 4, 5, 6, 7, 8], 2, 1).unwrap();
    assert_eq!(frame.sequence, 0);
    assert_eq!(dec.decompress(&frame).unwrap(), vec![1, 2, 3, 4, 5, 6, 7, 8]);
    assert_eq!(dec.buffer(), &[1, 2, 3, 4, 5, 6, 7, 8]);
}

#[test]
fn decoder_refuses_bytes_that_are_not_zstd() {
    let frame = CompressedFrame {
        data: vec![1, 2, 3],
        width: 1,
        height: 1,
        compression: CompressionType::Zstd,
        key_frame: true,
        sequence: 0,
    };
    match FrameDecoder::new().decompress(&frame) {
        Err(Error::Codec(m)) => assert!(m.starts_with("Zstd decompression failed: ")),
        other => panic!("expected a zstd error, got {:?}", other),
    }
}

#[test]
fn sequence_numbers_rise_by_one_over_a_run() {
    let mut enc = FrameEncoder::new().with_codec(CompressionType::H264);
    for k in 0..5u64 {
        let f = enc.compress(&[k as u8; 4], 1, 1).unwrap();
        assert_eq!(f.sequence, k);
        assert_eq!(enc.codec(), CompressionType::H264);
    }
}
