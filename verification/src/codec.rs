//! Video frame compression and codec negotiation.
//!
//! Frames are compressed with zstd (or passed through raw).  The codecs that
//! need native libraries (H.264, H.265, VP9) are not available in this build:
//! an encoder asked for one of them compresses with zstd instead.
use vstd::prelude::*;

use crate::error::{Error, join_message};
use crate::text::{decimal, spec_decimal};

verus! {

/// Supported compression algorithms.
#[derive(Debug, Clone, Copy, PartialEq, Eq, Structural, PartialOrd, Ord, Hash)]
pub enum CompressionType {
    Zstd,
    H264,
    H265,
    VP9,
    Raw,
}

/// Compressed frame ready for network transmission.
#[derive(Debug, Clone)]
pub struct CompressedFrame {
    /// Compressed data.
    pub data: Vec<u8>,
    /// Original width.
    pub width: u32,
    /// Original height.
    pub height: u32,
    /// Compression type identifier.
    pub compression: CompressionType,
    /// Whether this is a keyframe (always true for zstd).
    pub key_frame: bool,
    /// Sequence number for ordering.
    pub sequence: u64,
}

/// The human-readable name of a codec.
pub open spec fn spec_codec_name(c: CompressionType) -> Seq<char> {
    match c {
        CompressionType::Zstd => "zstd"@,
        CompressionType::H264 => "H.264"@,
        CompressionType::H265 => "H.265"@,
        CompressionType::VP9 => "VP9"@,
        CompressionType::Raw => "raw"@,
    }
}

/// The name of a codec as its `Debug` form prints it.
pub open spec fn spec_codec_debug_name(c: CompressionType) -> Seq<char> {
    match c {
        CompressionType::Zstd => "Zstd"@,
        CompressionType::H264 => "H264"@,
        CompressionType::H265 => "H265"@,
        CompressionType::VP9 => "VP9"@,
        CompressionType::Raw => "Raw"@,
    }
}

impl CompressionType {
    /// Human-readable name for logging.
    pub fn name(&self) -> (res: &'static str)
        ensures
            res@ == spec_codec_name(*self),
    {
        proof {
            reveal_strlit("zstd");
            reveal_strlit("H.264");
            reveal_strlit("H.265");
            reveal_strlit("VP9");
            reveal_strlit("raw");
        }
        match self {
            CompressionType::Zstd => "zstd",
            CompressionType::H264 => "H.264",
            CompressionType::H265 => "H.265",
            CompressionType::VP9 => "VP9",
            CompressionType::Raw => "raw",
        }
    }

    /// The variant's name, as `{:?}` prints it.
    pub fn debug_name(&self) -> (res: &'static str)
        ensures
            res@ == spec_codec_debug_name(*self),
    {
        match self {
            CompressionType::Zstd => "Zstd",
            CompressionType::H264 => "H264",
            CompressionType::H265 => "H265",
            CompressionType::VP9 => "VP9",
            CompressionType::Raw => "Raw",
        }
    }

    /// Returns true if this is a keyframe-only codec (no temporal compression).
    pub fn is_intra_only(&self) -> (res: bool)
        ensures
            res == (*self == CompressionType::Zstd || *self == CompressionType::Raw),
    {
        match self {
            CompressionType::Zstd | CompressionType::Raw => true,
            _ => false,
        }
    }
}

/// The codecs of this build, best first.
pub open spec fn spec_supported_codecs() -> Seq<CompressionType> {
    seq![CompressionType::Zstd, CompressionType::Raw]
}

/// Returns the list of codecs supported by this build, ordered by preference
/// (best first).  Without the native codec libraries these are zstd and raw.
pub fn supported_codecs() -> (res: Vec<CompressionType>)
    ensures
        res@ == spec_supported_codecs(),
{
    let mut codecs = Vec::new();
    codecs.push(CompressionType::Zstd);
    codecs.push(CompressionType::Raw);
    codecs
}

/// The first codec of `host` (in the host's order of preference) that
/// `client` also lists.
pub open spec fn spec_negotiate(host: Seq<CompressionType>, client: Seq<CompressionType>) -> Option<
    CompressionType,
>
    decreases host.len(),
{
    if host.len() == 0 {
        None
    } else if client.contains(host[0]) {
        Some(host[0])
    } else {
        spec_negotiate(host.drop_first(), client)
    }
}

fn contains_codec(list: &[CompressionType], c: CompressionType) -> (res: bool)
    ensures
        res == list@.contains(c),
{
    let mut i: usize = 0;
    while i < list.len()
        invariant
            i <= list.len(),
            forall|j: int| 0 <= j < i ==> list@[j] != c,
        decreases list.len() - i,
    {
        if list[i] == c {
            return true;
        }
        i = i + 1;
    }
    false
}

/// Negotiate the best codec from client and host supported sets.
/// Returns the first codec in `host_supported` that the client also supports;
/// `None` when they have none in common.
pub fn negotiate_codec(host_supported: &[CompressionType], client_supported: &[CompressionType]) -> (res:
    Option<CompressionType>)
    ensures
        res == spec_negotiate(host_supported@, client_supported@),
{
    let ghost host = host_supported@;
    let mut i: usize = 0;
    assert(host.skip(0) =~= host);
    while i < host_supported.len()
        invariant
            i <= host.len(),
            host == host_supported@,
            spec_negotiate(host, client_supported@) == spec_negotiate(host.skip(i as int), client_supported@),
        decreases host.len() - i,
    {
        assert(host.skip(i as int).drop_first() =~= host.skip(i + 1));
        if contains_codec(client_supported, host_supported[i]) {
            return Some(host_supported[i]);
        }
        i = i + 1;
    }
    // Fallback: both sides must support zstd.
    if contains_codec(host_supported, CompressionType::Zstd) && contains_codec(
        client_supported,
        CompressionType::Zstd,
    ) {
        proof {
            lemma_negotiate_finds_common(host, client_supported@, CompressionType::Zstd);
        }
        return Some(CompressionType::Zstd);
    }
    None
}

/// When some codec is listed by both sides, negotiation succeeds.
proof fn lemma_negotiate_finds_common(host: Seq<CompressionType>, client: Seq<CompressionType>, c: CompressionType)
    requires
        host.contains(c),
        client.contains(c),
    ensures
        spec_negotiate(host, client) is Some,
    decreases host.len(),
{
    if !client.contains(host[0]) {
        let k = choose|k: int| 0 <= k < host.len() && host[k] == c;
        assert(host.drop_first()[k - 1] == c);
        lemma_negotiate_finds_common(host.drop_first(), client, c);
    }
}

/// Negotiation picks a codec that both sides support, and it succeeds
/// whenever the two sides have a codec in common.
pub proof fn law_negotiated_codec_is_common(host: Seq<CompressionType>, client: Seq<CompressionType>)
    ensures
        spec_negotiate(host, client) matches Some(c) ==> host.contains(c) && client.contains(c),
        (exists|c: CompressionType| host.contains(c) && client.contains(c)) ==> spec_negotiate(host, client) is Some,
    decreases host.len(),
{
    if host.len() > 0 && !client.contains(host[0]) {
        law_negotiated_codec_is_common(host.drop_first(), client);
        if let Some(c) = spec_negotiate(host, client) {
            let k = choose|k: int| 0 <= k < host.drop_first().len() && host.drop_first()[k] == c;
            assert(host[k + 1] == c);
        }
    }
    if exists|c: CompressionType| host.contains(c) && client.contains(c) {
        let c = choose|c: CompressionType| host.contains(c) && client.contains(c);
        lemma_negotiate_finds_common(host, client, c);
    }
}


/// The bytes that `zstd::encode_all` produces for `data` at `level`.
pub uninterp spec fn zstd_encoded(data: Seq<u8>, level: i32) -> Seq<u8>;

/// Compresses `data` with `zstd::encode_all` at `level`.
///
/// The output is the zstd frame named `zstd_encoded(data, level)`.  The call
/// succeeds: zstd clamps any level into its bounds, reading a slice and
/// writing into a `Vec` cannot fail, and compressing in memory fails only
/// when memory runs out.
#[verifier::external_body]
fn zstd_encode_all(data: &[u8], level: i32) -> (res: Result<Vec<u8>, std::io::Error>)
    ensures
        res is Ok,
        res matches Ok(v) ==> v@ == zstd_encoded(data@, level),
{
    zstd::encode_all(data, level)
}

/// What `zstd::decode_all` gives for `data`: the decoded bytes, or `None`
/// when it refuses the input.
pub uninterp spec fn zstd_decoded(data: Seq<u8>) -> Option<Seq<u8>>;

/// Decompresses with `zstd::decode_all`.
///
/// The outcome is named `zstd_decoded(data)`.  Decoding what `encode_all`
/// produced gives back the original bytes; the second clause states that
/// for every frame of the form `zstd_encoded(d, l)`.
#[verifier::external_body]
fn zstd_decode_all(data: &[u8]) -> (res: Result<Vec<u8>, std::io::Error>)
    ensures
        match res {
            Ok(v) => zstd_decoded(data@) == Some(v@),
            Err(_) => zstd_decoded(data@) is None,
        },
        forall|d: Seq<u8>, l: i32| data@ == #[trigger] zstd_encoded(d, l) ==> res.is_ok() && res.unwrap()@ == d,
{
    zstd::decode_all(data)
}

/// Compresses raw BGRA frames.
///
/// zstd is always available; a request for H.264, H.265 or VP9 falls back to
/// zstd in this build.
pub struct FrameEncoder {
    /// Currently active codec.
    codec: CompressionType,
    /// zstd compression level (1-22, default 3 for speed).
    zstd_level: i32,
    /// Frame sequence counter.
    sequence: u64,
}

impl FrameEncoder {
    /// The active codec.
    pub closed spec fn spec_codec(&self) -> CompressionType {
        self.codec
    }

    /// The zstd level.
    pub closed spec fn spec_level(&self) -> i32 {
        self.zstd_level
    }

    /// The sequence number that the next frame gets.
    pub closed spec fn spec_sequence(&self) -> u64 {
        self.sequence
    }

    /// Create a new encoder with the default codec (zstd), level 3.
    pub fn new() -> (res: Self)
        ensures
            res.spec_codec() == CompressionType::Zstd,
            res.spec_level() == 3,
            res.spec_sequence() == 0,
    {
        FrameEncoder { codec: CompressionType::Zstd, zstd_level: 3, sequence: 0 }
    }

    /// Select the codec to use for compression.
    pub fn with_codec(self, codec: CompressionType) -> (res: Self)
        ensures
            res.spec_codec() == codec,
            res.spec_level() == self.spec_level(),
            res.spec_sequence() == self.spec_sequence(),
    {
        let mut s = self;
        s.codec = codec;
        s
    }

    /// Set the zstd compression level, clamped to 1..=22.
    pub fn with_zstd_level(self, level: i32) -> (res: Self)
        ensures
            res.spec_level() == (if level < 1 {
                1
            } else if level > 22 {
                22
            } else {
                level
            }),
            res.spec_codec() == self.spec_codec(),
            res.spec_sequence() == self.spec_sequence(),
    {
        let mut s = self;
        s.zstd_level = if level < 1 {
            1
        } else if level > 22 {
            22
        } else {
            level
        };
        s
    }

    /// Returns the active codec.
    pub fn codec(&self) -> (res: CompressionType)
        ensures
            res == self.spec_codec(),
    {
        self.codec
    }

    /// Compress a raw BGRA frame.
    ///
    /// The frame gets the encoder's current sequence number, which then
    /// advances (wrapping).  A raw encoder passes the bytes through; every
    /// other codec compresses with zstd at the encoder's level.
    pub fn compress(&mut self, data: &[u8], width: u32, height: u32) -> (res: Result<CompressedFrame, Error>)
        ensures
            spec_compress_step(*old(self), *final(self)),
            final(self).spec_codec() == old(self).spec_codec(),
            final(self).spec_level() == old(self).spec_level(),
            final(self).spec_sequence() == (if old(self).spec_sequence() == u64::MAX {
                0
            } else {
                (old(self).spec_sequence() + 1) as u64
            }),
            res is Ok,
            res matches Ok(f) ==> {
                &&& f.width == width
                &&& f.height == height
                &&& f.key_frame
                &&& f.sequence == old(self).spec_sequence()
                &&& if old(self).spec_codec() == CompressionType::Raw {
                    f.compression == CompressionType::Raw && f.data@ == data@
                } else {
                    f.compression == CompressionType::Zstd && f.data@ == zstd_encoded(
                        data@,
                        old(self).spec_level(),
                    )
                }
            },
    {
        let seq = self.sequence;
        self.sequence = self.sequence.wrapping_add(1);
        // The native codecs are not part of this build: H.264, H.265 and VP9
        // fall back to zstd.
        self.compress_zstd(data, width, height, seq)
    }

    /// zstd compression (always available); raw passthrough for `Raw`.
    fn compress_zstd(&self, data: &[u8], width: u32, height: u32, seq: u64) -> (res: Result<
        CompressedFrame,
        Error,
    >)
        ensures
            res is Ok,
            res matches Ok(f) ==> {
                &&& f.width == width
                &&& f.height == height
                &&& f.key_frame
                &&& f.sequence == seq
                &&& if self.codec == CompressionType::Raw {
                    f.compression == CompressionType::Raw && f.data@ == data@
                } else {
                    f.compression == CompressionType::Zstd && f.data@ == zstd_encoded(data@, self.zstd_level)
                }
            },
    {
        if self.codec == CompressionType::Raw {
            return Ok(
                CompressedFrame {
                    data: vstd::slice::slice_to_vec(data),
                    width,
                    height,
                    compression: CompressionType::Raw,
                    key_frame: true,
                    sequence: seq,
                },
            );
        }
        match zstd_encode_all(data, self.zstd_level) {
            Ok(compressed) => Ok(
                CompressedFrame {
                    data: compressed,
                    width,
                    height,
                    compression: CompressionType::Zstd,
                    key_frame: true,
                    sequence: seq,
                },
            ),
            Err(e) => {
                let msg = e.to_string();
                let full = join_message("Zstd compression failed: ", msg.as_str());
                proof {
                    reveal_strlit("Zstd compression failed: ");
                }
                Err(Error::Codec(full))
            },
        }
    }
}

/// Decompresses frames received from the network.
pub struct FrameDecoder {
    /// The most recently decompressed frame.
    buffer: Vec<u8>,
}

/// What decompressing `frame` yields, given the outcome of the zstd call for
/// zstd frames.
pub open spec fn spec_decompress_ok(frame: CompressedFrame, out: Seq<u8>) -> bool {
    match frame.compression {
        CompressionType::Raw => out == frame.data@,
        CompressionType::Zstd => forall|d: Seq<u8>, l: i32|
            #![trigger zstd_encoded(d, l)]
            frame.data@ == zstd_encoded(d, l) ==> out == d,
        _ => false,
    }
}

/// The size in bytes of a `width` x `height` frame of 4-byte pixels.
pub open spec fn spec_frame_bytes(width: u32, height: u32) -> nat {
    width as nat * height as nat * 4
}

/// The bytes that decompressing `frame` gives, or `None` when it is
/// refused: raw frames come back as they are; a zstd frame gives what zstd
/// decodes, provided that is exactly `width * height * 4` bytes; the other
/// codecs are refused.
pub open spec fn spec_decompressed(frame: CompressedFrame) -> Option<Seq<u8>> {
    match frame.compression {
        CompressionType::Raw => Some(frame.data@),
        CompressionType::Zstd => match zstd_decoded(frame.data@) {
            Some(v) => if v.len() == spec_frame_bytes(frame.width, frame.height) {
                Some(v)
            } else {
                None
            },
            None => None,
        },
        _ => None,
    }
}

/// The message of a size check that failed.
pub open spec fn spec_size_mismatch_message(got: nat, expected: nat) -> Seq<char> {
    "Decompressed size mismatch: got "@ + spec_decimal(got) + ", expected "@ + spec_decimal(expected)
}

impl FrameDecoder {
    /// The contents of the internal buffer.
    pub closed spec fn spec_buffer(&self) -> Seq<u8> {
        self.buffer@
    }

    /// A decoder with an empty buffer.
    pub fn new() -> (res: Self)
        ensures
            res.spec_buffer() == Seq::<u8>::empty(),
    {
        FrameDecoder { buffer: Vec::new() }
    }

    /// Decompress a frame back to raw BGRA, checking its size.
    ///
    /// Raw frames are returned as they are.  A zstd frame is decoded and must
    /// come to `width * height * 4` bytes; a zstd frame produced by
    /// `FrameEncoder::compress` from a frame of that size decompresses to the
    /// bytes that were compressed.  H.264, H.265 and VP9 frames are refused.
    /// The decompressed bytes are kept in the buffer.
    pub fn decompress(&mut self, frame: &CompressedFrame) -> (res: Result<Vec<u8>, Error>)
        ensures
            res is Ok <==> spec_decompressed(*frame) is Some,
            res matches Ok(v) ==> v@ == spec_decompressed(*frame)->Some_0 && spec_decompress_ok(*frame, v@)
                && final(self).spec_buffer() == v@,
            res is Err ==> final(self).spec_buffer() == old(self).spec_buffer(),
            (frame.compression == CompressionType::Zstd && exists|d: Seq<u8>, l: i32|
                frame.data@ == zstd_encoded(d, l) && d.len() == spec_frame_bytes(frame.width, frame.height))
                ==> res is Ok,
            frame.compression != CompressionType::Raw && frame.compression != CompressionType::Zstd ==> (
            res matches Err(e) && e matches Error::Codec(m) && m@ == "Unsupported compression: "@
                + spec_codec_debug_name(frame.compression)),
            (frame.compression == CompressionType::Zstd && zstd_decoded(frame.data@) is None) ==> (res matches Err(e)
                && e matches Error::Codec(m) && "Zstd decompression failed: "@.is_prefix_of(m@)),
            (frame.compression == CompressionType::Zstd && zstd_decoded(frame.data@) is Some
                && zstd_decoded(frame.data@)->Some_0.len() != spec_frame_bytes(frame.width, frame.height)) ==> (
            res matches Err(e) && e matches Error::Codec(m) && m@ == spec_size_mismatch_message(
                zstd_decoded(frame.data@)->Some_0.len(),
                spec_frame_bytes(frame.width, frame.height),
            )),
    {
        proof {
            reveal_strlit("Zstd decompression failed: ");
            reveal_strlit("Unsupported compression: ");
            reveal_strlit("Decompressed size mismatch: got ");
            reveal_strlit(", expected ");
        }
        match frame.compression {
            CompressionType::Zstd => {
                match zstd_decode_all(frame.data.as_slice()) {
                    Ok(v) => {
                        let w: u128 = frame.width as u128;
                        let h: u128 = frame.height as u128;
                        assert(w * h * 4 <= 0xffff_ffff_ffff_ffff_ffff_ffff_ffff_ffff) by (nonlinear_arith)
                            requires
                                w <= 0xffff_ffff,
                                h <= 0xffff_ffff,
                        {
                        }
                        let expected: u128 = w * h * 4;
                        let got: u128 = v.len() as u128;
                        if got != expected {
                            let m = join_message("Decompressed size mismatch: got ", decimal(got).as_str());
                            let m = m.concat(", expected ");
                            let m = m.concat(decimal(expected).as_str());
                            return Err(Error::Codec(m));
                        }
                        self.buffer = v.clone();
                        Ok(v)
                    },
                    Err(e) => {
                        let msg = e.to_string();
                        Err(Error::Codec(join_message("Zstd decompression failed: ", msg.as_str())))
                    },
                }
            },
            CompressionType::Raw => {
                self.buffer = frame.data.clone();
                Ok(frame.data.clone())
            },
            other => Err(Error::Codec(join_message("Unsupported compression: ", other.debug_name()))),
        }
    }

    /// The most recently decompressed frame (empty before the first).
    pub fn buffer(&self) -> (res: &[u8])
        ensures
            res@ == self.spec_buffer(),
    {
        self.buffer.as_slice()
    }
}

impl Default for FrameEncoder {
    fn default() -> (res: Self)
        ensures
            res.spec_codec() == CompressionType::Zstd,
            res.spec_level() == 3,
            res.spec_sequence() == 0,
    {
        FrameEncoder::new()
    }
}

impl Default for FrameDecoder {
    fn default() -> (res: Self)
        ensures
            res.spec_buffer() == Seq::<u8>::empty(),
    {
        FrameDecoder::new()
    }
}

/// What one call of `compress` does to an encoder: the codec and the level
/// stay, and the sequence number advances by one (wrapping).
pub open spec fn spec_compress_step(before: FrameEncoder, after: FrameEncoder) -> bool {
    &&& after.spec_codec() == before.spec_codec()
    &&& after.spec_level() == before.spec_level()
    &&& after.spec_sequence() == (before.spec_sequence() + 1) % 0x1_0000_0000_0000_0000
}

/// Over a run of `compress` calls (successive states `run[0]`, `run[1]`,
/// ...), the encoder keeps its codec and level, and the `k`-th call gives
/// its frame sequence number `run[0]`'s plus `k` (wrapping): numbers rise
/// by one per call.
pub proof fn law_compress_run(run: Seq<FrameEncoder>)
    requires
        run.len() > 0,
        forall|i: int| 0 <= i < run.len() - 1 ==> spec_compress_step(#[trigger] run[i], run[i + 1]),
    ensures
        forall|k: int|
            0 <= k < run.len() ==> {
                &&& (#[trigger] run[k]).spec_codec() == run[0].spec_codec()
                &&& run[k].spec_level() == run[0].spec_level()
                &&& run[k].spec_sequence() == (run[0].spec_sequence() + k) % 0x1_0000_0000_0000_0000
            },
    decreases run.len(),
{
    if run.len() > 1 {
        let prefix = run.drop_last();
        assert forall|i: int| 0 <= i < prefix.len() - 1 implies spec_compress_step(#[trigger] prefix[i], prefix[i + 1]) by {
            assert(spec_compress_step(run[i], run[i + 1]));
        }
        law_compress_run(prefix);
        assert forall|k: int| 0 <= k < run.len() implies {
            &&& (#[trigger] run[k]).spec_codec() == run[0].spec_codec()
            &&& run[k].spec_level() == run[0].spec_level()
            &&& run[k].spec_sequence() == (run[0].spec_sequence() + k) % 0x1_0000_0000_0000_0000
        } by {
            if k < run.len() - 1 {
                assert(prefix[k] == run[k]);
            } else {
                assert(prefix[k - 1] == run[k - 1]);
                assert(spec_compress_step(run[k - 1], run[k]));
                assert(((run[0].spec_sequence() + k - 1) % 0x1_0000_0000_0000_0000 + 1) % 0x1_0000_0000_0000_0000
                    == (run[0].spec_sequence() + k) % 0x1_0000_0000_0000_0000) by (nonlinear_arith)
                    requires
                        k >= 1,
                        run[0].spec_sequence() >= 0,
                {
                }
            }
        }
    }
}

/// A frame that an encoder produced decompresses to the bytes it was given.
pub proof fn law_compress_then_decompress(
    codec: CompressionType,
    level: i32,
    data: Seq<u8>,
    frame: CompressedFrame,
    out: Seq<u8>,
)
    requires
        codec == CompressionType::Raw ==> (frame.compression == CompressionType::Raw && frame.data@ == data),
        codec != CompressionType::Raw ==> (frame.compression == CompressionType::Zstd && frame.data@
            == zstd_encoded(data, level)),
        spec_decompress_ok(frame, out),
    ensures
        out == data,
{
}

} // verus!
