//! UDP framing for NAT traversal, and the STUN client's wire format.
//!
//! Every datagram starts with a 10-byte header: the message sequence number
//! (`u32`), the fragment index and the fragment count (`u16` each) and the
//! flags (`u16`), all little-endian, followed by the payload.  Messages longer
//! than one datagram's payload are split into fragments that share a
//! sequence number; the receiver holds the fragments of a message until all
//! of them are in, and then delivers the whole message.
use vstd::prelude::*;

use crate::bytes::{from_be16, from_be32, read_be16, read_be32, le64, push_le64, le16, le32, from_le16, from_le32, lemma_le16_roundtrip, lemma_le32_roundtrip, push_all, push_le16, push_le32, read_le16, read_le32};
use crate::error::{Error, join_message, network_error};
use crate::text::{hex4, spec_hex4};

verus! {

/// Maximum UDP payload size (conservative to avoid IP fragmentation).
pub const MAX_UDP_PAYLOAD: usize = 1200;

/// Header size: 4 bytes seq + 2 bytes fragment_id + 2 bytes fragment_count + 2 bytes flags.
pub const HEADER_SIZE: usize = 10;

/// The largest payload that fits in one datagram.
pub const MAX_FRAGMENT_PAYLOAD: usize = 1190;

/// The message is split over several datagrams.
pub const FLAG_FRAGMENTED: u16 = 0x01;

/// This datagram carries the last fragment.
pub const FLAG_LAST_FRAGMENT: u16 = 0x02;

/// The sender asks for reliable delivery.
pub const FLAG_RELIABLE: u16 = 0x04;

/// Acknowledgement flag (reserved).
pub const FLAG_ACK: u16 = 0x08;

/// A framed UDP message ready for send or received.
#[derive(Debug, Clone)]
pub struct UdpFrame {
    pub sequence: u32,
    pub data: Vec<u8>,
    pub reliable: bool,
}

/// The flags word of a datagram.
pub open spec fn spec_flags(frag_count: u16, reliable: bool, last: bool) -> u16 {
    ((if frag_count > 1 { 1int } else { 0int }) + (if last { 2int } else { 0int }) + (if reliable {
        4int
    } else {
        0int
    })) as u16
}

/// The header of a datagram.
pub open spec fn spec_header(seq: u32, frag_id: u16, frag_count: u16, flags: u16) -> Seq<u8> {
    le32(seq) + le16(frag_id) + le16(frag_count) + le16(flags)
}

/// A whole datagram: header then payload.
pub open spec fn spec_encode_frame(
    data: Seq<u8>,
    seq: u32,
    frag_id: u16,
    frag_count: u16,
    reliable: bool,
    last: bool,
) -> Seq<u8> {
    spec_header(seq, frag_id, frag_count, spec_flags(frag_count, reliable, last)) + data
}

/// The header fields that `decode_header` reads from `h`.
pub open spec fn spec_decode_header(h: Seq<u8>) -> (u32, u16, u16, u16) {
    (from_le32(h[0], h[1], h[2], h[3]), from_le16(h[4], h[5]), from_le16(h[6], h[7]), from_le16(h[8], h[9]))
}

/// Encode a frame with header.
pub fn encode_frame(data: &[u8], seq: u32, frag_id: u16, frag_count: u16, reliable: bool, last: bool) -> (res: Vec<u8>)
    ensures
        res@ == spec_encode_frame(data@, seq, frag_id, frag_count, reliable, last),
{
    let mut flags: u16 = 0;
    if frag_count > 1 {
        flags = flags + FLAG_FRAGMENTED;
    }
    if last {
        flags = flags + FLAG_LAST_FRAGMENT;
    }
    if reliable {
        flags = flags + FLAG_RELIABLE;
    }
    let mut frame: Vec<u8> = Vec::new();
    push_le32(&mut frame, seq);
    push_le16(&mut frame, frag_id);
    push_le16(&mut frame, frag_count);
    push_le16(&mut frame, flags);
    push_all(&mut frame, data);
    frame
}

/// Decode header fields `(seq, frag_id, frag_count, flags)` from raw bytes.
pub fn decode_header(header: &[u8]) -> (res: (u32, u16, u16, u16))
    requires
        header@.len() >= HEADER_SIZE,
    ensures
        res == spec_decode_header(header@),
{
    let seq = read_le32(header[0], header[1], header[2], header[3]);
    let frag_id = read_le16(header[4], header[5]);
    let frag_count = read_le16(header[6], header[7]);
    let flags = read_le16(header[8], header[9]);
    (seq, frag_id, frag_count, flags)
}

/// Decoding the header of an encoded datagram gives back the fields it was
/// encoded with.
pub proof fn law_header_roundtrip(data: Seq<u8>, seq: u32, frag_id: u16, frag_count: u16, reliable: bool, last: bool)
    ensures
        spec_encode_frame(data, seq, frag_id, frag_count, reliable, last).len() == HEADER_SIZE + data.len(),
        spec_decode_header(spec_encode_frame(data, seq, frag_id, frag_count, reliable, last)) == (
            seq,
            frag_id,
            frag_count,
            spec_flags(frag_count, reliable, last),
        ),
        spec_encode_frame(data, seq, frag_id, frag_count, reliable, last).subrange(
            HEADER_SIZE as int,
            HEADER_SIZE + data.len(),
        ) == data,
{
    let f = spec_encode_frame(data, seq, frag_id, frag_count, reliable, last);
    lemma_le32_roundtrip(seq);
    lemma_le16_roundtrip(frag_id);
    lemma_le16_roundtrip(frag_count);
    lemma_le16_roundtrip(spec_flags(frag_count, reliable, last));
    assert(f.subrange(HEADER_SIZE as int, HEADER_SIZE + data.len()) =~= data);
}

/// The flag bits of a datagram say whether it is a fragment, whether it is
/// the last one and whether delivery is reliable.
pub proof fn law_flag_bits(frag_count: u16, reliable: bool, last: bool)
    ensures
        (spec_flags(frag_count, reliable, last) & FLAG_FRAGMENTED != 0) == (frag_count > 1),
        (spec_flags(frag_count, reliable, last) & FLAG_LAST_FRAGMENT != 0) == last,
        (spec_flags(frag_count, reliable, last) & FLAG_RELIABLE != 0) == reliable,
{
    let a: u16 = if frag_count > 1 { 1 } else { 0 };
    let b: u16 = if last { 2 } else { 0 };
    let c: u16 = if reliable { 4 } else { 0 };
    assert(spec_flags(frag_count, reliable, last) == a + b + c);
    assert((a == 0 || a == 1) && (b == 0 || b == 2) && (c == 0 || c == 4) ==> {
        &&& ((a + b + c) as u16 & 1u16 != 0) == (a == 1)
        &&& ((a + b + c) as u16 & 2u16 != 0) == (b == 2)
        &&& ((a + b + c) as u16 & 4u16 != 0) == (c == 4)
    }) by (bit_vector);
}

/// The number of fragments a message of `len` bytes is split into.
pub open spec fn spec_fragment_count(len: nat) -> nat {
    if len <= MAX_FRAGMENT_PAYLOAD {
        1
    } else {
        ((len + MAX_FRAGMENT_PAYLOAD - 1) / (MAX_FRAGMENT_PAYLOAD as int)) as nat
    }
}

/// The `i`-th fragment's payload.
pub open spec fn spec_fragment(data: Seq<u8>, i: int) -> Seq<u8> {
    let start = i * MAX_FRAGMENT_PAYLOAD;
    let end = if (i + 1) * MAX_FRAGMENT_PAYLOAD < data.len() {
        (i + 1) * MAX_FRAGMENT_PAYLOAD
    } else {
        data.len() as int
    };
    data.subrange(start, end)
}

/// The datagrams that carry `data` as message number `seq`.
///
/// A message that fits in one datagram is sent unfragmented (index 0 of 1).
/// A longer one is cut into 1190-byte fragments; the fragment index and count
/// are written modulo 2^16, as `u16` casts write them.
pub open spec fn spec_datagrams(data: Seq<u8>, seq: u32, reliable: bool) -> Seq<Seq<u8>> {
    if data.len() <= MAX_FRAGMENT_PAYLOAD {
        seq![spec_encode_frame(data, seq, 0, 1, reliable, false)]
    } else {
        let n = spec_fragment_count(data.len());
        let total = (n % 65536) as u16;
        Seq::new(
            n,
            |i: int|
                spec_encode_frame(
                    spec_fragment(data, i),
                    seq,
                    (i % 65536) as u16,
                    total,
                    reliable,
                    i == total - 1,
                ),
        )
    }
}

/// A message being reassembled: its sequence number and, for each fragment
/// index, the payload received so far.
pub struct PartialMessage {
    pub seq: u32,
    pub parts: Seq<Option<Seq<u8>>>,
}

/// The number of fragments still missing.
pub open spec fn spec_missing(parts: Seq<Option<Seq<u8>>>) -> nat
    decreases parts.len(),
{
    if parts.len() == 0 {
        0
    } else {
        spec_missing(parts.drop_last()) + if parts.last() is None {
            1nat
        } else {
            0nat
        }
    }
}

/// The received fragment payloads, joined in index order.
pub open spec fn spec_join_parts(parts: Seq<Option<Seq<u8>>>) -> Seq<u8>
    decreases parts.len(),
{
    if parts.len() == 0 {
        Seq::empty()
    } else {
        spec_join_parts(parts.drop_last()) + match parts.last() {
            Some(x) => x,
            None => Seq::empty(),
        }
    }
}

/// Storing fragment `index` of `count` of message `seq`: a partial message
/// of another sequence number or fragment count is dropped and a new one
/// started; once no fragment is missing the joined message is delivered and
/// nothing stays pending.
pub open spec fn spec_store_fragment(
    pending: Option<PartialMessage>,
    seq: u32,
    index: u16,
    count: u16,
    payload: Seq<u8>,
) -> (Option<PartialMessage>, Option<Seq<u8>>) {
    let base = match pending {
        Some(p) => if p.seq == seq && p.parts.len() == count {
            p.parts
        } else {
            Seq::new(count as nat, |_i: int| None::<Seq<u8>>)
        },
        None => Seq::new(count as nat, |_i: int| None::<Seq<u8>>),
    };
    let parts = base.update(index as int, Some(payload));
    if spec_missing(parts) == 0 {
        (None, Some(spec_join_parts(parts)))
    } else {
        (Some(PartialMessage { seq, parts }), None)
    }
}

/// What receiving `datagram` does: `(pending message, delivered message)`.
/// A datagram shorter than the header, or a fragment whose index is not
/// below its count, delivers nothing and changes nothing; an unfragmented
/// datagram delivers its payload; a fragment is stored.
pub open spec fn spec_accept_datagram(pending: Option<PartialMessage>, datagram: Seq<u8>) -> (
    Option<PartialMessage>,
    Option<Seq<u8>>,
) {
    if datagram.len() < HEADER_SIZE {
        (pending, None)
    } else {
        let (seq, index, count, flags) = spec_decode_header(datagram);
        let payload = datagram.subrange(HEADER_SIZE as int, datagram.len() as int);
        if flags & FLAG_FRAGMENTED == 0 {
            (pending, Some(payload))
        } else if index >= count {
            (pending, None)
        } else {
            spec_store_fragment(pending, seq, index, count, payload)
        }
    }
}

/// Receiving `datagrams` in order: the pending message afterwards and the
/// messages delivered, in order.
pub open spec fn spec_receive(pending: Option<PartialMessage>, datagrams: Seq<Seq<u8>>) -> (
    Option<PartialMessage>,
    Seq<Seq<u8>>,
)
    decreases datagrams.len(),
{
    if datagrams.len() == 0 {
        (pending, Seq::empty())
    } else {
        let (p, out) = spec_receive(pending, datagrams.drop_last());
        let (p2, m) = spec_accept_datagram(p, datagrams.last());
        (
            p2,
            match m {
                Some(x) => out.push(x),
                None => out,
            },
        )
    }
}

proof fn lemma_missing_update(parts: Seq<Option<Seq<u8>>>, i: int, x: Seq<u8>)
    requires
        0 <= i < parts.len(),
    ensures
        spec_missing(parts.update(i, Some(x))) + (if parts[i] is None {
            1int
        } else {
            0int
        }) == spec_missing(parts),
    decreases parts.len(),
{
    let u = parts.update(i, Some(x));
    if i == parts.len() - 1 {
        assert(u.drop_last() =~= parts.drop_last());
    } else {
        assert(u.drop_last() =~= parts.drop_last().update(i, Some(x)));
        lemma_missing_update(parts.drop_last(), i, x);
    }
}

proof fn lemma_missing_all(n: nat)
    ensures
        spec_missing(Seq::new(n, |_i: int| None::<Seq<u8>>)) == n,
    decreases n,
{
    if n > 0 {
        assert(Seq::new(n, |_i: int| None::<Seq<u8>>).drop_last() =~= Seq::new(
            (n - 1) as nat,
            |_i: int| None::<Seq<u8>>,
        ));
        lemma_missing_all((n - 1) as nat);
    }
}

proof fn lemma_missing_none(parts: Seq<Option<Seq<u8>>>)
    requires
        spec_missing(parts) == 0,
    ensures
        forall|i: int| 0 <= i < parts.len() ==> #[trigger] parts[i] is Some,
    decreases parts.len(),
{
    if parts.len() > 0 {
        lemma_missing_none(parts.drop_last());
        assert forall|i: int| 0 <= i < parts.len() implies #[trigger] parts[i] is Some by {
            if i < parts.len() - 1 {
                assert(parts.drop_last()[i] == parts[i]);
            }
        }
    }
}

/// The payload views of fragment slots.
pub open spec fn spec_parts(v: Seq<Option<Vec<u8>>>) -> Seq<Option<Seq<u8>>> {
    Seq::new(
        v.len(),
        |i: int|
            match v[i] {
                Some(x) => Some(x@),
                None => None,
            },
    )
}

/// A message being reassembled, with the number of fragments still missing.
struct Reassembly {
    seq: u32,
    parts: Vec<Option<Vec<u8>>>,
    missing: usize,
}

impl Reassembly {
    spec fn view_message(&self) -> PartialMessage {
        PartialMessage { seq: self.seq, parts: spec_parts(self.parts@) }
    }

    spec fn wf(&self) -> bool {
        &&& self.missing == spec_missing(spec_parts(self.parts@))
        &&& self.missing > 0
    }

    fn empty(seq: u32, count: u16) -> (res: Self)
        requires
            count > 0,
        ensures
            res.wf(),
            res.view_message() == (PartialMessage {
                seq,
                parts: Seq::new(count as nat, |_i: int| None::<Seq<u8>>),
            }),
    {
        let mut parts: Vec<Option<Vec<u8>>> = Vec::new();
        let mut k: u16 = 0;
        while k < count
            invariant
                k <= count,
                parts@.len() == k,
                forall|i: int| 0 <= i < k ==> #[trigger] parts@[i] is None,
            decreases count - k,
        {
            parts.push(None);
            k = k + 1;
        }
        proof {
            assert(spec_parts(parts@) =~= Seq::new(count as nat, |_i: int| None::<Seq<u8>>));
            lemma_missing_all(count as nat);
        }
        Reassembly { seq, parts, missing: count as usize }
    }
}

fn join_parts(parts: &Vec<Option<Vec<u8>>>) -> (res: Vec<u8>)
    requires
        forall|i: int| 0 <= i < parts@.len() ==> #[trigger] parts@[i] is Some,
    ensures
        res@ == spec_join_parts(spec_parts(parts@)),
{
    let ghost v = spec_parts(parts@);
    let mut out: Vec<u8> = Vec::new();
    let mut k: usize = 0;
    proof {
        assert(v.take(0) =~= Seq::<Option<Seq<u8>>>::empty());
    }
    while k < parts.len()
        invariant
            v == spec_parts(parts@),
            k <= parts@.len(),
            forall|i: int| 0 <= i < parts@.len() ==> #[trigger] parts@[i] is Some,
            out@ == spec_join_parts(v.take(k as int)),
        decreases parts@.len() - k,
    {
        match &parts[k] {
            Some(x) => {
                push_all(&mut out, x.as_slice());
                proof {
                    assert(v.take(k + 1).drop_last() =~= v.take(k as int));
                    assert(v.take(k + 1).last() == Some(x@));
                }
            },
            None => {
                proof {
                    assert(parts@[k as int] is Some);
                }
            },
        }
        k = k + 1;
    }
    proof {
        assert(v.take(parts@.len() as int) =~= v);
    }
    out
}

/// Sequence-number and reassembly state of one end of a UDP transport.
pub struct UdpSequencer {
    send_seq: u32,
    recv_seq: u32,
    pending: Option<Reassembly>,
}

impl UdpSequencer {
    /// The sequence number of the next message to send.
    pub closed spec fn spec_send_seq(&self) -> u32 {
        self.send_seq
    }

    /// The sequence number expected next from the peer.
    pub closed spec fn spec_recv_seq(&self) -> u32 {
        self.recv_seq
    }

    /// The message being reassembled, if any.
    pub closed spec fn spec_pending(&self) -> Option<PartialMessage> {
        match self.pending {
            Some(r) => Some(r.view_message()),
            None => None,
        }
    }

    /// The count of missing fragments is kept up to date.
    pub closed spec fn wf(&self) -> bool {
        self.pending matches Some(r) ==> r.wf()
    }

    /// Both counters at zero, nothing being reassembled.
    pub fn new() -> (res: Self)
        ensures
            res.wf(),
            res.spec_send_seq() == 0,
            res.spec_recv_seq() == 0,
            res.spec_pending() is None,
    {
        UdpSequencer { send_seq: 0, recv_seq: 0, pending: None }
    }

    /// The datagrams that send one message (fragmenting it when it does not
    /// fit in a single datagram).  The message takes the next sending
    /// sequence number, which then advances (wrapping).
    ///
    /// A message of a multiple of 65536 fragments is left out: its fragment
    /// count would be written as 0.
    pub fn datagrams_for(&mut self, data: &[u8], reliable: bool) -> (res: Vec<Vec<u8>>)
        requires
            data@.len() <= MAX_FRAGMENT_PAYLOAD || spec_fragment_count(data@.len()) % 65536 != 0,
        ensures
            res@.len() == spec_datagrams(data@, old(self).spec_send_seq(), reliable).len(),
            forall|i: int|
                0 <= i < res@.len() ==> #[trigger] res@[i]@ == spec_datagrams(
                    data@,
                    old(self).spec_send_seq(),
                    reliable,
                )[i],
            final(self).spec_send_seq() == (if old(self).spec_send_seq() == u32::MAX {
                0
            } else {
                (old(self).spec_send_seq() + 1) as u32
            }),
            final(self).spec_recv_seq() == old(self).spec_recv_seq(),
            final(self).spec_pending() == old(self).spec_pending(),
            final(self).wf() == old(self).wf(),
    {
        let seq = self.send_seq;
        self.send_seq = self.send_seq.wrapping_add(1);
        let mut out: Vec<Vec<u8>> = Vec::new();
        if data.len() <= MAX_FRAGMENT_PAYLOAD {
            out.push(encode_frame(data, seq, 0, 1, reliable, false));
            return out;
        }
        let n: usize = data.len() / MAX_FRAGMENT_PAYLOAD + (if data.len() % MAX_FRAGMENT_PAYLOAD == 0 {
            0usize
        } else {
            1usize
        });
        assert(n == spec_fragment_count(data@.len())) by (nonlinear_arith)
            requires
                n == data@.len() / 1190 + (if data@.len() % 1190 == 0 { 0int } else { 1int }),
                data@.len() > 1190,
        {
        }
        let total: u16 = (n % 65536) as u16;
        let ghost expected = spec_datagrams(data@, seq, reliable);
        let len = data.len();
        let mut i: usize = 0;
        while i < n
            invariant
                len == data@.len(),
                n == spec_fragment_count(data@.len()),
                data@.len() > MAX_FRAGMENT_PAYLOAD,
                total == (n % 65536) as u16,
                total != 0,
                expected == spec_datagrams(data@, seq, reliable),
                expected.len() == n,
                i <= n,
                out@.len() == i,
                forall|j: int| 0 <= j < i ==> #[trigger] out@[j]@ == expected[j],
            decreases n - i,
        {
            assert((i as int) * 1190 < len) by (nonlinear_arith)
                requires
                    i < n,
                    n == (len + 1189) / 1190,
            {
            }
            let start = i * 1190;
            let end = if data.len() - start > MAX_FRAGMENT_PAYLOAD {
                start + MAX_FRAGMENT_PAYLOAD
            } else {
                data.len()
            };
            let chunk = vstd::slice::slice_subrange(data, start, end);
            let last = i == (total as usize) - 1;
            let frame = encode_frame(chunk, seq, (i % 65536) as u16, total, reliable, last);
            proof {
                assert(chunk@ == spec_fragment(data@, i as int));
                assert(frame@ == expected[i as int]);
            }
            out.push(frame);
            i = i + 1;
        }
        out
    }

    /// Stores one fragment, delivering the message once it is complete.
    fn store_fragment(&mut self, seq: u32, index: u16, count: u16, payload: Vec<u8>) -> (res: Option<Vec<u8>>)
        requires
            old(self).wf(),
            index < count,
        ensures
            final(self).wf(),
            final(self).spec_send_seq() == old(self).spec_send_seq(),
            final(self).spec_recv_seq() == old(self).spec_recv_seq(),
            ({
                let (p, m) = spec_store_fragment(old(self).spec_pending(), seq, index, count, payload@);
                &&& final(self).spec_pending() == p
                &&& match (res, m) {
                    (Some(v), Some(x)) => v@ == x,
                    (None, None) => true,
                    _ => false,
                }
            }),
    {
        let reuse = match &self.pending {
            Some(r) => r.seq == seq && r.parts.len() == count as usize,
            None => false,
        };
        let mut r = if reuse {
            match self.pending.take() {
                Some(r) => r,
                None => Reassembly::empty(seq, count),
            }
        } else {
            Reassembly::empty(seq, count)
        };
        let ghost base = spec_parts(r.parts@);
        proof {
            assert(base == match old(self).spec_pending() {
                Some(p) => if p.seq == seq && p.parts.len() == count {
                    p.parts
                } else {
                    Seq::new(count as nat, |_i: int| None::<Seq<u8>>)
                },
                None => Seq::new(count as nat, |_i: int| None::<Seq<u8>>),
            });
            lemma_missing_update(base, index as int, payload@);
        }
        if r.parts[index as usize].is_none() {
            r.missing = r.missing - 1;
        }
        r.parts.set(index as usize, Some(payload));
        proof {
            assert(spec_parts(r.parts@) =~= base.update(index as int, Some(payload@)));
        }
        if r.missing == 0 {
            proof {
                lemma_missing_none(spec_parts(r.parts@));
                assert forall|i: int| 0 <= i < r.parts@.len() implies #[trigger] r.parts@[i] is Some by {
                    assert(spec_parts(r.parts@)[i] is Some);
                }
            }
            let msg = join_parts(&r.parts);
            self.pending = None;
            Some(msg)
        } else {
            self.pending = Some(r);
            None
        }
    }

    /// Accepts one received datagram, reassembling fragmented messages.
    ///
    /// A datagram shorter than the header is refused, and so is a fragment
    /// whose index is not below its fragment count.  An unfragmented
    /// datagram delivers its payload at once.  A fragment is stored under
    /// its message's sequence number (a partly received message of another
    /// number is dropped); when the last missing fragment arrives the whole
    /// message is delivered.  `Ok(None)` means that more fragments are
    /// needed.  Delivering a message advances the expected receive sequence
    /// number past it.
    pub fn accept(&mut self, datagram: &[u8]) -> (res: Result<Option<(Vec<u8>, bool)>, Error>)
        requires
            old(self).wf(),
        ensures
            final(self).wf(),
            final(self).spec_send_seq() == old(self).spec_send_seq(),
            datagram@.len() < HEADER_SIZE ==> (res matches Err(Error::Network(m)) && m@ == "UDP frame too short"@)
                && final(self).spec_recv_seq() == old(self).spec_recv_seq()
                && final(self).spec_pending() == old(self).spec_pending(),
            datagram@.len() >= HEADER_SIZE ==> {
                let (seq, index, count, flags) = spec_decode_header(datagram@);
                let (p, m) = spec_accept_datagram(old(self).spec_pending(), datagram@);
                &&& final(self).spec_pending() == p
                &&& (flags & FLAG_FRAGMENTED != 0 && index >= count) ==> (res matches Err(Error::Network(e)) && e@
                    == "UDP fragment index out of range"@)
                &&& !(flags & FLAG_FRAGMENTED != 0 && index >= count) ==> match m {
                    Some(x) => res matches Ok(Some((v, reliable))) && v@ == x && reliable == (flags & FLAG_RELIABLE
                        != 0),
                    None => res matches Ok(None),
                }
                &&& final(self).spec_recv_seq() == if m is Some {
                    if seq == u32::MAX {
                        0
                    } else {
                        (seq + 1) as u32
                    }
                } else {
                    old(self).spec_recv_seq()
                }
            },
    {
        if datagram.len() < HEADER_SIZE {
            proof {
                reveal_strlit("UDP frame too short");
            }
            return Err(network_error("UDP frame too short"));
        }
        let (seq, index, count, flags) = decode_header(datagram);
        let payload = vstd::slice::slice_to_vec(vstd::slice::slice_subrange(datagram, HEADER_SIZE, datagram.len()));
        let reliable = flags & FLAG_RELIABLE != 0;
        if flags & FLAG_FRAGMENTED == 0 {
            self.recv_seq = seq.wrapping_add(1);
            return Ok(Some((payload, reliable)));
        }
        if index >= count {
            proof {
                reveal_strlit("UDP fragment index out of range");
            }
            return Err(network_error("UDP fragment index out of range"));
        }
        match self.store_fragment(seq, index, count, payload) {
            Some(msg) => {
                self.recv_seq = seq.wrapping_add(1);
                Ok(Some((msg, reliable)))
            },
            None => Ok(None),
        }
    }
}


/// A message that fits in one datagram arrives whole: the receiver reads
/// back its sequence number, its payload and its reliable flag, and sees
/// that it is not a fragment.
pub proof fn law_single_datagram_roundtrip(data: Seq<u8>, seq: u32, reliable: bool)
    requires
        data.len() <= MAX_FRAGMENT_PAYLOAD,
    ensures
        ({
            let d = spec_datagrams(data, seq, reliable);
            let (s, frag_id, frag_count, flags) = spec_decode_header(d[0]);
            &&& d.len() == 1
            &&& d[0].len() >= HEADER_SIZE
            &&& s == seq && frag_id == 0 && frag_count == 1
            &&& flags & FLAG_FRAGMENTED == 0
            &&& (flags & FLAG_RELIABLE != 0) == reliable
            &&& d[0].subrange(HEADER_SIZE as int, d[0].len() as int) == data
        }),
{
    law_header_roundtrip(data, seq, 0, 1, reliable, false);
    law_flag_bits(1, reliable, false);
}

/// The payloads of the first `k` fragments, in order.
pub open spec fn spec_joined_fragments(data: Seq<u8>, k: nat) -> Seq<u8>
    decreases k,
{
    if k == 0 {
        Seq::empty()
    } else {
        spec_joined_fragments(data, (k - 1) as nat) + spec_fragment(data, k - 1)
    }
}

proof fn lemma_joined_prefix(data: Seq<u8>, k: nat)
    requires
        k <= spec_fragment_count(data.len()),
        data.len() > MAX_FRAGMENT_PAYLOAD,
    ensures
        k * MAX_FRAGMENT_PAYLOAD <= data.len() ==> spec_joined_fragments(data, k) == data.take(
            k * MAX_FRAGMENT_PAYLOAD,
        ),
        k * MAX_FRAGMENT_PAYLOAD > data.len() ==> spec_joined_fragments(data, k) == data,
    decreases k,
{
    if k == 0 {
        assert(data.take(0) =~= Seq::<u8>::empty());
    } else {
        let j = (k - 1) as nat;
        lemma_joined_prefix(data, j);
        assert(j * 1190 < data.len()) by (nonlinear_arith)
            requires
                j < k,
                k <= (data.len() + 1189) / 1190,
                data.len() > 1190,
        {
        }
        assert(j * MAX_FRAGMENT_PAYLOAD == j * 1190);
        assert(k * MAX_FRAGMENT_PAYLOAD == j * 1190 + 1190) by (nonlinear_arith)
            requires
                j == k - 1,
        {
        }
        let a: int = (j * 1190) as int;
        let b: int = (k * 1190) as int;
        if k * MAX_FRAGMENT_PAYLOAD <= data.len() {
            assert(data.take(a) + data.subrange(a, b) =~= data.take(b));
        } else {
            assert(data.take(a) + data.subrange(a, data.len() as int) =~= data);
        }
    }
}

/// Joining the payloads of all the fragments of a message, in order, gives
/// back the message.
pub proof fn law_fragments_reassemble(data: Seq<u8>, seq: u32, reliable: bool)
    requires
        data.len() > MAX_FRAGMENT_PAYLOAD,
    ensures
        ({
            let n = spec_fragment_count(data.len());
            &&& spec_datagrams(data, seq, reliable).len() == n
            &&& forall|i: int|
                0 <= i < n ==> #[trigger] spec_datagrams(data, seq, reliable)[i].subrange(
                    HEADER_SIZE as int,
                    spec_datagrams(data, seq, reliable)[i].len() as int,
                ) == spec_fragment(data, i)
            &&& spec_joined_fragments(data, n) == data
        }),
{
    let n = spec_fragment_count(data.len());
    let total = (n % 65536) as u16;
    assert forall|i: int| 0 <= i < n implies #[trigger] spec_datagrams(data, seq, reliable)[i].subrange(
        HEADER_SIZE as int,
        spec_datagrams(data, seq, reliable)[i].len() as int,
    ) == spec_fragment(data, i) by {
        law_header_roundtrip(spec_fragment(data, i), seq, (i % 65536) as u16, total, reliable, i == total - 1);
    }
    lemma_joined_prefix(data, n);
    assert(n * 1190 >= data.len()) by (nonlinear_arith)
        requires
            n == (data.len() + 1189) / 1190,
    {
    }
    if n * MAX_FRAGMENT_PAYLOAD == data.len() {
        assert(data.take(data.len() as int) =~= data);
    }
}

/// Fragment slots with the first `k` of `n` fragments of `data` filled.
pub open spec fn spec_prefix_parts(data: Seq<u8>, n: nat, k: nat) -> Seq<Option<Seq<u8>>> {
    Seq::new(n, |i: int| if i < k { Some(spec_fragment(data, i)) } else { None })
}

proof fn lemma_join_fragments(data: Seq<u8>, m: nat)
    ensures
        spec_join_parts(Seq::new(m, |i: int| Some(spec_fragment(data, i)))) == spec_joined_fragments(data, m),
    decreases m,
{
    if m > 0 {
        assert(Seq::new(m, |i: int| Some(spec_fragment(data, i))).drop_last() =~= Seq::new(
            (m - 1) as nat,
            |i: int| Some(spec_fragment(data, i)),
        ));
        lemma_join_fragments(data, (m - 1) as nat);
    }
}

proof fn lemma_fragment_datagram(data: Seq<u8>, seq: u32, reliable: bool, j: nat)
    requires
        data.len() > MAX_FRAGMENT_PAYLOAD,
        spec_fragment_count(data.len()) < 65536,
        j < spec_fragment_count(data.len()),
    ensures
        ({
            let n = spec_fragment_count(data.len());
            let d = spec_datagrams(data, seq, reliable)[j as int];
            let (s, index, count, flags) = spec_decode_header(d);
            &&& spec_datagrams(data, seq, reliable).len() == n
            &&& d.len() >= HEADER_SIZE
            &&& s == seq && index == j && count == n
            &&& flags & FLAG_FRAGMENTED != 0
            &&& d.subrange(HEADER_SIZE as int, d.len() as int) == spec_fragment(data, j as int)
        }),
{
    let n = spec_fragment_count(data.len());
    assert(n >= 2) by (nonlinear_arith)
        requires
            n == (data.len() + 1189) / 1190,
            data.len() > 1190,
    {
    }
    let total = (n % 65536) as u16;
    assert(total == n);
    assert((j % 65536) as u16 == j);
    let last = j == total - 1;
    let frag = spec_fragment(data, j as int);
    law_header_roundtrip(frag, seq, j as u16, total, reliable, last);
    law_flag_bits(total, reliable, last);
}

proof fn lemma_store_next(data: Seq<u8>, n: nat, j: nat, base: Seq<Option<Seq<u8>>>)
    requires
        j < n,
        base =~= (if j == 0 {
            Seq::new(n, |_i: int| None::<Seq<u8>>)
        } else {
            spec_prefix_parts(data, n, j)
        }),
        j > 0 ==> spec_missing(spec_prefix_parts(data, n, j)) == n - j,
    ensures
        base.update(j as int, Some(spec_fragment(data, j as int))) == spec_prefix_parts(data, n, j + 1),
        spec_missing(spec_prefix_parts(data, n, j + 1)) == n - j - 1,
{
    lemma_missing_update(base, j as int, spec_fragment(data, j as int));
    if j == 0 {
        lemma_missing_all(n);
    }
    assert(base.update(j as int, Some(spec_fragment(data, j as int))) =~= spec_prefix_parts(data, n, j + 1));
}

#[verifier::rlimit(40)]
proof fn lemma_receive_prefix(data: Seq<u8>, seq: u32, reliable: bool, pending: Option<PartialMessage>, k: nat)
    requires
        data.len() > MAX_FRAGMENT_PAYLOAD,
        spec_fragment_count(data.len()) < 65536,
        k <= spec_fragment_count(data.len()),
        pending matches Some(p) ==> p.seq != seq,
    ensures
        ({
            let n = spec_fragment_count(data.len());
            let ds = spec_datagrams(data, seq, reliable);
            &&& k == 0 ==> spec_receive(pending, ds.take(k as int)) == (pending, Seq::<Seq<u8>>::empty())
            &&& (0 < k && k < n) ==> spec_receive(pending, ds.take(k as int)) == (
                Some(PartialMessage { seq, parts: spec_prefix_parts(data, n, k) }),
                Seq::<Seq<u8>>::empty(),
            ) && spec_missing(spec_prefix_parts(data, n, k)) == n - k
            &&& k == n ==> spec_receive(pending, ds.take(k as int)) == (None::<PartialMessage>, seq![data])
        }),
    decreases k,
{
    let n = spec_fragment_count(data.len());
    let ds = spec_datagrams(data, seq, reliable);
    if k == 0 {
        assert(ds.take(0) =~= Seq::<Seq<u8>>::empty());
    } else {
        let j = (k - 1) as nat;
        lemma_receive_prefix(data, seq, reliable, pending, j);
        lemma_fragment_datagram(data, seq, reliable, j);
        assert(ds.take(k as int).drop_last() =~= ds.take(j as int));
        assert(ds.take(k as int).last() == ds[j as int]);
        let frag = spec_fragment(data, j as int);
        let prev = spec_receive(pending, ds.take(j as int)).0;
        let base = match prev {
            Some(p) => if p.seq == seq && p.parts.len() == n as u16 {
                p.parts
            } else {
                Seq::new(n as u16 as nat, |_i: int| None::<Seq<u8>>)
            },
            None => Seq::new(n as u16 as nat, |_i: int| None::<Seq<u8>>),
        };
        lemma_store_next(data, n, j, base);
        if k == n {
            assert(spec_prefix_parts(data, n, k) =~= Seq::new(n, |i: int| Some(spec_fragment(data, i))));
            lemma_join_fragments(data, n);
            law_fragments_reassemble(data, seq, reliable);
            assert(Seq::<Seq<u8>>::empty().push(data) =~= seq![data]);
        }
    }
}

/// Receiving, in order, every datagram that carries a fragmented message
/// delivers exactly that message, once, and leaves nothing pending (when no
/// partly received message of the same sequence number was pending, and the
/// fragment count fits the header's 16 bits).
pub proof fn law_datagrams_reassemble(data: Seq<u8>, seq: u32, reliable: bool, pending: Option<PartialMessage>)
    requires
        data.len() > MAX_FRAGMENT_PAYLOAD,
        spec_fragment_count(data.len()) < 65536,
        pending matches Some(p) ==> p.seq != seq,
    ensures
        spec_receive(pending, spec_datagrams(data, seq, reliable)) == (None::<PartialMessage>, seq![data]),
{
    let n = spec_fragment_count(data.len());
    let ds = spec_datagrams(data, seq, reliable);
    lemma_receive_prefix(data, seq, reliable, pending, n);
    assert(ds.take(n as int) =~= ds);
}

// ── STUN ─────────────────────────────────────────────────

/// An IPv4 socket address as a STUN server reports it.
#[derive(Debug, Clone, Copy, PartialEq, Eq)]
pub struct StunAddress {
    pub ip: [u8; 4],
    pub port: u16,
}

/// The STUN magic cookie.
pub const STUN_MAGIC_COOKIE: u32 = 0x2112A442;

/// The 20-byte header of a STUN Binding request with transaction id `tid`.
pub open spec fn spec_binding_request(tid: Seq<u8>) -> Seq<u8> {
    seq![0x00u8, 0x01u8, 0x00u8, 0x00u8, 0x21u8, 0x12u8, 0xA4u8, 0x42u8] + tid
}

/// A transaction id: the counter (little-endian) then the low 32 bits of the
/// clock reading (little-endian).
pub open spec fn spec_transaction_id(counter: u64, now_nanos: u128) -> Seq<u8> {
    le64(counter) + crate::bytes::le32((now_nanos % 4294967296) as u32)
}

/// A 12-byte STUN transaction id from a message counter and a clock reading
/// in nanoseconds since the Unix epoch (not cryptographically random).
pub fn rand_transaction_id(counter: u64, now_nanos: u128) -> (res: [u8; 12])
    ensures
        res@ == spec_transaction_id(counter, now_nanos),
{
    let lo = (counter % 4294967296) as u32;
    let hi = (counter / 4294967296) as u32;
    let t = (now_nanos % 4294967296) as u32;
    let id = [
        (lo % 256) as u8,
        ((lo / 256) % 256) as u8,
        ((lo / 65536) % 256) as u8,
        (lo / 16777216) as u8,
        (hi % 256) as u8,
        ((hi / 256) % 256) as u8,
        ((hi / 65536) % 256) as u8,
        (hi / 16777216) as u8,
        (t % 256) as u8,
        ((t / 256) % 256) as u8,
        ((t / 65536) % 256) as u8,
        (t / 16777216) as u8,
    ];
    assert(id@ =~= spec_transaction_id(counter, now_nanos));
    id
}

/// Build a minimal STUN Binding request (no attributes).
pub fn build_stun_binding_request(counter: u64, now_nanos: u128) -> (res: Vec<u8>)
    ensures
        res@ == spec_binding_request(spec_transaction_id(counter, now_nanos)),
        res@.len() == 20,
{
    let mut msg: Vec<u8> = Vec::new();
    // Message Type: Binding Request (0x0001).
    msg.push(0x00);
    msg.push(0x01);
    // Message Length: 0 (no attributes).
    msg.push(0x00);
    msg.push(0x00);
    // Magic Cookie: 0x2112A442.
    msg.push(0x21);
    msg.push(0x12);
    msg.push(0xA4);
    msg.push(0x42);
    let tid = rand_transaction_id(counter, now_nanos);
    push_all(&mut msg, &tid);
    assert(msg@ =~= spec_binding_request(spec_transaction_id(counter, now_nanos)));
    msg
}

/// The big-endian bytes of `v`.
pub open spec fn be32_bytes(v: u32) -> Seq<u8> {
    seq![(v / 16777216) as u8, ((v / 65536) % 256) as u8, ((v / 256) % 256) as u8, (v % 256) as u8]
}

/// The padding that aligns an attribute of `len` bytes to 4 bytes.
pub open spec fn spec_stun_padding(len: int) -> int {
    if len % 4 != 0 {
        4 - len % 4
    } else {
        0
    }
}

/// The address in the first MAPPED-ADDRESS (0x0001) or XOR-MAPPED-ADDRESS
/// (0x0020) attribute at or after `offset` and before `end`; attributes of
/// other types, or too short to hold an IPv4 address, are skipped.
pub open spec fn spec_stun_scan(data: Seq<u8>, offset: int, end: int, cookie: u32) -> Option<StunAddress>
    decreases (if offset <= data.len() {
        data.len() - offset
    } else {
        0
    }),
{
    if 0 <= offset && offset + 4 <= data.len() && offset < end {
        let attr_type = from_be16(data[offset], data[offset + 1]);
        let attr_len = from_be16(data[offset + 2], data[offset + 3]) as int;
        let o = offset + 4;
        if attr_type == 0x0001 && attr_len >= 8 && o + 8 <= data.len() {
            Some(
                StunAddress {
                    ip: [data[o + 4], data[o + 5], data[o + 6], data[o + 7]],
                    port: from_be16(data[o + 2], data[o + 3]),
                },
            )
        } else if attr_type == 0x0020 && attr_len >= 8 && o + 8 <= data.len() {
            let ip = be32_bytes(from_be32(data[o + 4], data[o + 5], data[o + 6], data[o + 7]) ^ cookie);
            Some(
                StunAddress {
                    ip: [ip[0], ip[1], ip[2], ip[3]],
                    port: from_be16(data[o + 2], data[o + 3]) ^ ((cookie / 65536) as u16),
                },
            )
        } else {
            proof {
                assert(spec_stun_padding(attr_len) >= 0);
            }
            spec_stun_scan(data, o + attr_len + spec_stun_padding(attr_len), end, cookie)
        }
    } else {
        None
    }
}

/// Attributes are aligned to 4 bytes: the padding after an attribute of
/// `len` bytes is fewer than 4 bytes, none when `len` is a multiple of 4,
/// and brings the attribute's end to a multiple of 4.
pub proof fn law_stun_padding(len: int)
    requires
        len >= 0,
    ensures
        0 <= spec_stun_padding(len) < 4,
        (len + spec_stun_padding(len)) % 4 == 0,
        len % 4 == 0 ==> spec_stun_padding(len) == 0,
{
}

/// An attribute that is not a usable (XOR-)MAPPED-ADDRESS is skipped: the
/// scan goes on at the next attribute, which starts after the 4-byte
/// attribute header and the value rounded up to a multiple of 4 bytes.
pub proof fn law_stun_scan_skips(data: Seq<u8>, offset: int, end: int, cookie: u32)
    requires
        0 <= offset,
        offset + 4 <= data.len(),
        offset < end,
        ({
            let t = from_be16(data[offset], data[offset + 1]);
            let len = from_be16(data[offset + 2], data[offset + 3]);
            (t != 0x0001 && t != 0x0020) || len < 8 || offset + 12 > data.len()
        }),
    ensures
        spec_stun_scan(data, offset, end, cookie) == spec_stun_scan(
            data,
            offset + 4 + (from_be16(data[offset + 2], data[offset + 3]) as int + 3) / 4 * 4,
            end,
            cookie,
        ),
{
    let len = from_be16(data[offset + 2], data[offset + 3]) as int;
    assert(len + spec_stun_padding(len) == (len + 3) / 4 * 4);
}

/// A MAPPED-ADDRESS attribute (type 0x0001) long enough for an IPv4 address
/// gives the address: the port in its bytes 2-3 (big-endian) and the IP in
/// its bytes 4-7.
pub proof fn law_stun_mapped_address(data: Seq<u8>, offset: int, end: int, cookie: u32)
    requires
        0 <= offset,
        offset + 12 <= data.len(),
        offset < end,
        from_be16(data[offset], data[offset + 1]) == 0x0001,
        from_be16(data[offset + 2], data[offset + 3]) >= 8,
    ensures
        spec_stun_scan(data, offset, end, cookie) == Some(
            StunAddress {
                ip: [data[offset + 8], data[offset + 9], data[offset + 10], data[offset + 11]],
                port: from_be16(data[offset + 6], data[offset + 7]),
            },
        ),
{
}

/// A Binding success response whose first attribute is of another type
/// (of any length) and whose second attribute is a MAPPED-ADDRESS gives
/// that address.
pub proof fn law_stun_address_after_attribute(data: Seq<u8>)
    requires
        data.len() >= 20,
        from_be16(data[0], data[1]) == 0x0101,
        data.len() >= 20 + from_be16(data[2], data[3]),
        from_be16(data[20], data[21]) != 0x0001,
        from_be16(data[20], data[21]) != 0x0020,
        ({
            let next = 24 + (from_be16(data[22], data[23]) as int + 3) / 4 * 4;
            &&& next + 12 <= data.len()
            &&& next < 20 + from_be16(data[2], data[3])
            &&& from_be16(data[next], data[next + 1]) == 0x0001
            &&& from_be16(data[next + 2], data[next + 3]) >= 8
        }),
    ensures
        ({
            let next = 24 + (from_be16(data[22], data[23]) as int + 3) / 4 * 4;
            spec_parse_stun(data) == Ok::<StunAddress, StunFailure>(
                StunAddress {
                    ip: [data[next + 8], data[next + 9], data[next + 10], data[next + 11]],
                    port: from_be16(data[next + 6], data[next + 7]),
                },
            )
        }),
{
    let end = 20 + from_be16(data[2], data[3]);
    let cookie = from_be32(data[4], data[5], data[6], data[7]);
    let next = 24 + (from_be16(data[22], data[23]) as int + 3) / 4 * 4;
    law_stun_scan_skips(data, 20, end as int, cookie);
    law_stun_mapped_address(data, next, end as int, cookie);
}

proof fn lemma_xor_bytes(b0: u8, b1: u8, b2: u8, b3: u8, c0: u8, c1: u8, c2: u8, c3: u8)
    ensures
        be32_bytes(from_be32(b0, b1, b2, b3) ^ from_be32(c0, c1, c2, c3)) == seq![b0 ^ c0, b1 ^ c1, b2 ^ c2, b3 ^ c3],
        from_be16(b0, b1) ^ ((from_be32(c0, c1, c2, c3) / 65536) as u16) == from_be16(b0 ^ c0, b1 ^ c1),
{
    let x = from_be32(b0, b1, b2, b3);
    let y = from_be32(c0, c1, c2, c3);
    assert(x == ((b0 as u32) << 24) | ((b1 as u32) << 16) | ((b2 as u32) << 8) | (b3 as u32)) by (bit_vector)
        requires
            x == (16777216 * b0 + 65536 * b1 + 256 * b2 + b3) as u32,
    ;
    assert(y == ((c0 as u32) << 24) | ((c1 as u32) << 16) | ((c2 as u32) << 8) | (c3 as u32)) by (bit_vector)
        requires
            y == (16777216 * c0 + 65536 * c1 + 256 * c2 + c3) as u32,
    ;
    let z = x ^ y;
    assert((z / 16777216) as u8 == b0 ^ c0 && ((z / 65536) % 256) as u8 == b1 ^ c1 && ((z / 256) % 256) as u8 == b2
        ^ c2 && (z % 256) as u8 == b3 ^ c3) by (bit_vector)
        requires
            z == x ^ y,
            x == ((b0 as u32) << 24) | ((b1 as u32) << 16) | ((b2 as u32) << 8) | (b3 as u32),
            y == ((c0 as u32) << 24) | ((c1 as u32) << 16) | ((c2 as u32) << 8) | (c3 as u32),
    ;
    assert(be32_bytes(z) =~= seq![b0 ^ c0, b1 ^ c1, b2 ^ c2, b3 ^ c3]);
    let p = from_be16(b0, b1);
    let q = from_be16(b0 ^ c0, b1 ^ c1);
    assert(p ^ ((y / 65536) as u16) == q) by (bit_vector)
        requires
            p == (256 * b0 + b1) as u16,
            q == (256 * (b0 ^ c0) + (b1 ^ c1)) as u16,
            y == ((c0 as u32) << 24) | ((c1 as u32) << 16) | ((c2 as u32) << 8) | (c3 as u32),
    ;
}

/// An XOR-MAPPED-ADDRESS attribute (type 0x0020) long enough for an IPv4
/// address gives the address with the magic cookie taken off: each IP byte
/// is XORed with the matching cookie byte, and the port with the cookie's
/// first two bytes.
pub proof fn law_stun_xor_mapped_address(
    data: Seq<u8>,
    offset: int,
    end: int,
    c0: u8,
    c1: u8,
    c2: u8,
    c3: u8,
)
    requires
        0 <= offset,
        offset + 12 <= data.len(),
        offset < end,
        from_be16(data[offset], data[offset + 1]) == 0x0020,
        from_be16(data[offset + 2], data[offset + 3]) >= 8,
    ensures
        spec_stun_scan(data, offset, end, from_be32(c0, c1, c2, c3)) == Some(
            StunAddress {
                ip: [data[offset + 8] ^ c0, data[offset + 9] ^ c1, data[offset + 10] ^ c2, data[offset + 11] ^ c3],
                port: from_be16(data[offset + 6] ^ c0, data[offset + 7] ^ c1),
            },
        ),
{
    let o = offset + 4;
    lemma_xor_bytes(data[o + 4], data[o + 5], data[o + 6], data[o + 7], c0, c1, c2, c3);
    lemma_xor_bytes(data[o + 2], data[o + 3], data[o + 6], data[o + 7], c0, c1, c2, c3);
    let ip = be32_bytes(from_be32(data[o + 4], data[o + 5], data[o + 6], data[o + 7]) ^ from_be32(c0, c1, c2, c3));
    assert(ip[0] == data[o + 4] ^ c0 && ip[1] == data[o + 5] ^ c1 && ip[2] == data[o + 6] ^ c2 && ip[3] == data[o
        + 7] ^ c3);
}

/// Why a STUN response was refused.
pub enum StunFailure {
    TooShort,
    UnexpectedType(u16),
    Truncated,
    NoMappedAddress,
}

/// What parsing a STUN Binding response gives.
pub open spec fn spec_parse_stun(data: Seq<u8>) -> Result<StunAddress, StunFailure> {
    if data.len() < 20 {
        Err(StunFailure::TooShort)
    } else if from_be16(data[0], data[1]) != 0x0101 {
        Err(StunFailure::UnexpectedType(from_be16(data[0], data[1])))
    } else if data.len() < 20 + from_be16(data[2], data[3]) {
        Err(StunFailure::Truncated)
    } else {
        match spec_stun_scan(
            data,
            20,
            20 + from_be16(data[2], data[3]),
            from_be32(data[4], data[5], data[6], data[7]),
        ) {
            Some(a) => Ok(a),
            None => Err(StunFailure::NoMappedAddress),
        }
    }
}

/// The message of the error that a refused STUN response yields.
pub open spec fn spec_stun_failure_message(f: StunFailure) -> Seq<char> {
    match f {
        StunFailure::TooShort => "STUN response too short"@,
        StunFailure::UnexpectedType(t) => "Unexpected STUN response type: 0x"@ + spec_hex4(t),
        StunFailure::Truncated => "STUN response truncated"@,
        StunFailure::NoMappedAddress => "No MAPPED-ADDRESS in STUN response"@,
    }
}

fn stun_error(f: StunFailure) -> (res: Error)
    ensures
        res matches Error::Network(m) && m@ == spec_stun_failure_message(f),
{
    proof {
        reveal_strlit("STUN response too short");
        reveal_strlit("Unexpected STUN response type: 0x");
        reveal_strlit("STUN response truncated");
        reveal_strlit("No MAPPED-ADDRESS in STUN response");
    }
    match f {
        StunFailure::TooShort => network_error("STUN response too short"),
        StunFailure::UnexpectedType(t) => {
            let h = hex4(t);
            Error::Network(join_message("Unexpected STUN response type: 0x", h.as_str()))
        },
        StunFailure::Truncated => network_error("STUN response truncated"),
        StunFailure::NoMappedAddress => network_error("No MAPPED-ADDRESS in STUN response"),
    }
}

/// Parse a STUN Binding response and extract the address of its first
/// XOR-MAPPED-ADDRESS or MAPPED-ADDRESS attribute.
pub fn parse_stun_response(data: &[u8]) -> (res: Result<StunAddress, Error>)
    ensures
        match spec_parse_stun(data@) {
            Ok(a) => res == Ok::<StunAddress, Error>(a),
            Err(f) => res matches Err(Error::Network(m)) && m@ == spec_stun_failure_message(f),
        },
{
    let len = data.len();
    if len < 20 {
        return Err(stun_error(StunFailure::TooShort));
    }
    let msg_type = read_be16(data[0], data[1]);
    if msg_type != 0x0101 {
        return Err(stun_error(StunFailure::UnexpectedType(msg_type)));
    }
    let msg_len = read_be16(data[2], data[3]) as usize;
    let magic_cookie = read_be32(data[4], data[5], data[6], data[7]);
    if len - 20 < msg_len {
        return Err(stun_error(StunFailure::Truncated));
    }
    let end = 20 + msg_len;
    let mut offset: usize = 20;
    while offset <= len - 4 && offset < end
        invariant
            len == data@.len(),
            20 <= len,
            end == 20 + msg_len,
            end <= len,
            msg_len == from_be16(data@[2], data@[3]),
            magic_cookie == from_be32(data@[4], data@[5], data@[6], data@[7]),
            spec_parse_stun(data@) == match spec_stun_scan(data@, offset as int, end as int, magic_cookie) {
                Some(a) => Ok(a),
                None => Err(StunFailure::NoMappedAddress),
            },
        decreases len - offset,
    {
        let attr_type = read_be16(data[offset], data[offset + 1]);
        let attr_len = read_be16(data[offset + 2], data[offset + 3]) as usize;
        let o = offset + 4;
        if attr_type == 0x0001 && attr_len >= 8 && o <= len - 8 {
            let port = read_be16(data[o + 2], data[o + 3]);
            return Ok(StunAddress { ip: [data[o + 4], data[o + 5], data[o + 6], data[o + 7]], port });
        }
        if attr_type == 0x0020 && attr_len >= 8 && o <= len - 8 {
            let xport = read_be16(data[o + 2], data[o + 3]);
            let port = xport ^ ((magic_cookie / 65536) as u16);
            let xip = read_be32(data[o + 4], data[o + 5], data[o + 6], data[o + 7]);
            let ip_raw = xip ^ magic_cookie;
            let ip = [
                (ip_raw / 16777216) as u8,
                ((ip_raw / 65536) % 256) as u8,
                ((ip_raw / 256) % 256) as u8,
                (ip_raw % 256) as u8,
            ];
            proof {
                let sip = be32_bytes(ip_raw);
                assert(ip@ =~= seq![sip[0], sip[1], sip[2], sip[3]]);
            }
            return Ok(StunAddress { ip, port });
        }
        let pad: usize = if attr_len % 4 != 0 {
            4 - attr_len % 4
        } else {
            0
        };
        assert(pad == spec_stun_padding(attr_len as int));
        if attr_len + pad > len - o {
            // The next attribute would start past the end of the message.
            assert(spec_stun_scan(data@, o + attr_len + pad, end as int, magic_cookie) is None);
            return Err(stun_error(StunFailure::NoMappedAddress));
        }
        offset = o + attr_len + pad;
    }
    Err(stun_error(StunFailure::NoMappedAddress))
}

} // verus!
