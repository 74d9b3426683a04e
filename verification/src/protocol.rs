//! Wire protocol framing: length-delimited messages over TCP, and the
//! chunking of file transfers.
//!
//! Format: `[u32 LE: payload length][payload]`.  The payload is the bincode
//! encoding of a message; encoding and decoding the message itself happens
//! where the message type lives (outside this library).
use vstd::prelude::*;

use crate::bytes::{le32, from_le32, lemma_le32_roundtrip, push_all, push_le32, read_le32};
use crate::error::{Error, join_message};
use crate::text::{decimal, spec_decimal};

verus! {

/// The largest payload that `decode_length_prefix` accepts (100 MiB).
pub const MAX_MESSAGE_LEN: usize = 104857600;

/// One entry of a directory listing sent during file transfer.
#[derive(Debug, Clone)]
pub struct FileEntry {
    pub name: String,
    pub path: String,
    pub size: u64,
    pub is_dir: bool,
    pub modified: u64,
}

/// The bytes that carry `payload` on the stream: its length as a `u32`
/// (truncated, as an `as u32` cast does), little-endian, then the payload.
pub open spec fn spec_message_frame(payload: Seq<u8>) -> Seq<u8> {
    le32((payload.len() % 4294967296) as u32) + payload
}

/// The bytes to write for one message whose encoded payload is `payload`.
pub fn encode_message_frame(payload: &[u8]) -> (res: Vec<u8>)
    ensures
        res@ == spec_message_frame(payload@),
{
    let len = (payload.len() as u64 % 4294967296) as u32;
    let mut out: Vec<u8> = Vec::new();
    push_le32(&mut out, len);
    push_all(&mut out, payload);
    out
}

/// The message of the error for an oversized length prefix.
pub open spec fn spec_too_large_message(len: nat) -> Seq<char> {
    "Message too large: "@ + spec_decimal(len) + " bytes"@
}

/// The payload length announced by a 4-byte prefix; a length above
/// `MAX_MESSAGE_LEN` is refused.
pub fn decode_length_prefix(prefix: [u8; 4]) -> (res: Result<usize, Error>)
    ensures
        ({
            let len = from_le32(prefix@[0], prefix@[1], prefix@[2], prefix@[3]);
            &&& len <= MAX_MESSAGE_LEN ==> res == Ok::<usize, Error>(len as usize)
            &&& len > MAX_MESSAGE_LEN ==> (res matches Err(Error::Network(m)) && m@ == spec_too_large_message(
                len as nat,
            ))
        }),
{
    let len = read_le32(prefix[0], prefix[1], prefix[2], prefix[3]);
    if len as usize > MAX_MESSAGE_LEN {
        proof {
            reveal_strlit("Message too large: ");
            reveal_strlit(" bytes");
        }
        let m = join_message("Message too large: ", decimal(len as u128).as_str());
        let m = m.concat(" bytes");
        return Err(Error::Network(m));
    }
    Ok(len as usize)
}

/// A framed message is read back whole: its prefix announces the payload's
/// length, and the payload follows it.
pub proof fn law_message_frame_roundtrip(payload: Seq<u8>)
    requires
        payload.len() <= MAX_MESSAGE_LEN,
    ensures
        ({
            let f = spec_message_frame(payload);
            &&& f.len() == 4 + payload.len()
            &&& from_le32(f[0], f[1], f[2], f[3]) == payload.len()
            &&& f.subrange(4, f.len() as int) == payload
        }),
{
    let f = spec_message_frame(payload);
    lemma_le32_roundtrip((payload.len() % 4294967296) as u32);
    assert(f.subrange(4, f.len() as int) =~= payload);
}

// ── File transfer chunks ─────────────────────────────────

/// Files are sent in chunks of this many bytes.
pub const FILE_CHUNK_SIZE: usize = 65536;

/// The byte offset in the file at which chunk `index` is written.
pub open spec fn spec_chunk_offset(index: u32) -> nat {
    index as nat * 65536
}

/// The byte offset in the file at which chunk `index` is written.
pub fn chunk_offset(index: u32) -> (res: u64)
    ensures
        res == spec_chunk_offset(index),
{
    index as u64 * 65536
}

/// The number of chunks that `len` bytes are sent in.
pub open spec fn spec_chunk_count(len: nat) -> nat {
    ((len + 65535) / 65536) as nat
}

/// Chunk `i` of `data`.
pub open spec fn spec_chunk(data: Seq<u8>, i: int) -> Seq<u8> {
    let end = if (i + 1) * 65536 < data.len() {
        (i + 1) * 65536
    } else {
        data.len() as int
    };
    data.subrange(i * 65536, end)
}

/// Splits a file's contents into the numbered chunks it is sent in; the
/// chunk index is a `u32` (taken modulo 2^32, as an `as u32` cast does).
pub fn file_chunks(data: &[u8]) -> (res: Vec<(u32, Vec<u8>)>)
    ensures
        res@.len() == spec_chunk_count(data@.len()),
        forall|i: int|
            0 <= i < res@.len() ==> {
                &&& (#[trigger] res@[i]).0 == (i % 4294967296) as u32
                &&& res@[i].1@ == spec_chunk(data@, i)
            },
{
    let len = data.len();
    let n: usize = len / FILE_CHUNK_SIZE + (if len % FILE_CHUNK_SIZE == 0 {
        0usize
    } else {
        1usize
    });
    assert(n == spec_chunk_count(len as nat)) by (nonlinear_arith)
        requires
            n == len / 65536 + (if len % 65536 == 0 { 0int } else { 1int }),
    {
    }
    let mut out: Vec<(u32, Vec<u8>)> = Vec::new();
    let mut i: usize = 0;
    while i < n
        invariant
            len == data@.len(),
            n == spec_chunk_count(len as nat),
            i <= n,
            out@.len() == i,
            forall|j: int|
                0 <= j < i ==> {
                    &&& (#[trigger] out@[j]).0 == (j % 4294967296) as u32
                    &&& out@[j].1@ == spec_chunk(data@, j)
                },
        decreases n - i,
    {
        assert((i as int) * 65536 < len) by (nonlinear_arith)
            requires
                i < n,
                n == (len + 65535) / 65536,
        {
        }
        let start = i * 65536;
        let end = if len - start > FILE_CHUNK_SIZE {
            start + FILE_CHUNK_SIZE
        } else {
            len
        };
        let chunk = vstd::slice::slice_to_vec(vstd::slice::slice_subrange(data, start, end));
        out.push(((i as u64 % 4294967296) as u32, chunk));
        i = i + 1;
    }
    out
}

/// Writing every chunk at the offset of its index rebuilds the file: for a
/// file of fewer than 2^32 chunks, chunk `i` is exactly the bytes of the
/// file that start at `chunk_offset(index of chunk i)`.
pub proof fn law_chunks_land_at_their_offsets(data: Seq<u8>, i: int)
    requires
        spec_chunk_count(data.len()) <= 4294967296,
        0 <= i < spec_chunk_count(data.len()),
    ensures
        spec_chunk_offset((i % 4294967296) as u32) == i * 65536,
        spec_chunk(data, i) == data.subrange(
            i * 65536,
            i * 65536 + spec_chunk(data, i).len(),
        ),
        i * 65536 < data.len(),
{
    assert(i * 65536 < data.len()) by (nonlinear_arith)
        requires
            0 <= i,
            i < (data.len() + 65535) / 65536,
    {
    }
}


/// The first `k` chunks of `data`, joined in order.
pub open spec fn spec_joined_chunks(data: Seq<u8>, k: nat) -> Seq<u8>
    decreases k,
{
    if k == 0 {
        Seq::empty()
    } else {
        spec_joined_chunks(data, (k - 1) as nat) + spec_chunk(data, k - 1)
    }
}

proof fn lemma_joined_chunks(data: Seq<u8>, k: nat)
    requires
        k <= spec_chunk_count(data.len()),
    ensures
        k * 65536 <= data.len() ==> spec_joined_chunks(data, k) == data.take((k * 65536) as int),
        k * 65536 > data.len() ==> spec_joined_chunks(data, k) == data,
    decreases k,
{
    if k == 0 {
        assert(data.take(0) =~= Seq::<u8>::empty());
    } else {
        let j = (k - 1) as nat;
        lemma_joined_chunks(data, j);
        assert(j * 65536 < data.len()) by (nonlinear_arith)
            requires
                j < k,
                k <= (data.len() + 65535) / 65536,
        {
        }
        assert(k * 65536 == j * 65536 + 65536) by (nonlinear_arith)
            requires
                j == k - 1,
        {
        }
        let a: int = (j * 65536) as int;
        let b: int = (k * 65536) as int;
        if k * 65536 <= data.len() {
            assert(data.take(a) + data.subrange(a, b) =~= data.take(b));
        } else {
            assert(data.take(a) + data.subrange(a, data.len() as int) =~= data);
        }
    }
}

/// The chunks that a file is sent in, appended in order by the receiver,
/// give back the file.
pub proof fn law_chunks_reassemble(data: Seq<u8>)
    ensures
        spec_joined_chunks(data, spec_chunk_count(data.len())) == data,
{
    let n = spec_chunk_count(data.len());
    lemma_joined_chunks(data, n);
    assert(n * 65536 >= data.len()) by (nonlinear_arith)
        requires
            n == (data.len() + 65535) / 65536,
    {
    }
    if n * 65536 == data.len() {
        assert(data.take(data.len() as int) =~= data);
    }
}

} // verus!
