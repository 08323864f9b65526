//! The chunked transfer codec.
//!
//! An opaque byte payload is partitioned into contiguous, zero-indexed
//! slices of at most a given size; reassembly concatenates slices strictly
//! by index and treats any out-of-order slice as a fatal protocol violation.
//! The read side serves one slice per call together with a
//! `(chunk_index, last_chunk_index)` marker; a payload no larger than one
//! slice is served whole under the sentinel marker `(0, 0)`.

use vstd::prelude::*;
use vstd::arithmetic::div_mod::lemma_fundamental_div_mod;
use vstd::arithmetic::div_mod::lemma_fundamental_div_mod_converse;
use vstd::arithmetic::mul::lemma_mul_inequality;
use vstd::slice::slice_subrange;
use vstd::slice::slice_to_vec;
use crate::errors::BackupError;

verus! {

/// One slice of a chunked transfer, tagged with its zero-based index.
pub struct Chunk {
    pub chunk_id: u64,
    pub data: Vec<u8>,
}

impl Clone for Chunk {
    fn clone(&self) -> (r: Self)
        ensures
            r.chunk_id == self.chunk_id,
            r.data@ == self.data@,
    {
        Chunk { chunk_id: self.chunk_id, data: slice_to_vec(self.data.as_slice()) }
    }
}

/// Number of chunks a payload of `len` bytes occupies at `m` bytes per
/// chunk: zero for an empty payload, else the rounded-up quotient.
pub open spec fn spec_num_chunks(len: int, m: int) -> int {
    if len == 0 {
        0
    } else {
        (len - 1) / m + 1
    }
}

/// Start offset of chunk `i` of a payload of `len` bytes, clipped to the
/// payload's length.
pub open spec fn spec_chunk_start(len: int, m: int, i: int) -> int {
    if i * m <= len {
        i * m
    } else {
        len
    }
}

/// End offset (exclusive) of chunk `i`, clipped to the payload's length.
pub open spec fn spec_chunk_end(len: int, m: int, i: int) -> int {
    if (i + 1) * m <= len {
        (i + 1) * m
    } else {
        len
    }
}

/// The bytes of chunk `i`: the slice `[i*m, (i+1)*m)` clipped to the
/// payload's length.
pub open spec fn spec_chunk_data(payload: Seq<u8>, m: int, i: int) -> Seq<u8> {
    payload.subrange(
        spec_chunk_start(payload.len() as int, m, i),
        spec_chunk_end(payload.len() as int, m, i),
    )
}

/// Concatenation of a chunk sequence's data, in sequence order.
pub open spec fn chunks_concat(chunks: Seq<Chunk>) -> Seq<u8>
    decreases chunks.len(),
{
    if chunks.len() == 0 {
        Seq::empty()
    } else {
        chunks_concat(chunks.drop_last()) + chunks.last().data@
    }
}

/// Every chunk sits at the position its index names.
pub open spec fn chunks_in_order(chunks: Seq<Chunk>) -> bool {
    forall|i: int| 0 <= i < chunks.len() ==> (#[trigger] chunks[i]).chunk_id == i
}

/// The chunk sequence is exactly the partition of `payload` into slices of
/// at most `m` bytes, in index order.
pub open spec fn chunks_of_payload(chunks: Seq<Chunk>, payload: Seq<u8>, m: int) -> bool {
    &&& chunks.len() == spec_num_chunks(payload.len() as int, m)
    &&& chunks_in_order(chunks)
    &&& forall|i: int|
        0 <= i < chunks.len() ==> (#[trigger] chunks[i]).data@ == spec_chunk_data(payload, m, i)
}

/// Appends all of `src` to `dst`.
pub fn append_bytes(dst: &mut Vec<u8>, src: &Vec<u8>)
    ensures
        final(dst)@ == old(dst)@ + src@,
{
    let mut j: usize = 0;
    while j < src.len()
        invariant
            j <= src.len(),
            dst@ == old(dst)@ + src@.subrange(0, j as int),
        decreases src.len() - j,
    {
        dst.push(src[j]);
        j = j + 1;
        proof {
            assert(dst@ =~= old(dst)@ + src@.subrange(0, j as int));
        }
    }
    proof {
        assert(old(dst)@ + src@.subrange(0, src@.len() as int) =~= old(dst)@ + src@);
    }
}

/// Partitions `payload` into ordered chunks of at most `max_chunk_bytes`
/// bytes each; concatenating them in order gives the payload back.
pub fn split_into_chunks(payload: &Vec<u8>, max_chunk_bytes: usize) -> (r: Vec<Chunk>)
    requires
        max_chunk_bytes >= 1,
    ensures
        chunks_of_payload(r@, payload@, max_chunk_bytes as int),
        chunks_concat(r@) == payload@,
{
    let ghost m = max_chunk_bytes as int;
    let ghost len = payload@.len() as int;
    let mut r: Vec<Chunk> = Vec::new();
    let mut off: usize = 0;
    while off < payload.len()
        invariant
            m == max_chunk_bytes as int,
            max_chunk_bytes >= 1,
            len == payload@.len() as int,
            off <= payload.len(),
            off < len ==> off == r@.len() * m,
            off == len && r@.len() > 0 ==> (r@.len() - 1) * m < len <= r@.len() * m,
            off == len && len == 0 ==> r@.len() == 0,
            chunks_in_order(r@),
            forall|i: int|
                0 <= i < r@.len() ==> (#[trigger] r@[i]).data@ == spec_chunk_data(payload@, m, i),
            chunks_concat(r@) == payload@.subrange(0, off as int),
        decreases payload.len() - off,
    {
        let ghost k = r@.len() as int;
        let ghost prev = r@;
        let ghost prev_off = off as int;
        let take = if payload.len() - off <= max_chunk_bytes {
            payload.len() - off
        } else {
            max_chunk_bytes
        };
        let piece = slice_to_vec(slice_subrange(payload.as_slice(), off, off + take));
        proof {
            assert((k + 1) * m == k * m + m) by (nonlinear_arith);
            assert(spec_chunk_start(len, m, k) == prev_off);
            assert(spec_chunk_end(len, m, k) == prev_off + take as int);
            assert(piece@ == spec_chunk_data(payload@, m, k));
        }
        let next_id = r.len() as u64;
        r.push(Chunk { chunk_id: next_id, data: piece });
        off = off + take;
        proof {
            assert(r@.drop_last() =~= prev);
            assert(chunks_concat(r@) == chunks_concat(prev) + piece@);
            assert(payload@.subrange(0, prev_off) + payload@.subrange(prev_off, off as int)
                =~= payload@.subrange(0, off as int));
        }
    }
    proof {
        if payload@.len() > 0 {
            let k = r@.len() as int;
            assert(k > 0);
            assert(k * m == (k - 1) * m + m) by (nonlinear_arith);
            lemma_fundamental_div_mod_converse(len - 1, m, k - 1, len - 1 - (k - 1) * m);
            assert(r@.len() == spec_num_chunks(len, m));
        }
        assert(payload@.subrange(0, len) =~= payload@);
    }
    r
}

/// Serves chunk `chunk` of `payload` at `max_bytes_per_chunk` bytes per
/// chunk, together with the `(chunk, last_chunk_index)` marker; a payload
/// that fits in one chunk is returned whole under the sentinel `(0, 0)`.
pub fn chunk_read(payload: &Vec<u8>, chunk: usize, max_bytes_per_chunk: usize) -> (r: (
    Vec<u8>,
    (usize, usize),
))
    requires
        max_bytes_per_chunk >= 1,
    ensures
        payload@.len() <= max_bytes_per_chunk ==> r.0@ == payload@ && r.1 == (0usize, 0usize),
        payload@.len() > max_bytes_per_chunk ==> {
            &&& r.0@ == spec_chunk_data(payload@, max_bytes_per_chunk as int, chunk as int)
            &&& r.1.0 == chunk
            &&& r.1.1 == spec_num_chunks(payload@.len() as int, max_bytes_per_chunk as int) - 1
        },
{
    let ghost m = max_bytes_per_chunk as int;
    let ghost len = payload@.len() as int;
    if payload.len() <= max_bytes_per_chunk {
        return (slice_to_vec(payload.as_slice()), (0, 0));
    }
    let last = (payload.len() - 1) / max_bytes_per_chunk;
    proof {
        assert(last == (len - 1) / m);
        assert(spec_num_chunks(len, m) - 1 == last);
        lemma_fundamental_div_mod(len - 1, m);
        assert(len - 1 == m * ((len - 1) / m) + (len - 1) % m);
    }
    if chunk > last {
        proof {
            lemma_mul_inequality(last as int + 1, chunk as int, m);
            assert((last as int + 1) * m == last as int * m + m) by (nonlinear_arith);
            assert(m * (last as int) == (last as int) * m) by (nonlinear_arith);
            assert(len <= chunk as int * m);
            assert((chunk as int + 1) * m >= chunk as int * m + m) by (nonlinear_arith)
                requires
                    m >= 1,
            ;
            assert(spec_chunk_start(len, m, chunk as int) == len);
            assert(spec_chunk_end(len, m, chunk as int) == len);
            assert(spec_chunk_data(payload@, m, chunk as int) =~= Seq::<u8>::empty());
        }
        return (Vec::new(), (chunk, last));
    }
    proof {
        lemma_mul_inequality(chunk as int, last as int, m);
        assert(m * (last as int) == (last as int) * m) by (nonlinear_arith);
        assert(chunk as int * m <= last as int * m);
        assert(last as int * m <= len - 1);
    }
    let start = chunk * max_bytes_per_chunk;
    let end = if payload.len() - start <= max_bytes_per_chunk {
        payload.len()
    } else {
        start + max_bytes_per_chunk
    };
    let piece = slice_to_vec(slice_subrange(payload.as_slice(), start, end));
    proof {
        assert((chunk as int + 1) * m == chunk as int * m + m) by (nonlinear_arith);
        assert(spec_chunk_start(len, m, chunk as int) == start as int);
        assert(spec_chunk_end(len, m, chunk as int) == end as int);
        assert(piece@ == spec_chunk_data(payload@, m, chunk as int));
    }
    (piece, (chunk, last))
}

/// Concatenates a chunk sequence strictly by index: a chunk whose index
/// does not match its position is a fatal order violation and aborts the
/// reassembly.
pub fn reassemble(chunks: &Vec<Chunk>) -> (r: Result<Vec<u8>, BackupError>)
    ensures
        match r {
            Ok(bytes) => chunks_in_order(chunks@) && bytes@ == chunks_concat(chunks@),
            Err(e) => e is ChunkOrderError && !chunks_in_order(chunks@),
        },
{
    let mut out: Vec<u8> = Vec::new();
    let mut i: usize = 0;
    while i < chunks.len()
        invariant
            i <= chunks.len(),
            forall|j: int| 0 <= j < i as int ==> (#[trigger] chunks@[j]).chunk_id == j,
            out@ == chunks_concat(chunks@.subrange(0, i as int)),
        decreases chunks.len() - i,
    {
        if chunks[i].chunk_id != i as u64 {
            proof {
                assert(chunks@[i as int].chunk_id != i as int);
            }
            return Err(BackupError::ChunkOrderError);
        }
        append_bytes(&mut out, &chunks[i].data);
        i = i + 1;
        proof {
            assert(chunks@.subrange(0, i as int).drop_last() =~= chunks@.subrange(
                0,
                i as int - 1,
            ));
            assert(chunks@.subrange(0, i as int).last() == chunks@[i as int - 1]);
        }
    }
    proof {
        assert(chunks@.subrange(0, chunks@.len() as int) =~= chunks@);
    }
    Ok(out)
}

} // verus!
