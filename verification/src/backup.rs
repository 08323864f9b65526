//! Hash-verified snapshot backup of a shard's store.
//!
//! A snapshot serializes the whole store, hashes the bytes, and splits
//! them into fixed-size chunks. Chunks may be re-uploaded in index order
//! and finalized into a new hash; a restore reassembles the chunks,
//! recomputes the hash, and replaces the live store only when the hash
//! matches the stored one and the bytes decode to a well-formed table —
//! otherwise the live store is left untouched.

use vstd::prelude::*;
use sha2::Digest;
use sha2::Sha256;
use crate::CHUNK_SIZE;
use crate::codec::Chunk;
use crate::codec::chunks_concat;
use crate::codec::chunks_in_order;
use crate::codec::chunks_of_payload;
use crate::codec::reassemble;
use crate::codec::split_into_chunks;
use crate::errors::BackupError;
use crate::store::Store;
use crate::store::StoreView;
use crate::store::store_inv;
use crate::store::keys_increasing;
use crate::store::request_keys_increasing;
use crate::wire::enc_u64;
use crate::wire::dec_u64;
use crate::wire::write_u64;
use crate::wire::read_u64;
use crate::wire::lemma_dec_u64;
use crate::wire::lemma_enc_u64_len;
use crate::wire::enc_string;
use crate::wire::dec_string;
use crate::wire::write_string;
use crate::wire::read_string;
use crate::wire::lemma_dec_string;
use crate::wire::lemma_concat_split;
use crate::wire_models::enc_principal;
use crate::wire_models::dec_principal;
use crate::wire_models::write_principal;
use crate::wire_models::read_principal;
use crate::wire_models::lemma_dec_principal;
use crate::wire_records::enc_profile_entry_list;
use crate::wire_records::dec_profile_entry_list;
use crate::wire_records::wf_profile_entry_list;
use crate::wire_records::write_profile_entry_list;
use crate::wire_records::read_profile_entry_list;
use crate::wire_records::lemma_dec_profile_entry_list;
use crate::wire_records::enc_request_entry_list;
use crate::wire_records::dec_request_entry_list;
use crate::wire_records::wf_request_entry_list;
use crate::wire_records::write_request_entry_list;
use crate::wire_records::read_request_entry_list;
use crate::wire_records::lemma_dec_request_entry_list;
use vstd::utf8::encode_utf8;

verus! {

// ---------------------------------------------------------------------
// the snapshot wire format
// ---------------------------------------------------------------------
/// Bounds the encoded sizes within a store snapshot.
pub open spec fn wf_store_wire(s: StoreView) -> bool {
    &&& encode_utf8(s.name).len() <= u64::MAX
    &&& wf_profile_entry_list(s.entries)
    &&& wf_request_entry_list(s.friend_requests)
}

/// Encoding of a whole store: name, shard address, capacity, allocation
/// counter, record table, friend request table.
pub open spec fn enc_store(s: StoreView) -> Seq<u8> {
    enc_string(s.name) + enc_principal(s.canister) + enc_u64(s.capacity) + enc_u64(
        s.current_entry_id,
    ) + enc_profile_entry_list(s.entries) + enc_request_entry_list(s.friend_requests)
}

/// Reads a whole store at `pos`.
pub open spec fn dec_store(b: Seq<u8>, pos: int) -> Option<(StoreView, int)> {
    match dec_string(b, pos) {
        None => None,
        Some((name, p1)) => match dec_principal(b, p1) {
            None => None,
            Some((canister, p2)) => match dec_u64(b, p2) {
                None => None,
                Some((capacity, p3)) => match dec_u64(b, p3) {
                    None => None,
                    Some((current_entry_id, p4)) => match dec_profile_entry_list(b, p4) {
                        None => None,
                        Some((entries, p5)) => match dec_request_entry_list(b, p5) {
                            None => None,
                            Some((friend_requests, p6)) => Some(
                                (
                                    StoreView {
                                        name,
                                        canister,
                                        capacity,
                                        current_entry_id,
                                        entries,
                                        friend_requests,
                                    },
                                    p6,
                                ),
                            ),
                        },
                    },
                },
            },
        },
    }
}

/// The store a snapshot payload decodes to: the bytes must hold exactly
/// one store encoding, and the decoded table must satisfy the store's
/// invariant.
pub open spec fn dec_store_payload(b: Seq<u8>) -> Option<StoreView> {
    match dec_store(b, 0) {
        None => None,
        Some((s, p)) => if p == b.len() && store_inv(s) {
            Some(s)
        } else {
            None
        },
    }
}

/// Reading at a position holding `enc_store(v)` yields `v`.
pub proof fn lemma_dec_store(b: Seq<u8>, pos: int, v: StoreView)
    requires
        0 <= pos,
        wf_store_wire(v),
        pos + enc_store(v).len() <= b.len(),
        b.subrange(pos, pos + enc_store(v).len()) == enc_store(v),
    ensures
        dec_store(b, pos) == Some((v, pos + enc_store(v).len())),
{
    let e1 = enc_string(v.name);
    let e2 = enc_principal(v.canister);
    let e3 = enc_u64(v.capacity);
    let e4 = enc_u64(v.current_entry_id);
    let e5 = enc_profile_entry_list(v.entries);
    let e6 = enc_request_entry_list(v.friend_requests);
    let p1 = e1;
    let p2 = p1 + e2;
    let p3 = p2 + e3;
    let p4 = p3 + e4;
    let p5 = p4 + e5;
    let p6 = p5 + e6;
    assert(enc_store(v) == p6);
    lemma_enc_u64_len(v.canister.id);
    lemma_enc_u64_len(v.capacity);
    lemma_enc_u64_len(v.current_entry_id);
    lemma_concat_split(b, pos, p5, e6);
    lemma_concat_split(b, pos, p4, e5);
    lemma_concat_split(b, pos, p3, e4);
    lemma_concat_split(b, pos, p2, e3);
    lemma_concat_split(b, pos, p1, e2);
    lemma_dec_string(b, pos, v.name);
    lemma_dec_principal(b, pos + p1.len(), v.canister);
    lemma_dec_u64(b, pos + p2.len(), v.capacity);
    lemma_dec_u64(b, pos + p3.len(), v.current_entry_id);
    lemma_dec_profile_entry_list(b, pos + p4.len(), v.entries);
    lemma_dec_request_entry_list(b, pos + p5.len(), v.friend_requests);
}

/// Serializes the whole store into its snapshot bytes.
pub fn serialize_store(store: &Store) -> (r: Vec<u8>)
    ensures
        r@ == enc_store(store@),
        wf_store_wire(store@),
{
    let ghost v = store@;
    let ghost e1 = enc_string(v.name);
    let ghost e2 = enc_principal(v.canister);
    let ghost e3 = enc_u64(v.capacity);
    let ghost e4 = enc_u64(v.current_entry_id);
    let ghost e5 = enc_profile_entry_list(v.entries);
    let ghost e6 = enc_request_entry_list(v.friend_requests);
    let mut out: Vec<u8> = Vec::new();
    write_string(&mut out, &store.name);
    write_principal(&mut out, store.canister);
    write_u64(&mut out, store.capacity);
    write_u64(&mut out, store.current_entry_id);
    write_profile_entry_list(&mut out, &store.entries);
    write_request_entry_list(&mut out, &store.friend_requests);
    proof {
        assert(out@ =~= enc_store(v));
    }
    out
}

/// Checks the store invariant on a decoded table, mirroring `store_inv`.
fn check_store_inv(store: &Store) -> (r: bool)
    ensures
        r == store_inv(store@),
{
    if store.entries.len() as u64 > store.capacity {
        return false;
    }
    let mut i: usize = 0;
    while i < store.entries.len()
        invariant
            i <= store.entries@.len(),
            store@.entries.len() == store.entries@.len(),
            forall|k: int|
                0 <= k < i as int ==> (#[trigger] store@.entries[k]).0 < store@.current_entry_id,
            forall|k: int|
                0 < k < i as int ==> store@.entries[k - 1].0 < (#[trigger] store@.entries[k]).0,
        decreases store.entries.len() - i,
    {
        proof {
            assert(store@.entries[i as int] == crate::profile_models::profile_entry_view(
                store.entries@[i as int],
            ));
        }
        if store.entries[i].0 >= store.current_entry_id {
            proof {
                assert(!store_inv(store@));
            }
            return false;
        }
        if i > 0 {
            proof {
                assert(store@.entries[i as int - 1] == crate::profile_models::profile_entry_view(
                    store.entries@[i as int - 1],
                ));
            }
            if store.entries[i - 1].0 >= store.entries[i].0 {
                proof {
                    assert(!keys_increasing(store@.entries));
                }
                return false;
            }
        }
        i = i + 1;
    }
    let mut j: usize = 0;
    while j < store.friend_requests.len()
        invariant
            j <= store.friend_requests@.len(),
            store@.friend_requests.len() == store.friend_requests@.len(),
            forall|k: int|
                0 < k < j as int ==> store@.friend_requests[k - 1].0 < (
                #[trigger] store@.friend_requests[k]).0,
        decreases store.friend_requests.len() - j,
    {
        if j > 0 {
            proof {
                assert(store@.friend_requests[j as int] == crate::profile_models::request_entry_view(
                    store.friend_requests@[j as int],
                ));
                assert(store@.friend_requests[j as int - 1]
                    == crate::profile_models::request_entry_view(
                    store.friend_requests@[j as int - 1],
                ));
            }
            if store.friend_requests[j - 1].0 >= store.friend_requests[j].0 {
                proof {
                    assert(!request_keys_increasing(store@.friend_requests));
                }
                return false;
            }
        }
        j = j + 1;
    }
    proof {
        lemma_adjacent_implies_increasing(store@);
    }
    true
}

/// Adjacent-key ordering gives the pairwise ordering of the invariant.
proof fn lemma_adjacent_implies_increasing(s: StoreView)
    requires
        forall|k: int| 0 < k < s.entries.len() ==> s.entries[k - 1].0 < (#[trigger] s.entries[k]).0,
        forall|k: int|
            0 < k < s.friend_requests.len() ==> s.friend_requests[k - 1].0 < (
            #[trigger] s.friend_requests[k]).0,
    ensures
        keys_increasing(s.entries),
        request_keys_increasing(s.friend_requests),
{
    assert forall|i: int, j: int| 0 <= i < j < s.entries.len() implies s.entries[i].0
        < s.entries[j].0 by {
        lemma_chain_entries(s.entries, i, j);
    }
    assert forall|i: int, j: int| 0 <= i < j < s.friend_requests.len() implies s.friend_requests[i].0
        < s.friend_requests[j].0 by {
        lemma_chain_requests(s.friend_requests, i, j);
    }
}

/// Chains adjacent record-key orderings from `i` up to `j`.
proof fn lemma_chain_entries(
    entries: Seq<(u64, crate::profile_models::ProfileView)>,
    i: int,
    j: int,
)
    requires
        forall|k: int| 0 < k < entries.len() ==> entries[k - 1].0 < (#[trigger] entries[k]).0,
        0 <= i < j < entries.len(),
    ensures
        entries[i].0 < entries[j].0,
    decreases j - i,
{
    if j == i + 1 {
    } else {
        lemma_chain_entries(entries, i, j - 1);
    }
}

/// Chains adjacent request-id orderings from `i` up to `j`.
proof fn lemma_chain_requests(
    entries: Seq<(u64, crate::profile_models::FriendRequestView)>,
    i: int,
    j: int,
)
    requires
        forall|k: int| 0 < k < entries.len() ==> entries[k - 1].0 < (#[trigger] entries[k]).0,
        0 <= i < j < entries.len(),
    ensures
        entries[i].0 < entries[j].0,
    decreases j - i,
{
    if j == i + 1 {
    } else {
        lemma_chain_requests(entries, i, j - 1);
    }
}

/// Decodes snapshot bytes back into a store, mirroring
/// `dec_store_payload`: the bytes must hold exactly one store encoding
/// whose table satisfies the store invariant.
pub fn deserialize_store(bytes: &Vec<u8>) -> (r: Option<Store>)
    ensures
        match r {
            Some(store) => dec_store_payload(bytes@) == Some(store@) && store.inv(),
            None => dec_store_payload(bytes@) is None,
        },
{
    let parsed = match read_string(bytes, 0) {
        None => None,
        Some((name, p1)) => match read_principal(bytes, p1) {
            None => None,
            Some((canister, p2)) => match read_u64(bytes, p2) {
                None => None,
                Some((capacity, p3)) => match read_u64(bytes, p3) {
                    None => None,
                    Some((current_entry_id, p4)) => match read_profile_entry_list(bytes, p4) {
                        None => None,
                        Some((entries, p5)) => match read_request_entry_list(bytes, p5) {
                            None => None,
                            Some((friend_requests, p6)) => Some(
                                (
                                    Store {
                                        name,
                                        canister,
                                        capacity,
                                        current_entry_id,
                                        entries,
                                        friend_requests,
                                    },
                                    p6,
                                ),
                            ),
                        },
                    },
                },
            },
        },
    };
    match parsed {
        None => None,
        Some((store, p)) => {
            if p != bytes.len() {
                return None;
            }
            if !check_store_inv(&store) {
                return None;
            }
            Some(store)
        },
    }
}

// ---------------------------------------------------------------------
// the content hash
// ---------------------------------------------------------------------
/// The SHA-256 digest of a byte sequence. The digest is a function of the
/// bytes alone; only its length is stated beside the name.
pub uninterp spec fn sha256_of(bytes: Seq<u8>) -> Seq<u8>;

/// Relies on sha2's Sha256: `digest` returns the 32-byte SHA-256 digest
/// of its input, a function of the input bytes alone.
#[verifier::external_body]
fn sha256(bytes: &Vec<u8>) -> (r: Vec<u8>)
    ensures
        r@ == sha256_of(bytes@),
        r@.len() == 32,
{
    Sha256::digest(bytes.as_slice()).to_vec()
}

/// The lower-case hex digit for a value below 16.
pub open spec fn spec_hex_digit(n: u8) -> char {
    if n == 0 {
        '0'
    } else if n == 1 {
        '1'
    } else if n == 2 {
        '2'
    } else if n == 3 {
        '3'
    } else if n == 4 {
        '4'
    } else if n == 5 {
        '5'
    } else if n == 6 {
        '6'
    } else if n == 7 {
        '7'
    } else if n == 8 {
        '8'
    } else if n == 9 {
        '9'
    } else if n == 10 {
        'a'
    } else if n == 11 {
        'b'
    } else if n == 12 {
        'c'
    } else if n == 13 {
        'd'
    } else if n == 14 {
        'e'
    } else {
        'f'
    }
}

/// The lower-case hex rendering of a byte sequence, two digits per byte.
pub open spec fn spec_hex(bytes: Seq<u8>) -> Seq<char>
    decreases bytes.len(),
{
    if bytes.len() == 0 {
        Seq::empty()
    } else {
        spec_hex(bytes.drop_last()) + seq![
            spec_hex_digit(bytes.last() / 16),
            spec_hex_digit(bytes.last() % 16),
        ]
    }
}

/// Appends the hex digit for a value below 16 to `out`.
fn push_hex_digit(out: &mut String, n: u8)
    requires
        n < 16,
    ensures
        final(out)@ == old(out)@ + seq![spec_hex_digit(n)],
{
    let digit = if n == 0 {
        "0"
    } else if n == 1 {
        "1"
    } else if n == 2 {
        "2"
    } else if n == 3 {
        "3"
    } else if n == 4 {
        "4"
    } else if n == 5 {
        "5"
    } else if n == 6 {
        "6"
    } else if n == 7 {
        "7"
    } else if n == 8 {
        "8"
    } else if n == 9 {
        "9"
    } else if n == 10 {
        "a"
    } else if n == 11 {
        "b"
    } else if n == 12 {
        "c"
    } else if n == 13 {
        "d"
    } else if n == 14 {
        "e"
    } else {
        "f"
    };
    proof {
        reveal_strlit("0");
        reveal_strlit("1");
        reveal_strlit("2");
        reveal_strlit("3");
        reveal_strlit("4");
        reveal_strlit("5");
        reveal_strlit("6");
        reveal_strlit("7");
        reveal_strlit("8");
        reveal_strlit("9");
        reveal_strlit("a");
        reveal_strlit("b");
        reveal_strlit("c");
        reveal_strlit("d");
        reveal_strlit("e");
        reveal_strlit("f");
        assert(digit@ =~= seq![spec_hex_digit(n)]);
    }
    out.append(digit);
}

/// Renders a content hash as lower-case hex, two digits per byte.
pub fn hash_string(hash: &Vec<u8>) -> (r: String)
    ensures
        r@ == spec_hex(hash@),
{
    let mut out = String::new();
    let mut i: usize = 0;
    while i < hash.len()
        invariant
            i <= hash@.len(),
            out@ == spec_hex(hash@.subrange(0, i as int)),
        decreases hash.len() - i,
    {
        let byte = hash[i];
        push_hex_digit(&mut out, byte / 16);
        push_hex_digit(&mut out, byte % 16);
        i = i + 1;
        proof {
            assert(hash@.subrange(0, i as int).drop_last() =~= hash@.subrange(0, i as int - 1));
            assert(hash@.subrange(0, i as int).last() == hash@[i as int - 1]);
            assert(out@ =~= spec_hex(hash@.subrange(0, i as int)));
        }
    }
    proof {
        assert(hash@.subrange(0, hash@.len() as int) =~= hash@);
    }
    out
}

/// Compares two byte strings.
fn bytes_eq(a: &Vec<u8>, b: &Vec<u8>) -> (r: bool)
    ensures
        r == (a@ == b@),
{
    if a.len() != b.len() {
        proof {
            assert(a@.len() != b@.len());
        }
        return false;
    }
    let mut i: usize = 0;
    while i < a.len()
        invariant
            i <= a@.len(),
            a@.len() == b@.len(),
            forall|k: int| 0 <= k < i as int ==> a@[k] == b@[k],
        decreases a.len() - i,
    {
        if a[i] != b[i] {
            return false;
        }
        i = i + 1;
    }
    proof {
        assert(a@ =~= b@);
    }
    true
}

// ---------------------------------------------------------------------
// the backup state
// ---------------------------------------------------------------------
/// A shard's backup state: the content hash of the serialized table and
/// the ordered chunk sequence it was split into.
pub struct Backup {
    pub hash: Vec<u8>,
    pub chunks: Vec<Chunk>,
}

impl Backup {
    /// An empty backup: no hash, no chunks.
    pub fn new() -> (r: Backup)
        ensures
            r.hash@.len() == 0,
            r.chunks@.len() == 0,
    {
        Backup { hash: Vec::new(), chunks: Vec::new() }
    }

    /// Takes a snapshot of the live store: discards any prior backup,
    /// serializes the store, hashes the bytes, splits them into chunks of
    /// `CHUNK_SIZE` bytes, and returns the hash rendered as hex.
    pub fn backup_data(&mut self, store: &Store) -> (r: String)
        ensures
            chunks_of_payload(final(self).chunks@, enc_store(store@), CHUNK_SIZE as int),
            chunks_concat(final(self).chunks@) == enc_store(store@),
            final(self).hash@ == sha256_of(enc_store(store@)),
            wf_store_wire(store@),
            r@ == spec_hex(sha256_of(enc_store(store@))),
    {
        let serialized = serialize_store(store);
        let digest = sha256(&serialized);
        self.chunks = split_into_chunks(&serialized, CHUNK_SIZE);
        self.hash = digest;
        hash_string(&self.hash)
    }

    /// Number of chunks the backup holds.
    pub fn check_backup_data_chunks(&self) -> (r: usize)
        ensures
            r == self.chunks@.len(),
    {
        self.chunks.len()
    }

    /// Number of chunks the backup holds.
    pub fn total_chunks(&self) -> (r: usize)
        ensures
            r == self.chunks@.len(),
    {
        self.chunks.len()
    }

    /// Fetches the stored chunk at index `n`; an index at or beyond the
    /// chunk count is rejected.
    pub fn download_chunk(&self, n: u64) -> (r: Result<Chunk, BackupError>)
        ensures
            match r {
                Ok(c) => n < self.chunks@.len() && c.chunk_id == self.chunks@[n as int].chunk_id
                    && c.data@ == self.chunks@[n as int].data@,
                Err(e) => e is IndexOutOfRange && n >= self.chunks@.len(),
            },
    {
        if n < self.chunks.len() as u64 {
            let i = n as usize;
            Ok(self.chunks[i].clone())
        } else {
            Err(BackupError::IndexOutOfRange)
        }
    }

    /// Stores an uploaded chunk. Rejected when a finalized backup is still
    /// present (`NotEmpty`) or when the chunk's index skips past the next
    /// expected index (`ChunkOrderError`); an index below the count
    /// overwrites that chunk.
    pub fn upload_chunk(&mut self, chunk: Chunk) -> (r: Result<(), BackupError>)
        ensures
            match r {
                Ok(()) => {
                    &&& old(self).hash@.len() == 0
                    &&& chunk.chunk_id <= old(self).chunks@.len()
                    &&& final(self).hash@ == old(self).hash@
                    &&& (if chunk.chunk_id < old(self).chunks@.len() {
                        final(self).chunks@ == old(self).chunks@.update(
                            chunk.chunk_id as int,
                            chunk,
                        )
                    } else {
                        final(self).chunks@ == old(self).chunks@.push(chunk)
                    })
                },
                Err(e) => {
                    &&& *final(self) == *old(self)
                    &&& (e is NotEmpty ==> old(self).hash@.len() > 0)
                    &&& (e is ChunkOrderError ==> chunk.chunk_id > old(self).chunks@.len())
                    &&& (e is NotEmpty || e is ChunkOrderError)
                },
            },
    {
        if self.hash.len() > 0 {
            return Err(BackupError::NotEmpty);
        }
        if chunk.chunk_id > self.chunks.len() as u64 {
            return Err(BackupError::ChunkOrderError);
        }
        if chunk.chunk_id < self.chunks.len() as u64 {
            let i = chunk.chunk_id as usize;
            self.chunks.set(i, chunk);
        } else {
            self.chunks.push(chunk);
        }
        Ok(())
    }

    /// Concatenates the uploaded chunks in index order, hashes them, and
    /// stores and returns the hash; out-of-order chunks abort the call
    /// with the backup unchanged.
    pub fn finalize_upload(&mut self) -> (r: Result<String, BackupError>)
        ensures
            match r {
                Ok(h) => {
                    &&& chunks_in_order(old(self).chunks@)
                    &&& final(self).chunks@ == old(self).chunks@
                    &&& final(self).hash@ == sha256_of(chunks_concat(old(self).chunks@))
                    &&& h@ == spec_hex(sha256_of(chunks_concat(old(self).chunks@)))
                },
                Err(e) => {
                    &&& e is ChunkOrderError
                    &&& !chunks_in_order(old(self).chunks@)
                    &&& *final(self) == *old(self)
                },
            },
    {
        let concatenated = match reassemble(&self.chunks) {
            Ok(bytes) => bytes,
            Err(e) => {
                return Err(e);
            },
        };
        let digest = sha256(&concatenated);
        self.hash = digest;
        Ok(hash_string(&self.hash))
    }

    /// Restores the live store from the uploaded chunks: reassembles them
    /// in index order, recomputes the hash, and replaces `store` only when
    /// the hash equals the stored one and the bytes decode to a
    /// well-formed table. Every failure leaves `store` untouched.
    pub fn restore_data(&self, store: &mut Store) -> (r: Result<String, BackupError>)
        ensures
            match r {
                Ok(h) => {
                    &&& chunks_in_order(self.chunks@)
                    &&& sha256_of(chunks_concat(self.chunks@)) == self.hash@
                    &&& dec_store_payload(chunks_concat(self.chunks@)) == Some(final(store)@)
                    &&& final(store).inv()
                    &&& h@ == spec_hex(self.hash@)
                },
                Err(e) => {
                    &&& *final(store) == *old(store)
                    &&& (e is ChunkOrderError ==> !chunks_in_order(self.chunks@))
                    &&& (e is HashMismatch ==> chunks_in_order(self.chunks@) && sha256_of(
                        chunks_concat(self.chunks@),
                    ) != self.hash@)
                    &&& (e is DecodeError ==> chunks_in_order(self.chunks@) && sha256_of(
                        chunks_concat(self.chunks@),
                    ) == self.hash@ && dec_store_payload(chunks_concat(self.chunks@)) is None)
                    &&& (e is ChunkOrderError || e is HashMismatch || e is DecodeError)
                },
            },
    {
        let concatenated = match reassemble(&self.chunks) {
            Ok(bytes) => bytes,
            Err(e) => {
                return Err(e);
            },
        };
        let digest = sha256(&concatenated);
        if !bytes_eq(&self.hash, &digest) {
            return Err(BackupError::HashMismatch);
        }
        let restored = match deserialize_store(&concatenated) {
            None => {
                return Err(BackupError::DecodeError);
            },
            Some(s) => s,
        };
        *store = restored;
        Ok(hash_string(&self.hash))
    }

    /// Clears the backup back to its empty state.
    pub fn remove_backup(&mut self)
        ensures
            final(self).hash@.len() == 0,
            final(self).chunks@.len() == 0,
    {
        self.hash = Vec::new();
        self.chunks = Vec::new();
    }

    /// Clears the backup back to its empty state.
    pub fn clear_backup(&mut self)
        ensures
            final(self).hash@.len() == 0,
            final(self).chunks@.len() == 0,
    {
        self.remove_backup();
    }
}

impl Default for Backup {
    /// The empty backup state.
    fn default() -> (r: Self)
        ensures
            r.hash@.len() == 0,
            r.chunks@.len() == 0,
    {
        Backup::new()
    }
}

/// A snapshot restores the very table it was taken from: the chunks of a
/// snapshot of store `s` are in index order, reassemble to the exact
/// snapshot bytes, carry a matching hash, and decode back to `s` itself.
pub proof fn lemma_snapshot_restore_round_trip(b: Backup, s: Store)
    requires
        store_inv(s@),
        wf_store_wire(s@),
        chunks_of_payload(b.chunks@, enc_store(s@), CHUNK_SIZE as int),
        chunks_concat(b.chunks@) == enc_store(s@),
        b.hash@ == sha256_of(enc_store(s@)),
    ensures
        chunks_in_order(b.chunks@),
        sha256_of(chunks_concat(b.chunks@)) == b.hash@,
        dec_store_payload(chunks_concat(b.chunks@)) == Some(s@),
{
    let bytes = enc_store(s@);
    assert(bytes.subrange(0, bytes.len() as int) =~= bytes);
    lemma_dec_store(bytes, 0, s@);
}

} // verus!
