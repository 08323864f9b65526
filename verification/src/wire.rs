//! The wire format of serialized record data.
//!
//! Every value is encoded as a fixed, canonical byte string: integers in
//! little-endian order, byte strings and text length-prefixed, options and
//! enums behind one tag byte. Each `enc_*` spec function defines the
//! encoding; each `dec_*` spec function is its exact inverse on a byte
//! sequence read from a position, and the `lemma_dec_*` lemmas prove the
//! round trip. The executable readers and writers mirror those functions.

use vstd::prelude::*;
use vstd::bytes::lemma_auto_spec_u64_to_from_le_bytes;
use vstd::bytes::spec_u64_to_le_bytes;
use vstd::bytes::spec_u64_from_le_bytes;
use vstd::bytes::u64_from_le_bytes;
use vstd::bytes::u64_to_le_bytes;
use vstd::bytes::lemma_auto_spec_u32_to_from_le_bytes;
use vstd::bytes::spec_u32_to_le_bytes;
use vstd::bytes::spec_u32_from_le_bytes;
use vstd::bytes::u32_from_le_bytes;
use vstd::bytes::u32_to_le_bytes;
use vstd::utf8::valid_utf8;
use vstd::utf8::decode_utf8;
use vstd::utf8::encode_utf8;
use vstd::utf8::encode_utf8_valid_utf8;
use vstd::utf8::encode_utf8_decode_utf8;
use vstd::slice::slice_subrange;
use vstd::slice::slice_to_vec;
use crate::codec::append_bytes;

verus! {

// ---------------------------------------------------------------------
// unsigned 64-bit integers
// ---------------------------------------------------------------------
/// Encoding of a `u64`: its eight little-endian bytes.
pub open spec fn enc_u64(x: u64) -> Seq<u8> {
    spec_u64_to_le_bytes(x)
}

/// Reads a `u64` at `pos`.
pub open spec fn dec_u64(b: Seq<u8>, pos: int) -> Option<(u64, int)> {
    if 0 <= pos && pos + 8 <= b.len() {
        Some((spec_u64_from_le_bytes(b.subrange(pos, pos + 8)), pos + 8))
    } else {
        None
    }
}

/// The encoding of a `u64` is eight bytes long.
pub proof fn lemma_enc_u64_len(x: u64)
    ensures
        enc_u64(x).len() == 8,
{
    lemma_auto_spec_u64_to_from_le_bytes();
}

/// Reading at a position holding `enc_u64(x)` yields `x`.
pub proof fn lemma_dec_u64(b: Seq<u8>, pos: int, x: u64)
    requires
        0 <= pos,
        pos + 8 <= b.len(),
        b.subrange(pos, pos + 8) == enc_u64(x),
    ensures
        dec_u64(b, pos) == Some((x, pos + 8)),
{
    lemma_auto_spec_u64_to_from_le_bytes();
    assert(enc_u64(x).len() == 8);
    assert(spec_u64_from_le_bytes(spec_u64_to_le_bytes(x)) == x);
}

/// Appends `enc_u64(x)` to `out`.
pub fn write_u64(out: &mut Vec<u8>, x: u64)
    ensures
        final(out)@ == old(out)@ + enc_u64(x),
{
    let bytes = u64_to_le_bytes(x);
    append_bytes(out, &bytes);
}

/// Reads a `u64` at `pos`, mirroring `dec_u64`.
pub fn read_u64(b: &Vec<u8>, pos: usize) -> (r: Option<(u64, usize)>)
    ensures
        match r {
            Some(vp) => dec_u64(b@, pos as int) matches Some(dv) && vp.0 == dv.0 && vp.1 == dv.1,
            None => dec_u64(b@, pos as int) is None,
        },
{
    if pos <= b.len() && b.len() - pos >= 8 {
        let piece = slice_subrange(b.as_slice(), pos, pos + 8);
        let x = u64_from_le_bytes(piece);
        Some((x, pos + 8))
    } else {
        None
    }
}

// ---------------------------------------------------------------------
// unsigned 32-bit integers
// ---------------------------------------------------------------------
/// Encoding of a `u32`: its four little-endian bytes.
pub open spec fn enc_u32(x: u32) -> Seq<u8> {
    spec_u32_to_le_bytes(x)
}

/// Reads a `u32` at `pos`.
pub open spec fn dec_u32(b: Seq<u8>, pos: int) -> Option<(u32, int)> {
    if 0 <= pos && pos + 4 <= b.len() {
        Some((spec_u32_from_le_bytes(b.subrange(pos, pos + 4)), pos + 4))
    } else {
        None
    }
}

/// The encoding of a `u32` is four bytes long.
pub proof fn lemma_enc_u32_len(x: u32)
    ensures
        enc_u32(x).len() == 4,
{
    lemma_auto_spec_u32_to_from_le_bytes();
}

/// Reading at a position holding `enc_u32(x)` yields `x`.
pub proof fn lemma_dec_u32(b: Seq<u8>, pos: int, x: u32)
    requires
        0 <= pos,
        pos + 4 <= b.len(),
        b.subrange(pos, pos + 4) == enc_u32(x),
    ensures
        dec_u32(b, pos) == Some((x, pos + 4)),
{
    lemma_auto_spec_u32_to_from_le_bytes();
    assert(enc_u32(x).len() == 4);
    assert(spec_u32_from_le_bytes(spec_u32_to_le_bytes(x)) == x);
}

/// Appends `enc_u32(x)` to `out`.
pub fn write_u32(out: &mut Vec<u8>, x: u32)
    ensures
        final(out)@ == old(out)@ + enc_u32(x),
{
    let bytes = u32_to_le_bytes(x);
    append_bytes(out, &bytes);
}

/// Reads a `u32` at `pos`, mirroring `dec_u32`.
pub fn read_u32(b: &Vec<u8>, pos: usize) -> (r: Option<(u32, usize)>)
    ensures
        match r {
            Some(vp) => dec_u32(b@, pos as int) matches Some(dv) && vp.0 == dv.0 && vp.1 == dv.1,
            None => dec_u32(b@, pos as int) is None,
        },
{
    if pos <= b.len() && b.len() - pos >= 4 {
        let piece = slice_subrange(b.as_slice(), pos, pos + 4);
        let x = u32_from_le_bytes(piece);
        Some((x, pos + 4))
    } else {
        None
    }
}

// ---------------------------------------------------------------------
// booleans
// ---------------------------------------------------------------------
/// Encoding of a `bool`: one byte, zero or one.
pub open spec fn enc_bool(x: bool) -> Seq<u8> {
    if x {
        seq![1u8]
    } else {
        seq![0u8]
    }
}

/// Reads a `bool` at `pos`; any byte but zero or one is rejected.
pub open spec fn dec_bool(b: Seq<u8>, pos: int) -> Option<(bool, int)> {
    if 0 <= pos && pos + 1 <= b.len() {
        if b[pos] == 0u8 {
            Some((false, pos + 1))
        } else if b[pos] == 1u8 {
            Some((true, pos + 1))
        } else {
            None
        }
    } else {
        None
    }
}

/// Reading at a position holding `enc_bool(x)` yields `x`.
pub proof fn lemma_dec_bool(b: Seq<u8>, pos: int, x: bool)
    requires
        0 <= pos,
        pos + 1 <= b.len(),
        b.subrange(pos, pos + 1) == enc_bool(x),
    ensures
        dec_bool(b, pos) == Some((x, pos + 1)),
{
    assert(b[pos] == enc_bool(x)[0]);
}

/// Appends `enc_bool(x)` to `out`.
pub fn write_bool(out: &mut Vec<u8>, x: bool)
    ensures
        final(out)@ == old(out)@ + enc_bool(x),
{
    if x {
        out.push(1u8);
    } else {
        out.push(0u8);
    }
    proof {
        assert(out@ =~= old(out)@ + enc_bool(x));
    }
}

/// Reads a `bool` at `pos`, mirroring `dec_bool`.
pub fn read_bool(b: &Vec<u8>, pos: usize) -> (r: Option<(bool, usize)>)
    ensures
        match r {
            Some(vp) => dec_bool(b@, pos as int) matches Some(dv) && vp.0 == dv.0 && vp.1 == dv.1,
            None => dec_bool(b@, pos as int) is None,
        },
{
    if pos < b.len() {
        let byte = b[pos];
        if byte == 0 {
            Some((false, pos + 1))
        } else if byte == 1 {
            Some((true, pos + 1))
        } else {
            None
        }
    } else {
        None
    }
}

// ---------------------------------------------------------------------
// byte strings
// ---------------------------------------------------------------------
/// Encoding of a byte string: its length as a `u64`, then its bytes.
pub open spec fn enc_bytes(s: Seq<u8>) -> Seq<u8> {
    enc_u64(s.len() as u64) + s
}

/// Reads a length-prefixed byte string at `pos`.
pub open spec fn dec_bytes(b: Seq<u8>, pos: int) -> Option<(Seq<u8>, int)> {
    match dec_u64(b, pos) {
        None => None,
        Some((n, p)) => if p + n <= b.len() {
            Some((b.subrange(p, p + n), p + n))
        } else {
            None
        },
    }
}

/// Reading at a position holding `enc_bytes(s)` yields `s`.
pub proof fn lemma_dec_bytes(b: Seq<u8>, pos: int, s: Seq<u8>)
    requires
        0 <= pos,
        s.len() <= u64::MAX,
        pos + enc_bytes(s).len() <= b.len(),
        b.subrange(pos, pos + enc_bytes(s).len()) == enc_bytes(s),
    ensures
        enc_bytes(s).len() == 8 + s.len(),
        dec_bytes(b, pos) == Some((s, pos + 8 + s.len())),
{
    lemma_auto_spec_u64_to_from_le_bytes();
    lemma_concat_split(b, pos, enc_u64(s.len() as u64), s);
    lemma_dec_u64(b, pos, s.len() as u64);
}

/// Appends `enc_bytes(s)` to `out`.
pub fn write_bytes(out: &mut Vec<u8>, s: &Vec<u8>)
    requires
        s@.len() <= u64::MAX,
    ensures
        final(out)@ == old(out)@ + enc_bytes(s@),
{
    write_u64(out, s.len() as u64);
    append_bytes(out, s);
    proof {
        assert(out@ =~= old(out)@ + enc_bytes(s@));
    }
}

/// Reads a length-prefixed byte string at `pos`, mirroring `dec_bytes`.
pub fn read_bytes(b: &Vec<u8>, pos: usize) -> (r: Option<(Vec<u8>, usize)>)
    ensures
        match r {
            Some(vp) => dec_bytes(b@, pos as int) matches Some(dv) && vp.0@ == dv.0 && vp.1
                == dv.1,
            None => dec_bytes(b@, pos as int) is None,
        },
{
    match read_u64(b, pos) {
        None => None,
        Some((n, p)) => {
            if n <= (b.len() - p) as u64 {
                let n_us = n as usize;
                let piece = slice_to_vec(slice_subrange(b.as_slice(), p, p + n_us));
                Some((piece, p + n_us))
            } else {
                None
            }
        },
    }
}

// ---------------------------------------------------------------------
// text
// ---------------------------------------------------------------------
/// Encoding of text: its UTF-8 bytes as a length-prefixed byte string.
pub open spec fn enc_string(s: Seq<char>) -> Seq<u8> {
    enc_bytes(encode_utf8(s))
}

/// Reads length-prefixed UTF-8 text at `pos`; invalid UTF-8 is rejected.
pub open spec fn dec_string(b: Seq<u8>, pos: int) -> Option<(Seq<char>, int)> {
    match dec_bytes(b, pos) {
        None => None,
        Some((bs, p)) => if valid_utf8(bs) {
            Some((decode_utf8(bs), p))
        } else {
            None
        },
    }
}

/// Reading at a position holding `enc_string(s)` yields `s`.
pub proof fn lemma_dec_string(b: Seq<u8>, pos: int, s: Seq<char>)
    requires
        0 <= pos,
        encode_utf8(s).len() <= u64::MAX,
        pos + enc_string(s).len() <= b.len(),
        b.subrange(pos, pos + enc_string(s).len()) == enc_string(s),
    ensures
        enc_string(s).len() == 8 + encode_utf8(s).len(),
        dec_string(b, pos) == Some((s, pos + enc_string(s).len())),
{
    lemma_dec_bytes(b, pos, encode_utf8(s));
    encode_utf8_valid_utf8(s);
    encode_utf8_decode_utf8(s);
}

/// Relies on String::from_utf8: it returns Ok exactly when the bytes are
/// valid UTF-8, and the returned string holds those bytes' characters.
#[verifier::external_body]
fn bytes_to_string(v: Vec<u8>) -> (r: Option<String>)
    ensures
        match r {
            Some(s) => valid_utf8(v@) && s@ == decode_utf8(v@),
            None => !valid_utf8(v@),
        },
{
    match String::from_utf8(v) {
        Ok(s) => Some(s),
        Err(_) => None,
    }
}

/// Appends `enc_string(s)` to `out`.
pub fn write_string(out: &mut Vec<u8>, s: &String)
    ensures
        final(out)@ == old(out)@ + enc_string(s@),
        encode_utf8(s@).len() <= u64::MAX,
{
    let bytes = s.as_str().as_bytes_vec();
    let bytes_len = bytes.len();
    proof {
        assert(bytes@.len() == bytes_len);
    }
    write_bytes(out, &bytes);
}

/// Reads length-prefixed UTF-8 text at `pos`, mirroring `dec_string`.
pub fn read_string(b: &Vec<u8>, pos: usize) -> (r: Option<(String, usize)>)
    ensures
        match r {
            Some(vp) => dec_string(b@, pos as int) matches Some(dv) && vp.0@ == dv.0 && vp.1
                == dv.1,
            None => dec_string(b@, pos as int) is None,
        },
{
    match read_bytes(b, pos) {
        None => None,
        Some((bs, p)) => match bytes_to_string(bs) {
            None => None,
            Some(s) => Some((s, p)),
        },
    }
}

// ---------------------------------------------------------------------
// shared splitting lemma
// ---------------------------------------------------------------------
/// A byte region holding `e1 + e2` holds `e1` and then `e2`.
pub proof fn lemma_concat_split(b: Seq<u8>, pos: int, e1: Seq<u8>, e2: Seq<u8>)
    requires
        0 <= pos,
        pos + e1.len() + e2.len() <= b.len(),
        b.subrange(pos, pos + e1.len() + e2.len()) == e1 + e2,
    ensures
        b.subrange(pos, pos + e1.len()) == e1,
        b.subrange(pos + e1.len(), pos + e1.len() + e2.len()) == e2,
{
    let whole = b.subrange(pos, pos + e1.len() + e2.len());
    assert forall|j: int| 0 <= j < e1.len() implies b.subrange(pos, pos + e1.len())[j] == e1[j] by {
        assert(whole[j] == (e1 + e2)[j]);
    }
    assert(b.subrange(pos, pos + e1.len()) =~= e1);
    assert forall|j: int| 0 <= j < e2.len() implies b.subrange(
        pos + e1.len(),
        pos + e1.len() + e2.len(),
    )[j] == e2[j] by {
        assert(whole[e1.len() + j] == (e1 + e2)[e1.len() + j]);
    }
    assert(b.subrange(pos + e1.len(), pos + e1.len() + e2.len()) =~= e2);
}

} // verus!
