//! Wire encodings of the keyed entry lists a profile holds.

use vstd::prelude::*;
use vstd::utf8::encode_utf8;
use crate::profile_models::PrincipalId;
use crate::profile_models::Wallet;
use crate::profile_models::WalletView;
use crate::profile_models::wallet_entry_view;
use crate::profile_models::wallet_entries_view;
use crate::profile_models::tag_entry_view;
use crate::profile_models::tag_entries_view;
use crate::wire::enc_u64;
use crate::wire::dec_u64;
use crate::wire::write_u64;
use crate::wire::read_u64;
use crate::wire::lemma_dec_u64;
use crate::wire::lemma_enc_u64_len;
use crate::wire::enc_string;
use crate::wire::dec_string;
use crate::wire::write_string;
use crate::wire::read_string;
use crate::wire::lemma_dec_string;
use crate::wire::lemma_concat_split;
use crate::wire_models::enc_principal;
use crate::wire_models::dec_principal;
use crate::wire_models::write_principal;
use crate::wire_models::read_principal;
use crate::wire_models::lemma_dec_principal;
use crate::wire_models::enc_wallet;
use crate::wire_models::dec_wallet;
use crate::wire_models::wf_wallet;
use crate::wire_models::write_wallet;
use crate::wire_models::read_wallet;
use crate::wire_models::lemma_dec_wallet;

verus! {


// ---------------------------------------------------------------------
// keyed wallet
// ---------------------------------------------------------------------
/// Bounds the encoded sizes of one keyed wallet entry.
pub open spec fn wf_wallet_entry(e: (PrincipalId, WalletView)) -> bool {
    wf_wallet(e.1)
}

/// Encoding of one keyed wallet entry: its key, then its value.
pub open spec fn enc_wallet_entry(e: (PrincipalId, WalletView)) -> Seq<u8> {
    enc_principal(e.0) + enc_wallet(e.1)
}

/// Reads one keyed wallet entry at `pos`.
pub open spec fn dec_wallet_entry(b: Seq<u8>, pos: int) -> Option<((PrincipalId, WalletView), int)> {
    match dec_principal(b, pos) {
        None => None,
        Some((k, p1)) => match dec_wallet(b, p1) {
            None => None,
            Some((v, p2)) => Some(((k, v), p2)),
        },
    }
}

/// Reading at a position holding `enc_wallet_entry(e)` yields `e`.
pub proof fn lemma_dec_wallet_entry(b: Seq<u8>, pos: int, e: (PrincipalId, WalletView))
    requires
        0 <= pos,
        wf_wallet_entry(e),
        pos + enc_wallet_entry(e).len() <= b.len(),
        b.subrange(pos, pos + enc_wallet_entry(e).len()) == enc_wallet_entry(e),
    ensures
        dec_wallet_entry(b, pos) == Some((e, pos + enc_wallet_entry(e).len())),
{
    lemma_enc_u64_len(e.0.id);
    lemma_concat_split(b, pos, enc_principal(e.0), enc_wallet(e.1));
    lemma_dec_principal(b, pos, e.0);
    lemma_dec_wallet(b, pos + enc_principal(e.0).len(), e.1);
}

/// Appends `enc_wallet_entry` of the entry's view to `out`.
pub fn write_wallet_entry(out: &mut Vec<u8>, e: &(PrincipalId, Wallet))
    ensures
        final(out)@ == old(out)@ + enc_wallet_entry((wallet_entry_view(*e))),
        wf_wallet_entry((wallet_entry_view(*e))),
{
    write_principal(out, e.0);
    write_wallet(out, &e.1);
    proof {
        assert(out@ =~= old(out)@ + enc_wallet_entry((wallet_entry_view(*e))));
    }
}

/// Reads one keyed wallet entry at `pos`, mirroring `dec_wallet_entry`.
pub fn read_wallet_entry(b: &Vec<u8>, pos: usize) -> (r: Option<((PrincipalId, Wallet), usize)>)
    ensures
        match r {
            Some(vp) => dec_wallet_entry(b@, pos as int) matches Some(dv) && vp.0.0 == dv.0.0
                && vp.0.1@ == dv.0.1 && vp.1 == dv.1,
            None => dec_wallet_entry(b@, pos as int) is None,
        },
{
    match read_principal(b, pos) {
        None => None,
        Some((k, p1)) => match read_wallet(b, p1) {
            None => None,
            Some((v, p2)) => Some(((k, v), p2)),
        },
    }
}


/// Encoding of the items of a keyed wallet list, in order.
pub open spec fn enc_wallet_entry_items(s: Seq<(PrincipalId, WalletView)>) -> Seq<u8>
    decreases s.len(),
{
    if s.len() == 0 {
        Seq::empty()
    } else {
        enc_wallet_entry_items(s.drop_last()) + enc_wallet_entry(s.last())
    }
}

/// Encoding of a keyed wallet list: its count, then its items.
pub open spec fn enc_wallet_entry_list(s: Seq<(PrincipalId, WalletView)>) -> Seq<u8> {
    enc_u64(s.len() as u64) + enc_wallet_entry_items(s)
}

/// Bounds a keyed wallet list's count and its entries' sizes.
pub open spec fn wf_wallet_entry_list(s: Seq<(PrincipalId, WalletView)>) -> bool {
    s.len() <= u64::MAX && forall|i: int| 0 <= i < s.len() ==> wf_wallet_entry(#[trigger] s[i])
}

/// Reads `n` keyed wallet entries at `pos`.
pub open spec fn dec_wallet_entry_items(b: Seq<u8>, pos: int, n: int) -> Option<(Seq<(PrincipalId, WalletView)>, int)>
    decreases n,
{
    if n <= 0 {
        Some((Seq::empty(), pos))
    } else {
        match dec_wallet_entry(b, pos) {
            None => None,
            Some((v, p1)) => match dec_wallet_entry_items(b, p1, n - 1) {
                None => None,
                Some((vs, p2)) => Some((seq![v] + vs, p2)),
            },
        }
    }
}

/// Reads a keyed wallet list at `pos`.
pub open spec fn dec_wallet_entry_list(b: Seq<u8>, pos: int) -> Option<(Seq<(PrincipalId, WalletView)>, int)> {
    match dec_u64(b, pos) {
        None => None,
        Some((n, p)) => dec_wallet_entry_items(b, p, n as int),
    }
}

/// The item encoding decomposes at its first item.
proof fn lemma_enc_wallet_entry_items_first(s: Seq<(PrincipalId, WalletView)>)
    requires
        s.len() > 0,
    ensures
        enc_wallet_entry_items(s) == enc_wallet_entry(s[0]) + enc_wallet_entry_items(s.skip(1)),
    decreases s.len(),
{
    if s.len() == 1 {
        assert(s.drop_last() =~= Seq::<(PrincipalId, WalletView)>::empty());
        assert(s.skip(1) =~= Seq::<(PrincipalId, WalletView)>::empty());
        assert(enc_wallet_entry_items(s) =~= enc_wallet_entry(s[0]) + enc_wallet_entry_items(s.skip(1)));
    } else {
        lemma_enc_wallet_entry_items_first(s.drop_last());
        assert(s.drop_last()[0] == s[0]);
        assert(s.drop_last().skip(1) =~= s.skip(1).drop_last());
        assert(s.skip(1).last() == s.last());
        assert(enc_wallet_entry_items(s) =~= enc_wallet_entry(s[0]) + enc_wallet_entry_items(s.skip(1)));
    }
}

/// Reading at a position holding the items of `s` yields `s`.
proof fn lemma_dec_wallet_entry_items(b: Seq<u8>, pos: int, s: Seq<(PrincipalId, WalletView)>)
    requires
        0 <= pos,
        forall|i: int| 0 <= i < s.len() ==> wf_wallet_entry(#[trigger] s[i]),
        pos + enc_wallet_entry_items(s).len() <= b.len(),
        b.subrange(pos, pos + enc_wallet_entry_items(s).len()) == enc_wallet_entry_items(s),
    ensures
        dec_wallet_entry_items(b, pos, s.len() as int) == Some((s, pos + enc_wallet_entry_items(s).len())),
    decreases s.len(),
{
    if s.len() == 0 {
    } else {
        lemma_enc_wallet_entry_items_first(s);
        lemma_concat_split(b, pos, enc_wallet_entry(s[0]), enc_wallet_entry_items(s.skip(1)));
        lemma_dec_wallet_entry(b, pos, s[0]);
        lemma_dec_wallet_entry_items(b, pos + enc_wallet_entry(s[0]).len(), s.skip(1));
        assert(seq![s[0]] + s.skip(1) =~= s);
    }
}

/// Reading at a position holding `enc_wallet_entry_list(s)` yields `s`.
pub proof fn lemma_dec_wallet_entry_list(b: Seq<u8>, pos: int, s: Seq<(PrincipalId, WalletView)>)
    requires
        0 <= pos,
        wf_wallet_entry_list(s),
        pos + enc_wallet_entry_list(s).len() <= b.len(),
        b.subrange(pos, pos + enc_wallet_entry_list(s).len()) == enc_wallet_entry_list(s),
    ensures
        dec_wallet_entry_list(b, pos) == Some((s, pos + enc_wallet_entry_list(s).len())),
{
    lemma_enc_u64_len(s.len() as u64);
    lemma_concat_split(b, pos, enc_u64(s.len() as u64), enc_wallet_entry_items(s));
    lemma_dec_u64(b, pos, s.len() as u64);
    lemma_dec_wallet_entry_items(b, pos + 8, s);
}

/// Appends `enc_wallet_entry_list` of the list's view to `out`.
pub fn write_wallet_entry_list(out: &mut Vec<u8>, v: &Vec<(PrincipalId, Wallet)>)
    ensures
        final(out)@ == old(out)@ + enc_wallet_entry_list(wallet_entries_view(v@)),
        wf_wallet_entry_list(wallet_entries_view(v@)),
{
    let ghost vw = wallet_entries_view(v@);
    write_u64(out, v.len() as u64);
    let mut i: usize = 0;
    while i < v.len()
        invariant
            i <= v.len(),
            vw == wallet_entries_view(v@),
            vw.len() == v@.len(),
            out@ == old(out)@ + enc_u64(vw.len() as u64) + enc_wallet_entry_items(vw.subrange(0, i as int)),
            forall|j: int| 0 <= j < i as int ==> wf_wallet_entry(#[trigger] vw[j]),
        decreases v.len() - i,
    {
        write_wallet_entry(out, &v[i]);
        i = i + 1;
        proof {
            assert(vw[i as int - 1] == (wallet_entry_view(v@[i as int - 1])));
            assert(vw.subrange(0, i as int).drop_last() =~= vw.subrange(0, i as int - 1));
            assert(vw.subrange(0, i as int).last() == vw[i as int - 1]);
            assert(out@ =~= old(out)@ + enc_u64(vw.len() as u64) + enc_wallet_entry_items(
                vw.subrange(0, i as int),
            ));
        }
    }
    proof {
        assert(vw.subrange(0, vw.len() as int) =~= vw);
        assert(out@ =~= old(out)@ + enc_wallet_entry_list(vw));
    }
}

/// Reads `n` keyed wallet entries at `pos`, mirroring `dec_wallet_entry_items`.
fn read_wallet_entry_items(b: &Vec<u8>, pos: usize, n: u64) -> (r: Option<(Vec<(PrincipalId, Wallet)>, usize)>)
    ensures
        match r {
            Some(vp) => dec_wallet_entry_items(b@, pos as int, n as int) matches Some(dv) && wallet_entries_view(
                vp.0@,
            ) == dv.0 && vp.1 == dv.1,
            None => dec_wallet_entry_items(b@, pos as int, n as int) is None,
        },
    decreases n,
{
    if n == 0 {
        let r: Vec<(PrincipalId, Wallet)> = Vec::new();
        proof {
            assert(wallet_entries_view(r@) =~= Seq::<(PrincipalId, WalletView)>::empty());
        }
        Some((r, pos))
    } else {
        match read_wallet_entry(b, pos) {
            None => None,
            Some((v, p1)) => match read_wallet_entry_items(b, p1, n - 1) {
                None => None,
                Some((mut vs, p2)) => {
                    vs.insert(0, v);
                    proof {
                        let d = dec_wallet_entry_items(b@, pos as int, n as int);
                        assert(wallet_entries_view(vs@) =~= d.unwrap().0);
                    }
                    Some((vs, p2))
                },
            },
        }
    }
}

/// Reads a keyed wallet list at `pos`, mirroring `dec_wallet_entry_list`.
pub fn read_wallet_entry_list(b: &Vec<u8>, pos: usize) -> (r: Option<(Vec<(PrincipalId, Wallet)>, usize)>)
    ensures
        match r {
            Some(vp) => dec_wallet_entry_list(b@, pos as int) matches Some(dv) && wallet_entries_view(vp.0@)
                == dv.0 && vp.1 == dv.1,
            None => dec_wallet_entry_list(b@, pos as int) is None,
        },
{
    match read_u64(b, pos) {
        None => None,
        Some((n, p)) => read_wallet_entry_items(b, p, n),
    }
}


// ---------------------------------------------------------------------
// keyed tag
// ---------------------------------------------------------------------
/// Bounds the encoded sizes of one keyed tag entry.
pub open spec fn wf_tag_entry(e: (PrincipalId, Seq<char>)) -> bool {
    encode_utf8(e.1).len() <= u64::MAX
}

/// Encoding of one keyed tag entry: its key, then its value.
pub open spec fn enc_tag_entry(e: (PrincipalId, Seq<char>)) -> Seq<u8> {
    enc_principal(e.0) + enc_string(e.1)
}

/// Reads one keyed tag entry at `pos`.
pub open spec fn dec_tag_entry(b: Seq<u8>, pos: int) -> Option<((PrincipalId, Seq<char>), int)> {
    match dec_principal(b, pos) {
        None => None,
        Some((k, p1)) => match dec_string(b, p1) {
            None => None,
            Some((v, p2)) => Some(((k, v), p2)),
        },
    }
}

/// Reading at a position holding `enc_tag_entry(e)` yields `e`.
pub proof fn lemma_dec_tag_entry(b: Seq<u8>, pos: int, e: (PrincipalId, Seq<char>))
    requires
        0 <= pos,
        wf_tag_entry(e),
        pos + enc_tag_entry(e).len() <= b.len(),
        b.subrange(pos, pos + enc_tag_entry(e).len()) == enc_tag_entry(e),
    ensures
        dec_tag_entry(b, pos) == Some((e, pos + enc_tag_entry(e).len())),
{
    lemma_enc_u64_len(e.0.id);
    lemma_concat_split(b, pos, enc_principal(e.0), enc_string(e.1));
    lemma_dec_principal(b, pos, e.0);
    lemma_dec_string(b, pos + enc_principal(e.0).len(), e.1);
}

/// Appends `enc_tag_entry` of the entry's view to `out`.
pub fn write_tag_entry(out: &mut Vec<u8>, e: &(PrincipalId, String))
    ensures
        final(out)@ == old(out)@ + enc_tag_entry((tag_entry_view(*e))),
        wf_tag_entry((tag_entry_view(*e))),
{
    write_principal(out, e.0);
    write_string(out, &e.1);
    proof {
        assert(out@ =~= old(out)@ + enc_tag_entry((tag_entry_view(*e))));
    }
}

/// Reads one keyed tag entry at `pos`, mirroring `dec_tag_entry`.
pub fn read_tag_entry(b: &Vec<u8>, pos: usize) -> (r: Option<((PrincipalId, String), usize)>)
    ensures
        match r {
            Some(vp) => dec_tag_entry(b@, pos as int) matches Some(dv) && vp.0.0 == dv.0.0
                && vp.0.1@ == dv.0.1 && vp.1 == dv.1,
            None => dec_tag_entry(b@, pos as int) is None,
        },
{
    match read_principal(b, pos) {
        None => None,
        Some((k, p1)) => match read_string(b, p1) {
            None => None,
            Some((v, p2)) => Some(((k, v), p2)),
        },
    }
}


/// Encoding of the items of a keyed tag list, in order.
pub open spec fn enc_tag_entry_items(s: Seq<(PrincipalId, Seq<char>)>) -> Seq<u8>
    decreases s.len(),
{
    if s.len() == 0 {
        Seq::empty()
    } else {
        enc_tag_entry_items(s.drop_last()) + enc_tag_entry(s.last())
    }
}

/// Encoding of a keyed tag list: its count, then its items.
pub open spec fn enc_tag_entry_list(s: Seq<(PrincipalId, Seq<char>)>) -> Seq<u8> {
    enc_u64(s.len() as u64) + enc_tag_entry_items(s)
}

/// Bounds a keyed tag list's count and its entries' sizes.
pub open spec fn wf_tag_entry_list(s: Seq<(PrincipalId, Seq<char>)>) -> bool {
    s.len() <= u64::MAX && forall|i: int| 0 <= i < s.len() ==> wf_tag_entry(#[trigger] s[i])
}

/// Reads `n` keyed tag entries at `pos`.
pub open spec fn dec_tag_entry_items(b: Seq<u8>, pos: int, n: int) -> Option<(Seq<(PrincipalId, Seq<char>)>, int)>
    decreases n,
{
    if n <= 0 {
        Some((Seq::empty(), pos))
    } else {
        match dec_tag_entry(b, pos) {
            None => None,
            Some((v, p1)) => match dec_tag_entry_items(b, p1, n - 1) {
                None => None,
                Some((vs, p2)) => Some((seq![v] + vs, p2)),
            },
        }
    }
}

/// Reads a keyed tag list at `pos`.
pub open spec fn dec_tag_entry_list(b: Seq<u8>, pos: int) -> Option<(Seq<(PrincipalId, Seq<char>)>, int)> {
    match dec_u64(b, pos) {
        None => None,
        Some((n, p)) => dec_tag_entry_items(b, p, n as int),
    }
}

/// The item encoding decomposes at its first item.
proof fn lemma_enc_tag_entry_items_first(s: Seq<(PrincipalId, Seq<char>)>)
    requires
        s.len() > 0,
    ensures
        enc_tag_entry_items(s) == enc_tag_entry(s[0]) + enc_tag_entry_items(s.skip(1)),
    decreases s.len(),
{
    if s.len() == 1 {
        assert(s.drop_last() =~= Seq::<(PrincipalId, Seq<char>)>::empty());
        assert(s.skip(1) =~= Seq::<(PrincipalId, Seq<char>)>::empty());
        assert(enc_tag_entry_items(s) =~= enc_tag_entry(s[0]) + enc_tag_entry_items(s.skip(1)));
    } else {
        lemma_enc_tag_entry_items_first(s.drop_last());
        assert(s.drop_last()[0] == s[0]);
        assert(s.drop_last().skip(1) =~= s.skip(1).drop_last());
        assert(s.skip(1).last() == s.last());
        assert(enc_tag_entry_items(s) =~= enc_tag_entry(s[0]) + enc_tag_entry_items(s.skip(1)));
    }
}

/// Reading at a position holding the items of `s` yields `s`.
proof fn lemma_dec_tag_entry_items(b: Seq<u8>, pos: int, s: Seq<(PrincipalId, Seq<char>)>)
    requires
        0 <= pos,
        forall|i: int| 0 <= i < s.len() ==> wf_tag_entry(#[trigger] s[i]),
        pos + enc_tag_entry_items(s).len() <= b.len(),
        b.subrange(pos, pos + enc_tag_entry_items(s).len()) == enc_tag_entry_items(s),
    ensures
        dec_tag_entry_items(b, pos, s.len() as int) == Some((s, pos + enc_tag_entry_items(s).len())),
    decreases s.len(),
{
    if s.len() == 0 {
    } else {
        lemma_enc_tag_entry_items_first(s);
        lemma_concat_split(b, pos, enc_tag_entry(s[0]), enc_tag_entry_items(s.skip(1)));
        lemma_dec_tag_entry(b, pos, s[0]);
        lemma_dec_tag_entry_items(b, pos + enc_tag_entry(s[0]).len(), s.skip(1));
        assert(seq![s[0]] + s.skip(1) =~= s);
    }
}

/// Reading at a position holding `enc_tag_entry_list(s)` yields `s`.
pub proof fn lemma_dec_tag_entry_list(b: Seq<u8>, pos: int, s: Seq<(PrincipalId, Seq<char>)>)
    requires
        0 <= pos,
        wf_tag_entry_list(s),
        pos + enc_tag_entry_list(s).len() <= b.len(),
        b.subrange(pos, pos + enc_tag_entry_list(s).len()) == enc_tag_entry_list(s),
    ensures
        dec_tag_entry_list(b, pos) == Some((s, pos + enc_tag_entry_list(s).len())),
{
    lemma_enc_u64_len(s.len() as u64);
    lemma_concat_split(b, pos, enc_u64(s.len() as u64), enc_tag_entry_items(s));
    lemma_dec_u64(b, pos, s.len() as u64);
    lemma_dec_tag_entry_items(b, pos + 8, s);
}

/// Appends `enc_tag_entry_list` of the list's view to `out`.
pub fn write_tag_entry_list(out: &mut Vec<u8>, v: &Vec<(PrincipalId, String)>)
    ensures
        final(out)@ == old(out)@ + enc_tag_entry_list(tag_entries_view(v@)),
        wf_tag_entry_list(tag_entries_view(v@)),
{
    let ghost vw = tag_entries_view(v@);
    write_u64(out, v.len() as u64);
    let mut i: usize = 0;
    while i < v.len()
        invariant
            i <= v.len(),
            vw == tag_entries_view(v@),
            vw.len() == v@.len(),
            out@ == old(out)@ + enc_u64(vw.len() as u64) + enc_tag_entry_items(vw.subrange(0, i as int)),
            forall|j: int| 0 <= j < i as int ==> wf_tag_entry(#[trigger] vw[j]),
        decreases v.len() - i,
    {
        write_tag_entry(out, &v[i]);
        i = i + 1;
        proof {
            assert(vw[i as int - 1] == (tag_entry_view(v@[i as int - 1])));
            assert(vw.subrange(0, i as int).drop_last() =~= vw.subrange(0, i as int - 1));
            assert(vw.subrange(0, i as int).last() == vw[i as int - 1]);
            assert(out@ =~= old(out)@ + enc_u64(vw.len() as u64) + enc_tag_entry_items(
                vw.subrange(0, i as int),
            ));
        }
    }
    proof {
        assert(vw.subrange(0, vw.len() as int) =~= vw);
        assert(out@ =~= old(out)@ + enc_tag_entry_list(vw));
    }
}

/// Reads `n` keyed tag entries at `pos`, mirroring `dec_tag_entry_items`.
fn read_tag_entry_items(b: &Vec<u8>, pos: usize, n: u64) -> (r: Option<(Vec<(PrincipalId, String)>, usize)>)
    ensures
        match r {
            Some(vp) => dec_tag_entry_items(b@, pos as int, n as int) matches Some(dv) && tag_entries_view(
                vp.0@,
            ) == dv.0 && vp.1 == dv.1,
            None => dec_tag_entry_items(b@, pos as int, n as int) is None,
        },
    decreases n,
{
    if n == 0 {
        let r: Vec<(PrincipalId, String)> = Vec::new();
        proof {
            assert(tag_entries_view(r@) =~= Seq::<(PrincipalId, Seq<char>)>::empty());
        }
        Some((r, pos))
    } else {
        match read_tag_entry(b, pos) {
            None => None,
            Some((v, p1)) => match read_tag_entry_items(b, p1, n - 1) {
                None => None,
                Some((mut vs, p2)) => {
                    vs.insert(0, v);
                    proof {
                        let d = dec_tag_entry_items(b@, pos as int, n as int);
                        assert(tag_entries_view(vs@) =~= d.unwrap().0);
                    }
                    Some((vs, p2))
                },
            },
        }
    }
}

/// Reads a keyed tag list at `pos`, mirroring `dec_tag_entry_list`.
pub fn read_tag_entry_list(b: &Vec<u8>, pos: usize) -> (r: Option<(Vec<(PrincipalId, String)>, usize)>)
    ensures
        match r {
            Some(vp) => dec_tag_entry_list(b@, pos as int) matches Some(dv) && tag_entries_view(vp.0@)
                == dv.0 && vp.1 == dv.1,
            None => dec_tag_entry_list(b@, pos as int) is None,
        },
{
    match read_u64(b, pos) {
        None => None,
        Some((n, p)) => read_tag_entry_items(b, p, n),
    }
}

} // verus!
