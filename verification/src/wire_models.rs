//! Wire encodings of the domain model types.
//!
//! Each type's encoding is the concatenation of its fields' encodings;
//! lists carry a leading count. As in the primitive layer, `enc_*` defines
//! the bytes, `dec_*` reads them back, `wf_*` bounds the sizes a count
//! prefix must hold, and each `lemma_dec_*` proves the round trip.

use vstd::prelude::*;
use vstd::utf8::encode_utf8;
use crate::profile_models::PrincipalId;
use crate::profile_models::DocumentDetails;
use crate::profile_models::ProfilePrivacy;
use crate::profile_models::ApplicationRole;
use crate::profile_models::Asset;
use crate::profile_models::AssetView;
use crate::profile_models::Wallet;
use crate::profile_models::WalletView;
use crate::profile_models::Identifier;
use crate::profile_models::IdentifierView;
use crate::wire::enc_u64;
use crate::wire::dec_u64;
use crate::wire::write_u64;
use crate::wire::read_u64;
use crate::wire::lemma_dec_u64;
use crate::wire::lemma_enc_u64_len;
use crate::wire::enc_u32;
use crate::wire::dec_u32;
use crate::wire::write_u32;
use crate::wire::read_u32;
use crate::wire::lemma_dec_u32;
use crate::wire::lemma_enc_u32_len;
use crate::wire::enc_bool;
use crate::wire::dec_bool;
use crate::wire::write_bool;
use crate::wire::read_bool;
use crate::wire::lemma_dec_bool;
use crate::wire::enc_string;
use crate::wire::dec_string;
use crate::wire::write_string;
use crate::wire::read_string;
use crate::wire::lemma_dec_string;
use crate::wire::lemma_concat_split;

verus! {

// ---------------------------------------------------------------------
// principals
// ---------------------------------------------------------------------
/// Encoding of a principal: its numeric identity.
pub open spec fn enc_principal(p: PrincipalId) -> Seq<u8> {
    enc_u64(p.id)
}

/// Reads a principal at `pos`.
pub open spec fn dec_principal(b: Seq<u8>, pos: int) -> Option<(PrincipalId, int)> {
    match dec_u64(b, pos) {
        None => None,
        Some((id, p)) => Some((PrincipalId { id }, p)),
    }
}

/// Reading at a position holding `enc_principal(v)` yields `v`.
pub proof fn lemma_dec_principal(b: Seq<u8>, pos: int, v: PrincipalId)
    requires
        0 <= pos,
        pos + enc_principal(v).len() <= b.len(),
        b.subrange(pos, pos + enc_principal(v).len()) == enc_principal(v),
    ensures
        enc_principal(v).len() == 8,
        dec_principal(b, pos) == Some((v, pos + 8)),
{
    lemma_enc_u64_len(v.id);
    lemma_dec_u64(b, pos, v.id);
}

/// Appends `enc_principal(v)` to `out`.
pub fn write_principal(out: &mut Vec<u8>, v: PrincipalId)
    ensures
        final(out)@ == old(out)@ + enc_principal(v),
{
    write_u64(out, v.id);
}

/// Reads a principal at `pos`, mirroring `dec_principal`.
pub fn read_principal(b: &Vec<u8>, pos: usize) -> (r: Option<(PrincipalId, usize)>)
    ensures
        match r {
            Some(vp) => dec_principal(b@, pos as int) matches Some(dv) && vp.0 == dv.0 && vp.1
                == dv.1,
            None => dec_principal(b@, pos as int) is None,
        },
{
    match read_u64(b, pos) {
        None => None,
        Some((id, p)) => Some((PrincipalId { id }, p)),
    }
}

// ---------------------------------------------------------------------
// document details
// ---------------------------------------------------------------------
/// Encoding of document details: approved version, then approved date.
pub open spec fn enc_document(d: DocumentDetails) -> Seq<u8> {
    enc_u64(d.approved_version) + enc_u64(d.approved_date)
}

/// Reads document details at `pos`.
pub open spec fn dec_document(b: Seq<u8>, pos: int) -> Option<(DocumentDetails, int)> {
    match dec_u64(b, pos) {
        None => None,
        Some((approved_version, p1)) => match dec_u64(b, p1) {
            None => None,
            Some((approved_date, p2)) => Some(
                (DocumentDetails { approved_version, approved_date }, p2),
            ),
        },
    }
}

/// Reading at a position holding `enc_document(v)` yields `v`.
pub proof fn lemma_dec_document(b: Seq<u8>, pos: int, v: DocumentDetails)
    requires
        0 <= pos,
        pos + enc_document(v).len() <= b.len(),
        b.subrange(pos, pos + enc_document(v).len()) == enc_document(v),
    ensures
        enc_document(v).len() == 16,
        dec_document(b, pos) == Some((v, pos + 16)),
{
    lemma_enc_u64_len(v.approved_version);
    lemma_enc_u64_len(v.approved_date);
    lemma_concat_split(b, pos, enc_u64(v.approved_version), enc_u64(v.approved_date));
    lemma_dec_u64(b, pos, v.approved_version);
    lemma_dec_u64(b, pos + 8, v.approved_date);
}

/// Appends `enc_document(v)` to `out`.
pub fn write_document(out: &mut Vec<u8>, v: &DocumentDetails)
    ensures
        final(out)@ == old(out)@ + enc_document(*v),
{
    write_u64(out, v.approved_version);
    write_u64(out, v.approved_date);
    proof {
        assert(out@ =~= old(out)@ + enc_document(*v));
    }
}

/// Reads document details at `pos`, mirroring `dec_document`.
pub fn read_document(b: &Vec<u8>, pos: usize) -> (r: Option<(DocumentDetails, usize)>)
    ensures
        match r {
            Some(vp) => dec_document(b@, pos as int) matches Some(dv) && vp.0 == dv.0 && vp.1
                == dv.1,
            None => dec_document(b@, pos as int) is None,
        },
{
    match read_u64(b, pos) {
        None => None,
        Some((approved_version, p1)) => match read_u64(b, p1) {
            None => None,
            Some((approved_date, p2)) => Some(
                (DocumentDetails { approved_version, approved_date }, p2),
            ),
        },
    }
}

// ---------------------------------------------------------------------
// optional document details
// ---------------------------------------------------------------------
/// Encoding of an optional document: a presence byte, then the document.
pub open spec fn enc_opt_document(o: Option<DocumentDetails>) -> Seq<u8> {
    match o {
        None => seq![0u8],
        Some(d) => seq![1u8] + enc_document(d),
    }
}

/// Reads an optional document at `pos`; a presence byte other than zero or
/// one is rejected.
pub open spec fn dec_opt_document(b: Seq<u8>, pos: int) -> Option<
    (Option<DocumentDetails>, int),
> {
    match dec_bool(b, pos) {
        None => None,
        Some((present, p1)) => if !present {
            Some((None, p1))
        } else {
            match dec_document(b, p1) {
                None => None,
                Some((d, p2)) => Some((Some(d), p2)),
            }
        },
    }
}

/// Reading at a position holding `enc_opt_document(v)` yields `v`.
pub proof fn lemma_dec_opt_document(b: Seq<u8>, pos: int, v: Option<DocumentDetails>)
    requires
        0 <= pos,
        pos + enc_opt_document(v).len() <= b.len(),
        b.subrange(pos, pos + enc_opt_document(v).len()) == enc_opt_document(v),
    ensures
        dec_opt_document(b, pos) == Some((v, pos + enc_opt_document(v).len())),
{
    match v {
        None => {
            assert(b.subrange(pos, pos + 1) =~= enc_bool(false));
            lemma_dec_bool(b, pos, false);
        },
        Some(d) => {
            lemma_enc_u64_len(d.approved_version);
            lemma_enc_u64_len(d.approved_date);
            assert(enc_opt_document(v) == enc_bool(true) + enc_document(d));
            lemma_concat_split(b, pos, enc_bool(true), enc_document(d));
            lemma_dec_bool(b, pos, true);
            lemma_dec_document(b, pos + 1, d);
        },
    }
}

/// Appends `enc_opt_document(v)` to `out`.
pub fn write_opt_document(out: &mut Vec<u8>, v: &Option<DocumentDetails>)
    ensures
        final(out)@ == old(out)@ + enc_opt_document(*v),
{
    match v {
        None => {
            write_bool(out, false);
            proof {
                assert(out@ =~= old(out)@ + enc_opt_document(None));
            }
        },
        Some(d) => {
            write_bool(out, true);
            write_document(out, d);
            proof {
                assert(out@ =~= old(out)@ + enc_opt_document(Some(*d)));
            }
        },
    }
}

/// Reads an optional document at `pos`, mirroring `dec_opt_document`.
pub fn read_opt_document(b: &Vec<u8>, pos: usize) -> (r: Option<
    (Option<DocumentDetails>, usize),
>)
    ensures
        match r {
            Some(vp) => dec_opt_document(b@, pos as int) matches Some(dv) && vp.0 == dv.0 && vp.1
                == dv.1,
            None => dec_opt_document(b@, pos as int) is None,
        },
{
    match read_bool(b, pos) {
        None => None,
        Some((present, p1)) => {
            if !present {
                Some((None, p1))
            } else {
                match read_document(b, p1) {
                    None => None,
                    Some((d, p2)) => Some((Some(d), p2)),
                }
            }
        },
    }
}

// ---------------------------------------------------------------------
// privacy
// ---------------------------------------------------------------------
/// Encoding of a privacy setting: one tag byte.
pub open spec fn enc_privacy(v: ProfilePrivacy) -> Seq<u8> {
    match v {
        ProfilePrivacy::Public => seq![0u8],
        ProfilePrivacy::Private => seq![1u8],
    }
}

/// Reads a privacy setting at `pos`; an unknown tag is rejected.
pub open spec fn dec_privacy(b: Seq<u8>, pos: int) -> Option<(ProfilePrivacy, int)> {
    if 0 <= pos && pos + 1 <= b.len() {
        if b[pos] == 0u8 {
            Some((ProfilePrivacy::Public, pos + 1))
        } else if b[pos] == 1u8 {
            Some((ProfilePrivacy::Private, pos + 1))
        } else {
            None
        }
    } else {
        None
    }
}

/// Reading at a position holding `enc_privacy(v)` yields `v`.
pub proof fn lemma_dec_privacy(b: Seq<u8>, pos: int, v: ProfilePrivacy)
    requires
        0 <= pos,
        pos + 1 <= b.len(),
        b.subrange(pos, pos + 1) == enc_privacy(v),
    ensures
        enc_privacy(v).len() == 1,
        dec_privacy(b, pos) == Some((v, pos + 1)),
{
    assert(b[pos] == enc_privacy(v)[0]);
}

/// Appends `enc_privacy(v)` to `out`.
pub fn write_privacy(out: &mut Vec<u8>, v: ProfilePrivacy)
    ensures
        final(out)@ == old(out)@ + enc_privacy(v),
{
    match v {
        ProfilePrivacy::Public => out.push(0u8),
        ProfilePrivacy::Private => out.push(1u8),
    }
    proof {
        assert(out@ =~= old(out)@ + enc_privacy(v));
    }
}

/// Reads a privacy setting at `pos`, mirroring `dec_privacy`.
pub fn read_privacy(b: &Vec<u8>, pos: usize) -> (r: Option<(ProfilePrivacy, usize)>)
    ensures
        match r {
            Some(vp) => dec_privacy(b@, pos as int) matches Some(dv) && vp.0 == dv.0 && vp.1
                == dv.1,
            None => dec_privacy(b@, pos as int) is None,
        },
{
    if pos < b.len() {
        let byte = b[pos];
        if byte == 0 {
            Some((ProfilePrivacy::Public, pos + 1))
        } else if byte == 1 {
            Some((ProfilePrivacy::Private, pos + 1))
        } else {
            None
        }
    } else {
        None
    }
}

// ---------------------------------------------------------------------
// application role
// ---------------------------------------------------------------------
/// Encoding of an application role: one tag byte.
pub open spec fn enc_role(v: ApplicationRole) -> Seq<u8> {
    match v {
        ApplicationRole::Member => seq![0u8],
        ApplicationRole::Guest => seq![1u8],
        ApplicationRole::Blocked => seq![2u8],
    }
}

/// Reads an application role at `pos`; an unknown tag is rejected.
pub open spec fn dec_role(b: Seq<u8>, pos: int) -> Option<(ApplicationRole, int)> {
    if 0 <= pos && pos + 1 <= b.len() {
        if b[pos] == 0u8 {
            Some((ApplicationRole::Member, pos + 1))
        } else if b[pos] == 1u8 {
            Some((ApplicationRole::Guest, pos + 1))
        } else if b[pos] == 2u8 {
            Some((ApplicationRole::Blocked, pos + 1))
        } else {
            None
        }
    } else {
        None
    }
}

/// Reading at a position holding `enc_role(v)` yields `v`.
pub proof fn lemma_dec_role(b: Seq<u8>, pos: int, v: ApplicationRole)
    requires
        0 <= pos,
        pos + 1 <= b.len(),
        b.subrange(pos, pos + 1) == enc_role(v),
    ensures
        enc_role(v).len() == 1,
        dec_role(b, pos) == Some((v, pos + 1)),
{
    assert(b[pos] == enc_role(v)[0]);
}

/// Appends `enc_role(v)` to `out`.
pub fn write_role(out: &mut Vec<u8>, v: ApplicationRole)
    ensures
        final(out)@ == old(out)@ + enc_role(v),
{
    match v {
        ApplicationRole::Member => out.push(0u8),
        ApplicationRole::Guest => out.push(1u8),
        ApplicationRole::Blocked => out.push(2u8),
    }
    proof {
        assert(out@ =~= old(out)@ + enc_role(v));
    }
}

/// Reads an application role at `pos`, mirroring `dec_role`.
pub fn read_role(b: &Vec<u8>, pos: usize) -> (r: Option<(ApplicationRole, usize)>)
    ensures
        match r {
            Some(vp) => dec_role(b@, pos as int) matches Some(dv) && vp.0 == dv.0 && vp.1 == dv.1,
            None => dec_role(b@, pos as int) is None,
        },
{
    if pos < b.len() {
        let byte = b[pos];
        if byte == 0 {
            Some((ApplicationRole::Member, pos + 1))
        } else if byte == 1 {
            Some((ApplicationRole::Guest, pos + 1))
        } else if byte == 2 {
            Some((ApplicationRole::Blocked, pos + 1))
        } else {
            None
        }
    } else {
        None
    }
}

// ---------------------------------------------------------------------
// assets
// ---------------------------------------------------------------------
/// Bounds an asset's encoded sizes.
pub open spec fn wf_asset(v: AssetView) -> bool {
    match v {
        AssetView::Empty => true,
        AssetView::Url(u) => encode_utf8(u).len() <= u64::MAX,
    }
}

/// Encoding of an asset reference: a tag byte, then its URL if any.
pub open spec fn enc_asset(v: AssetView) -> Seq<u8> {
    match v {
        AssetView::Empty => seq![0u8],
        AssetView::Url(u) => seq![1u8] + enc_string(u),
    }
}

/// Reads an asset reference at `pos`; an unknown tag is rejected.
pub open spec fn dec_asset(b: Seq<u8>, pos: int) -> Option<(AssetView, int)> {
    if 0 <= pos && pos + 1 <= b.len() {
        if b[pos] == 0u8 {
            Some((AssetView::Empty, pos + 1))
        } else if b[pos] == 1u8 {
            match dec_string(b, pos + 1) {
                None => None,
                Some((u, p)) => Some((AssetView::Url(u), p)),
            }
        } else {
            None
        }
    } else {
        None
    }
}

/// Reading at a position holding `enc_asset(v)` yields `v`.
pub proof fn lemma_dec_asset(b: Seq<u8>, pos: int, v: AssetView)
    requires
        0 <= pos,
        wf_asset(v),
        pos + enc_asset(v).len() <= b.len(),
        b.subrange(pos, pos + enc_asset(v).len()) == enc_asset(v),
    ensures
        dec_asset(b, pos) == Some((v, pos + enc_asset(v).len())),
{
    match v {
        AssetView::Empty => {
            assert(b[pos] == enc_asset(v)[0]);
        },
        AssetView::Url(u) => {
            lemma_concat_split(b, pos, seq![1u8], enc_string(u));
            assert(b[pos] == b.subrange(pos, pos + 1)[0]);
            lemma_dec_string(b, pos + 1, u);
        },
    }
}

/// Appends `enc_asset(v@)` to `out`.
pub fn write_asset(out: &mut Vec<u8>, v: &Asset)
    ensures
        final(out)@ == old(out)@ + enc_asset(v@),
        wf_asset(v@),
{
    match v {
        Asset::Empty => {
            out.push(0u8);
            proof {
                assert(out@ =~= old(out)@ + enc_asset(v@));
            }
        },
        Asset::Url(u) => {
            out.push(1u8);
            write_string(out, u);
            proof {
                assert(out@ =~= old(out)@ + enc_asset(v@));
            }
        },
    }
}

/// Reads an asset reference at `pos`, mirroring `dec_asset`.
pub fn read_asset(b: &Vec<u8>, pos: usize) -> (r: Option<(Asset, usize)>)
    ensures
        match r {
            Some(vp) => dec_asset(b@, pos as int) matches Some(dv) && vp.0@ == dv.0 && vp.1
                == dv.1,
            None => dec_asset(b@, pos as int) is None,
        },
{
    if pos < b.len() {
        let byte = b[pos];
        if byte == 0 {
            Some((Asset::Empty, pos + 1))
        } else if byte == 1 {
            match read_string(b, pos + 1) {
                None => None,
                Some((u, p)) => Some((Asset::Url(u), p)),
            }
        } else {
            None
        }
    } else {
        None
    }
}

// ---------------------------------------------------------------------
// wallets
// ---------------------------------------------------------------------
/// Bounds a wallet's encoded sizes.
pub open spec fn wf_wallet(v: WalletView) -> bool {
    encode_utf8(v.provider).len() <= u64::MAX
}

/// Encoding of a wallet: its provider, then its primary flag.
pub open spec fn enc_wallet(v: WalletView) -> Seq<u8> {
    enc_string(v.provider) + enc_bool(v.is_primary)
}

/// Reads a wallet at `pos`.
pub open spec fn dec_wallet(b: Seq<u8>, pos: int) -> Option<(WalletView, int)> {
    match dec_string(b, pos) {
        None => None,
        Some((provider, p1)) => match dec_bool(b, p1) {
            None => None,
            Some((is_primary, p2)) => Some((WalletView { provider, is_primary }, p2)),
        },
    }
}

/// Reading at a position holding `enc_wallet(v)` yields `v`.
pub proof fn lemma_dec_wallet(b: Seq<u8>, pos: int, v: WalletView)
    requires
        0 <= pos,
        wf_wallet(v),
        pos + enc_wallet(v).len() <= b.len(),
        b.subrange(pos, pos + enc_wallet(v).len()) == enc_wallet(v),
    ensures
        dec_wallet(b, pos) == Some((v, pos + enc_wallet(v).len())),
{
    lemma_concat_split(b, pos, enc_string(v.provider), enc_bool(v.is_primary));
    lemma_dec_string(b, pos, v.provider);
    lemma_dec_bool(b, pos + enc_string(v.provider).len() as int, v.is_primary);
}

/// Appends `enc_wallet(v@)` to `out`.
pub fn write_wallet(out: &mut Vec<u8>, v: &Wallet)
    ensures
        final(out)@ == old(out)@ + enc_wallet(v@),
        wf_wallet(v@),
{
    write_string(out, &v.provider);
    write_bool(out, v.is_primary);
    proof {
        assert(out@ =~= old(out)@ + enc_wallet(v@));
    }
}

/// Reads a wallet at `pos`, mirroring `dec_wallet`.
pub fn read_wallet(b: &Vec<u8>, pos: usize) -> (r: Option<(Wallet, usize)>)
    ensures
        match r {
            Some(vp) => dec_wallet(b@, pos as int) matches Some(dv) && vp.0@ == dv.0 && vp.1
                == dv.1,
            None => dec_wallet(b@, pos as int) is None,
        },
{
    match read_string(b, pos) {
        None => None,
        Some((provider, p1)) => match read_bool(b, p1) {
            None => None,
            Some((is_primary, p2)) => Some((Wallet { provider, is_primary }, p2)),
        },
    }
}

// ---------------------------------------------------------------------
// identifiers
// ---------------------------------------------------------------------
/// Bounds an identifier's encoded sizes.
pub open spec fn wf_identifier(v: IdentifierView) -> bool {
    encode_utf8(v.kind).len() <= u64::MAX
}

/// Encoding of an identifier: shard address, sequence number, kind tag.
pub open spec fn enc_identifier(v: IdentifierView) -> Seq<u8> {
    enc_principal(v.canister) + enc_u64(v.sequence) + enc_string(v.kind)
}

/// Reads an identifier at `pos`.
pub open spec fn dec_identifier(b: Seq<u8>, pos: int) -> Option<(IdentifierView, int)> {
    match dec_principal(b, pos) {
        None => None,
        Some((canister, p1)) => match dec_u64(b, p1) {
            None => None,
            Some((sequence, p2)) => match dec_string(b, p2) {
                None => None,
                Some((kind, p3)) => Some((IdentifierView { canister, sequence, kind }, p3)),
            },
        },
    }
}

/// Reading at a position holding `enc_identifier(v)` yields `v`.
pub proof fn lemma_dec_identifier(b: Seq<u8>, pos: int, v: IdentifierView)
    requires
        0 <= pos,
        wf_identifier(v),
        pos + enc_identifier(v).len() <= b.len(),
        b.subrange(pos, pos + enc_identifier(v).len()) == enc_identifier(v),
    ensures
        dec_identifier(b, pos) == Some((v, pos + enc_identifier(v).len())),
{
    let e1 = enc_principal(v.canister);
    let e2 = enc_u64(v.sequence);
    let e3 = enc_string(v.kind);
    lemma_enc_u64_len(v.canister.id);
    lemma_enc_u64_len(v.sequence);
    lemma_concat_split(b, pos, e1 + e2, e3);
    lemma_concat_split(b, pos, e1, e2);
    lemma_dec_principal(b, pos, v.canister);
    lemma_dec_u64(b, pos + e1.len(), v.sequence);
    lemma_dec_string(b, pos + e1.len() + e2.len(), v.kind);
}

/// Appends `enc_identifier(v@)` to `out`.
pub fn write_identifier(out: &mut Vec<u8>, v: &Identifier)
    ensures
        final(out)@ == old(out)@ + enc_identifier(v@),
        wf_identifier(v@),
{
    write_principal(out, v.canister);
    write_u64(out, v.sequence);
    write_string(out, &v.kind);
    proof {
        assert(out@ =~= old(out)@ + enc_identifier(v@));
    }
}

/// Reads an identifier at `pos`, mirroring `dec_identifier`.
pub fn read_identifier(b: &Vec<u8>, pos: usize) -> (r: Option<(Identifier, usize)>)
    ensures
        match r {
            Some(vp) => dec_identifier(b@, pos as int) matches Some(dv) && vp.0@ == dv.0 && vp.1
                == dv.1,
            None => dec_identifier(b@, pos as int) is None,
        },
{
    match read_principal(b, pos) {
        None => None,
        Some((canister, p1)) => match read_u64(b, p1) {
            None => None,
            Some((sequence, p2)) => match read_string(b, p2) {
                None => None,
                Some((kind, p3)) => Some((Identifier { canister, sequence, kind }, p3)),
            },
        },
    }
}

// ---------------------------------------------------------------------
// lists of numeric tags
// ---------------------------------------------------------------------
/// Encoding of the items of a numeric tag list, in order.
pub open spec fn enc_u32_items(s: Seq<u32>) -> Seq<u8>
    decreases s.len(),
{
    if s.len() == 0 {
        Seq::empty()
    } else {
        enc_u32_items(s.drop_last()) + enc_u32(s.last())
    }
}

/// Encoding of a numeric tag list: its count, then its items.
pub open spec fn enc_u32_list(s: Seq<u32>) -> Seq<u8> {
    enc_u64(s.len() as u64) + enc_u32_items(s)
}

/// Bounds a numeric tag list's count.
pub open spec fn wf_u32_list(s: Seq<u32>) -> bool {
    s.len() <= u64::MAX
}

/// Reads `n` numeric tags at `pos`.
pub open spec fn dec_u32_items(b: Seq<u8>, pos: int, n: int) -> Option<(Seq<u32>, int)>
    decreases n,
{
    if n <= 0 {
        Some((Seq::empty(), pos))
    } else {
        match dec_u32(b, pos) {
            None => None,
            Some((v, p1)) => match dec_u32_items(b, p1, n - 1) {
                None => None,
                Some((vs, p2)) => Some((seq![v] + vs, p2)),
            },
        }
    }
}

/// Reads a numeric tag list at `pos`.
pub open spec fn dec_u32_list(b: Seq<u8>, pos: int) -> Option<(Seq<u32>, int)> {
    match dec_u64(b, pos) {
        None => None,
        Some((n, p)) => dec_u32_items(b, p, n as int),
    }
}

/// The item encoding decomposes at its first item.
proof fn lemma_enc_u32_items_first(s: Seq<u32>)
    requires
        s.len() > 0,
    ensures
        enc_u32_items(s) == enc_u32(s[0]) + enc_u32_items(s.skip(1)),
    decreases s.len(),
{
    if s.len() == 1 {
        assert(s.drop_last() =~= Seq::<u32>::empty());
        assert(s.skip(1) =~= Seq::<u32>::empty());
        assert(enc_u32_items(s) =~= enc_u32(s[0]) + enc_u32_items(s.skip(1)));
    } else {
        lemma_enc_u32_items_first(s.drop_last());
        assert(s.drop_last()[0] == s[0]);
        assert(s.drop_last().skip(1) =~= s.skip(1).drop_last());
        assert(s.skip(1).last() == s.last());
        assert(enc_u32_items(s) =~= enc_u32(s[0]) + enc_u32_items(s.skip(1)));
    }
}

/// Reading at a position holding the items of `s` yields `s`.
proof fn lemma_dec_u32_items(b: Seq<u8>, pos: int, s: Seq<u32>)
    requires
        0 <= pos,
        pos + enc_u32_items(s).len() <= b.len(),
        b.subrange(pos, pos + enc_u32_items(s).len()) == enc_u32_items(s),
    ensures
        dec_u32_items(b, pos, s.len() as int) == Some((s, pos + enc_u32_items(s).len())),
    decreases s.len(),
{
    if s.len() == 0 {
    } else {
        lemma_enc_u32_items_first(s);
        lemma_enc_u32_len(s[0]);
        lemma_concat_split(b, pos, enc_u32(s[0]), enc_u32_items(s.skip(1)));
        lemma_dec_u32(b, pos, s[0]);
        lemma_dec_u32_items(b, pos + 4, s.skip(1));
        assert(seq![s[0]] + s.skip(1) =~= s);
    }
}

/// Reading at a position holding `enc_u32_list(s)` yields `s`.
pub proof fn lemma_dec_u32_list(b: Seq<u8>, pos: int, s: Seq<u32>)
    requires
        0 <= pos,
        wf_u32_list(s),
        pos + enc_u32_list(s).len() <= b.len(),
        b.subrange(pos, pos + enc_u32_list(s).len()) == enc_u32_list(s),
    ensures
        dec_u32_list(b, pos) == Some((s, pos + enc_u32_list(s).len())),
{
    lemma_enc_u64_len(s.len() as u64);
    lemma_concat_split(b, pos, enc_u64(s.len() as u64), enc_u32_items(s));
    lemma_dec_u64(b, pos, s.len() as u64);
    lemma_dec_u32_items(b, pos + 8, s);
}

/// Appends `enc_u32_list(v@)` to `out`.
pub fn write_u32_list(out: &mut Vec<u8>, v: &Vec<u32>)
    ensures
        final(out)@ == old(out)@ + enc_u32_list(v@),
        wf_u32_list(v@),
{
    write_u64(out, v.len() as u64);
    let mut i: usize = 0;
    while i < v.len()
        invariant
            i <= v.len(),
            out@ == old(out)@ + enc_u64(v@.len() as u64) + enc_u32_items(v@.subrange(0, i as int)),
        decreases v.len() - i,
    {
        write_u32(out, v[i]);
        i = i + 1;
        proof {
            assert(v@.subrange(0, i as int).drop_last() =~= v@.subrange(0, i as int - 1));
            assert(v@.subrange(0, i as int).last() == v@[i as int - 1]);
            assert(out@ =~= old(out)@ + enc_u64(v@.len() as u64) + enc_u32_items(
                v@.subrange(0, i as int),
            ));
        }
    }
    proof {
        assert(v@.subrange(0, v@.len() as int) =~= v@);
        assert(out@ =~= old(out)@ + enc_u32_list(v@));
    }
}

/// Reads `n` numeric tags at `pos`, mirroring `dec_u32_items`.
fn read_u32_items(b: &Vec<u8>, pos: usize, n: u64) -> (r: Option<(Vec<u32>, usize)>)
    ensures
        match r {
            Some(vp) => dec_u32_items(b@, pos as int, n as int) matches Some(dv) && vp.0@ == dv.0
                && vp.1 == dv.1,
            None => dec_u32_items(b@, pos as int, n as int) is None,
        },
    decreases n,
{
    if n == 0 {
        Some((Vec::new(), pos))
    } else {
        match read_u32(b, pos) {
            None => None,
            Some((v, p1)) => match read_u32_items(b, p1, n - 1) {
                None => None,
                Some((mut vs, p2)) => {
                    vs.insert(0, v);
                    proof {
                        let d = dec_u32_items(b@, pos as int, n as int);
                        assert(vs@ =~= d.unwrap().0);
                    }
                    Some((vs, p2))
                },
            },
        }
    }
}

/// Reads a numeric tag list at `pos`, mirroring `dec_u32_list`.
pub fn read_u32_list(b: &Vec<u8>, pos: usize) -> (r: Option<(Vec<u32>, usize)>)
    ensures
        match r {
            Some(vp) => dec_u32_list(b@, pos as int) matches Some(dv) && vp.0@ == dv.0 && vp.1
                == dv.1,
            None => dec_u32_list(b@, pos as int) is None,
        },
{
    match read_u64(b, pos) {
        None => None,
        Some((n, p)) => read_u32_items(b, p, n),
    }
}

} // verus!
