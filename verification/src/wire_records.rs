//! Wire encodings of the record structs and their stored tables.

use vstd::prelude::*;
use vstd::utf8::encode_utf8;
use crate::profile_models::Profile;
use crate::profile_models::PrincipalId;
use crate::profile_models::ProfilePrivacy;
use crate::profile_models::ApplicationRole;
use crate::profile_models::DocumentDetails;
use crate::profile_models::AssetView;
use crate::profile_models::WalletView;
use crate::profile_models::IdentifierView;
use crate::profile_models::ProfileView;
use crate::profile_models::ProfileResponse;
use crate::profile_models::ProfileResponseView;
use crate::profile_models::WalletResponse;
use crate::profile_models::WalletResponseView;
use crate::profile_models::FriendRequest;
use crate::profile_models::FriendRequestView;
use crate::profile_models::profile_entry_view;
use crate::profile_models::profile_entries_view;
use crate::profile_models::request_entry_view;
use crate::profile_models::request_entries_view;
use crate::profile_models::wallet_responses_view;
use crate::profile_models::profile_responses_view;
use crate::wire::enc_u64;
use crate::wire::dec_u64;
use crate::wire::write_u64;
use crate::wire::read_u64;
use crate::wire::lemma_dec_u64;
use crate::wire::lemma_enc_u64_len;
use crate::wire::enc_bool;
use crate::wire::dec_bool;
use crate::wire::write_bool;
use crate::wire::read_bool;
use crate::wire::lemma_dec_bool;
use crate::wire::enc_string;
use crate::wire::dec_string;
use crate::wire::write_string;
use crate::wire::read_string;
use crate::wire::lemma_dec_string;
use crate::wire::lemma_concat_split;
use crate::wire_models::enc_principal;
use crate::wire_models::dec_principal;
use crate::wire_models::write_principal;
use crate::wire_models::read_principal;
use crate::wire_models::lemma_dec_principal;
use crate::wire_models::enc_document;
use crate::wire_models::dec_document;
use crate::wire_models::write_document;
use crate::wire_models::read_document;
use crate::wire_models::lemma_dec_document;
use crate::wire_models::enc_opt_document;
use crate::wire_models::dec_opt_document;
use crate::wire_models::write_opt_document;
use crate::wire_models::read_opt_document;
use crate::wire_models::lemma_dec_opt_document;
use crate::wire_models::enc_privacy;
use crate::wire_models::dec_privacy;
use crate::wire_models::write_privacy;
use crate::wire_models::read_privacy;
use crate::wire_models::lemma_dec_privacy;
use crate::wire_models::enc_role;
use crate::wire_models::dec_role;
use crate::wire_models::write_role;
use crate::wire_models::read_role;
use crate::wire_models::lemma_dec_role;
use crate::wire_models::enc_asset;
use crate::wire_models::dec_asset;
use crate::wire_models::wf_asset;
use crate::wire_models::write_asset;
use crate::wire_models::read_asset;
use crate::wire_models::lemma_dec_asset;
use crate::wire_models::enc_identifier;
use crate::wire_models::dec_identifier;
use crate::wire_models::wf_identifier;
use crate::wire_models::write_identifier;
use crate::wire_models::read_identifier;
use crate::wire_models::lemma_dec_identifier;
use crate::wire_models::enc_u32_list;
use crate::wire_models::dec_u32_list;
use crate::wire_models::wf_u32_list;
use crate::wire_models::write_u32_list;
use crate::wire_models::read_u32_list;
use crate::wire_models::lemma_dec_u32_list;
use crate::wire_lists::enc_wallet_entry_list;
use crate::wire_lists::dec_wallet_entry_list;
use crate::wire_lists::wf_wallet_entry_list;
use crate::wire_lists::write_wallet_entry_list;
use crate::wire_lists::read_wallet_entry_list;
use crate::wire_lists::lemma_dec_wallet_entry_list;
use crate::wire_lists::enc_tag_entry_list;
use crate::wire_lists::dec_tag_entry_list;
use crate::wire_lists::wf_tag_entry_list;
use crate::wire_lists::write_tag_entry_list;
use crate::wire_lists::read_tag_entry_list;
use crate::wire_lists::lemma_dec_tag_entry_list;

verus! {

// ---------------------------------------------------------------------
// wallet response
// ---------------------------------------------------------------------
/// Bounds the encoded sizes within a wallet response.
pub open spec fn wf_wallet_response(v: WalletResponseView) -> bool {
    &&& encode_utf8(v.provider).len() <= u64::MAX
}

/// Encoding of a wallet response: its fields' encodings, in declaration order.
pub open spec fn enc_wallet_response(v: WalletResponseView) -> Seq<u8> {
    enc_string(v.provider) + enc_principal(v.principal) + enc_bool(v.is_primary)
}

/// Reads a wallet response at `pos`.
pub open spec fn dec_wallet_response(b: Seq<u8>, pos: int) -> Option<(WalletResponseView, int)> {
    match dec_string(b, pos) {
        None => None,
        Some((provider, p1)) =>
        match dec_principal(b, p1) {
            None => None,
            Some((principal, p2)) =>
            match dec_bool(b, p2) {
                None => None,
                Some((is_primary, p3)) =>
                Some((WalletResponseView { provider, principal, is_primary }, p3)),
            },
        },
    }
}

/// Reading at a position holding `enc_wallet_response(v)` yields `v`.
pub proof fn lemma_dec_wallet_response(b: Seq<u8>, pos: int, v: WalletResponseView)
    requires
        0 <= pos,
        wf_wallet_response(v),
        pos + enc_wallet_response(v).len() <= b.len(),
        b.subrange(pos, pos + enc_wallet_response(v).len()) == enc_wallet_response(v),
    ensures
        dec_wallet_response(b, pos) == Some((v, pos + enc_wallet_response(v).len())),
{
    let e1 = enc_string(v.provider);
    let e2 = enc_principal(v.principal);
    let e3 = enc_bool(v.is_primary);
    let p1 = e1;
    let p2 = p1 + e2;
    let p3 = p2 + e3;
    assert(enc_wallet_response(v) == p3);
    lemma_enc_u64_len(v.principal.id);
    assert(enc_bool(v.is_primary).len() == 1);
    lemma_concat_split(b, pos, p2, e3);
    lemma_concat_split(b, pos, p1, e2);
    lemma_dec_string(b, pos, v.provider);
    lemma_dec_principal(b, pos + p1.len(), v.principal);
    lemma_dec_bool(b, pos + p2.len(), v.is_primary);
}

/// Appends `enc_wallet_response` of the value's view to `out`.
pub fn write_wallet_response(out: &mut Vec<u8>, p: &WalletResponse)
    ensures
        final(out)@ == old(out)@ + enc_wallet_response(p@),
        wf_wallet_response(p@),
{
    let ghost v = p@;
    let ghost e1 = enc_string(v.provider);
    let ghost e2 = enc_principal(v.principal);
    let ghost e3 = enc_bool(v.is_primary);
    let ghost p1 = e1;
    let ghost p2 = p1 + e2;
    let ghost p3 = p2 + e3;
    write_string(out, &p.provider);
    proof {
        assert(out@ =~= old(out)@ + p1);
    }
    write_principal(out, p.principal);
    proof {
        assert(out@ =~= old(out)@ + p2);
    }
    write_bool(out, p.is_primary);
    proof {
        assert(out@ =~= old(out)@ + p3);
    }
    proof {
        assert(out@ =~= old(out)@ + enc_wallet_response(p@));
    }
}

/// Reads a wallet response at `pos`, mirroring `dec_wallet_response`.
pub fn read_wallet_response(b: &Vec<u8>, pos: usize) -> (r: Option<(WalletResponse, usize)>)
    ensures
        match r {
            Some(vp) => dec_wallet_response(b@, pos as int) matches Some(dv) && vp.0@ == dv.0 && vp.1
                == dv.1,
            None => dec_wallet_response(b@, pos as int) is None,
        },
{
    match read_string(b, pos) {
        None => None,
        Some((provider, p1)) =>
        match read_principal(b, p1) {
            None => None,
            Some((principal, p2)) =>
            match read_bool(b, p2) {
                None => None,
                Some((is_primary, p3)) =>
                Some((WalletResponse { provider, principal, is_primary }, p3)),
            },
        },
    }
}




/// Encoding of the items of a wallet response list, in order.
pub open spec fn enc_wallet_response_items(s: Seq<WalletResponseView>) -> Seq<u8>
    decreases s.len(),
{
    if s.len() == 0 {
        Seq::empty()
    } else {
        enc_wallet_response_items(s.drop_last()) + enc_wallet_response(s.last())
    }
}

/// Encoding of a wallet response list: its count, then its items.
pub open spec fn enc_wallet_response_list(s: Seq<WalletResponseView>) -> Seq<u8> {
    enc_u64(s.len() as u64) + enc_wallet_response_items(s)
}

/// Bounds a wallet response list's count and its entries' sizes.
pub open spec fn wf_wallet_response_list(s: Seq<WalletResponseView>) -> bool {
    s.len() <= u64::MAX && forall|i: int| 0 <= i < s.len() ==> wf_wallet_response(#[trigger] s[i])
}

/// Reads `n` wallet response entries at `pos`.
pub open spec fn dec_wallet_response_items(b: Seq<u8>, pos: int, n: int) -> Option<(Seq<WalletResponseView>, int)>
    decreases n,
{
    if n <= 0 {
        Some((Seq::empty(), pos))
    } else {
        match dec_wallet_response(b, pos) {
            None => None,
            Some((v, p1)) => match dec_wallet_response_items(b, p1, n - 1) {
                None => None,
                Some((vs, p2)) => Some((seq![v] + vs, p2)),
            },
        }
    }
}

/// Reads a wallet response list at `pos`.
pub open spec fn dec_wallet_response_list(b: Seq<u8>, pos: int) -> Option<(Seq<WalletResponseView>, int)> {
    match dec_u64(b, pos) {
        None => None,
        Some((n, p)) => dec_wallet_response_items(b, p, n as int),
    }
}

/// The item encoding decomposes at its first item.
proof fn lemma_enc_wallet_response_items_first(s: Seq<WalletResponseView>)
    requires
        s.len() > 0,
    ensures
        enc_wallet_response_items(s) == enc_wallet_response(s[0]) + enc_wallet_response_items(s.skip(1)),
    decreases s.len(),
{
    if s.len() == 1 {
        assert(s.drop_last() =~= Seq::<WalletResponseView>::empty());
        assert(s.skip(1) =~= Seq::<WalletResponseView>::empty());
        assert(enc_wallet_response_items(s) =~= enc_wallet_response(s[0]) + enc_wallet_response_items(s.skip(1)));
    } else {
        lemma_enc_wallet_response_items_first(s.drop_last());
        assert(s.drop_last()[0] == s[0]);
        assert(s.drop_last().skip(1) =~= s.skip(1).drop_last());
        assert(s.skip(1).last() == s.last());
        assert(enc_wallet_response_items(s) =~= enc_wallet_response(s[0]) + enc_wallet_response_items(s.skip(1)));
    }
}

/// Reading at a position holding the items of `s` yields `s`.
proof fn lemma_dec_wallet_response_items(b: Seq<u8>, pos: int, s: Seq<WalletResponseView>)
    requires
        0 <= pos,
        forall|i: int| 0 <= i < s.len() ==> wf_wallet_response(#[trigger] s[i]),
        pos + enc_wallet_response_items(s).len() <= b.len(),
        b.subrange(pos, pos + enc_wallet_response_items(s).len()) == enc_wallet_response_items(s),
    ensures
        dec_wallet_response_items(b, pos, s.len() as int) == Some((s, pos + enc_wallet_response_items(s).len())),
    decreases s.len(),
{
    if s.len() == 0 {
    } else {
        lemma_enc_wallet_response_items_first(s);
        lemma_concat_split(b, pos, enc_wallet_response(s[0]), enc_wallet_response_items(s.skip(1)));
        lemma_dec_wallet_response(b, pos, s[0]);
        lemma_dec_wallet_response_items(b, pos + enc_wallet_response(s[0]).len(), s.skip(1));
        assert(seq![s[0]] + s.skip(1) =~= s);
    }
}

/// Reading at a position holding `enc_wallet_response_list(s)` yields `s`.
pub proof fn lemma_dec_wallet_response_list(b: Seq<u8>, pos: int, s: Seq<WalletResponseView>)
    requires
        0 <= pos,
        wf_wallet_response_list(s),
        pos + enc_wallet_response_list(s).len() <= b.len(),
        b.subrange(pos, pos + enc_wallet_response_list(s).len()) == enc_wallet_response_list(s),
    ensures
        dec_wallet_response_list(b, pos) == Some((s, pos + enc_wallet_response_list(s).len())),
{
    lemma_enc_u64_len(s.len() as u64);
    lemma_concat_split(b, pos, enc_u64(s.len() as u64), enc_wallet_response_items(s));
    lemma_dec_u64(b, pos, s.len() as u64);
    lemma_dec_wallet_response_items(b, pos + 8, s);
}

/// Appends `enc_wallet_response_list` of the list's view to `out`.
pub fn write_wallet_response_list(out: &mut Vec<u8>, v: &Vec<WalletResponse>)
    ensures
        final(out)@ == old(out)@ + enc_wallet_response_list(wallet_responses_view(v@)),
        wf_wallet_response_list(wallet_responses_view(v@)),
{
    let ghost vw = wallet_responses_view(v@);
    write_u64(out, v.len() as u64);
    let mut i: usize = 0;
    while i < v.len()
        invariant
            i <= v.len(),
            vw == wallet_responses_view(v@),
            vw.len() == v@.len(),
            out@ == old(out)@ + enc_u64(vw.len() as u64) + enc_wallet_response_items(vw.subrange(0, i as int)),
            forall|j: int| 0 <= j < i as int ==> wf_wallet_response(#[trigger] vw[j]),
        decreases v.len() - i,
    {
        write_wallet_response(out, &v[i]);
        i = i + 1;
        proof {
            assert(vw[i as int - 1] == (v@[i as int - 1]@));
            assert(vw.subrange(0, i as int).drop_last() =~= vw.subrange(0, i as int - 1));
            assert(vw.subrange(0, i as int).last() == vw[i as int - 1]);
            assert(out@ =~= old(out)@ + enc_u64(vw.len() as u64) + enc_wallet_response_items(
                vw.subrange(0, i as int),
            ));
        }
    }
    proof {
        assert(vw.subrange(0, vw.len() as int) =~= vw);
        assert(out@ =~= old(out)@ + enc_wallet_response_list(vw));
    }
}

/// Reads `n` wallet response entries at `pos`, mirroring `dec_wallet_response_items`.
fn read_wallet_response_items(b: &Vec<u8>, pos: usize, n: u64) -> (r: Option<(Vec<WalletResponse>, usize)>)
    ensures
        match r {
            Some(vp) => dec_wallet_response_items(b@, pos as int, n as int) matches Some(dv) && wallet_responses_view(
                vp.0@,
            ) == dv.0 && vp.1 == dv.1,
            None => dec_wallet_response_items(b@, pos as int, n as int) is None,
        },
    decreases n,
{
    if n == 0 {
        let r: Vec<WalletResponse> = Vec::new();
        proof {
            assert(wallet_responses_view(r@) =~= Seq::<WalletResponseView>::empty());
        }
        Some((r, pos))
    } else {
        match read_wallet_response(b, pos) {
            None => None,
            Some((v, p1)) => match read_wallet_response_items(b, p1, n - 1) {
                None => None,
                Some((mut vs, p2)) => {
                    vs.insert(0, v);
                    proof {
                        let d = dec_wallet_response_items(b@, pos as int, n as int);
                        assert(wallet_responses_view(vs@) =~= d.unwrap().0);
                    }
                    Some((vs, p2))
                },
            },
        }
    }
}

/// Reads a wallet response list at `pos`, mirroring `dec_wallet_response_list`.
pub fn read_wallet_response_list(b: &Vec<u8>, pos: usize) -> (r: Option<(Vec<WalletResponse>, usize)>)
    ensures
        match r {
            Some(vp) => dec_wallet_response_list(b@, pos as int) matches Some(dv) && wallet_responses_view(vp.0@)
                == dv.0 && vp.1 == dv.1,
            None => dec_wallet_response_list(b@, pos as int) is None,
        },
{
    match read_u64(b, pos) {
        None => None,
        Some((n, p)) => read_wallet_response_items(b, p, n),
    }
}

// ---------------------------------------------------------------------
// friend request
// ---------------------------------------------------------------------
/// Bounds the encoded sizes within a friend request.
pub open spec fn wf_friend_request(v: FriendRequestView) -> bool {
    &&& encode_utf8(v.message).len() <= u64::MAX
}

/// Encoding of a friend request: its fields' encodings, in declaration order.
pub open spec fn enc_friend_request(v: FriendRequestView) -> Seq<u8> {
    enc_principal(v.requested_by) + enc_string(v.message) + enc_principal(v.to) + enc_u64(v.created_at)
}

/// Reads a friend request at `pos`.
pub open spec fn dec_friend_request(b: Seq<u8>, pos: int) -> Option<(FriendRequestView, int)> {
    match dec_principal(b, pos) {
        None => None,
        Some((requested_by, p1)) =>
        match dec_string(b, p1) {
            None => None,
            Some((message, p2)) =>
            match dec_principal(b, p2) {
                None => None,
                Some((to, p3)) =>
                match dec_u64(b, p3) {
                    None => None,
                    Some((created_at, p4)) =>
                    Some((FriendRequestView { requested_by, message, to, created_at }, p4)),
                },
            },
        },
    }
}

/// Reading at a position holding `enc_friend_request(v)` yields `v`.
pub proof fn lemma_dec_friend_request(b: Seq<u8>, pos: int, v: FriendRequestView)
    requires
        0 <= pos,
        wf_friend_request(v),
        pos + enc_friend_request(v).len() <= b.len(),
        b.subrange(pos, pos + enc_friend_request(v).len()) == enc_friend_request(v),
    ensures
        dec_friend_request(b, pos) == Some((v, pos + enc_friend_request(v).len())),
{
    let e1 = enc_principal(v.requested_by);
    let e2 = enc_string(v.message);
    let e3 = enc_principal(v.to);
    let e4 = enc_u64(v.created_at);
    let p1 = e1;
    let p2 = p1 + e2;
    let p3 = p2 + e3;
    let p4 = p3 + e4;
    assert(enc_friend_request(v) == p4);
    lemma_enc_u64_len(v.requested_by.id);
    lemma_enc_u64_len(v.to.id);
    lemma_enc_u64_len(v.created_at);
    lemma_concat_split(b, pos, p3, e4);
    lemma_concat_split(b, pos, p2, e3);
    lemma_concat_split(b, pos, p1, e2);
    lemma_dec_principal(b, pos, v.requested_by);
    lemma_dec_string(b, pos + p1.len(), v.message);
    lemma_dec_principal(b, pos + p2.len(), v.to);
    lemma_dec_u64(b, pos + p3.len(), v.created_at);
}

/// Appends `enc_friend_request` of the value's view to `out`.
pub fn write_friend_request(out: &mut Vec<u8>, p: &FriendRequest)
    ensures
        final(out)@ == old(out)@ + enc_friend_request(p@),
        wf_friend_request(p@),
{
    let ghost v = p@;
    let ghost e1 = enc_principal(v.requested_by);
    let ghost e2 = enc_string(v.message);
    let ghost e3 = enc_principal(v.to);
    let ghost e4 = enc_u64(v.created_at);
    let ghost p1 = e1;
    let ghost p2 = p1 + e2;
    let ghost p3 = p2 + e3;
    let ghost p4 = p3 + e4;
    write_principal(out, p.requested_by);
    proof {
        assert(out@ =~= old(out)@ + p1);
    }
    write_string(out, &p.message);
    proof {
        assert(out@ =~= old(out)@ + p2);
    }
    write_principal(out, p.to);
    proof {
        assert(out@ =~= old(out)@ + p3);
    }
    write_u64(out, p.created_at);
    proof {
        assert(out@ =~= old(out)@ + p4);
    }
    proof {
        assert(out@ =~= old(out)@ + enc_friend_request(p@));
    }
}

/// Reads a friend request at `pos`, mirroring `dec_friend_request`.
pub fn read_friend_request(b: &Vec<u8>, pos: usize) -> (r: Option<(FriendRequest, usize)>)
    ensures
        match r {
            Some(vp) => dec_friend_request(b@, pos as int) matches Some(dv) && vp.0@ == dv.0 && vp.1
                == dv.1,
            None => dec_friend_request(b@, pos as int) is None,
        },
{
    match read_principal(b, pos) {
        None => None,
        Some((requested_by, p1)) =>
        match read_string(b, p1) {
            None => None,
            Some((message, p2)) =>
            match read_principal(b, p2) {
                None => None,
                Some((to, p3)) =>
                match read_u64(b, p3) {
                    None => None,
                    Some((created_at, p4)) =>
                    Some((FriendRequest { requested_by, message, to, created_at }, p4)),
                },
            },
        },
    }
}




/// One wire section of a profile record.
pub ghost struct ProfileWireA {
    pub principal: PrincipalId,
    pub member_identifier: PrincipalId,
    pub username: Seq<char>,
    pub display_name: Seq<char>,
    pub application_role: ApplicationRole,
    pub first_name: Seq<char>,
    pub last_name: Seq<char>,
    pub privacy: ProfilePrivacy,
}

/// Extracts this wire section from the full view.
pub open spec fn profile_wire_a_of(v: ProfileView) -> ProfileWireA {
    ProfileWireA {
        principal: v.principal,
        member_identifier: v.member_identifier,
        username: v.username,
        display_name: v.display_name,
        application_role: v.application_role,
        first_name: v.first_name,
        last_name: v.last_name,
        privacy: v.privacy,
    }
}

/// Bounds the encoded sizes within this section.
pub open spec fn wf_profile_wire_a(v: ProfileWireA) -> bool {
    &&& encode_utf8(v.username).len() <= u64::MAX
    &&& encode_utf8(v.display_name).len() <= u64::MAX
    &&& encode_utf8(v.first_name).len() <= u64::MAX
    &&& encode_utf8(v.last_name).len() <= u64::MAX
}

/// Encoding of this section: its fields' encodings, in order.
pub open spec fn enc_profile_wire_a(v: ProfileWireA) -> Seq<u8> {
    enc_principal(v.principal) + enc_principal(v.member_identifier) + enc_string(v.username) + enc_string(v.display_name) + enc_role(v.application_role) + enc_string(v.first_name) + enc_string(v.last_name) + enc_privacy(v.privacy)
}

/// Reads this section at `pos`.
#[verifier::opaque]
pub open spec fn dec_profile_wire_a(b: Seq<u8>, pos: int) -> Option<(ProfileWireA, int)> {
    match dec_principal(b, pos) {
        None => None,
        Some((principal, p1)) =>
        match dec_principal(b, p1) {
            None => None,
            Some((member_identifier, p2)) =>
            match dec_string(b, p2) {
                None => None,
                Some((username, p3)) =>
                match dec_string(b, p3) {
                    None => None,
                    Some((display_name, p4)) =>
                    match dec_role(b, p4) {
                        None => None,
                        Some((application_role, p5)) =>
                        match dec_string(b, p5) {
                            None => None,
                            Some((first_name, p6)) =>
                            match dec_string(b, p6) {
                                None => None,
                                Some((last_name, p7)) =>
                                match dec_privacy(b, p7) {
                                    None => None,
                                    Some((privacy, p8)) =>
                                    Some((ProfileWireA { principal, member_identifier, username, display_name, application_role, first_name, last_name, privacy }, p8)),
                                },
                            },
                        },
                    },
                },
            },
        },
    }
}

/// Reading at a position holding `enc_profile_wire_a(v)` yields `v`.
pub proof fn lemma_dec_profile_wire_a(b: Seq<u8>, pos: int, v: ProfileWireA)
    requires
        0 <= pos,
        wf_profile_wire_a(v),
        pos + enc_profile_wire_a(v).len() <= b.len(),
        b.subrange(pos, pos + enc_profile_wire_a(v).len()) == enc_profile_wire_a(v),
    ensures
        dec_profile_wire_a(b, pos) == Some((v, pos + enc_profile_wire_a(v).len())),
{
    reveal(crate::wire_records::dec_profile_wire_a);
    let e1 = enc_principal(v.principal);
    let e2 = enc_principal(v.member_identifier);
    let e3 = enc_string(v.username);
    let e4 = enc_string(v.display_name);
    let e5 = enc_role(v.application_role);
    let e6 = enc_string(v.first_name);
    let e7 = enc_string(v.last_name);
    let e8 = enc_privacy(v.privacy);
    let p1 = e1;
    let p2 = p1 + e2;
    let p3 = p2 + e3;
    let p4 = p3 + e4;
    let p5 = p4 + e5;
    let p6 = p5 + e6;
    let p7 = p6 + e7;
    let p8 = p7 + e8;
    assert(enc_profile_wire_a(v) == p8);
    lemma_enc_u64_len(v.principal.id);
    lemma_enc_u64_len(v.member_identifier.id);
    assert(enc_role(v.application_role).len() == 1);
    assert(enc_privacy(v.privacy).len() == 1);
    lemma_concat_split(b, pos, p7, e8);
    lemma_concat_split(b, pos, p6, e7);
    lemma_concat_split(b, pos, p5, e6);
    lemma_concat_split(b, pos, p4, e5);
    lemma_concat_split(b, pos, p3, e4);
    lemma_concat_split(b, pos, p2, e3);
    lemma_concat_split(b, pos, p1, e2);
    lemma_dec_principal(b, pos, v.principal);
    lemma_dec_principal(b, pos + p1.len(), v.member_identifier);
    lemma_dec_string(b, pos + p2.len(), v.username);
    lemma_dec_string(b, pos + p3.len(), v.display_name);
    lemma_dec_role(b, pos + p4.len(), v.application_role);
    lemma_dec_string(b, pos + p5.len(), v.first_name);
    lemma_dec_string(b, pos + p6.len(), v.last_name);
    lemma_dec_privacy(b, pos + p7.len(), v.privacy);
}

/// Appends this section of `p`'s view to `out`.
pub fn write_profile_wire_a(out: &mut Vec<u8>, p: &Profile)
    ensures
        final(out)@ == old(out)@ + enc_profile_wire_a(profile_wire_a_of(p@)),
        wf_profile_wire_a(profile_wire_a_of(p@)),
{
    let ghost v = profile_wire_a_of(p@);
    let ghost e1 = enc_principal(v.principal);
    let ghost e2 = enc_principal(v.member_identifier);
    let ghost e3 = enc_string(v.username);
    let ghost e4 = enc_string(v.display_name);
    let ghost e5 = enc_role(v.application_role);
    let ghost e6 = enc_string(v.first_name);
    let ghost e7 = enc_string(v.last_name);
    let ghost e8 = enc_privacy(v.privacy);
    let ghost p1 = e1;
    let ghost p2 = p1 + e2;
    let ghost p3 = p2 + e3;
    let ghost p4 = p3 + e4;
    let ghost p5 = p4 + e5;
    let ghost p6 = p5 + e6;
    let ghost p7 = p6 + e7;
    let ghost p8 = p7 + e8;
    write_principal(out, p.principal);
    proof {
        assert(out@ =~= old(out)@ + p1);
    }
    write_principal(out, p.member_identifier);
    proof {
        assert(out@ =~= old(out)@ + p2);
    }
    write_string(out, &p.username);
    proof {
        assert(out@ =~= old(out)@ + p3);
    }
    write_string(out, &p.display_name);
    proof {
        assert(out@ =~= old(out)@ + p4);
    }
    write_role(out, p.application_role);
    proof {
        assert(out@ =~= old(out)@ + p5);
    }
    write_string(out, &p.first_name);
    proof {
        assert(out@ =~= old(out)@ + p6);
    }
    write_string(out, &p.last_name);
    proof {
        assert(out@ =~= old(out)@ + p7);
    }
    write_privacy(out, p.privacy);
    proof {
        assert(out@ =~= old(out)@ + p8);
    }
    proof {
        assert(out@ =~= old(out)@ + enc_profile_wire_a(v));
    }
}


/// One wire section of a profile record.
pub ghost struct ProfileWireB {
    pub about: Seq<char>,
    pub email: Seq<char>,
    pub date_of_birth: u64,
    pub city: Seq<char>,
    pub state_or_province: Seq<char>,
    pub country: Seq<char>,
    pub profile_image: AssetView,
    pub banner_image: AssetView,
}

/// Extracts this wire section from the full view.
pub open spec fn profile_wire_b_of(v: ProfileView) -> ProfileWireB {
    ProfileWireB {
        about: v.about,
        email: v.email,
        date_of_birth: v.date_of_birth,
        city: v.city,
        state_or_province: v.state_or_province,
        country: v.country,
        profile_image: v.profile_image,
        banner_image: v.banner_image,
    }
}

/// Bounds the encoded sizes within this section.
pub open spec fn wf_profile_wire_b(v: ProfileWireB) -> bool {
    &&& encode_utf8(v.about).len() <= u64::MAX
    &&& encode_utf8(v.email).len() <= u64::MAX
    &&& encode_utf8(v.city).len() <= u64::MAX
    &&& encode_utf8(v.state_or_province).len() <= u64::MAX
    &&& encode_utf8(v.country).len() <= u64::MAX
    &&& wf_asset(v.profile_image)
    &&& wf_asset(v.banner_image)
}

/// Encoding of this section: its fields' encodings, in order.
pub open spec fn enc_profile_wire_b(v: ProfileWireB) -> Seq<u8> {
    enc_string(v.about) + enc_string(v.email) + enc_u64(v.date_of_birth) + enc_string(v.city) + enc_string(v.state_or_province) + enc_string(v.country) + enc_asset(v.profile_image) + enc_asset(v.banner_image)
}

/// Reads this section at `pos`.
#[verifier::opaque]
pub open spec fn dec_profile_wire_b(b: Seq<u8>, pos: int) -> Option<(ProfileWireB, int)> {
    match dec_string(b, pos) {
        None => None,
        Some((about, p1)) =>
        match dec_string(b, p1) {
            None => None,
            Some((email, p2)) =>
            match dec_u64(b, p2) {
                None => None,
                Some((date_of_birth, p3)) =>
                match dec_string(b, p3) {
                    None => None,
                    Some((city, p4)) =>
                    match dec_string(b, p4) {
                        None => None,
                        Some((state_or_province, p5)) =>
                        match dec_string(b, p5) {
                            None => None,
                            Some((country, p6)) =>
                            match dec_asset(b, p6) {
                                None => None,
                                Some((profile_image, p7)) =>
                                match dec_asset(b, p7) {
                                    None => None,
                                    Some((banner_image, p8)) =>
                                    Some((ProfileWireB { about, email, date_of_birth, city, state_or_province, country, profile_image, banner_image }, p8)),
                                },
                            },
                        },
                    },
                },
            },
        },
    }
}

/// Reading at a position holding `enc_profile_wire_b(v)` yields `v`.
pub proof fn lemma_dec_profile_wire_b(b: Seq<u8>, pos: int, v: ProfileWireB)
    requires
        0 <= pos,
        wf_profile_wire_b(v),
        pos + enc_profile_wire_b(v).len() <= b.len(),
        b.subrange(pos, pos + enc_profile_wire_b(v).len()) == enc_profile_wire_b(v),
    ensures
        dec_profile_wire_b(b, pos) == Some((v, pos + enc_profile_wire_b(v).len())),
{
    reveal(crate::wire_records::dec_profile_wire_b);
    let e1 = enc_string(v.about);
    let e2 = enc_string(v.email);
    let e3 = enc_u64(v.date_of_birth);
    let e4 = enc_string(v.city);
    let e5 = enc_string(v.state_or_province);
    let e6 = enc_string(v.country);
    let e7 = enc_asset(v.profile_image);
    let e8 = enc_asset(v.banner_image);
    let p1 = e1;
    let p2 = p1 + e2;
    let p3 = p2 + e3;
    let p4 = p3 + e4;
    let p5 = p4 + e5;
    let p6 = p5 + e6;
    let p7 = p6 + e7;
    let p8 = p7 + e8;
    assert(enc_profile_wire_b(v) == p8);
    lemma_enc_u64_len(v.date_of_birth);
    lemma_concat_split(b, pos, p7, e8);
    lemma_concat_split(b, pos, p6, e7);
    lemma_concat_split(b, pos, p5, e6);
    lemma_concat_split(b, pos, p4, e5);
    lemma_concat_split(b, pos, p3, e4);
    lemma_concat_split(b, pos, p2, e3);
    lemma_concat_split(b, pos, p1, e2);
    lemma_dec_string(b, pos, v.about);
    lemma_dec_string(b, pos + p1.len(), v.email);
    lemma_dec_u64(b, pos + p2.len(), v.date_of_birth);
    lemma_dec_string(b, pos + p3.len(), v.city);
    lemma_dec_string(b, pos + p4.len(), v.state_or_province);
    lemma_dec_string(b, pos + p5.len(), v.country);
    lemma_dec_asset(b, pos + p6.len(), v.profile_image);
    lemma_dec_asset(b, pos + p7.len(), v.banner_image);
}

/// Appends this section of `p`'s view to `out`.
pub fn write_profile_wire_b(out: &mut Vec<u8>, p: &Profile)
    ensures
        final(out)@ == old(out)@ + enc_profile_wire_b(profile_wire_b_of(p@)),
        wf_profile_wire_b(profile_wire_b_of(p@)),
{
    let ghost v = profile_wire_b_of(p@);
    let ghost e1 = enc_string(v.about);
    let ghost e2 = enc_string(v.email);
    let ghost e3 = enc_u64(v.date_of_birth);
    let ghost e4 = enc_string(v.city);
    let ghost e5 = enc_string(v.state_or_province);
    let ghost e6 = enc_string(v.country);
    let ghost e7 = enc_asset(v.profile_image);
    let ghost e8 = enc_asset(v.banner_image);
    let ghost p1 = e1;
    let ghost p2 = p1 + e2;
    let ghost p3 = p2 + e3;
    let ghost p4 = p3 + e4;
    let ghost p5 = p4 + e5;
    let ghost p6 = p5 + e6;
    let ghost p7 = p6 + e7;
    let ghost p8 = p7 + e8;
    write_string(out, &p.about);
    proof {
        assert(out@ =~= old(out)@ + p1);
    }
    write_string(out, &p.email);
    proof {
        assert(out@ =~= old(out)@ + p2);
    }
    write_u64(out, p.date_of_birth);
    proof {
        assert(out@ =~= old(out)@ + p3);
    }
    write_string(out, &p.city);
    proof {
        assert(out@ =~= old(out)@ + p4);
    }
    write_string(out, &p.state_or_province);
    proof {
        assert(out@ =~= old(out)@ + p5);
    }
    write_string(out, &p.country);
    proof {
        assert(out@ =~= old(out)@ + p6);
    }
    write_asset(out, &p.profile_image);
    proof {
        assert(out@ =~= old(out)@ + p7);
    }
    write_asset(out, &p.banner_image);
    proof {
        assert(out@ =~= old(out)@ + p8);
    }
    proof {
        assert(out@ =~= old(out)@ + enc_profile_wire_b(v));
    }
}


/// One wire section of a profile record.
pub ghost struct ProfileWireC {
    pub skills: Seq<u32>,
    pub interests: Seq<u32>,
    pub causes: Seq<u32>,
    pub website: Seq<char>,
    pub code_of_conduct: DocumentDetails,
    pub privacy_policy: Option<DocumentDetails>,
    pub terms_of_service: Option<DocumentDetails>,
    pub wallets: Seq<(PrincipalId, WalletView)>,
}

/// Extracts this wire section from the full view.
pub open spec fn profile_wire_c_of(v: ProfileView) -> ProfileWireC {
    ProfileWireC {
        skills: v.skills,
        interests: v.interests,
        causes: v.causes,
        website: v.website,
        code_of_conduct: v.code_of_conduct,
        privacy_policy: v.privacy_policy,
        terms_of_service: v.terms_of_service,
        wallets: v.wallets,
    }
}

/// Bounds the encoded sizes within this section.
pub open spec fn wf_profile_wire_c(v: ProfileWireC) -> bool {
    &&& wf_u32_list(v.skills)
    &&& wf_u32_list(v.interests)
    &&& wf_u32_list(v.causes)
    &&& encode_utf8(v.website).len() <= u64::MAX
    &&& wf_wallet_entry_list(v.wallets)
}

/// Encoding of this section: its fields' encodings, in order.
pub open spec fn enc_profile_wire_c(v: ProfileWireC) -> Seq<u8> {
    enc_u32_list(v.skills) + enc_u32_list(v.interests) + enc_u32_list(v.causes) + enc_string(v.website) + enc_document(v.code_of_conduct) + enc_opt_document(v.privacy_policy) + enc_opt_document(v.terms_of_service) + enc_wallet_entry_list(v.wallets)
}

/// Reads this section at `pos`.
#[verifier::opaque]
pub open spec fn dec_profile_wire_c(b: Seq<u8>, pos: int) -> Option<(ProfileWireC, int)> {
    match dec_u32_list(b, pos) {
        None => None,
        Some((skills, p1)) =>
        match dec_u32_list(b, p1) {
            None => None,
            Some((interests, p2)) =>
            match dec_u32_list(b, p2) {
                None => None,
                Some((causes, p3)) =>
                match dec_string(b, p3) {
                    None => None,
                    Some((website, p4)) =>
                    match dec_document(b, p4) {
                        None => None,
                        Some((code_of_conduct, p5)) =>
                        match dec_opt_document(b, p5) {
                            None => None,
                            Some((privacy_policy, p6)) =>
                            match dec_opt_document(b, p6) {
                                None => None,
                                Some((terms_of_service, p7)) =>
                                match dec_wallet_entry_list(b, p7) {
                                    None => None,
                                    Some((wallets, p8)) =>
                                    Some((ProfileWireC { skills, interests, causes, website, code_of_conduct, privacy_policy, terms_of_service, wallets }, p8)),
                                },
                            },
                        },
                    },
                },
            },
        },
    }
}

/// Reading at a position holding `enc_profile_wire_c(v)` yields `v`.
pub proof fn lemma_dec_profile_wire_c(b: Seq<u8>, pos: int, v: ProfileWireC)
    requires
        0 <= pos,
        wf_profile_wire_c(v),
        pos + enc_profile_wire_c(v).len() <= b.len(),
        b.subrange(pos, pos + enc_profile_wire_c(v).len()) == enc_profile_wire_c(v),
    ensures
        dec_profile_wire_c(b, pos) == Some((v, pos + enc_profile_wire_c(v).len())),
{
    reveal(crate::wire_records::dec_profile_wire_c);
    let e1 = enc_u32_list(v.skills);
    let e2 = enc_u32_list(v.interests);
    let e3 = enc_u32_list(v.causes);
    let e4 = enc_string(v.website);
    let e5 = enc_document(v.code_of_conduct);
    let e6 = enc_opt_document(v.privacy_policy);
    let e7 = enc_opt_document(v.terms_of_service);
    let e8 = enc_wallet_entry_list(v.wallets);
    let p1 = e1;
    let p2 = p1 + e2;
    let p3 = p2 + e3;
    let p4 = p3 + e4;
    let p5 = p4 + e5;
    let p6 = p5 + e6;
    let p7 = p6 + e7;
    let p8 = p7 + e8;
    assert(enc_profile_wire_c(v) == p8);

    lemma_concat_split(b, pos, p7, e8);
    lemma_concat_split(b, pos, p6, e7);
    lemma_concat_split(b, pos, p5, e6);
    lemma_concat_split(b, pos, p4, e5);
    lemma_concat_split(b, pos, p3, e4);
    lemma_concat_split(b, pos, p2, e3);
    lemma_concat_split(b, pos, p1, e2);
    lemma_dec_u32_list(b, pos, v.skills);
    lemma_dec_u32_list(b, pos + p1.len(), v.interests);
    lemma_dec_u32_list(b, pos + p2.len(), v.causes);
    lemma_dec_string(b, pos + p3.len(), v.website);
    lemma_dec_document(b, pos + p4.len(), v.code_of_conduct);
    lemma_dec_opt_document(b, pos + p5.len(), v.privacy_policy);
    lemma_dec_opt_document(b, pos + p6.len(), v.terms_of_service);
    lemma_dec_wallet_entry_list(b, pos + p7.len(), v.wallets);
}

/// Appends this section of `p`'s view to `out`.
pub fn write_profile_wire_c(out: &mut Vec<u8>, p: &Profile)
    ensures
        final(out)@ == old(out)@ + enc_profile_wire_c(profile_wire_c_of(p@)),
        wf_profile_wire_c(profile_wire_c_of(p@)),
{
    let ghost v = profile_wire_c_of(p@);
    let ghost e1 = enc_u32_list(v.skills);
    let ghost e2 = enc_u32_list(v.interests);
    let ghost e3 = enc_u32_list(v.causes);
    let ghost e4 = enc_string(v.website);
    let ghost e5 = enc_document(v.code_of_conduct);
    let ghost e6 = enc_opt_document(v.privacy_policy);
    let ghost e7 = enc_opt_document(v.terms_of_service);
    let ghost e8 = enc_wallet_entry_list(v.wallets);
    let ghost p1 = e1;
    let ghost p2 = p1 + e2;
    let ghost p3 = p2 + e3;
    let ghost p4 = p3 + e4;
    let ghost p5 = p4 + e5;
    let ghost p6 = p5 + e6;
    let ghost p7 = p6 + e7;
    let ghost p8 = p7 + e8;
    write_u32_list(out, &p.skills);
    proof {
        assert(out@ =~= old(out)@ + p1);
    }
    write_u32_list(out, &p.interests);
    proof {
        assert(out@ =~= old(out)@ + p2);
    }
    write_u32_list(out, &p.causes);
    proof {
        assert(out@ =~= old(out)@ + p3);
    }
    write_string(out, &p.website);
    proof {
        assert(out@ =~= old(out)@ + p4);
    }
    write_document(out, &p.code_of_conduct);
    proof {
        assert(out@ =~= old(out)@ + p5);
    }
    write_opt_document(out, &p.privacy_policy);
    proof {
        assert(out@ =~= old(out)@ + p6);
    }
    write_opt_document(out, &p.terms_of_service);
    proof {
        assert(out@ =~= old(out)@ + p7);
    }
    write_wallet_entry_list(out, &p.wallets);
    proof {
        assert(out@ =~= old(out)@ + p8);
    }
    proof {
        assert(out@ =~= old(out)@ + enc_profile_wire_c(v));
    }
}


/// One wire section of a profile record.
pub ghost struct ProfileWireD {
    pub starred: Seq<(PrincipalId, Seq<char>)>,
    pub relations: Seq<(PrincipalId, Seq<char>)>,
    pub extra: Seq<char>,
    pub updated_on: u64,
    pub created_on: u64,
}

/// Extracts this wire section from the full view.
pub open spec fn profile_wire_d_of(v: ProfileView) -> ProfileWireD {
    ProfileWireD {
        starred: v.starred,
        relations: v.relations,
        extra: v.extra,
        updated_on: v.updated_on,
        created_on: v.created_on,
    }
}

/// Bounds the encoded sizes within this section.
pub open spec fn wf_profile_wire_d(v: ProfileWireD) -> bool {
    &&& wf_tag_entry_list(v.starred)
    &&& wf_tag_entry_list(v.relations)
    &&& encode_utf8(v.extra).len() <= u64::MAX
}

/// Encoding of this section: its fields' encodings, in order.
pub open spec fn enc_profile_wire_d(v: ProfileWireD) -> Seq<u8> {
    enc_tag_entry_list(v.starred) + enc_tag_entry_list(v.relations) + enc_string(v.extra) + enc_u64(v.updated_on) + enc_u64(v.created_on)
}

/// Reads this section at `pos`.
#[verifier::opaque]
pub open spec fn dec_profile_wire_d(b: Seq<u8>, pos: int) -> Option<(ProfileWireD, int)> {
    match dec_tag_entry_list(b, pos) {
        None => None,
        Some((starred, p1)) =>
        match dec_tag_entry_list(b, p1) {
            None => None,
            Some((relations, p2)) =>
            match dec_string(b, p2) {
                None => None,
                Some((extra, p3)) =>
                match dec_u64(b, p3) {
                    None => None,
                    Some((updated_on, p4)) =>
                    match dec_u64(b, p4) {
                        None => None,
                        Some((created_on, p5)) =>
                        Some((ProfileWireD { starred, relations, extra, updated_on, created_on }, p5)),
                    },
                },
            },
        },
    }
}

/// Reading at a position holding `enc_profile_wire_d(v)` yields `v`.
pub proof fn lemma_dec_profile_wire_d(b: Seq<u8>, pos: int, v: ProfileWireD)
    requires
        0 <= pos,
        wf_profile_wire_d(v),
        pos + enc_profile_wire_d(v).len() <= b.len(),
        b.subrange(pos, pos + enc_profile_wire_d(v).len()) == enc_profile_wire_d(v),
    ensures
        dec_profile_wire_d(b, pos) == Some((v, pos + enc_profile_wire_d(v).len())),
{
    reveal(crate::wire_records::dec_profile_wire_d);
    let e1 = enc_tag_entry_list(v.starred);
    let e2 = enc_tag_entry_list(v.relations);
    let e3 = enc_string(v.extra);
    let e4 = enc_u64(v.updated_on);
    let e5 = enc_u64(v.created_on);
    let p1 = e1;
    let p2 = p1 + e2;
    let p3 = p2 + e3;
    let p4 = p3 + e4;
    let p5 = p4 + e5;
    assert(enc_profile_wire_d(v) == p5);
    lemma_enc_u64_len(v.updated_on);
    lemma_enc_u64_len(v.created_on);
    lemma_concat_split(b, pos, p4, e5);
    lemma_concat_split(b, pos, p3, e4);
    lemma_concat_split(b, pos, p2, e3);
    lemma_concat_split(b, pos, p1, e2);
    lemma_dec_tag_entry_list(b, pos, v.starred);
    lemma_dec_tag_entry_list(b, pos + p1.len(), v.relations);
    lemma_dec_string(b, pos + p2.len(), v.extra);
    lemma_dec_u64(b, pos + p3.len(), v.updated_on);
    lemma_dec_u64(b, pos + p4.len(), v.created_on);
}

/// Appends this section of `p`'s view to `out`.
pub fn write_profile_wire_d(out: &mut Vec<u8>, p: &Profile)
    ensures
        final(out)@ == old(out)@ + enc_profile_wire_d(profile_wire_d_of(p@)),
        wf_profile_wire_d(profile_wire_d_of(p@)),
{
    let ghost v = profile_wire_d_of(p@);
    let ghost e1 = enc_tag_entry_list(v.starred);
    let ghost e2 = enc_tag_entry_list(v.relations);
    let ghost e3 = enc_string(v.extra);
    let ghost e4 = enc_u64(v.updated_on);
    let ghost e5 = enc_u64(v.created_on);
    let ghost p1 = e1;
    let ghost p2 = p1 + e2;
    let ghost p3 = p2 + e3;
    let ghost p4 = p3 + e4;
    let ghost p5 = p4 + e5;
    write_tag_entry_list(out, &p.starred);
    proof {
        assert(out@ =~= old(out)@ + p1);
    }
    write_tag_entry_list(out, &p.relations);
    proof {
        assert(out@ =~= old(out)@ + p2);
    }
    write_string(out, &p.extra);
    proof {
        assert(out@ =~= old(out)@ + p3);
    }
    write_u64(out, p.updated_on);
    proof {
        assert(out@ =~= old(out)@ + p4);
    }
    write_u64(out, p.created_on);
    proof {
        assert(out@ =~= old(out)@ + p5);
    }
    proof {
        assert(out@ =~= old(out)@ + enc_profile_wire_d(v));
    }
}


/// Bounds the encoded sizes within a profile record.
pub open spec fn wf_profile(v: ProfileView) -> bool {
    wf_profile_wire_a(profile_wire_a_of(v)) && wf_profile_wire_b(profile_wire_b_of(v)) && wf_profile_wire_c(profile_wire_c_of(v)) && wf_profile_wire_d(profile_wire_d_of(v))
}

/// Encoding of a profile record: its wire sections, in order.
#[verifier::opaque]
pub open spec fn enc_profile(v: ProfileView) -> Seq<u8> {
    enc_profile_wire_a(profile_wire_a_of(v)) + enc_profile_wire_b(profile_wire_b_of(v)) + enc_profile_wire_c(profile_wire_c_of(v)) + enc_profile_wire_d(profile_wire_d_of(v))
}

/// Reads a profile record at `pos`.
#[verifier::opaque]
pub open spec fn dec_profile(b: Seq<u8>, pos: int) -> Option<(ProfileView, int)> {
    match dec_profile_wire_a(b, pos) {
        None => None,
        Some((s0, p1)) =>
        match dec_profile_wire_b(b, p1) {
            None => None,
            Some((s1, p2)) =>
            match dec_profile_wire_c(b, p2) {
                None => None,
                Some((s2, p3)) =>
                match dec_profile_wire_d(b, p3) {
                    None => None,
                    Some((s3, p4)) =>
                    Some((ProfileView { principal: s0.principal, member_identifier: s0.member_identifier, username: s0.username, display_name: s0.display_name, application_role: s0.application_role, first_name: s0.first_name, last_name: s0.last_name, privacy: s0.privacy, about: s1.about, email: s1.email, date_of_birth: s1.date_of_birth, city: s1.city, state_or_province: s1.state_or_province, country: s1.country, profile_image: s1.profile_image, banner_image: s1.banner_image, skills: s2.skills, interests: s2.interests, causes: s2.causes, website: s2.website, code_of_conduct: s2.code_of_conduct, privacy_policy: s2.privacy_policy, terms_of_service: s2.terms_of_service, wallets: s2.wallets, starred: s3.starred, relations: s3.relations, extra: s3.extra, updated_on: s3.updated_on, created_on: s3.created_on }, p4)),
                },
            },
        },
    }
}

/// Reading at a position holding `enc_profile(v)` yields `v`.
#[verifier::rlimit(100)]
pub proof fn lemma_dec_profile(b: Seq<u8>, pos: int, v: ProfileView)
    requires
        0 <= pos,
        wf_profile(v),
        pos + enc_profile(v).len() <= b.len(),
        b.subrange(pos, pos + enc_profile(v).len()) == enc_profile(v),
    ensures
        dec_profile(b, pos) == Some((v, pos + enc_profile(v).len())),
{
    reveal(crate::wire_records::enc_profile);
    reveal(crate::wire_records::dec_profile);
    let e1 = enc_profile_wire_a(profile_wire_a_of(v));
    let e2 = enc_profile_wire_b(profile_wire_b_of(v));
    let e3 = enc_profile_wire_c(profile_wire_c_of(v));
    let e4 = enc_profile_wire_d(profile_wire_d_of(v));
    let p1 = e1;
    let p2 = p1 + e2;
    let p3 = p2 + e3;
    let p4 = p3 + e4;
    assert(enc_profile(v) == p4);
    lemma_concat_split(b, pos, p3, e4);
    lemma_concat_split(b, pos, p2, e3);
    lemma_concat_split(b, pos, p1, e2);
    lemma_dec_profile_wire_a(b, pos, profile_wire_a_of(v));
    lemma_dec_profile_wire_b(b, pos + p1.len(), profile_wire_b_of(v));
    lemma_dec_profile_wire_c(b, pos + p2.len(), profile_wire_c_of(v));
    lemma_dec_profile_wire_d(b, pos + p3.len(), profile_wire_d_of(v));
}

/// Appends `enc_profile` of the value's view to `out`.
pub fn write_profile(out: &mut Vec<u8>, p: &Profile)
    ensures
        final(out)@ == old(out)@ + enc_profile(p@),
        wf_profile(p@),
{
    let ghost v = p@;
    let ghost e1 = enc_profile_wire_a(profile_wire_a_of(v));
    let ghost e2 = enc_profile_wire_b(profile_wire_b_of(v));
    let ghost e3 = enc_profile_wire_c(profile_wire_c_of(v));
    let ghost e4 = enc_profile_wire_d(profile_wire_d_of(v));
    let ghost p1 = e1;
    let ghost p2 = p1 + e2;
    let ghost p3 = p2 + e3;
    let ghost p4 = p3 + e4;
    write_profile_wire_a(out, p);
    proof {
        assert(out@ =~= old(out)@ + p1);
    }
    write_profile_wire_b(out, p);
    proof {
        assert(out@ =~= old(out)@ + p2);
    }
    write_profile_wire_c(out, p);
    proof {
        assert(out@ =~= old(out)@ + p3);
    }
    write_profile_wire_d(out, p);
    proof {
        assert(out@ =~= old(out)@ + p4);
    }
    proof {
        reveal(crate::wire_records::enc_profile);
        assert(out@ =~= old(out)@ + enc_profile(p@));
    }
}

/// Reads a profile record at `pos`, mirroring `dec_profile`.
#[verifier::rlimit(100)]
pub fn read_profile(b: &Vec<u8>, pos: usize) -> (r: Option<(Profile, usize)>)
    ensures
        match r {
            Some(vp) => dec_profile(b@, pos as int) matches Some(dv) && vp.0@ == dv.0 && vp.1
                == dv.1,
            None => dec_profile(b@, pos as int) is None,
        },
{
    proof {
        reveal(crate::wire_records::dec_profile);
        reveal(crate::wire_records::dec_profile_wire_a);
        reveal(crate::wire_records::dec_profile_wire_b);
        reveal(crate::wire_records::dec_profile_wire_c);
        reveal(crate::wire_records::dec_profile_wire_d);
    }
    match read_principal(b, pos) {
        None => None,
        Some((principal, p1)) =>
        match read_principal(b, p1) {
            None => None,
            Some((member_identifier, p2)) =>
            match read_string(b, p2) {
                None => None,
                Some((username, p3)) =>
                match read_string(b, p3) {
                    None => None,
                    Some((display_name, p4)) =>
                    match read_role(b, p4) {
                        None => None,
                        Some((application_role, p5)) =>
                        match read_string(b, p5) {
                            None => None,
                            Some((first_name, p6)) =>
                            match read_string(b, p6) {
                                None => None,
                                Some((last_name, p7)) =>
                                match read_privacy(b, p7) {
                                    None => None,
                                    Some((privacy, p8)) =>
                                    match read_string(b, p8) {
                                        None => None,
                                        Some((about, p9)) =>
                                        match read_string(b, p9) {
                                            None => None,
                                            Some((email, p10)) =>
                                            match read_u64(b, p10) {
                                                None => None,
                                                Some((date_of_birth, p11)) =>
                                                match read_string(b, p11) {
                                                    None => None,
                                                    Some((city, p12)) =>
                                                    match read_string(b, p12) {
                                                        None => None,
                                                        Some((state_or_province, p13)) =>
                                                        match read_string(b, p13) {
                                                            None => None,
                                                            Some((country, p14)) =>
                                                            match read_asset(b, p14) {
                                                                None => None,
                                                                Some((profile_image, p15)) =>
                                                                match read_asset(b, p15) {
                                                                    None => None,
                                                                    Some((banner_image, p16)) =>
                                                                    match read_u32_list(b, p16) {
                                                                        None => None,
                                                                        Some((skills, p17)) =>
                                                                        match read_u32_list(b, p17) {
                                                                            None => None,
                                                                            Some((interests, p18)) =>
                                                                            match read_u32_list(b, p18) {
                                                                                None => None,
                                                                                Some((causes, p19)) =>
                                                                                match read_string(b, p19) {
                                                                                    None => None,
                                                                                    Some((website, p20)) =>
                                                                                    match read_document(b, p20) {
                                                                                        None => None,
                                                                                        Some((code_of_conduct, p21)) =>
                                                                                        match read_opt_document(b, p21) {
                                                                                            None => None,
                                                                                            Some((privacy_policy, p22)) =>
                                                                                            match read_opt_document(b, p22) {
                                                                                                None => None,
                                                                                                Some((terms_of_service, p23)) =>
                                                                                                match read_wallet_entry_list(b, p23) {
                                                                                                    None => None,
                                                                                                    Some((wallets, p24)) =>
                                                                                                    match read_tag_entry_list(b, p24) {
                                                                                                        None => None,
                                                                                                        Some((starred, p25)) =>
                                                                                                        match read_tag_entry_list(b, p25) {
                                                                                                            None => None,
                                                                                                            Some((relations, p26)) =>
                                                                                                            match read_string(b, p26) {
                                                                                                                None => None,
                                                                                                                Some((extra, p27)) =>
                                                                                                                match read_u64(b, p27) {
                                                                                                                    None => None,
                                                                                                                    Some((updated_on, p28)) =>
                                                                                                                    match read_u64(b, p28) {
                                                                                                                        None => None,
                                                                                                                        Some((created_on, p29)) =>
                                                                                                                        Some((Profile { principal, member_identifier, username, display_name, application_role, first_name, last_name, privacy, about, email, date_of_birth, city, state_or_province, country, profile_image, banner_image, skills, interests, causes, website, code_of_conduct, privacy_policy, terms_of_service, wallets, starred, relations, extra, updated_on, created_on }, p29)),
                                                                                                                    },
                                                                                                                },
                                                                                                            },
                                                                                                        },
                                                                                                    },
                                                                                                },
                                                                                            },
                                                                                        },
                                                                                    },
                                                                                },
                                                                            },
                                                                        },
                                                                    },
                                                                },
                                                            },
                                                        },
                                                    },
                                                },
                                            },
                                        },
                                    },
                                },
                            },
                        },
                    },
                },
            },
        },
    }
}


/// One wire section of a profile response.
pub ghost struct ProfileResponseWireA {
    pub identifier: IdentifierView,
    pub principal: PrincipalId,
    pub member_identifier: PrincipalId,
    pub username: Seq<char>,
    pub display_name: Seq<char>,
    pub application_role: ApplicationRole,
    pub first_name: Seq<char>,
    pub last_name: Seq<char>,
}

/// Extracts this wire section from the full view.
pub open spec fn profile_response_wire_a_of(v: ProfileResponseView) -> ProfileResponseWireA {
    ProfileResponseWireA {
        identifier: v.identifier,
        principal: v.principal,
        member_identifier: v.member_identifier,
        username: v.username,
        display_name: v.display_name,
        application_role: v.application_role,
        first_name: v.first_name,
        last_name: v.last_name,
    }
}

/// Bounds the encoded sizes within this section.
pub open spec fn wf_profile_response_wire_a(v: ProfileResponseWireA) -> bool {
    &&& wf_identifier(v.identifier)
    &&& encode_utf8(v.username).len() <= u64::MAX
    &&& encode_utf8(v.display_name).len() <= u64::MAX
    &&& encode_utf8(v.first_name).len() <= u64::MAX
    &&& encode_utf8(v.last_name).len() <= u64::MAX
}

/// Encoding of this section: its fields' encodings, in order.
pub open spec fn enc_profile_response_wire_a(v: ProfileResponseWireA) -> Seq<u8> {
    enc_identifier(v.identifier) + enc_principal(v.principal) + enc_principal(v.member_identifier) + enc_string(v.username) + enc_string(v.display_name) + enc_role(v.application_role) + enc_string(v.first_name) + enc_string(v.last_name)
}

/// Reads this section at `pos`.
#[verifier::opaque]
pub open spec fn dec_profile_response_wire_a(b: Seq<u8>, pos: int) -> Option<(ProfileResponseWireA, int)> {
    match dec_identifier(b, pos) {
        None => None,
        Some((identifier, p1)) =>
        match dec_principal(b, p1) {
            None => None,
            Some((principal, p2)) =>
            match dec_principal(b, p2) {
                None => None,
                Some((member_identifier, p3)) =>
                match dec_string(b, p3) {
                    None => None,
                    Some((username, p4)) =>
                    match dec_string(b, p4) {
                        None => None,
                        Some((display_name, p5)) =>
                        match dec_role(b, p5) {
                            None => None,
                            Some((application_role, p6)) =>
                            match dec_string(b, p6) {
                                None => None,
                                Some((first_name, p7)) =>
                                match dec_string(b, p7) {
                                    None => None,
                                    Some((last_name, p8)) =>
                                    Some((ProfileResponseWireA { identifier, principal, member_identifier, username, display_name, application_role, first_name, last_name }, p8)),
                                },
                            },
                        },
                    },
                },
            },
        },
    }
}

/// Reading at a position holding `enc_profile_response_wire_a(v)` yields `v`.
pub proof fn lemma_dec_profile_response_wire_a(b: Seq<u8>, pos: int, v: ProfileResponseWireA)
    requires
        0 <= pos,
        wf_profile_response_wire_a(v),
        pos + enc_profile_response_wire_a(v).len() <= b.len(),
        b.subrange(pos, pos + enc_profile_response_wire_a(v).len()) == enc_profile_response_wire_a(v),
    ensures
        dec_profile_response_wire_a(b, pos) == Some((v, pos + enc_profile_response_wire_a(v).len())),
{
    reveal(crate::wire_records::dec_profile_response_wire_a);
    let e1 = enc_identifier(v.identifier);
    let e2 = enc_principal(v.principal);
    let e3 = enc_principal(v.member_identifier);
    let e4 = enc_string(v.username);
    let e5 = enc_string(v.display_name);
    let e6 = enc_role(v.application_role);
    let e7 = enc_string(v.first_name);
    let e8 = enc_string(v.last_name);
    let p1 = e1;
    let p2 = p1 + e2;
    let p3 = p2 + e3;
    let p4 = p3 + e4;
    let p5 = p4 + e5;
    let p6 = p5 + e6;
    let p7 = p6 + e7;
    let p8 = p7 + e8;
    assert(enc_profile_response_wire_a(v) == p8);
    lemma_enc_u64_len(v.principal.id);
    lemma_enc_u64_len(v.member_identifier.id);
    assert(enc_role(v.application_role).len() == 1);
    lemma_concat_split(b, pos, p7, e8);
    lemma_concat_split(b, pos, p6, e7);
    lemma_concat_split(b, pos, p5, e6);
    lemma_concat_split(b, pos, p4, e5);
    lemma_concat_split(b, pos, p3, e4);
    lemma_concat_split(b, pos, p2, e3);
    lemma_concat_split(b, pos, p1, e2);
    lemma_dec_identifier(b, pos, v.identifier);
    lemma_dec_principal(b, pos + p1.len(), v.principal);
    lemma_dec_principal(b, pos + p2.len(), v.member_identifier);
    lemma_dec_string(b, pos + p3.len(), v.username);
    lemma_dec_string(b, pos + p4.len(), v.display_name);
    lemma_dec_role(b, pos + p5.len(), v.application_role);
    lemma_dec_string(b, pos + p6.len(), v.first_name);
    lemma_dec_string(b, pos + p7.len(), v.last_name);
}

/// Appends this section of `p`'s view to `out`.
pub fn write_profile_response_wire_a(out: &mut Vec<u8>, p: &ProfileResponse)
    ensures
        final(out)@ == old(out)@ + enc_profile_response_wire_a(profile_response_wire_a_of(p@)),
        wf_profile_response_wire_a(profile_response_wire_a_of(p@)),
{
    let ghost v = profile_response_wire_a_of(p@);
    let ghost e1 = enc_identifier(v.identifier);
    let ghost e2 = enc_principal(v.principal);
    let ghost e3 = enc_principal(v.member_identifier);
    let ghost e4 = enc_string(v.username);
    let ghost e5 = enc_string(v.display_name);
    let ghost e6 = enc_role(v.application_role);
    let ghost e7 = enc_string(v.first_name);
    let ghost e8 = enc_string(v.last_name);
    let ghost p1 = e1;
    let ghost p2 = p1 + e2;
    let ghost p3 = p2 + e3;
    let ghost p4 = p3 + e4;
    let ghost p5 = p4 + e5;
    let ghost p6 = p5 + e6;
    let ghost p7 = p6 + e7;
    let ghost p8 = p7 + e8;
    write_identifier(out, &p.identifier);
    proof {
        assert(out@ =~= old(out)@ + p1);
    }
    write_principal(out, p.principal);
    proof {
        assert(out@ =~= old(out)@ + p2);
    }
    write_principal(out, p.member_identifier);
    proof {
        assert(out@ =~= old(out)@ + p3);
    }
    write_string(out, &p.username);
    proof {
        assert(out@ =~= old(out)@ + p4);
    }
    write_string(out, &p.display_name);
    proof {
        assert(out@ =~= old(out)@ + p5);
    }
    write_role(out, p.application_role);
    proof {
        assert(out@ =~= old(out)@ + p6);
    }
    write_string(out, &p.first_name);
    proof {
        assert(out@ =~= old(out)@ + p7);
    }
    write_string(out, &p.last_name);
    proof {
        assert(out@ =~= old(out)@ + p8);
    }
    proof {
        assert(out@ =~= old(out)@ + enc_profile_response_wire_a(v));
    }
}


/// One wire section of a profile response.
pub ghost struct ProfileResponseWireB {
    pub privacy: ProfilePrivacy,
    pub about: Seq<char>,
    pub email: Seq<char>,
    pub date_of_birth: u64,
    pub city: Seq<char>,
    pub state_or_province: Seq<char>,
    pub country: Seq<char>,
    pub profile_image: AssetView,
}

/// Extracts this wire section from the full view.
pub open spec fn profile_response_wire_b_of(v: ProfileResponseView) -> ProfileResponseWireB {
    ProfileResponseWireB {
        privacy: v.privacy,
        about: v.about,
        email: v.email,
        date_of_birth: v.date_of_birth,
        city: v.city,
        state_or_province: v.state_or_province,
        country: v.country,
        profile_image: v.profile_image,
    }
}

/// Bounds the encoded sizes within this section.
pub open spec fn wf_profile_response_wire_b(v: ProfileResponseWireB) -> bool {
    &&& encode_utf8(v.about).len() <= u64::MAX
    &&& encode_utf8(v.email).len() <= u64::MAX
    &&& encode_utf8(v.city).len() <= u64::MAX
    &&& encode_utf8(v.state_or_province).len() <= u64::MAX
    &&& encode_utf8(v.country).len() <= u64::MAX
    &&& wf_asset(v.profile_image)
}

/// Encoding of this section: its fields' encodings, in order.
pub open spec fn enc_profile_response_wire_b(v: ProfileResponseWireB) -> Seq<u8> {
    enc_privacy(v.privacy) + enc_string(v.about) + enc_string(v.email) + enc_u64(v.date_of_birth) + enc_string(v.city) + enc_string(v.state_or_province) + enc_string(v.country) + enc_asset(v.profile_image)
}

/// Reads this section at `pos`.
#[verifier::opaque]
pub open spec fn dec_profile_response_wire_b(b: Seq<u8>, pos: int) -> Option<(ProfileResponseWireB, int)> {
    match dec_privacy(b, pos) {
        None => None,
        Some((privacy, p1)) =>
        match dec_string(b, p1) {
            None => None,
            Some((about, p2)) =>
            match dec_string(b, p2) {
                None => None,
                Some((email, p3)) =>
                match dec_u64(b, p3) {
                    None => None,
                    Some((date_of_birth, p4)) =>
                    match dec_string(b, p4) {
                        None => None,
                        Some((city, p5)) =>
                        match dec_string(b, p5) {
                            None => None,
                            Some((state_or_province, p6)) =>
                            match dec_string(b, p6) {
                                None => None,
                                Some((country, p7)) =>
                                match dec_asset(b, p7) {
                                    None => None,
                                    Some((profile_image, p8)) =>
                                    Some((ProfileResponseWireB { privacy, about, email, date_of_birth, city, state_or_province, country, profile_image }, p8)),
                                },
                            },
                        },
                    },
                },
            },
        },
    }
}

/// Reading at a position holding `enc_profile_response_wire_b(v)` yields `v`.
pub proof fn lemma_dec_profile_response_wire_b(b: Seq<u8>, pos: int, v: ProfileResponseWireB)
    requires
        0 <= pos,
        wf_profile_response_wire_b(v),
        pos + enc_profile_response_wire_b(v).len() <= b.len(),
        b.subrange(pos, pos + enc_profile_response_wire_b(v).len()) == enc_profile_response_wire_b(v),
    ensures
        dec_profile_response_wire_b(b, pos) == Some((v, pos + enc_profile_response_wire_b(v).len())),
{
    reveal(crate::wire_records::dec_profile_response_wire_b);
    let e1 = enc_privacy(v.privacy);
    let e2 = enc_string(v.about);
    let e3 = enc_string(v.email);
    let e4 = enc_u64(v.date_of_birth);
    let e5 = enc_string(v.city);
    let e6 = enc_string(v.state_or_province);
    let e7 = enc_string(v.country);
    let e8 = enc_asset(v.profile_image);
    let p1 = e1;
    let p2 = p1 + e2;
    let p3 = p2 + e3;
    let p4 = p3 + e4;
    let p5 = p4 + e5;
    let p6 = p5 + e6;
    let p7 = p6 + e7;
    let p8 = p7 + e8;
    assert(enc_profile_response_wire_b(v) == p8);
    assert(enc_privacy(v.privacy).len() == 1);
    lemma_enc_u64_len(v.date_of_birth);
    lemma_concat_split(b, pos, p7, e8);
    lemma_concat_split(b, pos, p6, e7);
    lemma_concat_split(b, pos, p5, e6);
    lemma_concat_split(b, pos, p4, e5);
    lemma_concat_split(b, pos, p3, e4);
    lemma_concat_split(b, pos, p2, e3);
    lemma_concat_split(b, pos, p1, e2);
    lemma_dec_privacy(b, pos, v.privacy);
    lemma_dec_string(b, pos + p1.len(), v.about);
    lemma_dec_string(b, pos + p2.len(), v.email);
    lemma_dec_u64(b, pos + p3.len(), v.date_of_birth);
    lemma_dec_string(b, pos + p4.len(), v.city);
    lemma_dec_string(b, pos + p5.len(), v.state_or_province);
    lemma_dec_string(b, pos + p6.len(), v.country);
    lemma_dec_asset(b, pos + p7.len(), v.profile_image);
}

/// Appends this section of `p`'s view to `out`.
pub fn write_profile_response_wire_b(out: &mut Vec<u8>, p: &ProfileResponse)
    ensures
        final(out)@ == old(out)@ + enc_profile_response_wire_b(profile_response_wire_b_of(p@)),
        wf_profile_response_wire_b(profile_response_wire_b_of(p@)),
{
    let ghost v = profile_response_wire_b_of(p@);
    let ghost e1 = enc_privacy(v.privacy);
    let ghost e2 = enc_string(v.about);
    let ghost e3 = enc_string(v.email);
    let ghost e4 = enc_u64(v.date_of_birth);
    let ghost e5 = enc_string(v.city);
    let ghost e6 = enc_string(v.state_or_province);
    let ghost e7 = enc_string(v.country);
    let ghost e8 = enc_asset(v.profile_image);
    let ghost p1 = e1;
    let ghost p2 = p1 + e2;
    let ghost p3 = p2 + e3;
    let ghost p4 = p3 + e4;
    let ghost p5 = p4 + e5;
    let ghost p6 = p5 + e6;
    let ghost p7 = p6 + e7;
    let ghost p8 = p7 + e8;
    write_privacy(out, p.privacy);
    proof {
        assert(out@ =~= old(out)@ + p1);
    }
    write_string(out, &p.about);
    proof {
        assert(out@ =~= old(out)@ + p2);
    }
    write_string(out, &p.email);
    proof {
        assert(out@ =~= old(out)@ + p3);
    }
    write_u64(out, p.date_of_birth);
    proof {
        assert(out@ =~= old(out)@ + p4);
    }
    write_string(out, &p.city);
    proof {
        assert(out@ =~= old(out)@ + p5);
    }
    write_string(out, &p.state_or_province);
    proof {
        assert(out@ =~= old(out)@ + p6);
    }
    write_string(out, &p.country);
    proof {
        assert(out@ =~= old(out)@ + p7);
    }
    write_asset(out, &p.profile_image);
    proof {
        assert(out@ =~= old(out)@ + p8);
    }
    proof {
        assert(out@ =~= old(out)@ + enc_profile_response_wire_b(v));
    }
}


/// One wire section of a profile response.
pub ghost struct ProfileResponseWireC {
    pub banner_image: AssetView,
    pub skills: Seq<u32>,
    pub interests: Seq<u32>,
    pub causes: Seq<u32>,
    pub website: Seq<char>,
    pub code_of_conduct: DocumentDetails,
    pub privacy_policy: Option<DocumentDetails>,
    pub terms_of_service: Option<DocumentDetails>,
}

/// Extracts this wire section from the full view.
pub open spec fn profile_response_wire_c_of(v: ProfileResponseView) -> ProfileResponseWireC {
    ProfileResponseWireC {
        banner_image: v.banner_image,
        skills: v.skills,
        interests: v.interests,
        causes: v.causes,
        website: v.website,
        code_of_conduct: v.code_of_conduct,
        privacy_policy: v.privacy_policy,
        terms_of_service: v.terms_of_service,
    }
}

/// Bounds the encoded sizes within this section.
pub open spec fn wf_profile_response_wire_c(v: ProfileResponseWireC) -> bool {
    &&& wf_asset(v.banner_image)
    &&& wf_u32_list(v.skills)
    &&& wf_u32_list(v.interests)
    &&& wf_u32_list(v.causes)
    &&& encode_utf8(v.website).len() <= u64::MAX
}

/// Encoding of this section: its fields' encodings, in order.
pub open spec fn enc_profile_response_wire_c(v: ProfileResponseWireC) -> Seq<u8> {
    enc_asset(v.banner_image) + enc_u32_list(v.skills) + enc_u32_list(v.interests) + enc_u32_list(v.causes) + enc_string(v.website) + enc_document(v.code_of_conduct) + enc_opt_document(v.privacy_policy) + enc_opt_document(v.terms_of_service)
}

/// Reads this section at `pos`.
#[verifier::opaque]
pub open spec fn dec_profile_response_wire_c(b: Seq<u8>, pos: int) -> Option<(ProfileResponseWireC, int)> {
    match dec_asset(b, pos) {
        None => None,
        Some((banner_image, p1)) =>
        match dec_u32_list(b, p1) {
            None => None,
            Some((skills, p2)) =>
            match dec_u32_list(b, p2) {
                None => None,
                Some((interests, p3)) =>
                match dec_u32_list(b, p3) {
                    None => None,
                    Some((causes, p4)) =>
                    match dec_string(b, p4) {
                        None => None,
                        Some((website, p5)) =>
                        match dec_document(b, p5) {
                            None => None,
                            Some((code_of_conduct, p6)) =>
                            match dec_opt_document(b, p6) {
                                None => None,
                                Some((privacy_policy, p7)) =>
                                match dec_opt_document(b, p7) {
                                    None => None,
                                    Some((terms_of_service, p8)) =>
                                    Some((ProfileResponseWireC { banner_image, skills, interests, causes, website, code_of_conduct, privacy_policy, terms_of_service }, p8)),
                                },
                            },
                        },
                    },
                },
            },
        },
    }
}

/// Reading at a position holding `enc_profile_response_wire_c(v)` yields `v`.
pub proof fn lemma_dec_profile_response_wire_c(b: Seq<u8>, pos: int, v: ProfileResponseWireC)
    requires
        0 <= pos,
        wf_profile_response_wire_c(v),
        pos + enc_profile_response_wire_c(v).len() <= b.len(),
        b.subrange(pos, pos + enc_profile_response_wire_c(v).len()) == enc_profile_response_wire_c(v),
    ensures
        dec_profile_response_wire_c(b, pos) == Some((v, pos + enc_profile_response_wire_c(v).len())),
{
    reveal(crate::wire_records::dec_profile_response_wire_c);
    let e1 = enc_asset(v.banner_image);
    let e2 = enc_u32_list(v.skills);
    let e3 = enc_u32_list(v.interests);
    let e4 = enc_u32_list(v.causes);
    let e5 = enc_string(v.website);
    let e6 = enc_document(v.code_of_conduct);
    let e7 = enc_opt_document(v.privacy_policy);
    let e8 = enc_opt_document(v.terms_of_service);
    let p1 = e1;
    let p2 = p1 + e2;
    let p3 = p2 + e3;
    let p4 = p3 + e4;
    let p5 = p4 + e5;
    let p6 = p5 + e6;
    let p7 = p6 + e7;
    let p8 = p7 + e8;
    assert(enc_profile_response_wire_c(v) == p8);

    lemma_concat_split(b, pos, p7, e8);
    lemma_concat_split(b, pos, p6, e7);
    lemma_concat_split(b, pos, p5, e6);
    lemma_concat_split(b, pos, p4, e5);
    lemma_concat_split(b, pos, p3, e4);
    lemma_concat_split(b, pos, p2, e3);
    lemma_concat_split(b, pos, p1, e2);
    lemma_dec_asset(b, pos, v.banner_image);
    lemma_dec_u32_list(b, pos + p1.len(), v.skills);
    lemma_dec_u32_list(b, pos + p2.len(), v.interests);
    lemma_dec_u32_list(b, pos + p3.len(), v.causes);
    lemma_dec_string(b, pos + p4.len(), v.website);
    lemma_dec_document(b, pos + p5.len(), v.code_of_conduct);
    lemma_dec_opt_document(b, pos + p6.len(), v.privacy_policy);
    lemma_dec_opt_document(b, pos + p7.len(), v.terms_of_service);
}

/// Appends this section of `p`'s view to `out`.
pub fn write_profile_response_wire_c(out: &mut Vec<u8>, p: &ProfileResponse)
    ensures
        final(out)@ == old(out)@ + enc_profile_response_wire_c(profile_response_wire_c_of(p@)),
        wf_profile_response_wire_c(profile_response_wire_c_of(p@)),
{
    let ghost v = profile_response_wire_c_of(p@);
    let ghost e1 = enc_asset(v.banner_image);
    let ghost e2 = enc_u32_list(v.skills);
    let ghost e3 = enc_u32_list(v.interests);
    let ghost e4 = enc_u32_list(v.causes);
    let ghost e5 = enc_string(v.website);
    let ghost e6 = enc_document(v.code_of_conduct);
    let ghost e7 = enc_opt_document(v.privacy_policy);
    let ghost e8 = enc_opt_document(v.terms_of_service);
    let ghost p1 = e1;
    let ghost p2 = p1 + e2;
    let ghost p3 = p2 + e3;
    let ghost p4 = p3 + e4;
    let ghost p5 = p4 + e5;
    let ghost p6 = p5 + e6;
    let ghost p7 = p6 + e7;
    let ghost p8 = p7 + e8;
    write_asset(out, &p.banner_image);
    proof {
        assert(out@ =~= old(out)@ + p1);
    }
    write_u32_list(out, &p.skills);
    proof {
        assert(out@ =~= old(out)@ + p2);
    }
    write_u32_list(out, &p.interests);
    proof {
        assert(out@ =~= old(out)@ + p3);
    }
    write_u32_list(out, &p.causes);
    proof {
        assert(out@ =~= old(out)@ + p4);
    }
    write_string(out, &p.website);
    proof {
        assert(out@ =~= old(out)@ + p5);
    }
    write_document(out, &p.code_of_conduct);
    proof {
        assert(out@ =~= old(out)@ + p6);
    }
    write_opt_document(out, &p.privacy_policy);
    proof {
        assert(out@ =~= old(out)@ + p7);
    }
    write_opt_document(out, &p.terms_of_service);
    proof {
        assert(out@ =~= old(out)@ + p8);
    }
    proof {
        assert(out@ =~= old(out)@ + enc_profile_response_wire_c(v));
    }
}


/// One wire section of a profile response.
pub ghost struct ProfileResponseWireD {
    pub wallets: Seq<WalletResponseView>,
    pub extra: Seq<char>,
    pub updated_on: u64,
    pub created_on: u64,
}

/// Extracts this wire section from the full view.
pub open spec fn profile_response_wire_d_of(v: ProfileResponseView) -> ProfileResponseWireD {
    ProfileResponseWireD {
        wallets: v.wallets,
        extra: v.extra,
        updated_on: v.updated_on,
        created_on: v.created_on,
    }
}

/// Bounds the encoded sizes within this section.
pub open spec fn wf_profile_response_wire_d(v: ProfileResponseWireD) -> bool {
    &&& wf_wallet_response_list(v.wallets)
    &&& encode_utf8(v.extra).len() <= u64::MAX
}

/// Encoding of this section: its fields' encodings, in order.
pub open spec fn enc_profile_response_wire_d(v: ProfileResponseWireD) -> Seq<u8> {
    enc_wallet_response_list(v.wallets) + enc_string(v.extra) + enc_u64(v.updated_on) + enc_u64(v.created_on)
}

/// Reads this section at `pos`.
#[verifier::opaque]
pub open spec fn dec_profile_response_wire_d(b: Seq<u8>, pos: int) -> Option<(ProfileResponseWireD, int)> {
    match dec_wallet_response_list(b, pos) {
        None => None,
        Some((wallets, p1)) =>
        match dec_string(b, p1) {
            None => None,
            Some((extra, p2)) =>
            match dec_u64(b, p2) {
                None => None,
                Some((updated_on, p3)) =>
                match dec_u64(b, p3) {
                    None => None,
                    Some((created_on, p4)) =>
                    Some((ProfileResponseWireD { wallets, extra, updated_on, created_on }, p4)),
                },
            },
        },
    }
}

/// Reading at a position holding `enc_profile_response_wire_d(v)` yields `v`.
pub proof fn lemma_dec_profile_response_wire_d(b: Seq<u8>, pos: int, v: ProfileResponseWireD)
    requires
        0 <= pos,
        wf_profile_response_wire_d(v),
        pos + enc_profile_response_wire_d(v).len() <= b.len(),
        b.subrange(pos, pos + enc_profile_response_wire_d(v).len()) == enc_profile_response_wire_d(v),
    ensures
        dec_profile_response_wire_d(b, pos) == Some((v, pos + enc_profile_response_wire_d(v).len())),
{
    reveal(crate::wire_records::dec_profile_response_wire_d);
    let e1 = enc_wallet_response_list(v.wallets);
    let e2 = enc_string(v.extra);
    let e3 = enc_u64(v.updated_on);
    let e4 = enc_u64(v.created_on);
    let p1 = e1;
    let p2 = p1 + e2;
    let p3 = p2 + e3;
    let p4 = p3 + e4;
    assert(enc_profile_response_wire_d(v) == p4);
    lemma_enc_u64_len(v.updated_on);
    lemma_enc_u64_len(v.created_on);
    lemma_concat_split(b, pos, p3, e4);
    lemma_concat_split(b, pos, p2, e3);
    lemma_concat_split(b, pos, p1, e2);
    lemma_dec_wallet_response_list(b, pos, v.wallets);
    lemma_dec_string(b, pos + p1.len(), v.extra);
    lemma_dec_u64(b, pos + p2.len(), v.updated_on);
    lemma_dec_u64(b, pos + p3.len(), v.created_on);
}

/// Appends this section of `p`'s view to `out`.
pub fn write_profile_response_wire_d(out: &mut Vec<u8>, p: &ProfileResponse)
    ensures
        final(out)@ == old(out)@ + enc_profile_response_wire_d(profile_response_wire_d_of(p@)),
        wf_profile_response_wire_d(profile_response_wire_d_of(p@)),
{
    let ghost v = profile_response_wire_d_of(p@);
    let ghost e1 = enc_wallet_response_list(v.wallets);
    let ghost e2 = enc_string(v.extra);
    let ghost e3 = enc_u64(v.updated_on);
    let ghost e4 = enc_u64(v.created_on);
    let ghost p1 = e1;
    let ghost p2 = p1 + e2;
    let ghost p3 = p2 + e3;
    let ghost p4 = p3 + e4;
    write_wallet_response_list(out, &p.wallets);
    proof {
        assert(out@ =~= old(out)@ + p1);
    }
    write_string(out, &p.extra);
    proof {
        assert(out@ =~= old(out)@ + p2);
    }
    write_u64(out, p.updated_on);
    proof {
        assert(out@ =~= old(out)@ + p3);
    }
    write_u64(out, p.created_on);
    proof {
        assert(out@ =~= old(out)@ + p4);
    }
    proof {
        assert(out@ =~= old(out)@ + enc_profile_response_wire_d(v));
    }
}


/// Bounds the encoded sizes within a profile response.
pub open spec fn wf_profile_response(v: ProfileResponseView) -> bool {
    wf_profile_response_wire_a(profile_response_wire_a_of(v)) && wf_profile_response_wire_b(profile_response_wire_b_of(v)) && wf_profile_response_wire_c(profile_response_wire_c_of(v)) && wf_profile_response_wire_d(profile_response_wire_d_of(v))
}

/// Encoding of a profile response: its wire sections, in order.
#[verifier::opaque]
pub open spec fn enc_profile_response(v: ProfileResponseView) -> Seq<u8> {
    enc_profile_response_wire_a(profile_response_wire_a_of(v)) + enc_profile_response_wire_b(profile_response_wire_b_of(v)) + enc_profile_response_wire_c(profile_response_wire_c_of(v)) + enc_profile_response_wire_d(profile_response_wire_d_of(v))
}

/// Reads a profile response at `pos`.
#[verifier::opaque]
pub open spec fn dec_profile_response(b: Seq<u8>, pos: int) -> Option<(ProfileResponseView, int)> {
    match dec_profile_response_wire_a(b, pos) {
        None => None,
        Some((s0, p1)) =>
        match dec_profile_response_wire_b(b, p1) {
            None => None,
            Some((s1, p2)) =>
            match dec_profile_response_wire_c(b, p2) {
                None => None,
                Some((s2, p3)) =>
                match dec_profile_response_wire_d(b, p3) {
                    None => None,
                    Some((s3, p4)) =>
                    Some((ProfileResponseView { identifier: s0.identifier, principal: s0.principal, member_identifier: s0.member_identifier, username: s0.username, display_name: s0.display_name, application_role: s0.application_role, first_name: s0.first_name, last_name: s0.last_name, privacy: s1.privacy, about: s1.about, email: s1.email, date_of_birth: s1.date_of_birth, city: s1.city, state_or_province: s1.state_or_province, country: s1.country, profile_image: s1.profile_image, banner_image: s2.banner_image, skills: s2.skills, interests: s2.interests, causes: s2.causes, website: s2.website, code_of_conduct: s2.code_of_conduct, privacy_policy: s2.privacy_policy, terms_of_service: s2.terms_of_service, wallets: s3.wallets, extra: s3.extra, updated_on: s3.updated_on, created_on: s3.created_on }, p4)),
                },
            },
        },
    }
}

/// Reading at a position holding `enc_profile_response(v)` yields `v`.
#[verifier::rlimit(100)]
pub proof fn lemma_dec_profile_response(b: Seq<u8>, pos: int, v: ProfileResponseView)
    requires
        0 <= pos,
        wf_profile_response(v),
        pos + enc_profile_response(v).len() <= b.len(),
        b.subrange(pos, pos + enc_profile_response(v).len()) == enc_profile_response(v),
    ensures
        dec_profile_response(b, pos) == Some((v, pos + enc_profile_response(v).len())),
{
    reveal(crate::wire_records::enc_profile_response);
    reveal(crate::wire_records::dec_profile_response);
    let e1 = enc_profile_response_wire_a(profile_response_wire_a_of(v));
    let e2 = enc_profile_response_wire_b(profile_response_wire_b_of(v));
    let e3 = enc_profile_response_wire_c(profile_response_wire_c_of(v));
    let e4 = enc_profile_response_wire_d(profile_response_wire_d_of(v));
    let p1 = e1;
    let p2 = p1 + e2;
    let p3 = p2 + e3;
    let p4 = p3 + e4;
    assert(enc_profile_response(v) == p4);
    lemma_concat_split(b, pos, p3, e4);
    lemma_concat_split(b, pos, p2, e3);
    lemma_concat_split(b, pos, p1, e2);
    lemma_dec_profile_response_wire_a(b, pos, profile_response_wire_a_of(v));
    lemma_dec_profile_response_wire_b(b, pos + p1.len(), profile_response_wire_b_of(v));
    lemma_dec_profile_response_wire_c(b, pos + p2.len(), profile_response_wire_c_of(v));
    lemma_dec_profile_response_wire_d(b, pos + p3.len(), profile_response_wire_d_of(v));
}

/// Appends `enc_profile_response` of the value's view to `out`.
pub fn write_profile_response(out: &mut Vec<u8>, p: &ProfileResponse)
    ensures
        final(out)@ == old(out)@ + enc_profile_response(p@),
        wf_profile_response(p@),
{
    let ghost v = p@;
    let ghost e1 = enc_profile_response_wire_a(profile_response_wire_a_of(v));
    let ghost e2 = enc_profile_response_wire_b(profile_response_wire_b_of(v));
    let ghost e3 = enc_profile_response_wire_c(profile_response_wire_c_of(v));
    let ghost e4 = enc_profile_response_wire_d(profile_response_wire_d_of(v));
    let ghost p1 = e1;
    let ghost p2 = p1 + e2;
    let ghost p3 = p2 + e3;
    let ghost p4 = p3 + e4;
    write_profile_response_wire_a(out, p);
    proof {
        assert(out@ =~= old(out)@ + p1);
    }
    write_profile_response_wire_b(out, p);
    proof {
        assert(out@ =~= old(out)@ + p2);
    }
    write_profile_response_wire_c(out, p);
    proof {
        assert(out@ =~= old(out)@ + p3);
    }
    write_profile_response_wire_d(out, p);
    proof {
        assert(out@ =~= old(out)@ + p4);
    }
    proof {
        reveal(crate::wire_records::enc_profile_response);
        assert(out@ =~= old(out)@ + enc_profile_response(p@));
    }
}

/// Reads a profile response at `pos`, mirroring `dec_profile_response`.
#[verifier::rlimit(100)]
pub fn read_profile_response(b: &Vec<u8>, pos: usize) -> (r: Option<(ProfileResponse, usize)>)
    ensures
        match r {
            Some(vp) => dec_profile_response(b@, pos as int) matches Some(dv) && vp.0@ == dv.0 && vp.1
                == dv.1,
            None => dec_profile_response(b@, pos as int) is None,
        },
{
    proof {
        reveal(crate::wire_records::dec_profile_response);
        reveal(crate::wire_records::dec_profile_response_wire_a);
        reveal(crate::wire_records::dec_profile_response_wire_b);
        reveal(crate::wire_records::dec_profile_response_wire_c);
        reveal(crate::wire_records::dec_profile_response_wire_d);
    }
    match read_identifier(b, pos) {
        None => None,
        Some((identifier, p1)) =>
        match read_principal(b, p1) {
            None => None,
            Some((principal, p2)) =>
            match read_principal(b, p2) {
                None => None,
                Some((member_identifier, p3)) =>
                match read_string(b, p3) {
                    None => None,
                    Some((username, p4)) =>
                    match read_string(b, p4) {
                        None => None,
                        Some((display_name, p5)) =>
                        match read_role(b, p5) {
                            None => None,
                            Some((application_role, p6)) =>
                            match read_string(b, p6) {
                                None => None,
                                Some((first_name, p7)) =>
                                match read_string(b, p7) {
                                    None => None,
                                    Some((last_name, p8)) =>
                                    match read_privacy(b, p8) {
                                        None => None,
                                        Some((privacy, p9)) =>
                                        match read_string(b, p9) {
                                            None => None,
                                            Some((about, p10)) =>
                                            match read_string(b, p10) {
                                                None => None,
                                                Some((email, p11)) =>
                                                match read_u64(b, p11) {
                                                    None => None,
                                                    Some((date_of_birth, p12)) =>
                                                    match read_string(b, p12) {
                                                        None => None,
                                                        Some((city, p13)) =>
                                                        match read_string(b, p13) {
                                                            None => None,
                                                            Some((state_or_province, p14)) =>
                                                            match read_string(b, p14) {
                                                                None => None,
                                                                Some((country, p15)) =>
                                                                match read_asset(b, p15) {
                                                                    None => None,
                                                                    Some((profile_image, p16)) =>
                                                                    match read_asset(b, p16) {
                                                                        None => None,
                                                                        Some((banner_image, p17)) =>
                                                                        match read_u32_list(b, p17) {
                                                                            None => None,
                                                                            Some((skills, p18)) =>
                                                                            match read_u32_list(b, p18) {
                                                                                None => None,
                                                                                Some((interests, p19)) =>
                                                                                match read_u32_list(b, p19) {
                                                                                    None => None,
                                                                                    Some((causes, p20)) =>
                                                                                    match read_string(b, p20) {
                                                                                        None => None,
                                                                                        Some((website, p21)) =>
                                                                                        match read_document(b, p21) {
                                                                                            None => None,
                                                                                            Some((code_of_conduct, p22)) =>
                                                                                            match read_opt_document(b, p22) {
                                                                                                None => None,
                                                                                                Some((privacy_policy, p23)) =>
                                                                                                match read_opt_document(b, p23) {
                                                                                                    None => None,
                                                                                                    Some((terms_of_service, p24)) =>
                                                                                                    match read_wallet_response_list(b, p24) {
                                                                                                        None => None,
                                                                                                        Some((wallets, p25)) =>
                                                                                                        match read_string(b, p25) {
                                                                                                            None => None,
                                                                                                            Some((extra, p26)) =>
                                                                                                            match read_u64(b, p26) {
                                                                                                                None => None,
                                                                                                                Some((updated_on, p27)) =>
                                                                                                                match read_u64(b, p27) {
                                                                                                                    None => None,
                                                                                                                    Some((created_on, p28)) =>
                                                                                                                    Some((ProfileResponse { identifier, principal, member_identifier, username, display_name, application_role, first_name, last_name, privacy, about, email, date_of_birth, city, state_or_province, country, profile_image, banner_image, skills, interests, causes, website, code_of_conduct, privacy_policy, terms_of_service, wallets, extra, updated_on, created_on }, p28)),
                                                                                                                },
                                                                                                            },
                                                                                                        },
                                                                                                    },
                                                                                                },
                                                                                            },
                                                                                        },
                                                                                    },
                                                                                },
                                                                            },
                                                                        },
                                                                    },
                                                                },
                                                            },
                                                        },
                                                    },
                                                },
                                            },
                                        },
                                    },
                                },
                            },
                        },
                    },
                },
            },
        },
    }
}

// ---------------------------------------------------------------------
// stored record
// ---------------------------------------------------------------------
/// Bounds the encoded sizes of one stored record entry.
pub open spec fn wf_profile_entry(e: (u64, ProfileView)) -> bool {
    wf_profile(e.1)
}

/// Encoding of one stored record entry: its key, then its value.
pub open spec fn enc_profile_entry(e: (u64, ProfileView)) -> Seq<u8> {
    enc_u64(e.0) + enc_profile(e.1)
}

/// Reads one stored record entry at `pos`.
pub open spec fn dec_profile_entry(b: Seq<u8>, pos: int) -> Option<((u64, ProfileView), int)> {
    match dec_u64(b, pos) {
        None => None,
        Some((k, p1)) => match dec_profile(b, p1) {
            None => None,
            Some((v, p2)) => Some(((k, v), p2)),
        },
    }
}

/// Reading at a position holding `enc_profile_entry(e)` yields `e`.
pub proof fn lemma_dec_profile_entry(b: Seq<u8>, pos: int, e: (u64, ProfileView))
    requires
        0 <= pos,
        wf_profile_entry(e),
        pos + enc_profile_entry(e).len() <= b.len(),
        b.subrange(pos, pos + enc_profile_entry(e).len()) == enc_profile_entry(e),
    ensures
        dec_profile_entry(b, pos) == Some((e, pos + enc_profile_entry(e).len())),
{
    lemma_enc_u64_len(e.0);
    lemma_concat_split(b, pos, enc_u64(e.0), enc_profile(e.1));
    lemma_dec_u64(b, pos, e.0);
    lemma_dec_profile(b, pos + enc_u64(e.0).len(), e.1);
}

/// Appends `enc_profile_entry` of the entry's view to `out`.
pub fn write_profile_entry(out: &mut Vec<u8>, e: &(u64, Profile))
    ensures
        final(out)@ == old(out)@ + enc_profile_entry((profile_entry_view(*e))),
        wf_profile_entry((profile_entry_view(*e))),
{
    write_u64(out, e.0);
    write_profile(out, &e.1);
    proof {
        assert(out@ =~= old(out)@ + enc_profile_entry((profile_entry_view(*e))));
    }
}

/// Reads one stored record entry at `pos`, mirroring `dec_profile_entry`.
pub fn read_profile_entry(b: &Vec<u8>, pos: usize) -> (r: Option<((u64, Profile), usize)>)
    ensures
        match r {
            Some(vp) => dec_profile_entry(b@, pos as int) matches Some(dv) && vp.0.0 == dv.0.0
                && vp.0.1@ == dv.0.1 && vp.1 == dv.1,
            None => dec_profile_entry(b@, pos as int) is None,
        },
{
    match read_u64(b, pos) {
        None => None,
        Some((k, p1)) => match read_profile(b, p1) {
            None => None,
            Some((v, p2)) => Some(((k, v), p2)),
        },
    }
}


/// Encoding of the items of a stored record list, in order.
pub open spec fn enc_profile_entry_items(s: Seq<(u64, ProfileView)>) -> Seq<u8>
    decreases s.len(),
{
    if s.len() == 0 {
        Seq::empty()
    } else {
        enc_profile_entry_items(s.drop_last()) + enc_profile_entry(s.last())
    }
}

/// Encoding of a stored record list: its count, then its items.
pub open spec fn enc_profile_entry_list(s: Seq<(u64, ProfileView)>) -> Seq<u8> {
    enc_u64(s.len() as u64) + enc_profile_entry_items(s)
}

/// Bounds a stored record list's count and its entries' sizes.
pub open spec fn wf_profile_entry_list(s: Seq<(u64, ProfileView)>) -> bool {
    s.len() <= u64::MAX && forall|i: int| 0 <= i < s.len() ==> wf_profile_entry(#[trigger] s[i])
}

/// Reads `n` stored record entries at `pos`.
pub open spec fn dec_profile_entry_items(b: Seq<u8>, pos: int, n: int) -> Option<(Seq<(u64, ProfileView)>, int)>
    decreases n,
{
    if n <= 0 {
        Some((Seq::empty(), pos))
    } else {
        match dec_profile_entry(b, pos) {
            None => None,
            Some((v, p1)) => match dec_profile_entry_items(b, p1, n - 1) {
                None => None,
                Some((vs, p2)) => Some((seq![v] + vs, p2)),
            },
        }
    }
}

/// Reads a stored record list at `pos`.
pub open spec fn dec_profile_entry_list(b: Seq<u8>, pos: int) -> Option<(Seq<(u64, ProfileView)>, int)> {
    match dec_u64(b, pos) {
        None => None,
        Some((n, p)) => dec_profile_entry_items(b, p, n as int),
    }
}

/// The item encoding decomposes at its first item.
proof fn lemma_enc_profile_entry_items_first(s: Seq<(u64, ProfileView)>)
    requires
        s.len() > 0,
    ensures
        enc_profile_entry_items(s) == enc_profile_entry(s[0]) + enc_profile_entry_items(s.skip(1)),
    decreases s.len(),
{
    if s.len() == 1 {
        assert(s.drop_last() =~= Seq::<(u64, ProfileView)>::empty());
        assert(s.skip(1) =~= Seq::<(u64, ProfileView)>::empty());
        assert(enc_profile_entry_items(s) =~= enc_profile_entry(s[0]) + enc_profile_entry_items(s.skip(1)));
    } else {
        lemma_enc_profile_entry_items_first(s.drop_last());
        assert(s.drop_last()[0] == s[0]);
        assert(s.drop_last().skip(1) =~= s.skip(1).drop_last());
        assert(s.skip(1).last() == s.last());
        assert(enc_profile_entry_items(s) =~= enc_profile_entry(s[0]) + enc_profile_entry_items(s.skip(1)));
    }
}

/// Reading at a position holding the items of `s` yields `s`.
proof fn lemma_dec_profile_entry_items(b: Seq<u8>, pos: int, s: Seq<(u64, ProfileView)>)
    requires
        0 <= pos,
        forall|i: int| 0 <= i < s.len() ==> wf_profile_entry(#[trigger] s[i]),
        pos + enc_profile_entry_items(s).len() <= b.len(),
        b.subrange(pos, pos + enc_profile_entry_items(s).len()) == enc_profile_entry_items(s),
    ensures
        dec_profile_entry_items(b, pos, s.len() as int) == Some((s, pos + enc_profile_entry_items(s).len())),
    decreases s.len(),
{
    if s.len() == 0 {
    } else {
        lemma_enc_profile_entry_items_first(s);
        lemma_concat_split(b, pos, enc_profile_entry(s[0]), enc_profile_entry_items(s.skip(1)));
        lemma_dec_profile_entry(b, pos, s[0]);
        lemma_dec_profile_entry_items(b, pos + enc_profile_entry(s[0]).len(), s.skip(1));
        assert(seq![s[0]] + s.skip(1) =~= s);
    }
}

/// Reading at a position holding `enc_profile_entry_list(s)` yields `s`.
pub proof fn lemma_dec_profile_entry_list(b: Seq<u8>, pos: int, s: Seq<(u64, ProfileView)>)
    requires
        0 <= pos,
        wf_profile_entry_list(s),
        pos + enc_profile_entry_list(s).len() <= b.len(),
        b.subrange(pos, pos + enc_profile_entry_list(s).len()) == enc_profile_entry_list(s),
    ensures
        dec_profile_entry_list(b, pos) == Some((s, pos + enc_profile_entry_list(s).len())),
{
    lemma_enc_u64_len(s.len() as u64);
    lemma_concat_split(b, pos, enc_u64(s.len() as u64), enc_profile_entry_items(s));
    lemma_dec_u64(b, pos, s.len() as u64);
    lemma_dec_profile_entry_items(b, pos + 8, s);
}

/// Appends `enc_profile_entry_list` of the list's view to `out`.
pub fn write_profile_entry_list(out: &mut Vec<u8>, v: &Vec<(u64, Profile)>)
    ensures
        final(out)@ == old(out)@ + enc_profile_entry_list(profile_entries_view(v@)),
        wf_profile_entry_list(profile_entries_view(v@)),
{
    let ghost vw = profile_entries_view(v@);
    write_u64(out, v.len() as u64);
    let mut i: usize = 0;
    while i < v.len()
        invariant
            i <= v.len(),
            vw == profile_entries_view(v@),
            vw.len() == v@.len(),
            out@ == old(out)@ + enc_u64(vw.len() as u64) + enc_profile_entry_items(vw.subrange(0, i as int)),
            forall|j: int| 0 <= j < i as int ==> wf_profile_entry(#[trigger] vw[j]),
        decreases v.len() - i,
    {
        write_profile_entry(out, &v[i]);
        i = i + 1;
        proof {
            assert(vw[i as int - 1] == (profile_entry_view(v@[i as int - 1])));
            assert(vw.subrange(0, i as int).drop_last() =~= vw.subrange(0, i as int - 1));
            assert(vw.subrange(0, i as int).last() == vw[i as int - 1]);
            assert(out@ =~= old(out)@ + enc_u64(vw.len() as u64) + enc_profile_entry_items(
                vw.subrange(0, i as int),
            ));
        }
    }
    proof {
        assert(vw.subrange(0, vw.len() as int) =~= vw);
        assert(out@ =~= old(out)@ + enc_profile_entry_list(vw));
    }
}

/// Reads `n` stored record entries at `pos`, mirroring `dec_profile_entry_items`.
fn read_profile_entry_items(b: &Vec<u8>, pos: usize, n: u64) -> (r: Option<(Vec<(u64, Profile)>, usize)>)
    ensures
        match r {
            Some(vp) => dec_profile_entry_items(b@, pos as int, n as int) matches Some(dv) && profile_entries_view(
                vp.0@,
            ) == dv.0 && vp.1 == dv.1,
            None => dec_profile_entry_items(b@, pos as int, n as int) is None,
        },
    decreases n,
{
    if n == 0 {
        let r: Vec<(u64, Profile)> = Vec::new();
        proof {
            assert(profile_entries_view(r@) =~= Seq::<(u64, ProfileView)>::empty());
        }
        Some((r, pos))
    } else {
        match read_profile_entry(b, pos) {
            None => None,
            Some((v, p1)) => match read_profile_entry_items(b, p1, n - 1) {
                None => None,
                Some((mut vs, p2)) => {
                    vs.insert(0, v);
                    proof {
                        let d = dec_profile_entry_items(b@, pos as int, n as int);
                        assert(profile_entries_view(vs@) =~= d.unwrap().0);
                    }
                    Some((vs, p2))
                },
            },
        }
    }
}

/// Reads a stored record list at `pos`, mirroring `dec_profile_entry_list`.
pub fn read_profile_entry_list(b: &Vec<u8>, pos: usize) -> (r: Option<(Vec<(u64, Profile)>, usize)>)
    ensures
        match r {
            Some(vp) => dec_profile_entry_list(b@, pos as int) matches Some(dv) && profile_entries_view(vp.0@)
                == dv.0 && vp.1 == dv.1,
            None => dec_profile_entry_list(b@, pos as int) is None,
        },
{
    match read_u64(b, pos) {
        None => None,
        Some((n, p)) => read_profile_entry_items(b, p, n),
    }
}


// ---------------------------------------------------------------------
// stored friend request
// ---------------------------------------------------------------------
/// Bounds the encoded sizes of one stored friend request entry.
pub open spec fn wf_request_entry(e: (u64, FriendRequestView)) -> bool {
    wf_friend_request(e.1)
}

/// Encoding of one stored friend request entry: its key, then its value.
pub open spec fn enc_request_entry(e: (u64, FriendRequestView)) -> Seq<u8> {
    enc_u64(e.0) + enc_friend_request(e.1)
}

/// Reads one stored friend request entry at `pos`.
pub open spec fn dec_request_entry(b: Seq<u8>, pos: int) -> Option<((u64, FriendRequestView), int)> {
    match dec_u64(b, pos) {
        None => None,
        Some((k, p1)) => match dec_friend_request(b, p1) {
            None => None,
            Some((v, p2)) => Some(((k, v), p2)),
        },
    }
}

/// Reading at a position holding `enc_request_entry(e)` yields `e`.
pub proof fn lemma_dec_request_entry(b: Seq<u8>, pos: int, e: (u64, FriendRequestView))
    requires
        0 <= pos,
        wf_request_entry(e),
        pos + enc_request_entry(e).len() <= b.len(),
        b.subrange(pos, pos + enc_request_entry(e).len()) == enc_request_entry(e),
    ensures
        dec_request_entry(b, pos) == Some((e, pos + enc_request_entry(e).len())),
{
    lemma_enc_u64_len(e.0);
    lemma_concat_split(b, pos, enc_u64(e.0), enc_friend_request(e.1));
    lemma_dec_u64(b, pos, e.0);
    lemma_dec_friend_request(b, pos + enc_u64(e.0).len(), e.1);
}

/// Appends `enc_request_entry` of the entry's view to `out`.
pub fn write_request_entry(out: &mut Vec<u8>, e: &(u64, FriendRequest))
    ensures
        final(out)@ == old(out)@ + enc_request_entry((request_entry_view(*e))),
        wf_request_entry((request_entry_view(*e))),
{
    write_u64(out, e.0);
    write_friend_request(out, &e.1);
    proof {
        assert(out@ =~= old(out)@ + enc_request_entry((request_entry_view(*e))));
    }
}

/// Reads one stored friend request entry at `pos`, mirroring `dec_request_entry`.
pub fn read_request_entry(b: &Vec<u8>, pos: usize) -> (r: Option<((u64, FriendRequest), usize)>)
    ensures
        match r {
            Some(vp) => dec_request_entry(b@, pos as int) matches Some(dv) && vp.0.0 == dv.0.0
                && vp.0.1@ == dv.0.1 && vp.1 == dv.1,
            None => dec_request_entry(b@, pos as int) is None,
        },
{
    match read_u64(b, pos) {
        None => None,
        Some((k, p1)) => match read_friend_request(b, p1) {
            None => None,
            Some((v, p2)) => Some(((k, v), p2)),
        },
    }
}


/// Encoding of the items of a stored friend request list, in order.
pub open spec fn enc_request_entry_items(s: Seq<(u64, FriendRequestView)>) -> Seq<u8>
    decreases s.len(),
{
    if s.len() == 0 {
        Seq::empty()
    } else {
        enc_request_entry_items(s.drop_last()) + enc_request_entry(s.last())
    }
}

/// Encoding of a stored friend request list: its count, then its items.
pub open spec fn enc_request_entry_list(s: Seq<(u64, FriendRequestView)>) -> Seq<u8> {
    enc_u64(s.len() as u64) + enc_request_entry_items(s)
}

/// Bounds a stored friend request list's count and its entries' sizes.
pub open spec fn wf_request_entry_list(s: Seq<(u64, FriendRequestView)>) -> bool {
    s.len() <= u64::MAX && forall|i: int| 0 <= i < s.len() ==> wf_request_entry(#[trigger] s[i])
}

/// Reads `n` stored friend request entries at `pos`.
pub open spec fn dec_request_entry_items(b: Seq<u8>, pos: int, n: int) -> Option<(Seq<(u64, FriendRequestView)>, int)>
    decreases n,
{
    if n <= 0 {
        Some((Seq::empty(), pos))
    } else {
        match dec_request_entry(b, pos) {
            None => None,
            Some((v, p1)) => match dec_request_entry_items(b, p1, n - 1) {
                None => None,
                Some((vs, p2)) => Some((seq![v] + vs, p2)),
            },
        }
    }
}

/// Reads a stored friend request list at `pos`.
pub open spec fn dec_request_entry_list(b: Seq<u8>, pos: int) -> Option<(Seq<(u64, FriendRequestView)>, int)> {
    match dec_u64(b, pos) {
        None => None,
        Some((n, p)) => dec_request_entry_items(b, p, n as int),
    }
}

/// The item encoding decomposes at its first item.
proof fn lemma_enc_request_entry_items_first(s: Seq<(u64, FriendRequestView)>)
    requires
        s.len() > 0,
    ensures
        enc_request_entry_items(s) == enc_request_entry(s[0]) + enc_request_entry_items(s.skip(1)),
    decreases s.len(),
{
    if s.len() == 1 {
        assert(s.drop_last() =~= Seq::<(u64, FriendRequestView)>::empty());
        assert(s.skip(1) =~= Seq::<(u64, FriendRequestView)>::empty());
        assert(enc_request_entry_items(s) =~= enc_request_entry(s[0]) + enc_request_entry_items(s.skip(1)));
    } else {
        lemma_enc_request_entry_items_first(s.drop_last());
        assert(s.drop_last()[0] == s[0]);
        assert(s.drop_last().skip(1) =~= s.skip(1).drop_last());
        assert(s.skip(1).last() == s.last());
        assert(enc_request_entry_items(s) =~= enc_request_entry(s[0]) + enc_request_entry_items(s.skip(1)));
    }
}

/// Reading at a position holding the items of `s` yields `s`.
proof fn lemma_dec_request_entry_items(b: Seq<u8>, pos: int, s: Seq<(u64, FriendRequestView)>)
    requires
        0 <= pos,
        forall|i: int| 0 <= i < s.len() ==> wf_request_entry(#[trigger] s[i]),
        pos + enc_request_entry_items(s).len() <= b.len(),
        b.subrange(pos, pos + enc_request_entry_items(s).len()) == enc_request_entry_items(s),
    ensures
        dec_request_entry_items(b, pos, s.len() as int) == Some((s, pos + enc_request_entry_items(s).len())),
    decreases s.len(),
{
    if s.len() == 0 {
    } else {
        lemma_enc_request_entry_items_first(s);
        lemma_concat_split(b, pos, enc_request_entry(s[0]), enc_request_entry_items(s.skip(1)));
        lemma_dec_request_entry(b, pos, s[0]);
        lemma_dec_request_entry_items(b, pos + enc_request_entry(s[0]).len(), s.skip(1));
        assert(seq![s[0]] + s.skip(1) =~= s);
    }
}

/// Reading at a position holding `enc_request_entry_list(s)` yields `s`.
pub proof fn lemma_dec_request_entry_list(b: Seq<u8>, pos: int, s: Seq<(u64, FriendRequestView)>)
    requires
        0 <= pos,
        wf_request_entry_list(s),
        pos + enc_request_entry_list(s).len() <= b.len(),
        b.subrange(pos, pos + enc_request_entry_list(s).len()) == enc_request_entry_list(s),
    ensures
        dec_request_entry_list(b, pos) == Some((s, pos + enc_request_entry_list(s).len())),
{
    lemma_enc_u64_len(s.len() as u64);
    lemma_concat_split(b, pos, enc_u64(s.len() as u64), enc_request_entry_items(s));
    lemma_dec_u64(b, pos, s.len() as u64);
    lemma_dec_request_entry_items(b, pos + 8, s);
}

/// Appends `enc_request_entry_list` of the list's view to `out`.
pub fn write_request_entry_list(out: &mut Vec<u8>, v: &Vec<(u64, FriendRequest)>)
    ensures
        final(out)@ == old(out)@ + enc_request_entry_list(request_entries_view(v@)),
        wf_request_entry_list(request_entries_view(v@)),
{
    let ghost vw = request_entries_view(v@);
    write_u64(out, v.len() as u64);
    let mut i: usize = 0;
    while i < v.len()
        invariant
            i <= v.len(),
            vw == request_entries_view(v@),
            vw.len() == v@.len(),
            out@ == old(out)@ + enc_u64(vw.len() as u64) + enc_request_entry_items(vw.subrange(0, i as int)),
            forall|j: int| 0 <= j < i as int ==> wf_request_entry(#[trigger] vw[j]),
        decreases v.len() - i,
    {
        write_request_entry(out, &v[i]);
        i = i + 1;
        proof {
            assert(vw[i as int - 1] == (request_entry_view(v@[i as int - 1])));
            assert(vw.subrange(0, i as int).drop_last() =~= vw.subrange(0, i as int - 1));
            assert(vw.subrange(0, i as int).last() == vw[i as int - 1]);
            assert(out@ =~= old(out)@ + enc_u64(vw.len() as u64) + enc_request_entry_items(
                vw.subrange(0, i as int),
            ));
        }
    }
    proof {
        assert(vw.subrange(0, vw.len() as int) =~= vw);
        assert(out@ =~= old(out)@ + enc_request_entry_list(vw));
    }
}

/// Reads `n` stored friend request entries at `pos`, mirroring `dec_request_entry_items`.
fn read_request_entry_items(b: &Vec<u8>, pos: usize, n: u64) -> (r: Option<(Vec<(u64, FriendRequest)>, usize)>)
    ensures
        match r {
            Some(vp) => dec_request_entry_items(b@, pos as int, n as int) matches Some(dv) && request_entries_view(
                vp.0@,
            ) == dv.0 && vp.1 == dv.1,
            None => dec_request_entry_items(b@, pos as int, n as int) is None,
        },
    decreases n,
{
    if n == 0 {
        let r: Vec<(u64, FriendRequest)> = Vec::new();
        proof {
            assert(request_entries_view(r@) =~= Seq::<(u64, FriendRequestView)>::empty());
        }
        Some((r, pos))
    } else {
        match read_request_entry(b, pos) {
            None => None,
            Some((v, p1)) => match read_request_entry_items(b, p1, n - 1) {
                None => None,
                Some((mut vs, p2)) => {
                    vs.insert(0, v);
                    proof {
                        let d = dec_request_entry_items(b@, pos as int, n as int);
                        assert(request_entries_view(vs@) =~= d.unwrap().0);
                    }
                    Some((vs, p2))
                },
            },
        }
    }
}

/// Reads a stored friend request list at `pos`, mirroring `dec_request_entry_list`.
pub fn read_request_entry_list(b: &Vec<u8>, pos: usize) -> (r: Option<(Vec<(u64, FriendRequest)>, usize)>)
    ensures
        match r {
            Some(vp) => dec_request_entry_list(b@, pos as int) matches Some(dv) && request_entries_view(vp.0@)
                == dv.0 && vp.1 == dv.1,
            None => dec_request_entry_list(b@, pos as int) is None,
        },
{
    match read_u64(b, pos) {
        None => None,
        Some((n, p)) => read_request_entry_items(b, p, n),
    }
}


/// Encoding of the items of a profile response list, in order.
pub open spec fn enc_profile_response_items(s: Seq<ProfileResponseView>) -> Seq<u8>
    decreases s.len(),
{
    if s.len() == 0 {
        Seq::empty()
    } else {
        enc_profile_response_items(s.drop_last()) + enc_profile_response(s.last())
    }
}

/// Encoding of a profile response list: its count, then its items.
pub open spec fn enc_profile_response_list(s: Seq<ProfileResponseView>) -> Seq<u8> {
    enc_u64(s.len() as u64) + enc_profile_response_items(s)
}

/// Bounds a profile response list's count and its entries' sizes.
pub open spec fn wf_profile_response_list(s: Seq<ProfileResponseView>) -> bool {
    s.len() <= u64::MAX && forall|i: int| 0 <= i < s.len() ==> wf_profile_response(#[trigger] s[i])
}

/// Reads `n` profile response entries at `pos`.
pub open spec fn dec_profile_response_items(b: Seq<u8>, pos: int, n: int) -> Option<(Seq<ProfileResponseView>, int)>
    decreases n,
{
    if n <= 0 {
        Some((Seq::empty(), pos))
    } else {
        match dec_profile_response(b, pos) {
            None => None,
            Some((v, p1)) => match dec_profile_response_items(b, p1, n - 1) {
                None => None,
                Some((vs, p2)) => Some((seq![v] + vs, p2)),
            },
        }
    }
}

/// Reads a profile response list at `pos`.
pub open spec fn dec_profile_response_list(b: Seq<u8>, pos: int) -> Option<(Seq<ProfileResponseView>, int)> {
    match dec_u64(b, pos) {
        None => None,
        Some((n, p)) => dec_profile_response_items(b, p, n as int),
    }
}

/// The item encoding decomposes at its first item.
proof fn lemma_enc_profile_response_items_first(s: Seq<ProfileResponseView>)
    requires
        s.len() > 0,
    ensures
        enc_profile_response_items(s) == enc_profile_response(s[0]) + enc_profile_response_items(s.skip(1)),
    decreases s.len(),
{
    if s.len() == 1 {
        assert(s.drop_last() =~= Seq::<ProfileResponseView>::empty());
        assert(s.skip(1) =~= Seq::<ProfileResponseView>::empty());
        assert(enc_profile_response_items(s) =~= enc_profile_response(s[0]) + enc_profile_response_items(s.skip(1)));
    } else {
        lemma_enc_profile_response_items_first(s.drop_last());
        assert(s.drop_last()[0] == s[0]);
        assert(s.drop_last().skip(1) =~= s.skip(1).drop_last());
        assert(s.skip(1).last() == s.last());
        assert(enc_profile_response_items(s) =~= enc_profile_response(s[0]) + enc_profile_response_items(s.skip(1)));
    }
}

/// Reading at a position holding the items of `s` yields `s`.
proof fn lemma_dec_profile_response_items(b: Seq<u8>, pos: int, s: Seq<ProfileResponseView>)
    requires
        0 <= pos,
        forall|i: int| 0 <= i < s.len() ==> wf_profile_response(#[trigger] s[i]),
        pos + enc_profile_response_items(s).len() <= b.len(),
        b.subrange(pos, pos + enc_profile_response_items(s).len()) == enc_profile_response_items(s),
    ensures
        dec_profile_response_items(b, pos, s.len() as int) == Some((s, pos + enc_profile_response_items(s).len())),
    decreases s.len(),
{
    if s.len() == 0 {
    } else {
        lemma_enc_profile_response_items_first(s);
        lemma_concat_split(b, pos, enc_profile_response(s[0]), enc_profile_response_items(s.skip(1)));
        lemma_dec_profile_response(b, pos, s[0]);
        lemma_dec_profile_response_items(b, pos + enc_profile_response(s[0]).len(), s.skip(1));
        assert(seq![s[0]] + s.skip(1) =~= s);
    }
}

/// Reading at a position holding `enc_profile_response_list(s)` yields `s`.
pub proof fn lemma_dec_profile_response_list(b: Seq<u8>, pos: int, s: Seq<ProfileResponseView>)
    requires
        0 <= pos,
        wf_profile_response_list(s),
        pos + enc_profile_response_list(s).len() <= b.len(),
        b.subrange(pos, pos + enc_profile_response_list(s).len()) == enc_profile_response_list(s),
    ensures
        dec_profile_response_list(b, pos) == Some((s, pos + enc_profile_response_list(s).len())),
{
    lemma_enc_u64_len(s.len() as u64);
    lemma_concat_split(b, pos, enc_u64(s.len() as u64), enc_profile_response_items(s));
    lemma_dec_u64(b, pos, s.len() as u64);
    lemma_dec_profile_response_items(b, pos + 8, s);
}

/// Appends `enc_profile_response_list` of the list's view to `out`.
pub fn write_profile_response_list(out: &mut Vec<u8>, v: &Vec<ProfileResponse>)
    ensures
        final(out)@ == old(out)@ + enc_profile_response_list(profile_responses_view(v@)),
        wf_profile_response_list(profile_responses_view(v@)),
{
    let ghost vw = profile_responses_view(v@);
    write_u64(out, v.len() as u64);
    let mut i: usize = 0;
    while i < v.len()
        invariant
            i <= v.len(),
            vw == profile_responses_view(v@),
            vw.len() == v@.len(),
            out@ == old(out)@ + enc_u64(vw.len() as u64) + enc_profile_response_items(vw.subrange(0, i as int)),
            forall|j: int| 0 <= j < i as int ==> wf_profile_response(#[trigger] vw[j]),
        decreases v.len() - i,
    {
        write_profile_response(out, &v[i]);
        i = i + 1;
        proof {
            assert(vw[i as int - 1] == (v@[i as int - 1]@));
            assert(vw.subrange(0, i as int).drop_last() =~= vw.subrange(0, i as int - 1));
            assert(vw.subrange(0, i as int).last() == vw[i as int - 1]);
            assert(out@ =~= old(out)@ + enc_u64(vw.len() as u64) + enc_profile_response_items(
                vw.subrange(0, i as int),
            ));
        }
    }
    proof {
        assert(vw.subrange(0, vw.len() as int) =~= vw);
        assert(out@ =~= old(out)@ + enc_profile_response_list(vw));
    }
}

/// Reads `n` profile response entries at `pos`, mirroring `dec_profile_response_items`.
fn read_profile_response_items(b: &Vec<u8>, pos: usize, n: u64) -> (r: Option<(Vec<ProfileResponse>, usize)>)
    ensures
        match r {
            Some(vp) => dec_profile_response_items(b@, pos as int, n as int) matches Some(dv) && profile_responses_view(
                vp.0@,
            ) == dv.0 && vp.1 == dv.1,
            None => dec_profile_response_items(b@, pos as int, n as int) is None,
        },
    decreases n,
{
    if n == 0 {
        let r: Vec<ProfileResponse> = Vec::new();
        proof {
            assert(profile_responses_view(r@) =~= Seq::<ProfileResponseView>::empty());
        }
        Some((r, pos))
    } else {
        match read_profile_response(b, pos) {
            None => None,
            Some((v, p1)) => match read_profile_response_items(b, p1, n - 1) {
                None => None,
                Some((mut vs, p2)) => {
                    vs.insert(0, v);
                    proof {
                        let d = dec_profile_response_items(b@, pos as int, n as int);
                        assert(profile_responses_view(vs@) =~= d.unwrap().0);
                    }
                    Some((vs, p2))
                },
            },
        }
    }
}

/// Reads a profile response list at `pos`, mirroring `dec_profile_response_list`.
pub fn read_profile_response_list(b: &Vec<u8>, pos: usize) -> (r: Option<(Vec<ProfileResponse>, usize)>)
    ensures
        match r {
            Some(vp) => dec_profile_response_list(b@, pos as int) matches Some(dv) && profile_responses_view(vp.0@)
                == dv.0 && vp.1 == dv.1,
            None => dec_profile_response_list(b@, pos as int) is None,
        },
{
    match read_u64(b, pos) {
        None => None,
        Some((n, p)) => read_profile_response_items(b, p, n),
    }
}

} // verus!
