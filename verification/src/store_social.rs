//! Domain operations on the caller's stored profile: wallets, starred
//! references, relations, and policy approvals. Each operation looks up
//! the caller's record, edits one field of it in place, and leaves the
//! rest of the table untouched; every failure leaves the store unchanged.

use vstd::prelude::*;
use vstd::pervasive::VecAdditionalExecFns;
use crate::errors::ApiError;
use crate::errors::ApiErrorType;
use crate::errors::api_error;
use crate::profile_models::DocumentDetails;
use crate::profile_models::Identifier;
use crate::profile_models::PostWallet;
use crate::profile_models::PrincipalId;
use crate::profile_models::Profile;
use crate::profile_models::ProfileResponse;
use crate::profile_models::ProfileView;
use crate::profile_models::RelationType;
use crate::profile_models::Wallet;
use crate::profile_models::WalletView;
use crate::profile_models::tag_entries_view;
use crate::profile_models::tag_entry_view;
use crate::profile_models::wallet_entries_view;
use crate::profile_models::wallet_entry_view;
use crate::store::Store;
use crate::store::StoreView;
use crate::store::find_principal_idx;
use crate::store::map_profile_to_profile_response;
use crate::store::response_view_of;
use crate::store::spec_identifier;
use crate::store::store_inv;

verus! {

// ---------------------------------------------------------------------
// keyed tag lists (starred references and relations)
// ---------------------------------------------------------------------
/// Index of the first entry keyed by `k`, or -1.
pub open spec fn tag_key_idx(s: Seq<(PrincipalId, Seq<char>)>, k: PrincipalId) -> int
    decreases s.len(),
{
    if s.len() == 0 {
        -1
    } else if s[0].0 == k {
        0
    } else {
        let r = tag_key_idx(s.skip(1), k);
        if r < 0 {
            -1
        } else {
            r + 1
        }
    }
}

/// `tag_key_idx` names the first match, or -1 when none exists.
pub proof fn lemma_tag_key_idx(s: Seq<(PrincipalId, Seq<char>)>, k: PrincipalId)
    ensures
        tag_key_idx(s, k) == -1 ==> forall|i: int|
            0 <= i < s.len() ==> (#[trigger] s[i]).0 != k,
        tag_key_idx(s, k) >= 0 ==> {
            let r = tag_key_idx(s, k);
            &&& r < s.len()
            &&& s[r].0 == k
            &&& forall|i: int| 0 <= i < r ==> (#[trigger] s[i]).0 != k
        },
    decreases s.len(),
{
    if s.len() == 0 {
    } else if s[0].0 == k {
    } else {
        lemma_tag_key_idx(s.skip(1), k);
        assert forall|i: int| 1 <= i < s.len() implies (#[trigger] s[i]) == s.skip(1)[i - 1] by {
            assert(s.skip(1)[i - 1] == s[i]);
        }
    }
}

/// The list after storing `val` under `k`: the first entry keyed `k` is
/// overwritten, or a new entry is appended.
pub open spec fn spec_tag_put(
    s: Seq<(PrincipalId, Seq<char>)>,
    k: PrincipalId,
    val: Seq<char>,
) -> Seq<(PrincipalId, Seq<char>)> {
    let i = tag_key_idx(s, k);
    if i >= 0 {
        s.update(i, (k, val))
    } else {
        s.push((k, val))
    }
}

/// The list after removing the first entry keyed `k`, if any.
pub open spec fn spec_tag_remove(s: Seq<(PrincipalId, Seq<char>)>, k: PrincipalId) -> Seq<
    (PrincipalId, Seq<char>),
> {
    let i = tag_key_idx(s, k);
    if i >= 0 {
        s.remove(i)
    } else {
        s
    }
}

/// The keys whose stored tag equals `val`, in list order.
pub open spec fn spec_tag_keys_with(s: Seq<(PrincipalId, Seq<char>)>, val: Seq<char>) -> Seq<
    PrincipalId,
>
    decreases s.len(),
{
    if s.len() == 0 {
        Seq::empty()
    } else {
        let rest = spec_tag_keys_with(s.drop_last(), val);
        if s.last().1 == val {
            rest.push(s.last().0)
        } else {
            rest
        }
    }
}

/// Finds the index of the entry keyed `k`, mirroring `tag_key_idx`.
fn tag_find(v: &Vec<(PrincipalId, String)>, k: PrincipalId) -> (r: Option<usize>)
    ensures
        match r {
            Some(i) => i == tag_key_idx(tag_entries_view(v@), k) && i < v@.len(),
            None => tag_key_idx(tag_entries_view(v@), k) == -1,
        },
{
    let ghost tv = tag_entries_view(v@);
    let mut i: usize = 0;
    while i < v.len()
        invariant
            i <= v@.len(),
            tv == tag_entries_view(v@),
            tv.len() == v@.len(),
            forall|j: int| 0 <= j < i as int ==> (#[trigger] tv[j]).0 != k,
        decreases v.len() - i,
    {
        proof {
            assert(tv[i as int] == tag_entry_view(v@[i as int]));
        }
        if v[i].0 == k {
            proof {
                lemma_tag_key_idx(tv, k);
                let r = tag_key_idx(tv, k);
                if r == -1 {
                    assert(tv[i as int].0 != k);
                }
                if 0 <= r < i as int {
                    assert(tv[r].0 != k);
                }
                if r > i as int {
                    assert(tv[i as int].0 != k);
                }
            }
            return Some(i);
        }
        i = i + 1;
    }
    proof {
        lemma_tag_key_idx(tv, k);
        let r = tag_key_idx(tv, k);
        if r >= 0 {
            assert(tv[r].0 != k);
        }
    }
    None
}

/// Stores `val` under `k`, mirroring `spec_tag_put`.
pub(crate) fn tag_put(v: &mut Vec<(PrincipalId, String)>, k: PrincipalId, val: String)
    ensures
        tag_entries_view(final(v)@) == spec_tag_put(tag_entries_view(old(v)@), k, val@),
{
    let ghost tv = tag_entries_view(v@);
    match tag_find(v, k) {
        Some(i) => {
            v.set(i, (k, val));
            proof {
                assert forall|j: int|
                    0 <= j < v@.len() implies tag_entries_view(v@)[j] == tv.update(
                    tag_key_idx(tv, k),
                    (k, val@),
                )[j] by {
                    assert(tag_entries_view(v@)[j] == tag_entry_view(v@[j]));
                }
                assert(tag_entries_view(v@) =~= tv.update(tag_key_idx(tv, k), (k, val@)));
            }
        },
        None => {
            v.push((k, val));
            proof {
                assert forall|j: int|
                    0 <= j < v@.len() implies tag_entries_view(v@)[j] == tv.push((k, val@))[j] by {
                    assert(tag_entries_view(v@)[j] == tag_entry_view(v@[j]));
                }
                assert(tag_entries_view(v@) =~= tv.push((k, val@)));
            }
        },
    }
}

/// Removes the entry keyed `k`, mirroring `spec_tag_remove`.
pub(crate) fn tag_remove(v: &mut Vec<(PrincipalId, String)>, k: PrincipalId)
    ensures
        tag_entries_view(final(v)@) == spec_tag_remove(tag_entries_view(old(v)@), k),
{
    let ghost tv = tag_entries_view(v@);
    match tag_find(v, k) {
        Some(i) => {
            v.remove(i);
            proof {
                let mi = tag_key_idx(tv, k);
                assert forall|j: int|
                    0 <= j < v@.len() implies tag_entries_view(v@)[j] == tv.remove(mi)[j] by {
                    assert(tag_entries_view(v@)[j] == tag_entry_view(v@[j]));
                    if j < mi {
                        assert(v@[j] == old(v)@[j]);
                        assert(tv.remove(mi)[j] == tv[j]);
                    } else {
                        assert(v@[j] == old(v)@[j + 1]);
                        assert(tv.remove(mi)[j] == tv[j + 1]);
                    }
                }
                assert(tag_entries_view(v@) =~= tv.remove(mi));
            }
        },
        None => {},
    }
}

/// Collects the keys tagged `val`, mirroring `spec_tag_keys_with`.
fn tag_keys_with(v: &Vec<(PrincipalId, String)>, val: &String) -> (r: Vec<PrincipalId>)
    ensures
        r@ == spec_tag_keys_with(tag_entries_view(v@), val@),
{
    let ghost tv = tag_entries_view(v@);
    let mut out: Vec<PrincipalId> = Vec::new();
    let mut i: usize = 0;
    while i < v.len()
        invariant
            i <= v@.len(),
            tv == tag_entries_view(v@),
            tv.len() == v@.len(),
            out@ == spec_tag_keys_with(tv.subrange(0, i as int), val@),
        decreases v.len() - i,
    {
        proof {
            assert(tv[i as int] == tag_entry_view(v@[i as int]));
        }
        if v[i].1 == *val {
            out.push(v[i].0);
        }
        i = i + 1;
        proof {
            assert(tv.subrange(0, i as int).drop_last() =~= tv.subrange(0, i as int - 1));
            assert(tv.subrange(0, i as int).last() == tv[i as int - 1]);
            assert(out@ =~= spec_tag_keys_with(tv.subrange(0, i as int), val@));
        }
    }
    proof {
        assert(tv.subrange(0, tv.len() as int) =~= tv);
    }
    out
}

// ---------------------------------------------------------------------
// keyed wallet lists
// ---------------------------------------------------------------------
/// Index of the first wallet keyed by `k`, or -1.
pub open spec fn wallet_key_idx(s: Seq<(PrincipalId, WalletView)>, k: PrincipalId) -> int
    decreases s.len(),
{
    if s.len() == 0 {
        -1
    } else if s[0].0 == k {
        0
    } else {
        let r = wallet_key_idx(s.skip(1), k);
        if r < 0 {
            -1
        } else {
            r + 1
        }
    }
}

/// `wallet_key_idx` names the first match, or -1 when none exists.
pub proof fn lemma_wallet_key_idx(s: Seq<(PrincipalId, WalletView)>, k: PrincipalId)
    ensures
        wallet_key_idx(s, k) == -1 ==> forall|i: int|
            0 <= i < s.len() ==> (#[trigger] s[i]).0 != k,
        wallet_key_idx(s, k) >= 0 ==> {
            let r = wallet_key_idx(s, k);
            &&& r < s.len()
            &&& s[r].0 == k
            &&& forall|i: int| 0 <= i < r ==> (#[trigger] s[i]).0 != k
        },
    decreases s.len(),
{
    if s.len() == 0 {
    } else if s[0].0 == k {
    } else {
        lemma_wallet_key_idx(s.skip(1), k);
        assert forall|i: int| 1 <= i < s.len() implies (#[trigger] s[i]) == s.skip(1)[i - 1] by {
            assert(s.skip(1)[i - 1] == s[i]);
        }
    }
}

/// The list after storing `w` under `k`: the first wallet keyed `k` is
/// overwritten, or a new entry is appended.
pub open spec fn spec_wallet_put(
    s: Seq<(PrincipalId, WalletView)>,
    k: PrincipalId,
    w: WalletView,
) -> Seq<(PrincipalId, WalletView)> {
    let i = wallet_key_idx(s, k);
    if i >= 0 {
        s.update(i, (k, w))
    } else {
        s.push((k, w))
    }
}

/// The list after removing the first wallet keyed `k`, if any.
pub open spec fn spec_wallet_remove(s: Seq<(PrincipalId, WalletView)>, k: PrincipalId) -> Seq<
    (PrincipalId, WalletView),
> {
    let i = wallet_key_idx(s, k);
    if i >= 0 {
        s.remove(i)
    } else {
        s
    }
}

/// The list with exactly the wallet keyed `k` marked primary.
pub open spec fn spec_wallets_primary(s: Seq<(PrincipalId, WalletView)>, k: PrincipalId) -> Seq<
    (PrincipalId, WalletView),
> {
    s.map_values(
        |e: (PrincipalId, WalletView)|
            (e.0, WalletView { provider: e.1.provider, is_primary: e.0 == k }),
    )
}

/// Finds the index of the wallet keyed `k`, mirroring `wallet_key_idx`.
fn wallet_find(v: &Vec<(PrincipalId, Wallet)>, k: PrincipalId) -> (r: Option<usize>)
    ensures
        match r {
            Some(i) => i == wallet_key_idx(wallet_entries_view(v@), k) && i < v@.len(),
            None => wallet_key_idx(wallet_entries_view(v@), k) == -1,
        },
{
    let ghost wv = wallet_entries_view(v@);
    let mut i: usize = 0;
    while i < v.len()
        invariant
            i <= v@.len(),
            wv == wallet_entries_view(v@),
            wv.len() == v@.len(),
            forall|j: int| 0 <= j < i as int ==> (#[trigger] wv[j]).0 != k,
        decreases v.len() - i,
    {
        proof {
            assert(wv[i as int] == wallet_entry_view(v@[i as int]));
        }
        if v[i].0 == k {
            proof {
                lemma_wallet_key_idx(wv, k);
                let r = wallet_key_idx(wv, k);
                if r == -1 {
                    assert(wv[i as int].0 != k);
                }
                if 0 <= r < i as int {
                    assert(wv[r].0 != k);
                }
                if r > i as int {
                    assert(wv[i as int].0 != k);
                }
            }
            return Some(i);
        }
        i = i + 1;
    }
    proof {
        lemma_wallet_key_idx(wv, k);
        let r = wallet_key_idx(wv, k);
        if r >= 0 {
            assert(wv[r].0 != k);
        }
    }
    None
}

/// Stores `w` under `k`, mirroring `spec_wallet_put`.
fn wallet_put(v: &mut Vec<(PrincipalId, Wallet)>, k: PrincipalId, w: Wallet)
    ensures
        wallet_entries_view(final(v)@) == spec_wallet_put(
            wallet_entries_view(old(v)@),
            k,
            w@,
        ),
{
    let ghost wv = wallet_entries_view(v@);
    let ghost wview = w@;
    match wallet_find(v, k) {
        Some(i) => {
            v.set(i, (k, w));
            proof {
                assert forall|j: int|
                    0 <= j < v@.len() implies wallet_entries_view(v@)[j] == wv.update(
                    wallet_key_idx(wv, k),
                    (k, wview),
                )[j] by {
                    assert(wallet_entries_view(v@)[j] == wallet_entry_view(v@[j]));
                }
                assert(wallet_entries_view(v@) =~= wv.update(wallet_key_idx(wv, k), (k, wview)));
            }
        },
        None => {
            v.push((k, w));
            proof {
                assert forall|j: int|
                    0 <= j < v@.len() implies wallet_entries_view(v@)[j] == wv.push(
                    (k, wview),
                )[j] by {
                    assert(wallet_entries_view(v@)[j] == wallet_entry_view(v@[j]));
                }
                assert(wallet_entries_view(v@) =~= wv.push((k, wview)));
            }
        },
    }
}

/// Removes the wallet keyed `k`, mirroring `spec_wallet_remove`.
fn wallet_remove(v: &mut Vec<(PrincipalId, Wallet)>, k: PrincipalId)
    ensures
        wallet_entries_view(final(v)@) == spec_wallet_remove(wallet_entries_view(old(v)@), k),
{
    let ghost wv = wallet_entries_view(v@);
    match wallet_find(v, k) {
        Some(i) => {
            v.remove(i);
            proof {
                let mi = wallet_key_idx(wv, k);
                assert forall|j: int|
                    0 <= j < v@.len() implies wallet_entries_view(v@)[j] == wv.remove(mi)[j] by {
                    assert(wallet_entries_view(v@)[j] == wallet_entry_view(v@[j]));
                    if j < mi {
                        assert(v@[j] == old(v)@[j]);
                        assert(wv.remove(mi)[j] == wv[j]);
                    } else {
                        assert(v@[j] == old(v)@[j + 1]);
                        assert(wv.remove(mi)[j] == wv[j + 1]);
                    }
                }
                assert(wallet_entries_view(v@) =~= wv.remove(mi));
            }
        },
        None => {},
    }
}

/// Marks exactly the wallet keyed `k` primary, mirroring
/// `spec_wallets_primary`.
fn wallet_set_primary(v: &mut Vec<(PrincipalId, Wallet)>, k: PrincipalId)
    ensures
        wallet_entries_view(final(v)@) == spec_wallets_primary(
            wallet_entries_view(old(v)@),
            k,
        ),
{
    let ghost wv = wallet_entries_view(v@);
    let mut i: usize = 0;
    while i < v.len()
        invariant
            i <= v@.len(),
            wv == wallet_entries_view(old(v)@),
            wv.len() == v@.len(),
            forall|j: int|
                i as int <= j < v@.len() ==> #[trigger] wallet_entry_view(v@[j]) == wv[j],
            forall|j: int|
                0 <= j < i as int ==> #[trigger] wallet_entry_view(v@[j]) == (
                    wv[j].0,
                    WalletView { provider: wv[j].1.provider, is_primary: wv[j].0 == k },
                ),
        decreases v.len() - i,
    {
        let key = v[i].0;
        let provider = v[i].1.provider.clone();
        let make_primary = key.id == k.id;
        let ghost prev = v@;
        proof {
            assert(wallet_entry_view(prev[i as int]) == wv[i as int]);
            assert(provider@ == wv[i as int].1.provider);
            assert(key == wv[i as int].0);
        }
        v.set(i, (key, Wallet { provider, is_primary: make_primary }));
        proof {
            assert(wallet_entry_view(v@[i as int]) == (
                wv[i as int].0,
                WalletView {
                    provider: wv[i as int].1.provider,
                    is_primary: wv[i as int].0 == k,
                },
            ));
            assert forall|j: int| 0 <= j < v@.len() && j != i as int implies #[trigger] v@[j]
                == prev[j] by {}
        }
        i = i + 1;
    }
    proof {
        assert forall|j: int|
            0 <= j < v@.len() implies wallet_entries_view(v@)[j] == spec_wallets_primary(
            wv,
            k,
        )[j] by {
            assert(wallet_entries_view(v@)[j] == wallet_entry_view(v@[j]));
        }
        assert(wallet_entries_view(v@) =~= spec_wallets_primary(wv, k));
    }
}

// ---------------------------------------------------------------------
// per-profile updates of the store
// ---------------------------------------------------------------------
/// The store with the record at table index `i` replaced by `p`, its key
/// unchanged.
pub open spec fn spec_with_profile(s: StoreView, i: int, p: ProfileView) -> StoreView {
    StoreView { entries: s.entries.update(i, (s.entries[i].0, p)), ..s }
}

/// A profile with its wallets replaced.
pub open spec fn spec_profile_with_wallets(
    p: ProfileView,
    wallets: Seq<(PrincipalId, WalletView)>,
) -> ProfileView {
    ProfileView { wallets, ..p }
}

/// A profile with its starred references replaced.
pub open spec fn spec_profile_with_starred(
    p: ProfileView,
    starred: Seq<(PrincipalId, Seq<char>)>,
) -> ProfileView {
    ProfileView { starred, ..p }
}

/// A profile with its relations replaced.
pub open spec fn spec_profile_with_relations(
    p: ProfileView,
    relations: Seq<(PrincipalId, Seq<char>)>,
) -> ProfileView {
    ProfileView { relations, ..p }
}

/// A profile with its member identifier replaced.
pub open spec fn spec_profile_with_member(p: ProfileView, member: PrincipalId) -> ProfileView {
    ProfileView { member_identifier: member, ..p }
}

impl Store {
    /// Replaces the record at table index `idx`, its key unchanged; the
    /// rest of the table, and the store's invariant, are preserved.
    pub(crate) fn set_profile_at(&mut self, idx: usize, profile: Profile)
        requires
            old(self).inv(),
            idx < old(self)@.entries.len(),
        ensures
            final(self).inv(),
            final(self)@ == spec_with_profile(old(self)@, idx as int, profile@),
    {
        proof {
            assert(self@.entries[idx as int] == crate::profile_models::profile_entry_view(
                self.entries@[idx as int],
            ));
        }
        let key = self.entries[idx].0;
        self.entries.set(idx, (key, profile));
        proof {
            let s = old(self)@;
            assert forall|j: int|
                0 <= j < self@.entries.len() implies self@.entries[j] == s.entries.update(
                idx as int,
                (s.entries[idx as int].0, profile@),
            )[j] by {
                assert(self@.entries[j] == crate::profile_models::profile_entry_view(
                    self.entries@[j],
                ));
                if j != idx as int {
                    assert(self.entries@[j] == old(self).entries@[j]);
                    assert(s.entries[j] == crate::profile_models::profile_entry_view(
                        old(self).entries@[j],
                    ));
                }
            }
            assert(self@.entries =~= s.entries.update(
                idx as int,
                (s.entries[idx as int].0, profile@),
            ));
            assert(self@ == spec_with_profile(s, idx as int, profile@));
            assert forall|j: int|
                0 <= j < self@.entries.len() implies (#[trigger] self@.entries[j]).0
                == s.entries[j].0 by {}
            assert(store_inv(self@));
        }
    }

    /// The caller's record index and a working copy of the record, or the
    /// standard not-found error.
    pub(crate) fn caller_profile(&self, caller: PrincipalId, method_name: &str) -> (r: Result<
        (usize, Profile),
        ApiError,
    >)
        ensures
            match r {
                Ok((i, p)) => {
                    &&& i == find_principal_idx(self@.entries, caller)
                    &&& i < self@.entries.len()
                    &&& p@ == self@.entries[i as int].1
                },
                Err(e) => find_principal_idx(self@.entries, caller) == -1 && e.has_tag(
                    ApiErrorType::NotFound,
                    "PROFILE_NOT_FOUND"@,
                ),
            },
    {
        match self.find_by_principal(caller) {
            None => Err(
                api_error(
                    ApiErrorType::NotFound,
                    "PROFILE_NOT_FOUND",
                    "Profile not found",
                    self.name.as_str(),
                    method_name,
                    None,
                ),
            ),
            Some(i) => {
                proof {
                    assert(self@.entries[i as int] == crate::profile_models::profile_entry_view(
                        self.entries@[i as int],
                    ));
                }
                let p = self.entries[i].1.clone();
                Ok((i, p))
            },
        }
    }

    /// Adds (or overwrites) a wallet reference on the caller's profile,
    /// not primary; fails only when the caller has no record here.
    pub fn add_wallet(&mut self, caller: PrincipalId, wallet: &PostWallet) -> (r: Result<
        ProfileResponse,
        ApiError,
    >)
        requires
            old(self).inv(),
        ensures
            final(self).inv(),
            ({
                let s = old(self)@;
                let i = find_principal_idx(s.entries, caller);
                if i < 0 {
                    r matches Err(e) && e.has_tag(ApiErrorType::NotFound, "PROFILE_NOT_FOUND"@)
                        && final(self)@ == s
                } else {
                    let p = spec_profile_with_wallets(
                        s.entries[i].1,
                        spec_wallet_put(
                            s.entries[i].1.wallets,
                            wallet.principal,
                            WalletView { provider: wallet.provider@, is_primary: false },
                        ),
                    );
                    r matches Ok(resp) && final(self)@ == spec_with_profile(s, i, p) && resp@
                        == response_view_of(spec_identifier(s.canister, s.entries[i].0), p)
                }
            }),
    {
        let (idx, mut profile) = match self.caller_profile(caller, "add_wallet") {
            Err(e) => {
                return Err(e);
            },
            Ok(v) => v,
        };
        wallet_put(
            &mut profile.wallets,
            wallet.principal,
            Wallet { provider: wallet.provider.clone(), is_primary: false },
        );
        let key = self.entries[idx].0;
        let identifier = Identifier {
            canister: self.canister,
            sequence: key,
            kind: crate::store::profile_identifier_kind(),
        };
        let response = map_profile_to_profile_response(identifier, profile.clone());
        proof {
            assert(self@.entries[idx as int] == crate::profile_models::profile_entry_view(
                self.entries@[idx as int],
            ));
        }
        self.set_profile_at(idx, profile);
        Ok(response)
    }

    /// Records the member identifier the member service returned for the
    /// caller's freshly registered record; the registration flow's final
    /// step. Fails without mutating when the caller has no record here.
    pub fn set_member_identifier(&mut self, caller: PrincipalId, member: PrincipalId) -> (r:
        Result<ProfileResponse, ApiError>)
        requires
            old(self).inv(),
        ensures
            final(self).inv(),
            ({
                let s = old(self)@;
                let i = find_principal_idx(s.entries, caller);
                if i < 0 {
                    r matches Err(e) && e.has_tag(ApiErrorType::NotFound, "PROFILE_NOT_FOUND"@)
                        && final(self)@ == s
                } else {
                    let p = spec_profile_with_member(s.entries[i].1, member);
                    r matches Ok(resp) && final(self)@ == spec_with_profile(s, i, p) && resp@
                        == response_view_of(spec_identifier(s.canister, s.entries[i].0), p)
                }
            }),
    {
        let (idx, mut profile) = match self.caller_profile(caller, "set_member_identifier") {
            Err(e) => {
                return Err(e);
            },
            Ok(v) => v,
        };
        profile.member_identifier = member;
        let key = self.entries[idx].0;
        let identifier = Identifier {
            canister: self.canister,
            sequence: key,
            kind: crate::store::profile_identifier_kind(),
        };
        let response = map_profile_to_profile_response(identifier, profile.clone());
        proof {
            assert(self@.entries[idx as int] == crate::profile_models::profile_entry_view(
                self.entries@[idx as int],
            ));
        }
        self.set_profile_at(idx, profile);
        Ok(response)
    }

    /// Marks one of the caller's wallets as the only primary wallet;
    /// fails without mutating when the caller has no record or no such
    /// wallet.
    pub fn set_wallet_as_primary(&mut self, caller: PrincipalId, wallet_principal: PrincipalId)
        -> (r: Result<(), ()>)
        requires
            old(self).inv(),
        ensures
            final(self).inv(),
            ({
                let s = old(self)@;
                let i = find_principal_idx(s.entries, caller);
                if i < 0 {
                    r is Err && final(self)@ == s
                } else if wallet_key_idx(s.entries[i].1.wallets, wallet_principal) < 0 {
                    r is Err && final(self)@ == s
                } else {
                    let p = spec_profile_with_wallets(
                        s.entries[i].1,
                        spec_wallets_primary(s.entries[i].1.wallets, wallet_principal),
                    );
                    r is Ok && final(self)@ == spec_with_profile(s, i, p)
                }
            }),
    {
        let (idx, mut profile) = match self.caller_profile(caller, "set_wallet_as_primary") {
            Err(_) => {
                return Err(());
            },
            Ok(v) => v,
        };
        if wallet_find(&profile.wallets, wallet_principal).is_none() {
            return Err(());
        }
        wallet_set_primary(&mut profile.wallets, wallet_principal);
        self.set_profile_at(idx, profile);
        Ok(())
    }

    /// Removes a wallet reference from the caller's profile; fails
    /// without mutating when the caller has no record or no such wallet.
    pub fn remove_wallet(&mut self, caller: PrincipalId, wallet_principal: PrincipalId) -> (r:
        Result<ProfileResponse, ApiError>)
        requires
            old(self).inv(),
        ensures
            final(self).inv(),
            ({
                let s = old(self)@;
                let i = find_principal_idx(s.entries, caller);
                if i < 0 {
                    r matches Err(e) && e.has_tag(ApiErrorType::NotFound, "PROFILE_NOT_FOUND"@)
                        && final(self)@ == s
                } else if wallet_key_idx(s.entries[i].1.wallets, wallet_principal) < 0 {
                    r matches Err(e) && e.has_tag(ApiErrorType::NotFound, "WALLET_NOT_FOUND"@)
                        && final(self)@ == s
                } else {
                    let p = spec_profile_with_wallets(
                        s.entries[i].1,
                        spec_wallet_remove(s.entries[i].1.wallets, wallet_principal),
                    );
                    r matches Ok(resp) && final(self)@ == spec_with_profile(s, i, p) && resp@
                        == response_view_of(spec_identifier(s.canister, s.entries[i].0), p)
                }
            }),
    {
        let (idx, mut profile) = match self.caller_profile(caller, "remove_wallet") {
            Err(e) => {
                return Err(e);
            },
            Ok(v) => v,
        };
        if wallet_find(&profile.wallets, wallet_principal).is_none() {
            return Err(
                api_error(
                    ApiErrorType::NotFound,
                    "WALLET_NOT_FOUND",
                    "Wallet not found",
                    self.name.as_str(),
                    "remove_wallet",
                    None,
                ),
            );
        }
        wallet_remove(&mut profile.wallets, wallet_principal);
        let key = self.entries[idx].0;
        let identifier = Identifier {
            canister: self.canister,
            sequence: key,
            kind: crate::store::profile_identifier_kind(),
        };
        let response = map_profile_to_profile_response(identifier, profile.clone());
        proof {
            assert(self@.entries[idx as int] == crate::profile_models::profile_entry_view(
                self.entries@[idx as int],
            ));
        }
        self.set_profile_at(idx, profile);
        Ok(response)
    }
}

// ---------------------------------------------------------------------
// starred references and relations
// ---------------------------------------------------------------------
/// A kind tag that may be starred: a group, task or event reference.
pub open spec fn valid_starred_kind(k: Seq<char>) -> bool {
    k == "grp"@ || k == "tsk"@ || k == "evt"@
}

/// A profile with one policy approval replaced.
pub open spec fn spec_profile_with_conduct(p: ProfileView, d: DocumentDetails) -> ProfileView {
    ProfileView { code_of_conduct: d, ..p }
}

/// A profile with its privacy policy approval replaced.
pub open spec fn spec_profile_with_privacy_policy(p: ProfileView, d: DocumentDetails) -> ProfileView {
    ProfileView { privacy_policy: Some(d), ..p }
}

/// A profile with its terms-of-service approval replaced.
pub open spec fn spec_profile_with_terms(p: ProfileView, d: DocumentDetails) -> ProfileView {
    ProfileView { terms_of_service: Some(d), ..p }
}

impl Store {
    /// Stars a group, task or event reference on the caller's profile,
    /// keyed by the reference's handle and tagged with its kind; any other
    /// kind is rejected before the profile lookup.
    pub fn add_starred(
        &mut self,
        caller: PrincipalId,
        starred_identifier: PrincipalId,
        kind: &String,
    ) -> (r: Result<ProfileResponse, ApiError>)
        requires
            old(self).inv(),
        ensures
            final(self).inv(),
            ({
                let s = old(self)@;
                let i = find_principal_idx(s.entries, caller);
                if !valid_starred_kind(kind@) {
                    r matches Err(e) && e.has_tag(ApiErrorType::NotFound, "INVALID TYPE"@)
                        && final(self)@ == s
                } else if i < 0 {
                    r matches Err(e) && e.has_tag(ApiErrorType::NotFound, "PROFILE_NOT_FOUND"@)
                        && final(self)@ == s
                } else {
                    let p = spec_profile_with_starred(
                        s.entries[i].1,
                        spec_tag_put(s.entries[i].1.starred, starred_identifier, kind@),
                    );
                    r matches Ok(resp) && final(self)@ == spec_with_profile(s, i, p) && resp@
                        == response_view_of(spec_identifier(s.canister, s.entries[i].0), p)
                }
            }),
    {
        let is_grp = *kind == "grp".to_owned();
        let is_tsk = *kind == "tsk".to_owned();
        let is_evt = *kind == "evt".to_owned();
        if !(is_grp || is_tsk || is_evt) {
            return Err(
                api_error(
                    ApiErrorType::NotFound,
                    "INVALID TYPE",
                    "This kind of reference cannot be starred",
                    self.name.as_str(),
                    "add_starred",
                    None,
                ),
            );
        }
        let (idx, mut profile) = match self.caller_profile(caller, "add_starred") {
            Err(e) => {
                return Err(e);
            },
            Ok(v) => v,
        };
        tag_put(&mut profile.starred, starred_identifier, kind.clone());
        let key = self.entries[idx].0;
        let identifier = Identifier {
            canister: self.canister,
            sequence: key,
            kind: crate::store::profile_identifier_kind(),
        };
        let response = map_profile_to_profile_response(identifier, profile.clone());
        proof {
            assert(self@.entries[idx as int] == crate::profile_models::profile_entry_view(
                self.entries@[idx as int],
            ));
        }
        self.set_profile_at(idx, profile);
        Ok(response)
    }

    /// Removes a starred reference from the caller's profile; fails
    /// without mutating when the caller has no record or the reference is
    /// not starred.
    pub fn remove_starred(&mut self, caller: PrincipalId, starred_identifier: PrincipalId) -> (r:
        Result<ProfileResponse, ApiError>)
        requires
            old(self).inv(),
        ensures
            final(self).inv(),
            ({
                let s = old(self)@;
                let i = find_principal_idx(s.entries, caller);
                if i < 0 {
                    r matches Err(e) && e.has_tag(ApiErrorType::NotFound, "PROFILE_NOT_FOUND"@)
                        && final(self)@ == s
                } else if tag_key_idx(s.entries[i].1.starred, starred_identifier) < 0 {
                    r matches Err(e) && e.has_tag(ApiErrorType::NotFound, "STARRED_NOT_FOUND"@)
                        && final(self)@ == s
                } else {
                    let p = spec_profile_with_starred(
                        s.entries[i].1,
                        spec_tag_remove(s.entries[i].1.starred, starred_identifier),
                    );
                    r matches Ok(resp) && final(self)@ == spec_with_profile(s, i, p) && resp@
                        == response_view_of(spec_identifier(s.canister, s.entries[i].0), p)
                }
            }),
    {
        let (idx, mut profile) = match self.caller_profile(caller, "remove_starred") {
            Err(e) => {
                return Err(e);
            },
            Ok(v) => v,
        };
        if tag_find(&profile.starred, starred_identifier).is_none() {
            return Err(
                api_error(
                    ApiErrorType::NotFound,
                    "STARRED_NOT_FOUND",
                    "Starred identifier not found",
                    self.name.as_str(),
                    "remove_starred",
                    None,
                ),
            );
        }
        tag_remove(&mut profile.starred, starred_identifier);
        let key = self.entries[idx].0;
        let identifier = Identifier {
            canister: self.canister,
            sequence: key,
            kind: crate::store::profile_identifier_kind(),
        };
        let response = map_profile_to_profile_response(identifier, profile.clone());
        proof {
            assert(self@.entries[idx as int] == crate::profile_models::profile_entry_view(
                self.entries@[idx as int],
            ));
        }
        self.set_profile_at(idx, profile);
        Ok(response)
    }

    /// The caller's starred references of the given kind, in storage
    /// order; a caller without a record gets the empty list.
    pub fn get_starred(&self, caller: PrincipalId, kind: &String) -> (r: Vec<PrincipalId>)
        ensures
            ({
                let i = find_principal_idx(self@.entries, caller);
                if i < 0 {
                    r@.len() == 0
                } else {
                    r@ == spec_tag_keys_with(self@.entries[i].1.starred, kind@)
                }
            }),
    {
        match self.find_by_principal(caller) {
            None => Vec::new(),
            Some(i) => {
                proof {
                    assert(self@.entries[i as int] == crate::profile_models::profile_entry_view(
                        self.entries@[i as int],
                    ));
                }
                tag_keys_with(&self.entries[i].1.starred, kind)
            },
        }
    }

    /// Records a relation of the given type towards a profile reference;
    /// only references of the store's own record kind are accepted.
    pub fn add_relation(
        &mut self,
        caller: PrincipalId,
        relation_type: RelationType,
        relation_identifier: PrincipalId,
        relation_kind: &String,
    ) -> (r: Result<ProfileResponse, ApiError>)
        requires
            old(self).inv(),
        ensures
            final(self).inv(),
            ({
                let s = old(self)@;
                let i = find_principal_idx(s.entries, caller);
                if kind_seq_ne(relation_kind@) {
                    r matches Err(e) && e.has_tag(ApiErrorType::NotFound, "INVALID TYPE"@)
                        && final(self)@ == s
                } else if i < 0 {
                    r matches Err(e) && e.has_tag(ApiErrorType::NotFound, "PROFILE_NOT_FOUND"@)
                        && final(self)@ == s
                } else {
                    let p = spec_profile_with_relations(
                        s.entries[i].1,
                        spec_tag_put(
                            s.entries[i].1.relations,
                            relation_identifier,
                            relation_type.spec_text(),
                        ),
                    );
                    r matches Ok(resp) && final(self)@ == spec_with_profile(s, i, p) && resp@
                        == response_view_of(spec_identifier(s.canister, s.entries[i].0), p)
                }
            }),
    {
        if !(*relation_kind == crate::store::profile_identifier_kind()) {
            return Err(
                api_error(
                    ApiErrorType::NotFound,
                    "INVALID TYPE",
                    "Only profile references can carry a relation",
                    self.name.as_str(),
                    "add_relation",
                    None,
                ),
            );
        }
        let (idx, mut profile) = match self.caller_profile(caller, "add_relation") {
            Err(e) => {
                return Err(e);
            },
            Ok(v) => v,
        };
        tag_put(&mut profile.relations, relation_identifier, relation_type.to_text());
        let key = self.entries[idx].0;
        let identifier = Identifier {
            canister: self.canister,
            sequence: key,
            kind: crate::store::profile_identifier_kind(),
        };
        let response = map_profile_to_profile_response(identifier, profile.clone());
        proof {
            assert(self@.entries[idx as int] == crate::profile_models::profile_entry_view(
                self.entries@[idx as int],
            ));
        }
        self.set_profile_at(idx, profile);
        Ok(response)
    }

    /// The caller's relations of the given type, in storage order; a
    /// caller without a record gets the empty list.
    pub fn get_relations(&self, caller: PrincipalId, relation_type: RelationType) -> (r: Vec<
        PrincipalId,
    >)
        ensures
            ({
                let i = find_principal_idx(self@.entries, caller);
                if i < 0 {
                    r@.len() == 0
                } else {
                    r@ == spec_tag_keys_with(
                        self@.entries[i].1.relations,
                        relation_type.spec_text(),
                    )
                }
            }),
    {
        match self.find_by_principal(caller) {
            None => Vec::new(),
            Some(i) => {
                proof {
                    assert(self@.entries[i as int] == crate::profile_models::profile_entry_view(
                        self.entries@[i as int],
                    ));
                }
                tag_keys_with(&self.entries[i].1.relations, &relation_type.to_text())
            },
        }
    }

    /// Records a blocked relation towards another user.
    pub fn block_user(&mut self, caller: PrincipalId, to_block: PrincipalId) -> (r: Result<
        ProfileResponse,
        ApiError,
    >)
        requires
            old(self).inv(),
        ensures
            final(self).inv(),
            ({
                let s = old(self)@;
                let i = find_principal_idx(s.entries, caller);
                if i < 0 {
                    r matches Err(e) && e.has_tag(ApiErrorType::NotFound, "PROFILE_NOT_FOUND"@)
                        && final(self)@ == s
                } else {
                    let p = spec_profile_with_relations(
                        s.entries[i].1,
                        spec_tag_put(
                            s.entries[i].1.relations,
                            to_block,
                            RelationType::Blocked.spec_text(),
                        ),
                    );
                    r matches Ok(resp) && final(self)@ == spec_with_profile(s, i, p) && resp@
                        == response_view_of(spec_identifier(s.canister, s.entries[i].0), p)
                }
            }),
    {
        let (idx, mut profile) = match self.caller_profile(caller, "block_user") {
            Err(e) => {
                return Err(e);
            },
            Ok(v) => v,
        };
        tag_put(&mut profile.relations, to_block, RelationType::Blocked.to_text());
        let key = self.entries[idx].0;
        let identifier = Identifier {
            canister: self.canister,
            sequence: key,
            kind: crate::store::profile_identifier_kind(),
        };
        let response = map_profile_to_profile_response(identifier, profile.clone());
        proof {
            assert(self@.entries[idx as int] == crate::profile_models::profile_entry_view(
                self.entries@[idx as int],
            ));
        }
        self.set_profile_at(idx, profile);
        Ok(response)
    }

    /// Removes any relation entry towards another user.
    pub fn unblock_user(&mut self, caller: PrincipalId, to_unblock: PrincipalId) -> (r: Result<
        ProfileResponse,
        ApiError,
    >)
        requires
            old(self).inv(),
        ensures
            final(self).inv(),
            ({
                let s = old(self)@;
                let i = find_principal_idx(s.entries, caller);
                if i < 0 {
                    r matches Err(e) && e.has_tag(ApiErrorType::NotFound, "PROFILE_NOT_FOUND"@)
                        && final(self)@ == s
                } else {
                    let p = spec_profile_with_relations(
                        s.entries[i].1,
                        spec_tag_remove(s.entries[i].1.relations, to_unblock),
                    );
                    r matches Ok(resp) && final(self)@ == spec_with_profile(s, i, p) && resp@
                        == response_view_of(spec_identifier(s.canister, s.entries[i].0), p)
                }
            }),
    {
        let (idx, mut profile) = match self.caller_profile(caller, "block_user") {
            Err(e) => {
                return Err(e);
            },
            Ok(v) => v,
        };
        tag_remove(&mut profile.relations, to_unblock);
        let key = self.entries[idx].0;
        let identifier = Identifier {
            canister: self.canister,
            sequence: key,
            kind: crate::store::profile_identifier_kind(),
        };
        let response = map_profile_to_profile_response(identifier, profile.clone());
        proof {
            assert(self@.entries[idx as int] == crate::profile_models::profile_entry_view(
                self.entries@[idx as int],
            ));
        }
        self.set_profile_at(idx, profile);
        Ok(response)
    }

    /// Clears every relation from the caller's profile; false when the
    /// caller has no record here.
    pub fn clear_relations(&mut self, caller: PrincipalId) -> (r: bool)
        requires
            old(self).inv(),
        ensures
            final(self).inv(),
            ({
                let s = old(self)@;
                let i = find_principal_idx(s.entries, caller);
                if i < 0 {
                    !r && final(self)@ == s
                } else {
                    let p = spec_profile_with_relations(s.entries[i].1, Seq::empty());
                    r && final(self)@ == spec_with_profile(s, i, p)
                }
            }),
    {
        let (idx, mut profile) = match self.caller_profile(caller, "clear_relations") {
            Err(_) => {
                return false;
            },
            Ok(v) => v,
        };
        profile.relations = Vec::new();
        proof {
            assert(tag_entries_view(profile.relations@) =~= Seq::<
                (PrincipalId, Seq<char>),
            >::empty());
        }
        self.set_profile_at(idx, profile);
        true
    }

    /// Records the caller's approval of a code-of-conduct version.
    pub fn approve_code_of_conduct(&mut self, caller: PrincipalId, version: u64, now: u64) -> (r:
        Result<bool, ApiError>)
        requires
            old(self).inv(),
        ensures
            final(self).inv(),
            ({
                let s = old(self)@;
                let i = find_principal_idx(s.entries, caller);
                if i < 0 {
                    r matches Err(e) && e.has_tag(ApiErrorType::NotFound, "PROFILE_NOT_FOUND"@)
                        && final(self)@ == s
                } else {
                    let p = spec_profile_with_conduct(
                        s.entries[i].1,
                        DocumentDetails { approved_version: version, approved_date: now },
                    );
                    r == Ok::<bool, ApiError>(true) && final(self)@ == spec_with_profile(s, i, p)
                }
            }),
    {
        let (idx, mut profile) = match self.caller_profile(caller, "approve_code_of_conduct") {
            Err(e) => {
                return Err(e);
            },
            Ok(v) => v,
        };
        profile.code_of_conduct = DocumentDetails { approved_version: version, approved_date: now };
        self.set_profile_at(idx, profile);
        Ok(true)
    }

    /// Records the caller's approval of a privacy policy version.
    pub fn approve_privacy_policy(&mut self, caller: PrincipalId, version: u64, now: u64) -> (r:
        Result<bool, ApiError>)
        requires
            old(self).inv(),
        ensures
            final(self).inv(),
            ({
                let s = old(self)@;
                let i = find_principal_idx(s.entries, caller);
                if i < 0 {
                    r matches Err(e) && e.has_tag(ApiErrorType::NotFound, "PROFILE_NOT_FOUND"@)
                        && final(self)@ == s
                } else {
                    let p = spec_profile_with_privacy_policy(
                        s.entries[i].1,
                        DocumentDetails { approved_version: version, approved_date: now },
                    );
                    r == Ok::<bool, ApiError>(true) && final(self)@ == spec_with_profile(s, i, p)
                }
            }),
    {
        let (idx, mut profile) = match self.caller_profile(caller, "approve_privacy_policy") {
            Err(e) => {
                return Err(e);
            },
            Ok(v) => v,
        };
        profile.privacy_policy = Some(
            DocumentDetails { approved_version: version, approved_date: now },
        );
        self.set_profile_at(idx, profile);
        Ok(true)
    }

    /// Records the caller's approval of a terms-of-service version.
    pub fn approve_terms_of_service(&mut self, caller: PrincipalId, version: u64, now: u64) -> (r:
        Result<bool, ApiError>)
        requires
            old(self).inv(),
        ensures
            final(self).inv(),
            ({
                let s = old(self)@;
                let i = find_principal_idx(s.entries, caller);
                if i < 0 {
                    r matches Err(e) && e.has_tag(ApiErrorType::NotFound, "PROFILE_NOT_FOUND"@)
                        && final(self)@ == s
                } else {
                    let p = spec_profile_with_terms(
                        s.entries[i].1,
                        DocumentDetails { approved_version: version, approved_date: now },
                    );
                    r == Ok::<bool, ApiError>(true) && final(self)@ == spec_with_profile(s, i, p)
                }
            }),
    {
        let (idx, mut profile) = match self.caller_profile(caller, "approve_terms_of_service") {
            Err(e) => {
                return Err(e);
            },
            Ok(v) => v,
        };
        profile.terms_of_service = Some(
            DocumentDetails { approved_version: version, approved_date: now },
        );
        self.set_profile_at(idx, profile);
        Ok(true)
    }
}

/// The kind tag differs from the store's own record kind.
pub open spec fn kind_seq_ne(k: Seq<char>) -> bool {
    k != "pfe"@
}

} // verus!
