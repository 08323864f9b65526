//! The per-shard record store.
//!
//! A `Store` holds this shard's record table keyed by locally allocated
//! sequence numbers, allocates identifiers, and enforces the shard's
//! capacity ceiling: once the table holds `capacity` records, every further
//! `add_profile` fails with a capacity error and the table is unchanged.

use vstd::prelude::*;
use vstd::pervasive::VecAdditionalExecFns;
use crate::errors::ApiError;
use crate::errors::ApiErrorType;
use crate::errors::api_error;
use crate::profile_models::ApplicationRole;
use crate::profile_models::Asset;
use crate::profile_models::AssetView;
use crate::profile_models::DocumentDetails;
use crate::profile_models::FriendRequest;
use crate::profile_models::FriendRequestView;
use crate::profile_models::Identifier;
use crate::profile_models::IdentifierView;
use crate::profile_models::PostProfile;
use crate::profile_models::PrincipalId;
use crate::profile_models::Profile;
use crate::profile_models::ProfileResponse;
use crate::profile_models::ProfileResponseView;
use crate::profile_models::ProfileView;
use crate::profile_models::UpdateProfile;
use crate::profile_models::WalletResponse;
use crate::profile_models::WalletResponseView;
use crate::profile_models::WalletView;
use crate::profile_models::profile_entries_view;
use crate::profile_models::request_entries_view;
use crate::validation::valid_post_profile_data;
use crate::validation::valid_update_profile_data;
use crate::validation::validate_post_profile;
use crate::validation::validate_update_profile;

verus! {

/// The kind tag under which this store's identifiers are minted.
pub fn profile_identifier_kind() -> (r: String)
    ensures
        r@ == "pfe"@,
{
    "pfe".to_owned()
}

/// The per-shard record store.
pub struct Store {
    pub name: String,
    pub canister: PrincipalId,
    pub capacity: u64,
    pub current_entry_id: u64,
    pub entries: Vec<(u64, Profile)>,
    pub friend_requests: Vec<(u64, FriendRequest)>,
}

pub ghost struct StoreView {
    pub name: Seq<char>,
    pub canister: PrincipalId,
    pub capacity: u64,
    pub current_entry_id: u64,
    pub entries: Seq<(u64, ProfileView)>,
    pub friend_requests: Seq<(u64, FriendRequestView)>,
}

impl View for Store {
    type V = StoreView;

    open spec fn view(&self) -> StoreView {
        StoreView {
            name: self.name@,
            canister: self.canister,
            capacity: self.capacity,
            current_entry_id: self.current_entry_id,
            entries: profile_entries_view(self.entries@),
            friend_requests: request_entries_view(self.friend_requests@),
        }
    }
}

/// Sequence-number keys appear in strictly increasing order.
pub open spec fn keys_increasing(entries: Seq<(u64, ProfileView)>) -> bool {
    forall|i: int, j: int| 0 <= i < j < entries.len() ==> entries[i].0 < entries[j].0
}

/// Every sequence-number key lies below the allocation counter.
pub open spec fn keys_below(entries: Seq<(u64, ProfileView)>, bound: u64) -> bool {
    forall|i: int| 0 <= i < entries.len() ==> (#[trigger] entries[i]).0 < bound
}

/// Friend request ids appear in strictly increasing order.
pub open spec fn request_keys_increasing(entries: Seq<(u64, FriendRequestView)>) -> bool {
    forall|i: int, j: int| 0 <= i < j < entries.len() ==> entries[i].0 < entries[j].0
}

/// The store's invariant: the table never exceeds the shard's capacity,
/// sequence numbers only increase and are never reused, and request ids
/// are unique and increasing.
pub open spec fn store_inv(s: StoreView) -> bool {
    &&& s.entries.len() <= s.capacity
    &&& keys_increasing(s.entries)
    &&& keys_below(s.entries, s.current_entry_id)
    &&& request_keys_increasing(s.friend_requests)
}

/// Index of the first record owned by `p`, or -1.
pub open spec fn find_principal_idx(entries: Seq<(u64, ProfileView)>, p: PrincipalId) -> int
    decreases entries.len(),
{
    if entries.len() == 0 {
        -1
    } else if entries[0].1.principal == p {
        0
    } else {
        let r = find_principal_idx(entries.skip(1), p);
        if r < 0 {
            -1
        } else {
            r + 1
        }
    }
}

/// Some record is owned by `p`.
pub open spec fn has_principal(entries: Seq<(u64, ProfileView)>, p: PrincipalId) -> bool {
    find_principal_idx(entries, p) >= 0
}

/// `find_principal_idx` names the first match, or -1 when none exists.
pub proof fn lemma_find_principal_idx(entries: Seq<(u64, ProfileView)>, p: PrincipalId)
    ensures
        find_principal_idx(entries, p) == -1 ==> forall|i: int|
            0 <= i < entries.len() ==> (#[trigger] entries[i]).1.principal != p,
        find_principal_idx(entries, p) >= 0 ==> {
            let r = find_principal_idx(entries, p);
            &&& r < entries.len()
            &&& entries[r].1.principal == p
            &&& forall|i: int| 0 <= i < r ==> (#[trigger] entries[i]).1.principal != p
        },
    decreases entries.len(),
{
    if entries.len() == 0 {
    } else if entries[0].1.principal == p {
    } else {
        lemma_find_principal_idx(entries.skip(1), p);
        assert forall|i: int| 0 <= i < entries.len() implies (#[trigger] entries[i]).1
            == entries.skip(1)[i - 1].1 || i == 0 by {
            if i > 0 {
                assert(entries.skip(1)[i - 1] == entries[i]);
            }
        }
    }
}

/// Index of the record with sequence key `k`, or -1.
pub open spec fn find_key_idx(entries: Seq<(u64, ProfileView)>, k: u64) -> int
    decreases entries.len(),
{
    if entries.len() == 0 {
        -1
    } else if entries[0].0 == k {
        0
    } else {
        let r = find_key_idx(entries.skip(1), k);
        if r < 0 {
            -1
        } else {
            r + 1
        }
    }
}

/// `find_key_idx` names the first match, or -1 when none exists.
pub proof fn lemma_find_key_idx(entries: Seq<(u64, ProfileView)>, k: u64)
    ensures
        find_key_idx(entries, k) == -1 ==> forall|i: int|
            0 <= i < entries.len() ==> (#[trigger] entries[i]).0 != k,
        find_key_idx(entries, k) >= 0 ==> {
            let r = find_key_idx(entries, k);
            &&& r < entries.len()
            &&& entries[r].0 == k
            &&& forall|i: int| 0 <= i < r ==> (#[trigger] entries[i]).0 != k
        },
    decreases entries.len(),
{
    if entries.len() == 0 {
    } else if entries[0].0 == k {
    } else {
        lemma_find_key_idx(entries.skip(1), k);
        assert forall|i: int| 1 <= i < entries.len() implies (#[trigger] entries[i])
            == entries.skip(1)[i - 1] by {
            assert(entries.skip(1)[i - 1] == entries[i]);
        }
    }
}

/// Some record has username `u`.
pub open spec fn has_username(entries: Seq<(u64, ProfileView)>, u: Seq<char>) -> bool {
    exists|i: int| 0 <= i < entries.len() && (#[trigger] entries[i]).1.username == u
}

/// Some record has email `e`.
pub open spec fn has_email(entries: Seq<(u64, ProfileView)>, e: Seq<char>) -> bool {
    exists|i: int| 0 <= i < entries.len() && (#[trigger] entries[i]).1.email == e
}

/// The profile a fresh registration stores: the submitted names and
/// privacy, every other field empty, both timestamps at `now`.
pub open spec fn spec_new_profile(caller: PrincipalId, post: PostProfile, now: u64) -> ProfileView {
    ProfileView {
        principal: caller,
        member_identifier: PrincipalId { id: 0 },
        username: post.username@,
        display_name: post.display_name@,
        application_role: ApplicationRole::Member,
        first_name: post.first_name@,
        last_name: post.last_name@,
        privacy: post.privacy,
        about: Seq::empty(),
        email: Seq::empty(),
        date_of_birth: 0,
        city: Seq::empty(),
        state_or_province: Seq::empty(),
        country: Seq::empty(),
        profile_image: AssetView::Empty,
        banner_image: AssetView::Empty,
        skills: Seq::empty(),
        interests: Seq::empty(),
        causes: Seq::empty(),
        website: Seq::empty(),
        code_of_conduct: DocumentDetails { approved_version: 0, approved_date: 0 },
        privacy_policy: None,
        terms_of_service: None,
        wallets: Seq::empty(),
        starred: Seq::empty(),
        relations: Seq::empty(),
        extra: post.extra@,
        updated_on: now,
        created_on: now,
    }
}

/// The profile after an accepted edit: the submitted fields replace the
/// stored ones, identity and history fields stay, `updated_on` is `now`.
pub open spec fn spec_updated_profile(
    old_p: ProfileView,
    u: UpdateProfile,
    email: Seq<char>,
    now: u64,
) -> ProfileView {
    ProfileView {
        principal: old_p.principal,
        member_identifier: old_p.member_identifier,
        username: old_p.username,
        display_name: u.display_name@,
        application_role: old_p.application_role,
        first_name: u.first_name@,
        last_name: u.last_name@,
        privacy: u.privacy,
        about: u.about@,
        email: email,
        date_of_birth: u.date_of_birth,
        city: u.city@,
        state_or_province: u.state_or_province@,
        country: u.country@,
        profile_image: u.profile_image@,
        banner_image: u.banner_image@,
        skills: u.skills@,
        interests: u.interests@,
        causes: u.causes@,
        website: u.website@,
        code_of_conduct: old_p.code_of_conduct,
        privacy_policy: old_p.privacy_policy,
        terms_of_service: old_p.terms_of_service,
        wallets: old_p.wallets,
        starred: old_p.starred,
        relations: old_p.relations,
        extra: u.extra@,
        updated_on: now,
        created_on: old_p.created_on,
    }
}

/// Wallet responses derived from a profile's keyed wallet list, in order.
pub open spec fn wallet_responses_of(wallets: Seq<(PrincipalId, WalletView)>) -> Seq<
    WalletResponseView,
> {
    wallets.map_values(
        |e: (PrincipalId, WalletView)|
            WalletResponseView { provider: e.1.provider, principal: e.0, is_primary: e.1.is_primary },
    )
}

/// The response a record is returned as, under its identifier.
pub open spec fn response_view_of(id: IdentifierView, p: ProfileView) -> ProfileResponseView {
    ProfileResponseView {
        identifier: id,
        principal: p.principal,
        member_identifier: p.member_identifier,
        username: p.username,
        display_name: p.display_name,
        application_role: p.application_role,
        first_name: p.first_name,
        last_name: p.last_name,
        privacy: p.privacy,
        about: p.about,
        email: p.email,
        date_of_birth: p.date_of_birth,
        city: p.city,
        state_or_province: p.state_or_province,
        country: p.country,
        profile_image: p.profile_image,
        banner_image: p.banner_image,
        skills: p.skills,
        interests: p.interests,
        causes: p.causes,
        website: p.website,
        code_of_conduct: p.code_of_conduct,
        privacy_policy: p.privacy_policy,
        terms_of_service: p.terms_of_service,
        wallets: wallet_responses_of(p.wallets),
        extra: p.extra,
        updated_on: p.updated_on,
        created_on: p.created_on,
    }
}

/// A shard never exceeds its declared capacity: under the store's
/// invariant — which every constructor establishes and every operation
/// preserves — the record table holds at most `capacity` records, however
/// many writes were attempted.
pub proof fn lemma_capacity_never_exceeded(s: StoreView)
    requires
        store_inv(s),
    ensures
        s.entries.len() <= s.capacity,
{
}

/// The identifier minted for sequence number `seq_no` on shard `canister`.
pub open spec fn spec_identifier(canister: PrincipalId, seq_no: u64) -> IdentifierView {
    IdentifierView { canister, sequence: seq_no, kind: "pfe"@ }
}

impl Store {
    /// The store's invariant, over its view.
    pub open spec fn inv(&self) -> bool {
        store_inv(self@)
    }

    /// Creates an empty store for one shard.
    pub fn new(name: String, canister: PrincipalId, capacity: u64) -> (r: Store)
        ensures
            r.inv(),
            r@.name == name@,
            r@.canister == canister,
            r@.capacity == capacity,
            r@.current_entry_id == 0,
            r@.entries.len() == 0,
            r@.friend_requests.len() == 0,
    {
        let r = Store {
            name,
            canister,
            capacity,
            current_entry_id: 0,
            entries: Vec::new(),
            friend_requests: Vec::new(),
        };
        proof {
            assert(r@.entries =~= Seq::<(u64, ProfileView)>::empty());
            assert(r@.friend_requests =~= Seq::<(u64, FriendRequestView)>::empty());
        }
        r
    }

    /// Finds the table index of the record owned by `p`, mirroring
    /// `find_principal_idx`.
    pub(crate) fn find_by_principal(&self, p: PrincipalId) -> (r: Option<usize>)
        ensures
            match r {
                Some(i) => i == find_principal_idx(self@.entries, p) && i < self@.entries.len()
                    && self@.entries[i as int].1.principal == p,
                None => find_principal_idx(self@.entries, p) == -1,
            },
    {
        proof {
            lemma_find_principal_idx(self@.entries, p);
        }
        let mut i: usize = 0;
        while i < self.entries.len()
            invariant
                i <= self@.entries.len(),
                self@.entries.len() == self.entries@.len(),
                forall|k: int|
                    0 <= k < i as int ==> (#[trigger] self@.entries[k]).1.principal != p,
            decreases self.entries.len() - i,
        {
            proof {
                assert(self@.entries[i as int] == crate::profile_models::profile_entry_view(
                    self.entries@[i as int],
                ));
            }
            if self.entries[i].1.principal == p {
                proof {
                    lemma_find_principal_idx(self@.entries, p);
                    assert(self@.entries[i as int].1.principal == p);
                    let r = find_principal_idx(self@.entries, p);
                    if r == -1 {
                        assert(self@.entries[i as int].1.principal != p);
                    }
                    if r < i as int {
                        assert(self@.entries[r].1.principal != p);
                    }
                    if r > i as int {
                        assert(self@.entries[i as int].1.principal != p);
                    }
                }
                return Some(i);
            }
            i = i + 1;
        }
        proof {
            let r = find_principal_idx(self@.entries, p);
            if r >= 0 {
                assert(self@.entries[r].1.principal != p);
            }
        }
        None
    }

    /// Finds the table index of the record with sequence key `k`,
    /// mirroring `find_key_idx`.
    pub(crate) fn find_by_key(&self, k: u64) -> (r: Option<usize>)
        ensures
            match r {
                Some(i) => i == find_key_idx(self@.entries, k) && i < self@.entries.len()
                    && self@.entries[i as int].0 == k,
                None => find_key_idx(self@.entries, k) == -1,
            },
    {
        proof {
            lemma_find_key_idx(self@.entries, k);
        }
        let mut i: usize = 0;
        while i < self.entries.len()
            invariant
                i <= self@.entries.len(),
                self@.entries.len() == self.entries@.len(),
                forall|j: int| 0 <= j < i as int ==> (#[trigger] self@.entries[j]).0 != k,
            decreases self.entries.len() - i,
        {
            proof {
                assert(self@.entries[i as int] == crate::profile_models::profile_entry_view(
                    self.entries@[i as int],
                ));
            }
            if self.entries[i].0 == k {
                proof {
                    lemma_find_key_idx(self@.entries, k);
                    assert(self@.entries[i as int].0 == k);
                    let r = find_key_idx(self@.entries, k);
                    if r == -1 {
                        assert(self@.entries[i as int].0 != k);
                    }
                    if r < i as int {
                        assert(self@.entries[r].0 != k);
                    }
                    if r > i as int {
                        assert(self@.entries[i as int].0 != k);
                    }
                }
                return Some(i);
            }
            i = i + 1;
        }
        proof {
            let r = find_key_idx(self@.entries, k);
            if r >= 0 {
                assert(self@.entries[r].0 != k);
            }
        }
        None
    }

    /// Whether some record holds the given username.
    fn has_user_name(&self, username: &String) -> (r: bool)
        ensures
            r == has_username(self@.entries, username@),
    {
        let mut i: usize = 0;
        while i < self.entries.len()
            invariant
                i <= self@.entries.len(),
                self@.entries.len() == self.entries@.len(),
                forall|k: int|
                    0 <= k < i as int ==> (#[trigger] self@.entries[k]).1.username != username@,
            decreases self.entries.len() - i,
        {
            proof {
                assert(self@.entries[i as int] == crate::profile_models::profile_entry_view(
                    self.entries@[i as int],
                ));
            }
            if self.entries[i].1.username == *username {
                proof {
                    assert(self@.entries[i as int].1.username == username@);
                }
                return true;
            }
            i = i + 1;
        }
        false
    }

    /// Whether some record holds the given email.
    fn has_email_addr(&self, email: &String) -> (r: bool)
        ensures
            r == has_email(self@.entries, email@),
    {
        let mut i: usize = 0;
        while i < self.entries.len()
            invariant
                i <= self@.entries.len(),
                self@.entries.len() == self.entries@.len(),
                forall|k: int|
                    0 <= k < i as int ==> (#[trigger] self@.entries[k]).1.email != email@,
            decreases self.entries.len() - i,
        {
            proof {
                assert(self@.entries[i as int] == crate::profile_models::profile_entry_view(
                    self.entries@[i as int],
                ));
            }
            if self.entries[i].1.email == *email {
                proof {
                    assert(self@.entries[i as int].1.email == email@);
                }
                return true;
            }
            i = i + 1;
        }
        false
    }

    /// Mints the identifier for sequence number `seq_no` on this shard.
    fn make_identifier(&self, seq_no: u64) -> (r: Identifier)
        ensures
            r@ == spec_identifier(self@.canister, seq_no),
    {
        Identifier { canister: self.canister, sequence: seq_no, kind: profile_identifier_kind() }
    }

    /// Registers a new profile. Fails without mutating when the caller is
    /// already registered, the submission is invalid, the username is
    /// taken, or the shard is at capacity; otherwise allocates the next
    /// sequence number and appends the record.
    pub fn add_profile(&mut self, caller: PrincipalId, post_profile: &PostProfile, now: u64) -> (r:
        Result<ProfileResponse, ApiError>)
        requires
            old(self).inv(),
            old(self)@.current_entry_id < u64::MAX,
        ensures
            final(self).inv(),
            ({
                let s = old(self)@;
                let p = spec_new_profile(caller, *post_profile, now);
                if has_principal(s.entries, caller) {
                    r matches Err(e) && e.has_tag(ApiErrorType::BadRequest, "ALREADY_REGISTERED"@)
                        && final(self)@ == s
                } else if !valid_post_profile_data(*post_profile) {
                    r matches Err(e) && e is ValidationError && final(self)@ == s
                } else if has_username(s.entries, post_profile.username@) {
                    r matches Err(e) && e.has_tag(ApiErrorType::BadRequest, "USERNAME_TAKEN"@)
                        && final(self)@ == s
                } else if s.entries.len() >= s.capacity {
                    r matches Err(e) && e is CanisterAtCapacity && final(self)@ == s
                } else {
                    r matches Ok(resp) && final(self)@ == (StoreView {
                        current_entry_id: (s.current_entry_id + 1) as u64,
                        entries: s.entries.push((s.current_entry_id, p)),
                        ..s
                    }) && resp@ == response_view_of(
                        spec_identifier(s.canister, s.current_entry_id),
                        p,
                    )
                }
            }),
    {
        if self.find_by_principal(caller).is_some() {
            return Err(
                api_error(
                    ApiErrorType::BadRequest,
                    "ALREADY_REGISTERED",
                    "User profile already registered",
                    self.name.as_str(),
                    "add_profile",
                    None,
                ),
            );
        }
        if let Err(err) = validate_post_profile(post_profile) {
            return Err(err);
        }
        if self.has_user_name(&post_profile.username) {
            return Err(
                api_error(
                    ApiErrorType::BadRequest,
                    "USERNAME_TAKEN",
                    "Username already taken",
                    self.name.as_str(),
                    "add_profile",
                    None,
                ),
            );
        }
        if self.entries.len() as u64 >= self.capacity {
            return Err(
                api_error(
                    ApiErrorType::CanisterAtCapacity,
                    "CANISTER_AT_CAPACITY",
                    "This shard cannot accept more records",
                    self.name.as_str(),
                    "add_profile",
                    None,
                ),
            );
        }
        let profile = Profile {
            principal: caller,
            member_identifier: PrincipalId::anonymous(),
            username: post_profile.username.clone(),
            display_name: post_profile.display_name.clone(),
            application_role: ApplicationRole::Member,
            first_name: post_profile.first_name.clone(),
            last_name: post_profile.last_name.clone(),
            privacy: post_profile.privacy,
            about: String::new(),
            email: String::new(),
            date_of_birth: 0,
            city: String::new(),
            state_or_province: String::new(),
            country: String::new(),
            profile_image: Asset::Empty,
            banner_image: Asset::Empty,
            skills: Vec::new(),
            interests: Vec::new(),
            causes: Vec::new(),
            website: String::new(),
            code_of_conduct: DocumentDetails { approved_version: 0, approved_date: 0 },
            privacy_policy: None,
            terms_of_service: None,
            wallets: Vec::new(),
            starred: Vec::new(),
            relations: Vec::new(),
            extra: post_profile.extra.clone(),
            updated_on: now,
            created_on: now,
        };
        proof {
            assert(profile@.wallets =~= Seq::<(PrincipalId, WalletView)>::empty());
            assert(profile@.starred =~= Seq::<(PrincipalId, Seq<char>)>::empty());
            assert(profile@.relations =~= Seq::<(PrincipalId, Seq<char>)>::empty());
            assert(profile@ == spec_new_profile(caller, *post_profile, now));
        }
        let seq_no = self.current_entry_id;
        let identifier = self.make_identifier(seq_no);
        let response = map_profile_to_profile_response(identifier, profile.clone());
        self.entries.push((seq_no, profile));
        self.current_entry_id = self.current_entry_id + 1;
        proof {
            let s = old(self)@;
            let p = spec_new_profile(caller, *post_profile, now);
            assert(self@.entries =~= s.entries.push((s.current_entry_id, p)));
            assert(self@ == (StoreView {
                current_entry_id: (s.current_entry_id + 1) as u64,
                entries: s.entries.push((s.current_entry_id, p)),
                ..s
            }));
        }
        Ok(response)
    }

    /// Edits the caller's profile in place. Fails without mutating when no
    /// record is owned by the caller, the edit is invalid, or the new
    /// email is already taken by another record.
    pub fn update_profile(
        &mut self,
        caller: PrincipalId,
        update_profile: &UpdateProfile,
        now: u64,
    ) -> (r: Result<ProfileResponse, ApiError>)
        requires
            old(self).inv(),
        ensures
            final(self).inv(),
            ({
                let s = old(self)@;
                let i = find_principal_idx(s.entries, caller);
                let email = match update_profile.email {
                    None => Seq::<char>::empty(),
                    Some(e) => e@,
                };
                if i < 0 {
                    r matches Err(e) && e.has_tag(ApiErrorType::NotFound, "PROFILE_NOT_FOUND"@)
                        && final(self)@ == s
                } else if !valid_update_profile_data(*update_profile) {
                    r matches Err(e) && e is ValidationError && final(self)@ == s
                } else if email.len() > 0 && s.entries[i].1.email != email && has_email(
                    s.entries,
                    email,
                ) {
                    r matches Err(e) && e.has_tag(ApiErrorType::BadRequest, "EMAIL_TAKEN"@)
                        && final(self)@ == s
                } else {
                    let p = spec_updated_profile(s.entries[i].1, *update_profile, email, now);
                    r matches Ok(resp) && final(self)@ == (StoreView {
                        entries: s.entries.update(i, (s.entries[i].0, p)),
                        ..s
                    }) && resp@ == response_view_of(
                        spec_identifier(s.canister, s.entries[i].0),
                        p,
                    )
                }
            }),
    {
        let idx = match self.find_by_principal(caller) {
            None => {
                return Err(
                    api_error(
                        ApiErrorType::NotFound,
                        "PROFILE_NOT_FOUND",
                        "Profile not found",
                        self.name.as_str(),
                        "update_profile",
                        None,
                    ),
                );
            },
            Some(i) => i,
        };
        if let Err(err) = validate_update_profile(update_profile) {
            return Err(err);
        }
        let email = match &update_profile.email {
            None => String::new(),
            Some(e) => e.clone(),
        };
        if email.as_str().unicode_len() > 0 {
            if !(self.entries[idx].1.email == email) && self.has_email_addr(&email) {
                return Err(
                    api_error(
                        ApiErrorType::BadRequest,
                        "EMAIL_TAKEN",
                        "Email already taken",
                        self.name.as_str(),
                        "update_profile",
                        None,
                    ),
                );
            }
        }
        let key = self.entries[idx].0;
        let old_profile = &self.entries[idx].1;
        let updated = Profile {
            principal: old_profile.principal,
            member_identifier: old_profile.member_identifier,
            username: old_profile.username.clone(),
            display_name: update_profile.display_name.clone(),
            application_role: old_profile.application_role,
            first_name: update_profile.first_name.clone(),
            last_name: update_profile.last_name.clone(),
            privacy: update_profile.privacy,
            about: update_profile.about.clone(),
            email: email.clone(),
            date_of_birth: update_profile.date_of_birth,
            city: update_profile.city.clone(),
            state_or_province: update_profile.state_or_province.clone(),
            country: update_profile.country.clone(),
            profile_image: update_profile.profile_image.clone(),
            banner_image: update_profile.banner_image.clone(),
            skills: update_profile.skills.clone(),
            interests: update_profile.interests.clone(),
            causes: update_profile.causes.clone(),
            website: update_profile.website.clone(),
            code_of_conduct: old_profile.code_of_conduct,
            privacy_policy: old_profile.privacy_policy,
            terms_of_service: old_profile.terms_of_service,
            wallets: clone_wallets(&old_profile.wallets),
            starred: clone_tags(&old_profile.starred),
            relations: clone_tags(&old_profile.relations),
            extra: update_profile.extra.clone(),
            updated_on: now,
            created_on: old_profile.created_on,
        };
        let ghost email_view = email@;
        proof {
            assert(email_view == match update_profile.email {
                None => Seq::<char>::empty(),
                Some(e) => e@,
            });
            assert(updated@ == spec_updated_profile(
                old(self)@.entries[idx as int].1,
                *update_profile,
                email_view,
                now,
            ));
        }
        let identifier = self.make_identifier(key);
        let response = map_profile_to_profile_response(identifier, updated.clone());
        self.entries.set(idx, (key, updated));
        proof {
            let s = old(self)@;
            let i = idx as int;
            let p = spec_updated_profile(s.entries[i].1, *update_profile, email_view, now);
            assert(self@.entries =~= s.entries.update(i, (s.entries[i].0, p)));
            assert(self@ == (StoreView { entries: s.entries.update(i, (s.entries[i].0, p)), ..s }));
        }
        Ok(response)
    }
}

/// Copies a keyed wallet list, preserving its view.
pub fn clone_wallets(v: &Vec<(PrincipalId, crate::profile_models::Wallet)>) -> (r: Vec<
    (PrincipalId, crate::profile_models::Wallet),
>)
    ensures
        crate::profile_models::wallet_entries_view(r@) == crate::profile_models::wallet_entries_view(
            v@,
        ),
{
    let mut r: Vec<(PrincipalId, crate::profile_models::Wallet)> = Vec::new();
    let mut i: usize = 0;
    while i < v.len()
        invariant
            i <= v.len(),
            r@.len() == i as int,
            forall|k: int|
                0 <= k < i as int ==> (#[trigger] r@[k]).0 == v@[k].0 && r@[k].1@ == v@[k].1@,
        decreases v.len() - i,
    {
        let entry = &v[i];
        r.push((entry.0, entry.1.clone()));
        i = i + 1;
    }
    proof {
        assert forall|k: int|
            0 <= k < v@.len() implies crate::profile_models::wallet_entries_view(r@)[k]
            == crate::profile_models::wallet_entries_view(v@)[k] by {
            assert(r@[k].1@ == v@[k].1@);
        }
        assert(crate::profile_models::wallet_entries_view(r@)
            =~= crate::profile_models::wallet_entries_view(v@));
    }
    r
}

/// Copies a keyed tag list, preserving its view.
pub fn clone_tags(v: &Vec<(PrincipalId, String)>) -> (r: Vec<(PrincipalId, String)>)
    ensures
        crate::profile_models::tag_entries_view(r@) == crate::profile_models::tag_entries_view(v@),
{
    let mut r: Vec<(PrincipalId, String)> = Vec::new();
    let mut i: usize = 0;
    while i < v.len()
        invariant
            i <= v.len(),
            r@.len() == i as int,
            forall|k: int|
                0 <= k < i as int ==> (#[trigger] r@[k]).0 == v@[k].0 && r@[k].1@ == v@[k].1@,
        decreases v.len() - i,
    {
        let entry = &v[i];
        r.push((entry.0, entry.1.clone()));
        i = i + 1;
    }
    proof {
        assert forall|k: int|
            0 <= k < v@.len() implies crate::profile_models::tag_entries_view(r@)[k]
            == crate::profile_models::tag_entries_view(v@)[k] by {
            assert(r@[k].1@ == v@[k].1@);
        }
        assert(crate::profile_models::tag_entries_view(r@) =~= crate::profile_models::tag_entries_view(
            v@,
        ));
    }
    r
}

/// Maps a stored record to the response returned to callers, keyed by its
/// identifier and with wallets flattened into a list.
pub fn map_profile_to_profile_response(identifier: Identifier, profile: Profile) -> (r:
    ProfileResponse)
    ensures
        r@ == response_view_of(identifier@, profile@),
{
    let ghost wv = wallet_responses_of(profile@.wallets);
    let mut wallets: Vec<WalletResponse> = Vec::new();
    let mut i: usize = 0;
    while i < profile.wallets.len()
        invariant
            i <= profile.wallets.len(),
            wv == wallet_responses_of(profile@.wallets),
            profile@.wallets.len() == profile.wallets@.len(),
            wallets@.len() == i as int,
            forall|k: int| 0 <= k < i as int ==> (#[trigger] wallets@[k])@ == wv[k],
        decreases profile.wallets.len() - i,
    {
        let entry = &profile.wallets[i];
        wallets.push(
            WalletResponse {
                provider: entry.1.provider.clone(),
                principal: entry.0,
                is_primary: entry.1.is_primary,
            },
        );
        i = i + 1;
        proof {
            assert(profile@.wallets[i as int - 1] == crate::profile_models::wallet_entry_view(
                profile.wallets@[i as int - 1],
            ));
        }
    }
    let r = ProfileResponse {
        identifier,
        principal: profile.principal,
        member_identifier: profile.member_identifier,
        username: profile.username,
        display_name: profile.display_name,
        application_role: profile.application_role,
        first_name: profile.first_name,
        last_name: profile.last_name,
        privacy: profile.privacy,
        about: profile.about,
        email: profile.email,
        date_of_birth: profile.date_of_birth,
        city: profile.city,
        state_or_province: profile.state_or_province,
        country: profile.country,
        profile_image: profile.profile_image,
        banner_image: profile.banner_image,
        skills: profile.skills,
        interests: profile.interests,
        causes: profile.causes,
        website: profile.website,
        code_of_conduct: profile.code_of_conduct,
        privacy_policy: profile.privacy_policy,
        terms_of_service: profile.terms_of_service,
        wallets,
        extra: profile.extra,
        updated_on: profile.updated_on,
        created_on: profile.created_on,
    };
    proof {
        assert(crate::profile_models::wallet_responses_view(r.wallets@) =~= wallet_responses_of(
            profile@.wallets,
        ));
    }
    r
}

} // verus!
