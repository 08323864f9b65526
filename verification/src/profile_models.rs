//! The record domain model: profiles, wallets, relations, friend requests,
//! and the filter/sort vocabulary of aggregate queries.
//!
//! Every executable type with heap-backed fields has a ghost view struct
//! (`@`) over `Seq`-based mathematics; contracts are stated over those views.

use vstd::prelude::*;

verus! {

/// A stable external identity: the owning principal of a record, or the
/// address of a shard node.
#[derive(Clone, Copy, Debug, Hash, PartialEq, Eq, Structural)]
pub struct PrincipalId {
    pub id: u64,
}

impl PrincipalId {
    /// The distinguished placeholder identity.
    pub fn anonymous() -> (r: PrincipalId)
        ensures
            r == (PrincipalId { id: 0 }),
    {
        PrincipalId { id: 0 }
    }
}

/// A globally unique record key: the holding shard's address, the record's
/// sequence number local to that shard, and a kind tag.
pub struct Identifier {
    pub canister: PrincipalId,
    pub sequence: u64,
    pub kind: String,
}

pub ghost struct IdentifierView {
    pub canister: PrincipalId,
    pub sequence: u64,
    pub kind: Seq<char>,
}

impl View for Identifier {
    type V = IdentifierView;

    open spec fn view(&self) -> IdentifierView {
        IdentifierView { canister: self.canister, sequence: self.sequence, kind: self.kind@ }
    }
}

impl Clone for Identifier {
    fn clone(&self) -> (r: Self)
        ensures
            r@ == self@,
    {
        Identifier { canister: self.canister, sequence: self.sequence, kind: self.kind.clone() }
    }
}

/// Version and date under which a policy document was approved.
#[derive(Clone, Copy, Debug, Default, PartialEq, Eq, Structural)]
pub struct DocumentDetails {
    pub approved_version: u64,
    pub approved_date: u64,
}

/// Whether a profile is visible to other users.
#[derive(Clone, Copy, Debug, PartialEq, Eq, Structural)]
pub enum ProfilePrivacy {
    Public,
    Private,
}

impl Default for ProfilePrivacy {
    fn default() -> (r: Self)
        ensures
            r is Private,
    {
        ProfilePrivacy::Private
    }
}

/// Relation a profile records towards another profile.
#[derive(Clone, Copy, Debug, PartialEq, Eq, Structural)]
pub enum RelationType {
    Friend,
    Blocked,
}

impl RelationType {
    /// The tag under which this relation is stored in a profile.
    pub open spec fn spec_text(self) -> Seq<char> {
        match self {
            RelationType::Friend => "friend"@,
            RelationType::Blocked => "blocked"@,
        }
    }

    /// Renders the relation as its stored tag.
    pub fn to_text(&self) -> (r: String)
        ensures
            r@ == self.spec_text(),
    {
        match self {
            RelationType::Friend => "friend".to_owned(),
            RelationType::Blocked => "blocked".to_owned(),
        }
    }
}

/// Application-wide role of the profile's owner.
#[derive(Clone, Copy, Debug, PartialEq, Eq, Structural)]
pub enum ApplicationRole {
    Member,
    Guest,
    Blocked,
}

impl Default for ApplicationRole {
    fn default() -> (r: Self)
        ensures
            r is Member,
    {
        ApplicationRole::Member
    }
}

/// Reference to an uploaded image asset.
pub enum Asset {
    Empty,
    Url(String),
}

pub ghost enum AssetView {
    Empty,
    Url(Seq<char>),
}

impl View for Asset {
    type V = AssetView;

    open spec fn view(&self) -> AssetView {
        match self {
            Asset::Empty => AssetView::Empty,
            Asset::Url(u) => AssetView::Url(u@),
        }
    }
}

impl Clone for Asset {
    fn clone(&self) -> (r: Self)
        ensures
            r@ == self@,
    {
        match self {
            Asset::Empty => Asset::Empty,
            Asset::Url(u) => Asset::Url(u.clone()),
        }
    }
}

impl Default for Asset {
    fn default() -> (r: Self)
        ensures
            r@ is Empty,
    {
        Asset::Empty
    }
}

/// A wallet held by a profile.
pub struct Wallet {
    pub provider: String,
    pub is_primary: bool,
}

pub ghost struct WalletView {
    pub provider: Seq<char>,
    pub is_primary: bool,
}

impl View for Wallet {
    type V = WalletView;

    open spec fn view(&self) -> WalletView {
        WalletView { provider: self.provider@, is_primary: self.is_primary }
    }
}

impl Clone for Wallet {
    fn clone(&self) -> (r: Self)
        ensures
            r@ == self@,
    {
        Wallet { provider: self.provider.clone(), is_primary: self.is_primary }
    }
}

impl Default for Wallet {
    fn default() -> (r: Self)
        ensures
            r@.provider.len() == 0,
            !r@.is_primary,
    {
        Wallet { provider: String::new(), is_primary: false }
    }
}

/// A wallet as submitted by a caller.
pub struct PostWallet {
    pub provider: String,
    pub principal: PrincipalId,
}

/// A wallet as returned to a caller.
pub struct WalletResponse {
    pub provider: String,
    pub principal: PrincipalId,
    pub is_primary: bool,
}

pub ghost struct WalletResponseView {
    pub provider: Seq<char>,
    pub principal: PrincipalId,
    pub is_primary: bool,
}

impl View for WalletResponse {
    type V = WalletResponseView;

    open spec fn view(&self) -> WalletResponseView {
        WalletResponseView {
            provider: self.provider@,
            principal: self.principal,
            is_primary: self.is_primary,
        }
    }
}

impl Clone for WalletResponse {
    fn clone(&self) -> (r: Self)
        ensures
            r@ == self@,
    {
        WalletResponse {
            provider: self.provider.clone(),
            principal: self.principal,
            is_primary: self.is_primary,
        }
    }
}

/// A stored record: the full profile of one user.
pub struct Profile {
    pub principal: PrincipalId,
    pub member_identifier: PrincipalId,
    pub username: String,
    pub display_name: String,
    pub application_role: ApplicationRole,
    pub first_name: String,
    pub last_name: String,
    pub privacy: ProfilePrivacy,
    pub about: String,
    pub email: String,
    pub date_of_birth: u64,
    pub city: String,
    pub state_or_province: String,
    pub country: String,
    pub profile_image: Asset,
    pub banner_image: Asset,
    pub skills: Vec<u32>,
    pub interests: Vec<u32>,
    pub causes: Vec<u32>,
    pub website: String,
    pub code_of_conduct: DocumentDetails,
    pub privacy_policy: Option<DocumentDetails>,
    pub terms_of_service: Option<DocumentDetails>,
    pub wallets: Vec<(PrincipalId, Wallet)>,
    pub starred: Vec<(PrincipalId, String)>,
    pub relations: Vec<(PrincipalId, String)>,
    pub extra: String,
    pub updated_on: u64,
    pub created_on: u64,
}

pub ghost struct ProfileView {
    pub principal: PrincipalId,
    pub member_identifier: PrincipalId,
    pub username: Seq<char>,
    pub display_name: Seq<char>,
    pub application_role: ApplicationRole,
    pub first_name: Seq<char>,
    pub last_name: Seq<char>,
    pub privacy: ProfilePrivacy,
    pub about: Seq<char>,
    pub email: Seq<char>,
    pub date_of_birth: u64,
    pub city: Seq<char>,
    pub state_or_province: Seq<char>,
    pub country: Seq<char>,
    pub profile_image: AssetView,
    pub banner_image: AssetView,
    pub skills: Seq<u32>,
    pub interests: Seq<u32>,
    pub causes: Seq<u32>,
    pub website: Seq<char>,
    pub code_of_conduct: DocumentDetails,
    pub privacy_policy: Option<DocumentDetails>,
    pub terms_of_service: Option<DocumentDetails>,
    pub wallets: Seq<(PrincipalId, WalletView)>,
    pub starred: Seq<(PrincipalId, Seq<char>)>,
    pub relations: Seq<(PrincipalId, Seq<char>)>,
    pub extra: Seq<char>,
    pub updated_on: u64,
    pub created_on: u64,
}

/// View of a keyed wallet entry.
pub open spec fn wallet_entry_view(e: (PrincipalId, Wallet)) -> (PrincipalId, WalletView) {
    (e.0, e.1@)
}

/// View of a keyed wallet list.
pub open spec fn wallet_entries_view(s: Seq<(PrincipalId, Wallet)>) -> Seq<
    (PrincipalId, WalletView),
> {
    s.map_values(|e: (PrincipalId, Wallet)| wallet_entry_view(e))
}

/// View of a keyed tag entry (starred items and relations).
pub open spec fn tag_entry_view(e: (PrincipalId, String)) -> (PrincipalId, Seq<char>) {
    (e.0, e.1@)
}

/// View of a keyed tag list.
pub open spec fn tag_entries_view(s: Seq<(PrincipalId, String)>) -> Seq<(PrincipalId, Seq<char>)> {
    s.map_values(|e: (PrincipalId, String)| tag_entry_view(e))
}

/// View of a wallet response list.
pub open spec fn wallet_responses_view(s: Seq<WalletResponse>) -> Seq<WalletResponseView> {
    s.map_values(|w: WalletResponse| w@)
}

/// View of one stored record entry, keyed by its sequence number.
pub open spec fn profile_entry_view(e: (u64, Profile)) -> (u64, ProfileView) {
    (e.0, e.1@)
}

/// View of the stored record table.
pub open spec fn profile_entries_view(s: Seq<(u64, Profile)>) -> Seq<(u64, ProfileView)> {
    s.map_values(|e: (u64, Profile)| profile_entry_view(e))
}

/// View of one stored friend request entry, keyed by its request id.
pub open spec fn request_entry_view(e: (u64, FriendRequest)) -> (u64, FriendRequestView) {
    (e.0, e.1@)
}

/// View of the stored friend request table.
pub open spec fn request_entries_view(s: Seq<(u64, FriendRequest)>) -> Seq<
    (u64, FriendRequestView),
> {
    s.map_values(|e: (u64, FriendRequest)| request_entry_view(e))
}

/// View of a profile response list.
pub open spec fn profile_responses_view(s: Seq<ProfileResponse>) -> Seq<ProfileResponseView> {
    s.map_values(|p: ProfileResponse| p@)
}

/// View of an identifier list.
pub open spec fn identifiers_view(s: Seq<Identifier>) -> Seq<IdentifierView> {
    s.map_values(|i: Identifier| i@)
}

impl View for Profile {
    type V = ProfileView;

    open spec fn view(&self) -> ProfileView {
        ProfileView {
            principal: self.principal,
            member_identifier: self.member_identifier,
            username: self.username@,
            display_name: self.display_name@,
            application_role: self.application_role,
            first_name: self.first_name@,
            last_name: self.last_name@,
            privacy: self.privacy,
            about: self.about@,
            email: self.email@,
            date_of_birth: self.date_of_birth,
            city: self.city@,
            state_or_province: self.state_or_province@,
            country: self.country@,
            profile_image: self.profile_image@,
            banner_image: self.banner_image@,
            skills: self.skills@,
            interests: self.interests@,
            causes: self.causes@,
            website: self.website@,
            code_of_conduct: self.code_of_conduct,
            privacy_policy: self.privacy_policy,
            terms_of_service: self.terms_of_service,
            wallets: wallet_entries_view(self.wallets@),
            starred: tag_entries_view(self.starred@),
            relations: tag_entries_view(self.relations@),
            extra: self.extra@,
            updated_on: self.updated_on,
            created_on: self.created_on,
        }
    }
}

/// A new profile as submitted by a caller.
pub struct PostProfile {
    pub username: String,
    pub display_name: String,
    pub first_name: String,
    pub last_name: String,
    pub privacy: ProfilePrivacy,
    pub extra: String,
}

/// A profile edit as submitted by a caller.
pub struct UpdateProfile {
    pub display_name: String,
    pub first_name: String,
    pub last_name: String,
    pub privacy: ProfilePrivacy,
    pub about: String,
    pub email: Option<String>,
    pub date_of_birth: u64,
    pub city: String,
    pub state_or_province: String,
    pub country: String,
    pub profile_image: Asset,
    pub banner_image: Asset,
    pub skills: Vec<u32>,
    pub interests: Vec<u32>,
    pub causes: Vec<u32>,
    pub website: String,
    pub extra: String,
}

/// A profile as returned to a caller, keyed by its identifier and with
/// wallets flattened into a list.
pub struct ProfileResponse {
    pub identifier: Identifier,
    pub principal: PrincipalId,
    pub member_identifier: PrincipalId,
    pub username: String,
    pub display_name: String,
    pub application_role: ApplicationRole,
    pub first_name: String,
    pub last_name: String,
    pub privacy: ProfilePrivacy,
    pub about: String,
    pub email: String,
    pub date_of_birth: u64,
    pub city: String,
    pub state_or_province: String,
    pub country: String,
    pub profile_image: Asset,
    pub banner_image: Asset,
    pub skills: Vec<u32>,
    pub interests: Vec<u32>,
    pub causes: Vec<u32>,
    pub website: String,
    pub code_of_conduct: DocumentDetails,
    pub privacy_policy: Option<DocumentDetails>,
    pub terms_of_service: Option<DocumentDetails>,
    pub wallets: Vec<WalletResponse>,
    pub extra: String,
    pub updated_on: u64,
    pub created_on: u64,
}

pub ghost struct ProfileResponseView {
    pub identifier: IdentifierView,
    pub principal: PrincipalId,
    pub member_identifier: PrincipalId,
    pub username: Seq<char>,
    pub display_name: Seq<char>,
    pub application_role: ApplicationRole,
    pub first_name: Seq<char>,
    pub last_name: Seq<char>,
    pub privacy: ProfilePrivacy,
    pub about: Seq<char>,
    pub email: Seq<char>,
    pub date_of_birth: u64,
    pub city: Seq<char>,
    pub state_or_province: Seq<char>,
    pub country: Seq<char>,
    pub profile_image: AssetView,
    pub banner_image: AssetView,
    pub skills: Seq<u32>,
    pub interests: Seq<u32>,
    pub causes: Seq<u32>,
    pub website: Seq<char>,
    pub code_of_conduct: DocumentDetails,
    pub privacy_policy: Option<DocumentDetails>,
    pub terms_of_service: Option<DocumentDetails>,
    pub wallets: Seq<WalletResponseView>,
    pub extra: Seq<char>,
    pub updated_on: u64,
    pub created_on: u64,
}

impl View for ProfileResponse {
    type V = ProfileResponseView;

    open spec fn view(&self) -> ProfileResponseView {
        ProfileResponseView {
            identifier: self.identifier@,
            principal: self.principal,
            member_identifier: self.member_identifier,
            username: self.username@,
            display_name: self.display_name@,
            application_role: self.application_role,
            first_name: self.first_name@,
            last_name: self.last_name@,
            privacy: self.privacy,
            about: self.about@,
            email: self.email@,
            date_of_birth: self.date_of_birth,
            city: self.city@,
            state_or_province: self.state_or_province@,
            country: self.country@,
            profile_image: self.profile_image@,
            banner_image: self.banner_image@,
            skills: self.skills@,
            interests: self.interests@,
            causes: self.causes@,
            website: self.website@,
            code_of_conduct: self.code_of_conduct,
            privacy_policy: self.privacy_policy,
            terms_of_service: self.terms_of_service,
            wallets: wallet_responses_view(self.wallets@),
            extra: self.extra@,
            updated_on: self.updated_on,
            created_on: self.created_on,
        }
    }
}

impl Clone for Profile {
    fn clone(&self) -> (r: Self)
        ensures
            r@ == self@,
    {
        let r = Profile {
            principal: self.principal,
            member_identifier: self.member_identifier,
            username: self.username.clone(),
            display_name: self.display_name.clone(),
            application_role: self.application_role,
            first_name: self.first_name.clone(),
            last_name: self.last_name.clone(),
            privacy: self.privacy,
            about: self.about.clone(),
            email: self.email.clone(),
            date_of_birth: self.date_of_birth,
            city: self.city.clone(),
            state_or_province: self.state_or_province.clone(),
            country: self.country.clone(),
            profile_image: self.profile_image.clone(),
            banner_image: self.banner_image.clone(),
            skills: clone_u32_vec(&self.skills),
            interests: clone_u32_vec(&self.interests),
            causes: clone_u32_vec(&self.causes),
            website: self.website.clone(),
            code_of_conduct: self.code_of_conduct,
            privacy_policy: self.privacy_policy,
            terms_of_service: self.terms_of_service,
            wallets: clone_wallet_entries(&self.wallets),
            starred: clone_tag_entries(&self.starred),
            relations: clone_tag_entries(&self.relations),
            extra: self.extra.clone(),
            updated_on: self.updated_on,
            created_on: self.created_on,
        };
        proof {
            assert(r@.wallets =~= self@.wallets);
            assert(r@.starred =~= self@.starred);
            assert(r@.relations =~= self@.relations);
        }
        r
    }
}

impl Clone for ProfileResponse {
    fn clone(&self) -> (r: Self)
        ensures
            r@ == self@,
    {
        let r = ProfileResponse {
            identifier: self.identifier.clone(),
            principal: self.principal,
            member_identifier: self.member_identifier,
            username: self.username.clone(),
            display_name: self.display_name.clone(),
            application_role: self.application_role,
            first_name: self.first_name.clone(),
            last_name: self.last_name.clone(),
            privacy: self.privacy,
            about: self.about.clone(),
            email: self.email.clone(),
            date_of_birth: self.date_of_birth,
            city: self.city.clone(),
            state_or_province: self.state_or_province.clone(),
            country: self.country.clone(),
            profile_image: self.profile_image.clone(),
            banner_image: self.banner_image.clone(),
            skills: clone_u32_vec(&self.skills),
            interests: clone_u32_vec(&self.interests),
            causes: clone_u32_vec(&self.causes),
            website: self.website.clone(),
            code_of_conduct: self.code_of_conduct,
            privacy_policy: self.privacy_policy,
            terms_of_service: self.terms_of_service,
            wallets: clone_wallet_responses(&self.wallets),
            extra: self.extra.clone(),
            updated_on: self.updated_on,
            created_on: self.created_on,
        };
        proof {
            assert(r@.wallets =~= self@.wallets);
        }
        r
    }
}

/// Copies a vector of numeric tags.
fn clone_u32_vec(v: &Vec<u32>) -> (r: Vec<u32>)
    ensures
        r@ == v@,
{
    let mut r: Vec<u32> = Vec::new();
    let mut i: usize = 0;
    while i < v.len()
        invariant
            i <= v.len(),
            r@ == v@.subrange(0, i as int),
        decreases v.len() - i,
    {
        r.push(v[i]);
        i = i + 1;
        proof {
            assert(r@ =~= v@.subrange(0, i as int));
        }
    }
    proof {
        assert(r@ =~= v@);
    }
    r
}

/// Copies a keyed wallet list, preserving its view.
fn clone_wallet_entries(v: &Vec<(PrincipalId, Wallet)>) -> (r: Vec<(PrincipalId, Wallet)>)
    ensures
        wallet_entries_view(r@) == wallet_entries_view(v@),
{
    let mut r: Vec<(PrincipalId, Wallet)> = Vec::new();
    let mut i: usize = 0;
    while i < v.len()
        invariant
            i <= v.len(),
            r@.len() == i as int,
            forall|k: int|
                0 <= k < i as int ==> (#[trigger] r@[k]).0 == v@[k].0 && r@[k].1@ == v@[k].1@,
        decreases v.len() - i,
    {
        let entry = &v[i];
        r.push((entry.0, entry.1.clone()));
        i = i + 1;
    }
    proof {
        assert forall|k: int| 0 <= k < v@.len() implies wallet_entries_view(r@)[k]
            == wallet_entries_view(v@)[k] by {
            assert(r@[k].1@ == v@[k].1@);
        }
        assert(wallet_entries_view(r@) =~= wallet_entries_view(v@));
    }
    r
}

/// Copies a keyed tag list, preserving its view.
fn clone_tag_entries(v: &Vec<(PrincipalId, String)>) -> (r: Vec<(PrincipalId, String)>)
    ensures
        tag_entries_view(r@) == tag_entries_view(v@),
{
    let mut r: Vec<(PrincipalId, String)> = Vec::new();
    let mut i: usize = 0;
    while i < v.len()
        invariant
            i <= v.len(),
            r@.len() == i as int,
            forall|k: int|
                0 <= k < i as int ==> (#[trigger] r@[k]).0 == v@[k].0 && r@[k].1@ == v@[k].1@,
        decreases v.len() - i,
    {
        let entry = &v[i];
        r.push((entry.0, entry.1.clone()));
        i = i + 1;
    }
    proof {
        assert forall|k: int| 0 <= k < v@.len() implies tag_entries_view(r@)[k]
            == tag_entries_view(v@)[k] by {
            assert(r@[k].1@ == v@[k].1@);
        }
        assert(tag_entries_view(r@) =~= tag_entries_view(v@));
    }
    r
}

/// Copies a wallet response list, preserving its view.
fn clone_wallet_responses(v: &Vec<WalletResponse>) -> (r: Vec<WalletResponse>)
    ensures
        wallet_responses_view(r@) == wallet_responses_view(v@),
{
    let mut r: Vec<WalletResponse> = Vec::new();
    let mut i: usize = 0;
    while i < v.len()
        invariant
            i <= v.len(),
            r@.len() == i as int,
            forall|k: int| 0 <= k < i as int ==> (#[trigger] r@[k])@ == v@[k]@,
        decreases v.len() - i,
    {
        r.push(v[i].clone());
        i = i + 1;
    }
    proof {
        assert forall|k: int| 0 <= k < v@.len() implies wallet_responses_view(r@)[k]
            == wallet_responses_view(v@)[k] by {
            assert(r@[k]@ == v@[k]@);
        }
        assert(wallet_responses_view(r@) =~= wallet_responses_view(v@));
    }
    r
}

/// An inclusive timestamp range used by date filters.
#[derive(Clone, Copy, Debug, PartialEq, Eq, Structural)]
pub struct DateRange {
    pub start_date: u64,
    pub end_date: u64,
}

/// Direction of a sort key.
#[derive(Clone, Copy, Debug, PartialEq, Eq, Structural)]
pub enum SortDirection {
    Asc,
    Desc,
}

/// The single sort key of an aggregate query.
#[derive(Clone, Copy, Debug)]
pub enum ProfileSort {
    Username(SortDirection),
    DisplayName(SortDirection),
    FirstName(SortDirection),
    LastName(SortDirection),
    Email(SortDirection),
    City(SortDirection),
    StateOrProvince(SortDirection),
    Country(SortDirection),
    CreatedOn(SortDirection),
    UpdatedOn(SortDirection),
}

/// One predicate of an aggregate query; a query applies its filters as a
/// conjunction.
pub enum ProfileFilter {
    Username(String),
    DisplayName(String),
    FirstName(String),
    LastName(String),
    Email(String),
    City(String),
    StateOrProvince(String),
    Country(String),
    UpdatedOn(DateRange),
    Skill(u32),
    Interest(u32),
    Cause(u32),
    CreatedOn(DateRange),
}

/// A pending friend request.
pub struct FriendRequest {
    pub requested_by: PrincipalId,
    pub message: String,
    pub to: PrincipalId,
    pub created_at: u64,
}

pub ghost struct FriendRequestView {
    pub requested_by: PrincipalId,
    pub message: Seq<char>,
    pub to: PrincipalId,
    pub created_at: u64,
}

impl View for FriendRequest {
    type V = FriendRequestView;

    open spec fn view(&self) -> FriendRequestView {
        FriendRequestView {
            requested_by: self.requested_by,
            message: self.message@,
            to: self.to,
            created_at: self.created_at,
        }
    }
}

impl Clone for FriendRequest {
    fn clone(&self) -> (r: Self)
        ensures
            r@ == self@,
    {
        FriendRequest {
            requested_by: self.requested_by,
            message: self.message.clone(),
            to: self.to,
            created_at: self.created_at,
        }
    }
}

/// A friend request as returned to a caller, keyed by its request id.
pub struct FriendRequestResponse {
    pub id: u64,
    pub requested_by: PrincipalId,
    pub message: String,
    pub to: PrincipalId,
    pub created_at: u64,
}

pub ghost struct FriendRequestResponseView {
    pub id: u64,
    pub requested_by: PrincipalId,
    pub message: Seq<char>,
    pub to: PrincipalId,
    pub created_at: u64,
}

impl View for FriendRequestResponse {
    type V = FriendRequestResponseView;

    open spec fn view(&self) -> FriendRequestResponseView {
        FriendRequestResponseView {
            id: self.id,
            requested_by: self.requested_by,
            message: self.message@,
            to: self.to,
            created_at: self.created_at,
        }
    }
}

impl Clone for FriendRequestResponse {
    fn clone(&self) -> (r: Self)
        ensures
            r@ == self@,
    {
        FriendRequestResponse {
            id: self.id,
            requested_by: self.requested_by,
            message: self.message.clone(),
            to: self.to,
            created_at: self.created_at,
        }
    }
}

} // verus!
