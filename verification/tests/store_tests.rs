use sharded_profiles::errors::ApiError;
use sharded_profiles::profile_models::Asset;
use sharded_profiles::profile_models::PostProfile;
use sharded_profiles::profile_models::PostWallet;
use sharded_profiles::profile_models::PrincipalId;
use sharded_profiles::profile_models::ProfilePrivacy;
use sharded_profiles::profile_models::RelationType;
use sharded_profiles::profile_models::UpdateProfile;
use sharded_profiles::store::Store;

pub fn shard(capacity: u64) -> Store {
    Store::new("profiles".to_string(), PrincipalId { id: 900 }, capacity)
}

pub fn post(username: &str) -> PostProfile {
    PostProfile {
        username: username.to_string(),
        display_name: format!("{} display", username),
        first_name: "Ada".to_string(),
        last_name: "Lovelace".to_string(),
        privacy: ProfilePrivacy::Public,
        extra: String::new(),
    }
}

fn update(display_name: &str, email: Option<&str>) -> UpdateProfile {
    UpdateProfile {
        display_name: display_name.to_string(),
        first_name: "Ada".to_string(),
        last_name: "Lovelace".to_string(),
        privacy: ProfilePrivacy::Private,
        about: "about".to_string(),
        email: email.map(|e| e.to_string()),
        date_of_birth: 7,
        city: "London".to_string(),
        state_or_province: String::new(),
        country: "UK".to_string(),
        profile_image: Asset::Empty,
        banner_image: Asset::Empty,
        skills: vec![1, 2],
        interests: vec![3],
        causes: vec![],
        website: "example.net".to_string(),
        extra: String::new(),
    }
}

#[test]
fn add_profile_assigns_increasing_identifiers() {
    let mut s = shard(10);
    let a = s.add_profile(PrincipalId { id: 1 }, &post("alice"), 100).unwrap();
    let b = s.add_profile(PrincipalId { id: 2 }, &post("bob"), 101).unwrap();
    assert_eq!(a.identifier.sequence, 0);
    assert_eq!(b.identifier.sequence, 1);
    assert_eq!(a.identifier.kind, "pfe");
    assert_eq!(a.identifier.canister, PrincipalId { id: 900 });
    assert_eq!(a.username, "alice");
    assert_eq!(a.created_on, 100);
}

#[test]
fn capacity_is_enforced_and_table_unchanged() {
    // capacity 2: two accepted writes, the third fails and the table
    // still holds exactly the first two records
    let mut s = shard(2);
    assert!(s.add_profile(PrincipalId { id: 1 }, &post("alice"), 1).is_ok());
    assert!(s.add_profile(PrincipalId { id: 2 }, &post("bob"), 2).is_ok());
    match s.add_profile(PrincipalId { id: 3 }, &post("carol"), 3) {
        Err(ApiError::CanisterAtCapacity(m)) => assert_eq!(m.tag, "CANISTER_AT_CAPACITY"),
        other => panic!("expected the capacity error, got {:?}", other.is_ok()),
    }
    let all = s.get_all();
    assert_eq!(all.len(), 2);
    assert_eq!(all[0].1.username, "alice");
    assert_eq!(all[1].1.username, "bob");
    // a later add still fails: the shard stays full
    assert!(s.add_profile(PrincipalId { id: 4 }, &post("dave"), 4).is_err());
}

#[test]
fn duplicate_registration_and_username_are_rejected() {
    let mut s = shard(10);
    s.add_profile(PrincipalId { id: 1 }, &post("alice"), 1).unwrap();
    match s.add_profile(PrincipalId { id: 1 }, &post("other"), 2) {
        Err(ApiError::BadRequest(m)) => assert_eq!(m.tag, "ALREADY_REGISTERED"),
        other => panic!("expected rejection, got {:?}", other.is_ok()),
    }
    match s.add_profile(PrincipalId { id: 2 }, &post("alice"), 3) {
        Err(ApiError::BadRequest(m)) => assert_eq!(m.tag, "USERNAME_TAKEN"),
        other => panic!("expected rejection, got {:?}", other.is_ok()),
    }
}

#[test]
fn invalid_submissions_are_validation_errors() {
    let mut s = shard(10);
    match s.add_profile(PrincipalId { id: 1 }, &post("ab"), 1) {
        Err(ApiError::ValidationError(fields)) => assert_eq!(fields[0].field, "username"),
        other => panic!("expected a validation error, got {:?}", other.is_ok()),
    }
    s.add_profile(PrincipalId { id: 1 }, &post("alice"), 1).unwrap();
    match s.update_profile(PrincipalId { id: 1 }, &update("x", None), 2) {
        Err(ApiError::ValidationError(fields)) => assert_eq!(fields[0].field, "display_name"),
        other => panic!("expected a validation error, got {:?}", other.is_ok()),
    }
    match s.update_profile(PrincipalId { id: 1 }, &update("new name", Some("not-an-email")), 2) {
        Err(ApiError::ValidationError(fields)) => assert_eq!(fields[0].field, "email"),
        other => panic!("expected a validation error, got {:?}", other.is_ok()),
    }
}

#[test]
fn update_profile_replaces_fields_in_place() {
    let mut s = shard(10);
    s.add_profile(PrincipalId { id: 1 }, &post("alice"), 1).unwrap();
    let resp = s
        .update_profile(PrincipalId { id: 1 }, &update("new name", Some("a@b.example")), 9)
        .unwrap();
    assert_eq!(resp.display_name, "new name");
    assert_eq!(resp.email, "a@b.example");
    assert_eq!(resp.updated_on, 9);
    assert_eq!(resp.created_on, 1);
    assert_eq!(resp.username, "alice");
    assert_eq!(resp.identifier.sequence, 0);
}

#[test]
fn email_taken_is_rejected() {
    let mut s = shard(10);
    s.add_profile(PrincipalId { id: 1 }, &post("alice"), 1).unwrap();
    s.add_profile(PrincipalId { id: 2 }, &post("bob"), 2).unwrap();
    s.update_profile(PrincipalId { id: 1 }, &update("alice name", Some("a@b.example")), 3)
        .unwrap();
    match s.update_profile(PrincipalId { id: 2 }, &update("bob name", Some("a@b.example")), 4) {
        Err(ApiError::BadRequest(m)) => assert_eq!(m.tag, "EMAIL_TAKEN"),
        other => panic!("expected rejection, got {:?}", other.is_ok()),
    }
}

#[test]
fn profile_lookup_by_principal_and_identifier() {
    let mut s = shard(10);
    let resp = s.add_profile(PrincipalId { id: 1 }, &post("alice"), 1).unwrap();
    let by_principal = s.get_profile_by_user_principal(PrincipalId { id: 1 }).unwrap();
    assert_eq!(by_principal.username, "alice");
    let by_identifier = s.get_profile_by_identifier(&resp.identifier).unwrap();
    assert_eq!(by_identifier.username, "alice");
    match s.get_profile_by_user_principal(PrincipalId { id: 9 }) {
        Err(ApiError::NotFound(m)) => assert_eq!(m.tag, "PROFILE_NOT_FOUND"),
        other => panic!("expected not found, got {:?}", other.is_ok()),
    }
    let mut foreign = resp.identifier.clone();
    foreign.canister = PrincipalId { id: 901 };
    assert!(s.get_profile_by_identifier(&foreign).is_err());
}

#[test]
fn wallets_round_trip() {
    let mut s = shard(10);
    s.add_profile(PrincipalId { id: 1 }, &post("alice"), 1).unwrap();
    let w1 = PostWallet { provider: "plug".to_string(), principal: PrincipalId { id: 41 } };
    let w2 = PostWallet { provider: "stoic".to_string(), principal: PrincipalId { id: 42 } };
    s.add_wallet(PrincipalId { id: 1 }, &w1).unwrap();
    let resp = s.add_wallet(PrincipalId { id: 1 }, &w2).unwrap();
    assert_eq!(resp.wallets.len(), 2);
    assert!(!resp.wallets[0].is_primary);

    s.set_wallet_as_primary(PrincipalId { id: 1 }, PrincipalId { id: 42 }).unwrap();
    let after = s.get_profile_by_user_principal(PrincipalId { id: 1 }).unwrap();
    assert!(!after.wallets[0].is_primary);
    assert!(after.wallets[1].is_primary);
    assert!(s.set_wallet_as_primary(PrincipalId { id: 1 }, PrincipalId { id: 99 }).is_err());

    match s.remove_wallet(PrincipalId { id: 1 }, PrincipalId { id: 99 }) {
        Err(ApiError::NotFound(m)) => assert_eq!(m.tag, "WALLET_NOT_FOUND"),
        other => panic!("expected not found, got {:?}", other.is_ok()),
    }
    let removed = s.remove_wallet(PrincipalId { id: 1 }, PrincipalId { id: 41 }).unwrap();
    assert_eq!(removed.wallets.len(), 1);
    assert_eq!(removed.wallets[0].provider, "stoic");
}

#[test]
fn starred_references_filter_by_kind() {
    let mut s = shard(10);
    s.add_profile(PrincipalId { id: 1 }, &post("alice"), 1).unwrap();
    s.add_starred(PrincipalId { id: 1 }, PrincipalId { id: 70 }, &"grp".to_string()).unwrap();
    s.add_starred(PrincipalId { id: 1 }, PrincipalId { id: 71 }, &"evt".to_string()).unwrap();
    match s.add_starred(PrincipalId { id: 1 }, PrincipalId { id: 72 }, &"pfe".to_string()) {
        Err(ApiError::NotFound(m)) => assert_eq!(m.tag, "INVALID TYPE"),
        other => panic!("expected rejection, got {:?}", other.is_ok()),
    }
    let groups = s.get_starred(PrincipalId { id: 1 }, &"grp".to_string());
    assert_eq!(groups, vec![PrincipalId { id: 70 }]);
    let events = s.get_starred(PrincipalId { id: 1 }, &"evt".to_string());
    assert_eq!(events, vec![PrincipalId { id: 71 }]);

    match s.remove_starred(PrincipalId { id: 1 }, PrincipalId { id: 99 }) {
        Err(ApiError::NotFound(m)) => assert_eq!(m.tag, "STARRED_NOT_FOUND"),
        other => panic!("expected not found, got {:?}", other.is_ok()),
    }
    s.remove_starred(PrincipalId { id: 1 }, PrincipalId { id: 70 }).unwrap();
    assert!(s.get_starred(PrincipalId { id: 1 }, &"grp".to_string()).is_empty());
}

#[test]
fn relations_block_and_clear() {
    let mut s = shard(10);
    s.add_profile(PrincipalId { id: 1 }, &post("alice"), 1).unwrap();
    s.block_user(PrincipalId { id: 1 }, PrincipalId { id: 5 }).unwrap();
    let blocked = s.get_relations(PrincipalId { id: 1 }, RelationType::Blocked);
    assert_eq!(blocked, vec![PrincipalId { id: 5 }]);
    assert!(s.get_relations(PrincipalId { id: 1 }, RelationType::Friend).is_empty());
    s.unblock_user(PrincipalId { id: 1 }, PrincipalId { id: 5 }).unwrap();
    assert!(s.get_relations(PrincipalId { id: 1 }, RelationType::Blocked).is_empty());

    s.block_user(PrincipalId { id: 1 }, PrincipalId { id: 6 }).unwrap();
    assert!(s.clear_relations(PrincipalId { id: 1 }));
    assert!(s.get_relations(PrincipalId { id: 1 }, RelationType::Blocked).is_empty());
    assert!(!s.clear_relations(PrincipalId { id: 9 }));
}

#[test]
fn approvals_record_version_and_date() {
    let mut s = shard(10);
    s.add_profile(PrincipalId { id: 1 }, &post("alice"), 1).unwrap();
    assert!(s.approve_code_of_conduct(PrincipalId { id: 1 }, 3, 50).unwrap());
    assert!(s.approve_privacy_policy(PrincipalId { id: 1 }, 4, 51).unwrap());
    assert!(s.approve_terms_of_service(PrincipalId { id: 1 }, 5, 52).unwrap());
    let p = s.get_profile_by_user_principal(PrincipalId { id: 1 }).unwrap();
    assert_eq!(p.code_of_conduct.approved_version, 3);
    assert_eq!(p.code_of_conduct.approved_date, 50);
    assert_eq!(p.privacy_policy.unwrap().approved_version, 4);
    assert_eq!(p.terms_of_service.unwrap().approved_version, 5);
}

#[test]
fn friend_request_lifecycle() {
    let mut s = shard(10);
    s.add_profile(PrincipalId { id: 1 }, &post("alice"), 1).unwrap();
    s.add_profile(PrincipalId { id: 2 }, &post("bob"), 2).unwrap();
    let req = s
        .add_friend_request(PrincipalId { id: 1 }, PrincipalId { id: 2 }, "hi".to_string(), 9)
        .unwrap();
    assert_eq!(req.id, 0);
    match s.add_friend_request(PrincipalId { id: 1 }, PrincipalId { id: 2 }, "again".to_string(), 10)
    {
        Err(ApiError::BadRequest(m)) => assert_eq!(m.tag, "ALREADY_REQUESTED"),
        other => panic!("expected rejection, got {:?}", other.is_ok()),
    }
    match s.add_friend_request(PrincipalId { id: 2 }, PrincipalId { id: 1 }, "back".to_string(), 11)
    {
        Err(ApiError::BadRequest(m)) => assert_eq!(m.tag, "PENDING_REQUEST"),
        other => panic!("expected rejection, got {:?}", other.is_ok()),
    }
    let for_bob = s.get_friend_requests(PrincipalId { id: 2 });
    assert_eq!(for_bob.len(), 1);
    assert_eq!(for_bob[0].message, "hi");

    // only the addressee can accept
    assert!(s.accept_friend_request(PrincipalId { id: 1 }, 0).is_err());
    assert!(s.accept_friend_request(PrincipalId { id: 2 }, 0).unwrap());
    assert!(s.get_friend_requests(PrincipalId { id: 2 }).is_empty());
    assert_eq!(
        s.get_relations(PrincipalId { id: 1 }, RelationType::Friend),
        vec![PrincipalId { id: 2 }]
    );
    assert_eq!(
        s.get_relations(PrincipalId { id: 2 }, RelationType::Friend),
        vec![PrincipalId { id: 1 }]
    );

    assert!(s.remove_friend(PrincipalId { id: 1 }, PrincipalId { id: 2 }).unwrap());
    assert!(s.get_relations(PrincipalId { id: 1 }, RelationType::Friend).is_empty());
    assert!(s.get_relations(PrincipalId { id: 2 }, RelationType::Friend).is_empty());
}

#[test]
fn friend_request_decline_and_withdraw() {
    let mut s = shard(10);
    s.add_profile(PrincipalId { id: 1 }, &post("alice"), 1).unwrap();
    s.add_profile(PrincipalId { id: 2 }, &post("bob"), 2).unwrap();
    let a = s
        .add_friend_request(PrincipalId { id: 1 }, PrincipalId { id: 2 }, "one".to_string(), 5)
        .unwrap();
    assert!(s.decline_friend_request(PrincipalId { id: 1 }, a.id).is_err());
    assert!(s.decline_friend_request(PrincipalId { id: 2 }, a.id).unwrap());

    let b = s
        .add_friend_request(PrincipalId { id: 1 }, PrincipalId { id: 2 }, "two".to_string(), 6)
        .unwrap();
    // after the only request was removed, the id sequence restarts at the
    // successor of the last stored id — here the table was empty again
    assert_eq!(b.id, 0);
    assert!(s.remove_friend_request(PrincipalId { id: 2 }, b.id).is_err());
    assert!(s.remove_friend_request(PrincipalId { id: 1 }, b.id).unwrap());
    assert!(s.get_friend_requests(PrincipalId { id: 1 }).is_empty());
}

#[test]
fn member_identifier_is_recorded_after_registration() {
    let mut s = shard(10);
    let resp = s.add_profile(PrincipalId { id: 1 }, &post("alice"), 1).unwrap();
    // a fresh registration holds the placeholder identity
    assert_eq!(resp.member_identifier, PrincipalId { id: 0 });
    let updated = s
        .set_member_identifier(PrincipalId { id: 1 }, PrincipalId { id: 5000 })
        .unwrap();
    assert_eq!(updated.member_identifier, PrincipalId { id: 5000 });
    let fetched = s.get_profile_by_user_principal(PrincipalId { id: 1 }).unwrap();
    assert_eq!(fetched.member_identifier, PrincipalId { id: 5000 });
    // the member identifier survives a later profile edit
    s.update_profile(PrincipalId { id: 1 }, &update("new name", None), 2).unwrap();
    let after = s.get_profile_by_user_principal(PrincipalId { id: 1 }).unwrap();
    assert_eq!(after.member_identifier, PrincipalId { id: 5000 });
    match s.set_member_identifier(PrincipalId { id: 9 }, PrincipalId { id: 1 }) {
        Err(ApiError::NotFound(m)) => assert_eq!(m.tag, "PROFILE_NOT_FOUND"),
        other => panic!("expected not found, got {:?}", other.is_ok()),
    }
}
