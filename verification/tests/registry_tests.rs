use sharded_profiles::errors::ApiError;
use sharded_profiles::profile_models::PostProfile;
use sharded_profiles::profile_models::PrincipalId;
use sharded_profiles::profile_models::ProfilePrivacy;
use sharded_profiles::registry::CanisterType;
use sharded_profiles::registry::ScalableData;
use sharded_profiles::registry::WasmDetails;
use sharded_profiles::registry::WasmVersion;
use sharded_profiles::store::Store;

fn post(username: &str) -> PostProfile {
    PostProfile {
        username: username.to_string(),
        display_name: format!("{} display", username),
        first_name: "Ada".to_string(),
        last_name: "Lovelace".to_string(),
        privacy: ProfilePrivacy::Public,
        extra: String::new(),
    }
}

fn image(bytes: Vec<u8>, version: u64) -> WasmDetails {
    WasmDetails {
        label: "child_profile_canister".to_string(),
        bytes,
        wasm_type: CanisterType::ScalableChild,
        wasm_version: WasmVersion::Version(version),
        updated_at: 0,
        created_at: 0,
    }
}

fn registry_with_wasm() -> ScalableData {
    ScalableData::new(
        "profiles".to_string(),
        PrincipalId { id: 1 },
        image(vec![1, 2, 3], 1),
        0,
    )
}

#[test]
fn pick_available_shard_excludes_the_caller() {
    let mut reg = registry_with_wasm();
    assert!(reg.get_available_canister(PrincipalId { id: 0 }).is_err());
    reg.register_spawned(PrincipalId { id: 900 });
    reg.register_installed(PrincipalId { id: 900 }).unwrap();
    let picked = reg.get_available_canister(PrincipalId { id: 0 }).unwrap();
    assert_eq!(picked.principal, PrincipalId { id: 900 });
    // a shard asking for a sibling is never routed to itself
    assert!(reg.get_available_canister(PrincipalId { id: 900 }).is_err());
}

#[test]
fn capacity_overflow_migrates_to_a_new_shard() {
    // capacity 2: records A and B are accepted, C overflows; the registry
    // closes the full shard, provisions a sibling, and C lands there
    let mut reg = registry_with_wasm();
    let old_addr = PrincipalId { id: 900 };
    reg.register_spawned(old_addr);
    reg.register_installed(old_addr).unwrap();

    let mut old_shard = Store::new("profiles".to_string(), old_addr, 2);
    old_shard.add_profile(PrincipalId { id: 1 }, &post("alice"), 1).unwrap();
    old_shard.add_profile(PrincipalId { id: 2 }, &post("bob"), 2).unwrap();
    let overflow = match old_shard.add_profile(PrincipalId { id: 3 }, &post("carol"), 3) {
        Err(ApiError::CanisterAtCapacity(_)) => post("carol"),
        other => panic!("expected the capacity error, got {:?}", other.is_ok()),
    };
    assert_eq!(old_shard.get_all().len(), 2);

    // the overflowing shard calls home: the coordinator checks, spawns
    // and installs a sibling, seals the caller, then forwards the record
    reg.close_and_migrate_begin(old_addr).unwrap();
    let sibling_addr = PrincipalId { id: 901 };
    reg.register_spawned(sibling_addr);
    reg.register_installed(sibling_addr).unwrap();
    reg.mark_closed(old_addr, old_shard.current_entry_id).unwrap();

    let mut sibling = Store::new("profiles".to_string(), sibling_addr, 2);
    let forwarded = sibling.add_profile(PrincipalId { id: 3 }, &overflow, 4);
    let new_addr = reg
        .close_and_migrate_finish(sibling_addr, forwarded.is_ok())
        .unwrap();
    assert_eq!(new_addr, sibling_addr);

    // C landed on the sibling, the old shard is closed and unchanged
    assert_eq!(sibling.get_all().len(), 1);
    assert_eq!(sibling.get_all()[0].1.username, "carol");
    assert_eq!(old_shard.get_all().len(), 2);
    let canisters = reg.get_canisters();
    let old_details = canisters.iter().find(|c| c.principal == old_addr).unwrap();
    assert!(!old_details.is_available);
    assert_eq!(old_details.entry_range.1, Some(2));
    let new_details = canisters.iter().find(|c| c.principal == sibling_addr).unwrap();
    assert!(new_details.is_available);
}

#[test]
fn failed_forward_is_a_distinct_fatal_error() {
    let reg = registry_with_wasm();
    match reg.close_and_migrate_finish(PrincipalId { id: 901 }, false) {
        Err(ApiError::BadRequest(m)) => assert_eq!(m.tag, "FAILED_TO_STORE_DATA"),
        other => panic!("expected the forward failure, got {:?}", other.is_ok()),
    }
}

#[test]
fn migrate_checks_wasm_and_known_caller() {
    let empty = ScalableData::new(
        "profiles".to_string(),
        PrincipalId { id: 1 },
        image(Vec::new(), 0),
        0,
    );
    match empty.close_and_migrate_begin(PrincipalId { id: 900 }) {
        Err(ApiError::BadRequest(m)) => assert_eq!(m.tag, "NO_WASM_SPECIFIED"),
        other => panic!("expected rejection, got {:?}", other.is_ok()),
    }
    let reg = registry_with_wasm();
    match reg.close_and_migrate_begin(PrincipalId { id: 900 }) {
        Err(ApiError::BadRequest(m)) => assert_eq!(m.tag, "UNKNOWN_CANISTER"),
        other => panic!("expected rejection, got {:?}", other.is_ok()),
    }
}

#[test]
fn upgrade_protocol_tracks_versions() {
    let mut reg = registry_with_wasm();
    let addr = PrincipalId { id: 900 };
    reg.register_spawned(addr);
    reg.register_installed(addr).unwrap();

    match reg.upgrade_check(PrincipalId { id: 999 }) {
        Err(ApiError::NotFound(m)) => assert_eq!(m.tag, "NO_CHILDREN"),
        other => panic!("expected not found, got {:?}", other.is_ok()),
    }
    // freshly installed at the current image: up to date
    match reg.upgrade_check(addr) {
        Err(ApiError::BadRequest(m)) => assert_eq!(m.tag, "CANISTER_UP_TO_DATE"),
        other => panic!("expected up-to-date, got {:?}", other.is_ok()),
    }

    // a new image makes the shard upgradable
    let new_image = reg.get_child_wasm_data(vec![9, 9, 9], 2, 5).unwrap();
    reg.set_child_wasm(new_image, 5);
    assert!(reg.upgrade_check(addr).is_ok());
    let details = reg.get_canisters();
    assert!(reg.needs_upgrade(&details[0]));
    let upgraded = reg.confirm_upgrade(addr).unwrap();
    assert_eq!(upgraded.wasm_version, WasmVersion::Version(2));
    assert!(matches!(
        reg.upgrade_check(addr),
        Err(ApiError::BadRequest(_))
    ));
}

#[test]
fn child_wasm_update_rejects_empty_and_identical_images() {
    let reg = registry_with_wasm();
    assert!(reg.get_child_wasm_data(Vec::new(), 2, 5).is_err());
    assert!(reg.get_child_wasm_data(vec![1, 2, 3], 2, 5).is_err());
    let ok = reg.get_child_wasm_data(vec![4, 5], 2, 5).unwrap();
    assert_eq!(ok.wasm_version, WasmVersion::Version(2));
    assert_eq!(ok.bytes, vec![4, 5]);
}

#[test]
fn registry_metadata_reports_the_pool() {
    let mut reg = registry_with_wasm();
    reg.register_spawned(PrincipalId { id: 900 });
    let meta = reg.metadata(77, 88);
    assert_eq!(meta.name, "profiles");
    assert_eq!(meta.canister_count, 1);
    assert!(meta.has_child_wasm);
    assert_eq!(meta.cycles, 77);
    assert_eq!(meta.used_data, 88);
    assert_eq!(meta.parent, PrincipalId { id: 1 });
}
