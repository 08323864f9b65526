use sharded_profiles::backup::Backup;
use sharded_profiles::codec::Chunk;
use sharded_profiles::errors::BackupError;
use sharded_profiles::profile_models::PostProfile;
use sharded_profiles::profile_models::PrincipalId;
use sharded_profiles::profile_models::ProfilePrivacy;
use sharded_profiles::store::Store;

fn post(username: &str) -> PostProfile {
    PostProfile {
        username: username.to_string(),
        display_name: format!("{} display", username),
        first_name: "Ada".to_string(),
        last_name: "Lovelace".to_string(),
        privacy: ProfilePrivacy::Public,
        extra: String::new(),
    }
}

fn populated_store() -> Store {
    let mut s = Store::new("profiles".to_string(), PrincipalId { id: 900 }, 10);
    s.add_profile(PrincipalId { id: 1 }, &post("alice"), 1).unwrap();
    s.add_profile(PrincipalId { id: 2 }, &post("bob"), 2).unwrap();
    s.add_friend_request(PrincipalId { id: 1 }, PrincipalId { id: 2 }, "hi".to_string(), 3)
        .unwrap();
    s
}

#[test]
fn snapshot_then_restore_reproduces_the_table() {
    let store = populated_store();
    let mut backup = Backup::new();
    let hash_hex = backup.backup_data(&store);
    assert_eq!(hash_hex.len(), 64);

    let mut replica = Store::new("empty".to_string(), PrincipalId { id: 7 }, 1);
    let restored_hex = backup.restore_data(&mut replica).expect("restore must succeed");
    assert_eq!(restored_hex, hash_hex);

    assert_eq!(replica.name, store.name);
    assert_eq!(replica.canister, store.canister);
    assert_eq!(replica.capacity, store.capacity);
    assert_eq!(replica.current_entry_id, store.current_entry_id);
    let a = replica.get_all();
    let b = store.get_all();
    assert_eq!(a.len(), b.len());
    for i in 0..a.len() {
        assert_eq!(a[i].1.username, b[i].1.username);
    }
    // byte-identical snapshots of the restored table
    let mut backup2 = Backup::new();
    let hash2 = backup2.backup_data(&replica);
    assert_eq!(hash2, hash_hex);
}

#[test]
fn single_bit_mutation_fails_with_hash_mismatch() {
    let store = populated_store();
    let mut backup = Backup::new();
    backup.backup_data(&store);

    // flip one bit in one chunk
    backup.chunks[0].data[5] ^= 0x01;

    let mut replica = Store::new("untouched".to_string(), PrincipalId { id: 7 }, 3);
    match backup.restore_data(&mut replica) {
        Err(BackupError::HashMismatch) => {}
        other => panic!("expected a hash mismatch, got ok={}", other.is_ok()),
    }
    // the live table is left unchanged
    assert_eq!(replica.name, "untouched");
    assert_eq!(replica.get_all().len(), 0);
}

#[test]
fn upload_round_trip_via_download() {
    let store = populated_store();
    let mut source = Backup::new();
    let source_hash = source.backup_data(&store);
    let total = source.total_chunks();
    assert_eq!(source.check_backup_data_chunks(), total);

    let mut target = Backup::new();
    for n in 0..total {
        let chunk = source.download_chunk(n as u64).unwrap();
        target.upload_chunk(chunk).unwrap();
    }
    let final_hash = target.finalize_upload().unwrap();
    assert_eq!(final_hash, source_hash);

    let mut replica = Store::new("empty".to_string(), PrincipalId { id: 7 }, 1);
    target.restore_data(&mut replica).unwrap();
    assert_eq!(replica.get_all().len(), 2);
}

#[test]
fn out_of_order_upload_is_rejected() {
    let mut backup = Backup::new();
    let late = Chunk { chunk_id: 2, data: vec![9, 9] };
    match backup.upload_chunk(late) {
        Err(BackupError::ChunkOrderError) => {}
        other => panic!("expected an order error, got ok={}", other.is_ok()),
    }
}

#[test]
fn upload_into_finalized_backup_is_rejected() {
    let store = populated_store();
    let mut backup = Backup::new();
    backup.backup_data(&store);
    let chunk = Chunk { chunk_id: 0, data: vec![1] };
    match backup.upload_chunk(chunk) {
        Err(BackupError::NotEmpty) => {}
        other => panic!("expected rejection, got ok={}", other.is_ok()),
    }
    backup.clear_backup();
    assert_eq!(backup.total_chunks(), 0);
    let chunk = Chunk { chunk_id: 0, data: vec![1] };
    assert!(backup.upload_chunk(chunk).is_ok());
}

#[test]
fn download_chunk_out_of_range() {
    let mut backup = Backup::new();
    backup.upload_chunk(Chunk { chunk_id: 0, data: vec![1, 2, 3] }).unwrap();
    assert!(backup.download_chunk(0).is_ok());
    match backup.download_chunk(1) {
        Err(BackupError::IndexOutOfRange) => {}
        other => panic!("expected out of range, got ok={}", other.is_ok()),
    }
}

#[test]
fn undecodable_chunks_fail_with_decode_error() {
    let mut backup = Backup::new();
    backup.upload_chunk(Chunk { chunk_id: 0, data: vec![0xff; 16] }).unwrap();
    backup.finalize_upload().unwrap();
    let mut replica = Store::new("untouched".to_string(), PrincipalId { id: 7 }, 3);
    match backup.restore_data(&mut replica) {
        Err(BackupError::DecodeError) => {}
        other => panic!("expected a decode error, got ok={}", other.is_ok()),
    }
    assert_eq!(replica.name, "untouched");
}

#[test]
fn finalize_upload_hashes_with_the_content_hash() {
    // the well-known SHA-256 digest of the three bytes "abc"
    let mut backup = Backup::new();
    backup.upload_chunk(Chunk { chunk_id: 0, data: vec![b'a', b'b', b'c'] }).unwrap();
    let hex = backup.finalize_upload().unwrap();
    assert_eq!(hex, "ba7816bf8f01cfea414140de5dae2223b00361a396177a9cb410ff61f20015ad");
}

#[test]
fn remove_backup_resets_state() {
    let store = populated_store();
    let mut backup = Backup::new();
    backup.backup_data(&store);
    assert!(backup.total_chunks() > 0);
    backup.remove_backup();
    assert_eq!(backup.total_chunks(), 0);
    assert!(backup.hash.is_empty());
}
