use sharded_profiles::codec::chunk_read;
use sharded_profiles::codec::reassemble;
use sharded_profiles::codec::split_into_chunks;
use sharded_profiles::codec::Chunk;
use sharded_profiles::errors::BackupError;

fn payload_of(len: usize) -> Vec<u8> {
    let mut v = Vec::with_capacity(len);
    let mut i: usize = 0;
    while i < len {
        v.push((i % 251) as u8);
        i += 1;
    }
    v
}

#[test]
fn split_reassemble_round_trip() {
    let payload = payload_of(10_000);
    let chunks = split_into_chunks(&payload, 1_024);
    assert_eq!(chunks.len(), 10);
    for (i, c) in chunks.iter().enumerate() {
        assert_eq!(c.chunk_id, i as u64);
    }
    let back = reassemble(&chunks).expect("ordered chunks must reassemble");
    assert_eq!(back, payload);
}

#[test]
fn split_empty_payload_yields_no_chunks() {
    let payload: Vec<u8> = Vec::new();
    let chunks = split_into_chunks(&payload, 1_024);
    assert_eq!(chunks.len(), 0);
    let back = reassemble(&chunks).expect("no chunks reassemble to nothing");
    assert_eq!(back.len(), 0);
}

#[test]
fn reassembly_is_order_sensitive() {
    let payload = payload_of(3_000);
    let mut chunks = split_into_chunks(&payload, 1_000);
    chunks.swap(0, 2);
    match reassemble(&chunks) {
        Err(BackupError::ChunkOrderError) => {}
        other => panic!("out-of-order chunks must be fatal, got {:?}", other.map(|v| v.len())),
    }
}

#[test]
fn reassembly_rejects_duplicate_index() {
    let chunks = vec![
        Chunk { chunk_id: 0, data: vec![1, 2] },
        Chunk { chunk_id: 0, data: vec![3, 4] },
    ];
    assert!(matches!(reassemble(&chunks), Err(BackupError::ChunkOrderError)));
}

#[test]
fn large_payload_chunk_boundaries() {
    // a payload of 2,500,000 bytes at 1,000,000 bytes per chunk: three
    // chunks with indices 0, 1, 2, and a final chunk of 500,000 bytes
    let payload = payload_of(2_500_000);
    let chunks = split_into_chunks(&payload, 1_000_000);
    assert_eq!(chunks.len(), 3);
    assert_eq!(chunks[0].chunk_id, 0);
    assert_eq!(chunks[1].chunk_id, 1);
    assert_eq!(chunks[2].chunk_id, 2);
    assert_eq!(chunks[0].data.len(), 1_000_000);
    assert_eq!(chunks[1].data.len(), 1_000_000);
    assert_eq!(chunks[2].data.len(), 500_000);

    let (piece0, marker0) = chunk_read(&payload, 0, 1_000_000);
    assert_eq!(marker0, (0, 2));
    assert_eq!(piece0.len(), 1_000_000);
    let (piece2, marker2) = chunk_read(&payload, 2, 1_000_000);
    assert_eq!(marker2, (2, 2));
    assert_eq!(piece2.len(), 500_000);
    assert_eq!(piece2[..], payload[2_000_000..]);
}

#[test]
fn small_payload_served_whole_under_sentinel() {
    let payload = payload_of(500);
    let (piece, marker) = chunk_read(&payload, 0, 1_000);
    assert_eq!(marker, (0, 0));
    assert_eq!(piece, payload);
}

#[test]
fn chunk_read_beyond_last_is_empty() {
    let payload = payload_of(2_500);
    let (piece, marker) = chunk_read(&payload, 9, 1_000);
    assert_eq!(marker, (9, 2));
    assert_eq!(piece.len(), 0);
}
