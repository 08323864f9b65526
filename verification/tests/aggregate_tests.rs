use sharded_profiles::aggregate::aggregate;
use sharded_profiles::aggregate::aggregate_shard_payloads;
use sharded_profiles::aggregate::decode_shard_payload;
use sharded_profiles::aggregate::fetch_shard_payload;
use sharded_profiles::profile_models::PostProfile;
use sharded_profiles::profile_models::PrincipalId;
use sharded_profiles::profile_models::ProfileFilter;
use sharded_profiles::profile_models::ProfilePrivacy;
use sharded_profiles::profile_models::ProfileSort;
use sharded_profiles::profile_models::SortDirection;
use sharded_profiles::store::Store;

fn post(username: &str) -> PostProfile {
    PostProfile {
        username: username.to_string(),
        display_name: format!("{} display", username),
        first_name: "Ada".to_string(),
        last_name: "Lovelace".to_string(),
        privacy: ProfilePrivacy::Public,
        extra: String::new(),
    }
}

fn shard_with(address: u64, names: &[&str], first_owner: u64) -> Store {
    let mut s = Store::new("profiles".to_string(), PrincipalId { id: address }, 100);
    let mut owner = first_owner;
    let mut t = 1;
    for n in names {
        s.add_profile(PrincipalId { id: owner }, &post(n), t).unwrap();
        owner += 1;
        t += 1;
    }
    s
}

#[test]
fn aggregate_returns_the_union_sorted_and_paged() {
    // three shards with disjoint record sets
    let shards = vec![
        shard_with(900, &["delta", "alpha"], 1),
        shard_with(901, &["echo", "bravo"], 11),
        shard_with(902, &["charlie"], 21),
    ];
    let filters: Vec<ProfileFilter> = Vec::new();
    let sort = ProfileSort::Username(SortDirection::Asc);

    let r = aggregate(&shards, &filters, sort, 10, 0, 1_000_000);
    assert_eq!(r.total, 5);
    assert_eq!(r.number_of_pages, 1);
    let names: Vec<String> = r.data.iter().map(|p| p.username.clone()).collect();
    assert_eq!(names, vec!["alpha", "bravo", "charlie", "delta", "echo"]);

    // repeated calls on unchanged data give the same page contents
    let again = aggregate(&shards, &filters, sort, 10, 0, 1_000_000);
    let names_again: Vec<String> = again.data.iter().map(|p| p.username.clone()).collect();
    assert_eq!(names, names_again);

    // descending order reverses the merged view
    let desc = aggregate(
        &shards,
        &filters,
        ProfileSort::Username(SortDirection::Desc),
        10,
        0,
        1_000_000,
    );
    let names_desc: Vec<String> = desc.data.iter().map(|p| p.username.clone()).collect();
    assert_eq!(names_desc, vec!["echo", "delta", "charlie", "bravo", "alpha"]);
}

#[test]
fn aggregate_pages_deterministically() {
    let shards = vec![
        shard_with(900, &["delta", "alpha"], 1),
        shard_with(901, &["echo", "bravo"], 11),
        shard_with(902, &["charlie"], 21),
    ];
    let filters: Vec<ProfileFilter> = Vec::new();
    let sort = ProfileSort::Username(SortDirection::Asc);
    let page0 = aggregate(&shards, &filters, sort, 2, 0, 1_000_000);
    let page1 = aggregate(&shards, &filters, sort, 2, 1, 1_000_000);
    let page2 = aggregate(&shards, &filters, sort, 2, 2, 1_000_000);
    assert_eq!(page0.number_of_pages, 3);
    let n0: Vec<String> = page0.data.iter().map(|p| p.username.clone()).collect();
    let n1: Vec<String> = page1.data.iter().map(|p| p.username.clone()).collect();
    let n2: Vec<String> = page2.data.iter().map(|p| p.username.clone()).collect();
    assert_eq!(n0, vec!["alpha", "bravo"]);
    assert_eq!(n1, vec!["charlie", "delta"]);
    assert_eq!(n2, vec!["echo"]);
}

#[test]
fn aggregate_applies_filters_per_shard() {
    let shards = vec![
        shard_with(900, &["anna", "bob"], 1),
        shard_with(901, &["annabel", "carl"], 11),
    ];
    let filters = vec![ProfileFilter::Username("ann".to_string())];
    let sort = ProfileSort::CreatedOn(SortDirection::Asc);
    let r = aggregate(&shards, &filters, sort, 10, 0, 1_000_000);
    assert_eq!(r.total, 2);
    let names: Vec<String> = r.data.iter().map(|p| p.username.clone()).collect();
    assert_eq!(names, vec!["anna", "annabel"]);
}

#[test]
fn drain_issues_one_read_per_chunk() {
    let shard = shard_with(900, &["alice", "bob", "carol"], 1);
    let filters: Vec<ProfileFilter> = Vec::new();

    // one read drains a payload that fits in a single chunk
    let (whole, reads_whole) = fetch_shard_payload(&shard, &filters, 1_000_000);
    assert_eq!(reads_whole, 1);

    // with a small chunk size the drain issues exactly the rounded-up
    // quotient of reads and collects the identical payload
    let chunk_bytes = 100;
    let expected_reads = (whole.len() + chunk_bytes - 1) / chunk_bytes;
    assert!(expected_reads > 1);
    let (drained, reads) = fetch_shard_payload(&shard, &filters, chunk_bytes);
    assert_eq!(reads, expected_reads);
    assert_eq!(drained, whole);

    let decoded = decode_shard_payload(&drained);
    assert_eq!(decoded.len(), 3);
}

#[test]
fn one_bad_shard_contributes_an_empty_set() {
    let shard = shard_with(900, &["alice"], 1);
    let filters: Vec<ProfileFilter> = Vec::new();
    let (good, _) = fetch_shard_payload(&shard, &filters, 1_000_000);
    let bad = vec![0xde, 0xad, 0xbe, 0xef];
    let r = aggregate_shard_payloads(
        &vec![good, bad],
        ProfileSort::Username(SortDirection::Asc),
        10,
        0,
    );
    assert_eq!(r.total, 1);
    assert_eq!(r.data[0].username, "alice");
}

#[test]
fn merged_ties_keep_shard_merge_order() {
    // records on different shards share one created_on timestamp; the
    // merged sort keeps ties in merge order (shard order, then table
    // order), so the page is the same on every call
    let mut a = Store::new("profiles".to_string(), PrincipalId { id: 900 }, 10);
    a.add_profile(PrincipalId { id: 1 }, &post("zeta"), 5).unwrap();
    a.add_profile(PrincipalId { id: 2 }, &post("yankee"), 5).unwrap();
    let mut b = Store::new("profiles".to_string(), PrincipalId { id: 901 }, 10);
    b.add_profile(PrincipalId { id: 11 }, &post("xray"), 5).unwrap();
    let shards = vec![a, b];
    let filters: Vec<ProfileFilter> = Vec::new();
    let sort = ProfileSort::CreatedOn(SortDirection::Asc);
    let r1 = aggregate(&shards, &filters, sort, 10, 0, 1_000_000);
    let names1: Vec<String> = r1.data.iter().map(|p| p.username.clone()).collect();
    assert_eq!(names1, vec!["zeta", "yankee", "xray"]);
    let r2 = aggregate(&shards, &filters, sort, 10, 0, 1_000_000);
    let names2: Vec<String> = r2.data.iter().map(|p| p.username.clone()).collect();
    assert_eq!(names1, names2);
}
