use sharded_profiles::profile_models::DateRange;
use sharded_profiles::profile_models::PostProfile;
use sharded_profiles::profile_models::PrincipalId;
use sharded_profiles::profile_models::ProfileFilter;
use sharded_profiles::profile_models::ProfilePrivacy;
use sharded_profiles::profile_models::ProfileSort;
use sharded_profiles::profile_models::SortDirection;
use sharded_profiles::store::Store;

fn post(username: &str) -> PostProfile {
    PostProfile {
        username: username.to_string(),
        display_name: format!("{} display", username),
        first_name: "Ada".to_string(),
        last_name: "Lovelace".to_string(),
        privacy: ProfilePrivacy::Public,
        extra: String::new(),
    }
}

fn populated() -> Store {
    let mut s = Store::new("profiles".to_string(), PrincipalId { id: 900 }, 10);
    s.add_profile(PrincipalId { id: 1 }, &post("delta"), 10).unwrap();
    s.add_profile(PrincipalId { id: 2 }, &post("alpha"), 20).unwrap();
    s.add_profile(PrincipalId { id: 3 }, &post("charlie"), 30).unwrap();
    s.add_profile(PrincipalId { id: 4 }, &post("bravo"), 40).unwrap();
    s
}

#[test]
fn paged_profiles_by_principal_sorts_and_pages() {
    let s = populated();
    let principals = vec![
        PrincipalId { id: 1 },
        PrincipalId { id: 2 },
        PrincipalId { id: 3 },
        PrincipalId { id: 4 },
        PrincipalId { id: 99 },
    ];
    let filters: Vec<ProfileFilter> = Vec::new();
    let r = s.get_paged_profiles_by_principal(
        &principals,
        2,
        0,
        &filters,
        ProfileSort::Username(SortDirection::Asc),
    );
    assert_eq!(r.total, 4);
    assert_eq!(r.number_of_pages, 2);
    let names: Vec<String> = r.data.iter().map(|p| p.username.clone()).collect();
    assert_eq!(names, vec!["alpha", "bravo"]);
    let r2 = s.get_paged_profiles_by_principal(
        &principals,
        2,
        1,
        &filters,
        ProfileSort::Username(SortDirection::Asc),
    );
    let names2: Vec<String> = r2.data.iter().map(|p| p.username.clone()).collect();
    assert_eq!(names2, vec!["charlie", "delta"]);
}

#[test]
fn paged_profiles_by_identifier_filters_and_sorts() {
    let s = populated();
    let identifiers: Vec<_> = s.get_all().into_iter().map(|e| e.0).collect();
    let filters = vec![ProfileFilter::Username("a".to_string())];
    let r = s.get_paged_profiles_by_identifier(
        &identifiers,
        10,
        0,
        &filters,
        ProfileSort::CreatedOn(SortDirection::Desc),
    );
    // "a" occurs in delta, alpha, charlie, bravo — all of them
    assert_eq!(r.total, 4);
    let names: Vec<String> = r.data.iter().map(|p| p.username.clone()).collect();
    assert_eq!(names, vec!["bravo", "charlie", "alpha", "delta"]);
}

#[test]
fn filters_compose_as_a_conjunction() {
    let s = populated();
    let identifiers: Vec<_> = s.get_all().into_iter().map(|e| e.0).collect();
    let filters = vec![
        ProfileFilter::Username("a".to_string()),
        ProfileFilter::CreatedOn(DateRange { start_date: 15, end_date: 35 }),
    ];
    let r = s.get_paged_profiles_by_identifier(
        &identifiers,
        10,
        0,
        &filters,
        ProfileSort::CreatedOn(SortDirection::Asc),
    );
    let names: Vec<String> = r.data.iter().map(|p| p.username.clone()).collect();
    assert_eq!(names, vec!["alpha", "charlie"]);
}

#[test]
fn substring_filter_matches_anywhere() {
    let s = populated();
    let identifiers: Vec<_> = s.get_all().into_iter().map(|e| e.0).collect();
    let filters = vec![ProfileFilter::Username("arl".to_string())];
    let r = s.get_paged_profiles_by_identifier(
        &identifiers,
        10,
        0,
        &filters,
        ProfileSort::Username(SortDirection::Asc),
    );
    let names: Vec<String> = r.data.iter().map(|p| p.username.clone()).collect();
    assert_eq!(names, vec!["charlie"]);
}

#[test]
fn profiles_by_principal_keep_request_order() {
    let s = populated();
    let responses = s.get_profiles_by_user_principal(&vec![
        PrincipalId { id: 3 },
        PrincipalId { id: 1 },
        PrincipalId { id: 42 },
    ]);
    let names: Vec<String> = responses.iter().map(|p| p.username.clone()).collect();
    assert_eq!(names, vec!["charlie", "delta"]);
}

#[test]
fn profiles_by_identifier_skip_foreign_identifiers() {
    let s = populated();
    let mut identifiers: Vec<_> = s.get_all().into_iter().map(|e| e.0).collect();
    identifiers[0].canister = PrincipalId { id: 777 };
    let responses = s.get_profiles_by_identifier(&identifiers);
    assert_eq!(responses.len(), 3);
}

#[test]
fn chunked_data_serves_the_filtered_payload() {
    let s = populated();
    let filters = vec![ProfileFilter::Username("alpha".to_string())];
    let (bytes, marker) = s.get_chunked_data(&filters, 0, 1_000_000);
    assert_eq!(marker, (0, 0));
    let decoded = sharded_profiles::aggregate::decode_shard_payload(&bytes);
    assert_eq!(decoded.len(), 1);
    assert_eq!(decoded[0].username, "alpha");

    // the same payload served in small chunks concatenates identically
    let chunk = 10;
    let mut collected: Vec<u8> = Vec::new();
    let (first, (_, last)) = s.get_chunked_data(&filters, 0, chunk);
    collected.extend_from_slice(&first);
    for i in 1..=last {
        let (piece, _) = s.get_chunked_data(&filters, i, chunk);
        collected.extend_from_slice(&piece);
    }
    assert_eq!(collected, bytes);
}

#[test]
fn zero_limit_paging_is_empty() {
    let s = populated();
    let identifiers: Vec<_> = s.get_all().into_iter().map(|e| e.0).collect();
    let filters: Vec<ProfileFilter> = Vec::new();
    let r = s.get_paged_profiles_by_identifier(
        &identifiers,
        0,
        0,
        &filters,
        ProfileSort::Username(SortDirection::Asc),
    );
    assert_eq!(r.total, 4);
    assert_eq!(r.number_of_pages, 0);
    assert!(r.data.is_empty());
}

#[test]
fn sort_is_stable_on_equal_keys() {
    // all four records share one created_on timestamp: sorting by it must
    // keep them in their insertion order, never reorder ties
    let mut s = Store::new("profiles".to_string(), PrincipalId { id: 900 }, 10);
    for (i, name) in ["delta", "alpha", "charlie", "bravo"].iter().enumerate() {
        s.add_profile(PrincipalId { id: 1 + i as u64 }, &post(name), 77).unwrap();
    }
    let identifiers: Vec<_> = s.get_all().into_iter().map(|e| e.0).collect();
    let filters: Vec<ProfileFilter> = Vec::new();
    let r = s.get_paged_profiles_by_identifier(
        &identifiers,
        10,
        0,
        &filters,
        ProfileSort::CreatedOn(SortDirection::Asc),
    );
    let names: Vec<String> = r.data.iter().map(|p| p.username.clone()).collect();
    assert_eq!(names, vec!["delta", "alpha", "charlie", "bravo"]);
    let desc = s.get_paged_profiles_by_identifier(
        &identifiers,
        10,
        0,
        &filters,
        ProfileSort::CreatedOn(SortDirection::Desc),
    );
    let names_desc: Vec<String> = desc.data.iter().map(|p| p.username.clone()).collect();
    assert_eq!(names_desc, vec!["delta", "alpha", "charlie", "bravo"]);
}
