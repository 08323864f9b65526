//! Local queries over a shard's records: conjunction of filters, a single
//! sort key applied to the merged set, and pagination. The same functions
//! serve the shard's own paged reads and the coordinator's aggregation.

use vstd::prelude::*;
use vstd::seq_lib::group_seq_properties;
use vstd::multiset::Multiset;
use vstd::arithmetic::div_mod::lemma_fundamental_div_mod;
use vstd::arithmetic::mul::lemma_mul_inequality;
use crate::codec::spec_chunk_data;
use crate::codec::spec_num_chunks;
use crate::codec::chunk_read;
use crate::profile_models::Identifier;
use crate::profile_models::IdentifierView;
use crate::profile_models::PrincipalId;
use crate::profile_models::ProfileFilter;
use crate::profile_models::ProfileResponse;
use crate::profile_models::ProfileResponseView;
use crate::profile_models::ProfileSort;
use crate::profile_models::SortDirection;
use crate::profile_models::profile_responses_view;
use crate::profile_models::identifiers_view;
use crate::store::Store;
use crate::store::StoreView;
use crate::store::find_key_idx;
use crate::store::lemma_find_key_idx;
use crate::store::lemma_find_principal_idx;
use crate::store::find_principal_idx;
use crate::store::map_profile_to_profile_response;
use crate::store::response_view_of;
use crate::store::spec_identifier;
use crate::text::contains_sub;
use crate::text::lex_le;
use crate::text::lemma_lex_le_total;
use crate::text::lemma_lex_le_trans;
use crate::text::string_contains;
use crate::text::string_le;
use crate::wire_records::enc_profile_response_list;
use crate::wire_records::write_profile_response_list;

verus! {

// ---------------------------------------------------------------------
// filters
// ---------------------------------------------------------------------
/// Whether one record passes one filter.
pub open spec fn filter_matches(p: ProfileResponseView, f: ProfileFilter) -> bool {
    match f {
        ProfileFilter::Username(v) => contains_sub(p.username, v@),
        ProfileFilter::DisplayName(v) => contains_sub(p.display_name, v@),
        ProfileFilter::FirstName(v) => contains_sub(p.first_name, v@),
        ProfileFilter::LastName(v) => contains_sub(p.last_name, v@),
        ProfileFilter::Email(v) => contains_sub(p.email, v@),
        ProfileFilter::City(v) => contains_sub(p.city, v@),
        ProfileFilter::StateOrProvince(v) => p.state_or_province == v@,
        ProfileFilter::Country(v) => contains_sub(p.country, v@),
        ProfileFilter::UpdatedOn(range) => range.start_date <= p.updated_on <= range.end_date,
        ProfileFilter::CreatedOn(range) => range.start_date <= p.created_on <= range.end_date,
        ProfileFilter::Skill(v) => p.skills.contains(v),
        ProfileFilter::Interest(v) => p.interests.contains(v),
        ProfileFilter::Cause(v) => p.causes.contains(v),
    }
}

/// Whether one record passes every filter of a query.
pub open spec fn matches_all(p: ProfileResponseView, filters: Seq<ProfileFilter>) -> bool {
    forall|i: int| 0 <= i < filters.len() ==> filter_matches(p, #[trigger] filters[i])
}

/// The records that pass every filter, in their original order.
pub open spec fn spec_filtered(
    profiles: Seq<ProfileResponseView>,
    filters: Seq<ProfileFilter>,
) -> Seq<ProfileResponseView>
    decreases profiles.len(),
{
    if profiles.len() == 0 {
        Seq::empty()
    } else {
        let rest = spec_filtered(profiles.drop_last(), filters);
        if matches_all(profiles.last(), filters) {
            rest.push(profiles.last())
        } else {
            rest
        }
    }
}

/// Whether a numeric tag list holds `v`.
fn u32_list_contains(list: &Vec<u32>, v: u32) -> (r: bool)
    ensures
        r == list@.contains(v),
{
    let mut i: usize = 0;
    while i < list.len()
        invariant
            i <= list@.len(),
            forall|k: int| 0 <= k < i as int ==> list@[k] != v,
        decreases list.len() - i,
    {
        if list[i] == v {
            return true;
        }
        i = i + 1;
    }
    proof {
        assert(forall|k: int| 0 <= k < list@.len() ==> list@[k] != v);
    }
    false
}

/// Whether one record passes one filter, mirroring `filter_matches`.
pub fn profile_matches_filter(p: &ProfileResponse, f: &ProfileFilter) -> (r: bool)
    ensures
        r == filter_matches(p@, *f),
{
    match f {
        ProfileFilter::Username(v) => string_contains(&p.username, v),
        ProfileFilter::DisplayName(v) => string_contains(&p.display_name, v),
        ProfileFilter::FirstName(v) => string_contains(&p.first_name, v),
        ProfileFilter::LastName(v) => string_contains(&p.last_name, v),
        ProfileFilter::Email(v) => string_contains(&p.email, v),
        ProfileFilter::City(v) => string_contains(&p.city, v),
        ProfileFilter::StateOrProvince(v) => p.state_or_province == *v,
        ProfileFilter::Country(v) => string_contains(&p.country, v),
        ProfileFilter::UpdatedOn(range) => range.start_date <= p.updated_on && p.updated_on
            <= range.end_date,
        ProfileFilter::CreatedOn(range) => range.start_date <= p.created_on && p.created_on
            <= range.end_date,
        ProfileFilter::Skill(v) => u32_list_contains(&p.skills, *v),
        ProfileFilter::Interest(v) => u32_list_contains(&p.interests, *v),
        ProfileFilter::Cause(v) => u32_list_contains(&p.causes, *v),
    }
}

/// Whether one record passes every filter, mirroring `matches_all`.
pub fn profile_matches_all(p: &ProfileResponse, filters: &Vec<ProfileFilter>) -> (r: bool)
    ensures
        r == matches_all(p@, filters@),
{
    let mut i: usize = 0;
    while i < filters.len()
        invariant
            i <= filters@.len(),
            forall|k: int| 0 <= k < i as int ==> filter_matches(p@, #[trigger] filters@[k]),
        decreases filters.len() - i,
    {
        if !profile_matches_filter(p, &filters[i]) {
            return false;
        }
        i = i + 1;
    }
    true
}

// ---------------------------------------------------------------------
// the sort key
// ---------------------------------------------------------------------
/// Order of two character keys under a direction.
pub open spec fn dir_lex_le(a: Seq<char>, b: Seq<char>, d: SortDirection) -> bool {
    match d {
        SortDirection::Asc => lex_le(a, b),
        SortDirection::Desc => lex_le(b, a),
    }
}

/// Order of two numeric keys under a direction.
pub open spec fn dir_num_le(a: u64, b: u64, d: SortDirection) -> bool {
    match d {
        SortDirection::Asc => a <= b,
        SortDirection::Desc => b <= a,
    }
}

/// `a` sorts at or before `b` under the requested sort key.
pub open spec fn sort_key_le(
    a: ProfileResponseView,
    b: ProfileResponseView,
    sort: ProfileSort,
) -> bool {
    match sort {
        ProfileSort::Username(d) => dir_lex_le(a.username, b.username, d),
        ProfileSort::DisplayName(d) => dir_lex_le(a.display_name, b.display_name, d),
        ProfileSort::FirstName(d) => dir_lex_le(a.first_name, b.first_name, d),
        ProfileSort::LastName(d) => dir_lex_le(a.last_name, b.last_name, d),
        ProfileSort::Email(d) => dir_lex_le(a.email, b.email, d),
        ProfileSort::City(d) => dir_lex_le(a.city, b.city, d),
        ProfileSort::StateOrProvince(d) => dir_lex_le(a.state_or_province, b.state_or_province, d),
        ProfileSort::Country(d) => dir_lex_le(a.country, b.country, d),
        ProfileSort::CreatedOn(d) => dir_num_le(a.created_on, b.created_on, d),
        ProfileSort::UpdatedOn(d) => dir_num_le(a.updated_on, b.updated_on, d),
    }
}

/// The sort key orders every pair one way or the other.
pub proof fn lemma_sort_key_total(a: ProfileResponseView, b: ProfileResponseView, sort: ProfileSort)
    ensures
        sort_key_le(a, b, sort) || sort_key_le(b, a, sort),
{
    match sort {
        ProfileSort::Username(d) => lemma_lex_le_total(a.username, b.username),
        ProfileSort::DisplayName(d) => lemma_lex_le_total(a.display_name, b.display_name),
        ProfileSort::FirstName(d) => lemma_lex_le_total(a.first_name, b.first_name),
        ProfileSort::LastName(d) => lemma_lex_le_total(a.last_name, b.last_name),
        ProfileSort::Email(d) => lemma_lex_le_total(a.email, b.email),
        ProfileSort::City(d) => lemma_lex_le_total(a.city, b.city),
        ProfileSort::StateOrProvince(d) => lemma_lex_le_total(
            a.state_or_province,
            b.state_or_province,
        ),
        ProfileSort::Country(d) => lemma_lex_le_total(a.country, b.country),
        ProfileSort::CreatedOn(d) => {},
        ProfileSort::UpdatedOn(d) => {},
    }
}

/// The sort key is transitive.
pub proof fn lemma_sort_key_trans(
    a: ProfileResponseView,
    b: ProfileResponseView,
    c: ProfileResponseView,
    sort: ProfileSort,
)
    requires
        sort_key_le(a, b, sort),
        sort_key_le(b, c, sort),
    ensures
        sort_key_le(a, c, sort),
{
    match sort {
        ProfileSort::Username(d) => match d {
            SortDirection::Asc => lemma_lex_le_trans(a.username, b.username, c.username),
            SortDirection::Desc => lemma_lex_le_trans(c.username, b.username, a.username),
        },
        ProfileSort::DisplayName(d) => match d {
            SortDirection::Asc => lemma_lex_le_trans(a.display_name, b.display_name, c.display_name),
            SortDirection::Desc => lemma_lex_le_trans(c.display_name, b.display_name, a.display_name),
        },
        ProfileSort::FirstName(d) => match d {
            SortDirection::Asc => lemma_lex_le_trans(a.first_name, b.first_name, c.first_name),
            SortDirection::Desc => lemma_lex_le_trans(c.first_name, b.first_name, a.first_name),
        },
        ProfileSort::LastName(d) => match d {
            SortDirection::Asc => lemma_lex_le_trans(a.last_name, b.last_name, c.last_name),
            SortDirection::Desc => lemma_lex_le_trans(c.last_name, b.last_name, a.last_name),
        },
        ProfileSort::Email(d) => match d {
            SortDirection::Asc => lemma_lex_le_trans(a.email, b.email, c.email),
            SortDirection::Desc => lemma_lex_le_trans(c.email, b.email, a.email),
        },
        ProfileSort::City(d) => match d {
            SortDirection::Asc => lemma_lex_le_trans(a.city, b.city, c.city),
            SortDirection::Desc => lemma_lex_le_trans(c.city, b.city, a.city),
        },
        ProfileSort::StateOrProvince(d) => match d {
            SortDirection::Asc => lemma_lex_le_trans(
                a.state_or_province,
                b.state_or_province,
                c.state_or_province,
            ),
            SortDirection::Desc => lemma_lex_le_trans(
                c.state_or_province,
                b.state_or_province,
                a.state_or_province,
            ),
        },
        ProfileSort::Country(d) => match d {
            SortDirection::Asc => lemma_lex_le_trans(a.country, b.country, c.country),
            SortDirection::Desc => lemma_lex_le_trans(c.country, b.country, a.country),
        },
        ProfileSort::CreatedOn(d) => {},
        ProfileSort::UpdatedOn(d) => {},
    }
}

/// Compares two records under the sort key, mirroring `sort_key_le`.
pub fn response_le(a: &ProfileResponse, b: &ProfileResponse, sort: &ProfileSort) -> (r: bool)
    ensures
        r == sort_key_le(a@, b@, *sort),
{
    match sort {
        ProfileSort::Username(d) => match d {
            SortDirection::Asc => string_le(&a.username, &b.username),
            SortDirection::Desc => string_le(&b.username, &a.username),
        },
        ProfileSort::DisplayName(d) => match d {
            SortDirection::Asc => string_le(&a.display_name, &b.display_name),
            SortDirection::Desc => string_le(&b.display_name, &a.display_name),
        },
        ProfileSort::FirstName(d) => match d {
            SortDirection::Asc => string_le(&a.first_name, &b.first_name),
            SortDirection::Desc => string_le(&b.first_name, &a.first_name),
        },
        ProfileSort::LastName(d) => match d {
            SortDirection::Asc => string_le(&a.last_name, &b.last_name),
            SortDirection::Desc => string_le(&b.last_name, &a.last_name),
        },
        ProfileSort::Email(d) => match d {
            SortDirection::Asc => string_le(&a.email, &b.email),
            SortDirection::Desc => string_le(&b.email, &a.email),
        },
        ProfileSort::City(d) => match d {
            SortDirection::Asc => string_le(&a.city, &b.city),
            SortDirection::Desc => string_le(&b.city, &a.city),
        },
        ProfileSort::StateOrProvince(d) => match d {
            SortDirection::Asc => string_le(&a.state_or_province, &b.state_or_province),
            SortDirection::Desc => string_le(&b.state_or_province, &a.state_or_province),
        },
        ProfileSort::Country(d) => match d {
            SortDirection::Asc => string_le(&a.country, &b.country),
            SortDirection::Desc => string_le(&b.country, &a.country),
        },
        ProfileSort::CreatedOn(d) => match d {
            SortDirection::Asc => a.created_on <= b.created_on,
            SortDirection::Desc => b.created_on <= a.created_on,
        },
        ProfileSort::UpdatedOn(d) => match d {
            SortDirection::Asc => a.updated_on <= b.updated_on,
            SortDirection::Desc => b.updated_on <= a.updated_on,
        },
    }
}

/// Every record sorts at or before every later record.
pub open spec fn sorted_by(s: Seq<ProfileResponseView>, sort: ProfileSort) -> bool {
    forall|i: int, j: int| 0 <= i < j < s.len() ==> sort_key_le(s[i], s[j], sort)
}

/// Index of the first record that sorts at or before every record seen so
/// far: a later record displaces it only when it sorts strictly earlier.
pub open spec fn spec_min_idx(s: Seq<ProfileResponseView>, sort: ProfileSort) -> int
    decreases s.len(),
{
    if s.len() <= 1 {
        0
    } else {
        let m = spec_min_idx(s.drop_last(), sort);
        if sort_key_le(s[m], s.last(), sort) {
            m
        } else {
            s.len() - 1
        }
    }
}

/// The canonical stable order of a record sequence under the sort key:
/// the first minimal record, then the stable order of the rest. Records
/// with equal keys therefore emerge in their input order, and the whole
/// result is a function of the input alone.
pub open spec fn spec_stable_sort(s: Seq<ProfileResponseView>, sort: ProfileSort) -> Seq<
    ProfileResponseView,
>
    decreases s.len(),
{
    if s.len() == 0 {
        Seq::empty()
    } else {
        let m = spec_min_idx(s, sort);
        // the index is always in range (lemma_spec_min_idx); the guard
        // only discharges the termination check
        if 0 <= m < s.len() {
            seq![s[m]] + spec_stable_sort(s.remove(m), sort)
        } else {
            s
        }
    }
}

/// `spec_min_idx` lies in range and names a minimal record.
pub proof fn lemma_spec_min_idx(s: Seq<ProfileResponseView>, sort: ProfileSort)
    requires
        s.len() > 0,
    ensures
        0 <= spec_min_idx(s, sort) < s.len(),
        forall|k: int|
            0 <= k < s.len() ==> sort_key_le(s[spec_min_idx(s, sort)], #[trigger] s[k], sort),
    decreases s.len(),
{
    if s.len() == 1 {
        lemma_sort_key_total(s[0], s[0], sort);
    } else {
        lemma_spec_min_idx(s.drop_last(), sort);
        let mp = spec_min_idx(s.drop_last(), sort);
        let m = spec_min_idx(s, sort);
        assert forall|k: int| 0 <= k < s.len() implies sort_key_le(s[m], #[trigger] s[k], sort) by {
            if k < s.len() - 1 {
                assert(s.drop_last()[k] == s[k]);
                assert(s.drop_last()[mp] == s[mp]);
                assert(sort_key_le(s[mp], s[k], sort));
                if m == s.len() - 1 {
                    lemma_sort_key_total(s[mp], s.last(), sort);
                    lemma_sort_key_trans(s[m], s[mp], s[k], sort);
                }
            } else {
                if m == s.len() - 1 {
                    lemma_sort_key_total(s[k], s[k], sort);
                } else {
                    assert(s.drop_last()[mp] == s[mp]);
                }
            }
        }
    }
}

/// The canonical stable order is sorted under its key.
pub proof fn lemma_stable_sort_sorted(s: Seq<ProfileResponseView>, sort: ProfileSort)
    ensures
        sorted_by(spec_stable_sort(s, sort), sort),
    decreases s.len(),
{
    broadcast use vstd::seq_lib::group_to_multiset_ensures;

    if s.len() == 0 {
    } else {
        lemma_spec_min_idx(s, sort);
        let m = spec_min_idx(s, sort);
        let rest = s.remove(m);
        lemma_stable_sort_sorted(rest, sort);
        lemma_stable_sort_multiset(rest, sort);
        let t = spec_stable_sort(rest, sort);
        let whole = spec_stable_sort(s, sort);
        assert(whole == seq![s[m]] + t);
        assert forall|i: int, j: int| 0 <= i < j < whole.len() implies sort_key_le(
            whole[i],
            whole[j],
            sort,
        ) by {
            if i == 0 {
                assert(whole[j] == t[j - 1]);
                assert(t.contains(t[j - 1]));
                assert(t.to_multiset().count(t[j - 1]) > 0);
                assert(rest.to_multiset().count(t[j - 1]) > 0);
                assert(rest.contains(t[j - 1]));
                let k = choose|k: int| 0 <= k < rest.len() && rest[k] == t[j - 1];
                if k < m {
                    assert(rest[k] == s[k]);
                    assert(sort_key_le(s[m], s[k], sort));
                } else {
                    assert(rest[k] == s[k + 1]);
                    assert(sort_key_le(s[m], s[k + 1], sort));
                }
            } else {
                assert(whole[i] == t[i - 1]);
                assert(whole[j] == t[j - 1]);
                assert(sort_key_le(t[i - 1], t[j - 1], sort));
            }
        }
    }
}

/// The canonical stable order holds exactly the input's records.
pub proof fn lemma_stable_sort_multiset(s: Seq<ProfileResponseView>, sort: ProfileSort)
    ensures
        spec_stable_sort(s, sort).to_multiset() == s.to_multiset(),
    decreases s.len(),
{
    broadcast use vstd::seq_lib::group_to_multiset_ensures;
    broadcast use vstd::multiset::group_multiset_axioms;

    if s.len() == 0 {
        assert(spec_stable_sort(s, sort).to_multiset() =~= s.to_multiset());
    } else {
        lemma_spec_min_idx(s, sort);
        let m = spec_min_idx(s, sort);
        let rest = s.remove(m);
        lemma_stable_sort_multiset(rest, sort);
        let t = spec_stable_sort(rest, sort);
        vstd::seq_lib::lemma_multiset_commutative(seq![s[m]], t);
        assert(seq![s[m]] =~= Seq::<ProfileResponseView>::empty().push(s[m]));
        assert(Seq::<ProfileResponseView>::empty().push(s[m]).to_multiset() =~= Seq::<
            ProfileResponseView,
        >::empty().to_multiset().insert(s[m]));
        assert(Seq::<ProfileResponseView>::empty().to_multiset() =~= Multiset::<
            ProfileResponseView,
        >::empty());
        assert(rest.to_multiset() =~= s.to_multiset().remove(s[m]));
        assert(s.contains(s[m]));
        assert(s.to_multiset().count(s[m]) > 0);
        assert(Multiset::<ProfileResponseView>::empty().insert(s[m]).add(
            s.to_multiset().remove(s[m]),
        ) =~= s.to_multiset());
        assert(spec_stable_sort(s, sort).to_multiset() =~= s.to_multiset());
    }
}

// ---------------------------------------------------------------------
// pagination
// ---------------------------------------------------------------------
/// One page of a query's results.
pub struct PagedResponse<T> {
    pub page: usize,
    pub limit: usize,
    pub total: usize,
    pub number_of_pages: usize,
    pub data: Vec<T>,
}

/// The slice `[page*limit, (page+1)*limit)` of the results, clipped to
/// their length.
pub open spec fn spec_page_slice(s: Seq<ProfileResponseView>, limit: int, page: int) -> Seq<
    ProfileResponseView,
> {
    let start = if page * limit <= s.len() {
        page * limit
    } else {
        s.len() as int
    };
    let end = if (page + 1) * limit <= s.len() {
        (page + 1) * limit
    } else {
        s.len() as int
    };
    s.subrange(start, end)
}

/// Number of pages the results occupy: zero for an empty result, else the
/// rounded-up quotient.
pub open spec fn spec_num_pages(len: int, limit: int) -> int {
    spec_num_chunks(len, limit)
}

// ---------------------------------------------------------------------
// executable filtering, sorting, paging
// ---------------------------------------------------------------------
impl Store {
    /// Applies the filters as a conjunction, keeping the surviving
    /// records in their original order.
    pub fn _get_filtered_profiles(
        profiles: Vec<ProfileResponse>,
        filters: &Vec<ProfileFilter>,
    ) -> (r: Vec<ProfileResponse>)
        ensures
            profile_responses_view(r@) == spec_filtered(
                profile_responses_view(profiles@),
                filters@,
            ),
    {
        let ghost pv = profile_responses_view(profiles@);
        let mut out: Vec<ProfileResponse> = Vec::new();
        let mut i: usize = 0;
        while i < profiles.len()
            invariant
                i <= profiles@.len(),
                pv == profile_responses_view(profiles@),
                pv.len() == profiles@.len(),
                profile_responses_view(out@) == spec_filtered(
                    pv.subrange(0, i as int),
                    filters@,
                ),
            decreases profiles.len() - i,
        {
            proof {
                assert(pv[i as int] == profiles@[i as int]@);
            }
            if profile_matches_all(&profiles[i], filters) {
                out.push(profiles[i].clone());
            }
            i = i + 1;
            proof {
                assert(pv.subrange(0, i as int).drop_last() =~= pv.subrange(0, i as int - 1));
                assert(pv.subrange(0, i as int).last() == pv[i as int - 1]);
                assert(profile_responses_view(out@) =~= spec_filtered(
                    pv.subrange(0, i as int),
                    filters@,
                ));
            }
        }
        proof {
            assert(pv.subrange(0, pv.len() as int) =~= pv);
        }
        out
    }

    /// Sorts the merged records by the single requested key: the result is
    /// ordered under that key and holds exactly the same records.
    pub fn _get_ordered_profiles(profiles: Vec<ProfileResponse>, sort: ProfileSort) -> (r: Vec<
        ProfileResponse,
    >)
        ensures
            profile_responses_view(r@) == spec_stable_sort(
                profile_responses_view(profiles@),
                sort,
            ),
            sorted_by(profile_responses_view(r@), sort),
            profile_responses_view(r@).to_multiset() == profile_responses_view(
                profiles@,
            ).to_multiset(),
    {
        broadcast use vstd::seq_lib::group_to_multiset_ensures;

        let ghost orig = profile_responses_view(profiles@);
        let mut rem = profiles;
        let mut out: Vec<ProfileResponse> = Vec::new();
        proof {
            assert(profile_responses_view(out@) =~= Seq::<ProfileResponseView>::empty());
            assert(profile_responses_view(out@).to_multiset().add(
                profile_responses_view(rem@).to_multiset(),
            ) =~= orig.to_multiset());
            assert(profile_responses_view(out@) + spec_stable_sort(
                profile_responses_view(rem@),
                sort,
            ) =~= spec_stable_sort(orig, sort));
        }
        while rem.len() > 0
            invariant
                spec_stable_sort(orig, sort) == profile_responses_view(out@) + spec_stable_sort(
                    profile_responses_view(rem@),
                    sort,
                ),
                profile_responses_view(out@).to_multiset().add(
                    profile_responses_view(rem@).to_multiset(),
                ) == orig.to_multiset(),
                sorted_by(profile_responses_view(out@), sort),
                forall|i: int, j: int|
                    0 <= i < out@.len() && 0 <= j < rem@.len() ==> sort_key_le(
                        #[trigger] profile_responses_view(out@)[i],
                        #[trigger] profile_responses_view(rem@)[j],
                        sort,
                    ),
            decreases rem.len(),
        {
            broadcast use vstd::seq_lib::group_to_multiset_ensures;

            let ghost remv = profile_responses_view(rem@);
            proof {
                lemma_sort_key_total(remv[0], remv[0], sort);
            }
            let mut m: usize = 0;
            let mut j: usize = 1;
            while j < rem.len()
                invariant
                    rem@.len() > 0,
                    remv == profile_responses_view(rem@),
                    remv.len() == rem@.len(),
                    m < j,
                    j <= rem@.len(),
                    m as int == spec_min_idx(remv.subrange(0, j as int), sort),
                    forall|k: int| 0 <= k < j as int ==> sort_key_le(
                        remv[m as int],
                        #[trigger] remv[k],
                        sort,
                    ),
                decreases rem.len() - j,
            {
                let ghost m_pre = m as int;
                proof {
                    assert(remv[m as int] == rem@[m as int]@);
                    assert(remv[j as int] == rem@[j as int]@);
                }
                if !response_le(&rem[m], &rem[j], &sort) {
                    proof {
                        lemma_sort_key_total(remv[m as int], remv[j as int], sort);
                        assert forall|k: int| 0 <= k < j as int + 1 implies sort_key_le(
                            remv[j as int],
                            #[trigger] remv[k],
                            sort,
                        ) by {
                            if k < j as int {
                                lemma_sort_key_trans(
                                    remv[j as int],
                                    remv[m as int],
                                    remv[k],
                                    sort,
                                );
                            } else {
                                lemma_sort_key_total(remv[j as int], remv[j as int], sort);
                            }
                        }
                    }
                    m = j;
                }
                j = j + 1;
                proof {
                    let pre = remv.subrange(0, j as int - 1);
                    let post = remv.subrange(0, j as int);
                    assert(post.drop_last() =~= pre);
                    assert(post.last() == remv[j as int - 1]);
                    assert(post[m_pre] == remv[m_pre]);
                    if sort_key_le(remv[m_pre], remv[j as int - 1], sort) {
                        assert(spec_min_idx(post, sort) == m_pre);
                    } else {
                        assert(spec_min_idx(post, sort) == j as int - 1);
                    }
                }
            }
            proof {
                assert(remv.subrange(0, remv.len() as int) =~= remv);
                assert(m as int == spec_min_idx(remv, sort));
            }
            let ghost prev_out = profile_responses_view(out@);
            let ghost prev_rem = rem@;
            let picked = rem.remove(m);
            out.push(picked);
            proof {
                let mi = m as int;
                lemma_spec_min_idx(remv, sort);
                assert(spec_stable_sort(remv, sort) == seq![remv[mi]] + spec_stable_sort(
                    remv.remove(mi),
                    sort,
                ));
                assert(prev_out.push(remv[mi]) + spec_stable_sort(remv.remove(mi), sort)
                    =~= prev_out + spec_stable_sort(remv, sort));
                // the removed element's view
                assert forall|k: int| 0 <= k < rem@.len() implies profile_responses_view(rem@)[k]
                    == remv.remove(mi)[k] by {
                    assert(rem@[k] == prev_rem.remove(mi)[k]);
                    if k < mi {
                        assert(prev_rem.remove(mi)[k] == prev_rem[k]);
                        assert(remv.remove(mi)[k] == remv[k]);
                    } else {
                        assert(prev_rem.remove(mi)[k] == prev_rem[k + 1]);
                        assert(remv.remove(mi)[k] == remv[k + 1]);
                    }
                }
                assert(profile_responses_view(rem@) =~= remv.remove(mi));
                assert(profile_responses_view(out@) =~= prev_out.push(remv[mi]));
                // multiset bookkeeping
                assert(remv.remove(mi).to_multiset() =~= remv.to_multiset().remove(remv[mi]));
                assert(prev_out.push(remv[mi]).to_multiset() =~= prev_out.to_multiset().insert(
                    remv[mi],
                ));
                assert(remv.to_multiset().count(remv[mi]) > 0);
                assert(prev_out.to_multiset().insert(remv[mi]).add(
                    remv.to_multiset().remove(remv[mi]),
                ) =~= prev_out.to_multiset().add(remv.to_multiset()));
                // ordering bookkeeping
                let outv = profile_responses_view(out@);
                assert forall|i: int, jj: int| 0 <= i < jj < outv.len() implies sort_key_le(
                    outv[i],
                    outv[jj],
                    sort,
                ) by {
                    if jj < outv.len() - 1 {
                        assert(sort_key_le(prev_out[i], prev_out[jj], sort));
                    } else {
                        assert(sort_key_le(prev_out[i], remv[mi], sort));
                    }
                }
                let remv2 = profile_responses_view(rem@);
                assert forall|i: int, jj: int|
                    0 <= i < outv.len() && 0 <= jj < remv2.len() implies sort_key_le(
                    outv[i],
                    remv2[jj],
                    sort,
                ) by {
                    let srcj = if jj < mi {
                        jj
                    } else {
                        jj + 1
                    };
                    assert(remv2[jj] == remv[srcj]);
                    if i < outv.len() - 1 {
                        assert(sort_key_le(prev_out[i], remv[srcj], sort));
                    } else {
                        assert(sort_key_le(remv[mi], remv[srcj], sort));
                    }
                }
            }
        }
        proof {
            assert(profile_responses_view(rem@).len() == 0);
            assert(profile_responses_view(rem@).to_multiset() =~= Multiset::<
                ProfileResponseView,
            >::empty());
            assert(profile_responses_view(out@).to_multiset().add(
                Multiset::<ProfileResponseView>::empty(),
            ) =~= profile_responses_view(out@).to_multiset());
            assert(spec_stable_sort(profile_responses_view(rem@), sort) =~= Seq::<
                ProfileResponseView,
            >::empty());
            assert(profile_responses_view(out@) + Seq::<ProfileResponseView>::empty()
                =~= profile_responses_view(out@));
        }
        out
    }
}

/// Slices the sorted results into the requested page: `total` and the
/// page count describe the whole result, `data` holds the page itself.
pub fn get_paged_data(profiles: Vec<ProfileResponse>, limit: usize, page: usize) -> (r:
    PagedResponse<ProfileResponse>)
    ensures
        r.page == page,
        r.limit == limit,
        r.total == profiles@.len(),
        limit == 0 ==> r.number_of_pages == 0 && r.data@.len() == 0,
        limit >= 1 ==> {
            &&& r.number_of_pages == spec_num_pages(profiles@.len() as int, limit as int)
            &&& profile_responses_view(r.data@) == spec_page_slice(
                profile_responses_view(profiles@),
                limit as int,
                page as int,
            )
        },
{
    broadcast use group_seq_properties;

    let ghost pv = profile_responses_view(profiles@);
    let total = profiles.len();
    if limit == 0 {
        return PagedResponse { page, limit, total, number_of_pages: 0, data: Vec::new() };
    }
    if total == 0 {
        proof {
            assert(spec_page_slice(pv, limit as int, page as int) =~= Seq::<
                ProfileResponseView,
            >::empty());
            assert(profile_responses_view(Seq::<ProfileResponse>::empty()) =~= Seq::<
                ProfileResponseView,
            >::empty());
        }
        let data: Vec<ProfileResponse> = Vec::new();
        proof {
            assert(profile_responses_view(data@) =~= Seq::<ProfileResponseView>::empty());
        }
        return PagedResponse { page, limit, total, number_of_pages: 0, data };
    }
    let last_page = (total - 1) / limit;
    let number_of_pages = last_page + 1;
    proof {
        lemma_fundamental_div_mod(total as int - 1, limit as int);
    }
    if page > last_page {
        proof {
            lemma_mul_inequality(last_page as int + 1, page as int, limit as int);
            assert((last_page as int + 1) * limit == last_page as int * limit + limit)
                by (nonlinear_arith);
            assert(limit as int * (last_page as int) == (last_page as int) * limit)
                by (nonlinear_arith);
            assert(page as int * limit >= total);
            assert((page as int + 1) * limit >= page as int * limit + limit) by (nonlinear_arith)
                requires
                    limit >= 1,
            ;
            assert(spec_page_slice(pv, limit as int, page as int) =~= Seq::<
                ProfileResponseView,
            >::empty());
        }
        let data: Vec<ProfileResponse> = Vec::new();
        proof {
            assert(profile_responses_view(data@) =~= Seq::<ProfileResponseView>::empty());
        }
        return PagedResponse { page, limit, total, number_of_pages, data };
    }
    proof {
        lemma_mul_inequality(page as int, last_page as int, limit as int);
        assert(limit as int * (last_page as int) == (last_page as int) * limit)
            by (nonlinear_arith);
        assert(page as int * limit <= total - 1);
    }
    let start = page * limit;
    let end = if total - start <= limit {
        total
    } else {
        start + limit
    };
    let mut data: Vec<ProfileResponse> = Vec::new();
    let mut i: usize = start;
    while i < end
        invariant
            start <= i <= end,
            end <= profiles@.len(),
            pv == profile_responses_view(profiles@),
            pv.len() == profiles@.len(),
            data@.len() == i - start,
            forall|k: int|
                0 <= k < data@.len() ==> (#[trigger] data@[k])@ == pv[start as int + k],
        decreases end - i,
    {
        let item = profiles[i].clone();
        proof {
            assert(pv[i as int] == profiles@[i as int]@);
            assert(item@ == pv[i as int]);
        }
        data.push(item);
        i = i + 1;
    }
    proof {
        assert((page as int + 1) * limit == page as int * limit + limit) by (nonlinear_arith);
        assert forall|k: int|
            0 <= k < data@.len() implies profile_responses_view(data@)[k] == pv.subrange(
            start as int,
            end as int,
        )[k] by {
            assert(data@[k]@ == pv[start as int + k]);
        }
        assert(profile_responses_view(data@) =~= pv.subrange(start as int, end as int));
        assert(profile_responses_view(data@) == spec_page_slice(pv, limit as int, page as int));
    }
    PagedResponse { page, limit, total, number_of_pages, data }
}

// ---------------------------------------------------------------------
// the shard-side query surface
// ---------------------------------------------------------------------
/// The responses a store serves: each record under the identifier minted
/// from its sequence key, in table order.
pub open spec fn spec_responses_of_store(s: StoreView) -> Seq<ProfileResponseView> {
    s.entries.map_values(
        |e: (u64, crate::profile_models::ProfileView)|
            response_view_of(spec_identifier(s.canister, e.0), e.1),
    )
}

/// The records collected for a list of identifiers, in request order;
/// identifiers of another shard, another kind, or an absent sequence
/// number are skipped.
pub open spec fn spec_collect_by_identifiers(s: StoreView, ids: Seq<IdentifierView>) -> Seq<
    ProfileResponseView,
>
    decreases ids.len(),
{
    if ids.len() == 0 {
        Seq::empty()
    } else {
        let rest = spec_collect_by_identifiers(s, ids.drop_last());
        let id = ids.last();
        let idx = find_key_idx(s.entries, id.sequence);
        if id.canister == s.canister && id.kind == "pfe"@ && idx >= 0 {
            rest.push(response_view_of(spec_identifier(s.canister, id.sequence), s.entries[idx].1))
        } else {
            rest
        }
    }
}

/// The records collected for a list of principals, in request order;
/// principals owning no record here are skipped.
pub open spec fn spec_collect_by_principals(s: StoreView, ps: Seq<PrincipalId>) -> Seq<
    ProfileResponseView,
>
    decreases ps.len(),
{
    if ps.len() == 0 {
        Seq::empty()
    } else {
        let rest = spec_collect_by_principals(s, ps.drop_last());
        let p = ps.last();
        let idx = find_principal_idx(s.entries, p);
        if idx >= 0 {
            rest.push(
                response_view_of(spec_identifier(s.canister, s.entries[idx].0), s.entries[idx].1),
            )
        } else {
            rest
        }
    }
}

impl Store {
    /// Serves every record as a response, in table order.
    pub fn all_responses(&self) -> (r: Vec<ProfileResponse>)
        ensures
            profile_responses_view(r@) == spec_responses_of_store(self@),
    {
        let ghost sv = spec_responses_of_store(self@);
        let mut out: Vec<ProfileResponse> = Vec::new();
        let mut i: usize = 0;
        while i < self.entries.len()
            invariant
                i <= self.entries@.len(),
                sv == spec_responses_of_store(self@),
                sv.len() == self.entries@.len(),
                self@.entries.len() == self.entries@.len(),
                out@.len() == i as int,
                forall|k: int| 0 <= k < out@.len() ==> (#[trigger] out@[k])@ == sv[k],
            decreases self.entries.len() - i,
        {
            proof {
                assert(self@.entries[i as int] == crate::profile_models::profile_entry_view(
                    self.entries@[i as int],
                ));
            }
            let key = self.entries[i].0;
            let identifier = Identifier {
                canister: self.canister,
                sequence: key,
                kind: crate::store::profile_identifier_kind(),
            };
            let response = map_profile_to_profile_response(identifier, self.entries[i].1.clone());
            proof {
                assert(sv[i as int] == response_view_of(
                    spec_identifier(self@.canister, self@.entries[i as int].0),
                    self@.entries[i as int].1,
                ));
                assert(response@ == sv[i as int]);
            }
            out.push(response);
            i = i + 1;
        }
        proof {
            assert forall|k: int|
                0 <= k < out@.len() implies profile_responses_view(out@)[k] == sv[k] by {
                assert(out@[k]@ == sv[k]);
            }
            assert(profile_responses_view(out@) =~= sv);
        }
        out
    }

    /// Serves one chunk of this shard's filtered, serialized records: the
    /// filtered responses are encoded as a byte payload, and the requested
    /// chunk of it is returned under the codec's `(chunk, last)` marker.
    pub fn get_chunked_data(
        &self,
        filters: &Vec<ProfileFilter>,
        chunk: usize,
        max_bytes_per_chunk: usize,
    ) -> (r: (Vec<u8>, (usize, usize)))
        requires
            max_bytes_per_chunk >= 1,
        ensures
            ({
                let payload = enc_profile_response_list(
                    spec_filtered(spec_responses_of_store(self@), filters@),
                );
                &&& payload.len() <= usize::MAX
                &&& payload.len() <= max_bytes_per_chunk ==> r.0@ == payload && r.1 == (
                    0usize,
                    0usize,
                )
                &&& payload.len() > max_bytes_per_chunk ==> {
                    &&& r.0@ == spec_chunk_data(payload, max_bytes_per_chunk as int, chunk as int)
                    &&& r.1.0 == chunk
                    &&& r.1.1 == spec_num_chunks(
                        payload.len() as int,
                        max_bytes_per_chunk as int,
                    ) - 1
                }
            }),
    {
        let responses = self.all_responses();
        let filtered = Store::_get_filtered_profiles(responses, filters);
        let mut payload: Vec<u8> = Vec::new();
        write_profile_response_list(&mut payload, &filtered);
        let payload_len = payload.len();
        proof {
            assert(payload@ =~= enc_profile_response_list(
                spec_filtered(spec_responses_of_store(self@), filters@),
            ));
            assert(payload@.len() == payload_len);
        }
        chunk_read(&payload, chunk, max_bytes_per_chunk)
    }

    /// Pages the filtered, sorted records selected by a list of
    /// identifiers.
    pub fn get_paged_profiles_by_identifier(
        &self,
        identifiers: &Vec<Identifier>,
        limit: usize,
        page: usize,
        filters: &Vec<ProfileFilter>,
        sort: ProfileSort,
    ) -> (r: PagedResponse<ProfileResponse>)
        ensures
            ({
                let filtered = spec_filtered(
                    spec_collect_by_identifiers(self@, identifiers_view(identifiers@)),
                    filters@,
                );
                let ordered = spec_stable_sort(filtered, sort);
                &&& r.page == page
                &&& r.limit == limit
                &&& r.total == filtered.len()
                &&& sorted_by(profile_responses_view(r.data@), sort)
                &&& limit >= 1 ==> r.number_of_pages == spec_num_pages(
                    filtered.len() as int,
                    limit as int,
                ) && profile_responses_view(r.data@) == spec_page_slice(
                    ordered,
                    limit as int,
                    page as int,
                )
                &&& limit == 0 ==> r.number_of_pages == 0 && r.data@.len() == 0
            }),
    {
        let ghost idsv = identifiers_view(identifiers@);
        let mut collected: Vec<ProfileResponse> = Vec::new();
        let mut i: usize = 0;
        while i < identifiers.len()
            invariant
                i <= identifiers@.len(),
                idsv == identifiers_view(identifiers@),
                idsv.len() == identifiers@.len(),
                profile_responses_view(collected@) == spec_collect_by_identifiers(
                    self@,
                    idsv.subrange(0, i as int),
                ),
            decreases identifiers.len() - i,
        {
            proof {
                assert(idsv[i as int] == identifiers@[i as int]@);
            }
            let id = &identifiers[i];
            let same_shard = id.canister == self.canister;
            let kind_tag = crate::store::profile_identifier_kind();
            let same_kind = id.kind == kind_tag;
            if same_shard && same_kind {
                match self.find_by_key(id.sequence) {
                    None => {},
                    Some(idx) => {
                        let key = self.entries[idx].0;
                        let identifier = Identifier {
                            canister: self.canister,
                            sequence: key,
                            kind: crate::store::profile_identifier_kind(),
                        };
                        let response = map_profile_to_profile_response(
                            identifier,
                            self.entries[idx].1.clone(),
                        );
                        collected.push(response);
                    },
                }
            }
            i = i + 1;
            proof {
                assert(idsv.subrange(0, i as int).drop_last() =~= idsv.subrange(0, i as int - 1));
                assert(idsv.subrange(0, i as int).last() == idsv[i as int - 1]);
                lemma_find_key_idx(self@.entries, idsv[i as int - 1].sequence);
                let idx = find_key_idx(self@.entries, idsv[i as int - 1].sequence);
                if idx >= 0 {
                    assert(self@.entries[idx] == crate::profile_models::profile_entry_view(
                        self.entries@[idx],
                    ));
                }
                assert(profile_responses_view(collected@) =~= spec_collect_by_identifiers(
                    self@,
                    idsv.subrange(0, i as int),
                ));
            }
        }
        proof {
            assert(idsv.subrange(0, idsv.len() as int) =~= idsv);
        }
        let filtered = Store::_get_filtered_profiles(collected, filters);
        let ghost filtered_view = profile_responses_view(filtered@);
        let ordered = Store::_get_ordered_profiles(filtered, sort);
        let ghost ss = profile_responses_view(ordered@);
        let r = get_paged_data(ordered, limit, page);
        proof {
            broadcast use vstd::seq_lib::group_to_multiset_ensures;

            assert(ss == spec_stable_sort(filtered_view, sort));
            lemma_stable_sort_multiset(filtered_view, sort);
            assert(ss.len() == ss.to_multiset().len());
            assert(filtered_view.len() == filtered_view.to_multiset().len());
            assert(ss.len() == filtered_view.len());
            assert(sorted_by(profile_responses_view(r.data@), sort)) by {
                if limit == 0 {
                    assert(profile_responses_view(r.data@) =~= Seq::<
                        ProfileResponseView,
                    >::empty());
                } else {
                    lemma_page_slice_sorted(ss, sort, limit as int, page as int);
                }
            }
        }
        r
    }

    /// Pages the filtered, sorted records selected by a list of owner
    /// principals.
    pub fn get_paged_profiles_by_principal(
        &self,
        principals: &Vec<PrincipalId>,
        limit: usize,
        page: usize,
        filters: &Vec<ProfileFilter>,
        sort: ProfileSort,
    ) -> (r: PagedResponse<ProfileResponse>)
        ensures
            ({
                let filtered = spec_filtered(
                    spec_collect_by_principals(self@, principals@),
                    filters@,
                );
                let ordered = spec_stable_sort(filtered, sort);
                &&& r.page == page
                &&& r.limit == limit
                &&& r.total == filtered.len()
                &&& sorted_by(profile_responses_view(r.data@), sort)
                &&& limit >= 1 ==> r.number_of_pages == spec_num_pages(
                    filtered.len() as int,
                    limit as int,
                ) && profile_responses_view(r.data@) == spec_page_slice(
                    ordered,
                    limit as int,
                    page as int,
                )
                &&& limit == 0 ==> r.number_of_pages == 0 && r.data@.len() == 0
            }),
    {
        let mut collected: Vec<ProfileResponse> = Vec::new();
        let mut i: usize = 0;
        while i < principals.len()
            invariant
                i <= principals@.len(),
                profile_responses_view(collected@) == spec_collect_by_principals(
                    self@,
                    principals@.subrange(0, i as int),
                ),
            decreases principals.len() - i,
        {
            let p = principals[i];
            match self.find_by_principal(p) {
                None => {},
                Some(idx) => {
                    let key = self.entries[idx].0;
                    let identifier = Identifier {
                        canister: self.canister,
                        sequence: key,
                        kind: crate::store::profile_identifier_kind(),
                    };
                    let response = map_profile_to_profile_response(
                        identifier,
                        self.entries[idx].1.clone(),
                    );
                    collected.push(response);
                },
            }
            i = i + 1;
            proof {
                assert(principals@.subrange(0, i as int).drop_last() =~= principals@.subrange(
                    0,
                    i as int - 1,
                ));
                assert(principals@.subrange(0, i as int).last() == principals@[i as int - 1]);
                lemma_find_principal_idx(self@.entries, principals@[i as int - 1]);
                let idx = find_principal_idx(self@.entries, principals@[i as int - 1]);
                if idx >= 0 {
                    assert(self@.entries[idx] == crate::profile_models::profile_entry_view(
                        self.entries@[idx],
                    ));
                }
                assert(profile_responses_view(collected@) =~= spec_collect_by_principals(
                    self@,
                    principals@.subrange(0, i as int),
                ));
            }
        }
        proof {
            assert(principals@.subrange(0, principals@.len() as int) =~= principals@);
        }
        let filtered = Store::_get_filtered_profiles(collected, filters);
        let ghost filtered_view = profile_responses_view(filtered@);
        let ordered = Store::_get_ordered_profiles(filtered, sort);
        let ghost ss = profile_responses_view(ordered@);
        let r = get_paged_data(ordered, limit, page);
        proof {
            broadcast use vstd::seq_lib::group_to_multiset_ensures;

            assert(ss == spec_stable_sort(filtered_view, sort));
            lemma_stable_sort_multiset(filtered_view, sort);
            assert(ss.len() == ss.to_multiset().len());
            assert(filtered_view.len() == filtered_view.to_multiset().len());
            assert(ss.len() == filtered_view.len());
            assert(sorted_by(profile_responses_view(r.data@), sort)) by {
                if limit == 0 {
                    assert(profile_responses_view(r.data@) =~= Seq::<
                        ProfileResponseView,
                    >::empty());
                } else {
                    lemma_page_slice_sorted(ss, sort, limit as int, page as int);
                }
            }
        }
        r
    }
}

/// A page cut from a sorted sequence is itself sorted.
pub proof fn lemma_page_slice_sorted(
    s: Seq<ProfileResponseView>,
    sort: ProfileSort,
    limit: int,
    page: int,
)
    requires
        sorted_by(s, sort),
        limit >= 1,
        page >= 0,
    ensures
        sorted_by(spec_page_slice(s, limit, page), sort),
{
    let sl = spec_page_slice(s, limit, page);
    assert((page + 1) * limit == page * limit + limit) by (nonlinear_arith);
    assert(page * limit >= 0) by (nonlinear_arith)
        requires
            page >= 0,
            limit >= 1,
    ;
    assert forall|i: int, j: int| 0 <= i < j < sl.len() implies sort_key_le(sl[i], sl[j], sort) by {
        let start = if page * limit <= s.len() {
            page * limit
        } else {
            s.len() as int
        };
        assert(sl[i] == s[start + i]);
        assert(sl[j] == s[start + j]);
    }
}

} // verus!
