//! Cross-shard query aggregation.
//!
//! The coordinator drains every shard's filtered result set through the
//! chunked transfer protocol, decodes each shard's bytes (a shard whose
//! bytes fail to decode contributes an empty set, so one bad shard does
//! not fail the whole query), merges all records, and only then applies
//! the requested global sort and pagination — no shard-local order leaks
//! into the final order.

use vstd::prelude::*;
use vstd::arithmetic::div_mod::lemma_fundamental_div_mod;
use vstd::arithmetic::mul::lemma_mul_inequality;
use vstd::multiset::Multiset;
use vstd::seq_lib::lemma_multiset_commutative;
use crate::codec::append_bytes;
use crate::codec::spec_chunk_end;
use crate::codec::spec_chunk_start;
use crate::codec::spec_num_chunks;
use crate::profile_models::ProfileFilter;
use crate::profile_models::ProfileResponse;
use crate::profile_models::ProfileResponseView;
use crate::profile_models::ProfileSort;
use crate::profile_models::profile_responses_view;
use crate::query::PagedResponse;
use crate::query::get_paged_data;
use crate::query::lemma_page_slice_sorted;
use crate::query::sorted_by;
use crate::query::spec_filtered;
use crate::query::spec_num_pages;
use crate::query::spec_stable_sort;
use crate::query::lemma_stable_sort_multiset;
use crate::query::spec_page_slice;
use crate::query::spec_responses_of_store;
use crate::store::Store;
use crate::wire_records::dec_profile_response_list;
use crate::wire_records::enc_profile_response_list;
use crate::wire_records::read_profile_response_list;

verus! {

/// The record set a shard's drained bytes stand for: the decoded response
/// list when the bytes hold exactly one, otherwise the empty set.
pub open spec fn decode_payload(b: Seq<u8>) -> Seq<ProfileResponseView> {
    match dec_profile_response_list(b, 0) {
        None => Seq::empty(),
        Some((s, p)) => if p == b.len() {
            s
        } else {
            Seq::empty()
        },
    }
}

/// Views of a list of shard payloads.
pub open spec fn payloads_views(s: Seq<Vec<u8>>) -> Seq<Seq<u8>> {
    s.map_values(|v: Vec<u8>| v@)
}

/// All shards' records merged in shard order.
pub open spec fn merged_of(payloads: Seq<Seq<u8>>) -> Seq<ProfileResponseView>
    decreases payloads.len(),
{
    if payloads.len() == 0 {
        Seq::empty()
    } else {
        merged_of(payloads.drop_last()) + decode_payload(payloads.last())
    }
}

/// Sum of the record multisets the individual shards contribute.
pub open spec fn shard_records_sum(payloads: Seq<Seq<u8>>) -> Multiset<ProfileResponseView>
    decreases payloads.len(),
{
    if payloads.len() == 0 {
        Multiset::empty()
    } else {
        shard_records_sum(payloads.drop_last()).add(
            decode_payload(payloads.last()).to_multiset(),
        )
    }
}

/// Merging never loses or duplicates a record: the merged sequence holds
/// exactly the union (as a multiset) of the record sets the shards
/// contribute.
pub proof fn lemma_merged_is_union(payloads: Seq<Seq<u8>>)
    ensures
        merged_of(payloads).to_multiset() == shard_records_sum(payloads),
    decreases payloads.len(),
{
    broadcast use vstd::seq_lib::group_to_multiset_ensures;

    if payloads.len() == 0 {
        assert(merged_of(payloads).to_multiset() =~= Multiset::<ProfileResponseView>::empty());
    } else {
        lemma_merged_is_union(payloads.drop_last());
        lemma_multiset_commutative(
            merged_of(payloads.drop_last()),
            decode_payload(payloads.last()),
        );
    }
}

/// Decodes one shard's drained bytes, mirroring `decode_payload`:
/// undecodable bytes yield the empty set rather than an error.
pub fn decode_shard_payload(bytes: &Vec<u8>) -> (r: Vec<ProfileResponse>)
    ensures
        profile_responses_view(r@) == decode_payload(bytes@),
{
    match read_profile_response_list(bytes, 0) {
        None => {
            let r: Vec<ProfileResponse> = Vec::new();
            proof {
                assert(profile_responses_view(r@) =~= Seq::<ProfileResponseView>::empty());
            }
            r
        },
        Some((responses, p)) => {
            if p == bytes.len() {
                responses
            } else {
                let r: Vec<ProfileResponse> = Vec::new();
                proof {
                    assert(profile_responses_view(r@) =~= Seq::<ProfileResponseView>::empty());
                }
                r
            }
        },
    }
}

/// Drains one shard's filtered result set through the chunked protocol:
/// chunk reads are issued in index order, 0 up to the reported last chunk,
/// and their concatenation is the shard's whole serialized result set.
/// Also reports how many chunk reads were issued.
pub fn fetch_shard_payload(
    store: &Store,
    filters: &Vec<ProfileFilter>,
    max_bytes_per_chunk: usize,
) -> (r: (Vec<u8>, usize))
    requires
        max_bytes_per_chunk >= 1,
    ensures
        ({
            let payload = enc_profile_response_list(
                spec_filtered(spec_responses_of_store(store@), filters@),
            );
            &&& r.0@ == payload
            &&& r.1 == if payload.len() <= max_bytes_per_chunk {
                1int
            } else {
                spec_num_chunks(payload.len() as int, max_bytes_per_chunk as int)
            }
        }),
{
    let ghost m = max_bytes_per_chunk as int;
    let ghost payload = enc_profile_response_list(
        spec_filtered(spec_responses_of_store(store@), filters@),
    );
    let (first, marker) = store.get_chunked_data(filters, 0, max_bytes_per_chunk);
    let last = marker.1;
    if last == 0 {
        proof {
            if payload.len() > max_bytes_per_chunk {
                assert(spec_num_chunks(payload.len() as int, m) - 1 >= 1) by {
                    vstd::arithmetic::div_mod::lemma_div_non_zero(payload.len() as int - 1, m);
                };
            }
        }
        return (first, 1);
    }
    let ghost len = payload.len() as int;
    proof {
        assert(len > m);
        lemma_fundamental_div_mod(len - 1, m);
        assert((0int + 1) * m == m) by (nonlinear_arith);
        assert(spec_chunk_start(len, m, 0) == 0);
        assert(spec_chunk_end(len, m, 0) == m);
        assert((1int) * m == m) by (nonlinear_arith);
        assert(last < usize::MAX);
    }
    let mut collected = first;
    let mut i: usize = 1;
    let mut reads: usize = 1;
    while i <= last
        invariant
            m == max_bytes_per_chunk as int,
            m >= 1,
            len == payload.len() as int,
            len > m,
            last == spec_num_chunks(len, m) - 1,
            last < usize::MAX,
            1 <= i <= last + 1,
            reads == i,
            i as int <= last as int ==> i as int * m == spec_chunk_start(len, m, i as int),
            i as int > last as int ==> spec_chunk_start(len, m, i as int) == len,
            collected@ == payload.subrange(0, spec_chunk_start(len, m, i as int)),
            payload == enc_profile_response_list(
                spec_filtered(spec_responses_of_store(store@), filters@),
            ),
        decreases last + 1 - i,
    {
        let (piece, _marker) = store.get_chunked_data(filters, i, max_bytes_per_chunk);
        proof {
            assert((i as int + 1) * m == i as int * m + m) by (nonlinear_arith);
            lemma_fundamental_div_mod(len - 1, m);
            lemma_mul_inequality(i as int, last as int, m);
            assert(m * (last as int) == (last as int) * m) by (nonlinear_arith);
            assert((last as int) * m <= len - 1);
            assert(piece@ == payload.subrange(
                spec_chunk_start(len, m, i as int),
                spec_chunk_end(len, m, i as int),
            ));
        }
        append_bytes(&mut collected, &piece);
        proof {
            assert(collected@ =~= payload.subrange(0, spec_chunk_end(len, m, i as int)));
        }
        i = i + 1;
        reads = reads + 1;
        proof {
            assert((i as int) * m == (i as int - 1) * m + m) by (nonlinear_arith);
            if (i as int) <= (last as int) {
                lemma_mul_inequality(i as int, last as int, m);
                assert(m * (last as int) == (last as int) * m) by (nonlinear_arith);
                assert(spec_chunk_start(len, m, i as int) == i as int * m);
                assert(spec_chunk_end(len, m, i as int - 1) == i as int * m);
            } else {
                assert(spec_chunk_end(len, m, i as int - 1) == len);
                assert((i as int) * m >= len);
                assert((i as int) * m <= len ==> spec_chunk_start(len, m, i as int) == (
                i as int) * m);
                assert(spec_chunk_start(len, m, i as int) == len);
            }
            assert(collected@ == payload.subrange(0, spec_chunk_start(len, m, i as int)));
        }
    }
    proof {
        assert(i as int == last as int + 1);
        assert(collected@ =~= payload);
    }
    (collected, reads)
}

/// Merges the shards' drained byte payloads, applies the single global
/// sort, and slices the requested page. The global order is computed only
/// after all shard data is merged.
pub fn aggregate_shard_payloads(
    payloads: &Vec<Vec<u8>>,
    sort: ProfileSort,
    limit: usize,
    page: usize,
) -> (r: PagedResponse<ProfileResponse>)
    ensures
        ({
            let merged = merged_of(payloads_views(payloads@));
            let ordered = spec_stable_sort(merged, sort);
            &&& r.page == page
            &&& r.limit == limit
            &&& r.total == merged.len()
            &&& sorted_by(profile_responses_view(r.data@), sort)
            &&& limit >= 1 ==> r.number_of_pages == spec_num_pages(
                merged.len() as int,
                limit as int,
            ) && profile_responses_view(r.data@) == spec_page_slice(
                ordered,
                limit as int,
                page as int,
            )
            &&& limit == 0 ==> r.number_of_pages == 0 && r.data@.len() == 0
        }),
{
    let ghost pvs = payloads_views(payloads@);
    let mut all: Vec<ProfileResponse> = Vec::new();
    let mut i: usize = 0;
    proof {
        assert(profile_responses_view(all@) =~= merged_of(pvs.subrange(0, 0)));
    }
    while i < payloads.len()
        invariant
            i <= payloads@.len(),
            pvs == payloads_views(payloads@),
            pvs.len() == payloads@.len(),
            profile_responses_view(all@) == merged_of(pvs.subrange(0, i as int)),
        decreases payloads.len() - i,
    {
        proof {
            assert(pvs[i as int] == payloads@[i as int]@);
        }
        let mut decoded = decode_shard_payload(&payloads[i]);
        let ghost prev_all = profile_responses_view(all@);
        let ghost decoded_view = profile_responses_view(decoded@);
        all.append(&mut decoded);
        i = i + 1;
        proof {
            assert(pvs.subrange(0, i as int).drop_last() =~= pvs.subrange(0, i as int - 1));
            assert(pvs.subrange(0, i as int).last() == pvs[i as int - 1]);
            assert forall|k: int|
                0 <= k < all@.len() implies profile_responses_view(all@)[k] == (prev_all
                + decoded_view)[k] by {
                if k < prev_all.len() {
                    assert(all@[k]@ == prev_all[k]);
                } else {
                    assert(all@[k]@ == decoded_view[k - prev_all.len()]);
                }
            }
            assert(profile_responses_view(all@) =~= prev_all + decoded_view);
            assert(profile_responses_view(all@) =~= merged_of(pvs.subrange(0, i as int)));
        }
    }
    proof {
        assert(pvs.subrange(0, pvs.len() as int) =~= pvs);
    }
    let ghost merged = merged_of(pvs);
    let ordered = Store::_get_ordered_profiles(all, sort);
    let ghost ss = profile_responses_view(ordered@);
    let r = get_paged_data(ordered, limit, page);
    proof {
        broadcast use vstd::seq_lib::group_to_multiset_ensures;

        assert(ss == spec_stable_sort(merged, sort));
        lemma_stable_sort_multiset(merged, sort);
        assert(ss.len() == ss.to_multiset().len());
        assert(merged.len() == merged.to_multiset().len());
        assert(ss.len() == merged.len());
        assert(sorted_by(profile_responses_view(r.data@), sort)) by {
            if limit == 0 {
                assert(profile_responses_view(r.data@) =~= Seq::<ProfileResponseView>::empty());
            } else {
                lemma_page_slice_sorted(ss, sort, limit as int, page as int);
            }
        }
    }
    r
}

/// Answers an aggregate query over a set of shard stores: each shard's
/// filtered result set is drained through the chunked protocol, all sets
/// are merged, and the merged records are globally sorted and paged.
pub fn aggregate(
    shards: &Vec<Store>,
    filters: &Vec<ProfileFilter>,
    sort: ProfileSort,
    limit: usize,
    page: usize,
    max_bytes_per_chunk: usize,
) -> (r: PagedResponse<ProfileResponse>)
    requires
        max_bytes_per_chunk >= 1,
    ensures
        ({
            let merged = merged_of(
                Seq::new(
                    shards@.len(),
                    |i: int|
                        enc_profile_response_list(
                            spec_filtered(spec_responses_of_store(shards@[i]@), filters@),
                        ),
                ),
            );
            let ordered = spec_stable_sort(merged, sort);
            &&& r.page == page
            &&& r.limit == limit
            &&& r.total == merged.len()
            &&& sorted_by(profile_responses_view(r.data@), sort)
            &&& limit >= 1 ==> r.number_of_pages == spec_num_pages(
                merged.len() as int,
                limit as int,
            ) && profile_responses_view(r.data@) == spec_page_slice(
                ordered,
                limit as int,
                page as int,
            )
            &&& limit == 0 ==> r.number_of_pages == 0 && r.data@.len() == 0
        }),
{
    let ghost expected = Seq::new(
        shards@.len(),
        |i: int|
            enc_profile_response_list(
                spec_filtered(spec_responses_of_store(shards@[i]@), filters@),
            ),
    );
    let mut payloads: Vec<Vec<u8>> = Vec::new();
    let mut i: usize = 0;
    while i < shards.len()
        invariant
            i <= shards@.len(),
            expected == Seq::new(
                shards@.len(),
                |k: int|
                    enc_profile_response_list(
                        spec_filtered(spec_responses_of_store(shards@[k]@), filters@),
                    ),
            ),
            max_bytes_per_chunk >= 1,
            payloads@.len() == i as int,
            forall|k: int| 0 <= k < i as int ==> (#[trigger] payloads@[k])@ == expected[k],
        decreases shards.len() - i,
    {
        let (bytes, _reads) = fetch_shard_payload(&shards[i], filters, max_bytes_per_chunk);
        payloads.push(bytes);
        i = i + 1;
    }
    let r = aggregate_shard_payloads(&payloads, sort, limit, page);
    proof {
        assert forall|k: int|
            0 <= k < payloads@.len() implies payloads_views(payloads@)[k] == expected[k] by {
            assert(payloads@[k]@ == expected[k]);
        }
        assert(payloads_views(payloads@) =~= expected);
    }
    r
}

} // verus!
