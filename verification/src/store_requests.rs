//! Friend requests and friendship bookkeeping, plus the read surface for
//! single records. Requests are kept under unique, increasing ids;
//! accepting a request records the friendship on both profiles and
//! removes the request.

use vstd::prelude::*;
use crate::errors::ApiError;
use crate::errors::ApiErrorType;
use crate::errors::api_error;
use crate::profile_models::FriendRequest;
use crate::profile_models::FriendRequestResponse;
use crate::profile_models::FriendRequestResponseView;
use crate::profile_models::FriendRequestView;
use crate::profile_models::Identifier;
use crate::profile_models::PrincipalId;
use crate::profile_models::Profile;
use crate::profile_models::ProfileView;
use crate::profile_models::ProfileResponse;
use crate::profile_models::RelationType;
use crate::profile_models::profile_responses_view;
use crate::profile_models::request_entry_view;
use crate::query::spec_collect_by_identifiers;
use crate::query::spec_collect_by_principals;
use crate::store::Store;
use crate::store::StoreView;
use crate::store::find_key_idx;
use crate::store::find_principal_idx;
use crate::store::lemma_find_key_idx;
use crate::store::lemma_find_principal_idx;
use crate::store::map_profile_to_profile_response;
use crate::store::response_view_of;
use crate::store::spec_identifier;
use crate::store_social::spec_profile_with_relations;
use crate::store_social::spec_tag_put;
use crate::store_social::spec_tag_remove;
use crate::store_social::spec_with_profile;

verus! {

// ---------------------------------------------------------------------
// the request table
// ---------------------------------------------------------------------
/// Index of the request stored under id `k`, or -1.
pub open spec fn request_key_idx(s: Seq<(u64, FriendRequestView)>, k: u64) -> int
    decreases s.len(),
{
    if s.len() == 0 {
        -1
    } else if s[0].0 == k {
        0
    } else {
        let r = request_key_idx(s.skip(1), k);
        if r < 0 {
            -1
        } else {
            r + 1
        }
    }
}

/// `request_key_idx` names the first match, or -1 when none exists.
pub proof fn lemma_request_key_idx(s: Seq<(u64, FriendRequestView)>, k: u64)
    ensures
        request_key_idx(s, k) == -1 ==> forall|i: int|
            0 <= i < s.len() ==> (#[trigger] s[i]).0 != k,
        request_key_idx(s, k) >= 0 ==> {
            let r = request_key_idx(s, k);
            &&& r < s.len()
            &&& s[r].0 == k
            &&& forall|i: int| 0 <= i < r ==> (#[trigger] s[i]).0 != k
        },
    decreases s.len(),
{
    if s.len() == 0 {
    } else if s[0].0 == k {
    } else {
        lemma_request_key_idx(s.skip(1), k);
        assert forall|i: int| 1 <= i < s.len() implies (#[trigger] s[i]) == s.skip(1)[i - 1] by {
            assert(s.skip(1)[i - 1] == s[i]);
        }
    }
}

/// A pending request from `a` to `b` exists.
pub open spec fn has_request_between(
    s: Seq<(u64, FriendRequestView)>,
    a: PrincipalId,
    b: PrincipalId,
) -> bool {
    exists|i: int|
        0 <= i < s.len() && (#[trigger] s[i]).1.requested_by == a && s[i].1.to == b
}

/// The id the next request is stored under: zero on an empty table, else
/// one past the last id.
pub open spec fn spec_next_request_id(s: Seq<(u64, FriendRequestView)>) -> int {
    if s.len() == 0 {
        0
    } else {
        s.last().0 + 1
    }
}

/// The responses served for the requests that involve `caller`, in table
/// order.
pub open spec fn spec_requests_for(s: Seq<(u64, FriendRequestView)>, caller: PrincipalId) -> Seq<
    FriendRequestResponseView,
>
    decreases s.len(),
{
    if s.len() == 0 {
        Seq::empty()
    } else {
        let rest = spec_requests_for(s.drop_last(), caller);
        let e = s.last();
        if e.1.requested_by == caller || e.1.to == caller {
            rest.push(
                FriendRequestResponseView {
                    id: e.0,
                    requested_by: e.1.requested_by,
                    message: e.1.message,
                    to: e.1.to,
                    created_at: e.1.created_at,
                },
            )
        } else {
            rest
        }
    }
}


/// Two tables whose records are owned by the same principals position for
/// position give the same lookup result.
proof fn lemma_find_principal_pointwise(
    e1: Seq<(u64, ProfileView)>,
    e2: Seq<(u64, ProfileView)>,
    p: PrincipalId,
)
    requires
        e1.len() == e2.len(),
        forall|i: int|
            0 <= i < e1.len() ==> (#[trigger] e1[i]).1.principal == e2[i].1.principal,
    ensures
        find_principal_idx(e1, p) == find_principal_idx(e2, p),
    decreases e1.len(),
{
    if e1.len() == 0 {
    } else {
        assert(e1[0].1.principal == e2[0].1.principal);
        assert forall|i: int|
            0 <= i < e1.skip(1).len() implies (#[trigger] e1.skip(1)[i]).1.principal == e2.skip(
            1,
        )[i].1.principal by {
            assert(e1.skip(1)[i] == e1[i + 1]);
            assert(e2.skip(1)[i] == e2[i + 1]);
        }
        lemma_find_principal_pointwise(e1.skip(1), e2.skip(1), p);
    }
}

impl Store {
    /// Finds the table index of the request stored under `id`, mirroring
    /// `request_key_idx`.
    fn find_request(&self, id: u64) -> (r: Option<usize>)
        ensures
            match r {
                Some(i) => i == request_key_idx(self@.friend_requests, id) && i
                    < self@.friend_requests.len(),
                None => request_key_idx(self@.friend_requests, id) == -1,
            },
    {
        let ghost rv = self@.friend_requests;
        let mut i: usize = 0;
        while i < self.friend_requests.len()
            invariant
                i <= self.friend_requests@.len(),
                rv == self@.friend_requests,
                rv.len() == self.friend_requests@.len(),
                forall|j: int| 0 <= j < i as int ==> (#[trigger] rv[j]).0 != id,
            decreases self.friend_requests.len() - i,
        {
            proof {
                assert(rv[i as int] == request_entry_view(self.friend_requests@[i as int]));
            }
            if self.friend_requests[i].0 == id {
                proof {
                    lemma_request_key_idx(rv, id);
                    let r = request_key_idx(rv, id);
                    if r == -1 {
                        assert(rv[i as int].0 != id);
                    }
                    if 0 <= r < i as int {
                        assert(rv[r].0 != id);
                    }
                    if r > i as int {
                        assert(rv[i as int].0 != id);
                    }
                }
                return Some(i);
            }
            i = i + 1;
        }
        proof {
            lemma_request_key_idx(rv, id);
            let r = request_key_idx(rv, id);
            if r >= 0 {
                assert(rv[r].0 != id);
            }
        }
        None
    }

    /// Whether a pending request from `a` to `b` exists.
    fn request_between(&self, a: PrincipalId, b: PrincipalId) -> (r: bool)
        ensures
            r == has_request_between(self@.friend_requests, a, b),
    {
        let ghost rv = self@.friend_requests;
        let mut i: usize = 0;
        while i < self.friend_requests.len()
            invariant
                i <= self.friend_requests@.len(),
                rv == self@.friend_requests,
                rv.len() == self.friend_requests@.len(),
                forall|j: int|
                    0 <= j < i as int ==> !((#[trigger] rv[j]).1.requested_by == a && rv[j].1.to
                        == b),
            decreases self.friend_requests.len() - i,
        {
            proof {
                assert(rv[i as int] == request_entry_view(self.friend_requests@[i as int]));
            }
            let e = &self.friend_requests[i].1;
            if e.requested_by == a && e.to == b {
                proof {
                    assert(rv[i as int].1.requested_by == a && rv[i as int].1.to == b);
                }
                return true;
            }
            i = i + 1;
        }
        false
    }

    /// Removes the request at table index `idx`.
    fn remove_request_at(&mut self, idx: usize)
        requires
            old(self).inv(),
            idx < old(self)@.friend_requests.len(),
        ensures
            final(self).inv(),
            final(self)@ == (StoreView {
                friend_requests: old(self)@.friend_requests.remove(idx as int),
                ..old(self)@
            }),
    {
        self.friend_requests.remove(idx);
        proof {
            let s = old(self)@;
            let mi = idx as int;
            assert forall|j: int|
                0 <= j < self@.friend_requests.len() implies self@.friend_requests[j]
                == s.friend_requests.remove(mi)[j] by {
                assert(self@.friend_requests[j] == request_entry_view(self.friend_requests@[j]));
                if j < mi {
                    assert(self.friend_requests@[j] == old(self).friend_requests@[j]);
                    assert(s.friend_requests.remove(mi)[j] == s.friend_requests[j]);
                } else {
                    assert(self.friend_requests@[j] == old(self).friend_requests@[j + 1]);
                    assert(s.friend_requests.remove(mi)[j] == s.friend_requests[j + 1]);
                }
            }
            assert(self@.friend_requests =~= s.friend_requests.remove(mi));
            assert(self@ == (StoreView { friend_requests: s.friend_requests.remove(mi), ..s }));
            assert forall|i: int, j: int|
                0 <= i < j < self@.friend_requests.len() implies self@.friend_requests[i].0
                < self@.friend_requests[j].0 by {
                if j < mi {
                    assert(s.friend_requests[i].0 < s.friend_requests[j].0);
                } else if i < mi {
                    assert(s.friend_requests[i].0 < s.friend_requests[j + 1].0);
                } else {
                    assert(s.friend_requests[i + 1].0 < s.friend_requests[j + 1].0);
                }
            }
        }
    }

    /// Files a friend request. Rejected when the caller already has a
    /// pending request to that user, or that user already has one pending
    /// to the caller; otherwise stored under the next request id.
    pub fn add_friend_request(
        &mut self,
        requested_by: PrincipalId,
        to: PrincipalId,
        message: String,
        now: u64,
    ) -> (r: Result<FriendRequestResponse, ApiError>)
        requires
            old(self).inv(),
            spec_next_request_id(old(self)@.friend_requests) <= u64::MAX,
        ensures
            final(self).inv(),
            ({
                let s = old(self)@;
                if has_request_between(s.friend_requests, requested_by, to) {
                    r matches Err(e) && e.has_tag(ApiErrorType::BadRequest, "ALREADY_REQUESTED"@)
                        && final(self)@ == s
                } else if has_request_between(s.friend_requests, to, requested_by) {
                    r matches Err(e) && e.has_tag(ApiErrorType::BadRequest, "PENDING_REQUEST"@)
                        && final(self)@ == s
                } else {
                    let id = spec_next_request_id(s.friend_requests) as u64;
                    let req = FriendRequestView { requested_by, message: message@, to, created_at: now };
                    r matches Ok(resp) && final(self)@ == (StoreView {
                        friend_requests: s.friend_requests.push((id, req)),
                        ..s
                    }) && resp@ == (FriendRequestResponseView {
                        id,
                        requested_by,
                        message: message@,
                        to,
                        created_at: now,
                    })
                }
            }),
    {
        if self.request_between(requested_by, to) {
            return Err(
                api_error(
                    ApiErrorType::BadRequest,
                    "ALREADY_REQUESTED",
                    "You already sent a friend request to this user",
                    self.name.as_str(),
                    "friend_request",
                    None,
                ),
            );
        }
        if self.request_between(to, requested_by) {
            return Err(
                api_error(
                    ApiErrorType::BadRequest,
                    "PENDING_REQUEST",
                    "The invited user already send you a friend request",
                    self.name.as_str(),
                    "friend_request",
                    None,
                ),
            );
        }
        let id = if self.friend_requests.len() == 0 {
            0
        } else {
            proof {
                assert(self@.friend_requests.last() == request_entry_view(
                    self.friend_requests@[self.friend_requests@.len() - 1],
                ));
            }
            self.friend_requests[self.friend_requests.len() - 1].0 + 1
        };
        let request = FriendRequest { requested_by, message: message.clone(), to, created_at: now };
        self.friend_requests.push((id, request));
        proof {
            let s = old(self)@;
            let req = FriendRequestView {
                requested_by,
                message: message@,
                to,
                created_at: now,
            };
            assert forall|j: int|
                0 <= j < self@.friend_requests.len() implies self@.friend_requests[j]
                == s.friend_requests.push((id, req))[j] by {
                assert(self@.friend_requests[j] == request_entry_view(self.friend_requests@[j]));
                if j < s.friend_requests.len() {
                    assert(self.friend_requests@[j] == old(self).friend_requests@[j]);
                }
            }
            assert(self@.friend_requests =~= s.friend_requests.push((id, req)));
            assert forall|i: int, j: int|
                0 <= i < j < self@.friend_requests.len() implies self@.friend_requests[i].0
                < self@.friend_requests[j].0 by {
                if j < self@.friend_requests.len() - 1 {
                    assert(s.friend_requests[i].0 < s.friend_requests[j].0);
                } else {
                    assert(s.friend_requests[i].0 <= s.friend_requests.last().0);
                }
            }
        }
        Ok(FriendRequestResponse { id, requested_by, message, to, created_at: now })
    }

    /// The requests that involve the caller, as responses in table order.
    pub fn get_friend_requests(&self, caller: PrincipalId) -> (r: Vec<FriendRequestResponse>)
        ensures
            r@.map_values(|x: FriendRequestResponse| x@) == spec_requests_for(
                self@.friend_requests,
                caller,
            ),
    {
        let ghost rv = self@.friend_requests;
        let mut out: Vec<FriendRequestResponse> = Vec::new();
        let mut i: usize = 0;
        while i < self.friend_requests.len()
            invariant
                i <= self.friend_requests@.len(),
                rv == self@.friend_requests,
                rv.len() == self.friend_requests@.len(),
                out@.map_values(|x: FriendRequestResponse| x@) == spec_requests_for(
                    rv.subrange(0, i as int),
                    caller,
                ),
            decreases self.friend_requests.len() - i,
        {
            proof {
                assert(rv[i as int] == request_entry_view(self.friend_requests@[i as int]));
            }
            let id = self.friend_requests[i].0;
            let e = &self.friend_requests[i].1;
            if e.requested_by == caller || e.to == caller {
                out.push(
                    FriendRequestResponse {
                        id,
                        requested_by: e.requested_by,
                        message: e.message.clone(),
                        to: e.to,
                        created_at: e.created_at,
                    },
                );
            }
            i = i + 1;
            proof {
                assert(rv.subrange(0, i as int).drop_last() =~= rv.subrange(0, i as int - 1));
                assert(rv.subrange(0, i as int).last() == rv[i as int - 1]);
                assert(out@.map_values(|x: FriendRequestResponse| x@) =~= spec_requests_for(
                    rv.subrange(0, i as int),
                    caller,
                ));
            }
        }
        proof {
            assert(rv.subrange(0, rv.len() as int) =~= rv);
        }
        out
    }

    /// Accepts a request addressed to the caller: both profiles record the
    /// friendship and the request is removed. Fails without mutating when
    /// the request is unknown, addressed to someone else, or either
    /// profile is missing from this shard.
    pub fn accept_friend_request(&mut self, caller: PrincipalId, id: u64) -> (r: Result<
        bool,
        String,
    >)
        requires
            old(self).inv(),
        ensures
            final(self).inv(),
            ({
                let s = old(self)@;
                let ridx = request_key_idx(s.friend_requests, id);
                if ridx < 0 {
                    r is Err && final(self)@ == s
                } else {
                    let req = s.friend_requests[ridx].1;
                    let i1 = find_principal_idx(s.entries, req.to);
                    if req.to != caller || i1 < 0 || find_principal_idx(
                        s.entries,
                        req.requested_by,
                    ) < 0 {
                        r is Err && final(self)@ == s
                    } else {
                        let p1 = spec_profile_with_relations(
                            s.entries[i1].1,
                            spec_tag_put(
                                s.entries[i1].1.relations,
                                req.requested_by,
                                RelationType::Friend.spec_text(),
                            ),
                        );
                        let s1 = spec_with_profile(s, i1, p1);
                        let i2 = find_principal_idx(s1.entries, req.requested_by);
                        let p2 = spec_profile_with_relations(
                            s1.entries[i2].1,
                            spec_tag_put(
                                s1.entries[i2].1.relations,
                                req.to,
                                RelationType::Friend.spec_text(),
                            ),
                        );
                        let s2 = spec_with_profile(s1, i2, p2);
                        i2 >= 0 && r == Ok::<bool, String>(true) && final(self)@ == (StoreView {
                            friend_requests: s2.friend_requests.remove(ridx),
                            ..s2
                        })
                    }
                }
            }),
    {
        let ridx = match self.find_request(id) {
            None => {
                return Err("Request not found".to_owned());
            },
            Some(i) => i,
        };
        proof {
            assert(self@.friend_requests[ridx as int] == request_entry_view(
                self.friend_requests@[ridx as int],
            ));
        }
        let req_to = self.friend_requests[ridx].1.to;
        let req_by = self.friend_requests[ridx].1.requested_by;
        if req_to.id != caller.id {
            return Err("Request not found".to_owned());
        }
        let (i1, mut profile1) = match self.caller_profile(caller, "accept_friend_request") {
            Err(_) => {
                return Err("Request not found".to_owned());
            },
            Ok(v) => v,
        };
        proof {
            lemma_find_principal_idx(self@.entries, req_by);
        }
        if self.find_by_principal(req_by).is_none() {
            return Err("Request not found".to_owned());
        }
        let ghost s0 = old(self)@;
        let ghost reqv = s0.friend_requests[ridx as int].1;
        crate::store_social::tag_put(
            &mut profile1.relations,
            req_by,
            RelationType::Friend.to_text(),
        );
        proof {
            assert(profile1@ == spec_profile_with_relations(
                s0.entries[i1 as int].1,
                spec_tag_put(
                    s0.entries[i1 as int].1.relations,
                    reqv.requested_by,
                    RelationType::Friend.spec_text(),
                ),
            ));
        }
        self.set_profile_at(i1, profile1);
        let ghost s1 = self@;
        let (i2, mut profile2) = match self.caller_profile(req_by, "accept_friend_request") {
            Err(_) => {
                proof {
                    assert forall|k: int|
                        0 <= k < s1.entries.len() implies (#[trigger] s1.entries[k]).1.principal
                        == s0.entries[k].1.principal by {}
                    lemma_find_principal_pointwise(s1.entries, s0.entries, req_by);
                }
                return Err("Request not found".to_owned());
            },
            Ok(v) => v,
        };
        crate::store_social::tag_put(
            &mut profile2.relations,
            req_to,
            RelationType::Friend.to_text(),
        );
        proof {
            assert(profile2@ == spec_profile_with_relations(
                s1.entries[i2 as int].1,
                spec_tag_put(
                    s1.entries[i2 as int].1.relations,
                    reqv.to,
                    RelationType::Friend.spec_text(),
                ),
            ));
        }
        self.set_profile_at(i2, profile2);
        proof {
            assert(self@ == spec_with_profile(
                s1,
                i2 as int,
                spec_profile_with_relations(
                    s1.entries[i2 as int].1,
                    spec_tag_put(
                        s1.entries[i2 as int].1.relations,
                        reqv.to,
                        RelationType::Friend.spec_text(),
                    ),
                ),
            ));
        }
        self.remove_request_at(ridx);
        Ok(true)
    }

    /// Declines a request addressed to the caller: the request is removed
    /// and nothing else changes.
    pub fn decline_friend_request(&mut self, caller: PrincipalId, id: u64) -> (r: Result<
        bool,
        String,
    >)
        requires
            old(self).inv(),
        ensures
            final(self).inv(),
            ({
                let s = old(self)@;
                let ridx = request_key_idx(s.friend_requests, id);
                if ridx >= 0 && s.friend_requests[ridx].1.to == caller {
                    r == Ok::<bool, String>(true) && final(self)@ == (StoreView {
                        friend_requests: s.friend_requests.remove(ridx),
                        ..s
                    })
                } else {
                    r is Err && final(self)@ == s
                }
            }),
    {
        let ridx = match self.find_request(id) {
            None => {
                return Err("Request not found".to_owned());
            },
            Some(i) => i,
        };
        proof {
            assert(self@.friend_requests[ridx as int] == request_entry_view(
                self.friend_requests@[ridx as int],
            ));
        }
        if self.friend_requests[ridx].1.to.id == caller.id {
            self.remove_request_at(ridx);
            Ok(true)
        } else {
            Err("Request not found".to_owned())
        }
    }

    /// Withdraws a request the caller filed: the request is removed and
    /// nothing else changes.
    pub fn remove_friend_request(&mut self, caller: PrincipalId, id: u64) -> (r: Result<
        bool,
        String,
    >)
        requires
            old(self).inv(),
        ensures
            final(self).inv(),
            ({
                let s = old(self)@;
                let ridx = request_key_idx(s.friend_requests, id);
                if ridx >= 0 && s.friend_requests[ridx].1.requested_by == caller {
                    r == Ok::<bool, String>(true) && final(self)@ == (StoreView {
                        friend_requests: s.friend_requests.remove(ridx),
                        ..s
                    })
                } else {
                    r is Err && final(self)@ == s
                }
            }),
    {
        let ridx = match self.find_request(id) {
            None => {
                return Err("Request not found".to_owned());
            },
            Some(i) => i,
        };
        proof {
            assert(self@.friend_requests[ridx as int] == request_entry_view(
                self.friend_requests@[ridx as int],
            ));
        }
        if self.friend_requests[ridx].1.requested_by.id == caller.id {
            self.remove_request_at(ridx);
            Ok(true)
        } else {
            Err("Request not found".to_owned())
        }
    }

    /// Ends a friendship: both profiles drop their relation entry for the
    /// other. Fails without mutating when either profile is missing.
    pub fn remove_friend(&mut self, caller: PrincipalId, to_remove: PrincipalId) -> (r: Result<
        bool,
        String,
    >)
        requires
            old(self).inv(),
        ensures
            final(self).inv(),
            ({
                let s = old(self)@;
                let i1 = find_principal_idx(s.entries, caller);
                if i1 < 0 || find_principal_idx(s.entries, to_remove) < 0 {
                    r is Err && final(self)@ == s
                } else {
                    let p1 = spec_profile_with_relations(
                        s.entries[i1].1,
                        spec_tag_remove(s.entries[i1].1.relations, to_remove),
                    );
                    let s1 = spec_with_profile(s, i1, p1);
                    let i2 = find_principal_idx(s1.entries, to_remove);
                    let p2 = spec_profile_with_relations(
                        s1.entries[i2].1,
                        spec_tag_remove(s1.entries[i2].1.relations, caller),
                    );
                    i2 >= 0 && r == Ok::<bool, String>(true) && final(self)@ == spec_with_profile(
                        s1,
                        i2,
                        p2,
                    )
                }
            }),
    {
        let (i1, mut profile1) = match self.caller_profile(caller, "remove_friend") {
            Err(_) => {
                return Err("Request not found".to_owned());
            },
            Ok(v) => v,
        };
        if self.find_by_principal(to_remove).is_none() {
            return Err("Request not found".to_owned());
        }
        let ghost s0 = old(self)@;
        crate::store_social::tag_remove(&mut profile1.relations, to_remove);
        proof {
            assert(profile1@ == spec_profile_with_relations(
                s0.entries[i1 as int].1,
                spec_tag_remove(s0.entries[i1 as int].1.relations, to_remove),
            ));
        }
        self.set_profile_at(i1, profile1);
        let ghost s1 = self@;
        let (i2, mut profile2) = match self.caller_profile(to_remove, "remove_friend") {
            Err(_) => {
                proof {
                    assert forall|k: int|
                        0 <= k < s1.entries.len() implies (#[trigger] s1.entries[k]).1.principal
                        == s0.entries[k].1.principal by {}
                    lemma_find_principal_pointwise(s1.entries, s0.entries, to_remove);
                }
                return Err("Request not found".to_owned());
            },
            Ok(v) => v,
        };
        crate::store_social::tag_remove(&mut profile2.relations, caller);
        proof {
            assert(profile2@ == spec_profile_with_relations(
                s1.entries[i2 as int].1,
                spec_tag_remove(s1.entries[i2 as int].1.relations, caller),
            ));
        }
        self.set_profile_at(i2, profile2);
        Ok(true)
    }

    // -----------------------------------------------------------------
    // single-record reads
    // -----------------------------------------------------------------
    /// The record owned by `principal`, as a response.
    pub fn get_profile_by_user_principal(&self, principal: PrincipalId) -> (r: Result<
        ProfileResponse,
        ApiError,
    >)
        ensures
            ({
                let i = find_principal_idx(self@.entries, principal);
                match r {
                    Ok(resp) => i >= 0 && resp@ == response_view_of(
                        spec_identifier(self@.canister, self@.entries[i].0),
                        self@.entries[i].1,
                    ),
                    Err(e) => i < 0 && e.has_tag(ApiErrorType::NotFound, "PROFILE_NOT_FOUND"@),
                }
            }),
    {
        let (idx, profile) = match self.caller_profile(
            principal,
            "get_profile_by_user_principal",
        ) {
            Err(e) => {
                return Err(e);
            },
            Ok(v) => v,
        };
        let key = self.entries[idx].0;
        let identifier = Identifier {
            canister: self.canister,
            sequence: key,
            kind: crate::store::profile_identifier_kind(),
        };
        proof {
            assert(self@.entries[idx as int] == crate::profile_models::profile_entry_view(
                self.entries@[idx as int],
            ));
        }
        Ok(map_profile_to_profile_response(identifier, profile))
    }

    /// The record stored under an identifier minted by this shard; an
    /// identifier of another shard, another kind, or an absent sequence
    /// number is not found.
    pub fn get_profile_by_identifier(&self, identifier: &Identifier) -> (r: Result<
        ProfileResponse,
        ApiError,
    >)
        ensures
            ({
                let i = find_key_idx(self@.entries, identifier@.sequence);
                let matches_here = identifier@.canister == self@.canister && identifier@.kind
                    == "pfe"@ && i >= 0;
                match r {
                    Ok(resp) => matches_here && resp@ == response_view_of(
                        spec_identifier(self@.canister, identifier@.sequence),
                        self@.entries[i].1,
                    ),
                    Err(e) => !matches_here && e.has_tag(
                        ApiErrorType::NotFound,
                        "PROFILE_NOT_FOUND"@,
                    ),
                }
            }),
    {
        let same_shard = identifier.canister.id == self.canister.id;
        let kind_tag = crate::store::profile_identifier_kind();
        let same_kind = identifier.kind == kind_tag;
        if same_shard && same_kind {
            match self.find_by_key(identifier.sequence) {
                Some(idx) => {
                    proof {
                        assert(self@.entries[idx as int]
                            == crate::profile_models::profile_entry_view(
                            self.entries@[idx as int],
                        ));
                    }
                    let key = self.entries[idx].0;
                    let minted = Identifier {
                        canister: self.canister,
                        sequence: key,
                        kind: crate::store::profile_identifier_kind(),
                    };
                    let profile = self.entries[idx].1.clone();
                    return Ok(map_profile_to_profile_response(minted, profile));
                },
                None => {},
            }
        }
        Err(
            api_error(
                ApiErrorType::NotFound,
                "PROFILE_NOT_FOUND",
                "Profile not found",
                self.name.as_str(),
                "get_profile_by_identifier",
                None,
            ),
        )
    }

    /// The records owned by the given principals, in request order;
    /// principals owning no record here are skipped.
    pub fn get_profiles_by_user_principal(&self, principals: &Vec<PrincipalId>) -> (r: Vec<
        ProfileResponse,
    >)
        ensures
            profile_responses_view(r@) == spec_collect_by_principals(self@, principals@),
    {
        let mut collected: Vec<ProfileResponse> = Vec::new();
        let mut i: usize = 0;
        while i < principals.len()
            invariant
                i <= principals@.len(),
                profile_responses_view(collected@) == spec_collect_by_principals(
                    self@,
                    principals@.subrange(0, i as int),
                ),
            decreases principals.len() - i,
        {
            let p = principals[i];
            match self.find_by_principal(p) {
                None => {},
                Some(idx) => {
                    let key = self.entries[idx].0;
                    let identifier = Identifier {
                        canister: self.canister,
                        sequence: key,
                        kind: crate::store::profile_identifier_kind(),
                    };
                    let response = map_profile_to_profile_response(
                        identifier,
                        self.entries[idx].1.clone(),
                    );
                    collected.push(response);
                },
            }
            i = i + 1;
            proof {
                assert(principals@.subrange(0, i as int).drop_last() =~= principals@.subrange(
                    0,
                    i as int - 1,
                ));
                assert(principals@.subrange(0, i as int).last() == principals@[i as int - 1]);
                lemma_find_principal_idx(self@.entries, principals@[i as int - 1]);
                let idx = find_principal_idx(self@.entries, principals@[i as int - 1]);
                if idx >= 0 {
                    assert(self@.entries[idx] == crate::profile_models::profile_entry_view(
                        self.entries@[idx],
                    ));
                }
                assert(profile_responses_view(collected@) =~= spec_collect_by_principals(
                    self@,
                    principals@.subrange(0, i as int),
                ));
            }
        }
        proof {
            assert(principals@.subrange(0, principals@.len() as int) =~= principals@);
        }
        collected
    }

    /// The records stored under the given identifiers, in request order;
    /// identifiers that match nothing here are skipped.
    pub fn get_profiles_by_identifier(&self, identifiers: &Vec<Identifier>) -> (r: Vec<
        ProfileResponse,
    >)
        ensures
            profile_responses_view(r@) == spec_collect_by_identifiers(
                self@,
                crate::profile_models::identifiers_view(identifiers@),
            ),
    {
        let ghost idsv = crate::profile_models::identifiers_view(identifiers@);
        let mut collected: Vec<ProfileResponse> = Vec::new();
        let mut i: usize = 0;
        while i < identifiers.len()
            invariant
                i <= identifiers@.len(),
                idsv == crate::profile_models::identifiers_view(identifiers@),
                idsv.len() == identifiers@.len(),
                profile_responses_view(collected@) == spec_collect_by_identifiers(
                    self@,
                    idsv.subrange(0, i as int),
                ),
            decreases identifiers.len() - i,
        {
            proof {
                assert(idsv[i as int] == identifiers@[i as int]@);
            }
            let id = &identifiers[i];
            let same_shard = id.canister == self.canister;
            let kind_tag = crate::store::profile_identifier_kind();
            let same_kind = id.kind == kind_tag;
            if same_shard && same_kind {
                match self.find_by_key(id.sequence) {
                    None => {},
                    Some(idx) => {
                        let key = self.entries[idx].0;
                        let identifier = Identifier {
                            canister: self.canister,
                            sequence: key,
                            kind: crate::store::profile_identifier_kind(),
                        };
                        let response = map_profile_to_profile_response(
                            identifier,
                            self.entries[idx].1.clone(),
                        );
                        collected.push(response);
                    },
                }
            }
            i = i + 1;
            proof {
                assert(idsv.subrange(0, i as int).drop_last() =~= idsv.subrange(0, i as int - 1));
                assert(idsv.subrange(0, i as int).last() == idsv[i as int - 1]);
                lemma_find_key_idx(self@.entries, idsv[i as int - 1].sequence);
                let idx = find_key_idx(self@.entries, idsv[i as int - 1].sequence);
                if idx >= 0 {
                    assert(self@.entries[idx] == crate::profile_models::profile_entry_view(
                        self.entries@[idx],
                    ));
                }
                assert(profile_responses_view(collected@) =~= spec_collect_by_identifiers(
                    self@,
                    idsv.subrange(0, i as int),
                ));
            }
        }
        proof {
            assert(idsv.subrange(0, idsv.len() as int) =~= idsv);
        }
        collected
    }

    /// The whole table as identifier–record pairs, in storage order.
    pub fn get_all(&self) -> (r: Vec<(Identifier, Profile)>)
        ensures
            r@.len() == self@.entries.len(),
            forall|i: int|
                0 <= i < r@.len() ==> (#[trigger] r@[i]).0@ == spec_identifier(
                    self@.canister,
                    self@.entries[i].0,
                ) && r@[i].1@ == self@.entries[i].1,
    {
        let mut out: Vec<(Identifier, Profile)> = Vec::new();
        let mut i: usize = 0;
        while i < self.entries.len()
            invariant
                i <= self.entries@.len(),
                self@.entries.len() == self.entries@.len(),
                out@.len() == i as int,
                forall|k: int|
                    0 <= k < i as int ==> (#[trigger] out@[k]).0@ == spec_identifier(
                        self@.canister,
                        self@.entries[k].0,
                    ) && out@[k].1@ == self@.entries[k].1,
            decreases self.entries.len() - i,
        {
            proof {
                assert(self@.entries[i as int] == crate::profile_models::profile_entry_view(
                    self.entries@[i as int],
                ));
            }
            let key = self.entries[i].0;
            let identifier = Identifier {
                canister: self.canister,
                sequence: key,
                kind: crate::store::profile_identifier_kind(),
            };
            out.push((identifier, self.entries[i].1.clone()));
            i = i + 1;
        }
        out
    }
}

} // verus!
