//! The shard registry kept by the coordinator.
//!
//! The registry tracks every shard node's address, availability, closed
//! identifier range, and installed code version. It picks an available
//! shard for writes, and drives the capacity-overflow protocol as an
//! explicit state machine: each decision between two cross-actor calls is
//! a function here, so a resumed call can detect an inconsistent
//! intermediate state instead of silently repairing it. In particular, a
//! closing shard is marked unavailable before the overflow record's
//! forward call is confirmed; a failed confirmation surfaces as a distinct
//! fatal error and the shard stays closed.

use vstd::prelude::*;
use vstd::pervasive::VecAdditionalExecFns;
use crate::errors::ApiError;
use crate::errors::ApiErrorType;
use crate::errors::api_error;
use crate::profile_models::PrincipalId;

verus! {

/// Installed code version of a shard node.
#[derive(Clone, Copy, Debug, PartialEq, Eq, Structural)]
pub enum WasmVersion {
    Unspecified,
    Version(u64),
}

/// What a registered node currently runs.
#[derive(Clone, Copy, Debug, PartialEq, Eq, Structural)]
pub enum CanisterType {
    Empty,
    ScalableChild,
}

/// One shard node as the registry tracks it.
#[derive(Clone, Copy, Debug)]
pub struct ScalableCanisterDetails {
    pub principal: PrincipalId,
    pub wasm_version: WasmVersion,
    pub canister_type: CanisterType,
    pub is_available: bool,
    pub entry_range: (u64, Option<u64>),
}

/// The code image to install on new shard nodes.
pub struct WasmDetails {
    pub label: String,
    pub bytes: Vec<u8>,
    pub wasm_type: CanisterType,
    pub wasm_version: WasmVersion,
    pub updated_at: u64,
    pub created_at: u64,
}

pub ghost struct WasmDetailsView {
    pub label: Seq<char>,
    pub bytes: Seq<u8>,
    pub wasm_type: CanisterType,
    pub wasm_version: WasmVersion,
    pub updated_at: u64,
    pub created_at: u64,
}

impl View for WasmDetails {
    type V = WasmDetailsView;

    open spec fn view(&self) -> WasmDetailsView {
        WasmDetailsView {
            label: self.label@,
            bytes: self.bytes@,
            wasm_type: self.wasm_type,
            wasm_version: self.wasm_version,
            updated_at: self.updated_at,
            created_at: self.created_at,
        }
    }
}

/// Registry metadata served to operators.
pub struct ScalableMetaData {
    pub name: String,
    pub canister_count: usize,
    pub has_child_wasm: bool,
    pub cycles: u64,
    pub used_data: u64,
    pub parent: PrincipalId,
    pub updated_at: u64,
    pub created_at: u64,
}

/// The coordinator's registry of shard nodes.
pub struct ScalableData {
    pub name: String,
    pub canisters: Vec<(PrincipalId, ScalableCanisterDetails)>,
    pub parent: PrincipalId,
    pub child_wasm_data: WasmDetails,
    pub updated_at: u64,
    pub created_at: u64,
}

pub ghost struct ScalableDataView {
    pub name: Seq<char>,
    pub canisters: Seq<(PrincipalId, ScalableCanisterDetails)>,
    pub parent: PrincipalId,
    pub child_wasm_data: WasmDetailsView,
    pub updated_at: u64,
    pub created_at: u64,
}

impl View for ScalableData {
    type V = ScalableDataView;

    open spec fn view(&self) -> ScalableDataView {
        ScalableDataView {
            name: self.name@,
            canisters: self.canisters@,
            parent: self.parent,
            child_wasm_data: self.child_wasm_data@,
            updated_at: self.updated_at,
            created_at: self.created_at,
        }
    }
}

/// Index of the entry registered under address `p`, or -1.
pub open spec fn find_canister_idx(
    canisters: Seq<(PrincipalId, ScalableCanisterDetails)>,
    p: PrincipalId,
) -> int
    decreases canisters.len(),
{
    if canisters.len() == 0 {
        -1
    } else if canisters[0].0 == p {
        0
    } else {
        let r = find_canister_idx(canisters.skip(1), p);
        if r < 0 {
            -1
        } else {
            r + 1
        }
    }
}

/// `find_canister_idx` names the first match, or -1 when none exists.
pub proof fn lemma_find_canister_idx(
    canisters: Seq<(PrincipalId, ScalableCanisterDetails)>,
    p: PrincipalId,
)
    ensures
        find_canister_idx(canisters, p) == -1 ==> forall|i: int|
            0 <= i < canisters.len() ==> (#[trigger] canisters[i]).0 != p,
        find_canister_idx(canisters, p) >= 0 ==> {
            let r = find_canister_idx(canisters, p);
            &&& r < canisters.len()
            &&& canisters[r].0 == p
            &&& forall|i: int| 0 <= i < r ==> (#[trigger] canisters[i]).0 != p
        },
    decreases canisters.len(),
{
    if canisters.len() == 0 {
    } else if canisters[0].0 == p {
    } else {
        lemma_find_canister_idx(canisters.skip(1), p);
        assert forall|i: int| 1 <= i < canisters.len() implies (#[trigger] canisters[i])
            == canisters.skip(1)[i - 1] by {
            assert(canisters.skip(1)[i - 1] == canisters[i]);
        }
    }
}

/// Index of the first available shard other than `excluding`, or -1.
pub open spec fn find_available_idx(
    canisters: Seq<(PrincipalId, ScalableCanisterDetails)>,
    excluding: PrincipalId,
) -> int
    decreases canisters.len(),
{
    if canisters.len() == 0 {
        -1
    } else if canisters[0].1.principal != excluding && canisters[0].1.is_available {
        0
    } else {
        let r = find_available_idx(canisters.skip(1), excluding);
        if r < 0 {
            -1
        } else {
            r + 1
        }
    }
}

/// `find_available_idx` names the first available non-excluded shard, or
/// -1 when none exists.
pub proof fn lemma_find_available_idx(
    canisters: Seq<(PrincipalId, ScalableCanisterDetails)>,
    excluding: PrincipalId,
)
    ensures
        find_available_idx(canisters, excluding) == -1 ==> forall|i: int|
            0 <= i < canisters.len() ==> !((#[trigger] canisters[i]).1.principal != excluding
                && canisters[i].1.is_available),
        find_available_idx(canisters, excluding) >= 0 ==> {
            let r = find_available_idx(canisters, excluding);
            &&& r < canisters.len()
            &&& canisters[r].1.principal != excluding
            &&& canisters[r].1.is_available
            &&& forall|i: int|
                0 <= i < r ==> !((#[trigger] canisters[i]).1.principal != excluding
                    && canisters[i].1.is_available)
        },
    decreases canisters.len(),
{
    if canisters.len() == 0 {
    } else if canisters[0].1.principal != excluding && canisters[0].1.is_available {
    } else {
        lemma_find_available_idx(canisters.skip(1), excluding);
        assert forall|i: int| 1 <= i < canisters.len() implies (#[trigger] canisters[i])
            == canisters.skip(1)[i - 1] by {
            assert(canisters.skip(1)[i - 1] == canisters[i]);
        }
    }
}

/// The registry after registering `details` under its address: an existing
/// entry is overwritten in place, a new address is appended.
pub open spec fn spec_register(
    s: ScalableDataView,
    details: ScalableCanisterDetails,
) -> ScalableDataView {
    let idx = find_canister_idx(s.canisters, details.principal);
    if idx >= 0 {
        ScalableDataView { canisters: s.canisters.update(idx, (details.principal, details)), ..s }
    } else {
        ScalableDataView { canisters: s.canisters.push((details.principal, details)), ..s }
    }
}

impl ScalableData {
    /// Creates an empty registry.
    pub fn new(name: String, parent: PrincipalId, child_wasm_data: WasmDetails, now: u64) -> (r:
        ScalableData)
        ensures
            r@.name == name@,
            r@.parent == parent,
            r@.canisters.len() == 0,
            r@.child_wasm_data == child_wasm_data@,
            r@.updated_at == now,
            r@.created_at == now,
    {
        ScalableData {
            name,
            canisters: Vec::new(),
            parent,
            child_wasm_data,
            updated_at: now,
            created_at: now,
        }
    }

    /// Whether a child code image has been uploaded.
    pub fn has_child_wasm(&self) -> (r: bool)
        ensures
            r == (self@.child_wasm_data.bytes.len() > 0),
    {
        self.child_wasm_data.bytes.len() > 0
    }

    /// Finds the registry index of the entry under address `p`, mirroring
    /// `find_canister_idx`.
    fn find_canister(&self, p: PrincipalId) -> (r: Option<usize>)
        ensures
            match r {
                Some(i) => i == find_canister_idx(self@.canisters, p) && i < self@.canisters.len()
                    && self@.canisters[i as int].0 == p,
                None => find_canister_idx(self@.canisters, p) == -1,
            },
    {
        let mut i: usize = 0;
        while i < self.canisters.len()
            invariant
                i <= self.canisters@.len(),
                forall|k: int| 0 <= k < i as int ==> (#[trigger] self.canisters@[k]).0 != p,
            decreases self.canisters.len() - i,
        {
            if self.canisters[i].0 == p {
                proof {
                    lemma_find_canister_idx(self@.canisters, p);
                    let r = find_canister_idx(self@.canisters, p);
                    if r == -1 {
                        assert(self@.canisters[i as int].0 != p);
                    }
                    if 0 <= r < i as int {
                        assert(self@.canisters[r].0 != p);
                    }
                    if r > i as int {
                        assert(self@.canisters[i as int].0 != p);
                    }
                }
                return Some(i);
            }
            i = i + 1;
        }
        proof {
            lemma_find_canister_idx(self@.canisters, p);
            let r = find_canister_idx(self@.canisters, p);
            if r >= 0 {
                assert(self@.canisters[r].0 != p);
            }
        }
        None
    }

    /// Picks the first shard with free capacity, optionally excluding the
    /// calling shard's own address; fails when every shard is full.
    pub fn get_available_canister(&self, caller: PrincipalId) -> (r: Result<
        ScalableCanisterDetails,
        String,
    >)
        ensures
            match r {
                Ok(c) => {
                    let idx = find_available_idx(self@.canisters, caller);
                    idx >= 0 && c == self@.canisters[idx].1
                },
                Err(_) => find_available_idx(self@.canisters, caller) == -1,
            },
    {
        let mut i: usize = 0;
        while i < self.canisters.len()
            invariant
                i <= self.canisters@.len(),
                forall|k: int|
                    0 <= k < i as int ==> !((#[trigger] self.canisters@[k]).1.principal != caller
                        && self.canisters@[k].1.is_available),
            decreases self.canisters.len() - i,
        {
            let details = self.canisters[i].1;
            if details.principal.id != caller.id && details.is_available {
                proof {
                    lemma_find_available_idx(self@.canisters, caller);
                    let r = find_available_idx(self@.canisters, caller);
                    assert(self@.canisters[i as int].1.principal != caller);
                    if r == -1 {
                        assert(!(self@.canisters[i as int].1.principal != caller
                            && self@.canisters[i as int].1.is_available));
                    }
                    if 0 <= r < i as int {
                        assert(!(self@.canisters[r].1.principal != caller
                            && self@.canisters[r].1.is_available));
                    }
                    if r > i as int {
                        assert(!(self@.canisters[i as int].1.principal != caller
                            && self@.canisters[i as int].1.is_available));
                    }
                }
                return Ok(details);
            }
            proof {
                if self.canisters@[i as int].1.principal != caller {
                    assert(!self.canisters@[i as int].1.is_available);
                }
            }
            i = i + 1;
        }
        proof {
            lemma_find_available_idx(self@.canisters, caller);
            let r = find_available_idx(self@.canisters, caller);
            if r >= 0 {
                assert(!(self@.canisters[r].1.principal != caller
                    && self@.canisters[r].1.is_available));
            }
        }
        Err("No available canister found".to_owned())
    }

    /// Serves every registered shard's details, in registration order.
    pub fn get_canisters(&self) -> (r: Vec<ScalableCanisterDetails>)
        ensures
            r@.len() == self@.canisters.len(),
            forall|i: int| 0 <= i < r@.len() ==> r@[i] == (#[trigger] self@.canisters[i]).1,
    {
        let mut out: Vec<ScalableCanisterDetails> = Vec::new();
        let mut i: usize = 0;
        while i < self.canisters.len()
            invariant
                i <= self.canisters@.len(),
                out@.len() == i as int,
                forall|k: int| 0 <= k < i as int ==> out@[k] == (#[trigger] self.canisters@[k]).1,
            decreases self.canisters.len() - i,
        {
            out.push(self.canisters[i].1);
            i = i + 1;
        }
        out
    }

    /// Registry metadata under the given resource readings.
    pub fn metadata(&self, cycles: u64, used_data: u64) -> (r: ScalableMetaData)
        ensures
            r.name@ == self@.name,
            r.canister_count == self@.canisters.len(),
            r.has_child_wasm == (self@.child_wasm_data.bytes.len() > 0),
            r.cycles == cycles,
            r.used_data == used_data,
            r.parent == self@.parent,
            r.updated_at == self@.updated_at,
            r.created_at == self@.created_at,
    {
        ScalableMetaData {
            name: self.name.clone(),
            canister_count: self.canisters.len(),
            has_child_wasm: self.child_wasm_data.bytes.len() > 0,
            cycles,
            used_data,
            parent: self.parent,
            updated_at: self.updated_at,
            created_at: self.created_at,
        }
    }

    /// Registers a details entry under its address, overwriting an
    /// existing entry for that address.
    fn register(&mut self, details: ScalableCanisterDetails)
        ensures
            final(self)@ == spec_register(old(self)@, details),
    {
        proof {
            lemma_find_canister_idx(self@.canisters, details.principal);
        }
        match self.find_canister(details.principal) {
            Some(i) => {
                self.canisters.set(i, (details.principal, details));
            },
            None => {
                self.canisters.push((details.principal, details));
            },
        }
    }

    /// Records a freshly created, not yet installed shard node: empty,
    /// available, no code version, open identifier range.
    pub fn register_spawned(&mut self, new_canister: PrincipalId)
        ensures
            final(self)@ == spec_register(
                old(self)@,
                ScalableCanisterDetails {
                    principal: new_canister,
                    wasm_version: WasmVersion::Unspecified,
                    canister_type: CanisterType::Empty,
                    is_available: true,
                    entry_range: (0, None),
                },
            ),
    {
        let details = ScalableCanisterDetails {
            principal: new_canister,
            wasm_version: WasmVersion::Unspecified,
            canister_type: CanisterType::Empty,
            is_available: true,
            entry_range: (0, None),
        };
        self.register(details);
    }

    /// Records a confirmed install of the current child image on a node:
    /// the node becomes an available shard at the image's version.
    pub fn register_installed(&mut self, canister: PrincipalId) -> (r: Result<(), ApiError>)
        ensures
            match r {
                Ok(()) => old(self)@.child_wasm_data.bytes.len() > 0 && final(self)@
                    == spec_register(
                    old(self)@,
                    ScalableCanisterDetails {
                        principal: canister,
                        wasm_version: old(self)@.child_wasm_data.wasm_version,
                        canister_type: CanisterType::ScalableChild,
                        is_available: true,
                        entry_range: (0, None),
                    },
                ),
                Err(e) => old(self)@.child_wasm_data.bytes.len() == 0 && *final(self) == *old(self)
                    && e.has_tag(ApiErrorType::BadRequest, "NO_WASM_SPECIFIED"@),
            },
    {
        if self.child_wasm_data.bytes.len() == 0 {
            return Err(
                api_error(
                    ApiErrorType::BadRequest,
                    "NO_WASM_SPECIFIED",
                    "There is no foundation WASM uploaded",
                    self.name.as_str(),
                    "install_child_canister",
                    None,
                ),
            );
        }
        let details = ScalableCanisterDetails {
            principal: canister,
            wasm_version: self.child_wasm_data.wasm_version,
            canister_type: CanisterType::ScalableChild,
            is_available: true,
            entry_range: (0, None),
        };
        self.register(details);
        Ok(())
    }

    /// Admission check of the close-and-migrate protocol: there must be a
    /// child image to install on the sibling, and the calling shard must
    /// be known to this registry.
    pub fn close_and_migrate_begin(&self, caller: PrincipalId) -> (r: Result<(), ApiError>)
        ensures
            match r {
                Ok(()) => self@.child_wasm_data.bytes.len() > 0 && find_canister_idx(
                    self@.canisters,
                    caller,
                ) >= 0,
                Err(e) => {
                    &&& (e.has_tag(ApiErrorType::BadRequest, "NO_WASM_SPECIFIED"@)
                        <==> self@.child_wasm_data.bytes.len() == 0)
                    &&& (e.has_tag(ApiErrorType::BadRequest, "UNKNOWN_CANISTER"@)
                        ==> self@.child_wasm_data.bytes.len() > 0 && find_canister_idx(
                        self@.canisters,
                        caller,
                    ) == -1)
                    &&& (e.has_tag(ApiErrorType::BadRequest, "NO_WASM_SPECIFIED"@) || e.has_tag(
                        ApiErrorType::BadRequest,
                        "UNKNOWN_CANISTER"@,
                    ))
                },
            },
    {
        if self.child_wasm_data.bytes.len() == 0 {
            let e = api_error(
                ApiErrorType::BadRequest,
                "NO_WASM_SPECIFIED",
                "There is no foundation WASM uploaded",
                self.name.as_str(),
                "close_child_canister_and_spawn_sibling",
                None,
            );
            proof {
                reveal_strlit("NO_WASM_SPECIFIED");
                reveal_strlit("UNKNOWN_CANISTER");
                assert("NO_WASM_SPECIFIED"@.len() == 17);
                assert("UNKNOWN_CANISTER"@.len() == 16);
                assert("NO_WASM_SPECIFIED"@ != "UNKNOWN_CANISTER"@);
            }
            return Err(e);
        }
        match self.find_canister(caller) {
            Some(_) => Ok(()),
            None => {
                let e = api_error(
                    ApiErrorType::BadRequest,
                    "UNKNOWN_CANISTER",
                    "The caller principal isnt known to this canister",
                    self.name.as_str(),
                    "close_child_canister_and_spawn_sibling",
                    None,
                );
                proof {
                    reveal_strlit("NO_WASM_SPECIFIED");
                    reveal_strlit("UNKNOWN_CANISTER");
                    assert("NO_WASM_SPECIFIED"@.len() == 17);
                    assert("UNKNOWN_CANISTER"@.len() == 16);
                    assert("NO_WASM_SPECIFIED"@ != "UNKNOWN_CANISTER"@);
                }
                Err(e)
            },
        }
    }

    /// Marks the calling shard closed before the overflow record's forward
    /// call is confirmed: availability drops and its identifier range is
    /// sealed at `last_entry_id`. This ordering is deliberate; see the
    /// module description.
    pub fn mark_closed(&mut self, caller: PrincipalId, last_entry_id: u64) -> (r: Result<
        (),
        ApiError,
    >)
        ensures
            match r {
                Ok(()) => {
                    let idx = find_canister_idx(old(self)@.canisters, caller);
                    &&& idx >= 0
                    &&& final(self)@ == (ScalableDataView {
                        canisters: old(self)@.canisters.update(
                            idx,
                            (
                                caller,
                                ScalableCanisterDetails {
                                    is_available: false,
                                    entry_range: (0, Some(last_entry_id)),
                                    ..old(self)@.canisters[idx].1
                                },
                            ),
                        ),
                        ..old(self)@
                    })
                },
                Err(e) => *final(self) == *old(self) && e.has_tag(
                    ApiErrorType::BadRequest,
                    "UNKNOWN_CANISTER"@,
                ) && find_canister_idx(old(self)@.canisters, caller) == -1,
            },
    {
        let idx = match self.find_canister(caller) {
            Some(i) => i,
            None => {
                return Err(
                    api_error(
                        ApiErrorType::BadRequest,
                        "UNKNOWN_CANISTER",
                        "The caller principal isnt known to this canister",
                        self.name.as_str(),
                        "close_child_canister_and_spawn_sibling",
                        None,
                    ),
                );
            },
        };
        let old_details = self.canisters[idx].1;
        let closed = ScalableCanisterDetails {
            principal: old_details.principal,
            wasm_version: old_details.wasm_version,
            canister_type: old_details.canister_type,
            is_available: false,
            entry_range: (0, Some(last_entry_id)),
        };
        self.canisters.set(idx, (caller, closed));
        Ok(())
    }

    /// Final decision of the close-and-migrate protocol: a confirmed
    /// forward yields the sibling's address; a failed forward is the
    /// distinct fatal error — the closed shard is left closed, holding an
    /// unmigrated record, and is not silently reopened.
    pub fn close_and_migrate_finish(&self, sibling: PrincipalId, forward_confirmed: bool) -> (r:
        Result<PrincipalId, ApiError>)
        ensures
            match r {
                Ok(p) => forward_confirmed && p == sibling,
                Err(e) => !forward_confirmed && e.has_tag(
                    ApiErrorType::BadRequest,
                    "FAILED_TO_STORE_DATA"@,
                ),
            },
    {
        if forward_confirmed {
            Ok(sibling)
        } else {
            Err(
                api_error(
                    ApiErrorType::BadRequest,
                    "FAILED_TO_STORE_DATA",
                    "The sibling did not confirm accepting the overflow record",
                    self.name.as_str(),
                    "close_child_canister_and_spawn_sibling",
                    None,
                ),
            )
        }
    }

    /// Admission check of a shard upgrade: the shard must be registered,
    /// and its installed version must differ from the current image's.
    pub fn upgrade_check(&self, canister: PrincipalId) -> (r: Result<(), ApiError>)
        ensures
            match r {
                Ok(()) => {
                    let idx = find_canister_idx(self@.canisters, canister);
                    idx >= 0 && self@.canisters[idx].1.wasm_version
                        != self@.child_wasm_data.wasm_version
                },
                Err(e) => {
                    &&& (e.has_tag(ApiErrorType::NotFound, "NO_CHILDREN"@) <==> find_canister_idx(
                        self@.canisters,
                        canister,
                    ) == -1)
                    &&& (e.has_tag(ApiErrorType::BadRequest, "CANISTER_UP_TO_DATE"@) ==> {
                        let idx = find_canister_idx(self@.canisters, canister);
                        idx >= 0 && self@.canisters[idx].1.wasm_version
                            == self@.child_wasm_data.wasm_version
                    })
                    &&& (e.has_tag(ApiErrorType::NotFound, "NO_CHILDREN"@) || e.has_tag(
                        ApiErrorType::BadRequest,
                        "CANISTER_UP_TO_DATE"@,
                    ))
                },
            },
    {
        let idx = match self.find_canister(canister) {
            Some(i) => i,
            None => {
                let e = api_error(
                    ApiErrorType::NotFound,
                    "NO_CHILDREN",
                    "There are no child canisters found",
                    self.name.as_str(),
                    "upgrade_scalable_canister",
                    None,
                );
                proof {
                    reveal_strlit("NO_CHILDREN");
                    reveal_strlit("CANISTER_UP_TO_DATE");
                    assert("NO_CHILDREN"@.len() == 11);
                    assert("CANISTER_UP_TO_DATE"@.len() == 19);
                    assert("NO_CHILDREN"@ != "CANISTER_UP_TO_DATE"@);
                }
                return Err(e);
            },
        };
        if self.canisters[idx].1.wasm_version == self.child_wasm_data.wasm_version {
            let e = api_error(
                ApiErrorType::BadRequest,
                "CANISTER_UP_TO_DATE",
                "The latest WASM version is already installed",
                self.name.as_str(),
                "upgrade_scalable_canister",
                None,
            );
            proof {
                reveal_strlit("NO_CHILDREN");
                reveal_strlit("CANISTER_UP_TO_DATE");
                assert("NO_CHILDREN"@.len() == 11);
                assert("CANISTER_UP_TO_DATE"@.len() == 19);
                assert("NO_CHILDREN"@ != "CANISTER_UP_TO_DATE"@);
            }
            return Err(e);
        }
        Ok(())
    }

    /// Records a confirmed upgrade: the shard's version becomes the
    /// current image's version, and the updated details are returned.
    pub fn confirm_upgrade(&mut self, canister: PrincipalId) -> (r: Result<
        ScalableCanisterDetails,
        ApiError,
    >)
        ensures
            match r {
                Ok(details) => {
                    let idx = find_canister_idx(old(self)@.canisters, canister);
                    &&& idx >= 0
                    &&& details == (ScalableCanisterDetails {
                        wasm_version: old(self)@.child_wasm_data.wasm_version,
                        ..old(self)@.canisters[idx].1
                    })
                    &&& final(self)@ == (ScalableDataView {
                        canisters: old(self)@.canisters.update(idx, (canister, details)),
                        ..old(self)@
                    })
                },
                Err(e) => *final(self) == *old(self) && e.has_tag(
                    ApiErrorType::NotFound,
                    "NO_CHILDREN"@,
                ) && find_canister_idx(old(self)@.canisters, canister) == -1,
            },
    {
        let idx = match self.find_canister(canister) {
            Some(i) => i,
            None => {
                return Err(
                    api_error(
                        ApiErrorType::NotFound,
                        "NO_CHILDREN",
                        "There are no child canisters found",
                        self.name.as_str(),
                        "upgrade_scalable_canister",
                        None,
                    ),
                );
            },
        };
        let old_details = self.canisters[idx].1;
        let upgraded = ScalableCanisterDetails {
            principal: old_details.principal,
            wasm_version: self.child_wasm_data.wasm_version,
            canister_type: old_details.canister_type,
            is_available: old_details.is_available,
            entry_range: old_details.entry_range,
        };
        self.canisters.set(idx, (canister, upgraded));
        Ok(upgraded)
    }

    /// Whether a shard needs the current image pushed to it.
    pub fn needs_upgrade(&self, details: &ScalableCanisterDetails) -> (r: bool)
        ensures
            r == (details.wasm_version != self@.child_wasm_data.wasm_version),
    {
        details.wasm_version != self.child_wasm_data.wasm_version
    }

    /// Accepts a new child code image: rejected when the image is empty or
    /// identical to the one already held; otherwise the details to store.
    pub fn get_child_wasm_data(&self, bytes: Vec<u8>, version: u64, now: u64) -> (r: Result<
        WasmDetails,
        String,
    >)
        ensures
            match r {
                Ok(details) => {
                    &&& bytes@.len() > 0
                    &&& bytes@ != self@.child_wasm_data.bytes
                    &&& details@.bytes == bytes@
                    &&& details@.wasm_version == WasmVersion::Version(version)
                    &&& details@.wasm_type == CanisterType::ScalableChild
                    &&& details@.updated_at == now
                    &&& details@.created_at == self@.child_wasm_data.created_at
                },
                Err(_) => bytes@.len() == 0 || bytes@ == self@.child_wasm_data.bytes,
            },
    {
        if bytes.len() == 0 {
            return Err("No WASM found, skipping child WASM update".to_owned());
        }
        if wasm_bytes_eq(&bytes, &self.child_wasm_data.bytes) {
            return Err("WASM is the same, skipping child WASM update".to_owned());
        }
        Ok(
            WasmDetails {
                label: "child_profile_canister".to_owned(),
                bytes,
                wasm_type: CanisterType::ScalableChild,
                wasm_version: WasmVersion::Version(version),
                updated_at: now,
                created_at: self.child_wasm_data.created_at,
            },
        )
    }

    /// Replaces the stored child code image.
    pub fn set_child_wasm(&mut self, details: WasmDetails, now: u64)
        ensures
            final(self)@ == (ScalableDataView {
                child_wasm_data: details@,
                updated_at: now,
                ..old(self)@
            }),
    {
        self.child_wasm_data = details;
        self.updated_at = now;
    }
}

/// Compares two code images byte for byte.
fn wasm_bytes_eq(a: &Vec<u8>, b: &Vec<u8>) -> (r: bool)
    ensures
        r == (a@ == b@),
{
    if a.len() != b.len() {
        proof {
            assert(a@.len() != b@.len());
        }
        return false;
    }
    let mut i: usize = 0;
    while i < a.len()
        invariant
            i <= a@.len(),
            a@.len() == b@.len(),
            forall|k: int| 0 <= k < i as int ==> a@[k] == b@[k],
        decreases a.len() - i,
    {
        if a[i] != b[i] {
            return false;
        }
        i = i + 1;
    }
    proof {
        assert(a@ =~= b@);
    }
    true
}

} // verus!
