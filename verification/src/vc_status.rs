//! The global status registry: one record per credential id ever issued
//! here, carrying the lifecycle status and the owner recorded at issuance.
//! An id without a record is `Invalid`; revocation is one-way.

use vstd::prelude::*;
use crate::error::ContractError;
use crate::identity::Address;
use crate::keyed::{
    Keyed, find_index, lemma_find_props, spec_find, spec_first_index, spec_upsert_back,
    upsert_back, keys_unique,
};

verus! {

/// Lifecycle status of a credential id.
#[derive(Debug, PartialEq, Eq)]
pub enum VCStatus {
    /// Issued through this registry and not revoked.
    Valid,
    /// Never issued through this registry (no record exists).
    Invalid,
    /// Revoked at the given date string; a revoked credential never
    /// becomes valid again.
    Revoked(String),
}

impl Clone for VCStatus {
    fn clone(&self) -> (r: Self)
        ensures
            r == *self,
    {
        match self {
            VCStatus::Valid => VCStatus::Valid,
            VCStatus::Invalid => VCStatus::Invalid,
            VCStatus::Revoked(date) => VCStatus::Revoked(date.clone()),
        }
    }
}

/// The status registry's record for one credential id. `owner` is the
/// identity recorded at issuance and authorizes revocation; entries
/// produced by the legacy migration carry no owner.
pub struct StatusRecord {
    pub vc_id: String,
    pub status: VCStatus,
    pub owner: Option<Address>,
}

impl Keyed for StatusRecord {
    open spec fn key(&self) -> Seq<char> {
        self.vc_id@
    }

    fn has_key(&self, id: &String) -> (r: bool) {
        self.vc_id == *id
    }

    fn key_ref(&self) -> (s: &String) {
        &self.vc_id
    }
}

/// A legacy revocation entry: a credential id and the date it was revoked,
/// in the superseded flat layout that `migrate` converts.
pub struct LegacyRevocation {
    pub vc_id: String,
    pub date: String,
}

impl Keyed for LegacyRevocation {
    open spec fn key(&self) -> Seq<char> {
        self.vc_id@
    }

    fn has_key(&self, id: &String) -> (r: bool) {
        self.vc_id == *id
    }

    fn key_ref(&self) -> (s: &String) {
        &self.vc_id
    }
}

/// Well-formed status registry: one record per id, and no record says
/// `Invalid` (absence says that).
pub open spec fn statuses_wf(s: Seq<StatusRecord>) -> bool {
    &&& keys_unique(s)
    &&& forall|i: int| 0 <= i < s.len() ==> !((#[trigger] s[i]).status is Invalid)
}

/// The status of `id`: the record's status, or `Invalid` with no record.
pub open spec fn spec_status_of(s: Seq<StatusRecord>, id: Seq<char>) -> VCStatus {
    match spec_find(s, id) {
        Some(r) => r.status,
        None => VCStatus::Invalid,
    }
}

/// The owner recorded for `id` at issuance, if any.
pub open spec fn spec_owner_of(s: Seq<StatusRecord>, id: Seq<char>) -> Option<Address> {
    match spec_find(s, id) {
        Some(r) => r.owner,
        None => None,
    }
}

/// Writing a status keeps the owner already on record (none for a fresh
/// id).
pub open spec fn spec_set_status(s: Seq<StatusRecord>, id: String, status: VCStatus) -> Seq<
    StatusRecord,
> {
    spec_upsert_back(s, StatusRecord { vc_id: id, status, owner: spec_owner_of(s, id@) })
}

/// Writing a status and recording `owner` as the credential's owner.
pub open spec fn spec_set_status_owner(
    s: Seq<StatusRecord>,
    id: String,
    status: VCStatus,
    owner: Address,
) -> Seq<StatusRecord> {
    spec_upsert_back(s, StatusRecord { vc_id: id, status, owner: Some(owner) })
}

/// Writing a non-`Invalid` status keeps the registry well formed, changes
/// only that id's status, and changes no owner record.
pub proof fn lemma_set_status(s: Seq<StatusRecord>, id: String, status: VCStatus, key2: Seq<char>)
    requires
        statuses_wf(s),
        !(status is Invalid),
    ensures
        statuses_wf(spec_set_status(s, id, status)),
        spec_status_of(spec_set_status(s, id, status), key2) == if key2 == id@ {
            status
        } else {
            spec_status_of(s, key2)
        },
        spec_owner_of(spec_set_status(s, id, status), key2) == spec_owner_of(s, key2),
{
    let rec = StatusRecord { vc_id: id, status, owner: spec_owner_of(s, id@) };
    crate::keyed::lemma_upsert_back(s, rec, key2);
    lemma_upsert_back_elements(s, rec);
}

/// As `lemma_set_status`, but the owner of `id` becomes `owner`.
pub proof fn lemma_set_status_owner(
    s: Seq<StatusRecord>,
    id: String,
    status: VCStatus,
    owner: Address,
    key2: Seq<char>,
)
    requires
        statuses_wf(s),
        !(status is Invalid),
    ensures
        statuses_wf(spec_set_status_owner(s, id, status, owner)),
        spec_status_of(spec_set_status_owner(s, id, status, owner), key2) == if key2 == id@ {
            status
        } else {
            spec_status_of(s, key2)
        },
        spec_owner_of(spec_set_status_owner(s, id, status, owner), key2) == if key2 == id@ {
            Some(owner)
        } else {
            spec_owner_of(s, key2)
        },
{
    let rec = StatusRecord { vc_id: id, status, owner: Some(owner) };
    crate::keyed::lemma_upsert_back(s, rec, key2);
    lemma_upsert_back_elements(s, rec);
}

/// Every record of an upsert's result is a record of the input or the
/// record stored.
proof fn lemma_upsert_back_elements(s: Seq<StatusRecord>, rec: StatusRecord)
    ensures
        forall|i: int|
            0 <= i < spec_upsert_back(s, rec).len() ==> (#[trigger] spec_upsert_back(s, rec)[i])
                == rec || s.contains(spec_upsert_back(s, rec)[i]),
{
    lemma_find_props(s, rec.key());
    let t = spec_upsert_back(s, rec);
    if spec_find(s, rec.key()) is Some {
        let f = spec_first_index(s, rec.key());
        assert forall|i: int| 0 <= i < t.len() implies t[i] == rec || s.contains(t[i]) by {
            if i != f {
                assert(t[i] == s[i]);
                assert(s.contains(t[i]));
            }
        }
    } else {
        assert forall|i: int| 0 <= i < t.len() implies t[i] == rec || s.contains(t[i]) by {
            if i < s.len() {
                assert(t[i] == s[i]);
                assert(s.contains(t[i]));
            }
        }
    }
}

/// The status of `id`: `Invalid` when no record exists.
pub fn read_status(statuses: &Vec<StatusRecord>, id: &String) -> (r: VCStatus)
    ensures
        r == spec_status_of(statuses@, id@),
{
    match find_index(statuses, id) {
        Some(i) => statuses[i].status.clone(),
        None => VCStatus::Invalid,
    }
}

/// The owner recorded for `id`, if any.
pub fn read_owner(statuses: &Vec<StatusRecord>, id: &String) -> (r: Option<Address>)
    ensures
        r == spec_owner_of(statuses@, id@),
{
    match find_index(statuses, id) {
        Some(i) => statuses[i].owner,
        None => None,
    }
}

/// Writes `status` for `id`, keeping the owner already on record.
pub fn set_status(statuses: &mut Vec<StatusRecord>, id: &String, status: VCStatus)
    ensures
        final(statuses)@ == spec_set_status(old(statuses)@, *id, status),
{
    let prev: Option<Address> = match find_index(statuses, id) {
        Some(i) => statuses[i].owner,
        None => None,
    };
    let rec = StatusRecord { vc_id: id.clone(), status, owner: prev };
    upsert_back(statuses, rec);
}

/// Writes `status` for `id` and records `owner` as the credential's owner.
pub fn set_status_owner(statuses: &mut Vec<StatusRecord>, id: &String, status: VCStatus, owner: Address)
    ensures
        final(statuses)@ == spec_set_status_owner(old(statuses)@, *id, status, owner),
{
    let rec = StatusRecord { vc_id: id.clone(), status, owner: Some(owner) };
    upsert_back(statuses, rec);
}

/// The one-way transition of the status registry: a `Valid` id becomes
/// `Revoked(date)`; anything else is refused (`Invalid` ids are screened
/// out by the caller as `VCNotFound`, so the refusal here is
/// `VCAlreadyRevoked`).
pub fn revoke_vc(statuses: &mut Vec<StatusRecord>, vc_id: &String, date: String) -> (r: Result<
    (),
    ContractError,
>)
    requires
        statuses_wf(old(statuses)@),
    ensures
        statuses_wf(final(statuses)@),
        match r {
            Ok(()) => {
                &&& spec_status_of(old(statuses)@, vc_id@) is Valid
                &&& final(statuses)@ == spec_set_status(
                    old(statuses)@,
                    *vc_id,
                    VCStatus::Revoked(date),
                )
            },
            Err(e) => {
                &&& e == ContractError::VCAlreadyRevoked
                &&& !(spec_status_of(old(statuses)@, vc_id@) is Valid)
                &&& final(statuses)@ == old(statuses)@
            },
        },
{
    match read_status(statuses, vc_id) {
        VCStatus::Valid => {
            proof {
                lemma_set_status(statuses@, *vc_id, VCStatus::Revoked(date), vc_id@);
            }
            set_status(statuses, vc_id, VCStatus::Revoked(date));
            Ok(())
        },
        _ => Err(ContractError::VCAlreadyRevoked),
    }
}

} // verus!
