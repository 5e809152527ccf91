//! Registry-wide laws: facts that relate several operations, each stated
//! over the transition predicates that the operations' own contracts use
//! and proved once for all states.

use vstd::prelude::*;
use crate::contract::{
    ActaContract, spec_legacy_status, spec_migrate_statuses, vault_op_guard_err,
};
use crate::error::ContractError;
use crate::identity::Address;
use crate::vc_status::{
    StatusRecord, LegacyRevocation, VCStatus, lemma_set_status, spec_set_status, spec_status_of,
    statuses_wf,
};

verus! {

/// A vault is created at most once: a successful creation takes the
/// owner's slot, so a second `create_vault` for the same owner is refused
/// `AlreadyInitialized` by `create_vault`'s contract. (Reads on an owner
/// whose vault was never created take `&self` and so create no state.)
pub proof fn lemma_create_vault_once(
    pre: ActaContract,
    mid: ActaContract,
    owner: Address,
    did_uri: String,
)
    requires
        ActaContract::create_vault_ok(pre, mid, owner, did_uri),
    ensures
        mid.vault(owner) is Some,
{
}

/// Authorizing an issuer twice fails: a successful authorization puts the
/// issuer in the allow-list, so a second `authorize_issuer` is refused
/// `IssuerAlreadyAuthorized` by its contract.
pub proof fn lemma_authorize_issuer_twice(
    pre: ActaContract,
    mid: ActaContract,
    owner: Address,
    issuer_addr: Address,
)
    requires
        ActaContract::authorize_issuer_ok(pre, mid, owner, issuer_addr),
    ensures
        mid.vault(owner) matches Some(v) && v.has_issuer(issuer_addr),
        ActaContract::authorize_issuer_err(
            mid,
            owner,
            issuer_addr,
            ContractError::IssuerAlreadyAuthorized,
        ),
{
    let v0 = pre.vault(owner)->0;
    let v = mid.vault(owner)->0;
    assert(v.issuers@ == v0.issuers@.insert(0, issuer_addr));
    assert(v.issuers@[0] == issuer_addr);
    assert(v.has_issuer(issuer_addr));
}

/// Membership is a set, not a log: authorize followed by revoke restores
/// the allow-list, so revoking again is refused `IssuerNotAuthorized`,
/// and authorizing again cannot be refused `IssuerAlreadyAuthorized`.
pub proof fn lemma_authorize_then_revoke(
    pre: ActaContract,
    mid: ActaContract,
    post: ActaContract,
    owner: Address,
    issuer_addr: Address,
)
    requires
        ActaContract::authorize_issuer_ok(pre, mid, owner, issuer_addr),
        ActaContract::revoke_issuer_ok(mid, post, owner, issuer_addr),
    ensures
        post.vault(owner) matches Some(v2) && !v2.has_issuer(issuer_addr),
        pre.vault(owner) matches Some(v0) && (post.vault(owner) matches Some(v2) && v2.issuers@
            == v0.issuers@),
        ActaContract::revoke_issuer_err(
            post,
            owner,
            issuer_addr,
            ContractError::IssuerNotAuthorized,
        ),
{
    let v0 = pre.vault(owner)->0;
    let v = mid.vault(owner)->0;
    let v2 = post.vault(owner)->0;
    assert(v.issuers@ == v0.issuers@.insert(0, issuer_addr));
    assert(v.issuers@[0] == issuer_addr);
    v.issuers@.index_of_first_ensures(issuer_addr);
    let ix = v.issuers@.index_of_first(issuer_addr)->0;
    if ix > 0 {
        assert(v.issuers@[0] != issuer_addr);
    }
    assert(ix == 0);
    assert(v2.issuers@ == v.issuers@.remove(0));
    assert(v2.issuers@ =~= v0.issuers@);
    assert(!v0.issuers@.contains(issuer_addr));
}

/// Push is exclusive: after a successful push between two distinct
/// vaults, the id is gone from the source — a second push of the same id
/// from there is refused `VCNotFound` — and the destination holds the
/// same record, body and all.
pub proof fn lemma_push_exclusive(
    pre: ActaContract,
    post: ActaContract,
    from_owner: Address,
    to_owner: Address,
    vc_id: Seq<char>,
    issuer_addr: Address,
)
    requires
        ActaContract::push_ok(pre, post, from_owner, to_owner, vc_id, issuer_addr),
        from_owner != to_owner,
    ensures
        post.vault(from_owner) matches Some(vf2) && vf2.vc(vc_id) is None,
        pre.vault(from_owner) matches Some(vf) && (vf.vc(vc_id) matches Some(vc) && (post.vault(
            to_owner,
        ) matches Some(vt2) && vt2.vc(vc_id) == Some(vc))),
        ActaContract::push_err(
            post,
            from_owner,
            to_owner,
            vc_id,
            issuer_addr,
            ContractError::VCNotFound,
        ),
{
}

/// Issuing records a valid status and the owner of record.
pub proof fn lemma_issue_makes_valid(
    pre: ActaContract,
    post: ActaContract,
    owner: Address,
    vc_id: String,
    vc_data: String,
    vault_contract: Address,
    issuer_addr: Address,
    issuer_did: String,
    receipt: crate::contract::IssueReceipt,
)
    requires
        ActaContract::issue_ok(
            pre,
            post,
            owner,
            vc_id,
            vc_data,
            vault_contract,
            issuer_addr,
            issuer_did,
            receipt,
        ),
    ensures
        post.status_of(vc_id@) is Valid,
        post.owner_of(vc_id@) == Some(owner),
        vault_contract == pre.contract_id,
{
}

/// The status registry is monotone: a revoked id never returns to valid.
/// Re-issuing it is refused `VCAlreadyRevoked` even when every other issue
/// check passes, so no operation resurrects a revoked credential.
pub proof fn lemma_no_reissue_after_revoke(
    pre: ActaContract,
    owner: Address,
    vc_id: Seq<char>,
    vault_contract: Address,
    issuer_addr: Address,
)
    requires
        pre.status_of(vc_id) is Revoked,
        crate::contract::issue_gate(pre, owner, vault_contract, issuer_addr),
    ensures
        ActaContract::issue_err(
            pre,
            owner,
            vc_id,
            vault_contract,
            issuer_addr,
            ContractError::VCAlreadyRevoked,
        ),
{
}

/// Revocation is one-way: a successful revocation leaves the status
/// `Revoked(date)`, and — wherever the owner-or-admin authorization can
/// still be resolved — a second `revoke` is refused `VCAlreadyRevoked` by
/// `revoke`'s contract, which turns only `Valid` statuses.
pub proof fn lemma_revocation_monotone(
    pre: ActaContract,
    post: ActaContract,
    vc_id: String,
    date: String,
)
    requires
        ActaContract::revoke_ok(pre, post, vc_id, date),
    ensures
        post.status_of(vc_id@) == VCStatus::Revoked(date),
        !(post.owner_of(vc_id@) is None && post.config is None) ==> ActaContract::revoke_err(
            post,
            vc_id@,
            ContractError::VCAlreadyRevoked,
        ),
{
}

/// Revoking an id that was never issued through this registry is refused
/// `VCNotFound`.
pub proof fn lemma_revoke_never_issued(pre: ActaContract, vc_id: Seq<char>)
    requires
        pre.status_of(vc_id) is Invalid,
    ensures
        ActaContract::revoke_err(pre, vc_id, ContractError::VCNotFound),
{
}

/// Revoking a vault blocks mutation but not reads: afterwards every
/// vault-mutating operation on it is refused `VaultRevoked`, while its
/// records are exactly what they were, so `get_vc` and `list_vc_ids`
/// answer as before.
pub proof fn lemma_vault_revocation_blocks_writes_not_reads(
    pre: ActaContract,
    post: ActaContract,
    owner: Address,
)
    requires
        ActaContract::revoke_vault_ok(pre, post, owner),
    ensures
        post.vault(owner) matches Some(v2) && v2.revoked,
        vault_op_guard_err(post, owner, ContractError::VaultRevoked),
        forall|a: Address|
            ActaContract::authorize_issuer_err(post, owner, a, ContractError::VaultRevoked),
        pre.vault(owner) matches Some(v) && (post.vault(owner) matches Some(v2) && v2.vcs@
            == v.vcs@),
{
}

/// What migrating writes, id by id: every id in the legacy list ends at
/// its legacy status — revoked at the recorded date when a revocation
/// entry names it, valid otherwise — and every other id keeps its status.
pub proof fn lemma_migrate_statuses_props(
    sts: Seq<StatusRecord>,
    ids: Seq<String>,
    revs: Seq<LegacyRevocation>,
    k: Seq<char>,
)
    requires
        statuses_wf(sts),
    ensures
        statuses_wf(spec_migrate_statuses(sts, ids, revs)),
        spec_status_of(spec_migrate_statuses(sts, ids, revs), k) == if (exists|j: int|
            0 <= j < ids.len() && ids[j]@ == k) {
            spec_legacy_status(revs, k)
        } else {
            spec_status_of(sts, k)
        },
    decreases ids.len(),
{
    if ids.len() > 0 {
        let st0 = spec_legacy_status(revs, ids[0]@);
        assert(!(st0 is Invalid));
        lemma_set_status(sts, ids[0], st0, k);
        let mid = spec_set_status(sts, ids[0], st0);
        lemma_migrate_statuses_props(mid, ids.drop_first(), revs, k);
        let d = ids.drop_first();
        assert(forall|j: int| 0 <= j < d.len() ==> d[j] == ids[j + 1]);
        if exists|j: int| 0 <= j < ids.len() && ids[j]@ == k {
            let j = choose|j: int| 0 <= j < ids.len() && ids[j]@ == k;
            if !(exists|j2: int| 0 <= j2 < d.len() && d[j2]@ == k) {
                if j > 0 {
                    assert(d[j - 1]@ == k);
                }
                assert(j == 0);
            }
        } else {
            assert(ids[0]@ != k);
            if exists|j2: int| 0 <= j2 < d.len() && d[j2]@ == k {
                let j2 = choose|j2: int| 0 <= j2 < d.len() && d[j2]@ == k;
                assert(ids[j2 + 1]@ == k);
            }
        }
    }
}

/// The global migration writes exactly the legacy statuses: after a
/// successful global `migrate`, every legacy issued id reads back its
/// legacy status and every other id is untouched; and the migration runs
/// once — it consumes the legacy list, so a second global `migrate` is
/// refused `VCSAlreadyMigrated`.
pub proof fn lemma_migrate_global_statuses(pre: ActaContract, post: ActaContract, k: Seq<char>)
    requires
        pre.wf(),
        ActaContract::migrate_global_ok(pre, post),
    ensures
        pre.legacy_issued_view() matches Some(ids) && post.status_of(k) == if (exists|j: int|
            0 <= j < ids.len() && ids[j]@ == k) {
            spec_legacy_status(pre.legacy_revocations@, k)
        } else {
            pre.status_of(k)
        },
        ActaContract::migrate_global_err(post, ContractError::VCSAlreadyMigrated),
{
    let ids = pre.legacy_issued_view()->0;
    lemma_migrate_statuses_props(pre.statuses@, ids, pre.legacy_revocations@, k);
}

} // verus!