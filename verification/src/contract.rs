//! The registry itself: global configuration, the vault table, the status
//! registry and the legacy layouts, with every public operation of the
//! credential registry.
//!
//! Authentication is explicit: each operation that the interface marks
//! "authorizes as X" takes the host's `AuthContext` and demands X's
//! signature in its precondition, exactly where the host would abort the
//! transaction. Work only the host can do — charging the configured fee
//! through the token service, resolving a status at a sibling registry —
//! is returned as a value (`FeeTransfer`, `VerifyOutcome::Delegated`)
//! describing the action; a host whose action fails must discard the new
//! state, which restores all-or-nothing semantics.

use vstd::prelude::*;
use vstd::pervasive::unreached;
use vstd::string::StringExecFns;
use crate::error::ContractError;
use crate::identity::{Address, AuthContext};
use crate::issuer;
use crate::keyed::{Keyed, find_index, spec_find, spec_first_index, spec_upsert_front};
use crate::vault::{
    Vault, lemma_vault_find_props, lemma_vault_table_push, lemma_vault_table_update, same_but_admin,
    same_but_issuers, same_but_legacy, same_but_records, same_but_revoked, same_but_vcs,
    spec_vault_find, vault_index_of, vault_keys_unique,
};
use crate::vc_status::{
    LegacyRevocation, StatusRecord, VCStatus, lemma_set_status, lemma_set_status_owner,
    read_owner, read_status, set_status, set_status_owner, spec_owner_of, spec_set_status,
    spec_set_status_owner, spec_status_of, statuses_wf, revoke_vc,
};
use crate::verifiable_credential::{VerifiableCredential, spec_vc_ids, store_vc};

verus! {

/// Global fee policy: the token service to invoke, the destination of the
/// fee, and the amount, interpreted by the token service.
#[derive(Clone, Copy, PartialEq, Eq, Structural, Debug)]
pub struct FeeConfig {
    pub token: Address,
    pub dest: Address,
    pub amount: i128,
}

/// The singleton global configuration. It exists from the first successful
/// `initialize` (or is bootstrapped by the first `create_vault`).
pub struct GlobalConfig {
    /// The identity whose signature global operations demand.
    pub admin: Address,
    /// Advisory issuer DID metadata; absent when the configuration was
    /// bootstrapped by `create_vault`.
    pub default_issuer_did: Option<String>,
    /// Whether `issue` charges the configured fee. Defaults to false.
    pub fee_enabled: bool,
    /// The fee policy; absent until `set_fee_config` is called.
    pub fee: Option<FeeConfig>,
}

/// A token transfer the host must perform on the issuer's behalf: `amount`
/// of the token at `token` from `from` to `to`. Returned by `issue` when
/// fee charging is enabled; if the transfer fails, the host must discard
/// the state `issue` produced.
#[derive(Clone, Copy, PartialEq, Eq, Structural, Debug)]
pub struct FeeTransfer {
    pub token: Address,
    pub from: Address,
    pub to: Address,
    pub amount: i128,
}

/// What a successful `issue` hands back: the credential id, and the fee
/// transfer the host owes, if any.
#[derive(Debug, PartialEq, Eq)]
pub struct IssueReceipt {
    pub vc_id: String,
    pub fee: Option<FeeTransfer>,
}

/// The outcome of `verify_vc`: either a status report resolved here, as
/// `(key, value)` pairs (`"status"` → `"valid"`/`"invalid"`/`"revoked"`,
/// plus `"since"` → date when revoked), or an instruction to ask the named
/// sibling registry for the id's status and relay its answer verbatim.
#[derive(Debug, PartialEq, Eq)]
pub enum VerifyOutcome {
    Resolved(Vec<(String, String)>),
    Delegated { registry: Address, vc_id: String },
}

/// The registry's whole state.
pub struct ActaContract {
    /// This registry instance's own identity.
    pub contract_id: Address,
    /// The global configuration; `None` until initialized.
    pub config: Option<GlobalConfig>,
    /// All vaults, keyed by owner; owners unique.
    pub vaults: Vec<(Address, Vault)>,
    /// The status registry; ids unique, no record says `Invalid`.
    pub statuses: Vec<StatusRecord>,
    /// The legacy global issued-id list, until migrated.
    pub legacy_issued: Option<Vec<String>>,
    /// The legacy revocation entries, until migrated.
    pub legacy_revocations: Vec<LegacyRevocation>,
}

impl ActaContract {
    /// Well-formed registry state. Established by `new` and preserved by
    /// every operation.
    pub open spec fn wf(&self) -> bool {
        &&& vault_keys_unique(self.vaults@)
        &&& forall|i: int| 0 <= i < self.vaults@.len() ==> (#[trigger] self.vaults@[i]).1.wf()
        &&& statuses_wf(self.statuses@)
    }

    /// The vault of `owner`, if one was created.
    pub open spec fn vault(&self, owner: Address) -> Option<Vault> {
        spec_vault_find(self.vaults@, owner)
    }

    /// The lifecycle status of credential id `id`; `Invalid` when never
    /// issued here.
    pub open spec fn status_of(&self, id: Seq<char>) -> VCStatus {
        spec_status_of(self.statuses@, id)
    }

    /// The owner recorded for `id` at issuance, if any.
    pub open spec fn owner_of(&self, id: Seq<char>) -> Option<Address> {
        spec_owner_of(self.statuses@, id)
    }

    /// The legacy issued-id list, as a sequence.
    pub open spec fn legacy_issued_view(&self) -> Option<Seq<String>> {
        match self.legacy_issued {
            Option::None => None,
            Option::Some(v) => Some(v@),
        }
    }

    /// A vault found in a well-formed registry is well formed.
    pub proof fn lemma_vault_wf(&self, owner: Address)
        requires
            self.wf(),
        ensures
            self.vault(owner) matches Some(v) ==> v.wf(),
    {
        lemma_vault_find_props(self.vaults@, owner);
    }

    /// A fresh registry instance with identity `contract_id`: nothing
    /// configured, no vaults, no statuses, no legacy layouts.
    pub fn new(contract_id: Address) -> (r: ActaContract)
        ensures
            r.contract_id == contract_id,
            r.config is None,
            r.vaults@ == Seq::<(Address, Vault)>::empty(),
            r.statuses@ == Seq::<StatusRecord>::empty(),
            r.legacy_issued_view() is None,
            r.legacy_revocations@ == Seq::<LegacyRevocation>::empty(),
            r.wf(),
    {
        ActaContract {
            contract_id,
            config: None,
            vaults: Vec::new(),
            statuses: Vec::new(),
            legacy_issued: None,
            legacy_revocations: Vec::new(),
        }
    }
}

/// The identity and global configuration are untouched.
pub open spec fn same_config(pre: ActaContract, post: ActaContract) -> bool {
    &&& post.contract_id == pre.contract_id
    &&& post.config == pre.config
}

/// The vault table is untouched.
pub open spec fn same_vaults(pre: ActaContract, post: ActaContract) -> bool {
    post.vaults@ == pre.vaults@
}

/// Every vault but `owner`'s is untouched.
pub open spec fn same_vaults_except(pre: ActaContract, post: ActaContract, owner: Address) -> bool {
    forall|o: Address| o != owner ==> post.vault(o) == pre.vault(o)
}

/// Every vault but `a`'s and `b`'s is untouched.
pub open spec fn same_vaults_except2(
    pre: ActaContract,
    post: ActaContract,
    a: Address,
    b: Address,
) -> bool {
    forall|o: Address| o != a && o != b ==> post.vault(o) == pre.vault(o)
}

/// The status registry is untouched.
pub open spec fn same_statuses(pre: ActaContract, post: ActaContract) -> bool {
    post.statuses@ == pre.statuses@
}

/// The legacy layouts are untouched.
pub open spec fn same_legacy(pre: ActaContract, post: ActaContract) -> bool {
    &&& post.legacy_issued_view() == pre.legacy_issued_view()
    &&& post.legacy_revocations@ == pre.legacy_revocations@
}

/// Nothing observable changed: a failed operation leaves the registry as
/// it found it.
pub open spec fn unchanged(pre: ActaContract, post: ActaContract) -> bool {
    &&& same_config(pre, post)
    &&& same_vaults(pre, post)
    &&& same_statuses(pre, post)
    &&& same_legacy(pre, post)
}

impl ActaContract {
    /// What a successful `initialize` does: the configuration did not
    /// exist and now records `admin` and the default issuer DID, with fee
    /// charging off; nothing else changes.
    pub open spec fn initialize_ok(
        pre: ActaContract,
        post: ActaContract,
        admin: Address,
        default_issuer_did: String,
    ) -> bool {
        &&& pre.config is None
        &&& post.config matches Some(c) && c.admin == admin && (c.default_issuer_did matches Some(
            d,
        ) && d@ == default_issuer_did@) && !c.fee_enabled && c.fee is None
        &&& post.contract_id == pre.contract_id
        &&& same_vaults(pre, post)
        &&& same_statuses(pre, post)
        &&& same_legacy(pre, post)
    }

    /// One-time global initialization, authorized by the chosen admin.
    pub fn initialize(
        &mut self,
        contract_admin: Address,
        default_issuer_did: String,
        auth: &AuthContext,
    ) -> (r: Result<(), ContractError>)
        requires
            old(self).wf(),
            auth.signed(contract_admin),
        ensures
            final(self).wf(),
            match r {
                Ok(()) => Self::initialize_ok(
                    *old(self),
                    *final(self),
                    contract_admin,
                    default_issuer_did,
                ),
                Err(e) => {
                    &&& e == ContractError::AlreadyInitialized
                    &&& old(self).config is Some
                    &&& unchanged(*old(self), *final(self))
                },
            },
    {
        if self.config.is_some() {
            return Err(ContractError::AlreadyInitialized);
        }
        self.config = Some(
            GlobalConfig {
                admin: contract_admin,
                default_issuer_did: Some(default_issuer_did),
                fee_enabled: false,
                fee: None,
            },
        );
        Ok(())
    }

    /// What a successful `set_contract_admin` does: only the admin field
    /// of the configuration changes.
    pub open spec fn set_contract_admin_ok(
        pre: ActaContract,
        post: ActaContract,
        new_admin: Address,
    ) -> bool {
        &&& pre.config matches Some(c) && post.config matches Some(c2) && c2.admin == new_admin
            && c2.default_issuer_did == c.default_issuer_did && c2.fee_enabled == c.fee_enabled
            && c2.fee == c.fee
        &&& post.contract_id == pre.contract_id
        &&& same_vaults(pre, post)
        &&& same_statuses(pre, post)
        &&& same_legacy(pre, post)
    }

    /// Hands global administration to `new_admin`; authorized by the
    /// current admin.
    pub fn set_contract_admin(&mut self, new_admin: Address, auth: &AuthContext) -> (r: Result<
        (),
        ContractError,
    >)
        requires
            old(self).wf(),
            old(self).config matches Some(c) ==> auth.signed(c.admin),
        ensures
            final(self).wf(),
            match r {
                Ok(()) => Self::set_contract_admin_ok(*old(self), *final(self), new_admin),
                Err(e) => {
                    &&& e == ContractError::NotInitialized
                    &&& old(self).config is None
                    &&& unchanged(*old(self), *final(self))
                },
            },
    {
        match &mut self.config {
            None => Err(ContractError::NotInitialized),
            Some(c) => {
                c.admin = new_admin;
                Ok(())
            },
        }
    }

    /// Switches fee charging on or off; authorized by the admin.
    pub fn set_fee_enabled(&mut self, enabled: bool, auth: &AuthContext) -> (r: Result<
        (),
        ContractError,
    >)
        requires
            old(self).wf(),
            old(self).config matches Some(c) ==> auth.signed(c.admin),
        ensures
            final(self).wf(),
            match r {
                Ok(()) => {
                    &&& old(self).config matches Some(c) && final(self).config matches Some(c2)
                        && c2.fee_enabled == enabled && c2.admin == c.admin
                        && c2.default_issuer_did == c.default_issuer_did && c2.fee == c.fee
                    &&& final(self).contract_id == old(self).contract_id
                    &&& same_vaults(*old(self), *final(self))
                    &&& same_statuses(*old(self), *final(self))
                    &&& same_legacy(*old(self), *final(self))
                },
                Err(e) => {
                    &&& e == ContractError::NotInitialized
                    &&& old(self).config is None
                    &&& unchanged(*old(self), *final(self))
                },
            },
    {
        match &mut self.config {
            None => Err(ContractError::NotInitialized),
            Some(c) => {
                c.fee_enabled = enabled;
                Ok(())
            },
        }
    }

    /// Sets the fee policy (token service, destination, amount); the
    /// amount is not validated here, the token service interprets it.
    /// Authorized by the admin.
    pub fn set_fee_config(
        &mut self,
        token_contract: Address,
        fee_dest: Address,
        fee_amount: i128,
        auth: &AuthContext,
    ) -> (r: Result<(), ContractError>)
        requires
            old(self).wf(),
            old(self).config matches Some(c) ==> auth.signed(c.admin),
        ensures
            final(self).wf(),
            match r {
                Ok(()) => {
                    &&& old(self).config matches Some(c) && final(self).config matches Some(c2)
                        && c2.fee == Some(
                        FeeConfig { token: token_contract, dest: fee_dest, amount: fee_amount },
                    ) && c2.admin == c.admin && c2.default_issuer_did == c.default_issuer_did
                        && c2.fee_enabled == c.fee_enabled
                    &&& final(self).contract_id == old(self).contract_id
                    &&& same_vaults(*old(self), *final(self))
                    &&& same_statuses(*old(self), *final(self))
                    &&& same_legacy(*old(self), *final(self))
                },
                Err(e) => {
                    &&& e == ContractError::NotInitialized
                    &&& old(self).config is None
                    &&& unchanged(*old(self), *final(self))
                },
            },
    {
        match &mut self.config {
            None => Err(ContractError::NotInitialized),
            Some(c) => {
                c.fee = Some(FeeConfig { token: token_contract, dest: fee_dest, amount: fee_amount });
                Ok(())
            },
        }
    }

    /// Approves a code upgrade: the host swaps the running code for the
    /// one named by `new_wasm_hash` only when this returns `Ok`. The
    /// registry state itself is untouched, so the receiver is shared.
    /// Authorized by the admin.
    pub fn upgrade(&self, new_wasm_hash: [u8; 32], auth: &AuthContext) -> (r: Result<
        (),
        ContractError,
    >)
        requires
            self.config matches Some(c) ==> auth.signed(c.admin),
        ensures
            match r {
                Ok(()) => self.config is Some,
                Err(e) => e == ContractError::NotInitialized && self.config is None,
            },
    {
        match &self.config {
            None => Err(ContractError::NotInitialized),
            Some(_) => Ok(()),
        }
    }

    /// The registry's version string.
    pub fn version(&self) -> (r: String)
        ensures
            r@ == "1.0.0"@,
    {
        String::from_str("1.0.0")
    }
}

/// Why a vault-mutating operation was refused before touching anything:
/// no vault for this owner, or the vault is revoked.
pub open spec fn vault_op_guard_err(pre: ActaContract, owner: Address, e: ContractError) -> bool {
    match pre.vault(owner) {
        None => e == ContractError::VaultNotInitialized,
        Some(v) => e == ContractError::VaultRevoked && v.revoked,
    }
}

impl ActaContract {
    /// The table position of `owner`'s vault, refused when the vault is
    /// missing or revoked.
    fn active_vault_index(&self, owner: Address) -> (r: Result<usize, ContractError>)
        ensures
            match r {
                Ok(i) => {
                    &&& i < self.vaults@.len()
                    &&& self.vaults@[i as int].0 == owner
                    &&& self.vault(owner) == Some(self.vaults@[i as int].1)
                    &&& !self.vaults@[i as int].1.revoked
                },
                Err(e) => vault_op_guard_err(*self, owner, e),
            },
    {
        match vault_index_of(&self.vaults, owner) {
            None => Err(ContractError::VaultNotInitialized),
            Some(i) => {
                if self.vaults[i].1.revoked {
                    Err(ContractError::VaultRevoked)
                } else {
                    Ok(i)
                }
            },
        }
    }

    /// What a successful `create_vault` does: the owner had no vault and
    /// now owns a fresh one; a missing global configuration is
    /// bootstrapped with the owner as admin and fees off.
    pub open spec fn create_vault_ok(
        pre: ActaContract,
        post: ActaContract,
        owner: Address,
        did_uri: String,
    ) -> bool {
        &&& pre.vault(owner) is None
        &&& post.vault(owner) matches Some(v) && v.admin == owner && v.did_uri@ == did_uri@
            && !v.revoked && v.issuers@ == Seq::<Address>::empty() && v.vcs@ == Seq::<
            VerifiableCredential,
        >::empty() && v.legacy_view() is None
        &&& same_vaults_except(pre, post, owner)
        &&& post.contract_id == pre.contract_id
        &&& match pre.config {
            Some(c) => post.config == Some(c),
            None => post.config matches Some(c2) && c2.admin == owner && c2.default_issuer_did
                is None && !c2.fee_enabled && c2.fee is None,
        }
        &&& same_statuses(pre, post)
        &&& same_legacy(pre, post)
    }

    /// Creates `owner`'s vault, one time only; authorized by the owner.
    /// The first vault creation also bootstraps a missing global
    /// configuration with the owner as admin.
    pub fn create_vault(&mut self, owner: Address, did_uri: String, auth: &AuthContext) -> (r:
        Result<(), ContractError>)
        requires
            old(self).wf(),
            auth.signed(owner),
        ensures
            final(self).wf(),
            match r {
                Ok(()) => Self::create_vault_ok(*old(self), *final(self), owner, did_uri),
                Err(e) => {
                    &&& e == ContractError::AlreadyInitialized
                    &&& old(self).vault(owner) is Some
                    &&& unchanged(*old(self), *final(self))
                },
            },
    {
        match vault_index_of(&self.vaults, owner) {
            Some(_) => {
                return Err(ContractError::AlreadyInitialized);
            },
            None => {},
        }
        if self.config.is_none() {
            self.config = Some(
                GlobalConfig {
                    admin: owner,
                    default_issuer_did: None,
                    fee_enabled: false,
                    fee: None,
                },
            );
        }
        let ghost pre_vaults = self.vaults@;
        let v = Vault::new(owner, did_uri);
        let ghost gv = v;
        self.vaults.push((owner, v));
        proof {
            lemma_vault_table_push(pre_vaults, owner, gv);
            assert forall|j: int| 0 <= j < self.vaults@.len() implies (#[trigger] self.vaults@[j]).1.wf() by {
                if j < pre_vaults.len() {
                    assert(self.vaults@[j] == pre_vaults[j]);
                }
            }
        }
        Ok(())
    }

    /// What a successful `set_vault_admin` does: only the vault's admin
    /// changes.
    pub open spec fn set_vault_admin_ok(
        pre: ActaContract,
        post: ActaContract,
        owner: Address,
        new_admin: Address,
    ) -> bool {
        &&& pre.vault(owner) matches Some(v) && !v.revoked && (post.vault(owner) matches Some(v2)
            && v2.admin == new_admin && same_but_admin(v, v2))
        &&& same_vaults_except(pre, post, owner)
        &&& same_config(pre, post)
        &&& same_statuses(pre, post)
        &&& same_legacy(pre, post)
    }

    /// Hands `owner`'s vault to `new_admin`; authorized by the current
    /// vault admin, refused on a missing or revoked vault.
    pub fn set_vault_admin(&mut self, owner: Address, new_admin: Address, auth: &AuthContext) -> (r:
        Result<(), ContractError>)
        requires
            old(self).wf(),
            old(self).vault(owner) matches Some(v) ==> auth.signed(v.admin),
        ensures
            final(self).wf(),
            match r {
                Ok(()) => Self::set_vault_admin_ok(*old(self), *final(self), owner, new_admin),
                Err(e) => {
                    &&& vault_op_guard_err(*old(self), owner, e)
                    &&& unchanged(*old(self), *final(self))
                },
            },
    {
        let i = match self.active_vault_index(owner) {
            Ok(i) => i,
            Err(e) => {
                return Err(e);
            },
        };
        let ghost pre_vaults = self.vaults@;
        let mut entry = self.vaults.remove(i);
        entry.1.admin = new_admin;
        let ghost gv = entry.1;
        self.vaults.insert(i, entry);
        proof {
            self.lemma_after_vault_update(pre_vaults, i as int, gv, owner);
        }
        Ok(())
    }

    /// After `remove(i)` + mutate + `insert(i)` on the vault table: the
    /// new view is an update, scans elsewhere are untouched, and the
    /// table is well formed again.
    proof fn lemma_after_vault_update(
        &self,
        pre_vaults: Seq<(Address, Vault)>,
        i: int,
        gv: Vault,
        owner: Address,
    )
        requires
            vault_keys_unique(pre_vaults),
            forall|j: int| 0 <= j < pre_vaults.len() ==> (#[trigger] pre_vaults[j]).1.wf(),
            0 <= i < pre_vaults.len(),
            pre_vaults[i].0 == owner,
            gv.wf(),
            self.vaults@ == pre_vaults.remove(i).insert(i, (owner, gv)),
        ensures
            self.vaults@ == pre_vaults.update(i, (owner, gv)),
            vault_keys_unique(self.vaults@),
            forall|j: int| 0 <= j < self.vaults@.len() ==> (#[trigger] self.vaults@[j]).1.wf(),
            spec_vault_find(self.vaults@, owner) == Some(gv),
            forall|o: Address|
                o != owner ==> spec_vault_find(self.vaults@, o) == spec_vault_find(pre_vaults, o),
    {
        assert(self.vaults@ =~= pre_vaults.update(i, (owner, gv)));
        assert((pre_vaults[i].0, gv) == (owner, gv));
        lemma_vault_table_update(pre_vaults, i, gv);
        assert forall|j: int| 0 <= j < self.vaults@.len() implies (#[trigger] self.vaults@[j]).1.wf() by {
            if j != i {
                assert(self.vaults@[j] == pre_vaults[j]);
            }
        }
    }

    /// What a successful `authorize_issuer` does: the issuer was absent
    /// and now heads the allow-list.
    pub open spec fn authorize_issuer_ok(
        pre: ActaContract,
        post: ActaContract,
        owner: Address,
        issuer_addr: Address,
    ) -> bool {
        &&& pre.vault(owner) matches Some(v) && !v.revoked && !v.has_issuer(issuer_addr) && (
        post.vault(owner) matches Some(v2) && same_but_issuers(v, v2) && v2.issuers@
            == v.issuers@.insert(0, issuer_addr))
        &&& same_vaults_except(pre, post, owner)
        &&& same_config(pre, post)
        &&& same_statuses(pre, post)
        &&& same_legacy(pre, post)
    }

    /// Why `authorize_issuer` was refused.
    pub open spec fn authorize_issuer_err(
        pre: ActaContract,
        owner: Address,
        issuer_addr: Address,
        e: ContractError,
    ) -> bool {
        match pre.vault(owner) {
            None => e == ContractError::VaultNotInitialized,
            Some(v) => if v.revoked {
                e == ContractError::VaultRevoked
            } else {
                e == ContractError::IssuerAlreadyAuthorized && v.has_issuer(issuer_addr)
            },
        }
    }

    /// Adds one issuer to `owner`'s allow-list; authorized by the vault
    /// admin, refused on a missing or revoked vault or an issuer already
    /// present.
    pub fn authorize_issuer(&mut self, owner: Address, issuer_addr: Address, auth: &AuthContext) -> (r:
        Result<(), ContractError>)
        requires
            old(self).wf(),
            old(self).vault(owner) matches Some(v) ==> auth.signed(v.admin),
        ensures
            final(self).wf(),
            match r {
                Ok(()) => Self::authorize_issuer_ok(*old(self), *final(self), owner, issuer_addr),
                Err(e) => {
                    &&& Self::authorize_issuer_err(*old(self), owner, issuer_addr, e)
                    &&& unchanged(*old(self), *final(self))
                },
            },
    {
        let i = match self.active_vault_index(owner) {
            Ok(i) => i,
            Err(e) => {
                return Err(e);
            },
        };
        let ghost pre_vaults = self.vaults@;
        let mut entry = self.vaults.remove(i);
        let res = issuer::authorize_issuer(&mut entry.1.issuers, issuer_addr);
        let ghost gv = entry.1;
        self.vaults.insert(i, entry);
        proof {
            self.lemma_after_vault_update(pre_vaults, i as int, gv, owner);
            if res is Err {
                assert(gv == pre_vaults[i as int].1);
                assert(self.vaults@ =~= pre_vaults);
            }
        }
        match res {
            Ok(()) => Ok(()),
            Err(e) => Err(e),
        }
    }

    /// What a successful `authorize_issuers` does: the allow-list is
    /// replaced wholesale with the list given.
    pub open spec fn authorize_issuers_ok(
        pre: ActaContract,
        post: ActaContract,
        owner: Address,
        issuers: Seq<Address>,
    ) -> bool {
        &&& pre.vault(owner) matches Some(v) && !v.revoked && (post.vault(owner) matches Some(v2)
            && same_but_issuers(v, v2) && v2.issuers@ == issuers)
        &&& same_vaults_except(pre, post, owner)
        &&& same_config(pre, post)
        &&& same_statuses(pre, post)
        &&& same_legacy(pre, post)
    }

    /// Replaces `owner`'s whole allow-list — the caller supplies the final
    /// state, duplicates and all; authorized by the vault admin.
    pub fn authorize_issuers(&mut self, owner: Address, issuers: Vec<Address>, auth: &AuthContext) -> (r:
        Result<(), ContractError>)
        requires
            old(self).wf(),
            old(self).vault(owner) matches Some(v) ==> auth.signed(v.admin),
        ensures
            final(self).wf(),
            match r {
                Ok(()) => Self::authorize_issuers_ok(*old(self), *final(self), owner, issuers@),
                Err(e) => {
                    &&& vault_op_guard_err(*old(self), owner, e)
                    &&& unchanged(*old(self), *final(self))
                },
            },
    {
        let i = match self.active_vault_index(owner) {
            Ok(i) => i,
            Err(e) => {
                return Err(e);
            },
        };
        let ghost pre_vaults = self.vaults@;
        let mut entry = self.vaults.remove(i);
        entry.1.issuers = issuers;
        let ghost gv = entry.1;
        self.vaults.insert(i, entry);
        proof {
            self.lemma_after_vault_update(pre_vaults, i as int, gv, owner);
        }
        Ok(())
    }

    /// What a successful `revoke_issuer` does: the issuer's first
    /// occurrence leaves the allow-list.
    pub open spec fn revoke_issuer_ok(
        pre: ActaContract,
        post: ActaContract,
        owner: Address,
        issuer_addr: Address,
    ) -> bool {
        &&& pre.vault(owner) matches Some(v) && !v.revoked && v.has_issuer(issuer_addr) && (
        post.vault(owner) matches Some(v2) && same_but_issuers(v, v2) && (
        v.issuers@.index_of_first(issuer_addr) matches Some(ix) && v2.issuers@
            == v.issuers@.remove(ix)) && forall|a: Address|
            a != issuer_addr ==> v2.has_issuer(a) == v.has_issuer(a))
        &&& same_vaults_except(pre, post, owner)
        &&& same_config(pre, post)
        &&& same_statuses(pre, post)
        &&& same_legacy(pre, post)
    }

    /// Why `revoke_issuer` was refused.
    pub open spec fn revoke_issuer_err(
        pre: ActaContract,
        owner: Address,
        issuer_addr: Address,
        e: ContractError,
    ) -> bool {
        match pre.vault(owner) {
            None => e == ContractError::VaultNotInitialized,
            Some(v) => if v.revoked {
                e == ContractError::VaultRevoked
            } else {
                e == ContractError::IssuerNotAuthorized && !v.has_issuer(issuer_addr)
            },
        }
    }

    /// Removes one issuer from `owner`'s allow-list; authorized by the
    /// vault admin, refused on a missing or revoked vault or an absent
    /// issuer.
    pub fn revoke_issuer(&mut self, owner: Address, issuer_addr: Address, auth: &AuthContext) -> (r:
        Result<(), ContractError>)
        requires
            old(self).wf(),
            old(self).vault(owner) matches Some(v) ==> auth.signed(v.admin),
        ensures
            final(self).wf(),
            match r {
                Ok(()) => Self::revoke_issuer_ok(*old(self), *final(self), owner, issuer_addr),
                Err(e) => {
                    &&& Self::revoke_issuer_err(*old(self), owner, issuer_addr, e)
                    &&& unchanged(*old(self), *final(self))
                },
            },
    {
        let i = match self.active_vault_index(owner) {
            Ok(i) => i,
            Err(e) => {
                return Err(e);
            },
        };
        let ghost pre_vaults = self.vaults@;
        let mut entry = self.vaults.remove(i);
        let res = issuer::revoke_issuer(&mut entry.1.issuers, &issuer_addr);
        let ghost gv = entry.1;
        self.vaults.insert(i, entry);
        proof {
            self.lemma_after_vault_update(pre_vaults, i as int, gv, owner);
            if res is Err {
                assert(gv == pre_vaults[i as int].1);
                assert(self.vaults@ =~= pre_vaults);
            }
        }
        match res {
            Ok(()) => Ok(()),
            Err(e) => Err(e),
        }
    }

    /// What a successful `revoke_vault` does: the one-way revoked flag is
    /// set; records, issuers and metadata stay readable.
    pub open spec fn revoke_vault_ok(pre: ActaContract, post: ActaContract, owner: Address) -> bool {
        &&& pre.vault(owner) matches Some(v) && !v.revoked && (post.vault(owner) matches Some(v2)
            && v2.revoked && same_but_revoked(v, v2))
        &&& same_vaults_except(pre, post, owner)
        &&& same_config(pre, post)
        &&& same_statuses(pre, post)
        &&& same_legacy(pre, post)
    }

    /// Revokes `owner`'s vault, blocking every further mutation of it;
    /// authorized by the vault admin. Revoking twice is refused by the
    /// revoked check itself.
    pub fn revoke_vault(&mut self, owner: Address, auth: &AuthContext) -> (r: Result<
        (),
        ContractError,
    >)
        requires
            old(self).wf(),
            old(self).vault(owner) matches Some(v) ==> auth.signed(v.admin),
        ensures
            final(self).wf(),
            match r {
                Ok(()) => Self::revoke_vault_ok(*old(self), *final(self), owner),
                Err(e) => {
                    &&& vault_op_guard_err(*old(self), owner, e)
                    &&& unchanged(*old(self), *final(self))
                },
            },
    {
        let i = match self.active_vault_index(owner) {
            Ok(i) => i,
            Err(e) => {
                return Err(e);
            },
        };
        let ghost pre_vaults = self.vaults@;
        let mut entry = self.vaults.remove(i);
        entry.1.revoked = true;
        let ghost gv = entry.1;
        self.vaults.insert(i, entry);
        proof {
            self.lemma_after_vault_update(pre_vaults, i as int, gv, owner);
        }
        Ok(())
    }

    /// The ids of the credentials in `owner`'s vault, most recently filed
    /// first; empty for a vault that was never created. A read: available
    /// on a revoked vault, and creates nothing.
    pub fn list_vc_ids(&self, owner: Address) -> (r: Vec<String>)
        ensures
            match self.vault(owner) {
                Some(v) => r@ == spec_vc_ids(v.vcs@),
                None => r@ == Seq::<String>::empty(),
            },
    {
        match vault_index_of(&self.vaults, owner) {
            None => Vec::new(),
            Some(i) => {
                let vcs = &self.vaults[i].1.vcs;
                let n = vcs.len();
                let mut out: Vec<String> = Vec::new();
                let mut k: usize = 0;
                while k < n
                    invariant
                        k <= n,
                        n == vcs@.len(),
                        out@ == spec_vc_ids(vcs@.take(k as int)),
                    decreases n - k,
                {
                    out.push(vcs[k].id.clone());
                    proof {
                        assert(vcs@.take(k + 1 as int) =~= vcs@.take(k as int).push(
                            vcs@[k as int],
                        ));
                        assert(spec_vc_ids(vcs@.take(k + 1 as int)) =~= spec_vc_ids(
                            vcs@.take(k as int),
                        ).push(vcs@[k as int].id));
                    }
                    k = k + 1;
                }
                proof {
                    assert(vcs@.take(n as int) =~= vcs@);
                }
                out
            },
        }
    }

    /// The credential filed under `vc_id` in `owner`'s vault, if both
    /// exist. A read: available on a revoked vault, and creates nothing.
    pub fn get_vc(&self, owner: Address, vc_id: &String) -> (r: Option<VerifiableCredential>)
        ensures
            r == match self.vault(owner) {
                Some(v) => v.vc(vc_id@),
                None => None::<VerifiableCredential>,
            },
    {
        match vault_index_of(&self.vaults, owner) {
            None => None,
            Some(i) => {
                match find_index(&self.vaults[i].1.vcs, vc_id) {
                    None => None,
                    Some(j) => Some(self.vaults[i].1.vcs[j].clone()),
                }
            },
        }
    }
}

/// The checks `issue` makes before it stores anything: the target registry
/// is this one, and the vault exists, is active, and allows the issuer.
pub open spec fn issue_gate(
    pre: ActaContract,
    owner: Address,
    vault_contract: Address,
    issuer_addr: Address,
) -> bool {
    &&& vault_contract == pre.contract_id
    &&& pre.vault(owner) matches Some(v) && !v.revoked && v.has_issuer(issuer_addr)
}

/// When fee charging is switched on, a fee policy has been configured.
pub open spec fn fee_ready(pre: ActaContract) -> bool {
    pre.config matches Some(c) ==> (c.fee_enabled ==> c.fee is Some)
}

/// The transfer `issue` asks of the host: the configured fee, paid by the
/// issuer — or nothing, with fee charging off.
pub open spec fn fee_of(pre: ActaContract, payer: Address) -> Option<FeeTransfer> {
    match pre.config {
        Option::Some(c) => if c.fee_enabled {
            match c.fee {
                Option::Some(fc) => Some(
                    FeeTransfer { token: fc.token, from: payer, to: fc.dest, amount: fc.amount },
                ),
                Option::None => None,
            }
        } else {
            None
        },
        Option::None => None,
    }
}

/// The record `issue` stores: the arguments, with this registry as the
/// status owner.
pub open spec fn spec_issued_vc(
    pre: ActaContract,
    vc_id: String,
    vc_data: String,
    issuer_did: String,
) -> VerifiableCredential {
    VerifiableCredential { id: vc_id, data: vc_data, issuance_contract: pre.contract_id, issuer_did }
}

impl ActaContract {
    /// What a successful `issue` does: the credential is stored in the
    /// owner's vault, its status becomes `Valid` with the owner on
    /// record, and the receipt names the id and the fee transfer owed.
    /// Success is owed only when the target registry is this one and the
    /// id's status is not already revoked: revocation is one-way, so a
    /// revoked id can never return to `Valid`.
    pub open spec fn issue_ok(
        pre: ActaContract,
        post: ActaContract,
        owner: Address,
        vc_id: String,
        vc_data: String,
        vault_contract: Address,
        issuer_addr: Address,
        issuer_did: String,
        receipt: IssueReceipt,
    ) -> bool {
        &&& vault_contract == pre.contract_id
        &&& issue_gate(pre, owner, vault_contract, issuer_addr)
        &&& !(pre.status_of(vc_id@) is Revoked)
        &&& pre.vault(owner) matches Some(v) && (post.vault(owner) matches Some(v2)
            && same_but_vcs(v, v2) && v2.vcs@ == spec_upsert_front(
            v.vcs@,
            spec_issued_vc(pre, vc_id, vc_data, issuer_did),
        ) && v2.vc(vc_id@) == Some(spec_issued_vc(pre, vc_id, vc_data, issuer_did)))
        &&& post.status_of(vc_id@) is Valid
        &&& post.owner_of(vc_id@) == Some(owner)
        &&& forall|k: Seq<char>|
            k != vc_id@ ==> #[trigger] post.status_of(k) == pre.status_of(k) && post.owner_of(k)
                == pre.owner_of(k)
        &&& post.statuses@ == spec_set_status_owner(pre.statuses@, vc_id, VCStatus::Valid, owner)
        &&& same_vaults_except(pre, post, owner)
        &&& same_config(pre, post)
        &&& same_legacy(pre, post)
        &&& receipt.vc_id == vc_id
        &&& receipt.fee == fee_of(pre, issuer_addr)
    }

    /// Why `issue` was refused.
    pub open spec fn issue_err(
        pre: ActaContract,
        owner: Address,
        vc_id: Seq<char>,
        vault_contract: Address,
        issuer_addr: Address,
        e: ContractError,
    ) -> bool {
        if vault_contract != pre.contract_id {
            e == ContractError::InvalidVaultContract
        } else {
            match pre.vault(owner) {
                None => e == ContractError::VaultNotInitialized,
                Some(v) => if v.revoked {
                    e == ContractError::VaultRevoked
                } else if !v.has_issuer(issuer_addr) {
                    e == ContractError::IssuerNotAuthorized
                } else {
                    e == ContractError::VCAlreadyRevoked && pre.status_of(vc_id) is Revoked
                },
            }
        }
    }

    /// Issues a credential: stores the body in `owner`'s vault and records
    /// status `Valid` with `owner` as the status owner. Authorized by the
    /// issuer, whose one signature also covers the fee charge; the
    /// receipt's fee transfer, if any, must be performed by the host, and
    /// on its failure the host must discard the state this produced.
    /// `vault_contract` must name this registry (kept for callers of the
    /// predecessor two-registry interface). An id whose status is already
    /// revoked is refused `VCAlreadyRevoked`: the status registry is
    /// one-way, and re-issuing must not resurrect a revoked credential.
    pub fn issue(
        &mut self,
        owner: Address,
        vc_id: String,
        vc_data: String,
        vault_contract: Address,
        issuer_addr: Address,
        issuer_did: String,
        auth: &AuthContext,
    ) -> (r: Result<IssueReceipt, ContractError>)
        requires
            old(self).wf(),
            auth.signed(issuer_addr),
            issue_gate(*old(self), owner, vault_contract, issuer_addr) && !(old(self).status_of(
                vc_id@,
            ) is Revoked) ==> fee_ready(*old(self)),
        ensures
            final(self).wf(),
            match r {
                Ok(receipt) => Self::issue_ok(
                    *old(self),
                    *final(self),
                    owner,
                    vc_id,
                    vc_data,
                    vault_contract,
                    issuer_addr,
                    issuer_did,
                    receipt,
                ),
                Err(e) => {
                    &&& Self::issue_err(*old(self), owner, vc_id@, vault_contract, issuer_addr, e)
                    &&& unchanged(*old(self), *final(self))
                },
            },
    {
        if vault_contract != self.contract_id {
            return Err(ContractError::InvalidVaultContract);
        }
        let i = match self.active_vault_index(owner) {
            Ok(i) => i,
            Err(e) => {
                return Err(e);
            },
        };
        if !issuer::is_authorized(&self.vaults[i].1.issuers, &issuer_addr) {
            return Err(ContractError::IssuerNotAuthorized);
        }
        match read_status(&self.statuses, &vc_id) {
            VCStatus::Revoked(_) => {
                return Err(ContractError::VCAlreadyRevoked);
            },
            _ => {},
        }
        let fee: Option<FeeTransfer> = match &self.config {
            None => None,
            Some(c) => {
                if c.fee_enabled {
                    match &c.fee {
                        Some(fc) => Some(
                            FeeTransfer {
                                token: fc.token,
                                from: issuer_addr,
                                to: fc.dest,
                                amount: fc.amount,
                            },
                        ),
                        None => unreached(),
                    }
                } else {
                    None
                }
            },
        };
        let vc = VerifiableCredential {
            id: vc_id.clone(),
            data: vc_data,
            issuance_contract: self.contract_id,
            issuer_did,
        };
        let ghost gvc = vc;
        let ghost pre_vaults = self.vaults@;
        let ghost pre_statuses = self.statuses@;
        let mut entry = self.vaults.remove(i);
        store_vc(&mut entry.1.vcs, vc);
        let ghost gv = entry.1;
        self.vaults.insert(i, entry);
        proof {
            crate::keyed::lemma_upsert_front(pre_vaults[i as int].1.vcs@, gvc, gvc.id@);
            self.lemma_after_vault_update(pre_vaults, i as int, gv, owner);
        }
        set_status_owner(&mut self.statuses, &vc_id, VCStatus::Valid, owner);
        proof {
            assert forall|k: Seq<char>|
                k != vc_id@ implies #[trigger] spec_status_of(self.statuses@, k)
                == spec_status_of(pre_statuses, k) && spec_owner_of(self.statuses@, k)
                == spec_owner_of(pre_statuses, k) by {
                lemma_set_status_owner(pre_statuses, vc_id, VCStatus::Valid, owner, k);
            }
            lemma_set_status_owner(pre_statuses, vc_id, VCStatus::Valid, owner, vc_id@);
        }
        Ok(IssueReceipt { vc_id, fee })
    }
}

/// What a status report holds, pair by pair.
pub open spec fn spec_status_pairs(pairs: Seq<(String, String)>, status: VCStatus) -> bool {
    match status {
        VCStatus::Valid => pairs.len() == 1 && pairs[0].0@ == "status"@ && pairs[0].1@ == "valid"@,
        VCStatus::Invalid => pairs.len() == 1 && pairs[0].0@ == "status"@ && pairs[0].1@
            == "invalid"@,
        VCStatus::Revoked(date) => pairs.len() == 2 && pairs[0].0@ == "status"@ && pairs[0].1@
            == "revoked"@ && pairs[1].0@ == "since"@ && pairs[1].1@ == date@,
    }
}

/// Renders a status as `(key, value)` pairs: `"status"` → `"valid"`,
/// `"invalid"` or `"revoked"`, and for a revoked credential also
/// `"since"` → its revocation date.
fn issuance_status_to_map(status: VCStatus) -> (r: Vec<(String, String)>)
    ensures
        spec_status_pairs(r@, status),
{
    let status_k = String::from_str("status");
    match status {
        VCStatus::Valid => {
            let mut m: Vec<(String, String)> = Vec::new();
            m.push((status_k, String::from_str("valid")));
            m
        },
        VCStatus::Invalid => {
            let mut m: Vec<(String, String)> = Vec::new();
            m.push((status_k, String::from_str("invalid")));
            m
        },
        VCStatus::Revoked(date) => {
            let mut m: Vec<(String, String)> = Vec::new();
            m.push((status_k, String::from_str("revoked")));
            m.push((String::from_str("since"), date));
            m
        },
    }
}

impl ActaContract {
    /// What `verify_vc` returns: for an id absent from the vault (or a
    /// vault never created), an `invalid` report without consulting the
    /// status registry; for a credential whose status this registry owns,
    /// a report of the registered status; otherwise the delegation order.
    pub open spec fn verify_vc_ok(
        pre: ActaContract,
        owner: Address,
        id: Seq<char>,
        r: VerifyOutcome,
    ) -> bool {
        match (match pre.vault(owner) {
            Some(v) => v.vc(id),
            None => None::<VerifiableCredential>,
        }) {
            None => r matches VerifyOutcome::Resolved(pairs) && spec_status_pairs(
                pairs@,
                VCStatus::Invalid,
            ),
            Some(vc) => if vc.issuance_contract == pre.contract_id {
                r matches VerifyOutcome::Resolved(pairs) && spec_status_pairs(
                    pairs@,
                    pre.status_of(id),
                )
            } else {
                r matches VerifyOutcome::Delegated { registry, vc_id } && registry
                    == vc.issuance_contract && vc_id@ == id
            },
        }
    }

    /// Verifies a credential's status. A read, open to anyone; resolves
    /// locally when this registry owns the status, and otherwise orders
    /// the host to ask the owning registry and relay its answer.
    pub fn verify_vc(&self, owner: Address, vc_id: &String) -> (r: VerifyOutcome)
        ensures
            Self::verify_vc_ok(*self, owner, vc_id@, r),
    {
        let found: Option<&VerifiableCredential> = match vault_index_of(&self.vaults, owner) {
            None => None,
            Some(i) => {
                match find_index(&self.vaults[i].1.vcs, vc_id) {
                    None => None,
                    Some(j) => Some(&self.vaults[i].1.vcs[j]),
                }
            },
        };
        match found {
            None => VerifyOutcome::Resolved(issuance_status_to_map(VCStatus::Invalid)),
            Some(vc) => {
                if vc.issuance_contract == self.contract_id {
                    let st = read_status(&self.statuses, vc_id);
                    VerifyOutcome::Resolved(issuance_status_to_map(st))
                } else {
                    VerifyOutcome::Delegated { registry: vc.issuance_contract, vc_id: vc_id.clone() }
                }
            },
        }
    }

    /// What a successful `push` does: the credential leaves the source
    /// vault, body and id in one step, and lands in the destination vault,
    /// filed at the front. Pushing within one vault refiles the record at
    /// the front.
    pub open spec fn push_ok(
        pre: ActaContract,
        post: ActaContract,
        from_owner: Address,
        to_owner: Address,
        vc_id: Seq<char>,
        issuer_addr: Address,
    ) -> bool {
        &&& same_vaults_except2(pre, post, from_owner, to_owner)
        &&& same_config(pre, post)
        &&& same_statuses(pre, post)
        &&& same_legacy(pre, post)
        &&& match (pre.vault(from_owner), pre.vault(to_owner)) {
            (Some(vf), Some(vt)) => {
                &&& !vf.revoked
                &&& !vt.revoked
                &&& vf.has_issuer(issuer_addr)
                &&& match vf.vc(vc_id) {
                    Some(vc) => if from_owner == to_owner {
                        post.vault(from_owner) matches Some(v2) && same_but_vcs(vf, v2)
                            && v2.vcs@ == spec_upsert_front(
                            vf.vcs@.remove(spec_first_index(vf.vcs@, vc_id)),
                            vc,
                        ) && v2.vc(vc_id) == Some(vc)
                    } else {
                        (post.vault(from_owner) matches Some(vf2) && same_but_vcs(vf, vf2)
                            && vf2.vcs@ == vf.vcs@.remove(spec_first_index(vf.vcs@, vc_id))
                            && vf2.vc(vc_id) is None) && (post.vault(to_owner) matches Some(vt2)
                            && same_but_vcs(vt, vt2) && vt2.vcs@ == spec_upsert_front(vt.vcs@, vc)
                            && vt2.vc(vc_id) == Some(vc))
                    },
                    None => false,
                }
            },
            _ => false,
        }
    }

    /// Why `push` was refused.
    pub open spec fn push_err(
        pre: ActaContract,
        from_owner: Address,
        to_owner: Address,
        vc_id: Seq<char>,
        issuer_addr: Address,
        e: ContractError,
    ) -> bool {
        match pre.vault(from_owner) {
            None => e == ContractError::VaultNotInitialized,
            Some(vf) => if vf.revoked {
                e == ContractError::VaultRevoked
            } else {
                match pre.vault(to_owner) {
                    None => e == ContractError::VaultNotInitialized,
                    Some(vt) => if vt.revoked {
                        e == ContractError::VaultRevoked
                    } else if !vf.has_issuer(issuer_addr) {
                        e == ContractError::IssuerNotAuthorized
                    } else {
                        e == ContractError::VCNotFound && vf.vc(vc_id) is None
                    },
                }
            },
        }
    }

    /// Moves one credential from `from_owner`'s vault into `to_owner`'s,
    /// atomically: body and id index leave the source and enter the
    /// destination together, with no intermediate state observable.
    /// Authorized by the source owner alone — the destination owner's
    /// consent is not asked, by design of the issuer-driven transfer
    /// model — and `issuer_addr` must be allowed in the source vault but
    /// does not sign.
    pub fn push(
        &mut self,
        from_owner: Address,
        to_owner: Address,
        vc_id: &String,
        issuer_addr: Address,
        auth: &AuthContext,
    ) -> (r: Result<(), ContractError>)
        requires
            old(self).wf(),
            (old(self).vault(from_owner) matches Some(vf) && !vf.revoked && (old(self).vault(
                to_owner,
            ) matches Some(vt) && !vt.revoked)) ==> auth.signed(from_owner),
        ensures
            final(self).wf(),
            match r {
                Ok(()) => Self::push_ok(
                    *old(self),
                    *final(self),
                    from_owner,
                    to_owner,
                    vc_id@,
                    issuer_addr,
                ),
                Err(e) => {
                    &&& Self::push_err(*old(self), from_owner, to_owner, vc_id@, issuer_addr, e)
                    &&& unchanged(*old(self), *final(self))
                },
            },
    {
        let i = match self.active_vault_index(from_owner) {
            Ok(i) => i,
            Err(e) => {
                return Err(e);
            },
        };
        let j = match self.active_vault_index(to_owner) {
            Ok(j) => j,
            Err(e) => {
                return Err(e);
            },
        };
        if !issuer::is_authorized(&self.vaults[i].1.issuers, &issuer_addr) {
            return Err(ContractError::IssuerNotAuthorized);
        }
        let ivc = match find_index(&self.vaults[i].1.vcs, vc_id) {
            None => {
                return Err(ContractError::VCNotFound);
            },
            Some(k) => k,
        };
        let ghost pre_vaults = self.vaults@;
        let ghost vf = pre_vaults[i as int].1;
        let mut fe = self.vaults.remove(i);
        let vc = fe.1.vcs.remove(ivc);
        let ghost gvc = vc;
        let ghost gvf2 = fe.1;
        self.vaults.insert(i, fe);
        proof {
            assert forall|m: int|
                0 <= m < vf.vcs@.len() && m != ivc as int implies vf.vcs@[m].key() != vf.vcs@[
                ivc as int].key() by {}
            crate::keyed::lemma_keys_unique_remove(vf.vcs@, ivc as int);
            crate::keyed::lemma_find_remove_key(vf.vcs@, ivc as int);
            self.lemma_after_vault_update(pre_vaults, i as int, gvf2, from_owner);
        }
        let ghost mid_vaults = self.vaults@;
        proof {
            assert(mid_vaults[j as int].0 == to_owner);
        }
        let mut te = self.vaults.remove(j);
        let ghost vt_mid = te.1;
        store_vc(&mut te.1.vcs, vc);
        let ghost gvt2 = te.1;
        self.vaults.insert(j, te);
        proof {
            crate::keyed::lemma_upsert_front(vt_mid.vcs@, gvc, vc_id@);
            self.lemma_after_vault_update(mid_vaults, j as int, gvt2, to_owner);
        }
        Ok(())
    }

    /// What a successful `revoke` does: the status turns from `Valid` to
    /// `Revoked(date)`, one way; nothing else changes, the owner record
    /// included. Success is owed only where the authorization can be
    /// resolved: an owner was recorded at issuance, or the global admin
    /// existed to stand in for an owner-less, legacy-migrated entry.
    pub open spec fn revoke_ok(
        pre: ActaContract,
        post: ActaContract,
        vc_id: String,
        date: String,
    ) -> bool {
        &&& pre.owner_of(vc_id@) is Some || pre.config is Some
        &&& pre.status_of(vc_id@) is Valid
        &&& post.status_of(vc_id@) == VCStatus::Revoked(date)
        &&& post.owner_of(vc_id@) == pre.owner_of(vc_id@)
        &&& forall|k: Seq<char>|
            k != vc_id@ ==> #[trigger] post.status_of(k) == pre.status_of(k) && post.owner_of(k)
                == pre.owner_of(k)
        &&& post.statuses@ == spec_set_status(pre.statuses@, vc_id, VCStatus::Revoked(date))
        &&& same_config(pre, post)
        &&& same_vaults(pre, post)
        &&& same_legacy(pre, post)
    }

    /// Why `revoke` was refused.
    pub open spec fn revoke_err(pre: ActaContract, vc_id: Seq<char>, e: ContractError) -> bool {
        if pre.status_of(vc_id) is Invalid {
            e == ContractError::VCNotFound
        } else if pre.owner_of(vc_id) is None && pre.config is None {
            e == ContractError::NotInitialized
        } else {
            e == ContractError::VCAlreadyRevoked && pre.status_of(vc_id) is Revoked
        }
    }

    /// Revokes a credential by id, at `date`. Authorized by the owner
    /// recorded at issuance; entries migrated from the legacy layout have
    /// no owner on record, and fall back to the global admin's signature.
    pub fn revoke(&mut self, vc_id: &String, date: String, auth: &AuthContext) -> (r: Result<
        (),
        ContractError,
    >)
        requires
            old(self).wf(),
            !(old(self).status_of(vc_id@) is Invalid) ==> match old(self).owner_of(vc_id@) {
                Some(o) => auth.signed(o),
                None => old(self).config matches Some(c) ==> auth.signed(c.admin),
            },
        ensures
            final(self).wf(),
            match r {
                Ok(()) => Self::revoke_ok(*old(self), *final(self), *vc_id, date),
                Err(e) => {
                    &&& Self::revoke_err(*old(self), vc_id@, e)
                    &&& unchanged(*old(self), *final(self))
                },
            },
    {
        match read_status(&self.statuses, vc_id) {
            VCStatus::Invalid => {
                return Err(ContractError::VCNotFound);
            },
            _ => {},
        }
        match read_owner(&self.statuses, vc_id) {
            Some(_) => {},
            None => {
                if self.config.is_none() {
                    return Err(ContractError::NotInitialized);
                }
            },
        }
        let ghost pre_statuses = self.statuses@;
        match revoke_vc(&mut self.statuses, vc_id, date) {
            Ok(()) => {
                proof {
                    assert forall|k: Seq<char>|
                        k != vc_id@ implies #[trigger] spec_status_of(self.statuses@, k)
                        == spec_status_of(pre_statuses, k) && spec_owner_of(self.statuses@, k)
                        == spec_owner_of(pre_statuses, k) by {
                        lemma_set_status(pre_statuses, *vc_id, VCStatus::Revoked(date), k);
                    }
                    lemma_set_status(pre_statuses, *vc_id, VCStatus::Revoked(date), vc_id@);
                }
                Ok(())
            },
            Err(e) => Err(e),
        }
    }
}

/// Re-storing a legacy credential vector through the current store path,
/// front to back: each record overwrites the body under its id or files
/// the id at the front.
pub open spec fn spec_migrate_vcs(
    vcs: Seq<VerifiableCredential>,
    legacy: Seq<VerifiableCredential>,
) -> Seq<VerifiableCredential>
    decreases legacy.len(),
{
    if legacy.len() == 0 {
        vcs
    } else {
        spec_migrate_vcs(spec_upsert_front(vcs, legacy[0]), legacy.drop_first())
    }
}

/// Re-storing one more record extends the fold by one store.
pub proof fn lemma_migrate_vcs_snoc(
    vcs: Seq<VerifiableCredential>,
    legacy: Seq<VerifiableCredential>,
    vc: VerifiableCredential,
)
    ensures
        spec_migrate_vcs(vcs, legacy.push(vc)) == spec_upsert_front(
            spec_migrate_vcs(vcs, legacy),
            vc,
        ),
    decreases legacy.len(),
{
    let l2 = legacy.push(vc);
    if legacy.len() == 0 {
        assert(l2[0] == vc);
        assert(l2.drop_first() =~= Seq::<VerifiableCredential>::empty());
        assert(spec_migrate_vcs(vcs, l2) == spec_migrate_vcs(
            spec_upsert_front(vcs, vc),
            l2.drop_first(),
        ));
        assert(spec_migrate_vcs(spec_upsert_front(vcs, vc), l2.drop_first())
            == spec_upsert_front(vcs, vc));
        assert(spec_migrate_vcs(vcs, legacy) == vcs);
    } else {
        assert(l2[0] == legacy[0]);
        assert(l2.drop_first() =~= legacy.drop_first().push(vc));
        lemma_migrate_vcs_snoc(spec_upsert_front(vcs, legacy[0]), legacy.drop_first(), vc);
        assert(spec_migrate_vcs(vcs, l2) == spec_migrate_vcs(
            spec_upsert_front(vcs, legacy[0]),
            legacy.drop_first().push(vc),
        ));
        assert(spec_migrate_vcs(vcs, legacy) == spec_migrate_vcs(
            spec_upsert_front(vcs, legacy[0]),
            legacy.drop_first(),
        ));
    }
}

/// The status a legacy id migrates to: revoked at the recorded date when a
/// legacy revocation entry names it, valid otherwise.
pub open spec fn spec_legacy_status(revs: Seq<LegacyRevocation>, id: Seq<char>) -> VCStatus {
    match spec_find(revs, id) {
        Some(rv) => VCStatus::Revoked(rv.date),
        None => VCStatus::Valid,
    }
}

/// Writing the migrated status of every legacy id, front to back.
pub open spec fn spec_migrate_statuses(
    sts: Seq<StatusRecord>,
    ids: Seq<String>,
    revs: Seq<LegacyRevocation>,
) -> Seq<StatusRecord>
    decreases ids.len(),
{
    if ids.len() == 0 {
        sts
    } else {
        spec_migrate_statuses(
            spec_set_status(sts, ids[0], spec_legacy_status(revs, ids[0]@)),
            ids.drop_first(),
            revs,
        )
    }
}

/// Migrating one more id extends the fold by one status write.
pub proof fn lemma_migrate_statuses_snoc(
    sts: Seq<StatusRecord>,
    ids: Seq<String>,
    revs: Seq<LegacyRevocation>,
    id: String,
)
    ensures
        spec_migrate_statuses(sts, ids.push(id), revs) == spec_set_status(
            spec_migrate_statuses(sts, ids, revs),
            id,
            spec_legacy_status(revs, id@),
        ),
    decreases ids.len(),
{
    let l2 = ids.push(id);
    if ids.len() == 0 {
        assert(l2[0] == id);
        assert(l2.drop_first() =~= Seq::<String>::empty());
        assert(spec_migrate_statuses(sts, l2, revs) == spec_migrate_statuses(
            spec_set_status(sts, id, spec_legacy_status(revs, id@)),
            l2.drop_first(),
            revs,
        ));
        assert(spec_migrate_statuses(
            spec_set_status(sts, id, spec_legacy_status(revs, id@)),
            l2.drop_first(),
            revs,
        ) == spec_set_status(sts, id, spec_legacy_status(revs, id@)));
        assert(spec_migrate_statuses(sts, ids, revs) == sts);
    } else {
        assert(l2[0] == ids[0]);
        assert(l2.drop_first() =~= ids.drop_first().push(id));
        lemma_migrate_statuses_snoc(
            spec_set_status(sts, ids[0], spec_legacy_status(revs, ids[0]@)),
            ids.drop_first(),
            revs,
            id,
        );
        assert(spec_migrate_statuses(sts, l2, revs) == spec_migrate_statuses(
            spec_set_status(sts, ids[0], spec_legacy_status(revs, ids[0]@)),
            ids.drop_first().push(id),
            revs,
        ));
        assert(spec_migrate_statuses(sts, ids, revs) == spec_migrate_statuses(
            spec_set_status(sts, ids[0], spec_legacy_status(revs, ids[0]@)),
            ids.drop_first(),
            revs,
        ));
    }
}

impl ActaContract {
    /// What a successful per-owner `migrate` does: the legacy vector's
    /// records are re-stored through the current path, in order, and the
    /// legacy vector is deleted.
    pub open spec fn migrate_vault_ok(pre: ActaContract, post: ActaContract, owner: Address) -> bool {
        &&& pre.vault(owner) matches Some(v) && (v.legacy_view() matches Some(legacy) && (
        post.vault(owner) matches Some(v2) && same_but_records(v, v2) && v2.vcs@
            == spec_migrate_vcs(v.vcs@, legacy) && v2.legacy_view() is None))
        &&& same_vaults_except(pre, post, owner)
        &&& same_config(pre, post)
        &&& same_statuses(pre, post)
        &&& same_legacy(pre, post)
    }

    /// Why a per-owner `migrate` was refused.
    pub open spec fn migrate_vault_err(pre: ActaContract, owner: Address, e: ContractError) -> bool {
        match pre.vault(owner) {
            None => e == ContractError::VaultNotInitialized,
            Some(v) => e == ContractError::VCSAlreadyMigrated && v.legacy_view() is None,
        }
    }

    /// What a successful global `migrate` does: every legacy issued id
    /// gets its migrated status, in list order, and both legacy
    /// structures are deleted.
    pub open spec fn migrate_global_ok(pre: ActaContract, post: ActaContract) -> bool {
        &&& pre.config is Some
        &&& pre.legacy_issued_view() matches Some(ids) && post.statuses@ == spec_migrate_statuses(
            pre.statuses@,
            ids,
            pre.legacy_revocations@,
        )
        &&& post.legacy_issued_view() is None
        &&& post.legacy_revocations@ == Seq::<LegacyRevocation>::empty()
        &&& same_config(pre, post)
        &&& same_vaults(pre, post)
    }

    /// Why a global `migrate` was refused.
    pub open spec fn migrate_global_err(pre: ActaContract, e: ContractError) -> bool {
        if pre.config is None {
            e == ContractError::NotInitialized
        } else {
            e == ContractError::VCSAlreadyMigrated && pre.legacy_issued_view() is None
        }
    }

    /// One-time migration of the superseded layouts. With `Some(owner)`,
    /// re-stores that owner's legacy credential vector and deletes it;
    /// authorized by the vault admin. With `None`, writes a status for
    /// every legacy issued id — revoked where the legacy revocation map
    /// names it, valid otherwise — and deletes both legacy structures;
    /// authorized by the global admin. Idempotent by failure: a second
    /// run finds no legacy data and is refused.
    pub fn migrate(&mut self, owner: Option<Address>, auth: &AuthContext) -> (r: Result<
        (),
        ContractError,
    >)
        requires
            old(self).wf(),
            match owner {
                Some(o) => old(self).vault(o) matches Some(v) ==> auth.signed(v.admin),
                None => old(self).config matches Some(c) ==> auth.signed(c.admin),
            },
        ensures
            final(self).wf(),
            match owner {
                Some(o) => match r {
                    Ok(()) => Self::migrate_vault_ok(*old(self), *final(self), o),
                    Err(e) => {
                        &&& Self::migrate_vault_err(*old(self), o, e)
                        &&& unchanged(*old(self), *final(self))
                    },
                },
                None => match r {
                    Ok(()) => Self::migrate_global_ok(*old(self), *final(self)),
                    Err(e) => {
                        &&& Self::migrate_global_err(*old(self), e)
                        &&& unchanged(*old(self), *final(self))
                    },
                },
            },
    {
        match owner {
            Some(o) => {
                let i = match vault_index_of(&self.vaults, o) {
                    None => {
                        return Err(ContractError::VaultNotInitialized);
                    },
                    Some(i) => i,
                };
                if self.vaults[i].1.legacy_vcs.is_none() {
                    return Err(ContractError::VCSAlreadyMigrated);
                }
                let ghost pre_vaults = self.vaults@;
                let entry = self.vaults.remove(i);
                let (okey, vlt) = entry;
                let Vault { admin, did_uri, revoked, issuers, mut vcs, legacy_vcs } = vlt;
                let legacy = match legacy_vcs {
                    Some(l) => l,
                    None => unreached(),
                };
                let ghost pre_vcs = vcs@;
                let n = legacy.len();
                let mut k: usize = 0;
                while k < n
                    invariant
                        k <= n,
                        n == legacy@.len(),
                        vcs@ == spec_migrate_vcs(pre_vcs, legacy@.take(k as int)),
                        crate::keyed::keys_unique(vcs@),
                    decreases n - k,
                {
                    let vc = legacy[k].clone();
                    let ghost cur = vcs@;
                    store_vc(&mut vcs, vc);
                    proof {
                        crate::keyed::lemma_upsert_front(cur, legacy@[k as int], legacy@[k as int].id@);
                        lemma_migrate_vcs_snoc(pre_vcs, legacy@.take(k as int), legacy@[k as int]);
                        assert(legacy@.take(k + 1 as int) =~= legacy@.take(k as int).push(
                            legacy@[k as int],
                        ));
                    }
                    k = k + 1;
                }
                proof {
                    assert(legacy@.take(n as int) =~= legacy@);
                }
                let nv = Vault { admin, did_uri, revoked, issuers, vcs, legacy_vcs: None };
                let ghost gv = nv;
                self.vaults.insert(i, (okey, nv));
                proof {
                    self.lemma_after_vault_update(pre_vaults, i as int, gv, o);
                }
                Ok(())
            },
            None => {
                match &self.config {
                    None => {
                        return Err(ContractError::NotInitialized);
                    },
                    Some(_) => {},
                }
                if self.legacy_issued.is_none() {
                    return Err(ContractError::VCSAlreadyMigrated);
                }
                let mut ids_opt: Option<Vec<String>> = None;
                core::mem::swap(&mut self.legacy_issued, &mut ids_opt);
                let ids = match ids_opt {
                    Some(v) => v,
                    None => unreached(),
                };
                let ghost pre_statuses = self.statuses@;
                let ghost pre_self = *old(self);
                let n = ids.len();
                let mut k: usize = 0;
                while k < n
                    invariant
                        k <= n,
                        n == ids@.len(),
                        self.statuses@ == spec_migrate_statuses(
                            pre_statuses,
                            ids@.take(k as int),
                            self.legacy_revocations@,
                        ),
                        statuses_wf(self.statuses@),
                        self.contract_id == pre_self.contract_id,
                        self.config == pre_self.config,
                        self.vaults@ == pre_self.vaults@,
                        self.legacy_issued is None,
                        self.legacy_revocations@ == pre_self.legacy_revocations@,
                    decreases n - k,
                {
                    let id_ref = &ids[k];
                    let st = match find_index(&self.legacy_revocations, id_ref) {
                        Some(ri) => VCStatus::Revoked(self.legacy_revocations[ri].date.clone()),
                        None => VCStatus::Valid,
                    };
                    proof {
                        assert(st == spec_legacy_status(self.legacy_revocations@, ids@[k as int]@));
                        assert(!(st is Invalid));
                    }
                    let ghost cur = self.statuses@;
                    let ghost gst = st;
                    set_status(&mut self.statuses, id_ref, st);
                    proof {
                        lemma_set_status(cur, ids@[k as int], gst, ids@[k as int]@);
                        lemma_migrate_statuses_snoc(
                            pre_statuses,
                            ids@.take(k as int),
                            self.legacy_revocations@,
                            ids@[k as int],
                        );
                        assert(ids@.take(k + 1 as int) =~= ids@.take(k as int).push(
                            ids@[k as int],
                        ));
                    }
                    k = k + 1;
                }
                proof {
                    assert(ids@.take(n as int) =~= ids@);
                }
                self.legacy_revocations = Vec::new();
                Ok(())
            },
        }
    }

    /// Installs the legacy global layout — an issued-id list and a
    /// revocation map — as an upgraded deployment would already hold it,
    /// so that the one-time global migration has something to convert.
    pub fn install_legacy_issuance(
        &mut self,
        ids: Vec<String>,
        revocations: Vec<LegacyRevocation>,
    )
        requires
            old(self).wf(),
        ensures
            final(self).wf(),
            final(self).legacy_issued_view() == Some(ids@),
            final(self).legacy_revocations@ == revocations@,
            same_config(*old(self), *final(self)),
            same_vaults(*old(self), *final(self)),
            same_statuses(*old(self), *final(self)),
    {
        self.legacy_issued = Some(ids);
        self.legacy_revocations = revocations;
    }

    /// Installs a legacy credential vector in `owner`'s vault, as an
    /// upgraded deployment would already hold it, so that the per-owner
    /// migration has something to convert.
    pub fn install_legacy_vault_records(
        &mut self,
        owner: Address,
        records: Vec<VerifiableCredential>,
    ) -> (r: Result<(), ContractError>)
        requires
            old(self).wf(),
        ensures
            final(self).wf(),
            match r {
                Ok(()) => {
                    &&& old(self).vault(owner) matches Some(v) && (final(self).vault(owner)
                        matches Some(v2) && same_but_legacy(v, v2) && v2.legacy_view() == Some(
                        records@,
                    ))
                    &&& same_vaults_except(*old(self), *final(self), owner)
                    &&& same_config(*old(self), *final(self))
                    &&& same_statuses(*old(self), *final(self))
                    &&& final(self).legacy_issued_view() == old(self).legacy_issued_view()
                    &&& final(self).legacy_revocations@ == old(self).legacy_revocations@
                },
                Err(e) => {
                    &&& e == ContractError::VaultNotInitialized
                    &&& old(self).vault(owner) is None
                    &&& unchanged(*old(self), *final(self))
                },
            },
    {
        let i = match vault_index_of(&self.vaults, owner) {
            None => {
                return Err(ContractError::VaultNotInitialized);
            },
            Some(i) => i,
        };
        let ghost pre_vaults = self.vaults@;
        let mut entry = self.vaults.remove(i);
        entry.1.legacy_vcs = Some(records);
        let ghost gv = entry.1;
        self.vaults.insert(i, entry);
        proof {
            self.lemma_after_vault_update(pre_vaults, i as int, gv, owner);
        }
        Ok(())
    }
}

} // verus!
