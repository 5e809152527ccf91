//! The registry's error taxonomy. Every violated precondition aborts the
//! whole operation with one of these codes and no partial effect.

use vstd::prelude::*;

verus! {

#[derive(Clone, Copy, PartialEq, Eq, Structural, Debug)]
pub enum ContractError {
    /// The resource being initialized (global config or a vault) exists.
    AlreadyInitialized,
    /// The issuer is not in the vault's allow-list.
    IssuerNotAuthorized,
    /// The issuer is already in the vault's allow-list.
    IssuerAlreadyAuthorized,
    /// The vault is revoked; mutation is blocked.
    VaultRevoked,
    /// The legacy layout was already migrated (or never existed).
    VCSAlreadyMigrated,
    /// No credential with this id (in the vault, or in the status registry).
    VCNotFound,
    /// The credential is already revoked; revocation is one-way.
    VCAlreadyRevoked,
    /// No vault exists for this owner.
    VaultNotInitialized,
    /// The global configuration is missing.
    NotInitialized,
    /// The target registry parameter does not name this registry instance.
    InvalidVaultContract,
}

} // verus!
