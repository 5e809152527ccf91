//! The status registry's one-way lifecycle and the one-time migration of
//! the legacy layouts.

use acta::contract::{ActaContract, VerifyOutcome};
use acta::error::ContractError;
use acta::identity::{Address, AuthContext};
use acta::vc_status::LegacyRevocation;
use acta::verifiable_credential::VerifiableCredential;

const REGISTRY: Address = Address(900);

fn issued(owner: Address, issuer: Address, vc_id: &str) -> ActaContract {
    let mut reg = ActaContract::new(REGISTRY);
    reg.initialize(Address(1), "did:acta:default".to_string(), &AuthContext::single(Address(1)))
        .unwrap();
    reg.create_vault(owner, "did:x:o".to_string(), &AuthContext::single(owner)).unwrap();
    reg.authorize_issuer(owner, issuer, &AuthContext::single(owner)).unwrap();
    reg.issue(
        owner,
        vc_id.to_string(),
        "cipher".to_string(),
        REGISTRY,
        issuer,
        "did:x:i".to_string(),
        &AuthContext::single(issuer),
    )
    .unwrap();
    reg
}

fn status_field(reg: &ActaContract, owner: Address, vc_id: &str) -> String {
    match reg.verify_vc(owner, &vc_id.to_string()) {
        VerifyOutcome::Resolved(pairs) => {
            for (k, v) in &pairs {
                if k == "status" {
                    return v.clone();
                }
            }
            panic!("report without a status entry");
        },
        VerifyOutcome::Delegated { .. } => panic!("expected a locally resolved report"),
    }
}

#[test]
fn test_second_revoke_fails() {
    let owner = Address(2);
    let issuer = Address(3);
    let mut reg = issued(owner, issuer, "vc-1");
    let auth = AuthContext::single(owner);
    reg.revoke(&"vc-1".to_string(), "2025-01-01".to_string(), &auth).unwrap();
    let again = reg.revoke(&"vc-1".to_string(), "2025-02-02".to_string(), &auth);
    assert_eq!(again, Err(ContractError::VCAlreadyRevoked));
    assert_eq!(status_field(&reg, owner, "vc-1"), "revoked");
}

#[test]
fn test_revoke_never_issued_fails() {
    let owner = Address(2);
    let issuer = Address(3);
    let mut reg = issued(owner, issuer, "vc-1");
    let r = reg.revoke(&"vc-ghost".to_string(), "2025-01-01".to_string(), &AuthContext::single(owner));
    assert_eq!(r, Err(ContractError::VCNotFound));
}

#[test]
fn test_migrate_global_converts_legacy_statuses() {
    let mut reg = ActaContract::new(REGISTRY);
    let admin = Address(1);
    let auth = AuthContext::single(admin);
    reg.initialize(admin, "did:acta:default".to_string(), &auth).unwrap();
    reg.install_legacy_issuance(
        vec!["a".to_string(), "b".to_string()],
        vec![LegacyRevocation { vc_id: "a".to_string(), date: "2024-01-01".to_string() }],
    );

    reg.migrate(None, &auth).unwrap();

    // The statuses are global: a vault holding the ids reads them back.
    let owner = Address(2);
    reg.create_vault(owner, "did:x:o".to_string(), &AuthContext::single(owner)).unwrap();
    reg.install_legacy_vault_records(
        owner,
        vec![
            VerifiableCredential {
                id: "a".to_string(),
                data: "cipher-a".to_string(),
                issuance_contract: REGISTRY,
                issuer_did: "did:x:i".to_string(),
            },
            VerifiableCredential {
                id: "b".to_string(),
                data: "cipher-b".to_string(),
                issuance_contract: REGISTRY,
                issuer_did: "did:x:i".to_string(),
            },
        ],
    )
    .unwrap();
    reg.migrate(Some(owner), &AuthContext::single(owner)).unwrap();

    match reg.verify_vc(owner, &"a".to_string()) {
        VerifyOutcome::Resolved(pairs) => {
            assert!(pairs.contains(&("status".to_string(), "revoked".to_string())));
            assert!(pairs.contains(&("since".to_string(), "2024-01-01".to_string())));
        },
        VerifyOutcome::Delegated { .. } => panic!("expected a locally resolved report"),
    }
    assert_eq!(status_field(&reg, owner, "b"), "valid");

    // The migration consumed the legacy list: a second run is refused.
    let again = reg.migrate(None, &auth);
    assert_eq!(again, Err(ContractError::VCSAlreadyMigrated));
}

#[test]
fn test_migrate_should_fail_without_vcs() {
    let owner = Address(2);
    let mut reg = ActaContract::new(REGISTRY);
    reg.create_vault(owner, "did:x:o".to_string(), &AuthContext::single(owner)).unwrap();
    let r = reg.migrate(Some(owner), &AuthContext::single(owner));
    assert_eq!(r, Err(ContractError::VCSAlreadyMigrated));
}

#[test]
fn test_migrate_vault_restores_legacy_records() {
    let owner = Address(2);
    let mut reg = ActaContract::new(REGISTRY);
    reg.create_vault(owner, "did:x:o".to_string(), &AuthContext::single(owner)).unwrap();
    reg.install_legacy_vault_records(
        owner,
        vec![
            VerifiableCredential {
                id: "old-1".to_string(),
                data: "cipher-1".to_string(),
                issuance_contract: REGISTRY,
                issuer_did: "did:x:i".to_string(),
            },
            VerifiableCredential {
                id: "old-2".to_string(),
                data: "cipher-2".to_string(),
                issuance_contract: REGISTRY,
                issuer_did: "did:x:i".to_string(),
            },
        ],
    )
    .unwrap();

    reg.migrate(Some(owner), &AuthContext::single(owner)).unwrap();

    // Re-stored front to back, so the last legacy record is listed first.
    assert_eq!(reg.list_vc_ids(owner), vec!["old-2".to_string(), "old-1".to_string()]);
    assert_eq!(reg.get_vc(owner, &"old-1".to_string()).unwrap().data, "cipher-1");
    assert_eq!(reg.get_vc(owner, &"old-2".to_string()).unwrap().data, "cipher-2");

    // The legacy vector was deleted: a second run is refused.
    let again = reg.migrate(Some(owner), &AuthContext::single(owner));
    assert_eq!(again, Err(ContractError::VCSAlreadyMigrated));
}

#[test]
fn test_revoke_migrated_entry_falls_back_to_admin() {
    // A status written by the global migration has no owner on record, so
    // revoking it authorizes as the global admin.
    let mut reg = ActaContract::new(REGISTRY);
    let admin = Address(1);
    let auth = AuthContext::single(admin);
    reg.initialize(admin, "did:acta:default".to_string(), &auth).unwrap();
    reg.install_legacy_issuance(vec!["a".to_string()], Vec::new());
    reg.migrate(None, &auth).unwrap();

    reg.revoke(&"a".to_string(), "2025-03-03".to_string(), &auth).unwrap();
    let again = reg.revoke(&"a".to_string(), "2025-03-03".to_string(), &auth);
    assert_eq!(again, Err(ContractError::VCAlreadyRevoked));
}

#[test]
fn test_migrate_global_without_config_fails() {
    let mut reg = ActaContract::new(REGISTRY);
    let r = reg.migrate(None, &AuthContext::single(Address(1)));
    assert_eq!(r, Err(ContractError::NotInitialized));
}

#[test]
fn test_set_contract_admin_without_config_fails() {
    let mut reg = ActaContract::new(REGISTRY);
    let r = reg.set_contract_admin(Address(1), &AuthContext::single(Address(1)));
    assert_eq!(r, Err(ContractError::NotInitialized));
}

#[test]
fn test_upgrade_requires_configuration() {
    let mut reg = ActaContract::new(REGISTRY);
    let admin = Address(1);
    let auth = AuthContext::single(admin);
    assert_eq!(reg.upgrade([0u8; 32], &auth), Err(ContractError::NotInitialized));
    reg.initialize(admin, "did:acta:default".to_string(), &auth).unwrap();
    assert_eq!(reg.upgrade([0u8; 32], &auth), Ok(()));
}

#[test]
fn test_set_contract_admin_hands_over_control() {
    let mut reg = ActaContract::new(REGISTRY);
    let admin = Address(1);
    let new_admin = Address(9);
    reg.initialize(admin, "did:acta:default".to_string(), &AuthContext::single(admin)).unwrap();
    reg.set_contract_admin(new_admin, &AuthContext::single(admin)).unwrap();
    // The new admin now manages the global configuration.
    reg.set_fee_enabled(true, &AuthContext::single(new_admin)).unwrap();
}

#[test]
fn test_reissue_revoked_id_fails() {
    let owner = Address(2);
    let issuer = Address(3);
    let mut reg = issued(owner, issuer, "vc-1");
    reg.revoke(&"vc-1".to_string(), "2025-01-01".to_string(), &AuthContext::single(owner)).unwrap();
    // Revocation is one-way: the id cannot be issued back to valid.
    let again = reg.issue(
        owner,
        "vc-1".to_string(),
        "cipher-2".to_string(),
        REGISTRY,
        issuer,
        "did:x:i".to_string(),
        &AuthContext::single(issuer),
    );
    assert_eq!(again.map(|x| x.vc_id), Err(ContractError::VCAlreadyRevoked));
    assert_eq!(status_field(&reg, owner, "vc-1"), "revoked");
    // A fresh id still issues.
    reg.issue(
        owner,
        "vc-2".to_string(),
        "cipher-2".to_string(),
        REGISTRY,
        issuer,
        "did:x:i".to_string(),
        &AuthContext::single(issuer),
    )
    .unwrap();
}
