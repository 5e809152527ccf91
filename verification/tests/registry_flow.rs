//! End-to-end flows of the unified registry: initialization, vault
//! creation, issuing, verifying, revoking and pushing credentials.

use acta::contract::{ActaContract, VerifyOutcome};
use acta::error::ContractError;
use acta::identity::{Address, AuthContext};

const REGISTRY: Address = Address(900);

fn registry() -> ActaContract {
    ActaContract::new(REGISTRY)
}

fn pairs_of(outcome: VerifyOutcome) -> Vec<(String, String)> {
    match outcome {
        VerifyOutcome::Resolved(pairs) => pairs,
        VerifyOutcome::Delegated { .. } => panic!("expected a locally resolved report"),
    }
}

fn field(pairs: &[(String, String)], key: &str) -> Option<String> {
    for (k, v) in pairs {
        if k == key {
            return Some(v.clone());
        }
    }
    None
}

#[test]
fn test_initialize_and_create_vault() {
    let mut reg = registry();
    let admin = Address(1);
    reg.initialize(admin, "did:acta:default".to_string(), &AuthContext::single(admin)).unwrap();

    let owner = Address(2);
    reg.create_vault(owner, "did:pkh:stellar:testnet:OWNER".to_string(), &AuthContext::single(owner))
        .unwrap();
}

#[test]
fn test_vault_authorize_and_store_and_list_and_get() {
    let mut reg = registry();
    let admin = Address(1);
    let issuer = Address(3);
    reg.initialize(admin, "did:acta:default".to_string(), &AuthContext::single(admin)).unwrap();

    let owner = Address(2);
    reg.create_vault(owner, "did:pkh:stellar:testnet:OWNER".to_string(), &AuthContext::single(owner))
        .unwrap();
    reg.authorize_issuer(owner, issuer, &AuthContext::single(owner)).unwrap();

    let vc_id = "vc-1".to_string();
    let vc_data = "<ciphertext>".to_string();
    let issuer_did = "did:pkh:stellar:testnet:ISSUER".to_string();

    reg.issue(
        owner,
        vc_id.clone(),
        vc_data.clone(),
        REGISTRY,
        issuer,
        issuer_did,
        &AuthContext::single(issuer),
    )
    .unwrap();

    let ids = reg.list_vc_ids(owner);
    assert_eq!(ids.len(), 1);

    let vc = reg.get_vc(owner, &vc_id).unwrap();
    assert_eq!(vc.data, vc_data);
}

#[test]
fn test_issue_verify_revoke_flow_local_vault() {
    let mut reg = registry();
    let admin = Address(1);
    let issuer = Address(3);
    reg.initialize(admin, "did:acta:default".to_string(), &AuthContext::single(admin)).unwrap();

    let owner = Address(2);
    reg.create_vault(owner, "did:pkh:stellar:testnet:OWNER".to_string(), &AuthContext::single(owner))
        .unwrap();
    reg.authorize_issuer(owner, issuer, &AuthContext::single(owner)).unwrap();

    let vc_id = "vc-123".to_string();
    reg.issue(
        owner,
        vc_id.clone(),
        "<ciphertext>".to_string(),
        REGISTRY,
        issuer,
        "did:pkh:stellar:testnet:ISSUER".to_string(),
        &AuthContext::single(issuer),
    )
    .unwrap();

    let m = pairs_of(reg.verify_vc(owner, &vc_id));
    assert_eq!(field(&m, "status").unwrap(), "valid");

    let date = "2025-12-18T00:00:00Z".to_string();
    reg.revoke(&vc_id, date, &AuthContext::single(owner)).unwrap();

    let m2 = pairs_of(reg.verify_vc(owner, &vc_id));
    assert_eq!(field(&m2, "status").unwrap(), "revoked");
    assert_eq!(field(&m2, "since").unwrap(), "2025-12-18T00:00:00Z");
}

#[test]
fn test_push_moves_between_vaults() {
    let mut reg = registry();
    let admin = Address(1);
    let issuer = Address(3);
    reg.initialize(admin, "did:acta:default".to_string(), &AuthContext::single(admin)).unwrap();

    let from_owner = Address(4);
    let to_owner = Address(5);
    reg.create_vault(
        from_owner,
        "did:pkh:stellar:testnet:FROM".to_string(),
        &AuthContext::single(from_owner),
    )
    .unwrap();
    reg.create_vault(
        to_owner,
        "did:pkh:stellar:testnet:TO".to_string(),
        &AuthContext::single(to_owner),
    )
    .unwrap();

    reg.authorize_issuer(from_owner, issuer, &AuthContext::single(from_owner)).unwrap();

    let vc_id = "vc-push".to_string();
    reg.issue(
        from_owner,
        vc_id.clone(),
        "<ciphertext>".to_string(),
        REGISTRY,
        issuer,
        "did:pkh:stellar:testnet:ISSUER".to_string(),
        &AuthContext::single(issuer),
    )
    .unwrap();

    reg.push(from_owner, to_owner, &vc_id, issuer, &AuthContext::single(from_owner)).unwrap();

    assert!(reg.get_vc(from_owner, &vc_id).is_none());
    assert!(reg.get_vc(to_owner, &vc_id).is_some());
}

#[test]
fn test_authorize_issuers_bulk() {
    let mut reg = registry();
    let admin = Address(1);
    let issuer = Address(3);
    reg.initialize(admin, "did:acta:default".to_string(), &AuthContext::single(admin)).unwrap();

    let owner = Address(2);
    reg.create_vault(owner, "did:pkh:stellar:testnet:OWNER".to_string(), &AuthContext::single(owner))
        .unwrap();

    let issuer2 = Address(6);
    reg.authorize_issuers(owner, vec![issuer, issuer2], &AuthContext::single(owner)).unwrap();
}

#[test]
fn test_initialize_twice_fails() {
    let mut reg = registry();
    let admin = Address(1);
    reg.initialize(admin, "did:acta:default".to_string(), &AuthContext::single(admin)).unwrap();
    let again = reg.initialize(admin, "did:acta:default".to_string(), &AuthContext::single(admin));
    assert_eq!(again, Err(ContractError::AlreadyInitialized));
}

#[test]
fn test_create_vault_twice_fails() {
    let mut reg = registry();
    let owner = Address(2);
    let auth = AuthContext::single(owner);
    reg.create_vault(owner, "did:x:o".to_string(), &auth).unwrap();
    let again = reg.create_vault(owner, "did:x:o".to_string(), &auth);
    assert_eq!(again, Err(ContractError::AlreadyInitialized));
}

#[test]
fn test_first_vault_creation_bootstraps_admin() {
    let mut reg = registry();
    let owner = Address(2);
    reg.create_vault(owner, "did:x:o".to_string(), &AuthContext::single(owner)).unwrap();
    // The bootstrapped configuration names the first owner as admin, so a
    // later initialize is refused.
    let admin = Address(1);
    let r = reg.initialize(admin, "did:acta:default".to_string(), &AuthContext::single(admin));
    assert_eq!(r, Err(ContractError::AlreadyInitialized));
    // And admin-gated operations accept the owner's signature.
    reg.set_fee_enabled(true, &AuthContext::single(owner)).unwrap();
}

#[test]
fn test_issue_with_fee_enabled_reports_transfer() {
    let mut reg = registry();
    let admin = Address(1);
    let issuer = Address(3);
    let token = Address(70);
    let fee_dest = Address(71);
    let auth_admin = AuthContext::single(admin);
    reg.initialize(admin, "did:acta:default".to_string(), &auth_admin).unwrap();
    reg.set_fee_config(token, fee_dest, 25, &auth_admin).unwrap();
    reg.set_fee_enabled(true, &auth_admin).unwrap();

    let owner = Address(2);
    reg.create_vault(owner, "did:x:o".to_string(), &AuthContext::single(owner)).unwrap();
    reg.authorize_issuer(owner, issuer, &AuthContext::single(owner)).unwrap();

    let receipt = reg
        .issue(
            owner,
            "vc-fee".to_string(),
            "cipher".to_string(),
            REGISTRY,
            issuer,
            "did:x:i".to_string(),
            &AuthContext::single(issuer),
        )
        .unwrap();
    assert_eq!(receipt.vc_id, "vc-fee");
    let fee = receipt.fee.unwrap();
    assert_eq!(fee.token, token);
    assert_eq!(fee.from, issuer);
    assert_eq!(fee.to, fee_dest);
    assert_eq!(fee.amount, 25);
}

#[test]
fn test_issue_to_wrong_registry_fails() {
    let mut reg = registry();
    let owner = Address(2);
    let issuer = Address(3);
    reg.create_vault(owner, "did:x:o".to_string(), &AuthContext::single(owner)).unwrap();
    reg.authorize_issuer(owner, issuer, &AuthContext::single(owner)).unwrap();
    let r = reg.issue(
        owner,
        "vc-1".to_string(),
        "cipher".to_string(),
        Address(901),
        issuer,
        "did:x:i".to_string(),
        &AuthContext::single(issuer),
    );
    assert_eq!(r.map(|x| x.vc_id), Err(ContractError::InvalidVaultContract));
}

#[test]
fn test_verify_foreign_credential_is_delegated() {
    let mut reg = registry();
    let owner = Address(2);
    reg.create_vault(owner, "did:x:o".to_string(), &AuthContext::single(owner)).unwrap();
    // A record whose status lives at a sibling registry, as the legacy
    // migration would re-store it.
    let sibling = Address(777);
    reg.install_legacy_vault_records(
        owner,
        vec![acta::verifiable_credential::VerifiableCredential {
            id: "vc-x".to_string(),
            data: "cipher".to_string(),
            issuance_contract: sibling,
            issuer_did: "did:x:i".to_string(),
        }],
    )
    .unwrap();
    reg.migrate(Some(owner), &AuthContext::single(owner)).unwrap();

    match reg.verify_vc(owner, &"vc-x".to_string()) {
        VerifyOutcome::Delegated { registry: target, vc_id } => {
            assert_eq!(target, sibling);
            assert_eq!(vc_id, "vc-x");
        },
        VerifyOutcome::Resolved(_) => panic!("expected delegation to the sibling registry"),
    }
}

#[test]
fn test_verify_absent_credential_is_invalid() {
    let reg = registry();
    let pairs = pairs_of(reg.verify_vc(Address(2), &"vc-none".to_string()));
    assert_eq!(field(&pairs, "status").unwrap(), "invalid");
    assert_eq!(field(&pairs, "since"), None);
}

#[test]
fn test_version() {
    let reg = registry();
    assert_eq!(reg.version(), "1.0.0");
}

#[test]
fn test_scenario_full_lifecycle() {
    let mut reg = registry();
    let admin = Address(1);
    let owner = Address(2);
    let issuer = Address(3);

    reg.initialize(admin, "did:x:default".to_string(), &AuthContext::single(admin)).unwrap();
    reg.create_vault(owner, "did:x:o".to_string(), &AuthContext::single(owner)).unwrap();
    reg.authorize_issuer(owner, issuer, &AuthContext::single(owner)).unwrap();
    reg.issue(
        owner,
        "vc-1".to_string(),
        "cipher-1".to_string(),
        REGISTRY,
        issuer,
        "did:x:i".to_string(),
        &AuthContext::single(issuer),
    )
    .unwrap();

    let m = pairs_of(reg.verify_vc(owner, &"vc-1".to_string()));
    assert_eq!(field(&m, "status").unwrap(), "valid");

    // The owner recorded at issuance authorizes the revocation.
    reg.revoke(&"vc-1".to_string(), "2025-01-01".to_string(), &AuthContext::single(owner)).unwrap();

    let m2 = pairs_of(reg.verify_vc(owner, &"vc-1".to_string()));
    assert_eq!(field(&m2, "status").unwrap(), "revoked");
    assert_eq!(field(&m2, "since").unwrap(), "2025-01-01");
}
