//! Vault management: issuer allow-list semantics, vault revocation, and
//! the push transfer in detail.

use acta::contract::ActaContract;
use acta::error::ContractError;
use acta::identity::{Address, AuthContext};

const REGISTRY: Address = Address(900);

fn vault_with_owner(owner: Address) -> ActaContract {
    let mut reg = ActaContract::new(REGISTRY);
    reg.create_vault(owner, "did:x:o".to_string(), &AuthContext::single(owner)).unwrap();
    reg
}

#[test]
fn test_authorize_issuer_twice_fails() {
    let owner = Address(2);
    let issuer = Address(3);
    let mut reg = vault_with_owner(owner);
    let auth = AuthContext::single(owner);
    reg.authorize_issuer(owner, issuer, &auth).unwrap();
    let again = reg.authorize_issuer(owner, issuer, &auth);
    assert_eq!(again, Err(ContractError::IssuerAlreadyAuthorized));
}

#[test]
fn test_revoke_issuer_twice_fails() {
    let owner = Address(2);
    let issuer = Address(3);
    let mut reg = vault_with_owner(owner);
    let auth = AuthContext::single(owner);
    reg.authorize_issuer(owner, issuer, &auth).unwrap();
    reg.revoke_issuer(owner, issuer, &auth).unwrap();
    let again = reg.revoke_issuer(owner, issuer, &auth);
    assert_eq!(again, Err(ContractError::IssuerNotAuthorized));
}

#[test]
fn test_authorize_revoke_authorize_succeeds() {
    let owner = Address(2);
    let issuer = Address(3);
    let mut reg = vault_with_owner(owner);
    let auth = AuthContext::single(owner);
    reg.authorize_issuer(owner, issuer, &auth).unwrap();
    reg.revoke_issuer(owner, issuer, &auth).unwrap();
    // Membership is a set, not a log: the issuer can be authorized again.
    reg.authorize_issuer(owner, issuer, &auth).unwrap();
}

#[test]
fn test_revoke_issuer_never_authorized_fails() {
    let owner = Address(2);
    let mut reg = vault_with_owner(owner);
    let r = reg.revoke_issuer(owner, Address(3), &AuthContext::single(owner));
    assert_eq!(r, Err(ContractError::IssuerNotAuthorized));
}

#[test]
fn test_vault_ops_without_vault_fail() {
    let mut reg = ActaContract::new(REGISTRY);
    let owner = Address(2);
    let auth = AuthContext::single(owner);
    assert_eq!(
        reg.authorize_issuer(owner, Address(3), &auth),
        Err(ContractError::VaultNotInitialized)
    );
    assert_eq!(reg.revoke_vault(owner, &auth), Err(ContractError::VaultNotInitialized));
    // Reads on a never-created owner answer empty without creating state.
    assert_eq!(reg.list_vc_ids(owner).len(), 0);
    assert!(reg.get_vc(owner, &"vc-1".to_string()).is_none());
    assert_eq!(
        reg.authorize_issuer(owner, Address(3), &auth),
        Err(ContractError::VaultNotInitialized)
    );
}

#[test]
fn test_revoked_vault_blocks_mutation_but_not_reads() {
    let owner = Address(2);
    let issuer = Address(3);
    let mut reg = vault_with_owner(owner);
    let auth = AuthContext::single(owner);
    reg.authorize_issuer(owner, issuer, &auth).unwrap();
    let vc_id = "vc-1".to_string();
    reg.issue(
        owner,
        vc_id.clone(),
        "cipher-1".to_string(),
        REGISTRY,
        issuer,
        "did:x:i".to_string(),
        &AuthContext::single(issuer),
    )
    .unwrap();

    reg.revoke_vault(owner, &auth).unwrap();

    assert_eq!(
        reg.authorize_issuer(owner, Address(6), &auth),
        Err(ContractError::VaultRevoked)
    );
    assert_eq!(reg.set_vault_admin(owner, Address(6), &auth), Err(ContractError::VaultRevoked));
    // Revoking twice is blocked by the revoked check itself.
    assert_eq!(reg.revoke_vault(owner, &auth), Err(ContractError::VaultRevoked));
    // Reads still answer.
    let vc = reg.get_vc(owner, &vc_id).unwrap();
    assert_eq!(vc.data, "cipher-1");
    assert_eq!(reg.list_vc_ids(owner), vec!["vc-1".to_string()]);
}

#[test]
fn test_set_vault_admin_hands_over_control() {
    let owner = Address(2);
    let new_admin = Address(9);
    let mut reg = vault_with_owner(owner);
    reg.set_vault_admin(owner, new_admin, &AuthContext::single(owner)).unwrap();
    // The new admin now manages the vault.
    reg.authorize_issuer(owner, Address(3), &AuthContext::single(new_admin)).unwrap();
}

#[test]
fn test_list_vc_ids_most_recent_first() {
    let owner = Address(2);
    let issuer = Address(3);
    let mut reg = vault_with_owner(owner);
    reg.authorize_issuer(owner, issuer, &AuthContext::single(owner)).unwrap();
    let iauth = AuthContext::single(issuer);
    for id in ["vc-a", "vc-b", "vc-c"] {
        reg.issue(
            owner,
            id.to_string(),
            "cipher".to_string(),
            REGISTRY,
            issuer,
            "did:x:i".to_string(),
            &iauth,
        )
        .unwrap();
    }
    assert_eq!(
        reg.list_vc_ids(owner),
        vec!["vc-c".to_string(), "vc-b".to_string(), "vc-a".to_string()]
    );
    // Re-issuing an id overwrites the body without duplicating the index.
    reg.issue(
        owner,
        "vc-b".to_string(),
        "cipher-2".to_string(),
        REGISTRY,
        issuer,
        "did:x:i".to_string(),
        &iauth,
    )
    .unwrap();
    assert_eq!(
        reg.list_vc_ids(owner),
        vec!["vc-c".to_string(), "vc-b".to_string(), "vc-a".to_string()]
    );
    assert_eq!(reg.get_vc(owner, &"vc-b".to_string()).unwrap().data, "cipher-2");
}

#[test]
fn test_push_vc_moves_record_and_ids() {
    let from_owner = Address(4);
    let to_owner = Address(5);
    let issuer = Address(3);
    let mut reg = ActaContract::new(REGISTRY);
    let did_uri = "did:pkh:stellar:testnet:GCUETKXJ2YNVADOF5SZBBZA6M3O6HEOXN4GRJZUW2MBRS2UKXZM37QDE";
    reg.create_vault(from_owner, did_uri.to_string(), &AuthContext::single(from_owner)).unwrap();
    reg.create_vault(to_owner, did_uri.to_string(), &AuthContext::single(to_owner)).unwrap();
    reg.authorize_issuer(from_owner, issuer, &AuthContext::single(from_owner)).unwrap();

    let vc_id = "vc_id".to_string();
    reg.issue(
        from_owner,
        vc_id.clone(),
        "vc_data".to_string(),
        REGISTRY,
        issuer,
        did_uri.to_string(),
        &AuthContext::single(issuer),
    )
    .unwrap();

    reg.push(from_owner, to_owner, &vc_id, issuer, &AuthContext::single(from_owner)).unwrap();

    let from_ids = reg.list_vc_ids(from_owner);
    assert_eq!(from_ids.len(), 0);

    let to_ids = reg.list_vc_ids(to_owner);
    assert!(to_ids.contains(&vc_id));

    let to_vc = reg.get_vc(to_owner, &vc_id);
    assert!(to_vc.is_some());

    let from_vc = reg.get_vc(from_owner, &vc_id);
    assert!(from_vc.is_none());
}

#[test]
fn test_push_missing_vc_fails() {
    let from_owner = Address(4);
    let to_owner = Address(5);
    let issuer = Address(3);
    let mut reg = ActaContract::new(REGISTRY);
    reg.create_vault(from_owner, "did:x:f".to_string(), &AuthContext::single(from_owner)).unwrap();
    reg.create_vault(to_owner, "did:x:t".to_string(), &AuthContext::single(to_owner)).unwrap();
    reg.authorize_issuer(from_owner, issuer, &AuthContext::single(from_owner)).unwrap();

    let missing = "missing-vc".to_string();
    let r = reg.push(from_owner, to_owner, &missing, issuer, &AuthContext::single(from_owner));
    assert_eq!(r, Err(ContractError::VCNotFound));
}

#[test]
fn test_push_same_vc_twice_fails() {
    let from_owner = Address(4);
    let to_owner = Address(5);
    let issuer = Address(3);
    let mut reg = ActaContract::new(REGISTRY);
    reg.create_vault(from_owner, "did:x:f".to_string(), &AuthContext::single(from_owner)).unwrap();
    reg.create_vault(to_owner, "did:x:t".to_string(), &AuthContext::single(to_owner)).unwrap();
    reg.authorize_issuer(from_owner, issuer, &AuthContext::single(from_owner)).unwrap();
    let vc_id = "vc-1".to_string();
    reg.issue(
        from_owner,
        vc_id.clone(),
        "cipher".to_string(),
        REGISTRY,
        issuer,
        "did:x:i".to_string(),
        &AuthContext::single(issuer),
    )
    .unwrap();
    reg.push(from_owner, to_owner, &vc_id, issuer, &AuthContext::single(from_owner)).unwrap();
    let again = reg.push(from_owner, to_owner, &vc_id, issuer, &AuthContext::single(from_owner));
    assert_eq!(again, Err(ContractError::VCNotFound));
    // The moved record kept its body.
    assert_eq!(reg.get_vc(to_owner, &vc_id).unwrap().data, "cipher");
}

#[test]
fn test_push_requires_authorized_issuer() {
    let from_owner = Address(4);
    let to_owner = Address(5);
    let mut reg = ActaContract::new(REGISTRY);
    reg.create_vault(from_owner, "did:x:f".to_string(), &AuthContext::single(from_owner)).unwrap();
    reg.create_vault(to_owner, "did:x:t".to_string(), &AuthContext::single(to_owner)).unwrap();
    let r = reg.push(
        from_owner,
        to_owner,
        &"vc-1".to_string(),
        Address(3),
        &AuthContext::single(from_owner),
    );
    assert_eq!(r, Err(ContractError::IssuerNotAuthorized));
}

#[test]
fn test_push_to_revoked_vault_fails() {
    let from_owner = Address(4);
    let to_owner = Address(5);
    let issuer = Address(3);
    let mut reg = ActaContract::new(REGISTRY);
    reg.create_vault(from_owner, "did:x:f".to_string(), &AuthContext::single(from_owner)).unwrap();
    reg.create_vault(to_owner, "did:x:t".to_string(), &AuthContext::single(to_owner)).unwrap();
    reg.authorize_issuer(from_owner, issuer, &AuthContext::single(from_owner)).unwrap();
    reg.revoke_vault(to_owner, &AuthContext::single(to_owner)).unwrap();
    let r = reg.push(
        from_owner,
        to_owner,
        &"vc-1".to_string(),
        issuer,
        &AuthContext::single(from_owner),
    );
    assert_eq!(r, Err(ContractError::VaultRevoked));
}

#[test]
fn test_issue_by_unauthorized_issuer_fails() {
    let owner = Address(2);
    let mut reg = vault_with_owner(owner);
    let issuer = Address(3);
    let r = reg.issue(
        owner,
        "vc-1".to_string(),
        "cipher".to_string(),
        REGISTRY,
        issuer,
        "did:x:i".to_string(),
        &AuthContext::single(issuer),
    );
    assert_eq!(r.map(|x| x.vc_id), Err(ContractError::IssuerNotAuthorized));
}

#[test]
fn test_list_vc_ids() {
    let owner = Address(2);
    let issuer = Address(3);
    let mut reg = vault_with_owner(owner);
    reg.authorize_issuer(owner, issuer, &AuthContext::single(owner)).unwrap();

    let vc_id = "vc-1".to_string();
    reg.issue(
        owner,
        vc_id.clone(),
        "vc-data-1".to_string(),
        REGISTRY,
        issuer,
        "did:pkh:stellar:testnet:ISSUER".to_string(),
        &AuthContext::single(issuer),
    )
    .unwrap();

    let vc_ids = reg.list_vc_ids(owner);
    assert_eq!(vc_ids.len(), 1);
    assert_eq!(vc_ids[0], vc_id);
}

#[test]
fn test_get_vc() {
    let owner = Address(2);
    let issuer = Address(3);
    let mut reg = vault_with_owner(owner);
    reg.authorize_issuer(owner, issuer, &AuthContext::single(owner)).unwrap();

    let vc_id = "vc-1".to_string();
    let vc_data = "vc-data-1".to_string();
    reg.issue(
        owner,
        vc_id.clone(),
        vc_data.clone(),
        REGISTRY,
        issuer,
        "did:pkh:stellar:testnet:ISSUER".to_string(),
        &AuthContext::single(issuer),
    )
    .unwrap();

    let vc = reg.get_vc(owner, &vc_id);
    assert!(vc.is_some());
    let vc_unwrapped = vc.unwrap();
    assert_eq!(vc_unwrapped.data, vc_data);
}
