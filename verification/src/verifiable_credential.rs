//! The credential record stored in a vault, and the semantics of storing
//! one: the body under an id already present is overwritten in place, and
//! a new id is filed at the front of the vault's list.

use vstd::prelude::*;
use crate::identity::Address;
use crate::keyed::{Keyed, spec_upsert_front, upsert_front};

verus! {

/// One verifiable credential held by a vault.
pub struct VerifiableCredential {
    /// Application-level identifier, unique within the vault holding it.
    pub id: String,
    /// The payload: opaque ciphertext (or a safe reference), never
    /// interpreted by the registry.
    pub data: String,
    /// The registry instance that owns this credential's status.
    pub issuance_contract: Address,
    /// Issuer DID metadata.
    pub issuer_did: String,
}

impl Keyed for VerifiableCredential {
    open spec fn key(&self) -> Seq<char> {
        self.id@
    }

    fn has_key(&self, id: &String) -> (r: bool) {
        self.id == *id
    }

    fn key_ref(&self) -> (s: &String) {
        &self.id
    }
}

impl Clone for VerifiableCredential {
    fn clone(&self) -> (r: Self)
        ensures
            r == *self,
    {
        VerifiableCredential {
            id: self.id.clone(),
            data: self.data.clone(),
            issuance_contract: self.issuance_contract,
            issuer_did: self.issuer_did.clone(),
        }
    }
}

/// The ids of the records, in list order.
pub open spec fn spec_vc_ids(s: Seq<VerifiableCredential>) -> Seq<String> {
    s.map_values(|vc: VerifiableCredential| vc.id)
}

/// Stores a credential in a vault's record list: overwrites the body under
/// an existing id, or files a new id at the front.
pub fn store_vc(vcs: &mut Vec<VerifiableCredential>, vc: VerifiableCredential)
    ensures
        final(vcs)@ == spec_upsert_front(old(vcs)@, vc),
{
    upsert_front(vcs, vc);
}

} // verus!
