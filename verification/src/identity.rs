//! Identities and the authentication context of one operation.

use vstd::prelude::*;

verus! {

/// An on-ledger identity: an account, a contract instance, a fee
/// destination. Only equality of identities matters to the registry, so an
/// identity is a plain number.
#[derive(Clone, Copy, PartialEq, Eq, Structural, Debug)]
pub struct Address(pub u64);

/// The set of identities that the host has authenticated as signers of the
/// current operation. Every operation that the interface table marks
/// "authorizes as X" demands, in its precondition, that X is in this set;
/// the host aborts the transaction otherwise, so no operation here ever
/// observes a missing signature.
pub struct AuthContext {
    pub signers: Vec<Address>,
}

impl AuthContext {
    /// True when `a` signed the current operation.
    pub open spec fn signed(&self, a: Address) -> bool {
        self.signers@.contains(a)
    }

    pub fn new(signers: Vec<Address>) -> (r: AuthContext)
        ensures
            r.signers@ == signers@,
    {
        AuthContext { signers }
    }

    /// A context in which exactly one identity signed.
    pub fn single(signer: Address) -> (r: AuthContext)
        ensures
            r.signed(signer),
            forall|a: Address| r.signed(a) ==> a == signer,
    {
        let signers: Vec<Address> = vec![signer];
        proof {
            assert(signers@[0] == signer);
        }
        AuthContext { signers }
    }
}

} // verus!
