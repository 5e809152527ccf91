//! The ordered allow-list of issuer identities of one vault: membership
//! tests, single insertion at the front, and removal of the first match.

use vstd::prelude::*;
use crate::error::ContractError;
use crate::identity::Address;

verus! {

/// True when `issuer` is in the allow-list.
pub fn is_authorized(issuers: &Vec<Address>, issuer: &Address) -> (r: bool)
    ensures
        r == issuers@.contains(*issuer),
{
    let n = issuers.len();
    let mut i: usize = 0;
    while i < n
        invariant
            i <= n,
            n == issuers@.len(),
            forall|j: int| 0 <= j < i ==> issuers@[j] != *issuer,
        decreases n - i,
    {
        if issuers[i] == *issuer {
            return true;
        }
        i = i + 1;
    }
    proof {
        assert(!issuers@.contains(*issuer));
    }
    false
}

/// Adds `issuer` at the front of the allow-list; refuses an issuer already
/// present.
pub fn authorize_issuer(issuers: &mut Vec<Address>, issuer: Address) -> (r: Result<
    (),
    ContractError,
>)
    ensures
        match r {
            Ok(()) => {
                &&& !old(issuers)@.contains(issuer)
                &&& final(issuers)@ == old(issuers)@.insert(0, issuer)
            },
            Err(e) => {
                &&& e == ContractError::IssuerAlreadyAuthorized
                &&& old(issuers)@.contains(issuer)
                &&& *final(issuers) == *old(issuers)
            },
        },
{
    if is_authorized(issuers, &issuer) {
        return Err(ContractError::IssuerAlreadyAuthorized);
    }
    issuers.insert(0, issuer);
    Ok(())
}

/// Removes the first occurrence of `issuer` from the allow-list; refuses
/// an issuer that is absent.
pub fn revoke_issuer(issuers: &mut Vec<Address>, issuer: &Address) -> (r: Result<
    (),
    ContractError,
>)
    ensures
        match r {
            Ok(()) => {
                &&& old(issuers)@.contains(*issuer)
                &&& old(issuers)@.index_of_first(*issuer) matches Some(i) && final(issuers)@
                    == old(issuers)@.remove(i)
                &&& forall|a: Address| a != *issuer ==> final(issuers)@.contains(a) == old(
                    issuers,
                )@.contains(a)
            },
            Err(e) => {
                &&& e == ContractError::IssuerNotAuthorized
                &&& !old(issuers)@.contains(*issuer)
                &&& *final(issuers) == *old(issuers)
            },
        },
{
    let n = issuers.len();
    let mut i: usize = 0;
    while i < n
        invariant
            i <= n,
            n == issuers@.len(),
            *issuers == *old(issuers),
            forall|j: int| 0 <= j < i ==> issuers@[j] != *issuer,
        decreases n - i,
    {
        if issuers[i] == *issuer {
            proof {
                let s = issuers@;
                s.index_of_first_ensures(*issuer);
                assert(s.contains(*issuer));
                let f = s.index_of_first(*issuer).unwrap();
                if f < i {
                    assert(s[f] != *issuer);
                }
                if i < f {
                    assert(s[i as int] != *issuer);
                }
                assert(f == i as int);
            }
            issuers.remove(i);
            proof {
                let s = old(issuers)@;
                let t = issuers@;
                assert forall|a: Address| a != *issuer implies t.contains(a) == s.contains(
                    a,
                ) by {
                    if s.contains(a) {
                        let k = choose|k: int| 0 <= k < s.len() && s[k] == a;
                        if k < i {
                            assert(t[k] == a);
                        } else {
                            assert(k != i);
                            assert(t[k - 1] == a);
                        }
                        assert(t.contains(a));
                    }
                    if t.contains(a) {
                        let k = choose|k: int| 0 <= k < t.len() && t[k] == a;
                        if k < i {
                            assert(s[k] == a);
                        } else {
                            assert(s[k + 1] == a);
                        }
                        assert(s.contains(a));
                    }
                }
            }
            return Ok(());
        }
        i = i + 1;
    }
    proof {
        assert(!issuers@.contains(*issuer));
    }
    Err(ContractError::IssuerNotAuthorized)
}

} // verus!
