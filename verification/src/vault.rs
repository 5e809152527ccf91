//! One owner's vault — per-vault admin, DID metadata, the one-way revoked
//! flag, the issuer allow-list and the credential records — and the table
//! of all vaults, keyed by owner identity.

use vstd::prelude::*;
use crate::identity::Address;
use crate::keyed::{keys_unique, spec_find};
use crate::verifiable_credential::VerifiableCredential;

verus! {

/// A vault: the per-owner container of credential records. Created once
/// per owner, never deleted; `revoked` is one-way and blocks mutation but
/// not reads.
pub struct Vault {
    /// The identity whose signature vault-management operations demand.
    /// Defaults to the owner.
    pub admin: Address,
    /// DID URI metadata for the owner.
    pub did_uri: String,
    /// One-way flag: a revoked vault refuses every further mutation.
    pub revoked: bool,
    /// Allow-list of issuer identities, most recently authorized first.
    pub issuers: Vec<Address>,
    /// The credential records, most recently filed id first; ids unique.
    pub vcs: Vec<VerifiableCredential>,
    /// The superseded flat credential vector, present only until the
    /// one-time migration converts it.
    pub legacy_vcs: Option<Vec<VerifiableCredential>>,
}

impl Vault {
    /// Well-formed vault: each credential id appears at most once.
    pub open spec fn wf(&self) -> bool {
        keys_unique(self.vcs@)
    }

    /// The credential record filed under `id`, if any.
    pub open spec fn vc(&self, id: Seq<char>) -> Option<VerifiableCredential> {
        spec_find(self.vcs@, id)
    }

    /// True when `a` is in the issuer allow-list.
    pub open spec fn has_issuer(&self, a: Address) -> bool {
        self.issuers@.contains(a)
    }

    /// The legacy credential vector as a sequence, if one is present.
    pub open spec fn legacy_view(&self) -> Option<Seq<VerifiableCredential>> {
        match self.legacy_vcs {
            Option::None => None,
            Option::Some(v) => Some(v@),
        }
    }

    /// A fresh vault: the owner is its admin, no issuers, no records.
    pub fn new(owner: Address, did_uri: String) -> (r: Vault)
        ensures
            r.admin == owner,
            r.did_uri@ == did_uri@,
            !r.revoked,
            r.issuers@ == Seq::<Address>::empty(),
            r.vcs@ == Seq::<VerifiableCredential>::empty(),
            r.legacy_view() is None,
            r.wf(),
    {
        Vault {
            admin: owner,
            did_uri,
            revoked: false,
            issuers: Vec::new(),
            vcs: Vec::new(),
            legacy_vcs: None,
        }
    }
}

/// Two vaults that differ at most in their issuer allow-list.
pub open spec fn same_but_issuers(a: Vault, b: Vault) -> bool {
    &&& b.admin == a.admin
    &&& b.did_uri@ == a.did_uri@
    &&& b.revoked == a.revoked
    &&& b.vcs@ == a.vcs@
    &&& b.legacy_view() == a.legacy_view()
}

/// Two vaults that differ at most in their credential records.
pub open spec fn same_but_vcs(a: Vault, b: Vault) -> bool {
    &&& b.admin == a.admin
    &&& b.did_uri@ == a.did_uri@
    &&& b.revoked == a.revoked
    &&& b.issuers@ == a.issuers@
    &&& b.legacy_view() == a.legacy_view()
}

/// Two vaults that differ at most in their admin.
pub open spec fn same_but_admin(a: Vault, b: Vault) -> bool {
    &&& b.did_uri@ == a.did_uri@
    &&& b.revoked == a.revoked
    &&& b.issuers@ == a.issuers@
    &&& b.vcs@ == a.vcs@
    &&& b.legacy_view() == a.legacy_view()
}

/// Two vaults that differ at most in the revoked flag.
pub open spec fn same_but_revoked(a: Vault, b: Vault) -> bool {
    &&& b.admin == a.admin
    &&& b.did_uri@ == a.did_uri@
    &&& b.issuers@ == a.issuers@
    &&& b.vcs@ == a.vcs@
    &&& b.legacy_view() == a.legacy_view()
}

/// Two vaults that differ at most in the legacy vector.
pub open spec fn same_but_legacy(a: Vault, b: Vault) -> bool {
    &&& b.admin == a.admin
    &&& b.did_uri@ == a.did_uri@
    &&& b.revoked == a.revoked
    &&& b.issuers@ == a.issuers@
    &&& b.vcs@ == a.vcs@
}

/// Two vaults that differ at most in credential records and legacy vector.
pub open spec fn same_but_records(a: Vault, b: Vault) -> bool {
    &&& b.admin == a.admin
    &&& b.did_uri@ == a.did_uri@
    &&& b.revoked == a.revoked
    &&& b.issuers@ == a.issuers@
}

/// No two vault table entries share an owner.
pub open spec fn vault_keys_unique(s: Seq<(Address, Vault)>) -> bool {
    forall|i: int, j: int| 0 <= i < j < s.len() ==> s[i].0 != s[j].0
}

/// The vault of `owner` in the table, scanning from the front.
pub open spec fn spec_vault_find(s: Seq<(Address, Vault)>, owner: Address) -> Option<Vault>
    decreases s.len(),
{
    if s.len() == 0 {
        None
    } else if s[0].0 == owner {
        Some(s[0].1)
    } else {
        spec_vault_find(s.drop_first(), owner)
    }
}

/// The position of `owner`'s entry (meaningful only when `spec_vault_find`
/// is `Some`).
pub open spec fn spec_vault_index(s: Seq<(Address, Vault)>, owner: Address) -> int
    decreases s.len(),
{
    if s.len() == 0 {
        0
    } else if s[0].0 == owner {
        0
    } else {
        1 + spec_vault_index(s.drop_first(), owner)
    }
}

/// What a table scan says: the vault found sits at the first matching
/// entry, and a failed scan means no entry matches.
pub proof fn lemma_vault_find_props(s: Seq<(Address, Vault)>, owner: Address)
    ensures
        match spec_vault_find(s, owner) {
            Some(v) => {
                let i = spec_vault_index(s, owner);
                &&& 0 <= i < s.len()
                &&& s[i].0 == owner
                &&& s[i].1 == v
                &&& forall|j: int| 0 <= j < i ==> s[j].0 != owner
            },
            None => forall|j: int| 0 <= j < s.len() ==> s[j].0 != owner,
        },
    decreases s.len(),
{
    if s.len() > 0 && s[0].0 != owner {
        let d = s.drop_first();
        lemma_vault_find_props(d, owner);
        assert(forall|j: int| 0 <= j < d.len() ==> d[j] == s[j + 1]);
        match spec_vault_find(s, owner) {
            Some(_) => {
                let i = spec_vault_index(s, owner);
                assert(i == 1 + spec_vault_index(d, owner));
                assert(s[i] == d[i - 1]);
                assert forall|j: int| 0 <= j < i implies s[j].0 != owner by {
                    if j > 0 {
                        assert(d[j - 1].0 != owner);
                    }
                }
            },
            None => {
                assert forall|j: int| 0 <= j < s.len() implies s[j].0 != owner by {
                    if j > 0 {
                        assert(d[j - 1].0 != owner);
                    }
                }
            },
        }
    }
}

/// A first matching entry at `i` determines the scan's result.
pub proof fn lemma_vault_find_at(s: Seq<(Address, Vault)>, owner: Address, i: int)
    requires
        0 <= i < s.len(),
        s[i].0 == owner,
        forall|j: int| 0 <= j < i ==> s[j].0 != owner,
    ensures
        spec_vault_find(s, owner) == Some(s[i].1),
        spec_vault_index(s, owner) == i,
{
    lemma_vault_find_props(s, owner);
    match spec_vault_find(s, owner) {
        Some(_) => {
            let f = spec_vault_index(s, owner);
            if f < i {
                assert(s[f].0 != owner);
            }
            if i < f {
                assert(s[i].0 != owner);
            }
        },
        None => {
            assert(s[i].0 != owner);
        },
    }
}

/// Replacing the vault of entry `i`, key kept, changes only that owner's
/// scan.
pub proof fn lemma_vault_find_update(s: Seq<(Address, Vault)>, i: int, v: Vault, o2: Address)
    requires
        0 <= i < s.len(),
        forall|j: int| 0 <= j < i ==> s[j].0 != s[i].0,
    ensures
        spec_vault_find(s.update(i, (s[i].0, v)), o2) == if o2 == s[i].0 {
            Some(v)
        } else {
            spec_vault_find(s, o2)
        },
        spec_vault_index(s.update(i, (s[i].0, v)), o2) == spec_vault_index(s, o2),
    decreases s.len(),
{
    let t = s.update(i, (s[i].0, v));
    if i == 0 {
        assert(t[0] == (s[0].0, v));
        if o2 != s[0].0 {
            assert(t.drop_first() =~= s.drop_first());
        }
    } else {
        assert(t[0] == s[0]);
        assert(s[0].0 != s[i].0);
        if o2 == s[0].0 {
        } else {
            assert(t.drop_first() =~= s.drop_first().update(i - 1, (s[i].0, v)));
            assert(s.drop_first()[i - 1] == s[i]);
            lemma_vault_find_update(s.drop_first(), i - 1, v, o2);
        }
    }
}

/// Appending a fresh owner's entry changes only that owner's scan.
pub proof fn lemma_vault_find_push(s: Seq<(Address, Vault)>, k: Address, v: Vault, o2: Address)
    ensures
        spec_vault_find(s.push((k, v)), o2) == if spec_vault_find(s, o2) is Some {
            spec_vault_find(s, o2)
        } else if o2 == k {
            Some(v)
        } else {
            None::<Vault>
        },
    decreases s.len(),
{
    let t = s.push((k, v));
    if s.len() == 0 {
        assert(t[0] == (k, v));
        assert(t.drop_first() =~= Seq::<(Address, Vault)>::empty());
    } else {
        assert(t[0] == s[0]);
        assert(t.drop_first() =~= s.drop_first().push((k, v)));
        if s[0].0 == o2 {
            assert(spec_vault_find(s, o2) == Some(s[0].1));
            assert(spec_vault_find(t, o2) == Some(t[0].1));
        } else {
            lemma_vault_find_push(s.drop_first(), k, v, o2);
            assert(spec_vault_find(t, o2) == spec_vault_find(t.drop_first(), o2));
            assert(spec_vault_find(s, o2) == spec_vault_find(s.drop_first(), o2));
        }
    }
}

/// Replacing the vault of entry `i`, key kept: only that owner's scan
/// changes, and owners stay unique.
pub proof fn lemma_vault_table_update(s: Seq<(Address, Vault)>, i: int, v: Vault)
    requires
        vault_keys_unique(s),
        0 <= i < s.len(),
    ensures
        vault_keys_unique(s.update(i, (s[i].0, v))),
        spec_vault_find(s.update(i, (s[i].0, v)), s[i].0) == Some(v),
        forall|o: Address|
            o != s[i].0 ==> spec_vault_find(s.update(i, (s[i].0, v)), o) == spec_vault_find(s, o),
{
    let t = s.update(i, (s[i].0, v));
    lemma_vault_find_update(s, i, v, s[i].0);
    assert forall|o: Address| o != s[i].0 implies spec_vault_find(t, o) == spec_vault_find(
        s,
        o,
    ) by {
        lemma_vault_find_update(s, i, v, o);
    }
    assert forall|a: int, b: int| 0 <= a < b < t.len() implies t[a].0 != t[b].0 by {
        assert(t[a].0 == s[a].0);
        assert(t[b].0 == s[b].0);
    }
}

/// Appending a fresh owner's entry: only that owner's scan changes, and
/// owners stay unique.
pub proof fn lemma_vault_table_push(s: Seq<(Address, Vault)>, k: Address, v: Vault)
    requires
        vault_keys_unique(s),
        spec_vault_find(s, k) is None,
    ensures
        vault_keys_unique(s.push((k, v))),
        spec_vault_find(s.push((k, v)), k) == Some(v),
        forall|o: Address| o != k ==> spec_vault_find(s.push((k, v)), o) == spec_vault_find(s, o),
{
    let t = s.push((k, v));
    lemma_vault_find_props(s, k);
    lemma_vault_find_push(s, k, v, k);
    assert forall|o: Address| o != k implies spec_vault_find(t, o) == spec_vault_find(s, o) by {
        lemma_vault_find_push(s, k, v, o);
    }
    assert forall|a: int, b: int| 0 <= a < b < t.len() implies t[a].0 != t[b].0 by {
        assert(t[a] == s[a]);
        if b < s.len() {
            assert(t[b] == s[b]);
        } else {
            assert(t[b] == (k, v));
            assert(s[a].0 != k);
        }
    }
}

/// The position of `owner`'s entry in the vault table, or `None`.
pub fn vault_index_of(v: &Vec<(Address, Vault)>, owner: Address) -> (r: Option<usize>)
    ensures
        match r {
            Some(i) => {
                &&& i < v@.len()
                &&& v@[i as int].0 == owner
                &&& forall|j: int| 0 <= j < i ==> v@[j].0 != owner
                &&& spec_vault_find(v@, owner) == Some(v@[i as int].1)
                &&& spec_vault_index(v@, owner) == i as int
            },
            None => spec_vault_find(v@, owner) is None,
        },
{
    let n = v.len();
    let mut i: usize = 0;
    while i < n
        invariant
            i <= n,
            n == v@.len(),
            forall|j: int| 0 <= j < i ==> v@[j].0 != owner,
        decreases n - i,
    {
        if v[i].0 == owner {
            proof {
                lemma_vault_find_at(v@, owner, i as int);
            }
            return Some(i);
        }
        i = i + 1;
    }
    proof {
        lemma_vault_find_none(v@, owner);
    }
    None
}

/// With no matching entry, the scan fails.
pub proof fn lemma_vault_find_none(s: Seq<(Address, Vault)>, owner: Address)
    requires
        forall|j: int| 0 <= j < s.len() ==> s[j].0 != owner,
    ensures
        spec_vault_find(s, owner) is None,
{
    lemma_vault_find_props(s, owner);
    if spec_vault_find(s, owner) is Some {
        let i = spec_vault_index(s, owner);
        assert(s[i].0 != owner);
    }
}

} // verus!
