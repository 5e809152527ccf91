//! Records filed under a string key, stored as a sequence and looked up by
//! a front-to-back scan. The registry keeps credential bodies and status
//! entries this way; the lemmas here relate a scan to the sequence edits
//! (update in place, insert at the front, push at the back, remove) that
//! the operations perform.

use vstd::prelude::*;

verus! {

/// A record stored under a string key.
pub trait Keyed: Sized {
    /// The key under which this record is filed.
    spec fn key(&self) -> Seq<char>;

    /// True when this record's key equals `id`.
    fn has_key(&self, id: &String) -> (r: bool)
        ensures
            r == (self.key() == id@),
    ;

    /// The record's own key.
    fn key_ref(&self) -> (s: &String)
        ensures
            s@ == self.key(),
    ;
}

/// The first record filed under `key`, scanning from the front.
pub open spec fn spec_find<T: Keyed>(s: Seq<T>, key: Seq<char>) -> Option<T>
    decreases s.len(),
{
    if s.len() == 0 {
        None
    } else if s[0].key() == key {
        Some(s[0])
    } else {
        spec_find(s.drop_first(), key)
    }
}

/// The position of the first record filed under `key` (meaningful only
/// when `spec_find` is `Some`).
pub open spec fn spec_first_index<T: Keyed>(s: Seq<T>, key: Seq<char>) -> int
    decreases s.len(),
{
    if s.len() == 0 {
        0
    } else if s[0].key() == key {
        0
    } else {
        1 + spec_first_index(s.drop_first(), key)
    }
}

/// No two records share a key.
pub open spec fn keys_unique<T: Keyed>(s: Seq<T>) -> bool {
    forall|i: int, j: int| 0 <= i < j < s.len() ==> s[i].key() != s[j].key()
}

/// What a successful scan says about the sequence: the record found is the
/// first match, and a failed scan means no record matches at all.
pub proof fn lemma_find_props<T: Keyed>(s: Seq<T>, key: Seq<char>)
    ensures
        match spec_find(s, key) {
            Some(r) => {
                let i = spec_first_index(s, key);
                &&& 0 <= i < s.len()
                &&& s[i] == r
                &&& r.key() == key
                &&& forall|j: int| 0 <= j < i ==> s[j].key() != key
            },
            None => forall|j: int| 0 <= j < s.len() ==> s[j].key() != key,
        },
    decreases s.len(),
{
    if s.len() > 0 && s[0].key() != key {
        let d = s.drop_first();
        lemma_find_props(d, key);
        assert(forall|j: int| 0 <= j < d.len() ==> d[j] == s[j + 1]);
        match spec_find(s, key) {
            Some(_) => {
                let i = spec_first_index(s, key);
                assert(i == 1 + spec_first_index(d, key));
                assert(s[i] == d[i - 1]);
                assert forall|j: int| 0 <= j < i implies s[j].key() != key by {
                    if j > 0 {
                        assert(d[j - 1].key() != key);
                    }
                }
            },
            None => {
                assert forall|j: int| 0 <= j < s.len() implies s[j].key() != key by {
                    if j > 0 {
                        assert(d[j - 1].key() != key);
                    }
                }
            },
        }
    }
}

/// A first match at `i` determines the scan's result.
pub proof fn lemma_find_at<T: Keyed>(s: Seq<T>, key: Seq<char>, i: int)
    requires
        0 <= i < s.len(),
        s[i].key() == key,
        forall|j: int| 0 <= j < i ==> s[j].key() != key,
    ensures
        spec_find(s, key) == Some(s[i]),
        spec_first_index(s, key) == i,
{
    lemma_find_props(s, key);
    match spec_find(s, key) {
        Some(_) => {
            let f = spec_first_index(s, key);
            if f < i {
                assert(s[f].key() != key);
            }
            if i < f {
                assert(s[i].key() != key);
            }
        },
        None => {
            assert(s[i].key() != key);
        },
    }
}

/// With no match anywhere, the scan fails.
pub proof fn lemma_find_none<T: Keyed>(s: Seq<T>, key: Seq<char>)
    requires
        forall|j: int| 0 <= j < s.len() ==> s[j].key() != key,
    ensures
        spec_find(s, key) is None,
{
    lemma_find_props(s, key);
    if spec_find(s, key) is Some {
        let i = spec_first_index(s, key);
        assert(s[i].key() != key);
    }
}

/// Overwriting the first record of a key, in place and under the same key,
/// changes only what that key's scan returns.
pub proof fn lemma_find_update<T: Keyed>(s: Seq<T>, i: int, r: T, key2: Seq<char>)
    requires
        0 <= i < s.len(),
        s[i].key() == r.key(),
        forall|j: int| 0 <= j < i ==> s[j].key() != r.key(),
    ensures
        spec_find(s.update(i, r), key2) == if key2 == r.key() {
            Some(r)
        } else {
            spec_find(s, key2)
        },
    decreases s.len(),
{
    let t = s.update(i, r);
    if i == 0 {
        assert(t[0] == r);
        if key2 != r.key() {
            assert(t.drop_first() =~= s.drop_first());
        }
    } else {
        assert(t[0] == s[0]);
        assert(s[0].key() != r.key());
        if key2 == s[0].key() {
        } else {
            assert(t.drop_first() =~= s.drop_first().update(i - 1, r));
            lemma_find_update(s.drop_first(), i - 1, r, key2);
        }
    }
}

/// Inserting a record at the front shadows nothing but its own key.
pub proof fn lemma_find_insert_front<T: Keyed>(s: Seq<T>, r: T, key2: Seq<char>)
    ensures
        spec_find(s.insert(0, r), key2) == if key2 == r.key() {
            Some(r)
        } else {
            spec_find(s, key2)
        },
{
    let t = s.insert(0, r);
    assert(t[0] == r);
    assert(t.drop_first() =~= s);
}

/// Pushing a record at the back changes a scan only for its own key, and
/// only when that key was absent.
pub proof fn lemma_find_push_back<T: Keyed>(s: Seq<T>, r: T, key2: Seq<char>)
    ensures
        spec_find(s.push(r), key2) == if spec_find(s, key2) is Some {
            spec_find(s, key2)
        } else if key2 == r.key() {
            Some(r)
        } else {
            None::<T>
        },
    decreases s.len(),
{
    let t = s.push(r);
    if s.len() == 0 {
        assert(t[0] == r);
        assert(t.drop_first() =~= Seq::<T>::empty());
    } else {
        assert(t[0] == s[0]);
        assert(t.drop_first() =~= s.drop_first().push(r));
        if s[0].key() != key2 {
            lemma_find_push_back(s.drop_first(), r, key2);
        }
    }
}

/// Removing the sole record of a key makes that key's scan fail.
pub proof fn lemma_find_remove_key<T: Keyed>(s: Seq<T>, i: int)
    requires
        0 <= i < s.len(),
        forall|j: int| 0 <= j < s.len() && j != i ==> s[j].key() != s[i].key(),
    ensures
        spec_find(s.remove(i), s[i].key()) is None,
{
    let t = s.remove(i);
    assert forall|j: int| 0 <= j < t.len() implies t[j].key() != s[i].key() by {
        if j < i {
            assert(t[j] == s[j]);
        } else {
            assert(t[j] == s[j + 1]);
        }
    }
    lemma_find_none(t, s[i].key());
}

/// Storing a record: an existing record under the same key is overwritten
/// in place; a new key goes to the front (most recently stored first).
pub open spec fn spec_upsert_front<T: Keyed>(s: Seq<T>, r: T) -> Seq<T> {
    if spec_find(s, r.key()) is Some {
        s.update(spec_first_index(s, r.key()), r)
    } else {
        s.insert(0, r)
    }
}

/// As `spec_upsert_front`, but a new key goes to the back.
pub open spec fn spec_upsert_back<T: Keyed>(s: Seq<T>, r: T) -> Seq<T> {
    if spec_find(s, r.key()) is Some {
        s.update(spec_first_index(s, r.key()), r)
    } else {
        s.push(r)
    }
}

/// Storing keeps keys unique and changes only its own key's scan.
pub proof fn lemma_upsert_front<T: Keyed>(s: Seq<T>, r: T, key2: Seq<char>)
    requires
        keys_unique(s),
    ensures
        keys_unique(spec_upsert_front(s, r)),
        spec_find(spec_upsert_front(s, r), key2) == if key2 == r.key() {
            Some(r)
        } else {
            spec_find(s, key2)
        },
        s.len() <= spec_upsert_front(s, r).len() <= s.len() + 1,
{
    lemma_find_props(s, r.key());
    if spec_find(s, r.key()) is Some {
        let i = spec_first_index(s, r.key());
        let t = s.update(i, r);
        lemma_find_update(s, i, r, key2);
        assert forall|a: int, b: int| 0 <= a < b < t.len() implies t[a].key() != t[b].key() by {
            assert(t[a].key() == s[a].key());
            assert(t[b].key() == s[b].key());
        }
    } else {
        let t = s.insert(0, r);
        lemma_find_insert_front(s, r, key2);
        assert(t[0] == r);
        assert(t.drop_first() =~= s);
        assert forall|a: int, b: int| 0 <= a < b < t.len() implies t[a].key() != t[b].key() by {
            assert(t[b] == s[b - 1]);
            if a == 0 {
                assert(s[b - 1].key() != r.key());
            } else {
                assert(t[a] == s[a - 1]);
            }
        }
    }
}

/// As `lemma_upsert_front`, for storing at the back.
pub proof fn lemma_upsert_back<T: Keyed>(s: Seq<T>, r: T, key2: Seq<char>)
    requires
        keys_unique(s),
    ensures
        keys_unique(spec_upsert_back(s, r)),
        spec_find(spec_upsert_back(s, r), key2) == if key2 == r.key() {
            Some(r)
        } else {
            spec_find(s, key2)
        },
        s.len() <= spec_upsert_back(s, r).len() <= s.len() + 1,
{
    lemma_find_props(s, r.key());
    if spec_find(s, r.key()) is Some {
        let i = spec_first_index(s, r.key());
        let t = s.update(i, r);
        lemma_find_update(s, i, r, key2);
        assert forall|a: int, b: int| 0 <= a < b < t.len() implies t[a].key() != t[b].key() by {
            assert(t[a].key() == s[a].key());
            assert(t[b].key() == s[b].key());
        }
    } else {
        let t = s.push(r);
        lemma_find_push_back(s, r, key2);
        assert forall|a: int, b: int| 0 <= a < b < t.len() implies t[a].key() != t[b].key() by {
            assert(t[a] == s[a]);
            if b < s.len() {
                assert(t[b] == s[b]);
            } else {
                assert(t[b] == r);
                assert(s[a].key() != r.key());
            }
        }
    }
}

/// Removing a record keeps keys unique.
pub proof fn lemma_keys_unique_remove<T: Keyed>(s: Seq<T>, i: int)
    requires
        keys_unique(s),
        0 <= i < s.len(),
    ensures
        keys_unique(s.remove(i)),
{
    let t = s.remove(i);
    assert forall|a: int, b: int| 0 <= a < b < t.len() implies t[a].key() != t[b].key() by {
        let a2 = if a < i { a } else { a + 1 };
        let b2 = if b < i { b } else { b + 1 };
        assert(t[a] == s[a2]);
        assert(t[b] == s[b2]);
    }
}

/// Stores `r`, overwriting the record under the same key or inserting at
/// the front.
pub fn upsert_front<T: Keyed>(v: &mut Vec<T>, r: T)
    ensures
        final(v)@ == spec_upsert_front(old(v)@, r),
{
    match find_index(v, r.key_ref()) {
        Some(i) => {
            let ghost s = v@;
            v.remove(i);
            v.insert(i, r);
            proof {
                assert(v@ =~= s.update(i as int, r));
            }
        },
        None => {
            v.insert(0, r);
        },
    }
}

/// Stores `r`, overwriting the record under the same key or pushing at the
/// back.
pub fn upsert_back<T: Keyed>(v: &mut Vec<T>, r: T)
    ensures
        final(v)@ == spec_upsert_back(old(v)@, r),
{
    match find_index(v, r.key_ref()) {
        Some(i) => {
            let ghost s = v@;
            v.remove(i);
            v.insert(i, r);
            proof {
                assert(v@ =~= s.update(i as int, r));
            }
        },
        None => {
            v.push(r);
        },
    }
}

/// The position of the first record filed under `id`, or `None` when no
/// record is.
pub fn find_index<T: Keyed>(v: &Vec<T>, id: &String) -> (r: Option<usize>)
    ensures
        match r {
            Some(i) => {
                &&& i < v@.len()
                &&& v@[i as int].key() == id@
                &&& forall|j: int| 0 <= j < i ==> v@[j].key() != id@
                &&& spec_find(v@, id@) == Some(v@[i as int])
                &&& spec_first_index(v@, id@) == i as int
            },
            None => spec_find(v@, id@) is None,
        },
{
    let n = v.len();
    let mut i: usize = 0;
    while i < n
        invariant
            i <= n,
            n == v@.len(),
            forall|j: int| 0 <= j < i ==> v@[j].key() != id@,
        decreases n - i,
    {
        if v[i].has_key(id) {
            proof {
                lemma_find_at(v@, id@, i as int);
            }
            return Some(i);
        }
        i = i + 1;
    }
    proof {
        lemma_find_none(v@, id@);
    }
    None
}

} // verus!
