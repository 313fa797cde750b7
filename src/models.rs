//! The vault metadata record, single secrets, and the secret collection that
//! is encrypted as one payload.
use vstd::prelude::*;

use crate::error::VaultError;

verus! {

/// One entry of a vault's collection.
#[derive(Debug)]
pub struct Secret {
    pub key: String,
    pub value: String,
    /// Seconds since the epoch at first insertion.
    pub created_at: i64,
}

/// The metadata record of a vault, stored beside its encrypted blob.
#[derive(Debug)]
pub struct Vault {
    pub name: String,
    pub created_at: i64,
    pub updated_at: i64,
    /// Base64 of the salt text, fixed at creation.
    pub salt: String,
    /// Base64 of the nonce that produced the stored blob; absent until the
    /// vault is first written.
    pub nonce: Option<String>,
}

/// What a collection holds under a key: the value and its creation time.
pub open spec fn record_of(s: Secret) -> (Seq<char>, i64) {
    (s.value@, s.created_at)
}

/// No two entries share a key.
pub open spec fn keys_unique(s: Seq<Secret>) -> bool {
    forall|i: int, j: int|
        0 <= i < s.len() && 0 <= j < s.len() && i != j ==> (#[trigger] s[i]).key@ != (#[trigger] s[j]).key@
}

/// Some entry has key `k`.
pub open spec fn has_key(s: Seq<Secret>, k: Seq<char>) -> bool {
    exists|i: int| 0 <= i < s.len() && (#[trigger] s[i]).key@ == k
}

/// The mapping from key to record that a sequence of entries stands for.
pub open spec fn map_of(s: Seq<Secret>) -> Map<Seq<char>, (Seq<char>, i64)> {
    Map::new(
        |k: Seq<char>| has_key(s, k),
        |k: Seq<char>| record_of(s[choose|i: int| 0 <= i < s.len() && (#[trigger] s[i]).key@ == k]),
    )
}

proof fn lemma_map_entry(s: Seq<Secret>, i: int)
    requires
        keys_unique(s),
        0 <= i < s.len(),
    ensures
        map_of(s).contains_key(s[i].key@),
        map_of(s)[s[i].key@] == record_of(s[i]),
{
    let k = s[i].key@;
    assert(has_key(s, k));
    let j = choose|j: int| 0 <= j < s.len() && (#[trigger] s[j]).key@ == k;
    assert(s[j].key@ == k);
    assert(j == i);
}

proof fn lemma_map_char(s: Seq<Secret>, m: Map<Seq<char>, (Seq<char>, i64)>)
    requires
        keys_unique(s),
        forall|i: int|
            0 <= i < s.len() ==> m.contains_key((#[trigger] s[i]).key@) && m[s[i].key@] == record_of(s[i]),
        forall|k: Seq<char>| m.contains_key(k) ==> has_key(s, k),
    ensures
        map_of(s) == m,
{
    assert forall|k: Seq<char>|
        map_of(s).contains_key(k) == m.contains_key(k) && (m.contains_key(k) ==> map_of(s)[k] == m[k]) by {
        if has_key(s, k) {
            let i = choose|i: int| 0 <= i < s.len() && (#[trigger] s[i]).key@ == k;
            lemma_map_entry(s, i);
        }
    }
    assert(map_of(s) =~= m);
}

fn find_key(entries: &Vec<Secret>, key: &String) -> (r: Option<usize>)
    ensures
        match r {
            Some(i) => i < entries@.len() && entries@[i as int].key@ == key@,
            None => !has_key(entries@, key@),
        },
{
    let mut i: usize = 0;
    while i < entries.len()
        invariant
            i <= entries@.len(),
            forall|j: int| 0 <= j < i ==> (#[trigger] entries@[j]).key@ != key@,
        decreases entries@.len() - i,
    {
        if entries[i].key == *key {
            return Some(i);
        }
        i = i + 1;
    }
    None
}

/// A vault's secrets: keys are unique, order carries no meaning.
pub struct SecretCollection {
    entries: Vec<Secret>,
}

impl View for SecretCollection {
    type V = Map<Seq<char>, (Seq<char>, i64)>;

    closed spec fn view(&self) -> Self::V {
        map_of(self.entries@)
    }
}

impl SecretCollection {
    #[verifier::type_invariant]
    spec fn inv(&self) -> bool {
        keys_unique(self.entries@)
    }

    /// The empty collection.
    pub fn new() -> (r: SecretCollection)
        ensures
            r@ == Map::<Seq<char>, (Seq<char>, i64)>::empty(),
    {
        let r = SecretCollection { entries: Vec::new() };
        assert(map_of(r.entries@) =~= Map::<Seq<char>, (Seq<char>, i64)>::empty());
        r
    }

    /// Whether the collection holds no secret.
    pub fn is_empty(&self) -> (r: bool)
        ensures
            r <==> self@ == Map::<Seq<char>, (Seq<char>, i64)>::empty(),
    {
        proof {
            use_type_invariant(self);
            if self.entries@.len() == 0 {
                assert(map_of(self.entries@) =~= Map::<Seq<char>, (Seq<char>, i64)>::empty());
            } else {
                lemma_map_entry(self.entries@, 0);
            }
        }
        self.entries.len() == 0
    }

    /// The value stored under `key`, or `SecretNotFound`.
    pub fn lookup(&self, key: &str) -> (r: Result<String, VaultError>)
        ensures
            match r {
                Ok(v) => self@.contains_key(key@) && v@ == self@[key@].0,
                Err(e) => !self@.contains_key(key@) && e == VaultError::SecretNotFound,
            },
    {
        proof {
            use_type_invariant(self);
        }
        let k = key.to_owned();
        match find_key(&self.entries, &k) {
            Some(i) => {
                proof {
                    lemma_map_entry(self.entries@, i as int);
                }
                Ok(self.entries[i].value.clone())
            },
            None => Err(VaultError::SecretNotFound),
        }
    }
    /// Stores `secret` under its key, replacing whatever was there.
    pub fn insert(&mut self, secret: Secret)
        ensures
            final(self)@ == old(self)@.insert(secret.key@, record_of(secret)),
    {
        proof {
            use_type_invariant(&*self);
        }
        let mut entries = Vec::new();
        std::mem::swap(&mut self.entries, &mut entries);
        let ghost old_entries = entries@;
        let ghost k = secret.key@;
        let ghost m = map_of(old_entries).insert(k, record_of(secret));
        match find_key(&entries, &secret.key) {
            Some(i) => {
                entries.set(i, secret);
                proof {
                    let s = entries@;
                    assert forall|a: int| 0 <= a < s.len() && a != i implies s[a] == old_entries[a] by {}
                    assert(keys_unique(s)) by {
                        assert forall|a: int, b: int|
                            0 <= a < s.len() && 0 <= b < s.len() && a != b implies (#[trigger] s[a]).key@
                            != (#[trigger] s[b]).key@ by {
                            assert(old_entries[a].key@ != old_entries[b].key@);
                        }
                    }
                    assert forall|a: int| 0 <= a < s.len() implies m.contains_key((#[trigger] s[a]).key@)
                        && m[s[a].key@] == record_of(s[a]) by {
                        if a != i {
                            lemma_map_entry(old_entries, a);
                        }
                    }
                    assert forall|q: Seq<char>| m.contains_key(q) implies has_key(s, q) by {
                        if q != k {
                            let j = choose|j: int| 0 <= j < old_entries.len() && (#[trigger] old_entries[j]).key@ == q;
                            assert(s[j].key@ == q);
                        } else {
                            assert(s[i as int].key@ == q);
                        }
                    }
                    lemma_map_char(s, m);
                }
            },
            None => {
                entries.push(secret);
                proof {
                    let s = entries@;
                    let n = old_entries.len() as int;
                    assert forall|a: int| 0 <= a < n implies s[a] == old_entries[a] by {}
                    assert(keys_unique(s)) by {
                        assert forall|a: int, b: int|
                            0 <= a < s.len() && 0 <= b < s.len() && a != b implies (#[trigger] s[a]).key@
                            != (#[trigger] s[b]).key@ by {
                            if a < n && b < n {
                                assert(old_entries[a].key@ != old_entries[b].key@);
                            }
                        }
                    }
                    assert forall|a: int| 0 <= a < s.len() implies m.contains_key((#[trigger] s[a]).key@)
                        && m[s[a].key@] == record_of(s[a]) by {
                        if a < n {
                            lemma_map_entry(old_entries, a);
                        }
                    }
                    assert forall|q: Seq<char>| m.contains_key(q) implies has_key(s, q) by {
                        if q != k {
                            let j = choose|j: int| 0 <= j < old_entries.len() && (#[trigger] old_entries[j]).key@ == q;
                            assert(s[j].key@ == q);
                        } else {
                            assert(s[n].key@ == q);
                        }
                    }
                    lemma_map_char(s, m);
                }
            },
        }
        self.entries = entries;
    }

    /// Sets the value under `key`. A new key is stamped with `now`; an
    /// existing one keeps its creation time.
    pub fn set(&mut self, key: &str, value: &str, now: i64)
        ensures
            final(self)@ == old(self)@.insert(key@, set_record(old(self)@, key@, value@, now)),
    {
        proof {
            use_type_invariant(&*self);
        }
        let k = key.to_owned();
        let created_at = match find_key(&self.entries, &k) {
            Some(i) => {
                proof {
                    lemma_map_entry(self.entries@, i as int);
                }
                self.entries[i].created_at
            },
            None => now,
        };
        let secret = Secret { key: k, value: value.to_owned(), created_at };
        self.insert(secret);
    }

    /// Removes the entry under `key`, or fails with `SecretNotFound` and
    /// leaves the collection as it was.
    pub fn remove(&mut self, key: &str) -> (r: Result<(), VaultError>)
        ensures
            r is Ok <==> old(self)@.contains_key(key@),
            r matches Err(e) ==> e == VaultError::SecretNotFound,
            final(self)@ == old(self)@.remove(key@),
    {
        proof {
            use_type_invariant(&*self);
        }
        let k = key.to_owned();
        let ghost old_entries = self.entries@;
        let ghost m = map_of(old_entries).remove(k@);
        match find_key(&self.entries, &k) {
            Some(i) => {
                proof {
                    lemma_map_entry(old_entries, i as int);
                }
                let mut entries = Vec::new();
                std::mem::swap(&mut self.entries, &mut entries);
                entries.remove(i);
                proof {
                    let s = entries@;
                    assert(s == old_entries.remove(i as int));
                    assert(keys_unique(s)) by {
                        assert forall|a: int, b: int|
                            0 <= a < s.len() && 0 <= b < s.len() && a != b implies (#[trigger] s[a]).key@
                            != (#[trigger] s[b]).key@ by {
                            let a2 = if a < i { a } else { a + 1 };
                            let b2 = if b < i { b } else { b + 1 };
                            assert(s[a] == old_entries[a2]);
                            assert(s[b] == old_entries[b2]);
                            assert(old_entries[a2].key@ != old_entries[b2].key@);
                        }
                    }
                    assert forall|a: int| 0 <= a < s.len() implies m.contains_key((#[trigger] s[a]).key@)
                        && m[s[a].key@] == record_of(s[a]) by {
                        let a2 = if a < i { a } else { a + 1 };
                        assert(s[a] == old_entries[a2]);
                        assert(old_entries[a2].key@ != old_entries[i as int].key@);
                        lemma_map_entry(old_entries, a2);
                    }
                    assert forall|q: Seq<char>| m.contains_key(q) implies has_key(s, q) by {
                        let j = choose|j: int| 0 <= j < old_entries.len() && (#[trigger] old_entries[j]).key@ == q;
                        assert(j != i);
                        let j2 = if j < i { j } else { j - 1 };
                        assert(s[j2] == old_entries[j]);
                    }
                    lemma_map_char(s, m);
                }
                self.entries = entries;
                Ok(())
            },
            None => {
                proof {
                    assert(map_of(old_entries).remove(k@) =~= map_of(old_entries));
                }
                Err(VaultError::SecretNotFound)
            },
        }
    }

    /// The entries, each key once, for writing the collection out.
    pub fn entries(&self) -> (r: &Vec<Secret>)
        ensures
            keys_unique(r@),
            map_of(r@) == self@,
    {
        proof {
            use_type_invariant(self);
        }
        &self.entries
    }
}

/// The record that `set` stores: the new value, and the creation time of
/// the existing entry or `now` for a new one.
pub open spec fn set_record(m: Map<Seq<char>, (Seq<char>, i64)>, key: Seq<char>, value: Seq<char>, now: i64) -> (Seq<char>, i64) {
    (value, if m.contains_key(key) { m[key].1 } else { now })
}

} // verus!
