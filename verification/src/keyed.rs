//! Reasoning support for sequences indexed by string keys. Every table in
//! this crate (stream tables, the shadow ledger, the instance registry) is a
//! vector of records carrying a key; these definitions give the position of
//! the first record with a given key and the facts the proofs need about it.

use vstd::prelude::*;

verus! {

/// Position of the first occurrence of k, or -1 if k does not occur.
pub open spec fn key_index(keys: Seq<Seq<char>>, k: Seq<char>) -> int
    decreases keys.len(),
{
    if keys.len() == 0 {
        -1
    } else if keys[0] == k {
        0
    } else {
        let r = key_index(keys.drop_first(), k);
        if r < 0 {
            -1
        } else {
            r + 1
        }
    }
}

/// No key occurs twice.
pub open spec fn distinct_keys(keys: Seq<Seq<char>>) -> bool {
    forall|i: int, j: int| 0 <= i < j < keys.len() ==> keys[i] != keys[j]
}

/// What key_index returns: a valid position holding k and preceded by no
/// other occurrence of k, or -1 when k is absent altogether.
pub proof fn lemma_key_index(keys: Seq<Seq<char>>, k: Seq<char>)
    ensures
        -1 <= key_index(keys, k) < keys.len(),
        key_index(keys, k) >= 0 ==> keys[key_index(keys, k)] == k,
        key_index(keys, k) >= 0 ==> forall|j: int| 0 <= j < key_index(keys, k) ==> keys[j] != k,
        key_index(keys, k) == -1 ==> forall|j: int| 0 <= j < keys.len() ==> keys[j] != k,
    decreases keys.len(),
{
    if keys.len() > 0 && keys[0] != k {
        lemma_key_index(keys.drop_first(), k);
        assert forall|j: int| 0 <= j < keys.len() && keys.drop_first() =~= keys.subrange(
            1,
            keys.len() as int,
        ) implies keys.drop_first()[j - 1] == keys[j] || j == 0 by {}
    }
}

/// key_index finds exactly the position whose earlier entries all miss k.
pub proof fn lemma_key_index_at(keys: Seq<Seq<char>>, k: Seq<char>, i: int)
    requires
        0 <= i < keys.len(),
        keys[i] == k,
        forall|j: int| 0 <= j < i ==> keys[j] != k,
    ensures
        key_index(keys, k) == i,
{
    lemma_key_index(keys, k);
    let r = key_index(keys, k);
    if r == -1 {
        assert(keys[i] != k);
    } else if r < i {
        assert(keys[r] != k);
    } else if r > i {
        assert(keys[i] != k);
    }
}

/// Appending a record with a fresh key leaves every other lookup unchanged
/// and makes the new key resolve to the appended position.
pub proof fn lemma_key_index_push(keys: Seq<Seq<char>>, k: Seq<char>, added: Seq<char>)
    ensures
        added == k && key_index(keys, k) == -1 ==> key_index(keys.push(added), k)
            == keys.len() as int,
        key_index(keys, k) >= 0 ==> key_index(keys.push(added), k) == key_index(keys, k),
        added != k && key_index(keys, k) == -1 ==> key_index(keys.push(added), k) == -1,
{
    lemma_key_index(keys, k);
    let r = key_index(keys, k);
    if r >= 0 {
        lemma_key_index_at(keys.push(added), k, r);
    } else if added == k {
        lemma_key_index_at(keys.push(added), k, keys.len() as int);
    } else {
        lemma_key_index(keys.push(added), k);
        let r2 = key_index(keys.push(added), k);
        if r2 >= 0 {
            if r2 < keys.len() {
                assert(keys[r2] != k);
            }
        }
    }
}


} // verus!
