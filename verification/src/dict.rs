//! Small verified containers over strings: a membership list used for the
//! per-frame click and change sets, and an association list used for the
//! event data a frame carries.

use vstd::prelude::*;
use crate::keyed::{key_index, lemma_key_index, lemma_key_index_at, lemma_key_index_push};
use crate::strutil::{str_eq, views_of};

verus! {

/// Whether a string list contains k.
pub open spec fn contains_str(s: Seq<String>, k: Seq<char>) -> bool {
    key_index(views_of(s), k) >= 0
}

/// The keys of an association list.
pub open spec fn kv_keys(s: Seq<(String, String)>) -> Seq<Seq<char>> {
    s.map_values(|p: (String, String)| p.0@)
}

/// The value recorded for k, if any.
pub open spec fn kv_value(s: Seq<(String, String)>, k: Seq<char>) -> Option<Seq<char>> {
    let i = key_index(kv_keys(s), k);
    if i >= 0 {
        Some(s[i].1@)
    } else {
        None
    }
}

/// Whether a string list contains k.
pub fn list_contains(v: &Vec<String>, k: &str) -> (r: bool)
    ensures
        r == contains_str(v@, k@),
{
    let n = v.len();
    let mut i: usize = 0;
    while i < n
        invariant
            n == v@.len(),
            i <= n,
            forall|j: int| 0 <= j < i ==> views_of(v@)[j] != k@,
        decreases n - i,
    {
        if str_eq(v[i].as_str(), k) {
            proof {
                lemma_key_index_at(views_of(v@), k@, i as int);
            }
            return true;
        }
        i += 1;
    }
    proof {
        lemma_key_index(views_of(v@), k@);
        let r = key_index(views_of(v@), k@);
        if r >= 0 {
            assert(views_of(v@)[r] != k@);
        }
    }
    false
}

/// Add k to a membership list if it is not yet there.
pub fn list_insert(v: &mut Vec<String>, k: &str)
    ensures
        forall|q: Seq<char>| contains_str(final(v)@, q) <==> (contains_str(old(v)@, q) || q
            == k@),
{
    if !list_contains(v, k) {
        v.push(k.to_owned());
        proof {
            assert(views_of(v@) =~= views_of(old(v)@).push(k@));
            assert forall|q: Seq<char>|
                contains_str(v@, q) <==> (contains_str(old(v)@, q) || q == k@) by {
                lemma_key_index_push(views_of(old(v)@), q, k@);
                lemma_key_index(views_of(old(v)@), q);
                lemma_key_index(views_of(v@), q);
                if q == k@ && key_index(views_of(old(v)@), q) == -1 {
                    lemma_key_index_at(views_of(v@), q, old(v)@.len() as int);
                }
            }
        }
    }
}

/// The value recorded for k, if any.
pub fn kv_get<'a>(v: &'a Vec<(String, String)>, k: &str) -> (r: Option<&'a String>)
    ensures
        match r {
            Some(s) => kv_value(v@, k@) == Some(s@),
            None => kv_value(v@, k@) is None,
        },
{
    let n = v.len();
    let mut i: usize = 0;
    while i < n
        invariant
            n == v@.len(),
            i <= n,
            forall|j: int| 0 <= j < i ==> kv_keys(v@)[j] != k@,
        decreases n - i,
    {
        if str_eq(v[i].0.as_str(), k) {
            proof {
                lemma_key_index_at(kv_keys(v@), k@, i as int);
            }
            return Some(&v[i].1);
        }
        i += 1;
    }
    proof {
        lemma_key_index(kv_keys(v@), k@);
        let r = key_index(kv_keys(v@), k@);
        if r >= 0 {
            assert(kv_keys(v@)[r] != k@);
        }
    }
    None
}

/// Record value under k, replacing any earlier record.
pub fn kv_put(v: &mut Vec<(String, String)>, k: &str, value: &str)
    ensures
        kv_value(final(v)@, k@) == Some(value@),
        forall|q: Seq<char>| q != k@ ==> kv_value(final(v)@, q) == kv_value(old(v)@, q),
{
    let n = v.len();
    let mut i: usize = 0;
    while i < n
        invariant
            n == v@.len(),
            i <= n,
            *v == *old(v),
            forall|j: int| 0 <= j < i ==> kv_keys(v@)[j] != k@,
        decreases n - i,
    {
        if str_eq(v[i].0.as_str(), k) {
            proof {
                lemma_key_index_at(kv_keys(old(v)@), k@, i as int);
            }
            let slot = &mut v[i];
            *slot = (k.to_owned(), value.to_owned());
            proof {
                assert(kv_keys(v@) =~= kv_keys(old(v)@));
                lemma_key_index_at(kv_keys(v@), k@, i as int);
                assert forall|q: Seq<char>|
                    q != k@ implies kv_value(v@, q) == kv_value(old(v)@, q) by {
                    lemma_key_index(kv_keys(old(v)@), q);
                    let r = key_index(kv_keys(old(v)@), q);
                    if r >= 0 {
                        assert(kv_keys(old(v)@)[r] == q);
                        assert(r != i);
                    }
                }
            }
            return;
        }
        i += 1;
    }
    proof {
        lemma_key_index(kv_keys(old(v)@), k@);
        let r = key_index(kv_keys(old(v)@), k@);
        if r >= 0 {
            assert(kv_keys(old(v)@)[r] != k@);
        }
    }
    v.push((k.to_owned(), value.to_owned()));
    proof {
        assert(kv_keys(v@) =~= kv_keys(old(v)@).push(k@));
        lemma_key_index_at(kv_keys(v@), k@, old(v)@.len() as int);
        assert forall|q: Seq<char>| q != k@ implies kv_value(v@, q) == kv_value(old(v)@, q) by {
            lemma_key_index_push(kv_keys(old(v)@), q, k@);
            lemma_key_index(kv_keys(old(v)@), q);
        }
    }
}


/// The position of the first string equal to k, if any.
pub fn index_of_string(v: &Vec<String>, k: &str) -> (r: Option<usize>)
    ensures
        match r {
            Some(i) => key_index(views_of(v@), k@) == i,
            None => key_index(views_of(v@), k@) == -1,
        },
{
    let n = v.len();
    let mut i: usize = 0;
    while i < n
        invariant
            n == v@.len(),
            i <= n,
            forall|j: int| 0 <= j < i ==> views_of(v@)[j] != k@,
        decreases n - i,
    {
        if str_eq(v[i].as_str(), k) {
            proof {
                lemma_key_index_at(views_of(v@), k@, i as int);
            }
            return Some(i);
        }
        i += 1;
    }
    proof {
        lemma_key_index(views_of(v@), k@);
        let r = key_index(views_of(v@), k@);
        if r >= 0 {
            assert(views_of(v@)[r] != k@);
        }
    }
    None
}

} // verus!

