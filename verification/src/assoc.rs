use vstd::prelude::*;
use crate::text::{chars_eq, chars_of};

verus! {

/// The keys of a list of `(key, value)` entries, as character sequences.
pub open spec fn keys_of<V>(v: Seq<(String, V)>) -> Seq<Seq<char>> {
    v.map_values(|p: (String, V)| p.0@)
}

/// The first index at or after `i` whose key is `k`.
pub open spec fn index_of_from(keys: Seq<Seq<char>>, k: Seq<char>, i: int) -> Option<int>
    decreases keys.len() - i,
{
    if i < 0 || i >= keys.len() {
        None
    } else if keys[i] == k {
        Some(i)
    } else {
        index_of_from(keys, k, i + 1)
    }
}

/// The first index whose key is `k`.
pub open spec fn index_of(keys: Seq<Seq<char>>, k: Seq<char>) -> Option<int> {
    index_of_from(keys, k, 0)
}

/// No key occurs twice.
pub open spec fn keys_distinct(keys: Seq<Seq<char>>) -> bool {
    forall|i: int, j: int| 0 <= i < j < keys.len() ==> keys[i] != keys[j]
}

pub proof fn lemma_index_of_from(keys: Seq<Seq<char>>, k: Seq<char>, i: int)
    requires
        0 <= i,
    ensures
        index_of_from(keys, k, i) matches Some(j) ==> i <= j < keys.len() && keys[j] == k
            && forall|m: int| i <= m < j ==> keys[m] != k,
        index_of_from(keys, k, i) is None ==> forall|m: int| i <= m < keys.len() ==> keys[m] != k,
    decreases keys.len() - i,
{
    if i < keys.len() && keys[i] != k {
        lemma_index_of_from(keys, k, i + 1);
    }
}

/// Two key lists of one length that have `k` at the same places find it at the same index.
pub proof fn lemma_index_of_same(a: Seq<Seq<char>>, b: Seq<Seq<char>>, k: Seq<char>)
    requires
        a.len() == b.len(),
        forall|m: int| 0 <= m < a.len() ==> (a[m] == k) == (b[m] == k),
    ensures
        index_of(a, k) == index_of(b, k),
{
    lemma_index_of_from(a, k, 0);
    lemma_index_of_from(b, k, 0);
    match (index_of(a, k), index_of(b, k)) {
        (Some(i), Some(j)) => {
            if i < j {
                assert(b[i] == k);
            } else if j < i {
                assert(a[j] == k);
            }
        },
        (Some(i), None) => {
            assert(b[i] == k);
        },
        (None, Some(j)) => {
            assert(a[j] == k);
        },
        (None, None) => {},
    }
}

/// Adding a key at the end does not change where another key is found.
pub proof fn lemma_index_of_push(keys: Seq<Seq<char>>, k: Seq<char>, other: Seq<char>)
    requires
        other != k,
    ensures
        index_of(keys.push(k), other) == index_of(keys, other),
{
    let a = keys.push(k);
    lemma_index_of_from(keys, other, 0);
    lemma_index_of_from(a, other, 0);
    match (index_of(a, other), index_of(keys, other)) {
        (Some(i), Some(j)) => {
            if i < j {
                assert(keys[i] == a[i]);
            } else if j < i {
                assert(a[j] == keys[j]);
            }
        },
        (Some(i), None) => {
            assert(a[i] == keys[i]);
        },
        (None, Some(j)) => {
            assert(a[j] == keys[j]);
        },
        (None, None) => {},
    }
}

/// The index of the first entry of `v` whose key is `k`.
pub fn find_key<V>(v: &Vec<(String, V)>, k: &str) -> (r: Option<usize>)
    ensures
        r matches Some(i) ==> index_of(keys_of(v@), k@) == Some(i as int),
        r is None ==> index_of(keys_of(v@), k@) is None,
{
    let kc = chars_of(k);
    let mut i: usize = 0;
    while i < v.len()
        invariant
            i <= v.len(),
            kc@ == k@,
            index_of(keys_of(v@), k@) == index_of_from(keys_of(v@), k@, i as int),
        decreases v.len() - i,
    {
        let ec = chars_of(v[i].0.as_str());
        if chars_eq(&ec, &kc) {
            return Some(i);
        }
        i += 1;
    }
    None
}

/// Whether the list of strings holds `k`.
pub fn contains_string(v: &Vec<String>, k: &str) -> (r: bool)
    ensures
        r == v@.map_values(|s: String| s@).contains(k@),
{
    let kc = chars_of(k);
    let mut i: usize = 0;
    while i < v.len()
        invariant
            i <= v.len(),
            kc@ == k@,
            forall|j: int| 0 <= j < i ==> v@[j]@ != k@,
        decreases v.len() - i,
    {
        let ec = chars_of(v[i].as_str());
        if chars_eq(&ec, &kc) {
            assert(v@.map_values(|s: String| s@)[i as int] == k@);
            return true;
        }
        i += 1;
    }
    let ghost names = v@.map_values(|s: String| s@);
    assert forall|j: int| 0 <= j < names.len() implies #[trigger] names[j] != k@ by {}
    false
}

} // verus!
