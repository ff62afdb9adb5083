use vstd::prelude::*;
use crate::assoc::{find_key, index_of, keys_distinct, keys_of, lemma_index_of_from, lemma_index_of_push, lemma_index_of_same};

verus! {

/// The parameters of an action: named string values, each name at most once.
#[derive(Debug)]
pub struct ParamMap {
    entries: Vec<(String, String)>,
}

/// The entries as `(name, value)` character sequences.
pub open spec fn pair_views(v: Seq<(String, String)>) -> Seq<(Seq<char>, Seq<char>)> {
    v.map_values(|p: (String, String)| (p.0@, p.1@))
}

/// The names of a list of entries.
pub open spec fn pair_keys(s: Seq<(Seq<char>, Seq<char>)>) -> Seq<Seq<char>> {
    s.map_values(|p: (Seq<char>, Seq<char>)| p.0)
}

/// The value stored under `k`, if any.
pub open spec fn lookup(s: Seq<(Seq<char>, Seq<char>)>, k: Seq<char>) -> Option<Seq<char>> {
    match index_of(pair_keys(s), k) {
        Some(i) => Some(s[i].1),
        None => None,
    }
}

/// The entries after storing `v` under `k`: an entry with that name is
/// replaced in place, otherwise the entry goes at the end.
pub open spec fn insert_pair(s: Seq<(Seq<char>, Seq<char>)>, k: Seq<char>, v: Seq<char>) -> Seq<(Seq<char>, Seq<char>)> {
    match index_of(pair_keys(s), k) {
        Some(i) => s.update(i, (k, v)),
        None => s.push((k, v)),
    }
}

/// The entries after storing each pair of `s`, in order, into an empty map.
pub open spec fn insert_all(s: Seq<(Seq<char>, Seq<char>)>) -> Seq<(Seq<char>, Seq<char>)>
    decreases s.len(),
{
    if s.len() == 0 {
        seq![]
    } else {
        insert_pair(insert_all(s.drop_last()), s.last().0, s.last().1)
    }
}

impl View for ParamMap {
    type V = Seq<(Seq<char>, Seq<char>)>;

    closed spec fn view(&self) -> Seq<(Seq<char>, Seq<char>)> {
        pair_views(self.entries@)
    }
}

proof fn lemma_keys_agree(v: Seq<(String, String)>)
    ensures
        keys_of(v) == pair_keys(pair_views(v)),
{
    assert(keys_of(v) =~= pair_keys(pair_views(v)));
}

pub proof fn lemma_insert_keeps_distinct(s: Seq<(Seq<char>, Seq<char>)>, k: Seq<char>, v: Seq<char>)
    requires
        keys_distinct(pair_keys(s)),
    ensures
        keys_distinct(pair_keys(insert_pair(s, k, v))),
{
    lemma_index_of_from(pair_keys(s), k, 0);
    let r = insert_pair(s, k, v);
    assert forall|i: int, j: int| 0 <= i < j < pair_keys(r).len() implies pair_keys(r)[i] != pair_keys(r)[j] by {
        assert(pair_keys(s).len() == s.len());
        if index_of(pair_keys(s), k) is None {
            if j == s.len() {
                assert(pair_keys(s)[i] == s[i].0);
            } else {
                assert(pair_keys(s)[i] != pair_keys(s)[j]);
            }
        } else {
            assert(pair_keys(s)[i] != pair_keys(s)[j]);
        }
    }
}

/// Storing a value under a name and then reading that name gives the value
/// back; every other name reads as it did before.
pub proof fn law_param_read_after_write(s: Seq<(Seq<char>, Seq<char>)>, k: Seq<char>, v: Seq<char>, other: Seq<char>)
    requires
        other != k,
    ensures
        lookup(insert_pair(s, k, v), k) == Some(v),
        lookup(insert_pair(s, k, v), other) == lookup(s, other),
{
    let keys = pair_keys(s);
    let r = insert_pair(s, k, v);
    lemma_index_of_from(keys, k, 0);
    lemma_index_of_from(keys, other, 0);
    match index_of(keys, k) {
        Some(i) => {
            assert(pair_keys(r) =~= keys.update(i, k));
            lemma_index_of_same(pair_keys(r), keys, k);
            lemma_index_of_same(pair_keys(r), keys, other);
            if let Some(j) = index_of(keys, other) {
                assert(keys[j] == other);
                assert(j != i);
                assert(r[j] == s[j]);
            }
        },
        None => {
            assert(pair_keys(r) =~= keys.push(k));
            lemma_index_of_push(keys, k, other);
            lemma_index_of_from(pair_keys(r), k, 0);
            assert(pair_keys(r)[keys.len() as int] == k);
            if let Some(j) = index_of(keys, other) {
                assert(r[j] == s[j]);
            }
        },
    }
}

impl ParamMap {
    #[verifier::type_invariant]
    spec fn distinct_names(&self) -> bool {
        keys_distinct(pair_keys(self@))
    }

    /// An empty parameter map.
    pub fn new() -> (r: ParamMap)
        ensures
            r@ == Seq::<(Seq<char>, Seq<char>)>::empty(),
    {
        let r = ParamMap { entries: Vec::new() };
        assert(r@ =~= Seq::<(Seq<char>, Seq<char>)>::empty());
        r
    }

    /// Stores `v` under `k`, replacing what was stored there before.
    pub fn insert(&mut self, k: String, v: String)
        ensures
            final(self)@ == insert_pair(old(self)@, k@, v@),
    {
        proof {
            use_type_invariant(&*self);
            lemma_keys_agree(self.entries@);
            lemma_insert_keeps_distinct(self@, k@, v@);
        }
        let idx = find_key(&self.entries, k.as_str());
        let mut entries: Vec<(String, String)> = Vec::new();
        std::mem::swap(&mut entries, &mut self.entries);
        let ghost old_entries = entries@;
        proof { lemma_index_of_from(keys_of(old_entries), k@, 0); }
        match idx {
            Some(i) => {
                entries.set(i, (k, v));
                assert(pair_views(entries@) =~= insert_pair(pair_views(old_entries), k@, v@));
            },
            None => {
                entries.push((k, v));
                assert(pair_views(entries@) =~= insert_pair(pair_views(old_entries), k@, v@));
            },
        }
        self.entries = entries;
    }

    /// The value stored under `k`, if any.
    pub fn get(&self, k: &str) -> (r: Option<&String>)
        ensures
            r matches Some(x) ==> lookup(self@, k@) == Some(x@),
            r is None ==> lookup(self@, k@) is None,
    {
        proof {
            lemma_keys_agree(self.entries@);
            lemma_index_of_from(keys_of(self.entries@), k@, 0);
        }
        match find_key(&self.entries, k) {
            Some(i) => Some(&self.entries[i].1),
            None => None,
        }
    }

    /// The entries, in the order their names were first stored.
    pub fn entries(&self) -> (r: &Vec<(String, String)>)
        ensures
            pair_views(r@) == self@,
    {
        &self.entries
    }

    /// The number of entries.
    pub fn len(&self) -> (r: usize)
        ensures
            r == self@.len(),
    {
        self.entries.len()
    }

    /// A copy of the map.
    pub fn duplicate(&self) -> (r: ParamMap)
        ensures
            r@ == self@,
    {
        proof { use_type_invariant(self); }
        let mut out: Vec<(String, String)> = Vec::new();
        let mut i: usize = 0;
        while i < self.entries.len()
            invariant
                i <= self.entries.len(),
                pair_views(out@) == pair_views(self.entries@).take(i as int),
            decreases self.entries.len() - i,
        {
            let k = self.entries[i].0.clone();
            let v = self.entries[i].1.clone();
            assert(k == self.entries@[i as int].0 && v == self.entries@[i as int].1);
            let ghost before = out@;
            out.push((k, v));
            assert(out@ == before.push(self.entries@[i as int]));
            assert(pair_views(out@) =~= pair_views(before).push(pair_views(self.entries@)[i as int]));
            assert(pair_views(self.entries@).take(i + 1) =~= pair_views(self.entries@).take(i as int).push(pair_views(self.entries@)[i as int]));
            i += 1;
        }
        assert(pair_views(self.entries@).take(i as int) =~= pair_views(self.entries@));
        ParamMap { entries: out }
    }
}

impl Clone for ParamMap {
    fn clone(&self) -> (r: Self)
        ensures
            r@ == self@,
    {
        self.duplicate()
    }
}

} // verus!
