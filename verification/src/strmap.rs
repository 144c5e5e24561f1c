//! A string-keyed mapping to values, used both for the property table of an
//! object and for one entry of the scope stack.  It is stored as a vector of
//! pairs with pairwise distinct keys and viewed as a `Map` from character
//! sequences to value models.
use vstd::prelude::*;
use vstd::map::*;

use crate::value::{Value, ValueModel};

verus! {

/// The mapping a sequence of key/value pairs denotes: a later pair with the
/// same key would win, though well-formedness rules repetition out.
pub open spec fn assoc_map(s: Seq<(String, Value)>) -> Map<Seq<char>, ValueModel>
    decreases s.len(),
{
    if s.len() == 0 {
        Map::empty()
    } else {
        assoc_map(s.drop_last()).insert(s.last().0@, s.last().1@)
    }
}

/// A mutable mapping from string keys to values.
pub struct StrMap {
    entries: Vec<(String, Value)>,
}

impl View for StrMap {
    type V = Map<Seq<char>, ValueModel>;

    closed spec fn view(&self) -> Map<Seq<char>, ValueModel> {
        assoc_map(self.entries@)
    }
}

/// Every key occurs at most once.
pub open spec fn unique_keys(s: Seq<(String, Value)>) -> bool {
    forall|i: int, j: int| 0 <= i < j < s.len() ==> s[i].0@ != s[j].0@
}

proof fn lemma_assoc_contains(s: Seq<(String, Value)>, k: Seq<char>)
    ensures
        assoc_map(s).contains_key(k) <==> exists|i: int| 0 <= i < s.len() && s[i].0@ == k,
    decreases s.len(),
{
    if s.len() > 0 {
        lemma_assoc_contains(s.drop_last(), k);
        if assoc_map(s).contains_key(k) && s.last().0@ != k {
            let i = choose|i: int| 0 <= i < s.len() - 1 && s.drop_last()[i].0@ == k;
            assert(s[i].0@ == k);
        }
        if exists|i: int| 0 <= i < s.len() && s[i].0@ == k {
            let i = choose|i: int| 0 <= i < s.len() && s[i].0@ == k;
            if i < s.len() - 1 {
                assert(s.drop_last()[i].0@ == k);
            }
        }
    }
}

proof fn lemma_assoc_at(s: Seq<(String, Value)>, i: int)
    requires
        unique_keys(s),
        0 <= i < s.len(),
    ensures
        assoc_map(s).contains_key(s[i].0@),
        assoc_map(s)[s[i].0@] == s[i].1@,
    decreases s.len(),
{
    if i == s.len() - 1 {
    } else {
        assert(unique_keys(s.drop_last()));
        assert(s.drop_last()[i] == s[i]);
        lemma_assoc_at(s.drop_last(), i);
        assert(s.last().0@ != s[i].0@);
    }
}

proof fn lemma_assoc_update(s: Seq<(String, Value)>, i: int, p: (String, Value))
    requires
        unique_keys(s),
        0 <= i < s.len(),
        p.0@ == s[i].0@,
    ensures
        assoc_map(s.update(i, p)) =~= assoc_map(s).insert(p.0@, p.1@),
    decreases s.len(),
{
    let t = s.update(i, p);
    if i == s.len() - 1 {
        assert(t.drop_last() =~= s.drop_last());
    } else {
        assert(unique_keys(s.drop_last()));
        assert(s.drop_last()[i] == s[i]);
        assert(t.drop_last() =~= s.drop_last().update(i, p));
        lemma_assoc_update(s.drop_last(), i, p);
        assert(t.last() == s.last());
        assert(s.last().0@ != p.0@);
    }
}

impl StrMap {
    /// Every key occurs at most once in the backing vector.
    pub closed spec fn wf(&self) -> bool {
        unique_keys(self.entries@)
    }

    /// Creates the empty mapping.
    pub fn new() -> (r: StrMap)
        ensures
            r.wf(),
            r@ == Map::<Seq<char>, ValueModel>::empty(),
    {
        StrMap { entries: Vec::new() }
    }

    /// Looks a key up: the stored value, or nothing for a missing key.
    pub fn get(&self, key: &String) -> (r: Option<Value>)
        requires
            self.wf(),
        ensures
            match r {
                Some(v) => self@.contains_key(key@) && v@ == self@[key@],
                None => !self@.contains_key(key@),
            },
    {
        let n = self.entries.len();
        let mut i: usize = 0;
        while i < n
            invariant
                self.wf(),
                n == self.entries@.len(),
                i <= n,
                forall|j: int| 0 <= j < i ==> self.entries@[j].0@ != key@,
            decreases n - i,
        {
            if self.entries[i].0 == *key {
                proof {
                    lemma_assoc_at(self.entries@, i as int);
                }
                return Some(self.entries[i].1.clone());
            }
            i = i + 1;
        }
        proof {
            lemma_assoc_contains(self.entries@, key@);
        }
        None
    }

    /// Binds a key to a value, replacing any earlier binding of that key.
    pub fn insert(&mut self, key: String, value: Value)
        requires
            old(self).wf(),
        ensures
            final(self).wf(),
            final(self)@ == old(self)@.insert(key@, value@),
    {
        let n = self.entries.len();
        let mut i: usize = 0;
        while i < n
            invariant
                self.wf(),
                self.entries@ == old(self).entries@,
                n == self.entries@.len(),
                i <= n,
                forall|j: int| 0 <= j < i ==> self.entries@[j].0@ != key@,
            decreases n - i,
        {
            if self.entries[i].0 == *&key {
                proof {
                    lemma_assoc_update(self.entries@, i as int, (key, value));
                }
                self.entries[i] = (key, value);
                return ;
            }
            i = i + 1;
        }
        proof {
            lemma_assoc_contains(self.entries@, key@);
            assert(self.entries@.push((key, value)).drop_last() =~= self.entries@);
        }
        self.entries.push((key, value));
        proof {
            assert(unique_keys(self.entries@));
        }
    }
}

} // verus!
