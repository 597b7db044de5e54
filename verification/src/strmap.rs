//! A small string-keyed map kept as a vector of entries; a later insertion of
//! the same key shadows the earlier one, which mirrors how build steps
//! accumulate variable bindings.

use vstd::prelude::*;

verus! {

/// The map a sequence of entries denotes: later entries win.
pub open spec fn map_of<V>(s: Seq<(String, V)>) -> Map<Seq<char>, V>
    decreases s.len(),
{
    if s.len() == 0 {
        Map::empty()
    } else {
        map_of(s.drop_last()).insert(s.last().0@, s.last().1)
    }
}

pub proof fn lemma_map_of_dom<V>(s: Seq<(String, V)>, k: Seq<char>)
    ensures
        map_of(s).contains_key(k) <==> exists|j: int| 0 <= j < s.len() && s[j].0@ == k,
    decreases s.len(),
{
    if s.len() > 0 {
        lemma_map_of_dom(s.drop_last(), k);
        if s.last().0@ != k && map_of(s).contains_key(k) {
            let j = choose|j: int| 0 <= j < s.drop_last().len() && s.drop_last()[j].0@ == k;
            assert(s[j].0@ == k);
        }
        if exists|j: int| 0 <= j < s.len() && s[j].0@ == k {
            let j = choose|j: int| 0 <= j < s.len() && s[j].0@ == k;
            if j < s.len() - 1 {
                assert(s.drop_last()[j].0@ == k);
            }
        }
    }
}

pub proof fn lemma_map_of_last_match<V>(s: Seq<(String, V)>, k: Seq<char>, i: int)
    requires
        0 <= i < s.len(),
        s[i].0@ == k,
        forall|j: int| i < j < s.len() ==> s[j].0@ != k,
    ensures
        map_of(s).contains_key(k),
        map_of(s)[k] == s[i].1,
    decreases s.len(),
{
    if i < s.len() - 1 {
        assert(s.drop_last()[i].0@ == k);
        lemma_map_of_last_match(s.drop_last(), k, i);
    }
}

/// String-keyed map with shadowing inserts.
pub struct StrMap<V> {
    entries: Vec<(String, V)>,
}

impl<V> StrMap<V> {
    pub closed spec fn as_map(&self) -> Map<Seq<char>, V> {
        map_of(self.entries@)
    }

    pub fn new() -> (r: StrMap<V>)
        ensures
            r.as_map() == Map::<Seq<char>, V>::empty(),
    {
        StrMap { entries: Vec::new() }
    }

    pub fn insert(&mut self, k: String, v: V)
        ensures
            final(self).as_map() == old(self).as_map().insert(k@, v),
    {
        let ghost old_entries = self.entries@;
        let ghost kv = (k, v);
        self.entries.push((k, v));
        proof {
            assert(self.entries@.drop_last() =~= old_entries);
            assert(self.entries@.last() == kv);
        }
    }

    pub fn get(&self, k: &str) -> (r: Option<&V>)
        ensures
            match r {
                Some(v) => self.as_map().contains_key(k@) && *v == self.as_map()[k@],
                None => !self.as_map().contains_key(k@),
            },
    {
        let mut i = self.entries.len();
        while i > 0
            invariant
                i <= self.entries@.len(),
                forall|j: int| i <= j < self.entries@.len() ==> self.entries@[j].0@ != k@,
            decreases i,
        {
            i = i - 1;
            if crate::text::str_eq(self.entries[i].0.as_str(), k) {
                proof {
                    lemma_map_of_last_match(self.entries@, k@, i as int);
                }
                return Some(&self.entries[i].1);
            }
        }
        proof {
            lemma_map_of_dom(self.entries@, k@);
        }
        None
    }

    pub fn contains(&self, k: &str) -> (r: bool)
        ensures
            r == self.as_map().contains_key(k@),
    {
        self.get(k).is_some()
    }
}

} // verus!
