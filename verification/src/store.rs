//! A verified key-to-module store used by the in-memory tiers: an
//! append-only association sequence where the most recent entry for a key
//! wins.  Lookups scan from the newest entry; an overwrite simply appends.
//! This favours the cache's read-heavy usage: `load` is called far more
//! often than `save`, and neither memory tier evicts.

use vstd::prelude::*;
use vstd::string::StringExecFns;

use crate::types::{Module, ModuleView};

verus! {

/// The mapping an association sequence denotes, later entries winning.
spec fn map_of(s: Seq<(String, Module)>) -> Map<Seq<char>, ModuleView>
    decreases s.len(),
{
    if s.len() == 0 {
        Map::empty()
    } else {
        map_of(s.drop_last()).insert(s.last().0@, s.last().1@)
    }
}

/// A key is in the denoted map exactly when some entry carries it.
proof fn lemma_map_of_dom(s: Seq<(String, Module)>, k: Seq<char>)
    ensures
        map_of(s).dom().contains(k) <==> exists|j: int| 0 <= j < s.len() && s[j].0@ == k,
    decreases s.len(),
{
    if s.len() == 0 {
    } else {
        lemma_map_of_dom(s.drop_last(), k);
        if s.last().0@ == k {
            assert(s[s.len() - 1].0@ == k);
        } else {
            if map_of(s).dom().contains(k) {
                let j = choose|j: int| 0 <= j < s.drop_last().len() && s.drop_last()[j].0@ == k;
                assert(s[j].0@ == k);
            }
            if exists|j: int| 0 <= j < s.len() && s[j].0@ == k {
                let j = choose|j: int| 0 <= j < s.len() && s[j].0@ == k;
                assert(j < s.len() - 1);
                assert(s.drop_last()[j].0@ == k);
            }
        }
    }
}

/// The denoted map takes a key's value from its newest entry.
proof fn lemma_map_of_get(s: Seq<(String, Module)>, i: int)
    requires
        0 <= i < s.len(),
        forall|j: int| i < j < s.len() ==> (#[trigger] s[j]).0@ != s[i].0@,
    ensures
        map_of(s).dom().contains(s[i].0@),
        map_of(s)[s[i].0@] == s[i].1@,
    decreases s.len(),
{
    if i == s.len() - 1 {
    } else {
        assert(s[s.len() - 1].0@ != s[i].0@);
        assert(s.drop_last()[i] == s[i]);
        let prefix = s.drop_last();
        assert forall|j: int|
            i < j < prefix.len() implies (#[trigger] prefix[j]).0@ != prefix[i].0@ by {
            assert(prefix[j] == s[j]);
        }
        lemma_map_of_get(s.drop_last(), i);
    }
}

/// An in-memory mapping from cache key to module.
#[derive(Debug)]
pub(crate) struct Store {
    entries: Vec<(String, Module)>,
}

impl View for Store {
    type V = Map<Seq<char>, ModuleView>;

    closed spec fn view(&self) -> Map<Seq<char>, ModuleView> {
        map_of(self.entries@)
    }
}

impl Store {
    pub fn new() -> (r: Store)
        ensures
            r@ == Map::<Seq<char>, ModuleView>::empty(),
    {
        let r = Store { entries: Vec::new() };
        proof {
            assert(r@ =~= Map::<Seq<char>, ModuleView>::empty());
        }
        r
    }

    /// Looks the key up; a plain scan, no I/O.
    pub fn get(&self, key: &str) -> (r: Option<&Module>)
        ensures
            match r {
                Some(m) => self@.dom().contains(key@) && m@ == self@[key@],
                None => !self@.dom().contains(key@),
            },
    {
        let owned: String = <String as StringExecFns>::from_str(key);
        let mut i = self.entries.len();
        while i > 0
            invariant
                i <= self.entries@.len(),
                owned@ == key@,
                forall|j: int|
                    i <= j < self.entries@.len() ==> (#[trigger] self.entries@[j]).0@ != key@,
            decreases i,
        {
            i = i - 1;
            if self.entries[i].0 == owned {
                proof {
                    lemma_map_of_get(self.entries@, i as int);
                }
                return Some(&self.entries[i].1);
            }
        }
        proof {
            lemma_map_of_dom(self.entries@, key@);
        }
        None
    }

    /// Inserts or overwrites the entry for the key.
    pub fn put(&mut self, key: &str, module: Module)
        ensures
            final(self)@ == old(self)@.insert(key@, module@),
    {
        let ghost m = module@;
        let owned: String = <String as StringExecFns>::from_str(key);
        self.entries.push((owned, module));
        proof {
            assert(self.entries@.drop_last() =~= old(self).entries@);
            assert(self.entries@.last().0@ == key@);
            assert(self.entries@.last().1@ == m);
        }
    }
}

} // verus!
