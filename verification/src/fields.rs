//! A small map from text to text, for the named fields of a diagnostic.
//!
//! It is a list of pairs, searched from the end. A diagnostic has a handful
//! of fields, and a list can be reasoned about with texts for keys.

use vstd::prelude::*;

verus! {

/// The map that a list of insertions builds, the later ones winning.
pub open spec fn map_of(entries: Seq<(String, String)>) -> Map<Seq<char>, Seq<char>>
    decreases entries.len(),
{
    if entries.len() == 0 {
        Map::empty()
    } else {
        map_of(entries.drop_last()).insert(entries.last().0@, entries.last().1@)
    }
}

/// If `key` was last inserted at index `i`, the map holds what was inserted
/// there; if it was never inserted (`i` is -1), the map does not hold it.
proof fn lemma_map_of_lookup(entries: Seq<(String, String)>, key: Seq<char>, i: int)
    requires
        -1 <= i < entries.len(),
        i >= 0 ==> entries[i].0@ == key,
        forall|j: int| i < j < entries.len() ==> entries[j].0@ != key,
    ensures
        i >= 0 ==> map_of(entries).contains_key(key) && map_of(entries)[key] == entries[i].1@,
        i < 0 ==> !map_of(entries).contains_key(key),
    decreases entries.len(),
{
    if entries.len() > 0 {
        let rest = entries.drop_last();
        if i < entries.len() - 1 {
            assert(entries[entries.len() - 1].0@ != key);
            assert forall|j: int| i < j < rest.len() implies rest[j].0@ != key by {
                assert(rest[j] == entries[j]);
            }
            lemma_map_of_lookup(rest, key, i);
        }
    }
}

/// A map from text to text. Inserting under a key that is already there
/// replaces what was under it.
#[derive(Debug)]
pub struct TextMap {
    entries: Vec<(String, String)>,
}

impl View for TextMap {
    type V = Map<Seq<char>, Seq<char>>;

    closed spec fn view(&self) -> Map<Seq<char>, Seq<char>> {
        map_of(self.entries@)
    }
}

impl TextMap {
    /// The empty map.
    pub fn new() -> (m: TextMap)
        ensures
            m@ == Map::<Seq<char>, Seq<char>>::empty(),
    {
        TextMap { entries: Vec::new() }
    }

    /// Puts `value` under `key`.
    pub fn insert(&mut self, key: String, value: String)
        ensures
            final(self)@ == old(self)@.insert(key@, value@),
    {
        proof {
            assert(self.entries@.push((key, value)).drop_last() =~= self.entries@);
        }
        self.entries.push((key, value));
    }

    /// What stands under `key`.
    pub fn get(&self, key: &str) -> (r: Option<&String>)
        ensures
            match r {
                Some(v) => self@.contains_key(key@) && self@[key@] == v@,
                None => !self@.contains_key(key@),
            },
    {
        let wanted = key.to_owned();
        let mut i: usize = self.entries.len();
        while i > 0
            invariant
                i <= self.entries.len(),
                wanted@ == key@,
                forall|j: int| i <= j < self.entries.len() ==> self.entries[j].0@ != key@,
            decreases i,
        {
            i = i - 1;
            if self.entries[i].0 == wanted {
                proof {
                    lemma_map_of_lookup(self.entries@, key@, i as int);
                }
                return Some(&self.entries[i].1);
            }
        }
        proof {
            lemma_map_of_lookup(self.entries@, key@, -1);
        }
        None
    }
}

} // verus!
