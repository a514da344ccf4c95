//! A map keyed by texts.

use vstd::prelude::*;

verus! {

/// A map from texts to values. Each text is there at most once.
#[derive(Debug)]
pub struct TextMap<V: Copy> {
    entries: Vec<(String, V)>,
}

/// The map that a list of entries stands for.
pub open spec fn map_of<V>(entries: Seq<(String, V)>) -> Map<Seq<char>, V>
    decreases entries.len(),
{
    if entries.len() == 0 {
        Map::empty()
    } else {
        map_of(entries.drop_last()).insert(entries.last().0@, entries.last().1)
    }
}

/// Whether no text occurs twice in a list of entries.
pub open spec fn keys_distinct<V>(entries: Seq<(String, V)>) -> bool {
    forall|i: int, j: int|
        0 <= i < j < entries.len() ==> (#[trigger] entries[i]).0@ != (#[trigger] entries[j]).0@
}

/// A map holds exactly its entries.
pub proof fn lemma_map_of<V>(entries: Seq<(String, V)>)
    ensures
        forall|i: int| 0 <= i < entries.len() ==> map_of(entries).contains_key((#[trigger] entries[i]).0@),
        forall|key: Seq<char>| #[trigger]
            map_of(entries).contains_key(key) ==> exists|i: int|
                0 <= i < entries.len() && (#[trigger] entries[i]).0@ == key,
        keys_distinct(entries) ==> forall|i: int|
            0 <= i < entries.len() ==> map_of(entries)[(#[trigger] entries[i]).0@] == entries[i].1,
    decreases entries.len(),
{
    if entries.len() > 0 {
        let front = entries.drop_last();
        lemma_map_of(front);
        assert forall|i: int| 0 <= i < entries.len() implies map_of(entries).contains_key(
            (#[trigger] entries[i]).0@,
        ) by {
            if i < front.len() {
                assert(front[i] == entries[i]);
            }
        }
        assert forall|key: Seq<char>| #[trigger] map_of(entries).contains_key(key) implies exists|
            i: int,
        |
            0 <= i < entries.len() && (#[trigger] entries[i]).0@ == key by {
            if key == entries.last().0@ {
                assert(entries[entries.len() - 1].0@ == key);
            } else {
                assert(map_of(front).contains_key(key));
                let i = choose|i: int| 0 <= i < front.len() && (#[trigger] front[i]).0@ == key;
                assert(entries[i].0@ == key);
            }
        }
        if keys_distinct(entries) {
            assert(keys_distinct(front)) by {
                assert forall|i: int, j: int| 0 <= i < j < front.len() implies (
                #[trigger] front[i]).0@ != (#[trigger] front[j]).0@ by {
                    assert(front[i] == entries[i] && front[j] == entries[j]);
                }
            }
            assert forall|i: int| 0 <= i < entries.len() implies map_of(entries)[(
            #[trigger] entries[i]).0@] == entries[i].1 by {
                if i < front.len() {
                    assert(front[i] == entries[i]);
                    assert(entries[i].0@ != entries[entries.len() - 1].0@);
                }
            }
        }
    }
}

impl<V: Copy> TextMap<V> {
    #[verifier::type_invariant]
    spec fn distinct(self) -> bool {
        keys_distinct(self.entries@)
    }

    /// The map.
    pub closed spec fn spec_map(self) -> Map<Seq<char>, V> {
        map_of(self.entries@)
    }

    /// A map without entries.
    pub fn new() -> (map: Self)
        ensures
            map.spec_map() == Map::<Seq<char>, V>::empty(),
    {
        TextMap { entries: Vec::new() }
    }

    fn find(&self, key: &str) -> (result: Option<usize>)
        ensures
            match result {
                Some(index) => index < self.entries@.len() && self.entries@[index as int].0@ == key@,
                None => forall|k: int|
                    0 <= k < self.entries@.len() ==> (#[trigger] self.entries@[k]).0@ != key@,
            },
    {
        let wanted = key.to_string();
        let mut i: usize = 0;
        while i < self.entries.len()
            invariant
                i <= self.entries@.len(),
                wanted@ == key@,
                forall|k: int| 0 <= k < i ==> (#[trigger] self.entries@[k]).0@ != key@,
            decreases self.entries@.len() - i,
        {
            if self.entries[i].0 == wanted {
                return Some(i);
            }
            i += 1;
        }
        None
    }

    /// The value at a text.
    pub fn get(&self, key: &str) -> (value: Option<V>)
        ensures
            value == if self.spec_map().contains_key(key@) {
                Some(self.spec_map()[key@])
            } else {
                None
            },
    {
        proof {
            use_type_invariant(self);
            lemma_map_of(self.entries@);
        }
        match self.find(key) {
            Some(index) => Some(self.entries[index].1),
            None => None,
        }
    }

    /// Whether a text has a value.
    pub fn contains_key(&self, key: &str) -> (result: bool)
        ensures
            result == self.spec_map().contains_key(key@),
    {
        self.get(key).is_some()
    }

    /// Removes a text and its value.
    pub fn remove(&mut self, key: &str)
        ensures
            final(self).spec_map() == old(self).spec_map().remove(key@),
    {
        proof {
            use_type_invariant(&*self);
            lemma_map_of(self.entries@);
        }
        let ghost before = self.entries@;
        match self.find(key) {
            None => {
                assert(map_of(before).remove(key@) =~= map_of(before));
            },
            Some(index) => {
                let mut entries: Vec<(String, V)> = Vec::new();
                std::mem::swap(&mut entries, &mut self.entries);
                let dropped = entries.remove(index);
                proof {
                    lemma_removed(before, index as int);
                }
                self.entries = entries;
            },
        }
    }

    /// Gives a text a value.
    pub fn insert(&mut self, key: String, value: V)
        ensures
            final(self).spec_map() == old(self).spec_map().insert(key@, value),
    {
        self.remove(key.as_str());
        let ghost text = key@;
        proof {
            use_type_invariant(&*self);
            lemma_map_of(self.entries@);
        }
        let ghost before = self.entries@;
        let mut entries: Vec<(String, V)> = Vec::new();
        std::mem::swap(&mut entries, &mut self.entries);
        entries.push((key, value));
        proof {
            assert(entries@.drop_last() =~= before);
            assert forall|i: int, j: int| 0 <= i < j < entries@.len() implies (
            #[trigger] entries@[i]).0@ != (#[trigger] entries@[j]).0@ by {
                assert(entries@[i] == before[i]);
                if j == before.len() {
                    assert(map_of(before).contains_key(before[i].0@));
                } else {
                    assert(entries@[j] == before[j]);
                }
            }
        }
        self.entries = entries;
        proof {
            assert(old(self).spec_map().remove(text).insert(text, value) =~= old(
                self,
            ).spec_map().insert(text, value));
        }
    }

    /// The entries, each text once.
    pub fn entries(&self) -> (list: Vec<(String, V)>)
        ensures
            map_of(list@) == self.spec_map(),
            keys_distinct(list@),
    {
        proof {
            use_type_invariant(self);
        }
        let mut list: Vec<(String, V)> = Vec::new();
        let mut i: usize = 0;
        while i < self.entries.len()
            invariant
                i <= self.entries@.len(),
                list@ == self.entries@.take(i as int),
            decreases self.entries@.len() - i,
        {
            list.push((self.entries[i].0.clone(), self.entries[i].1));
            i += 1;
        }
        assert(self.entries@.take(i as int) =~= self.entries@);
        list
    }
}

proof fn lemma_removed<V>(entries: Seq<(String, V)>, index: int)
    requires
        0 <= index < entries.len(),
        keys_distinct(entries),
    ensures
        keys_distinct(entries.remove(index)),
        map_of(entries.remove(index)) == map_of(entries).remove(entries[index].0@),
{
    let rest = entries.remove(index);
    lemma_map_of(entries);
    lemma_map_of(rest);
    assert forall|i: int, j: int| 0 <= i < j < rest.len() implies (#[trigger] rest[i]).0@ != (
    #[trigger] rest[j]).0@ by {
        let a = if i < index {
            i
        } else {
            i + 1
        };
        let b = if j < index {
            j
        } else {
            j + 1
        };
        assert(rest[i] == entries[a] && rest[j] == entries[b]);
    }
    let key = entries[index].0@;
    assert forall|other: Seq<char>| map_of(rest).contains_key(other) == map_of(entries).remove(
        key,
    ).contains_key(other) && (map_of(rest).contains_key(other) ==> map_of(rest)[other] == map_of(
        entries,
    )[other]) by {
        if map_of(rest).contains_key(other) {
            let i = choose|i: int| 0 <= i < rest.len() && (#[trigger] rest[i]).0@ == other;
            let a = if i < index {
                i
            } else {
                i + 1
            };
            assert(rest[i] == entries[a]);
            assert(entries[a].0@ != entries[index].0@);
        }
        if map_of(entries).contains_key(other) && other != key {
            let a = choose|a: int| 0 <= a < entries.len() && (#[trigger] entries[a]).0@ == other;
            let i = if a < index {
                a
            } else {
                a - 1
            };
            assert(rest[i] == entries[a]);
        }
    }
    assert(map_of(rest) =~= map_of(entries).remove(key));
}

} // verus!
