//! A map from texts to values, kept as a list of entries with distinct keys.
use crate::text::same_text;
use vstd::prelude::*;

verus! {

/// A map whose keys are strings. Entries stay in the order in which their keys came.
pub struct StringMap<V> {
    entries: Vec<(String, V)>,
}

spec fn holds_key<V>(entries: Seq<(String, V)>, key: Seq<char>, i: int) -> bool {
    0 <= i < entries.len() && entries[i].0@ == key
}

spec fn distinct_keys<V>(entries: Seq<(String, V)>) -> bool {
    forall|i: int, j: int|
        #![trigger entries[i], entries[j]]
        0 <= i < j < entries.len() ==> entries[i].0@ != entries[j].0@
}

spec fn has_key<V>(entries: Seq<(String, V)>, key: Seq<char>) -> bool {
    exists|i: int| holds_key(entries, key, i)
}

spec fn key_index<V>(entries: Seq<(String, V)>, key: Seq<char>) -> int {
    choose|i: int| holds_key(entries, key, i)
}

spec fn contents<V>(entries: Seq<(String, V)>) -> Map<Seq<char>, V> {
    Map::new(
        |key: Seq<char>| has_key(entries, key),
        |key: Seq<char>| entries[key_index(entries, key)].1,
    )
}

proof fn lemma_found<V>(entries: Seq<(String, V)>, i: int)
    requires
        distinct_keys(entries),
        0 <= i < entries.len(),
    ensures
        contents(entries).dom().contains(entries[i].0@),
        contents(entries)[entries[i].0@] == entries[i].1,
{
    let key = entries[i].0@;
    assert(holds_key(entries, key, i));
    let j = key_index(entries, key);
    assert(holds_key(entries, key, j));
    assert(entries[i].0@ == entries[j].0@);
}

proof fn lemma_missing<V>(entries: Seq<(String, V)>, key: Seq<char>)
    requires
        forall|i: int| 0 <= i < entries.len() ==> (#[trigger] entries[i]).0@ != key,
    ensures
        !contents(entries).dom().contains(key),
{
    assert forall|i: int| !holds_key(entries, key, i) by {
        if holds_key(entries, key, i) {
            assert(entries[i].0@ == key);
        }
    }
}

proof fn lemma_push<V>(entries: Seq<(String, V)>, entry: (String, V))
    requires
        distinct_keys(entries),
        !contents(entries).dom().contains(entry.0@),
    ensures
        distinct_keys(entries.push(entry)),
        contents(entries.push(entry)) == contents(entries).insert(entry.0@, entry.1),
{
    let grown = entries.push(entry);
    assert forall|i: int| 0 <= i < entries.len() implies (#[trigger] entries[i]).0@ != entry.0@ by {
        lemma_found(entries, i);
    }
    assert(distinct_keys(grown));
    assert forall|key: Seq<char>|
        contents(grown).dom().contains(key) == contents(entries).insert(
            entry.0@,
            entry.1,
        ).dom().contains(key) by {
        if has_key(grown, key) {
            let i = key_index(grown, key);
            if i < entries.len() {
                assert(holds_key(entries, key, i));
            }
        }
        if has_key(entries, key) {
            let i = key_index(entries, key);
            assert(holds_key(grown, key, i));
        }
        assert(holds_key(grown, entry.0@, entries.len() as int));
    }
    assert forall|key: Seq<char>| #[trigger] contents(grown).dom().contains(key) implies contents(
        grown,
    )[key] == contents(entries).insert(entry.0@, entry.1)[key] by {
        let i = key_index(grown, key);
        assert(holds_key(grown, key, i));
        lemma_found(grown, i);
        if i < entries.len() {
            lemma_found(entries, i);
            assert(grown[i] == entries[i]);
        }
    }
    assert(contents(grown) =~= contents(entries).insert(entry.0@, entry.1));
}

proof fn lemma_drop<V>(entries: Seq<(String, V)>, at: int)
    requires
        distinct_keys(entries),
        0 <= at < entries.len(),
    ensures
        distinct_keys(entries.remove(at)),
        contents(entries.remove(at)) == contents(entries).remove(entries[at].0@),
{
    let rest = entries.remove(at);
    let gone = entries[at].0@;
    assert forall|i: int, j: int|
        #![trigger rest[i], rest[j]]
        0 <= i < j < rest.len() implies rest[i].0@ != rest[j].0@ by {
        let a = if i < at {
            i
        } else {
            i + 1
        };
        let b = if j < at {
            j
        } else {
            j + 1
        };
        assert(rest[i] == entries[a] && rest[j] == entries[b]);
    }
    assert forall|key: Seq<char>|
        contents(rest).dom().contains(key) == contents(entries).remove(gone).dom().contains(key) by {
        if has_key(rest, key) {
            let i = key_index(rest, key);
            let a = if i < at {
                i
            } else {
                i + 1
            };
            assert(rest[i] == entries[a]);
            assert(holds_key(entries, key, a));
            assert(entries[a].0@ != entries[at].0@);
        }
        if has_key(entries, key) && key != gone {
            let a = key_index(entries, key);
            let i = if a < at {
                a
            } else {
                a - 1
            };
            assert(rest[i] == entries[a]);
            assert(holds_key(rest, key, i));
        }
    }
    assert forall|key: Seq<char>| #[trigger] contents(rest).dom().contains(key) implies contents(
        rest,
    )[key] == contents(entries).remove(gone)[key] by {
        let i = key_index(rest, key);
        assert(holds_key(rest, key, i));
        lemma_found(rest, i);
        let a = if i < at {
            i
        } else {
            i + 1
        };
        assert(rest[i] == entries[a]);
        lemma_found(entries, a);
    }
    assert(contents(rest) =~= contents(entries).remove(gone));
}

proof fn lemma_replace<V>(entries: Seq<(String, V)>, at: int, entry: (String, V))
    requires
        distinct_keys(entries),
        0 <= at < entries.len(),
        entries[at].0@ == entry.0@,
    ensures
        distinct_keys(entries.update(at, entry)),
        contents(entries.update(at, entry)) == contents(entries).insert(entry.0@, entry.1),
{
    let after = entries.update(at, entry);
    assert forall|i: int| 0 <= i < entries.len() implies (#[trigger] after[i]).0@
        == entries[i].0@ by {}
    assert(distinct_keys(after)) by {
        assert forall|i: int, j: int|
            #![trigger after[i], after[j]]
            0 <= i < j < after.len() implies after[i].0@ != after[j].0@ by {
            assert(entries[i].0@ != entries[j].0@);
        }
    }
    assert forall|key: Seq<char>|
        contents(after).dom().contains(key) == contents(entries).insert(
            entry.0@,
            entry.1,
        ).dom().contains(key) by {
        if has_key(after, key) {
            assert(holds_key(entries, key, key_index(after, key)));
        }
        if has_key(entries, key) {
            assert(holds_key(after, key, key_index(entries, key)));
        }
        assert(holds_key(after, entry.0@, at));
    }
    assert forall|key: Seq<char>| #[trigger] contents(after).dom().contains(key) implies contents(
        after,
    )[key] == contents(entries).insert(entry.0@, entry.1)[key] by {
        let i = key_index(after, key);
        assert(holds_key(after, key, i));
        lemma_found(after, i);
        lemma_found(entries, i);
        if i != at {
            assert(after[i].0@ != after[at].0@);
        }
    }
    assert(contents(after) =~= contents(entries).insert(entry.0@, entry.1));
}

proof fn lemma_size<V>(entries: Seq<(String, V)>)
    requires
        distinct_keys(entries),
    ensures
        contents(entries).dom().finite(),
        contents(entries).dom().len() == entries.len(),
    decreases entries.len(),
{
    if entries.len() == 0 {
        assert(contents(entries).dom() =~= Set::<Seq<char>>::empty());
    } else {
        let front = entries.drop_last();
        let last = entries.last();
        assert(distinct_keys(front)) by {
            assert forall|i: int, j: int|
                #![trigger front[i], front[j]]
                0 <= i < j < front.len() implies front[i].0@ != front[j].0@ by {
                assert(entries[i].0@ != entries[j].0@);
            }
        }
        lemma_size(front);
        assert forall|i: int| 0 <= i < front.len() implies (#[trigger] front[i]).0@ != last.0@ by {
            assert(entries[i].0@ != entries[entries.len() - 1].0@);
        }
        lemma_missing(front, last.0@);
        lemma_push(front, last);
        assert(front.push(last) =~= entries);
        assert(contents(entries).dom() =~= contents(front).dom().insert(last.0@));
    }
}

impl<V> View for StringMap<V> {
    type V = Map<Seq<char>, V>;

    closed spec fn view(&self) -> Map<Seq<char>, V> {
        contents(self.entries@)
    }
}

impl<V> StringMap<V> {
    #[verifier::type_invariant]
    spec fn well_formed(self) -> bool {
        distinct_keys(self.entries@)
    }

    /// The empty map.
    pub fn new() -> (map: Self)
        ensures
            map@ == Map::<Seq<char>, V>::empty(),
    {
        let map = StringMap { entries: Vec::new() };
        assert(map@ =~= Map::<Seq<char>, V>::empty());
        map
    }

    fn position(&self, key: &str) -> (at: Option<usize>)
        ensures
            match at {
                Some(i) => i < self.entries.len() && self.entries@[i as int].0@ == key@,
                None => forall|i: int|
                    0 <= i < self.entries.len() ==> (#[trigger] self.entries@[i]).0@ != key@,
            },
    {
        let mut i: usize = 0;
        while i < self.entries.len()
            invariant
                i <= self.entries.len(),
                forall|j: int| 0 <= j < i ==> (#[trigger] self.entries@[j]).0@ != key@,
            decreases self.entries.len() - i,
        {
            if same_text(self.entries[i].0.as_str(), key) {
                return Some(i);
            }
            i = i + 1;
        }
        None
    }

    /// The value under `key`.
    pub fn get(&self, key: &str) -> (value: Option<&V>)
        ensures
            match value {
                Some(v) => self@.dom().contains(key@) && self@[key@] == *v,
                None => !self@.dom().contains(key@),
            },
    {
        proof {
            use_type_invariant(self);
        }
        match self.position(key) {
            Some(i) => {
                proof {
                    lemma_found(self.entries@, i as int);
                }
                Some(&self.entries[i].1)
            },
            None => {
                proof {
                    lemma_missing(self.entries@, key@);
                }
                None
            },
        }
    }

    /// Whether there is a value under `key`.
    pub fn contains_key(&self, key: &str) -> (r: bool)
        ensures
            r == self@.dom().contains(key@),
    {
        self.get(key).is_some()
    }

    /// How many keys the map holds.
    pub fn len(&self) -> (n: usize)
        ensures
            self@.dom().finite(),
            n == self@.dom().len(),
    {
        proof {
            use_type_invariant(self);
            lemma_size(self.entries@);
        }
        self.entries.len()
    }

    /// Puts `value` under `key` and hands back the value that was there.
    pub fn insert(&mut self, key: String, value: V) -> (previous: Option<V>)
        ensures
            final(self)@ == old(self)@.insert(key@, value),
            match previous {
                Some(v) => old(self)@.dom().contains(key@) && old(self)@[key@] == v,
                None => !old(self)@.dom().contains(key@),
            },
    {
        proof {
            use_type_invariant(&*self);
        }
        let at = self.position(key.as_str());
        let mut entries: Vec<(String, V)> = Vec::new();
        let ghost before = self.entries@;
        std::mem::swap(&mut entries, &mut self.entries);
        match at {
            Some(i) => {
                proof {
                    lemma_found(before, i as int);
                    lemma_replace(before, i as int, (key, value));
                }
                let taken = entries.remove(i);
                entries.insert(i, (key, value));
                assert(entries@ =~= before.update(i as int, (key, value)));
                self.entries = entries;
                Some(taken.1)
            },
            None => {
                proof {
                    lemma_missing(before, key@);
                    lemma_push(before, (key, value));
                }
                entries.push((key, value));
                self.entries = entries;
                None
            },
        }
    }

    /// Takes the value under `key` out of the map.
    pub fn remove(&mut self, key: &str) -> (taken: Option<V>)
        ensures
            final(self)@ == old(self)@.remove(key@),
            match taken {
                Some(v) => old(self)@.dom().contains(key@) && old(self)@[key@] == v,
                None => !old(self)@.dom().contains(key@),
            },
    {
        proof {
            use_type_invariant(&*self);
        }
        match self.position(key) {
            Some(i) => {
                let mut entries: Vec<(String, V)> = Vec::new();
                let ghost before = self.entries@;
                std::mem::swap(&mut entries, &mut self.entries);
                proof {
                    lemma_found(before, i as int);
                    lemma_drop(before, i as int);
                }
                let taken = entries.remove(i);
                self.entries = entries;
                Some(taken.1)
            },
            None => {
                proof {
                    lemma_missing(self.entries@, key@);
                    assert(self@.remove(key@) =~= self@);
                }
                None
            },
        }
    }

    /// Takes every value out of the map, in the order of their keys.
    pub fn take_values(&mut self) -> (values: Vec<V>)
        ensures
            final(self)@ == Map::<Seq<char>, V>::empty(),
            forall|key: Seq<char>| #[trigger] old(self)@.dom().contains(key)
                ==> values@.contains(old(self)@[key]),
            values@.len() == old(self)@.dom().len(),
    {
        proof {
            use_type_invariant(&*self);
            lemma_size(self.entries@);
        }
        let mut entries: Vec<(String, V)> = Vec::new();
        let ghost before = self.entries@;
        std::mem::swap(&mut entries, &mut self.entries);
        assert(self@ =~= Map::<Seq<char>, V>::empty());
        let mut values: Vec<V> = Vec::new();
        while entries.len() > 0
            invariant
                entries@.len() + values@.len() == before.len(),
                entries@ == before.skip(values@.len() as int),
                forall|i: int| 0 <= i < values@.len() ==> values@[i] == (#[trigger] before[i]).1,
            decreases entries.len(),
        {
            let entry = entries.remove(0);
            values.push(entry.1);
            assert(entries@ =~= before.skip(values@.len() as int));
        }
        assert forall|key: Seq<char>| #[trigger] contents(before).dom().contains(
            key,
        ) implies values@.contains(contents(before)[key]) by {
            let i = key_index(before, key);
            assert(holds_key(before, key, i));
            lemma_found(before, i);
            assert(values@[i] == before[i].1);
        }
        values
    }
}

} // verus!
