//! A mapping from names to values in which no name occurs twice.

use vstd::prelude::*;
use crate::text::same_text;

verus! {

/// A mapping from names to values. It holds each name once; the order in
/// which the names were inserted is kept for walking the map by position, and
/// is no part of its value.
#[derive(Debug)]
pub struct NameMap<V> {
    entries: Vec<(String, V)>,
}

impl<V> View for NameMap<V> {
    type V = Map<Seq<char>, V>;

    /// The mapping itself: each name with its value.
    open spec fn view(&self) -> Map<Seq<char>, V> {
        Map::new(
            |name: Seq<char>| self.names().contains(name),
            |name: Seq<char>| self.values()[self.names().index_of(name)],
        )
    }
}

impl<V: DeepView> DeepView for NameMap<V> {
    type V = Map<Seq<char>, V::V>;

    /// The mapping from each name to the mathematical value of its value.
    open spec fn deep_view(&self) -> Map<Seq<char>, V::V> {
        self@.map_values(|value: V| value.deep_view())
    }
}

impl<V: Clone> Clone for NameMap<V> {
    /// A map with the same names at the same positions, each with a clone of
    /// its value.
    fn clone(&self) -> (res: NameMap<V>)
        ensures
            res.names() == self.names(),
            res.values().len() == self.values().len(),
            forall|i: int|
                0 <= i < self.values().len() ==> cloned(
                    self.values()[i],
                    #[trigger] res.values()[i],
                ),
    {
        proof {
            use_type_invariant(self);
        }
        let mut entries: Vec<(String, V)> = Vec::new();
        let mut i: usize = 0;
        while i < self.entries.len()
            invariant
                i <= self.entries@.len(),
                entries@.len() == i,
                forall|m: int| 0 <= m < i ==> (#[trigger] entries@[m]).0@ == self.entries@[m].0@,
                forall|m: int|
                    0 <= m < i ==> cloned(self.entries@[m].1, (#[trigger] entries@[m]).1),
            decreases self.entries@.len() - i,
        {
            let name = self.entries[i].0.clone();
            let value = self.entries[i].1.clone();
            entries.push((name, value));
            i = i + 1;
        }
        let res = NameMap { entries };
        assert(res.names() =~= self.names());
        assert forall|i: int| 0 <= i < self.values().len() implies cloned(
            self.values()[i],
            #[trigger] res.values()[i],
        ) by {
            assert(cloned(self.entries@[i].1, res.entries@[i].1));
        }
        res
    }
}

impl<V> NameMap<V> {
    #[verifier::type_invariant]
    spec fn distinct(self) -> bool {
        forall|i: int, j: int|
            0 <= i < j < self.entries@.len() ==> (#[trigger] self.entries@[i]).0@ != (
            #[trigger] self.entries@[j]).0@
    }

    /// The names, by position.
    pub closed spec fn names(&self) -> Seq<Seq<char>> {
        Seq::new(self.entries@.len(), |i: int| self.entries@[i].0@)
    }

    /// The values, by position: `values()[i]` belongs to `names()[i]`.
    pub closed spec fn values(&self) -> Seq<V> {
        Seq::new(self.entries@.len(), |i: int| self.entries@[i].1)
    }

    /// Every name stands at one position, and every position has a value.
    pub open spec fn well_formed(&self) -> bool {
        &&& self.names().no_duplicates()
        &&& self.names().len() == self.values().len()
    }

    /// In a well-formed map the value at a position is that of the name there.
    pub proof fn lemma_position(&self, i: int)
        requires
            self.well_formed(),
            0 <= i < self.names().len(),
        ensures
            self@.contains_key(self.names()[i]),
            self@[self.names()[i]] == self.values()[i],
    {
        let name = self.names()[i];
        assert(self.names().contains(name));
        let at = self.names().index_of(name);
        assert(self.names()[at] == name);
    }

    /// Every name of the map stands at some position.
    pub proof fn lemma_name(&self, name: Seq<char>)
        requires
            self@.contains_key(name),
        ensures
            0 <= self.names().index_of(name) < self.names().len(),
            self.names()[self.names().index_of(name)] == name,
            self@[name] == self.values()[self.names().index_of(name)],
    {
        assert(self.names().contains(name));
    }

    /// The empty map.
    pub fn new() -> (res: NameMap<V>)
        ensures
            res@ == Map::<Seq<char>, V>::empty(),
            res.names().len() == 0,
            res.well_formed(),
    {
        let res = NameMap { entries: Vec::new() };
        assert(res@ =~= Map::<Seq<char>, V>::empty());
        res
    }

    /// The number of names.
    pub fn len(&self) -> (res: usize)
        ensures
            res == self.names().len(),
            res == self@.dom().len(),
            self@.dom().finite(),
            self.well_formed(),
    {
        proof {
            use_type_invariant(self);
            assert(self.names().no_duplicates());
            self.names().unique_seq_to_set();
            assert(self@.dom() =~= self.names().to_set());
        }
        self.entries.len()
    }

    /// Whether the map holds no name.
    pub fn is_empty(&self) -> (res: bool)
        ensures
            res == (self@.dom() == Set::<Seq<char>>::empty()),
            res == (self.names().len() == 0),
    {
        proof {
            if self.entries@.len() == 0 {
                assert(self@.dom() =~= Set::<Seq<char>>::empty());
            } else {
                assert(self.names()[0] == self.entries@[0].0@);
                assert(self.names().contains(self.names()[0]));
                assert(self@.dom().contains(self.names()[0]));
            }
        }
        self.entries.len() == 0
    }

    /// The name at a position.
    pub fn name_at(&self, i: usize) -> (res: &str)
        requires
            i < self.names().len(),
        ensures
            res@ == self.names()[i as int],
    {
        self.entries[i].0.as_str()
    }

    /// The value at a position.
    pub fn value_at(&self, i: usize) -> (res: &V)
        requires
            i < self.names().len(),
        ensures
            *res == self.values()[i as int],
            self.values().len() == self.names().len(),
    {
        &self.entries[i].1
    }

    /// The position of a name, if the map holds it.
    fn position(&self, name: &str) -> (res: Option<usize>)
        ensures
            match res {
                Some(i) => i < self.entries@.len() && self.entries@[i as int].0@ == name@,
                None => forall|m: int|
                    0 <= m < self.entries@.len() ==> (#[trigger] self.entries@[m]).0@ != name@,
            },
    {
        let mut i: usize = 0;
        while i < self.entries.len()
            invariant
                i <= self.entries@.len(),
                forall|m: int| 0 <= m < i ==> (#[trigger] self.entries@[m]).0@ != name@,
            decreases self.entries@.len() - i,
        {
            if same_text(self.entries[i].0.as_str(), name) {
                return Some(i);
            }
            i = i + 1;
        }
        None
    }

    /// Whether the map holds a name.
    pub fn contains_key(&self, name: &str) -> (res: bool)
        ensures
            res == self@.contains_key(name@),
    {
        match self.position(name) {
            Some(i) => {
                proof {
                    assert(self.names()[i as int] == name@);
                }
                true
            },
            None => {
                proof {
                    if self.names().contains(name@) {
                        let at = choose|at: int|
                            0 <= at < self.names().len() && self.names()[at] == name@;
                        assert(self.entries@[at].0@ == name@);
                    }
                }
                false
            },
        }
    }

    /// The value of a name, if the map holds it.
    pub fn get(&self, name: &str) -> (res: Option<&V>)
        ensures
            match res {
                Some(value) => self@.contains_key(name@) && *value == self@[name@],
                None => !self@.contains_key(name@),
            },
    {
        match self.position(name) {
            Some(i) => {
                proof {
                    use_type_invariant(self);
                    assert(self.names()[i as int] == name@);
                    let at = self.names().index_of(name@);
                    assert(self.names()[at] == name@);
                    assert(self.entries@[at].0@ == self.entries@[i as int].0@);
                    assert(at == i);
                }
                Some(&self.entries[i].1)
            },
            None => {
                proof {
                    if self.names().contains(name@) {
                        let at = choose|at: int|
                            0 <= at < self.names().len() && self.names()[at] == name@;
                        assert(self.entries@[at].0@ == name@);
                    }
                }
                None
            },
        }
    }

    /// Gives a name a value: a new name is added, the value of a name that
    /// the map holds already is replaced.
    pub fn insert(&mut self, name: String, value: V)
        ensures
            final(self)@ == old(self)@.insert(name@, value),
    {
        proof {
            use_type_invariant(&*self);
        }
        let ghost before = *self;
        let found = self.position(name.as_str());
        let mut entries: Vec<(String, V)> = Vec::new();
        core::mem::swap(&mut self.entries, &mut entries);
        match found {
            Some(i) => {
                entries.set(i, (name, value));
                core::mem::swap(&mut self.entries, &mut entries);
                proof {
                    assert(self.names() =~= before.names());
                    assert(self.values() =~= before.values().update(i as int, value));
                    assert(before.names()[i as int] == name@);
                    assert forall|k: Seq<char>| #[trigger] self@.contains_key(k) implies self@[k]
                        == before@.insert(name@, value)[k] by {
                        let at = self.names().index_of(k);
                        assert(self.names().contains(k));
                        assert(self.names()[at] == k);
                        if k == name@ {
                            assert(self.entries@[at].0@ == self.entries@[i as int].0@);
                            assert(at == i);
                        } else {
                            assert(at != i);
                        }
                    }
                    assert(self@ =~= before@.insert(name@, value));
                }
            },
            None => {
                entries.push((name, value));
                core::mem::swap(&mut self.entries, &mut entries);
                proof {
                    let n = before.entries@.len() as int;
                    assert(self.names() =~= before.names().push(name@));
                    assert(self.values() =~= before.values().push(value));
                    assert(!before.names().contains(name@)) by {
                        if before.names().contains(name@) {
                            let at = choose|at: int|
                                0 <= at < before.names().len() && before.names()[at] == name@;
                            assert(before.entries@[at].0@ == name@);
                        }
                    }
                    assert forall|k: Seq<char>|
                        self.names().contains(k) <==> (k == name@ || before.names().contains(
                            k,
                        )) by {
                        if self.names().contains(k) {
                            let at = choose|at: int|
                                0 <= at < self.names().len() && self.names()[at] == k;
                            if at < n {
                                assert(before.names()[at] == k);
                            }
                        }
                        if k == name@ {
                            assert(self.names()[n] == k);
                        }
                        if before.names().contains(k) {
                            let at = choose|at: int|
                                0 <= at < before.names().len() && before.names()[at] == k;
                            assert(self.names()[at] == k);
                        }
                    }
                    assert forall|k: Seq<char>| #[trigger] self@.contains_key(k) implies self@[k]
                        == before@.insert(name@, value)[k] by {
                        let at = self.names().index_of(k);
                        assert(self.names()[at] == k);
                        if k == name@ {
                            if at < n {
                                assert(before.names()[at] == k);
                            }
                            assert(at == n);
                        } else {
                            assert(at < n);
                            assert(before.names()[at] == k);
                            let was = before.names().index_of(k);
                            assert(before.names().contains(k));
                            assert(before.names()[was] == k);
                            assert(self.entries@[was].0@ == self.entries@[at].0@);
                            assert(was == at);
                        }
                    }
                    assert(self@ =~= before@.insert(name@, value));
                }
            },
        }
    }
}

} // verus!
