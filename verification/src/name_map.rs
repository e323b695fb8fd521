use vstd::prelude::*;

verus! {

/// In a sequence without repeats, looking an element up by value finds the
/// position it was read from.
pub proof fn lemma_index_of_unique(names: Seq<Seq<char>>, i: int)
    requires
        names.no_duplicates(),
        0 <= i < names.len(),
    ensures
        names.contains(names[i]),
        names.index_of(names[i]) == i,
{
    let j = names.index_of(names[i]);
    assert(0 <= j < names.len() && names[j] == names[i]);
}

/// An insertion-ordered mapping from names to values in which no name occurs
/// twice.
#[derive(Debug)]
pub struct NameMap<V> {
    entries: Vec<(String, V)>,
}

impl<V> NameMap<V> {
    /// The names held, in the order in which they were first inserted.
    pub closed spec fn names(self) -> Seq<Seq<char>> {
        Seq::new(self.entries@.len(), |i: int| self.entries@[i].0@)
    }

    /// The values held, in the order of `names`.
    pub closed spec fn values(self) -> Seq<V> {
        Seq::new(self.entries@.len(), |i: int| self.entries@[i].1)
    }

    #[verifier::type_invariant]
    spec fn unique_names(self) -> bool {
        self.names().no_duplicates()
    }

    /// Whether `name` has a value.
    pub open spec fn has(self, name: Seq<char>) -> bool {
        self.names().contains(name)
    }

    /// The value stored under `name`, meaningful where `has(name)`.
    pub open spec fn value_of(self, name: Seq<char>) -> V {
        self.values()[self.names().index_of(name)]
    }

    /// An empty mapping.
    pub fn new() -> (m: Self)
        ensures
            m.names() =~= Seq::<Seq<char>>::empty(),
            m.values() =~= Seq::<V>::empty(),
    {
        NameMap { entries: Vec::new() }
    }

    /// The number of names held. Its contract also exposes the shape that
    /// every mapping has: one value per name, and no name twice.
    pub fn len(&self) -> (n: usize)
        ensures
            n == self.names().len(),
            self.values().len() == self.names().len(),
            self.names().no_duplicates(),
    {
        proof {
            use_type_invariant(self);
        }
        self.entries.len()
    }

    /// The name at position `i`.
    pub fn name_at(&self, i: usize) -> (name: &String)
        requires
            i < self.names().len(),
        ensures
            name@ == self.names()[i as int],
    {
        &self.entries[i].0
    }

    /// The value at position `i`.
    pub fn value_at(&self, i: usize) -> (value: &V)
        requires
            i < self.names().len(),
        ensures
            *value == self.values()[i as int],
    {
        &self.entries[i].1
    }

    /// The position of `name`, if it is held.
    pub fn position(&self, name: &String) -> (r: Option<usize>)
        ensures
            match r {
                Some(i) => i < self.names().len() && self.names()[i as int] == name@
                    && self.names().index_of(name@) == i,
                None => !self.has(name@),
            },
    {
        proof {
            use_type_invariant(self);
        }
        let n: usize = self.entries.len();
        let mut i: usize = 0;
        while i < n
            invariant
                n == self.entries@.len(),
                i <= n,
                self.names().no_duplicates(),
                forall|j: int| 0 <= j < i ==> self.names()[j] != name@,
            decreases n - i,
        {
            if self.entries[i].0 == *name {
                proof {
                    lemma_index_of_unique(self.names(), i as int);
                }
                return Some(i);
            }
            i += 1;
        }
        None
    }

    /// The value stored under `name`, if any.
    pub fn get(&self, name: &String) -> (r: Option<&V>)
        ensures
            match r {
                Some(v) => self.has(name@) && *v == self.value_of(name@),
                None => !self.has(name@),
            },
    {
        match self.position(name) {
            Some(i) => Some(&self.entries[i].1),
            None => None,
        }
    }

    /// Whether `name` has a value.
    pub fn contains_name(&self, name: &String) -> (r: bool)
        ensures
            r == self.has(name@),
    {
        self.position(name).is_some()
    }

    /// Stores `value` under `name`. A name already held keeps its position
    /// and gets the new value; a new name goes to the end.
    pub fn insert(&mut self, name: String, value: V)
        ensures
            old(self).has(name@) ==> final(self).names() == old(self).names()
                && final(self).values() == old(self).values().update(
                old(self).names().index_of(name@),
                value,
            ),
            !old(self).has(name@) ==> final(self).names() == old(self).names().push(name@)
                && final(self).values() == old(self).values().push(value),
            final(self).names().no_duplicates(),
            final(self).values().len() == final(self).names().len(),
            forall|other: Seq<char>|
                final(self).has(other) <==> old(self).has(other) || other == name@,
            final(self).value_of(name@) == value,
            forall|other: Seq<char>|
                old(self).has(other) && other != name@ ==> final(self).value_of(other) == old(
                    self,
                ).value_of(other),
    {
        proof {
            use_type_invariant(&*self);
        }
        let pos = self.position(&name);
        let ghost before = *self;
        let mut entries: Vec<(String, V)> = Vec::new();
        std::mem::swap(&mut entries, &mut self.entries);
        match pos {
            Some(i) => {
                entries.set(i, (name, value));
            },
            None => {
                entries.push((name, value));
            },
        }
        proof {
            let after = Seq::new(entries@.len(), |k: int| entries@[k].0@);
            match pos {
                Some(i) => {
                    assert(after =~= before.names());
                },
                None => {
                    assert(after =~= before.names().push(name@));
                    assert forall|a: int, b: int|
                        0 <= a < after.len() && 0 <= b < after.len() && a != b implies after[a]
                        != after[b] by {
                        if a < before.names().len() {
                            assert(before.names()[a] == after[a]);
                        }
                        if b < before.names().len() {
                            assert(before.names()[b] == after[b]);
                        }
                    }
                },
            }
            assert(after.no_duplicates());
        }
        self.entries = entries;
        proof {
            match pos {
                Some(i) => {
                    assert(self.names() =~= before.names());
                    assert(self.values() =~= before.values().update(i as int, value));
                },
                None => {
                    assert(self.names() =~= before.names().push(name@));
                    assert(self.values() =~= before.values().push(value));
                    assert(self.names()[before.names().len() as int] == name@);
                    lemma_index_of_unique(self.names(), before.names().len() as int);
                },
            }
            assert forall|other: Seq<char>|
                self.has(other) <==> before.has(other) || other == name@ by {
                if before.has(other) {
                    let j = before.names().index_of(other);
                    assert(self.names()[j] == other);
                }
                if self.has(other) && other != name@ {
                    let j = self.names().index_of(other);
                    assert(before.names()[j] == other);
                }
            }
            assert forall|other: Seq<char>| before.has(other) && other != name@ implies self.value_of(
                other,
            ) == before.value_of(other) by {
                let j = before.names().index_of(other);
                assert(self.names()[j] == other);
                lemma_index_of_unique(self.names(), j);
            }
        }
    }
}

impl<V: View> View for NameMap<V> {
    type V = Map<Seq<char>, V::V>;

    /// The mapping from each name held to the view of its value.
    open spec fn view(&self) -> Map<Seq<char>, V::V> {
        Map::new(|name: Seq<char>| self.has(name), |name: Seq<char>| self.value_of(name)@)
    }
}

} // verus!
