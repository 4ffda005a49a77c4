//! A small map from names to values that remembers the order in which the
//! names came in.

use vstd::prelude::*;
use crate::text::same_text;

verus! {

/// Values filed under names. A name occurs at most once; the names keep the
/// order of their first insertion.
#[derive(Debug)]
pub struct NameMap<V> {
    entries: Vec<(String, V)>,
}

impl<V> NameMap<V> {
    /// The names, in the order of their first insertion.
    pub closed spec fn names(&self) -> Seq<Seq<char>> {
        Seq::new(self.entries@.len(), |i: int| self.entries@[i].0@)
    }

    /// The values; `values()[i]` is filed under `names()[i]`.
    pub closed spec fn values(&self) -> Seq<V> {
        Seq::new(self.entries@.len(), |i: int| self.entries@[i].1)
    }

    #[verifier::type_invariant]
    closed spec fn distinct(&self) -> bool {
        self.names().no_duplicates()
    }

    /// Every name has one value and no name occurs twice. Holds of every map
    /// that the functions of this type hand out.
    pub open spec fn wf(&self) -> bool {
        &&& self.names().len() == self.values().len()
        &&& self.names().no_duplicates()
    }

    pub open spec fn contains(&self, name: Seq<char>) -> bool {
        self.names().contains(name)
    }

    /// The value filed under `name`.
    pub open spec fn value_of(&self, name: Seq<char>) -> V
        recommends
            self.contains(name),
    {
        self.values()[self.names().index_of(name)]
    }

    /// The map as names and what is filed under each.
    pub open spec fn as_map(&self) -> Map<Seq<char>, V> {
        Map::new(|name: Seq<char>| self.contains(name), |name: Seq<char>| self.value_of(name))
    }

    /// The empty map.
    pub fn new() -> (m: Self)
        ensures
            m.wf(),
            m.names() == Seq::<Seq<char>>::empty(),
            m.values() == Seq::<V>::empty(),
    {
        let m = NameMap { entries: Vec::new() };
        assert(m.names() =~= Seq::<Seq<char>>::empty());
        assert(m.values() =~= Seq::<V>::empty());
        m
    }

    /// Number of names.
    pub fn len(&self) -> (n: usize)
        ensures
            self.wf(),
            n == self.names().len(),
    {
        proof {
            use_type_invariant(self);
        }
        self.entries.len()
    }

    pub fn is_empty(&self) -> (b: bool)
        ensures
            self.wf(),
            b == (self.names().len() == 0),
    {
        proof {
            use_type_invariant(self);
        }
        self.entries.len() == 0
    }

    /// The `i`-th name.
    pub fn name_at(&self, i: usize) -> (name: &String)
        requires
            i < self.names().len(),
        ensures
            self.wf(),
            name@ == self.names()[i as int],
    {
        proof {
            use_type_invariant(self);
        }
        &self.entries[i].0
    }

    /// The value filed under the `i`-th name.
    pub fn value_at(&self, i: usize) -> (value: &V)
        requires
            i < self.names().len(),
        ensures
            self.wf(),
            *value == self.values()[i as int],
    {
        proof {
            use_type_invariant(self);
        }
        &self.entries[i].1
    }

    /// Where `name` stands among the names, if it is one of them.
    pub fn position(&self, name: &str) -> (r: Option<usize>)
        ensures
            self.wf(),
            match r {
                Some(i) => i < self.names().len() && self.names()[i as int] == name@,
                None => !self.contains(name@),
            },
    {
        proof {
            use_type_invariant(self);
        }
        let mut i: usize = 0;
        while i < self.entries.len()
            invariant
                self.wf(),
                i <= self.entries.len(),
                forall|j: int| 0 <= j < i ==> self.names()[j] != name@,
            decreases self.entries.len() - i,
        {
            if same_text(self.entries[i].0.as_str(), name) {
                return Some(i);
            }
            i += 1;
        }
        None
    }

    /// The value filed under `name`, if there is one.
    pub fn get(&self, name: &str) -> (r: Option<&V>)
        ensures
            self.wf(),
            match r {
                Some(v) => self.contains(name@) && *v == self.value_of(name@),
                None => !self.contains(name@),
            },
    {
        proof {
            use_type_invariant(self);
        }
        match self.position(name) {
            Some(i) => {
                assert(self.names().index_of(name@) == i);
                Some(&self.entries[i].1)
            },
            None => None,
        }
    }

    /// Files `value` under `name`. A value already filed under that name is
    /// replaced where it stands; a new name goes to the end.
    pub fn insert(&mut self, name: String, value: V)
        ensures
            old(self).wf(),
            final(self).wf(),
            old(self).contains(name@) ==> {
                &&& final(self).names() == old(self).names()
                &&& final(self).values() == old(self).values().update(
                    old(self).names().index_of(name@),
                    value,
                )
            },
            !old(self).contains(name@) ==> {
                &&& final(self).names() == old(self).names().push(name@)
                &&& final(self).values() == old(self).values().push(value)
            },
            final(self).as_map() == old(self).as_map().insert(name@, value),
    {
        proof {
            use_type_invariant(&*self);
        }
        let found = self.position(name.as_str());
        let ghost before = *self;
        let mut entries: Vec<(String, V)> = Vec::new();
        core::mem::swap(&mut self.entries, &mut entries);
        match found {
            Some(i) => {
                assert(before.names().index_of(name@) == i);
                entries.set(i, (name, value));
                proof {
                    let after = NameMap { entries };
                    assert(after.names() =~= before.names());
                    assert(after.values() =~= before.values().update(i as int, value));
                }
            },
            None => {
                entries.push((name, value));
                proof {
                    let after = NameMap { entries };
                    assert(after.names() =~= before.names().push(name@));
                    assert(after.values() =~= before.values().push(value));
                    assert(after.names().no_duplicates());
                }
            },
        }
        self.entries = entries;
        proof {
            lemma_insert_as_map(before, *self, name@, value);
        }
    }

    /// The names, in order.
    pub fn names_vec(&self) -> (v: Vec<String>)
        ensures
            self.wf(),
            v.deep_view() == self.names(),
    {
        proof {
            use_type_invariant(self);
        }
        let mut v: Vec<String> = Vec::new();
        let mut i: usize = 0;
        while i < self.entries.len()
            invariant
                i <= self.entries.len(),
                v.len() == i,
                forall|j: int| 0 <= j < i ==> v@[j]@ == self.names()[j],
            decreases self.entries.len() - i,
        {
            v.push(self.entries[i].0.clone());
            i += 1;
        }
        assert(v.deep_view() =~= self.names());
        v
    }
}

impl<V: Clone> Clone for NameMap<V> {
    /// A map with the same names, each with a clone of its value.
    fn clone(&self) -> (m: Self)
        ensures
            m.wf(),
            m.names() == self.names(),
            forall|i: int|
                0 <= i < self.values().len() ==> cloned(self.values()[i], #[trigger] m.values()[i]),
    {
        proof {
            use_type_invariant(self);
        }
        let mut entries: Vec<(String, V)> = Vec::new();
        let mut i: usize = 0;
        while i < self.entries.len()
            invariant
                i <= self.entries.len(),
                entries.len() == i,
                forall|j: int| 0 <= j < i ==> entries@[j].0@ == self.entries@[j].0@,
                forall|j: int| 0 <= j < i ==> cloned(self.entries@[j].1, #[trigger] entries@[j].1),
            decreases self.entries.len() - i,
        {
            let name = self.entries[i].0.clone();
            let value = self.entries[i].1.clone();
            entries.push((name, value));
            i += 1;
        }
        proof {
            let m = NameMap { entries };
            assert(m.names() =~= self.names());
        }
        NameMap { entries }
    }
}

/// What `as_map` holds after an `insert`: the old map with the one name set.
pub proof fn lemma_insert_as_map<V>(
    before: NameMap<V>,
    after: NameMap<V>,
    name: Seq<char>,
    value: V,
)
    requires
        before.wf(),
        before.contains(name) ==> {
            &&& after.names() == before.names()
            &&& after.values() == before.values().update(before.names().index_of(name), value)
        },
        !before.contains(name) ==> {
            &&& after.names() == before.names().push(name)
            &&& after.values() == before.values().push(value)
        },
    ensures
        after.wf(),
        after.as_map() == before.as_map().insert(name, value),
{
    assert(after.names().no_duplicates());
    assert forall|k: Seq<char>| after.contains(k) <==> (k == name || before.contains(k)) by {
        if before.contains(name) {
        } else {
            if before.contains(k) {
                let i = before.names().index_of(k);
                assert(after.names()[i] == k);
            }
            if k == name {
                assert(after.names()[before.names().len() as int] == k);
            }
        }
    }
    assert forall|k: Seq<char>| after.contains(k) implies after.value_of(k) == (if k == name {
        value
    } else {
        before.value_of(k)
    }) by {
        let i = after.names().index_of(k);
        if before.contains(k) {
            let j = before.names().index_of(k);
            assert(after.names()[j] == k);
            assert(i == j);
        }
    }
    assert(after.as_map() =~= before.as_map().insert(name, value));
}

} // verus!
