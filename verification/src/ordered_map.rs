//! An insertion-ordered mapping from names to values.

use vstd::prelude::*;

verus! {

/// The position of the first pair of `pairs` that is named `name`.
pub open spec fn index_of<T>(pairs: Seq<(Seq<char>, T)>, name: Seq<char>) -> Option<int>
    decreases pairs.len(),
{
    if pairs.len() == 0 {
        None
    } else if pairs.first().0 == name {
        Some(0)
    } else {
        match index_of(pairs.drop_first(), name) {
            Some(i) => Some(i + 1),
            None => None,
        }
    }
}

/// The value that `pairs` holds under `name`.
pub open spec fn lookup<T>(pairs: Seq<(Seq<char>, T)>, name: Seq<char>) -> Option<T> {
    match index_of(pairs, name) {
        Some(i) => Some(pairs[i].1),
        None => None,
    }
}

/// `pairs` once `name` stands for `value`: a name that is already there keeps
/// its place, a new one goes to the end.
pub open spec fn inserted<T>(pairs: Seq<(Seq<char>, T)>, name: Seq<char>, value: T) -> Seq<
    (Seq<char>, T),
> {
    match index_of(pairs, name) {
        Some(i) => pairs.update(i, (name, value)),
        None => pairs.push((name, value)),
    }
}

/// No two pairs of `pairs` have the same name.
pub open spec fn distinct_names<T>(pairs: Seq<(Seq<char>, T)>) -> bool {
    forall|i: int, j: int|
        0 <= i < j < pairs.len() ==> (#[trigger] pairs[i]).0 != (#[trigger] pairs[j]).0
}

/// `index_of` finds the first pair with the name, and finds none only where
/// there is none.
pub proof fn lemma_index_of<T>(pairs: Seq<(Seq<char>, T)>, name: Seq<char>)
    ensures
        match index_of(pairs, name) {
            Some(i) => {
                &&& 0 <= i < pairs.len()
                &&& pairs[i].0 == name
                &&& forall|j: int| 0 <= j < i ==> (#[trigger] pairs[j]).0 != name
            },
            None => forall|j: int| 0 <= j < pairs.len() ==> (#[trigger] pairs[j]).0 != name,
        },
    decreases pairs.len(),
{
    if pairs.len() > 0 && pairs.first().0 != name {
        let rest = pairs.drop_first();
        lemma_index_of(rest, name);
        assert forall|j: int| 0 < j < pairs.len() implies (#[trigger] pairs[j]) == rest[j - 1] by {}
        match index_of(rest, name) {
            Some(i) => {
                assert forall|j: int| 0 <= j < i + 1 implies (#[trigger] pairs[j]).0 != name by {
                    if j > 0 {
                        assert(rest[j - 1].0 != name);
                    }
                }
            },
            None => {
                assert forall|j: int| 0 <= j < pairs.len() implies (#[trigger] pairs[j]).0
                    != name by {
                    if j > 0 {
                        assert(rest[j - 1].0 != name);
                    }
                }
            },
        }
    }
}

/// A mapping from names to values that keeps the order in which the names
/// came in. No name occurs twice.
#[derive(Debug, PartialEq, Eq)]
pub struct OrderedMap<V> {
    entries: Vec<(String, V)>,
}

impl<V: View> View for OrderedMap<V> {
    type V = Seq<(Seq<char>, V::V)>;

    closed spec fn view(&self) -> Seq<(Seq<char>, V::V)> {
        Seq::new(self.entries@.len(), |i: int| (self.entries@[i].0@, self.entries@[i].1@))
    }
}

impl<V> OrderedMap<V> {
    #[verifier::type_invariant]
    spec fn well_formed(&self) -> bool {
        forall|i: int, j: int|
            0 <= i < j < self.entries@.len() ==> (#[trigger] self.entries@[i]).0@
                != (#[trigger] self.entries@[j]).0@
    }
}

impl<V: View> OrderedMap<V> {
    /// The empty mapping.
    pub fn new() -> (map: Self)
        ensures
            map@ == Seq::<(Seq<char>, V::V)>::empty(),
    {
        let map = OrderedMap { entries: Vec::new() };
        assert(map@ =~= Seq::<(Seq<char>, V::V)>::empty());
        map
    }

    /// The number of names. Whatever mapping is asked, its names are distinct.
    pub fn len(&self) -> (count: usize)
        ensures
            count == self@.len(),
            distinct_names(self@),
    {
        proof {
            use_type_invariant(self);
        }
        self.entries.len()
    }

    /// The name at `index`, counting in the order of insertion.
    pub fn name_at(&self, index: usize) -> (name: &String)
        requires
            index < self@.len(),
        ensures
            name@ == self@[index as int].0,
    {
        &self.entries[index].0
    }

    /// The value at `index`, counting in the order of insertion.
    pub fn value_at(&self, index: usize) -> (value: &V)
        requires
            index < self@.len(),
        ensures
            value@ == self@[index as int].1,
    {
        &self.entries[index].1
    }

    /// Where `name` stands, if it is there.
    fn find(&self, name: &String) -> (found: Option<usize>)
        ensures
            match found {
                Some(i) => index_of(self@, name@) == Some(i as int),
                None => index_of(self@, name@) is None,
            },
    {
        let mut i: usize = 0;
        while i < self.entries.len()
            invariant
                i <= self.entries.len(),
                forall|j: int| 0 <= j < i ==> (#[trigger] self@[j]).0 != name@,
            decreases self.entries.len() - i,
        {
            if self.entries[i].0 == *name {
                proof {
                    lemma_index_of(self@, name@);
                    assert(self@[i as int].0 == name@);
                }
                return Some(i);
            }
            i += 1;
        }
        proof {
            lemma_index_of(self@, name@);
        }
        None
    }

    /// The value under `name`, if there is one.
    pub fn get(&self, name: &str) -> (value: Option<&V>)
        ensures
            match value {
                Some(v) => lookup(self@, name@) == Some(v@),
                None => lookup(self@, name@) is None,
            },
    {
        let wanted = name.to_owned();
        proof {
            lemma_index_of(self@, name@);
        }
        match self.find(&wanted) {
            Some(i) => Some(&self.entries[i].1),
            None => None,
        }
    }

    /// Lets `name` stand for `value`. A name that is already there keeps its
    /// place and gets the new value; a new name goes to the end.
    pub fn insert(&mut self, name: String, value: V)
        ensures
            final(self)@ == inserted(old(self)@, name@, value@),
    {
        proof {
            use_type_invariant(&*self);
            lemma_index_of(self@, name@);
        }
        let found = self.find(&name);
        let ghost before = self@;
        let ghost held = self.entries@;
        assert(forall|k: int| 0 <= k < held.len() ==> (#[trigger] before[k]).0 == held[k].0@);
        let mut entries: Vec<(String, V)> = Vec::new();
        std::mem::swap(&mut entries, &mut self.entries);
        match found {
            Some(i) => {
                entries.set(i, (name, value));
            },
            None => {
                entries.push((name, value));
            },
        }
        proof {
            let after = Seq::new(entries@.len(), |k: int| (entries@[k].0@, entries@[k].1@));
            assert(after =~= inserted(before, name@, value@));
            assert forall|k: int, l: int| 0 <= k < l < entries@.len() implies (
            #[trigger] entries@[k]).0@ != (#[trigger] entries@[l]).0@ by {
                if k < held.len() {
                    assert(before[k].0 == held[k].0@);
                }
                if l < held.len() {
                    assert(before[l].0 == held[l].0@);
                }
            }
        }
        self.entries = entries;
    }
}

} // verus!
