//! `NameMap`: values by name, in order of first insertion.

use vstd::prelude::*;

use crate::text;

verus! {

/// A map from names to values. No name occurs twice; names keep the order in which they were
/// first inserted.
#[derive(Debug)]
pub struct NameMap<X> {
    entries: Vec<(String, X)>,
}

impl<X> NameMap<X> {
    #[verifier::type_invariant]
    spec fn distinct(self) -> bool {
        Self::no_repeats(self.entries@)
    }

    spec fn no_repeats(entries: Seq<(String, X)>) -> bool {
        forall|i: int, j: int|
            0 <= i < j < entries.len() ==> (#[trigger] entries[i]).0@ != (#[trigger] entries[j]).0@
    }

    spec fn holds(entries: Seq<(String, X)>, i: int, k: Seq<char>) -> bool {
        0 <= i < entries.len() && entries[i].0@ == k
    }

    spec fn as_map(entries: Seq<(String, X)>) -> Map<Seq<char>, X> {
        Map::new(
            |k: Seq<char>| exists|i: int| Self::holds(entries, i, k),
            |k: Seq<char>| entries[choose|i: int| Self::holds(entries, i, k)].1,
        )
    }

    /// The names, in order of first insertion.
    pub closed spec fn names(self) -> Seq<Seq<char>> {
        self.entries@.map_values(|e: (String, X)| e.0@)
    }

    /// A name is a key exactly when it is among the names.
    pub proof fn lemma_names(self)
        ensures
            forall|k: Seq<char>| #[trigger] self@.contains_key(k) <==> self.names().contains(k),
    {
        assert forall|k: Seq<char>| #[trigger] self@.contains_key(k) implies self.names().contains(
            k,
        ) by {
            let i = choose|i: int| Self::holds(self.entries@, i, k);
            assert(self.names()[i] == k);
        }
        assert forall|k: Seq<char>| self.names().contains(k) implies #[trigger] self@.contains_key(
            k,
        ) by {
            let i = choose|i: int| 0 <= i < self.names().len() && self.names()[i] == k;
            assert(Self::holds(self.entries@, i, k));
        }
    }

    proof fn lemma_at(entries: Seq<(String, X)>, i: int)
        requires
            Self::no_repeats(entries),
            0 <= i < entries.len(),
        ensures
            Self::as_map(entries).contains_key(entries[i].0@),
            Self::as_map(entries)[entries[i].0@] == entries[i].1,
    {
        let k = entries[i].0@;
        assert(Self::holds(entries, i, k));
        let j = choose|j: int| Self::holds(entries, j, k);
        assert(entries[j].0@ == k);
        assert(i == j) by {
            if i < j {
                assert(entries[i].0@ != entries[j].0@);
            }
            if j < i {
                assert(entries[j].0@ != entries[i].0@);
            }
        }
    }

    proof fn lemma_insert(before: Seq<(String, X)>, after: Seq<(String, X)>, at: int)
        requires
            Self::no_repeats(before),
            Self::no_repeats(after),
            0 <= at < after.len(),
            forall|i: int|
                0 <= i < after.len() && i != at ==> i < before.len() && #[trigger] after[i]
                    == before[i],
            forall|i: int|
                0 <= i < before.len() && i != at ==> i < after.len() && #[trigger] before[i]
                    == after[i],
            at < before.len() ==> before[at].0@ == after[at].0@,
        ensures
            Self::as_map(after) == Self::as_map(before).insert(after[at].0@, after[at].1),
    {
        let name = after[at].0@;
        let m = Self::as_map(after);
        let n = Self::as_map(before).insert(name, after[at].1);
        Self::lemma_at(after, at);
        assert forall|k: Seq<char>|
            #![trigger m.dom().contains(k)]
            #![trigger n.dom().contains(k)]
            #![trigger m[k]]
            m.contains_key(k) == n.contains_key(k) && (m.contains_key(k) ==> m[k] == n[k]) by {
            if k != name {
                if m.contains_key(k) {
                    let i = choose|i: int| Self::holds(after, i, k);
                    assert(before[i] == after[i]);
                    Self::lemma_at(after, i);
                    Self::lemma_at(before, i);
                }
                if n.contains_key(k) {
                    let i = choose|i: int| Self::holds(before, i, k);
                    assert(i != at);
                    assert(before[i] == after[i]);
                    Self::lemma_at(after, i);
                    Self::lemma_at(before, i);
                }
            }
        }
        assert(m =~= n);
    }

    /// The empty map.
    pub fn new() -> (r: Self)
        ensures
            r@ == Map::<Seq<char>, X>::empty(),
            r.names() == Seq::<Seq<char>>::empty(),
    {
        let r = NameMap { entries: Vec::new() };
        assert(r@ =~= Map::<Seq<char>, X>::empty());
        assert(r.names() =~= Seq::<Seq<char>>::empty());
        r
    }

    /// How many names there are.
    pub fn len(&self) -> (r: usize)
        ensures
            r == self.names().len(),
            self.names().no_duplicates(),
    {
        proof {
            use_type_invariant(self);
        }
        self.entries.len()
    }

    fn position(&self, name: &str) -> (r: Option<usize>)
        ensures
            match r {
                Some(i) => Self::holds(self.entries@, i as int, name@),
                None => forall|i: int| !Self::holds(self.entries@, i, name@),
            },
    {
        let mut i: usize = 0;
        while i < self.entries.len()
            invariant
                i <= self.entries@.len(),
                forall|j: int| 0 <= j < i ==> !Self::holds(self.entries@, j, name@),
            decreases self.entries@.len() - i,
        {
            if text::same(self.entries[i].0.as_str(), name) {
                return Some(i);
            }
            i = i + 1;
        }
        None
    }

    /// The value of `name`, if it has one.
    pub fn get(&self, name: &str) -> (r: Option<&X>)
        ensures
            match r {
                Some(v) => self@.contains_key(name@) && self@[name@] == *v,
                None => !self@.contains_key(name@),
            },
    {
        match self.position(name) {
            Some(i) => {
                proof {
                    use_type_invariant(self);
                    Self::lemma_at(self.entries@, i as int);
                }
                Some(&self.entries[i].1)
            },
            None => None,
        }
    }

    /// Whether `name` has a value.
    pub fn contains_key(&self, name: &str) -> (r: bool)
        ensures
            r == self@.contains_key(name@),
    {
        self.get(name).is_some()
    }

    /// The `i`-th name and its value, in order of first insertion.
    pub fn entry(&self, i: usize) -> (r: (&String, &X))
        requires
            i < self.names().len(),
        ensures
            r.0@ == self.names()[i as int],
            self@.contains_key(r.0@),
            self@[r.0@] == *r.1,
    {
        proof {
            use_type_invariant(self);
            Self::lemma_at(self.entries@, i as int);
        }
        let e = &self.entries[i];
        (&e.0, &e.1)
    }

    /// Sets the value of `name`, replacing the one it had.
    pub fn insert(&mut self, name: String, value: X)
        ensures
            final(self)@ == old(self)@.insert(name@, value),
            final(self).names() == (if old(self)@.contains_key(name@) {
                old(self).names()
            } else {
                old(self).names().push(name@)
            }),
    {
        proof {
            use_type_invariant(&*self);
        }
        let at = self.position(name.as_str());
        let ghost before = self.entries@;
        let ghost key = name@;
        let mut entries: Vec<(String, X)> = Vec::new();
        std::mem::swap(&mut entries, &mut self.entries);
        match at {
            Some(i) => {
                entries.set(i, (name, value));
                proof {
                    assert forall|a: int, b: int| 0 <= a < b < entries@.len() implies (
                    #[trigger] entries@[a]).0@ != (#[trigger] entries@[b]).0@ by {
                        assert(before[a].0@ != before[b].0@);
                    }
                    Self::lemma_insert(before, entries@, i as int);
                }
            },
            None => {
                entries.push((name, value));
                proof {
                    assert forall|a: int, b: int| 0 <= a < b < entries@.len() implies (
                    #[trigger] entries@[a]).0@ != (#[trigger] entries@[b]).0@ by {
                        assert(!Self::holds(before, a, key));
                        if b < before.len() {
                            assert(before[a].0@ != before[b].0@);
                        }
                    }
                    Self::lemma_insert(before, entries@, before.len() as int);
                }
            },
        }
        self.entries = entries;
        proof {
            if at is Some {
                assert(Self::holds(before, at->0 as int, key));
                assert(self.names() =~= old(self).names());
            } else {
                assert(self.names() =~= old(self).names().push(key));
            }
        }
    }
}

impl<X> View for NameMap<X> {
    type V = Map<Seq<char>, X>;

    closed spec fn view(&self) -> Map<Seq<char>, X> {
        Self::as_map(self.entries@)
    }
}

} // verus!
