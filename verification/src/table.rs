//! A map from names to values that remembers the order in which its names
//! were first inserted.

use vstd::prelude::*;
use vstd::std_specs::cmp::PartialEqSpec;

verus! {

/// The index of the first occurrence of `name` in `names`, or the length of
/// `names` where it does not occur.
pub open spec fn first_index(names: Seq<Seq<char>>, name: Seq<char>) -> int
    decreases names.len(),
{
    if names.len() == 0 || names[0] == name {
        0
    } else {
        1 + first_index(names.skip(1), name)
    }
}

/// `first_index` lies within `names` exactly where `name` occurs, holds
/// `name` there, and nothing before it is `name`.
pub proof fn lemma_first_index(names: Seq<Seq<char>>, name: Seq<char>)
    ensures
        0 <= first_index(names, name) <= names.len(),
        first_index(names, name) < names.len() <==> names.contains(name),
        first_index(names, name) < names.len() ==> names[first_index(names, name)] == name,
        forall|i: int| 0 <= i < first_index(names, name) ==> names[i] != name,
    decreases names.len(),
{
    if names.len() == 0 {
    } else if names[0] == name {
        assert(names.contains(name));
    } else {
        let rest = names.skip(1);
        lemma_first_index(rest, name);
        assert forall|i: int| 0 <= i < first_index(names, name) implies names[i] != name by {
            if i > 0 {
                assert(rest[i - 1] == names[i]);
            }
        }
        if first_index(rest, name) < rest.len() {
            assert(names[first_index(names, name)] == rest[first_index(rest, name)]);
            assert(names.contains(name));
        }
        if names.contains(name) {
            let j = choose|j: int| 0 <= j < names.len() && names[j] == name;
            assert(rest[j - 1] == name);
            assert(rest.contains(name));
        }
    }
}

/// An index at which `names` holds `name`, with no occurrence before it, is
/// `first_index`.
pub proof fn lemma_first_index_is(names: Seq<Seq<char>>, name: Seq<char>, at: int)
    requires
        0 <= at <= names.len(),
        at < names.len() ==> names[at] == name,
        forall|i: int| 0 <= i < at ==> names[i] != name,
    ensures
        first_index(names, name) == at,
    decreases names.len(),
{
    if names.len() == 0 || names[0] == name {
    } else {
        assert forall|i: int| 0 <= i < at - 1 implies names.skip(1)[i] != name by {
            assert(names.skip(1)[i] == names[i + 1]);
        }
        lemma_first_index_is(names.skip(1), name, at - 1);
    }
}

/// The names that stand in `entries`, in order.
pub open spec fn names_in<V>(entries: Seq<(String, V)>) -> Seq<Seq<char>> {
    Seq::new(entries.len(), |i: int| entries[i].0@)
}

/// The map that `entries` stand for: each name mapped to the value that
/// stands beside its first occurrence.
pub open spec fn map_in<V: View>(entries: Seq<(String, V)>) -> Map<Seq<char>, V::V> {
    Map::new(
        |k: Seq<char>| names_in(entries).contains(k),
        |k: Seq<char>| entries[first_index(names_in(entries), k)].1@,
    )
}

/// Replacing the value beside the first occurrence of a name sets that name
/// in the map and leaves the names as they are.
proof fn lemma_map_in_update<V: View>(entries: Seq<(String, V)>, i: int, key: String, value: V)
    requires
        0 <= i < entries.len(),
        i == first_index(names_in(entries), key@),
    ensures
        names_in(entries.update(i, (key, value))) == names_in(entries),
        map_in(entries.update(i, (key, value))) == map_in(entries).insert(key@, value@),
{
    let after = entries.update(i, (key, value));
    lemma_first_index(names_in(entries), key@);
    assert(names_in(after) =~= names_in(entries));
    assert forall|k: Seq<char>| #[trigger] names_in(entries).contains(k) implies map_in(after)[k]
        == map_in(entries).insert(key@, value@)[k] by {
        lemma_first_index(names_in(entries), k);
        let j = first_index(names_in(entries), k);
        assert(names_in(entries)[j] == k);
        if j != i {
            assert(after[j] == entries[j]);
        }
    }
    assert(map_in(after) =~= map_in(entries).insert(key@, value@));
}

/// Adding a new name at the end adds it to the map.
proof fn lemma_map_in_push<V: View>(entries: Seq<(String, V)>, key: String, value: V)
    requires
        !names_in(entries).contains(key@),
    ensures
        names_in(entries.push((key, value))) == names_in(entries).push(key@),
        map_in(entries.push((key, value))) == map_in(entries).insert(key@, value@),
        names_in(entries).no_duplicates() ==> names_in(entries.push((key, value))).no_duplicates(),
{
    let after = entries.push((key, value));
    let names = names_in(entries);
    let n = entries.len() as int;
    assert(names_in(after) =~= names.push(key@));
    assert forall|k: Seq<char>| #[trigger] names_in(after).contains(k) implies (k == key@
        || names.contains(k)) && map_in(after)[k] == map_in(entries).insert(key@, value@)[k] by {
        let j = choose|j: int| 0 <= j < names_in(after).len() && names_in(after)[j] == k;
        if k == key@ {
            assert(names_in(after)[n] == k);
            assert forall|m: int| 0 <= m < n implies names_in(after)[m] != k by {
                assert(names[m] == names_in(after)[m]);
            }
            lemma_first_index_is(names_in(after), k, n);
        } else {
            assert(j < n);
            assert(names[j] == k);
            lemma_first_index(names, k);
            let first = first_index(names, k);
            assert(names_in(after)[first] == k);
            assert forall|m: int| 0 <= m < first implies names_in(after)[m] != k by {
                assert(names[m] == names_in(after)[m]);
            }
            lemma_first_index_is(names_in(after), k, first);
            assert(after[first] == entries[first]);
        }
    }
    assert forall|k: Seq<char>| k == key@ || names.contains(k) implies #[trigger] names_in(
        after,
    ).contains(k) by {
        if k == key@ {
            assert(names_in(after)[n] == k);
        } else {
            let j = choose|j: int| 0 <= j < names.len() && names[j] == k;
            assert(names_in(after)[j] == k);
        }
    }
    assert(map_in(after) =~= map_in(entries).insert(key@, value@));
}

/// A finite map keyed by strings, in which no name occurs twice. Inserting
/// a name that is present replaces its value in place; a new name goes to
/// the end.
///
/// Two tables are equal where they hold the same names with equal values,
/// in whatever order.
#[derive(Debug)]
pub struct Table<V> {
    entries: Vec<(String, V)>,
}

impl<V: Clone> Clone for Table<V> {
    /// A table with the same names in the same order, each with a copy of
    /// its value.
    fn clone(&self) -> (r: Self)
        ensures
            r.keys() == self.keys(),
            r.items().len() == self.items().len(),
            forall|i: int|
                0 <= i < self.items().len() ==> cloned(self.items()[i], #[trigger] r.items()[i]),
    {
        proof {
            use_type_invariant(self);
        }
        let mut entries: Vec<(String, V)> = Vec::new();
        let mut i: usize = 0;
        while i < self.entries.len()
            invariant
                i <= self.entries@.len(),
                entries@.len() == i,
                forall|j: int|
                    0 <= j < i ==> (#[trigger] entries@[j]).0@ == self.entries@[j].0@ && cloned(
                        self.entries@[j].1,
                        entries@[j].1,
                    ),
            decreases self.entries@.len() - i,
        {
            let name = self.entries[i].0.clone();
            let value = self.entries[i].1.clone();
            entries.push((name, value));
            i += 1;
        }
        proof {
            assert(names_in(entries@) =~= self.keys());
        }
        let r = Table { entries };
        proof {
            assert forall|i: int| 0 <= i < self.items().len() implies cloned(
                self.items()[i],
                #[trigger] r.items()[i],
            ) by {
                assert(r.entries@[i].1 == r.items()[i]);
            }
        }
        r
    }
}

impl<V> Table<V> {
    /// The names of the table, in the order of their first insertion.
    pub closed spec fn keys(&self) -> Seq<Seq<char>> {
        names_in(self.entries@)
    }

    /// The values of the table as they are held, each at the position of
    /// its name.
    pub closed spec fn items(&self) -> Seq<V> {
        Seq::new(self.entries@.len(), |i: int| self.entries@[i].1)
    }

    /// No name occurs twice. This holds of every table: `new` establishes
    /// it and `insert` keeps it.
    #[verifier::type_invariant]
    pub open spec fn wf(&self) -> bool {
        self.keys().no_duplicates()
    }

    /// The position of the first occurrence of `key` among the names.
    fn locate(&self, key: &String) -> (r: Option<usize>)
        ensures
            match r {
                Some(i) => i < self.entries@.len() && i == first_index(self.keys(), key@),
                None => !self.keys().contains(key@),
            },
    {
        let mut i: usize = 0;
        while i < self.entries.len()
            invariant
                i <= self.entries@.len(),
                forall|j: int| 0 <= j < i ==> self.keys()[j] != key@,
            decreases self.entries@.len() - i,
        {
            if self.entries[i].0 == *key {
                proof {
                    assert(self.keys()[i as int] == key@);
                    lemma_first_index_is(self.keys(), key@, i as int);
                }
                return Some(i);
            }
            proof {
                assert(self.keys()[i as int] != key@);
            }
            i += 1;
        }
        None
    }
}

impl<V: PartialEq> PartialEq for Table<V> {
    fn eq(&self, other: &Self) -> (r: bool) {
        if self.entries.len() != other.entries.len() {
            return false;
        }
        let mut i: usize = 0;
        while i < self.entries.len()
            invariant
                i <= self.entries@.len(),
                self.keys().len() == self.entries@.len(),
                self.keys().len() == other.keys().len(),
                V::obeys_eq_spec() ==> forall|j: int|
                    #![trigger self.keys()[j]]
                    0 <= j < i ==> other.keys().contains(self.keys()[j]) && self.items()[j].eq_spec(
                        &other.items()[first_index(other.keys(), self.keys()[j])],
                    ),
            decreases self.entries@.len() - i,
        {
            let ghost key = self.keys()[i as int];
            proof {
                assert(key == self.entries@[i as int].0@);
                assert(self.items()[i as int] == self.entries@[i as int].1);
                lemma_first_index(other.keys(), key);
            }
            match other.locate(&self.entries[i].0) {
                Some(j) => {
                    proof {
                        assert(other.items()[j as int] == other.entries@[j as int].1);
                    }
                    if !self.entries[i].1.eq(&other.entries[j].1) {
                        return false;
                    }
                },
                None => {
                    return false;
                },
            }
            i += 1;
        }
        true
    }
}

impl<V: PartialEq> vstd::std_specs::cmp::PartialEqSpecImpl for Table<V> {
    open spec fn obeys_eq_spec() -> bool {
        V::obeys_eq_spec()
    }

    /// The two hold as many names, and each name of the first is a name of
    /// the second with an equal value.
    open spec fn eq_spec(&self, other: &Self) -> bool {
        &&& self.keys().len() == other.keys().len()
        &&& forall|i: int|
            #![trigger self.keys()[i]]
            0 <= i < self.keys().len() ==> other.keys().contains(self.keys()[i])
                && self.items()[i].eq_spec(
                &other.items()[first_index(other.keys(), self.keys()[i])],
            )
    }
}

impl<V: View> View for Table<V> {
    type V = Map<Seq<char>, V::V>;

    /// Each name mapped to the value that stands beside its first
    /// occurrence.
    closed spec fn view(&self) -> Map<Seq<char>, V::V> {
        map_in(self.entries@)
    }
}

impl<V: View> Table<V> {
    /// The values of the table, each at the position of its name.
    pub closed spec fn values(&self) -> Seq<V::V> {
        Seq::new(self.entries@.len(), |i: int| self.entries@[i].1@)
    }

    /// The view maps exactly the names, there is a value for each, and in a
    /// well-formed table each name maps to the value at its position.
    pub proof fn lemma_view(&self)
        ensures
            self.keys().len() == self.values().len(),
            forall|k: Seq<char>| self@.contains_key(k) <==> self.keys().contains(k),
            forall|k: Seq<char>| #[trigger]
                self@.contains_key(k) ==> self@[k] == self.values()[first_index(self.keys(), k)],
            self.wf() ==> forall|i: int|
                0 <= i < self.keys().len() ==> self@[#[trigger] self.keys()[i]]
                    == self.values()[i],
    {
        assert forall|k: Seq<char>| #[trigger] self@.contains_key(k) implies self@[k]
            == self.values()[first_index(self.keys(), k)] by {
            lemma_first_index(self.keys(), k);
        }
        if self.wf() {
            assert forall|i: int| 0 <= i < self.keys().len() implies self@[#[trigger] self.keys()[i]]
                == self.values()[i] by {
                let k = self.keys()[i];
                lemma_first_index(self.keys(), k);
            }
        }
    }

    /// An empty table.
    pub fn new() -> (t: Self)
        ensures
            t@ == Map::<Seq<char>, V::V>::empty(),
            t.keys() == Seq::<Seq<char>>::empty(),
            t.items() == Seq::<V>::empty(),
            t.wf(),
    {
        let t = Table { entries: Vec::new() };
        proof {
            assert(t.keys() =~= Seq::<Seq<char>>::empty());
            assert(t.items() =~= Seq::<V>::empty());
            assert(t@ =~= Map::<Seq<char>, V::V>::empty());
        }
        t
    }

    /// The number of names.
    pub fn len(&self) -> (n: usize)
        ensures
            n == self.keys().len(),
    {
        self.entries.len()
    }

    /// Whether the table holds no name.
    pub fn is_empty(&self) -> (r: bool)
        ensures
            r == (self.keys().len() == 0),
    {
        self.entries.len() == 0
    }

    /// Whether `key` is a name of the table.
    pub fn contains_key(&self, key: &str) -> (r: bool)
        ensures
            r == self@.contains_key(key@),
    {
        let owned = key.to_owned();
        let found = self.locate(&owned);
        proof {
            lemma_first_index(self.keys(), key@);
        }
        found.is_some()
    }

    /// The value that `key` maps to.
    pub fn get(&self, key: &str) -> (r: Option<&V>)
        ensures
            match r {
                Some(v) => self@.contains_key(key@) && self@[key@] == v@,
                None => !self@.contains_key(key@),
            },
    {
        let owned = key.to_owned();
        proof {
            lemma_first_index(self.keys(), key@);
        }
        match self.locate(&owned) {
            Some(i) => Some(&self.entries[i].1),
            None => None,
        }
    }

    /// The name and the value at position `index`, in the order of first
    /// insertion; `None` past the end.
    pub fn entry(&self, index: usize) -> (r: Option<(&String, &V)>)
        ensures
            match r {
                Some((k, v)) => index < self.keys().len() && k@ == self.keys()[index as int] && v@
                    == self.values()[index as int] && self@.contains_key(k@) && self@[k@] == v@,
                None => index >= self.keys().len(),
            },
    {
        if index < self.entries.len() {
            proof {
                use_type_invariant(self);
                self.lemma_view();
                assert(self.keys()[index as int] == self.entries@[index as int].0@);
                assert(self.keys().contains(self.keys()[index as int]));
            }
            Some((&self.entries[index].0, &self.entries[index].1))
        } else {
            None
        }
    }

    /// Maps `key` to `value`. A name that was present keeps its position; a
    /// new name goes to the end.
    pub fn insert(&mut self, key: String, value: V)
        ensures
            final(self)@ == old(self)@.insert(key@, value@),
            final(self).keys() == if old(self)@.contains_key(key@) {
                old(self).keys()
            } else {
                old(self).keys().push(key@)
            },
            final(self).items() == if old(self)@.contains_key(key@) {
                old(self).items().update(first_index(old(self).keys(), key@), value)
            } else {
                old(self).items().push(value)
            },
            final(self).wf(),
    {
        let ghost before = *self;
        let ghost goal = before@.insert(key@, value@);
        let found = self.locate(&key);
        proof {
            use_type_invariant(&*self);
            lemma_first_index(before.keys(), key@);
        }
        let mut entries: Vec<(String, V)> = Vec::new();
        core::mem::swap(&mut self.entries, &mut entries);
        match found {
            Some(i) => {
                proof {
                    lemma_map_in_update(entries@, i as int, key, value);
                }
                entries.set(i, (key, value));
            },
            None => {
                proof {
                    lemma_map_in_push(entries@, key, value);
                }
                entries.push((key, value));
            },
        }
        core::mem::swap(&mut self.entries, &mut entries);
        proof {
            match found {
                Some(i) => {
                    assert(self.items() =~= before.items().update(i as int, value));
                },
                None => {
                    assert(self.items() =~= before.items().push(value));
                },
            }
        }
    }
}

} // verus!
