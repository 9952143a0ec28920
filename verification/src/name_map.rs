//! A map from names to values that keeps its entries in ascending dictionary
//! order of the names, so that two maps with the same contents list them in
//! the same order.

use crate::text::{
    ascending, lemma_ascending_distinct, lemma_ascending_unique, lemma_precedes_asymmetric,
    lemma_precedes_irreflexive, lemma_precedes_transitive, precedes, rank, to_chars, Rank,
};
use vstd::prelude::*;

verus! {

/// The map that pairs `names[i]` with `values[i]`.
pub open spec fn table<T>(names: Seq<Seq<char>>, values: Seq<T>) -> Map<Seq<char>, T> {
    Map::new(|n: Seq<char>| names.contains(n), |n: Seq<char>| values[names.index_of(n)])
}

/// In a table of ascending names each name is paired with the value at its
/// own position.
pub proof fn lemma_table_at<T>(names: Seq<Seq<char>>, values: Seq<T>, i: int)
    requires
        ascending(names),
        0 <= i < names.len(),
    ensures
        table(names, values).contains_key(names[i]),
        table(names, values)[names[i]] == values[i],
{
    let j = names.index_of(names[i]);
    if j != i {
        lemma_ascending_distinct(names, i, j);
    }
}

/// Putting a new name at its place in an ascending table is inserting it
/// into the map.
pub proof fn lemma_table_insert<T>(names: Seq<Seq<char>>, values: Seq<T>, p: int, name: Seq<char>, value: T)
    requires
        names.len() == values.len(),
        0 <= p <= names.len(),
        ascending(names),
        ascending(names.insert(p, name)),
    ensures
        table(names.insert(p, name), values.insert(p, value)) == table(names, values).insert(name, value),
{
    let names2 = names.insert(p, name);
    let values2 = values.insert(p, value);
    let before = table(names, values);
    let after = table(names2, values2);
    assert forall|n: Seq<char>| after.contains_key(n) <==> before.insert(name, value).contains_key(n) by {
        if names2.contains(n) {
            let i = choose|i: int| 0 <= i < names2.len() && names2[i] == n;
            if i < p {
                assert(names[i] == n);
            } else if i > p {
                assert(names[i - 1] == n);
            }
        }
        if names.contains(n) {
            let i = choose|i: int| 0 <= i < names.len() && names[i] == n;
            if i < p {
                assert(names2[i] == n);
            } else {
                assert(names2[i + 1] == n);
            }
        }
        if n == name {
            assert(names2[p] == n);
        }
    }
    assert forall|n: Seq<char>| after.contains_key(n) implies after[n] == before.insert(name, value)[n] by {
        let i = choose|i: int| 0 <= i < names2.len() && names2[i] == n;
        lemma_table_at(names2, values2, i);
        if i < p {
            lemma_ascending_distinct(names2, i, p);
            lemma_table_at(names, values, i);
        } else if i > p {
            lemma_ascending_distinct(names2, i, p);
            lemma_table_at(names, values, i - 1);
        }
    }
    assert(after =~= before.insert(name, value));
}

/// Replacing the value at a position of an ascending table is inserting
/// under the name that stands there.
pub proof fn lemma_table_update<T>(names: Seq<Seq<char>>, values: Seq<T>, p: int, value: T)
    requires
        names.len() == values.len(),
        0 <= p < names.len(),
        ascending(names),
    ensures
        table(names, values.update(p, value)) == table(names, values).insert(names[p], value),
{
    let values2 = values.update(p, value);
    let before = table(names, values);
    let after = table(names, values2);
    assert forall|n: Seq<char>| after.contains_key(n) <==> before.insert(names[p], value).contains_key(n) by {
        if n == names[p] {
            assert(names.contains(n));
        }
    }
    assert forall|n: Seq<char>| after.contains_key(n) implies after[n] == before.insert(names[p], value)[n] by {
        let i = choose|i: int| 0 <= i < names.len() && names[i] == n;
        lemma_table_at(names, values2, i);
        lemma_table_at(names, values, i);
        if i != p {
            lemma_ascending_distinct(names, i, p);
        }
    }
    assert(after =~= before.insert(names[p], value));
}

/// A table of ascending names has one entry for each name.
pub proof fn lemma_table_count<T>(names: Seq<Seq<char>>, values: Seq<T>)
    requires
        ascending(names),
    ensures
        table(names, values).dom().finite(),
        table(names, values).len() == names.len(),
    decreases names.len(),
{
    let dom = table(names, values).dom();
    if names.len() == 0 {
        assert(dom =~= Set::<Seq<char>>::empty());
    } else {
        let rest = names.drop_last();
        lemma_table_count(rest, values);
        let rest_dom = table(rest, values).dom();
        assert(!rest_dom.contains(names.last())) by {
            if rest.contains(names.last()) {
                let i = choose|i: int| 0 <= i < rest.len() && rest[i] == names.last();
                lemma_ascending_distinct(names, i, names.len() - 1);
            }
        }
        assert(dom =~= rest_dom.insert(names.last())) by {
            assert forall|n: Seq<char>| dom.contains(n) <==> rest_dom.insert(names.last()).contains(
                n,
            ) by {
                if names.contains(n) {
                    let i = choose|i: int| 0 <= i < names.len() && names[i] == n;
                    if i < rest.len() {
                        assert(rest[i] == n);
                    }
                }
                if rest.contains(n) {
                    let i = choose|i: int| 0 <= i < rest.len() && rest[i] == n;
                    assert(names[i] == n);
                }
                if n == names.last() {
                    assert(names[names.len() - 1] == n);
                }
            }
        }
    }
}

/// A name that comes after all names before position `p` and before the
/// name at `p` has its place at `p`, and was not in the sequence.
pub proof fn lemma_place(names: Seq<Seq<char>>, p: int, name: Seq<char>)
    requires
        ascending(names),
        0 <= p <= names.len(),
        forall|j: int| 0 <= j < p ==> precedes(names[j], name),
        p < names.len() ==> precedes(name, names[p]),
    ensures
        ascending(names.insert(p, name)),
        !names.contains(name),
{
    let placed = names.insert(p, name);
    assert forall|x: int, y: int| 0 <= x < y < placed.len() implies precedes(placed[x], placed[y]) by {
        if x == p && y > p + 1 {
            lemma_precedes_transitive(name, names[p], names[y - 1]);
        }
    }
    assert forall|j: int| 0 <= j < names.len() implies names[j] != name by {
        lemma_precedes_irreflexive(name);
        if j > p {
            lemma_precedes_transitive(name, names[p], names[j]);
        }
    }
}

/// Two ascending tables that are the same map list the same names and the
/// same values in the same order.
pub proof fn lemma_table_order<T>(names1: Seq<Seq<char>>, values1: Seq<T>, names2: Seq<Seq<char>>, values2: Seq<T>)
    requires
        ascending(names1),
        ascending(names2),
        names1.len() == values1.len(),
        names2.len() == values2.len(),
        table(names1, values1) == table(names2, values2),
    ensures
        names1 == names2,
        values1 == values2,
{
    assert forall|n: Seq<char>| names1.contains(n) <==> names2.contains(n) by {
        assert(table(names1, values1).dom().contains(n) == names1.contains(n));
        assert(table(names2, values2).dom().contains(n) == names2.contains(n));
    }
    lemma_ascending_unique(names1, names2);
    assert forall|i: int| 0 <= i < values1.len() implies values1[i] == values2[i] by {
        lemma_table_at(names1, values1, i);
        lemma_table_at(names2, values2, i);
    }
    assert(values1 =~= values2);
}

/// A map from names to values, listed in ascending order of the names.
#[derive(Clone, Debug, PartialEq)]
pub struct NameMap<V> {
    items: Vec<(String, V)>,
}

impl<V> NameMap<V> {
    /// The names, in the order in which the entries are listed.
    pub closed spec fn names(&self) -> Seq<Seq<char>> {
        Seq::new(self.items@.len(), |i: int| self.items@[i].0@)
    }

    /// The names stand in ascending order: what every map made by
    /// [`NameMap::new`] and [`NameMap::insert`] keeps.
    pub open spec fn ordered(&self) -> bool {
        ascending(self.names())
    }
}

impl<V: View> View for NameMap<V> {
    type V = Map<Seq<char>, V::V>;

    /// The map from each name to the view of its value.
    open spec fn view(&self) -> Map<Seq<char>, V::V> {
        table(self.names(), self.values())
    }
}

impl<V: View> NameMap<V> {
    /// The views of the values, in the order in which the entries are listed.
    pub closed spec fn values(&self) -> Seq<V::V> {
        Seq::new(self.items@.len(), |i: int| self.items@[i].1@)
    }

    /// A map without entries.
    pub fn new() -> (r: Self)
        ensures
            r.names() == Seq::<Seq<char>>::empty(),
            r.values() == Seq::<V::V>::empty(),
            r@ == Map::<Seq<char>, V::V>::empty(),
            r.ordered(),
    {
        let r = NameMap { items: Vec::new() };
        assert(r.names() =~= Seq::<Seq<char>>::empty());
        assert(r.values() =~= Seq::<V::V>::empty());
        assert(r@ =~= Map::<Seq<char>, V::V>::empty());
        r
    }

    /// The number of entries.
    pub fn len(&self) -> (n: usize)
        ensures
            n == self.names().len(),
            n == self.values().len(),
            self.ordered() ==> n == self@.len() && self@.dom().finite(),
    {
        proof {
            if self.ordered() {
                self.lemma_count();
            }
        }
        self.items.len()
    }

    /// Whether the map has no entry.
    pub fn is_empty(&self) -> (r: bool)
        requires
            self.ordered(),
        ensures
            r == (self.names().len() == 0),
            r == (self@ == Map::<Seq<char>, V::V>::empty()),
    {
        proof {
            if self.names().len() == 0 {
                assert(self@ =~= Map::<Seq<char>, V::V>::empty());
            } else {
                lemma_table_at(self.names(), self.values(), 0);
            }
        }
        self.items.len() == 0
    }

    /// The name of the entry at position `i`.
    pub fn name_at(&self, i: usize) -> (r: &String)
        requires
            i < self.names().len(),
        ensures
            r@ == self.names()[i as int],
    {
        &self.items[i].0
    }

    /// The value of the entry at position `i`.
    pub fn value_at(&self, i: usize) -> (r: &V)
        requires
            i < self.values().len(),
        ensures
            r@ == self.values()[i as int],
    {
        &self.items[i].1
    }

    /// The position of the entry named `name`, if there is one.
    pub fn position(&self, name: &str) -> (r: Option<usize>)
        ensures
            match r {
                Some(i) => i < self.names().len() && self.names()[i as int] == name@,
                None => !self.names().contains(name@),
            },
    {
        let wanted = to_chars(name);
        let mut i: usize = 0;
        while i < self.items.len()
            invariant
                i <= self.items@.len(),
                wanted@ == name@,
                forall|j: int| 0 <= j < i ==> self.names()[j] != name@,
            decreases self.items@.len() - i,
        {
            let here = to_chars(self.items[i].0.as_str());
            match rank(&here, &wanted) {
                Rank::Same => {
                    return Some(i);
                },
                _ => {},
            }
            i += 1;
        }
        None
    }

    /// Whether an entry is named `name`.
    pub fn contains_key(&self, name: &str) -> (r: bool)
        ensures
            r == self@.contains_key(name@),
    {
        self.position(name).is_some()
    }

    /// The value of the entry named `name`, if there is one.
    pub fn get(&self, name: &str) -> (r: Option<&V>)
        requires
            self.ordered(),
        ensures
            r is Some <==> self@.contains_key(name@),
            r is Some ==> self@[name@] == r.unwrap()@,
    {
        match self.position(name) {
            Some(i) => {
                proof {
                    lemma_table_at(self.names(), self.values(), i as int);
                }
                Some(&self.items[i].1)
            },
            None => None,
        }
    }

    /// Pairs `name` with `value`, in place of the value that `name` had, and
    /// returns that value.
    pub fn insert(&mut self, name: String, value: V) -> (previous: Option<V>)
        requires
            old(self).ordered(),
        ensures
            final(self).ordered(),
            final(self)@ == old(self)@.insert(name@, value@),
            previous is Some <==> old(self)@.contains_key(name@),
            previous is Some ==> old(self)@[name@] == previous.unwrap()@,
    {
        let ghost names0 = self.names();
        let ghost values0 = self.values();
        let wanted = to_chars(name.as_str());
        let mut i: usize = 0;
        while i < self.items.len()
            invariant
                i <= self.items@.len(),
                wanted@ == name@,
                *self == *old(self),
                names0 == self.names(),
                values0 == self.values(),
                names0.len() == values0.len(),
                ascending(names0),
                forall|j: int| 0 <= j < i ==> precedes(names0[j], name@),
            decreases self.items@.len() - i,
        {
            let here = to_chars(self.items[i].0.as_str());
            match rank(&here, &wanted) {
                Rank::Before => {},
                Rank::Same => {
                    let (_, previous) = self.items.remove(i);
                    assert(self.names() =~= names0.remove(i as int));
                    assert(ascending(self.names()));
                    self.items.insert(i, (name, value));
                    proof {
                        assert(self.names() =~= names0);
                        assert(self.values() =~= values0.update(i as int, value@));
                        lemma_table_update(names0, values0, i as int, value@);
                        lemma_table_at(names0, values0, i as int);
                    }
                    return Some(previous);
                },
                Rank::After => {
                    proof {
                        lemma_place(names0, i as int, name@);
                    }
                    self.items.insert(i, (name, value));
                    proof {
                        assert(self.names() =~= names0.insert(i as int, name@));
                        assert(self.values() =~= values0.insert(i as int, value@));
                        lemma_table_insert(names0, values0, i as int, name@, value@);
                    }
                    return None;
                },
            }
            i += 1;
        }
        proof {
            lemma_place(names0, i as int, name@);
        }
        self.items.push((name, value));
        proof {
            assert(self.names() =~= names0.insert(i as int, name@));
            assert(self.values() =~= values0.insert(i as int, value@));
            lemma_table_insert(names0, values0, i as int, name@, value@);
        }
        None
    }

    /// An ordered map lists its entries in ascending order of their names:
    /// the names it lists are those of the map, none twice, each with its
    /// value at the same position, and of two names the one that comes first
    /// in dictionary order is listed first.
    pub proof fn lemma_listing(&self)
        requires
            self.ordered(),
        ensures
            ascending(self.names()),
            self.values().len() == self.names().len(),
            forall|name: Seq<char>| self.names().contains(name) <==> self@.contains_key(name),
            forall|i: int|
                0 <= i < self.names().len() ==> self@[#[trigger] self.names()[i]] == self.values()[i],
            forall|i: int, j: int|
                0 <= i < self.names().len() && 0 <= j < self.names().len() && precedes(
                    #[trigger] self.names()[i],
                    #[trigger] self.names()[j],
                ) ==> i < j,
    {
        assert forall|i: int| 0 <= i < self.names().len() implies self@[#[trigger] self.names()[i]]
            == self.values()[i] by {
            lemma_table_at(self.names(), self.values(), i);
        }
        assert forall|i: int, j: int|
            0 <= i < self.names().len() && 0 <= j < self.names().len() && precedes(
                #[trigger] self.names()[i],
                #[trigger] self.names()[j],
            ) implies i < j by {
            if j < i {
                lemma_precedes_asymmetric(self.names()[j], self.names()[i]);
            } else if i == j {
                lemma_precedes_irreflexive(self.names()[i]);
            }
        }
    }

    /// An ordered map has as many entries as names.
    pub proof fn lemma_count(&self)
        requires
            self.ordered(),
        ensures
            self@.dom().finite(),
            self@.len() == self.names().len(),
            self.values().len() == self.names().len(),
    {
        lemma_table_count(self.names(), self.values());
    }

    /// Two ordered maps with the same contents list their entries in the
    /// same order.
    pub proof fn lemma_same_order(&self, other: &Self)
        requires
            self.ordered(),
            other.ordered(),
            self@ == other@,
        ensures
            self.names() == other.names(),
            self.values() == other.values(),
    {
        lemma_table_order(self.names(), self.values(), other.names(), other.values());
    }
}

} // verus!
