//! A map from text to values, kept in the dictionary order of its keys.

use vstd::prelude::*;
use crate::model::seq_view;
use crate::order::{text_lt, text_lt_irreflexive, text_lt_transitive, text_side, Side};
use crate::text::{has_prefix, starts_with};

verus! {

/// A value that can be compared with another one and copied, as far as its view
/// goes.
pub trait Value: View + Sized {
    /// Whether two values have the same view.
    fn same_value(&self, other: &Self) -> (r: bool)
        ensures
            r == (self@ == other@),
    ;

    /// A value with the same view.
    fn copy_value(&self) -> (out: Self)
        ensures
            out@ == self@,
    ;
}

impl Value for u64 {
    fn same_value(&self, other: &u64) -> (r: bool) {
        *self == *other
    }

    fn copy_value(&self) -> (out: u64) {
        *self
    }
}

/// Whether two lists have the same views.
pub fn same_list<V: Value>(a: &Vec<V>, b: &Vec<V>) -> (r: bool)
    ensures
        r == (seq_view(a@) == seq_view(b@)),
{
    assert(seq_view(a@).len() == a@.len() && seq_view(b@).len() == b@.len());
    if a.len() != b.len() {
        return false;
    }
    let mut i: usize = 0;
    while i < a.len()
        invariant
            i <= a@.len(),
            a@.len() == b@.len(),
            forall|j: int| 0 <= j < i ==> (#[trigger] a@[j])@ == b@[j]@,
        decreases a@.len() - i,
    {
        if !a[i].same_value(&b[i]) {
            assert(seq_view(a@)[i as int] != seq_view(b@)[i as int]);
            return false;
        }
        i = i + 1;
    }
    assert(seq_view(a@) =~= seq_view(b@));
    true
}

/// A list with the same views.
pub fn copy_list<V: Value>(a: &Vec<V>) -> (out: Vec<V>)
    ensures
        seq_view(out@) == seq_view(a@),
{
    let mut out: Vec<V> = Vec::new();
    let mut i: usize = 0;
    while i < a.len()
        invariant
            i <= a@.len(),
            out@.len() == i,
            forall|j: int| 0 <= j < i ==> (#[trigger] out@[j])@ == a@[j]@,
        decreases a@.len() - i,
    {
        out.push(a[i].copy_value());
        i = i + 1;
    }
    assert(seq_view(out@) =~= seq_view(a@));
    out
}

/// A map from text to values. Its view is the map from key texts to value
/// views; `keys` gives the keys in order.
#[derive(Debug)]
pub struct Table<V: View> {
    entries: Vec<(String, V)>,
}

/// The texts that begin with `prefix`.
pub open spec fn prefixed(prefix: Seq<char>) -> Set<Seq<char>> {
    Set::new(|k: Seq<char>| has_prefix(k, prefix))
}

/// Whether each text comes before the next.
pub open spec fn texts_ascending(k: Seq<Seq<char>>) -> bool {
    forall|i: int, j: int| 0 <= i < j < k.len() ==> text_lt(#[trigger] k[i], #[trigger] k[j])
}

/// The first key under which `k` stands in a sequence of entries.
spec fn position<V>(entries: Seq<(String, V)>, k: Seq<char>) -> int {
    choose|i: int| 0 <= i < entries.len() && #[trigger] entries[i].0@ == k
}

spec fn holds<V>(entries: Seq<(String, V)>, k: Seq<char>) -> bool {
    exists|i: int| 0 <= i < entries.len() && #[trigger] entries[i].0@ == k
}

spec fn keys_of<V>(entries: Seq<(String, V)>) -> Seq<Seq<char>> {
    Seq::new(entries.len(), |i: int| entries[i].0@)
}

spec fn map_of<V: View>(entries: Seq<(String, V)>) -> Map<Seq<char>, V::V> {
    Map::new(|k: Seq<char>| holds(entries, k), |k: Seq<char>| entries[position(entries, k)].1@)
}

proof fn lemma_entry<V: View>(entries: Seq<(String, V)>, i: int)
    requires
        texts_ascending(keys_of(entries)),
        0 <= i < entries.len(),
    ensures
        map_of(entries).dom().contains(entries[i].0@),
        map_of(entries)[entries[i].0@] == entries[i].1@,
{
    let k = entries[i].0@;
    let p = position(entries, k);
    assert(keys_of(entries)[i] == k && keys_of(entries)[p] == k);
    text_lt_irreflexive(k);
    assert(p == i);
}

/// Only the key that stands at a position has its place in the order there.
proof fn lemma_place<V: View>(entries: Seq<(String, V)>, k: Seq<char>, p: int)
    requires
        texts_ascending(keys_of(entries)),
        0 <= p <= entries.len(),
        forall|j: int| 0 <= j < p ==> text_lt(#[trigger] entries[j].0@, k),
        p < entries.len() ==> text_lt(k, entries[p].0@),
    ensures
        !map_of(entries).dom().contains(k),
        forall|j: int| p <= j < entries.len() ==> text_lt(k, #[trigger] entries[j].0@),
{
    text_lt_irreflexive(k);
    assert forall|i: int| p <= i < entries.len() implies text_lt(k, #[trigger] entries[i].0@) by {
        if i > p {
            assert(text_lt(keys_of(entries)[p], keys_of(entries)[i]));
            text_lt_transitive(k, entries[p].0@, entries[i].0@);
        }
    }
    assert forall|i: int| 0 <= i < entries.len() implies #[trigger] entries[i].0@ != k by {
        if i < p {
            assert(text_lt(entries[i].0@, k));
        }
    }
}

impl<V: View> View for Table<V> {
    type V = Map<Seq<char>, V::V>;

    closed spec fn view(&self) -> Map<Seq<char>, V::V> {
        map_of(self.entries@)
    }
}

impl<V: View> Table<V> {
    /// The keys, in order.
    pub closed spec fn keys(&self) -> Seq<Seq<char>> {
        keys_of(self.entries@)
    }

    #[verifier::type_invariant]
    closed spec fn well_formed(&self) -> bool {
        texts_ascending(keys_of(self.entries@))
    }

    /// An empty table.
    pub fn new() -> (t: Self)
        ensures
            t@ == Map::<Seq<char>, V::V>::empty(),
    {
        let t = Table { entries: Vec::new() };
        assert(t@ =~= Map::<Seq<char>, V::V>::empty());
        t
    }

    /// The number of entries, each with a key of its own and in the order of
    /// the keys.
    pub fn len(&self) -> (n: usize)
        ensures
            n == self.keys().len(),
            texts_ascending(self.keys()),
            forall|k: Seq<char>| #[trigger] self@.dom().contains(k) <==> self.keys().contains(k),
    {
        proof {
            use_type_invariant(self);
            assert forall|k: Seq<char>| #[trigger] self@.dom().contains(k) <==> self.keys().contains(
                k,
            ) by {
                if self@.dom().contains(k) {
                    let i = position(self.entries@, k);
                    assert(self.keys()[i] == k);
                }
                if self.keys().contains(k) {
                    let i = choose|i: int| 0 <= i < self.keys().len() && self.keys()[i] == k;
                    assert(self.entries@[i].0@ == k);
                }
            }
        }
        self.entries.len()
    }

    /// Whether there is no entry.
    pub fn is_empty(&self) -> (r: bool)
        ensures
            r == (self@ == Map::<Seq<char>, V::V>::empty()),
            r == (self.keys().len() == 0),
    {
        proof {
            use_type_invariant(self);
            if self.entries@.len() > 0 {
                lemma_entry(self.entries@, 0);
            } else {
                assert(self@ =~= Map::<Seq<char>, V::V>::empty());
            }
        }
        self.entries.len() == 0
    }

    /// The key at position `i` of the order.
    pub fn key_at(&self, i: usize) -> (k: &str)
        requires
            i < self.keys().len(),
        ensures
            k@ == self.keys()[i as int],
            self@.dom().contains(k@),
    {
        proof {
            use_type_invariant(self);
            lemma_entry(self.entries@, i as int);
        }
        self.entries[i].0.as_str()
    }

    /// The value at position `i` of the order.
    pub fn value_at(&self, i: usize) -> (v: &V)
        requires
            i < self.keys().len(),
        ensures
            v@ == self@[self.keys()[i as int]],
    {
        proof {
            use_type_invariant(self);
            lemma_entry(self.entries@, i as int);
        }
        &self.entries[i].1
    }

    /// The first position whose key is not before `k`, and whether it is `k`.
    fn place(&self, k: &str) -> (r: (usize, bool))
        ensures
            r.0 <= self.entries@.len(),
            forall|j: int| 0 <= j < r.0 ==> text_lt(#[trigger] self.entries@[j].0@, k@),
            r.1 ==> r.0 < self.entries@.len() && self.entries@[r.0 as int].0@ == k@,
            !r.1 && r.0 < self.entries@.len() ==> text_lt(k@, self.entries@[r.0 as int].0@),
    {
        let mut i: usize = 0;
        while i < self.entries.len()
            invariant
                i <= self.entries@.len(),
                forall|j: int| 0 <= j < i ==> text_lt(#[trigger] self.entries@[j].0@, k@),
            decreases self.entries@.len() - i,
        {
            match text_side(self.entries[i].0.as_str(), k) {
                Side::Before => {},
                Side::Equal => {
                    return (i, true);
                },
                Side::Behind => {
                    return (i, false);
                },
            }
            i = i + 1;
        }
        (i, false)
    }

    /// The value under `k`.
    pub fn get(&self, k: &str) -> (r: Option<&V>)
        ensures
            match r {
                Some(v) => self@.dom().contains(k@) && v@ == self@[k@],
                None => !self@.dom().contains(k@),
            },
    {
        proof {
            use_type_invariant(self);
        }
        let (p, found) = self.place(k);
        if found {
            proof {
                lemma_entry(self.entries@, p as int);
            }
            Some(&self.entries[p].1)
        } else {
            proof {
                lemma_place(self.entries@, k@, p as int);
            }
            None
        }
    }

    /// Whether there is a value under `k`.
    pub fn contains(&self, k: &str) -> (r: bool)
        ensures
            r == self@.dom().contains(k@),
    {
        self.get(k).is_some()
    }

    /// Hands the entries out and leaves an empty table.
    fn take_entries(&mut self) -> (out: Vec<(String, V)>)
        ensures
            out@ == old(self).entries@,
    {
        let mut out: Vec<(String, V)> = Vec::new();
        std::mem::swap(&mut out, &mut self.entries);
        out
    }

    /// Puts `v` under `k`, in place of what stood there.
    pub fn insert(&mut self, k: String, v: V)
        ensures
            final(self)@ == old(self)@.insert(k@, v@),
    {
        proof {
            use_type_invariant(&*self);
        }
        let ghost before = self.entries@;
        let (p, found) = self.place(k.as_str());
        let ghost key = k@;
        let ghost value = v@;
        if found {
            let mut next = self.take_entries();
            next.set(p, (k, v));
            assert(keys_of(next@) =~= keys_of(before));
            self.entries = next;
        } else {
            proof {
                lemma_place(before, k@, p as int);
                let next = before.insert(p as int, (k, v));
                assert forall|i: int, j: int| 0 <= i < j < next.len() implies text_lt(
                    #[trigger] keys_of(next)[i],
                    #[trigger] keys_of(next)[j],
                ) by {
                    if i < p && j > p {
                        assert(text_lt(keys_of(before)[i], keys_of(before)[j - 1]));
                    } else if i < p && j < p {
                        assert(text_lt(keys_of(before)[i], keys_of(before)[j]));
                    } else if i > p {
                        assert(text_lt(keys_of(before)[i - 1], keys_of(before)[j - 1]));
                    } else if i == p {
                        assert(text_lt(key, before[j - 1].0@));
                    } else {
                        assert(text_lt(before[i].0@, key));
                    }
                }
            }
            let mut next = self.take_entries();
            next.insert(p, (k, v));
            self.entries = next;
        }
        proof {
            let after = self.entries@;
            assert forall|x: Seq<char>| map_of(after).dom().contains(x) <==> map_of(before).insert(
                key,
                value,
            ).dom().contains(x) by {
                if map_of(after).dom().contains(x) {
                    let i = position(after, x);
                    if i != p {
                        let o = if found || i < p {
                            i
                        } else {
                            i - 1
                        };
                        assert(before[o].0@ == x);
                    }
                }
                if map_of(before).dom().contains(x) {
                    let i = position(before, x);
                    let n = if found || i < p {
                        i
                    } else {
                        i + 1
                    };
                    assert(after[n].0@ == x);
                }
                assert(after[p as int].0@ == key);
            }
            assert forall|x: Seq<char>| map_of(after).dom().contains(x) implies map_of(after)[x]
                == map_of(before).insert(key, value)[x] by {
                let i = position(after, x);
                lemma_entry(after, i);
                lemma_entry(after, p as int);
                if x != key {
                    let o = if found || i < p {
                        i
                    } else {
                        i - 1
                    };
                    lemma_entry(before, o);
                }
            }
            assert(map_of(after) =~= map_of(before).insert(key, value));
        }
    }

    /// Takes out what stands under `k`, and says whether something did.
    pub fn remove(&mut self, k: &str) -> (r: bool)
        ensures
            r == old(self)@.dom().contains(k@),
            final(self)@ == old(self)@.remove(k@),
    {
        proof {
            use_type_invariant(&*self);
        }
        let ghost before = self.entries@;
        let (p, found) = self.place(k);
        if !found {
            proof {
                lemma_place(before, k@, p as int);
                assert(self@ =~= old(self)@.remove(k@));
            }
            return false;
        }
        proof {
            lemma_entry(before, p as int);
            let next = before.remove(p as int);
            assert forall|i: int, j: int| 0 <= i < j < next.len() implies text_lt(
                #[trigger] keys_of(next)[i],
                #[trigger] keys_of(next)[j],
            ) by {
                let a = if i < p {
                    i
                } else {
                    i + 1
                };
                let b = if j < p {
                    j
                } else {
                    j + 1
                };
                assert(text_lt(keys_of(before)[a], keys_of(before)[b]));
            }
        }
        let mut next = self.take_entries();
        next.remove(p);
        self.entries = next;
        proof {
            let after = self.entries@;
            assert forall|x: Seq<char>| map_of(after).dom().contains(x) <==> map_of(before).remove(
                k@,
            ).dom().contains(x) by {
                text_lt_irreflexive(x);
                if map_of(after).dom().contains(x) {
                    let i = position(after, x);
                    let o = if i < p {
                        i
                    } else {
                        i + 1
                    };
                    assert(before[o].0@ == x);
                    if x == k@ {
                        assert(keys_of(before)[o] == keys_of(before)[p as int]);
                        assert(o < p ==> text_lt(keys_of(before)[o], keys_of(before)[p as int]));
                        assert(o > p ==> text_lt(keys_of(before)[p as int], keys_of(before)[o]));
                    }
                }
                if map_of(before).dom().contains(x) && x != k@ {
                    let i = position(before, x);
                    let n = if i < p {
                        i
                    } else {
                        i - 1
                    };
                    assert(after[n].0@ == x);
                }
            }
            assert forall|x: Seq<char>| map_of(after).dom().contains(x) implies map_of(after)[x]
                == map_of(before).remove(k@)[x] by {
                let i = position(after, x);
                lemma_entry(after, i);
                let o = if i < p {
                    i
                } else {
                    i + 1
                };
                lemma_entry(before, o);
            }
            assert(map_of(after) =~= map_of(before).remove(k@));
        }
        true
    }

    /// Takes out every entry.
    pub fn clear(&mut self)
        ensures
            final(self)@ == Map::<Seq<char>, V::V>::empty(),
    {
        self.entries = Vec::new();
        assert(self@ =~= Map::<Seq<char>, V::V>::empty());
    }

    /// Takes out the entries whose key begins with `prefix`.
    pub fn remove_prefixed(&mut self, prefix: &str)
        ensures
            final(self)@ == old(self)@.remove_keys(prefixed(prefix@)),
    {
        let ghost drop = prefixed(prefix@);
        let ghost whole = self@;
        let ghost order = self.keys();
        let mut doomed: Vec<String> = Vec::new();
        let n: usize = self.len();
        let mut i: usize = 0;
        while i < n
            invariant
                i <= n,
                n == self.keys().len(),
                self@ == whole,
                self.keys() == order,
                forall|j: int| 0 <= j < doomed@.len() ==> has_prefix(#[trigger] doomed@[j]@, prefix@),
                forall|j: int|
                    0 <= j < i && has_prefix(#[trigger] order[j], prefix@) ==> exists|m: int|
                        0 <= m < doomed@.len() && #[trigger] doomed@[m]@ == order[j],
            decreases n - i,
        {
            if starts_with(self.key_at(i), prefix) {
                let ghost prior = doomed@;
                doomed.push(self.key_at(i).to_owned());
                proof {
                    assert forall|j: int|
                        0 <= j < i + 1 && has_prefix(#[trigger] order[j], prefix@) implies exists|
                        m: int,
                    |
                        0 <= m < doomed@.len() && #[trigger] doomed@[m]@ == order[j] by {
                        if j == i {
                            assert(doomed@[prior.len() as int]@ == order[j]);
                        } else {
                            let m = choose|m: int|
                                0 <= m < prior.len() && #[trigger] prior[m]@ == order[j];
                            assert(doomed@[m]@ == order[j]);
                        }
                    }
                }
            }
            i = i + 1;
        }
        assert forall|k: Seq<char>| #[trigger] whole.dom().contains(k) && has_prefix(k, prefix@) implies exists|
            m: int,
        |
            0 <= m < doomed@.len() && #[trigger] doomed@[m]@ == k by {
            assert(order.contains(k));
            let j = choose|j: int| 0 <= j < order.len() && order[j] == k;
            assert(has_prefix(order[j], prefix@));
        }
        let mut m: usize = 0;
        while m < doomed.len()
            invariant
                m <= doomed@.len(),
                forall|j: int| 0 <= j < doomed@.len() ==> has_prefix(#[trigger] doomed@[j]@, prefix@),
                self@.submap_of(whole),
                forall|k: Seq<char>|
                    #![auto]
                    whole.dom().contains(k) && !self@.dom().contains(k) ==> has_prefix(k, prefix@),
                forall|j: int| 0 <= j < m ==> !self@.dom().contains(#[trigger] doomed@[j]@),
            decreases doomed@.len() - m,
        {
            self.remove(doomed[m].as_str());
            m = m + 1;
        }
        assert(self@ =~= whole.remove_keys(drop));
    }
}

impl<V: View + Copy> Table<V> {
    /// The value under `k`, by copy.
    pub fn copied(&self, k: &str) -> (r: Option<V>)
        ensures
            match r {
                Some(v) => self@.dom().contains(k@) && v@ == self@[k@],
                None => !self@.dom().contains(k@),
            },
    {
        match self.get(k) {
            Some(v) => Some(*v),
            None => None,
        }
    }
}

impl<V: Value> Table<V> {
    /// A table with the same entries.
    pub fn duplicate(&self) -> (out: Self)
        ensures
            out@ == self@,
    {
        let mut out: Table<V> = Table::new();
        let n: usize = self.len();
        let mut i: usize = 0;
        while i < n
            invariant
                i <= n,
                n == self.keys().len(),
                texts_ascending(self.keys()),
                forall|k: Seq<char>| #[trigger]
                    out@.dom().contains(k) <==> self.keys().take(i as int).contains(k),
                forall|k: Seq<char>| #[trigger] out@.dom().contains(k) ==> out@[k] == self@[k],
            decreases n - i,
        {
            let ghost k = self.keys()[i as int];
            let ghost prior = out@;
            out.insert(self.key_at(i).to_owned(), self.value_at(i).copy_value());
            proof {
                let a = self.keys().take(i as int);
                let b = self.keys().take(i + 1);
                assert(b =~= a.push(k));
                assert forall|x: Seq<char>| b.contains(x) <==> (a.contains(x) || x == k) by {
                    if a.contains(x) {
                        let j = choose|j: int| 0 <= j < a.len() && a[j] == x;
                        assert(b[j] == x);
                    }
                    if x == k {
                        assert(b[i as int] == x);
                    }
                }
                assert forall|x: Seq<char>| #[trigger] out@.dom().contains(x) <==> b.contains(x) by {
                    assert(prior.dom().contains(x) <==> a.contains(x));
                }
            }
            i = i + 1;
        }
        proof {
            assert(self.keys().take(n as int) =~= self.keys());
            self.lemma_keys();
            assert(out@ =~= self@);
        }
        out
    }

    proof fn lemma_keys(&self)
        ensures
            forall|k: Seq<char>| #[trigger] self@.dom().contains(k) <==> self.keys().contains(k),
    {
        assert forall|k: Seq<char>| #[trigger] self@.dom().contains(k) <==> self.keys().contains(k) by {
            if self@.dom().contains(k) {
                let i = position(self.entries@, k);
                assert(self.keys()[i] == k);
            }
            if self.keys().contains(k) {
                let i = choose|i: int| 0 <= i < self.keys().len() && self.keys()[i] == k;
                assert(self.entries@[i].0@ == k);
            }
        }
    }

    /// Whether two tables hold the same entries.
    pub fn same_as(&self, other: &Table<V>) -> (r: bool)
        ensures
            r == (self@ == other@),
    {
        let n: usize = self.len();
        let m: usize = other.len();
        let mut i: usize = 0;
        while i < n
            invariant
                i <= n,
                n == self.keys().len(),
                forall|j: int|
                    0 <= j < i ==> other@.dom().contains(#[trigger] self.keys()[j])
                        && other@[self.keys()[j]] == self@[self.keys()[j]],
            decreases n - i,
        {
            let key = self.key_at(i);
            match other.get(key) {
                Some(v) => {
                    if !v.same_value(self.value_at(i)) {
                        return false;
                    }
                },
                None => {
                    return false;
                },
            }
            i = i + 1;
        }
        let mut j: usize = 0;
        while j < m
            invariant
                j <= m,
                m == other.keys().len(),
                forall|x: int| 0 <= x < j ==> self@.dom().contains(#[trigger] other.keys()[x]),
            decreases m - j,
        {
            if !self.contains(other.key_at(j)) {
                return false;
            }
            j = j + 1;
        }
        proof {
            self.lemma_keys();
            other.lemma_keys();
            assert forall|k: Seq<char>| self@.dom().contains(k) <==> other@.dom().contains(k) by {
                if self@.dom().contains(k) {
                    let x = choose|x: int| 0 <= x < self.keys().len() && self.keys()[x] == k;
                    assert(other@.dom().contains(self.keys()[x]));
                }
                if other@.dom().contains(k) {
                    let x = choose|x: int| 0 <= x < other.keys().len() && other.keys()[x] == k;
                    assert(self@.dom().contains(other.keys()[x]));
                }
            }
            assert forall|k: Seq<char>| self@.dom().contains(k) implies self@[k] == other@[k] by {
                let x = choose|x: int| 0 <= x < self.keys().len() && self.keys()[x] == k;
                assert(other@[self.keys()[x]] == self@[self.keys()[x]]);
            }
            assert(self@ =~= other@);
        }
        true
    }
}

} // verus!
