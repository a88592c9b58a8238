//! Orders: the dictionary order of texts, and ascending runs of integers
//! without repetition.

use vstd::prelude::*;
use crate::text::chars_of;

verus! {

/// Whether `a` comes before `b` in the order of code points.
pub open spec fn text_lt(a: Seq<char>, b: Seq<char>) -> bool
    decreases a.len(),
{
    if b.len() == 0 {
        false
    } else if a.len() == 0 {
        true
    } else if a[0] != b[0] {
        a[0] < b[0]
    } else {
        text_lt(a.drop_first(), b.drop_first())
    }
}

/// No text comes before itself.
pub proof fn text_lt_irreflexive(a: Seq<char>)
    ensures
        !text_lt(a, a),
    decreases a.len(),
{
    if a.len() > 0 {
        text_lt_irreflexive(a.drop_first());
    }
}

/// The order of texts is transitive.
pub proof fn text_lt_transitive(a: Seq<char>, b: Seq<char>, c: Seq<char>)
    requires
        text_lt(a, b),
        text_lt(b, c),
    ensures
        text_lt(a, c),
    decreases a.len(),
{
    if a.len() > 0 && b.len() > 0 && c.len() > 0 && a[0] == b[0] && b[0] == c[0] {
        text_lt_transitive(a.drop_first(), b.drop_first(), c.drop_first());
    }
}

/// Of two different texts one comes first.
pub proof fn text_lt_total(a: Seq<char>, b: Seq<char>)
    ensures
        text_lt(a, b) || text_lt(b, a) || a == b,
    decreases a.len(),
{
    if a.len() == 0 || b.len() == 0 {
        assert(a.len() == 0 && b.len() == 0 ==> a =~= b);
    } else if a[0] == b[0] {
        text_lt_total(a.drop_first(), b.drop_first());
        if a.drop_first() == b.drop_first() {
            assert(a =~= seq![a[0]] + a.drop_first());
            assert(b =~= seq![b[0]] + b.drop_first());
        }
    }
}

/// How one text relates to another.
#[derive(Clone, Copy, PartialEq, Eq, Structural)]
pub enum Side {
    Before,
    Equal,
    Behind,
}

/// Places `a` relative to `b`.
pub fn text_side(a: &str, b: &str) -> (r: Side)
    ensures
        r == Side::Before <==> text_lt(a@, b@),
        r == Side::Equal <==> a@ == b@,
        r == Side::Behind <==> text_lt(b@, a@),
{
    let x = chars_of(a);
    let y = chars_of(b);
    proof {
        assert(a@.skip(0) =~= a@);
        assert(b@.skip(0) =~= b@);
    }
    let mut i: usize = 0;
    while i < x.len() && i < y.len() && x[i] == y[i]
        invariant
            i <= x@.len(),
            i <= y@.len(),
            x@ == a@,
            y@ == b@,
            forall|j: int| 0 <= j < i ==> x@[j] == y@[j],
            text_lt(a@.skip(i as int), b@.skip(i as int)) == text_lt(a@, b@),
            text_lt(b@.skip(i as int), a@.skip(i as int)) == text_lt(b@, a@),
        decreases x@.len() - i,
    {
        proof {
            assert(a@.skip(i as int).drop_first() =~= a@.skip(i + 1));
            assert(b@.skip(i as int).drop_first() =~= b@.skip(i + 1));
        }
        i = i + 1;
    }
    proof {
        text_lt_irreflexive(a@);
        if i == x@.len() && i == y@.len() {
            assert(a@ =~= b@);
        } else if i < x@.len() && i < y@.len() {
            assert(a@[i as int] != b@[i as int]);
            assert(a@.skip(i as int)[0] == a@[i as int]);
            assert(b@.skip(i as int)[0] == b@[i as int]);
        }
    }
    if i == x.len() {
        if i == y.len() {
            Side::Equal
        } else {
            Side::Before
        }
    } else if i == y.len() {
        Side::Behind
    } else if x[i] < y[i] {
        Side::Before
    } else {
        Side::Behind
    }
}

/// Whether each number is larger than the one before it.
pub open spec fn ascending(v: Seq<u64>) -> bool {
    forall|i: int, j: int| 0 <= i < j < v.len() ==> v[i] < v[j]
}

/// Two ascending runs of the same numbers are the same run.
pub proof fn ascending_unique(a: Seq<u64>, b: Seq<u64>)
    requires
        ascending(a),
        ascending(b),
        a.to_set() == b.to_set(),
    ensures
        a == b,
    decreases a.len(),
{
    if a.len() == 0 {
        if b.len() > 0 {
            assert(b.to_set().contains(b[0]));
            assert(a.to_set().contains(b[0]));
        }
        assert(a =~= b);
    } else {
        assert(a.to_set().contains(a.last()));
        let k = choose|k: int| 0 <= k < b.len() && b[k] == a.last();
        assert(b.to_set().contains(b.last()));
        let m = choose|m: int| 0 <= m < a.len() && a[m] == b.last();
        assert(a.last() == b.last());
        let x = a.drop_last();
        let y = b.drop_last();
        assert(ascending(x) && ascending(y));
        assert forall|e: u64| x.to_set().contains(e) <==> y.to_set().contains(e) by {
            if x.to_set().contains(e) {
                let i = choose|i: int| 0 <= i < x.len() && x[i] == e;
                assert(a.to_set().contains(a[i]));
                let j = choose|j: int| 0 <= j < b.len() && b[j] == e;
                assert(j < b.len() - 1);
                assert(y[j] == e);
            }
            if y.to_set().contains(e) {
                let i = choose|i: int| 0 <= i < y.len() && y[i] == e;
                assert(b.to_set().contains(b[i]));
                let j = choose|j: int| 0 <= j < a.len() && a[j] == e;
                assert(j < a.len() - 1);
                assert(x[j] == e);
            }
        }
        assert(x.to_set() =~= y.to_set());
        ascending_unique(x, y);
        assert(a =~= x.push(a.last()));
        assert(b =~= y.push(b.last()));
    }
}

/// Puts `value` at its place in an ascending run, unless it stands there.
pub fn insert_ascending(v: &mut Vec<u64>, value: u64)
    requires
        ascending(old(v)@),
    ensures
        ascending(final(v)@),
        final(v)@.to_set() == old(v)@.to_set().insert(value),
{
    let ghost before = v@;
    let mut i: usize = 0;
    while i < v.len() && v[i] < value
        invariant
            i <= v@.len(),
            v@ == before,
            forall|j: int| 0 <= j < i ==> v@[j] < value,
        decreases v@.len() - i,
    {
        i = i + 1;
    }
    if i < v.len() && v[i] == value {
        assert(before.to_set().contains(before[i as int]));
        assert(v@.to_set() =~= before.to_set().insert(value));
        return;
    }
    v.insert(i, value);
    proof {
        assert(v@[i as int] == value);
        assert forall|e: u64| v@.to_set().contains(e) <==> before.to_set().insert(value).contains(
            e,
        ) by {
            if v@.to_set().contains(e) {
                let k = choose|k: int| 0 <= k < v@.len() && v@[k] == e;
                if k < i {
                    assert(before[k] == e);
                } else if k > i {
                    assert(before[k - 1] == e);
                }
            }
            if before.contains(e) {
                let k = choose|k: int| 0 <= k < before.len() && before[k] == e;
                if k < i {
                    assert(v@[k] == e);
                } else {
                    assert(v@[k + 1] == e);
                }
            }
        }
        assert(v@.to_set() =~= before.to_set().insert(value));
    }
}

/// The numbers of `v`, each once, in ascending order: `sort` followed by
/// `dedup`.
pub fn sorted_distinct(v: &Vec<u64>) -> (out: Vec<u64>)
    ensures
        ascending(out@),
        out@.to_set() == v@.to_set(),
{
    let mut out: Vec<u64> = Vec::new();
    let mut i: usize = 0;
    assert(out@.to_set() =~= v@.take(0).to_set());
    while i < v.len()
        invariant
            i <= v@.len(),
            ascending(out@),
            out@.to_set() == v@.take(i as int).to_set(),
        decreases v@.len() - i,
    {
        insert_ascending(&mut out, v[i]);
        proof {
            let a = v@.take(i as int);
            let b = v@.take(i + 1);
            assert(b =~= a.push(v@[i as int]));
            assert forall|e: u64| b.to_set().contains(e) <==> a.to_set().insert(
                v@[i as int],
            ).contains(e) by {
                if a.contains(e) {
                    let k = choose|k: int| 0 <= k < a.len() && a[k] == e;
                    assert(b[k] == e);
                }
                if e == v@[i as int] {
                    assert(b[i as int] == e);
                }
            }
            assert(b.to_set() =~= a.to_set().insert(v@[i as int]));
        }
        i = i + 1;
    }
    assert(v@.take(i as int) =~= v@);
    out
}

/// The numbers of `s` from small to large, repetitions kept.
pub open spec fn sorted_numbers(s: Seq<u64>) -> Seq<u64> {
    s.sort_by(|a: u64, b: u64| a <= b)
}

/// `sort` on numbers.
pub fn sort_numbers(v: &Vec<u64>) -> (out: Vec<u64>)
    ensures
        out@ == sorted_numbers(v@),
        out@.len() == v@.len(),
{
    let ghost leq = |a: u64, b: u64| a <= b;
    let mut out: Vec<u64> = Vec::new();
    let mut i: usize = 0;
    assert(out@ =~= v@.take(0));
    while i < v.len()
        invariant
            i <= v@.len(),
            leq == (|a: u64, b: u64| a <= b),
            out@.len() == i,
            forall|a: int, b: int| 0 <= a < b < out@.len() ==> out@[a] <= out@[b],
            out@.to_multiset() == v@.take(i as int).to_multiset(),
        decreases v@.len() - i,
    {
        let x: u64 = v[i];
        let mut k: usize = 0;
        while k < out.len() && out[k] <= x
            invariant
                k <= out@.len(),
                forall|a: int| 0 <= a < k ==> out@[a] <= x,
            decreases out@.len() - k,
        {
            k = k + 1;
        }
        let ghost prior = out@;
        out.insert(k, x);
        proof {
            assert(v@.take(i + 1) =~= v@.take(i as int).push(x));
            prior.to_multiset_ensures();
            v@.take(i as int).to_multiset_ensures();
            out@.to_multiset_ensures();
            assert(out@.remove(k as int) =~= prior);
            assert(out@.contains(x)) by {
                assert(out@[k as int] == x);
            }
            assert(out@.to_multiset() =~= prior.to_multiset().insert(x));
        }
        i = i + 1;
    }
    proof {
        assert(v@.take(i as int) =~= v@);
        assert(vstd::relations::total_ordering(leq));
        v@.lemma_sort_by_ensures(leq);
        assert(vstd::relations::sorted_by(out@, leq));
        vstd::seq_lib::lemma_sorted_unique(out@, v@.sort_by(leq), leq);
        assert(sorted_numbers(v@) == v@.sort_by(leq));
    }
    out
}

/// Any row of the same numbers that goes up is their sorted row.
pub proof fn sorted_row_is_unique(s: Seq<u64>, row: Seq<u64>)
    requires
        row.to_multiset() == s.to_multiset(),
        forall|i: int, j: int| 0 <= i < j < row.len() ==> row[i] <= row[j],
    ensures
        sorted_numbers(s) == row,
        row.len() == s.len(),
        forall|x: u64| row.contains(x) ==> s.contains(x),
{
    let leq = |a: u64, b: u64| a <= b;
    assert(vstd::relations::total_ordering(leq));
    s.lemma_sort_by_ensures(leq);
    assert(vstd::relations::sorted_by(row, leq));
    vstd::seq_lib::lemma_sorted_unique(row, s.sort_by(leq), leq);
    assert(sorted_numbers(s) == s.sort_by(leq));
    s.to_multiset_ensures();
    row.to_multiset_ensures();
}

/// The ascending run of the given numbers.
pub open spec fn ascending_of(s: Set<u64>) -> Seq<u64> {
    choose|v: Seq<u64>| ascending(v) && v.to_set() == s
}

/// An ascending run is the run of its numbers.
pub proof fn ascending_is_of(v: Seq<u64>)
    requires
        ascending(v),
    ensures
        v == ascending_of(v.to_set()),
{
    ascending_unique(v, ascending_of(v.to_set()));
}

} // verus!
