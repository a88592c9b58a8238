//! Sets of kernel CPU identifiers.

use vstd::prelude::*;

verus! {

/// A set of CPU identifiers, kept in ascending order. The identifiers need not
/// be dense.
#[derive(Debug, PartialEq, Eq)]
pub struct CpuIds {
    ids: Vec<u32>,
}

/// Whether each identifier is larger than the one before it.
pub open spec fn ids_ascending(v: Seq<u32>) -> bool {
    forall|i: int, j: int| 0 <= i < j < v.len() ==> v[i] < v[j]
}

impl View for CpuIds {
    type V = Set<u32>;

    closed spec fn view(&self) -> Set<u32> {
        self.ids@.to_set()
    }
}

/// Two ascending runs of the same identifiers are the same run.
pub proof fn ids_unique(a: Seq<u32>, b: Seq<u32>)
    requires
        ids_ascending(a),
        ids_ascending(b),
        a.to_set() == b.to_set(),
    ensures
        a == b,
    decreases a.len(),
{
    if a.len() == 0 {
        if b.len() > 0 {
            assert(b.to_set().contains(b[0]));
            assert(a.to_set().contains(b[0]));
        }
        assert(a =~= b);
    } else {
        assert(a.to_set().contains(a.last()));
        let k = choose|k: int| 0 <= k < b.len() && b[k] == a.last();
        assert(b.to_set().contains(b.last()));
        let m = choose|m: int| 0 <= m < a.len() && a[m] == b.last();
        assert(a.last() == b.last());
        let x = a.drop_last();
        let y = b.drop_last();
        assert forall|e: u32| x.to_set().contains(e) <==> y.to_set().contains(e) by {
            if x.to_set().contains(e) {
                let i = choose|i: int| 0 <= i < x.len() && x[i] == e;
                assert(a.to_set().contains(a[i]));
                let j = choose|j: int| 0 <= j < b.len() && b[j] == e;
                assert(y[j] == e);
            }
            if y.to_set().contains(e) {
                let i = choose|i: int| 0 <= i < y.len() && y[i] == e;
                assert(b.to_set().contains(b[i]));
                let j = choose|j: int| 0 <= j < a.len() && a[j] == e;
                assert(x[j] == e);
            }
        }
        assert(x.to_set() =~= y.to_set());
        ids_unique(x, y);
        assert(a =~= x.push(a.last()));
        assert(b =~= y.push(b.last()));
    }
}

impl CpuIds {
    /// The identifiers in ascending order.
    pub closed spec fn ids(&self) -> Seq<u32> {
        self.ids@
    }

    #[verifier::type_invariant]
    closed spec fn well_formed(&self) -> bool {
        ids_ascending(self.ids@)
    }

    /// The empty set.
    pub fn new() -> (s: Self)
        ensures
            s@ == Set::<u32>::empty(),
    {
        let s = CpuIds { ids: Vec::new() };
        assert(s@ =~= Set::<u32>::empty());
        s
    }

    /// The number of identifiers; they stand in ascending order.
    pub fn len(&self) -> (n: usize)
        ensures
            n == self.ids().len(),
            ids_ascending(self.ids()),
            self.ids().to_set() == self@,
    {
        proof {
            use_type_invariant(self);
        }
        self.ids.len()
    }

    /// Whether there is no identifier.
    pub fn is_empty(&self) -> (r: bool)
        ensures
            r == (self@ == Set::<u32>::empty()),
            r == (self.ids().len() == 0),
    {
        proof {
            if self.ids@.len() > 0 {
                assert(self@.contains(self.ids@[0]));
            } else {
                assert(self@ =~= Set::<u32>::empty());
            }
        }
        self.ids.len() == 0
    }

    /// The identifier at position `i` of the order.
    pub fn at(&self, i: usize) -> (id: u32)
        requires
            i < self.ids().len(),
        ensures
            id == self.ids()[i as int],
            self@.contains(id),
    {
        assert(self@.contains(self.ids@[i as int]));
        self.ids[i]
    }

    /// The identifiers in ascending order.
    pub fn to_vec(&self) -> (out: Vec<u32>)
        ensures
            out@ == self.ids(),
            ids_ascending(out@),
            out@.to_set() == self@,
    {
        proof {
            use_type_invariant(self);
        }
        let mut out: Vec<u32> = Vec::new();
        let mut i: usize = 0;
        while i < self.ids.len()
            invariant
                i <= self.ids@.len(),
                out@ == self.ids@.take(i as int),
            decreases self.ids@.len() - i,
        {
            out.push(self.ids[i]);
            i = i + 1;
            assert(out@ =~= self.ids@.take(i as int));
        }
        assert(self.ids@.take(i as int) =~= self.ids@);
        out
    }

    /// Whether `id` is in the set.
    pub fn contains(&self, id: u32) -> (r: bool)
        ensures
            r == self@.contains(id),
    {
        let mut i: usize = 0;
        while i < self.ids.len()
            invariant
                i <= self.ids@.len(),
                forall|j: int| 0 <= j < i ==> self.ids@[j] != id,
            decreases self.ids@.len() - i,
        {
            if self.ids[i] == id {
                assert(self.ids@.contains(id));
                return true;
            }
            i = i + 1;
        }
        false
    }

    /// Puts `id` into the set, and says whether it was new.
    pub fn insert(&mut self, id: u32) -> (r: bool)
        ensures
            r == !old(self)@.contains(id),
            final(self)@ == old(self)@.insert(id),
    {
        proof {
            use_type_invariant(&*self);
        }
        let ghost before = self.ids@;
        let mut next: Vec<u32> = Vec::new();
        std::mem::swap(&mut next, &mut self.ids);
        let mut i: usize = 0;
        while i < next.len() && next[i] < id
            invariant
                i <= next@.len(),
                next@ == before,
                forall|j: int| 0 <= j < i ==> next@[j] < id,
            decreases next@.len() - i,
        {
            i = i + 1;
        }
        if i < next.len() && next[i] == id {
            assert(before.contains(id));
            self.ids = next;
            assert(self@ =~= old(self)@.insert(id));
            return false;
        }
        next.insert(i, id);
        proof {
            assert(next@[i as int] == id);
            assert forall|e: u32| next@.to_set().contains(e) <==> before.to_set().insert(
                id,
            ).contains(e) by {
                if next@.to_set().contains(e) {
                    let k = choose|k: int| 0 <= k < next@.len() && next@[k] == e;
                    if k < i {
                        assert(before[k] == e);
                    } else if k > i {
                        assert(before[k - 1] == e);
                    }
                }
                if before.contains(e) {
                    let k = choose|k: int| 0 <= k < before.len() && before[k] == e;
                    if k < i {
                        assert(next@[k] == e);
                    } else {
                        assert(next@[k + 1] == e);
                    }
                }
            }
            assert(next@.to_set() =~= before.to_set().insert(id));
            if before.contains(id) {
                let k = choose|k: int| 0 <= k < before.len() && before[k] == id;
                assert(k >= i);
            }
        }
        self.ids = next;
        true
    }

    /// Whether every identifier of this set is in `other`.
    pub fn is_subset(&self, other: &CpuIds) -> (r: bool)
        ensures
            r == self@.subset_of(other@),
    {
        let mut i: usize = 0;
        while i < self.ids.len()
            invariant
                i <= self.ids@.len(),
                forall|j: int| 0 <= j < i ==> other@.contains(#[trigger] self.ids@[j]),
            decreases self.ids@.len() - i,
        {
            if !other.contains(self.ids[i]) {
                assert(self@.contains(self.ids@[i as int]));
                return false;
            }
            i = i + 1;
        }
        true
    }

    /// Whether two sets hold the same identifiers.
    pub fn same_as(&self, other: &CpuIds) -> (r: bool)
        ensures
            r == (self@ == other@),
    {
        let r = self.is_subset(other) && other.is_subset(self);
        assert(r ==> self@ =~= other@);
        r
    }

    /// A set with the same identifiers.
    pub fn duplicate(&self) -> (out: CpuIds)
        ensures
            out@ == self@,
    {
        proof {
            use_type_invariant(self);
        }
        let ids = self.to_vec();
        CpuIds { ids }
    }

    /// The set of the given identifiers.
    pub fn from_ids(ids: &Vec<u32>) -> (out: CpuIds)
        ensures
            out@ == ids@.to_set(),
    {
        let mut out = CpuIds::new();
        let mut i: usize = 0;
        assert(ids@.take(0).to_set() =~= out@);
        while i < ids.len()
            invariant
                i <= ids@.len(),
                out@ == ids@.take(i as int).to_set(),
            decreases ids@.len() - i,
        {
            out.insert(ids[i]);
            proof {
                let a = ids@.take(i as int);
                let b = ids@.take(i + 1);
                assert(b =~= a.push(ids@[i as int]));
                assert forall|e: u32| b.to_set().contains(e) <==> a.to_set().insert(
                    ids@[i as int],
                ).contains(e) by {
                    if a.contains(e) {
                        let k = choose|k: int| 0 <= k < a.len() && a[k] == e;
                        assert(b[k] == e);
                    }
                    if e == ids@[i as int] {
                        assert(b[i as int] == e);
                    }
                }
                assert(b.to_set() =~= a.to_set().insert(ids@[i as int]));
            }
            i = i + 1;
        }
        assert(ids@.take(i as int) =~= ids@);
        out
    }
}

} // verus!
