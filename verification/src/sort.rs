use vstd::prelude::*;
use vstd::seq_lib::group_to_multiset_ensures;

verus! {

/// A value ordered by an integer key.
pub trait SortKey: Copy {
    spec fn sort_key(&self) -> int;

    fn key_le(&self, other: &Self) -> (r: bool)
        ensures
            r == (self.sort_key() <= other.sort_key()),
    ;
}

impl SortKey for u16 {
    open spec fn sort_key(&self) -> int {
        *self as int
    }

    fn key_le(&self, other: &Self) -> (r: bool) {
        *self <= *other
    }
}

impl SortKey for u64 {
    open spec fn sort_key(&self) -> int {
        *self as int
    }

    fn key_le(&self, other: &Self) -> (r: bool) {
        *self <= *other
    }
}

/// The keys of `s` never decrease.
pub open spec fn sorted_by_key<T: SortKey>(s: Seq<T>) -> bool {
    forall|i: int, j: int| 0 <= i < j < s.len() ==> s[i].sort_key() <= s[j].sort_key()
}

/// A stable insertion sort: the items of `v`, in ascending key order.
pub fn insertion_sort<T: SortKey>(v: &Vec<T>) -> (out: Vec<T>)
    ensures
        sorted_by_key(out@),
        out@.to_multiset() == v@.to_multiset(),
{
    broadcast use group_to_multiset_ensures;

    let mut out: Vec<T> = Vec::with_capacity(v.len());
    let mut i: usize = 0;
    while i < v.len()
        invariant
            i <= v.len(),
            sorted_by_key(out@),
            out@.to_multiset() == v@.take(i as int).to_multiset(),
        decreases v.len() - i,
    {
        let x = v[i];
        let mut pos: usize = 0;
        while pos < out.len() && out[pos].key_le(&x)
            invariant
                pos <= out.len(),
                forall|j: int| 0 <= j < pos ==> out@[j].sort_key() <= x.sort_key(),
            decreases out.len() - pos,
        {
            pos = pos + 1;
        }
        let ghost before = out@;
        out.insert(pos, x);
        proof {
            assert(v@.take(i + 1) =~= v@.take(i as int).push(x));
            vstd::seq_lib::to_multiset_insert(before, pos as int, x);
            v@.take(i as int).to_multiset_ensures();
            assert forall|a: int, b: int| 0 <= a < b < out@.len() implies out@[a].sort_key()
                <= out@[b].sort_key() by {
                if b < pos {
                } else if a < pos && b == pos {
                } else if a < pos {
                    assert(out@[b] == before[b - 1]);
                } else if a == pos {
                    assert(out@[b] == before[b - 1]);
                    assert(before[pos as int].sort_key() > x.sort_key());
                } else {
                    assert(out@[a] == before[a - 1]);
                    assert(out@[b] == before[b - 1]);
                }
            }
        }
        i = i + 1;
    }
    assert(v@.take(v@.len() as int) =~= v@);
    out
}

} // verus!
