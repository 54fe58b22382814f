//! The list of items drawn in one pass, each with the layout data the caller
//! needs to move it into place, and its ordering by item index.

use vstd::prelude::*;

verus! {

/// One drawn item: its index in the list and the caller's layout data for it.
pub struct AlignItem<A> {
    pub index: u64,
    pub layout: A,
}

/// The items come in non-decreasing order of index.
pub open spec fn sorted_by_index<A>(s: Seq<AlignItem<A>>) -> bool {
    forall|a: int, b: int| 0 <= a < b < s.len() ==> #[trigger] s[a].index <= #[trigger] s[b].index
}

/// `perm` is a bijection of `0..n`, with `inv` its inverse.
pub open spec fn is_bijection(perm: Seq<int>, inv: Seq<int>, n: int) -> bool {
    &&& perm.len() == n
    &&& inv.len() == n
    &&& forall|i: int| 0 <= i < n ==> 0 <= #[trigger] perm[i] < n
    &&& forall|i: int, k: int| 0 <= i < k < n ==> #[trigger] perm[i] != #[trigger] perm[k]
    &&& forall|i: int| 0 <= i < n ==> 0 <= #[trigger] inv[i] < n && perm[inv[i]] == i
}

/// `new` holds the items of `old`, sorted by index, with items of equal
/// index in their original relative order.
pub open spec fn is_stable_sort_of<A>(new: Seq<AlignItem<A>>, old: Seq<AlignItem<A>>) -> bool {
    exists|perm: Seq<int>, inv: Seq<int>| #[trigger] is_bijection(perm, inv, old.len() as int) && {
        &&& new.len() == old.len()
        &&& forall|i: int| 0 <= i < new.len() ==> #[trigger] new[i] == old[perm[i]]
        &&& sorted_by_index(new)
        &&& forall|a: int, b: int|
            0 <= a < b < new.len() && #[trigger] new[a].index == #[trigger] new[b].index ==> perm[a] < perm[b]
    }
}

/// A stable sort keeps every index that occurs.
pub proof fn lemma_stable_sort_keeps_index<A>(new: Seq<AlignItem<A>>, old: Seq<AlignItem<A>>, k: int)
    requires
        is_stable_sort_of(new, old),
        0 <= k < old.len(),
    ensures
        exists|q: int| 0 <= q < new.len() && #[trigger] new[q].index == old[k].index,
{
    let (perm, inv) = choose|perm: Seq<int>, inv: Seq<int>| #[trigger] is_bijection(perm, inv, old.len() as int) && {
        &&& new.len() == old.len()
        &&& forall|i: int| 0 <= i < new.len() ==> #[trigger] new[i] == old[perm[i]]
        &&& sorted_by_index(new)
        &&& forall|a: int, b: int|
            0 <= a < b < new.len() && #[trigger] new[a].index == #[trigger] new[b].index ==> perm[a] < perm[b]
    };
    let q = inv[k];
    assert(new[q] == old[perm[q]]);
    assert(new[q].index == old[k].index);
}

/// Sorts the items by index, stably (as `sort_by` on the index does).
pub fn sort_by_index<A>(list: &mut Vec<AlignItem<A>>)
    ensures
        is_stable_sort_of(final(list)@, old(list)@),
{
    let ghost orig = list@;
    let mut rest: Vec<AlignItem<A>> = Vec::new();
    std::mem::swap(&mut rest, list);
    let mut sorted: Vec<AlignItem<A>> = Vec::new();
    let ghost mut perm: Seq<int> = Seq::empty();
    let ghost mut inv: Seq<int> = Seq::empty();
    let n = rest.len();
    let mut j: usize = 0;
    while j < n
        invariant
            n == orig.len(),
            j <= n,
            rest@ == orig.subrange(j as int, n as int),
            sorted@.len() == j,
            is_bijection(perm, inv, j as int),
            forall|i: int| 0 <= i < j ==> #[trigger] sorted@[i] == orig[perm[i]],
            sorted_by_index(sorted@),
            forall|a: int, b: int|
                0 <= a < b < j && #[trigger] sorted@[a].index == #[trigger] sorted@[b].index ==> perm[a] < perm[b],
        decreases n - j,
    {
        let item = rest.remove(0);
        assert(item == orig[j as int]);
        let mut p: usize = 0;
        while p < sorted.len() && sorted[p].index <= item.index
            invariant
                p <= sorted@.len(),
                forall|q: int| 0 <= q < p ==> #[trigger] sorted@[q].index <= item.index,
            decreases sorted@.len() - p,
        {
            p = p + 1;
        }
        let ghost old_sorted = sorted@;
        let ghost old_perm = perm;
        let ghost old_inv = inv;
        assert(forall|q: int| p <= q < old_sorted.len() ==> #[trigger] old_sorted[q].index > item.index) by {
            assert forall|q: int| p <= q < old_sorted.len() implies #[trigger] old_sorted[q].index > item.index by {
                if p < old_sorted.len() {
                    assert(old_sorted[p as int].index > item.index);
                    if q > p {
                        assert(old_sorted[p as int].index <= old_sorted[q].index);
                    }
                }
            }
        }
        sorted.insert(p, item);
        proof {
            perm = old_perm.insert(p as int, j as int);
            inv = Seq::new((j + 1) as nat, |i: int|
                if i == j { p as int } else if old_inv[i] >= p { old_inv[i] + 1 } else { old_inv[i] });
            let nj = j + 1;
            assert forall|i: int| 0 <= i < nj implies 0 <= #[trigger] perm[i] < nj by {
                if i < p { assert(perm[i] == old_perm[i]); }
                else if i > p { assert(perm[i] == old_perm[i - 1]); }
            }
            assert forall|a: int, b: int| 0 <= a < b < nj implies #[trigger] perm[a] != #[trigger] perm[b] by {
                if a < p && b < p { assert(old_perm[a] != old_perm[b]); }
                else if a < p && b > p { assert(old_perm[a] != old_perm[b - 1]); }
                else if a > p && b > p { assert(old_perm[a - 1] != old_perm[b - 1]); }
                else if a == p { assert(old_perm[b - 1] < j); }
                else { assert(old_perm[a] < j); }
            }
            assert forall|i: int| 0 <= i < nj implies 0 <= #[trigger] inv[i] < nj && perm[inv[i]] == i by {
                if i < j {
                    let x = old_inv[i];
                    assert(old_perm[x] == i);
                    if x >= p { assert(perm[x + 1] == old_perm[x]); }
                    else { assert(perm[x] == old_perm[x]); }
                } else {
                    assert(perm[p as int] == j);
                }
            }
            assert(is_bijection(perm, inv, nj as int));
            assert forall|i: int| 0 <= i < nj implies #[trigger] sorted@[i] == orig[perm[i]] by {
                if i < p { assert(sorted@[i] == old_sorted[i]); }
                else if i > p { assert(sorted@[i] == old_sorted[i - 1]); }
            }
            assert forall|a: int, b: int| 0 <= a < b < sorted@.len() implies #[trigger] sorted@[a].index <= #[trigger] sorted@[b].index by {
                if a < p && b < p { assert(old_sorted[a].index <= old_sorted[b].index); }
                else if a < p && b > p { assert(old_sorted[a].index <= old_sorted[b - 1].index); }
                else if a > p && b > p { assert(old_sorted[a - 1].index <= old_sorted[b - 1].index); }
                else if a == p { assert(old_sorted[b - 1].index > item.index); }
                else { assert(old_sorted[a].index <= item.index); }
            }
            assert forall|a: int, b: int|
                0 <= a < b < nj && #[trigger] sorted@[a].index == #[trigger] sorted@[b].index implies perm[a] < perm[b] by {
                if a < p && b < p {
                    assert(old_sorted[a].index == old_sorted[b].index);
                } else if a < p && b > p {
                    assert(old_sorted[a].index == old_sorted[b - 1].index);
                } else if a > p && b > p {
                    assert(old_sorted[a - 1].index == old_sorted[b - 1].index);
                } else if a == p {
                    assert(old_sorted[b - 1].index > item.index);
                } else {
                    assert(old_perm[a] < j);
                }
            }
        }
        assert(rest@ =~= orig.subrange(j + 1, n as int));
        j = j + 1;
    }
    *list = sorted;
    assert(is_bijection(perm, inv, orig.len() as int));
}

/// The first position whose item has the given index, if any.
pub fn position_of_index<A>(list: &Vec<AlignItem<A>>, index: u64) -> (r: Option<usize>)
    ensures
        match r {
            Some(k) => k < list@.len() && list@[k as int].index == index
                && forall|q: int| 0 <= q < k ==> #[trigger] list@[q].index != index,
            None => forall|q: int| 0 <= q < list@.len() ==> #[trigger] list@[q].index != index,
        },
{
    let n = list.len();
    let mut k: usize = 0;
    while k < n
        invariant
            n == list@.len(),
            k <= n,
            forall|q: int| 0 <= q < k ==> #[trigger] list@[q].index != index,
        decreases n - k,
    {
        if list[k].index == index {
            return Some(k);
        }
        k = k + 1;
    }
    None
}

} // verus!
