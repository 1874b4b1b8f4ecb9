//! Id-keyed lookup into parallel entity columns.
//!
//! The world stores each kind of entity as parallel vectors (ids alongside
//! data), and a stable id is resolved to an index by a checked linear
//! lookup: a missing id is an ordinary `None`, never a fault.  Helpers here
//! also build masked copies of columns, which is how entities are despawned.

use vstd::prelude::*;

verus! {

/// Index of the first id at or after `i` equal to `id`; -1 when none is.
pub open spec fn id_index_of(ids: Seq<u64>, id: u64, i: int) -> int
    decreases ids.len() - i,
{
    if i < 0 || i >= ids.len() {
        -1
    } else if ids[i] == id {
        i
    } else {
        id_index_of(ids, id, i + 1)
    }
}

/// `id_index_of` returns -1 or an index holding the id.
pub proof fn lemma_id_index_of_range(ids: Seq<u64>, id: u64, i: int)
    requires
        0 <= i,
    ensures
        id_index_of(ids, id, i) == -1 || (i <= id_index_of(ids, id, i) < ids.len()
            && ids[id_index_of(ids, id, i)] == id),
    decreases ids.len() - i,
{
    if i < ids.len() && ids[i] != id {
        lemma_id_index_of_range(ids, id, i + 1);
    }
}

/// Checked lookup of an id: `Some` of the first index holding it, or `None`
/// when it does not resolve.
pub fn find_id(ids: &Vec<u64>, id: u64) -> (r: Option<usize>)
    ensures
        r is Some <==> id_index_of(ids@, id, 0) >= 0,
        r matches Some(j) ==> j == id_index_of(ids@, id, 0) && j < ids@.len() && ids@[j as int]
            == id,
{
    let mut i: usize = 0;
    while i < ids.len()
        invariant
            0 <= i <= ids@.len(),
            id_index_of(ids@, id, 0) == id_index_of(ids@, id, i as int),
        decreases ids@.len() - i,
    {
        if ids[i] == id {
            return Some(i);
        }
        i = i + 1;
    }
    None
}

/// The elements of `xs[..i]` whose mask bit is set, in order.
pub open spec fn masked<T>(xs: Seq<T>, keep: Seq<bool>, i: int) -> Seq<T>
    decreases i,
{
    if i <= 0 {
        Seq::<T>::empty()
    } else {
        masked(xs, keep, i - 1) + if keep[i - 1] {
            seq![xs[i - 1]]
        } else {
            Seq::<T>::empty()
        }
    }
}

/// The index in the source column that element `k` of a masked copy came
/// from.
pub open spec fn masked_src(keep: Seq<bool>, i: int, k: int) -> int
    decreases i,
{
    if i <= 0 {
        0
    } else if k < masked(keep, keep, i - 1).len() {
        masked_src(keep, i - 1, k)
    } else {
        i - 1
    }
}

/// Two masked copies under one mask have the same length, so `masked_src`
/// can measure lengths on the mask itself.
pub proof fn lemma_masked_same_len<T>(xs: Seq<T>, keep: Seq<bool>, i: int)
    ensures
        masked(xs, keep, i).len() == masked(keep, keep, i).len(),
    decreases i,
{
    if i > 0 {
        lemma_masked_same_len(xs, keep, i - 1);
    }
}

/// Every element of a masked copy is the source element `masked_src` names,
/// so any property of all the column's elements carries over.
pub proof fn lemma_masked_elems<T>(xs: Seq<T>, keep: Seq<bool>, i: int)
    requires
        0 <= i <= xs.len(),
        keep.len() == xs.len(),
    ensures
        forall|k: int|
            #![trigger masked_src(keep, i, k)]
            0 <= k < masked(xs, keep, i).len() ==> 0 <= masked_src(keep, i, k) < xs.len()
                && masked(xs, keep, i)[k] == xs[masked_src(keep, i, k)],
    decreases i,
{
    if i > 0 {
        lemma_masked_elems(xs, keep, i - 1);
        lemma_masked_same_len(xs, keep, i - 1);
        assert forall|k: int|
            #![trigger masked_src(keep, i, k)]
            0 <= k < masked(xs, keep, i).len() implies 0 <= masked_src(keep, i, k) < xs.len()
            && masked(xs, keep, i)[k] == xs[masked_src(keep, i, k)] by {
            if k < masked(xs, keep, i - 1).len() {
                assert(masked(keep, keep, i - 1).len() == masked(xs, keep, i - 1).len());
                assert(masked_src(keep, i, k) == masked_src(keep, i - 1, k));
                assert(0 <= masked_src(keep, i - 1, k) < xs.len());
                assert(masked(xs, keep, i)[k] == masked(xs, keep, i - 1)[k]);
                assert(masked(xs, keep, i - 1)[k] == xs[masked_src(keep, i - 1, k)]);
            } else {
                assert(masked_src(keep, i, k) == i - 1);
                assert(keep[i - 1] && masked(xs, keep, i)[k] == xs[i - 1]);
            }
        }
    }
}

/// A masked copy is never longer than the prefix it was drawn from.
pub proof fn lemma_masked_len_le<T>(xs: Seq<T>, keep: Seq<bool>, i: int)
    requires
        0 <= i,
    ensures
        masked(xs, keep, i).len() <= i,
    decreases i,
{
    if i > 0 {
        lemma_masked_len_le(xs, keep, i - 1);
    }
}

/// Masked copies of two columns under one mask are equally long.
pub proof fn lemma_masked_len_pair<T, U>(xs: Seq<T>, ys: Seq<U>, keep: Seq<bool>, i: int)
    ensures
        masked(xs, keep, i).len() == masked(ys, keep, i).len(),
    decreases i,
{
    if i > 0 {
        lemma_masked_len_pair(xs, ys, keep, i - 1);
    }
}

/// Copies the elements of `xs` whose mask bit is set, in order; this is how
/// a batch of entities is despawned from a column.
pub fn apply_mask<T: Copy>(xs: &Vec<T>, keep: &Vec<bool>) -> (r: Vec<T>)
    requires
        xs@.len() == keep@.len(),
    ensures
        r@ == masked(xs@, keep@, xs@.len() as int),
{
    let n = xs.len();
    let mut out: Vec<T> = Vec::new();
    let mut i: usize = 0;
    proof {
        assert(out@ =~= masked(xs@, keep@, 0));
    }
    while i < n
        invariant
            0 <= i <= n,
            n == xs@.len() == keep@.len(),
            out@ == masked(xs@, keep@, i as int),
        decreases n - i,
    {
        if keep[i] {
            out.push(xs[i]);
        }
        proof {
            assert(out@ =~= masked(xs@, keep@, i + 1));
        }
        i = i + 1;
    }
    out
}

} // verus!
