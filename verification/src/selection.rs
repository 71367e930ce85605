//! The picking of entries of a sequence by a test on their index.

use vstd::prelude::*;

verus! {

/// The indices below `len` that `keep` keeps, in increasing order.
pub open spec fn spec_indices(len: nat, keep: spec_fn(int) -> bool) -> Seq<int> {
    Seq::new(len, |i: int| i).filter(keep)
}

/// The entries of `values` at the indices below `len` that `keep` keeps, in
/// their order.
pub open spec fn spec_select<T>(values: Seq<T>, len: nat, keep: spec_fn(int) -> bool) -> Seq<T> {
    Seq::new(spec_indices(len, keep).len(), |k: int| values[spec_indices(len, keep)[k]])
}

/// Among the indices below `len + 1`, index `len` comes last, where it is kept;
/// the others are those kept below `len`.
pub proof fn lemma_indices_next(len: nat, keep: spec_fn(int) -> bool)
    ensures
        spec_indices(len + 1, keep) == if keep(len as int) {
            spec_indices(len, keep).push(len as int)
        } else {
            spec_indices(len, keep)
        },
{
    let all = Seq::new(len + 1, |i: int| i);
    assert(all.drop_last() =~= Seq::new(len, |i: int| i));
    reveal(Seq::filter);
}

/// The indices kept below `len` are below `len`, are kept, and grow; no more
/// are kept than there are indices.
pub proof fn lemma_indices(len: nat, keep: spec_fn(int) -> bool)
    ensures
        spec_indices(len, keep).len() <= len,
        forall|k: int|
            0 <= k < spec_indices(len, keep).len() ==> 0 <= #[trigger] spec_indices(len, keep)[k]
                < len && keep(spec_indices(len, keep)[k]),
        forall|j: int, k: int|
            0 <= j < k < spec_indices(len, keep).len() ==> #[trigger] spec_indices(len, keep)[j]
                < #[trigger] spec_indices(len, keep)[k],
    decreases len,
{
    if len == 0 {
        reveal(Seq::filter);
    } else {
        let less = (len - 1) as nat;
        lemma_indices(less, keep);
        lemma_indices_next(less, keep);
    }
}

/// Every kept index below `len` is among the indices kept below `len`.
pub proof fn lemma_index_is_kept(len: nat, keep: spec_fn(int) -> bool, i: int)
    requires
        0 <= i < len,
        keep(i),
    ensures
        exists|k: int|
            0 <= k < spec_indices(len, keep).len() && #[trigger] spec_indices(len, keep)[k] == i,
    decreases len,
{
    let less = (len - 1) as nat;
    lemma_indices_next(less, keep);
    if i == less {
        assert(spec_indices(len, keep)[spec_indices(less, keep).len() as int] == i);
    } else {
        lemma_index_is_kept(less, keep, i);
        let k = choose|k: int|
            0 <= k < spec_indices(less, keep).len() && #[trigger] spec_indices(less, keep)[k] == i;
        assert(spec_indices(len, keep)[k] == i);
    }
}

/// The indices kept below `short` are the first of those kept below `long`.
pub proof fn lemma_indices_prefix(short: nat, long: nat, keep: spec_fn(int) -> bool)
    requires
        short <= long,
    ensures
        spec_indices(short, keep).len() <= spec_indices(long, keep).len(),
        forall|k: int|
            0 <= k < spec_indices(short, keep).len() ==> #[trigger] spec_indices(short, keep)[k]
                == spec_indices(long, keep)[k],
    decreases long - short,
{
    if short < long {
        let less = (long - 1) as nat;
        lemma_indices_prefix(short, less, keep);
        lemma_indices_next(less, keep);
    }
}

/// Of the entries selected below `len + 1`, the last is entry `len`, where it
/// is kept; the others are those selected below `len`.
pub proof fn lemma_select_next<T>(values: Seq<T>, len: nat, keep: spec_fn(int) -> bool)
    ensures
        spec_select(values, len + 1, keep) == if keep(len as int) {
            spec_select(values, len, keep).push(values[len as int])
        } else {
            spec_select(values, len, keep)
        },
{
    lemma_indices_next(len, keep);
}

} // verus!
