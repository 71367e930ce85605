//! The mask of the segments: to which segment each illuminated point of the
//! pupil belongs.

use crate::selection::{
    lemma_index_is_kept, lemma_indices, lemma_select_next, spec_indices, spec_select,
};
use vstd::prelude::*;
use vstd::seq_lib::{lemma_multiset_commutative, to_multiset_build, to_multiset_len};

verus! {

/// The test that keeps the index of a value of a wavefront whose point of the
/// pupil belongs to segment `sid`. The wavefront holds one value to the point
/// of `mask`, time sample after time sample.
pub open spec fn keep_segment(mask: Seq<i32>, sid: int) -> spec_fn(int) -> bool {
    |j: int| mask[j % (mask.len() as int)] == sid
}

/// The values of `wavefront` on segment `sid`, in their order.
pub open spec fn spec_segment<T>(wavefront: Seq<T>, mask: Seq<i32>, sid: int) -> Seq<T> {
    spec_select(wavefront, wavefront.len(), keep_segment(mask, sid))
}

/// Cuts `wavefront` into segments: of the 7 lists handed back, list `s` holds
/// the values on segment `s + 1`, in their order.
pub(crate) fn decompose<T: Copy>(mask: &Vec<i32>, masked: &[T]) -> (lists: Vec<Vec<T>>)
    requires
        mask@.len() > 0 || masked@.len() == 0,
    ensures
        lists@.len() == 7,
        forall|s: int|
            0 <= s < 7 ==> (#[trigger] lists@[s])@ == spec_segment(masked@, mask@, s + 1),
{
    let points = mask.len();
    let len = masked.len();
    let mut lists: Vec<Vec<T>> = Vec::with_capacity(7);
    let mut sid: i32 = 1;
    while sid <= 7
        invariant
            1 <= sid <= 8,
            points == mask@.len(),
            len == masked@.len(),
            points > 0 || len == 0,
            lists@.len() == sid - 1,
            forall|s: int|
                0 <= s < sid - 1 ==> (#[trigger] lists@[s])@ == spec_segment(masked@, mask@, s + 1),
        decreases 8 - sid,
    {
        let mut list: Vec<T> = Vec::new();
        let mut j: usize = 0;
        while j < len
            invariant
                j <= len,
                points == mask@.len(),
                len == masked@.len(),
                points > 0 || len == 0,
                list@ == spec_select(masked@, j as nat, keep_segment(mask@, sid as int)),
            decreases len - j,
        {
            proof {
                lemma_select_next(masked@, j as nat, keep_segment(mask@, sid as int));
            }
            if mask[j % points] == sid {
                list.push(masked[j]);
            }
            j = j + 1;
        }
        lists.push(list);
        sid = sid + 1;
    }
    lists
}

/// Every value of the mask names a segment, from 1 to 7.
pub open spec fn valid_segments(mask: Seq<i32>) -> bool {
    forall|i: int| 0 <= i < mask.len() ==> 1 <= #[trigger] mask[i] <= 7
}

/// Of the first `len` values of `wavefront`, those on the segments from 1 to
/// `upto`: the values on segment 1, then those on segment 2, and so on.
pub open spec fn spec_segments<T>(wavefront: Seq<T>, len: nat, mask: Seq<i32>, upto: int) -> Seq<T>
    decreases upto,
{
    if upto <= 0 {
        Seq::empty()
    } else {
        spec_segments(wavefront, len, mask, upto - 1) + spec_select(
            wavefront,
            len,
            keep_segment(mask, upto),
        )
    }
}

/// The values of `wavefront` on segment 1, then those on segment 2, and so on
/// to segment 7.
pub open spec fn spec_all_segments<T>(wavefront: Seq<T>, mask: Seq<i32>) -> Seq<T> {
    spec_segment(wavefront, mask, 1) + spec_segment(wavefront, mask, 2) + spec_segment(
        wavefront,
        mask,
        3,
    ) + spec_segment(wavefront, mask, 4) + spec_segment(wavefront, mask, 5) + spec_segment(
        wavefront,
        mask,
        6,
    ) + spec_segment(wavefront, mask, 7)
}

/// A value of a wavefront is on one segment, and on no other: the segment of
/// its point of the pupil.
pub proof fn lemma_one_segment(mask: Seq<i32>, j: int)
    requires
        valid_segments(mask),
        mask.len() > 0,
        0 <= j,
    ensures
        1 <= mask[j % (mask.len() as int)] <= 7,
        forall|sid: int|
            keep_segment(mask, sid)(j) <==> sid == mask[j % (mask.len() as int)],
{
}

/// The index of a value of a wavefront is among the indices of segment `sid`
/// where its point of the pupil belongs to that segment, and only there.
pub proof fn lemma_segment_indices(mask: Seq<i32>, len: nat, sid: int, j: int)
    requires
        0 <= j < len,
    ensures
        spec_indices(len, keep_segment(mask, sid)).contains(j) <==> mask[j % (mask.len() as int)]
            == sid,
{
    let indices = spec_indices(len, keep_segment(mask, sid));
    lemma_indices(len, keep_segment(mask, sid));
    if keep_segment(mask, sid)(j) {
        lemma_index_is_kept(len, keep_segment(mask, sid), j);
        let k = choose|k: int| 0 <= k < indices.len() && #[trigger] indices[k] == j;
        assert(indices.contains(j));
    }
    if indices.contains(j) {
        let k = choose|k: int| 0 <= k < indices.len() && indices[k] == j;
        assert(keep_segment(mask, sid)(indices[k]));
    }
}

/// A value on segment `sid` is a value of the wavefront, at a point of the
/// pupil that belongs to that segment.
pub proof fn lemma_segment_value<T>(wavefront: Seq<T>, mask: Seq<i32>, sid: int, k: int)
    requires
        0 <= k < spec_segment(wavefront, mask, sid).len(),
    ensures
        exists|j: int|
            0 <= j < wavefront.len() && mask[j % (mask.len() as int)] == sid
                && #[trigger] wavefront[j] == spec_segment(wavefront, mask, sid)[k],
{
    let indices = spec_indices(wavefront.len(), keep_segment(mask, sid));
    lemma_indices(wavefront.len(), keep_segment(mask, sid));
    let j = indices[k];
    assert(wavefront[j] == spec_segment(wavefront, mask, sid)[k]);
}

/// With one value more of the wavefront looked at, the values on the segments
/// from 1 to `upto` are one more, that value, where it is on one of them.
proof fn lemma_segments_next<T>(wavefront: Seq<T>, len: nat, mask: Seq<i32>, upto: int)
    requires
        valid_segments(mask),
        mask.len() > 0,
        0 <= upto <= 7,
    ensures
        spec_segments(wavefront, len + 1, mask, upto).to_multiset() == if mask[len as int % (
        mask.len() as int)] <= upto {
            spec_segments(wavefront, len, mask, upto).to_multiset().insert(wavefront[len as int])
        } else {
            spec_segments(wavefront, len, mask, upto).to_multiset()
        },
    decreases upto,
{
    if upto > 0 {
        let keep = keep_segment(mask, upto);
        let before_short = spec_segments(wavefront, len, mask, upto - 1);
        let before_long = spec_segments(wavefront, len + 1, mask, upto - 1);
        let short = spec_select(wavefront, len, keep);
        let long = spec_select(wavefront, len + 1, keep);
        lemma_segments_next(wavefront, len, mask, upto - 1);
        lemma_select_next(wavefront, len, keep);
        lemma_multiset_commutative(before_short, short);
        lemma_multiset_commutative(before_long, long);
        to_multiset_build(short, wavefront[len as int]);
    }
}

/// The values on the seven segments, of the first `len` values of a wavefront,
/// are those values, in another order.
proof fn lemma_segments_of_prefix<T>(wavefront: Seq<T>, len: nat, mask: Seq<i32>)
    requires
        valid_segments(mask),
        mask.len() > 0 || len == 0,
        len <= wavefront.len(),
    ensures
        spec_segments(wavefront, len, mask, 7).to_multiset() == wavefront.take(
            len as int,
        ).to_multiset(),
    decreases len,
{
    if len == 0 {
        reveal_with_fuel(spec_segments, 8);
        assert(wavefront.take(0) =~= Seq::<T>::empty());
    } else {
        let less = (len - 1) as nat;
        lemma_segments_of_prefix(wavefront, less, mask);
        lemma_segments_next(wavefront, less, mask, 7);
        assert(wavefront.take(len as int) =~= wavefront.take(less as int).push(
            wavefront[less as int],
        ));
        to_multiset_build(wavefront.take(less as int), wavefront[less as int]);
    }
}

/// The segments cut the wavefront into parts: the values on segment 1, then
/// those on segment 2, and so on to segment 7, are the values of the
/// wavefront in another order, each taken once. So they are as many as the
/// wavefront has values.
pub proof fn lemma_segments_permute<T>(wavefront: Seq<T>, mask: Seq<i32>)
    requires
        valid_segments(mask),
        mask.len() > 0 || wavefront.len() == 0,
    ensures
        spec_all_segments(wavefront, mask).to_multiset() == wavefront.to_multiset(),
        spec_all_segments(wavefront, mask).len() == wavefront.len(),
{
    reveal_with_fuel(spec_segments, 8);
    lemma_segments_of_prefix(wavefront, wavefront.len(), mask);
    assert(wavefront.take(wavefront.len() as int) == wavefront);
    to_multiset_len(spec_all_segments(wavefront, mask));
    to_multiset_len(wavefront);
}

} // verus!
