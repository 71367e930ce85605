//! The mask of the pupil: which points of the pupil are illuminated.
//!
//! A wavefront within the exit pupil has one value to the illuminated point.
//! Laid out on the whole pupil, it has one value to the point.

use crate::matrix::{column_major, lemma_column_major_in_bounds};
use crate::vectors::is_zero;
use vstd::prelude::*;

verus! {

/// The number of points that `mask` marks.
pub open spec fn spec_count(mask: Seq<bool>) -> nat {
    mask.filter(|marked: bool| marked).len()
}

/// The number of points that `mask` marks.
pub fn count(mask: &Vec<bool>) -> (n: usize)
    ensures
        n == spec_count(mask@),
{
    let mut n: usize = 0;
    let mut i: usize = 0;
    while i < mask.len()
        invariant
            i <= mask.len(),
            n <= i,
            n == spec_count(mask@.take(i as int)),
        decreases mask.len() - i,
    {
        proof {
            lemma_count_next(mask@, i as int);
        }
        if mask[i] {
            n = n + 1;
        }
        i = i + 1;
    }
    proof {
        assert(mask@.take(mask.len() as int) == mask@);
    }
    n
}

/// The first points of a mask hold no more marked points than the mask.
pub proof fn lemma_count_prefix(mask: Seq<bool>, i: int)
    requires
        0 <= i <= mask.len(),
    ensures
        spec_count(mask.take(i)) <= spec_count(mask),
    decreases mask.len() - i,
{
    if i < mask.len() {
        lemma_count_next(mask, i);
        lemma_count_prefix(mask, i + 1);
    } else {
        assert(mask.take(i) == mask);
    }
}

/// One point more is counted where the mask marks it.
pub proof fn lemma_count_next(mask: Seq<bool>, i: int)
    requires
        0 <= i < mask.len(),
    ensures
        spec_count(mask.take(i + 1)) == spec_count(mask.take(i)) + if mask[i] {
            1nat
        } else {
            0nat
        },
        spec_count(mask.take(i)) <= i,
{
    reveal(Seq::filter);
    assert(mask.take(i + 1).drop_last() == mask.take(i));
    mask.take(i).lemma_filter_len(|marked: bool| marked);
}

/// The place of point `g` of the pupil among the points that `mask` marks.
pub open spec fn spec_rank(mask: Seq<bool>, g: int) -> int {
    spec_count(mask.take(g)) as int
}

/// In time sample `t` of `full`, point `g` of the pupil has its value of
/// `masked`, where `mask` marks it, and zero, where not.
pub open spec fn expanded_at<T: Default>(
    mask: Seq<bool>,
    masked: Seq<T>,
    full: Seq<T>,
    t: int,
    g: int,
) -> bool {
    if mask[g] {
        full[column_major(mask.len() as int, g, t)] == masked[column_major(
            spec_count(mask) as int,
            spec_rank(mask, g),
            t,
        )]
    } else {
        is_zero(full[column_major(mask.len() as int, g, t)])
    }
}

/// `full` is `masked` laid out on the whole pupil, time sample by time sample.
pub open spec fn spec_expanded<T: Default>(
    mask: Seq<bool>,
    masked: Seq<T>,
    n_sample: nat,
    full: Seq<T>,
) -> bool {
    &&& full.len() == mask.len() * n_sample
    &&& forall|t: int, g: int|
        0 <= t < n_sample && 0 <= g < mask.len() ==> #[trigger] expanded_at(
            mask,
            masked,
            full,
            t,
            g,
        )
}

/// A point that the mask marks has its place among the marked points.
pub proof fn lemma_rank_in_range(mask: Seq<bool>, g: int)
    requires
        0 <= g < mask.len(),
        mask[g],
    ensures
        0 <= spec_rank(mask, g) < spec_count(mask),
{
    lemma_count_next(mask, g);
    lemma_count_prefix(mask, g + 1);
}

/// A wavefront of zeros within the exit pupil is a wavefront of zeros in the
/// whole pupil.
pub proof fn lemma_expanded_zeros<T: Default>(
    mask: Seq<bool>,
    masked: Seq<T>,
    n_sample: nat,
    full: Seq<T>,
)
    requires
        spec_expanded(mask, masked, n_sample, full),
        masked.len() == spec_count(mask) * n_sample,
        forall|i: int| 0 <= i < masked.len() ==> is_zero(#[trigger] masked[i]),
    ensures
        forall|i: int| 0 <= i < full.len() ==> is_zero(#[trigger] full[i]),
{
    assert forall|i: int| 0 <= i < full.len() implies is_zero(#[trigger] full[i]) by {
        let grid = mask.len() as int;
        crate::matrix::lemma_position_is_entry(grid, n_sample as int, i);
        let t = i / grid;
        let g = i % grid;
        assert(expanded_at(mask, masked, full, t, g));
        if mask[g] {
            lemma_rank_in_range(mask, g);
            lemma_column_major_in_bounds(
                spec_count(mask) as int,
                n_sample as int,
                spec_rank(mask, g),
                t,
            );
        }
    }
}

/// Lays `masked` out on the whole pupil: time sample after time sample, the
/// value of `masked` at a point that `mask` marks, zero at another.
pub(crate) fn expand<T: Copy + Default>(mask: &Vec<bool>, masked: &[T], n_sample: usize) -> (full:
    Vec<T>)
    requires
        masked@.len() == spec_count(mask@) * n_sample,
    ensures
        spec_expanded(mask@, masked@, n_sample as nat, full@),
{
    let points = count(mask);
    let len = masked.len();
    let zero = T::default();
    let grid = mask.len();
    let mut full: Vec<T> = Vec::new();
    let mut cursor: usize = 0;
    let mut t: usize = 0;
    while t < n_sample
        invariant
            t <= n_sample,
            grid == mask@.len(),
            points == spec_count(mask@),
            len == masked@.len(),
            len == points * n_sample,
            is_zero(zero),
            cursor == points * t,
            full@.len() == grid * t,
            forall|u: int, g: int|
                0 <= u < t && 0 <= g < grid ==> #[trigger] expanded_at(mask@, masked@, full@, u, g),
        decreases n_sample - t,
    {
        let mut g: usize = 0;
        while g < grid
            invariant
                g <= grid,
                t < n_sample,
                grid == mask@.len(),
                points == spec_count(mask@),
                len == masked@.len(),
                len == points * n_sample,
                is_zero(zero),
                cursor == points * t + spec_rank(mask@, g as int),
                full@.len() == grid * t + g,
                forall|u: int, h: int|
                    0 <= u < t && 0 <= h < grid ==> #[trigger] expanded_at(
                        mask@,
                        masked@,
                        full@,
                        u,
                        h,
                    ),
                forall|h: int|
                    0 <= h < g ==> #[trigger] expanded_at(mask@, masked@, full@, t as int, h),
            decreases grid - g,
        {
            let ghost before = full@;
            proof {
                lemma_count_next(mask@, g as int);
                lemma_count_prefix(mask@, g as int + 1);
                assert(grid * t == t * grid) by (nonlinear_arith);
                if mask@[g as int] {
                    lemma_column_major_in_bounds(
                        points as int,
                        n_sample as int,
                        spec_rank(mask@, g as int),
                        t as int,
                    );
                }
            }
            if mask[g] {
                full.push(masked[cursor]);
                cursor = cursor + 1;
            } else {
                full.push(zero);
            }
            proof {
                assert forall|u: int, h: int| 0 <= u < t && 0 <= h < grid implies #[trigger] expanded_at(
                    mask@,
                    masked@,
                    full@,
                    u,
                    h,
                ) by {
                    lemma_column_major_in_bounds(grid as int, t as int, h, u);
                    assert(expanded_at(mask@, masked@, before, u, h));
                }
                assert forall|h: int| 0 <= h <= g implies #[trigger] expanded_at(
                    mask@,
                    masked@,
                    full@,
                    t as int,
                    h,
                ) by {
                    if h < g {
                        assert(expanded_at(mask@, masked@, before, t as int, h));
                    }
                }
            }
            g = g + 1;
        }
        proof {
            assert(mask@.take(grid as int) == mask@);
            assert(points * (t + 1) == points * t + points) by (nonlinear_arith);
            assert(grid * (t + 1) == grid * t + grid) by (nonlinear_arith);
        }
        t = t + 1;
    }
    full
}

} // verus!
