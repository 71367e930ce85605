//! The optical metrics: series of tip-tilt, segment tip-tilt and segment piston.
//!
//! A series is one flat buffer. It holds the first time sample, then the second,
//! and so on; a time sample holds one value for each item of the metric.

use crate::error::LinearOpticalModelError;
use crate::matrix::{column_major, lemma_column_major_in_bounds, lemma_position_is_entry};
use crate::vectors::copy_of;
use vstd::arithmetic::div_mod::lemma_fundamental_div_mod;
use vstd::prelude::*;

verus! {

/// The number of time samples that a window holds: `n_sample`, or all the
/// `n_total` samples of the series where none is given.
pub open spec fn spec_window(n_total: nat, n_sample: Option<usize>) -> nat {
    match n_sample {
        Some(n) => n as nat,
        None => n_total,
    }
}

/// The last `window` time samples of `series`, item by item: the values of the
/// first item in the order of time, then those of the second, and so on.
///
/// A time sample of `series` holds `n_item` values. Value `i` handed back is
/// that of item `i / window` in time sample `i % window` of the window, which
/// is time sample `n_total - window + i % window` of the series.
pub open spec fn spec_time_wise<T>(series: Seq<T>, n_item: nat, window: nat) -> Seq<T> {
    let n_total = series.len() / n_item;
    Seq::new(
        n_item * window,
        |i: int|
            {
                let item = i / (window as int);
                let sample = n_total - window + i % (window as int);
                series[sample * n_item + item]
            },
    )
}

/// Time sample `k` of `series`, whose time samples hold `n_item` values.
pub open spec fn spec_item<T>(series: Seq<T>, n_item: nat, k: int) -> Seq<T> {
    series.subrange(k * n_item, (k + 1) * n_item)
}

/// A series of whole time samples of `n_item` values holds `len / n_item` of them.
pub proof fn lemma_whole_samples(len: nat, n_item: nat)
    requires
        0 < n_item,
        len % n_item == 0,
    ensures
        n_item * (len / n_item) == len,
        (len / n_item) * n_item == len,
{
    lemma_fundamental_div_mod(len as int, n_item as int);
    let q = len / n_item;
    assert(n_item * q == q * n_item) by (nonlinear_arith);
}

/// The number of time samples in a window, where the series has that many.
fn window_of(n_total: usize, n_sample: Option<usize>) -> (window: Result<
    usize,
    LinearOpticalModelError,
>)
    ensures
        match window {
            Ok(w) => w == spec_window(n_total as nat, n_sample) && w <= n_total,
            Err(e) => spec_window(n_total as nat, n_sample) > n_total && e == (
            LinearOpticalModelError::NotEnoughSamples {
                requested: spec_window(n_total as nat, n_sample) as usize,
                available: n_total,
            }),
        },
{
    match n_sample {
        Some(n) => {
            if n <= n_total {
                Ok(n)
            } else {
                Err(LinearOpticalModelError::NotEnoughSamples { requested: n, available: n_total })
            }
        },
        None => Ok(n_total),
    }
}

/// What `time_wise` hands back for a series of `n_item` values to the time
/// sample, asked for the last `n_sample` time samples.
pub open spec fn time_wise_result<T>(
    series: Seq<T>,
    n_item: nat,
    n_sample: Option<usize>,
    ordered: Result<Vec<T>, LinearOpticalModelError>,
) -> bool {
    let n_total = series.len() / n_item;
    let window = spec_window(n_total, n_sample);
    match ordered {
        Ok(values) => window <= n_total && values@ == spec_time_wise(series, n_item, window),
        Err(e) => window > n_total && e == (LinearOpticalModelError::NotEnoughSamples {
            requested: window as usize,
            available: n_total as usize,
        }),
    }
}

/// A window that is asked to hold as many time samples as the series has is
/// the window that is asked for no number: both are there, and hold the same
/// values.
pub proof fn lemma_window_of_all<T>(
    series: Seq<T>,
    n_item: nat,
    n_total: usize,
    all: Result<Vec<T>, LinearOpticalModelError>,
    named: Result<Vec<T>, LinearOpticalModelError>,
)
    requires
        n_total == series.len() / n_item,
        time_wise_result(series, n_item, None, all),
        time_wise_result(series, n_item, Some(n_total), named),
    ensures
        all matches Ok(a) && named matches Ok(b) && a@ == b@,
{
}

/// In the last `window` time samples of a series taken item by item, the value
/// of item `item` in the `k`-th time sample of the window stands at `item *
/// window + k`: the values of an item are `window` in a row.
pub proof fn lemma_time_wise_entry<T>(
    series: Seq<T>,
    n_item: nat,
    window: nat,
    item: int,
    k: int,
)
    requires
        0 < n_item,
        series.len() % n_item == 0,
        window <= series.len() / n_item,
        0 <= item < n_item,
        0 <= k < window,
    ensures
        spec_time_wise(series, n_item, window).len() == n_item * window,
        0 <= item * window + k < n_item * window,
        0 <= (series.len() / n_item - window + k) * n_item + item < series.len(),
        spec_time_wise(series, n_item, window)[item * window + k] == series[(series.len() / n_item
            - window + k) * n_item + item],
{
    let n_total = series.len() / n_item;
    lemma_whole_samples(series.len(), n_item);
    lemma_column_major_in_bounds(window as int, n_item as int, k, item);
    lemma_column_major_in_bounds(n_item as int, n_total as int, item, n_total - window + k);
    assert(window * n_item == n_item * window) by (nonlinear_arith);
}

/// A series taken item by item, and what comes of it taken item by item again,
/// as a series whose items are the time samples, is the series: to change the
/// order of time and item twice is to change nothing.
pub proof fn lemma_time_wise_twice<T>(series: Seq<T>, n_item: nat)
    requires
        0 < n_item,
        series.len() % n_item == 0,
    ensures
        spec_time_wise(
            spec_time_wise(series, n_item, series.len() / n_item),
            series.len() / n_item,
            n_item,
        ) == series,
{
    let n = series.len() / n_item;
    let once = spec_time_wise(series, n_item, n);
    let twice = spec_time_wise(once, n, n_item);
    lemma_whole_samples(series.len(), n_item);
    assert(n * n_item == n_item * n) by (nonlinear_arith);
    assert(once.len() == series.len());
    assert(twice.len() == series.len());
    assert forall|i: int| 0 <= i < series.len() implies twice[i] == series[i] by {
        lemma_position_is_entry(n_item as int, n as int, i);
        let item = i % (n_item as int);
        let sample = i / (n_item as int);
        lemma_column_major_in_bounds(n as int, n_item as int, sample, item);
        let j = column_major(n as int, sample, item);
        vstd::arithmetic::div_mod::lemma_div_multiples_vanish(n_item as int, n as int);
        assert(once.len() / n == n_item) by {
            assert(once.len() == n_item * n);
        }
        assert(twice[i] == once[j]);
        assert(once[j] == series[sample * n_item + item]);
    }
    assert(twice =~= series);
}

/// The last `n_sample` time samples of `series`, or all of them where none is
/// given, item by item.
fn time_wise_of<T: Copy>(series: &Vec<T>, n_item: usize, n_sample: Option<usize>) -> (ordered:
    Result<Vec<T>, LinearOpticalModelError>)
    requires
        0 < n_item,
        series@.len() % (n_item as nat) == 0,
    ensures
        time_wise_result(series@, n_item as nat, n_sample, ordered),
{
    let len = series.len();
    let n_total = len / n_item;
    proof {
        lemma_whole_samples(len as nat, n_item as nat);
    }
    let window = match window_of(n_total, n_sample) {
        Ok(window) => window,
        Err(e) => {
            return Err(e);
        },
    };
    let first = n_total - window;
    proof {
        assert(n_item * window <= n_item * n_total) by (nonlinear_arith)
            requires
                window <= n_total,
                0 <= n_item,
        ;
    }
    let mut values: Vec<T> = Vec::with_capacity(n_item * window);
    let mut item: usize = 0;
    while item < n_item
        invariant
            item <= n_item,
            0 < n_item,
            len == series@.len(),
            n_item * n_total == len,
            window <= n_total,
            first == n_total - window,
            values@.len() == item * window,
            forall|i: int|
                0 <= i < values@.len() ==> #[trigger] values@[i] == series@[column_major(
                    n_item as int,
                    i / (window as int),
                    first + i % (window as int),
                )],
        decreases n_item - item,
    {
        let mut k: usize = 0;
        while k < window
            invariant
                item < n_item,
                k <= window,
                len == series@.len(),
                n_item * n_total == len,
                window <= n_total,
                first == n_total - window,
                values@.len() == item * window + k,
                forall|i: int|
                    0 <= i < values@.len() ==> #[trigger] values@[i] == series@[column_major(
                        n_item as int,
                        i / (window as int),
                        first + i % (window as int),
                    )],
            decreases window - k,
        {
            proof {
                lemma_column_major_in_bounds(
                    n_item as int,
                    n_total as int,
                    item as int,
                    first + k,
                );
                lemma_column_major_in_bounds(window as int, n_item as int, k as int, item as int);
            }
            values.push(series[(first + k) * n_item + item]);
            k = k + 1;
        }
        proof {
            assert((item + 1) * window == item * window + window) by (nonlinear_arith);
        }
        item = item + 1;
    }
    proof {
        assert(values@ =~= spec_time_wise(series@, n_item as nat, window as nat));
    }
    Ok(values)
}

/// The time samples of `series`, each with its `n_item` values.
fn items_of<T: Copy>(series: &Vec<T>, n_item: usize) -> (items: Vec<Vec<T>>)
    requires
        0 < n_item,
        series@.len() % (n_item as nat) == 0,
    ensures
        items@.len() == series@.len() / (n_item as nat),
        forall|k: int|
            0 <= k < items@.len() ==> (#[trigger] items@[k])@ == spec_item(
                series@,
                n_item as nat,
                k,
            ),
{
    let len = series.len();
    let n_total = len / n_item;
    proof {
        lemma_whole_samples(len as nat, n_item as nat);
    }
    let mut items: Vec<Vec<T>> = Vec::with_capacity(n_total);
    let mut k: usize = 0;
    while k < n_total
        invariant
            k <= n_total,
            0 < n_item,
            len == series@.len(),
            n_item * n_total == len,
            items@.len() == k,
            forall|j: int|
                0 <= j < k ==> (#[trigger] items@[j])@ == spec_item(series@, n_item as nat, j),
        decreases n_total - k,
    {
        proof {
            assert(k * n_item + n_item <= n_item * n_total) by (nonlinear_arith)
                requires
                    k + 1 <= n_total,
                    0 <= n_item,
            ;
            assert((k + 1) * n_item == k * n_item + n_item) by (nonlinear_arith);
        }
        let start = k * n_item;
        let mut sample: Vec<T> = Vec::with_capacity(n_item);
        let mut i: usize = 0;
        while i < n_item
            invariant
                i <= n_item,
                start + n_item <= series.len(),
                sample@ == series@.subrange(start as int, start + i),
            decreases n_item - i,
        {
            sample.push(series[start + i]);
            i = i + 1;
        }
        items.push(sample);
        k = k + 1;
    }
    items
}

/// The series of an optical metric, cut into its time samples.
pub trait OpticalMetrics {
    /// The type of the values.
    type Scalar;

    /// The values of the series.
    spec fn series(&self) -> Seq<Self::Scalar>;

    /// The number of values in a time sample.
    spec fn spec_n_item(&self) -> nat;

    /// The number of values in a time sample. The series holds whole time
    /// samples only.
    fn n_item(&self) -> (n: usize)
        ensures
            n == self.spec_n_item(),
            n > 0,
            self.series().len() % (n as nat) == 0,
    ;

    /// The time samples of the series, in the order of time.
    fn items(&self) -> (items: Vec<Vec<Self::Scalar>>)
        ensures
            items@.len() == self.series().len() / self.spec_n_item(),
            items@.len() * self.spec_n_item() == self.series().len(),
            forall|k: int|
                0 <= k < items@.len() ==> (#[trigger] items@[k])@ == spec_item(
                    self.series(),
                    self.spec_n_item(),
                    k,
                ),
    ;

    /// The last `n_sample` time samples of the series, or all of them where none
    /// is given, with the values of each item in one contiguous run: the item's
    /// values in the order of time.
    ///
    /// Fails with `NotEnoughSamples` where the series holds fewer than
    /// `n_sample` time samples.
    fn time_wise(&self, n_sample: Option<usize>) -> (ordered: Result<
        Vec<Self::Scalar>,
        LinearOpticalModelError,
    >)
        ensures
            time_wise_result(self.series(), self.spec_n_item(), n_sample, ordered),
    ;
}

/// Type holding the tip-tilt values
#[derive(Debug)]
pub struct TipTilt<T>(Vec<T>);

impl<T> TipTilt<T> {
    /// The series holds whole time samples: an x and a y each.
    #[verifier::type_invariant]
    closed spec fn whole_samples(self) -> bool {
        self.0@.len() % 2 == 0
    }

    /// The values of the series.
    pub closed spec fn view(self) -> Seq<T> {
        self.0@
    }

    /// The buffer of the series.
    pub closed spec fn spec_vec(self) -> Vec<T> {
        self.0
    }

    /// The buffer of the series, which `Vec::from` hands over, holds its
    /// values.
    pub proof fn lemma_spec_vec(self)
        ensures
            self.spec_vec()@ == self@,
    {
    }

    /// The series that `values` holds, where they make whole time samples.
    pub fn new(values: Vec<T>) -> (series: Result<Self, LinearOpticalModelError>)
        ensures
            match series {
                Ok(s) => values@.len() % 2 == 0 && s@ == values@,
                Err(e) => values@.len() % 2 != 0 && e == (LinearOpticalModelError::Ragged {
                    n_item: 2,
                    found: values@.len() as usize,
                }),
            },
    {
        let found = values.len();
        if found % 2 == 0 {
            Ok(TipTilt(values))
        } else {
            Err(LinearOpticalModelError::Ragged { n_item: 2, found })
        }
    }

    /// The values of the series.
    pub fn as_vec(&self) -> (values: &Vec<T>)
        ensures
            values@ == self@,
            values@.len() % 2 == 0,
    {
        proof {
            use_type_invariant(self);
        }
        &self.0
    }

    /// The values of the series, the series given up.
    pub fn into_vec(self) -> (values: Vec<T>)
        ensures
            values@ == self@,
            values@.len() % 2 == 0,
    {
        proof {
            use_type_invariant(&self);
        }
        self.0
    }
}

impl<T: Copy> OpticalMetrics for TipTilt<T> {
    type Scalar = T;

    open spec fn series(&self) -> Seq<T> {
        self@
    }

    /// [TipTilt] `2` x and y items
    open spec fn spec_n_item(&self) -> nat {
        2
    }

    /// [TipTilt] `2` x and y items
    fn n_item(&self) -> (n: usize) {
        proof {
            use_type_invariant(self);
        }
        2
    }

    fn items(&self) -> (items: Vec<Vec<T>>) {
        proof {
            use_type_invariant(self);
        }
        items_of(&self.0, 2)
    }

    fn time_wise(&self, n_sample: Option<usize>) -> (ordered: Result<
        Vec<T>,
        LinearOpticalModelError,
    >) {
        proof {
            use_type_invariant(self);
        }
        time_wise_of(&self.0, 2, n_sample)
    }
}

impl<T> std::ops::Deref for TipTilt<T> {
    type Target = Vec<T>;

    fn deref(&self) -> (values: &Vec<T>)
        ensures
            values@ == self@,
    {
        &self.0
    }
}

impl<T> From<TipTilt<T>> for Vec<T> {
    fn from(value: TipTilt<T>) -> (values: Vec<T>) {
        value.0
    }
}

impl<T> vstd::std_specs::convert::FromSpecImpl<TipTilt<T>> for Vec<T> {
    open spec fn obeys_from_spec() -> bool {
        true
    }

    open spec fn from_spec(value: TipTilt<T>) -> Vec<T> {
        value.spec_vec()
    }
}

impl<T: Copy> Clone for TipTilt<T> {
    fn clone(&self) -> (copy: Self)
        ensures
            copy@ == self@,
    {
        proof {
            use_type_invariant(self);
        }
        TipTilt(copy_of(&self.0))
    }
}

/// Type holding the segment tip-tilt values
#[derive(Debug)]
pub struct SegmentTipTilt<T>(Vec<T>);

impl<T> SegmentTipTilt<T> {
    /// The series holds whole time samples: 14 values each.
    #[verifier::type_invariant]
    closed spec fn whole_samples(self) -> bool {
        self.0@.len() % 14 == 0
    }

    /// The values of the series.
    pub closed spec fn view(self) -> Seq<T> {
        self.0@
    }

    /// The buffer of the series.
    pub closed spec fn spec_vec(self) -> Vec<T> {
        self.0
    }

    /// The buffer of the series, which `Vec::from` hands over, holds its
    /// values.
    pub proof fn lemma_spec_vec(self)
        ensures
            self.spec_vec()@ == self@,
    {
    }

    /// The series that `values` holds, where they make whole time samples.
    pub fn new(values: Vec<T>) -> (series: Result<Self, LinearOpticalModelError>)
        ensures
            match series {
                Ok(s) => values@.len() % 14 == 0 && s@ == values@,
                Err(e) => values@.len() % 14 != 0 && e == (LinearOpticalModelError::Ragged {
                    n_item: 14,
                    found: values@.len() as usize,
                }),
            },
    {
        let found = values.len();
        if found % 14 == 0 {
            Ok(SegmentTipTilt(values))
        } else {
            Err(LinearOpticalModelError::Ragged { n_item: 14, found })
        }
    }

    /// The values of the series.
    pub fn as_vec(&self) -> (values: &Vec<T>)
        ensures
            values@ == self@,
            values@.len() % 14 == 0,
    {
        proof {
            use_type_invariant(self);
        }
        &self.0
    }

    /// The values of the series, the series given up.
    pub fn into_vec(self) -> (values: Vec<T>)
        ensures
            values@ == self@,
            values@.len() % 14 == 0,
    {
        proof {
            use_type_invariant(&self);
        }
        self.0
    }
}

impl<T: Copy> OpticalMetrics for SegmentTipTilt<T> {
    type Scalar = T;

    open spec fn series(&self) -> Seq<T> {
        self@
    }

    /// [SegmentTipTilt] `7x2` x and y items
    open spec fn spec_n_item(&self) -> nat {
        14
    }

    /// [SegmentTipTilt] `7x2` x and y items
    fn n_item(&self) -> (n: usize) {
        proof {
            use_type_invariant(self);
        }
        14
    }

    fn items(&self) -> (items: Vec<Vec<T>>) {
        proof {
            use_type_invariant(self);
        }
        items_of(&self.0, 14)
    }

    fn time_wise(&self, n_sample: Option<usize>) -> (ordered: Result<
        Vec<T>,
        LinearOpticalModelError,
    >) {
        proof {
            use_type_invariant(self);
        }
        time_wise_of(&self.0, 14, n_sample)
    }
}

impl<T> std::ops::Deref for SegmentTipTilt<T> {
    type Target = Vec<T>;

    fn deref(&self) -> (values: &Vec<T>)
        ensures
            values@ == self@,
    {
        &self.0
    }
}

impl<T> From<SegmentTipTilt<T>> for Vec<T> {
    fn from(value: SegmentTipTilt<T>) -> (values: Vec<T>) {
        value.0
    }
}

impl<T> vstd::std_specs::convert::FromSpecImpl<SegmentTipTilt<T>> for Vec<T> {
    open spec fn obeys_from_spec() -> bool {
        true
    }

    open spec fn from_spec(value: SegmentTipTilt<T>) -> Vec<T> {
        value.spec_vec()
    }
}

impl<T: Copy> Clone for SegmentTipTilt<T> {
    fn clone(&self) -> (copy: Self)
        ensures
            copy@ == self@,
    {
        proof {
            use_type_invariant(self);
        }
        SegmentTipTilt(copy_of(&self.0))
    }
}

/// Type holding the segment piston values
#[derive(Debug)]
pub struct SegmentPiston<T>(Vec<T>);

impl<T> SegmentPiston<T> {
    /// The series holds whole time samples: 7 values each.
    #[verifier::type_invariant]
    closed spec fn whole_samples(self) -> bool {
        self.0@.len() % 7 == 0
    }

    /// The values of the series.
    pub closed spec fn view(self) -> Seq<T> {
        self.0@
    }

    /// The buffer of the series.
    pub closed spec fn spec_vec(self) -> Vec<T> {
        self.0
    }

    /// The buffer of the series, which `Vec::from` hands over, holds its
    /// values.
    pub proof fn lemma_spec_vec(self)
        ensures
            self.spec_vec()@ == self@,
    {
    }

    /// The series that `values` holds, where they make whole time samples.
    pub fn new(values: Vec<T>) -> (series: Result<Self, LinearOpticalModelError>)
        ensures
            match series {
                Ok(s) => values@.len() % 7 == 0 && s@ == values@,
                Err(e) => values@.len() % 7 != 0 && e == (LinearOpticalModelError::Ragged {
                    n_item: 7,
                    found: values@.len() as usize,
                }),
            },
    {
        let found = values.len();
        if found % 7 == 0 {
            Ok(SegmentPiston(values))
        } else {
            Err(LinearOpticalModelError::Ragged { n_item: 7, found })
        }
    }

    /// The values of the series.
    pub fn as_vec(&self) -> (values: &Vec<T>)
        ensures
            values@ == self@,
            values@.len() % 7 == 0,
    {
        proof {
            use_type_invariant(self);
        }
        &self.0
    }

    /// The values of the series, the series given up.
    pub fn into_vec(self) -> (values: Vec<T>)
        ensures
            values@ == self@,
            values@.len() % 7 == 0,
    {
        proof {
            use_type_invariant(&self);
        }
        self.0
    }
}

impl<T: Copy> OpticalMetrics for SegmentPiston<T> {
    type Scalar = T;

    open spec fn series(&self) -> Seq<T> {
        self@
    }

    /// [SegmentPiston] `7` items
    open spec fn spec_n_item(&self) -> nat {
        7
    }

    /// [SegmentPiston] `7` items
    fn n_item(&self) -> (n: usize) {
        proof {
            use_type_invariant(self);
        }
        7
    }

    fn items(&self) -> (items: Vec<Vec<T>>) {
        proof {
            use_type_invariant(self);
        }
        items_of(&self.0, 7)
    }

    fn time_wise(&self, n_sample: Option<usize>) -> (ordered: Result<
        Vec<T>,
        LinearOpticalModelError,
    >) {
        proof {
            use_type_invariant(self);
        }
        time_wise_of(&self.0, 7, n_sample)
    }
}

impl<T> std::ops::Deref for SegmentPiston<T> {
    type Target = Vec<T>;

    fn deref(&self) -> (values: &Vec<T>)
        ensures
            values@ == self@,
    {
        &self.0
    }
}

impl<T> From<SegmentPiston<T>> for Vec<T> {
    fn from(value: SegmentPiston<T>) -> (values: Vec<T>) {
        value.0
    }
}

impl<T> vstd::std_specs::convert::FromSpecImpl<SegmentPiston<T>> for Vec<T> {
    open spec fn obeys_from_spec() -> bool {
        true
    }

    open spec fn from_spec(value: SegmentPiston<T>) -> Vec<T> {
        value.spec_vec()
    }
}

impl<T: Copy> Clone for SegmentPiston<T> {
    fn clone(&self) -> (copy: Self)
        ensures
            copy@ == self@,
    {
        proof {
            use_type_invariant(self);
        }
        SegmentPiston(copy_of(&self.0))
    }
}

} // verus!
