//! The rigid body motions of the segments of both mirrors.
//!
//! The motions are kept as a matrix of 84 rows and one column to the time
//! sample. A column reads `[M1, M2]`, a mirror `[S1, .., S7]` and a segment
//! `[Tx, Ty, Tz, Rx, Ry, Rz]`.

use crate::error::LinearOpticalModelError;
use crate::layout::{Mirror, MIRROR_DOF, N_DOF, SEGMENTS, SEGMENT_DOF};
use crate::formatting::Formatting;
use crate::matrix::Matrix;
use crate::vectors::{append, copy_of, is_zero};
use crate::selection::{lemma_indices, lemma_indices_next, lemma_indices_prefix, spec_indices};
use vstd::prelude::*;

verus! {

/// One row of a table of rigid body motions: the list of the values of M1 and
/// that of M2. A list, or a value in a list, may be missing.
#[derive(Debug)]
pub struct TableRow<T> {
    pub m1: Option<Vec<Option<T>>>,
    pub m2: Option<Vec<Option<T>>>,
}

/// The list is there, with every value of it.
pub open spec fn spec_complete<T>(list: Option<Vec<Option<T>>>) -> bool {
    list matches Some(values) && forall|i: int| 0 <= i < values@.len() ==> values@[i] is Some
}

/// The values of a complete list.
pub open spec fn spec_values<T>(list: Option<Vec<Option<T>>>) -> Seq<T> {
    match list {
        Some(values) => Seq::new(values@.len(), |i: int| values@[i]->0),
        None => Seq::empty(),
    }
}

impl<T> TableRow<T> {
    /// Both lists are there, with every value of them.
    pub open spec fn complete(self) -> bool {
        spec_complete(self.m1) && spec_complete(self.m2)
    }

    /// The motion sample of a complete row: the values of M1, then those of M2.
    pub open spec fn sample(self) -> Seq<T> {
        spec_values(self.m1) + spec_values(self.m2)
    }
}

/// The test that keeps the index of a row of `rows` that is complete.
pub open spec fn keep_complete<T>(rows: Seq<TableRow<T>>) -> spec_fn(int) -> bool {
    |i: int| rows[i].complete()
}

/// The rows of a table that are complete, by their index and in their order.
pub open spec fn spec_kept<T>(rows: Seq<TableRow<T>>) -> Seq<int> {
    spec_indices(rows.len(), keep_complete(rows))
}

/// What is wrong with the numbers of values that time sample `t` gives for the
/// two mirrors, M1 looked at first.
pub open spec fn spec_count_error(m1: nat, m2: nat, t: int) -> Option<LinearOpticalModelError> {
    if m1 != 42 {
        Some(
            LinearOpticalModelError::DofCount {
                sample: t as usize,
                mirror: Mirror::M1,
                expected: 42,
                found: m1 as usize,
            },
        )
    } else if m2 != 42 {
        Some(
            LinearOpticalModelError::DofCount {
                sample: t as usize,
                mirror: Mirror::M2,
                expected: 42,
                found: m2 as usize,
            },
        )
    } else {
        None
    }
}

/// What is wrong with the segments that time sample `t` gives for `mirror`:
/// their number, else the number of values of the first segment that has not 6.
pub open spec fn spec_segments_error<T>(segments: Seq<Vec<T>>, mirror: Mirror, t: int) -> Option<
    LinearOpticalModelError,
> {
    if segments.len() != 7 {
        Some(
            LinearOpticalModelError::DofCount {
                sample: t as usize,
                mirror,
                expected: 7,
                found: segments.len() as usize,
            },
        )
    } else if exists|s: int| 0 <= s < 7 && (#[trigger] segments[s])@.len() != 6 {
        let first = choose|s: int|
            0 <= s < 7 && (#[trigger] segments[s])@.len() != 6 && forall|r: int|
                0 <= r < s ==> (#[trigger] segments[r])@.len() == 6;
        Some(
            LinearOpticalModelError::DofCount {
                sample: t as usize,
                mirror,
                expected: 6,
                found: segments[first]@.len() as usize,
            },
        )
    } else {
        None
    }
}

/// The 42 values of a mirror that is given segment by segment.
pub open spec fn spec_flat<T>(segments: Seq<Vec<T>>) -> Seq<T> {
    Seq::new(42, |i: int| segments[i / 6]@[i % 6])
}

/// What is wrong with time sample `t`, given segment by segment, M1 looked at
/// first.
pub open spec fn spec_sample_error<T>(sample: (Vec<Vec<T>>, Vec<Vec<T>>), t: int) -> Option<
    LinearOpticalModelError,
> {
    match spec_segments_error(sample.0@, Mirror::M1, t) {
        Some(e) => Some(e),
        None => spec_segments_error(sample.1@, Mirror::M2, t),
    }
}

/// What is wrong with row `i` of a table: the numbers of values that it gives
/// for the two mirrors.
pub open spec fn spec_row_error<T>(rows: Seq<TableRow<T>>, i: int) -> Option<
    LinearOpticalModelError,
> {
    spec_count_error(spec_values(rows[i].m1).len(), spec_values(rows[i].m2).len(), i)
}

/// Entry `t` of `errors` is an error, and no entry before it is.
pub open spec fn is_first_error(errors: Seq<Option<LinearOpticalModelError>>, t: int) -> bool {
    &&& 0 <= t < errors.len()
    &&& errors[t] is Some
    &&& forall|u: int| 0 <= u < t ==> (#[trigger] errors[u]) is None
}

/// The first error among `errors`, where there is one.
pub open spec fn first_error(errors: Seq<Option<LinearOpticalModelError>>) -> Option<
    LinearOpticalModelError,
> {
    if exists|t: int| is_first_error(errors, t) {
        errors[choose|t: int| is_first_error(errors, t)]
    } else {
        None
    }
}

/// Entry `t` of `errors` is the first error: it is the one that `first_error`
/// names.
pub proof fn lemma_first_error(errors: Seq<Option<LinearOpticalModelError>>, t: int)
    requires
        is_first_error(errors, t),
    ensures
        first_error(errors) == errors[t],
{
    let k = choose|k: int| is_first_error(errors, k);
    // neither is before the other
    if k < t {
        assert(errors[k] is None);
    }
    if t < k {
        assert(errors[t] is None);
    }
}

/// No entry of `errors` is an error: `first_error` names none.
pub proof fn lemma_no_error(errors: Seq<Option<LinearOpticalModelError>>)
    requires
        forall|t: int| 0 <= t < errors.len() ==> (#[trigger] errors[t]) is None,
    ensures
        first_error(errors) is None,
{
    if exists|t: int| is_first_error(errors, t) {
        let k = choose|k: int| is_first_error(errors, k);
        assert(errors[k] is None);
    }
}

/// The time samples that `samples` gives, each the values of M1 then those of
/// M2.
pub open spec fn spec_slices<T>(samples: Seq<(&[T], &[T])>) -> Seq<Seq<T>> {
    Seq::new(samples.len(), |t: int| samples[t].0@ + samples[t].1@)
}

/// What is wrong with each of the time samples that `samples` gives.
pub open spec fn spec_slices_errors<T>(samples: Seq<(&[T], &[T])>) -> Seq<
    Option<LinearOpticalModelError>,
> {
    Seq::new(
        samples.len(),
        |t: int| spec_count_error(samples[t].0@.len(), samples[t].1@.len(), t),
    )
}

/// The time samples that `samples` gives segment by segment, each the values
/// of M1 then those of M2.
pub open spec fn spec_segmented<T>(samples: Seq<(Vec<Vec<T>>, Vec<Vec<T>>)>) -> Seq<Seq<T>> {
    Seq::new(samples.len(), |t: int| spec_flat(samples[t].0@) + spec_flat(samples[t].1@))
}

/// What is wrong with each of the time samples that `samples` gives segment by
/// segment.
pub open spec fn spec_segmented_errors<T>(samples: Seq<(Vec<Vec<T>>, Vec<Vec<T>>)>) -> Seq<
    Option<LinearOpticalModelError>,
> {
    Seq::new(samples.len(), |t: int| spec_sample_error(samples[t], t))
}

/// The time samples that the complete rows of a table give.
pub open spec fn spec_rows<T>(rows: Seq<TableRow<T>>) -> Seq<Seq<T>> {
    Seq::new(spec_kept(rows).len(), |j: int| rows[spec_kept(rows)[j]].sample())
}

/// What is wrong with each of the complete rows of a table.
pub open spec fn spec_rows_errors<T>(rows: Seq<TableRow<T>>) -> Seq<
    Option<LinearOpticalModelError>,
> {
    Seq::new(spec_kept(rows).len(), |j: int| spec_row_error(rows, spec_kept(rows)[j]))
}

/// The time stamps of the complete rows of a table: the index of each.
pub open spec fn spec_stamps<T>(rows: Seq<TableRow<T>>) -> Seq<usize> {
    Seq::new(spec_kept(rows).len(), |j: int| spec_kept(rows)[j] as usize)
}

/// What the making of rigid body motions from time samples hands back: the
/// first error among `errors` or, where there is none, new motions that hold
/// `samples`.
pub open spec fn made_of<T>(
    samples: Seq<Seq<T>>,
    errors: Seq<Option<LinearOpticalModelError>>,
    motions: Result<RigidBodyMotions<T>, LinearOpticalModelError>,
) -> bool {
    match motions {
        Ok(rbm) => first_error(errors) is None && rbm.holds(samples) && rbm.plain(),
        Err(e) => first_error(errors) == Some(e),
    }
}

/// What the making of rigid body motions from the rows of a table hands back:
/// the first error among the complete rows; where there is none, the error
/// `MissingRigidBodyMotions` if fewer than two rows are complete; else motions
/// that hold the complete rows, with their time stamps.
pub open spec fn made_of_rows<T>(
    rows: Seq<TableRow<T>>,
    motions: Result<RigidBodyMotions<T>, LinearOpticalModelError>,
) -> bool {
    match motions {
        Ok(rbm) => {
            &&& first_error(spec_rows_errors(rows)) is None
            &&& spec_kept(rows).len() >= 2
            &&& rbm.holds(spec_rows(rows))
            &&& rbm.spec_time() == Some(spec_stamps(rows))
            &&& spec_kept(rows)[0] < spec_kept(rows)[1]
            &&& rbm.spec_stamp_gap() == Some((spec_kept(rows)[1] - spec_kept(rows)[0]) as nat)
            &&& rbm.spec_sampling_frequency() is None
            &&& rbm.spec_format() == Formatting::AdHoc
        },
        Err(e) => match first_error(spec_rows_errors(rows)) {
            Some(first) => e == first,
            None => spec_kept(rows).len() < 2 && e
                == LinearOpticalModelError::MissingRigidBodyMotions,
        },
    }
}

/// The gap between the first two of the time stamps `stamps`: the sampling
/// frequency of the samples is one over it. None where there are fewer than
/// two stamps, or the second is before the first.
pub open spec fn spec_gap(stamps: Seq<usize>) -> Option<nat> {
    if stamps.len() >= 2 && stamps[0] <= stamps[1] {
        Some((stamps[1] - stamps[0]) as nat)
    } else {
        None
    }
}

/// The gap between the first two of the time stamps `stamps`: the sampling
/// frequency of the samples is one over it. None where there are fewer than
/// two stamps, or the second is before the first.
pub fn gap(stamps: &Vec<usize>) -> (gap: Option<usize>)
    ensures
        match gap {
            Some(g) => spec_gap(stamps@) == Some(g as nat),
            None => spec_gap(stamps@) is None,
        },
{
    if stamps.len() >= 2 && stamps[0] <= stamps[1] {
        Some(stamps[1] - stamps[0])
    } else {
        None
    }
}

/// The time stamps of the samples of rigid body motions.
#[derive(Debug)]
pub enum TimeAxis<T> {
    /// Each sample has its stamp: the index of its row in the table it came from.
    Stamps(Vec<usize>),
    /// The `n_sample` samples follow one another at the sampling frequency, or
    /// one unit of time apart where none is given: sample `i` is at `i` divided
    /// by the frequency.
    Uniform { n_sample: usize, sampling_frequency: Option<T> },
}

/// GMT M1 and M2 segment rigid body motions
///
/// The rigid body motions are saved in a matrix with 84 rows and as many columns as the number of time steps
/// A row has the following format: `[M1,M2]` where `[Mi]=[S1,S2,S3,S4,S5,S6,S7]` and `[Sj]=[Tjx,Tjy,Tjz,Rjx,Rjy,Rjz]`
#[derive(Debug)]
pub struct RigidBodyMotions<T> {
    // sampling frequency
    sampling_frequency: Option<T>,
    // time stamps
    time: Option<Vec<usize>>,
    // `[84,n]` matrix of rigid body motion
    data: Matrix<T>,
    format: Formatting,
}

impl<T> RigidBodyMotions<T> {
    /// The matrix has 84 rows, and the time stamps, where there are any, are one
    /// to the column.
    #[verifier::type_invariant]
    closed spec fn well_formed(self) -> bool {
        &&& self.data.spec_nrows() == 84
        &&& self.data@.len() == 84 * self.data.spec_ncols()
        &&& self.time matches Some(stamps) ==> stamps@.len() == self.data.spec_ncols()
    }

    /// The values, time sample by time sample.
    pub closed spec fn view(self) -> Seq<T> {
        self.data@
    }

    /// The number of time samples.
    pub closed spec fn spec_len(self) -> nat {
        self.data.spec_ncols()
    }

    /// The matrix of the motions.
    pub closed spec fn spec_data(self) -> Matrix<T> {
        self.data
    }

    /// The time stamps, where the samples have any.
    pub closed spec fn spec_time(self) -> Option<Seq<usize>> {
        match self.time {
            Some(stamps) => Some(stamps@),
            None => None,
        }
    }

    /// The sampling frequency, where one is set.
    pub closed spec fn spec_sampling_frequency(self) -> Option<T> {
        self.sampling_frequency
    }

    /// The gap between the time stamps of the first two samples, where the
    /// samples have stamps.
    pub open spec fn spec_stamp_gap(self) -> Option<nat> {
        match self.spec_time() {
            Some(stamps) => spec_gap(stamps),
            None => None,
        }
    }

    /// How the motions are written out.
    pub closed spec fn spec_format(self) -> Formatting {
        self.format
    }

    /// Time sample `t`: its 84 values.
    pub open spec fn spec_sample(self, t: int) -> Seq<T> {
        self@.subrange(84 * t, 84 * t + 84)
    }

    /// The value of row `dof` in time sample `t`.
    pub open spec fn at(self, dof: int, t: int) -> T {
        self@[84 * t + dof]
    }

    /// The motions hold the time samples `samples`, in their order.
    pub open spec fn holds(self, samples: Seq<Seq<T>>) -> bool {
        &&& self.spec_len() == samples.len()
        &&& forall|t: int| 0 <= t < samples.len() ==> #[trigger] self.spec_sample(t) == samples[t]
    }

    /// The motions are new: no time stamps, no sampling frequency, written out
    /// ad hoc.
    pub open spec fn plain(self) -> bool {
        &&& self.spec_time() is None
        &&& self.spec_sampling_frequency() is None
        &&& self.spec_format() == Formatting::AdHoc
    }

    /// The motions are those of `other`: the same values, time stamps and
    /// sampling frequency. They may be written out in another way.
    pub open spec fn same_motions(self, other: Self) -> bool {
        &&& self@ == other@
        &&& self.spec_data() == other.spec_data()
        &&& self.spec_len() == other.spec_len()
        &&& self.spec_time() == other.spec_time()
        &&& self.spec_sampling_frequency() == other.spec_sampling_frequency()
    }

    /// All of `self` but its values is as in `other`.
    pub open spec fn same_frame(self, other: Self) -> bool {
        &&& self.spec_len() == other.spec_len()
        &&& self.spec_time() == other.spec_time()
        &&& self.spec_sampling_frequency() == other.spec_sampling_frequency()
        &&& self.spec_format() == other.spec_format()
    }

    /// Returns the number of rigidbody motions sample `n`
    pub fn len(&self) -> (n: usize)
        ensures
            n == self.spec_len(),
            self@.len() == 84 * n,
    {
        proof {
            use_type_invariant(self);
        }
        self.data.ncols()
    }

    /// There is no time sample.
    pub fn is_empty(&self) -> (empty: bool)
        ensures
            empty == (self.spec_len() == 0),
    {
        self.len() == 0
    }

    /// Returns a reference to the rigid body motion `[84,n]` matrix
    pub fn data(&self) -> (data: &Matrix<T>)
        ensures
            *data == self.spec_data(),
            data@ == self@,
            data.spec_nrows() == 84,
            data.spec_ncols() == self.spec_len(),
    {
        proof {
            use_type_invariant(self);
        }
        &self.data
    }

    /// Consumes the object and returns the rigid body motion `[84,n]` matrix
    pub fn into_data(self) -> (data: Matrix<T>)
        ensures
            data == self.spec_data(),
            data@ == self@,
            data.spec_nrows() == 84,
            data.spec_ncols() == self.spec_len(),
    {
        proof {
            use_type_invariant(&self);
        }
        self.data
    }

    /// The motions that the matrix `data` holds, where it has 84 rows.
    pub fn from_matrix(data: Matrix<T>) -> (motions: Result<Self, LinearOpticalModelError>)
        ensures
            match motions {
                Ok(rbm) => {
                    &&& data.spec_nrows() == 84
                    &&& rbm.spec_data() == data
                    &&& rbm@ == data@
                    &&& rbm.spec_len() == data.spec_ncols()
                    &&& rbm.plain()
                },
                Err(e) => data.spec_nrows() != 84 && e == (LinearOpticalModelError::Shape {
                    rows: 84,
                    columns: data.spec_ncols() as usize,
                    found: data@.len() as usize,
                }),
            },
    {
        proof {
            use_type_invariant(&data);
        }
        if data.nrows() == N_DOF {
            Ok(
                RigidBodyMotions {
                    sampling_frequency: None,
                    time: None,
                    data,
                    format: Formatting::AdHoc,
                },
            )
        } else {
            Err(
                LinearOpticalModelError::Shape {
                    rows: N_DOF,
                    columns: data.ncols(),
                    found: data.as_vec().len(),
                },
            )
        }
    }

    /// The gap between the time stamps of the first two samples, where the
    /// samples have stamps: the sampling frequency of the samples is one over
    /// it.
    pub fn stamp_gap(&self) -> (gap: Option<usize>)
        ensures
            match gap {
                Some(g) => self.spec_stamp_gap() == Some(g as nat),
                None => self.spec_stamp_gap() is None,
            },
    {
        match &self.time {
            Some(stamps) => gap(stamps),
            None => None,
        }
    }

    /// How the motions are written out.
    pub fn format(&self) -> (format: Formatting)
        ensures
            format == self.spec_format(),
    {
        self.format
    }

    /// Sets how the motions are written out.
    pub fn set_format(&mut self, format: Formatting)
        ensures
            final(self).spec_format() == format,
            final(self).same_motions(*old(self)),
    {
        proof {
            use_type_invariant(&*self);
        }
        self.format = format;
    }

    /// Sets the sampling frequency.
    pub fn set_sampling_frequency(&mut self, sampling_frequency: T)
        ensures
            final(self).spec_sampling_frequency() == Some(sampling_frequency),
            final(self)@ == old(self)@,
            final(self).spec_data() == old(self).spec_data(),
            final(self).spec_len() == old(self).spec_len(),
            final(self).spec_time() == old(self).spec_time(),
            final(self).spec_format() == old(self).spec_format(),
    {
        proof {
            use_type_invariant(&*self);
        }
        self.sampling_frequency = Some(sampling_frequency);
    }
}

/// The values of `list`, where it is there with every value of it.
pub(crate) fn complete_values<T: Copy>(list: &Option<Vec<Option<T>>>) -> (values: Option<Vec<T>>)
    ensures
        values is Some <==> spec_complete(*list),
        values matches Some(v) ==> v@ == spec_values(*list),
{
    match list {
        None => None,
        Some(entries) => {
            let n = entries.len();
            let mut values: Vec<T> = Vec::with_capacity(n);
            let mut i: usize = 0;
            while i < n
                invariant
                    i <= n,
                    n == entries@.len(),
                    *list == Some(*entries),
                    values@.len() == i,
                    forall|j: int| 0 <= j < i ==> entries@[j] is Some,
                    forall|j: int| 0 <= j < i ==> #[trigger] values@[j] == entries@[j]->0,
                decreases n - i,
            {
                match entries[i] {
                    Some(value) => {
                        values.push(value);
                    },
                    None => {
                        return None;
                    },
                }
                i = i + 1;
            }
            Some(values)
        },
    }
}

/// The 42 values of a mirror that time sample `t` gives segment by segment,
/// where it gives 7 segments of 6 values.
fn flatten<T: Copy>(segments: &Vec<Vec<T>>, mirror: Mirror, t: usize) -> (values: Result<
    Vec<T>,
    LinearOpticalModelError,
>)
    ensures
        match values {
            Ok(v) => spec_segments_error(segments@, mirror, t as int) is None && v@ == spec_flat(
                segments@,
            ),
            Err(e) => spec_segments_error(segments@, mirror, t as int) == Some(e),
        },
{
    if segments.len() != SEGMENTS {
        return Err(
            LinearOpticalModelError::DofCount {
                sample: t,
                mirror,
                expected: SEGMENTS,
                found: segments.len(),
            },
        );
    }
    let mut values: Vec<T> = Vec::with_capacity(MIRROR_DOF);
    let mut s: usize = 0;
    while s < SEGMENTS
        invariant
            s <= 7,
            segments@.len() == 7,
            values@.len() == 6 * s,
            forall|r: int| 0 <= r < s ==> (#[trigger] segments@[r])@.len() == 6,
            forall|i: int| 0 <= i < 6 * s ==> #[trigger] values@[i] == segments@[i / 6]@[i % 6],
        decreases 7 - s,
    {
        let segment = &segments[s];
        if segment.len() != SEGMENT_DOF {
            return Err(
                LinearOpticalModelError::DofCount {
                    sample: t,
                    mirror,
                    expected: SEGMENT_DOF,
                    found: segment.len(),
                },
            );
        }
        append(&mut values, segment.as_slice());
        s = s + 1;
    }
    Ok(values)
}

/// The name of the column of M1 and that of the column of M2 in a table of
/// telemetry, where the caller names none.
pub fn telemetry_labels<'a>(m1_rbm_label: Option<&'a str>, m2_rbm_label: Option<&'a str>) -> (labels:
    (&'a str, &'a str))
    ensures
        labels.0@ == match m1_rbm_label {
            Some(label) => label@,
            None => "OSSM1Lcl"@,
        },
        labels.1@ == match m2_rbm_label {
            Some(label) => label@,
            None => "MCM2Lcl6D"@,
        },
{
    let m1 = match m1_rbm_label {
        Some(label) => label,
        None => "OSSM1Lcl",
    };
    let m2 = match m2_rbm_label {
        Some(label) => label,
        None => "MCM2Lcl6D",
    };
    (m1, m2)
}

/// The name of the column of M1 and that of the column of M2 in a record that
/// the motions are written to, where the caller names none.
pub fn record_labels<'a>(m1_rbm_label: Option<&'a str>, m2_rbm_label: Option<&'a str>) -> (labels: (
    &'a str,
    &'a str,
))
    ensures
        labels.0@ == match m1_rbm_label {
            Some(label) => label@,
            None => "M1RigidBodyMotions"@,
        },
        labels.1@ == match m2_rbm_label {
            Some(label) => label@,
            None => "M2RigidBodyMotions"@,
        },
{
    let m1 = match m1_rbm_label {
        Some(label) => label,
        None => "M1RigidBodyMotions",
    };
    let m2 = match m2_rbm_label {
        Some(label) => label,
        None => "M2RigidBodyMotions",
    };
    (m1, m2)
}

impl<T: Copy + Default> RigidBodyMotions<T> {
    /// Puts zero at every row of `mirror`, in every time sample.
    pub fn zeroed(&mut self, mirror: Mirror)
        ensures
            final(self).same_frame(*old(self)),
            final(self)@.len() == old(self)@.len(),
            forall|dof: int, t: int|
                0 <= dof < 84 && 0 <= t < old(self).spec_len() ==> if crate::layout::in_mirror(
                    mirror,
                    dof,
                ) {
                    is_zero(#[trigger] final(self).at(dof, t))
                } else {
                    final(self).at(dof, t) == old(self).at(dof, t)
                },
    {
        proof {
            use_type_invariant(&*self);
        }
        let zero = T::default();
        let first = mirror.offset();
        self.data.fill_rows(first, first + MIRROR_DOF, zero);
    }

    /// Puts zero at every row of M1, in every time sample.
    pub fn zeroed_m1(&mut self)
        ensures
            final(self).same_frame(*old(self)),
            final(self)@.len() == old(self)@.len(),
            forall|dof: int, t: int|
                0 <= dof < 84 && 0 <= t < old(self).spec_len() ==> if dof < 42 {
                    is_zero(#[trigger] final(self).at(dof, t))
                } else {
                    final(self).at(dof, t) == old(self).at(dof, t)
                },
    {
        self.zeroed(Mirror::M1);
    }

    /// Puts zero at every row of M2, in every time sample.
    pub fn zeroed_m2(&mut self)
        ensures
            final(self).same_frame(*old(self)),
            final(self)@.len() == old(self)@.len(),
            forall|dof: int, t: int|
                0 <= dof < 84 && 0 <= t < old(self).spec_len() ==> if dof >= 42 {
                    is_zero(#[trigger] final(self).at(dof, t))
                } else {
                    final(self).at(dof, t) == old(self).at(dof, t)
                },
    {
        self.zeroed(Mirror::M2);
    }
}

/// Motions whose rows of M2 hold zeros hold nothing but zeros, once zero is put
/// at their rows of M1.
pub proof fn lemma_all_zero<T: Default>(before: RigidBodyMotions<T>, after: RigidBodyMotions<T>)
    requires
        after.spec_len() == before.spec_len(),
        forall|dof: int, t: int|
            0 <= dof < 84 && 0 <= t < before.spec_len() ==> if dof < 42 {
                is_zero(#[trigger] after.at(dof, t))
            } else {
                after.at(dof, t) == before.at(dof, t)
            },
        forall|dof: int, t: int|
            42 <= dof < 84 && 0 <= t < before.spec_len() ==> is_zero(#[trigger] before.at(dof, t)),
    ensures
        forall|dof: int, t: int|
            0 <= dof < 84 && 0 <= t < after.spec_len() ==> is_zero(#[trigger] after.at(dof, t)),
{
    assert forall|dof: int, t: int| 0 <= dof < 84 && 0 <= t < after.spec_len() implies is_zero(
        #[trigger] after.at(dof, t),
    ) by {
        if dof >= 42 {
            assert(is_zero(before.at(dof, t)));
        }
    }
}

impl<T: Copy + Default> Default for RigidBodyMotions<T> {
    /// One time sample, of zeros.
    fn default() -> (rbm: Self)
        ensures
            rbm.spec_len() == 1,
            rbm@.len() == 84,
            rbm.plain(),
            forall|dof: int| 0 <= dof < 84 ==> is_zero(#[trigger] rbm.at(dof, 0)),
    {
        let zero = T::default();
        let data = Matrix::filled(N_DOF, 1, zero).unwrap();
        RigidBodyMotions { sampling_frequency: None, time: None, data, format: Formatting::AdHoc }
    }
}

impl<T: Copy> Clone for RigidBodyMotions<T> {
    fn clone(&self) -> (copy: Self)
        ensures
            copy@ == self@,
            copy.same_frame(*self),
    {
        proof {
            use_type_invariant(self);
        }
        let time = match &self.time {
            Some(stamps) => Some(copy_of(stamps)),
            None => None,
        };
        RigidBodyMotions {
            sampling_frequency: self.sampling_frequency,
            time,
            data: self.data.clone(),
            format: self.format,
        }
    }
}

impl<T: Copy> RigidBodyMotions<T> {
    /// The value of row `dof` in time sample `t`.
    pub fn get(&self, dof: usize, t: usize) -> (value: T)
        requires
            dof < 84,
            t < self.spec_len(),
        ensures
            value == self.at(dof as int, t as int),
    {
        proof {
            use_type_invariant(self);
        }
        self.data.get(dof, t)
    }

    /// Returns the time vector
    ///
    /// It is the stamps of the samples, where they have any. Where not, the
    /// samples follow one another at the sampling frequency.
    pub fn time(&self) -> (axis: TimeAxis<T>)
        ensures
            match axis {
                TimeAxis::Stamps(stamps) => self.spec_time() == Some(stamps@) && stamps@.len()
                    == self.spec_len(),
                TimeAxis::Uniform { n_sample, sampling_frequency } => {
                    &&& self.spec_time() is None
                    &&& n_sample == self.spec_len()
                    &&& sampling_frequency == self.spec_sampling_frequency()
                },
            },
    {
        proof {
            use_type_invariant(self);
        }
        match &self.time {
            Some(stamps) => TimeAxis::Stamps(copy_of(stamps)),
            None => TimeAxis::Uniform {
                n_sample: self.data.ncols(),
                sampling_frequency: self.sampling_frequency,
            },
        }
    }

    /// Takes the first values of `values`, 42 at most, for the first rows of
    /// `mirror` in the first time sample.
    pub fn read(&mut self, mirror: Mirror, values: &[T])
        requires
            old(self).spec_len() > 0,
        ensures
            final(self).same_frame(*old(self)),
            final(self)@.len() == old(self)@.len(),
            forall|dof: int, t: int|
                0 <= dof < 84 && 0 <= t < old(self).spec_len() ==> #[trigger] final(self).at(
                    dof,
                    t,
                ) == if t == 0 && 0 <= dof - mirror.spec_offset() < 42 && dof
                    - mirror.spec_offset() < values@.len() {
                    values@[dof - mirror.spec_offset()]
                } else {
                    old(self).at(dof, t)
                },
    {
        proof {
            use_type_invariant(&*self);
        }
        let first = mirror.offset();
        let n = if values.len() < MIRROR_DOF {
            values.len()
        } else {
            MIRROR_DOF
        };
        let mut i: usize = 0;
        while i < n
            invariant
                i <= n,
                n <= 42,
                n <= values@.len(),
                first == mirror.spec_offset(),
                self.data.spec_nrows() == 84,
                self.data.spec_ncols() == old(self).data.spec_ncols(),
                self.data.spec_ncols() > 0,
                self.data@.len() == old(self).data@.len(),
                self.data@.len() == 84 * self.data.spec_ncols(),
                self.time == old(self).time,
                self.time matches Some(stamps) ==> stamps@.len() == self.data.spec_ncols(),
                self.sampling_frequency == old(self).sampling_frequency,
                self.format == old(self).format,
                forall|k: int|
                    0 <= k < self.data@.len() ==> #[trigger] self.data@[k] == if first <= k < first
                        + i {
                        values@[k - first]
                    } else {
                        old(self).data@[k]
                    },
            decreases n - i,
        {
            self.data.set(first + i, 0, values[i]);
            i = i + 1;
        }
    }

    /// The values of `mirror`, time sample by time sample.
    pub fn mirror_samples(&self, mirror: Mirror) -> (samples: Vec<Vec<T>>)
        ensures
            samples@.len() == self.spec_len(),
            forall|t: int|
                0 <= t < self.spec_len() ==> (#[trigger] samples@[t])@ == self.spec_sample(
                    t,
                ).subrange(mirror.spec_offset(), mirror.spec_offset() + 42),
    {
        proof {
            use_type_invariant(self);
        }
        let first = mirror.offset();
        let n = self.data.ncols();
        let values = self.data.as_vec();
        let mut samples: Vec<Vec<T>> = Vec::with_capacity(n);
        let mut t: usize = 0;
        while t < n
            invariant
                t <= n,
                first == mirror.spec_offset(),
                values@ == self@,
                values.len() == 84 * n,
                samples@.len() == t,
                forall|u: int|
                    0 <= u < t ==> (#[trigger] samples@[u])@ == self.spec_sample(u).subrange(
                        first as int,
                        first + 42,
                    ),
            decreases n - t,
        {
            let start = N_DOF * t + first;
            let mut sample: Vec<T> = Vec::with_capacity(MIRROR_DOF);
            let mut i: usize = 0;
            while i < MIRROR_DOF
                invariant
                    i <= 42,
                    start + 42 <= values.len(),
                    sample@ == values@.subrange(start as int, start + i),
                decreases 42 - i,
            {
                sample.push(values[start + i]);
                i = i + 1;
            }
            samples.push(sample);
            t = t + 1;
        }
        samples
    }
}

impl<T: Copy> RigidBodyMotions<T> {
    /// The motions of the time samples in `samples`, each the 42 values of M1
    /// and the 42 values of M2.
    ///
    /// Fails with `DofCount` on the first sample that gives another number of
    /// values for a mirror.
    pub fn from_slices(samples: &[(&[T], &[T])]) -> (motions: Result<
        Self,
        LinearOpticalModelError,
    >)
        ensures
            made_of(spec_slices(samples@), spec_slices_errors(samples@), motions),
    {
        let n = samples.len();
        let ghost errors = spec_slices_errors(samples@);
        let mut data: Vec<T> = Vec::new();
        let mut t: usize = 0;
        while t < n
            invariant
                t <= n,
                n == samples@.len(),
                errors == spec_slices_errors(samples@),
                data@.len() == 84 * t,
                forall|u: int|
                    0 <= u < t ==> #[trigger] data@.subrange(84 * u, 84 * u + 84) == spec_slices(
                        samples@,
                    )[u],
                forall|u: int| 0 <= u < t ==> (#[trigger] errors[u]) is None,
            decreases n - t,
        {
            let m1 = samples[t].0;
            let m2 = samples[t].1;
            if m1.len() != MIRROR_DOF {
                proof {
                    lemma_first_error(errors, t as int);
                }
                return Err(
                    LinearOpticalModelError::DofCount {
                        sample: t,
                        mirror: Mirror::M1,
                        expected: MIRROR_DOF,
                        found: m1.len(),
                    },
                );
            }
            if m2.len() != MIRROR_DOF {
                proof {
                    lemma_first_error(errors, t as int);
                }
                return Err(
                    LinearOpticalModelError::DofCount {
                        sample: t,
                        mirror: Mirror::M2,
                        expected: MIRROR_DOF,
                        found: m2.len(),
                    },
                );
            }
            let ghost before = data@;
            append(&mut data, m1);
            append(&mut data, m2);
            proof {
                assert(data@ == before + (m1@ + m2@));
                lemma_sample_appended(before, m1@ + m2@, t as int);
            }
            t = t + 1;
        }
        proof {
            lemma_no_error(errors);
        }
        Ok(Self::from_samples(data, n, None))
    }

    /// The motions of the time samples in `samples`, each the 7 segments of M1
    /// and the 7 segments of M2, a segment with its 6 values.
    ///
    /// Fails with `DofCount` on the first sample that gives another number of
    /// segments for a mirror, or another number of values for a segment.
    pub fn from_segments(samples: &[(Vec<Vec<T>>, Vec<Vec<T>>)]) -> (motions: Result<
        Self,
        LinearOpticalModelError,
    >)
        ensures
            made_of(spec_segmented(samples@), spec_segmented_errors(samples@), motions),
    {
        let n = samples.len();
        let ghost errors = spec_segmented_errors(samples@);
        let mut data: Vec<T> = Vec::new();
        let mut t: usize = 0;
        while t < n
            invariant
                t <= n,
                n == samples@.len(),
                errors == spec_segmented_errors(samples@),
                data@.len() == 84 * t,
                forall|u: int|
                    0 <= u < t ==> #[trigger] data@.subrange(84 * u, 84 * u + 84)
                        == spec_segmented(samples@)[u],
                forall|u: int| 0 <= u < t ==> (#[trigger] errors[u]) is None,
            decreases n - t,
        {
            let m1 = match flatten(&samples[t].0, Mirror::M1, t) {
                Ok(values) => values,
                Err(e) => {
                    proof {
                        lemma_first_error(errors, t as int);
                    }
                    return Err(e);
                },
            };
            let m2 = match flatten(&samples[t].1, Mirror::M2, t) {
                Ok(values) => values,
                Err(e) => {
                    proof {
                        lemma_first_error(errors, t as int);
                    }
                    return Err(e);
                },
            };
            let ghost before = data@;
            append(&mut data, m1.as_slice());
            append(&mut data, m2.as_slice());
            proof {
                assert(data@ == before + (m1@ + m2@));
                lemma_sample_appended(before, m1@ + m2@, t as int);
            }
            t = t + 1;
        }
        proof {
            lemma_no_error(errors);
        }
        Ok(Self::from_samples(data, n, None))
    }

    /// Creates a [RigidBodyMotions] from the rows of a table
    ///
    /// A row with a missing list or a missing value is left out. The rows that
    /// stay make the time samples, in their order, and each has the index of its
    /// row for its time stamp.
    ///
    /// Fails with `DofCount` on the first row that stays and gives another number
    /// of values than 42 for a mirror, and with `MissingRigidBodyMotions` where
    /// fewer than two rows stay.
    pub fn from_record(rows: &[TableRow<T>]) -> (motions: Result<Self, LinearOpticalModelError>)
        ensures
            made_of_rows(rows@, motions),
    {
        let n = rows.len();
        let ghost keep = keep_complete(rows@);
        let mut data: Vec<T> = Vec::new();
        let mut stamps: Vec<usize> = Vec::new();
        let mut i: usize = 0;
        while i < n
            invariant
                i <= n,
                n == rows@.len(),
                keep == keep_complete(rows@),
                stamps@.len() == spec_indices(i as nat, keep).len(),
                forall|j: int|
                    0 <= j < stamps@.len() ==> #[trigger] stamps@[j] == spec_indices(
                        i as nat,
                        keep,
                    )[j],
                data@.len() == 84 * stamps@.len(),
                forall|j: int|
                    0 <= j < stamps@.len() ==> #[trigger] data@.subrange(84 * j, 84 * j + 84)
                        == rows@[stamps@[j] as int].sample(),
                forall|j: int|
                    0 <= j < stamps@.len() ==> spec_row_error(rows@, #[trigger] stamps@[j] as int)
                        is None,
            decreases n - i,
        {
            let row = &rows[i];
            proof {
                lemma_indices_next(i as nat, keep);
                lemma_indices(i as nat, keep);
            }
            let m1 = complete_values(&row.m1);
            let m2 = complete_values(&row.m2);
            match (m1, m2) {
                (Some(m1), Some(m2)) => {
                    if m1.len() != MIRROR_DOF {
                        proof {
                            lemma_first_row_error(rows@, i as int, stamps@);
                        }
                        return Err(
                            LinearOpticalModelError::DofCount {
                                sample: i,
                                mirror: Mirror::M1,
                                expected: MIRROR_DOF,
                                found: m1.len(),
                            },
                        );
                    }
                    if m2.len() != MIRROR_DOF {
                        proof {
                            lemma_first_row_error(rows@, i as int, stamps@);
                        }
                        return Err(
                            LinearOpticalModelError::DofCount {
                                sample: i,
                                mirror: Mirror::M2,
                                expected: MIRROR_DOF,
                                found: m2.len(),
                            },
                        );
                    }
                    let ghost before = data@;
                    append(&mut data, m1.as_slice());
                    append(&mut data, m2.as_slice());
                    stamps.push(i);
                    proof {
                        assert(data@ == before + (m1@ + m2@));
                        lemma_sample_appended(before, m1@ + m2@, stamps@.len() - 1);
                    }
                },
                _ => {},
            }
            i = i + 1;
        }
        proof {
            assert forall|j: int| 0 <= j < spec_kept(rows@).len() implies (
            #[trigger] spec_rows_errors(rows@)[j]) is None by {
                assert(spec_row_error(rows@, stamps@[j] as int) is None);
            }
            lemma_no_error(spec_rows_errors(rows@));
        }
        if stamps.len() < 2 {
            return Err(LinearOpticalModelError::MissingRigidBodyMotions);
        }
        let n_sample = stamps.len();
        proof {
            assert(stamps@ =~= spec_stamps(rows@));
            lemma_indices(rows@.len(), keep);
            assert(spec_kept(rows@)[0] < spec_kept(rows@)[1]);
        }
        Ok(Self::from_samples(data, n_sample, Some(stamps)))
    }

    /// The motions of `n` time samples whose values are `data`.
    fn from_samples(data: Vec<T>, n: usize, time: Option<Vec<usize>>) -> (rbm: Self)
        requires
            data@.len() == 84 * n,
            time matches Some(stamps) ==> stamps@.len() == n,
        ensures
            rbm@ == data@,
            rbm.spec_len() == n,
            rbm.spec_time() == match time {
                Some(stamps) => Some(stamps@),
                None => None,
            },
            rbm.spec_sampling_frequency() is None,
            rbm.spec_format() == Formatting::AdHoc,
    {
        RigidBodyMotions {
            sampling_frequency: None,
            time,
            data: Matrix::with_shape(N_DOF, n, data),
            format: Formatting::AdHoc,
        }
    }
}

/// With `sample` appended as time sample `t`, the samples before `t` stay and
/// `sample` is the one at `t`.
proof fn lemma_sample_appended<T>(before: Seq<T>, sample: Seq<T>, t: int)
    requires
        0 <= t,
        before.len() == 84 * t,
        sample.len() == 84,
    ensures
        (before + sample).len() == 84 * (t + 1),
        (before + sample).subrange(84 * t, 84 * t + 84) == sample,
        forall|u: int|
            0 <= u < t ==> #[trigger] (before + sample).subrange(84 * u, 84 * u + 84)
                == before.subrange(84 * u, 84 * u + 84),
{
}

/// Row `i` of a table is complete and has an error in its numbers of values,
/// and the complete rows before it, which `stamps` lists, have none: then the
/// error of row `i` is the first among the complete rows.
proof fn lemma_first_row_error<T>(rows: Seq<TableRow<T>>, i: int, stamps: Seq<usize>)
    requires
        0 <= i < rows.len(),
        rows[i].complete(),
        spec_row_error(rows, i) is Some,
        stamps.len() == spec_indices(i as nat, keep_complete(rows)).len(),
        forall|j: int|
            0 <= j < stamps.len() ==> #[trigger] stamps[j] == spec_indices(
                i as nat,
                keep_complete(rows),
            )[j],
        forall|j: int|
            0 <= j < stamps.len() ==> spec_row_error(rows, #[trigger] stamps[j] as int) is None,
    ensures
        first_error(spec_rows_errors(rows)) == spec_row_error(rows, i),
{
    let c = stamps.len() as int;
    let keep = keep_complete(rows);
    lemma_indices_next(i as nat, keep);
    lemma_indices_prefix((i + 1) as nat, rows.len(), keep);
    assert(spec_indices((i + 1) as nat, keep)[c] == i);
    assert forall|k: int| 0 <= k < c implies (#[trigger] spec_rows_errors(rows)[k]) is None by {
        assert(spec_kept(rows)[k] == stamps[k]);
    }
    lemma_first_error(spec_rows_errors(rows), c);
}

} // verus!
