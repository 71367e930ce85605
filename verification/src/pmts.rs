//! The position measurement targets (PMT): their sensitivities, read from a
//! sensor table, and their series, read from a table of telemetry.

use crate::error::LinearOpticalModelError;
use crate::matrix::{row_major, Matrix};
use crate::rigid_body_motions::{
    complete_values, first_error, gap, lemma_first_error, lemma_no_error, spec_complete, spec_gap,
    spec_values,
};
use crate::selection::{lemma_indices, lemma_indices_next, lemma_indices_prefix, spec_indices};
use crate::vectors::append;
use vstd::prelude::*;

verus! {

/// The number of values of a sample of the targets.
pub const N_PMT: usize = 300;

/// The sensitivities of the targets: a matrix listed row by row.
#[derive(Debug)]
pub struct PmtSensitivity<T> {
    pub data: Vec<T>,
    pub n_row: usize,
    pub n_col: usize,
}

/// The values of `rows`, one row after the other.
pub open spec fn spec_flatten<T>(rows: Seq<Vec<T>>) -> Seq<T> {
    rows.map_values(|row: Vec<T>| row@).flatten()
}

impl<T: Copy> PmtSensitivity<T> {
    /// The sensitivities that the rows of a sensor table hold: as many rows,
    /// with as many columns as the first row has values, and every value of the
    /// table, row after row.
    ///
    /// Fails with `Read` where the table has no row.
    pub fn from_rows(rows: &[Vec<T>]) -> (sens: Result<Self, LinearOpticalModelError>)
        ensures
            match sens {
                Ok(s) => {
                    &&& rows@.len() > 0
                    &&& s.n_row == rows@.len()
                    &&& s.n_col == rows@[0]@.len()
                    &&& s.data@ == spec_flatten(rows@)
                },
                Err(e) => rows@.len() == 0 && e == LinearOpticalModelError::Read,
            },
    {
        let n_row = rows.len();
        if n_row == 0 {
            return Err(LinearOpticalModelError::Read);
        }
        let n_col = rows[0].len();
        let mut data: Vec<T> = Vec::new();
        let mut i: usize = 0;
        while i < n_row
            invariant
                i <= n_row,
                n_row == rows@.len(),
                data@ == spec_flatten(rows@.take(i as int)),
            decreases n_row - i,
        {
            append(&mut data, rows[i].as_slice());
            proof {
                let lists = rows@.take(i as int).map_values(|row: Vec<T>| row@);
                assert(rows@.take(i + 1).map_values(|row: Vec<T>| row@) =~= lists.push(
                    rows@[i as int]@,
                ));
                lists.lemma_flatten_push(rows@[i as int]@);
            }
            i = i + 1;
        }
        proof {
            assert(rows@.take(n_row as int) == rows@);
        }
        Ok(PmtSensitivity { data, n_row, n_col })
    }

    /// The matrix of the sensitivities, where the values listed are those of
    /// `n_row` rows and `n_col` columns.
    pub fn to_matrix(&self) -> (matrix: Option<Matrix<T>>)
        ensures
            matrix is Some <==> self.data@.len() == self.n_row * self.n_col,
            matrix matches Some(m) ==> {
                &&& m.spec_nrows() == self.n_row
                &&& m.spec_ncols() == self.n_col
                &&& forall|row: int, col: int|
                    0 <= row < self.n_row && 0 <= col < self.n_col ==> #[trigger] m.at(row, col)
                        == self.data@[row_major(self.n_col as int, row, col)]
            },
    {
        Matrix::from_row_slice(self.n_row, self.n_col, &self.data)
    }
}

/// The test that keeps the index of a list of `lists` that is complete.
pub open spec fn keep_complete_list<T>(lists: Seq<Option<Vec<Option<T>>>>) -> spec_fn(int) -> bool {
    |i: int| spec_complete(lists[i])
}

/// The lists of a column that are complete, by their index and in their order.
pub open spec fn spec_kept_lists<T>(lists: Seq<Option<Vec<Option<T>>>>) -> Seq<int> {
    spec_indices(lists.len(), keep_complete_list(lists))
}

/// What is wrong with list `i` of a column: the number of its values.
pub open spec fn spec_list_error<T>(lists: Seq<Option<Vec<Option<T>>>>, i: int) -> Option<
    LinearOpticalModelError,
> {
    if spec_values(lists[i]).len() != 300 {
        Some(
            LinearOpticalModelError::Shape {
                rows: 300,
                columns: 1,
                found: spec_values(lists[i]).len() as usize,
            },
        )
    } else {
        None
    }
}

/// What is wrong with each of the complete lists of a column.
pub open spec fn spec_lists_errors<T>(lists: Seq<Option<Vec<Option<T>>>>) -> Seq<
    Option<LinearOpticalModelError>,
> {
    Seq::new(
        spec_kept_lists(lists).len(),
        |j: int| spec_list_error(lists, spec_kept_lists(lists)[j]),
    )
}

/// What the making of a series from the lists of a column hands back: the
/// first error among the complete lists; where there is none, the error `Read`
/// if fewer than two lists are complete; else the series of the complete
/// lists, with their time stamps.
pub open spec fn made_of_lists<T>(
    lists: Seq<Option<Vec<Option<T>>>>,
    pmt: Result<Pmt<T>, LinearOpticalModelError>,
) -> bool {
    match pmt {
        Ok(p) => {
            &&& first_error(spec_lists_errors(lists)) is None
            &&& spec_kept_lists(lists).len() >= 2
            &&& p.spec_data().spec_nrows() == 300
            &&& p.spec_data().spec_ncols() == spec_kept_lists(lists).len()
            &&& forall|j: int|
                0 <= j < spec_kept_lists(lists).len() ==> #[trigger] p.spec_data()@.subrange(
                    300 * j,
                    300 * j + 300,
                ) == spec_values(lists[spec_kept_lists(lists)[j]])
            &&& p.spec_time() == Some(
                Seq::new(
                    spec_kept_lists(lists).len(),
                    |j: int| spec_kept_lists(lists)[j] as usize,
                ),
            )
            &&& p.spec_sampling_frequency() is None
            &&& spec_kept_lists(lists)[0] < spec_kept_lists(lists)[1]
            &&& p.spec_stamp_gap() == Some(
                (spec_kept_lists(lists)[1] - spec_kept_lists(lists)[0]) as nat,
            )
        },
        Err(e) => match first_error(spec_lists_errors(lists)) {
            Some(first) => e == first,
            None => spec_kept_lists(lists).len() < 2 && e == LinearOpticalModelError::Read,
        },
    }
}

/// The series of the targets: a matrix with one column to the time sample.
pub struct Pmt<T> {
    sampling_frequency: Option<T>,
    time: Option<Vec<usize>>,
    data: Matrix<T>,
}

impl<T> Pmt<T> {
    /// The time stamps, where there are any, are one to the column.
    #[verifier::type_invariant]
    closed spec fn well_formed(self) -> bool {
        self.time matches Some(stamps) ==> stamps@.len() == self.data.spec_ncols()
    }

    /// The matrix of the series.
    pub closed spec fn spec_data(self) -> Matrix<T> {
        self.data
    }

    /// The time stamps, where the samples have any.
    pub closed spec fn spec_time(self) -> Option<Seq<usize>> {
        match self.time {
            Some(stamps) => Some(stamps@),
            None => None,
        }
    }

    /// The sampling frequency, where one is set.
    pub closed spec fn spec_sampling_frequency(self) -> Option<T> {
        self.sampling_frequency
    }

    /// The gap between the time stamps of the first two samples, where the
    /// samples have stamps.
    pub open spec fn spec_stamp_gap(self) -> Option<nat> {
        match self.spec_time() {
            Some(stamps) => spec_gap(stamps),
            None => None,
        }
    }

    /// The gap between the time stamps of the first two samples, where the
    /// samples have stamps: the sampling frequency of the samples is one over
    /// it.
    pub fn stamp_gap(&self) -> (gap: Option<usize>)
        ensures
            match gap {
                Some(g) => self.spec_stamp_gap() == Some(g as nat),
                None => self.spec_stamp_gap() is None,
            },
    {
        match &self.time {
            Some(stamps) => gap(stamps),
            None => None,
        }
    }

    /// The matrix of the series.
    pub fn data(&self) -> (data: &Matrix<T>)
        ensures
            *data == self.spec_data(),
    {
        &self.data
    }

    /// The time stamps of the samples, where they have any: for each, the index
    /// of its row in the table it came from.
    pub fn time(&self) -> (stamps: Option<&Vec<usize>>)
        ensures
            match stamps {
                Some(s) => self.spec_time() == Some(s@) && s@.len()
                    == self.spec_data().spec_ncols(),
                None => self.spec_time() is None,
            },
    {
        proof {
            use_type_invariant(self);
        }
        match &self.time {
            Some(stamps) => Some(stamps),
            None => None,
        }
    }

    /// Sets the sampling frequency.
    pub fn set_sampling_frequency(&mut self, sampling_frequency: T)
        ensures
            final(self).spec_sampling_frequency() == Some(sampling_frequency),
            final(self).spec_data() == old(self).spec_data(),
            final(self).spec_time() == old(self).spec_time(),
    {
        proof {
            use_type_invariant(&*self);
        }
        self.sampling_frequency = Some(sampling_frequency);
    }
}

impl<T: Copy> Pmt<T> {
    /// The sampling frequency, where one is set.
    pub fn sampling_frequency(&self) -> (frequency: Option<T>)
        ensures
            frequency == self.spec_sampling_frequency(),
    {
        self.sampling_frequency
    }

    /// Creates a [Pmt] from the lists of the column of the targets in a table
    ///
    /// A list that is missing, or has a missing value, is left out. The lists
    /// that stay make the time samples, in their order, and each has the index
    /// of its row for its time stamp.
    ///
    /// Fails with `Shape` on the first list that stays and has not 300 values,
    /// and with `Read` where fewer than two lists stay.
    pub fn from_record(lists: &[Option<Vec<Option<T>>>]) -> (pmt: Result<
        Self,
        LinearOpticalModelError,
    >)
        ensures
            made_of_lists(lists@, pmt),
    {
        let n = lists.len();
        let ghost keep = keep_complete_list(lists@);
        let mut data: Vec<T> = Vec::new();
        let mut stamps: Vec<usize> = Vec::new();
        let mut i: usize = 0;
        while i < n
            invariant
                i <= n,
                n == lists@.len(),
                keep == keep_complete_list(lists@),
                stamps@.len() == spec_indices(i as nat, keep).len(),
                forall|j: int|
                    0 <= j < stamps@.len() ==> #[trigger] stamps@[j] == spec_indices(i as nat, keep)[j],
                data@.len() == 300 * stamps@.len(),
                forall|j: int|
                    0 <= j < stamps@.len() ==> #[trigger] data@.subrange(300 * j, 300 * j + 300)
                        == spec_values(lists@[stamps@[j] as int]),
                forall|j: int|
                    0 <= j < stamps@.len() ==> spec_list_error(lists@, #[trigger] stamps@[j] as int)
                        is None,
            decreases n - i,
        {
            proof {
                lemma_indices_next(i as nat, keep);
                lemma_indices(i as nat, keep);
            }
            match complete_values(&lists[i]) {
                Some(values) => {
                    if values.len() != N_PMT {
                        proof {
                            let c = stamps@.len() as int;
                            lemma_indices_prefix((i + 1) as nat, lists@.len(), keep);
                            assert(spec_indices((i + 1) as nat, keep)[c] == i);
                            assert forall|k: int| 0 <= k < c implies (
                            #[trigger] spec_lists_errors(lists@)[k]) is None by {
                                assert(spec_indices((i + 1) as nat, keep)[k] == spec_indices(
                                    i as nat,
                                    keep,
                                )[k]);
                                assert(spec_list_error(lists@, stamps@[k] as int) is None);
                            }
                            lemma_first_error(spec_lists_errors(lists@), c);
                        }
                        return Err(
                            LinearOpticalModelError::Shape {
                                rows: N_PMT,
                                columns: 1,
                                found: values.len(),
                            },
                        );
                    }
                    let ghost before = data@;
                    append(&mut data, values.as_slice());
                    stamps.push(i);
                    proof {
                        let c = stamps@.len() - 1;
                        assert forall|j: int| 0 <= j < c implies #[trigger] data@.subrange(
                            300 * j,
                            300 * j + 300,
                        ) == spec_values(lists@[stamps@[j] as int]) by {
                            assert(data@.subrange(300 * j, 300 * j + 300) =~= before.subrange(
                                300 * j,
                                300 * j + 300,
                            ));
                        }
                    }
                },
                None => {},
            }
            i = i + 1;
        }
        proof {
            assert forall|j: int| 0 <= j < spec_kept_lists(lists@).len() implies (
            #[trigger] spec_lists_errors(lists@)[j]) is None by {
                assert(spec_list_error(lists@, stamps@[j] as int) is None);
            }
            lemma_no_error(spec_lists_errors(lists@));
        }
        if stamps.len() < 2 {
            return Err(LinearOpticalModelError::Read);
        }
        let n_sample = stamps.len();
        proof {
            lemma_indices(lists@.len(), keep);
            assert(spec_kept_lists(lists@)[0] < spec_kept_lists(lists@)[1]);
            assert(stamps@ =~= Seq::new(
                spec_kept_lists(lists@).len(),
                |j: int| spec_kept_lists(lists@)[j] as usize,
            ));
        }
        Ok(
            Pmt {
                sampling_frequency: None,
                time: Some(stamps),
                data: Matrix::with_shape(N_PMT, n_sample, data),
            },
        )
    }

    /// Takes the rows that `idx` names, in its order, for the rows of the
    /// series.
    ///
    /// Fails with `Shape`, and leaves the series as it is, where `idx` names a
    /// row that the series has not.
    pub fn shuffle(&mut self, idx: &[usize]) -> (done: Result<(), LinearOpticalModelError>)
        ensures
            final(self).spec_time() == old(self).spec_time(),
            final(self).spec_sampling_frequency() == old(self).spec_sampling_frequency(),
            match done {
                Ok(_) => {
                    &&& forall|k: int| 0 <= k < idx@.len() ==> idx@[k] < old(self).spec_data().spec_nrows()
                    &&& final(self).spec_data().spec_nrows() == idx@.len()
                    &&& final(self).spec_data().spec_ncols() == old(self).spec_data().spec_ncols()
                    &&& forall|row: int, col: int|
                        0 <= row < idx@.len() && 0 <= col < old(self).spec_data().spec_ncols()
                            ==> #[trigger] final(self).spec_data().at(row, col) == old(
                            self,
                        ).spec_data().at(idx@[row] as int, col)
                },
                Err(e) => {
                    &&& final(self).spec_data() == old(self).spec_data()
                    &&& exists|k: int|
                        0 <= k < idx@.len() && #[trigger] idx@[k] >= old(
                            self,
                        ).spec_data().spec_nrows()
                    &&& e == (LinearOpticalModelError::Shape {
                        rows: old(self).spec_data().spec_nrows() as usize,
                        columns: old(self).spec_data().spec_ncols() as usize,
                        found: old(self).spec_data()@.len() as usize,
                    })
                },
            },
    {
        proof {
            use_type_invariant(&*self);
        }
        match self.data.select_rows(idx) {
            Some(data) => {
                self.data = data;
                Ok(())
            },
            None => Err(
                LinearOpticalModelError::Shape {
                    rows: self.data.nrows(),
                    columns: self.data.ncols(),
                    found: self.data.as_vec().len(),
                },
            ),
        }
    }
}

} // verus!
