//! A dense matrix stored column by column.

use crate::vectors::copy_of;
use vstd::arithmetic::div_mod::{lemma_fundamental_div_mod, lemma_fundamental_div_mod_converse};
use vstd::prelude::*;

verus! {

/// The position of entry `(row, col)` of a matrix of `nrows` rows in its
/// column-major storage.
pub open spec fn column_major(nrows: int, row: int, col: int) -> int {
    col * nrows + row
}

/// The position of entry `(row, col)` of a matrix of `ncols` columns in a
/// row-major listing of its entries.
pub open spec fn row_major(ncols: int, row: int, col: int) -> int {
    row * ncols + col
}

/// An entry of an `nrows` by `ncols` matrix has its position inside the storage.
pub proof fn lemma_column_major_in_bounds(nrows: int, ncols: int, row: int, col: int)
    requires
        0 <= row < nrows,
        0 <= col < ncols,
    ensures
        0 <= column_major(nrows, row, col) < nrows * ncols,
        column_major(nrows, row, col) / nrows == col,
        column_major(nrows, row, col) % nrows == row,
{
    assert(col * nrows + nrows <= nrows * ncols) by (nonlinear_arith)
        requires
            col + 1 <= ncols,
            0 <= nrows,
    ;
    lemma_fundamental_div_mod_converse(column_major(nrows, row, col), nrows, col, row);
}

/// A position inside the storage of an `nrows` by `ncols` matrix is that of one
/// entry: row `i % nrows` of column `i / nrows`.
pub proof fn lemma_position_is_entry(nrows: int, ncols: int, i: int)
    requires
        0 <= i < nrows * ncols,
        0 <= ncols,
    ensures
        0 < nrows,
        0 <= i % nrows < nrows,
        0 <= i / nrows < ncols,
        column_major(nrows, i % nrows, i / nrows) == i,
{
    assert(0 < nrows) by (nonlinear_arith)
        requires
            0 < nrows * ncols,
            0 <= ncols,
    ;
    lemma_fundamental_div_mod(i, nrows);
    let q = i / nrows;
    assert(nrows * q == q * nrows) by (nonlinear_arith);
    assert(q < ncols) by (nonlinear_arith)
        requires
            i < nrows * ncols,
            0 < nrows,
            i == q * nrows + i % nrows,
            0 <= i % nrows,
    ;
}

/// A dense matrix of `nrows` rows and `ncols` columns, stored column by column.
#[derive(Debug)]
pub struct Matrix<T> {
    nrows: usize,
    ncols: usize,
    data: Vec<T>,
}

impl<T> Matrix<T> {
    /// The storage holds exactly the entries of the matrix.
    #[verifier::type_invariant]
    pub open spec fn well_formed(self) -> bool {
        self@.len() == self.spec_nrows() * self.spec_ncols()
    }

    /// The number of rows.
    pub closed spec fn spec_nrows(self) -> nat {
        self.nrows as nat
    }

    /// The number of columns.
    pub closed spec fn spec_ncols(self) -> nat {
        self.ncols as nat
    }

    /// The entries, column by column.
    pub closed spec fn view(self) -> Seq<T> {
        self.data@
    }

    /// The entry at `(row, col)`.
    pub open spec fn at(self, row: int, col: int) -> T {
        self@[column_major(self.spec_nrows() as int, row, col)]
    }

    /// The number of rows.
    pub fn nrows(&self) -> (n: usize)
        ensures
            n == self.spec_nrows(),
    {
        self.nrows
    }

    /// The number of columns.
    pub fn ncols(&self) -> (n: usize)
        ensures
            n == self.spec_ncols(),
    {
        self.ncols
    }

    /// The entries, column by column.
    pub fn as_vec(&self) -> (entries: &Vec<T>)
        ensures
            entries@ == self@,
            entries@.len() == self.spec_nrows() * self.spec_ncols(),
    {
        proof {
            use_type_invariant(self);
        }
        &self.data
    }

    /// The entries, column by column, the matrix given up.
    pub fn into_vec(self) -> (entries: Vec<T>)
        ensures
            entries@ == self@,
            entries@.len() == self.spec_nrows() * self.spec_ncols(),
    {
        proof {
            use_type_invariant(&self);
        }
        self.data
    }

    /// The matrix of `nrows` rows and `ncols` columns whose column-major storage
    /// is `data`.
    pub(crate) fn with_shape(nrows: usize, ncols: usize, data: Vec<T>) -> (matrix: Matrix<T>)
        requires
            data@.len() == nrows * ncols,
        ensures
            matrix.spec_nrows() == nrows,
            matrix.spec_ncols() == ncols,
            matrix@ == data@,
    {
        Matrix { nrows, ncols, data }
    }

    /// The matrix of `nrows` rows and `ncols` columns whose column-major storage
    /// is `data`, where `data` has one entry for each position and no more.
    pub fn from_vec(nrows: usize, ncols: usize, data: Vec<T>) -> (matrix: Option<Matrix<T>>)
        ensures
            matrix is Some <==> data@.len() == nrows * ncols,
            matrix matches Some(m) ==> m.spec_nrows() == nrows && m.spec_ncols() == ncols && m@
                == data@,
    {
        let found = data.len();
        match nrows.checked_mul(ncols) {
            Some(len) => {
                if found == len {
                    Some(Matrix { nrows, ncols, data })
                } else {
                    None
                }
            },
            None => None,
        }
    }
}

impl<T: Copy> Matrix<T> {
    /// The entry at `(row, col)`.
    pub fn get(&self, row: usize, col: usize) -> (entry: T)
        requires
            row < self.spec_nrows(),
            col < self.spec_ncols(),
        ensures
            entry == self.at(row as int, col as int),
    {
        proof {
            use_type_invariant(self);
            lemma_column_major_in_bounds(
                self.nrows as int,
                self.ncols as int,
                row as int,
                col as int,
            );
            assert(self.data.len() == self.nrows * self.ncols);
        }
        self.data[col * self.nrows + row]
    }

    /// Puts `value` at `(row, col)`.
    pub fn set(&mut self, row: usize, col: usize, value: T)
        requires
            row < old(self).spec_nrows(),
            col < old(self).spec_ncols(),
        ensures
            final(self).spec_nrows() == old(self).spec_nrows(),
            final(self).spec_ncols() == old(self).spec_ncols(),
            final(self)@ == old(self)@.update(
                column_major(old(self).spec_nrows() as int, row as int, col as int),
                value,
            ),
        no_unwind
    {
        proof {
            use_type_invariant(&*self);
            lemma_column_major_in_bounds(
                self.nrows as int,
                self.ncols as int,
                row as int,
                col as int,
            );
            assert(self.data.len() == self.nrows * self.ncols);
        }
        self.data[col * self.nrows + row] = value;
    }

    /// Puts `value` at every entry of the rows `first..end`.
    pub fn fill_rows(&mut self, first: usize, end: usize, value: T)
        ensures
            final(self).spec_nrows() == old(self).spec_nrows(),
            final(self).spec_ncols() == old(self).spec_ncols(),
            final(self)@.len() == old(self)@.len(),
            forall|i: int|
                0 <= i < old(self)@.len() ==> #[trigger] final(self)@[i] == if first <= i % (old(
                    self,
                ).spec_nrows() as int) < end {
                    value
                } else {
                    old(self)@[i]
                },
        no_unwind
    {
        proof {
            use_type_invariant(&*self);
        }
        let len = self.data.len();
        let mut i: usize = 0;
        while i < len
            invariant
                i <= len,
                len == self.data@.len(),
                len == self.nrows * self.ncols,
                self.nrows == old(self).nrows,
                self.ncols == old(self).ncols,
                self.data@.len() == old(self).data@.len(),
                forall|k: int|
                    0 <= k < len ==> #[trigger] self.data@[k] == if k < i && first <= k % (
                    self.nrows as int) < end {
                        value
                    } else {
                        old(self).data@[k]
                    },
            decreases len - i,
        {
            let row = i % self.nrows;
            if first <= row && row < end {
                self.data[i] = value;
            }
            i = i + 1;
        }
    }

    /// The matrix of `nrows` rows and `ncols` columns with `value` at every
    /// entry, where that matrix has a size this machine can address.
    pub fn filled(nrows: usize, ncols: usize, value: T) -> (matrix: Option<Matrix<T>>)
        ensures
            matrix is Some <==> nrows * ncols <= usize::MAX,
            matrix matches Some(m) ==> {
                &&& m.spec_nrows() == nrows
                &&& m.spec_ncols() == ncols
                &&& m@ == Seq::new((nrows * ncols) as nat, |i: int| value)
            },
    {
        match nrows.checked_mul(ncols) {
            Some(len) => {
                let mut data: Vec<T> = Vec::with_capacity(len);
                let mut i: usize = 0;
                while i < len
                    invariant
                        i <= len,
                        data@ == Seq::new(i as nat, |k: int| value),
                    decreases len - i,
                {
                    data.push(value);
                    i = i + 1;
                }
                Some(Matrix { nrows, ncols, data })
            },
            None => None,
        }
    }

    /// The matrix of `nrows` rows and `ncols` columns that `rows` lists row by
    /// row, where `rows` has one entry for each position and no more.
    pub fn from_row_slice(nrows: usize, ncols: usize, rows: &Vec<T>) -> (matrix: Option<Matrix<T>>)
        ensures
            matrix is Some <==> rows@.len() == nrows * ncols,
            matrix matches Some(m) ==> {
                &&& m.spec_nrows() == nrows
                &&& m.spec_ncols() == ncols
                &&& forall|row: int, col: int|
                    0 <= row < nrows && 0 <= col < ncols ==> #[trigger] m.at(row, col)
                        == rows@[row_major(ncols as int, row, col)]
            },
    {
        let found = rows.len();
        let len = match nrows.checked_mul(ncols) {
            Some(len) => len,
            None => {
                return None;
            },
        };
        if found != len {
            return None;
        }
        let mut data: Vec<T> = Vec::with_capacity(len);
        let mut col: usize = 0;
        while col < ncols
            invariant
                col <= ncols,
                rows.len() == nrows * ncols,
                data@.len() == col * nrows,
                forall|r: int, c: int|
                    0 <= r < nrows && 0 <= c < col ==> data@[#[trigger] column_major(
                        nrows as int,
                        r,
                        c,
                    )] == rows@[row_major(ncols as int, r, c)],
            decreases ncols - col,
        {
            let mut row: usize = 0;
            while row < nrows
                invariant
                    col < ncols,
                    row <= nrows,
                    rows.len() == nrows * ncols,
                    data@.len() == col * nrows + row,
                    forall|r: int, c: int|
                        0 <= r < nrows && 0 <= c < col ==> data@[#[trigger] column_major(
                            nrows as int,
                            r,
                            c,
                        )] == rows@[row_major(ncols as int, r, c)],
                    forall|r: int|
                        0 <= r < row ==> data@[#[trigger] column_major(nrows as int, r, col as int)]
                            == rows@[row_major(ncols as int, r, col as int)],
                decreases nrows - row,
            {
                proof {
                    // the entry read is inside `rows`
                    lemma_column_major_in_bounds(
                        ncols as int,
                        nrows as int,
                        col as int,
                        row as int,
                    );
                    assert(nrows * ncols == ncols * nrows) by (nonlinear_arith);
                    // the entries written before keep their place
                    assert forall|r: int, c: int| 0 <= r < nrows && 0 <= c < col implies 0
                        <= #[trigger] column_major(nrows as int, r, c) < col * nrows by {
                        lemma_column_major_in_bounds(nrows as int, col as int, r, c);
                        assert(nrows * col == col * nrows) by (nonlinear_arith);
                    }
                }
                data.push(rows[row * ncols + col]);
                row = row + 1;
            }
            proof {
                assert((col + 1) * nrows == col * nrows + nrows) by (nonlinear_arith);
            }
            col = col + 1;
        }
        proof {
            assert(nrows * ncols == ncols * nrows) by (nonlinear_arith);
        }
        Some(Matrix { nrows, ncols, data })
    }

    /// The matrix whose rows are the rows of this one that `idx` names, in its
    /// order, where this matrix has them all.
    pub fn select_rows(&self, idx: &[usize]) -> (matrix: Option<Matrix<T>>)
        ensures
            matrix is Some <==> forall|k: int|
                0 <= k < idx@.len() ==> #[trigger] idx@[k] < self.spec_nrows(),
            matrix matches Some(m) ==> {
                &&& m.spec_nrows() == idx@.len()
                &&& m.spec_ncols() == self.spec_ncols()
                &&& forall|row: int, col: int|
                    0 <= row < idx@.len() && 0 <= col < self.spec_ncols() ==> #[trigger] m.at(
                        row,
                        col,
                    ) == self.at(idx@[row] as int, col)
            },
    {
        proof {
            use_type_invariant(self);
        }
        let n = idx.len();
        let mut k: usize = 0;
        while k < n
            invariant
                k <= n,
                n == idx@.len(),
                forall|j: int| 0 <= j < k ==> #[trigger] idx@[j] < self.nrows,
            decreases n - k,
        {
            if idx[k] >= self.nrows {
                return None;
            }
            k = k + 1;
        }
        let mut data: Vec<T> = Vec::new();
        let mut col: usize = 0;
        while col < self.ncols
            invariant
                col <= self.ncols,
                n == idx@.len(),
                self.data@.len() == self.nrows * self.ncols,
                forall|j: int| 0 <= j < n ==> #[trigger] idx@[j] < self.nrows,
                data@.len() == col * n,
                forall|r: int, c: int|
                    0 <= r < n && 0 <= c < col ==> data@[#[trigger] column_major(n as int, r, c)]
                        == self.data@[column_major(self.nrows as int, idx@[r] as int, c)],
            decreases self.ncols - col,
        {
            let mut row: usize = 0;
            while row < n
                invariant
                    col < self.ncols,
                    row <= n,
                    n == idx@.len(),
                    self.data@.len() == self.nrows * self.ncols,
                    forall|j: int| 0 <= j < n ==> #[trigger] idx@[j] < self.nrows,
                    data@.len() == col * n + row,
                    forall|r: int, c: int|
                        0 <= r < n && 0 <= c < col ==> data@[#[trigger] column_major(
                            n as int,
                            r,
                            c,
                        )] == self.data@[column_major(self.nrows as int, idx@[r] as int, c)],
                    forall|r: int|
                        0 <= r < row ==> data@[#[trigger] column_major(n as int, r, col as int)]
                            == self.data@[column_major(
                            self.nrows as int,
                            idx@[r] as int,
                            col as int,
                        )],
                decreases n - row,
            {
                proof {
                    lemma_column_major_in_bounds(
                        self.nrows as int,
                        self.ncols as int,
                        idx@[row as int] as int,
                        col as int,
                    );
                    assert(self.data.len() == self.nrows * self.ncols);
                    assert forall|r: int, c: int| 0 <= r < n && 0 <= c < col implies 0
                        <= #[trigger] column_major(n as int, r, c) < col * n by {
                        lemma_column_major_in_bounds(n as int, col as int, r, c);
                    }
                }
                data.push(self.data[col * self.nrows + idx[row]]);
                row = row + 1;
            }
            proof {
                assert((col + 1) * n == col * n + n) by (nonlinear_arith);
            }
            col = col + 1;
        }
        proof {
            assert(n * self.ncols == self.ncols * n) by (nonlinear_arith);
        }
        Some(Matrix { nrows: n, ncols: self.ncols, data })
    }
}

impl<T: Copy> Clone for Matrix<T> {
    fn clone(&self) -> (copy: Self)
        ensures
            copy.spec_nrows() == self.spec_nrows(),
            copy.spec_ncols() == self.spec_ncols(),
            copy@ == self@,
    {
        proof {
            use_type_invariant(self);
        }
        Matrix { nrows: self.nrows, ncols: self.ncols, data: copy_of(&self.data) }
    }
}

} // verus!
