//! The sensitivities: the linear maps from rigid body motions to the optics.
//!
//! A sensitivity matrix has one column for each of the 84 rows of a motion
//! sample and is stored column by column.

use crate::error::LinearOpticalModelError;
use crate::layout::{MIRROR_DOF, N_DOF};
use crate::matrix::{column_major, lemma_column_major_in_bounds, Matrix};
use crate::vectors::copy_of;
use crate::metrics::lemma_whole_samples;
use crate::pupil::{count, expand, spec_count, spec_expanded};
use crate::segments::{decompose, lemma_segments_permute, spec_all_segments, spec_segment};
use vstd::prelude::*;
use vstd::string::*;

verus! {

/// The kinds of entries that a set of sensitivities can hold.
#[derive(Debug, Clone, Copy, PartialEq, Eq, Hash, Structural)]
pub enum SensitivityKind {
    Wavefront,
    TipTilt,
    SegmentTipTilt,
    SegmentPiston,
    SegmentMask,
    PupilMask,
}

impl SensitivityKind {
    /// The name of the kind.
    pub open spec fn spec_name(self) -> Seq<char> {
        match self {
            SensitivityKind::Wavefront => "Wavefront"@,
            SensitivityKind::TipTilt => "TipTilt"@,
            SensitivityKind::SegmentTipTilt => "SegmentTipTilt"@,
            SensitivityKind::SegmentPiston => "SegmentPiston"@,
            SensitivityKind::SegmentMask => "SegmentMask"@,
            SensitivityKind::PupilMask => "PupilMask"@,
        }
    }

    /// The name of the kind.
    pub fn name(self) -> (name: &'static str)
        ensures
            name@ == self.spec_name(),
    {
        match self {
            SensitivityKind::Wavefront => "Wavefront",
            SensitivityKind::TipTilt => "TipTilt",
            SensitivityKind::SegmentTipTilt => "SegmentTipTilt",
            SensitivityKind::SegmentPiston => "SegmentPiston",
            SensitivityKind::SegmentMask => "SegmentMask",
            SensitivityKind::PupilMask => "PupilMask",
        }
    }

    /// The number of rows that a sensitivity matrix of this kind must have,
    /// where the kind fixes it.
    pub open spec fn spec_fixed_rows(self) -> Option<nat> {
        match self {
            SensitivityKind::TipTilt => Some(2),
            SensitivityKind::SegmentTipTilt => Some(14),
            SensitivityKind::SegmentPiston => Some(7),
            _ => None,
        }
    }

    /// The number of rows that a sensitivity matrix of this kind must have,
    /// where the kind fixes it.
    pub fn fixed_rows(self) -> (rows: Option<usize>)
        ensures
            match rows {
                Some(n) => self.spec_fixed_rows() == Some(n as nat),
                None => self.spec_fixed_rows() is None,
            },
    {
        match self {
            SensitivityKind::TipTilt => Some(2),
            SensitivityKind::SegmentTipTilt => Some(14),
            SensitivityKind::SegmentPiston => Some(7),
            _ => None,
        }
    }
}

/// Optical sensitivity
///
/// Linear transformation of M1 and M2 rigid body motions into wavefront and wavefront piston and tip-tilt modes
#[derive(Debug)]
pub enum OpticalSensitivity<T> {
    /// Wavefront sensitivity `[nx84]` where n in the pupil resolution
    Wavefront(Vec<T>),
    /// Exit pupil tip-tilt sensitivity `[2x84]`
    TipTilt(Vec<T>),
    /// Exit pupil segment tip-tilt `[14x84]`
    SegmentTipTilt(Vec<T>),
    /// Exit pupil segment piston `[7x84]`
    SegmentPiston(Vec<T>),
    /// The segment, `1..=7`, of each illuminated point of the pupil
    SegmentMask(Vec<i32>),
    /// Which points of the pupil are illuminated
    PupilMask(Vec<bool>),
}

impl<T> OpticalSensitivity<T> {
    /// The kind of the entry.
    pub open spec fn spec_kind(self) -> SensitivityKind {
        match self {
            OpticalSensitivity::Wavefront(_) => SensitivityKind::Wavefront,
            OpticalSensitivity::TipTilt(_) => SensitivityKind::TipTilt,
            OpticalSensitivity::SegmentTipTilt(_) => SensitivityKind::SegmentTipTilt,
            OpticalSensitivity::SegmentPiston(_) => SensitivityKind::SegmentPiston,
            OpticalSensitivity::SegmentMask(_) => SensitivityKind::SegmentMask,
            OpticalSensitivity::PupilMask(_) => SensitivityKind::PupilMask,
        }
    }

    /// The stored values of a sensitivity matrix, column by column; none for a
    /// mask.
    pub open spec fn spec_values(self) -> Option<Seq<T>> {
        match self {
            OpticalSensitivity::Wavefront(values) => Some(values@),
            OpticalSensitivity::TipTilt(values) => Some(values@),
            OpticalSensitivity::SegmentTipTilt(values) => Some(values@),
            OpticalSensitivity::SegmentPiston(values) => Some(values@),
            _ => None,
        }
    }

    /// The number of rows of a sensitivity matrix whose stored values make whole
    /// columns, as many as its kind asks for; none for a mask, nor for a matrix
    /// of another size.
    pub open spec fn spec_rows(self) -> Option<nat> {
        match self.spec_values() {
            Some(values) => match self.spec_kind().spec_fixed_rows() {
                Some(rows) => if values.len() == rows * 84 {
                    Some(rows)
                } else {
                    None
                },
                None => if values.len() % 84 == 0 {
                    Some(values.len() / 84)
                } else {
                    None
                },
            },
            None => None,
        }
    }

    /// The entry at `(row, dof)` of a sensitivity matrix of `rows` rows.
    pub open spec fn at(self, row: int, dof: int) -> T {
        self.spec_values()->0[column_major(self.spec_rows()->0 as int, row, dof)]
    }

    /// The entry is what its kind says: a matrix of the right size, a mask of
    /// segments from 1 to 7, or a mask of the pupil.
    pub open spec fn well_formed(self) -> bool {
        match self {
            OpticalSensitivity::SegmentMask(mask) => forall|i: int|
                0 <= i < mask@.len() ==> 1 <= #[trigger] mask@[i] <= 7,
            OpticalSensitivity::PupilMask(_) => true,
            _ => self.spec_rows() is Some,
        }
    }

    /// The number of illuminated points of the pupil, for an entry that has one
    /// value or one row to the point.
    pub open spec fn spec_pupil_points(self) -> Option<nat> {
        match self {
            OpticalSensitivity::Wavefront(values) => Some(values@.len() / 84),
            OpticalSensitivity::SegmentMask(mask) => Some(mask@.len()),
            OpticalSensitivity::PupilMask(mask) => Some(spec_count(mask@)),
            _ => None,
        }
    }

    /// The kind of the entry.
    pub fn kind(&self) -> (kind: SensitivityKind)
        ensures
            kind == self.spec_kind(),
    {
        match self {
            OpticalSensitivity::Wavefront(_) => SensitivityKind::Wavefront,
            OpticalSensitivity::TipTilt(_) => SensitivityKind::TipTilt,
            OpticalSensitivity::SegmentTipTilt(_) => SensitivityKind::SegmentTipTilt,
            OpticalSensitivity::SegmentPiston(_) => SensitivityKind::SegmentPiston,
            OpticalSensitivity::SegmentMask(_) => SensitivityKind::SegmentMask,
            OpticalSensitivity::PupilMask(_) => SensitivityKind::PupilMask,
        }
    }

    /// The two entries are of one kind, whatever they hold.
    pub fn same_kind(&self, other: &OpticalSensitivity<T>) -> (same: bool)
        ensures
            same == (self.spec_kind() == other.spec_kind()),
    {
        self.kind() == other.kind()
    }

    /// The name of the kind of the entry.
    pub fn name(&self) -> (name: &'static str)
        ensures
            name@ == self.spec_kind().spec_name(),
    {
        self.kind().name()
    }

    /// The stored values of a sensitivity matrix, column by column; none for a
    /// mask.
    pub fn values(&self) -> (values: Option<&Vec<T>>)
        ensures
            match values {
                Some(v) => self.spec_values() == Some(v@),
                None => self.spec_values() is None,
            },
    {
        match self {
            OpticalSensitivity::Wavefront(values) => Some(values),
            OpticalSensitivity::TipTilt(values) => Some(values),
            OpticalSensitivity::SegmentTipTilt(values) => Some(values),
            OpticalSensitivity::SegmentPiston(values) => Some(values),
            _ => None,
        }
    }

    /// The number of rows of a sensitivity matrix: with its 84 columns they
    /// account for every stored value. None for a mask, nor for a matrix whose
    /// size is not what its kind asks for.
    pub fn rows(&self) -> (rows: Option<usize>)
        ensures
            match rows {
                Some(n) => self.spec_rows() == Some(n as nat) && n * 84
                    == self.spec_values()->0.len(),
                None => self.spec_rows() is None,
            },
    {
        let values = match self.values() {
            Some(values) => values,
            None => {
                return None;
            },
        };
        let len = values.len();
        match self.kind().fixed_rows() {
            Some(rows) => {
                if len == rows * N_DOF {
                    Some(rows)
                } else {
                    None
                }
            },
            None => {
                if len % N_DOF == 0 {
                    proof {
                        lemma_whole_samples(len as nat, 84);
                    }
                    Some(len / N_DOF)
                } else {
                    None
                }
            },
        }
    }

    /// The entry is what its kind says: a matrix of the right size, a mask of
    /// segments from 1 to 7, or a mask of the pupil.
    pub fn is_well_formed(&self) -> (ok: bool)
        ensures
            ok == self.well_formed(),
    {
        match self {
            OpticalSensitivity::SegmentMask(mask) => {
                let mut i: usize = 0;
                while i < mask.len()
                    invariant
                        i <= mask.len(),
                        *self == OpticalSensitivity::<T>::SegmentMask(*mask),
                        forall|k: int| 0 <= k < i ==> 1 <= #[trigger] mask@[k] <= 7,
                    decreases mask.len() - i,
                {
                    if mask[i] < 1 || mask[i] > 7 {
                        assert(!(1 <= self->SegmentMask_0@[i as int] <= 7));
                        return false;
                    }
                    i = i + 1;
                }
                true
            },
            OpticalSensitivity::PupilMask(_) => true,
            _ => self.rows().is_some(),
        }
    }

    /// The number of illuminated points of the pupil, for an entry that has one
    /// value or one row to the point.
    pub fn pupil_points(&self) -> (points: Option<usize>)
        ensures
            match points {
                Some(n) => self.spec_pupil_points() == Some(n as nat),
                None => self.spec_pupil_points() is None,
            },
    {
        match self {
            OpticalSensitivity::Wavefront(values) => Some(values.len() / N_DOF),
            OpticalSensitivity::SegmentMask(mask) => Some(mask.len()),
            OpticalSensitivity::PupilMask(mask) => Some(count(mask)),
            _ => None,
        }
    }
}

impl<T: Copy> OpticalSensitivity<T> {
    /// The sensitivity matrix: its rows, its 84 columns and its stored values.
    /// None for a mask, nor for a matrix whose size is not what its kind asks
    /// for.
    pub fn to_matrix(&self) -> (matrix: Option<Matrix<T>>)
        ensures
            match matrix {
                Some(m) => {
                    &&& self.spec_rows() == Some(m.spec_nrows())
                    &&& m.spec_ncols() == 84
                    &&& self.spec_values() == Some(m@)
                    &&& m.spec_nrows() * 84 == m@.len()
                    &&& forall|row: int, dof: int|
                        0 <= row < m.spec_nrows() && 0 <= dof < 84 ==> #[trigger] m.at(row, dof)
                            == self.spec_values()->0[dof * m.spec_nrows() + row]
                },
                None => self.spec_rows() is None,
            },
    {
        match self.rows() {
            Some(rows) => {
                let values = self.values().unwrap();
                Some(Matrix::with_shape(rows, N_DOF, copy_of(values)))
            },
            None => None,
        }
    }

    /// Returns M1 wavefront sensitivities `[nx42]`
    ///
    /// They are the columns of M1: the first 42 columns of the wavefront
    /// sensitivity.
    ///
    /// Fails with `SegmentTipTilt` for an entry of another kind, and with
    /// `SensitivityData` where the stored values do not make whole columns.
    pub fn m1_wavefront(&self) -> (matrix: Result<Matrix<T>, LinearOpticalModelError>)
        ensures
            match matrix {
                Ok(m) => {
                    &&& self is Wavefront
                    &&& self.spec_rows() == Some(m.spec_nrows())
                    &&& m.spec_ncols() == 42
                    &&& forall|row: int, col: int|
                        0 <= row < m.spec_nrows() && 0 <= col < 42 ==> #[trigger] m.at(row, col)
                            == self.at(row, col)
                },
                Err(e) => if self is Wavefront {
                    self.spec_rows() is None && e == LinearOpticalModelError::SensitivityData
                } else {
                    e == LinearOpticalModelError::SegmentTipTilt
                },
            },
    {
        match self {
            OpticalSensitivity::Wavefront(sens) => {
                let n = match self.rows() {
                    Some(n) => n,
                    None => {
                        return Err(LinearOpticalModelError::SensitivityData);
                    },
                };
                assert(sens.len() == n * 84);
                let len = n * MIRROR_DOF;
                let mut data: Vec<T> = Vec::with_capacity(len);
                let mut i: usize = 0;
                while i < len
                    invariant
                        i <= len,
                        len == n * 42,
                        sens.len() == n * 84,
                        data@ == sens@.take(i as int),
                    decreases len - i,
                {
                    data.push(sens[i]);
                    i = i + 1;
                }
                let m = Matrix::with_shape(n, MIRROR_DOF, data);
                proof {
                    assert forall|row: int, col: int|
                        0 <= row < m.spec_nrows() && 0 <= col < 42 implies #[trigger] m.at(row, col)
                        == self.at(row, col) by {
                        lemma_column_major_in_bounds(n as int, 42, row, col);
                    }
                }
                Ok(m)
            },
            _ => Err(LinearOpticalModelError::SegmentTipTilt),
        }
    }

    /// Returns M2 segment tip-tilt sensitivities `[14x14]`
    ///
    /// They are the columns of the rotations about x and about y of the 7
    /// segments of M2, segment by segment.
    ///
    /// Fails with `SegmentTipTilt` for an entry of another kind, and with
    /// `SensitivityData` where the matrix has not 14 rows and 84 columns.
    pub fn m2_rxy(&self) -> (matrix: Result<Matrix<T>, LinearOpticalModelError>)
        ensures
            match matrix {
                Ok(m) => {
                    &&& self is SegmentTipTilt
                    &&& self.spec_rows() == Some(14nat)
                    &&& m.spec_nrows() == 14
                    &&& m.spec_ncols() == 14
                    &&& forall|row: int, col: int|
                        0 <= row < 14 && 0 <= col < 14 ==> #[trigger] m.at(row, col) == self.at(
                            row,
                            spec_m2_rxy_dof(col),
                        )
                },
                Err(e) => if self is SegmentTipTilt {
                    self.spec_rows() is None && e == LinearOpticalModelError::SensitivityData
                } else {
                    e == LinearOpticalModelError::SegmentTipTilt
                },
            },
    {
        match self {
            OpticalSensitivity::SegmentTipTilt(sens) => {
                if self.rows().is_none() {
                    return Err(LinearOpticalModelError::SensitivityData);
                }
                let mut data: Vec<T> = Vec::with_capacity(196);
                let mut col: usize = 0;
                while col < 14
                    invariant
                        col <= 14,
                        sens@.len() == 14 * 84,
                        data@.len() == 14 * col,
                        forall|r: int, c: int|
                            0 <= r < 14 && 0 <= c < col ==> data@[#[trigger] column_major(14, r, c)]
                                == sens@[column_major(14, r, spec_m2_rxy_dof(c))],
                    decreases 14 - col,
                {
                    let dof = 42 + 6 * (col / 2) + 3 + col % 2;
                    let mut row: usize = 0;
                    while row < 14
                        invariant
                            row <= 14,
                            col < 14,
                            dof == spec_m2_rxy_dof(col as int),
                            sens@.len() == 14 * 84,
                            data@.len() == 14 * col + row,
                            forall|r: int, c: int|
                                0 <= r < 14 && 0 <= c < col ==> data@[#[trigger] column_major(
                                    14,
                                    r,
                                    c,
                                )] == sens@[column_major(14, r, spec_m2_rxy_dof(c))],
                            forall|r: int|
                                0 <= r < row ==> data@[#[trigger] column_major(14, r, col as int)]
                                    == sens@[column_major(14, r, dof as int)],
                        decreases 14 - row,
                    {
                        data.push(sens[dof * 14 + row]);
                        row = row + 1;
                    }
                    col = col + 1;
                }
                Ok(Matrix::with_shape(14, 14, data))
            },
            _ => Err(LinearOpticalModelError::SegmentTipTilt),
        }
    }
}

/// The row of a motion sample that column `col` of the matrix of `m2_rxy` stands
/// for: the rotation about x, for an even `col`, or about y, for an odd one, of
/// segment `col / 2` of M2.
pub open spec fn spec_m2_rxy_dof(col: int) -> int {
    42 + 6 * (col / 2) + 3 + col % 2
}

/// The number of rows of the first `l` matrices of `senses` together.
pub open spec fn spec_rows_before<T>(senses: Seq<OpticalSensitivity<T>>, l: int) -> nat
    decreases l,
{
    if l <= 0 {
        0
    } else {
        spec_rows_before(senses, l - 1) + match senses[l - 1].spec_rows() {
            Some(rows) => rows,
            None => 0,
        }
    }
}

/// Every entry of `senses` is a sensitivity matrix of the size that its kind
/// asks for.
pub open spec fn all_matrices<T>(senses: Seq<OpticalSensitivity<T>>) -> bool {
    forall|l: int| 0 <= l < senses.len() ==> (#[trigger] senses[l]).spec_rows() is Some
}

/// Where entry `(row, dof)` of matrix `l` of `senses` stands in the storage of
/// the matrices stacked, which have `total` rows together.
pub open spec fn stacked_index<T>(
    senses: Seq<OpticalSensitivity<T>>,
    total: int,
    l: int,
    row: int,
    dof: int,
) -> int {
    column_major(total, spec_rows_before(senses, l) + row, dof)
}

/// The rows of matrix `l` come after those of the matrices before it and
/// before those of the matrices after it.
proof fn lemma_rows_before<T>(senses: Seq<OpticalSensitivity<T>>, l: int, upto: int)
    requires
        all_matrices(senses),
        0 <= l < upto <= senses.len(),
    ensures
        spec_rows_before(senses, l) + senses[l].spec_rows()->0 == spec_rows_before(senses, l + 1),
        spec_rows_before(senses, l + 1) <= spec_rows_before(senses, upto),
    decreases upto - l,
{
    if l + 1 < upto {
        lemma_rows_before(senses, l + 1, upto);
    }
}

/// Stacks the sensitivity matrices of `senses`: the rows of the first, then
/// those of the second, and so on, in one matrix of 84 columns. None where an
/// entry is a mask, or a matrix of another size than its kind asks for.
pub fn from_opticals<T: Copy>(senses: &[OpticalSensitivity<T>]) -> (stacked: Option<Matrix<T>>)
    ensures
        stacked is Some <==> all_matrices(senses@),
        stacked matches Some(m) ==> {
            &&& m.spec_nrows() == spec_rows_before(senses@, senses@.len() as int)
            &&& m.spec_ncols() == 84
            &&& forall|l: int, row: int, dof: int|
                0 <= l < senses@.len() && 0 <= row < senses@[l].spec_rows()->0 && 0 <= dof < 84
                    ==> m.at(spec_rows_before(senses@, l) + row, dof) == #[trigger] senses@[l].at(
                    row,
                    dof,
                )
        },
{
    let n = senses.len();
    let mut l: usize = 0;
    while l < n
        invariant
            l <= n,
            n == senses@.len(),
            forall|k: int| 0 <= k < l ==> (#[trigger] senses@[k]).spec_rows() is Some,
        decreases n - l,
    {
        if senses[l].rows().is_none() {
            return None;
        }
        l = l + 1;
    }
    let ghost total = spec_rows_before(senses@, n as int) as int;
    let mut data: Vec<T> = Vec::new();
    let mut dof: usize = 0;
    while dof < N_DOF
        invariant
            dof <= 84,
            n == senses@.len(),
            all_matrices(senses@),
            total == spec_rows_before(senses@, n as int),
            data@.len() == dof * total,
            forall|k: int, row: int, d: int|
                0 <= k < n && 0 <= row < senses@[k].spec_rows()->0 && 0 <= d < dof
                    ==> data@[stacked_index(senses@, total, k, row, d)] == #[trigger] senses@[k].at(
                    row,
                    d,
                ),
        decreases 84 - dof,
    {
        let mut l: usize = 0;
        while l < n
            invariant
                l <= n,
                dof < 84,
                n == senses@.len(),
                all_matrices(senses@),
                total == spec_rows_before(senses@, n as int),
                data@.len() == dof * total + spec_rows_before(senses@, l as int),
                forall|k: int, row: int, d: int|
                    0 <= k < n && 0 <= row < senses@[k].spec_rows()->0 && (0 <= d < dof || (d == dof
                        && k < l)) ==> data@[stacked_index(senses@, total, k, row, d)]
                        == #[trigger] senses@[k].at(row, d),
            decreases n - l,
        {
            let entry = &senses[l];
            let rows = entry.rows().unwrap();
            let values = entry.values().unwrap();
            proof {
                lemma_rows_before(senses@, l as int, n as int);
            }
            let mut row: usize = 0;
            while row < rows
                invariant
                    row <= rows,
                    l < n,
                    dof < 84,
                    n == senses@.len(),
                    all_matrices(senses@),
                    total == spec_rows_before(senses@, n as int),
                    *entry == senses@[l as int],
                    entry.spec_rows() == Some(rows as nat),
                    entry.spec_values() == Some(values@),
                    values.len() == rows * 84,
                    spec_rows_before(senses@, l as int) + rows <= total,
                    data@.len() == dof * total + spec_rows_before(senses@, l as int) + row,
                    forall|k: int, r: int, d: int|
                        0 <= k < n && 0 <= r < senses@[k].spec_rows()->0 && (0 <= d < dof || (d
                            == dof && (k < l || (k == l && r < row)))) ==> data@[stacked_index(
                            senses@,
                            total,
                            k,
                            r,
                            d,
                        )] == #[trigger] senses@[k].at(r, d),
                decreases rows - row,
            {
                proof {
                    lemma_column_major_in_bounds(rows as int, 84, row as int, dof as int);
                }
                data.push(values[dof * rows + row]);
                proof {
                    assert forall|k: int, r: int, d: int|
                        0 <= k < n && 0 <= r < senses@[k].spec_rows()->0 && (0 <= d < dof || (d
                            == dof && (k < l || (k == l && r <= row)))) implies data@[stacked_index(
                        senses@,
                        total,
                        k,
                        r,
                        d,
                    )] == #[trigger] senses@[k].at(r, d) by {
                        lemma_rows_before(senses@, k, n as int);
                        let place = spec_rows_before(senses@, k) + r;
                        if d < dof {
                            lemma_column_major_in_bounds(total, dof as int, place, d);
                        } else if k < l {
                            lemma_rows_before(senses@, k, l as int);
                        }
                    }
                }
                row = row + 1;
            }
            l = l + 1;
        }
        proof {
            assert((dof + 1) * total == dof * total + total) by (nonlinear_arith);
        }
        dof = dof + 1;
    }
    let n_rows = data.len() / N_DOF;
    Some(Matrix::with_shape(n_rows, N_DOF, data))
}

/// The rows of a sensitivity matrix, with its 84 columns, account for every
/// stored value. A matrix of tip-tilt has 2 rows, one of segment tip-tilt 14
/// and one of segment piston 7.
pub proof fn lemma_rows_by_columns<T>(sens: OpticalSensitivity<T>)
    requires
        sens.spec_rows() is Some,
    ensures
        sens.spec_values() is Some,
        sens.spec_rows()->0 * 84 == sens.spec_values()->0.len(),
        sens is TipTilt ==> sens.spec_rows() == Some(2nat),
        sens is SegmentTipTilt ==> sens.spec_rows() == Some(14nat),
        sens is SegmentPiston ==> sens.spec_rows() == Some(7nat),
{
    if sens is Wavefront {
        lemma_whole_samples(sens.spec_values()->0.len(), 84);
    }
}

/// Two entries do not disagree on the number of illuminated points of the pupil.
pub open spec fn pupil_agree<T>(a: OpticalSensitivity<T>, b: OpticalSensitivity<T>) -> bool {
    a.spec_pupil_points() is Some && b.spec_pupil_points() is Some ==> a.spec_pupil_points()
        == b.spec_pupil_points()
}

/// The entries make a set of sensitivities: each is well formed, no two are of
/// one kind, and no two disagree on the number of illuminated points of the
/// pupil.
pub open spec fn valid_set<T>(entries: Seq<OpticalSensitivity<T>>) -> bool {
    &&& forall|i: int| 0 <= i < entries.len() ==> (#[trigger] entries[i]).well_formed()
    &&& forall|i: int, j: int|
        0 <= i < j < entries.len() ==> (#[trigger] entries[i]).spec_kind() != (
        #[trigger] entries[j]).spec_kind()
    &&& forall|i: int, j: int|
        0 <= i < entries.len() && 0 <= j < entries.len() ==> pupil_agree(
            #[trigger] entries[i],
            #[trigger] entries[j],
        )
}

/// Entry `i` is the first of `kind` among `entries`.
pub open spec fn first_of_kind<T>(
    entries: Seq<OpticalSensitivity<T>>,
    kind: SensitivityKind,
    i: int,
) -> bool {
    &&& 0 <= i < entries.len()
    &&& entries[i].spec_kind() == kind
    &&& forall|j: int| 0 <= j < i ==> (#[trigger] entries[j]).spec_kind() != kind
}

/// The first entry of `kind` among `entries`, where there is one.
pub open spec fn spec_entry<T>(
    entries: Seq<OpticalSensitivity<T>>,
    kind: SensitivityKind,
) -> Option<OpticalSensitivity<T>> {
    if exists|i: int| first_of_kind(entries, kind, i) {
        Some(entries[choose|i: int| first_of_kind(entries, kind, i)])
    } else {
        None
    }
}

/// Entry `i` is the one that `spec_entry` names for its kind, where no entry
/// before it is of that kind.
pub proof fn lemma_entry_found<T>(
    entries: Seq<OpticalSensitivity<T>>,
    kind: SensitivityKind,
    i: int,
)
    requires
        first_of_kind(entries, kind, i),
    ensures
        spec_entry(entries, kind) == Some(entries[i]),
{
    let k = choose|k: int| first_of_kind(entries, kind, k);
    // neither is before the other
    if k < i {
        assert(entries[k].spec_kind() != kind);
    }
    if i < k {
        assert(entries[i].spec_kind() != kind);
    }
}

/// No entry is of `kind`: `spec_entry` names none.
pub proof fn lemma_entry_missing<T>(entries: Seq<OpticalSensitivity<T>>, kind: SensitivityKind)
    requires
        forall|j: int| 0 <= j < entries.len() ==> (#[trigger] entries[j]).spec_kind() != kind,
    ensures
        spec_entry(entries, kind) is None,
{
    if exists|i: int| first_of_kind(entries, kind, i) {
        let k = choose|k: int| first_of_kind(entries, kind, k);
        assert(entries[k].spec_kind() != kind);
    }
}

/// What the making of a set of sensitivities from `entries` hands back: the
/// set of these entries, where they make one, and the error `SensitivityData`,
/// where not.
pub open spec fn made_of_entries<T>(
    entries: Seq<OpticalSensitivity<T>>,
    set: Result<OpticalSensitivities<T>, LinearOpticalModelError>,
) -> bool {
    match set {
        Ok(s) => valid_set(entries) && s@ == entries,
        Err(e) => !valid_set(entries) && e == LinearOpticalModelError::SensitivityData,
    }
}

/// A set of sensitivities that is taken apart into its entries and made of
/// them again is there, with the same entries: nothing of a set is lost when
/// its entries are written out and read back.
pub proof fn lemma_set_of_its_entries<T>(
    entries: Seq<OpticalSensitivity<T>>,
    again: Result<OpticalSensitivities<T>, LinearOpticalModelError>,
)
    requires
        valid_set(entries),
        made_of_entries(entries, again),
    ensures
        again matches Ok(set) && set@ == entries,
{
}

/// The text that lists `entries` by the name of their kind: a title, then one
/// line to the entry.
pub open spec fn spec_listing<T>(entries: Seq<OpticalSensitivity<T>>) -> Seq<char>
    decreases entries.len(),
{
    if entries.len() == 0 {
        "Optical Sensitivities:\n"@
    } else {
        spec_listing(entries.drop_last()) + " * "@ + entries.last().spec_kind().spec_name()
            + "\n"@
    }
}

/// Optical sensitivities
///
/// Linear transformation of M1 and M2 rigid body motions into wavefront and wavefront piston and tip-tilt modes
#[derive(Debug)]
pub struct OpticalSensitivities<T>(Vec<OpticalSensitivity<T>>);

/// The two entries are of one kind and hold the same values.
pub open spec fn same_entry<T>(a: OpticalSensitivity<T>, b: OpticalSensitivity<T>) -> bool {
    match (a, b) {
        (OpticalSensitivity::Wavefront(x), OpticalSensitivity::Wavefront(y)) => x@ == y@,
        (OpticalSensitivity::TipTilt(x), OpticalSensitivity::TipTilt(y)) => x@ == y@,
        (OpticalSensitivity::SegmentTipTilt(x), OpticalSensitivity::SegmentTipTilt(y)) => x@
            == y@,
        (OpticalSensitivity::SegmentPiston(x), OpticalSensitivity::SegmentPiston(y)) => x@ == y@,
        (OpticalSensitivity::SegmentMask(x), OpticalSensitivity::SegmentMask(y)) => x@ == y@,
        (OpticalSensitivity::PupilMask(x), OpticalSensitivity::PupilMask(y)) => x@ == y@,
        _ => false,
    }
}

impl<T: Copy> Clone for OpticalSensitivity<T> {
    fn clone(&self) -> (copy: Self)
        ensures
            same_entry(*self, copy),
    {
        match self {
            OpticalSensitivity::Wavefront(values) => OpticalSensitivity::Wavefront(copy_of(values)),
            OpticalSensitivity::TipTilt(values) => OpticalSensitivity::TipTilt(copy_of(values)),
            OpticalSensitivity::SegmentTipTilt(values) => OpticalSensitivity::SegmentTipTilt(
                copy_of(values),
            ),
            OpticalSensitivity::SegmentPiston(values) => OpticalSensitivity::SegmentPiston(
                copy_of(values),
            ),
            OpticalSensitivity::SegmentMask(mask) => OpticalSensitivity::SegmentMask(copy_of(mask)),
            OpticalSensitivity::PupilMask(mask) => OpticalSensitivity::PupilMask(copy_of(mask)),
        }
    }
}

impl<T: Copy> Clone for OpticalSensitivities<T> {
    fn clone(&self) -> (copy: Self)
        ensures
            copy@.len() == self@.len(),
            forall|i: int| 0 <= i < self@.len() ==> same_entry(self@[i], #[trigger] copy@[i]),
    {
        proof {
            use_type_invariant(self);
        }
        let mut entries: Vec<OpticalSensitivity<T>> = Vec::with_capacity(self.0.len());
        let mut i: usize = 0;
        while i < self.0.len()
            invariant
                i <= self.0.len(),
                entries@.len() == i,
                valid_set(self.0@),
                forall|k: int| 0 <= k < i ==> same_entry(self.0@[k], #[trigger] entries@[k]),
            decreases self.0.len() - i,
        {
            entries.push(self.0[i].clone());
            i = i + 1;
        }
        OpticalSensitivities(entries)
    }
}

impl<T> OpticalSensitivities<T> {
    /// The entries make a set of sensitivities.
    #[verifier::type_invariant]
    closed spec fn well_formed(self) -> bool {
        valid_set(self.0@)
    }

    /// The entries.
    pub closed spec fn view(self) -> Seq<OpticalSensitivity<T>> {
        self.0@
    }

    /// The entry of `kind`, where there is one.
    pub open spec fn spec_get(self, kind: SensitivityKind) -> Option<OpticalSensitivity<T>> {
        spec_entry(self@, kind)
    }

    /// The set holds an entry of `kind`.
    pub open spec fn spec_contains(self, kind: SensitivityKind) -> bool {
        self.spec_get(kind) is Some
    }

    /// The set of sensitivities that `entries` make.
    ///
    /// Fails with `SensitivityData` where an entry is not well formed, two
    /// entries are of one kind, or two entries disagree on the number of
    /// illuminated points of the pupil.
    pub fn new(entries: Vec<OpticalSensitivity<T>>) -> (set: Result<Self, LinearOpticalModelError>)
        ensures
            made_of_entries(entries@, set),
    {
        let n = entries.len();
        let mut points: Option<usize> = None;
        let ghost mut witness: int = 0;
        let mut i: usize = 0;
        while i < n
            invariant
                i <= n,
                n == entries@.len(),
                forall|k: int| 0 <= k < i ==> (#[trigger] entries@[k]).well_formed(),
                forall|k: int, j: int|
                    0 <= k < j < i ==> (#[trigger] entries@[k]).spec_kind() != (
                    #[trigger] entries@[j]).spec_kind(),
                forall|k: int|
                    0 <= k < i && (#[trigger] entries@[k]).spec_pupil_points() is Some ==> points
                        is Some && entries@[k].spec_pupil_points() == Some(points->0 as nat),
                points is Some ==> 0 <= witness < i && entries@[witness].spec_pupil_points()
                    == Some(points->0 as nat),
            decreases n - i,
        {
            let entry = &entries[i];
            if !entry.is_well_formed() {
                return Err(LinearOpticalModelError::SensitivityData);
            }
            let kind = entry.kind();
            let mut j: usize = 0;
            while j < i
                invariant
                    j <= i,
                    i < n,
                    n == entries@.len(),
                    kind == entries@[i as int].spec_kind(),
                    forall|k: int| 0 <= k < j ==> (#[trigger] entries@[k]).spec_kind() != kind,
                decreases i - j,
            {
                if entries[j].kind() == kind {
                    return Err(LinearOpticalModelError::SensitivityData);
                }
                j = j + 1;
            }
            match entry.pupil_points() {
                Some(found) => {
                    match points {
                        Some(known) => {
                            if known != found {
                                return Err(LinearOpticalModelError::SensitivityData);
                            }
                        },
                        None => {
                            points = Some(found);
                            proof {
                                witness = i as int;
                            }
                        },
                    }
                },
                None => {},
            }
            i = i + 1;
        }
        Ok(OpticalSensitivities(entries))
    }

    /// The entries.
    pub fn as_slice(&self) -> (entries: &[OpticalSensitivity<T>])
        ensures
            entries@ == self@,
            valid_set(self@),
    {
        proof {
            use_type_invariant(self);
        }
        self.0.as_slice()
    }

    /// The entries, the set given up.
    pub fn into_vec(self) -> (entries: Vec<OpticalSensitivity<T>>)
        ensures
            entries@ == self@,
            valid_set(self@),
    {
        proof {
            use_type_invariant(&self);
        }
        self.0
    }

    /// The entry of `kind`.
    ///
    /// Fails with `MissingSensitivity` where the set holds none.
    pub fn get(&self, kind: SensitivityKind) -> (entry: Result<
        &OpticalSensitivity<T>,
        LinearOpticalModelError,
    >)
        ensures
            match entry {
                Ok(e) => self.spec_get(kind) == Some(*e) && e.spec_kind() == kind && e.well_formed(),
                Err(e) => self.spec_get(kind) is None && e
                    == LinearOpticalModelError::MissingSensitivity(kind),
            },
    {
        proof {
            use_type_invariant(self);
        }
        let mut i: usize = 0;
        while i < self.0.len()
            invariant
                i <= self.0.len(),
                valid_set(self.0@),
                forall|j: int| 0 <= j < i ==> (#[trigger] self.0@[j]).spec_kind() != kind,
            decreases self.0.len() - i,
        {
            if self.0[i].kind() == kind {
                proof {
                    lemma_entry_found(self.0@, kind, i as int);
                }
                return Ok(&self.0[i]);
            }
            i = i + 1;
        }
        proof {
            lemma_entry_missing(self.0@, kind);
        }
        Err(LinearOpticalModelError::MissingSensitivity(kind))
    }

    /// The text that lists the entries by the name of their kind.
    pub fn listing(&self) -> (text: String)
        ensures
            text@ == spec_listing(self@),
    {
        let mut text = String::from_str("Optical Sensitivities:\n");
        let mut i: usize = 0;
        while i < self.0.len()
            invariant
                i <= self.0.len(),
                text@ == spec_listing(self.0@.take(i as int)),
            decreases self.0.len() - i,
        {
            text.append(" * ");
            text.append(self.0[i].name());
            text.append("\n");
            proof {
                assert(self.0@.take(i + 1).drop_last() == self.0@.take(i as int));
            }
            i = i + 1;
        }
        proof {
            assert(self.0@.take(self.0.len() as int) == self.0@);
        }
        text
    }

    /// The set holds an entry of `kind`.
    pub fn contains(&self, kind: SensitivityKind) -> (found: bool)
        ensures
            found == self.spec_contains(kind),
    {
        self.get(kind).is_ok()
    }
}

impl<T> OpticalSensitivities<T> {
    /// The mask of the pupil, empty where the set holds none.
    pub open spec fn spec_pupil_mask(self) -> Seq<bool> {
        match self.spec_get(SensitivityKind::PupilMask) {
            Some(OpticalSensitivity::PupilMask(mask)) => mask@,
            _ => Seq::empty(),
        }
    }

    /// The mask of the segments, empty where the set holds none.
    pub open spec fn spec_segment_mask(self) -> Seq<i32> {
        match self.spec_get(SensitivityKind::SegmentMask) {
            Some(OpticalSensitivity::SegmentMask(mask)) => mask@,
            _ => Seq::empty(),
        }
    }

    /// Why a buffer of `len` values cannot be laid out on the whole pupil as
    /// the wavefront of `n_sample` time samples.
    pub open spec fn spec_wavefront_error(self, len: nat, n_sample: nat) -> Option<
        LinearOpticalModelError,
    > {
        if !self.spec_contains(SensitivityKind::Wavefront) {
            Some(LinearOpticalModelError::MissingSensitivity(SensitivityKind::Wavefront))
        } else if !self.spec_contains(SensitivityKind::PupilMask) {
            Some(LinearOpticalModelError::MissingSensitivity(SensitivityKind::PupilMask))
        } else if len != spec_count(self.spec_pupil_mask()) * n_sample {
            Some(
                LinearOpticalModelError::Shape {
                    rows: spec_count(self.spec_pupil_mask()) as usize,
                    columns: n_sample as usize,
                    found: len as usize,
                },
            )
        } else {
            None
        }
    }

    /// Why a buffer of `len` values cannot be cut into segments as the
    /// wavefront of `n_sample` time samples.
    pub open spec fn spec_segment_error(self, len: nat, n_sample: nat) -> Option<
        LinearOpticalModelError,
    > {
        if !self.spec_contains(SensitivityKind::Wavefront) {
            Some(LinearOpticalModelError::MissingSensitivity(SensitivityKind::Wavefront))
        } else if !self.spec_contains(SensitivityKind::SegmentMask) {
            Some(LinearOpticalModelError::MissingSensitivity(SensitivityKind::SegmentMask))
        } else if len != self.spec_segment_mask().len() * n_sample {
            Some(
                LinearOpticalModelError::Shape {
                    rows: self.spec_segment_mask().len() as usize,
                    columns: n_sample as usize,
                    found: len as usize,
                },
            )
        } else {
            None
        }
    }
}

/// `len` is the number of values of `rows` rows and `columns` columns.
fn holds(len: usize, rows: usize, columns: usize) -> (ok: bool)
    ensures
        ok == (len == rows * columns),
{
    match rows.checked_mul(columns) {
        Some(expected) => len == expected,
        None => false,
    }
}

impl<T: Copy> OpticalSensitivities<T> {
    /// Returns the wavefront of each segment within the exit pupil
    ///
    /// `masked` is the wavefront within the exit pupil of `n_sample` time
    /// samples: one value to the illuminated point, time sample after time
    /// sample. Of the 7 lists handed back, list `s` holds the values on segment
    /// `s + 1`, in their order.
    ///
    /// Fails with `MissingSensitivity` where the set holds no wavefront
    /// sensitivity or no mask of the segments, and with `Shape` where `masked`
    /// has not one value to the point of the mask and to the time sample.
    pub fn segment_wavefront(&self, masked: &[T], n_sample: usize) -> (segments: Result<
        Vec<Vec<T>>,
        LinearOpticalModelError,
    >)
        ensures
            match segments {
                Ok(lists) => {
                    &&& self.spec_segment_error(masked@.len(), n_sample as nat) is None
                    &&& lists@.len() == 7
                    &&& forall|s: int|
                        0 <= s < 7 ==> (#[trigger] lists@[s])@ == spec_segment(
                            masked@,
                            self.spec_segment_mask(),
                            s + 1,
                        )
                    &&& spec_all_segments(masked@, self.spec_segment_mask()).to_multiset()
                        == masked@.to_multiset()
                    &&& spec_all_segments(masked@, self.spec_segment_mask()).len() == masked@.len()
                },
                Err(e) => self.spec_segment_error(masked@.len(), n_sample as nat) == Some(e),
            },
    {
        if let Err(e) = self.get(SensitivityKind::Wavefront) {
            return Err(e);
        }
        let mask = match self.get(SensitivityKind::SegmentMask) {
            Ok(OpticalSensitivity::SegmentMask(mask)) => mask,
            Ok(_) => {
                return Err(
                    LinearOpticalModelError::MissingSensitivity(SensitivityKind::SegmentMask),
                );
            },
            Err(e) => {
                return Err(e);
            },
        };
        let points = mask.len();
        let len = masked.len();
        if !holds(len, points, n_sample) {
            return Err(LinearOpticalModelError::Shape { rows: points, columns: n_sample, found: len });
        }
        proof {
            assert(points > 0 || len == 0) by (nonlinear_arith)
                requires
                    len == points * n_sample,
                    0 <= points,
            ;
            lemma_segments_permute(masked@, mask@);
        }
        Ok(decompose(mask, masked))
    }
}

impl<T: Copy + Default> OpticalSensitivities<T> {
    /// Returns the wavefront in the exit pupil
    ///
    /// `masked` is the wavefront within the exit pupil of `n_sample` time
    /// samples: one value to the illuminated point, time sample after time
    /// sample. The wavefront handed back has one value to the point of the
    /// pupil, time sample after time sample: the value of `masked` at an
    /// illuminated point, zero at another.
    ///
    /// Fails with `MissingSensitivity` where the set holds no wavefront
    /// sensitivity or no mask of the pupil, and with `Shape` where `masked` has
    /// not one value to the illuminated point and to the time sample.
    pub fn wavefront(&self, masked: &[T], n_sample: usize) -> (wavefront: Result<
        Vec<T>,
        LinearOpticalModelError,
    >)
        ensures
            match wavefront {
                Ok(full) => {
                    &&& self.spec_wavefront_error(masked@.len(), n_sample as nat) is None
                    &&& spec_expanded(self.spec_pupil_mask(), masked@, n_sample as nat, full@)
                },
                Err(e) => self.spec_wavefront_error(masked@.len(), n_sample as nat) == Some(e),
            },
    {
        if let Err(e) = self.get(SensitivityKind::Wavefront) {
            return Err(e);
        }
        let mask = match self.get(SensitivityKind::PupilMask) {
            Ok(OpticalSensitivity::PupilMask(mask)) => mask,
            Ok(_) => {
                return Err(LinearOpticalModelError::MissingSensitivity(SensitivityKind::PupilMask));
            },
            Err(e) => {
                return Err(e);
            },
        };
        let points = count(mask);
        let len = masked.len();
        if !holds(len, points, n_sample) {
            return Err(LinearOpticalModelError::Shape { rows: points, columns: n_sample, found: len });
        }
        Ok(expand(mask, masked, n_sample))
    }
}

} // verus!
