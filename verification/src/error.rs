//! What can go wrong in the linear optical model.

use crate::layout::Mirror;
use crate::optical_sensitivities::SensitivityKind;
use vstd::prelude::*;
use vstd::string::*;

verus! {

/// The errors of the linear optical model.
#[derive(Debug, Clone, PartialEq, Eq)]
pub enum LinearOpticalModelError {
    /// The file of the sensitivities could not be opened.
    SensitivityFile,
    /// The sensitivities could not be decoded, or do not fit together.
    SensitivityData,
    /// The sensitivity asked for is not the one that is there.
    SegmentTipTilt,
    /// No rigid body motions were given.
    MissingRigidBodyMotions,
    /// An optical metric could not be written out.
    MetricsPickleFile,
    /// A table file could not be read or written.
    Parquet,
    /// A record of a table could not be read or made.
    Arrow,
    /// The table has no column of this name.
    Table(String),
    /// A sensor table could not be read.
    Read,
    /// The set of sensitivities holds no entry of this kind.
    MissingSensitivity(SensitivityKind),
    /// Motion sample `sample` gives `found` values, or segments, for a mirror or
    /// for one of its segments, where `expected` are needed.
    DofCount { sample: usize, mirror: Mirror, expected: usize, found: usize },
    /// A window of `requested` time samples was asked of a series of `available`.
    NotEnoughSamples { requested: usize, available: usize },
    /// A buffer of `found` values was given where the values of `rows` rows and
    /// `columns` columns are needed.
    Shape { rows: usize, columns: usize, found: usize },
    /// A buffer of `found` values cannot be cut into time samples of `n_item`.
    Ragged { n_item: usize, found: usize },
}

impl LinearOpticalModelError {
    /// The text that names this error.
    pub open spec fn spec_message(self) -> Seq<char> {
        match self {
            LinearOpticalModelError::SensitivityFile =>
                "sensitivities file not found (optical_sensitivities.rs.bin)"@,
            LinearOpticalModelError::SensitivityData =>
                "sensitivities cannot be loaded from optical_sensitivities.rs.bin"@,
            LinearOpticalModelError::SegmentTipTilt => "segment tip-tilt sensitivity is missing"@,
            LinearOpticalModelError::MissingRigidBodyMotions => "rigid body motions are missing"@,
            LinearOpticalModelError::MetricsPickleFile =>
                "failed to write optical metric to pickle file "@,
            LinearOpticalModelError::Parquet => "parquet read failed"@,
            LinearOpticalModelError::Arrow => "arrow record get failed"@,
            LinearOpticalModelError::Table(column) => "missing table "@ + column@ + " column "@,
            LinearOpticalModelError::Read => "PMT read failed"@,
            LinearOpticalModelError::MissingSensitivity(kind) => "cannot find optical sensitivity: "@
                + kind.spec_name(),
            LinearOpticalModelError::DofCount { .. } =>
                "a rigid body motion sample does not hold 7 segments of 6 values per mirror"@,
            LinearOpticalModelError::NotEnoughSamples { .. } => "not enough samples"@,
            LinearOpticalModelError::Shape { .. } => "a buffer does not have the expected length"@,
            LinearOpticalModelError::Ragged { .. } => "a buffer does not hold whole time samples"@,
        }
    }

    /// The text that names this error.
    pub fn message(&self) -> (text: String)
        ensures
            text@ == self.spec_message(),
    {
        match self {
            LinearOpticalModelError::SensitivityFile => String::from_str(
                "sensitivities file not found (optical_sensitivities.rs.bin)",
            ),
            LinearOpticalModelError::SensitivityData => String::from_str(
                "sensitivities cannot be loaded from optical_sensitivities.rs.bin",
            ),
            LinearOpticalModelError::SegmentTipTilt => String::from_str(
                "segment tip-tilt sensitivity is missing",
            ),
            LinearOpticalModelError::MissingRigidBodyMotions => String::from_str(
                "rigid body motions are missing",
            ),
            LinearOpticalModelError::MetricsPickleFile => String::from_str(
                "failed to write optical metric to pickle file ",
            ),
            LinearOpticalModelError::Parquet => String::from_str("parquet read failed"),
            LinearOpticalModelError::Arrow => String::from_str("arrow record get failed"),
            LinearOpticalModelError::Table(column) => String::from_str("missing table ").concat(
                column.as_str(),
            ).concat(" column "),
            LinearOpticalModelError::Read => String::from_str("PMT read failed"),
            LinearOpticalModelError::MissingSensitivity(kind) => String::from_str(
                "cannot find optical sensitivity: ",
            ).concat(kind.name()),
            LinearOpticalModelError::DofCount { .. } => String::from_str(
                "a rigid body motion sample does not hold 7 segments of 6 values per mirror",
            ),
            LinearOpticalModelError::NotEnoughSamples { .. } => String::from_str(
                "not enough samples",
            ),
            LinearOpticalModelError::Shape { .. } => String::from_str(
                "a buffer does not have the expected length",
            ),
            LinearOpticalModelError::Ragged { .. } => String::from_str(
                "a buffer does not hold whole time samples",
            ),
        }
    }
}

} // verus!
