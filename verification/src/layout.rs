//! The fixed layout of the rigid-body-motion vector.
//!
//! A motion sample holds 84 scalars: the 42 of the primary mirror (M1), then the
//! 42 of the secondary mirror (M2). Within a mirror the 7 segments follow one
//! another, each with its 6 degrees of freedom: the translations along x, y and z,
//! then the rotations about x, y and z.

use vstd::prelude::*;

verus! {

/// Degrees of freedom of one segment.
pub const SEGMENT_DOF: usize = 6;

/// Translations (and likewise rotations) of one segment.
pub const SEGMENT_AXES: usize = 3;

/// Segments of one mirror.
pub const SEGMENTS: usize = 7;

/// Degrees of freedom of one mirror.
pub const MIRROR_DOF: usize = 42;

/// Degrees of freedom of a motion sample, both mirrors together.
pub const N_DOF: usize = 84;

/// One of the two segmented mirrors.
#[derive(Clone, Copy, Debug, PartialEq, Eq, Structural)]
pub enum Mirror {
    /// The primary mirror, rows `0..42` of a motion sample.
    M1,
    /// The secondary mirror, rows `42..84` of a motion sample.
    M2,
}

/// The place of one degree of freedom in a motion sample.
#[derive(Clone, Copy, Debug, PartialEq, Eq, Structural)]
pub struct DofPlace {
    pub mirror: Mirror,
    /// The segment, `0..7`.
    pub segment: usize,
    /// The degree of freedom within the segment, `0..6`: `0..3` are the
    /// translations, `3..6` the rotations.
    pub axis: usize,
}

impl Mirror {
    /// The first row of the mirror's block.
    pub open spec fn spec_offset(self) -> int {
        match self {
            Mirror::M1 => 0,
            Mirror::M2 => 42,
        }
    }

    /// The first row of the mirror's block.
    pub fn offset(self) -> (row: usize)
        ensures
            row == self.spec_offset(),
    {
        match self {
            Mirror::M1 => 0,
            Mirror::M2 => MIRROR_DOF,
        }
    }
}

impl DofPlace {
    /// The place names a segment and an axis that exist.
    pub open spec fn valid(self) -> bool {
        self.segment < 7 && self.axis < 6
    }

    /// The row of this place in a motion sample.
    pub open spec fn spec_row(self) -> int {
        self.mirror.spec_offset() + 6 * self.segment + self.axis
    }

    /// The place is a rotation, not a translation.
    pub open spec fn spec_is_rotation(self) -> bool {
        self.axis >= 3
    }

    /// The place of `axis` of `segment` of `mirror`, where both exist.
    pub fn new(mirror: Mirror, segment: usize, axis: usize) -> (place: Option<DofPlace>)
        ensures
            place == if segment < 7 && axis < 6 {
                Some((DofPlace { mirror, segment, axis }))
            } else {
                None
            },
    {
        if segment < SEGMENTS && axis < SEGMENT_DOF {
            Some(DofPlace { mirror, segment, axis })
        } else {
            None
        }
    }

    /// The row of this place in a motion sample.
    pub fn row(self) -> (row: usize)
        requires
            self.valid(),
        ensures
            row == self.spec_row(),
            row < 84,
    {
        self.mirror.offset() + SEGMENT_DOF * self.segment + self.axis
    }

    /// The place is a rotation, not a translation.
    pub fn is_rotation(self) -> (rotation: bool)
        ensures
            rotation == self.spec_is_rotation(),
    {
        self.axis >= SEGMENT_AXES
    }
}

/// The place that sits at `row` of a motion sample.
pub open spec fn spec_place(row: int) -> DofPlace {
    DofPlace {
        mirror: if row < 42 {
            Mirror::M1
        } else {
            Mirror::M2
        },
        segment: ((row % 42) / 6) as usize,
        axis: (row % 6) as usize,
    }
}

/// The place that sits at `row` of a motion sample, for a row that exists.
pub fn place(row: usize) -> (place: Option<DofPlace>)
    ensures
        row < 84 ==> place == Some(spec_place(row as int)),
        row >= 84 ==> place is None,
{
    if row >= N_DOF {
        return None;
    }
    let mirror = if row < MIRROR_DOF {
        Mirror::M1
    } else {
        Mirror::M2
    };
    Some(DofPlace { mirror, segment: (row % MIRROR_DOF) / SEGMENT_DOF, axis: row % SEGMENT_DOF })
}

/// `row` belongs to the block of `mirror`.
pub open spec fn in_mirror(mirror: Mirror, row: int) -> bool {
    mirror.spec_offset() <= row < mirror.spec_offset() + 42
}

/// Rows and places correspond one to one: every row below 84 is the row of its
/// place, which is valid, and every valid place is the place of its row.
pub proof fn lemma_rows_and_places(row: int, place: DofPlace)
    ensures
        0 <= row < 84 ==> spec_place(row).valid() && spec_place(row).spec_row() == row,
        place.valid() ==> 0 <= place.spec_row() < 84 && spec_place(place.spec_row()) == place,
        place.valid() ==> in_mirror(place.mirror, place.spec_row()),
{
}

} // verus!
