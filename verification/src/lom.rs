//! The linear optical model: the sensitivities and the rigid body motions that
//! they are applied to.

use crate::error::LinearOpticalModelError;
use crate::formatting::Formatting;
use crate::vectors::is_zero;
use crate::metrics::{SegmentPiston, SegmentTipTilt, TipTilt};
use crate::optical_sensitivities::{
    same_entry, OpticalSensitivities, OpticalSensitivity, SensitivityKind,
};
use crate::pupil::spec_expanded;
use crate::segments::{spec_all_segments, spec_segment};
use crate::rigid_body_motions::{
    made_of, made_of_rows, spec_segmented, spec_segmented_errors, spec_slices,
    spec_slices_errors, RigidBodyMotions, TableRow, TimeAxis,
};
use vstd::prelude::*;

verus! {

/// LOM builder
pub struct LOMBuilder<T> {
    sens: Option<OpticalSensitivities<T>>,
    rbm: Option<RigidBodyMotions<T>>,
}

impl<T> Default for LOMBuilder<T> {
    /// The builder that holds nothing yet.
    fn default() -> (builder: Self)
        ensures
            builder.spec_sens() is None,
            builder.spec_rbm() is None,
    {
        LOMBuilder { sens: None, rbm: None }
    }
}

impl<T> LOMBuilder<T> {
    /// The sensitivities that the builder holds.
    pub closed spec fn spec_sens(self) -> Option<OpticalSensitivities<T>> {
        self.sens
    }

    /// The rigid body motions that the builder holds.
    pub closed spec fn spec_rbm(self) -> Option<RigidBodyMotions<T>> {
        self.rbm
    }

    /// Sets the optical sensitivities that a loader has read
    ///
    /// Fails as the loader did, where it did.
    pub fn load_optical_sensitivities(
        self,
        loaded: Result<OpticalSensitivities<T>, LinearOpticalModelError>,
    ) -> (builder: Result<Self, LinearOpticalModelError>)
        ensures
            match loaded {
                Ok(sens) => builder matches Ok(b) && b.spec_sens() == Some(sens) && b.spec_rbm()
                    == self.spec_rbm(),
                Err(e) => builder matches Err(f) && f == e,
            },
    {
        match loaded {
            Ok(sens) => Ok(LOMBuilder { sens: Some(sens), rbm: self.rbm }),
            Err(e) => Err(e),
        }
    }

    /// Sets the rigid body motions that a loader has read
    ///
    /// Fails as the loader did, where it did.
    pub fn load_rigid_body_motions(
        self,
        loaded: Result<RigidBodyMotions<T>, LinearOpticalModelError>,
    ) -> (builder: Result<Self, LinearOpticalModelError>)
        ensures
            match loaded {
                Ok(rbm) => builder matches Ok(b) && b.spec_rbm() == Some(rbm) && b.spec_sens()
                    == self.spec_sens(),
                Err(e) => builder matches Err(f) && f == e,
            },
    {
        match loaded {
            Ok(rbm) => Ok(LOMBuilder { sens: self.sens, rbm: Some(rbm) }),
            Err(e) => Err(e),
        }
    }
}

impl<T: Copy> LOMBuilder<T> {
    /// Sets [RigidBodyMotions] from the rows of a table, as
    /// [`RigidBodyMotions::from_record`] makes them, and fails as it does.
    pub fn rigid_body_motions_record(self, rows: &[TableRow<T>]) -> (builder: Result<
        Self,
        LinearOpticalModelError,
    >)
        ensures
            match builder {
                Ok(b) => {
                    &&& b.spec_sens() == self.spec_sens()
                    &&& b.spec_rbm() matches Some(rbm)
                    &&& made_of_rows(rows@, Ok(rbm))
                },
                Err(e) => made_of_rows(rows@, Err::<RigidBodyMotions<T>, _>(e)),
            },
    {
        match RigidBodyMotions::from_record(rows) {
            Ok(rbm) => Ok(LOMBuilder { sens: self.sens, rbm: Some(rbm) }),
            Err(e) => Err(e),
        }
    }

    /// Sets [RigidBodyMotions] from a list of [tuple] of M1 and M2 segments [Vec] of 6 rigid body motions (Txyz and Rxyz)
    ///
    /// Fails as [`RigidBodyMotions::from_segments`] does.
    pub fn into_iter_rigid_body_motions(self, data: &[(Vec<Vec<T>>, Vec<Vec<T>>)]) -> (builder:
        Result<Self, LinearOpticalModelError>)
        ensures
            match builder {
                Ok(b) => {
                    &&& b.spec_sens() == self.spec_sens()
                    &&& b.spec_rbm() matches Some(rbm)
                    &&& made_of(spec_segmented(data@), spec_segmented_errors(data@), Ok(rbm))
                },
                Err(e) => made_of(
                    spec_segmented(data@),
                    spec_segmented_errors(data@),
                    Err::<RigidBodyMotions<T>, _>(e),
                ),
            },
    {
        match RigidBodyMotions::from_segments(data) {
            Ok(rbm) => Ok(LOMBuilder { sens: self.sens, rbm: Some(rbm) }),
            Err(e) => Err(e),
        }
    }

    /// Sets [RigidBodyMotions] from a list of [tuple] of M1 and M2 [slice] of 42 rigid body motions
    ///
    /// Fails as [`RigidBodyMotions::from_slices`] does.
    pub fn iter_rigid_body_motions(self, data: &[(&[T], &[T])]) -> (builder: Result<
        Self,
        LinearOpticalModelError,
    >)
        ensures
            match builder {
                Ok(b) => {
                    &&& b.spec_sens() == self.spec_sens()
                    &&& b.spec_rbm() matches Some(rbm)
                    &&& made_of(spec_slices(data@), spec_slices_errors(data@), Ok(rbm))
                },
                Err(e) => made_of(
                    spec_slices(data@),
                    spec_slices_errors(data@),
                    Err::<RigidBodyMotions<T>, _>(e),
                ),
            },
    {
        match RigidBodyMotions::from_slices(data) {
            Ok(rbm) => Ok(LOMBuilder { sens: self.sens, rbm: Some(rbm) }),
            Err(e) => Err(e),
        }
    }
}

impl<T> LOMBuilder<T> {
    /// No sensitivities were set: the model can only be built with those that
    /// are handed to [`build`](LOMBuilder::build).
    pub fn needs_sensitivities(&self) -> (needed: bool)
        ensures
            needed == (self.spec_sens() is None),
    {
        self.sens.is_none()
    }
}

/// The rigid body motions of a model that is built from a builder with the
/// motions `set`: those that were set and, where none were, one time sample of
/// zeros.
pub open spec fn built_motions<T: Default>(
    set: Option<RigidBodyMotions<T>>,
    rbm: RigidBodyMotions<T>,
) -> bool {
    match set {
        Some(motions) => rbm == motions,
        None => {
            &&& rbm.spec_len() == 1
            &&& rbm.plain()
            &&& forall|dof: int| 0 <= dof < 84 ==> is_zero(#[trigger] rbm.at(dof, 0))
        },
    }
}

impl<T: Copy + Default> LOMBuilder<T> {
    /// Creates a [LOM]
    ///
    /// The model takes the sensitivities that were set, and the rigid body
    /// motions that were set or, where none were, one time sample of zeros.
    ///
    /// Where no sensitivities were set, and only there, the model takes those
    /// of `fallback`: what a loader has read from where the sensitivities are
    /// kept. It then fails as the loader did, where it did, and with
    /// `SensitivityFile` where nothing was read.
    pub fn build(
        self,
        fallback: Option<Result<OpticalSensitivities<T>, LinearOpticalModelError>>,
    ) -> (lom: Result<LOM<T>, LinearOpticalModelError>)
        ensures
            match (self.spec_sens(), fallback) {
                (Some(set), _) => {
                    &&& lom matches Ok(model)
                    &&& model.sens == set
                    &&& built_motions(self.spec_rbm(), model.rbm)
                },
                (None, Some(Ok(sens))) => {
                    &&& lom matches Ok(model)
                    &&& model.sens == sens
                    &&& built_motions(self.spec_rbm(), model.rbm)
                },
                (None, Some(Err(e))) => lom matches Err(f) && f == e,
                (None, None) => lom matches Err(f) && f == LinearOpticalModelError::SensitivityFile,
            },
    {
        let sens = match self.sens {
            Some(sens) => sens,
            None => match fallback {
                Some(Ok(sens)) => sens,
                Some(Err(e)) => {
                    return Err(e);
                },
                None => {
                    return Err(LinearOpticalModelError::SensitivityFile);
                },
            },
        };
        let rbm = match self.rbm {
            Some(rbm) => rbm,
            None => RigidBodyMotions::default(),
        };
        Ok(LOM { sens, rbm })
    }
}

/// Linear Optical Model
#[derive(Debug)]
pub struct LOM<T> {
    pub sens: OpticalSensitivities<T>,
    pub rbm: RigidBodyMotions<T>,
}

impl<T> LOM<T> {
    /// Why a buffer of `len` values is not the product of the sensitivity
    /// matrix of `kind`, of `rows` rows, with the rigid body motions.
    pub open spec fn spec_product_error(self, kind: SensitivityKind, rows: nat, len: nat) -> Option<
        LinearOpticalModelError,
    > {
        if !self.sens.spec_contains(kind) {
            Some(LinearOpticalModelError::MissingSensitivity(kind))
        } else if len != rows * self.rbm.spec_len() {
            Some(
                LinearOpticalModelError::Shape {
                    rows: rows as usize,
                    columns: self.rbm.spec_len() as usize,
                    found: len as usize,
                },
            )
        } else {
            None
        }
    }

    /// The number of rows of the wavefront sensitivity: the number of
    /// illuminated points of the pupil.
    pub open spec fn spec_wavefront_rows(self) -> nat {
        match self.sens.spec_get(SensitivityKind::Wavefront) {
            Some(entry) => match entry.spec_rows() {
                Some(rows) => rows,
                None => 0,
            },
            None => 0,
        }
    }

    /// Has the rigid body motions written out for a LaTeX table.
    pub fn latex(&mut self)
        ensures
            final(self).rbm.spec_format() == Formatting::Latex,
            final(self).rbm.same_motions(old(self).rbm),
            final(self).sens == old(self).sens,
    {
        self.rbm.set_format(Formatting::Latex);
    }

    /// Has the rigid body motions written out ad hoc.
    pub fn adhoc(&mut self)
        ensures
            final(self).rbm.spec_format() == Formatting::AdHoc,
            final(self).rbm.same_motions(old(self).rbm),
            final(self).sens == old(self).sens,
    {
        self.rbm.set_format(Formatting::AdHoc);
    }

    /// Returns the [builder](LOMBuilder)
    pub fn builder() -> (builder: LOMBuilder<T>)
        ensures
            builder.spec_sens() is None,
            builder.spec_rbm() is None,
    {
        LOMBuilder::default()
    }

    /// Returns the number of rigid body motions sample `n`
    pub fn len(&self) -> (n: usize)
        ensures
            n == self.rbm.spec_len(),
    {
        self.rbm.len()
    }

    /// There is no time sample.
    pub fn is_empty(&self) -> (empty: bool)
        ensures
            empty == (self.rbm.spec_len() == 0),
    {
        self.len() == 0
    }

    /// The sensitivity of `kind`.
    ///
    /// Fails with `MissingSensitivity` where the model holds none.
    pub fn sensitivity(&self, kind: SensitivityKind) -> (entry: Result<
        &OpticalSensitivity<T>,
        LinearOpticalModelError,
    >)
        ensures
            match entry {
                Ok(e) => self.sens.spec_get(kind) == Some(*e) && e.spec_kind() == kind
                    && e.well_formed(),
                Err(e) => self.sens.spec_get(kind) is None && e
                    == LinearOpticalModelError::MissingSensitivity(kind),
            },
    {
        self.sens.get(kind)
    }

    /// Whether a buffer of `len` values is the product of the sensitivity
    /// matrix of `kind`, of `rows` rows, with the rigid body motions.
    fn check_product(&self, kind: SensitivityKind, rows: usize, len: usize) -> (checked: Result<
        (),
        LinearOpticalModelError,
    >)
        ensures
            match checked {
                Ok(_) => self.spec_product_error(kind, rows as nat, len as nat) is None,
                Err(e) => self.spec_product_error(kind, rows as nat, len as nat) == Some(e),
            },
    {
        if !self.sens.contains(kind) {
            return Err(LinearOpticalModelError::MissingSensitivity(kind));
        }
        let columns = self.rbm.len();
        let fits = match rows.checked_mul(columns) {
            Some(expected) => len == expected,
            None => false,
        };
        if fits {
            Ok(())
        } else {
            Err(LinearOpticalModelError::Shape { rows, columns, found: len })
        }
    }

    /// Returns the pupil average tip and tilt
    ///
    /// The tip-tilt vector is given as `[x1,y1,...,xi,yi,...,xn,yn]` where i is the time index
    ///
    /// `product` is the product of the tip-tilt sensitivity with the rigid body
    /// motions, column by column.
    ///
    /// Fails with `MissingSensitivity` where the model holds no tip-tilt
    /// sensitivity, and with `Shape` where `product` has not 2 values to the
    /// time sample.
    pub fn tiptilt(&self, product: Vec<T>) -> (series: Result<TipTilt<T>, LinearOpticalModelError>)
        ensures
            match series {
                Ok(s) => s@ == product@ && self.spec_product_error(
                    SensitivityKind::TipTilt,
                    2,
                    product@.len(),
                ) is None,
                Err(e) => self.spec_product_error(SensitivityKind::TipTilt, 2, product@.len())
                    == Some(e),
            },
    {
        match self.check_product(SensitivityKind::TipTilt, 2, product.len()) {
            Ok(_) => TipTilt::new(product),
            Err(e) => Err(e),
        }
    }

    /// Returns the segment piston in the telescope exit pupil
    ///
    /// The segment piston vector is given as `[p11,p21,...,p71,...,p1i,p2i,...,p7i,...,p1n,p2n,...,p7n]` where i is the time index
    ///
    /// `product` is the product of the segment piston sensitivity with the
    /// rigid body motions, column by column.
    ///
    /// Fails with `MissingSensitivity` where the model holds no segment piston
    /// sensitivity, and with `Shape` where `product` has not 7 values to the
    /// time sample.
    pub fn segment_piston(&self, product: Vec<T>) -> (series: Result<
        SegmentPiston<T>,
        LinearOpticalModelError,
    >)
        ensures
            match series {
                Ok(s) => s@ == product@ && self.spec_product_error(
                    SensitivityKind::SegmentPiston,
                    7,
                    product@.len(),
                ) is None,
                Err(e) => self.spec_product_error(
                    SensitivityKind::SegmentPiston,
                    7,
                    product@.len(),
                ) == Some(e),
            },
    {
        match self.check_product(SensitivityKind::SegmentPiston, 7, product.len()) {
            Ok(_) => SegmentPiston::new(product),
            Err(e) => Err(e),
        }
    }

    /// Returns the segment averaged tip and tilt in the telescope exit pupil
    ///
    /// The segment tip-tilt vector is given as `[x11,x21,...,x71,y11,y21,...,y71,...,x1i,x2i,...,x7i,y1i,y2i,...,y7i,...,x1n,x2n,...,x7n,y1n,y2n,...,y7n]` where i is the time index
    ///
    /// `product` is the product of the segment tip-tilt sensitivity with the
    /// rigid body motions, column by column.
    ///
    /// Fails with `MissingSensitivity` where the model holds no segment
    /// tip-tilt sensitivity, and with `Shape` where `product` has not 14 values
    /// to the time sample.
    pub fn segment_tiptilt(&self, product: Vec<T>) -> (series: Result<
        SegmentTipTilt<T>,
        LinearOpticalModelError,
    >)
        ensures
            match series {
                Ok(s) => s@ == product@ && self.spec_product_error(
                    SensitivityKind::SegmentTipTilt,
                    14,
                    product@.len(),
                ) is None,
                Err(e) => self.spec_product_error(
                    SensitivityKind::SegmentTipTilt,
                    14,
                    product@.len(),
                ) == Some(e),
            },
    {
        match self.check_product(SensitivityKind::SegmentTipTilt, 14, product.len()) {
            Ok(_) => SegmentTipTilt::new(product),
            Err(e) => Err(e),
        }
    }

    /// Returns the wavefront within the exit pupil
    ///
    /// `product` is the product of the wavefront sensitivity with the rigid
    /// body motions, column by column.
    ///
    /// Fails with `MissingSensitivity` where the model holds no wavefront
    /// sensitivity, and with `Shape` where `product` has not one value to the
    /// row of that sensitivity and to the time sample.
    pub fn masked_wavefront(&self, product: Vec<T>) -> (wavefront: Result<
        Vec<T>,
        LinearOpticalModelError,
    >)
        ensures
            match wavefront {
                Ok(w) => w == product && self.spec_product_error(
                    SensitivityKind::Wavefront,
                    self.spec_wavefront_rows(),
                    product@.len(),
                ) is None,
                Err(e) => self.spec_product_error(
                    SensitivityKind::Wavefront,
                    self.spec_wavefront_rows(),
                    product@.len(),
                ) == Some(e),
            },
    {
        let rows = match self.sens.get(SensitivityKind::Wavefront) {
            Ok(entry) => entry.rows().unwrap(),
            Err(e) => {
                return Err(e);
            },
        };
        match self.check_product(SensitivityKind::Wavefront, rows, product.len()) {
            Ok(_) => Ok(product),
            Err(e) => Err(e),
        }
    }
}

impl<T: Copy> Clone for LOM<T> {
    fn clone(&self) -> (copy: Self)
        ensures
            copy.rbm@ == self.rbm@,
            copy.rbm.same_frame(self.rbm),
            copy.sens@.len() == self.sens@.len(),
            forall|i: int|
                0 <= i < self.sens@.len() ==> same_entry(self.sens@[i], #[trigger] copy.sens@[i]),
    {
        LOM { sens: self.sens.clone(), rbm: self.rbm.clone() }
    }
}

impl<T: Copy> LOM<T> {
    /// The model of `sens`, with one time sample of zeros for its rigid body
    /// motions.
    pub fn new(sens: OpticalSensitivities<T>) -> (lom: Self) where T: Default
        ensures
            lom.sens == sens,
            lom.rbm.spec_len() == 1,
            lom.rbm.plain(),
            forall|dof: int| 0 <= dof < 84 ==> is_zero(#[trigger] lom.rbm.at(dof, 0)),
    {
        LOM { sens, rbm: RigidBodyMotions::default() }
    }

    /// Returns a the time vector
    pub fn time(&self) -> (axis: TimeAxis<T>)
        ensures
            match axis {
                TimeAxis::Stamps(stamps) => self.rbm.spec_time() == Some(stamps@) && stamps@.len()
                    == self.rbm.spec_len(),
                TimeAxis::Uniform { n_sample, sampling_frequency } => {
                    &&& self.rbm.spec_time() is None
                    &&& n_sample == self.rbm.spec_len()
                    &&& sampling_frequency == self.rbm.spec_sampling_frequency()
                },
            },
    {
        self.rbm.time()
    }

    /// Returns the wavefront of each segment within the exit pupil
    ///
    /// `masked` is the wavefront within the exit pupil. Of the 7 lists handed
    /// back, list `s` holds the values on segment `s + 1`, in their order.
    ///
    /// Fails with `MissingSensitivity` where the model holds no wavefront
    /// sensitivity or no mask of the segments, and with `Shape` where `masked`
    /// has not one value to the point of the mask and to the time sample.
    pub fn segment_wavefront(&self, masked: &[T]) -> (segments: Result<
        Vec<Vec<T>>,
        LinearOpticalModelError,
    >)
        ensures
            match segments {
                Ok(lists) => {
                    &&& self.sens.spec_segment_error(masked@.len(), self.rbm.spec_len())
                        is None
                    &&& lists@.len() == 7
                    &&& forall|s: int|
                        0 <= s < 7 ==> (#[trigger] lists@[s])@ == spec_segment(
                            masked@,
                            self.sens.spec_segment_mask(),
                            s + 1,
                        )
                    &&& spec_all_segments(masked@, self.sens.spec_segment_mask()).to_multiset()
                        == masked@.to_multiset()
                    &&& spec_all_segments(masked@, self.sens.spec_segment_mask()).len()
                        == masked@.len()
                },
                Err(e) => self.sens.spec_segment_error(masked@.len(), self.rbm.spec_len())
                    == Some(e),
            },
    {
        self.sens.segment_wavefront(masked, self.rbm.len())
    }

    /// Returns the wavefront in the exit pupil
    ///
    /// `masked` is the wavefront within the exit pupil. The wavefront handed
    /// back has one value to the point of the pupil, time sample after time
    /// sample: the value of `masked` at an illuminated point, zero at another.
    ///
    /// Fails with `MissingSensitivity` where the model holds no wavefront
    /// sensitivity or no mask of the pupil, and with `Shape` where `masked` has
    /// not one value to the illuminated point and to the time sample.
    pub fn wavefront(&self, masked: &[T]) -> (wavefront: Result<Vec<T>, LinearOpticalModelError>) where
        T: Default,

        ensures
            match wavefront {
                Ok(full) => {
                    &&& self.sens.spec_wavefront_error(masked@.len(), self.rbm.spec_len())
                        is None
                    &&& spec_expanded(
                        self.sens.spec_pupil_mask(),
                        masked@,
                        self.rbm.spec_len(),
                        full@,
                    )
                },
                Err(e) => self.sens.spec_wavefront_error(
                    masked@.len(),
                    self.rbm.spec_len(),
                ) == Some(e),
            },
    {
        self.sens.wavefront(masked, self.rbm.len())
    }
}

} // verus!
