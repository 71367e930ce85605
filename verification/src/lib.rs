//! Linear optical model of a telescope with two segmented mirrors.
//!
//! The model maps the rigid body motions of the segments of the primary and of
//! the secondary mirror to wavefront, tip-tilt and piston in the exit pupil,
//! through precomputed sensitivity matrices. This crate holds the data model
//! and fixes every layout: which row of a motion sample is which degree of
//! freedom, how a sensitivity matrix is stored, how a metric series is cut into
//! time samples, to which segment a pupil point belongs.
//!
//! The crate is generic in the scalar type `T` of the values it lays out: it
//! moves and selects them, it never computes with them.

pub mod error;
pub mod formatting;
pub mod layout;
pub mod loader;
pub mod lom;
pub mod matrix;
pub mod metrics;
pub mod optical_sensitivities;
pub mod pmts;
pub mod pupil;
pub mod rigid_body_motions;
pub mod segments;
pub mod selection;
pub mod storage;
pub mod vectors;

pub use error::LinearOpticalModelError;
pub use layout::{DofPlace, Mirror, MIRROR_DOF, N_DOF, SEGMENTS, SEGMENT_AXES, SEGMENT_DOF};
pub use formatting::Formatting;
pub use loader::{Bin, Loader, LoaderTrait};
pub use lom::{LOMBuilder, LOM};
pub use matrix::Matrix;
pub use metrics::{OpticalMetrics, SegmentPiston, SegmentTipTilt, TipTilt};
pub use pmts::{Pmt, PmtSensitivity};
pub use optical_sensitivities::{
    from_opticals, OpticalSensitivities, OpticalSensitivity, SensitivityKind,
};
pub use rigid_body_motions::{RigidBodyMotions, TableRow, TimeAxis};
pub use storage::{upload_plan, Upload, CHUNK_SIZE};
