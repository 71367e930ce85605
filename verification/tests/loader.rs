use gmt_lom::{Formatting, LinearOpticalModelError, Loader, OpticalSensitivities, RigidBodyMotions, SensitivityKind, Mirror};

#[test]
fn loader_path_and_filename_replace_one_part() {
    let loader: Loader<OpticalSensitivities<f64>> = Loader::in_directory(None);
    assert_eq!(loader.directory(), ".");
    assert_eq!(loader.file(), "optical_sensitivities.rs.bin");
    let loader = loader.path("/data/lom");
    assert_eq!(loader.directory(), "/data/lom");
    assert_eq!(loader.file(), "optical_sensitivities.rs.bin");
    let loader = loader.filename("sens.bin");
    assert_eq!(loader.directory(), "/data/lom");
    assert_eq!(loader.file(), "sens.bin");
}

#[test]
fn loader_of_sensitivities_takes_its_root() {
    let loader: Loader<OpticalSensitivities<f64>> = Loader::in_directory(Some("/opt/gmt"));
    assert_eq!(loader.directory(), "/opt/gmt");
    assert_eq!(loader.file(), "optical_sensitivities.rs.bin");
}

#[test]
fn loader_of_motions_defaults_to_data_parquet() {
    let loader: Loader<RigidBodyMotions<f64>> = Loader::default();
    assert_eq!(loader.directory(), ".");
    assert_eq!(loader.file(), "data.parquet");
    let loader: Loader<u8> = Loader::new("a", "b");
    assert_eq!((loader.directory(), loader.file()), ("a", "b"));
}

#[test]
fn formatting_has_two_forms() {
    assert_ne!(Formatting::AdHoc, Formatting::Latex);
    assert_eq!(format!("{:?}", Formatting::Latex.clone()), "Latex");
}

#[test]
fn errors_have_their_messages() {
    assert_eq!(
        LinearOpticalModelError::SensitivityFile.message(),
        "sensitivities file not found (optical_sensitivities.rs.bin)"
    );
    assert_eq!(
        LinearOpticalModelError::SensitivityData.message(),
        "sensitivities cannot be loaded from optical_sensitivities.rs.bin"
    );
    assert_eq!(
        LinearOpticalModelError::SegmentTipTilt.message(),
        "segment tip-tilt sensitivity is missing"
    );
    assert_eq!(
        LinearOpticalModelError::MissingRigidBodyMotions.message(),
        "rigid body motions are missing"
    );
    assert_eq!(
        LinearOpticalModelError::MetricsPickleFile.message(),
        "failed to write optical metric to pickle file "
    );
    assert_eq!(LinearOpticalModelError::Parquet.message(), "parquet read failed");
    assert_eq!(LinearOpticalModelError::Arrow.message(), "arrow record get failed");
    assert_eq!(
        LinearOpticalModelError::Table("PMT3D".to_string()).message(),
        "missing table PMT3D column "
    );
    assert_eq!(LinearOpticalModelError::Read.message(), "PMT read failed");
    assert_eq!(
        LinearOpticalModelError::MissingSensitivity(SensitivityKind::PupilMask).message(),
        "cannot find optical sensitivity: PupilMask"
    );
    assert_eq!(
        LinearOpticalModelError::NotEnoughSamples { requested: 5, available: 3 }.message(),
        "not enough samples"
    );
    assert_eq!(
        LinearOpticalModelError::DofCount { sample: 0, mirror: Mirror::M1, expected: 42, found: 1 }.message(),
        "a rigid body motion sample does not hold 7 segments of 6 values per mirror"
    );
    assert_eq!(
        LinearOpticalModelError::Shape { rows: 2, columns: 3, found: 5 }.message(),
        "a buffer does not have the expected length"
    );
    assert_eq!(
        LinearOpticalModelError::Ragged { n_item: 2, found: 5 }.message(),
        "a buffer does not hold whole time samples"
    );
}
