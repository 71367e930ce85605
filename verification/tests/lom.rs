use gmt_lom::{
    Formatting, LinearOpticalModelError, Mirror, OpticalMetrics, OpticalSensitivities,
    OpticalSensitivity, RigidBodyMotions, SensitivityKind, TableRow, TimeAxis, LOM,
};
use nalgebra::DMatrix;
use skyangle::Conversion;

/// Sensitivities made up for the tests: a pupil of 9 points, 7 of them
/// illuminated, one to the segment.
fn sensitivities() -> OpticalSensitivities<f64> {
    let wave = |n: usize, seed: f64| -> Vec<f64> {
        (0..n).map(|i| ((i as f64) * seed).sin()).collect()
    };
    OpticalSensitivities::new(vec![
        OpticalSensitivity::Wavefront(wave(7 * 84, 0.37)),
        OpticalSensitivity::TipTilt(wave(2 * 84, 0.11)),
        OpticalSensitivity::SegmentPiston(wave(7 * 84, 0.23)),
        OpticalSensitivity::SegmentTipTilt(wave(14 * 84, 0.31)),
        OpticalSensitivity::SegmentMask(vec![1, 2, 3, 4, 5, 6, 7]),
        OpticalSensitivity::PupilMask(vec![
            true, true, false, true, true, true, false, true, true,
        ]),
    ])
    .unwrap()
}

/// The product of a sensitivity matrix with the rigid body motions.
fn into_optics(sens: &OpticalSensitivity<f64>, rbm: &RigidBodyMotions<f64>) -> Vec<f64> {
    let rows = sens.rows().unwrap();
    let sensitivity = DMatrix::from_column_slice(rows, 84, sens.values().unwrap());
    let data = DMatrix::from_column_slice(84, rbm.len(), rbm.data().as_vec());
    (sensitivity * data).as_slice().to_owned()
}

fn model(rbm: Vec<(Vec<Vec<f64>>, Vec<Vec<f64>>)>) -> LOM<f64> {
    LOM::builder()
        .into_iter_rigid_body_motions(&rbm)
        .unwrap()
        .build(Some(Ok(sensitivities())))
        .unwrap()
}

#[test]
fn tiptilt() {
    let mut m1_rbm = vec![vec![0f64; 6]; 7];
    let mut m2_rbm = vec![vec![0f64; 6]; 7];
    m1_rbm
        .iter_mut()
        .step_by(2)
        .for_each(|str| str[3] = 1f64.from_arcsec());
    m2_rbm
        .iter_mut()
        .skip(1)
        .step_by(2)
        .take(3)
        .for_each(|str| str[3] = 1f64.from_arcsec());
    m1_rbm[6][3] = 0.5f64.from_arcsec();
    m2_rbm[6][3] = (-4f64).from_arcsec();
    let lom = model(vec![(m1_rbm.clone(), m2_rbm.clone())]);
    for segment in 0..7 {
        for axis in 0..6 {
            assert_eq!(lom.rbm.get(6 * segment + axis, 0), m1_rbm[segment][axis]);
            assert_eq!(lom.rbm.get(42 + 6 * segment + axis, 0), m2_rbm[segment][axis]);
        }
    }
    let product = into_optics(
        lom.sensitivity(SensitivityKind::SegmentTipTilt).unwrap(),
        &lom.rbm,
    );
    let stt = lom.segment_tiptilt(product).unwrap();
    assert_eq!(stt.len(), 14);
    assert_eq!(stt.items().len(), 1);
    let mag: Vec<_> = stt[..7]
        .iter()
        .zip(&stt[7..])
        .map(|(x, y)| x.hypot(*y).to_arcsec())
        .collect();
    assert_eq!(mag.len(), 7);
    assert!(mag.iter().all(|m| m.is_finite() && *m >= 0.0));
    println!("Segment tiptilt : {:.3?} mas", mag);
}

#[test]
fn segment_wfe_rms() {
    let mut m1_rbm = vec![vec![0f64; 6]; 7];
    let mut m2_rbm = vec![vec![0f64; 6]; 7];
    for i in 0..6 {
        m1_rbm[i][2] = 100e-9 * (i + 1) as f64;
    }
    m2_rbm[6][2] = -100e-9;
    let lom = model(vec![(m1_rbm, m2_rbm)]);
    let product = into_optics(lom.sensitivity(SensitivityKind::Wavefront).unwrap(), &lom.rbm);
    let wavefront = lom.masked_wavefront(product).unwrap();
    assert_eq!(wavefront.len(), 7);
    let segments = lom.segment_wavefront(&wavefront).unwrap();
    assert_eq!(segments.len(), 7);
    let swferms: Vec<f64> = segments
        .iter()
        .map(|values| {
            let s: f64 = values.iter().map(|w| w * w).sum();
            let n = values.len().max(1) as f64;
            (s / n).sqrt() * 10f64.powi(9)
        })
        .collect();
    // one point to the segment: the RMS is the size of its value
    for (rms, w) in swferms.iter().zip(&wavefront) {
        assert!((rms - w.abs() * 1e9).abs() <= 1e-9 * rms.abs());
    }
    println!("Segment WFE RMS : {:.0?} mas", swferms);
}

#[test]
fn tiptilt_of_one_rotation_and_of_none() {
    let theta = 1f64.from_arcsec();
    let mut m1_rbm = vec![vec![0f64; 6]; 7];
    m1_rbm[0][3] = theta;
    let m2_rbm = vec![vec![0f64; 6]; 7];
    let mut lom = model(vec![(m1_rbm, m2_rbm)]);
    let sens = lom.sensitivity(SensitivityKind::TipTilt).unwrap().clone();
    // the column of the rotation about x of segment 1 of M1
    let column = &sens.values().unwrap()[2 * 3..2 * 4];
    let factor = column[0].hypot(column[1]);
    let tt = lom.tiptilt(into_optics(&sens, &lom.rbm)).unwrap();
    assert_eq!(tt.len(), 2);
    let magnitude = tt[0].hypot(tt[1]);
    assert!((magnitude - theta * factor).abs() <= 1e-12 * theta * factor);
    lom.rbm.zeroed_m1();
    let tt = lom.tiptilt(into_optics(&sens, &lom.rbm)).unwrap();
    assert_eq!(tt.as_vec(), &vec![0.0, 0.0]);
}

#[test]
fn zero_motions_give_zero_metrics_of_the_expected_length() {
    for n in [0usize, 1, 3] {
        let rbm = vec![(vec![vec![0f64; 6]; 7], vec![vec![0f64; 6]; 7]); n];
        let lom = model(rbm);
        assert_eq!(lom.len(), n);
        assert_eq!(lom.is_empty(), n == 0);
        let product = |kind| into_optics(lom.sensitivity(kind).unwrap(), &lom.rbm);
        let tt = lom.tiptilt(product(SensitivityKind::TipTilt)).unwrap();
        assert_eq!(tt.as_vec(), &vec![0.0; 2 * n]);
        let stt = lom.segment_tiptilt(product(SensitivityKind::SegmentTipTilt)).unwrap();
        assert_eq!(stt.as_vec(), &vec![0.0; 14 * n]);
        let sp = lom.segment_piston(product(SensitivityKind::SegmentPiston)).unwrap();
        assert_eq!(sp.as_vec(), &vec![0.0; 7 * n]);
        let masked = lom.masked_wavefront(product(SensitivityKind::Wavefront)).unwrap();
        assert_eq!(masked, vec![0.0; 7 * n]);
        assert_eq!(lom.wavefront(&masked).unwrap(), vec![0.0; 9 * n]);
        let lists = lom.segment_wavefront(&masked).unwrap();
        assert!(lists.iter().all(|list| list == &vec![0.0; n]));
    }
}

#[test]
fn a_product_of_another_length_is_an_error() {
    let lom = model(vec![(vec![vec![0f64; 6]; 7], vec![vec![0f64; 6]; 7]); 2]);
    assert_eq!(
        lom.tiptilt(vec![0.0; 2]).err(),
        Some(LinearOpticalModelError::Shape { rows: 2, columns: 2, found: 2 })
    );
    assert_eq!(
        lom.segment_tiptilt(vec![0.0; 14]).err(),
        Some(LinearOpticalModelError::Shape { rows: 14, columns: 2, found: 14 })
    );
    assert_eq!(
        lom.segment_piston(vec![0.0; 15]).err(),
        Some(LinearOpticalModelError::Shape { rows: 7, columns: 2, found: 15 })
    );
    assert_eq!(
        lom.masked_wavefront(vec![0.0; 7]).err(),
        Some(LinearOpticalModelError::Shape { rows: 7, columns: 2, found: 7 })
    );
    assert_eq!(
        lom.wavefront(&vec![0.0; 7]).err(),
        Some(LinearOpticalModelError::Shape { rows: 7, columns: 2, found: 7 })
    );
    assert_eq!(
        lom.segment_wavefront(&vec![0.0; 15]).err(),
        Some(LinearOpticalModelError::Shape { rows: 7, columns: 2, found: 15 })
    );
}

#[test]
fn a_model_without_the_sensitivity_asked_for_fails() {
    let sens = OpticalSensitivities::new(vec![OpticalSensitivity::TipTilt(vec![0.5; 168])]).unwrap();
    let lom = LOM::new(sens);
    assert_eq!(lom.len(), 1);
    assert_eq!(lom.tiptilt(vec![1.0, 2.0]).unwrap().into_vec(), vec![1.0, 2.0]);
    for (kind, err) in [
        (SensitivityKind::SegmentPiston, lom.segment_piston(vec![0.0; 7]).err()),
        (SensitivityKind::SegmentTipTilt, lom.segment_tiptilt(vec![0.0; 14]).err()),
        (SensitivityKind::Wavefront, lom.masked_wavefront(vec![]).err()),
        (SensitivityKind::Wavefront, lom.wavefront(&[]).err()),
        (SensitivityKind::Wavefront, lom.segment_wavefront(&[]).err()),
    ] {
        assert_eq!(err, Some(LinearOpticalModelError::MissingSensitivity(kind)));
    }
    assert_eq!(
        lom.sensitivity(SensitivityKind::PupilMask).err(),
        Some(LinearOpticalModelError::MissingSensitivity(SensitivityKind::PupilMask))
    );
}

fn one_entry() -> OpticalSensitivities<f64> {
    OpticalSensitivities::new(vec![OpticalSensitivity::TipTilt(vec![0.5; 168])]).unwrap()
}

#[test]
fn build_takes_the_sensitivities_and_the_motions_that_were_set() {
    let m1: Vec<f64> = (0..42).map(|x| x as f64).collect();
    let m2: Vec<f64> = (0..42).map(|x| 100.0 + x as f64).collect();
    // whatever the fallback is: nothing, an error, or other sensitivities
    let fallbacks = [
        None,
        Some(Err(LinearOpticalModelError::SensitivityFile)),
        Some(Err(LinearOpticalModelError::SensitivityData)),
        Some(Ok(sensitivities())),
    ];
    for fallback in fallbacks {
        let builder = LOM::<f64>::builder()
            .load_optical_sensitivities(Ok(one_entry()))
            .unwrap()
            .iter_rigid_body_motions(&[(&m1[..], &m2[..]), (&m2[..], &m1[..])])
            .unwrap();
        assert!(!builder.needs_sensitivities());
        let lom = builder.build(fallback).unwrap();
        assert_eq!(lom.sens.as_slice().len(), 1);
        assert_eq!(lom.sens.as_slice()[0].values(), Some(&vec![0.5; 168]));
        assert_eq!(lom.len(), 2);
        assert_eq!(lom.rbm.mirror_samples(Mirror::M1), vec![m1.clone(), m2.clone()]);
        assert_eq!(lom.rbm.mirror_samples(Mirror::M2), vec![m2.clone(), m1.clone()]);
    }
}

#[test]
fn build_without_motions_has_one_sample_of_zeros() {
    let lom = LOM::<f64>::builder()
        .load_optical_sensitivities(Ok(one_entry()))
        .unwrap()
        .build(Some(Err(LinearOpticalModelError::SensitivityFile)))
        .unwrap();
    assert_eq!(lom.sens.as_slice().len(), 1);
    assert_eq!(lom.len(), 1);
    assert_eq!(lom.rbm.data().as_vec(), &vec![0.0; 84]);
}

#[test]
fn build_takes_the_fallback_where_no_sensitivities_were_set() {
    let builder = LOM::<f64>::builder();
    assert!(builder.needs_sensitivities());
    let lom = builder.build(Some(Ok(sensitivities()))).unwrap();
    assert_eq!(lom.sens.as_slice().len(), 6);
    // no motions were set: one time sample of zeros
    assert_eq!(lom.len(), 1);
    assert_eq!(lom.rbm.data().as_vec(), &vec![0.0; 84]);
}

#[test]
fn build_without_sensitivities_fails_as_the_loader_of_the_fallback_did() {
    let built = LOM::<f64>::builder().build(Some(Err(LinearOpticalModelError::SensitivityData)));
    assert_eq!(built.err(), Some(LinearOpticalModelError::SensitivityData));
    let built = LOM::<f64>::builder().build(Some(Err(LinearOpticalModelError::SensitivityFile)));
    assert_eq!(built.err(), Some(LinearOpticalModelError::SensitivityFile));
    let built = LOM::<f64>::builder().build(None);
    assert_eq!(built.err(), Some(LinearOpticalModelError::SensitivityFile));
}

#[test]
fn builder_passes_the_errors_of_the_loaders_on() {
    let failed = LOM::<f64>::builder()
        .load_optical_sensitivities(Err(LinearOpticalModelError::SensitivityFile));
    assert_eq!(failed.err(), Some(LinearOpticalModelError::SensitivityFile));
    let failed = LOM::<f64>::builder().load_rigid_body_motions(Err(LinearOpticalModelError::Parquet));
    assert_eq!(failed.err(), Some(LinearOpticalModelError::Parquet));
    let m1: Vec<f64> = (0..42).map(|x| x as f64).collect();
    let rbm = RigidBodyMotions::from_slices(&[(&m1[..], &m1[..])]).unwrap();
    let lom = LOM::builder()
        .load_rigid_body_motions(Ok(rbm))
        .unwrap()
        .build(Some(Ok(sensitivities())))
        .unwrap();
    assert_eq!(lom.rbm.get(41, 0), 41.0);
}

#[test]
fn builder_takes_slices_and_rows() {
    let m1: Vec<f64> = (0..42).map(|x| x as f64).collect();
    let m2: Vec<f64> = (0..42).map(|x| 100.0 + x as f64).collect();
    let lom = LOM::builder()
        .iter_rigid_body_motions(&[(&m1[..], &m2[..]), (&m2[..], &m1[..])])
        .unwrap()
        .build(Some(Ok(sensitivities())))
        .unwrap();
    assert_eq!(lom.len(), 2);
    assert_eq!(lom.rbm.mirror_samples(Mirror::M1), vec![m1.clone(), m2.clone()]);
    assert!(matches!(lom.time(), TimeAxis::Uniform { n_sample: 2, sampling_frequency: None }));
    let failed = LOM::<f64>::builder().iter_rigid_body_motions(&[(&m1[..], &m2[..1])]);
    assert_eq!(
        failed.err(),
        Some(LinearOpticalModelError::DofCount { sample: 0, mirror: Mirror::M2, expected: 42, found: 1 })
    );
    let row = |start: f64| TableRow {
        m1: Some((0..42).map(|x| Some(start + x as f64)).collect()),
        m2: Some((0..42).map(|x| Some(-start - x as f64)).collect()),
    };
    let rows = vec![row(0.0), TableRow { m1: None, m2: None }, row(10.0)];
    let lom = LOM::builder()
        .rigid_body_motions_record(&rows)
        .unwrap()
        .build(Some(Ok(sensitivities())))
        .unwrap();
    assert_eq!(lom.len(), 2);
    assert_eq!(lom.rbm.get(0, 1), 10.0);
    assert_eq!(lom.rbm.get(42, 1), -10.0);
    match lom.time() {
        TimeAxis::Stamps(stamps) => assert_eq!(stamps, vec![0, 2]),
        TimeAxis::Uniform { .. } => panic!("the rows have stamps"),
    }
    let failed = LOM::<f64>::builder().rigid_body_motions_record(&rows[..2]);
    assert_eq!(failed.err(), Some(LinearOpticalModelError::MissingRigidBodyMotions));
    let failed = LOM::<f64>::builder().into_iter_rigid_body_motions(&[(vec![], vec![])]);
    assert_eq!(
        failed.err(),
        Some(LinearOpticalModelError::DofCount { sample: 0, mirror: Mirror::M1, expected: 7, found: 0 })
    );
}

#[test]
fn a_copy_of_a_model_holds_the_same() {
    let mut lom = model(vec![(vec![vec![1f64; 6]; 7], vec![vec![2f64; 6]; 7]); 2]);
    lom.latex();
    let copy = lom.clone();
    assert_eq!(copy.rbm.data().as_vec(), lom.rbm.data().as_vec());
    assert_eq!(copy.rbm.format(), Formatting::Latex);
    assert_eq!(copy.sens.listing(), lom.sens.listing());
    for (a, b) in copy.sens.as_slice().iter().zip(lom.sens.as_slice()) {
        assert_eq!(a.kind(), b.kind());
        assert_eq!(a.values(), b.values());
        assert_eq!(a.pupil_points(), b.pupil_points());
    }
    assert_eq!(format!("{:?}", copy.sens.as_slice()[4]), "SegmentMask([1, 2, 3, 4, 5, 6, 7])");
}

#[test]
fn latex_and_adhoc_set_the_format() {
    let mut lom = LOM::<f64>::new(sensitivities());
    assert_eq!(lom.rbm.format(), Formatting::AdHoc);
    lom.latex();
    assert_eq!(lom.rbm.format(), Formatting::Latex);
    lom.adhoc();
    assert_eq!(lom.rbm.format(), Formatting::AdHoc);
}

#[test]
fn segment_tiptilt_series_is_time_wise_by_item() {
    let rbm: Vec<_> = (0..3)
        .map(|t| {
            let mut m1 = vec![vec![0f64; 6]; 7];
            m1[t][4] = 1e-6 * (t + 1) as f64;
            (m1, vec![vec![0f64; 6]; 7])
        })
        .collect();
    let lom = model(rbm);
    let product = into_optics(lom.sensitivity(SensitivityKind::SegmentPiston).unwrap(), &lom.rbm);
    let sp = lom.segment_piston(product.clone()).unwrap();
    let tw = sp.time_wise(Some(2)).unwrap();
    for item in 0..7 {
        for k in 0..2 {
            assert_eq!(tw[item * 2 + k], product[(1 + k) * 7 + item]);
        }
    }
}
