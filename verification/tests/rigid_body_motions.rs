use gmt_lom::rigid_body_motions::{gap, record_labels, telemetry_labels};
use gmt_lom::{
    Formatting, LinearOpticalModelError, Matrix, Mirror, RigidBodyMotions, TableRow, TimeAxis,
};

fn ramp(start: f64) -> Vec<f64> {
    (0..42).map(|i| start + i as f64).collect()
}

#[test]
fn from_slices_lays_m1_before_m2() {
    let (a1, a2, b1, b2) = (ramp(0.0), ramp(100.0), ramp(200.0), ramp(300.0));
    let rbm = RigidBodyMotions::from_slices(&[(&a1[..], &a2[..]), (&b1[..], &b2[..])]).unwrap();
    assert_eq!(rbm.len(), 2);
    assert!(!rbm.is_empty());
    assert_eq!(rbm.data().nrows(), 84);
    assert_eq!(rbm.data().ncols(), 2);
    assert_eq!(rbm.get(0, 0), 0.0);
    assert_eq!(rbm.get(41, 0), 41.0);
    assert_eq!(rbm.get(42, 0), 100.0);
    assert_eq!(rbm.get(83, 0), 141.0);
    assert_eq!(rbm.get(0, 1), 200.0);
    assert_eq!(rbm.get(83, 1), 341.0);
    let mut expected = a1.clone();
    expected.extend(&a2);
    expected.extend(&b1);
    expected.extend(&b2);
    assert_eq!(rbm.data().as_vec(), &expected);
    assert_eq!(rbm.format(), Formatting::AdHoc);
    assert_eq!(rbm.into_data().into_vec(), expected);
}

#[test]
fn from_slices_rejects_a_wrong_count() {
    let good = ramp(0.0);
    let short = vec![0.0; 41];
    let long = vec![0.0; 43];
    assert_eq!(
        RigidBodyMotions::from_slices(&[(&good[..], &good[..]), (&short[..], &long[..])]).err(),
        Some(LinearOpticalModelError::DofCount {
            sample: 1,
            mirror: Mirror::M1,
            expected: 42,
            found: 41
        })
    );
    assert_eq!(
        RigidBodyMotions::from_slices(&[(&good[..], &long[..])]).err(),
        Some(LinearOpticalModelError::DofCount {
            sample: 0,
            mirror: Mirror::M2,
            expected: 42,
            found: 43
        })
    );
}

#[test]
fn from_slices_of_nothing_is_empty() {
    let rbm = RigidBodyMotions::<f64>::from_slices(&[]).unwrap();
    assert_eq!(rbm.len(), 0);
    assert!(rbm.is_empty());
}

#[test]
fn from_segments_is_segment_major() {
    let mut m1 = vec![vec![0f64; 6]; 7];
    let mut m2 = vec![vec![0f64; 6]; 7];
    m1[0][3] = 1.5;
    m1[6][5] = 2.5;
    m2[2][1] = 3.5;
    let rbm = RigidBodyMotions::from_segments(&[(m1, m2)]).unwrap();
    assert_eq!(rbm.len(), 1);
    assert_eq!(rbm.get(3, 0), 1.5);
    assert_eq!(rbm.get(41, 0), 2.5);
    assert_eq!(rbm.get(42 + 13, 0), 3.5);
    let nonzero = rbm.data().as_vec().iter().filter(|x| **x != 0.0).count();
    assert_eq!(nonzero, 3);
}

#[test]
fn from_segments_rejects_a_wrong_shape() {
    let good = vec![vec![0f64; 6]; 7];
    let six_segments = vec![vec![0f64; 7]; 6];
    assert_eq!(
        RigidBodyMotions::from_segments(&[(six_segments.clone(), good.clone())]).err(),
        Some(LinearOpticalModelError::DofCount {
            sample: 0,
            mirror: Mirror::M1,
            expected: 7,
            found: 6
        })
    );
    let mut ragged = good.clone();
    ragged[4] = vec![0.0; 5];
    ragged[5] = vec![0.0; 7];
    assert_eq!(
        RigidBodyMotions::from_segments(&[(good.clone(), good.clone()), (good.clone(), ragged)])
            .err(),
        Some(LinearOpticalModelError::DofCount {
            sample: 1,
            mirror: Mirror::M2,
            expected: 6,
            found: 5
        })
    );
}

fn full(start: f64) -> Option<Vec<Option<f64>>> {
    Some(ramp(start).into_iter().map(Some).collect())
}

#[test]
fn from_record_drops_the_rows_with_missing_values() {
    let mut holes = full(50.0).unwrap();
    holes[7] = None;
    let rows = vec![
        TableRow { m1: full(0.0), m2: full(100.0) },
        TableRow { m1: None, m2: full(1.0) },
        TableRow { m1: full(2.0), m2: Some(holes) },
        TableRow { m1: full(200.0), m2: full(300.0) },
        TableRow { m1: full(3.0), m2: None },
        TableRow { m1: full(400.0), m2: full(500.0) },
    ];
    let rbm = RigidBodyMotions::from_record(&rows).unwrap();
    assert_eq!(rbm.len(), 3);
    assert_eq!(rbm.get(0, 0), 0.0);
    assert_eq!(rbm.get(42, 0), 100.0);
    assert_eq!(rbm.get(0, 1), 200.0);
    assert_eq!(rbm.get(83, 1), 341.0);
    assert_eq!(rbm.get(0, 2), 400.0);
    assert_eq!(rbm.get(83, 2), 541.0);
    match rbm.time() {
        TimeAxis::Stamps(stamps) => assert_eq!(stamps, vec![0, 3, 5]),
        TimeAxis::Uniform { .. } => panic!("the rows have stamps"),
    }
    // the gap between the stamps of the first two samples
    assert_eq!(rbm.stamp_gap(), Some(3));
}

#[test]
fn stamp_gap_is_of_the_first_two_stamps() {
    assert_eq!(gap(&vec![]), None);
    assert_eq!(gap(&vec![4]), None);
    assert_eq!(gap(&vec![4, 9, 10]), Some(5));
    assert_eq!(gap(&vec![4, 4]), Some(0));
    assert_eq!(gap(&vec![9, 4]), None);
    assert_eq!(RigidBodyMotions::<f64>::default().stamp_gap(), None);
}

#[test]
fn from_record_needs_two_rows() {
    let rows = vec![
        TableRow { m1: full(0.0), m2: full(100.0) },
        TableRow { m1: None, m2: full(1.0) },
    ];
    assert_eq!(
        RigidBodyMotions::from_record(&rows).err(),
        Some(LinearOpticalModelError::MissingRigidBodyMotions)
    );
    assert_eq!(
        RigidBodyMotions::<f64>::from_record(&[]).err(),
        Some(LinearOpticalModelError::MissingRigidBodyMotions)
    );
}

#[test]
fn from_record_rejects_a_wrong_count() {
    let short: Option<Vec<Option<f64>>> = Some(vec![Some(0.0); 40]);
    let rows = vec![
        TableRow { m1: full(0.0), m2: full(100.0) },
        TableRow { m1: None, m2: short.clone() },
        TableRow { m1: full(0.0), m2: short },
        TableRow { m1: full(0.0), m2: full(100.0) },
    ];
    assert_eq!(
        RigidBodyMotions::from_record(&rows).err(),
        Some(LinearOpticalModelError::DofCount {
            sample: 2,
            mirror: Mirror::M2,
            expected: 42,
            found: 40
        })
    );
}

#[test]
fn zeroed_m1_keeps_m2() {
    let (a1, a2, b1, b2) = (ramp(1.0), ramp(100.0), ramp(200.0), ramp(300.0));
    let mut rbm = RigidBodyMotions::from_slices(&[(&a1[..], &a2[..]), (&b1[..], &b2[..])]).unwrap();
    rbm.zeroed_m1();
    for t in 0..2 {
        for dof in 0..42 {
            assert_eq!(rbm.get(dof, t), 0.0);
        }
    }
    assert_eq!(rbm.mirror_samples(Mirror::M2), vec![a2.clone(), b2.clone()]);
    assert_eq!(rbm.mirror_samples(Mirror::M1), vec![vec![0.0; 42]; 2]);
    assert_eq!(rbm.len(), 2);
}

#[test]
fn zeroed_m2_keeps_m1() {
    let (a1, a2, b1, b2) = (ramp(1.0), ramp(100.0), ramp(200.0), ramp(300.0));
    let mut rbm = RigidBodyMotions::from_slices(&[(&a1[..], &a2[..]), (&b1[..], &b2[..])]).unwrap();
    rbm.zeroed_m2();
    assert_eq!(rbm.mirror_samples(Mirror::M1), vec![a1.clone(), b1.clone()]);
    assert_eq!(rbm.mirror_samples(Mirror::M2), vec![vec![0.0; 42]; 2]);
    let mut both = rbm.clone();
    both.zeroed(Mirror::M1);
    assert!(both.data().as_vec().iter().all(|x| *x == 0.0));
    assert_eq!(both.data().as_vec().len(), 168);
}

#[test]
fn default_motions_are_one_sample_of_zeros() {
    let rbm = RigidBodyMotions::<f64>::default();
    assert_eq!(rbm.len(), 1);
    assert_eq!(rbm.data().as_vec(), &vec![0.0; 84]);
    assert_eq!(rbm.format(), Formatting::AdHoc);
    match rbm.time() {
        TimeAxis::Uniform {
            n_sample,
            sampling_frequency,
        } => {
            assert_eq!(n_sample, 1);
            assert_eq!(sampling_frequency, None);
        }
        TimeAxis::Stamps(_) => panic!("new motions have no stamps"),
    }
}

#[test]
fn sampling_frequency_and_format_are_kept() {
    let mut rbm = RigidBodyMotions::<f64>::default();
    rbm.set_sampling_frequency(1e3);
    rbm.set_format(Formatting::Latex);
    assert_eq!(rbm.format(), Formatting::Latex);
    let copy = rbm.clone();
    assert_eq!(copy.format(), Formatting::Latex);
    match copy.time() {
        TimeAxis::Uniform {
            n_sample,
            sampling_frequency,
        } => {
            assert_eq!(n_sample, 1);
            assert_eq!(sampling_frequency, Some(1e3));
        }
        TimeAxis::Stamps(_) => panic!("new motions have no stamps"),
    }
}

#[test]
fn from_matrix_needs_84_rows() {
    let m = Matrix::from_vec(84, 2, vec![1.0; 168]).unwrap();
    let rbm = RigidBodyMotions::from_matrix(m).unwrap();
    assert_eq!(rbm.len(), 2);
    let m = Matrix::from_vec(42, 4, vec![1.0; 168]).unwrap();
    assert_eq!(
        RigidBodyMotions::from_matrix(m).err(),
        Some(LinearOpticalModelError::Shape {
            rows: 84,
            columns: 4,
            found: 168
        })
    );
}

#[test]
fn read_takes_the_values_of_one_mirror() {
    let (a1, a2, b1, b2) = (ramp(1.0), ramp(100.0), ramp(200.0), ramp(300.0));
    let mut rbm = RigidBodyMotions::from_slices(&[(&a1[..], &a2[..]), (&b1[..], &b2[..])]).unwrap();
    let new_m1 = ramp(1000.0);
    rbm.read(Mirror::M1, &new_m1);
    assert_eq!(rbm.mirror_samples(Mirror::M1), vec![new_m1.clone(), b1.clone()]);
    assert_eq!(rbm.mirror_samples(Mirror::M2), vec![a2.clone(), b2.clone()]);
    // a short list fills the first rows only, a long one is cut at 42
    rbm.read(Mirror::M2, &[7.0, 8.0]);
    assert_eq!(rbm.get(42, 0), 7.0);
    assert_eq!(rbm.get(43, 0), 8.0);
    assert_eq!(rbm.get(44, 0), 102.0);
    rbm.read(Mirror::M1, &vec![9.0; 50]);
    assert_eq!(rbm.mirror_samples(Mirror::M1)[0], vec![9.0; 42]);
    assert_eq!(rbm.get(42, 0), 7.0);
}

#[test]
fn labels_default_to_the_standard_names() {
    assert_eq!(telemetry_labels(None, None), ("OSSM1Lcl", "MCM2Lcl6D"));
    assert_eq!(telemetry_labels(Some("a"), None), ("a", "MCM2Lcl6D"));
    assert_eq!(telemetry_labels(None, Some("b")), ("OSSM1Lcl", "b"));
    assert_eq!(
        record_labels(None, None),
        ("M1RigidBodyMotions", "M2RigidBodyMotions")
    );
    assert_eq!(record_labels(Some("a"), Some("b")), ("a", "b"));
}
