use gmt_lom::{LinearOpticalModelError, Pmt, PmtSensitivity};

#[test]
fn pmts1() {
    let rows: Vec<Vec<f64>> = (0..14)
        .map(|r| (0..300).map(|c| (r * 300 + c) as f64).collect())
        .collect();
    let pmt = PmtSensitivity::from_rows(&rows).unwrap();
    assert_eq!(pmt.n_row, 14);
    assert_eq!(pmt.n_col, 300);
    assert_eq!(pmt.data.len(), 14 * 300);
    assert_eq!(pmt.data[301], 301.0);
    let m = pmt.to_matrix().unwrap();
    assert_eq!((m.nrows(), m.ncols()), (14, 300));
    assert_eq!(m.get(1, 1), 301.0);
    assert_eq!(m.get(13, 299), 4199.0);
}

#[test]
fn pmts2() {
    let rows: Vec<Vec<f64>> = vec![vec![1.0; 300]; 7];
    let pmt = PmtSensitivity::from_rows(&rows).unwrap();
    assert_eq!(pmt.n_row, 7);
    assert_eq!(pmt.n_col, 300);
}

#[test]
fn pmt_sensitivity_needs_a_row() {
    assert_eq!(
        PmtSensitivity::<f64>::from_rows(&[]).err(),
        Some(LinearOpticalModelError::Read)
    );
}

#[test]
fn pmt_sensitivity_of_ragged_rows_is_no_matrix() {
    let rows = vec![vec![1.0, 2.0], vec![3.0]];
    let pmt = PmtSensitivity::from_rows(&rows).unwrap();
    assert_eq!((pmt.n_row, pmt.n_col), (2, 2));
    assert_eq!(pmt.data, vec![1.0, 2.0, 3.0]);
    assert!(pmt.to_matrix().is_none());
}

fn list(start: f64) -> Option<Vec<Option<f64>>> {
    Some((0..300).map(|i| Some(start + i as f64)).collect())
}

#[test]
fn pmt_from_record_drops_the_incomplete_lists() {
    let mut holes = list(7.0).unwrap();
    holes[299] = None;
    let pmt = Pmt::from_record(&[list(0.0), None, Some(holes), list(1000.0), list(2000.0)]).unwrap();
    assert_eq!(pmt.data().nrows(), 300);
    assert_eq!(pmt.data().ncols(), 3);
    assert_eq!(pmt.time(), Some(&vec![0, 3, 4]));
    assert_eq!(pmt.stamp_gap(), Some(3));
    assert_eq!(pmt.sampling_frequency(), None);
    assert_eq!(pmt.data().get(0, 0), 0.0);
    assert_eq!(pmt.data().get(299, 1), 1299.0);
    assert_eq!(pmt.data().get(5, 2), 2005.0);
}

#[test]
fn pmt_from_record_needs_two_lists_of_300() {
    assert_eq!(
        Pmt::from_record(&[list(0.0), None]).err(),
        Some(LinearOpticalModelError::Read)
    );
    let short: Option<Vec<Option<f64>>> = Some(vec![Some(1.0); 299]);
    assert_eq!(
        Pmt::from_record(&[list(0.0), short, list(0.0)]).err(),
        Some(LinearOpticalModelError::Shape {
            rows: 300,
            columns: 1,
            found: 299
        })
    );
}

#[test]
fn pmt_shuffle_takes_the_rows_named() {
    let mut pmt = Pmt::from_record(&[list(0.0), list(1000.0)]).unwrap();
    pmt.set_sampling_frequency(8e3);
    pmt.shuffle(&[299, 0, 0]).unwrap();
    assert_eq!(pmt.data().nrows(), 3);
    assert_eq!(pmt.data().ncols(), 2);
    assert_eq!(pmt.data().as_vec(), &vec![299.0, 0.0, 0.0, 1299.0, 1000.0, 1000.0]);
    assert_eq!(pmt.sampling_frequency(), Some(8e3));
    assert_eq!(pmt.time(), Some(&vec![0, 1]));
    // the series has 3 rows now
    assert_eq!(
        pmt.shuffle(&[0, 3]).err(),
        Some(LinearOpticalModelError::Shape {
            rows: 3,
            columns: 2,
            found: 6
        })
    );
    assert_eq!(pmt.data().nrows(), 3);
}
