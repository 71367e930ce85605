use gmt_lom::Matrix;

#[test]
fn matrix_from_vec_is_column_major() {
    let m = Matrix::from_vec(2, 3, vec![1.0, 2.0, 3.0, 4.0, 5.0, 6.0]).unwrap();
    assert_eq!(m.nrows(), 2);
    assert_eq!(m.ncols(), 3);
    assert_eq!(m.get(0, 0), 1.0);
    assert_eq!(m.get(1, 0), 2.0);
    assert_eq!(m.get(0, 2), 5.0);
    assert_eq!(m.get(1, 2), 6.0);
}

#[test]
fn matrix_from_vec_rejects_a_wrong_length() {
    assert!(Matrix::from_vec(2, 3, vec![1.0, 2.0, 3.0, 4.0, 5.0]).is_none());
    assert!(Matrix::from_vec(usize::MAX, 2, vec![1.0f64]).is_none());
}

#[test]
fn matrix_from_row_slice_transposes_the_listing() {
    let m = Matrix::from_row_slice(2, 3, &vec![1, 2, 3, 4, 5, 6]).unwrap();
    assert_eq!(m.as_vec(), &vec![1, 4, 2, 5, 3, 6]);
    assert_eq!(m.clone().into_vec(), vec![1, 4, 2, 5, 3, 6]);
}

#[test]
fn matrix_set_changes_one_entry() {
    let mut m = Matrix::from_vec(2, 3, vec![1, 2, 3, 4, 5, 6]).unwrap();
    m.set(1, 2, 60);
    m.set(0, 0, 10);
    assert_eq!(m.as_vec(), &vec![10, 2, 3, 4, 5, 60]);
    assert_eq!((m.nrows(), m.ncols()), (2, 3));
}

#[test]
fn matrix_fill_rows_fills_the_rows_of_every_column() {
    let mut m = Matrix::from_vec(3, 2, vec![1, 2, 3, 4, 5, 6]).unwrap();
    m.fill_rows(1, 3, 0);
    assert_eq!(m.as_vec(), &vec![1, 0, 0, 4, 0, 0]);
    m.fill_rows(0, 0, 9);
    assert_eq!(m.as_vec(), &vec![1, 0, 0, 4, 0, 0]);
    m.fill_rows(0, 100, 9);
    assert_eq!(m.as_vec(), &vec![9; 6]);
    let mut empty = Matrix::<f64>::from_vec(0, 5, vec![]).unwrap();
    empty.fill_rows(0, 1, 1.0);
    assert!(empty.as_vec().is_empty());
}

#[test]
fn matrix_filled_holds_one_value() {
    let m = Matrix::filled(84, 2, 0.5).unwrap();
    assert_eq!((m.nrows(), m.ncols()), (84, 2));
    assert_eq!(m.as_vec(), &vec![0.5; 168]);
    assert!(Matrix::filled(usize::MAX, 2, 0u8).is_none());
    assert_eq!(Matrix::filled(0, 7, 1).unwrap().as_vec().len(), 0);
}

#[test]
fn matrix_select_rows_takes_the_rows_named() {
    let m = Matrix::from_vec(3, 2, vec![1, 2, 3, 4, 5, 6]).unwrap();
    let s = m.select_rows(&[2, 0, 2, 1]).unwrap();
    assert_eq!((s.nrows(), s.ncols()), (4, 2));
    assert_eq!(s.as_vec(), &vec![3, 1, 3, 2, 6, 4, 6, 5]);
    assert!(m.select_rows(&[0, 3]).is_none());
    let none = m.select_rows(&[]).unwrap();
    assert_eq!((none.nrows(), none.ncols()), (0, 2));
}

#[test]
fn matrix_from_row_slice_rejects_a_wrong_length() {
    assert!(Matrix::from_row_slice(2, 3, &vec![1, 2, 3, 4, 5]).is_none());
    assert!(Matrix::from_row_slice(usize::MAX, usize::MAX, &vec![1]).is_none());
}
