use gmt_lom::layout::place;
use gmt_lom::{DofPlace, Mirror, MIRROR_DOF, N_DOF, SEGMENTS, SEGMENT_AXES, SEGMENT_DOF};

#[test]
fn layout_constants_fit_together() {
    assert_eq!(SEGMENT_DOF, 2 * SEGMENT_AXES);
    assert_eq!(MIRROR_DOF, SEGMENTS * SEGMENT_DOF);
    assert_eq!(N_DOF, 2 * MIRROR_DOF);
    assert_eq!(N_DOF, 84);
}

#[test]
fn mirror_blocks_start_at_0_and_42() {
    assert_eq!(Mirror::M1.offset(), 0);
    assert_eq!(Mirror::M2.offset(), 42);
}

#[test]
fn dof_place_row_is_segment_major() {
    let first = DofPlace::new(Mirror::M1, 0, 0).unwrap();
    assert_eq!(first.row(), 0);
    let rx = DofPlace::new(Mirror::M1, 0, 3).unwrap();
    assert_eq!(rx.row(), 3);
    assert!(rx.is_rotation());
    let tz = DofPlace::new(Mirror::M1, 6, 2).unwrap();
    assert_eq!(tz.row(), 38);
    assert!(!tz.is_rotation());
    let last = DofPlace::new(Mirror::M2, 6, 5).unwrap();
    assert_eq!(last.row(), 83);
    let m2_first = DofPlace::new(Mirror::M2, 0, 0).unwrap();
    assert_eq!(m2_first.row(), 42);
}

#[test]
fn dof_place_rejects_what_does_not_exist() {
    assert_eq!(DofPlace::new(Mirror::M1, 7, 0), None);
    assert_eq!(DofPlace::new(Mirror::M2, 0, 6), None);
    assert_eq!(place(84), None);
    assert_eq!(place(usize::MAX), None);
}

#[test]
fn rows_and_places_correspond() {
    for row in 0..84 {
        let p = place(row).unwrap();
        assert!(p.segment < 7 && p.axis < 6);
        assert_eq!(p.row(), row);
        assert_eq!(p.mirror, if row < 42 { Mirror::M1 } else { Mirror::M2 });
    }
    assert_eq!(
        place(45),
        Some(DofPlace {
            mirror: Mirror::M2,
            segment: 0,
            axis: 3
        })
    );
}
