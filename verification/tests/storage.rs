use gmt_lom::vectors::{append, copy_of};
use gmt_lom::{upload_plan, Upload, CHUNK_SIZE};

#[test]
fn small_tables_are_sent_whole() {
    assert_eq!(CHUNK_SIZE, 5 * 1024 * 1024);
    assert_eq!(upload_plan(0), Upload::Whole);
    assert_eq!(upload_plan(1), Upload::Whole);
    assert_eq!(upload_plan(CHUNK_SIZE), Upload::Whole);
}

#[test]
fn large_tables_are_sent_in_parts_of_5_mib() {
    assert_eq!(
        upload_plan(CHUNK_SIZE + 1),
        Upload::Parts(vec![(0, CHUNK_SIZE), (CHUNK_SIZE, CHUNK_SIZE + 1)])
    );
    assert_eq!(
        upload_plan(3 * CHUNK_SIZE),
        Upload::Parts(vec![
            (0, CHUNK_SIZE),
            (CHUNK_SIZE, 2 * CHUNK_SIZE),
            (2 * CHUNK_SIZE, 3 * CHUNK_SIZE)
        ])
    );
    assert_eq!(
        upload_plan(2 * CHUNK_SIZE + 7),
        Upload::Parts(vec![
            (0, CHUNK_SIZE),
            (CHUNK_SIZE, 2 * CHUNK_SIZE),
            (2 * CHUNK_SIZE, 2 * CHUNK_SIZE + 7)
        ])
    );
}

#[test]
fn parts_are_the_chunks_of_the_bytes() {
    let len = 2 * CHUNK_SIZE + 12345;
    let bytes: Vec<u8> = (0..len).map(|i| (i % 251) as u8).collect();
    match upload_plan(len) {
        Upload::Parts(parts) => {
            let chunks: Vec<&[u8]> = bytes.chunks(CHUNK_SIZE).collect();
            assert_eq!(parts.len(), chunks.len());
            for ((start, end), chunk) in parts.into_iter().zip(chunks) {
                assert_eq!(&bytes[start..end], chunk);
            }
        }
        Upload::Whole => panic!("more than one chunk"),
    }
}

#[test]
fn copy_and_append_keep_the_values() {
    let values = vec![1.5, -2.5, 0.0];
    assert_eq!(copy_of(&values), values);
    let mut data = vec![9.0];
    append(&mut data, &values);
    append(&mut data, &[]);
    assert_eq!(data, vec![9.0, 1.5, -2.5, 0.0]);
}
