use fs_test_helpers::{
    assert_file_has_contents, assert_files_have_same_contents, compare_contents, ContentMismatch,
};

#[test]
fn equal_contents_succeed() {
    let file_bytes: Vec<u8> = b"some file payload".to_vec();
    let expected: Vec<u8> = b"some file payload".to_vec();
    assert_eq!(assert_file_has_contents(&file_bytes, &expected), Ok(()));
}

#[test]
fn empty_contents_succeed() {
    let file_bytes: Vec<u8> = Vec::new();
    let expected: Vec<u8> = Vec::new();
    assert_eq!(assert_file_has_contents(&file_bytes, &expected), Ok(()));
}

#[test]
fn first_differing_byte_is_reported() {
    let expected: Vec<u8> = b"abcdef".to_vec();
    let actual: Vec<u8> = b"abXdYf".to_vec();
    assert_eq!(
        compare_contents(&expected, &actual),
        Err(ContentMismatch::Byte { index: 2, expected: b'c', actual: b'X' })
    );
}

#[test]
fn differing_byte_beats_length_mismatch() {
    let expected: Vec<u8> = b"aXc".to_vec();
    let actual: Vec<u8> = b"abcdefgh".to_vec();
    assert_eq!(
        compare_contents(&expected, &actual),
        Err(ContentMismatch::Byte { index: 1, expected: b'X', actual: b'b' })
    );
}

#[test]
fn length_mismatch_is_reported() {
    let longer: Vec<u8> = b"foobarbaz".to_vec();
    let shorter: Vec<u8> = b"foobar".to_vec();
    assert_eq!(
        assert_files_have_same_contents(&longer, &shorter),
        Err(ContentMismatch::Length { expected_len: 9, actual_len: 6 })
    );
}

#[test]
fn empty_against_nonempty_is_length_mismatch() {
    let empty: Vec<u8> = Vec::new();
    let nonempty: Vec<u8> = b"x".to_vec();
    assert_eq!(
        assert_file_has_contents(&nonempty, &empty),
        Err(ContentMismatch::Length { expected_len: 0, actual_len: 1 })
    );
}

#[test]
fn same_contents_comparison_is_symmetric() {
    let a: Vec<u8> = b"foobarbaz".to_vec();
    let b: Vec<u8> = b"foobar".to_vec();
    assert_eq!(
        assert_files_have_same_contents(&a, &b).is_ok(),
        assert_files_have_same_contents(&b, &a).is_ok()
    );
    let c: Vec<u8> = b"foobar".to_vec();
    assert_eq!(
        assert_files_have_same_contents(&b, &c).is_ok(),
        assert_files_have_same_contents(&c, &b).is_ok()
    );
    assert!(assert_files_have_same_contents(&b, &c).is_ok());
}
