//! Strict byte-for-byte content comparison.
//!
//! A comparison fails on the first mismatching byte of the common prefix,
//! or, when every byte of the common prefix agrees, on a length mismatch.
//! A length mismatch is never silently ignored: two sequences compare equal
//! only when they have the same length and the same bytes.

use vstd::prelude::*;

verus! {

/// Strict equality of two byte sequences: same length, same bytes.
pub open spec fn same_contents(a: Seq<u8>, b: Seq<u8>) -> bool {
    a == b
}

/// Why a strict content comparison failed.
#[derive(Clone, Copy, Debug, PartialEq, Eq, Structural)]
pub enum ContentMismatch {
    /// The first position where the two sequences hold different bytes.
    Byte { index: usize, expected: u8, actual: u8 },
    /// Every byte of the common prefix agrees, but the lengths differ.
    Length { expected_len: usize, actual_len: usize },
}

/// The first `n` bytes of `a` and `b` agree.
pub open spec fn prefix_agrees(a: Seq<u8>, b: Seq<u8>, n: int) -> bool {
    forall|j: int| 0 <= j < n ==> a[j] == b[j]
}

/// Compare `actual` against `expected`, byte by byte and strict in length.
///
/// Returns `Ok(())` exactly when the two sequences are equal. Otherwise the
/// error pins down the failure: the first mismatching byte of the common
/// prefix, or, when the common prefix agrees throughout, the two lengths.
pub fn compare_contents(expected: &Vec<u8>, actual: &Vec<u8>) -> (r: Result<(), ContentMismatch>)
    ensures
        r is Ok <==> same_contents(expected@, actual@),
        r matches Err(ContentMismatch::Byte { index, expected: e, actual: a }) ==> {
            &&& index < expected@.len()
            &&& index < actual@.len()
            &&& expected@[index as int] != actual@[index as int]
            &&& prefix_agrees(expected@, actual@, index as int)
            &&& e == expected@[index as int]
            &&& a == actual@[index as int]
        },
        r matches Err(ContentMismatch::Length { expected_len, actual_len }) ==> {
            &&& expected_len == expected@.len()
            &&& actual_len == actual@.len()
            &&& expected_len != actual_len
            &&& prefix_agrees(expected@, actual@, vstd::math::min(expected@.len() as int, actual@.len() as int))
        },
{
    let shorter: usize = if expected.len() < actual.len() { expected.len() } else { actual.len() };
    let mut i: usize = 0;
    while i < shorter
        invariant
            i <= shorter,
            shorter == vstd::math::min(expected@.len() as int, actual@.len() as int),
            prefix_agrees(expected@, actual@, i as int),
        decreases shorter - i,
    {
        if expected[i] != actual[i] {
            return Err(ContentMismatch::Byte {
                index: i,
                expected: expected[i],
                actual: actual[i],
            });
        }
        i = i + 1;
    }
    if expected.len() != actual.len() {
        return Err(ContentMismatch::Length {
            expected_len: expected.len(),
            actual_len: actual.len(),
        });
    }
    proof {
        assert(expected@ =~= actual@);
    }
    Ok(())
}

/// Check that a file's raw bytes equal `contents` exactly, length included.
///
/// `file_bytes` is the full byte content read from the file under test;
/// `contents` is what the test expects. Succeeds exactly when the two are
/// equal; any differing byte, or any length mismatch, is reported.
pub fn assert_file_has_contents(file_bytes: &Vec<u8>, contents: &Vec<u8>) -> (r: Result<(), ContentMismatch>)
    ensures
        r is Ok <==> same_contents(contents@, file_bytes@),
        r matches Err(ContentMismatch::Byte { index, expected: e, actual: a }) ==> {
            &&& index < contents@.len()
            &&& index < file_bytes@.len()
            &&& contents@[index as int] != file_bytes@[index as int]
            &&& prefix_agrees(contents@, file_bytes@, index as int)
            &&& e == contents@[index as int]
            &&& a == file_bytes@[index as int]
        },
        r matches Err(ContentMismatch::Length { expected_len, actual_len }) ==> {
            &&& expected_len == contents@.len()
            &&& actual_len == file_bytes@.len()
            &&& expected_len != actual_len
            &&& prefix_agrees(contents@, file_bytes@, vstd::math::min(contents@.len() as int, file_bytes@.len() as int))
        },
{
    compare_contents(contents, file_bytes)
}

/// Check that two files hold exactly the same bytes, length included.
///
/// `bytes_1` and `bytes_2` are the full byte contents read from the two
/// files. Succeeds exactly when the two are equal.
pub fn assert_files_have_same_contents(bytes_1: &Vec<u8>, bytes_2: &Vec<u8>) -> (r: Result<(), ContentMismatch>)
    ensures
        r is Ok <==> same_contents(bytes_1@, bytes_2@),
        r matches Err(ContentMismatch::Byte { index, expected: e, actual: a }) ==> {
            &&& index < bytes_1@.len()
            &&& index < bytes_2@.len()
            &&& bytes_1@[index as int] != bytes_2@[index as int]
            &&& prefix_agrees(bytes_1@, bytes_2@, index as int)
            &&& e == bytes_1@[index as int]
            &&& a == bytes_2@[index as int]
        },
        r matches Err(ContentMismatch::Length { expected_len, actual_len }) ==> {
            &&& expected_len == bytes_1@.len()
            &&& actual_len == bytes_2@.len()
            &&& expected_len != actual_len
            &&& prefix_agrees(bytes_1@, bytes_2@, vstd::math::min(bytes_1@.len() as int, bytes_2@.len() as int))
        },
{
    compare_contents(bytes_1, bytes_2)
}

/// Strict content comparison is symmetric: two byte sequences compare equal
/// in one order exactly when they compare equal in the other.
pub proof fn lemma_same_contents_symmetric(a: Seq<u8>, b: Seq<u8>)
    ensures
        same_contents(a, b) <==> same_contents(b, a),
{
}

} // verus!
