//! Helpers for testing code that touches the filesystem.
//!
//! Two independent pieces:
//!
//! * `assertions`: strict byte-for-byte content comparison, reporting the
//!   first mismatching byte or a length mismatch.
//! * `fake`: an in-memory description of a directory/file tree, together
//!   with the ordered list of filesystem operations that materializes it.

pub mod assertions;
pub mod fake;

pub use assertions::assert_file_has_contents;
pub use assertions::assert_files_have_same_contents;
pub use assertions::compare_contents;
pub use assertions::ContentMismatch;
pub use fake::Fake;
pub use fake::FsOp;
