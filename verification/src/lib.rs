//! Cumulative content hashing with change detection.
//!
//! The crate turns a set of file paths, each paired with the bytes its file
//! held (or nothing, when the file could not be read), into a single 256-bit
//! cumulative digest and a 64-bit cache key for the path set, and decides,
//! against a previously stored record, whether the content is new, unchanged
//! or changed.  All file and cache-directory I/O stays with the caller: the
//! crate works on plain values and says what must be read and written.

pub mod cache;
pub mod digest;
pub mod entry;
pub mod error;
pub mod hash;
pub mod key;
