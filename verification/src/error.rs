//! The conditions that end a run early, and their messages.

use vstd::prelude::*;

verus! {

/// Why a run cannot complete.  Every variant is terminal for the current
/// invocation: nothing is retried.
#[derive(Debug, Clone, Copy, PartialEq, Eq, Structural)]
pub enum CheckSameError {
    /// The path list was empty and no reset was asked for.
    NoFiles,
    /// The cache directory could not be listed, or a record in it could not
    /// be deleted, while resetting.
    ResetFailed,
    /// The cache directory could not be created or entered.
    CacheDirUnavailable,
    /// A record could not be written.
    WriteFailed,
}

/// The message each error is reported with.
pub open spec fn error_message(e: CheckSameError) -> Seq<char> {
    match e {
        CheckSameError::NoFiles => "At least one file path is required."@,
        CheckSameError::ResetFailed => "Unable to reset the cache."@,
        CheckSameError::CacheDirUnavailable => "Unable to create a temporary cache directory."@,
        CheckSameError::WriteFailed => "Unable to update the cache."@,
    }
}

impl CheckSameError {
    /// The message the error is reported with.
    pub fn as_str(self) -> (r: &'static str)
        ensures
            r@ == error_message(self),
    {
        match self {
            CheckSameError::NoFiles => "At least one file path is required.",
            CheckSameError::ResetFailed => "Unable to reset the cache.",
            CheckSameError::CacheDirUnavailable => "Unable to create a temporary cache directory.",
            CheckSameError::WriteFailed => "Unable to update the cache.",
        }
    }
}

} // verus!
