//! Errors of the management commands and their exit codes.
use vstd::prelude::*;

verus! {

#[verifier::external_type_specification]
#[verifier::external_body]
pub struct ExIoError(std::io::Error);

/// An error of a management command.
#[derive(Debug)]
pub enum FoldbackError {
    NotFound { ref_id: String },
    Expired { ref_id: String },
    InvalidRef { input: String },
    Storage(String),
    Io(std::io::Error),
    BadInput(String),
    Corrupted { ref_id: String, channel: String },
}

/// Exit codes: 1 for a ref that is not found or expired, 2 for bad input, 3
/// for storage, I/O and integrity failures.
pub open spec fn error_exit_code(e: FoldbackError) -> i32 {
    match e {
        FoldbackError::NotFound { .. } | FoldbackError::Expired { .. } => 1,
        FoldbackError::InvalidRef { .. } | FoldbackError::BadInput(_) => 2,
        FoldbackError::Storage(_) | FoldbackError::Io(_) | FoldbackError::Corrupted { .. } => 3,
    }
}

impl FoldbackError {
    pub fn exit_code(&self) -> (r: i32)
        ensures
            r == error_exit_code(*self),
    {
        match self {
            Self::NotFound { .. } | Self::Expired { .. } => 1,
            Self::InvalidRef { .. } | Self::BadInput(_) => 2,
            Self::Storage(_) | Self::Io(_) | Self::Corrupted { .. } => 3,
        }
    }
}

} // verus!
