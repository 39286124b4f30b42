//! The error taxonomy of the log operations.
//!
//! Validation errors are raised before any store is touched; a conflict is
//! either absorbed by the append retry loop or surfaced verbatim; store
//! failures are fatal and never retried. For read-style operations an absent
//! pointer is a normal outcome, reported through each operation's result
//! type, not through an error.

use vstd::prelude::*;
use crate::text::{decimal_string, spec_decimal};

verus! {

/// What a log operation can fail with.
#[derive(Debug)]
pub enum MemoError {
    /// The category name fails the naming constraint. Raised before any
    /// store access.
    InvalidCategory {
        /// The offending name.
        category: String,
    },
    /// The required author name is missing from the ambient configuration.
    /// Raised before any mutation.
    MissingIdentity,
    /// A single-shot compare-and-swap lost a race and was not retried.
    Conflict,
    /// `append` lost the compare-and-swap race on every attempt up to the
    /// retry ceiling.
    RetryExhausted {
        /// The pointer that could not be updated.
        refname: String,
        /// How many attempts were made.
        attempts: u64,
    },
    /// A rename would overwrite an existing pointer and overwriting was not
    /// allowed.
    AlreadyExists {
        /// The pointer that is already there.
        refname: String,
    },
    /// The underlying store failed; never retried, the cause is preserved.
    StoreFailure {
        /// What the store reported.
        message: String,
    },
}

impl MemoError {
    /// A diagnostic description: operation-specific context such as the
    /// offending name, the pointer, or the attempt count.
    pub fn describe(&self) -> (r: String)
        ensures
            (match self {
                MemoError::InvalidCategory { category } =>
                    r@ == "Invalid category name: "@ + category@,
                MemoError::MissingIdentity =>
                    r@ == "Git user.name must be set.\nRun `git config --global user.name <name>`"@,
                MemoError::Conflict =>
                    r@ == "the head pointer changed concurrently"@,
                MemoError::RetryExhausted { refname, attempts } =>
                    r@ == "Failed to update "@ + refname@ + " after "@
                        + spec_decimal(*attempts as nat) + " attempts"@,
                MemoError::AlreadyExists { refname } =>
                    r@ == refname@ + " already exists"@,
                MemoError::StoreFailure { message } => r@ == message@,
            }),
    {
        match self {
            MemoError::InvalidCategory { category } => {
                "Invalid category name: ".to_owned().concat(category.as_str())
            },
            MemoError::MissingIdentity => {
                "Git user.name must be set.\nRun `git config --global user.name <name>`".to_owned()
            },
            MemoError::Conflict => "the head pointer changed concurrently".to_owned(),
            MemoError::RetryExhausted { refname, attempts } => {
                let n = decimal_string(*attempts);
                "Failed to update ".to_owned().concat(refname.as_str()).concat(" after ").concat(
                    n.as_str(),
                ).concat(" attempts")
            },
            MemoError::AlreadyExists { refname } => {
                refname.clone().concat(" already exists")
            },
            MemoError::StoreFailure { message } => message.clone(),
        }
    }
}

} // verus!
