//! The ways in which a conversion fails.

use vstd::prelude::*;

verus! {

/// Why a conversion was given up.
#[derive(Debug, PartialEq, Eq)]
pub enum MailoxideError {
    /// A filesystem operation failed; holds the system's description of the failure.
    Io(String),
    /// The input path is neither an `.eml` file nor a directory; holds the reason.
    InvalidPath(String),
    /// The input directory holds no `.eml` file.
    NoEmlFiles,
}

} // verus!
