//! The ways a run of the profile builder can fail.
use vstd::prelude::*;

verus! {

/// Every failure ends the run; each names the offending path or value.
#[derive(Debug)]
pub enum ProfileError {
    /// An input path does not exist.
    PathNotFound { path: String },
    /// The inputs held no font file.
    NoFontsFound,
    /// A font file could not be read.
    FontReadError { path: String, cause: String },
    /// A profile without font entries was to be saved.
    EmptyProfile,
    /// The document could not be written.
    WriteError { path: String, cause: String },
    /// A command-line option was malformed.
    InvalidArgument { value: String, cause: String },
}

} // verus!
