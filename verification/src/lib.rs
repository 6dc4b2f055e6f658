use vstd::prelude::*;

pub mod config;
pub mod orchestrate;
pub mod pattern;
pub mod render;
pub mod scan;

verus! {

/// The failures that abort a whole run: a malformed pattern in regex mode,
/// or an I/O failure while listing a directory during file enumeration.
#[derive(Clone, Copy, Debug, PartialEq, Eq, Structural)]
pub enum SearchError {
    InvalidPattern,
    EnumerationFailure,
}

impl SearchError {
    /// The diagnostic text for this failure.
    pub fn message(&self) -> (r: &'static str)
        ensures
            r@ == (match *self {
                SearchError::InvalidPattern => "invalid regex pattern"@,
                SearchError::EnumerationFailure => "could not list a directory"@,
            }),
    {
        match self {
            SearchError::InvalidPattern => "invalid regex pattern",
            SearchError::EnumerationFailure => "could not list a directory",
        }
    }
}

/// Files strictly larger than this many bytes are scanned with the
/// memory-mapped, line-parallel strategy; all others with the buffered
/// line-by-line strategy.
pub const LARGE_FILE_THRESHOLD: u64 = 10000000;

/// Strategy selection is a pure function of the file's byte length.
pub fn is_large_file(len: u64) -> (r: bool)
    ensures
        r == (len > LARGE_FILE_THRESHOLD),
{
    len > LARGE_FILE_THRESHOLD
}

} // verus!
