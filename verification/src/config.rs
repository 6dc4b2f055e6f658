use vstd::prelude::*;

verus! {

/// The resolved parameters of one run: root directory, optional extension
/// filter (without the leading dot), recursion flag, case-sensitivity flag,
/// regex-mode flag, and worker count. Immutable for the whole run and read
/// concurrently by every scan task.
pub struct SearchConfig {
    pub directory: String,
    pub extension: Option<String>,
    pub recursive: bool,
    pub case_sensitive: bool,
    pub use_regex: bool,
    pub threads: usize,
}

/// A file is a candidate when no extension filter is set, or when its
/// extension (without the leading dot) equals the filter exactly,
/// case-sensitively; a file without an extension never matches a filter.
pub open spec fn spec_extension_matches(filter: Option<Seq<char>>, ext: Option<Seq<char>>) -> bool {
    match filter {
        None => true,
        Some(f) => ext == Some(f),
    }
}

/// Decide whether a file with the given extension passes the filter.
pub fn extension_matches(filter: &Option<String>, ext: &Option<String>) -> (r: bool)
    ensures
        r == spec_extension_matches(filter.deep_view(), ext.deep_view()),
{
    match filter {
        None => true,
        Some(f) => match ext {
            None => false,
            Some(e) => *f == *e,
        },
    }
}

} // verus!
