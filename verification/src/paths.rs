//! The two questions this crate asks of a file path. Both are answered by
//! the standard library, by the rules of the platform it runs on.

use vstd::prelude::*;

verus! {

/// The final component of `path`, as `std::path::Path::file_name` gives it,
/// with bytes that are no UTF-8 replaced; `None` where the path has no such
/// component. Nothing is claimed of the result: what counts as a separator
/// depends on the platform.
#[verifier::external_body]
pub(crate) fn file_name_of(path: &str) -> (name: Option<String>) {
    match std::path::Path::new(path).file_name() {
        Some(name) => Some(name.to_string_lossy().into_owned()),
        None => None,
    }
}

/// The final component of `path` without its extension, as
/// `std::path::Path::file_stem` gives it, with bytes that are no UTF-8
/// replaced; `None` where the path has no such component. Nothing is
/// claimed of the result: what counts as a separator depends on the
/// platform.
#[verifier::external_body]
pub(crate) fn file_stem_of(path: &str) -> (stem: Option<String>) {
    match std::path::Path::new(path).file_stem() {
        Some(stem) => Some(stem.to_string_lossy().into_owned()),
        None => None,
    }
}

} // verus!
