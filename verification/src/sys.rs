//! Trusted boundary: conversions between `str` and `Vec<char>`, and the
//! filesystem probes that path validation and repository probing rely on.
//!
//! Everything else in the crate is verified against the contracts stated
//! here.  The filesystem probes promise nothing of their results, since those
//! depend on the state of the disk; callers state what holds whatever comes
//! back.

use vstd::prelude::*;

verus! {

/// Relies on `str::chars` (drained through `Iterator::collect`): the
/// characters of the string in order, which is exactly the view of a `str`.
#[verifier::external_body]
pub fn chars_of(s: &str) -> (r: Vec<char>)
    ensures
        r@ == s@,
{
    s.chars().collect()
}

/// Relies on `String`'s `FromIterator<char>` impl (through
/// `Iterator::collect`): the resulting string's characters are exactly the
/// elements of `v`, in order.
#[verifier::external_body]
pub fn string_from_chars(v: &Vec<char>) -> (r: String)
    ensures
        r@ == v@,
{
    v.iter().collect()
}

/// Relies on `std::path::Path::canonicalize`: resolves symlinks and returns
/// an absolute path, failing when the path does not exist or cannot be
/// reached.  The outcome depends on the filesystem (and a path that is not
/// valid UTF-8 is reported as inaccessible), so nothing is promised of it.
#[verifier::external_body]
pub fn canonicalize_path(path: &str) -> Option<String> {
    match std::path::Path::new(path).canonicalize() {
        Ok(p) => match p.to_str() {
            Some(q) => Some(q.to_owned()),
            None => None,
        },
        Err(_) => None,
    }
}

/// Relies on `std::path::Path::exists`: whether the path points at an
/// existing entity at the moment of the call.  Filesystem-dependent, so
/// nothing is promised of the result.
#[verifier::external_body]
pub fn path_exists(path: &str) -> bool {
    std::path::Path::new(path).exists()
}

/// Relies on `std::path::Path::is_dir`: whether the path points at an
/// existing directory at the moment of the call.  Filesystem-dependent, so
/// nothing is promised of the result.
#[verifier::external_body]
pub fn path_is_dir(path: &str) -> bool {
    std::path::Path::new(path).is_dir()
}

} // verus!
