//! Path validation: the security gate in front of every filesystem access.

use vstd::prelude::*;
use crate::errors::JJError;
use crate::sys::{canonicalize_path, chars_of, path_exists, path_is_dir};
use crate::text::{contains_pattern, has_pattern};

verus! {

/// The parent-directory sequence of the deny list.
pub open spec fn dotdot() -> Seq<char> {
    seq!['.', '.']
}

/// The home-directory shorthand of the deny list.
pub open spec fn tilde() -> Seq<char> {
    seq!['~']
}

/// A path the deny list refuses: `..` or `~` anywhere in the text, checked
/// before any resolution against the filesystem.
pub open spec fn has_unsafe_pattern(s: Seq<char>) -> bool {
    has_pattern(s, dotdot()) || has_pattern(s, tilde())
}

/// A Unicode control character (the `Cc` category).
pub open spec fn is_control(c: char) -> bool {
    (c as u32) <= 0x1F || (0x7F <= (c as u32) && (c as u32) <= 0x9F)
}

/// A character no path may carry: a control character other than newline,
/// carriage return and tab.  The null byte is among these.
pub open spec fn is_forbidden_char(c: char) -> bool {
    is_control(c) && (c as u32) != 0x0A && (c as u32) != 0x0D && (c as u32) != 0x09
}

/// Some character of `s` is forbidden.
pub open spec fn has_forbidden_char(s: Seq<char>) -> bool {
    exists|i: int| 0 <= i < s.len() && is_forbidden_char(s[i])
}

/// The textual, filesystem-free part of validation: non-empty, nothing
/// deny-listed, no forbidden character.
pub open spec fn path_text_ok(s: Seq<char>) -> bool {
    s.len() > 0 && !has_unsafe_pattern(s) && !has_forbidden_char(s)
}

/// An absolute, symlink-resolved path that existed and was a directory at the
/// moment validation ran: a point-in-time guarantee, owned by the single call
/// that produced it.
#[derive(Debug)]
pub struct CanonicalPath {
    canon: String,
}

impl View for CanonicalPath {
    type V = Seq<char>;

    closed spec fn view(&self) -> Seq<char> {
        self.canon@
    }
}

impl CanonicalPath {
    /// The canonical path as text, e.g. to become a child process's working
    /// directory.
    pub fn as_str(&self) -> (r: &str)
        ensures
            r@ == self@,
    {
        self.canon.as_str()
    }
}

/// Scan for a forbidden character.
fn find_forbidden(s: &Vec<char>) -> (r: bool)
    ensures
        r == has_forbidden_char(s@),
{
    let n = s.len();
    let mut i: usize = 0;
    while i < n
        invariant
            n == s@.len(),
            i <= n,
            forall|k: int| 0 <= k < i ==> !is_forbidden_char(s@[k]),
        decreases n - i,
    {
        let c = s[i];
        let u = c as u32;
        if (u <= 0x1F || (0x7F <= u && u <= 0x9F)) && u != 0x0A && u != 0x0D && u != 0x09 {
            proof {
                assert(is_forbidden_char(s@[i as int]));
            }
            return true;
        }
        i += 1;
    }
    proof {
        assert(!has_forbidden_char(s@)) by {
            if has_forbidden_char(s@) {
                let k = choose|k: int| 0 <= k < s@.len() && is_forbidden_char(s@[k]);
                assert(!is_forbidden_char(s@[k]));
            }
        }
    }
    false
}

/// Validate and canonicalize a user-supplied repository path.
///
/// The textual checks come first, in a fixed order, each with its own error:
/// an empty path is `EmptyPath`; a path holding `..` or `~` is
/// `UnsafePattern`, refused before any filesystem access; a forbidden control
/// character is `InvalidCharacters`.  Only a path that passes all three is
/// handed to the filesystem: it is resolved to its canonical form
/// (`InvalidOrInaccessible` when that fails), and the result must exist
/// (`PathNotFound`) and be a directory (`NotADirectory`).  No other error is
/// ever returned.
pub fn validate_and_canonicalize_path(path: &str) -> (r: Result<CanonicalPath, JJError>)
    ensures
        path@.len() == 0 ==> r == Err::<CanonicalPath, JJError>(JJError::EmptyPath),
        path@.len() > 0 && has_unsafe_pattern(path@) ==> r == Err::<CanonicalPath, JJError>(
            JJError::UnsafePattern,
        ),
        path@.len() > 0 && !has_unsafe_pattern(path@) && has_forbidden_char(path@) ==> r
            == Err::<CanonicalPath, JJError>(JJError::InvalidCharacters),
        r is Ok ==> path_text_ok(path@),
        path_text_ok(path@) ==> r is Ok || r == Err::<CanonicalPath, JJError>(
            JJError::InvalidOrInaccessible,
        ) || r == Err::<CanonicalPath, JJError>(JJError::PathNotFound) || r == Err::<
            CanonicalPath,
            JJError,
        >(JJError::NotADirectory),
{
    let chars = chars_of(path);
    if chars.len() == 0 {
        return Err(JJError::EmptyPath);
    }
    let dd: Vec<char> = vec!['.', '.'];
    let td: Vec<char> = vec!['~'];
    proof {
        assert(dd@ =~= dotdot());
        assert(td@ =~= tilde());
    }
    if contains_pattern(&chars, &dd) || contains_pattern(&chars, &td) {
        return Err(JJError::UnsafePattern);
    }
    if find_forbidden(&chars) {
        return Err(JJError::InvalidCharacters);
    }
    match canonicalize_path(path) {
        None => Err(JJError::InvalidOrInaccessible),
        Some(canon) => {
            if !path_exists(canon.as_str()) {
                Err(JJError::PathNotFound)
            } else if !path_is_dir(canon.as_str()) {
                Err(JJError::NotADirectory)
            } else {
                Ok(CanonicalPath { canon })
            }
        },
    }
}

} // verus!
