//! The structural probe: a cheap filesystem heuristic that filters out paths
//! that are plainly not repositories before an external process is spawned.

use vstd::prelude::*;
use vstd::string::StringExecFns;
use crate::errors::JJError;
use crate::sys::{path_exists, path_is_dir};
use crate::validate::CanonicalPath;

verus! {

/// Probe a validated path for the jj repository layout.
///
/// The `.jj` metadata entry must exist directly under the path and be a
/// directory; when `require_store` is set, the nested `repo/store` entry must
/// also exist inside it.  The probe reads the filesystem, so which outcome
/// occurs is not pinned, but every failure is classified: a missing metadata
/// directory is `NotARepository`, a missing store (checked only when
/// required) is `MalformedRepositoryStructure`, and nothing else is ever
/// reported.
pub fn probe_repo_structure(repo: &CanonicalPath, require_store: bool) -> (r: Result<
    (),
    JJError,
>)
    ensures
        r matches Err(e) ==> e == JJError::NotARepository || (require_store && e
            == JJError::MalformedRepositoryStructure),
{
    let mut jj_dir = String::from_str(repo.as_str());
    jj_dir.append("/.jj");
    let present = path_exists(jj_dir.as_str());
    let dir = path_is_dir(jj_dir.as_str());
    if !present || !dir {
        return Err(JJError::NotARepository);
    }
    if require_store {
        let mut store = jj_dir;
        store.append("/repo/store");
        if !path_exists(store.as_str()) {
            return Err(JJError::MalformedRepositoryStructure);
        }
    }
    Ok(())
}

} // verus!
