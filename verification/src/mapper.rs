//! Translation between canonical ("map") paths and real filesystem paths.
//!
//! The engine consumes this mapping as a pure function pair. The real-path to
//! canonical-path direction needs the filesystem (it canonicalizes what
//! exists), so it lives with the caller; the canonical-path to real-path
//! direction is the identity today.

use vstd::prelude::*;

use crate::Error;

verus! {

/// Translates a canonical map path back to the real path a pull restores to.
/// The mapping is the identity today.
pub fn map_to_real_path(path: &String) -> (r: Result<String, Error>)
    ensures
        r matches Ok(p) && p@ == path@,
{
    Ok(path.clone())
}

} // verus!
