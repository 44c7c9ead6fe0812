//! Directories as the user writes them.

use vstd::prelude::*;
use crate::outside::{expands_to, full, tilde};

verus! {

/// The directory `path` with the variables it names replaced by their
/// values and a tilde at its start replaced by the home directory of the
/// current user. Where a variable is not set, only the tilde is replaced. A
/// path without a dollar sign that begins with no tilde comes back
/// unchanged; one that begins with a tilde keeps what follows it.
pub fn expand_path(path: &str) -> (out: String)
    ensures
        expands_to(path@, out@),
{
    match full(path) {
        Some(out) => out,
        None => tilde(path),
    }
}

} // verus!
