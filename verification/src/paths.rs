//! Paths in the file system, as far as the library touches them.
//!
//! A path is carried through as it is given; the library never reads what
//! it holds but asks whether a file is there.

use std::path::PathBuf;
use vstd::prelude::*;

verus! {

/// `std::path::PathBuf`, carried through as it comes.
#[verifier::external_type_specification]
#[verifier::external_body]
pub struct ExPathBuf(PathBuf);

/// Asks the file system with `std::path::Path::exists` whether `path`
/// leads to something. The answer depends on what is on disk at the moment
/// of the call, so nothing is claimed of it.
#[verifier::external_body]
pub(crate) fn path_exists(path: &PathBuf) -> (found: bool) {
    path.exists()
}

/// The text that `std::fmt::Debug` gives for `path`: the path in double
/// quotes, with what cannot be printed escaped.
#[verifier::external_body]
pub(crate) fn path_debug_text(path: &PathBuf) -> (text: String) {
    format!("{:?}", path)
}

} // verus!
