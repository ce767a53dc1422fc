//! The resolved command-line options record and path display helpers.

use vstd::prelude::*;
use vstd::string::*;

use crate::commands::opt_str_view;

verus! {

/// The caller-supplied options, resolved by the argument layer outside
/// the library.
pub struct CliArgs {
    pub file_path: Option<String>,
    pub command: Option<String>,
    pub args: Vec<String>,
    pub keep_tmp: bool,
    pub watch_path: Option<String>,
}

/// Relies on `std::path::Path::canonicalize` to resolve the path against
/// the filesystem.  The result depends on the state of the disk, so
/// nothing is assumed of it beyond that resolution may fail.
#[verifier::external_body]
fn canonical_of(path: &str) -> (r: Option<String>) {
    match std::path::Path::new(path).canonicalize() {
        Ok(p) => Some(p.to_string_lossy().into_owned()),
        Err(_) => None,
    }
}

/// The display form of a path for a given canonicalization outcome: the
/// canonical form when resolution produced one, the path as written
/// otherwise.
pub open spec fn full_path_spec(path: Seq<char>, canonical: Option<Seq<char>>) -> Seq<char> {
    match canonical {
        Some(c) => c,
        None => path,
    }
}

/// Chooses the display form of a path from a canonicalization outcome.
pub fn full_path_or(path: &String, canonical: Option<String>) -> (r: String)
    ensures
        r@ == full_path_spec(path@, opt_str_view(canonical)),
{
    match canonical {
        Some(c) => c,
        None => path.clone(),
    }
}

/// The display form of a path: its canonical form when the filesystem
/// resolves it, the path as written otherwise.  The canonical form
/// depends on the disk, so no more is promised of the result; the
/// choice between the two is `full_path_or`.
pub fn full_path(path: &String) -> (r: String) {
    let canonical = canonical_of(path.as_str());
    full_path_or(path, canonical)
}

} // verus!
