//! File-system paths of model files.

use vstd::prelude::*;

verus! {

/// `std::path::PathBuf`, the path of a model file or directory.
#[verifier::external_type_specification]
#[verifier::external_body]
pub struct ExPathBuf(std::path::PathBuf);

/// The path that `Path::join` makes of a directory and a name.  It follows
/// the path rules of the platform the library is built for (separator,
/// an absolute name replacing the directory), and depends on nothing but
/// its two arguments.
pub uninterp spec fn joined_path(dir: std::path::PathBuf, name: Seq<char>) -> std::path::PathBuf;

/// `Path::join`: `name` adjoined to `dir`.  The contract claims only that
/// the result is the same for the same directory and name (`joined_path`);
/// the platform's joining rules are not written out.
#[verifier::external_body]
pub(crate) fn join_path(dir: &std::path::PathBuf, name: &str) -> (p: std::path::PathBuf)
    ensures
        p == joined_path(*dir, name@),
{
    dir.join(name)
}

/// `Path::exists`: whether something exists at `path` now.  It depends on
/// the file system, so nothing is stated of the result.
#[verifier::external_body]
pub(crate) fn path_exists(path: &std::path::PathBuf) -> (b: bool) {
    path.exists()
}

} // verus!
