//! Validation of the destination directory handed in on the command line.

use vstd::prelude::*;

verus! {

/// Why a destination directory was rejected.
#[derive(Debug, PartialEq, Eq, Structural, Clone, Copy)]
pub enum DirError {
    /// The path does not exist on disk, or exists but is not a directory.
    NotADirectory,
}

/// Relies on std::path::Path::exists: whether anything exists at the path.
#[verifier::external_body]
fn path_exists(path: &str) -> (r: bool) {
    std::path::Path::new(path).exists()
}

/// Relies on std::path::Path::is_dir: whether the path names a directory.
#[verifier::external_body]
fn path_is_dir(path: &str) -> (r: bool) {
    std::path::Path::new(path).is_dir()
}

/// The acceptance rule for a destination directory: it must exist and be a
/// directory; anything else is rejected.
pub fn dir_status(exists: bool, is_dir: bool) -> (r: Result<(), DirError>)
    ensures
        r is Ok <==> exists && is_dir,
        !(exists && is_dir) ==> r == Result::<(), DirError>::Err(DirError::NotADirectory),
{
    if exists && is_dir {
        Ok(())
    } else {
        Err(DirError::NotADirectory)
    }
}

/// Checks that the path names an existing directory, as `dir_status` rules
/// on what the disk reports; whether `Ok` comes depends on the state of
/// the disk, and a rejection is always `NotADirectory`.
pub fn validate_dir(path: &str) -> (r: Result<(), DirError>)
    ensures
        r is Err ==> r == Result::<(), DirError>::Err(DirError::NotADirectory),
{
    let exists = path_exists(path);
    let is_dir = path_is_dir(path);
    dir_status(exists, is_dir)
}

} // verus!
