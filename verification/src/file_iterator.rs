//! The path source: candidate file paths from a glob pattern.
//!
//! Pattern expansion yields a finite, forward-only stream of entries. Each
//! call to `next` consumes one entry and classifies it: a regular file's
//! path is handed out, any other match is skipped, and a per-entry fault is
//! reported in-band so the caller may log it and go on. A malformed pattern
//! is a fatal error before any entry is produced.

use vstd::prelude::*;

verus! {

#[verifier::external_type_specification]
#[verifier::external_body]
pub struct ExPaths(glob::Paths);

#[verifier::external_type_specification]
#[verifier::external_body]
pub struct ExGlobError(glob::GlobError);

#[verifier::external_type_specification]
#[verifier::external_body]
pub struct ExPatternError(glob::PatternError);

#[verifier::external_type_specification]
#[verifier::external_body]
pub struct ExPathBuf(std::path::PathBuf);

/// Whether a pattern is well-formed glob syntax. Pattern parsing is a
/// function of the pattern string alone; whether it parses is fixed by the
/// glob crate's grammar, which the library does not restate.
pub uninterp spec fn glob_pattern_wf(pattern: Seq<char>) -> bool;

/// Relies on glob::glob: expands the pattern into a path stream, and fails
/// exactly when the pattern itself is malformed — a property of the
/// pattern string alone — before producing any entry.
#[verifier::external_body]
fn glob_paths(pattern: &str) -> (r: Result<glob::Paths, glob::PatternError>)
    ensures
        r is Ok <==> glob_pattern_wf(pattern@),
{
    glob::glob(pattern)
}

/// Relies on glob::Paths::next (its Iterator implementation): one more
/// matched path, a per-entry fault, or the end of the stream.
#[verifier::external_body]
fn paths_next(paths: &mut glob::Paths) -> (r: Option<
    Result<std::path::PathBuf, glob::GlobError>,
>) {
    paths.next()
}

/// Relies on std::path::Path::is_file: whether the path names a regular
/// file on disk.
#[verifier::external_body]
fn path_is_file(path: &std::path::PathBuf) -> (r: bool) {
    path.is_file()
}

/// Relies on std::path::Path::to_string_lossy: the path as a string.
#[verifier::external_body]
fn path_to_string(path: &std::path::PathBuf) -> (r: String) {
    path.to_string_lossy().into_owned()
}

/// Relies on the Display implementation of glob::GlobError: the fault's
/// description.
#[verifier::external_body]
fn glob_error_message(err: &glob::GlobError) -> (r: String) {
    format!("{}", err)
}

/// Relies on the Display implementation of glob::PatternError: why the
/// pattern is malformed.
#[verifier::external_body]
fn pattern_error_message(err: &glob::PatternError) -> (r: String) {
    format!("{}", err)
}

/// One step of the path stream.
pub enum PathEntry {
    /// The next match is a regular file at this path.
    File(String),
    /// The next match is not a regular file (a directory, a special file):
    /// it is skipped, and the caller moves on to the next entry.
    Skipped,
    /// Reading the next entry failed; the caller may log the description
    /// and go on with the rest of the stream.
    Fault(String),
    /// The stream is exhausted.
    Exhausted,
}

/// A forward-only stream of candidate file paths matching a glob pattern.
/// It is consumed entry by entry, exactly once; it is not restartable.
pub struct FileIterator {
    entries: glob::Paths,
}

/// The classification rule for one matched path: a regular file's path is
/// handed out as an entry, any other match is silently skipped — never
/// yielded and never reported as an error.
pub fn classify_match(is_file: bool, path: String) -> (r: PathEntry)
    ensures
        is_file ==> r == PathEntry::File(path),
        !is_file ==> r == PathEntry::Skipped,
{
    if is_file {
        PathEntry::File(path)
    } else {
        PathEntry::Skipped
    }
}

impl FileIterator {
    /// Expands a glob pattern into a path stream. Fails, with a
    /// description, exactly when the pattern itself is malformed; no entry
    /// has been produced then.
    pub fn new(pattern: &str) -> (r: Result<FileIterator, String>)
        ensures
            r is Ok <==> glob_pattern_wf(pattern@),
    {
        match glob_paths(pattern) {
            Ok(paths) => Ok(FileIterator { entries: paths }),
            Err(e) => Err(pattern_error_message(&e)),
        }
    }

    /// Consumes and classifies the next entry of the stream: a regular
    /// file's path, a skipped non-file match (as `classify_match` rules on
    /// what the disk reports), an in-band fault, or the end of the stream.
    /// Callers iterate until `Exhausted`, passing over `Skipped` entries
    /// silently.
    pub fn next(&mut self) -> (r: PathEntry) {
        match paths_next(&mut self.entries) {
            None => PathEntry::Exhausted,
            Some(Err(e)) => PathEntry::Fault(glob_error_message(&e)),
            Some(Ok(path)) => {
                let is_file = path_is_file(&path);
                classify_match(is_file, path_to_string(&path))
            },
        }
    }
}

} // verus!
