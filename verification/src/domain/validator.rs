//! Validation of startup-related inputs, performed before any mutation is
//! attempted.

use vstd::prelude::*;
use vstd::string::StringExecFns;
use crate::shared::error::StartupError;
use crate::shared::text::is_space;
use crate::shared::text::is_space_char;
use crate::shared::text::to_chars;

verus! {

/// Every character of `s` is whitespace — vacuously true of the empty
/// string. Names like this are rejected.
pub open spec fn spec_is_blank(s: Seq<char>) -> bool {
    forall|i: int| 0 <= i < s.len() ==> is_space_char(s[i])
}

/// Validates startup-related inputs.
pub struct StartupValidator;

/// Relies on `std::path::Path::exists`: whether the path points at an
/// existing filesystem entity. The answer depends on what is on disk, so
/// nothing is assumed of it.
#[verifier::external_body]
fn probe_path_exists(path: &str) -> bool {
    std::path::Path::new(path).exists()
}

/// Relies on `std::path::Path::is_dir`: whether the path points at an
/// existing directory. The answer depends on what is on disk, so nothing
/// is assumed of it.
#[verifier::external_body]
fn probe_path_is_dir(path: &str) -> bool {
    std::path::Path::new(path).is_dir()
}

impl StartupValidator {
    /// The verdict on a path-existence probe: accepted exactly when the
    /// probe found the path.
    pub fn path_verdict(path: &str, present: bool) -> (r: Result<(), StartupError>)
        ensures
            present ==> r is Ok,
            !present ==> (r matches Err(StartupError::PathNotFound(p)) && p@ == path@),
    {
        if present {
            Ok(())
        } else {
            Err(StartupError::PathNotFound(path.to_owned()))
        }
    }

    /// The verdict on a directory probe: accepted exactly when the path
    /// exists and is a directory, with the two failures told apart.
    pub fn directory_verdict(dir: &str, present: bool, is_dir: bool) -> (r: Result<
        (),
        StartupError,
    >)
        ensures
            present && is_dir ==> r is Ok,
            !present ==> (r matches Err(StartupError::DirectoryNotFound(d)) && d@ == dir@),
            present && !is_dir ==> (r matches Err(StartupError::NotADirectory(d)) && d@ == dir@),
    {
        if !present {
            Err(StartupError::DirectoryNotFound(dir.to_owned()))
        } else if !is_dir {
            Err(StartupError::NotADirectory(dir.to_owned()))
        } else {
            Ok(())
        }
    }

    /// Validates that a file path exists on disk. Which way the probe
    /// answers depends on the filesystem; whatever it answers, a rejection
    /// is a path-not-found error naming this path.
    pub fn validate_path(path: &str) -> (r: Result<(), StartupError>)
        ensures
            r matches Err(e) ==> (e matches StartupError::PathNotFound(p) && p@ == path@),
    {
        let present = probe_path_exists(path);
        Self::path_verdict(path, present)
    }

    /// Validates that a directory exists on disk. Whatever the probes
    /// answer, a rejection names this directory, as directory-not-found or
    /// as not-a-directory.
    pub fn validate_directory(dir: &str) -> (r: Result<(), StartupError>)
        ensures
            r matches Err(e) ==> match e {
                StartupError::DirectoryNotFound(d) => d@ == dir@,
                StartupError::NotADirectory(d) => d@ == dir@,
                _ => false,
            },
    {
        let present = probe_path_exists(dir);
        let is_dir = probe_path_is_dir(dir);
        Self::directory_verdict(dir, present, is_dir)
    }

    /// Validates that an entry name is not empty and not whitespace-only;
    /// any other name — of whatever script — is accepted.
    pub fn validate_name(name: &str) -> (r: Result<(), StartupError>)
        ensures
            spec_is_blank(name@) ==> (r matches Err(StartupError::InvalidName(m)) && m@
                == "Entry name cannot be empty"@),
            !spec_is_blank(name@) ==> r is Ok,
    {
        let cs = to_chars(name);
        let mut i: usize = 0;
        while i < cs.len()
            invariant
                i <= cs@.len(),
                cs@ == name@,
                forall|k: int| 0 <= k < i ==> is_space_char(cs@[k]),
            decreases cs@.len() - i,
        {
            if !is_space(cs[i]) {
                proof {
                    assert(!is_space_char(name@[i as int]));
                }
                return Ok(());
            }
            i = i + 1;
        }
        Err(StartupError::InvalidName(String::from_str("Entry name cannot be empty")))
    }
}

} // verus!
