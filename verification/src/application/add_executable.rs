//! The use case of adding a bare executable to the startup list.

use vstd::prelude::*;
use crate::domain::models::StartupEntry;
use crate::domain::repository::StartupRepository;
use crate::domain::validator::spec_is_blank;
use crate::domain::validator::StartupValidator;
use crate::shared::error::StartupError;

verus! {

/// Adds an executable path to startup: the path itself, unchanged, becomes
/// the registry value.
pub struct AddExecutableUseCase<'a, R: StartupRepository> {
    repository: &'a R,
}

impl<'a, R: StartupRepository> AddExecutableUseCase<'a, R> {
    /// A use case backed by the given repository.
    pub fn new(repository: &'a R) -> Self {
        AddExecutableUseCase { repository }
    }

    /// Validates the name and the path, then stores the entry. The name
    /// is rejected as invalid exactly when it is blank; a missing path is
    /// reported as path-not-found; everything else that can go wrong is a
    /// registry-access failure.
    pub fn execute(&self, name: &str, path: &str) -> (r: Result<(), StartupError>)
        ensures
            spec_is_blank(name@) ==> (r matches Err(e) && e is InvalidName),
            r matches Err(e) ==> match e {
                StartupError::InvalidName(_) => spec_is_blank(name@),
                StartupError::PathNotFound(p) => !spec_is_blank(name@) && p@ == path@,
                StartupError::RegistryError(_) => !spec_is_blank(name@),
                _ => false,
            },
            r is Ok ==> !spec_is_blank(name@),
    {
        match StartupValidator::validate_name(name) {
            Err(e) => {
                return Err(e);
            },
            Ok(()) => {
            },
        }
        match StartupValidator::validate_path(path) {
            Err(e) => {
                return Err(e);
            },
            Ok(()) => {
            },
        }
        let entry = StartupEntry::new(name, path);
        self.repository.add(&entry)
    }
}

} // verus!
