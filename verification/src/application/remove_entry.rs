//! The use case of removing a startup entry.

use vstd::prelude::*;
use crate::domain::repository::StartupRepository;
use crate::domain::validator::spec_is_blank;
use crate::domain::validator::StartupValidator;
use crate::shared::error::StartupError;

verus! {

/// Removes a startup entry by name.
pub struct RemoveEntryUseCase<'a, R: StartupRepository> {
    repository: &'a R,
}

impl<'a, R: StartupRepository> RemoveEntryUseCase<'a, R> {
    /// A use case backed by the given repository.
    pub fn new(repository: &'a R) -> Self {
        RemoveEntryUseCase { repository }
    }

    /// Validates the name, then removes the entry. The name is rejected
    /// as invalid exactly when it is blank; everything else that can go
    /// wrong is a registry-access failure.
    pub fn execute(&self, name: &str) -> (r: Result<(), StartupError>)
        ensures
            spec_is_blank(name@) ==> (r matches Err(e) && e is InvalidName),
            r matches Err(e) ==> match e {
                StartupError::InvalidName(_) => spec_is_blank(name@),
                StartupError::RegistryError(_) => !spec_is_blank(name@),
                _ => false,
            },
            r is Ok ==> !spec_is_blank(name@),
    {
        match StartupValidator::validate_name(name) {
            Err(e) => {
                return Err(e);
            },
            Ok(()) => {
            },
        }
        self.repository.remove(name)
    }
}

} // verus!
