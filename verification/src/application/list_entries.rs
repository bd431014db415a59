//! The use case of listing all startup entries.

use vstd::prelude::*;
use crate::domain::models::StartupEntry;
use crate::domain::repository::StartupRepository;
use crate::shared::error::StartupError;

verus! {

/// Lists the startup entries the repository holds.
pub struct ListEntriesUseCase<'a, R: StartupRepository> {
    repository: &'a R,
}

impl<'a, R: StartupRepository> ListEntriesUseCase<'a, R> {
    /// A use case backed by the given repository.
    pub fn new(repository: &'a R) -> Self {
        ListEntriesUseCase { repository }
    }

    /// The entries as the repository reports them; a failure is a
    /// registry-access error.
    pub fn execute(&self) -> (r: Result<Vec<StartupEntry>, StartupError>)
        ensures
            r matches Err(e) ==> e is RegistryError,
    {
        self.repository.list()
    }
}

} // verus!
