//! The use case of terminating the processes behind one startup entry.

use vstd::prelude::*;
use crate::domain::repository::ProcessControl;
use crate::domain::repository::StartupRepository;
use crate::domain::validator::spec_is_blank;
use crate::domain::validator::StartupValidator;
use crate::infrastructure::process::ProcessManager;
use crate::shared::error::StartupError;

verus! {

/// Kills the processes associated with a startup entry: the entry's
/// registry value is resolved to an executable name, and every process of
/// that name is terminated.
pub struct KillProcessUseCase<'a, R: StartupRepository, P: ProcessControl> {
    repository: &'a R,
    processes: &'a P,
}

impl<'a, R: StartupRepository, P: ProcessControl> KillProcessUseCase<'a, R, P> {
    /// A use case backed by the given repository and process control.
    pub fn new(repository: &'a R, processes: &'a P) -> Self {
        KillProcessUseCase { repository, processes }
    }

    /// Validates the name, looks the entry up among the listed entries,
    /// resolves its executable name and kills by it, yielding the count
    /// of killed processes — zero when none was running. The name is
    /// rejected as invalid exactly when it is blank. Which entry is
    /// taken, and which of the library's errors a missing entry or an
    /// unresolvable registry value yields, is fixed by the contract of
    /// `ProcessManager::resolve_entry_executable`, which this use case
    /// applies to whatever the repository listed.
    pub fn execute(&self, name: &str) -> (r: Result<u32, StartupError>)
        ensures
            spec_is_blank(name@) ==> (r matches Err(e) && e is InvalidName),
            r matches Err(e) ==> match e {
                StartupError::InvalidName(_) => spec_is_blank(name@),
                StartupError::RegistryError(_) => !spec_is_blank(name@),
                _ => false,
            },
            r is Ok ==> !spec_is_blank(name@),
    {
        match StartupValidator::validate_name(name) {
            Err(e) => {
                return Err(e);
            },
            Ok(()) => {
            },
        }
        let entries = match self.repository.list() {
            Err(e) => {
                return Err(e);
            },
            Ok(v) => v,
        };
        let exe_name = match ProcessManager::resolve_entry_executable(&entries, name) {
            Err(e) => {
                return Err(e);
            },
            Ok(exe) => exe,
        };
        self.processes.kill_by_name(exe_name.as_str())
    }
}

} // verus!
