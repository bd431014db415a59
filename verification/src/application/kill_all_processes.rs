//! The use case of terminating the processes behind every startup entry.

use vstd::prelude::*;
use crate::domain::repository::ProcessControl;
use crate::domain::repository::StartupRepository;
use crate::infrastructure::process::lemma_resolved_names_distinct;
use crate::infrastructure::process::ProcessManager;
use crate::shared::error::StartupError;

verus! {

/// Kills the processes associated with all startup entries: each entry's
/// registry value is resolved to an executable name, duplicates are
/// dropped, and every name is killed independently.
pub struct KillAllProcessesUseCase<'a, R: StartupRepository, P: ProcessControl> {
    repository: &'a R,
    processes: &'a P,
}

impl<'a, R: StartupRepository, P: ProcessControl> KillAllProcessesUseCase<'a, R, P> {
    /// A use case backed by the given repository and process control.
    pub fn new(repository: &'a R, processes: &'a P) -> Self {
        KillAllProcessesUseCase { repository, processes }
    }

    /// Resolves every listed entry to an executable name, kills each
    /// distinct name once, and reports the per-name counts. Which names
    /// are killed — the distinct resolvable names of the listed entries,
    /// each once, in first-occurrence order — is fixed by the contract
    /// of `ProcessManager::resolved_executable_names`, which this use
    /// case applies to whatever the repository listed. A name whose kill
    /// fails is skipped, not fatal; a name with a zero count — nothing
    /// was running — is left out of the report. The reported names are
    /// pairwise distinct and every reported count is positive; only
    /// listing the entries can fail, as a registry-access error.
    pub fn execute(&self) -> (r: Result<Vec<(String, u32)>, StartupError>)
        ensures
            r matches Err(e) ==> e is RegistryError,
            r matches Ok(res) ==> forall|i: int| 0 <= i < res@.len() ==> (#[trigger] res@[i]).1 > 0,
            r matches Ok(res) ==> forall|i: int, j: int|
                0 <= i < j < res@.len() ==> (#[trigger] res@[i]).0@ != (#[trigger] res@[j]).0@,
    {
        let entries = match self.repository.list() {
            Err(e) => {
                return Err(e);
            },
            Ok(v) => v,
        };
        let exe_names = ProcessManager::resolved_executable_names(&entries);
        proof {
            assert forall|a: int, b: int|
                0 <= a < b < exe_names@.len() implies (#[trigger] exe_names@[a])@
                != (#[trigger] exe_names@[b])@ by {
                lemma_resolved_names_distinct(entries.deep_view(), a, b);
                assert(exe_names.deep_view()[a] == exe_names@[a]@);
                assert(exe_names.deep_view()[b] == exe_names@[b]@);
            }
        }
        let mut results: Vec<(String, u32)> = Vec::new();
        let mut k: usize = 0;
        while k < exe_names.len()
            invariant
                k <= exe_names@.len(),
                forall|a: int, b: int|
                    0 <= a < b < exe_names@.len() ==> (#[trigger] exe_names@[a])@
                        != (#[trigger] exe_names@[b])@,
                forall|a: int| 0 <= a < results@.len() ==> (#[trigger] results@[a]).1 > 0,
                forall|a: int|
                    0 <= a < results@.len() ==> exists|m: int|
                        0 <= m < k && (#[trigger] results@[a]).0@ == exe_names@[m]@,
                forall|a: int, b: int|
                    0 <= a < b < results@.len() ==> (#[trigger] results@[a]).0@
                        != (#[trigger] results@[b]).0@,
            decreases exe_names@.len() - k,
        {
            match self.processes.kill_by_name(exe_names[k].as_str()) {
                Ok(count) => {
                    if count > 0 {
                        let ghost old_results = results@;
                        proof {
                            assert forall|a: int| 0 <= a < old_results.len() implies (
                            #[trigger] old_results[a]).0@ != exe_names@[k as int]@ by {
                                let m = choose|m: int|
                                    0 <= m < k && old_results[a].0@ == exe_names@[m]@;
                                assert(exe_names@[m]@ != exe_names@[k as int]@);
                            }
                        }
                        results.push((exe_names[k].clone(), count));
                    }
                },
                Err(_) => {
                },
            }
            k = k + 1;
        }
        Ok(results)
    }
}

} // verus!
