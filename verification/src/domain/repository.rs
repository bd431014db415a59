//! The interfaces the core needs from its external collaborators: registry
//! persistence, auxiliary-script storage, and process termination. Each
//! failure surfaces as an error carrying a human-readable cause.

use vstd::prelude::*;
use crate::domain::models::StartupEntry;
use crate::shared::error::StartupError;

verus! {

/// Persistence of startup entries, keyed by name.
pub trait StartupRepository {
    /// Adds a startup entry, replacing any entry of the same name. A
    /// failure surfaces as a registry-access error.
    fn add(&self, entry: &StartupEntry) -> (r: Result<(), StartupError>)
        ensures
            r matches Err(e) ==> e is RegistryError,
    ;

    /// Removes the startup entry of the given name. A failure — also for a
    /// name with no entry — surfaces as a registry-access error.
    fn remove(&self, name: &str) -> (r: Result<(), StartupError>)
        ensures
            r matches Err(e) ==> e is RegistryError,
    ;

    /// Lists all startup entries, in no guaranteed order. A failure
    /// surfaces as a registry-access error.
    fn list(&self) -> (r: Result<Vec<StartupEntry>, StartupError>)
        ensures
            r matches Err(e) ==> e is RegistryError,
    ;

    /// Whether an entry of the given name exists. A failure surfaces as a
    /// registry-access error.
    fn has_entry(&self, name: &str) -> (r: Result<bool, StartupError>)
        ensures
            r matches Err(e) ==> e is RegistryError,
    ;
}

/// Storage of auxiliary launcher scripts in the fixed per-user folder.
pub trait ScriptStore {
    /// Ensures the per-user script folder exists and writes the named
    /// script into it. An unresolvable per-user root surfaces as a
    /// registry-access error; a write failure as an I/O error.
    fn write_script(&self, filename: &str, content: &str) -> (r: Result<(), StartupError>)
        ensures
            r matches Err(e) ==> (e is RegistryError || e is IoError),
    ;
}

/// Termination of running processes.
pub trait ProcessControl {
    /// Kills every process whose executable name matches, yielding the
    /// count of killed processes: zero — not an error — when no process
    /// matches. A failure surfaces as a registry-access error.
    fn kill_by_name(&self, exe_name: &str) -> (r: Result<u32, StartupError>)
        ensures
            r matches Err(e) ==> e is RegistryError,
    ;
}

} // verus!
