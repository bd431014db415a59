pub mod add_command;
pub mod add_executable;
pub mod kill_all_processes;
pub mod kill_process;
pub mod list_entries;
pub mod remove_entry;

pub use add_command::AddCommandUseCase;
pub use add_executable::AddExecutableUseCase;
pub use kill_all_processes::KillAllProcessesUseCase;
pub use kill_process::KillProcessUseCase;
pub use list_entries::ListEntriesUseCase;
pub use remove_entry::RemoveEntryUseCase;
