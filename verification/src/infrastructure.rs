pub mod process;

pub use process::ProcessInfo;
pub use process::ProcessManager;
