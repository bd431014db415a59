use vstd::prelude::*;
use vstd::string::StringExecFns;

verus! {

/// Errors surfaced by startup-entry management.
///
/// All of them are recoverable at the boundary: callers turn one into a
/// printed message and a non-zero exit code.
#[derive(Debug)]
pub enum StartupError {
    /// Path to an executable does not exist.
    PathNotFound(String),
    /// Working directory does not exist.
    DirectoryNotFound(String),
    /// Path exists but is not a directory.
    NotADirectory(String),
    /// Entry name is empty or whitespace-only.
    InvalidName(String),
    /// Entry not found in the registry.
    EntryNotFound(String),
    /// Registry access (or other external-collaborator) failure.
    RegistryError(String),
    /// Failure while writing an auxiliary file.
    IoError(String),
}

impl StartupError {
    /// The human-readable description of this error.
    pub open spec fn spec_message(&self) -> Seq<char> {
        match self {
            StartupError::PathNotFound(p) => "The specified path does not exist: "@ + p@,
            StartupError::DirectoryNotFound(d) => "The specified directory does not exist: "@ + d@,
            StartupError::NotADirectory(p) => "The specified path is not a directory: "@ + p@,
            StartupError::InvalidName(m) => "Invalid entry name: "@ + m@,
            StartupError::EntryNotFound(n) => "Entry '"@ + n@ + "' not found in startup registry"@,
            StartupError::RegistryError(m) => "Registry error: "@ + m@,
            StartupError::IoError(m) => "I/O error: "@ + m@,
        }
    }

    /// Renders the error for the console, one line per error.
    pub fn message(&self) -> (r: String)
        ensures
            r@ == self.spec_message(),
    {
        match self {
            StartupError::PathNotFound(p) => String::from_str(
                "The specified path does not exist: ",
            ).concat(p.as_str()),
            StartupError::DirectoryNotFound(d) => String::from_str(
                "The specified directory does not exist: ",
            ).concat(d.as_str()),
            StartupError::NotADirectory(p) => String::from_str(
                "The specified path is not a directory: ",
            ).concat(p.as_str()),
            StartupError::InvalidName(m) => String::from_str("Invalid entry name: ").concat(
                m.as_str(),
            ),
            StartupError::EntryNotFound(n) => String::from_str("Entry '").concat(n.as_str()).concat(
                "' not found in startup registry",
            ),
            StartupError::RegistryError(m) => String::from_str("Registry error: ").concat(
                m.as_str(),
            ),
            StartupError::IoError(m) => String::from_str("I/O error: ").concat(m.as_str()),
        }
    }
}

} // verus!
