//! The use case of adding a command with arguments to the startup list,
//! wrapped according to the chosen execution mode.

use vstd::prelude::*;
use crate::domain::models::ExecutionMode;
use crate::domain::models::StartupCommand;
use crate::domain::models::StartupEntry;
use crate::domain::repository::ScriptStore;
use crate::domain::repository::StartupRepository;
use crate::domain::validator::spec_is_blank;
use crate::domain::validator::StartupValidator;
use crate::shared::error::StartupError;

verus! {

/// Adds a command with arguments to startup. The command is encoded for
/// the chosen mode; in VBScript mode the auxiliary launcher script is
/// written through the script store before the entry is committed.
pub struct AddCommandUseCase<'a, R: StartupRepository, S: ScriptStore> {
    repository: &'a R,
    scripts: &'a S,
}

impl<'a, R: StartupRepository, S: ScriptStore> AddCommandUseCase<'a, R, S> {
    /// A use case backed by the given repository and script store.
    pub fn new(repository: &'a R, scripts: &'a S) -> Self {
        AddCommandUseCase { repository, scripts }
    }

    /// Validates the name and, when given, the working directory; writes
    /// the launcher script for VBScript mode; then stores the encoded
    /// entry. The name is rejected as invalid exactly when it is blank;
    /// a rejected working directory is named in the error; an I/O error
    /// can only come from writing the launcher script.
    pub fn execute(
        &self,
        name: &str,
        command: &str,
        args: Vec<String>,
        workdir: Option<&str>,
        mode: ExecutionMode,
    ) -> (r: Result<(), StartupError>)
        ensures
            spec_is_blank(name@) ==> (r matches Err(e) && e is InvalidName),
            r matches Err(e) ==> match e {
                StartupError::InvalidName(_) => spec_is_blank(name@),
                StartupError::DirectoryNotFound(d) => !spec_is_blank(name@) && (workdir matches Some(
                    w,
                ) && d@ == w@),
                StartupError::NotADirectory(d) => !spec_is_blank(name@) && (workdir matches Some(w)
                    && d@ == w@),
                StartupError::RegistryError(_) => !spec_is_blank(name@),
                StartupError::IoError(_) => !spec_is_blank(name@) && mode
                    == ExecutionMode::VBScript,
                _ => false,
            },
            r is Ok ==> !spec_is_blank(name@),
    {
        match StartupValidator::validate_name(name) {
            Err(e) => {
                return Err(e);
            },
            Ok(()) => {
            },
        }
        match workdir {
            Some(dir) => {
                match StartupValidator::validate_directory(dir) {
                    Err(e) => {
                        return Err(e);
                    },
                    Ok(()) => {
                    },
                }
            },
            None => {
            },
        }
        let owned_workdir = match workdir {
            Some(dir) => Some(dir.to_owned()),
            None => None,
        };
        let startup_command = StartupCommand::CommandWithArgs {
            command: command.to_owned(),
            args,
            workdir: owned_workdir,
            mode,
        };
        if mode == ExecutionMode::VBScript {
            match startup_command.get_vbscript_content() {
                Some(script) => {
                    match self.scripts.write_script(script.0.as_str(), script.1.as_str()) {
                        Err(e) => {
                            return Err(e);
                        },
                        Ok(()) => {
                        },
                    }
                },
                None => {
                },
            }
        }
        let registry_value = startup_command.to_registry_value();
        let entry = StartupEntry::new(name, registry_value.as_str());
        self.repository.add(&entry)
    }
}

} // verus!
