use std::cell::RefCell;
use std::collections::HashMap;

use windows_startup_manager::application::AddCommandUseCase;
use windows_startup_manager::application::AddExecutableUseCase;
use windows_startup_manager::application::KillAllProcessesUseCase;
use windows_startup_manager::application::KillProcessUseCase;
use windows_startup_manager::application::ListEntriesUseCase;
use windows_startup_manager::application::RemoveEntryUseCase;
use windows_startup_manager::domain::ExecutionMode;
use windows_startup_manager::domain::ProcessControl;
use windows_startup_manager::domain::ScriptStore;
use windows_startup_manager::domain::StartupEntry;
use windows_startup_manager::domain::StartupRepository;
use windows_startup_manager::shared::error::StartupError;

// Mock repository for testing
struct MockRepository {
    entries: RefCell<HashMap<String, String>>,
}

impl MockRepository {
    fn new() -> Self {
        Self {
            entries: RefCell::new(HashMap::new()),
        }
    }

    fn with_entries(entries: Vec<(&str, &str)>) -> Self {
        let mut map = HashMap::new();
        for (name, command) in entries {
            map.insert(name.to_string(), command.to_string());
        }
        Self {
            entries: RefCell::new(map),
        }
    }
}

impl StartupRepository for MockRepository {
    fn add(&self, entry: &StartupEntry) -> Result<(), StartupError> {
        self.entries
            .borrow_mut()
            .insert(entry.name.clone(), entry.command.clone());
        Ok(())
    }

    fn remove(&self, name: &str) -> Result<(), StartupError> {
        if self.entries.borrow_mut().remove(name).is_some() {
            Ok(())
        } else {
            Err(StartupError::RegistryError(format!(
                "Entry '{}' not found",
                name
            )))
        }
    }

    fn list(&self) -> Result<Vec<StartupEntry>, StartupError> {
        Ok(self
            .entries
            .borrow()
            .iter()
            .map(|(name, command)| StartupEntry::new(name, command))
            .collect())
    }

    fn has_entry(&self, name: &str) -> Result<bool, StartupError> {
        Ok(self.entries.borrow().contains_key(name))
    }
}

// Mock script store that records what would be written to disk
struct MockScriptStore {
    scripts: RefCell<Vec<(String, String)>>,
    fail: bool,
}

impl MockScriptStore {
    fn new() -> Self {
        Self {
            scripts: RefCell::new(Vec::new()),
            fail: false,
        }
    }

    fn failing() -> Self {
        Self {
            scripts: RefCell::new(Vec::new()),
            fail: true,
        }
    }
}

impl ScriptStore for MockScriptStore {
    fn write_script(&self, filename: &str, content: &str) -> Result<(), StartupError> {
        if self.fail {
            return Err(StartupError::IoError("write failed".to_string()));
        }
        self.scripts
            .borrow_mut()
            .push((filename.to_string(), content.to_string()));
        Ok(())
    }
}

// Mock process control with a fixed count per executable name
struct MockProcessControl {
    counts: HashMap<String, u32>,
    failing_names: Vec<String>,
    killed: RefCell<Vec<String>>,
}

impl MockProcessControl {
    fn new(counts: Vec<(&str, u32)>) -> Self {
        Self {
            counts: counts
                .into_iter()
                .map(|(n, c)| (n.to_string(), c))
                .collect(),
            failing_names: Vec::new(),
            killed: RefCell::new(Vec::new()),
        }
    }

    fn with_failures(mut self, names: Vec<&str>) -> Self {
        self.failing_names = names.into_iter().map(|n| n.to_string()).collect();
        self
    }
}

impl ProcessControl for MockProcessControl {
    fn kill_by_name(&self, exe_name: &str) -> Result<u32, StartupError> {
        if self.failing_names.iter().any(|n| n == exe_name) {
            return Err(StartupError::RegistryError(format!(
                "Failed to kill processes {}: denied",
                exe_name
            )));
        }
        self.killed.borrow_mut().push(exe_name.to_string());
        Ok(*self.counts.get(exe_name).unwrap_or(&0))
    }
}

#[test]
fn test_add_executable_nonexistent_path() {
    let repo = MockRepository::new();
    let use_case = AddExecutableUseCase::new(&repo);

    let result = use_case.execute("TestApp", "C:\\nonexistent\\app.exe");

    assert!(result.is_err());
    assert!(matches!(result.unwrap_err(), StartupError::PathNotFound(_)));
}

#[test]
fn test_add_executable_empty_name() {
    let repo = MockRepository::new();
    let use_case = AddExecutableUseCase::new(&repo);

    let result = use_case.execute("", "C:\\nonexistent\\app.exe");

    assert!(result.is_err());
    assert!(matches!(result.unwrap_err(), StartupError::InvalidName(_)));
}

#[test]
fn test_add_command_use_case() {
    let repo = MockRepository::new();
    let scripts = MockScriptStore::new();
    let use_case = AddCommandUseCase::new(&repo, &scripts);

    let result = use_case.execute(
        "BunServer",
        "bun",
        vec!["run".to_string(), "dev".to_string()],
        None,
        ExecutionMode::VBScript,
    );

    assert!(result.is_ok());

    let entries = repo.list().unwrap();
    assert_eq!(entries.len(), 1);
    assert_eq!(entries[0].name, "BunServer");
    assert!(entries[0].command.contains("wscript.exe"));

    let written = scripts.scripts.borrow();
    assert_eq!(written.len(), 1);
    assert!(written[0].0.starts_with("launcher_"));
    assert!(written[0].1.contains("bun run dev"));
}

#[test]
fn test_add_command_invalid_workdir() {
    let repo = MockRepository::new();
    let scripts = MockScriptStore::new();
    let use_case = AddCommandUseCase::new(&repo, &scripts);

    let result = use_case.execute(
        "TestServer",
        "test",
        vec![],
        Some("C:\\nonexistent\\directory"),
        ExecutionMode::VBScript,
    );

    assert!(result.is_err());
    assert!(matches!(
        result.unwrap_err(),
        StartupError::DirectoryNotFound(_)
    ));
}

#[test]
fn test_add_command_script_write_failure_is_io_error() {
    let repo = MockRepository::new();
    let scripts = MockScriptStore::failing();
    let use_case = AddCommandUseCase::new(&repo, &scripts);

    let result = use_case.execute(
        "BunServer",
        "bun",
        vec!["run".to_string()],
        None,
        ExecutionMode::VBScript,
    );

    assert!(matches!(result.unwrap_err(), StartupError::IoError(_)));
    assert_eq!(repo.list().unwrap().len(), 0);
}

#[test]
fn test_remove_entry_use_case() {
    let repo = MockRepository::with_entries(vec![("TestApp", "C:\\test.exe")]);
    let use_case = RemoveEntryUseCase::new(&repo);

    let result = use_case.execute("TestApp");

    assert!(result.is_ok());

    let entries = repo.list().unwrap();
    assert_eq!(entries.len(), 0);
}

#[test]
fn test_remove_nonexistent_entry() {
    let repo = MockRepository::new();
    let use_case = RemoveEntryUseCase::new(&repo);

    let result = use_case.execute("NonExistent");

    assert!(result.is_err());
}

#[test]
fn test_list_entries_use_case() {
    let repo = MockRepository::with_entries(vec![
        ("App1", "C:\\app1.exe"),
        ("App2", "C:\\app2.exe"),
        ("App3", "C:\\app3.exe"),
    ]);
    let use_case = ListEntriesUseCase::new(&repo);

    let result = use_case.execute();

    assert!(result.is_ok());
    let entries = result.unwrap();
    assert_eq!(entries.len(), 3);
}

#[test]
fn test_list_entries_empty() {
    let repo = MockRepository::new();
    let use_case = ListEntriesUseCase::new(&repo);

    let result = use_case.execute();

    assert!(result.is_ok());
    let entries = result.unwrap();
    assert_eq!(entries.len(), 0);
}

#[test]
fn test_multiple_operations() {
    let repo = MockRepository::new();
    let scripts = MockScriptStore::new();

    let add_use_case = AddCommandUseCase::new(&repo, &scripts);

    add_use_case
        .execute(
            "Server1",
            "bun",
            vec!["start".to_string()],
            None,
            ExecutionMode::VBScript,
        )
        .unwrap();

    add_use_case
        .execute(
            "Server2",
            "node",
            vec!["server.js".to_string()],
            None,
            ExecutionMode::VBScript,
        )
        .unwrap();

    let list_use_case = ListEntriesUseCase::new(&repo);
    let entries = list_use_case.execute().unwrap();
    assert_eq!(entries.len(), 2);

    let remove_use_case = RemoveEntryUseCase::new(&repo);
    remove_use_case.execute("Server1").unwrap();

    let entries = list_use_case.execute().unwrap();
    assert_eq!(entries.len(), 1);
    assert_eq!(entries[0].name, "Server2");
}

#[test]
fn test_repository_exists() {
    let repo = MockRepository::with_entries(vec![("ExistingApp", "C:\\app.exe")]);

    assert!(repo.has_entry("ExistingApp").unwrap());
    assert!(!repo.has_entry("NonExistentApp").unwrap());
}

#[test]
fn test_add_duplicate_name() {
    let repo = MockRepository::with_entries(vec![("App", "C:\\old.exe")]);
    let scripts = MockScriptStore::new();
    let use_case = AddCommandUseCase::new(&repo, &scripts);

    use_case
        .execute("App", "new", vec![], None, ExecutionMode::VBScript)
        .unwrap();

    let entries = repo.list().unwrap();
    assert_eq!(entries.len(), 1);
    assert!(entries[0].command.contains("wscript.exe"));
    assert!(!entries[0].command.contains("old.exe"));
}

#[test]
fn test_kill_process_use_case() {
    let repo = MockRepository::with_entries(vec![("Editor", "notepad.exe C:\\file.txt")]);
    let control = MockProcessControl::new(vec![("notepad.exe", 3)]);
    let use_case = KillProcessUseCase::new(&repo, &control);

    let count = use_case.execute("Editor").unwrap();
    assert_eq!(count, 3);
    assert_eq!(control.killed.borrow().as_slice(), &["notepad.exe".to_string()]);
}

#[test]
fn test_kill_process_missing_entry() {
    let repo = MockRepository::new();
    let control = MockProcessControl::new(vec![]);
    let use_case = KillProcessUseCase::new(&repo, &control);

    match use_case.execute("Ghost") {
        Err(StartupError::RegistryError(m)) => {
            assert_eq!(m, "Entry 'Ghost' not found in startup registry");
        }
        _ => panic!("Expected RegistryError"),
    }
}

#[test]
fn test_kill_process_unresolvable_command() {
    let repo = MockRepository::with_entries(vec![("Py", "python -m http.server")]);
    let control = MockProcessControl::new(vec![]);
    let use_case = KillProcessUseCase::new(&repo, &control);

    match use_case.execute("Py") {
        Err(StartupError::RegistryError(m)) => {
            assert!(m.contains("Could not determine executable name"));
        }
        _ => panic!("Expected RegistryError"),
    }
}

#[test]
fn test_kill_all_excludes_zero_counts_and_survives_failures() {
    let repo = MockRepository::with_entries(vec![
        ("A", "notepad.exe C:\\a.txt"),
        ("B", "wscript.exe //B //Nologo \"x.vbs\""),
        ("C", "idle.exe"),
        ("D", "denied.exe"),
    ]);
    let control = MockProcessControl::new(vec![
        ("notepad.exe", 2),
        ("wscript.exe", 1),
        ("idle.exe", 0),
    ])
    .with_failures(vec!["denied.exe"]);
    let use_case = KillAllProcessesUseCase::new(&repo, &control);

    let results = use_case.execute().unwrap();

    // a zero count is not an error and is left out of the report
    assert!(results.iter().all(|(_, count)| *count > 0));
    assert!(!results.iter().any(|(name, _)| name == "idle.exe"));
    // a failing name does not abort the others
    assert_eq!(results.len(), 2);
    let mut names: Vec<&str> = results.iter().map(|(name, _)| name.as_str()).collect();
    names.sort();
    assert_eq!(names, vec!["notepad.exe", "wscript.exe"]);
}

#[test]
fn test_kill_all_deduplicates_names() {
    let repo = MockRepository::with_entries(vec![
        ("One", "notepad.exe C:\\a.txt"),
        ("Two", "notepad.exe C:\\b.txt"),
    ]);
    let control = MockProcessControl::new(vec![("notepad.exe", 5)]);
    let use_case = KillAllProcessesUseCase::new(&repo, &control);

    let results = use_case.execute().unwrap();

    assert_eq!(results.len(), 1);
    assert_eq!(results[0].0, "notepad.exe");
    assert_eq!(results[0].1, 5);
    assert_eq!(control.killed.borrow().len(), 1);
}

#[test]
fn test_add_executable_use_case() {
    let repo = MockRepository::new();
    let use_case = AddExecutableUseCase::new(&repo);

    // An executable path that exists on this machine.
    let result = use_case.execute("TestApp", "/bin/sh");

    assert!(result.is_ok());

    let entries = repo.list().unwrap();
    assert_eq!(entries.len(), 1);
    assert_eq!(entries[0].name, "TestApp");
    assert_eq!(entries[0].command, "/bin/sh");
}
