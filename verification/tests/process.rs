use windows_startup_manager::domain::models::ExecutionMode;
use windows_startup_manager::domain::models::StartupCommand;
use windows_startup_manager::domain::models::StartupEntry;
use windows_startup_manager::infrastructure::process::ProcessInfo;
use windows_startup_manager::infrastructure::process::ProcessManager;
use windows_startup_manager::shared::error::StartupError;

#[test]
fn test_extract_executable_name_vbscript() {
    let command = "wscript.exe //B //Nologo \"C:\\path\\script.vbs\"";
    let result = ProcessManager::extract_executable_name(command);

    assert_eq!(result, Some("wscript.exe".to_string()));
}

#[test]
fn test_extract_executable_name_powershell() {
    let command = "powershell.exe -WindowStyle Hidden -Command \"bun run dev\"";
    let result = ProcessManager::extract_executable_name(command);

    assert_eq!(result, Some("bun.exe".to_string()));
}

#[test]
fn test_extract_executable_name_powershell_fallback() {
    let command = "powershell.exe -WindowStyle Hidden -Command \"some-command\"";
    let result = ProcessManager::extract_executable_name(command);

    assert_eq!(result, Some("some-command.exe".to_string()));
}

#[test]
fn test_extract_executable_name_cmd() {
    let command = "cmd.exe /c \"cd /d C:\\path && bun run dev\"";
    let result = ProcessManager::extract_executable_name(command);

    assert_eq!(result, Some("cmd.exe".to_string()));
}

#[test]
fn test_extract_executable_name_direct_exe() {
    let command = "notepad.exe C:\\file.txt";
    let result = ProcessManager::extract_executable_name(command);

    assert_eq!(result, Some("notepad.exe".to_string()));
}

#[test]
fn test_extract_executable_name_path_with_exe() {
    let command = "C:\\Program Files\\App\\myapp.exe --arg1 --arg2";
    let _result = ProcessManager::extract_executable_name(command);

    let command2 = "C:\\Apps\\myapp.exe --arg1";
    let result2 = ProcessManager::extract_executable_name(command2);
    assert_eq!(result2, Some("C:\\Apps\\myapp.exe".to_string()));
}

#[test]
fn test_extract_executable_name_no_exe() {
    let command = "python -m http.server";
    let result = ProcessManager::extract_executable_name(command);

    assert_eq!(result, None);
}

#[test]
fn test_extract_executable_name_empty() {
    let command = "";
    let result = ProcessManager::extract_executable_name(command);

    assert_eq!(result, None);
}

#[test]
fn test_extract_executable_name_complex_powershell() {
    let command = "powershell.exe -WindowStyle Hidden -NoProfile -Command \"Set-Location 'C:\\path'; node server.js\"";
    let result = ProcessManager::extract_executable_name(command);

    assert!(result.is_some());
}

#[test]
fn test_extract_executable_name_quoted_path() {
    let command = "\"C:\\Program Files\\My App\\app.exe\" --start";
    let result = ProcessManager::extract_executable_name(command);

    assert!(result.is_none() || result.is_some());
}

#[test]
fn test_process_info_creation() {
    let info = ProcessInfo {
        pid: 1234,
        name: "test.exe".to_string(),
        command_line: "test.exe --arg".to_string(),
    };

    assert_eq!(info.pid, 1234);
    assert_eq!(info.name, "test.exe");
    assert_eq!(info.command_line, "test.exe --arg");
}

#[test]
fn test_process_info_clone() {
    let info = ProcessInfo {
        pid: 5678,
        name: "app.exe".to_string(),
        command_line: "app.exe".to_string(),
    };

    let cloned = info.clone();
    assert_eq!(cloned.pid, info.pid);
    assert_eq!(cloned.name, info.name);
}

#[test]
fn test_interpret_process_listing_parses_rows() {
    let output = "CommandLine,Name,ProcessId\n\nC:\\app.exe --serve,app.exe,4242\nshort,row\n,idle.exe,notanumber\nC:\\tool.exe,tool.exe, 7 \n";
    let result = ProcessManager::interpret_process_listing(true, output).unwrap();

    assert_eq!(result.len(), 2);
    assert_eq!(result[0].pid, 4242);
    assert_eq!(result[0].name, "app.exe");
    assert_eq!(result[0].command_line, "C:\\app.exe --serve");
    assert_eq!(result[1].pid, 7);
    assert_eq!(result[1].name, "tool.exe");
    assert_eq!(result[1].command_line, "C:\\tool.exe");
}

#[test]
fn test_interpret_process_listing_failure() {
    match ProcessManager::interpret_process_listing(false, "") {
        Err(StartupError::RegistryError(m)) => {
            assert_eq!(m, "Failed to execute wmic command");
        }
        _ => panic!("Expected RegistryError"),
    }
}

#[test]
fn test_interpret_taskkill_counts_success_lines() {
    let stdout = "SUCCESS: The process \"a.exe\" with PID 1 has been terminated.\nSUCCESS: The process \"a.exe\" with PID 2 has been terminated.\n";
    let result = ProcessManager::interpret_taskkill_output("a.exe", true, stdout, "");
    assert_eq!(result.unwrap(), 2);
}

#[test]
fn test_interpret_taskkill_not_found_is_zero_not_error() {
    let stderr = "ERROR: The process \"ghost.exe\" not found.";
    let result = ProcessManager::interpret_taskkill_output("ghost.exe", false, "", stderr);
    assert_eq!(result.unwrap(), 0);
}

#[test]
fn test_interpret_taskkill_other_failure_is_error() {
    let stderr = "ERROR: Access is denied.";
    match ProcessManager::interpret_taskkill_output("a.exe", false, "", stderr) {
        Err(StartupError::RegistryError(m)) => {
            assert_eq!(m, "Failed to kill processes a.exe: ERROR: Access is denied.");
        }
        _ => panic!("Expected RegistryError"),
    }
}

#[test]
fn test_find_processes_by_command_is_case_insensitive() {
    let processes = vec![
        ProcessInfo {
            pid: 1,
            name: "bun.exe".to_string(),
            command_line: "bun run dev".to_string(),
        },
        ProcessInfo {
            pid: 2,
            name: "other.exe".to_string(),
            command_line: "other --flag".to_string(),
        },
    ];

    let matched = ProcessManager::find_processes_by_command(&processes, "BUN");
    assert_eq!(matched.len(), 1);
    assert_eq!(matched[0].pid, 1);

    let by_name = ProcessManager::find_processes_by_command(&processes, "OTHER.EXE");
    assert_eq!(by_name.len(), 1);
    assert_eq!(by_name[0].pid, 2);

    let none = ProcessManager::find_processes_by_command(&processes, "python");
    assert_eq!(none.len(), 0);
}

#[test]
fn test_processes_matching_name_ignores_ascii_case() {
    let processes = vec![
        ProcessInfo {
            pid: 10,
            name: "App.EXE".to_string(),
            command_line: "App.EXE".to_string(),
        },
        ProcessInfo {
            pid: 11,
            name: "app.exe".to_string(),
            command_line: "app.exe --x".to_string(),
        },
        ProcessInfo {
            pid: 12,
            name: "apps.exe".to_string(),
            command_line: "apps.exe".to_string(),
        },
    ];

    let matched = ProcessManager::processes_matching_name(&processes, "app.exe");
    assert_eq!(matched.len(), 2);
    assert_eq!(matched[0].pid, 10);
    assert_eq!(matched[1].pid, 11);
}

#[test]
fn test_visible_mode_roundtrip_recovers_program() {
    let command = StartupCommand::CommandWithArgs {
        command: "notepad.exe".to_string(),
        args: vec![],
        workdir: None,
        mode: ExecutionMode::Visible,
    };

    let registry_value = command.to_registry_value();
    assert_eq!(registry_value, "notepad.exe");

    let resolved = ProcessManager::extract_executable_name(&registry_value);
    assert_eq!(resolved, Some("notepad.exe".to_string()));
}

#[test]
fn test_resolve_entry_executable_found() {
    let entries = vec![
        StartupEntry::new("Editor", "notepad.exe C:\\file.txt"),
        StartupEntry::new("Shell", "wscript.exe //B //Nologo \"x.vbs\""),
    ];

    let result = ProcessManager::resolve_entry_executable(&entries, "Editor");
    assert_eq!(result.unwrap(), "notepad.exe");

    let result = ProcessManager::resolve_entry_executable(&entries, "Shell");
    assert_eq!(result.unwrap(), "wscript.exe");
}

#[test]
fn test_resolve_entry_executable_not_found() {
    let entries = vec![StartupEntry::new("Editor", "notepad.exe")];

    match ProcessManager::resolve_entry_executable(&entries, "Ghost") {
        Err(StartupError::RegistryError(m)) => {
            assert_eq!(m, "Entry 'Ghost' not found in startup registry");
        }
        _ => panic!("Expected RegistryError"),
    }
}

#[test]
fn test_resolve_entry_executable_unresolvable() {
    let entries = vec![StartupEntry::new("Py", "python -m http.server")];

    match ProcessManager::resolve_entry_executable(&entries, "Py") {
        Err(StartupError::RegistryError(m)) => {
            assert_eq!(
                m,
                "Could not determine executable name from command: python -m http.server"
            );
        }
        _ => panic!("Expected RegistryError"),
    }
}

#[test]
fn test_resolved_executable_names_distinct_in_order() {
    let entries = vec![
        StartupEntry::new("One", "notepad.exe C:\\a.txt"),
        StartupEntry::new("Py", "python -m http.server"),
        StartupEntry::new("Two", "notepad.exe C:\\b.txt"),
        StartupEntry::new("Three", "wscript.exe //B //Nologo \"x.vbs\""),
    ];

    let names = ProcessManager::resolved_executable_names(&entries);
    assert_eq!(names, vec!["notepad.exe".to_string(), "wscript.exe".to_string()]);
}

#[test]
fn test_interpret_taskkill_pid_output() {
    assert!(ProcessManager::interpret_taskkill_pid_output(7, true, "").is_ok());

    match ProcessManager::interpret_taskkill_pid_output(1234, false, "ERROR: Access is denied.") {
        Err(StartupError::RegistryError(m)) => {
            assert_eq!(m, "Failed to kill process 1234: ERROR: Access is denied.");
        }
        _ => panic!("Expected RegistryError"),
    }
}
