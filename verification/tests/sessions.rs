//! The registry driving real shells on real pseudo-terminals.

use std::io::{Read, Write};

use portable_pty::{native_pty_system, Child, CommandBuilder, MasterPty, PtySize};
use pty_sessions::reader::{reader_step, ReadOutcome, ReaderState, READ_BUFFER_SIZE};
use pty_sessions::{
    ChildStatus, HostDefaults, LaunchFailure, PtyError, PtyEvent, PtyManager, PtySession,
    SpawnOptions, TerminalSize,
};

/// The handles of one session, as the registry keeps them.
struct Handles {
    writer: Box<dyn Write + Send>,
    child: Box<dyn Child + Send + Sync>,
    master: Box<dyn MasterPty + Send>,
}

type Reader = Box<dyn Read + Send>;

fn host() -> HostDefaults {
    HostDefaults { shell: Some("/bin/sh".to_string()), home: Some("/".to_string()) }
}

/// Opens a terminal, starts the command on it and hands the output side to
/// `reader`.
fn launch(
    cmd: CommandBuilder,
    size: TerminalSize,
    reader: &mut Option<Reader>,
) -> Result<PtySession<Handles>, LaunchFailure> {
    let pair = native_pty_system()
        .openpty(PtySize {
            rows: size.rows,
            cols: size.cols,
            pixel_width: size.pixel_width,
            pixel_height: size.pixel_height,
        })
        .map_err(|e| LaunchFailure::OpenTerminal { message: e.to_string() })?;
    let child = pair
        .slave
        .spawn_command(cmd)
        .map_err(|e| LaunchFailure::StartProcess { message: e.to_string() })?;
    drop(pair.slave);
    let pid = child.process_id();
    let writer = pair
        .master
        .take_writer()
        .map_err(|e| LaunchFailure::TakeWriter { message: e.to_string() })?;
    let output = pair
        .master
        .try_clone_reader()
        .map_err(|e| LaunchFailure::CloneReader { message: e.to_string() })?;
    *reader = Some(output);
    Ok(PtySession::new(pid, Handles { writer, child, master: pair.master }))
}

fn spawn(
    manager: &mut PtyManager<Handles>,
    options: SpawnOptions,
) -> (Result<String, PtyError>, Option<Reader>) {
    let mut reader = None;
    let result = manager.spawn(options, &host(), |cmd, size| launch(cmd, size, &mut reader));
    (result, reader)
}

fn kill(manager: &mut PtyManager<Handles>, id: &str) -> Result<(), PtyError> {
    manager.kill(
        id,
        |h: &mut Handles| h.child.kill().map_err(|e| e.to_string()),
        |h: &mut Handles| {
            let _ = h.child.wait();
        },
    )
}

fn write(manager: &mut PtyManager<Handles>, id: &str, data: &[u8]) -> Result<(), PtyError> {
    manager.write(
        id,
        data,
        |h: &mut Handles, bytes: &[u8]| h.writer.write_all(bytes).map_err(|e| e.to_string()),
        |h: &mut Handles| h.writer.flush().map_err(|e| e.to_string()),
    )
}

fn resize(manager: &PtyManager<Handles>, id: &str, cols: u16, rows: u16) -> Result<(), PtyError> {
    manager.resize(id, cols, rows, |h: &Handles, size: TerminalSize| {
        h.master
            .resize(PtySize {
                rows: size.rows,
                cols: size.cols,
                pixel_width: size.pixel_width,
                pixel_height: size.pixel_height,
            })
            .map_err(|e| e.to_string())
    })
}

fn poll(h: &mut Handles) -> ChildStatus {
    match h.child.try_wait() {
        Ok(None) => ChildStatus::Running,
        Ok(Some(status)) => ChildStatus::Exited { code: status.exit_code() },
        Err(e) => ChildStatus::Unknown { message: e.to_string() },
    }
}

/// One read of the terminal's output, and what the reader makes of it.
fn next_event(reader: &mut Reader, state: ReaderState) -> (ReaderState, Option<PtyEvent>) {
    let mut buf = [0u8; READ_BUFFER_SIZE];
    let outcome = match reader.read(&mut buf) {
        Ok(n) => ReadOutcome::data(&buf, n),
        Err(e) => ReadOutcome::failed(e.raw_os_error(), e.to_string()),
    };
    reader_step(state, outcome)
}

/// Collects output until `stop` holds of it or the reader finishes.  Returns
/// the output, whether an exit was reported, and every event seen.
fn collect_events(
    reader: &mut Reader,
    stop: impl Fn(&str, bool) -> bool,
) -> (String, bool, Vec<PtyEvent>) {
    let mut output = String::new();
    let mut exited = false;
    let mut events = Vec::new();
    let mut state = ReaderState::Reading;
    while state == ReaderState::Reading {
        let (next, event) = next_event(reader, state);
        state = next;
        match event {
            Some(PtyEvent::Output { data }) => {
                output.push_str(&String::from_utf8_lossy(&data));
                events.push(PtyEvent::Output { data });
                if stop(&output, exited) {
                    break;
                }
            }
            Some(PtyEvent::Exit { code }) => {
                exited = true;
                events.push(PtyEvent::Exit { code });
            }
            Some(PtyEvent::Error { message }) => {
                panic!("Unexpected error event from PTY: {message}");
            }
            None => {}
        }
    }
    (output, exited, events)
}

fn default_spawn_options() -> SpawnOptions {
    SpawnOptions {
        command: Some("/bin/sh".to_string()),
        args: vec!["-c".to_string(), "echo hello from pty".to_string()],
        cwd: None,
        env: vec![],
        cols: 80,
        rows: 24,
    }
}

fn interactive_spawn_options() -> SpawnOptions {
    SpawnOptions {
        command: Some("/bin/sh".to_string()),
        args: vec![],
        cwd: None,
        env: vec![],
        cols: 80,
        rows: 24,
    }
}

fn user_scenario_spawn_options() -> SpawnOptions {
    SpawnOptions { command: None, args: vec![], cwd: None, env: vec![], cols: 99, rows: 57 }
}

fn run_to_end(options: SpawnOptions) -> String {
    let mut manager = PtyManager::new();
    let (result, reader) = spawn(&mut manager, options);
    let id = result.unwrap();
    let mut reader = reader.unwrap();
    let (output, exited, _) = collect_events(&mut reader, |_, _| false);
    assert!(exited);
    kill(&mut manager, &id).unwrap();
    output
}

#[test]
fn test_spawn_and_read_output() {
    let mut manager = PtyManager::new();
    let (result, reader) = spawn(&mut manager, default_spawn_options());
    let session_id = result.unwrap();
    assert!(!session_id.is_empty());

    let mut reader = reader.unwrap();
    let (output_str, _, _) = collect_events(&mut reader, |_, _| false);
    assert!(
        output_str.contains("hello from pty"),
        "Expected 'hello from pty' in output, got: {output_str}"
    );

    // The shell has exited but was not killed: the session is still registered.
    assert_eq!(manager.session_count(), 1);
    kill(&mut manager, &session_id).unwrap();
}

#[test]
fn test_spawn_and_kill() {
    let mut manager = PtyManager::new();
    let (result, _reader) = spawn(&mut manager, interactive_spawn_options());
    let session_id = result.unwrap();
    assert_eq!(manager.session_count(), 1);

    kill(&mut manager, &session_id).unwrap();
    assert_eq!(manager.session_count(), 0);
}

#[test]
fn test_kill_nonexistent_session() {
    let mut manager = PtyManager::new();
    let result = kill(&mut manager, "nonexistent");
    assert!(result.is_err());
    if let Err(PtyError::SessionNotFound { session_id }) = result {
        assert_eq!(session_id, "nonexistent");
    } else {
        panic!("Expected SessionNotFound error");
    }
}

#[test]
fn test_write_to_session() {
    let mut manager = PtyManager::new();
    let (result, _reader) = spawn(&mut manager, interactive_spawn_options());
    let session_id = result.unwrap();

    let result = write(&mut manager, &session_id, b"test input\n");
    assert!(result.is_ok());

    kill(&mut manager, &session_id).unwrap();
}

#[test]
fn test_resize_session() {
    let mut manager = PtyManager::new();
    let (result, _reader) = spawn(&mut manager, interactive_spawn_options());
    let session_id = result.unwrap();

    let result = resize(&manager, &session_id, 120, 40);
    assert!(result.is_ok());

    kill(&mut manager, &session_id).unwrap();
}

#[test]
fn test_list_sessions() {
    let mut manager = PtyManager::new();
    let (id1, _reader1) = spawn(&mut manager, interactive_spawn_options());
    let id1 = id1.unwrap();
    let (id2, _reader2) = spawn(&mut manager, interactive_spawn_options());
    let id2 = id2.unwrap();

    let sessions = manager.list(poll);
    assert_eq!(sessions.len(), 2);

    kill(&mut manager, &id1).unwrap();
    let sessions = manager.list(poll);
    assert_eq!(sessions.len(), 1);
    assert_eq!(sessions[0].id, id2);
    kill(&mut manager, &id2).unwrap();
}

#[test]
fn test_reject_disallowed_shell() {
    let mut manager = PtyManager::new();
    let options = SpawnOptions {
        command: Some("/usr/bin/python3".to_string()),
        args: vec![],
        cwd: None,
        env: vec![],
        cols: 80,
        rows: 24,
    };

    let (result, reader) = spawn(&mut manager, options);
    assert!(result.is_err());
    if let Err(PtyError::ValidationError { message }) = result {
        assert!(message.contains("not allowed"));
    } else {
        panic!("Expected ValidationError");
    }
    assert!(reader.is_none());
    assert_eq!(manager.session_count(), 0);
}

#[test]
fn test_reject_invalid_cwd() {
    let mut manager = PtyManager::new();
    let options = SpawnOptions {
        command: Some("/bin/sh".to_string()),
        args: vec![],
        cwd: Some("/nonexistent/path/that/does/not/exist".to_string()),
        env: vec![],
        cols: 80,
        rows: 24,
    };

    let (result, reader) = spawn(&mut manager, options);
    assert!(result.is_err());
    if let Err(PtyError::ValidationError { message }) = result {
        assert!(message.contains("Invalid working directory"));
    } else {
        panic!("Expected ValidationError");
    }
    assert!(reader.is_none());
    assert_eq!(manager.session_count(), 0);
}

#[test]
fn test_blocked_env_vars_are_filtered() {
    let mut manager = PtyManager::new();
    let env = vec![
        ("LD_PRELOAD".to_string(), "/tmp/evil.so".to_string()),
        ("MY_SAFE_VAR".to_string(), "safe_value".to_string()),
    ];
    let options = SpawnOptions {
        command: Some("/bin/sh".to_string()),
        args: vec![],
        cwd: None,
        env,
        cols: 80,
        rows: 24,
    };

    // Blocked variables are dropped, not refused.
    let (result, _reader) = spawn(&mut manager, options);
    assert!(result.is_ok());
    kill(&mut manager, &result.unwrap()).unwrap();
}

#[test]
fn blocked_variable_is_absent_from_the_shell() {
    let options = SpawnOptions {
        command: Some("/bin/sh".to_string()),
        args: vec!["-c".to_string(), "echo \"[$LD_PRELOAD][$MY_SAFE_VAR][$TERM]\"".to_string()],
        cwd: None,
        env: vec![
            ("LD_PRELOAD".to_string(), "/tmp/evil.so".to_string()),
            ("MY_SAFE_VAR".to_string(), "safe_value".to_string()),
        ],
        cols: 80,
        rows: 24,
    };
    let output = run_to_end(options);
    assert!(output.contains("[][safe_value][xterm-256color]"), "got: {output}");
}

#[test]
fn later_entry_of_a_variable_wins() {
    let options = SpawnOptions {
        command: Some("/bin/sh".to_string()),
        args: vec!["-c".to_string(), "echo \"[$TERM][$COLOR]\"".to_string()],
        cwd: None,
        env: vec![
            ("COLOR".to_string(), "red".to_string()),
            ("TERM".to_string(), "vt100".to_string()),
            ("COLOR".to_string(), "blue".to_string()),
        ],
        cols: 80,
        rows: 24,
    };
    let output = run_to_end(options);
    assert!(output.contains("[vt100][blue]"), "got: {output}");
}

#[test]
fn shell_starts_in_the_validated_directory() {
    let options = SpawnOptions {
        command: Some("/bin/sh".to_string()),
        args: vec!["-c".to_string(), "pwd".to_string()],
        cwd: Some("/usr/../usr/bin".to_string()),
        env: vec![],
        cols: 80,
        rows: 24,
    };
    let output = run_to_end(options);
    assert!(output.contains("/usr/bin"), "got: {output}");
    assert!(!output.contains(".."), "got: {output}");
}

#[test]
fn shell_starts_in_the_home_directory_by_default() {
    let options = SpawnOptions {
        command: Some("/bin/sh".to_string()),
        args: vec!["-c".to_string(), "echo \"<$(pwd)>\"".to_string()],
        cwd: None,
        env: vec![],
        cols: 80,
        rows: 24,
    };
    let output = run_to_end(options);
    assert!(output.contains("</>"), "got: {output}");
}

#[test]
fn a_file_is_no_working_directory() {
    let mut manager = PtyManager::new();
    let options = SpawnOptions {
        command: Some("/bin/sh".to_string()),
        args: vec![],
        cwd: Some("/bin/sh".to_string()),
        env: vec![],
        cols: 80,
        rows: 24,
    };
    let (result, _) = spawn(&mut manager, options);
    match result {
        Err(PtyError::ValidationError { message }) => {
            assert_eq!(message, "Working directory must be a directory");
        }
        other => panic!("Expected ValidationError, got {other:?}"),
    }
    assert_eq!(manager.session_count(), 0);
}

#[test]
fn test_user_scenario_spawn_succeeds() {
    let mut manager = PtyManager::new();
    let (result, _reader) = spawn(&mut manager, user_scenario_spawn_options());
    assert!(
        result.is_ok(),
        "Spawn with command=None (user scenario) should succeed, got: {result:?}"
    );

    let session_id = result.unwrap();
    kill(&mut manager, &session_id).unwrap();
}

#[test]
fn test_user_scenario_shell_stays_alive() {
    let mut manager = PtyManager::new();
    let (result, _reader) = spawn(&mut manager, user_scenario_spawn_options());
    let session_id = result.unwrap();

    // Poll for two seconds: the shell must not exit by itself.
    let deadline = std::time::Instant::now() + std::time::Duration::from_secs(2);
    let mut exited = false;
    while std::time::Instant::now() < deadline && !exited {
        let sessions = manager.list(poll);
        assert_eq!(sessions.len(), 1);
        exited = !sessions[0].is_alive;
    }
    assert!(!exited, "Shell exited within 2 seconds of spawn! This causes the '연결 끊김' bug.");

    kill(&mut manager, &session_id).unwrap();
}

#[test]
fn test_user_scenario_receives_prompt() {
    let mut manager = PtyManager::new();
    let (result, reader) = spawn(&mut manager, user_scenario_spawn_options());
    let session_id = result.unwrap();
    let mut reader = reader.unwrap();

    let (output, exited, _) = collect_events(&mut reader, |s, did_exit| !s.is_empty() || did_exit);

    assert!(!exited, "Shell exited before producing any output! Output so far: '{output}'");
    assert!(
        !output.is_empty(),
        "Expected shell prompt or initial output, got nothing within 3 seconds"
    );

    kill(&mut manager, &session_id).unwrap();
}

#[test]
fn test_user_scenario_command_execution() {
    let mut manager = PtyManager::new();
    let (result, reader) = spawn(&mut manager, user_scenario_spawn_options());
    let session_id = result.unwrap();
    let mut reader = reader.unwrap();

    let (_, exited, _) = collect_events(&mut reader, |s, did_exit| !s.is_empty() || did_exit);
    assert!(!exited, "Shell exited during initialization");

    let marker = "USER_CMD_MARKER_99";
    write(&mut manager, &session_id, format!("echo {marker}\r").as_bytes()).unwrap();

    // The marker comes twice: the terminal's echo of the input, then the
    // command's output.
    let (output, exited, _) =
        collect_events(&mut reader, |s, did_exit| s.matches(marker).count() >= 2 || did_exit);

    assert!(!exited, "Shell exited while processing command! Output: '{output}'");

    let count = output.matches(marker).count();
    assert!(
        count >= 2,
        "Command execution failed. Expected marker '{marker}' at least 2 times (echo + output), found {count}. Full output: '{output}'"
    );

    kill(&mut manager, &session_id).unwrap();
}

#[test]
fn test_user_scenario_channel_continues_working() {
    let mut manager = PtyManager::new();
    let (result, reader) = spawn(&mut manager, user_scenario_spawn_options());
    let session_id = result.unwrap();
    let mut reader = reader.unwrap();

    let (initial, exited, _) =
        collect_events(&mut reader, |s, did_exit| !s.is_empty() || did_exit);
    assert!(!exited, "Shell exited during startup");
    assert!(!initial.is_empty(), "No initial output received");

    // Let some time pass before the next command.
    let pause = std::time::Instant::now() + std::time::Duration::from_millis(500);
    while std::time::Instant::now() < pause {}

    let marker = "CHANNEL_ALIVE_CHECK";
    write(&mut manager, &session_id, format!("echo {marker}\r").as_bytes()).unwrap();

    let (output, exited, _) =
        collect_events(&mut reader, |s, did_exit| s.contains(marker) || did_exit);

    assert!(
        !exited,
        "Shell exited after delay. Channel may have been invalidated. Output: '{output}'"
    );
    assert!(
        output.contains(marker),
        "Channel stopped receiving events after spawn returned. Output: '{output}'"
    );

    kill(&mut manager, &session_id).unwrap();
}

#[test]
fn test_interactive_shell_produces_output_on_spawn() {
    let mut manager = PtyManager::new();
    let (result, reader) = spawn(&mut manager, interactive_spawn_options());
    let session_id = result.unwrap();
    let mut reader = reader.unwrap();

    let (output, _, _) = collect_events(&mut reader, |s, _| !s.is_empty());

    assert!(
        !output.is_empty(),
        "Expected some output from interactive shell (prompt, motd, etc.), got nothing"
    );

    kill(&mut manager, &session_id).unwrap();
}

#[test]
fn test_interactive_command_execution() {
    let mut manager = PtyManager::new();
    let (result, reader) = spawn(&mut manager, interactive_spawn_options());
    let session_id = result.unwrap();
    let mut reader = reader.unwrap();

    collect_events(&mut reader, |s, _| !s.is_empty());

    let marker = "PTYTEST_MARKER_12345";
    write(&mut manager, &session_id, format!("echo {marker}\r").as_bytes()).unwrap();

    let (output, _, _) = collect_events(&mut reader, |s, _| s.matches(marker).count() >= 2);

    let count = output.matches(marker).count();
    assert!(
        count >= 2,
        "Expected marker '{marker}' at least 2 times (echo + execution), found {count} in output: {output}"
    );

    kill(&mut manager, &session_id).unwrap();
}

#[test]
fn test_enter_key_triggers_execution() {
    let mut manager = PtyManager::new();
    let (result, reader) = spawn(&mut manager, interactive_spawn_options());
    let session_id = result.unwrap();
    let mut reader = reader.unwrap();

    collect_events(&mut reader, |s, _| !s.is_empty());

    let marker_cr = "CR_MARKER_67890";
    write(&mut manager, &session_id, format!("echo {marker_cr}\r").as_bytes()).unwrap();

    let (output_cr, _, _) = collect_events(&mut reader, |s, _| s.matches(marker_cr).count() >= 2);

    let cr_count = output_cr.matches(marker_cr).count();
    assert!(
        cr_count >= 2,
        "\\r (carriage return) should trigger command execution. Expected marker '{marker_cr}' at least 2 times, found {cr_count} in output: {output_cr}"
    );

    kill(&mut manager, &session_id).unwrap();
}

#[test]
fn test_session_limit() {
    let mut manager = PtyManager::new();

    let mut ids = Vec::new();
    for _ in 0..pty_sessions::policy::MAX_SESSIONS {
        let (result, _reader) = spawn(&mut manager, interactive_spawn_options());
        ids.push(result.unwrap());
    }

    let (result, reader) = spawn(&mut manager, interactive_spawn_options());
    assert!(result.is_err());
    if let Err(PtyError::ResourceLimit { .. }) = result {
        // Expected
    } else {
        panic!("Expected ResourceLimit error");
    }
    assert!(reader.is_none());

    // Ending one session makes room for another.
    kill(&mut manager, &ids[0]).unwrap();
    let (result, _reader) = spawn(&mut manager, interactive_spawn_options());
    ids[0] = result.unwrap();

    for id in &ids {
        kill(&mut manager, id).unwrap();
    }
    assert_eq!(manager.session_count(), 0);
}

#[test]
fn exited_shell_stays_listed_until_killed() {
    let mut manager = PtyManager::new();
    let (result, reader) = spawn(&mut manager, default_spawn_options());
    let id = result.unwrap();
    let mut reader = reader.unwrap();

    let (_, exited, events) = collect_events(&mut reader, |_, _| false);
    assert!(exited);
    let terminal = events.iter().filter(|e| e.is_terminal()).count();
    assert_eq!(terminal, 1);
    assert!(events.last().unwrap().is_terminal());

    // The process is gone; wait until the poll sees it.
    let deadline = std::time::Instant::now() + std::time::Duration::from_secs(5);
    let mut sessions = manager.list(poll);
    while sessions[0].is_alive && std::time::Instant::now() < deadline {
        sessions = manager.list(poll);
    }
    assert_eq!(sessions.len(), 1);
    assert_eq!(sessions[0].id, id);
    assert!(!sessions[0].is_alive);

    kill(&mut manager, &id).unwrap();
    assert!(manager.list(poll).is_empty());
}

#[test]
fn spawned_session_is_listed_alive_with_its_pid() {
    let mut manager = PtyManager::new();
    let (result, _reader) = spawn(&mut manager, interactive_spawn_options());
    let id = result.unwrap();
    assert_eq!(id.len(), 36);
    assert!(manager.is_registered(&id));

    let sessions = manager.list(poll);
    assert_eq!(sessions.len(), 1);
    assert_eq!(sessions[0].id, id);
    assert!(sessions[0].pid.is_some());
    assert!(sessions[0].is_alive);

    kill(&mut manager, &id).unwrap();
    assert!(!manager.is_registered(&id));
}

#[test]
fn kill_all_empties_the_registry() {
    let mut manager = PtyManager::new();
    let (a, _ra) = spawn(&mut manager, interactive_spawn_options());
    let (b, _rb) = spawn(&mut manager, interactive_spawn_options());
    assert!(a.is_ok() && b.is_ok());
    manager.kill_all(
        |h: &mut Handles| h.child.kill().map_err(|e| e.to_string()),
        |h: &mut Handles| {
            let _ = h.child.wait();
        },
    );
    assert_eq!(manager.session_count(), 0);
}
