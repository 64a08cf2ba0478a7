use portable_pty::CommandBuilder;
use pty_sessions::command::{build_command, configure_command};

fn strings(items: &[&str]) -> Vec<String> {
    items.iter().map(|s| s.to_string()).collect()
}

fn pairs(items: &[(&str, &str)]) -> Vec<(String, String)> {
    items.iter().map(|(k, v)| (k.to_string(), v.to_string())).collect()
}

fn argv(cmd: &CommandBuilder) -> Vec<String> {
    cmd.get_argv().iter().map(|a| a.to_string_lossy().into_owned()).collect()
}

fn cwd(cmd: &CommandBuilder) -> Option<String> {
    cmd.get_cwd().map(|d| d.to_string_lossy().into_owned())
}

fn env(cmd: &CommandBuilder, key: &str) -> Option<String> {
    cmd.get_env(key).map(|v| v.to_string_lossy().into_owned())
}

#[test]
fn no_arguments_means_login_shell() {
    let cmd = build_command("/bin/zsh", &vec![], &None, &vec![]);
    assert_eq!(argv(&cmd), vec!["/bin/zsh", "-l"]);
    assert_eq!(cwd(&cmd), None);
    assert_eq!(env(&cmd, "TERM"), Some("xterm-256color".to_string()));
}

#[test]
fn arguments_are_passed_as_they_are() {
    let args = strings(&["-c", "echo hello from pty", "", "-l"]);
    let cmd = build_command("/bin/sh", &args, &Some("/tmp".to_string()), &vec![]);
    assert_eq!(argv(&cmd), vec!["/bin/sh", "-c", "echo hello from pty", "", "-l"]);
    assert_eq!(cwd(&cmd), Some("/tmp".to_string()));
}

#[test]
fn permitted_variables_are_set_and_blocked_ones_are_not() {
    let request = pairs(&[
        ("LD_PRELOAD", "/tmp/evil.so"),
        ("MY_SAFE_VAR", "safe_value"),
        ("DYLD_INSERT_LIBRARIES", "/tmp/evil.dylib"),
        ("MY_SAFE_VAR", "later_value"),
    ]);
    let cmd = build_command("/bin/sh", &vec![], &None, &request);
    assert_eq!(env(&cmd, "MY_SAFE_VAR"), Some("later_value".to_string()));
    assert_eq!(env(&cmd, "TERM"), Some("xterm-256color".to_string()));
    let set_here: Vec<(String, String)> = cmd
        .iter_extra_env_as_str()
        .map(|(k, v)| (k.to_string(), v.to_string()))
        .collect();
    assert_eq!(
        set_here,
        pairs(&[("MY_SAFE_VAR", "later_value"), ("TERM", "xterm-256color")])
    );
}

#[test]
fn request_may_choose_the_terminal_type() {
    let cmd = build_command("/bin/sh", &vec![], &None, &pairs(&[("TERM", "vt100")]));
    assert_eq!(env(&cmd, "TERM"), Some("vt100".to_string()));
}

#[test]
fn configuring_leaves_what_the_builder_held() {
    let mut cmd = CommandBuilder::new("/bin/bash");
    cmd.arg("--norc");
    cmd.env_clear();
    cmd.env("LD_LIBRARY_PATH", "/inherited");
    cmd.env("KEEP", "kept");
    cmd.env("TERM", "dumb");
    cmd.cwd("/var");
    configure_command(
        &mut cmd,
        &strings(&["-i"]),
        &None,
        &pairs(&[("LD_LIBRARY_PATH", "/tmp/evil"), ("EXTRA", "1")]),
    );
    assert_eq!(argv(&cmd), vec!["/bin/bash", "--norc", "-i"]);
    assert_eq!(cwd(&cmd), Some("/var".to_string()));
    assert_eq!(env(&cmd, "LD_LIBRARY_PATH"), Some("/inherited".to_string()));
    assert_eq!(env(&cmd, "KEEP"), Some("kept".to_string()));
    assert_eq!(env(&cmd, "EXTRA"), Some("1".to_string()));
    assert_eq!(env(&cmd, "TERM"), Some("xterm-256color".to_string()));
    assert_eq!(env(&cmd, "LD_PRELOAD"), None);
}
