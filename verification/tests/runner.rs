use wasmer_support::runner::{MappedCommand, WasiRunner};

#[test]
fn runner_starts_empty() {
    let r = WasiRunner::new();
    assert!(r.get_args().is_empty());
    assert_eq!(r.get_env("PATH"), None);
    assert!(!r.forward_host_env());
    assert_eq!(r.current_dir(), None);
    assert!(r.mapped_host_commands().is_empty());
}

#[test]
fn runner_args_are_replaced() {
    let r = WasiRunner::new()
        .with_args(vec!["a".to_string(), "b".to_string()])
        .with_args(vec!["c".to_string()]);
    assert_eq!(r.get_args(), vec!["c".to_string()]);
}

#[test]
fn runner_env_read_after_write() {
    let mut r = WasiRunner::new().with_env("KEY".to_string(), "one".to_string());
    assert_eq!(r.get_env("KEY"), Some("one".to_string()));
    r.set_env("OTHER".to_string(), "x".to_string());
    r.set_env("KEY".to_string(), "two".to_string());
    assert_eq!(r.get_env("KEY"), Some("two".to_string()));
    assert_eq!(r.get_env("OTHER"), Some("x".to_string()));
    assert_eq!(r.get_env("MISSING"), None);
}

#[test]
fn runner_envs_last_entry_wins() {
    let r = WasiRunner::new().with_envs(vec![
        ("A".to_string(), "1".to_string()),
        ("B".to_string(), "2".to_string()),
        ("A".to_string(), "3".to_string()),
    ]);
    assert_eq!(r.get_env("A"), Some("3".to_string()));
    assert_eq!(r.get_env("B"), Some("2".to_string()));
}

#[test]
fn runner_envs_in_batches() {
    let mut one = WasiRunner::new();
    one.set_envs(vec![("A".to_string(), "1".to_string())]);
    one.set_envs(vec![("A".to_string(), "2".to_string()), ("C".to_string(), "3".to_string())]);
    let both = WasiRunner::new().with_envs(vec![
        ("A".to_string(), "1".to_string()),
        ("A".to_string(), "2".to_string()),
        ("C".to_string(), "3".to_string()),
    ]);
    for k in ["A", "C", "D"] {
        assert_eq!(one.get_env(k), both.get_env(k));
    }
}

#[test]
fn runner_flags_and_dir() {
    let mut r = WasiRunner::new().with_forward_host_env(true).with_current_dir("/app".to_string());
    assert!(r.forward_host_env());
    assert_eq!(r.current_dir(), Some("/app".to_string()));
    r.set_forward_host_env(false);
    r.set_current_dir("/tmp".to_string());
    assert!(!r.forward_host_env());
    assert_eq!(r.current_dir(), Some("/tmp".to_string()));
}

#[test]
fn runner_mapped_commands_keep_order() {
    let r = WasiRunner::new()
        .with_mapped_host_command("ls".to_string(), "/bin/ls".to_string())
        .with_mapped_host_commands(vec![
            MappedCommand { alias: "cat".to_string(), target: "/bin/cat".to_string() },
            MappedCommand { alias: "ls".to_string(), target: "/usr/bin/ls".to_string() },
        ]);
    let cmds = r.mapped_host_commands();
    assert_eq!(cmds.len(), 3);
    assert_eq!(cmds[0], MappedCommand { alias: "ls".to_string(), target: "/bin/ls".to_string() });
    assert_eq!(cmds[1].alias, "cat");
    assert_eq!(cmds[2].target, "/usr/bin/ls");
}

fn assert_send<T: Send>() {}
fn assert_sync<T: Sync>() {}

#[test]
fn send_and_sync() {
    assert_send::<WasiRunner>();
    assert_sync::<WasiRunner>();
}

#[test]
fn runner_exit_outcome() {
    assert_eq!(wasmer_support::runner::exit_outcome(0), Ok(()));
    assert_eq!(wasmer_support::runner::exit_outcome(3), Err(3));
    assert_eq!(wasmer_support::runner::exit_outcome(-1), Err(-1));
}

#[test]
fn runner_missing_command_message() {
    assert_eq!(
        wasmer_support::runner::missing_command_message("serve"),
        "The package doesn't contain a \"serve\" command"
    );
}

#[test]
fn runner_can_run_wasi_commands() {
    let uri = "https://webc.org/runner/wasi";
    assert!(WasiRunner::can_run_command("https://webc.org/runner/wasi", uri));
    assert!(WasiRunner::can_run_command("https://webc.org/runner/wasi@1", uri));
    assert!(!WasiRunner::can_run_command("https://webc.org/runner/wcgi", uri));
    assert!(!WasiRunner::can_run_command("", uri));
}
