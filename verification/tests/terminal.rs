//! The embedded terminal and the log.
use hermes_desktop::commands::terminal::{
    hermes_terminal_resize, hermes_terminal_start, TerminalResizeOptions,
};
use hermes_desktop::logging::{append, append_at, error, info, recent, warn};
use hermes_desktop::terminal::{
    clamp_dimension, exit_payload, find_on_path, is_executable_file, open_failure, output_chunk, resolve_shell_name,
    safe_terminal_cwd, shell_failure, shell_spec_for, start_terminal, terminal_shell_spec,
    ShellEnv, TerminalStartOptions,
};

fn env(is_windows: bool) -> ShellEnv {
    ShellEnv {
        is_windows,
        override_shell: None,
        shell: None,
        path_dirs: Vec::new(),
        system_root: None,
        windir: None,
        comspec: None,
    }
}

fn last_part(path: &str) -> Option<String> {
    path.rsplit(['/', '\\']).next().filter(|name| !name.is_empty()).map(str::to_string)
}

#[test]
fn dimensions_are_clamped_to_a_usable_floor() {
    assert_eq!(clamp_dimension(None, 80), 80);
    assert_eq!(clamp_dimension(Some(0), 80), 2);
    assert_eq!(clamp_dimension(Some(1), 24), 2);
    assert_eq!(clamp_dimension(Some(120), 80), 120);
}

#[test]
fn dimensions_are_clamped_to_what_a_terminal_can_have() {
    assert_eq!(clamp_dimension(Some(65_535), 80), 65_535);
    assert_eq!(clamp_dimension(Some(u32::MAX), 80), 65_535);
    assert_eq!(hermes_terminal_resize(None), (80, 24));
    assert_eq!(
        hermes_terminal_resize(Some(TerminalResizeOptions { cols: Some(1), rows: Some(50) })),
        (2, 50)
    );
}

#[test]
fn missing_cwd_falls_back_instead_of_failing() {
    let cwd = safe_terminal_cwd(
        Some("/definitely/not/a/real/directory/xyz"),
        None,
        None,
        "/home/ada",
        &|path: &str| std::path::Path::new(path).is_dir(),
    );
    assert!(!cwd.is_empty(), "must fall back to home, never the raw value");
    assert_eq!(cwd, "/home/ada");
}

#[test]
fn existing_cwd_is_preserved() {
    let cwd = safe_terminal_cwd(Some(" /tmp "), Some("/root"), None, "/", &|path: &str| path == "/tmp");
    assert_eq!(cwd, "/tmp");
}

#[test]
fn a_blank_cwd_starts_at_home() {
    let nowhere = |_: &str| false;
    assert_eq!(safe_terminal_cwd(Some("  "), Some("/home/ada"), Some("/p"), "/d", &nowhere), "/home/ada");
    assert_eq!(safe_terminal_cwd(None, None, Some("/p"), "/d", &nowhere), "/p");
    assert_eq!(safe_terminal_cwd(None, None, None, "/d", &nowhere), "/d");
}

#[test]
fn a_shell_is_made_interactive_by_its_name() {
    let args = |name: &str| shell_spec_for("/x", Some(name)).args;
    assert_eq!(args("PWSH.exe"), vec!["-NoLogo"]);
    assert_eq!(args("powershell.exe"), vec!["-NoLogo"]);
    assert_eq!(args("CMD.EXE"), Vec::<String>::new());
    assert_eq!(args("zsh"), vec!["-il"]);
    assert_eq!(args("my-bash-5"), vec!["-il"]);
    assert_eq!(args("fish"), vec!["-i"]);

    let unnamed = shell_spec_for("/", None);
    assert_eq!(unnamed.name, "shell");
    assert_eq!(unnamed.args, vec!["-i"]);
    assert_eq!(shell_spec_for("/bin/ZSH", Some("ZSH")).name, "zsh");
}

#[test]
fn an_override_is_tried_as_a_path_and_on_the_path() {
    let only = |path: &str| path == "/opt/fish" || path == "/usr/bin/fish";
    let mut posix = env(false);
    posix.override_shell = Some("  /opt/fish ".to_string());
    posix.shell = Some("/bin/zsh".to_string());
    assert_eq!(terminal_shell_spec(&posix, &only, &last_part).command, "/opt/fish");

    posix.override_shell = Some("fish".to_string());
    posix.path_dirs = vec!["".to_string(), "/bin".to_string(), "/usr/bin".to_string()];
    assert_eq!(terminal_shell_spec(&posix, &only, &last_part).command, "/usr/bin/fish");
    assert_eq!(resolve_shell_name(&posix, &only, &last_part), "fish");
    assert_eq!(find_on_path("fish", &posix.path_dirs, false, &only).as_deref(), Some("/usr/bin/fish"));
}

#[test]
fn an_override_on_a_share_is_not_looked_for_on_the_path() {
    let mut windows = env(true);
    windows.override_shell = Some(r"\\srv\sh\nu".to_string());
    windows.path_dirs = vec![r"C:\bin".to_string()];
    let program = |path: &str| path == r"\\srv\sh\nu.exe";
    assert_eq!(terminal_shell_spec(&windows, &program, &last_part).command, r"\\srv\sh\nu.exe");
}

#[test]
fn posix_falls_through_to_the_usual_shells() {
    let mut posix = env(false);
    posix.shell = Some("/gone/zsh".to_string());

    let bash = |path: &str| path == "/bin/bash" || path == "/bin/sh";
    assert_eq!(terminal_shell_spec(&posix, &bash, &last_part).command, "/bin/bash");

    let nowhere = |_: &str| false;
    let spec = terminal_shell_spec(&posix, &nowhere, &last_part);
    assert_eq!(spec.command, "/bin/sh");
    assert_eq!(spec.args, vec!["-i"]);
}

#[test]
fn windows_ignores_the_posix_shell() {
    let mut windows = env(true);
    windows.shell = Some("/usr/bin/bash".to_string());
    windows.path_dirs = vec!["C:\\tools".to_string()];

    let everywhere = |_: &str| true;
    assert_eq!(terminal_shell_spec(&windows, &everywhere, &last_part).command, "C:\\tools\\pwsh");

    let builtin = |path: &str| path.ends_with("\\powershell.exe");
    assert_eq!(
        terminal_shell_spec(&windows, &builtin, &last_part).command,
        "C:\\Windows\\System32\\WindowsPowerShell\\v1.0\\powershell.exe"
    );
    windows.windir = Some("D:\\W".to_string());
    assert_eq!(
        terminal_shell_spec(&windows, &builtin, &last_part).command,
        "D:\\W\\System32\\WindowsPowerShell\\v1.0\\powershell.exe"
    );

    let nowhere = |_: &str| false;
    assert_eq!(terminal_shell_spec(&windows, &nowhere, &last_part).command, "cmd.exe");
    windows.comspec = Some("C:\\Windows\\system32\\CMD.EXE".to_string());
    let spec = terminal_shell_spec(&windows, &nowhere, &last_part);
    assert_eq!(spec.command, "C:\\Windows\\system32\\CMD.EXE");
    assert_eq!(spec.name, "cmd.exe");
    assert!(spec.args.is_empty());
}

#[test]
fn a_program_is_absolute_and_may_be_executed() {
    assert!(is_executable_file(true, true, Some(0o755)));
    assert!(is_executable_file(true, true, Some(0o001)));
    assert!(!is_executable_file(true, true, Some(0o644)));
    assert!(!is_executable_file(false, true, Some(0o755)));
    assert!(!is_executable_file(true, false, Some(0o755)));
    assert!(is_executable_file(true, true, None));
}

#[test]
fn a_session_has_its_own_events() {
    let spec = shell_spec_for("/bin/zsh", Some("zsh"));
    let plan = start_terminal(&spec, "/home/ada", Some(0), None);
    let other = start_terminal(&spec, "/home/ada", None, None);

    assert_ne!(plan.result.id, other.result.id);
    assert_eq!(plan.data_event, format!("hermes:terminal:{}:data", plan.result.id));
    assert_eq!(plan.exit_event, format!("hermes:terminal:{}:exit", plan.result.id));
    assert_eq!((plan.cols, plan.rows), (2, 24));
    assert_eq!((other.cols, other.rows), (80, 24));
    assert_eq!(plan.command, "/bin/zsh");
    assert_eq!(plan.args, vec!["-il"]);
    assert_eq!(plan.env, vec![("TERM".to_string(), "xterm-256color".to_string())]);
    assert_eq!(plan.result.shell, "zsh");
    assert_eq!(plan.result.cwd, "/home/ada");

    let bare = hermes_terminal_start(None);
    assert_eq!(bare, TerminalStartOptions { cwd: None, cols: None, rows: None });
}

#[test]
fn an_exit_code_is_signed() {
    assert_eq!(exit_payload(Some(0)).code, 0);
    assert_eq!(exit_payload(Some(130)).code, 130);
    assert_eq!(exit_payload(Some(u32::MAX)).code, -1);
    assert_eq!(exit_payload(Some(0x8000_0000)).code, i32::MIN);
    assert_eq!(exit_payload(None).code, -1);
    assert_eq!(exit_payload(None).signal, None);
    assert_eq!(output_chunk(b"a\xffb"), "a\u{fffd}b");
    assert_eq!(open_failure("x"), "failed to open a pty: x");
    assert_eq!(shell_failure("/bin/zsh", "x"), "failed to spawn /bin/zsh: x");
}

#[test]
fn a_log_line_is_stamped_and_labelled() {
    assert_eq!(append_at(&info("up"), 1_700_000_000_007), "[1700000000.007] INFO  up\n");
    assert_eq!(append_at(&warn("slow"), 42), "[0.042] WARN  slow\n");
    assert_eq!(append_at(&error("down"), 999), "[0.999] ERROR down\n");

    let now = append("now");
    assert!(now.starts_with('[') && now.ends_with("] now\n"));
    assert_eq!(now.find('.'), Some(11));
}

#[test]
fn the_recent_log_is_its_tail() {
    assert_eq!(recent(None, 10), "");
    assert_eq!(recent(Some("short"), 10), "short");
    assert_eq!(recent(Some("0123456789abc"), 10), "3456789abc");
    assert_eq!(recent(Some("é123456789"), 10), "123456789");
    // A bound that the last character does not fit cuts nothing off.
    assert_eq!(recent(Some("12é"), 2), "é");
    assert_eq!(recent(Some("12é"), 1), "12é");
    assert_eq!(recent(Some("12"), 0), "12");
}
