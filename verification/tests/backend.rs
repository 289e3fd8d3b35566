//! The backend: its command line, its environment, its announcement and its
//! connection.
use hermes_desktop::backend::command::{
    dashboard_fallback_args, is_backend_not_found, resolve_backend_command, serve_backend_args,
    venv_candidates, which, BackendCommand,
};
use hermes_desktop::backend::env::{
    append_unique, build_backend_env, desktop_backend_path, path_delimiter, InheritedEnv,
};
use hermes_desktop::backend::manager::{
    after_attempt, canonical_profile, descriptor_for, encode_uri_component, gateway_ws_url,
    output_lines, output_tail, poll_port, pump_output, retain_output, serves_profile,
    session_token, spawn_failure, spawn_plan, stop_command, stopped_log_line, AttemptOutcome,
    BackendHandle, ChildState, PortWait, ProbeReply, ProbeStep, ReadyProbe, SpawnAttempt,
    SpawnStep, DESCRIPTOR_LOG_LINES, MAX_OUTPUT_BUFFER_BYTES, MISSING_PID,
};
use hermes_desktop::backend::ready::{
    parse_ready_port, resolve_port_announce_timeout_ms, DEFAULT_PORT_ANNOUNCE_TIMEOUT_MS,
    MIN_PORT_ANNOUNCE_TIMEOUT_MS,
};
use hermes_desktop::paths::Host;

fn posix_host() -> Host {
    Host {
        is_windows: false,
        home: "/home/ada".to_string(),
        hermes_home: Some("/srv/hermes".to_string()),
        local_appdata: None,
        hermes_venv: None,
    }
}

fn windows_host() -> Host {
    Host {
        is_windows: true,
        home: "C:\\Users\\ada".to_string(),
        hermes_home: None,
        local_appdata: Some("C:\\Users\\ada\\AppData\\Local".to_string()),
        hermes_venv: None,
    }
}

fn strings(parts: &[&str]) -> Vec<String> {
    parts.iter().map(|part| part.to_string()).collect()
}

fn handle(profile: Option<&str>, output: Option<&str>) -> BackendHandle {
    BackendHandle {
        pid: 1,
        base_url: "http://127.0.0.1:9119".to_string(),
        profile: profile.map(str::to_string),
        token: "tok".to_string(),
        output: output.map(str::to_string),
    }
}

// --- the command line ------------------------------------------------------

#[test]
fn serve_args_without_profile() {
    assert_eq!(
        serve_backend_args(None),
        vec!["serve", "--host", "127.0.0.1", "--port", "0"]
    );
}

#[test]
fn serve_args_lead_with_profile() {
    assert_eq!(
        serve_backend_args(Some("work")),
        vec!["--profile", "work", "serve", "--host", "127.0.0.1", "--port", "0"]
    );
}

#[test]
fn empty_profile_is_ignored() {
    assert_eq!(serve_backend_args(Some("")), serve_backend_args(None));
}

#[test]
fn dashboard_fallback_rewrites_only_the_subcommand() {
    let args: Vec<String> = ["--profile", "work", "serve", "--host", "127.0.0.1", "--port", "0"]
        .iter()
        .map(|part| part.to_string())
        .collect();

    assert_eq!(
        dashboard_fallback_args(&args),
        vec!["--profile", "work", "dashboard", "--no-open", "--host", "127.0.0.1", "--port", "0"]
    );
}

#[test]
fn dashboard_fallback_is_a_noop_without_serve() {
    let args: Vec<String> = ["dashboard", "--no-open"].iter().map(|p| p.to_string()).collect();
    assert_eq!(dashboard_fallback_args(&args), args);
}

#[test]
fn dashboard_fallback_keeps_a_profile_named_like_the_subcommand() {
    assert_eq!(
        dashboard_fallback_args(&serve_backend_args(Some("serve"))),
        vec!["--profile", "serve", "dashboard", "--no-open", "--host", "127.0.0.1", "--port", "0"]
    );
    assert_eq!(
        dashboard_fallback_args(&serve_backend_args(Some("--profile"))),
        vec!["--profile", "--profile", "dashboard", "--no-open", "--host", "127.0.0.1", "--port", "0"]
    );
    // A leading module invocation is kept as it is.
    assert_eq!(
        dashboard_fallback_args(&strings(&["-m", "hermes_cli.main", "serve"])),
        vec!["-m", "hermes_cli.main", "dashboard", "--no-open"]
    );
    assert_eq!(dashboard_fallback_args(&strings(&["--profile"])), vec!["--profile"]);
}

#[test]
fn an_override_names_the_program() {
    let nowhere = |_: &str| false;
    let found = resolve_backend_command(
        Some("work"),
        Some("  /opt/hermes  "),
        &posix_host(),
        &Vec::new(),
        &nowhere,
    )
    .unwrap();

    assert_eq!(found.program, "/opt/hermes");
    assert_eq!(found.args[0], "--profile");
}

#[test]
fn the_managed_runtime_shadows_a_global_one() {
    let both = |path: &str| path == "/srv/hermes/venv/bin/hermes" || path == "/usr/bin/hermes";
    let dirs = strings(&["", "/usr/bin"]);

    let found = resolve_backend_command(None, Some("   "), &posix_host(), &dirs, &both).unwrap();
    assert_eq!(found.program, "/srv/hermes/venv/bin/hermes");

    let global = |path: &str| path == "/usr/bin/hermes";
    let found = resolve_backend_command(None, None, &posix_host(), &dirs, &global).unwrap();
    assert_eq!(found.program, "/usr/bin/hermes");
    assert_eq!(found.args, serve_backend_args(None));
}

#[test]
fn a_missing_backend_says_where_it_was_looked_for() {
    let nowhere = |_: &str| false;
    let error =
        resolve_backend_command(None, None, &posix_host(), &strings(&["/usr/bin"]), &nowhere).unwrap_err();

    assert_eq!(
        error,
        "Hermes backend not found. Looked for a managed runtime at /srv/hermes/venv/bin and for `hermes` on PATH."
    );
    assert!(is_backend_not_found(&error));
    assert!(!is_backend_not_found("Hermes backend exited before port announcement (exit status: 2)."));
    assert!(!is_backend_not_found("Hermes backend"));
}

#[test]
fn a_search_tries_the_executable_suffix_on_windows() {
    assert_eq!(
        venv_candidates(&windows_host()),
        vec![
            "C:\\Users\\ada\\AppData\\Local\\hermes\\venv\\Scripts\\hermes.exe",
            "C:\\Users\\ada\\AppData\\Local\\hermes\\venv\\Scripts\\hermes",
        ]
    );

    let suffixed = |path: &str| path.ends_with(".exe");
    assert_eq!(
        which("hermes", &strings(&["C:\\bin"]), true, &suffixed).as_deref(),
        Some("C:\\bin\\hermes.exe")
    );
    assert_eq!(which("hermes", &strings(&["/bin"]), false, &suffixed), None);
}

// --- the environment -------------------------------------------------------

#[test]
fn venv_bin_precedes_inherited_path() {
    for is_windows in [false, true] {
        let delimiter = path_delimiter(is_windows);
        let host = if is_windows { windows_host() } else { posix_host() };
        let inherited = ["/usr", "/bin"].join(&delimiter.to_string());

        let path = desktop_backend_path(&host, "/tmp/hermes/venv", Some(&inherited));
        let parts: Vec<&str> = path.split(delimiter).collect();

        let venv_dir = if is_windows { "venv\\Scripts" } else { "venv/bin" };

        let venv_index = parts
            .iter()
            .position(|part| part.ends_with(venv_dir))
            .expect("venv bin present");
        let inherited_index = parts
            .iter()
            .position(|part| *part == "/usr")
            .expect("inherited PATH preserved");

        assert!(venv_index < inherited_index, "venv bin must win: {parts:?}");
    }
}

#[test]
fn duplicates_are_dropped() {
    for is_windows in [false, true] {
        let delimiter = path_delimiter(is_windows);
        let unit = delimiter.to_string();

        // Each entry is a whole PATH value that must be split before deduping,
        // which is how `desktop_backend_path` sees the inherited PATH.
        let joined = append_unique(&vec![format!("/a{unit}/b"), format!("/b{unit}/c")], is_windows);
        let parts: Vec<&str> = joined.split(delimiter).collect();

        assert_eq!(parts, vec!["/a", "/b", "/c"]);
    }
}

#[test]
fn blank_and_empty_entries_name_no_directory() {
    assert_eq!(append_unique(&strings(&["  ", "", "/a::/b:", ":"]), false), "/a:/b");
    assert_eq!(append_unique(&Vec::new(), false), "");
}

#[test]
fn the_posix_path_ends_with_the_sane_entries() {
    assert_eq!(
        desktop_backend_path(&posix_host(), "/srv/hermes/venv", Some("/usr/bin:/custom")),
        "/srv/hermes/node/bin:/srv/hermes/node:/srv/hermes/venv/bin:/usr/bin:/custom:\
         /opt/homebrew/bin:/opt/homebrew/sbin:/usr/local/sbin:/usr/local/bin:/usr/sbin:/sbin:/bin"
    );
    assert_eq!(
        desktop_backend_path(&windows_host(), "D:\\venv", None),
        "C:\\Users\\ada\\AppData\\Local\\hermes\\node;C:\\Users\\ada\\AppData\\Local\\hermes\\node\\bin;D:\\venv\\Scripts"
    );
}

#[test]
fn an_explicit_utf8_mode_wins() {
    let inherited = InheritedEnv {
        python_path: Some("/lib:/lib:/more".to_string()),
        python_utf8: Some("0".to_string()),
        path: None,
    };
    let env = build_backend_env(&posix_host(), "/v", &inherited);

    assert_eq!(env[0], ("PYTHONPATH".to_string(), "/lib:/more".to_string()));
    assert_eq!(env[1], ("PYTHONUTF8".to_string(), "0".to_string()));
    assert_eq!(env[2].0, "PATH");
    assert_eq!(env.len(), 3);

    let bare = InheritedEnv { python_path: None, python_utf8: None, path: None };
    let env = build_backend_env(&posix_host(), "/v", &bare);

    assert_eq!(env[0].1, "");
    assert_eq!(env[1].1, "1");
}

// --- the announcement ------------------------------------------------------

#[test]
fn parses_backend_ready_line() {
    assert_eq!(parse_ready_port("HERMES_BACKEND_READY port=65238\n"), Some(65238));
}

#[test]
fn parses_dashboard_ready_line() {
    assert_eq!(parse_ready_port("HERMES_DASHBOARD_READY port=9119"), Some(9119));
}

#[test]
fn parses_sentinel_spliced_onto_uvicorn_stderr() {
    // No newline before the sentinel.
    assert_eq!(
        parse_ready_port("INFO:     Application startup complete. [4711]HERMES_BACKEND_READY port=65238"),
        Some(65238)
    );
}

#[test]
fn parses_sentinel_spliced_after_a_port_number() {
    // A letter/underscore prefix must be rejected; a digit prefix must not.
    assert_eq!(
        parse_ready_port("Hermes backend listening on 127.0.0.1:8630HERMES_BACKEND_READY port=8630"),
        Some(8630)
    );
}

#[test]
fn rejects_sentinel_without_token_boundary() {
    assert_eq!(parse_ready_port("XHERMES_BACKEND_READY port=1234"), None);
}

#[test]
fn rejects_prose_mention_without_port() {
    assert_eq!(parse_ready_port("waiting for HERMES_BACKEND_READY to arrive"), None);
}

#[test]
fn ignores_zero_port() {
    assert_eq!(parse_ready_port("HERMES_BACKEND_READY port=0"), None);
}

#[test]
fn timeout_floor_is_enforced() {
    assert_eq!(resolve_port_announce_timeout_ms(Some(1000)), MIN_PORT_ANNOUNCE_TIMEOUT_MS);
}

#[test]
fn the_deadline_is_the_override_or_the_default() {
    assert_eq!(resolve_port_announce_timeout_ms(None), DEFAULT_PORT_ANNOUNCE_TIMEOUT_MS);
    assert_eq!(resolve_port_announce_timeout_ms(Some(120_000)), 120_000);
    assert_eq!(DEFAULT_PORT_ANNOUNCE_TIMEOUT_MS, 90_000);
    assert_eq!(MIN_PORT_ANNOUNCE_TIMEOUT_MS, 45_000);
}

#[test]
fn a_letter_of_any_script_is_no_boundary() {
    assert_eq!(parse_ready_port("éHERMES_BACKEND_READY port=1"), None);
    assert_eq!(parse_ready_port("中HERMES_BACKEND_READY port=1"), None);
    assert_eq!(parse_ready_port("_HERMES_BACKEND_READY port=1"), None);
    assert_eq!(parse_ready_port("€HERMES_BACKEND_READY port=1"), Some(1));
}

#[test]
fn a_port_that_does_not_fit_is_passed_over() {
    assert_eq!(parse_ready_port("HERMES_BACKEND_READY port=65536 "), None);
    assert_eq!(parse_ready_port("HERMES_BACKEND_READY port=99999999999999999999"), None);
    assert_eq!(
        parse_ready_port("HERMES_BACKEND_READY port=70000 HERMES_BACKEND_READY port=007"),
        Some(7)
    );
    // The newer marker is looked for first, wherever it stands.
    assert_eq!(
        parse_ready_port("HERMES_DASHBOARD_READY port=1 HERMES_BACKEND_READY port=2"),
        Some(2)
    );
    assert_eq!(parse_ready_port(""), None);
}

#[test]
fn later_output_keeps_an_announced_port() {
    let newer = "HERMES_BACKEND_READY port=8630\n";
    let older = "HERMES_DASHBOARD_READY port=9119\n";
    let again = "HERMES_DASHBOARD_READY port=1\n";

    assert_eq!(parse_ready_port(&format!("{newer}{older}HERMES_BACKEND_READY port=2\n")), Some(8630));
    assert_eq!(parse_ready_port(older), Some(9119));
    assert_eq!(parse_ready_port(&format!("{older}{again}log line")), Some(9119));
    // Only the newer marker takes the place of the older one.
    assert_eq!(parse_ready_port(&format!("{older}{newer}")), Some(8630));
}

#[test]
fn every_announced_port_is_read_back() {
    for port in [1u16, 9, 10, 80, 8630, 65238, 65535] {
        let line = format!("started\nHERMES_BACKEND_READY port={port}\nmore 1234\n");
        assert_eq!(parse_ready_port(&line), Some(port));
        assert_eq!(parse_ready_port(&format!("{line} and more")), Some(port));
    }
}

// --- the output ------------------------------------------------------------

#[test]
fn retained_output_keeps_its_newest_half() {
    let mut buffer = "a".repeat(MAX_OUTPUT_BUFFER_BYTES);
    retain_output(&mut buffer, "");
    assert_eq!(buffer.len(), MAX_OUTPUT_BUFFER_BYTES);

    retain_output(&mut buffer, "xyz");
    assert_eq!(buffer.len(), MAX_OUTPUT_BUFFER_BYTES / 2);
    assert!(buffer.ends_with("axyz"));

    // A cut never splits a character.
    let mut wide = "é".repeat(MAX_OUTPUT_BUFFER_BYTES / 2);
    retain_output(&mut wide, "b");
    assert_eq!(wide.len(), MAX_OUTPUT_BUFFER_BYTES / 2 - 1);
    assert!(wide.ends_with("éb"));
}

#[test]
fn a_chunk_is_decoded_and_logged() {
    let mut buffer = String::from("one ");
    let logged = pump_output(&mut buffer, b"two\xff\n", "stdout");

    assert_eq!(buffer, "one two\u{fffd}\n");
    assert_eq!(logged.as_deref(), Some("backend[stdout] two\u{fffd}"));
    assert_eq!(pump_output(&mut buffer, b" \r\n", "stderr"), None);
    assert_eq!(buffer, "one two\u{fffd}\n \r\n");
}

#[test]
fn a_failure_report_quotes_the_end_of_the_output() {
    assert_eq!(output_tail("  \n "), "");
    assert_eq!(output_tail(" boom \n"), "\n--- backend output ---\nboom");

    let long = format!("{}{}", "x".repeat(10), "y".repeat(2000));
    assert_eq!(output_tail(&long), format!("\n--- backend output ---\n{}", "y".repeat(2000)));
}

#[test]
fn output_lines_end_at_either_line_ending() {
    assert_eq!(output_lines(Some("a\r\nb\n\nc\r"), 10), vec!["a", "b", "", "c\r"]);
    assert_eq!(output_lines(Some("a\nb\nc\n"), 2), vec!["b", "c"]);
    assert_eq!(output_lines(Some(""), 2), Vec::<String>::new());
    assert_eq!(output_lines(None, 2), Vec::<String>::new());
}

#[test]
fn a_child_is_watched_until_it_announces_its_port() {
    let ready = "HERMES_BACKEND_READY port=8630\n";
    let gone = ChildState::Exited("exit status: 2".to_string());

    assert_eq!(poll_port(ready, &gone, 45_000, 45_000), PortWait::Announced(8630));
    assert_eq!(poll_port("...", &ChildState::Running, 44_999, 45_000), PortWait::Waiting);
    assert_eq!(
        poll_port("usage: hermes", &gone, 0, 45_000),
        PortWait::Failed(
            "Hermes backend exited before port announcement (exit status: 2).\n--- backend output ---\nusage: hermes"
                .to_string()
        )
    );
    assert_eq!(
        poll_port("", &ChildState::Unknown("no child".to_string()), 50_000, 45_000),
        PortWait::Failed("Hermes backend wait failed: no child".to_string())
    );
    assert_eq!(
        poll_port("", &ChildState::Running, 90_000, 90_000),
        PortWait::Failed("Timed out waiting for Hermes backend port announcement (90000ms).".to_string())
    );
}

#[test]
fn a_probe_falls_back_to_the_status_route_once() {
    let mut probe = ReadyProbe::start("http://127.0.0.1:8630//");

    assert_eq!(probe.url(), "http://127.0.0.1:8630/api/health");
    assert_eq!(probe.give_up(), "Hermes backend did not become ready: timeout");
    assert_eq!(probe.on_reply(&ProbeReply::Status(503)), ProbeStep::RetryLater);
    assert_eq!(probe.url(), "http://127.0.0.1:8630/api/health");
    assert_eq!(probe.on_reply(&ProbeReply::Status(404)), ProbeStep::RetryNow);
    assert_eq!(probe.url(), "http://127.0.0.1:8630/api/status");
    assert_eq!(probe.on_reply(&ProbeReply::Status(404)), ProbeStep::RetryLater);
    assert_eq!(probe.give_up(), "Hermes backend did not become ready: 404: probe failed");
    assert_eq!(probe.on_reply(&ProbeReply::Error("refused".to_string())), ProbeStep::RetryLater);
    assert_eq!(probe.give_up(), "Hermes backend did not become ready: refused");
    assert_eq!(probe.on_reply(&ProbeReply::Status(204)), ProbeStep::Ready);
    assert_eq!(probe.on_reply(&ProbeReply::Status(300)), ProbeStep::RetryLater);
}

#[test]
fn a_probe_is_sent_in_time_alone() {
    let probe = ReadyProbe::start("http://127.0.0.1:8630");

    assert!(probe.may_probe(0));
    assert!(probe.may_probe(44_999));
    assert!(!probe.may_probe(45_000));
    assert!(!probe.may_probe(u64::MAX));
}

#[test]
fn a_wait_ends_with_the_first_answer_or_in_time() {
    // The outcome, and how many probes were sent.
    let wait = |turns: &[(u64, ProbeReply)]| {
        let mut probe = ReadyProbe::start("http://127.0.0.1:8630");
        let mut sent = 0;
        for (elapsed_ms, reply) in turns {
            if !probe.may_probe(*elapsed_ms) {
                return (Some(Err(probe.give_up())), sent);
            }
            sent += 1;
            if probe.on_reply(reply) == ProbeStep::Ready {
                return (Some(Ok(())), sent);
            }
        }
        (None, sent)
    };
    let refused = || ProbeReply::Error("refused".to_string());

    let answered = [(0, refused()), (44_999, ProbeReply::Status(200)), (45_000, ProbeReply::Status(200))];
    assert_eq!(wait(&answered), (Some(Ok(())), 2));

    let late = [(0, ProbeReply::Status(503)), (500, refused()), (45_000, ProbeReply::Status(200))];
    let error = "Hermes backend did not become ready: refused".to_string();
    assert_eq!(wait(&late), (Some(Err(error)), 2));
    assert_eq!(wait(&late[..2]), (None, 2));
}

// --- starting and stopping -------------------------------------------------

#[test]
fn a_backend_is_started_in_the_hermes_home() {
    let inherited = InheritedEnv { python_path: None, python_utf8: None, path: None };
    let plan = spawn_plan("/bin/hermes", &serve_backend_args(None), &posix_host(), &inherited, "tok");

    assert_eq!(plan.program, "/bin/hermes");
    assert_eq!(plan.current_dir, "/srv/hermes");
    assert!(plan.own_group && !plan.no_window);
    assert_eq!(plan.log_line, "spawning backend: /bin/hermes serve --host 127.0.0.1 --port 0");

    let own: Vec<(&str, &str)> =
        plan.env[3..].iter().map(|(key, value)| (key.as_str(), value.as_str())).collect();
    assert_eq!(
        own,
        vec![
            ("HERMES_HOME", "/srv/hermes"),
            ("HERMES_DESKTOP", "1"),
            ("HERMES_DASHBOARD_SESSION_TOKEN", "tok"),
            ("PYTHONUNBUFFERED", "1"),
        ]
    );
}

#[test]
fn a_backend_leads_a_process_group_off_windows() {
    let inherited = InheritedEnv { python_path: None, python_utf8: None, path: None };
    let args = serve_backend_args(None);
    assert!(spawn_plan("hermes", &args, &posix_host(), &inherited, "tok").own_group);

    let plan = spawn_plan("hermes.exe", &args, &windows_host(), &inherited, "tok");
    assert!(!plan.own_group && plan.no_window);
}

#[test]
fn a_first_attempt_is_repeated_once() {
    let command = BackendCommand {
        program: "/bin/hermes".to_string(),
        args: serve_backend_args(Some("work")),
    };
    let failed = AttemptOutcome::Failed { error: "no such command".to_string() };

    let SpawnStep::Retry { args, attempt, log_line } =
        after_attempt(&command, Some("work"), "tok", &SpawnAttempt::Serve, &failed)
    else {
        panic!("the older form is tried");
    };
    assert_eq!(args[2], "dashboard");
    assert_eq!(
        log_line,
        "backend rejected the `serve` form (no such command); retrying as `dashboard --no-open`"
    );

    let again = AttemptOutcome::Failed { error: "died".to_string() };
    assert_eq!(
        after_attempt(&command, Some("work"), "tok", &attempt, &again),
        SpawnStep::Failed {
            error: "died\n--- the `serve` attempt failed with ---\nno such command".to_string()
        }
    );

    let other = BackendCommand { program: "/bin/hermes".to_string(), args: strings(&["dashboard"]) };
    assert_eq!(
        after_attempt(&other, None, "tok", &SpawnAttempt::Serve, &failed),
        SpawnStep::Failed { error: "no such command".to_string() }
    );
    assert_eq!(
        spawn_failure("/bin/hermes", "denied"),
        "Failed to spawn Hermes backend (/bin/hermes): denied"
    );
}

#[test]
fn a_failed_start_is_never_taken_for_a_missing_backend() {
    let command = BackendCommand { program: "h".to_string(), args: serve_backend_args(None) };
    let failure = |output: &str, child: ChildState| match poll_port(output, &child, 45_000, 45_000) {
        PortWait::Failed(error) => error,
        other => panic!("{other:?}"),
    };
    let failures = [
        spawn_failure("h", "denied"),
        MISSING_PID.to_string(),
        failure("", ChildState::Exited("exit status: 2".to_string())),
        failure("", ChildState::Unknown("no child".to_string())),
        failure("", ChildState::Running),
    ];

    for error in failures {
        assert!(!is_backend_not_found(&error));

        // Nor where it ends the second attempt, whatever became of the first.
        let attempt = SpawnAttempt::Legacy { first_error: "Hermes backend not found".to_string() };
        let outcome = AttemptOutcome::Failed { error };
        let SpawnStep::Failed { error } = after_attempt(&command, None, "tok", &attempt, &outcome) else {
            panic!("there is no third attempt");
        };
        assert!(!is_backend_not_found(&error));
    }
}

#[test]
fn an_announced_port_becomes_a_base_url() {
    let command = BackendCommand { program: "h".to_string(), args: serve_backend_args(None) };
    let up = AttemptOutcome::Announced { pid: 4711, port: 8630 };

    let SpawnStep::Ready { handle, log_line } =
        after_attempt(&command, Some("work"), "tok", &SpawnAttempt::Serve, &up)
    else {
        panic!("the backend is up");
    };
    assert_eq!(handle.base_url, "http://127.0.0.1:8630");
    assert_eq!(handle.pid, 4711);
    assert_eq!(handle.profile.as_deref(), Some("work"));
    assert_eq!(handle.token, "tok");
    assert_eq!(log_line, "backend ready on http://127.0.0.1:8630 (pid 4711)");
}

#[test]
fn a_backend_is_stopped_with_its_children() {
    let stop = stop_command(42, true);
    assert_eq!(stop.program, "taskkill");
    assert_eq!(stop.args, vec!["/T", "/F", "/PID", "42"]);

    let stop = stop_command(42, false);
    assert_eq!(stop.program, "kill");
    assert_eq!(stop.args, vec!["-TERM", "-42"]);
    assert_eq!(stopped_log_line(42), "stopped backend pid 42");
}

#[test]
fn a_session_token_is_fresh_and_plain() {
    let first = session_token();
    let second = session_token();

    assert_ne!(first, second);
    assert_eq!(first.len(), 36);
    assert_eq!(first.as_bytes()[14], b'4');
    assert!(first.bytes().all(|b| b == b'-' || b.is_ascii_digit() || (b'a'..=b'f').contains(&b)));
    assert_eq!(
        gateway_ws_url("http://127.0.0.1:8630", &first),
        format!("ws://127.0.0.1:8630/api/ws?token={first}")
    );
}

// --- the connection --------------------------------------------------------

#[test]
fn ws_url_matches_the_electron_contract() {
    assert_eq!(
        gateway_ws_url("http://127.0.0.1:9119", "abc"),
        "ws://127.0.0.1:9119/api/ws?token=abc"
    );
    assert_eq!(
        gateway_ws_url("https://gw.example.com", "tok123"),
        "wss://gw.example.com/api/ws?token=tok123"
    );
    assert_eq!(
        gateway_ws_url("https://host/hermes", "t"),
        "wss://host/hermes/api/ws?token=t"
    );
}

#[test]
fn ws_url_url_encodes_the_token() {
    assert_eq!(
        gateway_ws_url("https://host", "a/b c+d"),
        "wss://host/api/ws?token=a%2Fb%20c%2Bd"
    );
}

#[test]
fn ws_url_keeps_a_bare_host_and_drops_trailing_slashes() {
    assert_eq!(gateway_ws_url("host:1", ""), "ws://host:1/api/ws?token=");
    assert_eq!(gateway_ws_url("https://host/a/b//", "t"), "wss://host/a/b/api/ws?token=t");
    assert_eq!(gateway_ws_url("http://", "t"), "ws:///api/ws?token=t");
}

#[test]
fn a_component_is_encoded_byte_by_byte() {
    assert_eq!(encode_uri_component("Az09-_.!~*'()"), "Az09-_.!~*'()");
    assert_eq!(encode_uri_component("é/"), "%C3%A9%2F");
    assert_eq!(encode_uri_component("😀"), "%F0%9F%98%80");
    assert_eq!(encode_uri_component("%"), "%25");
}

#[test]
fn descriptor_carries_a_local_mode_and_token() {
    let handle = handle(None, Some("boot line\n"));

    let descriptor = descriptor_for(&handle);

    assert_eq!(descriptor.mode, "local");
    assert_eq!(descriptor.profile, "default");
    assert_eq!(descriptor.ws_url, "ws://127.0.0.1:9119/api/ws?token=tok");
    // Retained child output reaches the renderer as a log tail.
    assert_eq!(descriptor.logs, vec!["boot line".to_string()]);
    assert_eq!(descriptor.token, "tok");
    assert_eq!(descriptor.source, "local");
    assert!(!descriptor.is_fullscreen);
}

#[test]
fn descriptor_logs_keep_only_the_newest_lines() {
    let noise: String = (0..DESCRIPTOR_LOG_LINES + 25)
        .map(|line| format!("line {line}\n"))
        .collect();

    let handle = handle(None, Some(&noise));

    let logs = descriptor_for(&handle).logs;

    assert_eq!(logs.len(), DESCRIPTOR_LOG_LINES);
    assert_eq!(logs[0], format!("line {}", 25));
    assert_eq!(logs[DESCRIPTOR_LOG_LINES - 1], format!("line {}", DESCRIPTOR_LOG_LINES + 24));
}

#[test]
fn an_absent_profile_and_the_default_name_share_one_backend() {
    assert!(serves_profile(None, Some("default")));
    assert!(serves_profile(Some("default"), None));
    assert!(serves_profile(Some(""), Some("default")));
    // Whitespace-only reads as unset.
    assert!(serves_profile(Some("  "), None));

    // A named profile is a genuinely different backend.
    assert!(!serves_profile(Some("work"), None));
    assert!(!serves_profile(None, Some("work")));
    assert!(!serves_profile(Some("work"), Some("default")));
}

#[test]
fn a_profile_is_known_by_its_trimmed_name() {
    assert_eq!(canonical_profile(Some(" work\t")), "work");
    assert_eq!(canonical_profile(Some("\u{a0}\u{3000}")), "default");
    assert_eq!(canonical_profile(None), "default");
    assert!(serves_profile(Some("work "), Some(" work")));
}
