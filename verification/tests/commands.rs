//! What the renderer is answered.
use hermes_desktop::backend::manager::BackendHandle;
use hermes_desktop::commands::backend::{
    after_event, api_method, api_reply_log_line, api_request_log_line, ensure_backend, hermes_api,
    hermes_api_reply, hermes_backend_recycle, hermes_backend_touch, hermes_connection,
    hermes_connection_for, hermes_connection_revalidate, hermes_gateway_ws_url,
    hermes_gateway_ws_url_for,
    hermes_launch_flags, hermes_pool_limits_get, read_reply, recycle_log_line, request_failure,
    response_failure,
    ApiReply, ApiRequest, ConnectionOptionsFor, EnsureAction, EnsureEvent, EnsurePhase,
    GatewayWsUrlResult, HeldBackend,
};
use hermes_desktop::commands::fs::{
    after_trash, cannot, free_trash_name, hermes_fs_agent_plugins_root,
    hermes_fs_desktop_plugins_root, hermes_fs_git_root, hermes_fs_logs_root, hermes_fs_open_dir,
    hermes_fs_read_dir, hermes_fs_read_text, hermes_fs_rename, hermes_fs_reveal, hermes_fs_trash,
    DirEntryInfo, TrashOutcome, TrashPhase, TrashStep,
};
use hermes_desktop::commands::platform::Platform;
use hermes_desktop::commands::system::{
    apply_remote_display_fallback, contains_word, default_project_dir_file, gpu_fallback_switch,
    hermes_get_remote_display_reason, hermes_keep_awake_set, hermes_logs_recent,
    hermes_logs_renderer_error,
    hermes_native_theme_set, hermes_notify, hermes_open_external, hermes_power_battery_get,
    hermes_select_paths, hermes_select_save_path, hermes_setting_default_project_dir_get,
    hermes_setting_default_project_dir_pick, hermes_setting_default_project_dir_set,
    hermes_version, platform_name, project_dir_dialog, read_default_project_dir,
    remote_display_reason, resolve_default_cwd, write_default_project_dir, KeepAwakeRequest,
    NativeTheme, NotifyPayload, PathPickerFilter, PathPickerOptions, PickKind,
    RendererErrorReport,
};
use hermes_desktop::commands::window::{
    hermes_window_open_browser, hermes_window_open_instance, hermes_window_open_session,
    hermes_window_state, renderer_url, session_route, window_failure, SessionWindowOptions,
    WindowOpenResult,
};
use hermes_desktop::paths::Host;

fn host() -> Host {
    Host {
        is_windows: false,
        home: "/home/ada".to_string(),
        hermes_home: Some("/srv/hermes".to_string()),
        local_appdata: None,
        hermes_venv: None,
    }
}

fn handle() -> BackendHandle {
    BackendHandle {
        pid: 7,
        base_url: "http://127.0.0.1:8630/".to_string(),
        profile: Some(" work ".to_string()),
        token: "tok".to_string(),
        output: None,
    }
}

fn request(path: &str, method: Option<&str>) -> ApiRequest {
    ApiRequest {
        path: path.to_string(),
        method: method.map(str::to_string),
        body: Some("{}".to_string()),
        profile: None,
        timeout_ms: Some(5),
    }
}

fn entry(name: &str, is_directory: bool) -> DirEntryInfo {
    DirEntryInfo { name: name.to_string(), path: format!("/d/{name}"), is_directory }
}

// --- windows ---------------------------------------------------------------

#[test]
fn query_sits_before_the_hash() {
    let url = renderer_url(Some("browser"), &[("tab", "url:browser-1")], None);

    assert_eq!(url, "index.html?win=browser&tab=url%3Abrowser-1#/");
    assert!(url.find("?win=browser").unwrap() < url.find('#').unwrap());
}

#[test]
fn blank_extra_values_are_omitted() {
    let url = renderer_url(Some("session"), &[("profile", ""), ("session", "abc")], Some("/abc"));
    assert_eq!(url, "index.html?win=session&session=abc#/abc");
}

#[test]
fn no_kind_yields_a_bare_app_url() {
    assert_eq!(renderer_url(None, &[], None), "index.html#/");
}

#[test]
fn route_values_are_encoded_as_one_segment() {
    // A session id containing `/` must stay a single route segment — the
    // renderer splits the hash on `/` to find the session.
    assert_eq!(session_route("a b/c"), "/a%20b%2Fc");

    let url = renderer_url(Some("hud"), &[("profile", "my profile")], Some("/a%20b%2Fc"));

    assert_eq!(url, "index.html?win=hud&profile=my%20profile#/a%20b%2Fc");
}

#[test]
fn a_hash_in_a_value_is_no_hash_in_the_url() {
    assert_eq!(renderer_url(None, &[("a", "#"), ("b", "&=")], None), "index.html?a=%23&b=%26%3D#/");
    assert_eq!(renderer_url(Some(""), &[("a", "")], None), "index.html#/");
}

#[test]
fn a_session_window_carries_its_session() {
    let opts = Some(SessionWindowOptions { profile: Some("my work".to_string()), watch: Some(true) });
    let plan = hermes_window_open_session(" a/b ", &opts).unwrap();

    assert_eq!(
        plan.url,
        "index.html?win=session&session=a%2Fb&profile=my%20work&watch=1#/a%2Fb"
    );
    assert_eq!(plan.kind, "session");
    assert!(plan.label.starts_with("session-"));
    assert_eq!(plan.label.len(), "session-".len() + 36);

    let plan = hermes_window_open_session("x", &None).unwrap();
    assert_eq!(plan.url, "index.html?win=session&session=x#/x");

    let refused = hermes_window_open_session(" \t", &None).unwrap_err();
    assert_eq!(refused, WindowOpenResult::failed("empty sessionId"));
}

#[test]
fn other_windows_need_no_session() {
    assert_eq!(hermes_window_open_instance().url, "index.html?win=instance#/");
    assert_eq!(hermes_window_open_browser(None).url, "index.html?win=browser#/");
    assert_eq!(hermes_window_open_browser(Some("  ")).url, "index.html?win=browser#/");
    assert_eq!(hermes_window_open_browser(Some(" t:1 ")).url, "index.html?win=browser&tab=t%3A1#/");
    assert_ne!(hermes_window_open_instance().label, hermes_window_open_instance().label);
    assert!(WindowOpenResult::ok().ok);
    assert_eq!(window_failure("hud", "x"), "failed to open a hud window: x");
    assert!(hermes_window_state(Some(true)).is_fullscreen);
    assert!(!hermes_window_state(None).is_fullscreen);
}

// --- a live backend --------------------------------------------------------

#[test]
fn a_live_backend_is_kept_whatever_its_spelling() {
    let held = Some(HeldBackend { profile: None, alive: true });
    let step = ensure_backend(&held, Some("default"));
    assert_eq!(step.action, EnsureAction::Keep);
    assert!(step.steps.is_empty());

    let dead = Some(HeldBackend { profile: None, alive: false });
    assert_eq!(ensure_backend(&dead, None).action, EnsureAction::StopHeld);
    let other = Some(HeldBackend { profile: Some("work".to_string()), alive: true });
    let step = ensure_backend(&other, None);
    assert_eq!(step.action, EnsureAction::StopHeld);
    assert_eq!(step.steps.len(), 1);
    assert_eq!(step.steps[0].phase, "backend.resolve");
}

#[test]
fn a_backend_is_started_and_reported() {
    let step = ensure_backend(&None, None);
    assert_eq!(step.action, EnsureAction::Spawn);
    let shown: Vec<(&str, Option<u8>)> =
        step.steps.iter().map(|step| (step.phase, step.progress)).collect();
    assert_eq!(shown, vec![("backend.resolve", Some(8)), ("backend.spawn", Some(84))]);

    let step = after_event(&step.phase, &EnsureEvent::Spawned);
    assert_eq!(step.action, EnsureAction::Probe);
    let step = after_event(&step.phase, &EnsureEvent::Answered);
    assert_eq!(step.action, EnsureAction::Hold);
    assert_eq!(step.steps[0].phase, "backend.ready");
    assert_eq!(step.steps[0].progress, Some(94));
    assert_eq!(
        step.steps[0].message,
        "Hermes backend is ready. Finalizing desktop startup"
    );
    assert_eq!(step.phase, EnsurePhase::Finished);
}

#[test]
fn a_missing_backend_is_installed_once() {
    let missing = EnsureEvent::SpawnFailed {
        error: "Hermes backend not found. Looked for a managed runtime at /x and for `hermes` on PATH.".to_string(),
    };
    let step = after_event(&EnsurePhase::Spawning, &missing);
    assert_eq!(step.action, EnsureAction::Install);

    let step = after_event(&step.phase, &EnsureEvent::Installed);
    assert_eq!(step.action, EnsureAction::Spawn);
    assert_eq!(step.phase, EnsurePhase::Respawning);

    let step = after_event(&step.phase, &missing);
    assert!(matches!(step.action, EnsureAction::Fail { .. }));
    assert_eq!(step.steps[0].phase, "backend.error");

    let step = after_event(&EnsurePhase::Installing, &EnsureEvent::InstallFailed { error: None });
    assert_eq!(step.action, EnsureAction::Fail { error: "bootstrap failed".to_string() });
    let step = after_event(
        &EnsurePhase::Installing,
        &EnsureEvent::InstallFailed { error: Some("offline".to_string()) },
    );
    assert_eq!(step.action, EnsureAction::Fail { error: "offline".to_string() });
}

#[test]
fn a_backend_that_does_not_answer_is_reaped() {
    let silent = EnsureEvent::NotAnswered { error: "silent".to_string() };
    let step = after_event(&EnsurePhase::Probing, &silent);
    assert_eq!(step.action, EnsureAction::StopNew);
    assert!(step.steps.is_empty());

    let step = after_event(&step.phase, &EnsureEvent::Reaped);
    assert_eq!(step.action, EnsureAction::Fail { error: "silent".to_string() });
    assert_eq!(step.steps[0].error.as_deref(), Some("silent"));

    let step = after_event(&EnsurePhase::Stopping, &EnsureEvent::Stopped);
    assert_eq!(step.action, EnsureAction::Spawn);
    assert_eq!(step.steps[0].phase, "backend.spawn");

    let other = EnsureEvent::SpawnFailed { error: "died".to_string() };
    let step = after_event(&EnsurePhase::Spawning, &other);
    assert_eq!(step.action, EnsureAction::Fail { error: "died".to_string() });
    assert_eq!(hermes_backend_recycle().progress, Some(4));
    assert!(hermes_backend_recycle().allow_decrease);
}

#[test]
fn a_connection_needs_a_backend() {
    let descriptor = hermes_connection(Some(&handle())).unwrap();
    assert_eq!(descriptor.profile, "work");
    assert_eq!(descriptor.ws_url, "ws://127.0.0.1:8630/api/ws?token=tok");
    assert_eq!(
        hermes_connection(None),
        Err("backend unavailable after a successful start".to_string())
    );

    let scoped = ConnectionOptionsFor { connection_id: Some("ssh-1".to_string()), profile: None };
    assert_eq!(
        hermes_connection_for(&scoped),
        Err("Registry-scoped connections (remote/SSH/cloud) are not wired in the Tauri shell yet.".to_string())
    );
    let local = ConnectionOptionsFor {
        connection_id: Some("  ".to_string()),
        profile: Some("work".to_string()),
    };
    assert_eq!(hermes_connection_for(&local), Ok(Some("work".to_string())));
    assert_eq!(hermes_gateway_ws_url_for(&local), Ok(Some("work".to_string())));
    assert_eq!(
        hermes_gateway_ws_url_for(&scoped),
        Err(GatewayWsUrlResult::failed(
            "Registry-scoped connections (remote/SSH/cloud) are not wired in the Tauri shell yet."
        ))
    );
}

#[test]
fn a_second_look_rebuilds_only_what_died() {
    assert!(!hermes_connection_revalidate(None).rebuilt);
    assert!(!hermes_connection_revalidate(Some(true)).rebuilt);
    assert!(hermes_connection_revalidate(Some(false)).rebuilt);
    assert!(hermes_connection_revalidate(Some(false)).ok);
    assert!(hermes_backend_touch().ok);
    assert_eq!(hermes_pool_limits_get().max_backends, 1);
    assert_eq!(hermes_pool_limits_get().idle_ms, 0);
}

#[test]
fn a_socket_url_is_a_value_either_way() {
    let found = hermes_gateway_ws_url(None, Some(&handle()));
    assert!(found.ok);
    assert_eq!(found.ws_url.as_deref(), Some("ws://127.0.0.1:8630/api/ws?token=tok"));
    assert_eq!(hermes_gateway_ws_url(Some("down"), Some(&handle())), GatewayWsUrlResult::failed("down"));
    assert_eq!(hermes_gateway_ws_url(None, None), GatewayWsUrlResult::failed("backend unavailable"));
}

#[test]
fn launch_flags_read_either_spelling() {
    for (value, expected) in
        [("1", true), ("true", true), ("TRUE", true), ("yes", false), ("", false), ("true ", false)]
    {
        assert_eq!(hermes_launch_flags(Some(value)).local_models, expected, "{value:?}");
    }
    assert!(!hermes_launch_flags(None).local_models);
}

// --- the proxy -------------------------------------------------------------

#[test]
fn a_request_goes_to_the_held_backend() {
    let call = hermes_api(&request("/api/x", Some("post")), Some(&handle())).unwrap();
    assert_eq!(call.method, "POST");
    assert_eq!(call.url, "http://127.0.0.1:8630/api/x");
    assert_eq!(call.token, "tok");
    assert_eq!(call.timeout_ms, Some(5));
    assert_eq!(call.body.as_deref(), Some("{}"));

    let call = hermes_api(&request("/api/x", None), Some(&handle())).unwrap();
    assert_eq!(call.method, "GET");
    assert_eq!(
        hermes_api(&request("/api/x", None), None),
        Err("backend unavailable".to_string())
    );
}

#[test]
fn a_method_is_refused_by_its_characters() {
    for name in ["get", "query", "x-custom", "!#$%&'*+-.^_`|~09"] {
        assert!(hermes_api(&request("/", Some(name)), Some(&handle())).is_ok(), "{name:?}");
    }
    for name in ["", "G T", "GET\n", "a/b", "é", "a:b", "\u{7f}"] {
        let error = hermes_api(&request("/", Some(name)), Some(&handle())).unwrap_err();
        assert_eq!(
            error,
            format!("invalid HTTP method {}: invalid HTTP method", name.to_uppercase())
        );
    }
    assert_eq!(api_method(Some("straße")), "STRASSE");
}

#[test]
fn a_failure_shows_the_backends_own_message() {
    let failure = |status: u16, body: &str| hermes_api_reply(status, body).unwrap_err();
    assert_eq!(failure(404, "{\"detail\":\"no such session\"}"), "404 no such session");
    assert_eq!(failure(500, "{\"error\":\"boom\"}"), "500 boom");
    assert_eq!(failure(400, "{\"error\":\"e\",\"detail\":\"d\"}"), "400 d");
    // A detail that is no string hides the error beside it.
    assert_eq!(failure(422, "{\"detail\":[1],\"error\":\"e\"}"), "422 {\"detail\":[1],\"error\":\"e\"}");
    assert_eq!(failure(502, "bad gateway"), "502 bad gateway");
    assert_eq!(failure(302, ""), "302 ");
    assert_eq!(failure(500, &"é".repeat(500)), format!("500 {}", "é".repeat(400)));
}

#[test]
fn a_success_is_json_or_text() {
    assert_eq!(hermes_api_reply(200, ""), Ok(ApiReply::Null));
    assert_eq!(hermes_api_reply(200, "{\"a\":1}"), Ok(ApiReply::Json));
    assert_eq!(hermes_api_reply(201, " [1, 2] "), Ok(ApiReply::Json));
    assert_eq!(hermes_api_reply(299, "null"), Ok(ApiReply::Json));
    assert_eq!(hermes_api_reply(200, "data: x"), Ok(ApiReply::Text));
    assert_eq!(read_reply(200, "x", &None), Ok(ApiReply::Text));
    assert_eq!(read_reply(200, "x", &Some(Vec::new())), Ok(ApiReply::Json));
}

#[test]
fn the_proxy_logs_both_ways() {
    assert_eq!(api_request_log_line("GET", "/api/x"), "[api] -> GET /api/x");
    assert_eq!(api_reply_log_line("GET", "/api/x", 204), "[api] GET /api/x -> 204");
    assert_eq!(request_failure("http://h/x", "refused"), "request to http://h/x failed: refused");
    assert_eq!(
        response_failure("http://h/x", "eof"),
        "failed to read the response from http://h/x: eof"
    );
}

// --- the filesystem --------------------------------------------------------

#[test]
fn git_root_walks_up_to_the_repository() {
    let ancestors: Vec<String> =
        ["/t/a/b", "/t/a", "/t", "/"].iter().map(|dir| dir.to_string()).collect();
    let found = hermes_fs_git_root(&ancestors, true, false, &|path: &str| path == "/t/.git");

    assert_eq!(found.as_deref(), Some("/t"));
}

#[test]
fn git_root_returns_none_outside_a_repository() {
    let ancestors: Vec<String> = ["/t", "/"].iter().map(|dir| dir.to_string()).collect();
    assert_eq!(hermes_fs_git_root(&ancestors, true, false, &|_: &str| false), None);
}

#[test]
fn a_file_is_looked_for_from_its_directory() {
    let ancestors: Vec<String> = ["/t/f", "/t"].iter().map(|dir| dir.to_string()).collect();
    let everywhere = |_: &str| true;
    assert_eq!(hermes_fs_git_root(&ancestors, false, false, &everywhere).as_deref(), Some("/t"));
    assert_eq!(hermes_fs_git_root(&ancestors, true, false, &everywhere).as_deref(), Some("/t/f"));

    let alone = vec!["f".to_string()];
    assert_eq!(hermes_fs_git_root(&alone, false, false, &everywhere).as_deref(), Some("f"));
}

#[test]
fn read_dir_reports_directories() {
    let result = hermes_fs_read_dir(vec![entry("sub", true), entry("file.txt", false)]);

    let names: Vec<&str> = result.entries.iter().map(|entry| entry.name.as_str()).collect();
    assert_eq!(names, vec!["file.txt", "sub"]);
    assert!(result.entries[1].is_directory);
    assert!(!result.entries[0].is_directory);
}

#[test]
fn a_listing_is_a_stable_sort_by_lower_case() {
    let given = ["b", "A", "ä", "B", "a", "Ab", "É", "é", "_"];
    let result = hermes_fs_read_dir(given.iter().map(|name| entry(name, false)).collect());
    let names: Vec<&str> = result.entries.iter().map(|entry| entry.name.as_str()).collect();

    let mut expected = given.to_vec();
    expected.sort_by(|a, b| a.to_lowercase().cmp(&b.to_lowercase()));
    assert_eq!(names, expected);
    assert_eq!(names[..4], ["_", "A", "a", "Ab"]);
    assert!(hermes_fs_read_dir(Vec::new()).entries.is_empty());
}

#[test]
fn a_listing_does_not_depend_on_the_order_of_the_filesystem() {
    let forward: Vec<DirEntryInfo> = ["c", "a", "b"].iter().map(|name| entry(name, true)).collect();
    let backward: Vec<DirEntryInfo> = forward.iter().rev().cloned().collect();
    assert_eq!(hermes_fs_read_dir(forward), hermes_fs_read_dir(backward));
}

#[test]
fn a_text_is_cut_at_its_limit() {
    let read = hermes_fs_read_text(b"hello", Some(3));
    assert_eq!(read.text, "hel");
    assert!(read.truncated);

    let read = hermes_fs_read_text(b"hello", Some(5));
    assert_eq!(read.text, "hello");
    assert!(!read.truncated);

    // A cut inside a character shows a replacement.
    assert_eq!(hermes_fs_read_text("é".as_bytes(), Some(1)).text, "\u{fffd}");
    assert!(!hermes_fs_read_text(b"", None).truncated);
    assert!(hermes_fs_read_text(&vec![b'x'; 4 * 1024 * 1024 + 1], None).truncated);
}

#[test]
fn rename_rejects_a_path_separator() {
    let result = hermes_fs_rename("/tmp/x", Some("/tmp"), "../escape", false);

    assert!(result.is_err());
    assert_eq!(result, Err("invalid file name: ../escape".to_string()));
}

#[test]
fn a_rename_stays_in_its_folder() {
    assert_eq!(hermes_fs_rename("/tmp/x", Some("/tmp"), " y ", false), Ok("/tmp/y".to_string()));
    assert_eq!(hermes_fs_rename("/tmp/x", Some("/tmp"), "  ", false), Err("invalid file name:   ".to_string()));
    assert_eq!(
        hermes_fs_rename("/tmp/x", Some("/tmp"), "a\\b", false),
        Err("invalid file name: a\\b".to_string())
    );
    assert_eq!(
        hermes_fs_rename("/", None, "y", false),
        Err("/ has no parent directory".to_string())
    );
    assert_eq!(
        hermes_fs_rename("\\\\?\\C:\\d\\x", Some("\\\\?\\C:\\d"), "y", true),
        Ok("\\\\?\\C:\\d\\y".to_string())
    );
    assert_eq!(cannot("rename", "/tmp/x", "busy"), "cannot rename /tmp/x: busy");
}

#[test]
fn the_roots_hang_below_the_home() {
    assert_eq!(hermes_fs_desktop_plugins_root(&host()), "/srv/hermes/desktop-plugins");
    assert_eq!(hermes_fs_agent_plugins_root(&host()), "/srv/hermes/plugins");
    assert_eq!(hermes_fs_logs_root(&host()), "/srv/hermes/logs");
}

#[test]
fn the_file_manager_is_called_per_platform() {
    let reveal = hermes_fs_reveal("C:\\a b", false, None, Platform::Windows);
    assert_eq!((reveal.program.as_str(), reveal.args), ("explorer", vec!["/select,C:\\a b".to_string()]));

    let reveal = hermes_fs_reveal("/a", false, None, Platform::MacOs);
    assert_eq!((reveal.program.as_str(), reveal.args), ("open", vec!["-R".to_string(), "/a".to_string()]));

    let reveal = |is_dir, parent| hermes_fs_reveal("/d/a", is_dir, parent, Platform::Other).args;
    assert_eq!(reveal(false, Some("/d")), vec!["/d"]);
    assert_eq!(reveal(true, Some("/d")), vec!["/d/a"]);
    assert_eq!(reveal(false, None), vec!["/d/a"]);

    for (host, program) in
        [(Platform::Windows, "explorer"), (Platform::MacOs, "open"), (Platform::Other, "xdg-open")]
    {
        let open = hermes_fs_open_dir("/d", host);
        assert_eq!((open.program.as_str(), open.args), (program, vec!["/d".to_string()]));
    }
}

#[test]
fn the_recycle_bin_is_asked_twice() {
    let TrashStep::Run { command, phase } =
        hermes_fs_trash("C:\\it's", true, Some("it's"), "C:\\u", Platform::Windows)
    else {
        panic!("the recycle bin is asked");
    };
    assert_eq!(command.program, "powershell");
    assert_eq!(
        command.args[3],
        "Add-Type -AssemblyName Microsoft.VisualBasic; [Microsoft.VisualBasic.FileIO.FileSystem]::DeleteFile('C:\\it''s','OnlyErrorDialogs','SendToRecycleBin')"
    );

    let refused = TrashOutcome::Ended { success: false };
    let TrashStep::Run { command, phase } = after_trash("C:\\it's", phase, &refused) else {
        panic!("it is asked again");
    };
    assert!(command.args[3].contains("::DeleteDirectory('C:\\it''s',"));
    assert_eq!(
        after_trash("C:\\it's", phase, &refused),
        TrashStep::Failed { error: "cannot move C:\\it's to the recycle bin".to_string() }
    );
    assert_eq!(
        after_trash("C:\\x", TrashPhase::RecycleFile, &TrashOutcome::Failed { error: "no shell".to_string() }),
        TrashStep::Failed { error: "cannot move C:\\x to the recycle bin: no shell".to_string() }
    );
}

#[test]
fn what_is_gone_needs_no_trash() {
    assert_eq!(
        hermes_fs_trash("/x", false, Some("x"), "/home/ada", Platform::Other),
        TrashStep::Done { log_line: None }
    );
    let TrashStep::Run { command, phase } =
        hermes_fs_trash("/x", true, Some("x"), "/home/ada", Platform::Other)
    else {
        panic!("the trash program is run");
    };
    assert_eq!((command.program.as_str(), command.args), ("gio", vec!["trash".to_string(), "--".to_string(), "/x".to_string()]));
    assert_eq!(
        after_trash("/x", phase, &TrashOutcome::Ended { success: true }),
        TrashStep::Done { log_line: Some("trashed /x".to_string()) }
    );
    assert_eq!(
        after_trash("/x", phase, &TrashOutcome::Ended { success: false }),
        TrashStep::Failed { error: "cannot move /x to the trash".to_string() }
    );
}

#[test]
fn the_trash_directory_is_never_overwritten() {
    assert_eq!(
        hermes_fs_trash("/d/x", true, Some("x"), "/Users/ada", Platform::MacOs),
        TrashStep::FindName { trash: "/Users/ada/.Trash".to_string(), file_name: "x".to_string() }
    );
    assert_eq!(
        hermes_fs_trash("/", true, None, "/Users/ada", Platform::MacOs),
        TrashStep::Failed { error: "/ has no file name".to_string() }
    );

    let empty = |_: &str| false;
    assert_eq!(free_trash_name("/T", "x", &empty).as_deref(), Some("/T/x"));
    let taken = |path: &str| path == "/T/x" || path == "/T/x 2";
    assert_eq!(free_trash_name("/T", "x", &taken).as_deref(), Some("/T/x 3"));
    assert_eq!(
        after_trash("/d/x", TrashPhase::Move, &TrashOutcome::Failed { error: "busy".to_string() }),
        TrashStep::Failed { error: "cannot move /d/x to Trash: busy".to_string() }
    );
}

// --- the system ------------------------------------------------------------

#[test]
fn a_saved_directory_reads_back() {
    let project = "/work/project";
    let stored = write_default_project_dir(Some(project));

    assert_eq!(
        read_default_project_dir(Some(&stored), &|path: &str| path == project).as_deref(),
        Some(project)
    );
}

#[test]
fn a_directory_that_is_gone_reads_as_unset() {
    let stored = write_default_project_dir(Some("/work/project"));

    assert_eq!(read_default_project_dir(Some(&stored), &|_: &str| false), None);
}

#[test]
fn clearing_leaves_nothing_to_read_back() {
    let stored = write_default_project_dir(None);

    assert_eq!(stored, "");
    assert_eq!(read_default_project_dir(Some(&stored), &|_: &str| true), None);
    assert_eq!(read_default_project_dir(None, &|_: &str| true), None);
}

#[test]
fn a_blank_value_is_not_a_setting() {
    let stored = write_default_project_dir(Some("   "));

    assert_eq!(read_default_project_dir(Some(&stored), &|_: &str| true), None);
    assert_eq!(hermes_setting_default_project_dir_set(Some("   ")).dir, None);
    assert_eq!(hermes_setting_default_project_dir_set(Some(" /w ")).dir.as_deref(), Some("/w"));
    assert_eq!(hermes_setting_default_project_dir_set(None).dir, None);
}

#[test]
fn resolved_cwd_falls_back_to_home() {
    let home_dir_string = "/home/ada".to_string();

    assert_eq!(resolve_default_cwd(Some("/work"), &home_dir_string), "/work");
    assert_eq!(resolve_default_cwd(None, &home_dir_string), home_dir_string);
}

#[test]
fn the_setting_does_not_follow_the_hermes_home() {
    let moved = Host { hermes_home: Some("/elsewhere".to_string()), ..host() };

    assert_eq!(default_project_dir_file(None, &moved), default_project_dir_file(None, &host()));
}

#[test]
fn the_setting_is_shown_with_its_fallback() {
    let there = |_: &str| true;
    let state = hermes_setting_default_project_dir_get(Some(" /w\n"), "/home/ada", &there);
    assert_eq!(state.dir.as_deref(), Some("/w"));
    assert_eq!(state.resolved_cwd, "/w");
    assert_eq!(state.default_label, "/home/ada");

    let gone = |_: &str| false;
    let state = hermes_setting_default_project_dir_get(Some("/w"), "/home/ada", &gone);
    assert_eq!(state.dir, None);
    assert_eq!(state.resolved_cwd, "/home/ada");

    let pick = hermes_setting_default_project_dir_pick(&vec!["/p".to_string(), "/q".to_string()]);
    assert_eq!((pick.canceled, pick.dir.as_deref()), (false, Some("/p")));
    assert!(hermes_setting_default_project_dir_pick(&Vec::new()).canceled);
    assert_eq!(
        default_project_dir_file(None, &host()),
        "/home/ada/.local/share/Hermes/default-project-dir.txt"
    );
    assert_eq!(
        default_project_dir_file(Some("/data"), &host()),
        "/data/Hermes/default-project-dir.txt"
    );
}

/// `remote_display_reason` against a fixed environment.
fn reason_with(platform: &str, pairs: &[(&str, &str)]) -> Option<String> {
    remote_display_reason(
        |key: &str| {
            pairs
                .iter()
                .find(|(name, _)| *name == key)
                .map(|(_, value)| value.to_string())
        },
        platform,
    )
}

#[test]
fn a_remote_display_is_named_the_way_the_banner_shows_it() {
    assert_eq!(reason_with("win32", &[]), None);
    assert_eq!(reason_with("darwin", &[]), None);

    // RDP names the session; the local console is "Console" and is not one,
    // and the comparison is case-insensitive.
    assert_eq!(
        reason_with("win32", &[("SESSIONNAME", "RDP-Tcp#7")]).as_deref(),
        Some("rdp (SESSIONNAME=RDP-Tcp#7)")
    );
    assert_eq!(
        reason_with("win32", &[("SESSIONNAME", "rdp-tcp#7")]).as_deref(),
        Some("rdp (SESSIONNAME=rdp-tcp#7)")
    );
    assert_eq!(reason_with("win32", &[("SESSIONNAME", "Console")]), None);

    // A session name only means RDP on Windows.
    assert_eq!(reason_with("linux", &[("SESSIONNAME", "RDP-Tcp#7")]), None);

    assert_eq!(
        reason_with("win32", &[("SSH_CONNECTION", "10.0.0.1 5 10.0.0.2 22")]).as_deref(),
        Some("ssh-session")
    );
    assert_eq!(
        reason_with("win32", &[("SSH_TTY", "/dev/pts/1")]).as_deref(),
        Some("ssh-session")
    );

    // An empty variable is an unset one, so it must not count as a tell.
    assert_eq!(reason_with("win32", &[("SSH_CONNECTION", "")]), None);

    // X11 forwarding carries a host before the colon; a local server is ":0".
    assert_eq!(
        reason_with("linux", &[("DISPLAY", "localhost:10.0")]).as_deref(),
        Some("x11-forwarding (DISPLAY=localhost:10.0)")
    );
    assert_eq!(reason_with("linux", &[("DISPLAY", ":0")]), None);
    assert_eq!(reason_with("linux", &[("DISPLAY", "")]), None);

    // …and X11 is a Linux question.
    assert_eq!(
        reason_with("win32", &[("DISPLAY", "localhost:10.0")]),
        None
    );
}

#[test]
fn the_gpu_override_outranks_every_detection() {
    // Forcing it off has to work where no check fires.
    assert_eq!(
        reason_with("win32", &[("HERMES_DESKTOP_DISABLE_GPU", "1")]).as_deref(),
        Some("override (HERMES_DESKTOP_DISABLE_GPU)")
    );
    // Spelled loosely — trimmed and case-folded.
    assert_eq!(
        reason_with("win32", &[("HERMES_DESKTOP_DISABLE_GPU", " YES ")]).as_deref(),
        Some("override (HERMES_DESKTOP_DISABLE_GPU)")
    );

    // …and forcing it back on has to beat a real detection, or a user whose
    // remote display renders fine has no way out.
    assert_eq!(
        reason_with(
            "win32",
            &[
                ("HERMES_DESKTOP_DISABLE_GPU", "0"),
                ("SESSIONNAME", "RDP-Tcp#7")
            ]
        ),
        None
    );
    assert_eq!(
        reason_with(
            "linux",
            &[("HERMES_DESKTOP_DISABLE_GPU", "off"), ("SSH_CONNECTION", "x")]
        ),
        None
    );

    // Absent, blank and unrecognized all mean "decide it yourself".
    assert_eq!(reason_with("win32", &[("HERMES_DESKTOP_DISABLE_GPU", "")]), None);
    assert_eq!(
        reason_with(
            "win32",
            &[
                ("HERMES_DESKTOP_DISABLE_GPU", "maybe"),
                ("SESSIONNAME", "RDP-Tcp#7")
            ]
        )
        .as_deref(),
        Some("rdp (SESSIONNAME=RDP-Tcp#7)")
    );
}

#[test]
fn a_switch_is_added_and_never_replaced() {
    let plan = apply_remote_display_fallback(Some("ssh-session"), "windows", Some("--foo --disable-gpu-vsync"));
    assert_eq!(
        plan.set,
        Some((
            "WEBVIEW2_ADDITIONAL_BROWSER_ARGUMENTS".to_string(),
            "--foo --disable-gpu-vsync --disable-gpu".to_string()
        ))
    );
    assert_eq!(plan.log.as_deref(), Some("INFO  software rendering enabled (ssh-session)"));

    let again = apply_remote_display_fallback(Some("ssh-session"), "windows", Some("--foo\t--disable-gpu"));
    assert_eq!(again.set, None);

    let fresh = apply_remote_display_fallback(Some("ssh-session"), "linux", None);
    assert_eq!(
        fresh.set,
        Some(("WEBKIT_DISABLE_COMPOSITING_MODE".to_string(), "1".to_string()))
    );
    let blank = apply_remote_display_fallback(Some("ssh-session"), "linux", Some("  "));
    assert_eq!(blank.set.unwrap().1, "1");

    let none = apply_remote_display_fallback(Some("ssh-session"), "macos", None);
    assert_eq!(none.set, None);
    assert_eq!(
        none.log.as_deref(),
        Some("WARN  remote display detected (ssh-session) but this platform has no software-rendering switch")
    );
    let local = apply_remote_display_fallback(None, "windows", None);
    assert_eq!((local.set, local.log), (None, None));
}

#[test]
fn a_word_stands_between_white_space() {
    for (s, word) in
        [("a", "a"), ("a b", "b"), (" a ", "a"), ("ab", "a"), ("", "a"), ("x\u{3000}a", "a"), ("aa", "a"), ("a,b", "b")]
    {
        assert_eq!(contains_word(s, word), s.split_whitespace().any(|part| part == word), "{s:?} {word:?}");
    }
    assert!(gpu_fallback_switch("macos").is_none());
    assert_eq!(hermes_get_remote_display_reason(Some("ssh-session"), "macos"), None);
    assert_eq!(
        hermes_get_remote_display_reason(Some("ssh-session"), "linux").as_deref(),
        Some("ssh-session")
    );
    assert_eq!(hermes_get_remote_display_reason(None, "linux"), None);
}

#[test]
fn the_shell_says_what_it_is() {
    let version = hermes_version("1.2.3", "2.0", "macos", &host());
    assert_eq!(version.platform, "darwin");
    assert_eq!(version.app_version, "1.2.3");
    assert_eq!(version.tauri_version, "2.0");
    assert_eq!(version.hermes_root, "/srv/hermes");
    assert_eq!(version.shell, "tauri");
    assert_eq!(version.node_version, "");
    assert_eq!(platform_name("windows"), "win32");
    assert_eq!(platform_name("linux"), "linux");
}

#[test]
fn links_and_notifications_have_defaults() {
    assert_eq!(hermes_open_external(" https://x "), Ok("https://x".to_string()));
    assert_eq!(hermes_open_external(" "), Err("refusing to open an empty URL".to_string()));

    let bare = NotifyPayload { title: None, body: None };
    assert_eq!(hermes_notify(&bare), ("Hermes".to_string(), String::new()));
    let full = NotifyPayload { title: Some("t".to_string()), body: Some("b".to_string()) };
    assert_eq!(hermes_notify(&full), ("t".to_string(), "b".to_string()));
}

#[test]
fn an_error_report_is_logged_part_by_part() {
    let bare = RendererErrorReport { message: None, component_stack: None, stack: None };
    assert_eq!(hermes_logs_renderer_error(&bare), vec!["ERROR renderer: unknown renderer error"]);

    let full = RendererErrorReport {
        message: Some("m".to_string()),
        component_stack: Some("c".to_string()),
        stack: Some("s".to_string()),
    };
    assert_eq!(
        hermes_logs_renderer_error(&full),
        vec!["ERROR renderer: m", "ERROR renderer stack: s", "ERROR renderer component stack: c"]
    );
    assert_eq!(hermes_logs_recent(Some("a\nb\n")), vec!["a", "b"]);
    assert_eq!(hermes_logs_recent(None), Vec::<String>::new());
}

#[test]
fn a_dialog_picks_several_files_unless_told_otherwise() {
    let ask = |directories, multiple| {
        hermes_select_paths(&PathPickerOptions { directories, multiple, ..PathPickerOptions::default() }).kind
    };
    assert_eq!(ask(false, None), PickKind::Files);
    assert_eq!(ask(false, Some(true)), PickKind::Files);
    assert_eq!(ask(false, Some(false)), PickKind::File);
    assert_eq!(ask(true, None), PickKind::Folders);
    assert_eq!(ask(true, Some(false)), PickKind::Folder);

    let options = PathPickerOptions {
        title: Some("  ".to_string()),
        default_path: Some(" /d ".to_string()),
        ..PathPickerOptions::default()
    };
    let plan = hermes_select_save_path(&options);
    assert_eq!(plan.kind, PickKind::Save);
    assert_eq!(plan.title, None);
    assert_eq!(plan.directory.as_deref(), Some(" /d "));
}

#[test]
fn a_dialog_offers_the_kinds_of_file_that_were_asked_for() {
    let filters = vec![
        PathPickerFilter {
            name: "Images".to_string(),
            extensions: vec!["png".to_string(), "jpg".to_string()],
        },
        PathPickerFilter { name: "Nothing".to_string(), extensions: vec![] },
    ];
    let options = PathPickerOptions { filters: Some(filters.clone()), ..PathPickerOptions::default() };
    assert_eq!(hermes_select_paths(&options).filters, filters);
    assert_eq!(hermes_select_save_path(&options).filters, filters);
    assert!(hermes_select_paths(&PathPickerOptions::default()).filters.is_empty());
    assert!(hermes_select_save_path(&PathPickerOptions::default()).filters.is_empty());
}

#[test]
fn the_project_directory_is_picked_as_one_folder() {
    let plan = project_dir_dialog(Some("/work"), "/home/ada");
    assert_eq!(plan.kind, PickKind::Folder);
    assert_eq!(plan.title, None);
    assert_eq!(plan.directory.as_deref(), Some("/work"));
    assert!(plan.filters.is_empty());
    assert_eq!(project_dir_dialog(None, "/home/ada").directory.as_deref(), Some("/home/ada"));
    assert_eq!(project_dir_dialog(None, " ").directory, None);
}

#[test]
fn a_lit_display_keeps_the_system_awake() {
    assert_eq!(
        hermes_keep_awake_set(true),
        KeepAwakeRequest { continuous: true, system_required: true, display_required: true }
    );
    assert_eq!(
        hermes_keep_awake_set(false),
        KeepAwakeRequest { continuous: true, system_required: false, display_required: false }
    );
}

#[test]
fn a_recycle_logs_both_profiles() {
    assert_eq!(
        recycle_log_line(4711, None, Some("work")),
        "recycling backend pid 4711 (held profile None, requested Some(\"work\"))"
    );
    assert_eq!(
        recycle_log_line(1, Some("a\"b\n"), None),
        "recycling backend pid 1 (held profile Some(\"a\\\"b\\n\"), requested None)"
    );
}

#[test]
fn an_unknown_theme_is_no_pin() {
    assert_eq!(hermes_native_theme_set(Some(" dark ")), Some(NativeTheme::Dark));
    assert_eq!(hermes_native_theme_set(Some("light")), Some(NativeTheme::Light));
    assert_eq!(hermes_native_theme_set(Some("system")), None);
    assert_eq!(hermes_native_theme_set(Some("Dark")), None);
    assert_eq!(hermes_native_theme_set(None), None);
    assert!(hermes_power_battery_get(Some(0)));
    assert!(!hermes_power_battery_get(Some(255)));
    assert!(!hermes_power_battery_get(None));
}
