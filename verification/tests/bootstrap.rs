//! The first-launch installation.
use hermes_desktop::bootstrap::installer::{
    after_download, choose_script, collect_output, end_output, installer_plan,
    installer_spawn_failure, read_manifest, resolve_install_script, stage_event,
    stamp_can_be_shown, take_output, InstallTarget, InstallerRun, ScriptStep, STDERR, STDOUT,
};
use hermes_desktop::bootstrap::marker::{commit_in, marker_path};
use hermes_desktop::bootstrap::pin::{checkout_head, checkout_head_args, posix_pin_args};
use hermes_desktop::bootstrap::run::{RunAction, RunPhase};
use hermes_desktop::bootstrap::{
    active_root, build_pin_args, install_ref_for_stamp, is_pinned_commit, parse_manifest_payload,
    parse_stage_result, read_existing_pinned_commit, resolve_checkout_head, resolve_install_stamp,
    resolve_marker_pinned_commit, run_bootstrap, write_bootstrap_marker, BootstrapEvent,
    BootstrapMarker, InstallStamp, ManifestPayload, StageDescriptor, StageResult,
};

fn stamp(commit: Option<&str>, branch: Option<&str>) -> InstallStamp {
    InstallStamp {
        commit: commit.map(str::to_string),
        branch: branch.map(str::to_string),
    }
}

/// One line of JSON as a result frame.
fn decode_result(line: &str) -> Option<StageResult> {
    let value: serde_json::Value = serde_json::from_str(line).ok()?;
    Some(StageResult {
        ok: value.get("ok")?.as_bool()?,
        skipped: value.get("skipped").and_then(serde_json::Value::as_bool),
        reason: value.get("reason").and_then(serde_json::Value::as_str).map(str::to_string),
        stage: value.get("stage")?.as_str()?.to_string(),
    })
}

/// One line of JSON as a manifest.
fn decode_manifest(line: &str) -> Option<ManifestPayload> {
    let value: serde_json::Value = serde_json::from_str(line).ok()?;
    let mut stages = Vec::new();
    for entry in value.get("stages")?.as_array()? {
        stages.push(stage(entry.get("name")?.as_str()?));
    }
    Some(ManifestPayload {
        stages,
        protocol_version: value.get("protocolVersion").map(|version| version.to_string()),
    })
}

fn stage(name: &str) -> StageDescriptor {
    StageDescriptor { name: name.to_string(), title: None, category: None, needs_user_input: None }
}

fn ended(stdout: &str) -> InstallerRun {
    InstallerRun::Ended { stdout: stdout.to_string(), stderr: String::new(), code: Some(0) }
}

fn runner_line(event: &BootstrapEvent) -> &str {
    match event {
        BootstrapEvent::Log { stage: None, line, stream } => {
            assert_eq!(stream.as_deref(), Some("stdout"));
            line
        }
        other => panic!("not a line of the runner: {other:?}"),
    }
}

// --- pins ------------------------------------------------------------------

#[test]
fn pin_validation_matches_electron() {
    assert!(is_pinned_commit(Some("a1b2c3d")));
    assert!(is_pinned_commit(Some("a1b2c3d4e5f60718293a4b5c6d7e8f90a1b2c3d")));
    assert!(!is_pinned_commit(Some("0000000")));
    assert!(!is_pinned_commit(Some("abc")));
    assert!(!is_pinned_commit(None));
    assert!(!is_pinned_commit(Some("not-a-sha!")));
}

#[test]
fn a_pin_has_seven_to_forty_digits() {
    assert!(is_pinned_commit(Some(&"A".repeat(40))));
    assert!(!is_pinned_commit(Some(&"A".repeat(41))));
    assert!(!is_pinned_commit(Some("abcdef")));
    assert!(!is_pinned_commit(Some("abcdefé")));
    assert!(!is_pinned_commit(Some("")));
}

#[test]
fn install_ref_prefers_a_real_pin_and_never_asks_github_for_zeros() {
    let pinned = install_ref_for_stamp(Some(&stamp(Some("a1b2c3d4e5f"), Some("main")))).unwrap();

    assert!(pinned.pinned);
    assert_eq!(pinned.ref_name, "a1b2c3d4e5f");
    assert_eq!(pinned.cache_key, "a1b2c3d4e5f");

    let fallback = install_ref_for_stamp(Some(&stamp(Some("0000000000000000000000000000000000000000"), Some("dev")))).unwrap();

    assert!(!fallback.pinned);
    assert_eq!(fallback.ref_name, "dev");
    assert!(fallback.cache_key.starts_with("fallback-"));

    assert!(install_ref_for_stamp(None).is_none());
    assert!(install_ref_for_stamp(Some(&stamp(None, None))).is_none());
}

#[test]
fn a_branch_becomes_a_plain_file_name() {
    let found = install_ref_for_stamp(Some(&stamp(Some("0"), Some("feat/ü x.1_-")))).unwrap();
    assert_eq!(found.ref_name, "feat/ü x.1_-");
    assert_eq!(found.cache_key, "fallback-feat___x.1_-");

    let found = install_ref_for_stamp(Some(&stamp(Some("000"), None))).unwrap();
    assert_eq!(found.ref_name, "main");
    assert_eq!(found.cache_key, "fallback-main");
    assert!(install_ref_for_stamp(Some(&stamp(Some("xyz"), Some("main")))).is_none());
    assert!(install_ref_for_stamp(Some(&stamp(Some(""), Some("main")))).is_none());
}

#[test]
fn pin_args_are_commit_then_branch_and_only_when_pinned() {
    let pinned = build_pin_args(Some(&stamp(Some("a1b2c3d4e5f"), Some("main"))), true);

    assert_eq!(pinned, vec!["-Commit", "a1b2c3d4e5f", "-Branch", "main"]);

    // A repair on an existing checkout must not pin.
    let repair = build_pin_args(Some(&stamp(Some("a1b2c3d4e5f"), Some("main"))), false);

    assert_eq!(repair, vec!["-Branch", "main"]);

    // All-zero fallback never becomes -Commit.
    let fallback = build_pin_args(Some(&stamp(Some("00000000000"), None)), true);

    assert_eq!(fallback, Vec::<String>::new());
}

#[test]
fn posix_pins_name_the_directories_first() {
    assert_eq!(
        posix_pin_args(Some(&stamp(Some("a1b2c3d4e5f"), Some("main"))), "/h/hermes-agent", "/h", true),
        vec!["--dir", "/h/hermes-agent", "--hermes-home", "/h", "--branch", "main", "--commit", "a1b2c3d4e5f"]
    );
    assert_eq!(
        posix_pin_args(None, "/h/hermes-agent", "/h", true),
        vec!["--dir", "/h/hermes-agent", "--hermes-home", "/h"]
    );
}

#[test]
fn marker_pin_resolution_prefers_stamp_then_head_then_existing() {
    assert_eq!(
        resolve_marker_pinned_commit(Some(&stamp(Some("a1b2c3d4e5f"), None)), None, None).as_deref(),
        Some("a1b2c3d4e5f")
    );

    // Fallback stamp: HEAD wins over the existing marker.
    assert_eq!(
        resolve_marker_pinned_commit(
            Some(&stamp(Some("00000000000"), None)),
            Some("deadbeefcafe"),
            Some("a1b2c3d4e5f"),
        )
        .as_deref(),
        Some("deadbeefcafe")
    );

    // No stamp, no HEAD: the existing real pin survives.
    assert_eq!(
        resolve_marker_pinned_commit(None, None, Some("a1b2c3d4e5f")).as_deref(),
        Some("a1b2c3d4e5f")
    );

    assert!(resolve_marker_pinned_commit(None, None, None).is_none());
}

#[test]
fn a_marker_is_read_back() {
    let marker = BootstrapMarker {
        pinned_commit: Some("a1b2c3d4e5f".to_string()),
        pinned_branch: Some("feat/\"x\"".to_string()),
    };
    let text = write_bootstrap_marker(&marker).unwrap();

    assert_eq!(
        text,
        "{\n  \"pinnedBranch\": \"feat/\\\"x\\\"\",\n  \"pinnedCommit\": \"a1b2c3d4e5f\"\n}"
    );
    assert_eq!(read_existing_pinned_commit(Some(&text)).as_deref(), Some("a1b2c3d4e5f"));

    let unpinned = BootstrapMarker { pinned_commit: None, pinned_branch: None };
    let text = write_bootstrap_marker(&unpinned).unwrap();
    assert_eq!(text, "{\n  \"pinnedBranch\": null,\n  \"pinnedCommit\": null\n}");
    assert_eq!(read_existing_pinned_commit(Some(&text)), None);
}

#[test]
fn a_marker_without_a_real_pin_records_none() {
    assert_eq!(read_existing_pinned_commit(None), None);
    assert_eq!(read_existing_pinned_commit(Some("not json")), None);
    assert_eq!(read_existing_pinned_commit(Some("[]")), None);
    assert_eq!(read_existing_pinned_commit(Some("{\"pinnedCommit\": 7}")), None);
    assert_eq!(read_existing_pinned_commit(Some("{\"pinnedCommit\": \"0000000\"}")), None);
    assert_eq!(
        read_existing_pinned_commit(Some("{\"x\": 1, \"pinnedCommit\": \"deadbeef\"}")).as_deref(),
        Some("deadbeef")
    );
    assert_eq!(commit_in(&None), None);
    assert_eq!(marker_path("/h/hermes-agent", false), "/h/hermes-agent/.hermes-bootstrap-complete");
}

#[test]
fn a_checkout_is_at_what_git_prints() {
    assert_eq!(resolve_checkout_head(true, b"deadbeefcafe\n").as_deref(), Some("deadbeefcafe"));
    assert_eq!(resolve_checkout_head(true, b"\xffdeadbeef"), None);
    assert_eq!(resolve_checkout_head(true, b"HEAD"), None);
    assert_eq!(resolve_checkout_head(false, b"deadbeefcafe"), None);
    assert_eq!(checkout_head(true, " deadbeef "), Some("deadbeef".to_string()));
    assert_eq!(checkout_head_args(), vec!["-c", "windows.appendAtomically=false", "rev-parse", "HEAD"]);
}

// --- the stamp -------------------------------------------------------------

#[test]
fn an_explicit_stamp_wins() {
    let decode = |text: &str| text.strip_prefix("commit:").map(|commit| stamp(Some(commit), None));
    let read = |path: &str| match path {
        "/stamp" => Some("commit:file".to_string()),
        "/res/install-stamp.json" => Some("garbage".to_string()),
        "/res/build/install-stamp.json" => Some("commit:build".to_string()),
        "/exe/install-stamp.json" => Some("commit:exe".to_string()),
        _ => None,
    };
    let find = |explicit: Option<&str>, resource: Option<&str>, exe: Option<&str>| {
        resolve_install_stamp(explicit, resource, exe, false, &read, &decode).and_then(|found| found.commit)
    };

    assert_eq!(find(Some(" commit:inline "), Some("/res"), None).as_deref(), Some("inline"));
    assert_eq!(find(Some("/stamp"), Some("/res"), None).as_deref(), Some("file"));
    assert_eq!(find(Some("/none"), Some("/res"), Some("/exe")).as_deref(), Some("build"));
    assert_eq!(find(Some("  "), Some("/other"), Some("/exe")).as_deref(), Some("exe"));
    assert_eq!(find(None, None, None), None);
    assert_eq!(InstallStamp::default(), stamp(None, None));
}

#[test]
fn install_stamp_ignores_the_extra_schema_fields() {
    let read = |path: &str| match path {
        "/res/install-stamp.json" => Some(
            r#"{
                "schemaVersion": 1,
                "commit": "a1b2c3d4e5f6a7b8",
                "branch": "main",
                "builtAt": "2026-01-01T00:00:00Z",
                "dirty": false,
                "source": "ci"
            }"#
            .to_string(),
        ),
        _ => None,
    };
    let decode = |text: &str| {
        let value: serde_json::Value = serde_json::from_str(text).ok()?;
        let field = |name: &str| value.get(name).and_then(serde_json::Value::as_str).map(str::to_string);

        Some(InstallStamp { commit: field("commit"), branch: field("branch") })
    };

    let stamp = resolve_install_stamp(None, Some("/res"), None, false, &read, &decode).unwrap();

    assert_eq!(stamp.commit.as_deref(), Some("a1b2c3d4e5f6a7b8"));
    assert_eq!(stamp.branch.as_deref(), Some("main"));
}

// --- the script ------------------------------------------------------------

#[test]
fn a_source_checkout_is_used_first() {
    let everywhere = |_: &str| true;
    let (step, log) =
        resolve_install_script(Some(&stamp(Some("a1b2c3d4e5f60"), None)), Some("/src"), "/h", false, &everywhere);

    assert_eq!(step, ScriptStep::Use { path: "/src/scripts/install.sh".to_string() });
    assert_eq!(runner_line(&log[0]), "[bootstrap] using local install.sh at /src/scripts/install.sh");
    assert_eq!(log.len(), 1);
}

#[test]
fn a_cached_script_is_used_next() {
    let cached = |path: &str| path == "/h/bootstrap-cache/install-a1b2c3d4e5f60.sh";
    let (step, log) =
        resolve_install_script(Some(&stamp(Some("a1b2c3d4e5f60"), None)), Some("/src"), "/h", false, &cached);

    assert_eq!(step, ScriptStep::Use { path: "/h/bootstrap-cache/install-a1b2c3d4e5f60.sh".to_string() });
    assert_eq!(runner_line(&log[0]), "[bootstrap] using cached install.sh for a1b2c3d4e5f6");
}

#[test]
fn a_missing_script_is_downloaded() {
    let nowhere = |_: &str| false;
    let (step, log) =
        resolve_install_script(Some(&stamp(Some("000"), Some("dev"))), None, "C:\\h", true, &nowhere);

    assert_eq!(
        step,
        ScriptStep::Download {
            url: "https://raw.githubusercontent.com/NousResearch/hermes-agent/dev/scripts/install.ps1".to_string(),
            dest: "C:\\h\\bootstrap-cache\\install-fallback-dev.ps1".to_string(),
        }
    );
    assert_eq!(
        runner_line(&log[0]),
        "[bootstrap] fetching install.ps1 for dev from GitHub (fallback, unpinned)"
    );

    let (step, log) = resolve_install_script(None, None, "/h", false, &nowhere);
    assert_eq!(
        step,
        ScriptStep::Fail {
            error: "Cannot resolve install.sh: no source checkout and no install stamp. This packaged build was produced without a valid build-time stamp.".to_string()
        }
    );
    assert!(log.is_empty());
}

#[test]
fn a_ref_is_shortened_between_characters() {
    assert!(stamp_can_be_shown(None));
    assert!(stamp_can_be_shown(Some(&stamp(Some("0"), Some("short")))));
    assert!(stamp_can_be_shown(Some(&stamp(Some("0"), Some("elevenbytes1é")))) );
    assert!(!stamp_can_be_shown(Some(&stamp(Some("0"), Some("elevenbytesé")))));

    let (_, log) = choose_script(Some(&stamp(Some("0"), Some("tenbytes10é"))), None, "/h", false, false, true);
    assert_eq!(
        runner_line(&log[0]),
        "[bootstrap] using cached install.sh for tenbytes10é (fallback, unpinned)"
    );
}

#[test]
fn a_failed_download_falls_back_to_the_installed_agent() {
    let nowhere = |_: &str| false;
    let installed = |path: &str| path == "/h/hermes-agent/scripts/install.sh";

    let (step, log) = after_download("/h/c.sh", None, "/h", false, &nowhere);
    assert_eq!(step, ScriptStep::Use { path: "/h/c.sh".to_string() });
    assert_eq!(runner_line(&log[0]), "[bootstrap] saved to /h/c.sh");

    let (step, log) = after_download("/h/c.sh", Some("offline"), "/h", false, &installed);
    assert_eq!(step, ScriptStep::Use { path: "/h/hermes-agent/scripts/install.sh".to_string() });
    assert_eq!(
        runner_line(&log[0]),
        "[bootstrap] GitHub fetch failed (offline); falling back to installed agent install.sh at /h/hermes-agent/scripts/install.sh"
    );

    let (step, log) = after_download("/h/c.sh", Some("offline"), "/h", false, &nowhere);
    assert_eq!(step, ScriptStep::Fail { error: "offline".to_string() });
    assert!(log.is_empty());
}

#[test]
fn the_installer_is_called_per_platform() {
    let target = InstallTarget {
        stamp: Some(stamp(Some("a1b2c3d4e5f"), Some("main"))),
        active_root: active_root("/h", false),
        hermes_home: "/h".to_string(),
        is_windows: false,
        pin_commit: false,
    };
    assert_eq!(
        target.manifest_args(),
        vec!["--manifest", "--dir", "/h/hermes-agent", "--hermes-home", "/h", "--branch", "main"]
    );
    let plan = installer_plan("/s.sh", &target.stage_args("python"), "/h", false);
    assert_eq!(plan.program, "bash");
    assert_eq!(
        plan.args,
        vec![
            "/s.sh", "--stage", "python", "--non-interactive", "--json", "--dir", "/h/hermes-agent",
            "--hermes-home", "/h", "--branch", "main",
        ]
    );

    let target = InstallTarget { is_windows: true, pin_commit: true, ..target };
    assert_eq!(
        target.manifest_args(),
        vec!["-Manifest", "-Commit", "a1b2c3d4e5f", "-Branch", "main"]
    );
    let plan = installer_plan("C:\\s.ps1", &target.stage_args("python"), "C:\\h", true);
    assert_eq!(plan.program, "powershell.exe");
    assert_eq!(
        plan.args,
        vec![
            "-NoProfile", "-ExecutionPolicy", "Bypass", "-File", "C:\\s.ps1", "-Stage", "python",
            "-NonInteractive", "-Json", "-Commit", "a1b2c3d4e5f", "-Branch", "main",
        ]
    );
    assert_eq!(plan.hermes_home, "C:\\h");
    assert_eq!(
        installer_spawn_failure("/s.sh", "denied", false),
        "Failed to spawn bash (/s.sh): denied"
    );
}

// --- what the output means -------------------------------------------------

#[test]
fn stage_result_parses_the_last_json_frame() {
    let stdout = "banner line\n{\"ok\":true,\"stage\":\"python\"}\n";

    let parsed = parse_stage_result(stdout, &decode_result).unwrap();

    assert!(parsed.ok);
    assert_eq!(parsed.stage, "python");

    assert!(parse_stage_result("no json here", &decode_result).is_none());
}

#[test]
fn manifest_parses_the_last_stages_payload() {
    let stdout = "info\n{\"stages\":[{\"name\":\"python\"},{\"name\":\"venv\"}],\"protocolVersion\":1}\n";

    let parsed = parse_manifest_payload(stdout, &decode_manifest).unwrap();

    assert_eq!(parsed.stages.len(), 2);
    assert_eq!(parsed.stages[0].name, "python");
    assert_eq!(parsed.stages[1].name, "venv");
    assert_eq!(parsed.protocol_version.as_deref(), Some("1"));
}

#[test]
fn the_last_frame_wins_over_earlier_ones() {
    let stdout = "{\"ok\":false,\"stage\":\"a\"}\r\n  {\"ok\":true,\"stage\":\"b\"}  \n\n[1]\n";
    assert_eq!(parse_stage_result(stdout, &decode_result).unwrap().stage, "b");
    assert!(parse_stage_result("", &decode_result).is_none());
}

fn shown(events: &[BootstrapEvent]) -> Vec<(Option<&str>, &str, Option<&str>)> {
    events
        .iter()
        .map(|event| match event {
            BootstrapEvent::Log { stage, line, stream } => {
                (stage.as_deref(), line.as_str(), stream.as_deref())
            }
            other => panic!("{other:?}"),
        })
        .collect()
}

#[test]
fn output_is_logged_line_by_line() {
    assert_eq!(
        shown(&end_output("one\n\ntwo\nthree", "python", STDOUT)),
        vec![
            (Some("python"), "one", Some("stdout")),
            (Some("python"), "two", Some("stdout")),
            (Some("python"), "three", Some("stdout")),
        ]
    );
    assert_eq!(
        shown(&end_output("bad\r\n", "python", STDERR)),
        vec![(Some("python"), "bad", Some("stderr"))]
    );
    assert!(end_output("", "python", STDOUT).is_empty());
}

#[test]
fn a_line_is_logged_with_the_chunk_that_ends_it() {
    let mut pending = String::new();
    assert!(take_output(&mut pending, "o", "python", STDOUT).is_empty());
    assert_eq!(pending, "o");

    let log = take_output(&mut pending, "ne\n\ntwo\nth", "python", STDOUT);
    assert_eq!(
        shown(&log),
        vec![(Some("python"), "one", Some("stdout")), (Some("python"), "two", Some("stdout"))]
    );
    assert_eq!(pending, "th");

    // A line end may be cut in two.
    assert!(take_output(&mut pending, "ree\r", "python", STDOUT).is_empty());
    let log = take_output(&mut pending, "\n", "python", STDOUT);
    assert_eq!(shown(&log), vec![(Some("python"), "three", Some("stdout"))]);
    assert_eq!(pending, "");

    let mut collected = String::from("a");
    let log = collect_output(&mut collected, &mut pending, b"b\xff\nc", "venv", STDERR);
    assert_eq!(collected, "ab\u{fffd}\nc");
    assert_eq!(shown(&log), vec![(Some("venv"), "b\u{fffd}", Some("stderr"))]);
    assert_eq!(pending, "c");
}

#[test]
fn every_way_to_cut_a_stream_logs_the_same() {
    let stream = "one\r\n\n two\nthree\rfour\n\r\nfive";
    let whole = end_output(stream, "python", STDOUT);

    for first in 0..=stream.len() {
        for second in first..=stream.len() {
            let mut pending = String::new();
            let mut log = Vec::new();
            for chunk in [&stream[..first], &stream[first..second], &stream[second..]] {
                log.extend(take_output(&mut pending, chunk, "python", STDOUT));
                assert!(!pending.contains('\n'));
            }
            log.extend(end_output(&pending, "python", STDOUT));
            assert_eq!(log, whole);
        }
    }
}

#[test]
fn a_manifest_comes_from_a_good_exit_alone() {
    let failed = InstallerRun::Failed { error: "no bash".to_string() };
    assert_eq!(read_manifest(&failed, &decode_manifest), Err("no bash".to_string()));

    let bad = InstallerRun::Ended {
        stdout: "{\"stages\":[]}".to_string(),
        stderr: String::new(),
        code: Some(-1),
    };
    assert_eq!(
        read_manifest(&bad, &decode_manifest),
        Err("installer --manifest failed: exit Some(-1)\n{\"stages\":[]}".to_string())
    );
    let killed = InstallerRun::Ended { stdout: "out".to_string(), stderr: "err".to_string(), code: None };
    assert_eq!(
        read_manifest(&killed, &decode_manifest),
        Err("installer --manifest failed: exit None\nerr".to_string())
    );
    assert_eq!(
        read_manifest(&ended("banner"), &decode_manifest),
        Err("installer --manifest produced no parseable JSON payload\nbanner".to_string())
    );
    assert_eq!(read_manifest(&ended("{\"stages\":[]}"), &decode_manifest).unwrap().stages, Vec::new());
}

#[test]
fn a_stage_ends_as_its_frame_says() {
    let outcome = |run: &InstallerRun| match stage_event(&stage("python"), run, 7, &decode_result) {
        BootstrapEvent::Stage { name, state, duration_ms, json, error } => {
            assert_eq!(name, "python");
            assert_eq!(duration_ms, Some(7));
            (state, json.is_some(), error)
        }
        other => panic!("{other:?}"),
    };

    assert_eq!(outcome(&ended("{\"ok\":true,\"stage\":\"python\"}")), ("succeeded".to_string(), true, None));
    assert_eq!(
        outcome(&ended("{\"ok\":true,\"skipped\":true,\"stage\":\"python\"}")),
        ("skipped".to_string(), true, None)
    );
    assert_eq!(
        outcome(&ended("{\"ok\":false,\"skipped\":true,\"reason\":\"disk\",\"stage\":\"python\"}")),
        ("failed".to_string(), true, Some("disk".to_string()))
    );
    assert_eq!(
        outcome(&ended("{\"ok\":false,\"stage\":\"python\"}")),
        ("failed".to_string(), true, Some("unknown error".to_string()))
    );
    assert_eq!(
        outcome(&ended("garbage")),
        ("failed".to_string(), false, Some("installer --stage python produced no JSON result frame".to_string()))
    );
    assert_eq!(
        outcome(&InstallerRun::Failed { error: "no bash".to_string() }),
        ("failed".to_string(), false, Some("no bash".to_string()))
    );
}

// --- the whole run ---------------------------------------------------------

#[test]
fn an_installation_runs_from_script_to_marker() {
    let nowhere = |_: &str| false;
    let (mut run, step) = run_bootstrap(
        Some(stamp(Some("a1b2c3d4e5f"), Some("main"))),
        "/h/hermes-agent",
        None,
        "/h",
        false,
        false,
        false,
        &nowhere,
    );
    assert!(matches!(step.action, RunAction::Download { .. }));
    assert!(run.target.pin_commit);

    let step = run.on_download(None, &nowhere);
    let RunAction::Run { plan, stage } = step.action else { panic!("the manifest is asked for") };
    assert_eq!(stage, "__manifest__");
    assert_eq!(plan.args[1], "--manifest");
    assert!(plan.args.contains(&"a1b2c3d4e5f".to_string()));

    let manifest = "{\"stages\":[{\"name\":\"python\"},{\"name\":\"venv\"}]}";
    let step = run.on_manifest(&ended(manifest), false, &decode_manifest);
    // The output was logged as it came: what follows is the manifest and the
    // first stage.
    assert_eq!(step.events.len(), 2);
    assert!(matches!(step.events[0], BootstrapEvent::Manifest { .. }));
    assert!(
        matches!(&step.events[1], BootstrapEvent::Stage { name, state, .. } if name == "python" && state == "running")
    );
    assert!(matches!(&step.action, RunAction::Run { stage, .. } if stage == "python"));
    assert_eq!(run.phase, RunPhase::Stage { index: 0 });

    let step = run.on_stage(&ended("{\"ok\":true,\"stage\":\"python\"}"), 5, false, &decode_result);
    assert!(matches!(&step.action, RunAction::Run { stage, .. } if stage == "venv"));

    let step = run.on_stage(&ended("{\"ok\":true,\"stage\":\"venv\"}"), 5, false, &decode_result);
    assert_eq!(step.action, RunAction::ReadPins);

    let step = run.on_pins(Some("deadbeefcafe"), None);
    let RunAction::WriteMarker { marker } = step.action else { panic!("the marker is written") };
    assert_eq!(marker.pinned_commit.as_deref(), Some("a1b2c3d4e5f"));
    assert_eq!(marker.pinned_branch.as_deref(), Some("main"));

    let step = run.on_marker(None);
    assert_eq!(step.events, vec![BootstrapEvent::Complete { marker }]);
    let RunAction::Finish { outcome } = step.action else { panic!("it is over") };
    assert!(outcome.ok);
    assert_eq!(run.phase, RunPhase::Finished);
}

#[test]
fn a_cancelled_installation_starts_nothing() {
    let everywhere = |_: &str| true;
    let (_, step) =
        run_bootstrap(None, "/r", Some("/src"), "/h", false, true, true, &everywhere);
    assert_eq!(
        step.events,
        vec![BootstrapEvent::Failed { stage: None, error: "bootstrap cancelled by user".to_string() }]
    );
    let RunAction::Finish { outcome } = step.action else { panic!("it is over") };
    assert!(outcome.cancelled && !outcome.ok);
    assert_eq!(outcome.error, None);

    // Between two stages.
    let (mut run, _) = run_bootstrap(None, "/r", Some("/src"), "/h", false, true, false, &everywhere);
    assert!(!run.target.pin_commit);
    let step = run.on_manifest(&ended("{\"stages\":[{\"name\":\"a\"}]}"), true, &decode_manifest);
    assert!(matches!(step.events.last(), Some(BootstrapEvent::Failed { stage: None, .. })));
    assert!(matches!(step.action, RunAction::Finish { .. }));
}

#[test]
fn a_failed_stage_ends_the_installation() {
    let everywhere = |_: &str| true;
    let (mut run, _) = run_bootstrap(None, "/r", Some("/src"), "/h", false, false, false, &everywhere);
    run.on_manifest(&ended("{\"stages\":[{\"name\":\"a\"},{\"name\":\"b\"}]}"), false, &decode_manifest);

    let step = run.on_stage(
        &ended("{\"ok\":false,\"reason\":\"disk\",\"stage\":\"a\"}"),
        1,
        false,
        &decode_result,
    );
    assert_eq!(step.events.len(), 2);
    assert!(
        matches!(&step.events[0], BootstrapEvent::Stage { name, state, .. } if name == "a" && state == "failed")
    );
    assert_eq!(
        step.events.last(),
        Some(&BootstrapEvent::Failed { stage: Some("a".to_string()), error: "disk".to_string() })
    );
    let RunAction::Finish { outcome } = step.action else { panic!("it is over") };
    assert_eq!(outcome.failed_stage.as_deref(), Some("a"));
    assert_eq!(outcome.error.as_deref(), Some("disk"));
}

#[test]
fn an_installation_without_a_script_or_marker_fails() {
    let nowhere = |_: &str| false;
    let (run, step) = run_bootstrap(None, "/r", None, "/h", false, false, false, &nowhere);
    assert!(matches!(step.events.last(), Some(BootstrapEvent::Failed { .. })));
    assert_eq!(run.phase, RunPhase::Finished);

    let (mut run, _) =
        run_bootstrap(Some(stamp(Some("0"), None)), "/r", None, "/h", false, false, false, &nowhere);
    let step = run.on_download(Some("offline"), &nowhere);
    assert_eq!(
        step.events,
        vec![BootstrapEvent::Failed { stage: None, error: "offline".to_string() }]
    );

    let everywhere = |_: &str| true;
    let (mut run, _) = run_bootstrap(None, "/r", Some("/src"), "/h", false, false, false, &everywhere);
    // A manifest without stages leads straight to the pins.
    let step = run.on_manifest(&ended("{\"stages\":[]}"), true, &decode_manifest);
    assert_eq!(step.action, RunAction::ReadPins);
    run.on_pins(None, Some("deadbeefcafe"));
    let step = run.on_marker(Some("Failed to write marker: full"));
    assert_eq!(
        step.events,
        vec![BootstrapEvent::Failed { stage: None, error: "Failed to write marker: full".to_string() }]
    );
}
