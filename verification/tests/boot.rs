//! Boot progress and the installer's snapshot.
use hermes_desktop::boot::{
    boot_log_line, BootProgress, BootstrapState, DesktopBootProgress, DesktopBootstrapState, Step,
    BOOTSTRAP_EVENT, BOOTSTRAP_LOG_RING_MAX, BOOT_PROGRESS_EVENT,
};
use hermes_desktop::bootstrap::{BootstrapEvent, BootstrapMarker, StageDescriptor, StageResult};
use hermes_desktop::commands::boot::{
    hermes_bootstrap_cancel, hermes_bootstrap_repair, hermes_bootstrap_reset,
    hermes_bootstrap_start, run_bootstrap_flow,
};

fn stage(name: &str) -> StageDescriptor {
    StageDescriptor { name: name.to_string(), title: None, category: None, needs_user_input: None }
}

fn log(line: &str) -> BootstrapEvent {
    BootstrapEvent::Log { stage: None, line: line.to_string(), stream: Some("stdout".to_string()) }
}

#[test]
fn the_bar_climbs_over_a_concurrent_step_but_a_rewind_moves_it_back() {
    let cases = [
        (
            "an out-of-order phase cannot pull it down",
            Step::running("backend.spawn", "spawning", 84),
            Step::running("backend.resolve", "resolving", 8),
            84,
        ),
        (
            "the next real phase moves it up",
            Step::running("backend.spawn", "spawning", 84),
            Step::running("backend.ready", "ready", 96),
            96,
        ),
        (
            "a reconnect rewinds it on purpose",
            Step::running("backend.spawn", "spawning", 84),
            Step::rewind("backend.resolve", "restarting", 4),
            4,
        ),
        (
            "a failure holds the bar where the boot died",
            Step::running("backend.spawn", "spawning", 84),
            Step::failed("spawn denied"),
            84,
        ),
        (
            "progress is clamped to the bar's range",
            Step::running("backend.spawn", "spawning", 84),
            Step::running("backend.ready", "ready", 250),
            100,
        ),
    ];

    for (name, first, second, expected) in cases {
        let mut progress = BootProgress::new();
        progress.apply(first);

        assert_eq!(progress.apply(second).progress, expected, "{name}");
    }
}

#[test]
fn a_failure_stops_running_and_refuses_an_automatic_retry() {
    let mut progress = BootProgress::new();
    progress.apply(Step::running("backend.spawn", "spawning", 84));

    let failed = progress.apply(Step::failed("hermes: not found"));

    assert_eq!(failed.running, false);
    assert_eq!(failed.retryable, Some(false));
    assert_eq!(failed.phase, "backend.error");
    assert_eq!(failed.error.as_deref(), Some("hermes: not found"));
    assert!(
        failed.message.contains("hermes: not found"),
        "the overlay shows `message`, so it has to carry the reason: {}",
        failed.message
    );
}

#[test]
fn a_later_step_clears_a_latched_failure() {
    let mut progress = BootProgress::new();
    progress.apply(Step::failed("spawn denied"));

    let recovered = progress.apply(Step::rewind("backend.resolve", "retrying", 4));

    assert_eq!(recovered.error, None);
    assert_eq!(recovered.retryable, None);
    assert_eq!(recovered.running, true);
}

#[test]
fn the_slot_starts_idle() {
    let snapshot = BootProgress::new().snapshot();

    assert_eq!(snapshot.phase, "idle");
    assert_eq!(snapshot.progress, 0);
    assert_eq!(snapshot.running, false);
    assert_eq!(snapshot.error, None);
    assert_eq!(snapshot.fake_mode, false);
}

#[test]
fn a_step_is_stamped_with_its_time() {
    let mut progress = BootProgress::default();
    let shown = progress.apply_at(Step::running("backend.spawn", "Starting", 84), 1234);

    assert_eq!(shown.timestamp, 1234);
    assert_eq!(shown.message, "Starting");
    assert_eq!(shown, progress.snapshot());
    assert_eq!(boot_log_line(&shown), "[boot] backend.spawn — Starting");

    // A clock of this century.
    assert!(DesktopBootProgress::idle().timestamp > 1_600_000_000_000);
    assert_eq!(DesktopBootProgress::idle_at(5).timestamp, 5);
    assert_eq!(DesktopBootProgress::idle_at(5).message, "Waiting to start Hermes backend");
    assert_eq!(BOOT_PROGRESS_EVENT, "hermes:boot-progress");
    assert_eq!(BOOTSTRAP_EVENT, "hermes:bootstrap-event");
}

#[test]
fn a_rewind_is_clamped_too() {
    let mut progress = BootProgress::new();
    assert_eq!(progress.apply(Step::rewind("p", "m", 200)).progress, 100);
    assert_eq!(
        progress.apply(Step::failed("x")).message,
        "Hermes backend failed to start: x"
    );
    assert_eq!(progress.snapshot().progress, 100);
}

#[test]
fn nothing_active_is_what_hides_the_installer_overlay() {
    let snapshot = DesktopBootstrapState::inactive();

    // The overlay reads these four to decide whether to render.
    assert_eq!(snapshot.active, false);
    assert_eq!(snapshot.error, None);
    assert_eq!(snapshot.setup_choice, None);
    assert_eq!(snapshot.unsupported_platform, None);
    assert_eq!(BootstrapState::new().snapshot(), snapshot);
    assert_eq!(BootstrapState::default().snapshot(), snapshot);
}

#[test]
fn a_manifest_lists_its_stages_once_each() {
    let mut state = BootstrapState::new();
    let manifest = BootstrapEvent::Manifest {
        stages: vec![stage("python"), stage("venv"), stage("python")],
        protocol_version: Some("1".to_string()),
    };

    let shown = state.apply_runner_event_at(&manifest, 10);
    assert!(shown.active);
    assert_eq!(shown.started_at, Some(10));
    assert_eq!(shown.stages.len(), 2);
    assert!(shown.stages.iter().all(|entry| entry.status.state == "pending"));
    assert_eq!(shown.manifest.as_ref().unwrap().stages.len(), 3);

    // A second manifest keeps the start and replaces the stages.
    let later = BootstrapEvent::Manifest { stages: vec![stage("node")], protocol_version: None };
    let shown = state.apply_runner_event_at(&later, 20);
    assert_eq!(shown.started_at, Some(10));
    assert_eq!(shown.stages.len(), 1);
}

#[test]
fn a_stage_replaces_its_own_status() {
    let mut state = BootstrapState::new();
    let manifest = BootstrapEvent::Manifest {
        stages: vec![stage("python"), stage("venv")],
        protocol_version: None,
    };
    state.apply_runner_event_at(&manifest, 1);

    let ended = BootstrapEvent::Stage {
        name: "venv".to_string(),
        state: "succeeded".to_string(),
        duration_ms: Some(7),
        json: Some(StageResult { ok: true, skipped: None, reason: None, stage: "venv".to_string() }),
        error: None,
    };
    let shown = state.apply_runner_event_at(&ended, 2);
    assert_eq!(shown.stages.len(), 2);

    let find = |name: &str| shown.stages.iter().find(|entry| entry.name == name).unwrap();
    assert_eq!(find("python").status.state, "pending");
    assert_eq!(find("venv").status.state, "succeeded");
    assert_eq!(find("venv").status.duration_ms, Some(7));
    assert!(find("venv").status.json.as_ref().unwrap().ok);

    // A stage that was not announced is added.
    let other = BootstrapEvent::Stage {
        name: "extra".to_string(),
        state: "running".to_string(),
        duration_ms: None,
        json: None,
        error: None,
    };
    assert_eq!(state.apply_runner_event_at(&other, 3).stages.len(), 3);
}

#[test]
fn the_log_is_a_ring() {
    let mut state = BootstrapState::new();
    for line in 0..BOOTSTRAP_LOG_RING_MAX + 3 {
        state.apply_runner_event_at(&log(&format!("line {line}")), line as u64);
    }

    let shown = state.snapshot();
    assert_eq!(shown.log.len(), BOOTSTRAP_LOG_RING_MAX);
    assert_eq!(shown.log[0].line, "line 3");
    assert_eq!(shown.log[0].ts, 3);
    assert_eq!(shown.log[BOOTSTRAP_LOG_RING_MAX - 1].line, "line 502");
    assert_eq!(shown.log[0].stream.as_deref(), Some("stdout"));
}

#[test]
fn the_log_keeps_its_order_among_other_reports() {
    let mut state = BootstrapState::new();
    let manifest = BootstrapEvent::Manifest { stages: vec![stage("python")], protocol_version: None };
    for (at, event) in [log("a"), manifest, log("b"), log("c")].iter().enumerate() {
        state.apply_runner_event_at(event, at as u64);
    }

    let shown = state.snapshot();
    let lines: Vec<(&str, u64)> = shown.log.iter().map(|entry| (entry.line.as_str(), entry.ts)).collect();
    assert_eq!(lines, vec![("a", 0), ("b", 2), ("c", 3)]);
}

#[test]
fn a_terminal_event_ends_the_installation() {
    let mut state = BootstrapState::new();
    run_bootstrap_flow(&mut state, false);
    assert!(state.snapshot().active);

    let failed = BootstrapEvent::Failed { stage: None, error: "offline".to_string() };
    let shown = state.apply_runner_event_at(&failed, 5);
    assert!(!shown.active);
    assert_eq!(shown.error.as_deref(), Some("offline"));
    assert_eq!(shown.completed_at, None);

    let marker = BootstrapMarker { pinned_commit: None, pinned_branch: None };
    let shown = state.apply_runner_event_at(&BootstrapEvent::Complete { marker }, 6);
    assert!(!shown.active);
    assert_eq!(shown.error, None);
    assert_eq!(shown.completed_at, Some(6));
}

#[test]
fn a_repair_forgets_the_latched_failure() {
    let failed = BootstrapEvent::Failed { stage: None, error: "offline".to_string() };
    let mut state = BootstrapState::new();

    state.apply_runner_event(&failed);
    run_bootstrap_flow(&mut state, false);
    assert_eq!(state.snapshot().error.as_deref(), Some("offline"));

    run_bootstrap_flow(&mut state, true);
    assert_eq!(state.snapshot().error, None);
    assert!(state.snapshot().active);
}

#[test]
fn cancelling_needs_something_to_cancel() {
    let mut state = BootstrapState::new();

    let answer = hermes_bootstrap_cancel(&mut state);
    assert!(!answer.ok);
    assert_eq!(answer.cancelled, Some(false));
    assert!(!state.cancel_flag());

    let eager = run_bootstrap_flow(&mut state, false);
    assert_eq!(eager, BootstrapEvent::Manifest { stages: Vec::new(), protocol_version: None });

    let answer = hermes_bootstrap_cancel(&mut state);
    assert!(answer.ok);
    assert_eq!(answer.cancelled, Some(true));
    assert!(state.cancel_flag());

    // A new run takes the request back.
    run_bootstrap_flow(&mut state, false);
    assert!(!state.cancel_flag());
}

#[test]
fn a_reset_forgets_everything_that_was_reported() {
    let mut state = BootstrapState::new();
    run_bootstrap_flow(&mut state, false);
    state.apply_runner_event(&log("one"));

    let answer = hermes_bootstrap_reset(&mut state);
    assert!(answer.ok);
    assert_eq!(answer.cancelled, None);
    assert_eq!(state.snapshot(), DesktopBootstrapState::inactive());
    assert_eq!(hermes_bootstrap_start(), answer);
    assert_eq!(hermes_bootstrap_repair(), answer);
}
