//! Backend connection, the HTTP proxy, and the gateway socket URL.
//!
//! Scope: the local, managed child only. Registry-scoped connections (remote
//! hosts, tunnels, saved cloud connections) are answered with an explicit error
//! and never by dialing the wrong backend.
use crate::backend::command;
use crate::backend::manager;
use crate::backend::manager::{BackendHandle, ConnectionDescriptor};
use crate::boot;
use crate::boot::Step;
use crate::duplicate::Duplicate;
use crate::json;
use crate::text;
use vstd::prelude::*;

verus! {

/// The renderer's request envelope. `path` is relative to the backend; the body
/// is carried as JSON text.
#[derive(Debug, Clone, PartialEq, Eq)]
pub struct ApiRequest {
    pub path: String,
    pub method: Option<String>,
    pub body: Option<String>,
    pub profile: Option<String>,
    pub timeout_ms: Option<u64>,
}

/// The gateway's socket URL, or why there is none: a value and no failure, so
/// that the renderer can tell "sign in again" from "the transport is down".
#[derive(Debug, Clone, PartialEq, Eq)]
pub struct GatewayWsUrlResult {
    pub ok: bool,
    pub ws_url: Option<String>,
    pub error: Option<String>,
    pub needs_oauth_login: Option<bool>,
}

/// That an action succeeded.
#[derive(Debug, Clone, Copy, PartialEq, Eq, Structural)]
pub struct OkResult {
    pub ok: bool,
}

/// What the shell was launched with.
#[derive(Debug, Clone, Copy, PartialEq, Eq, Structural)]
pub struct LaunchFlags {
    pub local_models: bool,
}

/// A registry-scoped request for a connection.
#[derive(Debug, Clone, PartialEq, Eq)]
pub struct ConnectionOptionsFor {
    pub connection_id: Option<String>,
    pub profile: Option<String>,
}

/// What came of a second look at the backend.
#[derive(Debug, Clone, Copy, PartialEq, Eq, Structural)]
pub struct RevalidateResult {
    pub ok: bool,
    pub rebuilt: bool,
}

/// How many backends there may be, and how long an idle one is kept.
#[derive(Debug, Clone, Copy, PartialEq, Eq, Structural)]
pub struct PoolLimits {
    pub max_backends: u32,
    pub idle_ms: u64,
}

// ---------------------------------------------------------------------------
// A live backend
// ---------------------------------------------------------------------------
/// What the shell holds of a backend that it started.
#[derive(Debug, Clone, PartialEq, Eq)]
pub struct HeldBackend {
    pub profile: Option<String>,
    pub alive: bool,
}

/// What the way to a live backend waits for.
#[derive(Debug, Clone, PartialEq, Eq)]
pub enum EnsurePhase {
    /// The stale backend to stop.
    Stopping,
    /// The backend to announce its port.
    Spawning,
    /// The installer.
    Installing,
    /// The backend that was installed to announce its port.
    Respawning,
    /// The backend to answer.
    Probing,
    /// The backend that did not answer to stop.
    Reaping { error: String },
    /// Nothing any more.
    Finished,
}

/// What an `EnsurePhase` says.
#[verifier::ext_equal]
pub enum EnsurePhaseView {
    Stopping,
    Spawning,
    Installing,
    Respawning,
    Probing,
    Reaping { error: Seq<char> },
    Finished,
}

impl View for EnsurePhase {
    type V = EnsurePhaseView;

    open spec fn view(&self) -> EnsurePhaseView {
        match self {
            EnsurePhase::Stopping => EnsurePhaseView::Stopping,
            EnsurePhase::Spawning => EnsurePhaseView::Spawning,
            EnsurePhase::Installing => EnsurePhaseView::Installing,
            EnsurePhase::Respawning => EnsurePhaseView::Respawning,
            EnsurePhase::Probing => EnsurePhaseView::Probing,
            EnsurePhase::Reaping { error } => EnsurePhaseView::Reaping { error: error@ },
            EnsurePhase::Finished => EnsurePhaseView::Finished,
        }
    }
}

/// What happened.
#[derive(Debug, Clone, PartialEq, Eq)]
#[allow(inconsistent_fields)]
pub enum EnsureEvent {
    Stopped,
    Spawned,
    SpawnFailed { error: String },
    Installed,
    InstallFailed { error: Option<String> },
    Answered,
    NotAnswered { error: String },
    Reaped,
}

/// What the caller is to do next.
#[derive(Debug, Clone, PartialEq, Eq)]
pub enum EnsureAction {
    /// Nothing: the held backend serves the request.
    Keep,
    /// Stop the held backend.
    StopHeld,
    /// Start a backend.
    Spawn,
    /// Run the installer.
    Install,
    /// Wait for the new backend to answer.
    Probe,
    /// Stop the new backend.
    StopNew,
    /// Hold the new backend: it serves the request.
    Hold,
    /// Give up.
    Fail { error: String },
}

/// What an `EnsureAction` says.
#[verifier::ext_equal]
pub enum EnsureActionView {
    Keep,
    StopHeld,
    Spawn,
    Install,
    Probe,
    StopNew,
    Hold,
    Fail { error: Seq<char> },
}

impl View for EnsureAction {
    type V = EnsureActionView;

    open spec fn view(&self) -> EnsureActionView {
        match self {
            EnsureAction::Keep => EnsureActionView::Keep,
            EnsureAction::StopHeld => EnsureActionView::StopHeld,
            EnsureAction::Spawn => EnsureActionView::Spawn,
            EnsureAction::Install => EnsureActionView::Install,
            EnsureAction::Probe => EnsureActionView::Probe,
            EnsureAction::StopNew => EnsureActionView::StopNew,
            EnsureAction::Hold => EnsureActionView::Hold,
            EnsureAction::Fail { error } => EnsureActionView::Fail { error: error@ },
        }
    }
}

/// The boot steps to report, in order, and then the next thing to do.
#[derive(Debug, Clone, PartialEq, Eq)]
pub struct EnsureStep {
    pub phase: EnsurePhase,
    pub steps: Vec<Step>,
    pub action: EnsureAction,
}

/// What an `EnsureStep` says.
#[verifier::ext_equal]
pub struct EnsureStepView {
    pub phase: EnsurePhaseView,
    pub steps: Seq<boot::StepView>,
    pub action: EnsureActionView,
}

impl View for EnsureStep {
    type V = EnsureStepView;

    open spec fn view(&self) -> EnsureStepView {
        EnsureStepView {
            phase: self.phase@,
            steps: self.steps.deep_view(),
            action: self.action@,
        }
    }
}

/// The boot step that a backend is looked for.
pub open spec fn resolving_step() -> boot::StepView {
    boot::running_step("backend.resolve"@, "Resolving Hermes backend"@, 8)
}

/// The boot step that a backend is started.
pub open spec fn spawning_step() -> boot::StepView {
    boot::running_step("backend.spawn"@, "Starting Hermes backend"@, 84)
}

/// The boot step that a backend answers.
pub open spec fn ready_step() -> boot::StepView {
    boot::running_step(
        "backend.ready"@,
        "Hermes backend is ready. Finalizing desktop startup"@,
        94,
    )
}

/// The way ends in failure, which is reported.
pub open spec fn gives_up(error: Seq<char>) -> EnsureStepView {
    EnsureStepView {
        phase: EnsurePhaseView::Finished,
        steps: seq![boot::failed_step(error)],
        action: EnsureActionView::Fail { error },
    }
}

/// The way to a live backend begins: a held backend that lives and serves the
/// profile is kept and nothing is reported; any other is stopped first.
pub open spec fn ensure_start(held: Option<HeldBackend>, requested: Option<Seq<char>>) -> EnsureStepView {
    match held {
        None => EnsureStepView {
            phase: EnsurePhaseView::Spawning,
            steps: seq![resolving_step(), spawning_step()],
            action: EnsureActionView::Spawn,
        },
        Some(backend) => if manager::serves(backend.profile.deep_view(), requested)
            && backend.alive {
            EnsureStepView {
                phase: EnsurePhaseView::Finished,
                steps: Seq::empty(),
                action: EnsureActionView::Keep,
            }
        } else {
            EnsureStepView {
                phase: EnsurePhaseView::Stopping,
                steps: seq![resolving_step()],
                action: EnsureActionView::StopHeld,
            }
        },
    }
}

/// Whether `event` is what `phase` waits for.
pub open spec fn awaited(phase: EnsurePhaseView, event: EnsureEvent) -> bool {
    match phase {
        EnsurePhaseView::Stopping => event is Stopped,
        EnsurePhaseView::Spawning => event is Spawned || event is SpawnFailed,
        EnsurePhaseView::Installing => event is Installed || event is InstallFailed,
        EnsurePhaseView::Respawning => event is Spawned || event is SpawnFailed,
        EnsurePhaseView::Probing => event is Answered || event is NotAnswered,
        EnsurePhaseView::Reaping { .. } => event is Reaped,
        EnsurePhaseView::Finished => false,
    }
}

/// What follows an event. The one failure that is recovered from is a backend
/// that is not installed, and only once: the installer runs and the backend is
/// started again.
pub open spec fn ensure_next(phase: EnsurePhaseView, event: EnsureEvent) -> EnsureStepView {
    match event {
        EnsureEvent::Stopped => EnsureStepView {
            phase: EnsurePhaseView::Spawning,
            steps: seq![spawning_step()],
            action: EnsureActionView::Spawn,
        },
        EnsureEvent::Spawned => EnsureStepView {
            phase: EnsurePhaseView::Probing,
            steps: Seq::empty(),
            action: EnsureActionView::Probe,
        },
        EnsureEvent::SpawnFailed { error } => if phase is Spawning
            && command::says_backend_not_found(error@) {
            EnsureStepView {
                phase: EnsurePhaseView::Installing,
                steps: Seq::empty(),
                action: EnsureActionView::Install,
            }
        } else {
            gives_up(error@)
        },
        EnsureEvent::Installed => EnsureStepView {
            phase: EnsurePhaseView::Respawning,
            steps: Seq::empty(),
            action: EnsureActionView::Spawn,
        },
        EnsureEvent::InstallFailed { error } => gives_up(
            match error {
                Some(text) => text@,
                None => "bootstrap failed"@,
            },
        ),
        EnsureEvent::Answered => EnsureStepView {
            phase: EnsurePhaseView::Finished,
            steps: seq![ready_step()],
            action: EnsureActionView::Hold,
        },
        EnsureEvent::NotAnswered { error } => EnsureStepView {
            phase: EnsurePhaseView::Reaping { error: error@ },
            steps: Seq::empty(),
            action: EnsureActionView::StopNew,
        },
        EnsureEvent::Reaped => gives_up(
            match phase {
                EnsurePhaseView::Reaping { error } => error,
                _ => Seq::empty(),
            },
        ),
    }
}

/// What the log says before the installer runs.
pub const INSTALLING_LOG_LINE: &'static str = "no Hermes install found; starting first-launch bootstrap";

fn no_steps() -> (r: Vec<Step>)
    ensures
        r.deep_view() == Seq::<boot::StepView>::empty(),
{
    let r: Vec<Step> = Vec::new();
    proof {
        assert(r.deep_view() =~= Seq::<boot::StepView>::empty());
    }
    r
}

fn one_step(step: Step) -> (r: Vec<Step>)
    ensures
        r.deep_view() == seq![step@],
{
    let mut r: Vec<Step> = Vec::new();
    r.push(step);
    proof {
        assert(r.deep_view() =~= seq![step@]);
    }
    r
}

fn give_up(error: &str) -> (r: EnsureStep)
    ensures
        r@ == gives_up(error@),
{
    EnsureStep {
        phase: EnsurePhase::Finished,
        steps: one_step(Step::failed(error)),
        action: EnsureAction::Fail { error: error.to_owned() },
    }
}

/// Begin to ensure a live backend for `requested`.
///
/// Profiles are compared as the backends that they name and never by their
/// spelling. Steps are reported from below the reuse check on purpose: a request
/// that finds its backend alive must not turn a finished boot back.
pub fn ensure_backend(held: &Option<HeldBackend>, requested: Option<&str>) -> (r: EnsureStep)
    ensures
        r@ == ensure_start(*held, requested.deep_view()),
{
    match held {
        None => {
            let mut steps = one_step(Step::running("backend.resolve", "Resolving Hermes backend", 8));
            let ghost before = steps.deep_view();
            steps.push(Step::running("backend.spawn", "Starting Hermes backend", 84));
            proof {
                assert(steps.deep_view() =~= before.push(spawning_step()));
                assert(steps.deep_view() =~= seq![resolving_step(), spawning_step()]);
            }
            EnsureStep { phase: EnsurePhase::Spawning, steps, action: EnsureAction::Spawn }
        },
        Some(backend) => {
            if manager::serves_profile(text::borrowed(&backend.profile), requested)
                && backend.alive {
                EnsureStep {
                    phase: EnsurePhase::Finished,
                    steps: no_steps(),
                    action: EnsureAction::Keep,
                }
            } else {
                EnsureStep {
                    phase: EnsurePhase::Stopping,
                    steps: one_step(
                        Step::running("backend.resolve", "Resolving Hermes backend", 8),
                    ),
                    action: EnsureAction::StopHeld,
                }
            }
        },
    }
}

/// Decide what follows `event` on the way to a live backend.
pub fn after_event(phase: &EnsurePhase, event: &EnsureEvent) -> (r: EnsureStep)
    requires
        awaited(phase@, *event),
    ensures
        r@ == ensure_next(phase@, *event),
{
    match event {
        EnsureEvent::Stopped => EnsureStep {
            phase: EnsurePhase::Spawning,
            steps: one_step(Step::running("backend.spawn", "Starting Hermes backend", 84)),
            action: EnsureAction::Spawn,
        },
        EnsureEvent::Spawned => EnsureStep {
            phase: EnsurePhase::Probing,
            steps: no_steps(),
            action: EnsureAction::Probe,
        },
        EnsureEvent::SpawnFailed { error } => {
            let first = match phase {
                EnsurePhase::Spawning => true,
                _ => false,
            };
            if first && command::is_backend_not_found(error.as_str()) {
                EnsureStep {
                    phase: EnsurePhase::Installing,
                    steps: no_steps(),
                    action: EnsureAction::Install,
                }
            } else {
                give_up(error.as_str())
            }
        },
        EnsureEvent::Installed => EnsureStep {
            phase: EnsurePhase::Respawning,
            steps: no_steps(),
            action: EnsureAction::Spawn,
        },
        EnsureEvent::InstallFailed { error } => match error {
            Some(text) => give_up(text.as_str()),
            None => give_up("bootstrap failed"),
        },
        EnsureEvent::Answered => EnsureStep {
            phase: EnsurePhase::Finished,
            steps: one_step(
                Step::running(
                    "backend.ready",
                    "Hermes backend is ready. Finalizing desktop startup",
                    94,
                ),
            ),
            action: EnsureAction::Hold,
        },
        EnsureEvent::NotAnswered { error } => EnsureStep {
            phase: EnsurePhase::Reaping { error: error.clone() },
            steps: no_steps(),
            action: EnsureAction::StopNew,
        },
        EnsureEvent::Reaped => match phase {
            EnsurePhase::Reaping { error } => give_up(error.as_str()),
            _ => give_up(""),
        },
    }
}

/// How far the way is from its end.
pub open spec fn ensure_left(phase: EnsurePhaseView) -> nat {
    match phase {
        EnsurePhaseView::Stopping => 6,
        EnsurePhaseView::Spawning => 5,
        EnsurePhaseView::Installing => 4,
        EnsurePhaseView::Respawning => 3,
        EnsurePhaseView::Probing => 2,
        EnsurePhaseView::Reaping { .. } => 1,
        EnsurePhaseView::Finished => 0,
    }
}

/// Whether a step ends the way exactly where it says so: a failure is reported
/// as the last boot step with its reason, a new backend is held only after the
/// ready step, and a step that does not end the way reports no failure.
pub open spec fn ends_with_a_report(step: EnsureStepView) -> bool {
    let n = step.steps.len() as int;
    match step.action {
        EnsureActionView::Fail { error } => {
            &&& step.phase is Finished
            &&& n == 1 && step.steps[0] == boot::failed_step(error)
        },
        EnsureActionView::Hold => step.phase is Finished && n == 1 && step.steps[0]
            == ready_step(),
        EnsureActionView::Keep => step.phase is Finished && n == 0,
        _ => !(step.phase is Finished) && forall|i: int|
            0 <= i < n ==> (#[trigger] step.steps[i]).error is None && step.steps[i].running,
    }
}

/// Every failure is reported before it is returned, so that no overlay is left
/// up over it, and nothing else is reported as one.
pub proof fn every_failure_is_reported(
    held: Option<HeldBackend>,
    requested: Option<Seq<char>>,
    phase: EnsurePhaseView,
    event: EnsureEvent,
)
    ensures
        ends_with_a_report(ensure_start(held, requested)),
        awaited(phase, event) ==> ends_with_a_report(ensure_next(phase, event)),
{
}

/// Every event brings the end closer, so the way ends; in particular the
/// installer runs at most once.
pub proof fn every_event_brings_the_end_closer(phase: EnsurePhaseView, event: EnsureEvent)
    requires
        awaited(phase, event),
    ensures
        ensure_left(ensure_next(phase, event).phase) < ensure_left(phase),
{
}

/// A live backend that serves the profile, in whatever spelling, is kept: it is
/// neither stopped nor replaced, and no boot step is reported.
pub proof fn a_live_backend_is_kept(backend: HeldBackend, requested: Option<Seq<char>>)
    requires
        backend.alive,
        manager::serves(backend.profile.deep_view(), requested),
    ensures
        ensure_start(Some(backend), requested).action is Keep,
        ensure_start(Some(backend), requested).steps.len() == 0,
{
}

/// The installer runs only where no backend is installed.
pub proof fn only_a_missing_backend_is_installed(phase: EnsurePhaseView, event: EnsureEvent)
    requires
        awaited(phase, event),
        ensure_next(phase, event).action is Install,
    ensures
        phase is Spawning,
        event matches EnsureEvent::SpawnFailed { error } && command::says_backend_not_found(error@),
{
}

/// No step on the way moves the bar back.
pub proof fn the_way_never_moves_the_bar_back(
    current: boot::ProgressView,
    held: Option<HeldBackend>,
    requested: Option<Seq<char>>,
    phase: EnsurePhaseView,
    event: EnsureEvent,
    now: u64,
)
    ensures
        forall|i: int|
            0 <= i < ensure_start(held, requested).steps.len() ==> boot::advanced(
                current,
                #[trigger] ensure_start(held, requested).steps[i],
                now,
            ).progress >= current.progress,
        forall|i: int|
            0 <= i < ensure_next(phase, event).steps.len() ==> boot::advanced(
                current,
                #[trigger] ensure_next(phase, event).steps[i],
                now,
            ).progress >= current.progress,
{
}

// ---------------------------------------------------------------------------
// Connections
// ---------------------------------------------------------------------------
/// The descriptor of the backend that is held after a start that succeeded.
pub fn hermes_connection(held: Option<&BackendHandle>) -> (r: Result<ConnectionDescriptor, String>)
    ensures
        match held {
            Some(handle) => r matches Ok(descriptor) && {
                &&& descriptor.base_url@ == handle.base_url@
                &&& !descriptor.is_fullscreen
                &&& descriptor.token@ == handle.token@
                &&& descriptor.ws_url@ == manager::ws_url(handle.base_url@, handle.token@)
                &&& descriptor.logs.deep_view() == (match handle.output {
                    Some(text) => manager::newest_lines(
                        text@,
                        manager::DESCRIPTOR_LOG_LINES as int,
                    ),
                    None => Seq::empty(),
                })
                &&& descriptor.mode@ == "local"@
                &&& descriptor.profile@ == manager::canonical(handle.profile.deep_view())
                &&& descriptor.source@ == "local"@
            },
            None => r matches Err(error) && error@
                == "backend unavailable after a successful start"@,
        },
{
    match held {
        Some(handle) => Ok(manager::descriptor_for(handle)),
        None => Err("backend unavailable after a successful start".to_owned()),
    }
}

/// The profile that a registry-scoped request asks for, or why it is refused:
/// only the local case, without a connection id, is served.
pub fn hermes_connection_for(payload: &ConnectionOptionsFor) -> (r: Result<Option<String>, String>)
    ensures
        match text::non_blank(payload.connection_id.deep_view()) {
            Some(_) => r matches Err(error) && error@
                == "Registry-scoped connections (remote/SSH/cloud) are not wired in the Tauri shell yet."@,
            None => r matches Ok(profile) && profile.deep_view() == payload.profile.deep_view(),
        },
{
    match text::trim_option(text::borrowed(&payload.connection_id)) {
        Some(_) => Err(
            "Registry-scoped connections (remote/SSH/cloud) are not wired in the Tauri shell yet.".to_owned(),
        ),
        None => Ok(payload.profile.duplicate()),
    }
}

/// What came of a second look: `held` says of a held backend whether it lives.
/// Without a held backend there was nothing to lose, and so nothing to rebuild.
pub fn hermes_connection_revalidate(held: Option<bool>) -> (r: RevalidateResult)
    ensures
        r.ok,
        r.rebuilt == (held == Some(false)),
{
    match held {
        Some(alive) => RevalidateResult { ok: true, rebuilt: !alive },
        None => RevalidateResult { ok: true, rebuilt: false },
    }
}

impl GatewayWsUrlResult {
    /// There is no socket URL, for this reason.
    pub fn failed(message: &str) -> (r: Self)
        ensures
            !r.ok,
            r.ws_url is None,
            r.error.deep_view() == Some(message@),
            r.needs_oauth_login is None,
    {
        GatewayWsUrlResult {
            ok: false,
            ws_url: None,
            error: Some(message.to_owned()),
            needs_oauth_login: None,
        }
    }
}

/// The gateway's socket URL, given the failure to ensure a backend, if it
/// failed, and the backend that is held.
pub fn hermes_gateway_ws_url(failure: Option<&str>, held: Option<&BackendHandle>) -> (r:
    GatewayWsUrlResult)
    ensures
        r.ok == (failure is None && held is Some),
        r.ws_url.deep_view() == (match (failure, held) {
            (None, Some(handle)) => Some(manager::ws_url(handle.base_url@, handle.token@)),
            _ => None,
        }),
        r.error.deep_view() == (match (failure, held) {
            (Some(error), _) => Some(error@),
            (None, None) => Some("backend unavailable"@),
            (None, Some(_)) => None,
        }),
        r.needs_oauth_login is None,
{
    if let Some(error) = failure {
        return GatewayWsUrlResult::failed(error);
    }
    match held {
        None => GatewayWsUrlResult::failed("backend unavailable"),
        Some(handle) => GatewayWsUrlResult {
            ok: true,
            ws_url: Some(
                manager::gateway_ws_url(handle.base_url.as_str(), handle.token.as_str()),
            ),
            error: None,
            needs_oauth_login: None,
        },
    }
}

/// The profile that a registry-scoped request asks for, or the answer that
/// refuses it: as with a connection, only the local case is served.
pub fn hermes_gateway_ws_url_for(payload: &ConnectionOptionsFor) -> (r: Result<
    Option<String>,
    GatewayWsUrlResult,
>)
    ensures
        match text::non_blank(payload.connection_id.deep_view()) {
            Some(_) => r matches Err(refusal) && {
                &&& !refusal.ok
                &&& refusal.ws_url is None
                &&& refusal.error.deep_view() == Some(
                    "Registry-scoped connections (remote/SSH/cloud) are not wired in the Tauri shell yet."@,
                )
                &&& refusal.needs_oauth_login is None
            },
            None => r matches Ok(profile) && profile.deep_view() == payload.profile.deep_view(),
        },
{
    match hermes_connection_for(payload) {
        Ok(profile) => Ok(profile),
        Err(error) => Err(GatewayWsUrlResult::failed(error.as_str())),
    }
}

/// A keepalive. There is exactly one managed child and nothing that reaps it,
/// so there is nothing to do.
pub fn hermes_backend_touch() -> (r: OkResult)
    ensures
        r.ok,
{
    OkResult { ok: true }
}

/// A profile as the log shows it.
pub open spec fn shown_profile(profile: Option<Seq<char>>) -> Seq<char> {
    match profile {
        Some(name) => "Some("@ + text::unicode::debug_text(name) + ")"@,
        None => "None"@,
    }
}

fn show_profile(profile: Option<&str>) -> (r: String)
    ensures
        r@ == shown_profile(
            match profile {
                Some(name) => Some(name@),
                None => None,
            },
        ),
{
    match profile {
        Some(name) => {
            let quoted = text::unicode::write_debug(name);
            text::cat3("Some(", quoted.as_str(), ")")
        },
        None => "None".to_owned(),
    }
}

/// What is logged when a held backend is replaced. A different profile and a dead
/// child have opposite remedies, so that both profiles are in the line.
pub fn recycle_log_line(pid: u32, held: Option<&str>, requested: Option<&str>) -> (r: String)
    ensures
        r@ == "recycling backend pid "@ + text::number::decimal(pid as nat) + " (held profile "@
            + shown_profile(
            match held {
                Some(name) => Some(name@),
                None => None,
            },
        ) + ", requested "@ + shown_profile(
            match requested {
                Some(name) => Some(name@),
                None => None,
            },
        ) + ")"@,
{
    let pid = text::number::write_decimal(pid as u64);
    let held = show_profile(held);
    let requested = show_profile(requested);
    let start = text::cat4("recycling backend pid ", pid.as_str(), " (held profile ", held.as_str());
    text::cat4(start.as_str(), ", requested ", requested.as_str(), ")")
}

/// The boot step of a recycle: the one that legitimately moves the bar back.
pub fn hermes_backend_recycle() -> (r: Step)
    ensures
        r@ == boot::rewind_step("backend.resolve"@, "Restarting desktop connection"@, 4),
{
    Step::rewind("backend.resolve", "Restarting desktop connection", 4)
}

/// Whether `s` says `true`, in upper or lower case.
pub open spec fn says_true(s: Seq<char>) -> bool {
    &&& s.len() == 4
    &&& text::unicode::ascii_lower(s[0]) == 't'
    &&& text::unicode::ascii_lower(s[1]) == 'r'
    &&& text::unicode::ascii_lower(s[2]) == 'u'
    &&& text::unicode::ascii_lower(s[3]) == 'e'
}

/// The launch flags, given the variable that asks for local models.
pub fn hermes_launch_flags(local_models: Option<&str>) -> (r: LaunchFlags)
    ensures
        r.local_models == (local_models matches Some(value) && (value@ == "1"@ || says_true(
            value@,
        ))),
{
    match local_models {
        None => LaunchFlags { local_models: false },
        Some(value) => {
            let chars = text::chars_of(value);
            let yes = chars.len() == 4 && (chars[0] == 't' || chars[0] == 'T') && (chars[1] == 'r'
                || chars[1] == 'R') && (chars[2] == 'u' || chars[2] == 'U') && (chars[3] == 'e'
                || chars[3] == 'E');
            LaunchFlags { local_models: text::str_eq(value, "1") || yes }
        },
    }
}

/// There is one backend, and it is never idle.
pub fn hermes_pool_limits_get() -> (r: PoolLimits)
    ensures
        r.max_backends == 1,
        r.idle_ms == 0,
{
    PoolLimits { max_backends: 1, idle_ms: 0 }
}

// ---------------------------------------------------------------------------
// The HTTP proxy
// ---------------------------------------------------------------------------
/// Whether a byte may stand in the name of an HTTP method.
pub open spec fn is_method_byte(b: u8) -> bool {
    ||| 0x30 <= b <= 0x39
    ||| 0x41 <= b <= 0x5a
    ||| 0x61 <= b <= 0x7a
    ||| b == 0x21
    ||| 0x23 <= b <= 0x27
    ||| b == 0x2a
    ||| b == 0x2b
    ||| b == 0x2d
    ||| b == 0x2e
    ||| b == 0x5e
    ||| b == 0x5f
    ||| b == 0x60
    ||| b == 0x7c
    ||| b == 0x7e
}

/// Whether a text is the name of an HTTP method.
pub open spec fn is_method(name: Seq<char>) -> bool {
    let bytes = vstd::utf8::encode_utf8(name);
    bytes.len() > 0 && forall|i: int| 0 <= i < bytes.len() ==> is_method_byte(#[trigger] bytes[i])
}

/// `reqwest::Method::from_bytes`: a name is accepted exactly where it is not
/// empty and every byte of it may stand in a method name, and every other name
/// is refused in the same words.
#[verifier::external_body]
fn check_method(name: &str) -> (r: Result<(), String>)
    ensures
        r is Ok <==> is_method(name@),
        r matches Err(error) ==> error@ == "invalid HTTP method"@,
{
    reqwest::Method::from_bytes(name.as_bytes()).map(|_| ()).map_err(|err| err.to_string())
}

/// The method of a request: the one that it names, in upper case, or `GET`.
pub open spec fn requested_method(method: Option<Seq<char>>) -> Seq<char> {
    match method {
        Some(name) => name,
        None => "GET"@,
    }
}

/// The method of a request, in upper case.
pub fn api_method(method: Option<&str>) -> (r: String)
    ensures
        r@ == text::unicode::uppercase(requested_method(method.deep_view())),
{
    match method {
        Some(name) => text::unicode::to_uppercase(name),
        None => text::unicode::to_uppercase("GET"),
    }
}

/// What the log says of a request.
pub fn api_request_log_line(method: &str, path: &str) -> (r: String)
    ensures
        r@ == "[api] -> "@ + method@ + " "@ + path@,
{
    text::cat4("[api] -> ", method, " ", path)
}

/// What the log says of a reply.
pub fn api_reply_log_line(method: &str, path: &str, status: u16) -> (r: String)
    ensures
        r@ == "[api] "@ + method@ + " "@ + path@ + " -> "@ + text::number::decimal(status as nat),
{
    let head = text::cat4("[api] ", method, " ", path);
    let code = text::number::write_decimal(status as u64);
    text::cat3(head.as_str(), " -> ", code.as_str())
}

/// A request as it is sent to the backend.
#[derive(Debug, Clone, PartialEq, Eq)]
pub struct ApiCall {
    pub method: String,
    pub url: String,
    pub token: String,
    pub timeout_ms: Option<u64>,
    pub body: Option<String>,
}

/// The URL of a request.
pub open spec fn api_url(base_url: Seq<char>, path: Seq<char>) -> Seq<char> {
    text::strip_end(base_url, text::just('/')) + path
}

/// The request that is sent to the held backend, or why none is. `method` is
/// the method in upper case.
pub fn prepare_call(request: &ApiRequest, method: &str, held: Option<&BackendHandle>) -> (r: Result<
    ApiCall,
    String,
>)
    ensures
        match r {
            Ok(call) => {
                &&& held is Some
                &&& is_method(method@)
                &&& call.method@ == method@
                &&& call.url@ == api_url(held->0.base_url@, request.path@)
                &&& call.token@ == held->0.token@
                &&& call.timeout_ms == request.timeout_ms
                &&& call.body.deep_view() == request.body.deep_view()
            },
            Err(error) => if held is None {
                error@ == "backend unavailable"@
            } else {
                !is_method(method@) && error@ == "invalid HTTP method "@ + method@
                    + ": invalid HTTP method"@
            },
        },
{
    match held {
        None => Err("backend unavailable".to_owned()),
        Some(handle) => {
            let base = text::trim_end_char(handle.base_url.as_str(), '/');
            let url = text::cat(base.as_str(), request.path.as_str());
            match check_method(method) {
                Err(error) => {
                    let message = text::cat4(
                        "invalid HTTP method ",
                        method,
                        ": ",
                        error.as_str(),
                    );
                    proof {
                        reveal_strlit(": ");
                        reveal_strlit("invalid HTTP method");
                        reveal_strlit(": invalid HTTP method");
                        assert(": "@ + "invalid HTTP method"@ =~= ": invalid HTTP method"@);
                        assert(message@ =~= "invalid HTTP method "@ + method@
                            + ": invalid HTTP method"@);
                    }
                    Err(message)
                },
                Ok(()) => Ok(
                    ApiCall {
                        method: method.to_owned(),
                        url,
                        token: handle.token.clone(),
                        timeout_ms: request.timeout_ms,
                        body: request.body.duplicate(),
                    },
                ),
            }
        },
    }
}

/// The request that is sent to the held backend, or why none is: the method is
/// raised to upper case and then has to be the name of one.
pub fn hermes_api(request: &ApiRequest, held: Option<&BackendHandle>) -> (r: Result<
    ApiCall,
    String,
>)
    ensures
        ({
            let method = text::unicode::uppercase(requested_method(request.method.deep_view()));
            match r {
                Ok(call) => {
                    &&& held is Some
                    &&& is_method(method)
                    &&& call.method@ == method
                    &&& call.url@ == api_url(held->0.base_url@, request.path@)
                    &&& call.token@ == held->0.token@
                    &&& call.timeout_ms == request.timeout_ms
                    &&& call.body.deep_view() == request.body.deep_view()
                },
                Err(error) => if held is None {
                    error@ == "backend unavailable"@
                } else {
                    !is_method(method) && error@ == "invalid HTTP method "@ + method
                        + ": invalid HTTP method"@
                },
            }
        }),
{
    let method = api_method(text::borrowed(&request.method));
    prepare_call(request, method.as_str(), held)
}

/// The failure of a request that got no reply.
pub fn request_failure(url: &str, error: &str) -> (r: String)
    ensures
        r@ == "request to "@ + url@ + " failed: "@ + error@,
{
    text::cat4("request to ", url, " failed: ", error)
}

/// The failure of a reply that could not be read.
pub fn response_failure(url: &str, error: &str) -> (r: String)
    ensures
        r@ == "failed to read the response from "@ + url@ + ": "@ + error@,
{
    text::cat4("failed to read the response from ", url, ": ", error)
}

/// What the renderer gets for a reply.
#[derive(Debug, Clone, Copy, PartialEq, Eq, Structural)]
pub enum ApiReply {
    /// Nothing: the body was empty.
    Null,
    /// The body as JSON.
    Json,
    /// The body as text.
    Text,
}

/// The message that the backend itself gives for a failure: the string under
/// `detail`, or under `error` where there is no `detail`.
pub open spec fn own_message(members: Option<Seq<(Seq<char>, Option<Seq<char>>)>>) -> Option<
    Seq<char>,
> {
    match members {
        Some(members) => match json::member(members, "detail"@) {
            Some(detail) => detail,
            None => match json::member(members, "error"@) {
                Some(error) => error,
                None => None,
            },
        },
        None => None,
    }
}

/// The first 400 characters of a body.
pub open spec fn start_of(body: Seq<char>) -> Seq<char> {
    if body.len() > 400 {
        body.take(400)
    } else {
        body
    }
}

/// What is made of a reply, given what its body holds as JSON: a failure shows
/// its status and the backend's own message, or else the start of the body; a
/// success is JSON where it is JSON, and text where it is not.
pub open spec fn reply_of(
    status: u16,
    body: Seq<char>,
    members: Option<Seq<(Seq<char>, Option<Seq<char>>)>>,
) -> Result<ApiReply, Seq<char>> {
    if !manager::is_success(status) {
        Err(
            text::number::decimal(status as nat) + " "@ + (match own_message(members) {
                Some(message) => message,
                None => start_of(body),
            }),
        )
    } else if body.len() == 0 {
        Ok(ApiReply::Null)
    } else if members is Some {
        Ok(ApiReply::Json)
    } else {
        Ok(ApiReply::Text)
    }
}

/// A reply by what its value and its error say.
pub open spec fn reply_view(reply: Result<ApiReply, String>) -> Result<ApiReply, Seq<char>> {
    match reply {
        Ok(kind) => Ok(kind),
        Err(error) => Err(error@),
    }
}

fn own_message_in(members: &Option<Vec<(String, Option<String>)>>) -> (r: Option<String>)
    ensures
        r.deep_view() == own_message(members.deep_view()),
{
    match members {
        None => None,
        Some(members) => {
            let found = match json::find_member(members, "detail") {
                Some(detail) => Some(detail),
                None => json::find_member(members, "error"),
            };
            match found {
                Some(Some(message)) => Some(message.to_owned()),
                Some(None) => None,
                None => None,
            }
        },
    }
}

/// What is made of a reply, given what its body holds as JSON.
pub fn read_reply(
    status: u16,
    body: &str,
    members: &Option<Vec<(String, Option<String>)>>,
) -> (r: Result<ApiReply, String>)
    ensures
        reply_view(r) == reply_of(status, body@, members.deep_view()),
{
    if !(200 <= status && status <= 299) {
        let detail = match own_message_in(members) {
            Some(message) => message,
            None => {
                let chars = text::chars_of(body);
                let n: usize = chars.len();
                let end: usize = if n > 400 {
                    400
                } else {
                    n
                };
                proof {
                    assert(chars@.subrange(0, end as int) =~= start_of(body@));
                }
                text::substring(&chars, 0, end)
            },
        };
        let code = text::number::write_decimal(status as u64);
        return Err(text::cat3(code.as_str(), " ", detail.as_str()));
    }
    if text::is_empty(body) {
        return Ok(ApiReply::Null);
    }
    match members {
        Some(_) => Ok(ApiReply::Json),
        None => Ok(ApiReply::Text),
    }
}

/// What the renderer gets for a reply, or the failure that it reports.
pub fn hermes_api_reply(status: u16, body: &str) -> (r: Result<ApiReply, String>)
    ensures
        reply_view(r) == reply_of(status, body@, json::json_members(body@)),
{
    let members = json::read_members(body);
    read_reply(status, body, &members)
}

// ---------------------------------------------------------------------------
// Laws
// ---------------------------------------------------------------------------
/// A held backend is kept exactly where it lives and its profile comes to the name
/// that the request comes to, each without the white space around it and `default`
/// where there is none. Any other is stopped, and only without one is a backend
/// started at once.
pub proof fn only_a_live_backend_of_the_profile_is_kept(
    held: Option<HeldBackend>,
    requested: Option<Seq<char>>,
)
    ensures
        ({
            let start = ensure_start(held, requested);
            let asked = if requested is Some && !text::is_blank(requested->0) {
                text::trimmed(requested->0)
            } else {
                "default"@
            };
            &&& held is None <==> start.action is Spawn
            &&& held matches Some(backend) ==> {
                let name = if backend.profile is Some && !text::is_blank(backend.profile->0@) {
                    text::trimmed(backend.profile->0@)
                } else {
                    "default"@
                };
                &&& start.action is Keep <==> backend.alive && name == asked
                &&& start.action is StopHeld <==> !(backend.alive && name == asked)
            }
            &&& start.phase is Finished <==> start.action is Keep
            &&& start.phase is Stopping <==> start.action is StopHeld
            &&& start.phase is Spawning <==> start.action is Spawn
        }),
{
}

/// What follows each event. A stale backend that is stopped is followed by a start,
/// a start by a probe, an answer by the backend being held, a missing answer by the
/// new backend being stopped, and the installer by another start. Whatever fails is
/// reported with its own reason, except that a missing backend is installed once.
pub proof fn each_event_is_followed_up(phase: EnsurePhaseView, event: EnsureEvent)
    requires
        awaited(phase, event),
    ensures
        ({
            let next = ensure_next(phase, event);
            &&& next.action is Hold <==> event is Answered
            &&& next.action is Probe <==> event is Spawned
            &&& next.action is StopNew <==> event is NotAnswered
            &&& next.action is Spawn <==> event is Stopped || event is Installed
            &&& next.action is Install <==> phase is Spawning && (
            event matches EnsureEvent::SpawnFailed { error } && command::says_backend_not_found(
                error@,
            ))
            &&& !(next.action is Keep) && !(next.action is StopHeld)
            &&& event is Stopped ==> next.phase is Spawning
            &&& event is Spawned ==> next.phase is Probing
            &&& event is Installed ==> next.phase is Respawning
            &&& next.action is Install ==> next.phase is Installing
            &&& event matches EnsureEvent::NotAnswered { error } ==> next.phase
                == EnsurePhaseView::Reaping { error: error@ }
            &&& event is SpawnFailed && !(next.action is Install)
                ==> next.action == EnsureActionView::Fail { error: event->SpawnFailed_error@ }
            &&& event matches EnsureEvent::InstallFailed { error: Some(error) } ==> next.action
                == EnsureActionView::Fail { error: error@ }
            &&& event matches EnsureEvent::InstallFailed { error: None } ==> next.action
                == EnsureActionView::Fail { error: "bootstrap failed"@ }
            &&& phase matches EnsurePhaseView::Reaping { error } ==> next.action
                == EnsureActionView::Fail { error }
        }),
{
}

/// Where a start is reported: looking for a backend moves the bar to 8, starting
/// it to 84 and an answer to 94, a failure shows its reason, and nothing else
/// reports a step.
pub proof fn the_way_is_reported_step_by_step(
    held: Option<HeldBackend>,
    requested: Option<Seq<char>>,
    phase: EnsurePhaseView,
    event: EnsureEvent,
)
    requires
        awaited(phase, event),
    ensures
        ({
            let start = ensure_start(held, requested);
            let next = ensure_next(phase, event);
            let resolve = boot::running_step("backend.resolve"@, "Resolving Hermes backend"@, 8);
            let spawn = boot::running_step("backend.spawn"@, "Starting Hermes backend"@, 84);
            let ready = boot::running_step(
                "backend.ready"@,
                "Hermes backend is ready. Finalizing desktop startup"@,
                94,
            );
            &&& start.action is Keep ==> start.steps.len() == 0
            &&& start.action is StopHeld ==> start.steps == seq![resolve]
            &&& start.action is Spawn ==> start.steps == seq![resolve, spawn]
            &&& event is Stopped ==> next.steps == seq![spawn]
            &&& event is Answered ==> next.steps == seq![ready]
            &&& next.action matches EnsureActionView::Fail { error } ==> next.steps == seq![
                boot::failed_step(error),
            ]
            &&& !(event is Stopped) && !(event is Answered) && !(next.action is Fail)
                ==> next.steps.len() == 0
        }),
{
}

/// A request goes to the whole path that it asks for, its query with it, below the
/// base URL without the slashes at its end.
pub proof fn a_request_keeps_its_whole_path(base_url: Seq<char>, path: Seq<char>)
    ensures
        exists|n: int|
            {
                &&& 0 <= n <= base_url.len()
                &&& api_url(base_url, path) == #[trigger] base_url.take(n) + path
                &&& forall|i: int| n <= i < base_url.len() ==> #[trigger] base_url[i] == '/'
                &&& n > 0 ==> base_url[n - 1] != '/'
            },
{
    text::stripping_takes_a_run_off_the_end(base_url, text::just('/'));
    let base = text::strip_end(base_url, text::just('/'));
    let n = base.len() as int;
    assert forall|i: int| n <= i < base_url.len() implies #[trigger] base_url[i] == '/' by {
        assert(text::just('/')(base_url[i]));
    }
    if n > 0 {
        assert(base.last() == base_url[n - 1]);
        assert(!text::just('/')(base.last()));
    }
    assert(api_url(base_url, path) == base_url.take(n) + path);
}

/// The requests of one backend differ exactly where their paths do.
pub proof fn different_paths_are_different_requests(
    base_url: Seq<char>,
    first: Seq<char>,
    second: Seq<char>,
)
    ensures
        api_url(base_url, first) == api_url(base_url, second) <==> first == second,
        first.is_suffix_of(api_url(base_url, first)),
{
    let base = text::strip_end(base_url, text::just('/'));
    let n = base.len() as int;
    assert(api_url(base_url, first).skip(n) =~= first);
    assert(api_url(base_url, second).skip(n) =~= second);
}

/// A request that names no method is a `GET`, and any other keeps the one it names.
pub proof fn a_request_without_a_method_is_a_get(name: Seq<char>)
    ensures
        requested_method(None) == "GET"@,
        requested_method(Some(name)) == name,
{
}

/// `true` is said in four letters, each in upper or lower case.
pub proof fn true_is_said_in_any_case(s: Seq<char>)
    ensures
        says_true(s) <==> s.len() == 4 && forall|i: int|
            0 <= i < 4 ==> (#[trigger] s[i] == "true"@[i] || s[i] == "TRUE"@[i]),
{
    reveal_strlit("true");
    reveal_strlit("TRUE");
    if s.len() == 4 {
        lemma_lower(s[0]);
        lemma_lower(s[1]);
        lemma_lower(s[2]);
        lemma_lower(s[3]);
    }
}

proof fn lemma_lower(c: char)
    ensures
        text::unicode::ascii_lower(c) == 't' <==> c == 't' || c == 'T',
        text::unicode::ascii_lower(c) == 'r' <==> c == 'r' || c == 'R',
        text::unicode::ascii_lower(c) == 'u' <==> c == 'u' || c == 'U',
        text::unicode::ascii_lower(c) == 'e' <==> c == 'e' || c == 'E',
{
}

/// The backend's own message is the text under `detail`, and the text under
/// `error` where nothing stands under `detail`: what is no text is no message.
pub proof fn detail_outranks_error(members: Seq<(Seq<char>, Option<Seq<char>>)>)
    ensures
        own_message(None) is None,
        json::member(members, "detail"@) matches Some(detail) ==> own_message(Some(members))
            == detail,
        json::member(members, "detail"@) is None ==> (own_message(Some(members)) == match json::member(
            members,
            "error"@,
        ) {
            Some(error) => error,
            None => None,
        }),
{
}

/// A reply is a failure exactly outside of the statuses from 200 to 299. A failure
/// shows its status and then the backend's own message, or else the body, of which
/// no more than 400 characters are shown. A success is nothing, JSON or text.
pub proof fn a_failure_shows_its_status_and_message(
    status: u16,
    body: Seq<char>,
    members: Option<Seq<(Seq<char>, Option<Seq<char>>)>>,
)
    ensures
        ({
            let reply = reply_of(status, body, members);
            let head = text::number::decimal(status as nat) + " "@;
            &&& reply is Ok <==> 200 <= status <= 299
            &&& reply is Err && own_message(members) is Some ==> reply->Err_0 == head
                + own_message(members)->0
            &&& reply is Err && own_message(members) is None && body.len() <= 400
                ==> reply->Err_0 == head + body
            &&& reply is Err && own_message(members) is None && body.len() > 400
                ==> reply->Err_0 == head + body.subrange(0, 400)
            &&& reply == Ok::<ApiReply, Seq<char>>(ApiReply::Null) <==> 200 <= status <= 299
                && body.len() == 0
            &&& reply == Ok::<ApiReply, Seq<char>>(ApiReply::Json) <==> 200 <= status <= 299
                && body.len() > 0 && members is Some
            &&& reply == Ok::<ApiReply, Seq<char>>(ApiReply::Text) <==> 200 <= status <= 299
                && body.len() > 0 && members is None
        }),
{
    if body.len() > 400 {
        assert(body.take(400) =~= body.subrange(0, 400));
    }
}

// ---------------------------------------------------------------------------
// Laws of the operations themselves
// ---------------------------------------------------------------------------
/// A held backend serves a request exactly where it is alive and started for the
/// profile that is asked for; one that does not is stopped first.
pub proof fn a_backend_is_kept_only_for_its_own_profile(
    backend: HeldBackend,
    requested: Option<&str>,
    r: EnsureStep,
)
    requires
        call_ensures(ensure_backend, (&Some(backend), requested), r),
    ensures
        ({
            let asked = if requested is Some && !text::is_blank(requested->0@) {
                text::trimmed(requested->0@)
            } else {
                "default"@
            };
            let own = if backend.profile is Some && !text::is_blank(backend.profile->0@) {
                text::trimmed(backend.profile->0@)
            } else {
                "default"@
            };
            &&& r.action is Keep <==> backend.alive && own == asked
            &&& r.action is StopHeld <==> !(backend.alive && own == asked)
            &&& r.phase is Finished <==> r.action is Keep
        }),
{
    only_a_live_backend_of_the_profile_is_kept(Some(backend), requested.deep_view());
}

/// A call goes to the held backend with its token, under the whole path, query and
/// all, and with the method, body and time limit of the request; there is none
/// without a backend.
pub proof fn a_call_carries_the_whole_request(
    request: ApiRequest,
    handle: BackendHandle,
    method: &str,
    prepared: Result<ApiCall, String>,
    r: Result<ApiCall, String>,
    refused: Result<ApiCall, String>,
    call: ApiCall,
)
    requires
        call_ensures(prepare_call, (&request, method, Some(&handle)), prepared),
        call_ensures(hermes_api, (&request, Some(&handle)), r),
        call_ensures(hermes_api, (&request, None::<&BackendHandle>), refused),
    ensures
        prepared == Ok::<ApiCall, String>(call) || r == Ok::<ApiCall, String>(call) ==> {
            &&& request.path@.is_suffix_of(call.url@)
            &&& handle.base_url@.len() > 0 && handle.base_url@.last() != '/' ==> call.url@
                == handle.base_url@ + request.path@
            &&& call.token@ == handle.token@
            &&& call.timeout_ms == request.timeout_ms
            &&& call.body.deep_view() == request.body.deep_view()
        },
        prepared matches Ok(call) ==> call.method@ == method@,
        r is Ok && request.method is Some ==> r->Ok_0.method@ == text::unicode::uppercase(
            request.method->0@,
        ),
        r is Ok && request.method is None ==> r->Ok_0.method@ == text::unicode::uppercase("GET"@),
        is_method(method@) ==> prepared is Ok,
        refused is Err && refused->Err_0@ == "backend unavailable"@,
{
    different_paths_are_different_requests(handle.base_url@, request.path@, request.path@);
    let base = handle.base_url@;
    if base.len() > 0 && base.last() != '/' {
        a_request_keeps_its_whole_path(base, request.path@);
        let n = choose|n: int|
            {
                &&& 0 <= n <= base.len()
                &&& api_url(base, request.path@) == #[trigger] base.take(n) + request.path@
                &&& forall|i: int| n <= i < base.len() ==> #[trigger] base[i] == '/'
                &&& n > 0 ==> base[n - 1] != '/'
            };
        assert(n == base.len());
        assert(base.take(n) =~= base);
    }
}

/// The renderer is connected to the held backend itself, by its URL and its token,
/// and there is no connection without one.
pub proof fn a_connection_is_the_held_backends_own(
    handle: BackendHandle,
    r: Result<ConnectionDescriptor, String>,
    refused: Result<ConnectionDescriptor, String>,
)
    requires
        call_ensures(hermes_connection, (Some(&handle),), r),
        call_ensures(hermes_connection, (None::<&BackendHandle>,), refused),
    ensures
        refused is Err && refused->Err_0@ == "backend unavailable after a successful start"@,
        r is Ok,
        r matches Ok(descriptor) ==> {
            &&& descriptor.base_url@ == handle.base_url@
            &&& descriptor.token@ == handle.token@
            &&& descriptor.ws_url@ == manager::ws_url(handle.base_url@, handle.token@)
            &&& descriptor.mode@ == "local"@ && descriptor.source@ == "local"@
            &&& !descriptor.is_fullscreen
            &&& handle.profile is None ==> descriptor.profile@ == "default"@
            &&& handle.profile is Some && !text::is_blank(handle.profile->0@)
                ==> descriptor.profile@ == text::trimmed(handle.profile->0@)
            &&& handle.output is None ==> descriptor.logs@.len() == 0
            &&& descriptor.logs@.len() <= 40
        },
{
    manager::a_profile_is_the_name_that_it_comes_to(
        handle.profile.deep_view(),
        handle.profile.deep_view(),
    );
    if handle.output is Some {
        manager::as_many_lines_as_allowed_are_kept(handle.output->0@, 40);
    }
    assert(r->Ok_0.logs.deep_view().len() == r->Ok_0.logs@.len());
}

/// A request for a saved connection is refused, whatever it asks for besides, and
/// one that names none is answered with the profile that it asks for.
pub proof fn only_the_local_backend_is_dialled(
    payload: ConnectionOptionsFor,
    r: Result<Option<String>, String>,
    socket: Result<Option<String>, GatewayWsUrlResult>,
)
    requires
        call_ensures(hermes_connection_for, (&payload,), r),
        call_ensures(hermes_gateway_ws_url_for, (&payload,), socket),
    ensures
        ({
            let named = payload.connection_id is Some && exists|i: int|
                0 <= i < payload.connection_id->0@.len() && !text::is_white_space(
                    #[trigger] payload.connection_id->0@[i],
                );
            &&& named <==> r is Err
            &&& named <==> socket is Err
            &&& !named ==> r->Ok_0.deep_view() == payload.profile.deep_view()
                && socket->Ok_0.deep_view() == payload.profile.deep_view()
            &&& named ==> !socket->Err_0.ok && socket->Err_0.ws_url is None
                && socket->Err_0.error.deep_view() == Some(r->Err_0@)
        }),
{
    if payload.connection_id is Some {
        text::a_blank_text_is_all_white(payload.connection_id->0@);
    }
}

/// A second look at the backend always goes well, and has it rebuilt exactly where
/// one is held that is dead.
pub proof fn only_a_dead_backend_is_rebuilt(held: Option<bool>, r: RevalidateResult)
    requires
        call_ensures(hermes_connection_revalidate, (held,), r),
    ensures
        r.ok,
        held is None ==> !r.rebuilt,
        held matches Some(alive) ==> r.rebuilt == !alive,
{
}

/// The gateway's URL is handed out exactly where the backend came up and is held,
/// and where it is not, the reason is.
pub proof fn a_socket_url_or_the_reason_is_handed_out(
    failure: Option<&str>,
    held: Option<&BackendHandle>,
    r: GatewayWsUrlResult,
)
    requires
        call_ensures(hermes_gateway_ws_url, (failure, held), r),
    ensures
        r.ok <==> r.ws_url is Some,
        r.ok <==> r.error is None,
        r.ok <==> failure is None && held is Some,
        failure matches Some(error) ==> r.error.deep_view() == Some(error@),
        failure is None && held is None ==> r.error.deep_view() == Some("backend unavailable"@),
        r.ok ==> r.ws_url->0@ == manager::ws_url(held->0.base_url@, held->0.token@),
        r.needs_oauth_login is None,
{
}

/// Local models are on exactly where the flag is `1` or `true`, in any case.
pub proof fn local_models_are_asked_for(value: &str, r: LaunchFlags, unset: LaunchFlags)
    requires
        call_ensures(hermes_launch_flags, (Some(value),), r),
        call_ensures(hermes_launch_flags, (None::<&str>,), unset),
    ensures
        !unset.local_models,
        r.local_models <==> value@ == "1"@ || (value@.len() == 4 && forall|i: int|
            0 <= i < 4 ==> (#[trigger] value@[i] == "true"@[i] || value@[i] == "TRUE"@[i])),
{
    true_is_said_in_any_case(value@);
}

/// A method has a name, and white space, control characters, separators and
/// whatever is beyond ASCII are no part of one; letters and digits are.
pub proof fn a_method_has_a_name(name: Seq<char>, b: u8)
    ensures
        is_method(name) ==> name.len() > 0,
        b <= 0x20 || b >= 0x7f ==> !is_method_byte(b),
        b == 0x22 || b == 0x28 || b == 0x29 || b == 0x2c || b == 0x2f ==> !is_method_byte(b),
        0x3a <= b <= 0x40 || 0x5b <= b <= 0x5d || b == 0x7b || b == 0x7d ==> !is_method_byte(b),
        0x30 <= b <= 0x39 || 0x41 <= b <= 0x5a || 0x61 <= b <= 0x7a ==> is_method_byte(b),
{
    text::bytes::a_text_is_as_long_as_its_encoding(name);
}

/// Every outcome of what is under way is awaited: a stop, a start that went well or
/// not, an installation that did or did not, an answer or none.
pub proof fn every_outcome_is_awaited(error: String, reason: Option<String>, reaped: Seq<char>)
    ensures
        awaited(EnsurePhaseView::Stopping, EnsureEvent::Stopped),
        awaited(EnsurePhaseView::Spawning, EnsureEvent::Spawned),
        awaited(EnsurePhaseView::Spawning, EnsureEvent::SpawnFailed { error }),
        awaited(EnsurePhaseView::Installing, EnsureEvent::Installed),
        awaited(EnsurePhaseView::Installing, EnsureEvent::InstallFailed { error: reason }),
        awaited(EnsurePhaseView::Respawning, EnsureEvent::Spawned),
        awaited(EnsurePhaseView::Respawning, EnsureEvent::SpawnFailed { error }),
        awaited(EnsurePhaseView::Probing, EnsureEvent::Answered),
        awaited(EnsurePhaseView::Probing, EnsureEvent::NotAnswered { error }),
        awaited(EnsurePhaseView::Reaping { error: reaped }, EnsureEvent::Reaped),
{
}

} // verus!
