//! Desktop boot progress, and the first-launch bootstrap snapshot.
//!
//! This module owns both directions of what the renderer knows of a boot: the
//! snapshot it reads once at mount, and the state behind the events that it
//! follows afterwards. A path that the renderer calls without a guard is a path
//! that the shell must answer, so "nothing has happened" is a value here (the
//! `idle` phase, the inactive installer) and never an absence.
use crate::bootstrap::events;
use crate::bootstrap::{BootstrapEvent, ManifestPayload, StageResult};
use crate::clock;
use crate::duplicate::Duplicate;
use crate::text;
use vstd::prelude::*;

verus! {

/// The event under which the webview follows the boot.
pub const BOOT_PROGRESS_EVENT: &'static str = "hermes:boot-progress";

/// The event under which the webview follows the installer.
pub const BOOTSTRAP_EVENT: &'static str = "hermes:bootstrap-event";

/// The bound of the installer's log: a long install must not grow the snapshot
/// past what one reply can reasonably carry.
pub const BOOTSTRAP_LOG_RING_MAX: usize = 500;

// ---------------------------------------------------------------------------
// Boot progress
// ---------------------------------------------------------------------------
/// The boot as the renderer sees it.
#[derive(Debug, Clone, PartialEq, Eq)]
pub struct DesktopBootProgress {
    pub error: Option<String>,
    /// A switch for end-to-end tests that no flag of this shell turns on; the
    /// renderer's type requires the field.
    pub fake_mode: bool,
    pub is_cloud_backend_down: Option<bool>,
    pub message: String,
    pub phase: String,
    pub progress: u8,
    pub retryable: Option<bool>,
    pub running: bool,
    pub status_code: Option<u16>,
    pub timestamp: u64,
}

/// What a `DesktopBootProgress` says.
#[verifier::ext_equal]
pub struct ProgressView {
    pub error: Option<Seq<char>>,
    pub fake_mode: bool,
    pub is_cloud_backend_down: Option<bool>,
    pub message: Seq<char>,
    pub phase: Seq<char>,
    pub progress: u8,
    pub retryable: Option<bool>,
    pub running: bool,
    pub status_code: Option<u16>,
    pub timestamp: u64,
}

impl View for DesktopBootProgress {
    type V = ProgressView;

    open spec fn view(&self) -> ProgressView {
        ProgressView {
            error: self.error.deep_view(),
            fake_mode: self.fake_mode,
            is_cloud_backend_down: self.is_cloud_backend_down,
            message: self.message@,
            phase: self.phase@,
            progress: self.progress,
            retryable: self.retryable,
            running: self.running,
            status_code: self.status_code,
            timestamp: self.timestamp,
        }
    }
}

/// One transition of the boot.
#[derive(Debug, Clone, PartialEq, Eq)]
pub struct Step {
    pub phase: &'static str,
    pub message: String,
    /// `None` keeps whatever the bar already shows.
    pub progress: Option<u8>,
    pub running: bool,
    /// A failure latches here; any later step clears it.
    pub error: Option<String>,
    pub retryable: Option<bool>,
    pub allow_decrease: bool,
}

/// What a `Step` says.
#[verifier::ext_equal]
pub struct StepView {
    pub phase: Seq<char>,
    pub message: Seq<char>,
    pub progress: Option<u8>,
    pub running: bool,
    pub error: Option<Seq<char>>,
    pub retryable: Option<bool>,
    pub allow_decrease: bool,
}

impl View for Step {
    type V = StepView;

    open spec fn view(&self) -> StepView {
        StepView {
            phase: self.phase@,
            message: self.message@,
            progress: self.progress,
            running: self.running,
            error: self.error.deep_view(),
            retryable: self.retryable,
            allow_decrease: self.allow_decrease,
        }
    }
}

impl DeepView for Step {
    type V = StepView;

    open spec fn deep_view(&self) -> StepView {
        self@
    }
}

/// What the renderer may read before any backend work has started.
pub open spec fn idle_progress(now: u64) -> ProgressView {
    ProgressView {
        error: None,
        fake_mode: false,
        is_cloud_backend_down: None,
        message: "Waiting to start Hermes backend"@,
        phase: "idle"@,
        progress: 0,
        retryable: None,
        running: false,
        status_code: None,
        timestamp: now,
    }
}

/// A step forward.
pub open spec fn running_step(phase: Seq<char>, message: Seq<char>, progress: u8) -> StepView {
    StepView {
        phase,
        message,
        progress: Some(progress),
        running: true,
        error: None,
        retryable: None,
        allow_decrease: false,
    }
}

/// A reconnect, which legitimately moves the bar back.
pub open spec fn rewind_step(phase: Seq<char>, message: Seq<char>, progress: u8) -> StepView {
    StepView { allow_decrease: true, ..running_step(phase, message, progress) }
}

/// The terminal failure.
pub open spec fn failed_step(error: Seq<char>) -> StepView {
    StepView {
        phase: "backend.error"@,
        message: "Hermes backend failed to start: "@ + error,
        progress: None,
        running: false,
        error: Some(error),
        retryable: Some(false),
        allow_decrease: true,
    }
}

/// A progress value brought into the range of the bar.
pub open spec fn clamped(progress: u8) -> u8 {
    if progress > 100 {
        100
    } else {
        progress
    }
}

/// Where the bar stands after a step: a step without a value leaves it, one
/// that may decrease sets it, and any other only ever raises it.
pub open spec fn bar_after(current: u8, progress: Option<u8>, allow_decrease: bool) -> u8 {
    match progress {
        None => current,
        Some(value) => if allow_decrease || clamped(value) > current {
            clamped(value)
        } else {
            current
        },
    }
}

/// The snapshot after a step that is taken at the time `now`.
pub open spec fn advanced(current: ProgressView, step: StepView, now: u64) -> ProgressView {
    ProgressView {
        error: step.error,
        fake_mode: current.fake_mode,
        is_cloud_backend_down: current.is_cloud_backend_down,
        message: step.message,
        phase: step.phase,
        progress: bar_after(current.progress, step.progress, step.allow_decrease),
        retryable: step.retryable,
        running: step.running,
        status_code: current.status_code,
        timestamp: now,
    }
}

impl DesktopBootProgress {
    /// What the renderer may read before any backend work has started, as of
    /// now. `running` is false: reporting a boot under way when nobody started
    /// one would put the overlay up.
    pub fn idle() -> (r: Self)
        ensures
            r@ == idle_progress(r.timestamp),
    {
        Self::idle_at(clock::now_ms())
    }

    /// The idle snapshot as of the time `now`.
    pub fn idle_at(now: u64) -> (r: Self)
        ensures
            r@ == idle_progress(now),
    {
        DesktopBootProgress {
            error: None,
            fake_mode: false,
            is_cloud_backend_down: None,
            message: "Waiting to start Hermes backend".to_owned(),
            phase: "idle".to_owned(),
            progress: 0,
            retryable: None,
            running: false,
            status_code: None,
            timestamp: now,
        }
    }

    /// The one transition that a snapshot takes.
    pub fn transition(&mut self, step: Step, now: u64)
        ensures
            final(self)@ == advanced(old(self)@, step@, now),
    {
        self.progress = match step.progress {
            None => self.progress,
            Some(value) => {
                let value: u8 = if value > 100 {
                    100
                } else {
                    value
                };
                if step.allow_decrease || value > self.progress {
                    value
                } else {
                    self.progress
                }
            },
        };
        self.phase = step.phase.to_owned();
        self.message = step.message;
        self.running = step.running;
        self.error = step.error;
        self.retryable = step.retryable;
        self.timestamp = now;
    }

    /// A copy of the snapshot.
    fn copied(&self) -> (r: Self)
        ensures
            r@ == self@,
    {
        DesktopBootProgress {
            error: self.error.duplicate(),
            fake_mode: self.fake_mode,
            is_cloud_backend_down: self.is_cloud_backend_down,
            message: self.message.clone(),
            phase: self.phase.clone(),
            progress: self.progress,
            retryable: self.retryable,
            running: self.running,
            status_code: self.status_code,
            timestamp: self.timestamp,
        }
    }
}

impl Step {
    /// A step forward. Progress only climbs, so that the producers that share
    /// one bar cannot make it jump backwards over each other.
    pub fn running(phase: &'static str, message: &str, progress: u8) -> (r: Self)
        ensures
            r@ == running_step(phase@, message@, progress),
    {
        Step {
            phase,
            message: message.to_owned(),
            progress: Some(progress),
            running: true,
            error: None,
            retryable: None,
            allow_decrease: false,
        }
    }

    /// A reconnect, which legitimately rewinds the bar.
    pub fn rewind(phase: &'static str, message: &str, progress: u8) -> (r: Self)
        ensures
            r@ == rewind_step(phase@, message@, progress),
    {
        Step {
            phase,
            message: message.to_owned(),
            progress: Some(progress),
            running: true,
            error: None,
            retryable: None,
            allow_decrease: true,
        }
    }

    /// The terminal failure. Keeps the bar where the boot stopped, and refuses
    /// an automatic retry: a local child that fails to spawn fails the same way
    /// on every attempt.
    pub fn failed(error: &str) -> (r: Self)
        ensures
            r@ == failed_step(error@),
    {
        Step {
            phase: "backend.error",
            message: text::cat("Hermes backend failed to start: ", error),
            progress: None,
            running: false,
            error: Some(error.to_owned()),
            retryable: Some(false),
            allow_decrease: true,
        }
    }
}

/// The single boot-progress slot.
pub struct BootProgress {
    inner: DesktopBootProgress,
}

impl View for BootProgress {
    type V = ProgressView;

    closed spec fn view(&self) -> ProgressView {
        self.inner@
    }
}

impl BootProgress {
    /// The bar never leaves its range.
    #[verifier::type_invariant]
    spec fn bar_in_range(self) -> bool {
        self.inner.progress <= 100
    }

    /// A slot in which no boot has begun.
    pub fn new() -> (r: Self)
        ensures
            r@ == idle_progress(r@.timestamp),
    {
        BootProgress { inner: DesktopBootProgress::idle() }
    }

    /// The snapshot that the renderer reads.
    pub fn snapshot(&self) -> (r: DesktopBootProgress)
        ensures
            r@ == self@,
            r.progress <= 100,
    {
        proof {
            use_type_invariant(self);
        }
        self.inner.copied()
    }

    /// Apply `step` and return the result, for the caller to emit.
    pub fn apply(&mut self, step: Step) -> (r: DesktopBootProgress)
        ensures
            final(self)@ == advanced(old(self)@, step@, r.timestamp),
            r@ == final(self)@,
            r.progress <= 100,
    {
        self.apply_at(step, clock::now_ms())
    }

    /// Apply `step` as of the time `now` and return the result.
    pub fn apply_at(&mut self, step: Step, now: u64) -> (r: DesktopBootProgress)
        ensures
            final(self)@ == advanced(old(self)@, step@, now),
            r@ == final(self)@,
            r.progress <= 100,
    {
        proof {
            use_type_invariant(&*self);
        }
        let mut next = self.inner.copied();
        next.transition(step, now);
        let shown = next.copied();
        self.inner = next;
        shown
    }
}

impl Default for BootProgress {
    fn default() -> (r: Self)
        ensures
            r@ == idle_progress(r@.timestamp),
    {
        BootProgress::new()
    }
}

/// What the desktop log says of a snapshot.
pub fn boot_log_line(snapshot: &DesktopBootProgress) -> (r: String)
    ensures
        r@ == "[boot] "@ + snapshot.phase@ + " — "@ + snapshot.message@,
{
    text::cat4("[boot] ", snapshot.phase.as_str(), " — ", snapshot.message.as_str())
}

/// The bar only ever climbs, unless a step asks for a decrease, and it stays in
/// its range.
pub proof fn the_bar_only_climbs(current: ProgressView, step: StepView, now: u64)
    requires
        current.progress <= 100,
    ensures
        advanced(current, step, now).progress <= 100,
        !step.allow_decrease ==> advanced(current, step, now).progress >= current.progress,
{
}

/// Two forward steps leave the bar in the same place in either order.
pub proof fn forward_steps_commute_on_the_bar(
    current: ProgressView,
    first: StepView,
    second: StepView,
    now: u64,
)
    requires
        !first.allow_decrease,
        !second.allow_decrease,
    ensures
        advanced(advanced(current, first, now), second, now).progress == advanced(
            advanced(current, second, now),
            first,
            now,
        ).progress,
{
}

/// A failure stops the boot, keeps the bar where it was, shows its reason and
/// refuses an automatic retry.
pub proof fn a_failure_keeps_the_bar(current: ProgressView, error: Seq<char>, now: u64)
    ensures
        ({
            let after = advanced(current, failed_step(error), now);
            &&& after.progress == current.progress
            &&& !after.running
            &&& after.error == Some(error)
            &&& after.retryable == Some(false)
            &&& text::scan::occurs(after.message, error)
        }),
{
    let message = "Hermes backend failed to start: "@ + error;
    let at = "Hermes backend failed to start: "@.len() as int;
    assert(message.subrange(at, at + error.len()) =~= error);
    assert(text::scan::occurs_at(message, error, at));
}

/// Whatever was latched before, a step that is not a failure clears it.
pub proof fn a_later_step_clears_a_failure(
    current: ProgressView,
    phase: Seq<char>,
    message: Seq<char>,
    progress: u8,
    now: u64,
)
    ensures
        ({
            let after = advanced(current, running_step(phase, message, progress), now);
            after.error is None && after.retryable is None && after.running
        }),
        ({
            let after = advanced(current, rewind_step(phase, message, progress), now);
            &&& after.error is None
            &&& after.retryable is None
            &&& after.running
            &&& after.progress == clamped(progress)
        }),
{
}

// ---------------------------------------------------------------------------
// The installer's snapshot
// ---------------------------------------------------------------------------
/// How far one stage has come.
#[derive(Debug, Clone, PartialEq, Eq)]
pub struct StageStatus {
    pub state: String,
    pub duration_ms: Option<u64>,
    pub json: Option<StageResult>,
    pub error: Option<String>,
}

/// What a `StageStatus` says.
#[verifier::ext_equal]
pub struct StageStatusView {
    pub state: Seq<char>,
    pub duration_ms: Option<u64>,
    pub json: Option<events::StageResultView>,
    pub error: Option<Seq<char>>,
}

impl DeepView for StageStatus {
    type V = StageStatusView;

    open spec fn deep_view(&self) -> StageStatusView {
        StageStatusView {
            state: self.state@,
            duration_ms: self.duration_ms,
            json: self.json.deep_view(),
            error: self.error.deep_view(),
        }
    }
}

impl Duplicate for StageStatus {
    fn duplicate(&self) -> (r: StageStatus) {
        StageStatus {
            state: self.state.clone(),
            duration_ms: self.duration_ms,
            json: self.json.duplicate(),
            error: self.error.duplicate(),
        }
    }
}

/// A stage of the installation, by its name.
#[derive(Debug, Clone, PartialEq, Eq)]
pub struct StageEntry {
    pub name: String,
    pub status: StageStatus,
}

impl DeepView for StageEntry {
    type V = (Seq<char>, StageStatusView);

    open spec fn deep_view(&self) -> (Seq<char>, StageStatusView) {
        (self.name@, self.status.deep_view())
    }
}

impl Duplicate for StageEntry {
    fn duplicate(&self) -> (r: StageEntry) {
        StageEntry { name: self.name.clone(), status: self.status.duplicate() }
    }
}

/// One line of the installer's log.
#[derive(Debug, Clone, PartialEq, Eq)]
pub struct LogEntry {
    pub ts: u64,
    pub stage: Option<String>,
    pub line: String,
    pub stream: Option<String>,
}

/// What a `LogEntry` says.
#[verifier::ext_equal]
pub struct LogEntryView {
    pub ts: u64,
    pub stage: Option<Seq<char>>,
    pub line: Seq<char>,
    pub stream: Option<Seq<char>>,
}

impl DeepView for LogEntry {
    type V = LogEntryView;

    open spec fn deep_view(&self) -> LogEntryView {
        LogEntryView {
            ts: self.ts,
            stage: self.stage.deep_view(),
            line: self.line@,
            stream: self.stream.deep_view(),
        }
    }
}

impl Duplicate for LogEntry {
    fn duplicate(&self) -> (r: LogEntry) {
        LogEntry {
            ts: self.ts,
            stage: self.stage.duplicate(),
            line: self.line.clone(),
            stream: self.stream.duplicate(),
        }
    }
}

/// The installer as the renderer sees it. The setup choice and the notice of an
/// unsupported platform are carried as JSON text: nothing here reads them.
#[derive(Debug, Clone, PartialEq, Eq)]
pub struct DesktopBootstrapState {
    pub active: bool,
    pub manifest: Option<ManifestPayload>,
    /// At most one entry for each stage name.
    pub stages: Vec<StageEntry>,
    pub error: Option<String>,
    pub log: Vec<LogEntry>,
    pub started_at: Option<u64>,
    pub completed_at: Option<u64>,
    pub setup_choice: Option<String>,
    pub unsupported_platform: Option<String>,
}

/// What a `DesktopBootstrapState` says: the stages are a map from their names.
#[verifier::ext_equal]
pub struct BootstrapStateView {
    pub active: bool,
    pub manifest: Option<events::ManifestView>,
    pub stages: Map<Seq<char>, StageStatusView>,
    pub error: Option<Seq<char>>,
    pub log: Seq<LogEntryView>,
    pub started_at: Option<u64>,
    pub completed_at: Option<u64>,
    pub setup_choice: Option<Seq<char>>,
    pub unsupported_platform: Option<Seq<char>>,
}

/// The map that a list of entries stands for: a later entry wins.
pub open spec fn stage_map(entries: Seq<(Seq<char>, StageStatusView)>) -> Map<
    Seq<char>,
    StageStatusView,
>
    decreases entries.len(),
{
    if entries.len() == 0 {
        Map::empty()
    } else {
        stage_map(entries.drop_last()).insert(entries.last().0, entries.last().1)
    }
}

impl View for DesktopBootstrapState {
    type V = BootstrapStateView;

    open spec fn view(&self) -> BootstrapStateView {
        BootstrapStateView {
            active: self.active,
            manifest: self.manifest.deep_view(),
            stages: stage_map(self.stages.deep_view()),
            error: self.error.deep_view(),
            log: self.log.deep_view(),
            started_at: self.started_at,
            completed_at: self.completed_at,
            setup_choice: self.setup_choice.deep_view(),
            unsupported_platform: self.unsupported_platform.deep_view(),
        }
    }
}

/// No installer ran, and none is running.
pub open spec fn inactive_state() -> BootstrapStateView {
    BootstrapStateView {
        active: false,
        manifest: None,
        stages: Map::empty(),
        error: None,
        log: Seq::empty(),
        started_at: None,
        completed_at: None,
        setup_choice: None,
        unsupported_platform: None,
    }
}

/// The snapshot without a latched failure.
pub open spec fn without_failure(state: BootstrapStateView) -> BootstrapStateView {
    BootstrapStateView { error: None, ..state }
}

/// A stage that has not begun.
pub open spec fn pending_status() -> StageStatusView {
    StageStatusView { state: "pending"@, duration_ms: None, json: None, error: None }
}

/// Every announced stage, none of which has begun.
pub open spec fn pending_stages(stages: Seq<events::StageDescriptorView>) -> Map<
    Seq<char>,
    StageStatusView,
>
    decreases stages.len(),
{
    if stages.len() == 0 {
        Map::empty()
    } else {
        pending_stages(stages.drop_last()).insert(stages.last().name, pending_status())
    }
}

/// The newest entries of `log`, as many as the ring holds.
pub open spec fn newest(log: Seq<LogEntryView>) -> Seq<LogEntryView> {
    if log.len() > BOOTSTRAP_LOG_RING_MAX {
        log.skip(log.len() - BOOTSTRAP_LOG_RING_MAX)
    } else {
        log
    }
}

/// The snapshot after the runner reported `event` at the time `now`.
pub open spec fn after_event(
    state: BootstrapStateView,
    event: events::BootstrapEventView,
    now: u64,
) -> BootstrapStateView {
    match event {
        events::BootstrapEventView::Manifest { stages, protocol_version } => BootstrapStateView {
            manifest: Some(events::ManifestView { stages, protocol_version }),
            active: true,
            setup_choice: None,
            started_at: Some(
                match state.started_at {
                    Some(at) => at,
                    None => now,
                },
            ),
            stages: pending_stages(stages),
            ..state
        },
        events::BootstrapEventView::Stage { name, state: reached, duration_ms, json, error } =>
            BootstrapStateView {
            stages: state.stages.insert(
                name,
                StageStatusView { state: reached, duration_ms, json, error },
            ),
            ..state
        },
        events::BootstrapEventView::Log { stage, line, stream } => BootstrapStateView {
            log: newest(state.log.push(LogEntryView { ts: now, stage, line, stream })),
            ..state
        },
        events::BootstrapEventView::Complete { marker } => BootstrapStateView {
            active: false,
            completed_at: Some(now),
            error: None,
            unsupported_platform: None,
            ..state
        },
        events::BootstrapEventView::Failed { stage, error } => BootstrapStateView {
            active: false,
            error: Some(error),
            setup_choice: None,
            ..state
        },
    }
}

/// Whether no two entries name the same stage.
pub open spec fn distinct(entries: Seq<(Seq<char>, StageStatusView)>) -> bool {
    forall|i: int, j: int|
        0 <= i < j < entries.len() ==> (#[trigger] entries[i]).0 != (#[trigger] entries[j]).0
}

/// Among distinct entries each name maps to its own status, and to nothing
/// else does any name map.
proof fn lemma_stage_map(entries: Seq<(Seq<char>, StageStatusView)>)
    requires
        distinct(entries),
    ensures
        forall|i: int|
            0 <= i < entries.len() ==> stage_map(entries).contains_key(
                (#[trigger] entries[i]).0,
            ) && stage_map(entries)[entries[i].0] == entries[i].1,
        forall|name: Seq<char>| #[trigger]
            stage_map(entries).contains_key(name) ==> exists|i: int|
                0 <= i < entries.len() && (#[trigger] entries[i]).0 == name,
    decreases entries.len(),
{
    if entries.len() > 0 {
        let rest = entries.drop_last();
        lemma_stage_map(rest);
        assert forall|i: int| 0 <= i < entries.len() implies stage_map(entries).contains_key(
            (#[trigger] entries[i]).0,
        ) && stage_map(entries)[entries[i].0] == entries[i].1 by {
            if i < rest.len() {
                assert(rest[i] == entries[i]);
                assert(entries[i].0 != entries[entries.len() - 1].0);
            }
        }
        assert forall|name: Seq<char>| #[trigger]
            stage_map(entries).contains_key(name) implies exists|i: int|
            0 <= i < entries.len() && (#[trigger] entries[i]).0 == name by {
            if name == entries.last().0 {
                assert(entries[entries.len() - 1].0 == name);
            } else {
                assert(stage_map(rest).contains_key(name));
                let i = choose|i: int| 0 <= i < rest.len() && (#[trigger] rest[i]).0 == name;
                assert(entries[i].0 == name);
            }
        }
    }
}

/// Record `status` as what the stage `name` has come to.
fn record_stage(entries: &mut Vec<StageEntry>, name: String, status: StageStatus)
    requires
        distinct(old(entries).deep_view()),
    ensures
        distinct(final(entries).deep_view()),
        stage_map(final(entries).deep_view()) == stage_map(old(entries).deep_view()).insert(
            name@,
            status.deep_view(),
        ),
{
    let ghost before = entries.deep_view();
    let mut i: usize = 0;
    while i < entries.len()
        invariant
            i <= entries@.len(),
            entries.deep_view() == before,
            before == old(entries).deep_view(),
            distinct(before),
            forall|j: int| 0 <= j < i ==> (#[trigger] before[j]).0 != name@,
        decreases entries@.len() - i,
    {
        if text::str_eq(entries[i].name.as_str(), name.as_str()) {
            let ghost entry = (name@, status.deep_view());
            entries.set(i, StageEntry { name, status });
            proof {
                let after = entries.deep_view();
                assert(after =~= before.update(i as int, entry));
                assert(before[i as int].0 == name@);
                assert forall|j: int, k: int| 0 <= j < k < after.len() implies (
                #[trigger] after[j]).0 != (#[trigger] after[k]).0 by {
                    assert(after[j].0 == before[j].0);
                    assert(after[k].0 == before[k].0);
                }
                lemma_stage_map(before);
                lemma_stage_map(after);
                assert forall|key: Seq<char>| #[trigger]
                    stage_map(after).contains_key(key) == stage_map(before).contains_key(key) by {
                    if stage_map(after).contains_key(key) {
                        let k = choose|k: int|
                            0 <= k < after.len() && (#[trigger] after[k]).0 == key;
                        assert(before[k].0 == key);
                    }
                    if stage_map(before).contains_key(key) {
                        let k = choose|k: int|
                            0 <= k < before.len() && (#[trigger] before[k]).0 == key;
                        assert(after[k].0 == key);
                    }
                }
                assert(stage_map(before).contains_key(name@));
                assert forall|key: Seq<char>| #[trigger]
                    stage_map(after).contains_key(key) implies stage_map(after)[key] == stage_map(
                    before,
                ).insert(name@, entry.1)[key] by {
                    let k = choose|k: int| 0 <= k < after.len() && (#[trigger] after[k]).0 == key;
                    assert(before[k].0 == key);
                    if k != i {
                        assert(after[k] == before[k]);
                        if k < i {
                            assert(before[k].0 != before[i as int].0);
                        } else {
                            assert(before[i as int].0 != before[k].0);
                        }
                    }
                }
                assert(stage_map(after) =~= stage_map(before).insert(name@, entry.1));
            }
            return ;
        }
        i = i + 1;
    }
    let ghost entry = (name@, status.deep_view());
    entries.push(StageEntry { name, status });
    proof {
        let after = entries.deep_view();
        assert(after =~= before.push(entry));
        assert(after.drop_last() =~= before);
        assert forall|j: int, k: int| 0 <= j < k < after.len() implies (#[trigger] after[j]).0 != (
        #[trigger] after[k]).0 by {
            assert(before[j] == after[j]);
            if k < before.len() {
                assert(before[k] == after[k]);
            }
        }
    }
}

/// Every announced stage as pending.
fn announce(stages: &Vec<crate::bootstrap::StageDescriptor>) -> (r: Vec<StageEntry>)
    ensures
        distinct(r.deep_view()),
        stage_map(r.deep_view()) == pending_stages(stages.deep_view()),
{
    let ghost all = stages.deep_view();
    let mut out: Vec<StageEntry> = Vec::new();
    let mut i: usize = 0;
    proof {
        assert(all.take(0) =~= Seq::<events::StageDescriptorView>::empty());
        assert(out.deep_view() =~= Seq::<(Seq<char>, StageStatusView)>::empty());
    }
    while i < stages.len()
        invariant
            i <= stages@.len(),
            all == stages.deep_view(),
            distinct(out.deep_view()),
            stage_map(out.deep_view()) == pending_stages(all.take(i as int)),
        decreases stages@.len() - i,
    {
        let pending = StageStatus {
            state: "pending".to_owned(),
            duration_ms: None,
            json: None,
            error: None,
        };
        record_stage(&mut out, stages[i].name.clone(), pending);
        proof {
            assert(all.take(i + 1).drop_last() =~= all.take(i as int));
            assert(all.take(i + 1).last() == all[i as int]);
        }
        i = i + 1;
    }
    proof {
        assert(all.take(i as int) =~= all);
    }
    out
}

/// Add `entry` to the log and drop the oldest entries beyond the bound.
fn record_line(log: &mut Vec<LogEntry>, entry: LogEntry)
    requires
        old(log)@.len() <= BOOTSTRAP_LOG_RING_MAX,
    ensures
        final(log).deep_view() == newest(old(log).deep_view().push(entry.deep_view())),
        final(log)@.len() <= BOOTSTRAP_LOG_RING_MAX,
{
    let ghost before = log.deep_view();
    log.push(entry);
    let ghost pushed = log.deep_view();
    proof {
        assert(pushed =~= before.push(entry.deep_view()));
    }
    if log.len() > BOOTSTRAP_LOG_RING_MAX {
        let _ = log.remove(0);
        proof {
            assert(log.deep_view() =~= pushed.skip(1));
        }
    }
}

impl DesktopBootstrapState {
    /// No installer ran, and none is running: what keeps the installer overlay
    /// from showing.
    pub fn inactive() -> (r: Self)
        ensures
            r@ == inactive_state(),
            r.stages@.len() == 0,
            r.log@.len() == 0,
    {
        let r = DesktopBootstrapState {
            active: false,
            manifest: None,
            stages: Vec::new(),
            error: None,
            log: Vec::new(),
            started_at: None,
            completed_at: None,
            setup_choice: None,
            unsupported_platform: None,
        };
        proof {
            assert(r.log.deep_view() =~= Seq::<LogEntryView>::empty());
        }
        r
    }

    /// Take `event` into the snapshot as of the time `now`.
    fn take_event(&mut self, event: &BootstrapEvent, now: u64)
        requires
            distinct(old(self).stages.deep_view()),
            old(self).log@.len() <= BOOTSTRAP_LOG_RING_MAX,
        ensures
            distinct(final(self).stages.deep_view()),
            final(self).log@.len() <= BOOTSTRAP_LOG_RING_MAX,
            final(self)@ == after_event(old(self)@, event.deep_view(), now),
    {
        match event {
            BootstrapEvent::Manifest { stages, protocol_version } => {
                self.manifest = Some(
                    ManifestPayload {
                        stages: stages.duplicate(),
                        protocol_version: protocol_version.duplicate(),
                    },
                );
                self.active = true;
                self.setup_choice = None;
                self.started_at = Some(
                    match self.started_at {
                        Some(at) => at,
                        None => now,
                    },
                );
                self.stages = announce(stages);
            },
            BootstrapEvent::Stage { name, state, duration_ms, json, error } => {
                let status = StageStatus {
                    state: state.clone(),
                    duration_ms: *duration_ms,
                    json: json.duplicate(),
                    error: error.duplicate(),
                };
                record_stage(&mut self.stages, name.clone(), status);
            },
            BootstrapEvent::Log { stage, line, stream } => {
                let entry = LogEntry {
                    ts: now,
                    stage: stage.duplicate(),
                    line: line.clone(),
                    stream: stream.duplicate(),
                };
                record_line(&mut self.log, entry);
            },
            BootstrapEvent::Complete { .. } => {
                self.active = false;
                self.completed_at = Some(now);
                self.error = None;
                self.unsupported_platform = None;
            },
            BootstrapEvent::Failed { error, .. } => {
                self.active = false;
                self.error = Some(error.clone());
                self.setup_choice = None;
            },
        }
    }

    /// A copy of the snapshot.
    fn copied(&self) -> (r: Self)
        ensures
            r@ == self@,
            r.stages.deep_view() == self.stages.deep_view(),
            r.log.deep_view() == self.log.deep_view(),
    {
        DesktopBootstrapState {
            active: self.active,
            manifest: self.manifest.duplicate(),
            stages: self.stages.duplicate(),
            error: self.error.duplicate(),
            log: self.log.duplicate(),
            started_at: self.started_at,
            completed_at: self.completed_at,
            setup_choice: self.setup_choice.duplicate(),
            unsupported_platform: self.unsupported_platform.duplicate(),
        }
    }
}

/// The first-launch installer: the snapshot that the runner's events feed, and
/// the flag by which a running installation is asked to stop.
pub struct BootstrapState {
    inner: DesktopBootstrapState,
    cancel: bool,
}

impl View for BootstrapState {
    type V = BootstrapStateView;

    closed spec fn view(&self) -> BootstrapStateView {
        self.inner@
    }
}

impl BootstrapState {
    /// No stage is listed twice, and the log is within its bound.
    #[verifier::type_invariant]
    spec fn well_formed(self) -> bool {
        distinct(self.inner.stages.deep_view()) && self.inner.log@.len() <= BOOTSTRAP_LOG_RING_MAX
    }

    /// Whether a running installation has been asked to stop.
    pub closed spec fn cancel_requested(&self) -> bool {
        self.cancel
    }

    /// A holder in which no installer ran and nothing asks one to stop.
    pub fn new() -> (r: Self)
        ensures
            r@ == inactive_state(),
            !r.cancel_requested(),
    {
        let inner = DesktopBootstrapState::inactive();
        BootstrapState { inner, cancel: false }
    }

    /// The snapshot that the renderer reads.
    pub fn snapshot(&self) -> (r: DesktopBootstrapState)
        ensures
            r@ == self@,
            distinct(r.stages.deep_view()),
            r.log@.len() <= BOOTSTRAP_LOG_RING_MAX,
    {
        proof {
            use_type_invariant(self);
        }
        let r = self.inner.copied();
        proof {
            assert(r.log.deep_view().len() == self.inner.log.deep_view().len());
        }
        r
    }

    /// Ask the running installation to stop before its next stage.
    pub fn request_cancel(&mut self)
        ensures
            final(self).cancel_requested(),
            final(self)@ == old(self)@,
    {
        proof {
            use_type_invariant(&*self);
        }
        self.cancel = true;
    }

    /// Take the request to stop back.
    pub fn clear_cancel(&mut self)
        ensures
            !final(self).cancel_requested(),
            final(self)@ == old(self)@,
    {
        proof {
            use_type_invariant(&*self);
        }
        self.cancel = false;
    }

    /// The flag that the runner reads between stages.
    pub fn cancel_flag(&self) -> (r: bool)
        ensures
            r == self.cancel_requested(),
    {
        self.cancel
    }

    /// Take a runner event into the snapshot and return the result.
    pub fn apply_runner_event(&mut self, event: &BootstrapEvent) -> (r: DesktopBootstrapState)
        ensures
            exists|now: u64| final(self)@ == #[trigger] after_event(
                old(self)@,
                event.deep_view(),
                now,
            ),
            final(self).cancel_requested() == old(self).cancel_requested(),
            r@ == final(self)@,
            distinct(r.stages.deep_view()),
            r.log@.len() <= BOOTSTRAP_LOG_RING_MAX,
    {
        self.apply_runner_event_at(event, clock::now_ms())
    }

    /// Take a runner event into the snapshot as of the time `now` and return
    /// the result.
    pub fn apply_runner_event_at(&mut self, event: &BootstrapEvent, now: u64) -> (r:
        DesktopBootstrapState)
        ensures
            final(self)@ == after_event(old(self)@, event.deep_view(), now),
            final(self).cancel_requested() == old(self).cancel_requested(),
            r@ == final(self)@,
            distinct(r.stages.deep_view()),
            r.log@.len() <= BOOTSTRAP_LOG_RING_MAX,
    {
        proof {
            use_type_invariant(&*self);
        }
        let mut next = self.inner.copied();
        proof {
            assert(next.log.deep_view().len() == self.inner.log.deep_view().len());
        }
        next.take_event(event, now);
        let shown = next.copied();
        proof {
            assert(shown.log.deep_view().len() == next.log.deep_view().len());
        }
        self.inner = next;
        shown
    }

    /// Forget a latched failure and nothing else.
    pub fn clear_failure(&mut self)
        ensures
            final(self)@ == without_failure(old(self)@),
            final(self).cancel_requested() == old(self).cancel_requested(),
    {
        proof {
            use_type_invariant(&*self);
        }
        self.inner.error = None;
    }

    /// Reset the snapshot to "nothing ran" and return it. A request to stop
    /// stays as it is.
    pub fn reset(&mut self) -> (r: DesktopBootstrapState)
        ensures
            final(self)@ == inactive_state(),
            final(self).cancel_requested() == old(self).cancel_requested(),
            r@ == inactive_state(),
    {
        proof {
            use_type_invariant(&*self);
        }
        let fresh = DesktopBootstrapState::inactive();
        self.inner = fresh;
        DesktopBootstrapState::inactive()
    }
}

impl Default for BootstrapState {
    fn default() -> (r: Self)
        ensures
            r@ == inactive_state(),
            !r.cancel_requested(),
    {
        BootstrapState::new()
    }
}

/// The log of a snapshot keeps to its bound whatever the runner reports, and
/// the line reported last is always in it.
pub proof fn the_log_keeps_the_newest_lines(
    state: BootstrapStateView,
    event: events::BootstrapEventView,
    now: u64,
)
    requires
        state.log.len() <= BOOTSTRAP_LOG_RING_MAX,
    ensures
        after_event(state, event, now).log.len() <= BOOTSTRAP_LOG_RING_MAX,
        event matches events::BootstrapEventView::Log { stage, line, stream } ==> after_event(
            state,
            event,
            now,
        ).log.last() == (LogEntryView { ts: now, stage, line, stream }),
        !(event is Log) ==> after_event(state, event, now).log == state.log,
{
}

/// The snapshot after a sequence of reports, each with the time at which it came.
pub open spec fn after_events(
    state: BootstrapStateView,
    reports: Seq<(events::BootstrapEventView, u64)>,
) -> BootstrapStateView
    decreases reports.len(),
{
    if reports.len() == 0 {
        state
    } else {
        after_event(
            after_events(state, reports.drop_last()),
            reports.last().0,
            reports.last().1,
        )
    }
}

/// The log lines among a sequence of reports, oldest first.
pub open spec fn reported_lines(reports: Seq<(events::BootstrapEventView, u64)>) -> Seq<
    LogEntryView,
>
    decreases reports.len(),
{
    if reports.len() == 0 {
        Seq::empty()
    } else {
        let before = reported_lines(reports.drop_last());
        match reports.last().0 {
            events::BootstrapEventView::Log { stage, line, stream } => before.push(
                LogEntryView { ts: reports.last().1, stage, line, stream },
            ),
            _ => before,
        }
    }
}

/// After any sequence of reports the log of a snapshot holds the newest of all
/// its lines, those that it began with and those that were reported since, in the
/// order in which they came.
pub proof fn the_log_is_the_newest_of_all_lines(
    state: BootstrapStateView,
    reports: Seq<(events::BootstrapEventView, u64)>,
)
    requires
        state.log.len() <= BOOTSTRAP_LOG_RING_MAX,
    ensures
        after_events(state, reports).log == newest(state.log + reported_lines(reports)),
    decreases reports.len(),
{
    if reports.len() == 0 {
        assert(state.log + reported_lines(reports) =~= state.log);
    } else {
        let front = reports.drop_last();
        let (event, now) = reports.last();
        the_log_is_the_newest_of_all_lines(state, front);
        if let events::BootstrapEventView::Log { stage, line, stream } = event {
            let entry = LogEntryView { ts: now, stage, line, stream };
            let lines = state.log + reported_lines(front);
            assert(state.log + reported_lines(reports) =~= lines.push(entry));
            assert(newest(newest(lines).push(entry)) =~= newest(lines.push(entry)));
        }
    }
}

/// A manifest announces each of its stages as pending and no other.
pub proof fn a_manifest_lists_its_stages_as_pending(
    state: BootstrapStateView,
    stages: Seq<events::StageDescriptorView>,
    protocol_version: Option<Seq<char>>,
    now: u64,
)
    ensures
        ({
            let after = after_event(
                state,
                events::BootstrapEventView::Manifest { stages, protocol_version },
                now,
            );
            &&& after.active
            &&& forall|i: int|
                0 <= i < stages.len() ==> after.stages.contains_key((#[trigger] stages[i]).name)
            &&& forall|name: Seq<char>| #[trigger]
                after.stages.contains_key(name) ==> after.stages[name] == pending_status()
                    && exists|i: int| 0 <= i < stages.len() && (#[trigger] stages[i]).name == name
        }),
    decreases stages.len(),
{
    if stages.len() > 0 {
        let rest = stages.drop_last();
        a_manifest_lists_its_stages_as_pending(state, rest, protocol_version, now);
        let all = pending_stages(stages);
        assert forall|i: int| 0 <= i < stages.len() implies all.contains_key(
            (#[trigger] stages[i]).name,
        ) by {
            if i < rest.len() {
                assert(rest[i] == stages[i]);
            }
        }
        assert forall|name: Seq<char>| #[trigger] all.contains_key(name) implies all[name]
            == pending_status() && exists|i: int|
            0 <= i < stages.len() && (#[trigger] stages[i]).name == name by {
            if name == stages.last().name {
                assert(stages[stages.len() - 1].name == name);
            } else {
                assert(pending_stages(rest).contains_key(name));
                let i = choose|i: int| 0 <= i < rest.len() && (#[trigger] rest[i]).name == name;
                assert(stages[i].name == name);
            }
        }
    }
}

/// An installation that ended, well or badly, is no longer active, and only a
/// bad end leaves an error.
pub proof fn a_terminal_event_ends_the_installation(
    state: BootstrapStateView,
    event: events::BootstrapEventView,
    now: u64,
)
    requires
        event is Complete || event is Failed,
    ensures
        !after_event(state, event, now).active,
        after_event(state, event, now).error is Some <==> event is Failed,
        after_event(state, event, now).stages == state.stages,
{
}

/// A snapshot shows what the step reports, as of the time of the step, and keeps
/// what no step reports.
pub proof fn a_step_shows_what_it_reports(current: ProgressView, step: StepView, now: u64)
    ensures
        ({
            let after = advanced(current, step, now);
            &&& after.phase == step.phase
            &&& after.message == step.message
            &&& after.error == step.error
            &&& after.running == step.running
            &&& after.retryable == step.retryable
            &&& after.timestamp == now
            &&& after.fake_mode == current.fake_mode
            &&& after.is_cloud_backend_down == current.is_cloud_backend_down
            &&& after.status_code == current.status_code
        }),
{
}

/// Where a step moves the bar: one without a value leaves it, one that may move it
/// back puts it where it says, and any other puts it where it says or leaves it,
/// whichever is further. No value is beyond 100.
pub proof fn a_step_moves_the_bar_where_it_says(current: ProgressView, step: StepView, now: u64)
    ensures
        ({
            let bar = advanced(current, step, now).progress;
            let asked = if step.progress is Some && step.progress->0 <= 100 {
                step.progress->0
            } else {
                100u8
            };
            &&& step.progress is None ==> bar == current.progress
            &&& step.progress is Some && step.allow_decrease ==> bar == asked
            &&& step.progress is Some && !step.allow_decrease ==> {
                &&& bar >= asked && bar >= current.progress
                &&& bar == asked || bar == current.progress
            }
        }),
{
}

/// What the steps report: a step forward and a reconnect say where they are and run
/// without an error, only the reconnect may move the bar back, and a failure names
/// its reason. Before the first step nothing runs and the bar is empty.
pub proof fn steps_say_where_they_are(
    phase: Seq<char>,
    message: Seq<char>,
    progress: u8,
    error: Seq<char>,
    now: u64,
)
    ensures
        ({
            let forward = running_step(phase, message, progress);
            let back = rewind_step(phase, message, progress);
            let failed = failed_step(error);
            let idle = idle_progress(now);
            &&& forward.phase == phase && back.phase == phase
            &&& forward.message == message && back.message == message
            &&& forward.progress == Some(progress) && back.progress == Some(progress)
            &&& forward.running && back.running && forward.error is None && back.error is None
            &&& forward.retryable is None && back.retryable is None
            &&& !forward.allow_decrease && back.allow_decrease
            &&& failed.phase == "backend.error"@
            &&& failed.message == "Hermes backend failed to start: "@ + error
            &&& failed.progress is None && !failed.running
            &&& failed.error == Some(error) && failed.retryable == Some(false)
            &&& idle.phase == "idle"@ && idle.message == "Waiting to start Hermes backend"@
            &&& idle.progress == 0 && !idle.running && idle.error is None && idle.timestamp == now
            &&& !idle.fake_mode && idle.retryable is None && idle.status_code is None
            &&& idle.is_cloud_backend_down is None
        }),
{
}

/// The ring holds 500 lines: shorter logs stay as they are, and of a longer one the
/// last 500 stay.
pub proof fn the_ring_holds_five_hundred_lines(log: Seq<LogEntryView>)
    ensures
        newest(log).is_suffix_of(log),
        newest(log).len() == if log.len() <= 500 {
            log.len() as int
        } else {
            500
        },
{
}

/// A report of a stage changes the status of that stage and nothing else: the stage
/// is as it was reported, and every other is as it was.
pub proof fn a_stage_report_changes_its_stage_alone(
    state: BootstrapStateView,
    name: Seq<char>,
    reached: Seq<char>,
    duration_ms: Option<u64>,
    json: Option<events::StageResultView>,
    error: Option<Seq<char>>,
    now: u64,
)
    ensures
        ({
            let after = after_event(
                state,
                events::BootstrapEventView::Stage { name, state: reached, duration_ms, json, error },
                now,
            );
            &&& after.stages.contains_key(name)
            &&& after.stages[name].state == reached
            &&& after.stages[name].duration_ms == duration_ms
            &&& after.stages[name].json == json
            &&& after.stages[name].error == error
            &&& forall|other: Seq<char>|
                other != name ==> {
                    &&& #[trigger] after.stages.contains_key(other) <==> state.stages.contains_key(
                        other,
                    )
                    &&& state.stages.contains_key(other) ==> after.stages[other]
                        == state.stages[other]
                }
            &&& after == BootstrapStateView { stages: after.stages, ..state }
        }),
{
}

/// What the other reports change. A manifest puts the installation up, keeps the
/// time of an earlier start, and is what is shown. A line is added to the log. A
/// good end takes the installation down at that time and clears every failure, a
/// bad one takes it down and shows its reason. Nothing else changes.
pub proof fn a_report_changes_what_it_speaks_of(
    state: BootstrapStateView,
    event: events::BootstrapEventView,
    now: u64,
)
    ensures
        ({
            let after = after_event(state, event, now);
            &&& event is Manifest ==> {
                &&& after.active
                &&& after.manifest == Some(
                    events::ManifestView {
                        stages: event->stages,
                        protocol_version: event->protocol_version,
                    },
                )
                &&& state.started_at is Some ==> after.started_at == state.started_at
                &&& state.started_at is None ==> after.started_at == Some(now)
                &&& after.setup_choice is None
                &&& after.error == state.error && after.log == state.log
                &&& after.completed_at == state.completed_at
                &&& after.unsupported_platform == state.unsupported_platform
            }
            &&& event is Log ==> after == BootstrapStateView { log: after.log, ..state }
            &&& event is Complete ==> {
                &&& !after.active && after.error is None && after.completed_at == Some(now)
                &&& after.unsupported_platform is None
                &&& after.manifest == state.manifest && after.stages == state.stages
                &&& after.log == state.log && after.started_at == state.started_at
                &&& after.setup_choice == state.setup_choice
            }
            &&& event is Failed ==> {
                &&& !after.active && after.error == Some(event->Failed_error)
                &&& after.setup_choice is None
                &&& after.manifest == state.manifest && after.stages == state.stages
                &&& after.log == state.log && after.started_at == state.started_at
                &&& after.completed_at == state.completed_at
                &&& after.unsupported_platform == state.unsupported_platform
            }
        }),
{
}

/// Forgetting a failure forgets nothing else, and a snapshot of nothing holds
/// nothing. A stage that has not begun has nothing to show.
pub proof fn forgetting_a_failure_forgets_nothing_else(state: BootstrapStateView)
    ensures
        without_failure(state).error is None,
        without_failure(state) == (BootstrapStateView { error: None, ..state }),
        !inactive_state().active && inactive_state().manifest is None,
        inactive_state().stages == Map::<Seq<char>, StageStatusView>::empty(),
        inactive_state().error is None && inactive_state().log.len() == 0,
        inactive_state().started_at is None && inactive_state().completed_at is None,
        inactive_state().setup_choice is None && inactive_state().unsupported_platform is None,
        pending_status().state == "pending"@ && pending_status().error is None,
        pending_status().duration_ms is None && pending_status().json is None,
{
}

// ---------------------------------------------------------------------------
// Laws of the operations themselves
// ---------------------------------------------------------------------------
/// What is read of a progress is what it is at, the step that was applied last is
/// shown as it was reported, and the bar goes back for a rewind alone.
pub proof fn an_applied_step_is_shown(step: Step, now: u64)
    ensures
        forall|progress: &mut BootProgress, r: DesktopBootProgress| #[trigger]
            call_ensures(BootProgress::apply_at, (progress, step, now), r) ==> {
                &&& r@ == final(progress)@
                &&& r.phase@ == step.phase@
                &&& r.message@ == step.message@
                &&& r.running == step.running
                &&& r.error.deep_view() == step.error.deep_view()
                &&& r.timestamp == now
                &&& r.progress <= 100
                &&& !step.allow_decrease ==> r.progress >= progress@.progress
                &&& step.progress is None ==> r.progress == progress@.progress
                &&& step.progress is Some && step.progress->0 <= 100 && (step.allow_decrease
                    || step.progress->0 >= progress@.progress) ==> r.progress == step.progress->0
            },
        forall|progress: &BootProgress, r: DesktopBootProgress| #[trigger]
            call_ensures(BootProgress::snapshot, (progress,), r) ==> r@ == progress@,
{
}

/// Cancelling is asked for, answered and taken back, and nothing of what is shown
/// changes with it.
pub proof fn a_cancellation_is_remembered_until_it_is_cleared()
    ensures
        forall|state: &mut BootstrapState, r: ()| #[trigger]
            call_ensures(BootstrapState::request_cancel, (state,), r)
                ==> final(state).cancel_requested() && final(state)@ == state@,
        forall|state: &mut BootstrapState, r: ()| #[trigger]
            call_ensures(BootstrapState::clear_cancel, (state,), r)
                ==> !final(state).cancel_requested() && final(state)@ == state@,
        forall|state: &BootstrapState, r: bool| #[trigger]
            call_ensures(BootstrapState::cancel_flag, (state,), r) ==> r
                == state.cancel_requested(),
{
}

} // verus!
