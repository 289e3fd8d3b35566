//! The installation from start to end.
//!
//! Downloading, starting the installer and reading and writing files is the
//! caller's work. What to do, in which order, and what to report is decided
//! here: each answer of the caller is one transition, which yields the events to
//! report and the next thing to do.
use crate::bootstrap::events;
use crate::bootstrap::installer;
use crate::bootstrap::installer::{InstallTarget, InstallerPlan, InstallerRun, ScriptStep};
use crate::bootstrap::pin;
use crate::bootstrap::{
    BootstrapEvent, BootstrapMarker, BootstrapOutcome, InstallStamp, ManifestPayload,
    StageDescriptor, StageResult,
};
use crate::duplicate::Duplicate;
use crate::text;
use vstd::prelude::*;

verus! {

/// The name under which the request for the manifest is logged.
pub const MANIFEST_STAGE: &'static str = "__manifest__";

/// What a cancelled installation reports.
pub const CANCELLED: &'static str = "bootstrap cancelled by user";

/// What an installation waits for.
#[derive(Debug, Clone, PartialEq, Eq)]
pub enum RunPhase {
    /// The download of the installer to this file.
    Downloading { dest: String },
    /// The manifest: the installer runs, and its output is reported as it comes.
    Manifest,
    /// The stage at this position of the manifest, which runs in the same way.
    Stage { index: usize },
    /// The commits that the checkout and an earlier marker are at.
    Pins,
    /// The marker to be written.
    Marker { marker: BootstrapMarker },
    /// Nothing any more.
    Finished,
}

/// What a `RunPhase` says.
#[verifier::ext_equal]
pub enum RunPhaseView {
    Downloading { dest: Seq<char> },
    Manifest,
    Stage { index: int },
    Pins,
    Marker { marker: events::BootstrapMarkerView },
    Finished,
}

impl View for RunPhase {
    type V = RunPhaseView;

    open spec fn view(&self) -> RunPhaseView {
        match self {
            RunPhase::Downloading { dest } => RunPhaseView::Downloading { dest: dest@ },
            RunPhase::Manifest => RunPhaseView::Manifest,
            RunPhase::Stage { index } => RunPhaseView::Stage { index: *index as int },
            RunPhase::Pins => RunPhaseView::Pins,
            RunPhase::Marker { marker } => RunPhaseView::Marker { marker: marker.deep_view() },
            RunPhase::Finished => RunPhaseView::Finished,
        }
    }
}

/// An installation that is under way.
#[derive(Debug, Clone, PartialEq, Eq)]
pub struct BootstrapRun {
    pub target: InstallTarget,
    pub script: String,
    pub stages: Vec<StageDescriptor>,
    pub phase: RunPhase,
}

/// What a `BootstrapRun` says.
#[verifier::ext_equal]
pub struct RunView {
    pub target: installer::InstallTargetView,
    pub script: Seq<char>,
    pub stages: Seq<events::StageDescriptorView>,
    pub phase: RunPhaseView,
}

impl View for BootstrapRun {
    type V = RunView;

    open spec fn view(&self) -> RunView {
        RunView {
            target: self.target.deep_view(),
            script: self.script@,
            stages: self.stages.deep_view(),
            phase: self.phase@,
        }
    }
}

/// What the caller is to do next.
#[derive(Debug, Clone, PartialEq, Eq)]
pub enum RunAction {
    Download { url: String, dest: String },
    /// Run the installer. Its output is collected, and each line of it is
    /// reported under the name of `stage` as it comes.
    Run { plan: InstallerPlan, stage: String },
    /// Read the commit of the checkout, and that of an earlier marker.
    ReadPins,
    /// Write the marker.
    WriteMarker { marker: BootstrapMarker },
    /// The installation is over.
    Finish { outcome: BootstrapOutcome },
}

/// What a `RunAction` says.
#[verifier::ext_equal]
pub enum RunActionView {
    Download { url: Seq<char>, dest: Seq<char> },
    Run { plan: installer::InstallerPlanView, stage: Seq<char> },
    ReadPins,
    WriteMarker { marker: events::BootstrapMarkerView },
    Finish { outcome: events::BootstrapOutcomeView },
}

impl View for RunAction {
    type V = RunActionView;

    open spec fn view(&self) -> RunActionView {
        match self {
            RunAction::Download { url, dest } => RunActionView::Download { url: url@, dest: dest@ },
            RunAction::Run { plan, stage } => RunActionView::Run {
                plan: plan.deep_view(),
                stage: stage@,
            },
            RunAction::ReadPins => RunActionView::ReadPins,
            RunAction::WriteMarker { marker } => RunActionView::WriteMarker {
                marker: marker.deep_view(),
            },
            RunAction::Finish { outcome } => RunActionView::Finish { outcome: outcome.deep_view() },
        }
    }
}

/// What to report, in order, and what to do next.
#[derive(Debug, Clone, PartialEq, Eq)]
pub struct RunStep {
    pub events: Vec<BootstrapEvent>,
    pub action: RunAction,
}

/// What a `RunStep` says.
#[verifier::ext_equal]
pub struct RunStepView {
    pub events: Seq<events::BootstrapEventView>,
    pub action: RunActionView,
}

impl View for RunStep {
    type V = RunStepView;

    open spec fn view(&self) -> RunStepView {
        RunStepView { events: self.events.deep_view(), action: self.action@ }
    }
}

// ---------------------------------------------------------------------------
// The transitions
// ---------------------------------------------------------------------------
/// The installation failed, in a stage or outside one.
pub open spec fn fails(
    run: RunView,
    log: Seq<events::BootstrapEventView>,
    stage: Option<Seq<char>>,
    error: Seq<char>,
) -> (RunView, RunStepView) {
    (
        RunView { phase: RunPhaseView::Finished, ..run },
        RunStepView {
            events: log.push(events::BootstrapEventView::Failed { stage, error }),
            action: RunActionView::Finish {
                outcome: events::BootstrapOutcomeView {
                    ok: false,
                    cancelled: false,
                    failed_stage: stage,
                    error: Some(error),
                },
            },
        },
    )
}

/// The installation was cancelled.
pub open spec fn cancels(run: RunView, log: Seq<events::BootstrapEventView>) -> (
    RunView,
    RunStepView,
) {
    (
        RunView { phase: RunPhaseView::Finished, ..run },
        RunStepView {
            events: log.push(
                events::BootstrapEventView::Failed { stage: None, error: CANCELLED@ },
            ),
            action: RunActionView::Finish {
                outcome: events::BootstrapOutcomeView {
                    ok: false,
                    cancelled: true,
                    failed_stage: None,
                    error: None,
                },
            },
        },
    )
}

/// The installer is known, is to be downloaded, or cannot be had.
pub open spec fn takes_script(
    run: RunView,
    step: (installer::ScriptStepView, Seq<events::BootstrapEventView>),
) -> (RunView, RunStepView) {
    match step.0 {
        installer::ScriptStepView::Use { path } => (
            RunView { script: path, phase: RunPhaseView::Manifest, ..run },
            RunStepView {
                events: step.1,
                action: RunActionView::Run {
                    plan: installer::installer_call(
                        path,
                        run.target.manifest_args(),
                        run.target.hermes_home,
                        run.target.is_windows,
                    ),
                    stage: MANIFEST_STAGE@,
                },
            },
        ),
        installer::ScriptStepView::Download { url, dest } => (
            RunView { phase: RunPhaseView::Downloading { dest }, ..run },
            RunStepView { events: step.1, action: RunActionView::Download { url, dest } },
        ),
        installer::ScriptStepView::Fail { error } => fails(run, step.1, None, error),
    }
}

/// The stage at `index` begins, unless the installation was cancelled; after the
/// last one, the commits are read.
pub open spec fn goes_on(
    run: RunView,
    log: Seq<events::BootstrapEventView>,
    index: int,
    cancelled: bool,
) -> (RunView, RunStepView) {
    if index < run.stages.len() {
        if cancelled {
            cancels(run, log)
        } else {
            let name = run.stages[index].name;
            (
                RunView { phase: RunPhaseView::Stage { index }, ..run },
                RunStepView {
                    events: log.push(installer::stage_running(name)),
                    action: RunActionView::Run {
                        plan: installer::installer_call(
                            run.script,
                            run.target.stage_args(name),
                            run.target.hermes_home,
                            run.target.is_windows,
                        ),
                        stage: name,
                    },
                },
            )
        }
    } else {
        (
            RunView { phase: RunPhaseView::Pins, ..run },
            RunStepView { events: log, action: RunActionView::ReadPins },
        )
    }
}

/// The name of the stage that is running.
pub open spec fn running_stage(run: RunView) -> Seq<char> {
    run.stages[run.phase->index].name
}

/// An installation before its first step. A checkout that is already there is
/// left at its commit.
pub open spec fn begun(
    stamp: Option<events::InstallStampView>,
    active_root: Seq<char>,
    hermes_home: Seq<char>,
    is_windows: bool,
    existing_checkout: bool,
) -> RunView {
    RunView {
        target: installer::InstallTargetView {
            stamp,
            active_root,
            hermes_home,
            is_windows,
            pin_commit: !existing_checkout,
        },
        script: Seq::empty(),
        stages: Seq::empty(),
        phase: RunPhaseView::Manifest,
    }
}

/// The manifest came, or did not.
pub open spec fn takes_manifest(
    run: RunView,
    manifest: Result<events::ManifestView, Seq<char>>,
    cancelled: bool,
) -> (RunView, RunStepView) {
    match manifest {
        Err(error) => fails(run, Seq::empty(), None, error),
        Ok(manifest) => goes_on(
            RunView { stages: manifest.stages, ..run },
            seq![
                events::BootstrapEventView::Manifest {
                    stages: manifest.stages,
                    protocol_version: manifest.protocol_version,
                },
            ],
            0,
            cancelled,
        ),
    }
}

/// The stage at `index` ended as `event` says.
pub open spec fn takes_stage(
    run: RunView,
    index: int,
    event: events::BootstrapEventView,
    cancelled: bool,
) -> (RunView, RunStepView) {
    let reported = seq![event];
    if event is Stage && event->state == "failed"@ {
        fails(
            run,
            reported,
            Some(run.stages[index].name),
            match event->Stage_error {
                Some(error) => error,
                None => "stage failed"@,
            },
        )
    } else {
        goes_on(run, reported, index + 1, cancelled)
    }
}

/// The marker to be written is known.
pub open spec fn takes_pins(
    run: RunView,
    head: Option<Seq<char>>,
    existing: Option<Seq<char>>,
) -> (RunView, RunStepView) {
    let marker = events::BootstrapMarkerView {
        pinned_commit: pin::marker_commit(run.target.stamp, head, existing),
        pinned_branch: pin::stamped_branch(run.target.stamp),
    };
    (
        RunView { phase: RunPhaseView::Marker { marker }, ..run },
        RunStepView { events: Seq::empty(), action: RunActionView::WriteMarker { marker } },
    )
}

/// The marker was written, or was not.
pub open spec fn takes_marker(
    run: RunView,
    marker: events::BootstrapMarkerView,
    failure: Option<Seq<char>>,
) -> (RunView, RunStepView) {
    match failure {
        Some(error) => fails(run, Seq::empty(), None, error),
        None => (
            RunView { phase: RunPhaseView::Finished, ..run },
            RunStepView {
                events: seq![events::BootstrapEventView::Complete { marker }],
                action: RunActionView::Finish {
                    outcome: events::BootstrapOutcomeView {
                        ok: true,
                        cancelled: false,
                        failed_stage: None,
                        error: None,
                    },
                },
            },
        ),
    }
}

fn no_events() -> (r: Vec<BootstrapEvent>)
    ensures
        r.deep_view() == Seq::<events::BootstrapEventView>::empty(),
{
    let r: Vec<BootstrapEvent> = Vec::new();
    proof {
        assert(r.deep_view() =~= Seq::<events::BootstrapEventView>::empty());
    }
    r
}

fn one_event(event: BootstrapEvent) -> (r: Vec<BootstrapEvent>)
    ensures
        r.deep_view() == seq![event.deep_view()],
{
    let mut r: Vec<BootstrapEvent> = Vec::new();
    r.push(event);
    proof {
        assert(r.deep_view() =~= seq![event.deep_view()]);
    }
    r
}

fn report(log: &mut Vec<BootstrapEvent>, event: BootstrapEvent)
    ensures
        final(log).deep_view() == old(log).deep_view().push(event.deep_view()),
{
    let ghost before = log.deep_view();
    log.push(event);
    proof {
        assert(log.deep_view() =~= before.push(event.deep_view()));
    }
}

impl BootstrapRun {
    fn fail(&mut self, log: Vec<BootstrapEvent>, stage: Option<String>, error: String) -> (r:
        RunStep)
        ensures
            (final(self)@, r@) == fails(
                old(self)@,
                log.deep_view(),
                stage.deep_view(),
                error@,
            ),
    {
        let mut log = log;
        report(
            &mut log,
            BootstrapEvent::Failed { stage: stage.duplicate(), error: error.clone() },
        );
        self.phase = RunPhase::Finished;
        RunStep {
            events: log,
            action: RunAction::Finish {
                outcome: BootstrapOutcome {
                    ok: false,
                    cancelled: false,
                    failed_stage: stage,
                    error: Some(error),
                },
            },
        }
    }

    fn cancel(&mut self, log: Vec<BootstrapEvent>) -> (r: RunStep)
        ensures
            (final(self)@, r@) == cancels(old(self)@, log.deep_view()),
    {
        let mut log = log;
        report(&mut log, BootstrapEvent::Failed { stage: None, error: CANCELLED.to_owned() });
        self.phase = RunPhase::Finished;
        RunStep {
            events: log,
            action: RunAction::Finish {
                outcome: BootstrapOutcome {
                    ok: false,
                    cancelled: true,
                    failed_stage: None,
                    error: None,
                },
            },
        }
    }

    fn take_script(&mut self, step: ScriptStep, log: Vec<BootstrapEvent>) -> (r: RunStep)
        ensures
            (final(self)@, r@) == takes_script(old(self)@, (step@, log.deep_view())),
    {
        match step {
            ScriptStep::Use { path } => {
                let args = self.target.manifest_args();
                let plan = installer::installer_plan(
                    path.as_str(),
                    &args,
                    self.target.hermes_home.as_str(),
                    self.target.is_windows,
                );
                self.script = path;
                self.phase = RunPhase::Manifest;
                RunStep {
                    events: log,
                    action: RunAction::Run { plan, stage: MANIFEST_STAGE.to_owned() },
                }
            },
            ScriptStep::Download { url, dest } => {
                self.phase = RunPhase::Downloading { dest: dest.clone() };
                RunStep { events: log, action: RunAction::Download { url, dest } }
            },
            ScriptStep::Fail { error } => self.fail(log, None, error),
        }
    }

    fn go_on(&mut self, log: Vec<BootstrapEvent>, index: usize, cancelled: bool) -> (r: RunStep)
        ensures
            (final(self)@, r@) == goes_on(old(self)@, log.deep_view(), index as int, cancelled),
    {
        if index < self.stages.len() {
            if cancelled {
                return self.cancel(log);
            }
            let mut log = log;
            let name = self.stages[index].name.clone();
            proof {
                assert(self.stages.deep_view()[index as int].name == name@);
            }
            report(&mut log, installer::stage_running_event(&self.stages[index]));
            let args = self.target.stage_args(name.as_str());
            let plan = installer::installer_plan(
                self.script.as_str(),
                &args,
                self.target.hermes_home.as_str(),
                self.target.is_windows,
            );
            self.phase = RunPhase::Stage { index };
            RunStep { events: log, action: RunAction::Run { plan, stage: name } }
        } else {
            self.phase = RunPhase::Pins;
            RunStep { events: log, action: RunAction::ReadPins }
        }
    }

    /// The download ended, with this failure if it failed.
    pub fn on_download<F: Fn(&str) -> bool>(&mut self, failure: Option<&str>, is_file: &F) -> (r:
        RunStep)
        requires
            forall|p: &str| call_requires(*is_file, (p,)),
            old(self).phase is Downloading,
        ensures
            exists|installed: bool|
                {
                    &&& failure is Some ==> crate::probe::says(
                        *is_file,
                        installer::installed_script(
                            old(self)@.target.hermes_home,
                            old(self)@.target.is_windows,
                        ),
                        installed,
                    )
                    &&& (final(self)@, r@) == takes_script(
                        old(self)@,
                        #[trigger] installer::script_after_download(
                            old(self)@.phase->dest,
                            failure.deep_view(),
                            old(self)@.target.hermes_home,
                            old(self)@.target.is_windows,
                            installed,
                        ),
                    )
                },
    {
        let dest = match &self.phase {
            RunPhase::Downloading { dest } => dest.clone(),
            _ => String::new(),
        };
        assert(dest@ == self@.phase->dest);
        let (script, log) = installer::after_download(
            dest.as_str(),
            failure,
            self.target.hermes_home.as_str(),
            self.target.is_windows,
            is_file,
        );
        self.take_script(script, log)
    }

    /// The installer was asked for its manifest. `decode` reads one line of
    /// JSON; `cancelled` is the flag before the first stage.
    pub fn on_manifest<F: Fn(&str) -> Option<ManifestPayload>>(
        &mut self,
        run: &InstallerRun,
        cancelled: bool,
        decode: &F,
    ) -> (r: RunStep)
        requires
            forall|p: &str| call_requires(*decode, (p,)),
            old(self).phase is Manifest,
        ensures
            exists|parsed: Option<ManifestPayload>|
                {
                    &&& (*run matches InstallerRun::Ended { code, .. } && code == Some(0i32))
                        ==> installer::last_frame(
                        *decode,
                        text::scan::lines(run->stdout@),
                        parsed,
                    )
                    &&& (final(self)@, r@) == takes_manifest(
                        old(self)@,
                        #[trigger] installer::manifest_result(*run, parsed.deep_view()),
                        cancelled,
                    )
                },
    {
        let manifest = installer::read_manifest(run, decode);
        self.take_manifest(manifest, cancelled)
    }

    /// The manifest came, or did not.
    pub fn take_manifest(
        &mut self,
        manifest: Result<ManifestPayload, String>,
        cancelled: bool,
    ) -> (r: RunStep)
        ensures
            (final(self)@, r@) == takes_manifest(
                old(self)@,
                installer::seen(manifest),
                cancelled,
            ),
    {
        match manifest {
            Err(error) => self.fail(no_events(), None, error),
            Ok(manifest) => {
                let stages = manifest.stages.duplicate();
                let log = one_event(
                    BootstrapEvent::Manifest {
                        stages: manifest.stages,
                        protocol_version: manifest.protocol_version,
                    },
                );
                self.stages = stages;
                self.go_on(log, 0, cancelled)
            },
        }
    }

    /// The stage that was running ended. `decode` reads one line of JSON;
    /// `cancelled` is the flag before the next stage.
    pub fn on_stage<F: Fn(&str) -> Option<StageResult>>(
        &mut self,
        run: &InstallerRun,
        duration_ms: u64,
        cancelled: bool,
        decode: &F,
    ) -> (r: RunStep)
        requires
            forall|p: &str| call_requires(*decode, (p,)),
            old(self).phase matches RunPhase::Stage { index } && index < old(self).stages@.len(),
        ensures
            exists|parsed: Option<StageResult>|
                {
                    &&& *run is Ended ==> installer::last_frame(
                        *decode,
                        text::scan::lines(run->stdout@),
                        parsed,
                    )
                    &&& (final(self)@, r@) == takes_stage(
                        old(self)@,
                        old(self)@.phase->index,
                        #[trigger] installer::stage_ended(
                            running_stage(old(self)@),
                            *run,
                            parsed.deep_view(),
                            duration_ms,
                        ),
                        cancelled,
                    )
                },
    {
        let index: usize = match &self.phase {
            RunPhase::Stage { index } => *index,
            _ => 0,
        };
        assert(index == self@.phase->index);
        assert(self.stages@[index as int].name@ == running_stage(self@));
        let event = installer::stage_event(&self.stages[index], run, duration_ms, decode);
        self.take_stage(event, cancelled)
    }

    /// The stage that was running ended as `event` says.
    pub fn take_stage(&mut self, event: BootstrapEvent, cancelled: bool) -> (r: RunStep)
        requires
            old(self).phase matches RunPhase::Stage { index } && index < old(self).stages@.len(),
        ensures
            (final(self)@, r@) == takes_stage(
                old(self)@,
                old(self)@.phase->index,
                event.deep_view(),
                cancelled,
            ),
    {
        let index: usize = match &self.phase {
            RunPhase::Stage { index } => *index,
            _ => 0,
        };
        let name = self.stages[index].name.clone();
        proof {
            assert(self.stages.deep_view()[index as int].name == name@);
        }
        let failure = match &event {
            BootstrapEvent::Stage { state, error, .. } => {
                if text::str_eq(state.as_str(), "failed") {
                    Some(
                        match error {
                            Some(error) => error.clone(),
                            None => "stage failed".to_owned(),
                        },
                    )
                } else {
                    None
                }
            },
            _ => None,
        };
        let log = one_event(event);
        match failure {
            Some(error) => self.fail(log, Some(name), error),
            None => {
                let n: usize = self.stages.len();
                assert(index + 1 <= n);
                self.go_on(log, index + 1, cancelled)
            },
        }
    }

    /// The commits were read: that of the checkout, and the one that an earlier
    /// marker records.
    pub fn on_pins(&mut self, head: Option<&str>, existing: Option<&str>) -> (r: RunStep)
        requires
            old(self).phase is Pins,
        ensures
            (final(self)@, r@) == takes_pins(old(self)@, head.deep_view(), existing.deep_view()),
    {
        let stamp_ref = match &self.target.stamp {
            Some(stamp) => Some(stamp),
            None => None,
        };
        let marker = BootstrapMarker {
            pinned_commit: pin::resolve_marker_pinned_commit(stamp_ref, head, existing),
            pinned_branch: pin::branch_of(stamp_ref),
        };
        self.phase = RunPhase::Marker { marker: marker.duplicate() };
        RunStep { events: no_events(), action: RunAction::WriteMarker { marker } }
    }

    /// The marker was written, or was not, for this reason.
    pub fn on_marker(&mut self, failure: Option<&str>) -> (r: RunStep)
        requires
            old(self).phase is Marker,
        ensures
            (final(self)@, r@) == takes_marker(
                old(self)@,
                old(self)@.phase->marker,
                failure.deep_view(),
            ),
    {
        match failure {
            Some(error) => self.fail(no_events(), None, error.to_owned()),
            None => {
                let marker = match &self.phase {
                    RunPhase::Marker { marker } => marker.duplicate(),
                    _ => BootstrapMarker { pinned_commit: None, pinned_branch: None },
                };
                let log = one_event(BootstrapEvent::Complete { marker });
                self.phase = RunPhase::Finished;
                RunStep {
                    events: log,
                    action: RunAction::Finish {
                        outcome: BootstrapOutcome {
                            ok: true,
                            cancelled: false,
                            failed_stage: None,
                            error: None,
                        },
                    },
                }
            },
        }
    }
}

/// Begin an installation. `existing_checkout` says whether the managed
/// checkout exists: then this is a repair, which does not pin the commit. A
/// stamp whose ref cannot be shown in the log is left out, unless nothing is
/// shown of it.
pub fn run_bootstrap<F: Fn(&str) -> bool>(
    stamp: Option<InstallStamp>,
    active_root: &str,
    source_repo_root: Option<&str>,
    hermes_home: &str,
    is_windows: bool,
    existing_checkout: bool,
    cancelled: bool,
    is_file: &F,
) -> (r: (BootstrapRun, RunStep))
    requires
        forall|p: &str| call_requires(*is_file, (p,)),
        cancelled || installer::can_shorten(stamp.deep_view()) || installer::surely_local(
            *is_file,
            source_repo_root.deep_view(),
            is_windows,
        ),
    ensures
        cancelled ==> (r.0@, r.1@) == cancels(
            begun(
                stamp.deep_view(),
                active_root@,
                hermes_home@,
                is_windows,
                existing_checkout,
            ),
            Seq::empty(),
        ),
        !cancelled ==> exists|local: bool, cached: bool|
            {
                &&& installer::local_answer(
                    *is_file,
                    source_repo_root.deep_view(),
                    is_windows,
                    local,
                )
                &&& !local ==> installer::cached_answer(
                    *is_file,
                    stamp.deep_view(),
                    hermes_home@,
                    is_windows,
                    cached,
                )
                &&& (r.0@, r.1@) == takes_script(
                    begun(
                        stamp.deep_view(),
                        active_root@,
                        hermes_home@,
                        is_windows,
                        existing_checkout,
                    ),
                    #[trigger] installer::script_step(
                        stamp.deep_view(),
                        source_repo_root.deep_view(),
                        hermes_home@,
                        is_windows,
                        local,
                        cached,
                    ),
                )
            },
{
    let mut run = BootstrapRun {
        target: InstallTarget {
            stamp: stamp.duplicate(),
            active_root: active_root.to_owned(),
            hermes_home: hermes_home.to_owned(),
            is_windows,
            pin_commit: !existing_checkout,
        },
        script: String::new(),
        stages: Vec::new(),
        phase: RunPhase::Manifest,
    };
    proof {
        assert(run@ =~= begun(
            stamp.deep_view(),
            active_root@,
            hermes_home@,
            is_windows,
            existing_checkout,
        ));
    }
    if cancelled {
        let step = run.cancel(no_events());
        return (run, step);
    }
    let stamp_ref = match &stamp {
        Some(stamp) => Some(stamp),
        None => None,
    };
    let (script, log) = installer::resolve_install_script(
        stamp_ref,
        source_repo_root,
        hermes_home,
        is_windows,
        is_file,
    );
    let step = run.take_script(script, log);
    (run, step)
}

// ---------------------------------------------------------------------------
// Laws
// ---------------------------------------------------------------------------
/// An answer of the caller, with what the machine and the decoder said.
#[allow(inconsistent_fields)]
pub enum RunInput {
    Download { failure: Option<Seq<char>>, installed: bool },
    Manifest { run: InstallerRun, parsed: Option<events::ManifestView>, cancelled: bool },
    Stage {
        run: InstallerRun,
        parsed: Option<events::StageResultView>,
        duration_ms: u64,
        cancelled: bool,
    },
    Pins { head: Option<Seq<char>>, existing: Option<Seq<char>> },
    Marker { failure: Option<Seq<char>> },
}

/// Whether `input` answers what the installation waits for.
pub open spec fn fits(run: RunView, input: RunInput) -> bool {
    match run.phase {
        RunPhaseView::Downloading { .. } => input is Download,
        RunPhaseView::Manifest => input is Manifest,
        RunPhaseView::Stage { index } => input is Stage && 0 <= index < run.stages.len(),
        RunPhaseView::Pins => input is Pins,
        RunPhaseView::Marker { .. } => input is Marker,
        RunPhaseView::Finished => false,
    }
}

/// The installation after an answer.
pub open spec fn answered(run: RunView, input: RunInput) -> (RunView, RunStepView) {
    match input {
        RunInput::Download { failure, installed } => takes_script(
            run,
            installer::script_after_download(
                run.phase->dest,
                failure,
                run.target.hermes_home,
                run.target.is_windows,
                installed,
            ),
        ),
        RunInput::Manifest { run: ended, parsed, cancelled } => takes_manifest(
            run,
            installer::manifest_result(ended, parsed),
            cancelled,
        ),
        RunInput::Stage { run: ended, parsed, duration_ms, cancelled } => takes_stage(
            run,
            run.phase->index,
            installer::stage_ended(running_stage(run), ended, parsed, duration_ms),
            cancelled,
        ),
        RunInput::Pins { head, existing } => takes_pins(run, head, existing),
        RunInput::Marker { failure } => takes_marker(run, run.phase->marker, failure),
    }
}

/// Whether an event is the last one of an installation.
pub open spec fn is_terminal(event: events::BootstrapEventView) -> bool {
    event is Complete || event is Failed
}

/// How many of the events end an installation.
pub open spec fn terminals(reported: Seq<events::BootstrapEventView>) -> nat
    decreases reported.len(),
{
    if reported.len() == 0 {
        0
    } else {
        terminals(reported.drop_last()) + (if is_terminal(reported.last()) {
            1nat
        } else {
            0nat
        })
    }
}

/// Whether an event says that the stage `name` failed.
pub open spec fn says_stage_failed(event: events::BootstrapEventView, name: Seq<char>) -> bool {
    event matches events::BootstrapEventView::Stage { name: reported, state, .. } && reported
        == name && state == "failed"@
}

/// Whether an outcome and the events that end with it give the same reason: a
/// cancelled installation has neither an error nor a failed stage, any other
/// that is not good has the error that its last event reports, and a failed
/// stage is the one whose failure is reported just before the end.
pub open spec fn says_why(
    outcome: events::BootstrapOutcomeView,
    reported: Seq<events::BootstrapEventView>,
) -> bool {
    &&& outcome.ok || outcome.cancelled ==> outcome.error is None && outcome.failed_stage is None
    &&& !outcome.ok && !outcome.cancelled ==> outcome.error is Some && reported.last() == (
    events::BootstrapEventView::Failed { stage: outcome.failed_stage, error: outcome.error->0 })
    &&& outcome.failed_stage matches Some(name) ==> reported.len() >= 2 && says_stage_failed(
        reported[reported.len() - 2],
        name,
    )
}

/// Whether a step ends the installation exactly where it reports the end, as
/// its last event and no earlier one, with an outcome that says the same.
pub open spec fn ends_as_reported(after: RunView, step: RunStepView) -> bool {
    &&& step.action is Finish <==> after.phase is Finished
    &&& step.action matches RunActionView::Finish { outcome } ==> {
        &&& step.events.len() > 0
        &&& terminals(step.events.drop_last()) == 0
        &&& is_terminal(step.events.last())
        &&& outcome.ok <==> step.events.last() is Complete
        &&& outcome.ok ==> !outcome.cancelled && outcome.error is None
        &&& says_why(outcome, step.events)
    }
    &&& !(step.action is Finish) ==> terminals(step.events) == 0
    &&& after.phase matches RunPhaseView::Stage { index } ==> 0 <= index < after.stages.len()
}

proof fn lemma_terminals_add(
    first: Seq<events::BootstrapEventView>,
    second: Seq<events::BootstrapEventView>,
)
    ensures
        terminals(first + second) == terminals(first) + terminals(second),
    decreases second.len(),
{
    if second.len() == 0 {
        assert(first + second =~= first);
    } else {
        lemma_terminals_add(first, second.drop_last());
        assert((first + second).drop_last() =~= first + second.drop_last());
        assert((first + second).last() == second.last());
    }
}

proof fn lemma_terminals_push(
    log: Seq<events::BootstrapEventView>,
    event: events::BootstrapEventView,
)
    ensures
        terminals(log.push(event)) == terminals(log) + (if is_terminal(event) {
            1nat
        } else {
            0nat
        }),
        log.push(event).drop_last() == log,
{
    assert(log.push(event).drop_last() =~= log);
}

/// The installer's own output, which is reported while it runs, reports no end.
pub proof fn output_reports_no_end(lines: Seq<Seq<char>>, stage: Seq<char>, stream: Seq<char>)
    ensures
        terminals(installer::stream_log(lines, stage, stream)) == 0,
    decreases lines.len(),
{
    if lines.len() > 0 {
        output_reports_no_end(lines.drop_last(), stage, stream);
        if lines.last().len() > 0 {
            lemma_terminals_push(
                installer::stream_log(lines.drop_last(), stage, stream),
                events::BootstrapEventView::Log {
                    stage: Some(stage),
                    line: lines.last(),
                    stream: Some(stream),
                },
            );
        }
    }
}

proof fn lemma_one_event(event: events::BootstrapEventView)
    ensures
        terminals(seq![event]) == if is_terminal(event) {
            1nat
        } else {
            0nat
        },
{
    let none = Seq::<events::BootstrapEventView>::empty();
    lemma_terminals_push(none, event);
    assert(none.push(event) =~= seq![event]);
}

proof fn lemma_fails(
    run: RunView,
    log: Seq<events::BootstrapEventView>,
    stage: Option<Seq<char>>,
    error: Seq<char>,
)
    requires
        terminals(log) == 0,
        stage matches Some(name) ==> log.len() > 0 && says_stage_failed(log.last(), name),
    ensures
        ends_as_reported(fails(run, log, stage, error).0, fails(run, log, stage, error).1),
        ends_as_reported(cancels(run, log).0, cancels(run, log).1),
{
    lemma_terminals_push(log, events::BootstrapEventView::Failed { stage, error });
    lemma_terminals_push(
        log,
        events::BootstrapEventView::Failed { stage: None, error: CANCELLED@ },
    );
}

proof fn lemma_goes_on(
    run: RunView,
    log: Seq<events::BootstrapEventView>,
    index: int,
    cancelled: bool,
)
    requires
        terminals(log) == 0,
        0 <= index,
    ensures
        ends_as_reported(
            goes_on(run, log, index, cancelled).0,
            goes_on(run, log, index, cancelled).1,
        ),
{
    lemma_fails(run, log, None, CANCELLED@);
    if index < run.stages.len() {
        lemma_terminals_push(log, installer::stage_running(run.stages[index].name));
    }
}

/// An installation that begins either ends at once, and reports that, or goes
/// on and reports no end.
pub proof fn a_start_ends_as_reported(
    run: RunView,
    source_repo_root: Option<Seq<char>>,
    local: bool,
    cached: bool,
)
    ensures
        ends_as_reported(cancels(run, Seq::empty()).0, cancels(run, Seq::empty()).1),
        ({
            let begun = takes_script(
                run,
                installer::script_step(
                    run.target.stamp,
                    source_repo_root,
                    run.target.hermes_home,
                    run.target.is_windows,
                    local,
                    cached,
                ),
            );
            ends_as_reported(begun.0, begun.1)
        }),
{
    let step = installer::script_step(
        run.target.stamp,
        source_repo_root,
        run.target.hermes_home,
        run.target.is_windows,
        local,
        cached,
    );
    lemma_fails(run, Seq::empty(), None, CANCELLED@);
    if step.1.len() > 0 {
        assert(step.1 =~= seq![step.1[0]]);
        assert(step.1[0] is Log);
        lemma_terminals_push(Seq::empty(), step.1[0]);
        assert(Seq::empty().push(step.1[0]) =~= step.1);
    }
    if let installer::ScriptStepView::Fail { error } = step.0 {
        lemma_fails(run, step.1, None, error);
    }
}

/// Every answer keeps to it: an installation ends exactly where its end is
/// reported, as the last event and no earlier one, and its outcome is good
/// exactly where completion is what was reported.
pub proof fn an_answer_ends_as_reported(run: RunView, input: RunInput)
    requires
        fits(run, input),
    ensures
        ends_as_reported(answered(run, input).0, answered(run, input).1),
{
    match input {
        RunInput::Download { failure, installed } => {
            let step = installer::script_after_download(
                run.phase->dest,
                failure,
                run.target.hermes_home,
                run.target.is_windows,
                installed,
            );
            if step.1.len() > 0 {
                assert(step.1 =~= seq![step.1[0]]);
                assert(step.1[0] is Log);
                lemma_terminals_push(Seq::empty(), step.1[0]);
                assert(Seq::empty().push(step.1[0]) =~= step.1);
            }
            if let installer::ScriptStepView::Fail { error } = step.0 {
                lemma_fails(run, step.1, None, error);
            }
        },
        RunInput::Manifest { run: ended, parsed, cancelled } => {
            match installer::manifest_result(ended, parsed) {
                Err(error) => {
                    lemma_fails(run, Seq::empty(), None, error);
                },
                Ok(manifest) => {
                    let event = events::BootstrapEventView::Manifest {
                        stages: manifest.stages,
                        protocol_version: manifest.protocol_version,
                    };
                    lemma_one_event(event);
                    lemma_goes_on(
                        RunView { stages: manifest.stages, ..run },
                        seq![event],
                        0,
                        cancelled,
                    );
                },
            }
        },
        RunInput::Stage { run: ended, parsed, duration_ms, cancelled } => {
            let name = running_stage(run);
            let index = run.phase->index;
            let event = installer::stage_ended(name, ended, parsed, duration_ms);
            lemma_one_event(event);
            if event->state == "failed"@ {
                lemma_fails(
                    run,
                    seq![event],
                    Some(name),
                    match event->Stage_error {
                        Some(error) => error,
                        None => "stage failed"@,
                    },
                );
            }
            lemma_goes_on(run, seq![event], index + 1, cancelled);
        },
        RunInput::Pins { head, existing } => {},
        RunInput::Marker { failure } => {
            let none = Seq::<events::BootstrapEventView>::empty();
            let done = events::BootstrapEventView::Complete { marker: run.phase->marker };
            lemma_one_event(done);
            lemma_terminals_push(none, done);
            assert(none.push(done) =~= seq![done]);
            if let Some(error) = failure {
                lemma_fails(run, none, None, error);
            }
        },
    }
}

/// The installation after a sequence of answers, and everything reported since
/// `begun`.
pub open spec fn history(
    begun: (RunView, Seq<events::BootstrapEventView>),
    inputs: Seq<RunInput>,
) -> (RunView, Seq<events::BootstrapEventView>)
    decreases inputs.len(),
{
    if inputs.len() == 0 {
        begun
    } else {
        let before = history(begun, inputs.drop_last());
        let (after, step) = answered(before.0, inputs.last());
        (after, before.1 + step.events)
    }
}

/// Whether each answer fits what the installation waits for at that point.
pub open spec fn all_fit(
    begun: (RunView, Seq<events::BootstrapEventView>),
    inputs: Seq<RunInput>,
) -> bool
    decreases inputs.len(),
{
    inputs.len() == 0 || {
        &&& all_fit(begun, inputs.drop_last())
        &&& fits(history(begun, inputs.drop_last()).0, inputs.last())
    }
}

/// Over a whole installation exactly one end is reported: none while it goes
/// on, one when it is over.
pub proof fn a_run_reports_its_end_once(
    begun: (RunView, RunStepView),
    inputs: Seq<RunInput>,
)
    requires
        ends_as_reported(begun.0, begun.1),
        all_fit((begun.0, begun.1.events), inputs),
    ensures
        ({
            let (after, reported) = history((begun.0, begun.1.events), inputs);
            terminals(reported) == if after.phase is Finished {
                1nat
            } else {
                0nat
            }
        }),
    decreases inputs.len(),
{
    let start = (begun.0, begun.1.events);
    if inputs.len() == 0 {
        if begun.1.action is Finish {
            lemma_terminals_push(begun.1.events.drop_last(), begun.1.events.last());
            assert(begun.1.events.drop_last().push(begun.1.events.last()) =~= begun.1.events);
        }
    } else {
        let before = history(start, inputs.drop_last());
        let (after, step) = answered(before.0, inputs.last());
        a_run_reports_its_end_once(begun, inputs.drop_last());
        an_answer_ends_as_reported(before.0, inputs.last());
        lemma_terminals_add(before.1, step.events);
        if step.action is Finish {
            lemma_terminals_push(step.events.drop_last(), step.events.last());
            assert(step.events.drop_last().push(step.events.last()) =~= step.events);
        }
    }
}

/// What is to be done after a sequence of answers.
pub open spec fn last_action(begun: (RunView, RunStepView), inputs: Seq<RunInput>) -> RunActionView {
    if inputs.len() == 0 {
        begun.1.action
    } else {
        answered(
            history((begun.0, begun.1.events), inputs.drop_last()).0,
            inputs.last(),
        ).1.action
    }
}

/// Over a whole installation the outcome gives the reason that was reported: a
/// cancelled one has neither an error nor a failed stage, and a failed stage is
/// the one whose failure comes just before the end.
pub proof fn a_run_ends_for_the_reason_reported(
    begun: (RunView, RunStepView),
    inputs: Seq<RunInput>,
)
    requires
        ends_as_reported(begun.0, begun.1),
        all_fit((begun.0, begun.1.events), inputs),
    ensures
        last_action(begun, inputs) matches RunActionView::Finish { outcome } ==> says_why(
            outcome,
            history((begun.0, begun.1.events), inputs).1,
        ),
{
    if inputs.len() > 0 {
        let before = history((begun.0, begun.1.events), inputs.drop_last());
        let step = answered(before.0, inputs.last()).1;
        an_answer_ends_as_reported(before.0, inputs.last());
        if let RunActionView::Finish { outcome } = step.action {
            let reported = before.1 + step.events;
            assert(reported.last() == step.events.last());
            if outcome.failed_stage is Some {
                assert(reported[reported.len() - 2] == step.events[step.events.len() - 2]);
            }
        }
    }
}

/// How far an installation is from its end: the phases that are left, then the
/// stages that are left.
pub open spec fn phases_left(phase: RunPhaseView) -> nat {
    match phase {
        RunPhaseView::Downloading { .. } => 5,
        RunPhaseView::Manifest => 4,
        RunPhaseView::Stage { .. } => 3,
        RunPhaseView::Pins => 2,
        RunPhaseView::Marker { .. } => 1,
        RunPhaseView::Finished => 0,
    }
}

/// Every answer brings the end closer, so every installation ends: a phase is
/// left for good, or the next stage of the manifest runs.
pub proof fn an_answer_brings_the_end_closer(run: RunView, input: RunInput)
    requires
        fits(run, input),
    ensures
        ({
            let after = answered(run, input).0;
            ||| phases_left(after.phase) < phases_left(run.phase)
            ||| {
                &&& run.phase matches RunPhaseView::Stage { index }
                &&& after.phase == (RunPhaseView::Stage { index: index + 1 })
                &&& after.stages == run.stages
                &&& index + 1 < run.stages.len()
            }
        }),
{
}

/// Once an installation is cancelled, the installer is not run again.
pub proof fn a_cancelled_run_starts_no_stage(run: RunView, input: RunInput)
    requires
        fits(run, input),
        (input matches RunInput::Manifest { cancelled, .. } && cancelled) || (
        input matches RunInput::Stage { cancelled, .. } && cancelled),
    ensures
        !(answered(run, input).1.action is Run),
{
}

/// An installation whose marker is written has run every stage of its manifest:
/// only the last stage, or a manifest without stages, leads to the pins.
pub proof fn every_stage_runs_before_the_pins(run: RunView, input: RunInput)
    requires
        fits(run, input),
        answered(run, input).0.phase is Pins,
    ensures
        run.phase matches RunPhaseView::Stage { index } ==> index + 1 == run.stages.len(),
        run.phase is Manifest ==> answered(run, input).0.stages.len() == 0,
        run.phase is Stage || run.phase is Manifest,
{
}

/// The names of the stages that a report says are running, in order.
pub open spec fn running_names(reported: Seq<events::BootstrapEventView>) -> Seq<Seq<char>>
    decreases reported.len(),
{
    if reported.len() == 0 {
        Seq::empty()
    } else {
        let before = running_names(reported.drop_last());
        match reported.last() {
            events::BootstrapEventView::Stage { name, state, .. } => if state == "running"@ {
                before.push(name)
            } else {
                before
            },
            _ => before,
        }
    }
}

/// The names of the stages of a manifest, in order.
pub open spec fn stage_names(stages: Seq<events::StageDescriptorView>) -> Seq<Seq<char>> {
    stages.map_values(|stage: events::StageDescriptorView| stage.name)
}

proof fn lemma_running_names_add(
    first: Seq<events::BootstrapEventView>,
    second: Seq<events::BootstrapEventView>,
)
    ensures
        running_names(first + second) == running_names(first) + running_names(second),
    decreases second.len(),
{
    let all = first + second;
    if second.len() == 0 {
        assert(all =~= first);
        assert(running_names(all) =~= running_names(first) + running_names(second));
    } else {
        lemma_running_names_add(first, second.drop_last());
        assert(all.drop_last() =~= first + second.drop_last());
        assert(all.last() == second.last());
        assert(running_names(all) =~= running_names(first) + running_names(second));
    }
}

proof fn lemma_running_names_push(
    log: Seq<events::BootstrapEventView>,
    event: events::BootstrapEventView,
)
    ensures
        running_names(log.push(event)) == match event {
            events::BootstrapEventView::Stage { name, state, .. } => if state == "running"@ {
                running_names(log).push(name)
            } else {
                running_names(log)
            },
            _ => running_names(log),
        },
{
    assert(log.push(event).drop_last() =~= log);
}

proof fn lemma_running_names_one(event: events::BootstrapEventView)
    ensures
        running_names(seq![event]) == match event {
            events::BootstrapEventView::Stage { name, state, .. } => if state == "running"@ {
                seq![name]
            } else {
                Seq::empty()
            },
            _ => Seq::empty(),
        },
{
    let none = Seq::<events::BootstrapEventView>::empty();
    lemma_running_names_push(none, event);
    assert(none.push(event) =~= seq![event]);
    assert(running_names(seq![event]) =~= match event {
        events::BootstrapEventView::Stage { name, state, .. } => if state == "running"@ {
            seq![name]
        } else {
            Seq::empty()
        },
        _ => Seq::empty(),
    });
}

proof fn lemma_goes_on_runs(
    run: RunView,
    log: Seq<events::BootstrapEventView>,
    index: int,
    cancelled: bool,
)
    requires
        running_names(log).len() == 0,
        0 <= index,
    ensures
        ({
            let (after, step) = goes_on(run, log, index, cancelled);
            running_names(step.events) == if index < run.stages.len() && !cancelled {
                seq![run.stages[index].name]
            } else {
                Seq::empty()
            }
        }),
{
    let step = goes_on(run, log, index, cancelled).1;
    lemma_running_names_push(
        log,
        events::BootstrapEventView::Failed { stage: None, error: CANCELLED@ },
    );
    if index < run.stages.len() && !cancelled {
        lemma_running_names_push(log, installer::stage_running(run.stages[index].name));
        assert(running_names(step.events) =~= seq![run.stages[index].name]);
    } else {
        assert(running_names(step.events) =~= Seq::<Seq<char>>::empty());
    }
}

proof fn lemma_ended_is_not_running(
    name: Seq<char>,
    ended: InstallerRun,
    parsed: Option<events::StageResultView>,
    duration_ms: u64,
)
    ensures
        installer::stage_ended(name, ended, parsed, duration_ms) is Stage,
        installer::stage_ended(name, ended, parsed, duration_ms)->state != "running"@,
{
    reveal_strlit("running");
    reveal_strlit("skipped");
    reveal_strlit("succeeded");
    reveal_strlit("failed");
    assert("running"@[0] != "skipped"@[0]);
    assert("running"@.len() != "succeeded"@.len());
    assert("running"@.len() != "failed"@.len());
}

/// Whether the stages that were reported as running are those that are to have run
/// by now: none before the manifest is there, then those of the manifest up to the
/// one that runs, and all of them once the stages are over.
pub open spec fn ran_so_far(run: RunView, reported: Seq<events::BootstrapEventView>) -> bool {
    let names = stage_names(run.stages);
    match run.phase {
        RunPhaseView::Downloading { .. } => running_names(reported).len() == 0,
        RunPhaseView::Manifest => running_names(reported).len() == 0,
        RunPhaseView::Stage { index } => 0 <= index < names.len() && running_names(reported)
            == names.take(index + 1),
        RunPhaseView::Pins => running_names(reported) == names,
        RunPhaseView::Marker { .. } => running_names(reported) == names,
        RunPhaseView::Finished => running_names(reported).is_prefix_of(names)
            || running_names(reported).len() == 0,
    }
}

proof fn lemma_ran_so_far(
    run: RunView,
    reported: Seq<events::BootstrapEventView>,
    input: RunInput,
)
    requires
        fits(run, input),
        ran_so_far(run, reported),
    ensures
        ({
            let (after, step) = answered(run, input);
            ran_so_far(after, reported + step.events)
        }),
        ({
            let (after, step) = answered(run, input);
            (step.action matches RunActionView::Finish { outcome } && outcome.ok) ==> running_names(
                reported + step.events,
            ) == stage_names(after.stages)
        }),
{
    let (after, step) = answered(run, input);
    lemma_running_names_add(reported, step.events);
    let so_far = running_names(reported);
    match input {
        RunInput::Download { failure, installed } => {
            let script = installer::script_after_download(
                run.phase->dest,
                failure,
                run.target.hermes_home,
                run.target.is_windows,
                installed,
            );
            if script.1.len() > 0 {
                assert(script.1 =~= seq![script.1[0]]);
                lemma_running_names_one(script.1[0]);
            }
            if let installer::ScriptStepView::Fail { error } = script.0 {
                lemma_running_names_push(
                    script.1,
                    events::BootstrapEventView::Failed { stage: None, error },
                );
            }
        },
        RunInput::Manifest { run: ended, parsed, cancelled } => {
            match installer::manifest_result(ended, parsed) {
                Err(error) => {
                    lemma_running_names_push(
                        Seq::empty(),
                        events::BootstrapEventView::Failed { stage: None, error },
                    );
                },
                Ok(manifest) => {
                    let event = events::BootstrapEventView::Manifest {
                        stages: manifest.stages,
                        protocol_version: manifest.protocol_version,
                    };
                    lemma_running_names_one(event);
                    lemma_goes_on_runs(
                        RunView { stages: manifest.stages, ..run },
                        seq![event],
                        0,
                        cancelled,
                    );
                    let names = stage_names(manifest.stages);
                    if manifest.stages.len() > 0 && !cancelled {
                        assert(so_far + seq![manifest.stages[0].name] =~= names.take(1));
                    } else {
                        assert(running_names(reported + step.events) =~= Seq::<Seq<char>>::empty());
                        if manifest.stages.len() == 0 {
                            assert(names =~= Seq::<Seq<char>>::empty());
                        }
                    }
                },
            }
        },
        RunInput::Stage { run: ended, parsed, duration_ms, cancelled } => {
            let name = running_stage(run);
            let index = run.phase->index;
            let names = stage_names(run.stages);
            let event = installer::stage_ended(name, ended, parsed, duration_ms);
            lemma_ended_is_not_running(name, ended, parsed, duration_ms);
            lemma_running_names_one(event);
            assert(names.len() == run.stages.len());
            if event->state == "failed"@ {
                lemma_running_names_push(seq![event], step.events.last());
                assert(step.events.drop_last() =~= seq![event]);
                assert(seq![event].push(step.events.last()) =~= step.events);
                assert(so_far + running_names(step.events) =~= so_far);
                assert(names.take(index + 1).is_prefix_of(names));
            } else {
                lemma_goes_on_runs(run, seq![event], index + 1, cancelled);
                if index + 1 < run.stages.len() && !cancelled {
                    assert(so_far + seq![run.stages[index + 1].name] =~= names.take(index + 2));
                } else {
                    assert(so_far + running_names(step.events) =~= so_far);
                    if index + 1 == run.stages.len() {
                        assert(names.take(index + 1) =~= names);
                    } else {
                        assert(names.take(index + 1).is_prefix_of(names));
                    }
                }
            }
        },
        RunInput::Pins { head, existing } => {
            assert(so_far + running_names(step.events) =~= so_far);
        },
        RunInput::Marker { failure } => {
            lemma_running_names_push(Seq::empty(), step.events.last());
            assert(Seq::empty().push(step.events.last()) =~= step.events);
            assert(so_far + running_names(step.events) =~= so_far);
        },
    }
}

/// Over a whole installation the stages run in the order of the manifest, from the
/// first on and none left out: at any point those that were reported as running are
/// the first of the manifest, and where the installation ends well they are all of
/// them.
pub proof fn every_stage_runs_in_order(begun: (RunView, RunStepView), inputs: Seq<RunInput>)
    requires
        begun.0.stages.len() == 0,
        begun.0.phase is Downloading || begun.0.phase is Manifest || begun.0.phase is Finished,
        begun.1.action is Finish ==> !begun.1.action->outcome.ok,
        forall|i: int|
            0 <= i < begun.1.events.len() ==> !((#[trigger] begun.1.events[i]) is Stage),
        all_fit((begun.0, begun.1.events), inputs),
    ensures
        ({
            let (after, reported) = history((begun.0, begun.1.events), inputs);
            let names = stage_names(after.stages);
            &&& running_names(reported).is_prefix_of(names)
            &&& after.phase matches RunPhaseView::Stage { index } ==> running_names(reported)
                == names.take(index + 1)
            &&& (last_action(begun, inputs) matches RunActionView::Finish { outcome } && outcome.ok)
                ==> running_names(reported) == names
        }),
    decreases inputs.len(),
{
    lemma_history_ran(begun, inputs);
    let (after, reported) = history((begun.0, begun.1.events), inputs);
    let names = stage_names(after.stages);
    if after.phase is Stage {
        assert(names.take(after.phase->index + 1).is_prefix_of(names));
    }
}

proof fn lemma_no_stage_no_name(reported: Seq<events::BootstrapEventView>)
    requires
        forall|i: int| 0 <= i < reported.len() ==> !((#[trigger] reported[i]) is Stage),
    ensures
        running_names(reported).len() == 0,
    decreases reported.len(),
{
    if reported.len() > 0 {
        let rest = reported.drop_last();
        assert forall|i: int| 0 <= i < rest.len() implies !((#[trigger] rest[i]) is Stage) by {
            assert(rest[i] == reported[i]);
        }
        lemma_no_stage_no_name(rest);
        assert(!(reported[reported.len() - 1] is Stage));
    }
}

proof fn lemma_history_ran(begun: (RunView, RunStepView), inputs: Seq<RunInput>)
    requires
        begun.0.stages.len() == 0,
        begun.0.phase is Downloading || begun.0.phase is Manifest || begun.0.phase is Finished,
        begun.1.action is Finish ==> !begun.1.action->outcome.ok,
        forall|i: int|
            0 <= i < begun.1.events.len() ==> !((#[trigger] begun.1.events[i]) is Stage),
        all_fit((begun.0, begun.1.events), inputs),
    ensures
        ({
            let (after, reported) = history((begun.0, begun.1.events), inputs);
            &&& ran_so_far(after, reported)
            &&& (last_action(begun, inputs) matches RunActionView::Finish { outcome } && outcome.ok)
                ==> running_names(reported) == stage_names(after.stages)
        }),
    decreases inputs.len(),
{
    let start = (begun.0, begun.1.events);
    if inputs.len() == 0 {
        lemma_no_stage_no_name(begun.1.events);
    } else {
        lemma_history_ran(begun, inputs.drop_last());
        let before = history(start, inputs.drop_last());
        lemma_ran_so_far(before.0, before.1, inputs.last());
    }
}

/// A manifest is reported with its stages as they are, and the first of them is the
/// one that runs next, unless the installation was cancelled or there is none.
pub proof fn the_first_stage_follows_the_manifest(
    run: RunView,
    manifest: events::ManifestView,
    cancelled: bool,
)
    ensures
        ({
            let (after, step) = takes_manifest(run, Ok(manifest), cancelled);
            &&& step.events.len() > 0
            &&& step.events[0] == (events::BootstrapEventView::Manifest {
                stages: manifest.stages,
                protocol_version: manifest.protocol_version,
            })
            &&& after.stages == manifest.stages
            &&& manifest.stages.len() > 0 && !cancelled ==> {
                &&& after.phase == (RunPhaseView::Stage { index: 0 })
                &&& step.action is Run
                &&& step.action->stage == manifest.stages[0].name
                &&& step.events.len() == 2
                &&& step.events[1] is Stage
                &&& step.events[1]->name == manifest.stages[0].name
                &&& step.events[1]->state == "running"@
            }
            &&& manifest.stages.len() > 0 && cancelled ==> step.action is Finish
                && step.action->outcome.cancelled
            &&& manifest.stages.len() == 0 ==> step.action is ReadPins
        }),
        forall|error: Seq<char>|
            ({
                let (after, step) = #[trigger] takes_manifest(run, Err(error), cancelled);
                step.action is Finish && step.action->outcome.error == Some(error)
            }),
{
}

/// What a stage leads to. A failed one ends the installation with its name and its
/// reason. After any other the next of the manifest runs, unless the installation
/// was cancelled, and after the last the commits are read.
pub proof fn the_next_stage_follows_a_good_one(
    run: RunView,
    ended: InstallerRun,
    parsed: Option<events::StageResultView>,
    duration_ms: u64,
    cancelled: bool,
)
    requires
        run.phase is Stage,
        0 <= run.phase->index < run.stages.len(),
    ensures
        ({
            let index = run.phase->index;
            let name = run.stages[index].name;
            let good = ended is Ended && parsed is Some && parsed->0.ok;
            let (after, step) = answered(
                run,
                RunInput::Stage { run: ended, parsed, duration_ms, cancelled },
            );
            &&& step.events.len() > 0
            &&& step.events[0] == installer::stage_ended(name, ended, parsed, duration_ms)
            &&& after.stages == run.stages && after.script == run.script && after.target
                == run.target
            &&& !good ==> step.action is Finish && step.action->outcome.failed_stage == Some(name)
                && !step.action->outcome.cancelled
            &&& good && index + 1 < run.stages.len() && !cancelled ==> {
                &&& after.phase == (RunPhaseView::Stage { index: index + 1 })
                &&& step.action is Run
                &&& step.action->stage == run.stages[index + 1].name
            }
            &&& good && index + 1 < run.stages.len() && cancelled ==> step.action is Finish
                && step.action->outcome.cancelled
            &&& good && index + 1 == run.stages.len() ==> step.action is ReadPins
        }),
{
    reveal_strlit("skipped");
    reveal_strlit("succeeded");
    reveal_strlit("failed");
    assert("failed"@.len() != "skipped"@.len());
    assert("failed"@.len() != "succeeded"@.len());
}

/// What runs is the installer that was found: every run is of the script of the
/// installation, for the stage that is reported as running or for the manifest, and
/// no answer changes what is installed and where.
pub proof fn what_runs_is_the_installer_that_was_found(run: RunView, input: RunInput)
    requires
        fits(run, input),
    ensures
        ({
            let (after, step) = answered(run, input);
            &&& after.target == run.target
            &&& !(input is Download) ==> after.script == run.script
            &&& !(input is Manifest) ==> after.stages == run.stages
            &&& step.action matches RunActionView::Run { plan, stage } ==> {
                ||| {
                    &&& after.phase is Manifest
                    &&& input is Download
                    &&& stage == "__manifest__"@
                    &&& plan == installer::installer_call(
                        after.script,
                        run.target.manifest_args(),
                        run.target.hermes_home,
                        run.target.is_windows,
                    )
                }
                ||| {
                    &&& after.phase is Stage
                    &&& stage == after.stages[after.phase->index].name
                    &&& plan == installer::installer_call(
                        after.script,
                        run.target.stage_args(stage),
                        run.target.hermes_home,
                        run.target.is_windows,
                    )
                }
            }
            &&& input matches RunInput::Download { failure: None, .. } ==> after.script
                == run.phase->dest && step.action is Run
        }),
{
}

/// An installation ends well exactly where its marker is written, and reports the
/// marker that was to be written: with the commit that it is pinned to and the
/// branch of its stamp.
pub proof fn a_written_marker_ends_an_installation_well(run: RunView, input: RunInput)
    requires
        fits(run, input),
    ensures
        ({
            let (after, step) = answered(run, input);
            &&& (step.action is Finish && step.action->outcome.ok) <==> (
            input matches RunInput::Marker { failure: None })
            &&& input matches RunInput::Marker { failure: None } ==> step.events == seq![
                events::BootstrapEventView::Complete { marker: run.phase->marker },
            ]
            &&& input matches RunInput::Marker { failure: Some(error) } ==> step.action is Finish
                && step.action->outcome.error == Some(error)
            &&& input matches RunInput::Pins { head, existing } ==> {
                &&& step.action is WriteMarker
                &&& after.phase == (RunPhaseView::Marker { marker: step.action->marker })
                &&& step.action->marker.pinned_commit == pin::marker_commit(
                    run.target.stamp,
                    head,
                    existing,
                )
                &&& run.target.stamp matches Some(stamp) ==> step.action->marker.pinned_branch
                    == stamp.branch
                &&& run.target.stamp is None ==> step.action->marker.pinned_branch is None
            }
        }),
{
}

/// How an installation begins: with what it was given and a commit to pin unless
/// there is a checkout already, cancelled at once where that was asked for, and
/// else with the installer that is known.
pub proof fn an_installation_begins_with_its_installer(
    stamp: Option<events::InstallStampView>,
    active_root: Seq<char>,
    hermes_home: Seq<char>,
    is_windows: bool,
    existing_checkout: bool,
    script: installer::ScriptStepView,
    log: Seq<events::BootstrapEventView>,
)
    ensures
        ({
            let run = begun(stamp, active_root, hermes_home, is_windows, existing_checkout);
            let (after, step) = takes_script(run, (script, log));
            let target = run.target;
            &&& target.stamp == stamp && target.active_root == active_root
            &&& target.hermes_home == hermes_home && target.is_windows == is_windows
            &&& target.pin_commit <==> !existing_checkout
            &&& run.stages.len() == 0 && after.stages.len() == 0 && after.target == target
            &&& script matches installer::ScriptStepView::Use { path } ==> {
                &&& after.script == path
                &&& after.phase is Manifest
                &&& step.action == (RunActionView::Run {
                    plan: installer::installer_call(
                        path,
                        target.manifest_args(),
                        hermes_home,
                        is_windows,
                    ),
                    stage: "__manifest__"@,
                })
                &&& step.events == log
            }
            &&& script matches installer::ScriptStepView::Download { url, dest } ==> {
                &&& after.phase == (RunPhaseView::Downloading { dest })
                &&& step.action == (RunActionView::Download { url, dest })
                &&& step.events == log
            }
            &&& script matches installer::ScriptStepView::Fail { error } ==> {
                &&& step.action is Finish
                &&& step.action->outcome.error == Some(error)
                &&& !step.action->outcome.ok && !step.action->outcome.cancelled
            }
            &&& cancels(run, log).1.action is Finish
            &&& cancels(run, log).1.action->outcome.cancelled
            &&& !cancels(run, log).1.action->outcome.ok
        }),
{
}

// ---------------------------------------------------------------------------
// Laws of the operations themselves
// ---------------------------------------------------------------------------
/// A manifest that is taken is reported as it is and followed by its first stage,
/// and by no other; and where it lists none, by the commits.
pub proof fn taking_a_manifest_starts_its_first_stage(manifest: ManifestPayload)
    ensures
        forall|run: &mut BootstrapRun, r: RunStep| #[trigger]
            call_ensures(
                BootstrapRun::take_manifest,
                (run, Ok::<ManifestPayload, String>(manifest), false),
                r,
            ) ==> {
                &&& final(run).stages.deep_view() == manifest.stages.deep_view()
                &&& manifest.stages@.len() > 0 ==> {
                    &&& final(run).phase is Stage && final(run).phase->index == 0
                    &&& r.action is Run && r.action->stage@ == manifest.stages@[0].name@
                }
                &&& manifest.stages@.len() == 0 ==> r.action is ReadPins
            },
{
}

/// A stage that is over, and did not fail, is followed by the stage behind it in
/// the manifest, and the last one by the commits.
pub proof fn taking_a_stage_starts_the_next(event: BootstrapEvent)
    requires
        event is Stage,
        event->state@ != "failed"@,
    ensures
        forall|run: &mut BootstrapRun, r: RunStep| #[trigger]
            call_ensures(BootstrapRun::take_stage, (run, event, false), r) && run.phase is Stage
                && run.phase->index < run.stages@.len() ==> {
                let next = run.phase->index + 1;
                &&& final(run).stages.deep_view() == run.stages.deep_view()
                &&& next < run.stages@.len() ==> {
                    &&& final(run).phase is Stage && final(run).phase->index == next
                    &&& r.action is Run && r.action->stage@ == run.stages@[next].name@
                }
                &&& next == run.stages@.len() ==> r.action is ReadPins
            },
{
}

/// The marker that is written holds the commit that outranks the others and the
/// branch of the stamp, and the installation is over, and well, once it is written.
pub proof fn an_installation_ends_with_its_marker(
    head: Option<&str>,
    existing: Option<&str>,
    error: &str,
)
    ensures
        forall|run: &mut BootstrapRun, r: RunStep| #[trigger]
            call_ensures(BootstrapRun::on_pins, (run, head, existing), r) ==> {
                &&& r.action is WriteMarker
                &&& r.action->marker.pinned_commit.deep_view() == pin::marker_commit(
                    run.target.stamp.deep_view(),
                    head.deep_view(),
                    existing.deep_view(),
                )
                &&& run.target.stamp is None ==> r.action->marker.pinned_branch is None
                &&& run.target.stamp matches Some(stamp)
                    ==> r.action->marker.pinned_branch.deep_view() == stamp.branch.deep_view()
                &&& final(run).phase is Marker
                &&& final(run).phase->marker.deep_view() == r.action->marker.deep_view()
            },
        forall|run: &mut BootstrapRun, r: RunStep| #[trigger]
            call_ensures(BootstrapRun::on_marker, (run, None::<&str>), r) && run.phase is Marker ==> {
                &&& r.action is Finish && r.action->outcome.ok && r.action->outcome.error is None
                &&& r.events@.len() == 1 && r.events@[0] is Complete
                &&& r.events@[0]->Complete_marker.deep_view() == run.phase->marker.deep_view()
                &&& final(run).phase is Finished
            },
        forall|run: &mut BootstrapRun, r: RunStep| #[trigger]
            call_ensures(BootstrapRun::on_marker, (run, Some(error)), r) && run.phase is Marker ==> {
                &&& r.action is Finish && !r.action->outcome.ok
                &&& r.action->outcome.error.deep_view() == Some(error@)
            },
{
    assert forall|run: &mut BootstrapRun, r: RunStep| #[trigger]
        call_ensures(BootstrapRun::on_marker, (run, None::<&str>), r)
            && run.phase is Marker implies {
        &&& r.action is Finish && r.action->outcome.ok && r.action->outcome.error is None
        &&& r.events@.len() == 1 && r.events@[0] is Complete
        &&& r.events@[0]->Complete_marker.deep_view() == run.phase->marker.deep_view()
        &&& final(run).phase is Finished
    } by {
        assert(None::<&str>.deep_view() is None);
        assert(r@ == takes_marker(run@, run@.phase->marker, None).1);
        assert(r.events.deep_view().len() == 1);
        assert(r.events.deep_view()[0] == r.events@[0].deep_view());
    }
}

/// A cancelled installation says so, and reports neither an error nor a stage.
pub proof fn a_cancelled_installation_says_so(
    run: RunView,
    log: Seq<events::BootstrapEventView>,
)
    ensures
        cancels(run, log).1.events == log.push(
            events::BootstrapEventView::Failed {
                stage: None,
                error: "bootstrap cancelled by user"@,
            },
        ),
        cancels(run, log).1.action == (RunActionView::Finish {
            outcome: events::BootstrapOutcomeView {
                ok: false,
                cancelled: true,
                failed_stage: None,
                error: None,
            },
        }),
        cancels(run, log).0.phase is Finished,
{
}

} // verus!
