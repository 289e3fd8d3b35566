//! What an installation is made of, and what it reports while it runs.
use crate::duplicate::Duplicate;
use vstd::prelude::*;

verus! {

/// The build-time install stamp (`install-stamp.json`), or `None` in
/// development.
#[derive(Debug, Clone, PartialEq, Eq)]
pub struct InstallStamp {
    pub commit: Option<String>,
    pub branch: Option<String>,
}

/// What an `InstallStamp` says.
#[verifier::ext_equal]
pub struct InstallStampView {
    pub commit: Option<Seq<char>>,
    pub branch: Option<Seq<char>>,
}

impl DeepView for InstallStamp {
    type V = InstallStampView;

    open spec fn deep_view(&self) -> InstallStampView {
        InstallStampView { commit: self.commit.deep_view(), branch: self.branch.deep_view() }
    }
}

impl Default for InstallStamp {
    fn default() -> (r: Self)
        ensures
            r.commit is None,
            r.branch is None,
    {
        InstallStamp { commit: None, branch: None }
    }
}

impl Duplicate for InstallStamp {
    fn duplicate(&self) -> (r: InstallStamp) {
        InstallStamp { commit: self.commit.duplicate(), branch: self.branch.duplicate() }
    }
}

/// One stage that the installer offers.
#[derive(Debug, Clone, PartialEq, Eq)]
pub struct StageDescriptor {
    pub name: String,
    pub title: Option<String>,
    pub category: Option<String>,
    pub needs_user_input: Option<bool>,
}

/// What a `StageDescriptor` says.
#[verifier::ext_equal]
pub struct StageDescriptorView {
    pub name: Seq<char>,
    pub title: Option<Seq<char>>,
    pub category: Option<Seq<char>>,
    pub needs_user_input: Option<bool>,
}

impl DeepView for StageDescriptor {
    type V = StageDescriptorView;

    open spec fn deep_view(&self) -> StageDescriptorView {
        StageDescriptorView {
            name: self.name@,
            title: self.title.deep_view(),
            category: self.category.deep_view(),
            needs_user_input: self.needs_user_input,
        }
    }
}

impl Duplicate for StageDescriptor {
    fn duplicate(&self) -> (r: StageDescriptor) {
        StageDescriptor {
            name: self.name.clone(),
            title: self.title.duplicate(),
            category: self.category.duplicate(),
            needs_user_input: self.needs_user_input,
        }
    }
}

/// The install-script manifest. The protocol version is carried as JSON text:
/// nothing here reads it.
#[derive(Debug, Clone, PartialEq, Eq)]
pub struct ManifestPayload {
    pub stages: Vec<StageDescriptor>,
    pub protocol_version: Option<String>,
}

/// What a `ManifestPayload` says.
#[verifier::ext_equal]
pub struct ManifestView {
    pub stages: Seq<StageDescriptorView>,
    pub protocol_version: Option<Seq<char>>,
}

impl DeepView for ManifestPayload {
    type V = ManifestView;

    open spec fn deep_view(&self) -> ManifestView {
        ManifestView {
            stages: self.stages.deep_view(),
            protocol_version: self.protocol_version.deep_view(),
        }
    }
}

impl Duplicate for ManifestPayload {
    fn duplicate(&self) -> (r: ManifestPayload) {
        ManifestPayload {
            stages: self.stages.duplicate(),
            protocol_version: self.protocol_version.duplicate(),
        }
    }
}

/// One JSON result frame of a stage.
#[derive(Debug, Clone, PartialEq, Eq)]
pub struct StageResult {
    pub ok: bool,
    pub skipped: Option<bool>,
    pub reason: Option<String>,
    pub stage: String,
}

/// What a `StageResult` says.
#[verifier::ext_equal]
pub struct StageResultView {
    pub ok: bool,
    pub skipped: Option<bool>,
    pub reason: Option<Seq<char>>,
    pub stage: Seq<char>,
}

impl DeepView for StageResult {
    type V = StageResultView;

    open spec fn deep_view(&self) -> StageResultView {
        StageResultView {
            ok: self.ok,
            skipped: self.skipped,
            reason: self.reason.deep_view(),
            stage: self.stage@,
        }
    }
}

impl Duplicate for StageResult {
    fn duplicate(&self) -> (r: StageResult) {
        StageResult {
            ok: self.ok,
            skipped: self.skipped,
            reason: self.reason.duplicate(),
            stage: self.stage.clone(),
        }
    }
}

/// What the bootstrap-complete marker records.
#[derive(Debug, Clone, PartialEq, Eq)]
pub struct BootstrapMarker {
    pub pinned_commit: Option<String>,
    pub pinned_branch: Option<String>,
}

/// What a `BootstrapMarker` says.
#[verifier::ext_equal]
pub struct BootstrapMarkerView {
    pub pinned_commit: Option<Seq<char>>,
    pub pinned_branch: Option<Seq<char>>,
}

impl DeepView for BootstrapMarker {
    type V = BootstrapMarkerView;

    open spec fn deep_view(&self) -> BootstrapMarkerView {
        BootstrapMarkerView {
            pinned_commit: self.pinned_commit.deep_view(),
            pinned_branch: self.pinned_branch.deep_view(),
        }
    }
}

impl Duplicate for BootstrapMarker {
    fn duplicate(&self) -> (r: BootstrapMarker) {
        BootstrapMarker {
            pinned_commit: self.pinned_commit.duplicate(),
            pinned_branch: self.pinned_branch.duplicate(),
        }
    }
}

/// What the runner reports, in the order in which it happens.
#[allow(inconsistent_fields)]
#[derive(Debug, Clone, PartialEq, Eq)]
pub enum BootstrapEvent {
    Manifest { stages: Vec<StageDescriptor>, protocol_version: Option<String> },
    Stage {
        name: String,
        state: String,
        duration_ms: Option<u64>,
        json: Option<StageResult>,
        error: Option<String>,
    },
    Log { stage: Option<String>, line: String, stream: Option<String> },
    Complete { marker: BootstrapMarker },
    Failed { stage: Option<String>, error: String },
}

/// What a `BootstrapEvent` says.
#[allow(inconsistent_fields)]
#[verifier::ext_equal]
pub enum BootstrapEventView {
    Manifest { stages: Seq<StageDescriptorView>, protocol_version: Option<Seq<char>> },
    Stage {
        name: Seq<char>,
        state: Seq<char>,
        duration_ms: Option<u64>,
        json: Option<StageResultView>,
        error: Option<Seq<char>>,
    },
    Log { stage: Option<Seq<char>>, line: Seq<char>, stream: Option<Seq<char>> },
    Complete { marker: BootstrapMarkerView },
    Failed { stage: Option<Seq<char>>, error: Seq<char> },
}

impl DeepView for BootstrapEvent {
    type V = BootstrapEventView;

    open spec fn deep_view(&self) -> BootstrapEventView {
        match self {
            BootstrapEvent::Manifest { stages, protocol_version } => BootstrapEventView::Manifest {
                stages: stages.deep_view(),
                protocol_version: protocol_version.deep_view(),
            },
            BootstrapEvent::Stage { name, state, duration_ms, json, error } =>
                BootstrapEventView::Stage {
                name: name@,
                state: state@,
                duration_ms: *duration_ms,
                json: json.deep_view(),
                error: error.deep_view(),
            },
            BootstrapEvent::Log { stage, line, stream } => BootstrapEventView::Log {
                stage: stage.deep_view(),
                line: line@,
                stream: stream.deep_view(),
            },
            BootstrapEvent::Complete { marker } => BootstrapEventView::Complete {
                marker: marker.deep_view(),
            },
            BootstrapEvent::Failed { stage, error } => BootstrapEventView::Failed {
                stage: stage.deep_view(),
                error: error@,
            },
        }
    }
}

/// The terminal outcome of an installation.
#[derive(Debug, Clone, PartialEq, Eq)]
pub struct BootstrapOutcome {
    pub ok: bool,
    pub cancelled: bool,
    pub failed_stage: Option<String>,
    pub error: Option<String>,
}

/// What a `BootstrapOutcome` says.
#[verifier::ext_equal]
pub struct BootstrapOutcomeView {
    pub ok: bool,
    pub cancelled: bool,
    pub failed_stage: Option<Seq<char>>,
    pub error: Option<Seq<char>>,
}

impl DeepView for BootstrapOutcome {
    type V = BootstrapOutcomeView;

    open spec fn deep_view(&self) -> BootstrapOutcomeView {
        BootstrapOutcomeView {
            ok: self.ok,
            cancelled: self.cancelled,
            failed_stage: self.failed_stage.deep_view(),
            error: self.error.deep_view(),
        }
    }
}

} // verus!
