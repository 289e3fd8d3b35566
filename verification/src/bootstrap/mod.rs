//! First-launch bootstrap: install a Hermes runtime by driving the platform
//! installer stage by stage.
//!
//! The runner reports `BootstrapEvent` values, which the renderer's install
//! overlay merges with the installer's snapshot.
pub mod events;
pub mod installer;
pub mod marker;
pub mod pin;
pub mod run;
pub mod stamp;

pub use events::{
    BootstrapEvent, BootstrapMarker, BootstrapOutcome, InstallStamp, ManifestPayload,
    StageDescriptor, StageResult,
};
pub use installer::{active_root, parse_manifest_payload, parse_stage_result};
pub use marker::{read_existing_pinned_commit, write_bootstrap_marker};
pub use pin::{
    build_pin_args, install_ref_for_stamp, is_pinned_commit, resolve_checkout_head,
    resolve_marker_pinned_commit, InstallRef,
};
pub use run::{run_bootstrap, BootstrapRun};
pub use stamp::resolve_install_stamp;
