//! The first-launch bootstrap commands.
//!
//! They back the buttons of the renderer's install overlay.
use crate::boot;
use crate::boot::BootstrapState;
use crate::bootstrap::events;
use crate::bootstrap::BootstrapEvent;
use vstd::prelude::*;

verus! {

/// What the install overlay is told: whether an action succeeded, and of a
/// cancellation also whether there was something to cancel.
#[derive(Debug, Clone, Copy, PartialEq, Eq, Structural)]
pub struct BootstrapActionResult {
    pub ok: bool,
    pub cancelled: Option<bool>,
}

/// What is reported before the manifest is known, so that the overlay shows at
/// once: a cold fetch can take tens of seconds.
pub open spec fn eager_manifest() -> events::BootstrapEventView {
    events::BootstrapEventView::Manifest { stages: Seq::empty(), protocol_version: None }
}

/// The snapshot that an installation begins from: a repair forgets a latched
/// failure.
pub open spec fn begun_from(state: boot::BootstrapStateView, repair: bool) -> boot::BootstrapStateView {
    if repair {
        boot::without_failure(state)
    } else {
        state
    }
}

/// Begin an installation: an old request to stop is taken back, a repair forgets
/// a latched failure, and the overlay is put up with an empty manifest, which is
/// returned to be reported.
pub fn run_bootstrap_flow(state: &mut BootstrapState, repair: bool) -> (r: BootstrapEvent)
    ensures
        r.deep_view() == eager_manifest(),
        !final(state).cancel_requested(),
        exists|now: u64| final(state)@ == #[trigger] boot::after_event(
            begun_from(old(state)@, repair),
            eager_manifest(),
            now,
        ),
        final(state)@.active,
        repair ==> final(state)@.error is None,
{
    state.clear_cancel();
    if repair {
        state.clear_failure();
    }
    let eager = BootstrapEvent::Manifest { stages: Vec::new(), protocol_version: None };
    proof {
        assert(eager.deep_view() =~= eager_manifest()) by {
            let none: Vec<crate::bootstrap::StageDescriptor> = eager->stages;
            assert(none.deep_view() =~= Seq::<events::StageDescriptorView>::empty());
        }
    }
    let _ = state.apply_runner_event(&eager);
    eager
}

/// The installation was started; it goes on behind its events.
pub fn hermes_bootstrap_start() -> (r: BootstrapActionResult)
    ensures
        r == (BootstrapActionResult { ok: true, cancelled: None }),
{
    BootstrapActionResult { ok: true, cancelled: None }
}

/// Ask the running installation to stop. Where none is running there is nothing
/// to cancel, and nothing changes.
pub fn hermes_bootstrap_cancel(state: &mut BootstrapState) -> (r: BootstrapActionResult)
    ensures
        final(state)@ == old(state)@,
        final(state).cancel_requested() == (old(state).cancel_requested() || old(state)@.active),
        r.ok == old(state)@.active,
        r.cancelled == Some(old(state)@.active),
{
    let was_active = state.snapshot().active;
    if !was_active {
        return BootstrapActionResult { ok: false, cancelled: Some(false) };
    }
    state.request_cancel();
    BootstrapActionResult { ok: true, cancelled: Some(true) }
}

/// Forget a latched failure and everything else that was reported, so that the
/// next boot drives the installation anew.
pub fn hermes_bootstrap_reset(state: &mut BootstrapState) -> (r: BootstrapActionResult)
    ensures
        final(state)@ == boot::inactive_state(),
        final(state).cancel_requested() == old(state).cancel_requested(),
        r == (BootstrapActionResult { ok: true, cancelled: None }),
{
    let _ = state.reset();
    BootstrapActionResult { ok: true, cancelled: None }
}

/// The installer was run again; its stages can be repeated.
pub fn hermes_bootstrap_repair() -> (r: BootstrapActionResult)
    ensures
        r == (BootstrapActionResult { ok: true, cancelled: None }),
{
    BootstrapActionResult { ok: true, cancelled: None }
}

/// An installation puts its overlay up at once, with no stages yet. A repair
/// forgets a latched failure and nothing else, and any other start forgets nothing.
pub proof fn an_installation_shows_at_once(
    state: boot::BootstrapStateView,
    repair: bool,
    now: u64,
)
    ensures
        ({
            let after = boot::after_event(begun_from(state, repair), eager_manifest(), now);
            &&& after.active
            &&& after.manifest is Some && after.manifest->0.stages.len() == 0
            &&& after.manifest->0.protocol_version is None
            &&& forall|name: Seq<char>| !#[trigger] after.stages.contains_key(name)
            &&& repair ==> after.error is None
            &&& !repair ==> after.error == state.error
            &&& after.log == state.log
        }),
{
}

/// An installation is cancelled exactly where one is running; then, and only then,
/// the answer says so. A start, a repair and a reset always go well, and after a
/// reset nothing is shown of an installation.
pub proof fn only_a_running_installation_is_cancelled(
    started: BootstrapActionResult,
    repaired: BootstrapActionResult,
)
    requires
        call_ensures(hermes_bootstrap_start, (), started),
        call_ensures(hermes_bootstrap_repair, (), repaired),
    ensures
        started.ok && started.cancelled is None,
        repaired.ok && repaired.cancelled is None,
        forall|state: &mut BootstrapState, r: BootstrapActionResult| #[trigger]
            call_ensures(hermes_bootstrap_cancel, (state,), r) ==> {
                &&& r.ok == state@.active
                &&& r.cancelled == Some(state@.active)
                &&& state@.active ==> final(state).cancel_requested()
                &&& !state@.active ==> final(state).cancel_requested() == state.cancel_requested()
                &&& final(state)@ == state@
            },
        forall|state: &mut BootstrapState, r: BootstrapActionResult| #[trigger]
            call_ensures(hermes_bootstrap_reset, (state,), r) ==> {
                &&& r.ok && r.cancelled is None
                &&& !final(state)@.active
                &&& final(state)@.error is None
                &&& final(state)@.stages.len() == 0 && final(state)@.log.len() == 0
            },
{
}

} // verus!
