//! The pace of the baseline poller.
//!
//! The daemon, not any client, owns the radio's spontaneous-update stream. At startup (and on
//! reconnect) it enables the rig's native push (`AI2;` on a TS-590) once and keeps it on for
//! the daemon's lifetime. The poller backs off to the heartbeat rate only for fields the radio
//! actually covers with native push; poll-diff coverage never causes back-off.

use vstd::prelude::*;

use crate::model::Field;
use crate::model::RadioEventSource;
use crate::model::StateChange;
use crate::state::RadioState;
use crate::state::Snapshot;
use crate::state::StateHandle;

verus! {

/// Reserved session id for the background poller (clients use ids from 1).
pub const POLLER_SESSION: u64 = 0;

/// The wait before the next poll: the heartbeat while native push covers the frequency of
/// the receive VFO, the baseline otherwise.
pub open spec fn poll_wait(
    state: RadioState,
    native_push_active: bool,
    baseline_ms: u64,
    heartbeat_ms: u64,
) -> u64 {
    if native_push_active && state.covered.contains(Field::Freq(state.snapshot.rx_vfo)) {
        heartbeat_ms
    } else {
        baseline_ms
    }
}

/// Decide the next poll interval. While native push covers the frequency of the *currently
/// active* receive VFO, the poller drops to the heartbeat (liveness) rate; otherwise it polls
/// at baseline.
#[must_use]
pub fn next_interval(
    state: &StateHandle,
    native_push_active: bool,
    baseline_ms: u64,
    heartbeat_ms: u64,
) -> (r: u64)
    ensures
        r == poll_wait(state@, native_push_active, baseline_ms, heartbeat_ms),
{
    let active = state.snapshot().rx_vfo;
    if native_push_active && state.is_native_push_covered(Field::Freq(active)) {
        heartbeat_ms
    } else {
        baseline_ms
    }
}

/// The poll falls back to the heartbeat only while the radio pushes on its own and has pushed the
/// frequency of the VFO that it receives on; otherwise it keeps its own pace.
pub proof fn law_poll_keeps_its_pace(
    state: RadioState,
    native_push_active: bool,
    baseline_ms: u64,
    heartbeat_ms: u64,
    hz: u64,
)
    ensures
        !native_push_active ==> poll_wait(state, native_push_active, baseline_ms, heartbeat_ms)
            == baseline_ms,
        state.covered == Set::<Field>::empty() ==> poll_wait(
            state,
            native_push_active,
            baseline_ms,
            heartbeat_ms,
        ) == baseline_ms,
        ({
            let change = StateChange::Freq { vfo: state.snapshot.rx_vfo, hz };
            let later = state.recorded(change, RadioEventSource::NativePush);
            poll_wait(later, true, baseline_ms, heartbeat_ms) == heartbeat_ms
        }),
{
    reveal(Snapshot::after);
}

} // verus!
