//! When to reopen a radio transport that dropped.

use vstd::prelude::*;

verus! {

/// Default backoff before the first reconnect attempt after a transport drop, in
/// milliseconds.
pub const RECONNECT_INITIAL_MS: u64 = 500;

/// Ceiling for the exponential reconnect backoff, in milliseconds.
pub const RECONNECT_MAX_MS: u64 = 5_000;

/// What happened to the transport.
#[derive(Debug, Clone, Copy, PartialEq, Eq, Structural)]
pub enum TransportNews {
    /// The command channel closed: the daemon is shutting down.
    Shutdown,
    /// The byte stream closed or failed.
    Disconnected,
    /// A fresh transport is open.
    Reopened,
    /// Opening a fresh transport failed.
    ReopenFailed,
}

/// What the supervisor does next.
#[derive(Debug, Clone, Copy, PartialEq, Eq, Structural)]
pub enum SupervisorAction {
    /// Stop for good.
    Stop,
    /// Arm the radio's native push and serve the transport.
    Serve,
    /// Wait, then try to open a fresh transport.
    ReopenAfter {
        /// How long to wait.
        wait_ms: u64,
    },
}

/// The backoff of a supervisor.
pub struct Backoff {
    /// The wait before the next attempt.
    pub current: u64,
    /// The wait before the first attempt.
    pub initial: u64,
    /// The longest wait.
    pub max: u64,
}

impl Backoff {
    /// What the supervisor does on some news, and its backoff after it. Each failed attempt
    /// doubles the wait up to the ceiling; a success starts over.
    pub open spec fn after(self, news: TransportNews) -> (SupervisorAction, Backoff) {
        match news {
            TransportNews::Shutdown => (SupervisorAction::Stop, self),
            TransportNews::Reopened => (
                SupervisorAction::Serve,
                Backoff { current: self.initial, ..self },
            ),
            TransportNews::Disconnected => (
                SupervisorAction::ReopenAfter { wait_ms: self.current },
                self,
            ),
            TransportNews::ReopenFailed => (
                SupervisorAction::ReopenAfter { wait_ms: self.current },
                Backoff {
                    current: if self.current * 2 > self.max {
                        self.max
                    } else {
                        (self.current * 2) as u64
                    },
                    ..self
                },
            ),
        }
    }
}

/// Supervises a radio transport: when it drops (serial unplug, radio power-cycle, write
/// error) it is reopened with capped exponential backoff.
#[derive(Debug, Clone, Copy, PartialEq, Eq)]
pub struct Supervisor {
    current: u64,
    initial: u64,
    max: u64,
}

impl View for Supervisor {
    type V = Backoff;

    closed spec fn view(&self) -> Backoff {
        Backoff { current: self.current, initial: self.initial, max: self.max }
    }
}

impl Supervisor {
    /// A supervisor with the given backoff bounds.
    #[must_use]
    pub fn new(initial_ms: u64, max_ms: u64) -> (r: Self)
        ensures
            r@ == (Backoff { current: initial_ms, initial: initial_ms, max: max_ms }),
    {
        Supervisor { current: initial_ms, initial: initial_ms, max: max_ms }
    }

    /// Decide what to do next.
    pub fn next(&mut self, news: TransportNews) -> (r: SupervisorAction)
        ensures
            (r, final(self)@) == old(self)@.after(news),
    {
        match news {
            TransportNews::Shutdown => SupervisorAction::Stop,
            TransportNews::Reopened => {
                self.current = self.initial;
                SupervisorAction::Serve
            },
            TransportNews::Disconnected => SupervisorAction::ReopenAfter { wait_ms: self.current },
            TransportNews::ReopenFailed => {
                let wait_ms: u64 = self.current;
                self.current = if wait_ms > self.max / 2 {
                    self.max
                } else {
                    wait_ms * 2
                };
                SupervisorAction::ReopenAfter { wait_ms }
            },
        }
    }
}

/// The wait before an attempt never exceeds the greater of the two bounds.
pub proof fn law_backoff_is_bounded(backoff: Backoff, news: TransportNews)
    requires
        backoff.current <= backoff.initial || backoff.current <= backoff.max,
    ensures
        ({
            let (action, later) = backoff.after(news);
            &&& later.current <= later.initial || later.current <= later.max
            &&& action matches SupervisorAction::ReopenAfter { wait_ms } ==> wait_ms
                <= backoff.initial || wait_ms <= backoff.max
        }),
{
}

/// A lost transport is reopened after the present delay. Every failed attempt doubles the delay
/// for the next one, up to the largest; an attempt that succeeds is served at once and makes the
/// delay the first one again. Only a shutdown stops the supervisor.
pub proof fn law_delays_double(backoff: Backoff)
    requires
        backoff.initial <= backoff.max,
    ensures
        ({
            let (lost, waiting) = backoff.after(TransportNews::Disconnected);
            let (first, once) = waiting.after(TransportNews::ReopenFailed);
            let (second, twice) = once.after(TransportNews::ReopenFailed);
            let (served, fresh) = twice.after(TransportNews::Reopened);
            let (again, _) = fresh.after(TransportNews::Disconnected);
            &&& lost == (SupervisorAction::ReopenAfter { wait_ms: backoff.current })
            &&& first == (SupervisorAction::ReopenAfter { wait_ms: backoff.current })
            &&& second matches SupervisorAction::ReopenAfter { wait_ms } && wait_ms == (if 2
                * backoff.current <= backoff.max {
                2 * backoff.current
            } else {
                backoff.max as int
            })
            &&& served == SupervisorAction::Serve
            &&& again == (SupervisorAction::ReopenAfter { wait_ms: backoff.initial })
            &&& backoff.after(TransportNews::Shutdown).0 == SupervisorAction::Stop
        }),
{
}

} // verus!
