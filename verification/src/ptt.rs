//! PTT ownership and arbitration: a single-owner lease with a maximum-transmit safety
//! ceiling. Contention is made safe rather than supporting simultaneous transmit.
//!
//! Instants are readings of one clock in milliseconds.

use vstd::prelude::*;

verus! {

/// Why a PTT key request was refused.
#[derive(Debug, Clone, Copy, PartialEq, Eq, Structural)]
pub enum PttDenied {
    /// Another session currently holds the lease.
    Busy,
    /// The session lacks the `ptt` capability.
    NotPermitted,
}

/// The lease on the transmitter.
pub struct PttLease {
    /// The session that holds the lease, and the instant at which it last keyed.
    pub held: Option<(u64, u64)>,
    /// Longest transmission in milliseconds.
    pub max_tx_ms: u64,
}

impl PttLease {
    /// The session that holds the lease.
    pub open spec fn owner(self) -> Option<u64> {
        match self.held {
            Some((owner, _)) => Some(owner),
            None => None,
        }
    }

    /// What a key request does.
    pub open spec fn keyed(self, session: u64, has_ptt: bool, now_ms: u64) -> (
        Result<(), PttDenied>,
        PttLease,
    ) {
        if !has_ptt {
            (Err(PttDenied::NotPermitted), self)
        } else if self.owner() is Some && self.owner() != Some(session) {
            (Err(PttDenied::Busy), self)
        } else {
            (Ok(()), PttLease { held: Some((session, now_ms)), ..self })
        }
    }

    /// What letting go of the key does.
    pub open spec fn unkeyed(self, session: u64) -> PttLease {
        if self.owner() == Some(session) {
            PttLease { held: None, ..self }
        } else {
            self
        }
    }

    /// The holder of the lease once its transmission has lasted the longest time.
    pub open spec fn overdue(self, now_ms: u64) -> Option<u64> {
        match self.held {
            Some((owner, since)) => {
                let elapsed = if now_ms >= since {
                    now_ms - since
                } else {
                    0
                };
                if elapsed >= self.max_tx_ms {
                    Some(owner)
                } else {
                    None
                }
            },
            None => None,
        }
    }
}

/// Arbitrates the single physical transmitter across PTT-capable sessions.
#[derive(Debug, Clone, Copy, PartialEq, Eq)]
pub struct PttManager {
    held: Option<(u64, u64)>,
    max_tx_ms: u64,
}

impl View for PttManager {
    type V = PttLease;

    closed spec fn view(&self) -> PttLease {
        PttLease { held: self.held, max_tx_ms: self.max_tx_ms }
    }
}

impl PttManager {
    /// Create a manager with the given maximum-transmit safety ceiling.
    #[must_use]
    pub fn new(max_tx_ms: u64) -> (r: Self)
        ensures
            r@ == (PttLease { held: None, max_tx_ms }),
    {
        PttManager { held: None, max_tx_ms }
    }

    /// Attempt to acquire (or re-assert) the lease for `session`.
    ///
    /// The first capable session to key acquires the lease; while it is held, other sessions
    /// are refused. `has_ptt` reflects the session's `ptt` capability.
    ///
    /// # Errors
    ///
    /// Returns an error when the session lacks the capability or another one holds the lease.
    pub fn try_key(&mut self, session: u64, has_ptt: bool, now_ms: u64) -> (r: Result<
        (),
        PttDenied,
    >)
        ensures
            (r, final(self)@) == old(self)@.keyed(session, has_ptt, now_ms),
    {
        if !has_ptt {
            return Err(PttDenied::NotPermitted);
        }
        if let Some((owner, _)) = self.held {
            if owner != session {
                return Err(PttDenied::Busy);
            }
        }
        self.held = Some((session, now_ms));
        Ok(())
    }

    /// Release the lease if `session` owns it.
    pub fn unkey(&mut self, session: u64)
        ensures
            final(self)@ == old(self)@.unkeyed(session),
    {
        if let Some((owner, _)) = self.held {
            if owner == session {
                self.held = None;
            }
        }
    }

    /// The current PTT owner, if any.
    #[must_use]
    pub fn owner(&self) -> (r: Option<u64>)
        ensures
            r == self@.owner(),
    {
        match self.held {
            Some((owner, _)) => Some(owner),
            None => None,
        }
    }

    /// The current owner iff the maximum-transmit ceiling has elapsed, **without** releasing
    /// the lease.
    ///
    /// The lease is intentionally held until the caller has actually unkeyed the radio (send
    /// `RX;` first, then [`unkey`](Self::unkey)). Releasing here would open a window in which
    /// another session could acquire PTT and then be unkeyed by the caller's delayed `RX;`.
    /// This is a hard transmit-length ceiling, not a CAT-idle timer: a keyed-but-silent
    /// client (WSJT-X mid-over) is not reported until the ceiling.
    #[must_use]
    pub fn expired_owner(&self, now_ms: u64) -> (r: Option<u64>)
        ensures
            r == self@.overdue(now_ms),
    {
        match self.held {
            Some((owner, since)) => if now_ms.saturating_sub(since) >= self.max_tx_ms {
                Some(owner)
            } else {
                None
            },
            None => None,
        }
    }
}

/// At most one session holds the lease: while it is held, no other session gets it, and only
/// its holder lets it go.
pub proof fn law_single_owner(lease: PttLease, owner: u64, other: u64, has_ptt: bool, now_ms: u64)
    requires
        lease.owner() == Some(owner),
        other != owner,
    ensures
        lease.keyed(other, has_ptt, now_ms).0 is Err,
        lease.keyed(other, has_ptt, now_ms).1 == lease,
        lease.unkeyed(other) == lease,
        lease.unkeyed(owner).owner() is None,
{
}

/// A free transmitter goes to the first capable session, which can assert it again.
pub proof fn law_lease_is_taken(lease: PttLease, session: u64, now_ms: u64, later_ms: u64)
    requires
        lease.owner() is None,
    ensures
        ({
            let (first, taken) = lease.keyed(session, true, now_ms);
            &&& first is Ok
            &&& taken.owner() == Some(session)
            &&& taken.keyed(session, true, later_ms).0 is Ok
            &&& taken.unkeyed(session).owner() is None
        }),
{
}

/// The safety ceiling reports the holder from the ceiling on, and never before it.
pub proof fn law_ceiling(lease: PttLease, session: u64, keyed_ms: u64, now_ms: u64)
    requires
        lease.owner() is None || lease.owner() == Some(session),
        keyed_ms <= now_ms,
    ensures
        lease.keyed(session, true, keyed_ms).1.overdue(now_ms) == if now_ms - keyed_ms
            >= lease.max_tx_ms {
            Some(session)
        } else {
            None::<u64>
        },
{
}

/// A session without authority over the transmitter is refused for that reason, one with
/// authority only while another session holds the lease. Keying again starts the time anew, a
/// clock that runs backwards is no time spent, and a lease that nobody holds never runs out.
pub proof fn law_refusals_and_time(
    lease: PttLease,
    session: u64,
    other: u64,
    first_ms: u64,
    again_ms: u64,
    now_ms: u64,
)
    requires
        session != other,
        lease.max_tx_ms > 0,
        lease.owner() is None,
    ensures
        lease.keyed(session, false, first_ms) == (
            Err::<(), PttDenied>(PttDenied::NotPermitted),
            lease,
        ),
        lease.overdue(now_ms) is None,
        ({
            let (_, held) = lease.keyed(session, true, first_ms);
            let (_, anew) = held.keyed(session, true, again_ms);
            &&& held.keyed(other, true, now_ms).0 == Err::<(), PttDenied>(PttDenied::Busy)
            &&& held.keyed(other, false, now_ms).0 == Err::<(), PttDenied>(PttDenied::NotPermitted)
            &&& now_ms < first_ms ==> held.overdue(now_ms) is None
            &&& again_ms <= now_ms ==> (anew.overdue(now_ms) is Some <==> now_ms - again_ms
                >= lease.max_tx_ms)
            &&& held.unkeyed(session).keyed(other, true, now_ms).0 is Ok
            &&& held.max_tx_ms == lease.max_tx_ms
        }),
{
}

} // verus!
