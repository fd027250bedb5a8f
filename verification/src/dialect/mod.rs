//! Client dialects and the per-session execution context.
//!
//! A dialect translates one client's CAT vocabulary to and from the neutral state, serving
//! reads from the cache and routing writes through [`ClientSessionContext`]. The context
//! carries the session's identity, inherited endpoint permissions and its own virtualized
//! auto-information flag, so every write participates in serialization, permission checks,
//! the single-owner PTT lease, and event fan-out.

use vstd::prelude::*;

pub mod client;
pub mod kenwood;

use crate::ascii::ascii;
use crate::ascii::ascii_bytes;
use crate::backend::BackendCapabilities;
use crate::error::BackendError;
use crate::model::PttSource;
use crate::model::StateMutation;
use crate::permissions::CommandClass;
use crate::permissions::EndpointPermissions;
use crate::ptt::PttDenied;
use crate::ptt::PttLease;
use crate::ptt::PttManager;
use crate::radio::scheduler::Priority;
use crate::state::RadioState;
use crate::state::StateHandle;

verus! {

/// The result of applying a modeled write.
#[derive(Debug, Clone, Copy, PartialEq, Eq, Structural)]
pub enum ApplyOutcome {
    /// The write was accepted and dispatched.
    Applied,
    /// The client session lacks permission for this command class.
    Denied,
    /// PTT is held by another client session.
    Busy,
    /// The backend failed to apply the write.
    Error,
    /// The backend does not support this operation.
    Unsupported,
}

/// What a modeled write does next.
#[derive(Debug, Clone, Copy, PartialEq, Eq, Structural)]
pub enum ApplyStep {
    /// The write is over without touching the radio.
    Done(ApplyOutcome),
    /// The write goes to the radio at this priority.
    Submit(Priority),
}

/// What a raw native command does next.
#[derive(Debug, Clone, Copy, PartialEq, Eq, Structural)]
pub enum PassthroughStep {
    /// The command is refused with the error reply.
    Refused,
    /// The command goes to the radio at this priority.
    Submit(Priority),
}

/// The Kenwood error reply, used when a modeled write or passthrough is refused.
pub open spec fn error_reply() -> Seq<u8> {
    ascii("?;"@)
}

/// The Kenwood error reply.
#[must_use]
pub fn err_reply() -> (r: Vec<u8>)
    ensures
        r@ == error_reply(),
{
    ascii_bytes("?;")
}

/// Whether a mutation of this class keys the transmitter.
pub open spec fn keys(mutation: StateMutation, class: CommandClass) -> bool {
    class == CommandClass::PttWrite && mutation matches StateMutation::SetPtt { keyed: true, .. }
}

/// Whether a mutation of this class unkeys the transmitter.
pub open spec fn unkeys(mutation: StateMutation, class: CommandClass) -> bool {
    class == CommandClass::PttWrite && mutation matches StateMutation::SetPtt { keyed: false, .. }
}

/// What a modeled write does next, and the lease after it: permissions are looked at first,
/// then whether the radio already holds the value, then the lease.
pub open spec fn apply_begun(
    session_id: u64,
    perms: EndpointPermissions,
    mutation: StateMutation,
    class: CommandClass,
    state: RadioState,
    lease: PttLease,
    now_ms: u64,
) -> (ApplyStep, PttLease) {
    if !perms.permits_mutation(class, mutation) {
        (ApplyStep::Done(ApplyOutcome::Denied), lease)
    } else if state.redundant(mutation) {
        (ApplyStep::Done(ApplyOutcome::Applied), lease)
    } else if keys(mutation, class) {
        let (grant, later) = lease.keyed(session_id, perms.ptt, now_ms);
        match grant {
            Ok(()) => (ApplyStep::Submit(Priority::Ptt), later),
            Err(PttDenied::Busy) => (ApplyStep::Done(ApplyOutcome::Busy), later),
            Err(PttDenied::NotPermitted) => (ApplyStep::Done(ApplyOutcome::Denied), later),
        }
    } else if class == CommandClass::PttWrite {
        (ApplyStep::Submit(Priority::Ptt), lease)
    } else {
        (ApplyStep::Submit(Priority::Write), lease)
    }
}

/// The outcome that a result of the radio means.
pub open spec fn outcome_of(result: Result<Vec<u8>, BackendError>) -> ApplyOutcome {
    match result {
        Ok(_) => ApplyOutcome::Applied,
        Err(BackendError::Unsupported) => ApplyOutcome::Unsupported,
        Err(_) => ApplyOutcome::Error,
    }
}

/// The outcome of a modeled write that went to the radio, and the lease after it. A key
/// request that failed gives the lease back, and so does every request to unkey.
pub open spec fn apply_finished(
    session_id: u64,
    mutation: StateMutation,
    class: CommandClass,
    result: Result<Vec<u8>, BackendError>,
    lease: PttLease,
) -> (ApplyOutcome, PttLease) {
    if keys(mutation, class) {
        if result is Ok {
            (ApplyOutcome::Applied, lease)
        } else {
            (ApplyOutcome::Error, lease.unkeyed(session_id))
        }
    } else if unkeys(mutation, class) {
        (outcome_of(result), lease.unkeyed(session_id))
    } else {
        (outcome_of(result), lease)
    }
}

fn map_outcome(result: &Result<Vec<u8>, BackendError>) -> (r: ApplyOutcome)
    ensures
        r == outcome_of(*result),
{
    match result {
        Ok(_) => ApplyOutcome::Applied,
        Err(BackendError::Unsupported) => ApplyOutcome::Unsupported,
        Err(_) => ApplyOutcome::Error,
    }
}

/// The mutation that unkeys the transmitter.
pub open spec fn unkey_mutation() -> StateMutation {
    StateMutation::SetPtt { keyed: false, source: PttSource::Generic }
}

/// The release of the transmitter in the place of a session that does not let go of it. The
/// write goes to the radio first, ahead of everything else, and the lease is held meanwhile;
/// it goes with [`finish`](Release::finish), which takes the answer to the write.
#[derive(Debug, PartialEq, Eq)]
pub struct Release {
    /// The session that holds the lease.
    pub session_id: u64,
    /// How urgent the write is.
    pub priority: Priority,
    /// The write that unkeys the radio.
    pub mutation: StateMutation,
}

/// The release of the transmitter in the place of a session.
pub open spec fn release_of(session_id: u64) -> Release {
    Release { session_id, priority: Priority::Ptt, mutation: unkey_mutation() }
}

impl Release {
    /// The release of the transmitter in the place of a session.
    #[must_use]
    pub fn new(session_id: u64) -> (r: Self)
        ensures
            r == release_of(session_id),
    {
        Release {
            session_id,
            priority: Priority::Ptt,
            mutation: StateMutation::SetPtt { keyed: false, source: PttSource::Generic },
        }
    }

    /// Let the lease go, now that the write was answered or, where there is no answer, was
    /// given up. The lease goes whatever the answer is, and only if it is still the session's.
    pub fn finish(self, _answer: Option<Result<Vec<u8>, BackendError>>, ptt: &mut PttManager)
        ensures
            final(ptt)@ == old(ptt)@.unkeyed(self.session_id),
    {
        ptt.unkey(self.session_id);
    }
}

/// One client session's execution context: identity, permissions, capabilities, and its own
/// auto-information toggle.
#[derive(Debug)]
pub struct ClientSessionContext {
    /// The unique session id (used for PTT ownership and scheduler fairness).
    pub session_id: u64,
    /// Permissions inherited from this session's configured endpoint.
    pub perms: EndpointPermissions,
    /// The backend's advertised capabilities.
    pub caps: BackendCapabilities,
    /// This session's virtualized auto-information flag (never reaches the radio).
    pub ai: bool,
    /// When true, present the *operating* VFO as VFO A to this endpoint (operating-VFO
    /// virtualization). Set for single-VFO loggers such as N1MM SO1V; left false for true
    /// dual-VFO control endpoints such as ARCP-590.
    pub single_vfo: bool,
}

impl ClientSessionContext {
    /// Create a client session context.
    #[must_use]
    pub fn new(session_id: u64, perms: EndpointPermissions, caps: BackendCapabilities) -> (r: Self)
        ensures
            r == (ClientSessionContext { session_id, perms, caps, ai: false, single_vfo: false }),
    {
        ClientSessionContext { session_id, perms, caps, ai: false, single_vfo: false }
    }

    /// Enable operating-VFO virtualization for this session. When enabled, the client always
    /// sees the operating VFO presented as VFO A. Returns `self` for chaining.
    #[must_use]
    pub fn with_single_vfo(self, single_vfo: bool) -> (r: Self)
        ensures
            r == (ClientSessionContext { single_vfo, ..self }),
    {
        ClientSessionContext {
            session_id: self.session_id,
            perms: self.perms,
            caps: self.caps,
            ai: self.ai,
            single_vfo,
        }
    }

    /// Begin a modeled write, enforcing permissions, idempotent suppression and the PTT lease.
    pub fn apply_modeled(
        &self,
        mutation: StateMutation,
        class: CommandClass,
        state: &StateHandle,
        ptt: &mut PttManager,
        now_ms: u64,
    ) -> (r: ApplyStep)
        ensures
            (r, final(ptt)@) == apply_begun(
                self.session_id,
                self.perms,
                mutation,
                class,
                state@,
                old(ptt)@,
                now_ms,
            ),
    {
        if !self.perms.allows_mutation(class, &mutation) {
            return ApplyStep::Done(ApplyOutcome::Denied);
        }
        if state.is_redundant(&mutation) {
            return ApplyStep::Done(ApplyOutcome::Applied);
        }
        if class != CommandClass::PttWrite {
            return ApplyStep::Submit(Priority::Write);
        }
        match mutation {
            StateMutation::SetPtt { keyed: true, source: _ } => match ptt.try_key(
                self.session_id,
                self.perms.ptt,
                now_ms,
            ) {
                Err(PttDenied::Busy) => ApplyStep::Done(ApplyOutcome::Busy),
                Err(PttDenied::NotPermitted) => ApplyStep::Done(ApplyOutcome::Denied),
                Ok(()) => ApplyStep::Submit(Priority::Ptt),
            },
            _ => ApplyStep::Submit(Priority::Ptt),
        }
    }

    /// Finish a modeled write with the radio's result.
    pub fn finish_modeled(
        &self,
        mutation: StateMutation,
        class: CommandClass,
        result: &Result<Vec<u8>, BackendError>,
        ptt: &mut PttManager,
    ) -> (r: ApplyOutcome)
        ensures
            (r, final(ptt)@) == apply_finished(
                self.session_id,
                mutation,
                class,
                *result,
                old(ptt)@,
            ),
    {
        if class == CommandClass::PttWrite {
            match mutation {
                StateMutation::SetPtt { keyed: true, source: _ } => {
                    if result.is_ok() {
                        return ApplyOutcome::Applied;
                    }
                    // The key request never reached the radio: release the lease.
                    ptt.unkey(self.session_id);
                    return ApplyOutcome::Error;
                },
                StateMutation::SetPtt { keyed: false, source: _ } => {
                    ptt.unkey(self.session_id);
                },
                _ => {},
            }
        }
        map_outcome(result)
    }

    /// Begin a raw native command, enforcing permissions.
    #[must_use]
    pub fn passthrough(&self, class: CommandClass) -> (r: PassthroughStep)
        ensures
            r == if self.perms.permits(class) {
                PassthroughStep::Submit(Priority::Read)
            } else {
                PassthroughStep::Refused
            },
    {
        if self.perms.allows(class) {
            PassthroughStep::Submit(Priority::Read)
        } else {
            PassthroughStep::Refused
        }
    }

    /// The reply to a raw native command: the raw reply of the radio, or the error frame.
    #[must_use]
    pub fn finish_passthrough(result: Result<Vec<u8>, BackendError>) -> (r: Vec<u8>)
        ensures
            r@ == match result {
                Ok(bytes) => bytes@,
                Err(_) => error_reply(),
            },
    {
        match result {
            Ok(bytes) => bytes,
            Err(_) => err_reply(),
        }
    }

    /// Set this session's virtualized auto-information flag.
    pub fn set_ai(&mut self, on: bool)
        ensures
            *final(self) == (ClientSessionContext { ai: on, ..*old(self) }),
    {
        self.ai = on;
    }

    /// Whether this session has auto-information enabled.
    #[must_use]
    pub fn ai_on(&self) -> (r: bool)
        ensures
            r == self.ai,
    {
        self.ai
    }

    /// Whether this session uses operating-VFO virtualization (operating VFO presented as
    /// VFO A). True for single-VFO loggers (N1MM SO1V); false for dual-VFO endpoints.
    #[must_use]
    pub fn single_vfo(&self) -> (r: bool)
        ensures
            r == self.single_vfo,
    {
        self.single_vfo
    }

    /// A clone of this context for a new connection: same permissions and capabilities and
    /// the same VFO-presentation policy, but a distinct session id and a fresh (off)
    /// auto-information flag.
    #[must_use]
    pub fn clone_for_session(&self, session_id: u64) -> (r: ClientSessionContext)
        ensures
            r == (ClientSessionContext { session_id, ai: false, ..*self }),
    {
        ClientSessionContext {
            session_id,
            perms: self.perms,
            caps: self.caps.duplicate(),
            ai: false,
            single_vfo: self.single_vfo,
        }
    }

    /// What has to happen when this session's transport closes: if the session holds the PTT
    /// lease, the radio is unkeyed first, and then the lease goes.
    ///
    /// A client that keys the transmitter and then disconnects (crash, cable pull, app kill)
    /// would otherwise leave the radio keyed until the safety ceiling fires.
    #[must_use]
    pub fn release_ptt_on_disconnect(&self, ptt: &PttManager) -> (r: Option<Release>)
        ensures
            r == if ptt@.owner() == Some(self.session_id) {
                Some(release_of(self.session_id))
            } else {
                None::<Release>
            },
    {
        match ptt.owner() {
            Some(owner) if owner == self.session_id => Some(Release::new(owner)),
            _ => None,
        }
    }
}

/// A write that permissions refuse touches neither the radio nor the lease.
pub proof fn law_denied_writes_do_nothing(
    session_id: u64,
    perms: EndpointPermissions,
    mutation: StateMutation,
    class: CommandClass,
    state: RadioState,
    lease: PttLease,
    now_ms: u64,
)
    requires
        !perms.permits_mutation(class, mutation),
    ensures
        apply_begun(session_id, perms, mutation, class, state, lease, now_ms) == (
            ApplyStep::Done(ApplyOutcome::Denied),
            lease,
        ),
{
}

/// A value that the radio already holds is not sent again, and the client is told success.
pub proof fn law_redundant_writes_are_suppressed(
    session_id: u64,
    perms: EndpointPermissions,
    mutation: StateMutation,
    class: CommandClass,
    state: RadioState,
    lease: PttLease,
    now_ms: u64,
)
    requires
        perms.permits_mutation(class, mutation),
        state.redundant(mutation),
    ensures
        apply_begun(session_id, perms, mutation, class, state, lease, now_ms) == (
            ApplyStep::Done(ApplyOutcome::Applied),
            lease,
        ),
{
}

/// A session keys only while it holds the lease, a key request that the radio does not take
/// gives the lease back, and a request to unkey always does.
pub proof fn law_keying_follows_the_lease(
    session_id: u64,
    perms: EndpointPermissions,
    source: PttSource,
    state: RadioState,
    lease: PttLease,
    now_ms: u64,
    result: Result<Vec<u8>, BackendError>,
)
    ensures
        ({
            let key = StateMutation::SetPtt { keyed: true, source };
            let unkey = StateMutation::SetPtt { keyed: false, source };
            let class = CommandClass::PttWrite;
            let (step, held) = apply_begun(session_id, perms, key, class, state, lease, now_ms);
            &&& step is Submit ==> held.owner() == Some(session_id)
            &&& step is Submit ==> lease.owner() is None || lease.owner() == Some(session_id)
            &&& step is Submit && result is Err ==> apply_finished(
                session_id,
                key,
                class,
                result,
                held,
            ).1.owner() is None
            &&& apply_finished(session_id, unkey, class, result, lease).1.owner() != Some(
                session_id,
            )
        }),
{
}

/// A session that is gone never keeps the lease.
pub proof fn law_disconnect_frees_the_lease(session_id: u64, lease: PttLease)
    ensures
        lease.unkeyed(session_id).owner() != Some(session_id),
        lease.owner() != Some(session_id) ==> lease.unkeyed(session_id) == lease,
{
}

/// A write that is allowed and not redundant goes to the radio: keying and unkeying ahead of
/// everything else, other writes after them and ahead of reads. Keying takes the lease, is
/// refused as busy while another session holds it, and is denied without authority over the
/// transmitter.
pub proof fn law_write_priorities(
    session_id: u64,
    perms: EndpointPermissions,
    mutation: StateMutation,
    state: RadioState,
    lease: PttLease,
    now_ms: u64,
    source: PttSource,
)
    ensures
        ({
            let key = StateMutation::SetPtt { keyed: true, source };
            let unkey = StateMutation::SetPtt { keyed: false, source };
            let class = CommandClass::PttWrite;
            let (keying, held) = apply_begun(session_id, perms, key, class, state, lease, now_ms);
            let (unkeying, kept) = apply_begun(
                session_id,
                perms,
                unkey,
                class,
                state,
                lease,
                now_ms,
            );
            let (writing, left) = apply_begun(
                session_id,
                perms,
                mutation,
                CommandClass::ModeledWrite,
                state,
                lease,
                now_ms,
            );
            &&& perms.ptt ==> unkeying == ApplyStep::Submit(Priority::Ptt) && kept == lease
            &&& perms.ptt && (lease.owner() is None || lease.owner() == Some(session_id)) ==> keying
                == ApplyStep::Submit(Priority::Ptt) && held.owner() == Some(session_id)
            &&& perms.ptt && lease.owner() is Some && lease.owner() != Some(session_id) ==> keying
                == ApplyStep::Done(ApplyOutcome::Busy) && held == lease
            &&& !perms.ptt ==> keying == ApplyStep::Done(ApplyOutcome::Denied) && held == lease
            &&& !perms.ptt ==> unkeying == ApplyStep::Done(ApplyOutcome::Denied)
            &&& perms.write && !state.redundant(mutation) ==> writing == ApplyStep::Submit(
                Priority::Write,
            )
            &&& left == lease
            &&& Priority::Ptt.level() < Priority::Write.level() < Priority::Read.level()
                < Priority::Poll.level()
        }),
{
    crate::state::law_ptt_is_never_redundant(
        state,
        StateMutation::SetPtt { keyed: true, source },
    );
    crate::state::law_ptt_is_never_redundant(
        state,
        StateMutation::SetPtt { keyed: false, source },
    );
}

/// A write counts as applied exactly when the radio took it. What the radio cannot do is
/// unsupported, and every other failure is an error; a failed key request is always one.
pub proof fn law_outcomes(
    session_id: u64,
    mutation: StateMutation,
    class: CommandClass,
    result: Result<Vec<u8>, BackendError>,
    lease: PttLease,
)
    ensures
        ({
            let (outcome, later) = apply_finished(session_id, mutation, class, result, lease);
            &&& outcome == ApplyOutcome::Applied <==> result is Ok
            &&& outcome == ApplyOutcome::Unsupported ==> result == Err::<Vec<u8>, BackendError>(
                BackendError::Unsupported,
            )
            &&& outcome != ApplyOutcome::Denied && outcome != ApplyOutcome::Busy
            &&& !(mutation is SetPtt) ==> later == lease
            &&& !(mutation is SetPtt) && result == Err::<Vec<u8>, BackendError>(
                BackendError::Unsupported,
            ) ==> outcome == ApplyOutcome::Unsupported
            &&& class == CommandClass::PttWrite && mutation is SetPtt && mutation->SetPtt_keyed
                && result is Ok ==> later == lease
            &&& class == CommandClass::PttWrite && mutation is SetPtt && (
            !mutation->SetPtt_keyed || result is Err) ==> later.owner() != Some(session_id)
        }),
{
}

} // verus!
