//! One client session on a serial endpoint: delimited request frames go to the session's
//! dialect, and the notifications the session has subscribed to (auto-information) go out.

use vstd::prelude::*;

use crate::ascii::ascii;
use crate::backend::kenwood::ts590::query;
use crate::dialect::ApplyStep;
use crate::dialect::ClientSessionContext;
use crate::dialect::PassthroughStep;
use crate::dialect::apply_begun;
use crate::dialect::apply_finished;
use crate::dialect::client::ClientDialect;
use crate::dialect::client::bytes_of;
use crate::dialect::err_reply;
use crate::dialect::error_reply;
use crate::dialect::kenwood::DialectStep;
use crate::dialect::kenwood::Turn;
use crate::dialect::kenwood::reply;
use crate::dialect::kenwood::ts590::ai_after;
use crate::dialect::kenwood::write_reply;
use crate::error::BackendError;
use crate::model::StateMutation;
use crate::permissions::CommandClass;
use crate::permissions::EndpointPermissions;
use crate::ptt::PttLease;
use crate::ptt::PttManager;
use crate::radio::framer::Framer;
use crate::radio::framer::byte_seqs;
use crate::radio::framer::fed;
use crate::radio::scheduler::Priority;
use crate::state::RadioEvent;
use crate::state::RadioState;
use crate::state::Snapshot;
use crate::state::StateHandle;

verus! {

/// What a session does with one request.
#[derive(Debug, PartialEq, Eq)]
pub enum FaceStep {
    /// Write the reply (nothing where it is empty).
    Reply(Vec<u8>),
    /// Have the radio apply the write, then reply with [`SerialFace::finish_apply`].
    Apply {
        /// How urgent it is.
        priority: Priority,
        /// The write.
        mutation: StateMutation,
        /// Its class.
        class: CommandClass,
    },
    /// Have the radio run the raw command, then reply with
    /// [`ClientSessionContext::finish_passthrough`].
    Forward {
        /// How urgent it is.
        priority: Priority,
        /// The raw command.
        raw: Vec<u8>,
    },
}

/// What a session does with one request, as a value of the model.
pub enum FaceTurn {
    /// Write the reply.
    Reply(Seq<u8>),
    /// Have the radio apply the write.
    Apply {
        /// How urgent it is.
        priority: Priority,
        /// The write.
        mutation: StateMutation,
        /// Its class.
        class: CommandClass,
    },
    /// Have the radio run the raw command.
    Forward {
        /// How urgent it is.
        priority: Priority,
        /// The raw command.
        raw: Seq<u8>,
    },
}

impl View for FaceStep {
    type V = FaceTurn;

    open spec fn view(&self) -> FaceTurn {
        match *self {
            FaceStep::Reply(bytes) => FaceTurn::Reply(bytes@),
            FaceStep::Apply { priority, mutation, class } => FaceTurn::Apply {
                priority,
                mutation,
                class,
            },
            FaceStep::Forward { priority, raw } => FaceTurn::Forward { priority, raw: raw@ },
        }
    }
}

/// What a session does with what its dialect decided, and the lease after it.
pub open spec fn face_turn(
    ctx: ClientSessionContext,
    turn: Turn,
    state: RadioState,
    lease: PttLease,
    now_ms: u64,
) -> (FaceTurn, PttLease) {
    match turn {
        Turn::Reply(bytes) => (FaceTurn::Reply(bytes), lease),
        Turn::Apply { mutation, class } => {
            let (step, later) = apply_begun(
                ctx.session_id,
                ctx.perms,
                mutation,
                class,
                state,
                lease,
                now_ms,
            );
            match step {
                ApplyStep::Done(outcome) => (FaceTurn::Reply(write_reply(outcome)), later),
                ApplyStep::Submit(priority) => (
                    FaceTurn::Apply { priority, mutation, class },
                    later,
                ),
            }
        },
        Turn::Passthrough { raw, class } => if ctx.perms.permits(class) {
            (FaceTurn::Forward { priority: Priority::Read, raw }, lease)
        } else {
            (FaceTurn::Reply(error_reply()), lease)
        },
    }
}

/// One client session on a serial endpoint.
#[derive(Debug)]
pub struct SerialFace {
    /// The session's dialect.
    pub dialect: ClientDialect,
    /// The session's context.
    pub ctx: ClientSessionContext,
    /// The request frames that come in.
    pub requests: Framer,
}

impl SerialFace {
    /// A session whose request frames end with `delim`.
    #[must_use]
    pub fn new(dialect: ClientDialect, ctx: ClientSessionContext, delim: u8) -> (r: Self)
        ensures
            r.dialect == dialect,
            r.ctx == ctx,
            r.requests.wf(),
            r.requests.delim() == delim,
            r.requests.partial() == Seq::<u8>::empty(),
    {
        SerialFace { dialect, ctx, requests: Framer::with_delimiter(delim) }
    }

    /// Take bytes in; return the request frames that are complete now. A client that streams
    /// bytes without ever sending the delimiter does not grow the buffer without limit: the
    /// malformed partial frame is dropped.
    pub fn receive(&mut self, bytes: &[u8]) -> (r: Vec<Vec<u8>>)
        requires
            old(self).requests.wf(),
        ensures
            final(self).requests.wf(),
            final(self).requests.delim() == old(self).requests.delim(),
            final(self).dialect == old(self).dialect,
            final(self).ctx == old(self).ctx,
            (byte_seqs(r@), final(self).requests.partial()) == fed(
                old(self).requests.partial(),
                bytes@,
                old(self).requests.delim(),
            ),
    {
        self.requests.push(bytes)
    }

    /// Handle one request frame.
    pub fn handle(
        &mut self,
        request: &[u8],
        state: &StateHandle,
        ptt: &mut PttManager,
        now_ms: u64,
    ) -> (r: FaceStep)
        ensures
            (r@, final(ptt)@) == face_turn(
                old(self).ctx,
                old(self).dialect.turn(
                    request@,
                    state@.snapshot,
                    old(self).ctx.ai,
                    old(self).ctx.single_vfo,
                ),
                state@,
                old(ptt)@,
                now_ms,
            ),
            final(self).ctx == (ClientSessionContext {
                ai: ai_after(request@, old(self).ctx.ai),
                ..old(self).ctx
            }),
            final(self).dialect == old(self).dialect,
            final(self).requests == old(self).requests,
    {
        let snapshot = state.snapshot();
        match self.dialect.handle(request, &mut self.ctx, &snapshot) {
            DialectStep::Reply(bytes) => FaceStep::Reply(bytes),
            DialectStep::Apply { mutation, class } => match self.ctx.apply_modeled(
                mutation,
                class,
                state,
                ptt,
                now_ms,
            ) {
                ApplyStep::Done(outcome) => FaceStep::Reply(reply(outcome)),
                ApplyStep::Submit(priority) => FaceStep::Apply { priority, mutation, class },
            },
            DialectStep::Passthrough { raw, class } => match self.ctx.passthrough(class) {
                PassthroughStep::Refused => FaceStep::Reply(err_reply()),
                PassthroughStep::Submit(priority) => FaceStep::Forward { priority, raw },
            },
        }
    }

    /// The reply to a write that the radio has answered.
    pub fn finish_apply(
        &self,
        mutation: StateMutation,
        class: CommandClass,
        result: &Result<Vec<u8>, BackendError>,
        ptt: &mut PttManager,
    ) -> (r: Vec<u8>)
        ensures
            ({
                let (outcome, lease) = apply_finished(
                    self.ctx.session_id,
                    mutation,
                    class,
                    *result,
                    old(ptt)@,
                );
                &&& r@ == write_reply(outcome)
                &&& final(ptt)@ == lease
            }),
    {
        reply(self.ctx.finish_modeled(mutation, class, result, ptt))
    }

    /// What the session is told of an event.
    #[must_use]
    pub fn notify(&self, event: &RadioEvent, snapshot: &Snapshot) -> (r: Option<Vec<u8>>)
        ensures
            bytes_of(r) == self.dialect.told(*event, *snapshot, self.ctx.ai, self.ctx.single_vfo),
    {
        self.dialect.format_event(event, &self.ctx, snapshot)
    }

    /// What restores a session that fell behind and missed events. Skipping them would be
    /// unsafe: a one-shot change (a mode or VFO switch) would be lost forever, leaving the
    /// client rendering permanently stale state.
    #[must_use]
    pub fn resync(&self, snapshot: &Snapshot) -> (r: Vec<Vec<u8>>)
        ensures
            byte_seqs(r@) == self.dialect.resynced(*snapshot, self.ctx.ai, self.ctx.single_vfo),
    {
        self.dialect.resync(snapshot, &self.ctx)
    }
}

/// A read-only session only ever gets replies and queries: nothing that it sends is applied to
/// the radio or takes the lease, and what is forwarded is a query.
pub proof fn law_readers_change_nothing(
    ctx: ClientSessionContext,
    dialect: ClientDialect,
    request: Seq<u8>,
    state: RadioState,
    lease: PttLease,
    now_ms: u64,
)
    requires
        ctx.perms == EndpointPermissions::reader(),
    ensures
        ({
            let (turn, later) = face_turn(
                ctx,
                dialect.turn(request, state.snapshot, ctx.ai, ctx.single_vfo),
                state,
                lease,
                now_ms,
            );
            &&& later == lease
            &&& turn !is Apply
            &&& turn is Forward ==> query(request)
        }),
{
}

/// A session that may not send a native command is answered with the error frame; one that may
/// has it forwarded as it is, as a read. A write that ends without the radio is answered with
/// nothing where the radio already holds the value and with the error frame otherwise.
pub proof fn law_face_answers(
    ctx: ClientSessionContext,
    raw: Seq<u8>,
    class: CommandClass,
    mutation: StateMutation,
    state: RadioState,
    lease: PttLease,
    now_ms: u64,
    bytes: Seq<u8>,
)
    ensures
        face_turn(ctx, Turn::Passthrough { raw, class }, state, lease, now_ms) == (
            if ctx.perms.permits(class) {
                FaceTurn::Forward { priority: Priority::Read, raw }
            } else {
                FaceTurn::Reply(ascii("?;"@))
            },
            lease,
        ),
        face_turn(ctx, Turn::Reply(bytes), state, lease, now_ms) == (FaceTurn::Reply(bytes), lease),
        ({
            let (turn, later) = face_turn(
                ctx,
                Turn::Apply { mutation, class: CommandClass::ModeledWrite },
                state,
                lease,
                now_ms,
            );
            &&& later == lease
            &&& !ctx.perms.permits_mutation(CommandClass::ModeledWrite, mutation) ==> turn
                == FaceTurn::Reply(ascii("?;"@))
            &&& ctx.perms.permits_mutation(CommandClass::ModeledWrite, mutation) ==> turn == if
                state.redundant(mutation) {
                FaceTurn::Reply(Seq::empty())
            } else {
                FaceTurn::Apply {
                    priority: Priority::Write,
                    mutation,
                    class: CommandClass::ModeledWrite,
                }
            }
        }),
{
}

} // verus!
