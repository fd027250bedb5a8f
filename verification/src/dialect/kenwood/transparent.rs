//! The transparent mirror dialect for native TS-590 controllers (notably ARCP-590).
//!
//! Unlike [`Ts590Dialect`](super::ts590::Ts590Dialect), which virtualizes the radio behind a
//! modeled cache, a transparent session behaves as if it were wired directly to the rig: every
//! request except PTT and auto-information is forwarded to the radio verbatim, and the
//! radio's entire CAT stream is relayed back verbatim. The rig runs in AI2, so it echoes
//! every change any client makes through the hub, which is exactly what keeps a transparent
//! controller perfectly in sync.
//!
//! The hub still owns the single physical port, so a few things stay hub-mediated:
//!   * PTT (`TX`/`RX`) routes through the shared lease so a mirror client can never key the
//!     transmitter while another session owns it.
//!   * Auto-information (`AI`) is virtualized per session; the radio itself stays in AI2.
//!   * Identity/keepalive reads (`ID`/`PS`) are answered locally so a mirror client's steady
//!     heartbeat never generates radio traffic.

use vstd::prelude::*;

use crate::ascii::ascii;
use crate::ascii::ascii_bytes;
use crate::ascii::is_ascii_text;
use crate::dialect::err_reply;
use crate::dialect::error_reply;
use crate::dialect::kenwood::ai_frame;
use crate::dialect::kenwood::ai_status;
use crate::dialect::kenwood::forward;
use crate::dialect::kenwood::native_turn;
use crate::dialect::kenwood::ptt_turn;
use crate::dialect::kenwood::set_ptt;
use crate::dialect::kenwood::ts590::ai_after;
use crate::dialect::kenwood::ts590::resync_frames;
use crate::dialect::kenwood::ts590::snapshot_resync_frames;
use crate::dialect::kenwood::DialectStep;
use crate::dialect::kenwood::Turn;
use crate::dialect::ClientSessionContext;
use crate::kenwood::parts;
use crate::kenwood::split_frame;
use crate::model::StateChange;
use crate::radio::framer::byte_seqs;
use crate::state::Snapshot;

verus! {

/// The transparent TS-590 mirror dialect.
#[derive(Debug, Clone, Copy, PartialEq, Eq)]
pub struct TransparentTs590Dialect;

/// What the dialect does with a request.
pub open spec fn handled(request: Seq<u8>, ai: bool) -> Turn {
    match parts(request) {
        Some((verb, payload)) => {
            let read = payload.len() == 0;
            if verb == ascii("TX"@) {
                ptt_turn(true)
            } else if verb == ascii("RX"@) {
                ptt_turn(false)
            } else if verb == ascii("AI"@) {
                if read {
                    Turn::Reply(ai_status(ai))
                } else {
                    Turn::Reply(Seq::empty())
                }
            } else if verb == ascii("ID"@) && read {
                Turn::Reply(ascii("ID021;"@))
            } else if verb == ascii("PS"@) && read {
                Turn::Reply(ascii("PS1;"@))
            } else {
                native_turn(request, read)
            }
        },
        None => Turn::Reply(error_reply()),
    }
}

impl TransparentTs590Dialect {
    /// Create the dialect.
    #[must_use]
    pub fn new() -> (r: Self) {
        TransparentTs590Dialect
    }

    /// Handle one inbound request frame.
    pub fn handle(&self, request: &[u8], ctx: &mut ClientSessionContext) -> (r: DialectStep)
        ensures
            r@ == handled(request@, old(ctx).ai),
            *final(ctx) == (ClientSessionContext {
                ai: ai_after(request@, old(ctx).ai),
                ..*old(ctx)
            }),
    {
        let (verb, payload) = match split_frame(request) {
            Some(split) => split,
            None => return DialectStep::Reply(err_reply()),
        };
        let read: bool = payload.len() == 0;
        let is_ai: bool = is_ascii_text(verb, "AI");
        let ai: bool = ctx.ai;
        if is_ai && !read {
            ctx.set_ai(payload[0] != 0x30);
        }
        if is_ascii_text(verb, "TX") {
            set_ptt(true)
        } else if is_ascii_text(verb, "RX") {
            set_ptt(false)
        } else if is_ai {
            if read {
                DialectStep::Reply(ai_frame(ai))
            } else {
                DialectStep::Reply(Vec::new())
            }
        } else if read && is_ascii_text(verb, "ID") {
            DialectStep::Reply(ascii_bytes("ID021;"))
        } else if read && is_ascii_text(verb, "PS") {
            DialectStep::Reply(ascii_bytes("PS1;"))
        } else {
            forward(request, read)
        }
    }

    /// A transparent session never consumes a synthesized notification: it is driven entirely
    /// by the radio's verbatim CAT stream.
    #[must_use]
    pub fn format_notification(&self, _change: &StateChange) -> (r: Option<Vec<u8>>)
        ensures
            r is None,
    {
        None
    }

    /// Relay a frame of the radio verbatim while auto-information is on, modeled or not.
    #[must_use]
    pub fn format_passthrough(&self, raw: &[u8], ctx: &ClientSessionContext) -> (r: Option<Vec<u8>>)
        ensures
            match r {
                Some(bytes) => ctx.ai && bytes@ == raw@,
                None => !ctx.ai,
            },
    {
        if ctx.ai_on() {
            Some(vstd::slice::slice_to_vec(raw))
        } else {
            None
        }
    }

    /// Relay a modeled frame of the radio verbatim while auto-information is on.
    #[must_use]
    pub fn format_native_passthrough(
        &self,
        raw: &[u8],
        ctx: &ClientSessionContext,
    ) -> (r: Option<Vec<u8>>)
        ensures
            match r {
                Some(bytes) => ctx.ai && bytes@ == raw@,
                None => !ctx.ai,
            },
    {
        self.format_passthrough(raw, ctx)
    }

    /// Re-present the current radio state as a full set of raw frames to a session that lost
    /// events.
    #[must_use]
    pub fn resync(&self, snapshot: &Snapshot, ctx: &ClientSessionContext) -> (r: Vec<Vec<u8>>)
        ensures
            byte_seqs(r@) == if ctx.ai {
                resync_frames(*snapshot)
            } else {
                Seq::empty()
            },
    {
        if ctx.ai_on() {
            snapshot_resync_frames(snapshot)
        } else {
            let frames: Vec<Vec<u8>> = Vec::new();
            proof {
                assert(byte_seqs(frames@) =~= Seq::empty());
            }
            frames
        }
    }
}

/// PTT is never forwarded as a raw command: keying always goes through the lease.
pub proof fn law_ptt_is_never_raw(request: Seq<u8>, verb: Seq<u8>, payload: Seq<u8>, ai: bool)
    requires
        parts(request) == Some((verb, payload)),
        verb == ascii("TX"@) || verb == ascii("RX"@),
    ensures
        handled(request, ai) is Apply,
{
}

/// What is forwarded is forwarded verbatim.
pub proof fn law_forwards_verbatim(request: Seq<u8>, ai: bool)
    ensures
        handled(request, ai) matches Turn::Passthrough { raw, .. } ==> raw == request,
{
}

} // verus!
