//! The native Kenwood TS-590 client dialect (N1MM Logger+, ARCP-590, Log4OM-as-TS590).
//!
//! Modeled reads (`FA`/`FB`/`MD`/`IF`) are served from the universal state cache, so a
//! flurry of client polls never touches the radio. Modeled writes are applied for
//! serialization, permission checks, and the PTT lease. `AI` is virtualized per session. Any
//! unmodeled native command falls through to a permission-gated passthrough so genuine native
//! features still work on a certified rig.

use vstd::prelude::*;

use crate::ascii::ascii;
use crate::ascii::ascii_bytes;
use crate::ascii::is_ascii_text;
use crate::dialect::err_reply;
use crate::dialect::error_reply;
use crate::dialect::kenwood::ai_frame;
use crate::dialect::kenwood::ai_status;
use crate::dialect::kenwood::forward;
use crate::dialect::kenwood::freq_turn;
use crate::dialect::kenwood::mode_to_digit;
use crate::dialect::kenwood::mode_turn;
use crate::dialect::kenwood::native_turn;
use crate::dialect::kenwood::ptt_turn;
use crate::dialect::kenwood::set_freq;
use crate::dialect::kenwood::set_ptt;
use crate::dialect::kenwood::status_bytes;
use crate::dialect::kenwood::synth_if;
use crate::dialect::kenwood::DialectStep;
use crate::dialect::kenwood::Turn;
use crate::dialect::ClientSessionContext;
use crate::kenwood::byte_frame;
use crate::kenwood::number_frame;
use crate::kenwood::parts;
use crate::kenwood::push_byte_frame;
use crate::kenwood::push_number_frame;
use crate::kenwood::split_frame;
use crate::model::Mode;
use crate::model::StateChange;
use crate::model::StateMutation;
use crate::model::Vfo;
use crate::permissions::CommandClass;
use crate::radio::framer::byte_seqs;
use crate::state::Snapshot;

verus! {

/// The native TS-590 dialect.
#[derive(Debug, Clone, Copy, PartialEq, Eq)]
pub struct Ts590Dialect;

/// What the dialect does with a verb and a payload, for a session with the given
/// auto-information flag and VFO presentation.
pub open spec fn turn(
    request: Seq<u8>,
    verb: Seq<u8>,
    payload: Seq<u8>,
    snapshot: Snapshot,
    ai: bool,
    single_vfo: bool,
) -> Turn {
    let read = payload.len() == 0;
    let vfo_a = if single_vfo {
        snapshot.rx_vfo
    } else {
        Vfo::A
    };
    let vfo_b = if single_vfo {
        snapshot.rx_vfo
    } else {
        Vfo::B
    };
    if verb == ascii("FA"@) {
        if read {
            Turn::Reply(number_frame(ascii("FA"@), snapshot.of(vfo_a).freq_hz as nat))
        } else {
            freq_turn(vfo_a, payload)
        }
    } else if verb == ascii("FB"@) {
        if read {
            Turn::Reply(number_frame(ascii("FB"@), snapshot.of(vfo_b).freq_hz as nat))
        } else {
            freq_turn(vfo_b, payload)
        }
    } else if verb == ascii("FR"@) && single_vfo {
        if read {
            Turn::Reply(ascii("FR0;"@))
        } else {
            Turn::Reply(Seq::empty())
        }
    } else if verb == ascii("FT"@) && single_vfo {
        if read {
            Turn::Reply(ascii("FT0;"@))
        } else {
            Turn::Reply(Seq::empty())
        }
    } else if verb == ascii("MD"@) {
        if read {
            Turn::Reply(byte_frame("MD"@, snapshot.operating().mode.digit()))
        } else {
            mode_turn(snapshot.rx_vfo, payload[0])
        }
    } else if verb == ascii("TX"@) {
        ptt_turn(true)
    } else if verb == ascii("RX"@) {
        ptt_turn(false)
    } else if verb == ascii("AI"@) {
        if read {
            Turn::Reply(ai_status(ai))
        } else {
            Turn::Reply(Seq::empty())
        }
    } else if verb == ascii("ID"@) && read {
        Turn::Reply(ascii("ID021;"@))
    } else if verb == ascii("PS"@) && read {
        Turn::Reply(ascii("PS1;"@))
    } else if verb == ascii("IF"@) && read {
        Turn::Reply(status_bytes(snapshot, single_vfo))
    } else {
        native_turn(request, read)
    }
}

/// What the dialect does with a request.
pub open spec fn handled(request: Seq<u8>, snapshot: Snapshot, ai: bool, single_vfo: bool) -> Turn {
    match parts(request) {
        Some((verb, payload)) => turn(request, verb, payload, snapshot, ai, single_vfo),
        None => Turn::Reply(error_reply()),
    }
}

/// The auto-information flag after a request: only `AI` with a payload changes it.
pub open spec fn ai_after(request: Seq<u8>, ai: bool) -> bool {
    match parts(request) {
        Some((verb, payload)) => if verb == ascii("AI"@) && payload.len() > 0 {
            payload[0] != 0x30
        } else {
            ai
        },
        None => ai,
    }
}

/// The notification of a change to a session that knows both VFOs.
pub open spec fn dual_notification(change: StateChange, snapshot: Snapshot) -> Option<Seq<u8>> {
    match change {
        StateChange::Freq { vfo, hz } => {
            let frame = number_frame(
                ascii(
                    if vfo == Vfo::A {
                        "FA"@
                    } else {
                        "FB"@
                    },
                ),
                hz as nat,
            );
            if vfo == snapshot.rx_vfo {
                Some(frame + status_bytes(snapshot, false))
            } else {
                Some(frame)
            }
        },
        StateChange::Mode { vfo, mode } => if vfo == snapshot.rx_vfo {
            Some(byte_frame("MD"@, mode.digit()) + status_bytes(snapshot, false))
        } else {
            None
        },
        StateChange::RxVfo { vfo } => Some(status_bytes(snapshot, false)),
        _ => None,
    }
}

/// The notification of a change to a session that knows a single VFO: the operating VFO is
/// presented as VFO A, and what happens on the other one is not told.
pub open spec fn single_notification(change: StateChange, snapshot: Snapshot) -> Option<Seq<u8>> {
    match change {
        StateChange::Freq { vfo, hz } => if vfo == snapshot.rx_vfo {
            Some(number_frame(ascii("FA"@), hz as nat) + status_bytes(snapshot, true))
        } else {
            None
        },
        StateChange::Mode { vfo, mode } => if vfo == snapshot.rx_vfo {
            Some(byte_frame("MD"@, mode.digit()) + status_bytes(snapshot, true))
        } else {
            None
        },
        StateChange::RxVfo { vfo } => Some(
            number_frame(ascii("FA"@), snapshot.operating().freq_hz as nat) + byte_frame(
                "MD"@,
                snapshot.operating().mode.digit(),
            ) + status_bytes(snapshot, true),
        ),
        _ => None,
    }
}

/// The notification of a change.
pub open spec fn notification(
    change: StateChange,
    snapshot: Snapshot,
    ai: bool,
    single_vfo: bool,
) -> Option<Seq<u8>> {
    if !ai {
        None
    } else if single_vfo {
        single_notification(change, snapshot)
    } else {
        dual_notification(change, snapshot)
    }
}

/// The frames that show the whole state as the radio would: both frequencies, the operating
/// VFO's mode and the status.
pub open spec fn resync_frames(snapshot: Snapshot) -> Seq<Seq<u8>> {
    seq![
        number_frame(ascii("FA"@), snapshot.a.freq_hz as nat),
        number_frame(ascii("FB"@), snapshot.b.freq_hz as nat),
        byte_frame("MD"@, snapshot.operating().mode.digit()),
        status_bytes(snapshot, false),
    ]
}

/// The frames that show the whole state as the radio would.
#[must_use]
pub fn snapshot_resync_frames(snapshot: &Snapshot) -> (r: Vec<Vec<u8>>)
    ensures
        byte_seqs(r@) == resync_frames(*snapshot),
{
    let mut a: Vec<u8> = Vec::new();
    push_number_frame(&mut a, "FA", snapshot.a.freq_hz);
    let mut b: Vec<u8> = Vec::new();
    push_number_frame(&mut b, "FB", snapshot.b.freq_hz);
    let mut mode: Vec<u8> = Vec::new();
    push_byte_frame(&mut mode, "MD", mode_to_digit(snapshot.vfo(snapshot.rx_vfo).mode));
    let status = synth_if(snapshot, false);
    let mut frames: Vec<Vec<u8>> = Vec::new();
    proof {
        assert(a@ =~= number_frame(ascii("FA"@), snapshot.a.freq_hz as nat));
        assert(b@ =~= number_frame(ascii("FB"@), snapshot.b.freq_hz as nat));
        assert(mode@ =~= byte_frame("MD"@, snapshot.operating().mode.digit()));
    }
    frames.push(a);
    frames.push(b);
    frames.push(mode);
    frames.push(status);
    proof {
        assert(byte_seqs(frames@) =~= resync_frames(*snapshot));
    }
    frames
}

impl Ts590Dialect {
    /// Create the dialect.
    #[must_use]
    pub fn new() -> (r: Self) {
        Ts590Dialect
    }

    /// Handle one inbound request frame.
    pub fn handle(
        &self,
        request: &[u8],
        ctx: &mut ClientSessionContext,
        snapshot: &Snapshot,
    ) -> (r: DialectStep)
        ensures
            r@ == handled(request@, *snapshot, old(ctx).ai, old(ctx).single_vfo),
            *final(ctx) == (ClientSessionContext {
                ai: ai_after(request@, old(ctx).ai),
                ..*old(ctx)
            }),
    {
        let (verb, payload) = match split_frame(request) {
            Some(split) => split,
            None => return DialectStep::Reply(err_reply()),
        };
        let read: bool = payload.len() == 0;
        let single_vfo: bool = ctx.single_vfo;
        let is_ai: bool = is_ascii_text(verb, "AI");
        let ai: bool = ctx.ai;
        if is_ai && !read {
            ctx.set_ai(payload[0] != 0x30);
        }
        if is_ascii_text(verb, "FA") {
            let target = if single_vfo {
                snapshot.rx_vfo
            } else {
                Vfo::A
            };
            if read {
                freq_reply("FA", snapshot.vfo(target).freq_hz)
            } else {
                set_freq(target, payload)
            }
        } else if is_ascii_text(verb, "FB") {
            // For a single-VFO session the "other" VFO is hidden: FB mirrors the operating
            // VFO so no path exposes physical VFO B. Dual-VFO sessions address real B.
            let target = if single_vfo {
                snapshot.rx_vfo
            } else {
                Vfo::B
            };
            if read {
                freq_reply("FB", snapshot.vfo(target).freq_hz)
            } else {
                set_freq(target, payload)
            }
        } else if single_vfo && is_ascii_text(verb, "FR") {
            if read {
                DialectStep::Reply(ascii_bytes("FR0;"))
            } else {
                DialectStep::Reply(Vec::new())
            }
        } else if single_vfo && is_ascii_text(verb, "FT") {
            if read {
                DialectStep::Reply(ascii_bytes("FT0;"))
            } else {
                DialectStep::Reply(Vec::new())
            }
        } else if is_ascii_text(verb, "MD") {
            if read {
                mode_reply(snapshot.vfo(snapshot.rx_vfo).mode)
            } else {
                DialectStep::Apply {
                    mutation: StateMutation::SetMode {
                        vfo: snapshot.rx_vfo,
                        mode: Mode::from_kenwood_digit(payload[0]),
                    },
                    class: CommandClass::ModeledWrite,
                }
            }
        } else if is_ascii_text(verb, "TX") {
            set_ptt(true)
        } else if is_ascii_text(verb, "RX") {
            set_ptt(false)
        } else if is_ai {
            if read {
                DialectStep::Reply(ai_frame(ai))
            } else {
                DialectStep::Reply(Vec::new())
            }
        } else if read && is_ascii_text(verb, "ID") {
            DialectStep::Reply(ascii_bytes("ID021;"))
        } else if read && is_ascii_text(verb, "PS") {
            DialectStep::Reply(ascii_bytes("PS1;"))
        } else if read && is_ascii_text(verb, "IF") {
            DialectStep::Reply(synth_if(snapshot, single_vfo))
        } else {
            forward(request, read)
        }
    }

    /// Render a state change as an unsolicited notification for this endpoint, if it applies.
    #[must_use]
    pub fn format_notification(
        &self,
        change: &StateChange,
        ctx: &ClientSessionContext,
        snapshot: &Snapshot,
    ) -> (r: Option<Vec<u8>>)
        ensures
            match r {
                Some(bytes) => notification(*change, *snapshot, ctx.ai, ctx.single_vfo) == Some(
                    bytes@,
                ),
                None => notification(*change, *snapshot, ctx.ai, ctx.single_vfo) is None,
            },
    {
        if !ctx.ai_on() {
            return None;
        }
        if ctx.single_vfo() {
            return single_vfo_notification(change, snapshot);
        }
        let mut frame: Vec<u8> = Vec::new();
        match *change {
            StateChange::Freq { vfo, hz } => {
                push_number_frame(
                    &mut frame,
                    match vfo {
                        Vfo::A => "FA",
                        Vfo::B => "FB",
                    },
                    hz,
                );
                if vfo == snapshot.rx_vfo {
                    let mut status = synth_if(snapshot, false);
                    frame.append(&mut status);
                }
            },
            StateChange::Mode { vfo, mode } => {
                if vfo != snapshot.rx_vfo {
                    return None;
                }
                push_byte_frame(&mut frame, "MD", mode_to_digit(mode));
                let mut status = synth_if(snapshot, false);
                frame.append(&mut status);
            },
            StateChange::RxVfo { vfo: _ } => {
                frame = synth_if(snapshot, false);
            },
            _ => return None,
        }
        proof {
            assert(frame@ =~= dual_notification(*change, *snapshot)->Some_0);
        }
        Some(frame)
    }

    /// Render an unsolicited native frame the backend does not model, if it applies.
    ///
    /// A single-VFO session sees a curated, virtualized view: the radio's raw CAT stream is
    /// never relayed to it, since it can carry frames that would leak physical VFO B.
    #[must_use]
    pub fn format_passthrough(&self, raw: &[u8], ctx: &ClientSessionContext) -> (r: Option<Vec<u8>>)
        ensures
            match r {
                Some(bytes) => ctx.ai && !ctx.single_vfo && bytes@ == raw@,
                None => !ctx.ai || ctx.single_vfo,
            },
    {
        if ctx.single_vfo() || !ctx.ai_on() {
            None
        } else {
            Some(vstd::slice::slice_to_vec(raw))
        }
    }
}

pub(crate) fn freq_reply(verb: &str, hz: u64) -> (r: DialectStep)
    ensures
        r@ == Turn::Reply(number_frame(ascii(verb@), hz as nat)),
{
    let mut out: Vec<u8> = Vec::new();
    push_number_frame(&mut out, verb, hz);
    proof {
        assert(out@ =~= number_frame(ascii(verb@), hz as nat));
    }
    DialectStep::Reply(out)
}

pub(crate) fn mode_reply(mode: Mode) -> (r: DialectStep)
    ensures
        r@ == Turn::Reply(byte_frame("MD"@, mode.digit())),
{
    let mut out: Vec<u8> = Vec::new();
    push_byte_frame(&mut out, "MD", mode_to_digit(mode));
    proof {
        assert(out@ =~= byte_frame("MD"@, mode.digit()));
    }
    DialectStep::Reply(out)
}

/// Build the operating-VFO-virtualized notification: the operating VFO is always presented
/// as VFO A, inactive-VFO churn is suppressed, and an A/B switch re-presents the new
/// operating VFO as VFO A (FA+MD+IF) so a single-VFO logger seamlessly retunes.
#[must_use]
pub fn single_vfo_notification(change: &StateChange, snapshot: &Snapshot) -> (r: Option<Vec<u8>>)
    ensures
        match r {
            Some(bytes) => single_notification(*change, *snapshot) == Some(bytes@),
            None => single_notification(*change, *snapshot) is None,
        },
{
    let mut frame: Vec<u8> = Vec::new();
    match *change {
        StateChange::Freq { vfo, hz } => {
            if vfo != snapshot.rx_vfo {
                return None;
            }
            push_number_frame(&mut frame, "FA", hz);
        },
        StateChange::Mode { vfo, mode } => {
            if vfo != snapshot.rx_vfo {
                return None;
            }
            push_byte_frame(&mut frame, "MD", mode_to_digit(mode));
        },
        StateChange::RxVfo { vfo: _ } => {
            let view = snapshot.vfo(snapshot.rx_vfo);
            push_number_frame(&mut frame, "FA", view.freq_hz);
            push_byte_frame(&mut frame, "MD", mode_to_digit(view.mode));
        },
        _ => return None,
    }
    let mut status = synth_if(snapshot, true);
    frame.append(&mut status);
    proof {
        assert(frame@ =~= single_notification(*change, *snapshot)->Some_0);
    }
    Some(frame)
}

/// What a session that knows a single VFO is told does not depend on which physical VFO is
/// the operating one, but only on the operating VFO's state: neither the notifications nor the
/// replies to its requests do.
pub proof fn law_single_vfo_hides_the_physical_vfo(
    s: Snapshot,
    t: Snapshot,
    request: Seq<u8>,
    ai: bool,
)
    requires
        s.operating() == t.operating(),
        s.ptt == t.ptt,
    ensures
        status_bytes(s, true) == status_bytes(t, true),
        single_notification(StateChange::RxVfo { vfo: s.rx_vfo }, s) == single_notification(
            StateChange::RxVfo { vfo: t.rx_vfo },
            t,
        ),
        forall|hz: u64|
            single_notification(StateChange::Freq { vfo: s.rx_vfo, hz }, s)
                == #[trigger] single_notification(StateChange::Freq { vfo: t.rx_vfo, hz }, t),
        forall|mode: Mode|
            single_notification(StateChange::Mode { vfo: s.rx_vfo, mode }, s)
                == #[trigger] single_notification(StateChange::Mode { vfo: t.rx_vfo, mode }, t),
        handled(request, s, ai, true) is Reply ==> handled(request, t, ai, true) == handled(
            request,
            s,
            ai,
            true,
        ),
{
}

/// A session that knows a single VFO can neither see nor select another one: `FR` and `FT`
/// answer VFO A, and an attempt to select a VFO is swallowed.
pub proof fn law_single_vfo_never_selects(
    request: Seq<u8>,
    verb: Seq<u8>,
    payload: Seq<u8>,
    snapshot: Snapshot,
    ai: bool,
)
    requires
        parts(request) == Some((verb, payload)),
        verb == ascii("FR"@) || verb == ascii("FT"@),
    ensures
        handled(request, snapshot, ai, true) == Turn::Reply(
            if payload.len() > 0 {
                Seq::empty()
            } else if verb == ascii("FR"@) {
                ascii("FR0;"@)
            } else {
                ascii("FT0;"@)
            },
        ),
{
    reveal_strlit("FA");
    reveal_strlit("FB");
    reveal_strlit("FR");
    reveal_strlit("FT");
    assert(verb[1] != ascii("FA"@)[1]);
    assert(verb[1] != ascii("FB"@)[1]);
}

/// Nothing is notified to a session that has auto-information off.
pub proof fn law_no_notification_without_ai(
    change: StateChange,
    snapshot: Snapshot,
    single_vfo: bool,
)
    ensures
        notification(change, snapshot, false, single_vfo) is None,
{
}

/// A read never changes the auto-information flag.
pub proof fn law_reads_keep_ai(request: Seq<u8>, ai: bool)
    requires
        crate::backend::kenwood::ts590::query(request),
    ensures
        ai_after(request, ai) == ai,
{
}

} // verus!
