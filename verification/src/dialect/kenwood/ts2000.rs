//! Foreign-dialect TS-2000 client dialect for OmniRig / HDSDR (and Log4OM via OmniRig).
//!
//! This is a universal-tier *translator*: it answers `IF;`, `FA;`, `FB;`, and `MD;` from
//! the universal state and **rejects Hamlib-style VFO-target writes** (`FR`/`FT`), which
//! were the source of the TS-590 VFO A/B oscillation. It carries no native passthrough.

use vstd::prelude::*;

use crate::ascii::ascii;
use crate::ascii::ascii_bytes;
use crate::ascii::is_ascii_text;
use crate::backend::kenwood::ts590::digit_of_vfo;
use crate::backend::kenwood::ts590::vfo_digit;
use crate::dialect::err_reply;
use crate::dialect::error_reply;
use crate::dialect::kenwood::ai_frame;
use crate::dialect::kenwood::ai_status;
use crate::dialect::kenwood::freq_turn;
use crate::dialect::kenwood::mode_to_digit;
use crate::dialect::kenwood::mode_turn;
use crate::dialect::kenwood::set_freq;
use crate::dialect::kenwood::status_bytes;
use crate::dialect::kenwood::synth_if;
use crate::dialect::kenwood::ts590::ai_after;
use crate::dialect::kenwood::ts590::freq_reply;
use crate::dialect::kenwood::ts590::mode_reply;
use crate::dialect::kenwood::DialectStep;
use crate::dialect::kenwood::Turn;
use crate::dialect::ClientSessionContext;
use crate::kenwood::byte_frame;
use crate::kenwood::number_frame;
use crate::kenwood::parts;
use crate::kenwood::push_byte_frame;
use crate::kenwood::push_number_frame;
use crate::kenwood::split_frame;
use crate::model::Mode;
use crate::model::StateChange;
use crate::model::StateMutation;
use crate::model::Vfo;
use crate::permissions::CommandClass;
use crate::state::Snapshot;

verus! {

/// The TS-2000 translator dialect.
#[derive(Debug, Clone, Copy, PartialEq, Eq)]
pub struct Ts2000Dialect;

/// What the dialect does with a verb and a payload.
pub open spec fn turn(verb: Seq<u8>, payload: Seq<u8>, snapshot: Snapshot, ai: bool) -> Turn {
    let read = payload.len() == 0;
    if verb == ascii("IF"@) && read {
        Turn::Reply(status_bytes(snapshot, false))
    } else if verb == ascii("FA"@) {
        if read {
            Turn::Reply(number_frame(ascii("FA"@), snapshot.operating().freq_hz as nat))
        } else {
            freq_turn(snapshot.rx_vfo, payload)
        }
    } else if verb == ascii("FB"@) {
        if read {
            Turn::Reply(number_frame(ascii("FB"@), snapshot.b.freq_hz as nat))
        } else {
            freq_turn(Vfo::B, payload)
        }
    } else if verb == ascii("MD"@) {
        if read {
            Turn::Reply(byte_frame("MD"@, snapshot.operating().mode.digit()))
        } else {
            mode_turn(snapshot.rx_vfo, payload[0])
        }
    } else if verb == ascii("FR"@) && read {
        Turn::Reply(byte_frame("FR"@, digit_of_vfo(snapshot.rx_vfo)))
    } else if verb == ascii("FT"@) && read {
        Turn::Reply(
            byte_frame(
                "FT"@,
                digit_of_vfo(
                    if snapshot.split {
                        snapshot.tx_vfo
                    } else {
                        snapshot.rx_vfo
                    },
                ),
            ),
        )
    } else if verb == ascii("AI"@) {
        if read {
            Turn::Reply(ai_status(ai))
        } else {
            Turn::Reply(Seq::empty())
        }
    } else if verb == ascii("ID"@) && read {
        Turn::Reply(ascii("ID019;"@))
    } else if verb == ascii("PS"@) && read {
        Turn::Reply(ascii("PS1;"@))
    } else {
        Turn::Reply(error_reply())
    }
}

/// What the dialect does with a request.
pub open spec fn handled(request: Seq<u8>, snapshot: Snapshot, ai: bool) -> Turn {
    match parts(request) {
        Some((verb, payload)) => turn(verb, payload, snapshot, ai),
        None => Turn::Reply(error_reply()),
    }
}

/// The notification of a change. A switch of the receive VFO leads with the frequency and
/// the mode of the new one, since the foreign client retunes from `FA` and never from `IF`.
pub open spec fn notification(change: StateChange, snapshot: Snapshot, ai: bool) -> Option<
    Seq<u8>,
> {
    if !ai {
        None
    } else {
        match change {
            StateChange::Freq { vfo, hz } => if vfo == snapshot.rx_vfo {
                Some(number_frame(ascii("FA"@), hz as nat))
            } else if vfo == Vfo::B {
                Some(number_frame(ascii("FB"@), hz as nat))
            } else {
                None
            },
            StateChange::Mode { vfo, mode } => if vfo == snapshot.rx_vfo {
                Some(byte_frame("MD"@, mode.digit()))
            } else {
                None
            },
            StateChange::RxVfo { vfo } => Some(
                number_frame(ascii("FA"@), snapshot.operating().freq_hz as nat) + byte_frame(
                    "MD"@,
                    snapshot.operating().mode.digit(),
                ) + status_bytes(snapshot, false),
            ),
            _ => None,
        }
    }
}

impl Ts2000Dialect {
    /// Create the dialect.
    #[must_use]
    pub fn new() -> (r: Self) {
        Ts2000Dialect
    }

    /// Handle one inbound request frame.
    pub fn handle(
        &self,
        request: &[u8],
        ctx: &mut ClientSessionContext,
        snapshot: &Snapshot,
    ) -> (r: DialectStep)
        ensures
            r@ == handled(request@, *snapshot, old(ctx).ai),
            *final(ctx) == (ClientSessionContext {
                ai: ai_after(request@, old(ctx).ai),
                ..*old(ctx)
            }),
    {
        let (verb, payload) = match split_frame(request) {
            Some(split) => split,
            None => return DialectStep::Reply(err_reply()),
        };
        let read: bool = payload.len() == 0;
        let is_ai: bool = is_ascii_text(verb, "AI");
        let ai: bool = ctx.ai;
        if is_ai && !read {
            ctx.set_ai(payload[0] != 0x30);
        }
        if read && is_ascii_text(verb, "IF") {
            DialectStep::Reply(synth_if(snapshot, false))
        } else if is_ascii_text(verb, "FA") {
            if read {
                freq_reply("FA", snapshot.vfo(snapshot.rx_vfo).freq_hz)
            } else {
                // OmniRig/HDSDR uses FA writes for the displayed tune target. Preserve the
                // no-retargeting invariant by applying that tune to the active VFO.
                set_freq(snapshot.rx_vfo, payload)
            }
        } else if is_ascii_text(verb, "FB") {
            if read {
                freq_reply("FB", snapshot.b.freq_hz)
            } else {
                set_freq(Vfo::B, payload)
            }
        } else if is_ascii_text(verb, "MD") {
            if read {
                mode_reply(snapshot.vfo(snapshot.rx_vfo).mode)
            } else {
                DialectStep::Apply {
                    mutation: StateMutation::SetMode {
                        vfo: snapshot.rx_vfo,
                        mode: Mode::from_kenwood_digit(payload[0]),
                    },
                    class: CommandClass::ModeledWrite,
                }
            }
        } else if read && is_ascii_text(verb, "FR") {
            vfo_reply("FR", snapshot.rx_vfo)
        } else if read && is_ascii_text(verb, "FT") {
            vfo_reply(
                "FT",
                if snapshot.split {
                    snapshot.tx_vfo
                } else {
                    snapshot.rx_vfo
                },
            )
        } else if is_ai {
            if read {
                DialectStep::Reply(ai_frame(ai))
            } else {
                DialectStep::Reply(Vec::new())
            }
        } else if read && is_ascii_text(verb, "ID") {
            DialectStep::Reply(ascii_bytes("ID019;"))
        } else if read && is_ascii_text(verb, "PS") {
            DialectStep::Reply(ascii_bytes("PS1;"))
        } else {
            DialectStep::Reply(err_reply())
        }
    }

    /// Render a state change as an unsolicited notification for this endpoint, if it applies.
    #[must_use]
    pub fn format_notification(
        &self,
        change: &StateChange,
        ctx: &ClientSessionContext,
        snapshot: &Snapshot,
    ) -> (r: Option<Vec<u8>>)
        ensures
            match r {
                Some(bytes) => notification(*change, *snapshot, ctx.ai) == Some(bytes@),
                None => notification(*change, *snapshot, ctx.ai) is None,
            },
    {
        if !ctx.ai_on() {
            return None;
        }
        let mut frame: Vec<u8> = Vec::new();
        match *change {
            StateChange::Freq { vfo, hz } => {
                if vfo == snapshot.rx_vfo {
                    push_number_frame(&mut frame, "FA", hz);
                } else if vfo == Vfo::B {
                    push_number_frame(&mut frame, "FB", hz);
                } else {
                    return None;
                }
            },
            StateChange::Mode { vfo, mode } => {
                if vfo != snapshot.rx_vfo {
                    return None;
                }
                push_byte_frame(&mut frame, "MD", mode_to_digit(mode));
            },
            StateChange::RxVfo { vfo: _ } => {
                let active = snapshot.vfo(snapshot.rx_vfo);
                push_number_frame(&mut frame, "FA", active.freq_hz);
                push_byte_frame(&mut frame, "MD", mode_to_digit(active.mode));
                let mut status = synth_if(snapshot, false);
                frame.append(&mut status);
            },
            _ => return None,
        }
        proof {
            assert(frame@ =~= notification(*change, *snapshot, ctx.ai)->Some_0);
        }
        Some(frame)
    }
}

fn vfo_reply(verb: &str, vfo: Vfo) -> (r: DialectStep)
    ensures
        r@ == Turn::Reply(byte_frame(verb@, digit_of_vfo(vfo))),
{
    let mut out: Vec<u8> = Vec::new();
    push_byte_frame(&mut out, verb, vfo_digit(vfo));
    proof {
        assert(out@ =~= byte_frame(verb@, digit_of_vfo(vfo)));
    }
    DialectStep::Reply(out)
}

/// The translator never retargets a VFO and never forwards a raw command: all that it can
/// ask for is a frequency, on the receive VFO with `FA` and on VFO B with `FB`, or the mode of
/// the receive VFO with `MD`.
pub proof fn law_never_retargets(request: Seq<u8>, snapshot: Snapshot, ai: bool)
    ensures
        match handled(request, snapshot, ai) {
            Turn::Reply(_) => true,
            Turn::Apply { mutation, class } => {
                &&& class == CommandClass::ModeledWrite
                &&& parts(request) is Some
                &&& match mutation {
                    StateMutation::SetVfoFreq { vfo, hz } => {
                        ||| parts(request)->Some_0.0 == ascii("FA"@) && vfo == snapshot.rx_vfo
                        ||| parts(request)->Some_0.0 == ascii("FB"@) && vfo == Vfo::B
                    },
                    StateMutation::SetMode { vfo, mode } => parts(request)->Some_0.0 == ascii(
                        "MD"@,
                    ) && vfo == snapshot.rx_vfo,
                    _ => false,
                }
            },
            Turn::Passthrough { .. } => false,
        },
{
}

} // verus!
