//! Kenwood-family client dialects and shared wire helpers.
//!
//! [`Ts590Dialect`](ts590::Ts590Dialect) is the native pass-through dialect (N1MM, ARCP-590,
//! Log4OM-as-TS590). [`Ts2000Dialect`](ts2000::Ts2000Dialect) is the OmniRig/HDSDR translator.
//! [`TransparentTs590Dialect`](transparent::TransparentTs590Dialect) mirrors the radio.
//! They share the small frame helpers below.

use vstd::prelude::*;

pub mod requests;
pub mod transparent;
pub mod ts2000;
pub mod ts590;

use crate::ascii::ascii;
use crate::ascii::ascii_bytes;
use crate::ascii::number_in;
use crate::ascii::padded;
use crate::ascii::parse_number;
use crate::ascii::push_ascii;
use crate::ascii::push_padded;
use crate::backend::kenwood::ts590::digit_of_vfo;
use crate::backend::kenwood::ts590::if_status;
use crate::backend::kenwood::ts590::IfStatus;
use crate::dialect::err_reply;
use crate::dialect::error_reply;
use crate::dialect::ApplyOutcome;
use crate::kenwood::byte_frame;
use crate::kenwood::parts;
use crate::kenwood::push_byte_frame;
use crate::kenwood::split_frame;
use crate::kenwood::TERMINATOR;
use crate::model::Mode;
use crate::model::PttSource;
use crate::model::StateMutation;
use crate::model::Vfo;
use crate::permissions::CommandClass;
use crate::state::Snapshot;

verus! {

/// What a dialect does with one request.
#[derive(Debug, PartialEq, Eq)]
pub enum DialectStep {
    /// Answer at once (possibly with nothing).
    Reply(Vec<u8>),
    /// Apply a modeled write, then answer with [`reply`].
    Apply {
        /// The write.
        mutation: StateMutation,
        /// Its class.
        class: CommandClass,
    },
    /// Forward the raw command and answer with what the radio says.
    Passthrough {
        /// The raw command.
        raw: Vec<u8>,
        /// Its class.
        class: CommandClass,
    },
}

/// What a dialect does with one request, as a value of the model.
pub enum Turn {
    /// Answer at once.
    Reply(Seq<u8>),
    /// Apply a modeled write.
    Apply {
        /// The write.
        mutation: StateMutation,
        /// Its class.
        class: CommandClass,
    },
    /// Forward the raw command.
    Passthrough {
        /// The raw command.
        raw: Seq<u8>,
        /// Its class.
        class: CommandClass,
    },
}

impl View for DialectStep {
    type V = Turn;

    open spec fn view(&self) -> Turn {
        match *self {
            DialectStep::Reply(bytes) => Turn::Reply(bytes@),
            DialectStep::Apply { mutation, class } => Turn::Apply { mutation, class },
            DialectStep::Passthrough { raw, class } => Turn::Passthrough { raw: raw@, class },
        }
    }
}

/// Split a `;`-terminated command frame into its leading alphabetic verb and payload.
///
/// `FA00007050000;` becomes `FA` and `00007050000`; `TX;` becomes `TX` and nothing.
/// Returns `None` when there is no alphabetic verb.
#[must_use]
pub fn parse_command(frame: &[u8]) -> (r: Option<(Vec<u8>, Vec<u8>)>)
    ensures
        match r {
            Some((verb, payload)) => parts(frame@) == Some((verb@, payload@)),
            None => parts(frame@) is None,
        },
{
    match split_frame(frame) {
        Some((verb, payload)) => Some(
            (vstd::slice::slice_to_vec(verb), vstd::slice::slice_to_vec(payload)),
        ),
        None => None,
    }
}

/// The Kenwood `MD` mode digit (ASCII byte) for a mode.
#[must_use]
pub fn mode_to_digit(mode: Mode) -> (r: u8)
    ensures
        r == mode.digit(),
{
    mode.to_kenwood_digit()
}

/// The mode for a Kenwood `MD` mode digit (ASCII byte).
#[must_use]
pub fn mode_from_digit(digit: u8) -> (r: Mode)
    ensures
        r == Mode::of_digit(digit),
{
    Mode::from_kenwood_digit(digit)
}

/// The auto-information status frame.
pub open spec fn ai_status(on: bool) -> Seq<u8> {
    byte_frame(
        "AI"@,
        if on {
            0x32
        } else {
            0x30
        },
    )
}

/// Build a Kenwood `AI` auto-information status frame (`AI0;` or `AI2;`).
///
/// `AI;` is a *read* on Kenwood radios: a native client (ARCP-590, N1MM) queries the
/// current auto-information mode during connection and waits for a valid `AI<n>;` answer
/// before it proceeds. The reply must report the endpoint's current virtualized state without
/// changing it; only an `AI<n>;` *write* toggles auto-information.
#[must_use]
pub fn ai_frame(on: bool) -> (r: Vec<u8>)
    ensures
        r@ == ai_status(on),
{
    let mut out: Vec<u8> = Vec::new();
    push_byte_frame(
        &mut out,
        "AI",
        if on {
            0x32
        } else {
            0x30
        },
    );
    proof {
        assert(out@ =~= ai_status(on));
    }
    out
}

/// Build a Kenwood frequency frame: `verb` + 11 zero-padded digits + `;`.
#[must_use]
pub fn freq_frame(verb: &[u8], hz: u64) -> (r: Vec<u8>)
    ensures
        r@ == crate::kenwood::number_frame(verb@, hz as nat),
{
    let mut out = vstd::slice::slice_to_vec(verb);
    push_padded(&mut out, hz, 11);
    out.push(TERMINATOR);
    proof {
        assert(out@ =~= crate::kenwood::number_frame(verb@, hz as nat));
    }
    out
}

/// A flag as a digit.
pub open spec fn flag_digit(on: bool) -> u8 {
    if on {
        0x31
    } else {
        0x30
    }
}

/// The `IF` status frame. It reports the operating VFO; where the endpoint knows a single
/// VFO only, it is presented as VFO A without split.
pub open spec fn status_bytes(snapshot: Snapshot, single_vfo: bool) -> Seq<u8> {
    ascii("IF"@) + ascii(padded(snapshot.operating().freq_hz as nat, 11)) + ascii(
        "0000+0000000000"@,
    ) + seq![
        flag_digit(snapshot.ptt),
        snapshot.operating().mode.digit(),
        if single_vfo {
            0x30
        } else {
            digit_of_vfo(snapshot.rx_vfo)
        },
        0x30u8,
        flag_digit(!single_vfo && snapshot.split),
    ] + ascii("0000;"@)
}

/// Synthesize a Kenwood `IF;` status answer (38 bytes) from the universal state.
///
/// When `single_vfo` is true (operating-VFO virtualization) the operating VFO is always
/// presented as VFO A with no split, so a single-VFO logger (N1MM SO1V) never sees VFO B
/// in the P10 field and never warns about it.
#[must_use]
pub fn synth_if(snapshot: &Snapshot, single_vfo: bool) -> (r: Vec<u8>)
    ensures
        r@ == status_bytes(*snapshot, single_vfo),
{
    let view = snapshot.vfo(snapshot.rx_vfo);
    let mut out = ascii_bytes("IF");
    push_padded(&mut out, view.freq_hz, 11);
    push_ascii(&mut out, "0000+0000000000");
    out.push(flag(snapshot.ptt));
    out.push(mode_to_digit(view.mode));
    out.push(
        if single_vfo {
            0x30
        } else {
            crate::backend::kenwood::ts590::vfo_digit(snapshot.rx_vfo)
        },
    );
    out.push(0x30);
    out.push(flag(!single_vfo && snapshot.split));
    push_ascii(&mut out, "0000;");
    proof {
        assert(out@ =~= status_bytes(*snapshot, single_vfo));
    }
    out
}

fn flag(on: bool) -> (r: u8)
    ensures
        r == flag_digit(on),
{
    if on {
        0x31
    } else {
        0x30
    }
}

/// The reply to a modeled write: nothing when it was applied, the error frame otherwise.
pub open spec fn write_reply(outcome: ApplyOutcome) -> Seq<u8> {
    if outcome == ApplyOutcome::Applied {
        Seq::empty()
    } else {
        error_reply()
    }
}

/// The reply to a modeled write.
#[must_use]
pub fn reply(outcome: ApplyOutcome) -> (r: Vec<u8>)
    ensures
        r@ == write_reply(outcome),
{
    match outcome {
        ApplyOutcome::Applied => Vec::new(),
        _ => err_reply(),
    }
}

/// The write of a frequency, or the error frame where the payload is no number.
pub open spec fn freq_turn(vfo: Vfo, payload: Seq<u8>) -> Turn {
    match number_in(payload) {
        Some(hz) => Turn::Apply {
            mutation: StateMutation::SetVfoFreq { vfo, hz: hz as u64 },
            class: CommandClass::ModeledWrite,
        },
        None => Turn::Reply(error_reply()),
    }
}

pub(crate) fn set_freq(vfo: Vfo, payload: &[u8]) -> (r: DialectStep)
    ensures
        r@ == freq_turn(vfo, payload@),
{
    match parse_number(payload) {
        Some(hz) => DialectStep::Apply {
            mutation: StateMutation::SetVfoFreq { vfo, hz },
            class: CommandClass::ModeledWrite,
        },
        None => DialectStep::Reply(err_reply()),
    }
}

/// The write of the operating VFO's mode.
pub open spec fn mode_turn(vfo: Vfo, digit: u8) -> Turn {
    Turn::Apply {
        mutation: StateMutation::SetMode { vfo, mode: Mode::of_digit(digit) },
        class: CommandClass::ModeledWrite,
    }
}

/// The request to key or unkey.
pub open spec fn ptt_turn(keyed: bool) -> Turn {
    Turn::Apply {
        mutation: StateMutation::SetPtt { keyed, source: PttSource::Generic },
        class: CommandClass::PttWrite,
    }
}

pub(crate) fn set_ptt(keyed: bool) -> (r: DialectStep)
    ensures
        r@ == ptt_turn(keyed),
{
    DialectStep::Apply {
        mutation: StateMutation::SetPtt { keyed, source: PttSource::Generic },
        class: CommandClass::PttWrite,
    }
}

/// A native command that is not modeled: a query is a read, everything else a config write.
pub open spec fn native_turn(request: Seq<u8>, read: bool) -> Turn {
    Turn::Passthrough {
        raw: request,
        class: if read {
            CommandClass::PassthroughRead
        } else {
            CommandClass::ConfigWrite
        },
    }
}

pub(crate) fn forward(request: &[u8], read: bool) -> (r: DialectStep)
    ensures
        r@ == native_turn(request@, read),
{
    DialectStep::Passthrough {
        raw: vstd::slice::slice_to_vec(request),
        class: if read {
            CommandClass::PassthroughRead
        } else {
            CommandClass::ConfigWrite
        },
    }
}

/// An `IF` answer has 38 bytes, as long as the frequency has no more than eleven digits.
pub proof fn law_status_has_38_bytes(snapshot: Snapshot, single_vfo: bool)
    requires
        crate::text::decimal(snapshot.operating().freq_hz as nat).len() <= 11,
    ensures
        status_bytes(snapshot, single_vfo).len() == 38,
{
    reveal_strlit("IF");
    reveal_strlit("0000+0000000000");
    reveal_strlit("0000;");
    crate::ascii::lemma_padded_digits(snapshot.operating().freq_hz as nat, 11);
}

/// The native backend reads an `IF` answer back as the operating VFO's state: as it is, or
/// as VFO A without split for an endpoint that knows a single VFO. Only the unknown mode
/// comes back as another one.
pub proof fn law_status_is_read_back(snapshot: Snapshot, single_vfo: bool)
    requires
        crate::text::decimal(snapshot.operating().freq_hz as nat).len() <= 11,
        snapshot.operating().mode != Mode::Unknown,
    ensures
        if_status(status_bytes(snapshot, single_vfo)) == Some(
            IfStatus {
                freq_hz: snapshot.operating().freq_hz,
                ptt: snapshot.ptt,
                mode: snapshot.operating().mode,
                rx_vfo: if single_vfo {
                    Vfo::A
                } else {
                    snapshot.rx_vfo
                },
                split: !single_vfo && snapshot.split,
            },
        ),
{
    reveal_strlit("IF");
    reveal_strlit("0000+0000000000");
    reveal_strlit("0000;");
    let hz = snapshot.operating().freq_hz as nat;
    let digits = padded(hz, 11);
    crate::ascii::lemma_padded_digits(hz, 11);
    crate::ascii::law_number_round_trip(hz, 11);
    crate::model::law_kenwood_digits(snapshot.operating().mode);
    let frame = status_bytes(snapshot, single_vfo);
    let payload = frame.subrange(2, 37);
    assert(frame.len() == 38);
    assert(frame =~= ascii("IF"@) + payload + seq![TERMINATOR]);
    assert(ascii(digits).len() == 11);
    assert forall|i: int| 0 <= i < 11 implies 0x30 <= #[trigger] payload[i] <= 0x39 by {
        assert(payload[i] == ascii(digits)[i]);
        assert(crate::text::is_digit(digits[i]));
    }
    assert forall|i: int| 0 <= i < payload.len() implies #[trigger] payload[i] != TERMINATOR by {
        if 11 <= i < 26 {
            assert(payload[i] == ascii("0000+0000000000"@)[i - 11]);
        }
    }
    assert(0x30 <= payload[0] <= 0x39);
    crate::kenwood::law_parts_of_frame(ascii("IF"@), payload);
    assert(payload.take(11) =~= ascii(digits));
}

} // verus!
