//! What a client of a Kenwood dialect gets for the frames it sends, and what it reads back of
//! what it wrote.

use vstd::prelude::*;

use crate::ascii::ascii;
use crate::ascii::number_in;
use crate::ascii::padded;
use crate::backend::kenwood::ts590::event_changes;
use crate::backend::kenwood::ts590::event_mutation;
use crate::dialect::ApplyOutcome;
use crate::dialect::kenwood::Turn;
use crate::dialect::kenwood::ai_status;
use crate::dialect::kenwood::law_status_is_read_back;
use crate::dialect::kenwood::status_bytes;
use crate::dialect::kenwood::transparent;
use crate::dialect::kenwood::ts2000;
use crate::dialect::kenwood::ts590;
use crate::dialect::kenwood::write_reply;
use crate::kenwood::byte_frame;
use crate::kenwood::is_letter;
use crate::kenwood::law_parts_of_frame;
use crate::kenwood::number_frame;
use crate::kenwood::parts;
use crate::model::Mode;
use crate::model::PttSource;
use crate::model::RadioEventSource;
use crate::model::StateChange;
use crate::model::StateMutation;
use crate::model::Vfo;
use crate::permissions::CommandClass;
use crate::state::RadioState;
use crate::state::Snapshot;
use crate::state::recorded_all;

verus! {

/// A frame: a verb, what follows it, and a semicolon.
pub open spec fn frame(verb: Seq<char>, payload: Seq<u8>) -> Seq<u8> {
    ascii(verb) + payload + seq![0x3bu8]
}

/// Whether bytes can stand between a verb and the semicolon.
pub open spec fn payload_ok(payload: Seq<u8>) -> bool {
    &&& payload.len() > 0 ==> !is_letter(payload[0])
    &&& forall|i: int| 0 <= i < payload.len() ==> #[trigger] payload[i] != 0x3b
}

/// The verb under which the frequency of a VFO is read and written.
pub open spec fn verb_of(vfo: Vfo) -> Seq<char> {
    match vfo {
        Vfo::A => "FA"@,
        Vfo::B => "FB"@,
    }
}

/// The other VFO.
pub open spec fn other(vfo: Vfo) -> Vfo {
    match vfo {
        Vfo::A => Vfo::B,
        Vfo::B => Vfo::A,
    }
}

/// A verb of two letters as one number.
pub open spec fn code(verb: Seq<u8>) -> int {
    verb[0] as int * 256 + verb[1] as int
}

proof fn lemma_codes()
    ensures
        code(ascii("FA"@)) == 0x4641,
        code(ascii("FB"@)) == 0x4642,
        code(ascii("FR"@)) == 0x4652,
        code(ascii("FT"@)) == 0x4654,
        code(ascii("MD"@)) == 0x4d44,
        code(ascii("TX"@)) == 0x5458,
        code(ascii("RX"@)) == 0x5258,
        code(ascii("AI"@)) == 0x4149,
        code(ascii("ID"@)) == 0x4944,
        code(ascii("PS"@)) == 0x5053,
        code(ascii("IF"@)) == 0x4946,
        code(ascii("DA"@)) == 0x4441,
{
    reveal_strlit("FA");
    reveal_strlit("FB");
    reveal_strlit("FR");
    reveal_strlit("FT");
    reveal_strlit("MD");
    reveal_strlit("TX");
    reveal_strlit("RX");
    reveal_strlit("AI");
    reveal_strlit("ID");
    reveal_strlit("PS");
    reveal_strlit("IF");
    reveal_strlit("DA");
}

/// Whether a verb is one of those that the dialects know.
pub open spec fn known_verb(verb: Seq<char>) -> bool {
    ||| verb == "FA"@
    ||| verb == "FB"@
    ||| verb == "FR"@
    ||| verb == "FT"@
    ||| verb == "MD"@
    ||| verb == "TX"@
    ||| verb == "RX"@
    ||| verb == "AI"@
    ||| verb == "ID"@
    ||| verb == "PS"@
    ||| verb == "IF"@
    ||| verb == "DA"@
}

proof fn lemma_frame_parts(verb: Seq<char>, payload: Seq<u8>)
    requires
        known_verb(verb),
        payload_ok(payload),
    ensures
        parts(frame(verb, payload)) == Some((ascii(verb), payload)),
{
    reveal_strlit("FA");
    reveal_strlit("FB");
    reveal_strlit("FR");
    reveal_strlit("FT");
    reveal_strlit("MD");
    reveal_strlit("TX");
    reveal_strlit("RX");
    reveal_strlit("AI");
    reveal_strlit("ID");
    reveal_strlit("PS");
    reveal_strlit("IF");
    reveal_strlit("DA");
    let bytes = ascii(verb);
    assert(bytes.len() == 2);
    assert forall|i: int| 0 <= i < bytes.len() implies is_letter(#[trigger] bytes[i]) by {
        assert(bytes[i] == verb[i] as u8);
        assert(i == 0 || i == 1);
    }
    law_parts_of_frame(bytes, payload);
}

proof fn lemma_digits_payload(n: nat)
    ensures
        payload_ok(ascii(padded(n, 11))),
        ascii(padded(n, 11)).len() > 0,
{
    crate::ascii::lemma_padded_digits(n, 11);
    let digits = padded(n, 11);
    let bytes = ascii(digits);
    assert forall|i: int| 0 <= i < bytes.len() implies 0x30 <= #[trigger] bytes[i] <= 0x39 by {
        assert(crate::text::is_digit(digits[i]));
        assert(bytes[i] == digits[i] as u8);
    }
}

/// A frequency that a session with both VFOs writes under the verb of a VFO, `FA` for A and `FB`
/// for B, is a modeled write of that frequency on that VFO. Once it is applied, the query of the
/// same verb answers the frame that was written, and the other VFO answers what it did before. A
/// session that knows a single VFO writes and reads the one that the radio receives on, under
/// either verb.
pub proof fn law_frequencies_are_read_back(snapshot: Snapshot, ai: bool, vfo: Vfo, hz: u64)
    ensures
        ({
            let request = frame(verb_of(vfo), ascii(padded(hz as nat, 11)));
            let query = frame(verb_of(vfo), Seq::empty());
            let across = frame(verb_of(other(vfo)), Seq::empty());
            let later = snapshot.after(StateChange::Freq { vfo, hz });
            &&& ts590::handled(request, snapshot, ai, false) == (Turn::Apply {
                mutation: StateMutation::SetVfoFreq { vfo, hz },
                class: CommandClass::ModeledWrite,
            })
            &&& ts590::handled(query, later, ai, false) == Turn::Reply(request)
            &&& ts590::handled(across, later, ai, false) == ts590::handled(
                across,
                snapshot,
                ai,
                false,
            )
        }),
        ({
            let request = frame(verb_of(vfo), ascii(padded(hz as nat, 11)));
            let query = frame(verb_of(vfo), Seq::empty());
            let later = snapshot.after(StateChange::Freq { vfo: snapshot.rx_vfo, hz });
            &&& ts590::handled(request, snapshot, ai, true) == (Turn::Apply {
                mutation: StateMutation::SetVfoFreq { vfo: snapshot.rx_vfo, hz },
                class: CommandClass::ModeledWrite,
            })
            &&& ts590::handled(query, later, ai, true) == Turn::Reply(request)
        }),
{
    let digits = ascii(padded(hz as nat, 11));
    lemma_codes();
    lemma_digits_payload(hz as nat);
    lemma_frame_parts(verb_of(vfo), digits);
    lemma_frame_parts(verb_of(vfo), Seq::empty());
    lemma_frame_parts(verb_of(other(vfo)), Seq::empty());
    crate::ascii::law_number_round_trip(hz as nat, 11);
    crate::state::law_writes_take_effect(snapshot, StateMutation::SetVfoFreq { vfo, hz });
    crate::state::law_writes_take_effect(
        snapshot,
        StateMutation::SetVfoFreq { vfo: snapshot.rx_vfo, hz },
    );
    assert(frame(verb_of(vfo), digits) =~= number_frame(ascii(verb_of(vfo)), hz as nat));
}

/// A mode that a session writes is a modeled write on the VFO that the radio receives on, and
/// once it is applied the query answers the frame that was written.
pub proof fn law_modes_are_read_back(snapshot: Snapshot, ai: bool, single_vfo: bool, mode: Mode)
    requires
        mode != Mode::Unknown,
    ensures
        ({
            let request = frame("MD"@, seq![mode.digit()]);
            let query = frame("MD"@, Seq::empty());
            let vfo = snapshot.rx_vfo;
            let later = snapshot.after(StateChange::Mode { vfo, mode });
            let written = Turn::Apply {
                mutation: StateMutation::SetMode { vfo, mode },
                class: CommandClass::ModeledWrite,
            };
            &&& ts590::handled(request, snapshot, ai, single_vfo) == written
            &&& ts590::handled(query, later, ai, single_vfo) == Turn::Reply(request)
            &&& ts2000::handled(request, snapshot, ai) == written
            &&& ts2000::handled(query, later, ai) == Turn::Reply(request)
        }),
{
    let vfo = snapshot.rx_vfo;
    lemma_codes();
    crate::model::law_kenwood_digits(mode);
    assert(payload_ok(seq![mode.digit()]));
    lemma_frame_parts("MD"@, seq![mode.digit()]);
    lemma_frame_parts("MD"@, Seq::empty());
    crate::state::law_writes_take_effect(snapshot, StateMutation::SetMode { vfo, mode });
    assert(frame("MD"@, seq![mode.digit()]) =~= byte_frame("MD"@, mode.digit()));
}

/// `TX` keys and `RX` unkeys, whatever follows the verb, as requests to key that need authority
/// over the transmitter. The translator for receivers does neither.
pub proof fn law_keying_requests(
    payload: Seq<u8>,
    snapshot: Snapshot,
    ai: bool,
    single_vfo: bool,
)
    requires
        payload_ok(payload),
    ensures
        ({
            let key = Turn::Apply {
                mutation: StateMutation::SetPtt { keyed: true, source: PttSource::Generic },
                class: CommandClass::PttWrite,
            };
            let unkey = Turn::Apply {
                mutation: StateMutation::SetPtt { keyed: false, source: PttSource::Generic },
                class: CommandClass::PttWrite,
            };
            &&& ts590::handled(frame("TX"@, payload), snapshot, ai, single_vfo) == key
            &&& ts590::handled(frame("RX"@, payload), snapshot, ai, single_vfo) == unkey
            &&& transparent::handled(frame("TX"@, payload), ai) == key
            &&& transparent::handled(frame("RX"@, payload), ai) == unkey
            &&& ts2000::handled(frame("TX"@, payload), snapshot, ai) == Turn::Reply(ascii("?;"@))
            &&& ts2000::handled(frame("RX"@, payload), snapshot, ai) == Turn::Reply(ascii("?;"@))
        }),
{
    lemma_codes();
    lemma_frame_parts("TX"@, payload);
    lemma_frame_parts("RX"@, payload);
}

/// Auto-information is switched on by any digit but zero and off by zero, without an answer, and
/// the query then answers `AI2;` or `AI0;`. The three dialects agree on it.
pub proof fn law_auto_information(digit: u8, snapshot: Snapshot, ai: bool, single_vfo: bool)
    requires
        !is_letter(digit),
        digit != 0x3b,
    ensures
        ({
            let request = frame("AI"@, seq![digit]);
            let query = frame("AI"@, Seq::empty());
            let later = ts590::ai_after(request, ai);
            let answer = Turn::Reply(
                if digit == 0x30 {
                    ascii("AI0;"@)
                } else {
                    ascii("AI2;"@)
                },
            );
            &&& later == (digit != 0x30)
            &&& ts590::ai_after(query, ai) == ai
            &&& ts590::handled(request, snapshot, ai, single_vfo) == Turn::Reply(Seq::empty())
            &&& ts2000::handled(request, snapshot, ai) == Turn::Reply(Seq::empty())
            &&& transparent::handled(request, ai) == Turn::Reply(Seq::empty())
            &&& ts590::handled(query, snapshot, later, single_vfo) == answer
            &&& ts2000::handled(query, snapshot, later) == answer
            &&& transparent::handled(query, later) == answer
        }),
{
    lemma_codes();
    lemma_frame_parts("AI"@, seq![digit]);
    lemma_frame_parts("AI"@, Seq::empty());
    reveal_strlit("AI");
    reveal_strlit("AI0;");
    reveal_strlit("AI2;");
    assert(ai_status(true) =~= ascii("AI2;"@));
    assert(ai_status(false) =~= ascii("AI0;"@));
}

/// Only an `AI` frame with a digit changes auto-information.
pub proof fn law_only_ai_changes_ai(verb: Seq<char>, payload: Seq<u8>, ai: bool)
    requires
        known_verb(verb),
        verb != "AI"@ || payload.len() == 0,
        payload_ok(payload),
    ensures
        ts590::ai_after(frame(verb, payload), ai) == ai,
{
    lemma_codes();
    lemma_frame_parts(verb, payload);
}

/// The identity that each dialect claims, and the power status, which is on.
pub proof fn law_identity(snapshot: Snapshot, ai: bool, single_vfo: bool)
    ensures
        ({
            let id = frame("ID"@, Seq::empty());
            let power = frame("PS"@, Seq::empty());
            &&& ts590::handled(id, snapshot, ai, single_vfo) == Turn::Reply(ascii("ID021;"@))
            &&& transparent::handled(id, ai) == Turn::Reply(ascii("ID021;"@))
            &&& ts2000::handled(id, snapshot, ai) == Turn::Reply(ascii("ID019;"@))
            &&& ts590::handled(power, snapshot, ai, single_vfo) == Turn::Reply(ascii("PS1;"@))
            &&& transparent::handled(power, ai) == Turn::Reply(ascii("PS1;"@))
            &&& ts2000::handled(power, snapshot, ai) == Turn::Reply(ascii("PS1;"@))
        }),
{
    lemma_codes();
    lemma_frame_parts("ID"@, Seq::empty());
    lemma_frame_parts("PS"@, Seq::empty());
}

/// The status answer field by field: the frequency of the VFO that the radio receives on in
/// eleven digits, no offset and no memory channel, keying, mode, the VFO and split. A session
/// that knows a single VFO sees VFO A without split.
pub proof fn law_status_fields(snapshot: Snapshot, ai: bool, single_vfo: bool)
    requires
        crate::text::decimal(snapshot.operating().freq_hz as nat).len() <= 11,
    ensures
        ({
            let status = status_bytes(snapshot, single_vfo);
            let v = match snapshot.rx_vfo {
                Vfo::A => snapshot.a,
                Vfo::B => snapshot.b,
            };
            &&& ts590::handled(frame("IF"@, Seq::empty()), snapshot, ai, single_vfo)
                == Turn::Reply(status)
            &&& status.len() == 38
            &&& status.take(2) == ascii("IF"@)
            &&& status.subrange(2, 13) == ascii(padded(v.freq_hz as nat, 11))
            &&& number_in(status.subrange(2, 13)) == Some(v.freq_hz as nat)
            &&& status.subrange(13, 28) == ascii("0000+0000000000"@)
            &&& status[28] == if snapshot.ptt {
                0x31u8
            } else {
                0x30u8
            }
            &&& status[29] == v.mode.digit()
            &&& status[30] == if !single_vfo && snapshot.rx_vfo == Vfo::B {
                0x31u8
            } else {
                0x30u8
            }
            &&& status[31] == 0x30
            &&& status[32] == if !single_vfo && snapshot.split {
                0x31u8
            } else {
                0x30u8
            }
            &&& status.skip(33) == ascii("0000;"@)
        }),
        ts2000::handled(frame("IF"@, Seq::empty()), snapshot, ai) == Turn::Reply(
            status_bytes(snapshot, false),
        ),
{
    lemma_codes();
    lemma_frame_parts("IF"@, Seq::empty());
    reveal_strlit("IF");
    reveal_strlit("0000+0000000000");
    reveal_strlit("0000;");
    let hz = snapshot.operating().freq_hz as nat;
    crate::ascii::lemma_padded_digits(hz, 11);
    crate::ascii::law_number_round_trip(hz, 11);
    let status = status_bytes(snapshot, single_vfo);
    assert(status.take(2) =~= ascii("IF"@));
    assert(status.subrange(2, 13) =~= ascii(padded(hz, 11)));
    assert(status.subrange(13, 28) =~= ascii("0000+0000000000"@));
    assert(status.skip(33) =~= ascii("0000;"@));
}

/// What the dialects do not know goes to the radio as it is: a bare verb as a native read, a
/// verb with something behind it as a change of its settings. The translator for receivers
/// refuses it, and a frame without a verb is refused by all of them.
pub proof fn law_unknown_requests(
    request: Seq<u8>,
    verb: Seq<u8>,
    payload: Seq<u8>,
    snapshot: Snapshot,
    ai: bool,
    single_vfo: bool,
)
    ensures
        ({
            let native = Turn::Passthrough {
                raw: request,
                class: if payload.len() == 0 {
                    CommandClass::PassthroughRead
                } else {
                    CommandClass::ConfigWrite
                },
            };
            let refused = Turn::Reply(ascii("?;"@));
            let c = code(verb);
            let modeled = c == 0x4641 || c == 0x4642 || c == 0x4d44 || c == 0x5458 || c == 0x5258
                || c == 0x4149;
            let selects = c == 0x4652 || c == 0x4654;
            let asks = c == 0x4944 || c == 0x5053 || c == 0x4946;
            &&& parts(request) is None ==> {
                &&& ts590::handled(request, snapshot, ai, single_vfo) == refused
                &&& ts2000::handled(request, snapshot, ai) == refused
                &&& transparent::handled(request, ai) == refused
            }
            &&& parts(request) == Some((verb, payload)) && !modeled && !(single_vfo && selects) && !(
            asks && payload.len() == 0) ==> ts590::handled(request, snapshot, ai, single_vfo)
                == native
            &&& parts(request) == Some((verb, payload)) && !modeled && !((asks || selects)
                && payload.len() == 0) ==> ts2000::handled(request, snapshot, ai) == refused
            &&& parts(request) == Some((verb, payload)) && c != 0x5458 && c != 0x5258 && c
                != 0x4149 && !((c == 0x4944 || c == 0x5053) && payload.len() == 0)
                ==> transparent::handled(request, ai) == native
        }),
{
    lemma_codes();
}

/// A frequency or a mode that is none is refused, and what follows a write is nothing where it
/// took effect and the error frame where it did not.
pub proof fn law_bad_writes_are_refused(
    payload: Seq<u8>,
    vfo: Vfo,
    snapshot: Snapshot,
    ai: bool,
    single_vfo: bool,
    outcome: ApplyOutcome,
)
    requires
        payload_ok(payload),
        payload.len() > 0,
        number_in(payload) is None,
    ensures
        ts590::handled(frame(verb_of(vfo), payload), snapshot, ai, single_vfo) == Turn::Reply(
            ascii("?;"@),
        ),
        ts2000::handled(frame(verb_of(vfo), payload), snapshot, ai) == Turn::Reply(ascii("?;"@)),
        write_reply(outcome) == if outcome == ApplyOutcome::Applied {
            Seq::<u8>::empty()
        } else {
            ascii("?;"@)
        },
{
    lemma_codes();
    lemma_frame_parts(verb_of(vfo), payload);
}

/// The translator for receivers calls the VFO that the radio receives on A: what is written
/// under `FA` is what `FA` reads afterwards, and `FB` is VFO B in either direction.
pub proof fn law_translator_frequencies(snapshot: Snapshot, ai: bool, hz: u64)
    ensures
        ({
            let digits = ascii(padded(hz as nat, 11));
            let rx = snapshot.rx_vfo;
            &&& ts2000::handled(frame("FA"@, digits), snapshot, ai) == (Turn::Apply {
                mutation: StateMutation::SetVfoFreq { vfo: rx, hz },
                class: CommandClass::ModeledWrite,
            })
            &&& ts2000::handled(
                frame("FA"@, Seq::empty()),
                snapshot.after(StateChange::Freq { vfo: rx, hz }),
                ai,
            ) == Turn::Reply(frame("FA"@, digits))
            &&& ts2000::handled(frame("FB"@, digits), snapshot, ai) == (Turn::Apply {
                mutation: StateMutation::SetVfoFreq { vfo: Vfo::B, hz },
                class: CommandClass::ModeledWrite,
            })
            &&& ts2000::handled(
                frame("FB"@, Seq::empty()),
                snapshot.after(StateChange::Freq { vfo: Vfo::B, hz }),
                ai,
            ) == Turn::Reply(frame("FB"@, digits))
        }),
{
    let digits = ascii(padded(hz as nat, 11));
    let rx = snapshot.rx_vfo;
    lemma_codes();
    lemma_digits_payload(hz as nat);
    lemma_frame_parts("FA"@, digits);
    lemma_frame_parts("FB"@, digits);
    lemma_frame_parts("FA"@, Seq::empty());
    lemma_frame_parts("FB"@, Seq::empty());
    crate::ascii::law_number_round_trip(hz as nat, 11);
    crate::state::law_writes_take_effect(snapshot, StateMutation::SetVfoFreq { vfo: rx, hz });
    crate::state::law_writes_take_effect(snapshot, StateMutation::SetVfoFreq { vfo: Vfo::B, hz });
    assert(frame("FA"@, digits) =~= number_frame(ascii("FA"@), hz as nat));
    assert(frame("FB"@, digits) =~= number_frame(ascii("FB"@), hz as nat));
}

/// The translator for receivers answers `FR` with the VFO that the radio receives on and `FT`
/// with the one it transmits on, which is another one only while split is on.
pub proof fn law_translator_selectors(snapshot: Snapshot, ai: bool)
    ensures
        ts2000::handled(frame("FR"@, Seq::empty()), snapshot, ai) == Turn::Reply(
            match snapshot.rx_vfo {
                Vfo::A => ascii("FR0;"@),
                Vfo::B => ascii("FR1;"@),
            },
        ),
        ts2000::handled(frame("FT"@, Seq::empty()), snapshot, ai) == Turn::Reply(
            match if snapshot.split {
                snapshot.tx_vfo
            } else {
                snapshot.rx_vfo
            } {
                Vfo::A => ascii("FT0;"@),
                Vfo::B => ascii("FT1;"@),
            },
        ),
{
    lemma_codes();
    lemma_frame_parts("FR"@, Seq::empty());
    lemma_frame_parts("FT"@, Seq::empty());
    reveal_strlit("FR");
    reveal_strlit("FT");
    reveal_strlit("FR0;");
    reveal_strlit("FR1;");
    reveal_strlit("FT0;");
    reveal_strlit("FT1;");
    assert(byte_frame("FR"@, 0x30) =~= ascii("FR0;"@));
    assert(byte_frame("FR"@, 0x31) =~= ascii("FR1;"@));
    assert(byte_frame("FT"@, 0x30) =~= ascii("FT0;"@));
    assert(byte_frame("FT"@, 0x31) =~= ascii("FT1;"@));
}

/// What a session is answered to the query of a verb.
pub open spec fn answer(verb: Seq<char>, snapshot: Snapshot, single_vfo: bool) -> Seq<u8> {
    ts590::handled(frame(verb, Seq::empty()), snapshot, true, single_vfo)->Reply_0
}

/// What the translator for receivers answers to the query of a verb.
pub open spec fn translated(verb: Seq<char>, snapshot: Snapshot) -> Seq<u8> {
    ts2000::handled(frame(verb, Seq::empty()), snapshot, true)->Reply_0
}

/// A session that wants to be told is told what it would have been answered had it asked: the
/// frequency under the verb of its VFO and, where the radio receives on it, the status; the mode
/// of the VFO that the radio receives on and the status; and the status when the radio changes
/// to another VFO. A session that knows a single VFO hears of the one that the radio receives on
/// alone, and of all of it when that changes. Nothing else is told.
pub proof fn law_notifications_answer_queries(
    snapshot: Snapshot,
    change: StateChange,
    single_vfo: bool,
)
    ensures
        ({
            let later = snapshot.after(change);
            let rx = later.rx_vfo;
            let status = answer("IF"@, later, single_vfo);
            ts590::notification(change, later, true, single_vfo) == match change {
                StateChange::Freq { vfo, .. } => if single_vfo {
                    if vfo == rx {
                        Some(answer("FA"@, later, true) + status)
                    } else {
                        None
                    }
                } else if vfo == rx {
                    Some(answer(verb_of(vfo), later, false) + status)
                } else {
                    Some(answer(verb_of(vfo), later, false))
                },
                StateChange::Mode { vfo, .. } => if vfo == rx {
                    Some(answer("MD"@, later, single_vfo) + status)
                } else {
                    None
                },
                StateChange::RxVfo { .. } => if single_vfo {
                    Some(answer("FA"@, later, true) + answer("MD"@, later, true) + status)
                } else {
                    Some(status)
                },
                _ => None,
            }
        }),
{
    lemma_codes();
    lemma_frame_parts("FA"@, Seq::empty());
    lemma_frame_parts("FB"@, Seq::empty());
    lemma_frame_parts("MD"@, Seq::empty());
    lemma_frame_parts("IF"@, Seq::empty());
    reveal(Snapshot::after);
}

/// The translator for receivers tells what it would have answered, too: the frequency under `FA`
/// where the radio receives on that VFO and under `FB` for VFO B, the mode of the VFO that the
/// radio receives on, and all of it when that changes.
pub proof fn law_translated_notifications(snapshot: Snapshot, change: StateChange)
    ensures
        ({
            let later = snapshot.after(change);
            let rx = later.rx_vfo;
            ts2000::notification(change, later, true) == match change {
                StateChange::Freq { vfo, .. } => if vfo == rx {
                    Some(translated("FA"@, later))
                } else if vfo == Vfo::B {
                    Some(translated("FB"@, later))
                } else {
                    None
                },
                StateChange::Mode { vfo, .. } => if vfo == rx {
                    Some(translated("MD"@, later))
                } else {
                    None
                },
                StateChange::RxVfo { .. } => Some(
                    translated("FA"@, later) + translated("MD"@, later) + translated("IF"@, later),
                ),
                _ => None,
            }
        }),
        ts2000::notification(change, snapshot, false) is None,
{
    lemma_codes();
    lemma_frame_parts("FA"@, Seq::empty());
    lemma_frame_parts("FB"@, Seq::empty());
    lemma_frame_parts("MD"@, Seq::empty());
    lemma_frame_parts("IF"@, Seq::empty());
    reveal(Snapshot::after);
}

/// The frames that restore a session that mirrors the radio are the answers to the queries of
/// both frequencies, the mode and the status.
pub proof fn law_resync_answers_queries(snapshot: Snapshot)
    ensures
        ts590::resync_frames(snapshot) == seq![
            answer("FA"@, snapshot, false),
            answer("FB"@, snapshot, false),
            answer("MD"@, snapshot, false),
            answer("IF"@, snapshot, false),
        ],
{
    lemma_codes();
    lemma_frame_parts("FA"@, Seq::empty());
    lemma_frame_parts("FB"@, Seq::empty());
    lemma_frame_parts("MD"@, Seq::empty());
    lemma_frame_parts("IF"@, Seq::empty());
}

/// What the radio pushes is what a client would have written: the frequency of the VFO that the
/// verb names, and the mode and the DATA flag of the VFO that it receives on. A frequency that is
/// none says nothing.
pub proof fn law_pushed_frames(vfo: Vfo, hz: u64, mode: Mode, on: bool, rx_vfo: Vfo, payload: Seq<u8>)
    requires
        mode != Mode::Unknown,
        payload_ok(payload),
        number_in(payload) is None,
    ensures
        event_changes(frame(verb_of(vfo), ascii(padded(hz as nat, 11))), rx_vfo) == Some(
            seq![StateChange::Freq { vfo, hz }],
        ),
        event_mutation(frame(verb_of(vfo), ascii(padded(hz as nat, 11)))) == Some(
            StateMutation::SetVfoFreq { vfo, hz },
        ),
        event_changes(frame("MD"@, seq![mode.digit()]), rx_vfo) == Some(
            seq![StateChange::Mode { vfo: rx_vfo, mode }],
        ),
        event_changes(
            frame(
                "DA"@,
                seq![
                    if on {
                        0x31u8
                    } else {
                        0x30u8
                    },
                ],
            ),
            rx_vfo,
        ) == Some(seq![StateChange::DataMode { vfo: rx_vfo, on }]),
        event_mutation(frame("MD"@, seq![mode.digit()])) == Some(
            StateMutation::SetMode { vfo: Vfo::A, mode },
        ),
        event_mutation(
            frame(
                "DA"@,
                seq![
                    if on {
                        0x31u8
                    } else {
                        0x30u8
                    },
                ],
            ),
        ) == Some(StateMutation::SetDataMode { vfo: Vfo::A, on }),
        event_mutation(frame(verb_of(vfo), payload)) is None,
        event_mutation(frame("MD"@, Seq::empty())) is None,
        event_mutation(frame("DA"@, Seq::empty())) is None,
        event_changes(frame("MD"@, Seq::empty()), rx_vfo) is None,
        event_changes(frame("DA"@, Seq::empty()), rx_vfo) is None,
        event_changes(frame(verb_of(vfo), payload), rx_vfo) is None,
        event_changes(frame("TX"@, payload), rx_vfo) is None,
        event_changes(frame("RX"@, payload), rx_vfo) is None,
{
    lemma_codes();
    lemma_digits_payload(hz as nat);
    lemma_frame_parts(verb_of(vfo), ascii(padded(hz as nat, 11)));
    crate::ascii::law_number_round_trip(hz as nat, 11);
    crate::model::law_kenwood_digits(mode);
    lemma_frame_parts("MD"@, seq![mode.digit()]);
    let digit = if on {
        0x31u8
    } else {
        0x30u8
    };
    lemma_frame_parts("DA"@, seq![digit]);
    lemma_frame_parts("MD"@, Seq::empty());
    lemma_frame_parts("DA"@, Seq::empty());
    lemma_frame_parts(verb_of(vfo), payload);
    lemma_frame_parts("TX"@, payload);
    lemma_frame_parts("RX"@, payload);
}

/// A status that the radio reports is taken over: recorded, it gives the VFO that the radio
/// receives on, its frequency and mode, keying and split, as they were reported.
pub proof fn law_pushed_status(
    reported: Snapshot,
    state: RadioState,
    rx_vfo: Vfo,
    source: RadioEventSource,
)
    requires
        crate::text::decimal(reported.operating().freq_hz as nat).len() <= 11,
        reported.operating().mode != Mode::Unknown,
    ensures
        event_changes(status_bytes(reported, false), rx_vfo) is Some,
        ({
            let changes = event_changes(status_bytes(reported, false), rx_vfo)->Some_0;
            let later = recorded_all(state, changes, source).snapshot;
            &&& later.rx_vfo == reported.rx_vfo
            &&& later.operating().freq_hz == reported.operating().freq_hz
            &&& later.operating().mode == reported.operating().mode
            &&& later.ptt == reported.ptt
            &&& later.split == reported.split
        }),
{
    law_status_is_read_back(reported, false);
    let changes = event_changes(status_bytes(reported, false), rx_vfo)->Some_0;
    reveal(Snapshot::after);
    let one = state.recorded(changes[0], source);
    let two = one.recorded(changes[1], source);
    let three = two.recorded(changes[2], source);
    let four = three.recorded(changes[3], source);
    let five = four.recorded(changes[4], source);
    lemma_recorded_five(state, changes, source);
}

proof fn lemma_recorded_five(state: RadioState, changes: Seq<StateChange>, source: RadioEventSource)
    requires
        changes.len() == 5,
    ensures
        recorded_all(state, changes, source) == state.recorded(changes[0], source).recorded(
            changes[1],
            source,
        ).recorded(changes[2], source).recorded(changes[3], source).recorded(changes[4], source),
{
    let four = changes.skip(1);
    let three = four.skip(1);
    let two = three.skip(1);
    let one = two.skip(1);
    assert(one.skip(1).len() == 0);
    reveal_with_fuel(recorded_all, 7);
    assert(four[0] == changes[1] && three[0] == changes[2] && two[0] == changes[3] && one[0]
        == changes[4]);
}

} // verus!
