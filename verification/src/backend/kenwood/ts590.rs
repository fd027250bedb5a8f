//! The first-class native TS-590 backend.
//!
//! It speaks Kenwood `;`-terminated ASCII CAT directly and is the certified-native path.
//! Crucially, its poll command set contains **no `FR`/`FT` VFO-select commands**: polling
//! never retargets a VFO, which is the root-cause fix for the A/B oscillation seen when a
//! status poll toggled the receive VFO. Sets are fire-and-forget (Kenwood radios do not
//! acknowledge a set), and the radio's auto-information stream (`AI2;`) drives native push.

use vstd::prelude::*;

use crate::ascii::ascii;
use crate::ascii::ascii_bytes;
use crate::ascii::is_ascii_text;
use crate::ascii::number_in;
use crate::ascii::parse_number;
use crate::ascii::push_ascii;
use crate::backend::BackendCapabilities;
use crate::backend::Framing;
use crate::backend::NativeCommandFamily;
use crate::backend::SplitStyle;
use crate::backend::TrustTier;
use crate::kenwood::byte_frame;
use crate::kenwood::number_frame;
use crate::kenwood::parts;
use crate::kenwood::push_byte_frame;
use crate::kenwood::push_number_frame;
use crate::kenwood::split_frame;
use crate::model::Mode;
use crate::model::PttSource;
use crate::model::RadioEventSource;
use crate::model::StateChange;
use crate::model::StateMutation;
use crate::model::Vfo;
use crate::radio::framer::byte_seqs;
use crate::radio::transport::Expect;
use crate::radio::transport::ExpectView;
use crate::state::announced;
use crate::state::recorded_all;
use crate::state::RadioEvent;
use crate::state::Snapshot;
use crate::state::StateHandle;

verus! {

/// How many commands a baseline poll sends.
pub const POLL_COUNT: usize = 5;

/// The number of payload bytes of an `IF` status that hold the frequency.
pub const IF_FREQ_LEN: usize = 11;

/// Offset of the transmit flag in the payload of an `IF` status.
pub const IF_TX_OFFSET: usize = 26;

/// Offset of the mode digit in the payload of an `IF` status.
pub const IF_MODE_OFFSET: usize = 27;

/// Offset of the receive VFO in the payload of an `IF` status.
pub const IF_RX_VFO_OFFSET: usize = 28;

/// Offset of the split flag in the payload of an `IF` status.
pub const IF_SPLIT_OFFSET: usize = 30;

/// What an `IF` status says.
#[derive(Debug, Clone, Copy, PartialEq, Eq, Structural)]
pub struct IfStatus {
    /// Frequency of the receive VFO in Hz.
    pub freq_hz: u64,
    /// Whether the transmitter is keyed.
    pub ptt: bool,
    /// Mode of the receive VFO.
    pub mode: Mode,
    /// The receive VFO.
    pub rx_vfo: Vfo,
    /// Whether split is enabled.
    pub split: bool,
}

/// The VFO that a digit names.
pub open spec fn vfo_of_digit(digit: u8) -> Option<Vfo> {
    if digit == 0x30 {
        Some(Vfo::A)
    } else if digit == 0x31 {
        Some(Vfo::B)
    } else {
        None
    }
}

/// The digit that names a VFO.
pub open spec fn digit_of_vfo(vfo: Vfo) -> u8 {
    match vfo {
        Vfo::A => 0x30,
        Vfo::B => 0x31,
    }
}

/// What an `IF` frame says. A frame that reports no VFO (the radio is in a memory mode) says
/// nothing, instead of silently pinning VFO A.
pub open spec fn if_status(frame: Seq<u8>) -> Option<IfStatus> {
    match parts(frame) {
        Some((verb, payload)) => {
            if verb == ascii("IF"@) && payload.len() > IF_SPLIT_OFFSET && vfo_of_digit(
                payload[IF_RX_VFO_OFFSET as int],
            ) is Some && number_in(payload.take(IF_FREQ_LEN as int)) is Some {
                Some(
                    IfStatus {
                        freq_hz: number_in(payload.take(IF_FREQ_LEN as int))->Some_0 as u64,
                        ptt: payload[IF_TX_OFFSET as int] == 0x31,
                        mode: Mode::of_digit(payload[IF_MODE_OFFSET as int]),
                        rx_vfo: vfo_of_digit(payload[IF_RX_VFO_OFFSET as int])->Some_0,
                        split: payload[IF_SPLIT_OFFSET as int] == 0x31,
                    },
                )
            } else {
                None
            }
        },
        None => None,
    }
}

/// The changes that an `IF` status reports, the receive VFO last.
pub open spec fn if_changes(status: IfStatus) -> Seq<StateChange> {
    seq![
        StateChange::Freq { vfo: status.rx_vfo, hz: status.freq_hz },
        StateChange::Mode { vfo: status.rx_vfo, mode: status.mode },
        StateChange::Ptt { keyed: status.ptt },
        StateChange::Split { enabled: status.split, tx_vfo: None },
        StateChange::RxVfo { vfo: status.rx_vfo },
    ]
}

/// The changes that a frame from the radio reports, given the receive VFO known so far. `MD`
/// and `DA` speak of the receive VFO.
pub open spec fn event_changes(frame: Seq<u8>, rx_vfo: Vfo) -> Option<Seq<StateChange>> {
    match if_status(frame) {
        Some(status) => Some(if_changes(status)),
        None => match parts(frame) {
            Some((verb, payload)) => if verb == ascii("FA"@) {
                match number_in(payload) {
                    Some(hz) => Some(seq![StateChange::Freq { vfo: Vfo::A, hz: hz as u64 }]),
                    None => None,
                }
            } else if verb == ascii("FB"@) {
                match number_in(payload) {
                    Some(hz) => Some(seq![StateChange::Freq { vfo: Vfo::B, hz: hz as u64 }]),
                    None => None,
                }
            } else if verb == ascii("FR"@) {
                if payload.len() > 0 && vfo_of_digit(payload[0]) is Some {
                    Some(seq![StateChange::RxVfo { vfo: vfo_of_digit(payload[0])->Some_0 }])
                } else {
                    None
                }
            } else if verb == ascii("MD"@) {
                if payload.len() > 0 {
                    Some(
                        seq![
                            StateChange::Mode { vfo: rx_vfo, mode: Mode::of_digit(payload[0]) },
                        ],
                    )
                } else {
                    None
                }
            } else if verb == ascii("DA"@) {
                if payload.len() > 0 {
                    Some(seq![StateChange::DataMode { vfo: rx_vfo, on: payload[0] == 0x31 }])
                } else {
                    None
                }
            } else {
                None
            },
            None => None,
        },
    }
}

/// The single mutation that an unsolicited frame stands for.
pub open spec fn event_mutation(frame: Seq<u8>) -> Option<StateMutation> {
    match parts(frame) {
        Some((verb, payload)) => if verb == ascii("FA"@) {
            match number_in(payload) {
                Some(hz) => Some(StateMutation::SetVfoFreq { vfo: Vfo::A, hz: hz as u64 }),
                None => None,
            }
        } else if verb == ascii("FB"@) {
            match number_in(payload) {
                Some(hz) => Some(StateMutation::SetVfoFreq { vfo: Vfo::B, hz: hz as u64 }),
                None => None,
            }
        } else if verb == ascii("MD"@) {
            if payload.len() > 0 {
                Some(StateMutation::SetMode { vfo: Vfo::A, mode: Mode::of_digit(payload[0]) })
            } else {
                None
            }
        } else if verb == ascii("DA"@) {
            if payload.len() > 0 {
                Some(StateMutation::SetDataMode { vfo: Vfo::A, on: payload[0] == 0x31 })
            } else {
                None
            }
        } else if verb == ascii("IF"@) {
            match if_status(frame) {
                Some(status) => Some(StateMutation::SetRxVfo { vfo: status.rx_vfo }),
                None => None,
            }
        } else {
            None
        },
        None => None,
    }
}

/// The frames that a mutation writes. Selecting the receive VFO keeps a split by naming its
/// transmit VFO again.
pub open spec fn write_bytes(mutation: StateMutation, snapshot: Snapshot) -> Seq<u8> {
    match mutation {
        StateMutation::SetRxVfo { vfo } => byte_frame("FR"@, digit_of_vfo(vfo)) + if snapshot.split {
            byte_frame("FT"@, digit_of_vfo(snapshot.tx_vfo))
        } else {
            Seq::empty()
        },
        StateMutation::SetVfoFreq { vfo, hz } => freq_bytes(vfo, hz),
        StateMutation::SetMode { vfo, mode } => byte_frame("MD"@, mode.digit()),
        StateMutation::SetDataMode { vfo, on } => if on {
            ascii("DA1;"@)
        } else {
            ascii("DA0;"@)
        },
        StateMutation::SetPtt { keyed, source } => if !keyed {
            ascii("RX;"@)
        } else {
            match source {
                PttSource::Generic => ascii("TX;"@),
                PttSource::Mic => ascii("TX0;"@),
                PttSource::Data => ascii("TX1;"@),
            }
        },
        StateMutation::SetSplit { enabled, tx_vfo } => if enabled {
            ascii("FR0;"@) + byte_frame(
                "FT"@,
                digit_of_vfo(
                    match tx_vfo {
                        Some(vfo) => vfo,
                        None => Vfo::B,
                    },
                ),
            )
        } else {
            ascii("FR0;FT0;"@)
        },
        StateMutation::SetRit { offset_hz, enabled } => if enabled {
            ascii("RT1;"@)
        } else {
            ascii("RT0;"@)
        },
        StateMutation::SetXit { offset_hz, enabled } => if enabled {
            ascii("XT1;"@)
        } else {
            ascii("XT0;"@)
        },
    }
}

/// The frame that sets the frequency of a VFO.
pub open spec fn freq_bytes(vfo: Vfo, hz: u64) -> Seq<u8> {
    match vfo {
        Vfo::A => number_frame(ascii("FA"@), hz as nat),
        Vfo::B => number_frame(ascii("FB"@), hz as nat),
    }
}

/// The verbs of the baseline poll, in order.
pub open spec fn poll_verb(index: int) -> Seq<char> {
    if index == 0 {
        "FA"@
    } else if index == 1 {
        "FB"@
    } else if index == 2 {
        "IF"@
    } else if index == 3 {
        "MD"@
    } else {
        "DA"@
    }
}

/// The command of a step of the baseline poll: a bare verb, which asks and never selects.
pub open spec fn poll_bytes(index: int) -> Seq<u8> {
    ascii(poll_verb(index)) + ascii(";"@)
}

/// Build an `FA`/`FB` frequency set frame.
#[must_use]
pub fn freq_set(vfo: Vfo, hz: u64) -> (r: Vec<u8>)
    ensures
        r@ == freq_bytes(vfo, hz),
{
    let mut out: Vec<u8> = Vec::new();
    match vfo {
        Vfo::A => push_number_frame(&mut out, "FA", hz),
        Vfo::B => push_number_frame(&mut out, "FB", hz),
    }
    proof {
        assert(out@ =~= freq_bytes(vfo, hz));
    }
    out
}

/// Build an `FR` receive-VFO select frame.
#[must_use]
pub fn rx_vfo_set(vfo: Vfo) -> (r: Vec<u8>)
    ensures
        r@ == byte_frame("FR"@, digit_of_vfo(vfo)),
{
    let mut out: Vec<u8> = Vec::new();
    push_byte_frame(&mut out, "FR", vfo_digit(vfo));
    proof {
        assert(out@ =~= byte_frame("FR"@, digit_of_vfo(vfo)));
    }
    out
}

/// The digit that names a VFO.
#[must_use]
pub fn vfo_digit(vfo: Vfo) -> (r: u8)
    ensures
        r == digit_of_vfo(vfo),
{
    match vfo {
        Vfo::A => 0x30,
        Vfo::B => 0x31,
    }
}

/// The VFO that the first byte names.
#[must_use]
pub fn parse_rx_vfo_digit(bytes: &[u8]) -> (r: Option<Vfo>)
    ensures
        r == if bytes@.len() > 0 {
            vfo_of_digit(bytes@[0])
        } else {
            None
        },
{
    if bytes.len() == 0 {
        return None;
    }
    match bytes[0] {
        0x30 => Some(Vfo::A),
        0x31 => Some(Vfo::B),
        _ => None,
    }
}

/// Read an `IF` status frame.
#[must_use]
pub fn parse_if_status(frame: &[u8]) -> (r: Option<IfStatus>)
    ensures
        r == if_status(frame@),
{
    let (verb, payload) = match split_frame(frame) {
        Some(split) => split,
        None => return None,
    };
    if !is_ascii_text(verb, "IF") || payload.len() <= IF_SPLIT_OFFSET {
        return None;
    }
    let rx_vfo = match payload[IF_RX_VFO_OFFSET] {
        0x30 => Vfo::A,
        0x31 => Vfo::B,
        _ => return None,
    };
    proof {
        assert(payload@.subrange(0, IF_FREQ_LEN as int) =~= payload@.take(IF_FREQ_LEN as int));
    }
    let freq_hz: u64 = match parse_number(vstd::slice::slice_subrange(payload, 0, IF_FREQ_LEN)) {
        Some(hz) => hz,
        None => return None,
    };
    Some(
        IfStatus {
            freq_hz,
            ptt: payload[IF_TX_OFFSET] == 0x31,
            mode: Mode::from_kenwood_digit(payload[IF_MODE_OFFSET]),
            rx_vfo,
            split: payload[IF_SPLIT_OFFSET] == 0x31,
        },
    )
}

/// Whether a frame is a query: a verb and nothing behind it.
pub open spec fn query(frame: Seq<u8>) -> bool {
    parts(frame) matches Some((_, payload)) && payload.len() == 0
}

/// Whether a passthrough frame is a query (bare verb then `;`) versus a set.
#[must_use]
pub fn is_query(frame: &[u8]) -> (r: bool)
    ensures
        r == query(frame@),
{
    match split_frame(frame) {
        Some((_, payload)) => payload.len() == 0,
        None => false,
    }
}

/// What the TS-590 backend advertises.
pub open spec fn ts590_capabilities(r: BackendCapabilities) -> bool {
    &&& r.model@ == "TS-590"@
    &&& r.vfo_count == 2
    &&& r.has_rit
    &&& r.has_xit
    &&& r.has_smeter
    &&& r.split == SplitStyle::VfoPair
    &&& r.native_push
    &&& r.native_command_family == Some(NativeCommandFamily::Kenwood)
    &&& r.framing == Framing::SemicolonTerminated
    &&& r.freq_min_hz == 30_000
    &&& r.freq_max_hz == 60_000_000
    &&& r.trust == TrustTier::CertifiedNative
}

/// The native TS-590 backend.
#[derive(Debug, Clone, Copy, PartialEq, Eq)]
pub struct Ts590Backend;

impl Ts590Backend {
    /// Create the backend.
    #[must_use]
    pub fn new() -> (r: Self) {
        Ts590Backend
    }

    /// The baseline poll command set. Read-only queries only: **never** `FR`/`FT`.
    #[must_use]
    pub fn poll_command(index: usize) -> (r: Option<(Vec<u8>, Expect)>)
        ensures
            index >= POLL_COUNT ==> r is None,
            index < POLL_COUNT ==> (r matches Some((bytes, expect)) && bytes@ == poll_bytes(
                index as int,
            ) && expect@ == ExpectView::Reply(seq![ascii(poll_verb(index as int))])),
    {
        if index >= POLL_COUNT {
            return None;
        }
        let verb: &str = match index {
            0 => "FA",
            1 => "FB",
            2 => "IF",
            3 => "MD",
            _ => "DA",
        };
        let mut bytes = ascii_bytes(verb);
        push_ascii(&mut bytes, ";");
        let mut verbs: Vec<Vec<u8>> = Vec::new();
        verbs.push(ascii_bytes(verb));
        proof {
            assert(byte_seqs(verbs@) =~= seq![ascii(verb@)]);
        }
        Some((bytes, Expect::Reply(verbs)))
    }

    /// The frames that apply a mutation. Kenwood sets are not acknowledged: no reply comes.
    #[must_use]
    pub fn apply_bytes(mutation: StateMutation, snapshot: &Snapshot) -> (r: Vec<u8>)
        ensures
            r@ == write_bytes(mutation, *snapshot),
    {
        match mutation {
            StateMutation::SetRxVfo { vfo } => {
                let mut bytes = rx_vfo_set(vfo);
                if snapshot.split {
                    push_byte_frame(&mut bytes, "FT", vfo_digit(snapshot.tx_vfo));
                }
                proof {
                    assert(bytes@ =~= write_bytes(mutation, *snapshot));
                }
                bytes
            },
            StateMutation::SetVfoFreq { vfo, hz } => freq_set(vfo, hz),
            StateMutation::SetMode { vfo: _, mode } => {
                let mut bytes: Vec<u8> = Vec::new();
                push_byte_frame(&mut bytes, "MD", mode.to_kenwood_digit());
                proof {
                    assert(bytes@ =~= byte_frame("MD"@, mode.digit()));
                }
                bytes
            },
            StateMutation::SetDataMode { vfo: _, on } => if on {
                ascii_bytes("DA1;")
            } else {
                ascii_bytes("DA0;")
            },
            StateMutation::SetPtt { keyed, source } => if !keyed {
                ascii_bytes("RX;")
            } else {
                match source {
                    PttSource::Generic => ascii_bytes("TX;"),
                    PttSource::Mic => ascii_bytes("TX0;"),
                    PttSource::Data => ascii_bytes("TX1;"),
                }
            },
            StateMutation::SetSplit { enabled, tx_vfo } => if enabled {
                let target = match tx_vfo {
                    Some(vfo) => vfo,
                    None => Vfo::B,
                };
                let mut bytes = ascii_bytes("FR0;");
                push_byte_frame(&mut bytes, "FT", vfo_digit(target));
                bytes
            } else {
                ascii_bytes("FR0;FT0;")
            },
            StateMutation::SetRit { offset_hz: _, enabled } => if enabled {
                ascii_bytes("RT1;")
            } else {
                ascii_bytes("RT0;")
            },
            StateMutation::SetXit { offset_hz: _, enabled } => if enabled {
                ascii_bytes("XT1;")
            } else {
                ascii_bytes("XT0;")
            },
        }
    }

    /// Parse an unsolicited (native push) frame into a mutation, if recognized.
    #[must_use]
    pub fn parse_event(&self, frame: &[u8]) -> (r: Option<StateMutation>)
        ensures
            r == event_mutation(frame@),
    {
        let (verb, payload) = match split_frame(frame) {
            Some(split) => split,
            None => return None,
        };
        if is_ascii_text(verb, "FA") {
            match parse_number(payload) {
                Some(hz) => Some(StateMutation::SetVfoFreq { vfo: Vfo::A, hz }),
                None => None,
            }
        } else if is_ascii_text(verb, "FB") {
            match parse_number(payload) {
                Some(hz) => Some(StateMutation::SetVfoFreq { vfo: Vfo::B, hz }),
                None => None,
            }
        } else if is_ascii_text(verb, "MD") {
            if payload.len() > 0 {
                Some(
                    StateMutation::SetMode {
                        vfo: Vfo::A,
                        mode: Mode::from_kenwood_digit(payload[0]),
                    },
                )
            } else {
                None
            }
        } else if is_ascii_text(verb, "DA") {
            if payload.len() > 0 {
                Some(StateMutation::SetDataMode { vfo: Vfo::A, on: payload[0] == 0x31 })
            } else {
                None
            }
        } else if is_ascii_text(verb, "IF") {
            match parse_if_status(frame) {
                Some(status) => Some(StateMutation::SetRxVfo { vfo: status.rx_vfo }),
                None => None,
            }
        } else {
            None
        }
    }

    /// The changes that a frame from the radio reports, if it is recognized.
    #[must_use]
    pub fn changes_in(frame: &[u8], rx_vfo: Vfo) -> (r: Option<Vec<StateChange>>)
        ensures
            match r {
                Some(changes) => event_changes(frame@, rx_vfo) == Some(changes@),
                None => event_changes(frame@, rx_vfo) is None,
            },
    {
        if let Some(status) = parse_if_status(frame) {
            let changes = vec![
                StateChange::Freq { vfo: status.rx_vfo, hz: status.freq_hz },
                StateChange::Mode { vfo: status.rx_vfo, mode: status.mode },
                StateChange::Ptt { keyed: status.ptt },
                StateChange::Split { enabled: status.split, tx_vfo: None },
                StateChange::RxVfo { vfo: status.rx_vfo },
            ];
            proof {
                assert(changes@ =~= if_changes(status));
            }
            return Some(changes);
        }
        let (verb, payload) = match split_frame(frame) {
            Some(split) => split,
            None => return None,
        };
        let change = if is_ascii_text(verb, "FA") {
            match parse_number(payload) {
                Some(hz) => StateChange::Freq { vfo: Vfo::A, hz },
                None => return None,
            }
        } else if is_ascii_text(verb, "FB") {
            match parse_number(payload) {
                Some(hz) => StateChange::Freq { vfo: Vfo::B, hz },
                None => return None,
            }
        } else if is_ascii_text(verb, "FR") {
            match parse_rx_vfo_digit(payload) {
                Some(vfo) => StateChange::RxVfo { vfo },
                None => return None,
            }
        } else if is_ascii_text(verb, "MD") {
            if payload.len() == 0 {
                return None;
            }
            StateChange::Mode { vfo: rx_vfo, mode: Mode::from_kenwood_digit(payload[0]) }
        } else if is_ascii_text(verb, "DA") {
            if payload.len() == 0 {
                return None;
            }
            StateChange::DataMode { vfo: rx_vfo, on: payload[0] == 0x31 }
        } else {
            return None;
        };
        let mut changes: Vec<StateChange> = Vec::new();
        changes.push(change);
        proof {
            assert(changes@ =~= seq![change]);
        }
        Some(changes)
    }

    /// Record a frame from the radio into the universal state, if it is recognized, and
    /// append what is to be announced.
    pub fn record_event(
        &self,
        frame: &[u8],
        state: &mut StateHandle,
        source: RadioEventSource,
        events: &mut Vec<RadioEvent>,
    ) -> (r: bool)
        ensures
            match event_changes(frame@, old(state)@.snapshot.rx_vfo) {
                Some(changes) => {
                    &&& r
                    &&& final(state)@ == recorded_all(old(state)@, changes, source)
                    &&& final(events)@ == old(events)@ + announced(old(state)@, changes, source)
                },
                None => !r && final(state)@ == old(state)@ && final(events)@ == old(events)@,
            },
    {
        match Self::changes_in(frame, state.snapshot().rx_vfo) {
            Some(changes) => {
                state.record_all(&changes, source, events);
                true
            },
            None => false,
        }
    }

    /// What to expect after a raw native command: a query is answered under its verb.
    #[must_use]
    pub fn passthrough_expect(raw: &[u8]) -> (r: Expect)
        ensures
            r@ == match parts(raw@) {
                Some((verb, payload)) => if payload.len() == 0 {
                    ExpectView::Reply(seq![verb])
                } else {
                    ExpectView::NoReply
                },
                None => ExpectView::NoReply,
            },
    {
        match split_frame(raw) {
            Some((verb, payload)) => if payload.len() == 0 {
                let mut verbs: Vec<Vec<u8>> = Vec::new();
                verbs.push(vstd::slice::slice_to_vec(verb));
                proof {
                    assert(byte_seqs(verbs@) =~= seq![verb@]);
                }
                Expect::Reply(verbs)
            } else {
                Expect::NoReply
            },
            None => Expect::NoReply,
        }
    }

    /// The backend's advertised capabilities.
    #[must_use]
    pub fn capabilities(&self) -> (r: BackendCapabilities)
        ensures
            ts590_capabilities(r),
    {
        BackendCapabilities {
            model: "TS-590".to_owned(),
            vfo_count: 2,
            has_rit: true,
            has_xit: true,
            has_smeter: true,
            split: SplitStyle::VfoPair,
            native_push: true,
            native_command_family: Some(NativeCommandFamily::Kenwood),
            framing: Framing::SemicolonTerminated,
            freq_min_hz: 30_000,
            freq_max_hz: 60_000_000,
            trust: TrustTier::CertifiedNative,
        }
    }

    /// The command that enables the radio's native push stream.
    #[must_use]
    pub fn native_push_enable(&self) -> (r: Option<Vec<u8>>)
        ensures
            r matches Some(bytes) && bytes@ == ascii("AI2;"@),
    {
        Some(ascii_bytes("AI2;"))
    }
}

/// The bytes of the literals that the laws below speak of.
proof fn lemma_literals()
    ensures
        ascii("FA"@) =~= seq![0x46u8, 0x41],
        ascii("FB"@) =~= seq![0x46u8, 0x42],
        ascii("IF"@) =~= seq![0x49u8, 0x46],
        ascii("MD"@) =~= seq![0x4du8, 0x44],
        ascii("DA"@) =~= seq![0x44u8, 0x41],
        ascii("FR"@) =~= seq![0x46u8, 0x52],
        ascii("FT"@) =~= seq![0x46u8, 0x54],
        ascii(";"@) =~= seq![0x3bu8],
{
    reveal_strlit("FA");
    reveal_strlit("FB");
    reveal_strlit("IF");
    reveal_strlit("MD");
    reveal_strlit("DA");
    reveal_strlit("FR");
    reveal_strlit("FT");
    reveal_strlit(";");
}

/// The frame that sets a frequency reports that frequency when the radio sends it.
pub proof fn law_freq_set_is_read_back(vfo: Vfo, hz: u64, rx_vfo: Vfo)
    ensures
        event_changes(freq_bytes(vfo, hz), rx_vfo) == Some(seq![StateChange::Freq { vfo, hz }]),
        event_mutation(freq_bytes(vfo, hz)) == Some(StateMutation::SetVfoFreq { vfo, hz }),
{
    lemma_literals();
    let verb = match vfo {
        Vfo::A => ascii("FA"@),
        Vfo::B => ascii("FB"@),
    };
    let digits = crate::ascii::padded(hz as nat, 11);
    let payload = ascii(digits);
    crate::ascii::lemma_padded_digits(hz as nat, 11);
    crate::ascii::law_number_round_trip(hz as nat, 11);
    assert forall|i: int| 0 <= i < payload.len() implies 0x30 <= #[trigger] payload[i] <= 0x39 by {
        assert(crate::text::is_digit(digits[i]));
    }
    assert(0x30 <= payload[0] <= 0x39);
    crate::kenwood::law_parts_of_frame(verb, payload);
    assert(verb[0] != ascii("IF"@)[0]);
    assert(ascii("FA"@)[1] != ascii("FB"@)[1]);
}

/// The frame that sets a mode reports that mode, for the receive VFO, when the radio sends
/// it. The unknown mode is written as USB.
pub proof fn law_mode_set_is_read_back(vfo: Vfo, mode: Mode, snapshot: Snapshot, rx_vfo: Vfo)
    requires
        mode != Mode::Unknown,
    ensures
        event_changes(write_bytes(StateMutation::SetMode { vfo, mode }, snapshot), rx_vfo) == Some(
            seq![StateChange::Mode { vfo: rx_vfo, mode }],
        ),
{
    lemma_literals();
    crate::model::law_kenwood_digits(mode);
    let frame = byte_frame("MD"@, mode.digit());
    let payload = seq![mode.digit()];
    crate::kenwood::law_parts_of_frame(ascii("MD"@), payload);
    assert(frame =~= ascii("MD"@) + payload + seq![crate::kenwood::TERMINATOR]);
    assert(ascii("MD"@)[0] != ascii("IF"@)[0]);
    assert(ascii("MD"@)[0] != ascii("FA"@)[0]);
    assert(ascii("MD"@)[0] != ascii("FB"@)[0]);
    assert(ascii("MD"@)[0] != ascii("FR"@)[0]);
}

/// Polling never retargets a VFO: every poll command is a query, and its verb is neither
/// `FR` nor `FT`.
pub proof fn law_poll_never_retargets(index: int)
    ensures
        query(poll_bytes(index)),
        parts(poll_bytes(index)) == Some((ascii(poll_verb(index)), Seq::<u8>::empty())),
        ascii(poll_verb(index)) != ascii("FR"@),
        ascii(poll_verb(index)) != ascii("FT"@),
{
    lemma_literals();
    let verb = ascii(poll_verb(index));
    crate::kenwood::law_parts_of_frame(verb, Seq::empty());
    assert(verb + Seq::<u8>::empty() + seq![crate::kenwood::TERMINATOR] =~= poll_bytes(index));
    assert(verb[0] != 0x46 || verb[1] == 0x41 || verb[1] == 0x42);
    assert(ascii("FR"@)[1] == 0x52);
    assert(ascii("FT"@)[1] == 0x54);
}

/// Apart from selecting the receive VFO and setting the split, no write retargets a VFO: it
/// is a single frame whose verb is neither `FR` nor `FT`.
pub proof fn law_writes_do_not_retarget(mutation: StateMutation, snapshot: Snapshot)
    requires
        !(mutation is SetRxVfo),
        !(mutation is SetSplit),
    ensures
        ({
            let bytes = write_bytes(mutation, snapshot);
            &&& !crate::ascii::begins_with(bytes, ascii("FR"@))
            &&& !crate::ascii::begins_with(bytes, ascii("FT"@))
            &&& crate::kenwood::until(bytes, crate::kenwood::TERMINATOR) == bytes.len() - 1
        }),
{
    lemma_literals();
    reveal_strlit("DA1;");
    reveal_strlit("DA0;");
    reveal_strlit("RX;");
    reveal_strlit("TX;");
    reveal_strlit("TX0;");
    reveal_strlit("TX1;");
    reveal_strlit("RT1;");
    reveal_strlit("RT0;");
    reveal_strlit("XT1;");
    reveal_strlit("XT0;");
    let bytes = write_bytes(mutation, snapshot);
    let last = bytes.len() - 1;
    match mutation {
        StateMutation::SetVfoFreq { vfo, hz } => {
            let digits = crate::ascii::padded(hz as nat, 11);
            crate::ascii::lemma_padded_digits(hz as nat, 11);
            assert forall|i: int| 0 <= i < last implies #[trigger] bytes[i]
                != crate::kenwood::TERMINATOR by {
                if i >= 2 {
                    assert(bytes[i] == ascii(digits)[i - 2]);
                    assert(crate::text::is_digit(digits[i - 2]));
                }
            }
        },
        _ => {},
    }
    assert(bytes[0] == 0x46 ==> bytes[1] == 0x41 || bytes[1] == 0x42);
    assert(bytes.take(2)[0] == bytes[0]);
    assert(bytes.take(2)[1] == bytes[1]);
    assert(ascii("FR"@)[0] == 0x46);
    assert(ascii("FR"@)[1] == 0x52);
    assert(ascii("FT"@)[0] == 0x46);
    assert(ascii("FT"@)[1] == 0x54);
    assert(bytes[last] == crate::kenwood::TERMINATOR);
    crate::kenwood::lemma_until_at(bytes, crate::kenwood::TERMINATOR, last);
}

/// The frame of a selector, such as `FT1;`, by its verb and its digit.
proof fn lemma_selector(verb: Seq<char>, digit: char, frame: Seq<char>)
    requires
        verb.len() == 2,
        frame == verb + seq![digit, ';'],
    ensures
        byte_frame(verb, digit as u8) == ascii(frame),
{
    assert(byte_frame(verb, digit as u8) =~= ascii(frame));
}

proof fn lemma_selectors()
    ensures
        byte_frame("FR"@, 0x30) == ascii("FR0;"@),
        byte_frame("FR"@, 0x31) == ascii("FR1;"@),
        byte_frame("FT"@, 0x30) == ascii("FT0;"@),
        byte_frame("FT"@, 0x31) == ascii("FT1;"@),
        ascii("FR0;FT0;"@) == ascii("FR0;"@) + ascii("FT0;"@),
        ascii("FT0;"@) != ascii("FT1;"@),
        ascii("FR0;"@) != ascii("FR1;"@),
{
    reveal_strlit("FR");
    reveal_strlit("FT");
    reveal_strlit("FR0;");
    reveal_strlit("FR1;");
    reveal_strlit("FT0;");
    reveal_strlit("FT1;");
    reveal_strlit("FR0;FT0;");
    assert("FR0;"@ =~= "FR"@ + seq!['0', ';']);
    assert("FR1;"@ =~= "FR"@ + seq!['1', ';']);
    assert("FT0;"@ =~= "FT"@ + seq!['0', ';']);
    assert("FT1;"@ =~= "FT"@ + seq!['1', ';']);
    lemma_selector("FR"@, '0', "FR0;"@);
    lemma_selector("FR"@, '1', "FR1;"@);
    lemma_selector("FT"@, '0', "FT0;"@);
    lemma_selector("FT"@, '1', "FT1;"@);
    assert(ascii("FR0;FT0;"@) =~= ascii("FR0;"@) + ascii("FT0;"@));
    assert(ascii("FT0;"@)[2] == 0x30 && ascii("FT1;"@)[2] == 0x31);
    assert(ascii("FR0;"@)[2] == 0x30 && ascii("FR1;"@)[2] == 0x31);
}

/// The VFOs of a radio that follows the selectors it is sent.
pub struct RigVfos {
    /// The receive VFO.
    pub rx: Vfo,
    /// The transmit VFO.
    pub tx: Vfo,
}

/// The VFOs after one frame: `FR` selects the receive VFO, `FT` the transmit VFO, and nothing
/// else selects.
pub open spec fn followed(rig: RigVfos, frame: Seq<u8>) -> RigVfos {
    if frame == ascii("FR0;"@) {
        RigVfos { rx: Vfo::A, ..rig }
    } else if frame == ascii("FR1;"@) {
        RigVfos { rx: Vfo::B, ..rig }
    } else if frame == ascii("FT0;"@) {
        RigVfos { tx: Vfo::A, ..rig }
    } else if frame == ascii("FT1;"@) {
        RigVfos { tx: Vfo::B, ..rig }
    } else {
        rig
    }
}

/// Switching split on writes two selectors, and a radio that follows them receives on VFO A
/// and transmits on the VFO that was asked for, which is VFO B where none was. Switching it
/// off leaves both on VFO A. So the two VFOs are never written alike, and split with the
/// transmit VFO B is never written like no split.
pub proof fn law_split_reaches_the_radio(
    snapshot: Snapshot,
    enabled: bool,
    tx_vfo: Option<Vfo>,
    rig: RigVfos,
)
    ensures
        ({
            let wanted = if !enabled || tx_vfo == Some(Vfo::A) {
                Vfo::A
            } else {
                Vfo::B
            };
            let select = if wanted == Vfo::A {
                ascii("FT0;"@)
            } else {
                ascii("FT1;"@)
            };
            &&& write_bytes(StateMutation::SetSplit { enabled, tx_vfo }, snapshot) == ascii(
                "FR0;"@,
            ) + select
            &&& followed(followed(rig, ascii("FR0;"@)), select) == (RigVfos {
                rx: Vfo::A,
                tx: wanted,
            })
        }),
        write_bytes(StateMutation::SetSplit { enabled: true, tx_vfo: Some(Vfo::B) }, snapshot)
            != write_bytes(
            StateMutation::SetSplit { enabled: true, tx_vfo: Some(Vfo::A) },
            snapshot,
        ),
        write_bytes(StateMutation::SetSplit { enabled: true, tx_vfo: Some(Vfo::B) }, snapshot)
            != write_bytes(StateMutation::SetSplit { enabled: false, tx_vfo }, snapshot),
{
    lemma_selectors();
    let on_b = ascii("FR0;"@) + ascii("FT1;"@);
    let on_a = ascii("FR0;"@) + ascii("FT0;"@);
    reveal_strlit("FR0;");
    reveal_strlit("FT0;");
    reveal_strlit("FT1;");
    assert(on_b[6] == 0x31 && on_a[6] == 0x30);
    assert(ascii("FR0;"@)[1] == 0x52 && ascii("FT0;"@)[1] == 0x54 && ascii("FT1;"@)[1] == 0x54);
    reveal_strlit("FR1;");
    assert(ascii("FR1;"@)[1] == 0x52);
}

/// Selecting the receive VFO writes its selector, and names the transmit VFO again where split
/// is on, so that a radio that follows it keeps transmitting where it did.
pub proof fn law_rx_vfo_reaches_the_radio(snapshot: Snapshot, vfo: Vfo, rig: RigVfos)
    ensures
        ({
            let rx = if vfo == Vfo::A {
                ascii("FR0;"@)
            } else {
                ascii("FR1;"@)
            };
            let tx = if snapshot.tx_vfo == Vfo::A {
                ascii("FT0;"@)
            } else {
                ascii("FT1;"@)
            };
            let written = write_bytes(StateMutation::SetRxVfo { vfo }, snapshot);
            &&& !snapshot.split ==> written == rx && followed(rig, rx) == (RigVfos {
                rx: vfo,
                ..rig
            })
            &&& snapshot.split ==> written == rx + tx && followed(followed(rig, rx), tx) == (
            RigVfos { rx: vfo, tx: snapshot.tx_vfo })
        }),
{
    lemma_selectors();
    reveal_strlit("FR0;");
    reveal_strlit("FR1;");
    reveal_strlit("FT0;");
    reveal_strlit("FT1;");
    assert(ascii("FR0;"@)[1] == 0x52 && ascii("FR1;"@)[1] == 0x52);
    assert(ascii("FT0;"@)[1] == 0x54 && ascii("FT1;"@)[1] == 0x54);
    let rx = if vfo == Vfo::A {
        ascii("FR0;"@)
    } else {
        ascii("FR1;"@)
    };
    assert(rx + Seq::<u8>::empty() =~= rx);
}

/// Keying and unkeying, whatever the state is: only `RX;` unkeys, and each audio path has a
/// frame of its own.
pub proof fn law_keying_reaches_the_radio(snapshot: Snapshot, source: PttSource)
    ensures
        write_bytes(StateMutation::SetPtt { keyed: false, source }, snapshot) == ascii("RX;"@),
        write_bytes(StateMutation::SetPtt { keyed: true, source }, snapshot) == match source {
            PttSource::Generic => ascii("TX;"@),
            PttSource::Mic => ascii("TX0;"@),
            PttSource::Data => ascii("TX1;"@),
        },
        write_bytes(StateMutation::SetPtt { keyed: true, source }, snapshot) != write_bytes(
            StateMutation::SetPtt { keyed: false, source },
            snapshot,
        ),
{
    reveal_strlit("RX;");
    reveal_strlit("TX;");
    reveal_strlit("TX0;");
    reveal_strlit("TX1;");
    assert(ascii("RX;"@)[0] == 0x52);
    assert(ascii("TX;"@)[0] == 0x54);
    assert(ascii("TX0;"@)[0] == 0x54);
    assert(ascii("TX1;"@)[0] == 0x54);
}

/// The DATA flag, RIT and XIT are switched on with a one and off with a zero, and the DATA flag
/// is read back from the frame that sets it.
pub proof fn law_switches_reach_the_radio(
    snapshot: Snapshot,
    vfo: Vfo,
    on: bool,
    offset_hz: i32,
    rx_vfo: Vfo,
)
    ensures
        write_bytes(StateMutation::SetDataMode { vfo, on }, snapshot) == if on {
            ascii("DA1;"@)
        } else {
            ascii("DA0;"@)
        },
        write_bytes(StateMutation::SetRit { offset_hz, enabled: on }, snapshot) == if on {
            ascii("RT1;"@)
        } else {
            ascii("RT0;"@)
        },
        write_bytes(StateMutation::SetXit { offset_hz, enabled: on }, snapshot) == if on {
            ascii("XT1;"@)
        } else {
            ascii("XT0;"@)
        },
        event_changes(write_bytes(StateMutation::SetDataMode { vfo, on }, snapshot), rx_vfo)
            == Some(seq![StateChange::DataMode { vfo: rx_vfo, on }]),
{
    lemma_literals();
    reveal_strlit("DA1;");
    reveal_strlit("DA0;");
    let payload = seq![
        if on {
            0x31u8
        } else {
            0x30u8
        },
    ];
    crate::kenwood::law_parts_of_frame(ascii("DA"@), payload);
    assert(write_bytes(StateMutation::SetDataMode { vfo, on }, snapshot) =~= ascii("DA"@) + payload
        + seq![crate::kenwood::TERMINATOR]);
    assert(ascii("DA"@)[0] != ascii("IF"@)[0]);
    assert(ascii("DA"@)[0] != ascii("FA"@)[0]);
    assert(ascii("DA"@)[0] != ascii("MD"@)[0]);
}

/// A frequency or a mode is written under the verb of its own, with the digits of its value:
/// `FA` for VFO A, `FB` for VFO B and `MD` for the mode.
pub proof fn law_values_reach_the_radio(snapshot: Snapshot, vfo: Vfo, hz: u64, mode: Mode)
    ensures
        ({
            let written = write_bytes(StateMutation::SetVfoFreq { vfo, hz }, snapshot);
            let digits = crate::ascii::padded(hz as nat, 11);
            &&& written == ascii(
                if vfo == Vfo::A {
                    "FA"@
                } else {
                    "FB"@
                },
            ) + ascii(digits) + ascii(";"@)
            &&& crate::text::all_digits(digits)
            &&& crate::text::digits_value(digits) == hz
            &&& digits.len() >= 11
        }),
        write_bytes(StateMutation::SetMode { vfo, mode }, snapshot) == ascii("MD"@) + seq![
            mode.digit(),
        ] + ascii(";"@),
{
    lemma_literals();
    crate::ascii::law_padded_digits(hz as nat, 11);
    assert(write_bytes(StateMutation::SetMode { vfo, mode }, snapshot) =~= ascii("MD"@) + seq![
        mode.digit(),
    ] + ascii(";"@));
}

/// What the radio says of its receive VFO is taken over: a selector is that VFO, and any other
/// digit, as in a memory mode, is nothing.
pub proof fn law_selectors_are_read(digit: u8, rx_vfo: Vfo)
    requires
        !crate::kenwood::is_letter(digit),
        digit != crate::kenwood::TERMINATOR,
    ensures
        event_changes(ascii("FR"@) + seq![digit] + ascii(";"@), rx_vfo) == if digit == '0' as u8 {
            Some(seq![StateChange::RxVfo { vfo: Vfo::A }])
        } else if digit == '1' as u8 {
            Some(seq![StateChange::RxVfo { vfo: Vfo::B }])
        } else {
            None
        },
{
    lemma_literals();
    crate::kenwood::law_parts_of_frame(ascii("FR"@), seq![digit]);
    assert(ascii("FR"@) + seq![digit] + ascii(";"@) =~= ascii("FR"@) + seq![digit] + seq![
        crate::kenwood::TERMINATOR,
    ]);
    assert(ascii("FR"@)[0] != ascii("IF"@)[0]);
    assert(ascii("FR"@)[1] != ascii("FA"@)[1]);
    assert(ascii("FR"@)[1] != ascii("FB"@)[1]);
}

/// A baseline poll asks for both frequencies, the status, the mode and the DATA flag, in that
/// order, and for nothing else.
pub proof fn law_poll_asks(index: int)
    requires
        0 <= index < POLL_COUNT,
    ensures
        POLL_COUNT == 5,
        poll_bytes(index) == ascii(
            if index == 0 {
                "FA;"@
            } else if index == 1 {
                "FB;"@
            } else if index == 2 {
                "IF;"@
            } else if index == 3 {
                "MD;"@
            } else {
                "DA;"@
            },
        ),
{
    lemma_literals();
    reveal_strlit("FA;");
    reveal_strlit("FB;");
    reveal_strlit("IF;");
    reveal_strlit("MD;");
    reveal_strlit("DA;");
    assert(poll_bytes(0) =~= ascii("FA;"@));
    assert(poll_bytes(1) =~= ascii("FB;"@));
    assert(poll_bytes(2) =~= ascii("IF;"@));
    assert(poll_bytes(3) =~= ascii("MD;"@));
    assert(poll_bytes(4) =~= ascii("DA;"@));
}

} // verus!
