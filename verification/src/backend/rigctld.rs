//! Out-of-process `rigctld` bridge backend (breadth path, uncertified by default).
//!
//! The daemon is the *sole client* of a daemon-private `rigctld` and speaks the rigctld
//! net protocol as a client. It provides modeled control (frequency, mode, PTT, split)
//! across every rig Hamlib supports, using each rig's correct native model. It carries
//! **no** native passthrough (rigctld normalizes the CAT away) and reports no native command
//! family, so an `EX`-menu passthrough fails closed.

use vstd::prelude::*;

use crate::ascii::ascii;
use crate::ascii::ascii_bytes;
use crate::ascii::all_ascii;
use crate::ascii::number_in;
use crate::ascii::parse_number;
use crate::ascii::push_ascii;
use crate::ascii::push_number;
use crate::backend::BackendCapabilities;
use crate::backend::Framing;
use crate::backend::SplitStyle;
use crate::backend::TrustTier;
use crate::error::BackendError;
use crate::error::Failure;
use crate::kenwood::lemma_until_at;
use crate::kenwood::until;
use crate::model::Mode;
use crate::model::PttSource;
use crate::model::StateChange;
use crate::model::StateMutation;
use crate::model::Vfo;
use crate::radio::transport::Expect;
use crate::radio::transport::ExpectView;
use crate::state::Snapshot;
use crate::text::after_prefix;
use crate::text::decimal;
use crate::text::eq_ignore_ascii_case;
use crate::text::same_ignoring_case;
use crate::text::same_text;
use crate::text::signed_decimal;
use crate::text::strip_prefix;
use crate::text::text_or_empty;
use crate::text::trim;
use crate::text::trimmed;
use crate::text::utf8_or_empty;

verus! {

/// The byte that ends a line.
pub const NEWLINE: u8 = 0x0a;

/// How many commands a baseline poll sends.
pub const POLL_COUNT: usize = 3;

/// What stands before the first line end.
pub open spec fn line_one(bytes: Seq<u8>) -> Seq<u8> {
    bytes.take(until(bytes, NEWLINE) as int)
}

/// A line by its number, counted from zero; nothing where there is no such line.
pub open spec fn line_at(bytes: Seq<u8>, n: nat) -> Seq<u8>
    decreases n,
{
    if n == 0 {
        line_one(bytes)
    } else if until(bytes, NEWLINE) >= bytes.len() {
        Seq::empty()
    } else {
        line_at(bytes.skip((until(bytes, NEWLINE) + 1) as int), (n - 1) as nat)
    }
}

/// The text of a line without white space around it.
pub open spec fn line_text(line: Seq<u8>) -> Seq<char> {
    trimmed(utf8_or_empty(line))
}

/// Whether a reply reports a fault: a code other than zero behind `RPRT`. What is no such
/// report is no fault.
pub open spec fn rprt_fault(bytes: Seq<u8>) -> Option<Failure> {
    let text = line_text(line_one(bytes));
    match after_prefix(text, "RPRT "@) {
        Some(code) => if trimmed(code) == "0"@ {
            None
        } else {
            Some(Failure::Rejected("rigctld "@ + text))
        },
        None => None,
    }
}

/// The number of the audio path of a key request; zero unkeys.
pub open spec fn ptt_number(keyed: bool, source: PttSource) -> nat {
    if !keyed {
        0
    } else {
        match source {
            PttSource::Generic => 1,
            PttSource::Mic => 2,
            PttSource::Data => 3,
        }
    }
}

/// The line that applies a mutation, if the bridge has one for it. The DATA flag is folded
/// into the mode known so far, since the bridge speaks combined mode tokens.
pub open spec fn write_line(mutation: StateMutation, snapshot: Snapshot) -> Option<Seq<char>> {
    match mutation {
        StateMutation::SetVfoFreq { vfo, hz } => Some("F "@ + decimal(hz as nat) + "\n"@),
        StateMutation::SetMode { vfo, mode } => Some("M "@ + mode.token() + " 0\n"@),
        StateMutation::SetDataMode { vfo, on } => Some(
            "M "@ + snapshot.of(vfo).mode.data_token(on) + " 0\n"@,
        ),
        StateMutation::SetSplit { enabled, tx_vfo } => Some(
            "S "@ + decimal(
                if enabled {
                    1
                } else {
                    0
                },
            ) + " "@ + (match tx_vfo {
                Some(Vfo::A) => "VFOA"@,
                _ => "VFOB"@,
            }) + "\n"@,
        ),
        StateMutation::SetPtt { keyed, source } => Some(
            "T "@ + decimal(ptt_number(keyed, source)) + "\n"@,
        ),
        StateMutation::SetRxVfo { vfo } => None,
        StateMutation::SetRit { offset_hz, enabled } => None,
        StateMutation::SetXit { offset_hz, enabled } => None,
    }
}

/// The changes that the reply to a step of the baseline poll reports.
pub open spec fn poll_changes(index: int, reply: Seq<u8>) -> Seq<StateChange> {
    if index == 0 {
        match number_in(line_one(reply)) {
            Some(hz) => seq![StateChange::Freq { vfo: Vfo::A, hz: hz as u64 }],
            None => Seq::empty(),
        }
    } else if index == 1 {
        seq![
            StateChange::Mode {
                vfo: Vfo::A,
                mode: Mode::of_token(trimmed(utf8_or_empty(line_one(reply)))),
            },
        ]
    } else {
        seq![
            StateChange::Split {
                enabled: line_text(line_one(reply)) == "1"@,
                tx_vfo: Some(
                    if same_ignoring_case(line_text(line_at(reply, 1)), "VFOB"@) {
                        Vfo::B
                    } else {
                        Vfo::A
                    },
                ),
            },
        ]
    }
}

/// What stands before the first line end.
#[must_use]
pub fn first_line<'a>(bytes: &'a [u8]) -> (r: &'a [u8])
    ensures
        r@ == line_one(bytes@),
{
    let end: usize = line_end(bytes, 0);
    let r = vstd::slice::slice_subrange(bytes, 0, end);
    proof {
        assert(bytes@.skip(0) =~= bytes@);
        assert(r@ =~= line_one(bytes@));
    }
    r
}

/// Where the line that starts at `from` ends.
fn line_end(bytes: &[u8], from: usize) -> (end: usize)
    requires
        from <= bytes@.len(),
    ensures
        from <= end <= bytes@.len(),
        end == from + until(bytes@.skip(from as int), NEWLINE),
{
    let mut end: usize = from;
    while end < bytes.len() && bytes[end] != NEWLINE
        invariant
            from <= end <= bytes@.len(),
            until(bytes@.skip(from as int), NEWLINE) == end - from + until(
                bytes@.skip(end as int),
                NEWLINE,
            ),
        decreases bytes@.len() - end,
    {
        proof {
            assert(bytes@.skip(end as int).skip(1) =~= bytes@.skip(end + 1));
        }
        end = end + 1;
    }
    end
}

/// A line by its number, counted from zero; nothing where there is no such line.
#[must_use]
pub fn nth_line<'a>(bytes: &'a [u8], n: usize) -> (r: &'a [u8])
    ensures
        r@ == line_at(bytes@, n as nat),
{
    let mut start: usize = 0;
    let mut left: usize = n;
    let len: usize = bytes.len();
    proof {
        assert(bytes@.skip(0) =~= bytes@);
    }
    while left > 0
        invariant
            len == bytes@.len(),
            start <= len,
            line_at(bytes@, n as nat) == line_at(bytes@.skip(start as int), left as nat),
        decreases left,
    {
        let end: usize = line_end(bytes, start);
        if end >= len {
            let r = vstd::slice::slice_subrange(bytes, len, len);
            proof {
                assert(r@ =~= Seq::<u8>::empty());
            }
            return r;
        }
        proof {
            let rest = bytes@.skip(start as int);
            assert(rest.skip((until(rest, NEWLINE) + 1) as int) =~= bytes@.skip(end + 1));
        }
        start = end + 1;
        left = left - 1;
    }
    let end: usize = line_end(bytes, start);
    let r = vstd::slice::slice_subrange(bytes, start, end);
    proof {
        assert(r@ =~= line_one(bytes@.skip(start as int)));
    }
    r
}

/// Check a `RPRT <code>` reply; non-zero is an error.
///
/// # Errors
///
/// Returns an error when the reply reports a code other than zero.
pub fn check_rprt(bytes: &[u8]) -> (r: Result<(), BackendError>)
    ensures
        match r {
            Ok(()) => rprt_fault(bytes@) is None,
            Err(e) => rprt_fault(bytes@) == Some(e@),
        },
{
    let text = trim(text_or_empty(first_line(bytes)));
    match strip_prefix(text.as_str(), "RPRT ") {
        Some(code) => {
            let code = trim(code.as_str());
            if same_text(code.as_str(), "0") {
                Ok(())
            } else {
                let mut why = "rigctld ".to_owned();
                why.append(text.as_str());
                Err(BackendError::Rejected(why))
            }
        },
        None => Ok(()),
    }
}

/// Out-of-process `rigctld` bridge.
#[derive(Debug, Clone, PartialEq, Eq)]
pub struct RigctldBackend {
    model: String,
    certified: bool,
}

/// What a bridge advertises: no native commands, and trust only where it is certified.
pub open spec fn rigctld_capabilities(bridge: RigctldBackend, r: BackendCapabilities) -> bool {
    &&& r.model@ == "rigctld:"@ + bridge.model()
    &&& r.vfo_count == 2
    &&& !r.has_rit
    &&& !r.has_xit
    &&& !r.has_smeter
    &&& r.split == SplitStyle::VfoPair
    &&& !r.native_push
    &&& r.native_command_family is None
    &&& r.framing == Framing::LineTerminated
    &&& r.freq_min_hz == 30_000
    &&& r.freq_max_hz == 60_000_000
    &&& r.trust == if bridge.certified() {
        TrustTier::CertifiedNative
    } else {
        TrustTier::UncertifiedBridge
    }
}

impl RigctldBackend {
    /// The model that the bridge was made for.
    pub closed spec fn model(&self) -> Seq<char> {
        self.model@
    }

    /// Whether the operator has certified the bridge.
    pub closed spec fn certified(&self) -> bool {
        self.certified
    }

    /// Create a bridge backend. `certified` reflects whether the operator has run the
    /// soak for this rigctld version, model and config; it is `false` by default.
    #[must_use]
    pub fn new(model: &str, certified: bool) -> (r: Self)
        ensures
            r.model() == model@,
            r.certified() == certified,
    {
        RigctldBackend { model: model.to_owned(), certified }
    }

    /// The baseline poll: get-frequency, get-mode, get-split. All are read-only and never
    /// retarget a VFO, but the bridge cannot *certify* the radio-side wire, so it stays
    /// uncertified.
    #[must_use]
    pub fn poll_command(index: usize) -> (r: Option<(Vec<u8>, Expect)>)
        ensures
            match r {
                Some((bytes, expect)) => {
                    &&& index < POLL_COUNT
                    &&& index == 0 ==> bytes@ == ascii("f\n"@) && expect@ == ExpectView::Lines(1)
                    &&& index == 1 ==> bytes@ == ascii("m\n"@) && expect@ == ExpectView::Lines(2)
                    &&& index == 2 ==> bytes@ == ascii("s\n"@) && expect@ == ExpectView::Lines(2)
                },
                None => index >= POLL_COUNT,
            },
    {
        match index {
            0 => Some((ascii_bytes("f\n"), Expect::Lines(1))),
            1 => Some((ascii_bytes("m\n"), Expect::Lines(2))),
            2 => Some((ascii_bytes("s\n"), Expect::Lines(2))),
            _ => None,
        }
    }

    /// The changes that the reply to a step of the baseline poll reports.
    #[must_use]
    pub fn changes_in(index: usize, reply: &[u8]) -> (r: Vec<StateChange>)
        ensures
            r@ == poll_changes(index as int, reply@),
    {
        let mut changes: Vec<StateChange> = Vec::new();
        match index {
            0 => {
                if let Some(hz) = parse_number(first_line(reply)) {
                    changes.push(StateChange::Freq { vfo: Vfo::A, hz });
                }
            },
            1 => {
                let mode = Mode::from_hamlib_token(text_or_empty(first_line(reply)));
                changes.push(StateChange::Mode { vfo: Vfo::A, mode });
            },
            _ => {
                let first = trim(text_or_empty(first_line(reply)));
                let second = trim(text_or_empty(nth_line(reply, 1)));
                let enabled: bool = same_text(first.as_str(), "1");
                let tx_vfo = if eq_ignore_ascii_case(second.as_str(), "VFOB") {
                    Vfo::B
                } else {
                    Vfo::A
                };
                changes.push(StateChange::Split { enabled, tx_vfo: Some(tx_vfo) });
            },
        }
        proof {
            assert(changes@ =~= poll_changes(index as int, reply@));
        }
        changes
    }

    /// The line that applies a mutation, if the bridge has one for it.
    #[must_use]
    pub fn apply_bytes(mutation: StateMutation, snapshot: &Snapshot) -> (r: Option<Vec<u8>>)
        ensures
            match r {
                Some(bytes) => write_line(mutation, *snapshot) is Some && bytes@ == ascii(
                    write_line(mutation, *snapshot)->Some_0,
                ),
                None => write_line(mutation, *snapshot) is None,
            },
    {
        let mut out: Vec<u8> = Vec::new();
        match mutation {
            StateMutation::SetVfoFreq { vfo: _, hz } => {
                push_ascii(&mut out, "F ");
                push_number(&mut out, hz);
                push_ascii(&mut out, "\n");
            },
            StateMutation::SetMode { vfo: _, mode } => {
                push_ascii(&mut out, "M ");
                push_ascii(&mut out, mode.hamlib_token());
                push_ascii(&mut out, " 0\n");
            },
            StateMutation::SetDataMode { vfo, on } => {
                push_ascii(&mut out, "M ");
                push_ascii(&mut out, snapshot.vfo(vfo).mode.hamlib_token_with_data(on));
                push_ascii(&mut out, " 0\n");
            },
            StateMutation::SetSplit { enabled, tx_vfo } => {
                push_ascii(&mut out, "S ");
                push_number(
                    &mut out,
                    if enabled {
                        1
                    } else {
                        0
                    },
                );
                push_ascii(&mut out, " ");
                push_ascii(
                    &mut out,
                    match tx_vfo {
                        Some(Vfo::A) => "VFOA",
                        _ => "VFOB",
                    },
                );
                push_ascii(&mut out, "\n");
            },
            StateMutation::SetPtt { keyed, source } => {
                let number: u64 = if !keyed {
                    0
                } else {
                    match source {
                        PttSource::Generic => 1,
                        PttSource::Mic => 2,
                        PttSource::Data => 3,
                    }
                };
                push_ascii(&mut out, "T ");
                push_number(&mut out, number);
                push_ascii(&mut out, "\n");
            },
            _ => return None,
        }
        proof {
            assert(out@ =~= ascii(write_line(mutation, *snapshot)->Some_0));
        }
        Some(out)
    }

    /// The backend's advertised capabilities.
    #[must_use]
    pub fn capabilities(&self) -> (r: BackendCapabilities)
        ensures
            rigctld_capabilities(*self, r),
    {
        let mut model = "rigctld:".to_owned();
        model.append(self.model.as_str());
        BackendCapabilities {
            model,
            vfo_count: 2,
            has_rit: false,
            has_xit: false,
            has_smeter: false,
            split: SplitStyle::VfoPair,
            native_push: false,
            native_command_family: None,
            framing: Framing::LineTerminated,
            freq_min_hz: 30_000,
            freq_max_hz: 60_000_000,
            trust: if self.certified {
                TrustTier::CertifiedNative
            } else {
                TrustTier::UncertifiedBridge
            },
        }
    }
}

/// The line that unkeys is `T 0` whatever the radio does and wherever the request comes from,
/// and the line that keys names the audio path with 1, 2 or 3. No request to key is written as
/// the line that unkeys.
pub proof fn law_keying_reaches_the_bridge(snapshot: Snapshot, source: PttSource)
    ensures
        write_line(StateMutation::SetPtt { keyed: false, source }, snapshot) == Some("T 0\n"@),
        write_line(StateMutation::SetPtt { keyed: true, source }, snapshot) == Some(
            match source {
                PttSource::Generic => "T 1\n"@,
                PttSource::Mic => "T 2\n"@,
                PttSource::Data => "T 3\n"@,
            },
        ),
        ascii("T 0\n"@) != ascii("T 1\n"@),
        ascii("T 0\n"@) != ascii("T 2\n"@),
        ascii("T 0\n"@) != ascii("T 3\n"@),
        ascii("T 1\n"@) != ascii("T 2\n"@),
        ascii("T 1\n"@) != ascii("T 3\n"@),
        ascii("T 2\n"@) != ascii("T 3\n"@),
{
    reveal_strlit("T ");
    reveal_strlit("\n");
    reveal_strlit("T 0\n");
    reveal_strlit("T 1\n");
    reveal_strlit("T 2\n");
    reveal_strlit("T 3\n");
    assert("T "@ + decimal(0) + "\n"@ =~= "T 0\n"@);
    assert("T "@ + decimal(1) + "\n"@ =~= "T 1\n"@);
    assert("T "@ + decimal(2) + "\n"@ =~= "T 2\n"@);
    assert("T "@ + decimal(3) + "\n"@ =~= "T 3\n"@);
    assert(ascii("T 0\n"@)[2] == 48u8);
    assert(ascii("T 1\n"@)[2] == 49u8);
    assert(ascii("T 2\n"@)[2] == 50u8);
    assert(ascii("T 3\n"@)[2] == 51u8);
}

/// A frequency is written behind `F`, a mode behind `M` as a token that names it, and the DATA
/// flag as the token of the mode known so far with that flag; the passband is left to the radio.
pub proof fn law_values_reach_the_bridge(
    snapshot: Snapshot,
    vfo: Vfo,
    hz: u64,
    mode: Mode,
    on: bool,
    line: Seq<char>,
)
    ensures
        write_line(StateMutation::SetVfoFreq { vfo, hz }, snapshot) == Some(line) ==> {
            &&& line.len() > 3
            &&& line.take(2) == "F "@
            &&& line.last() == '\n'
            &&& number_in(ascii(line.subrange(2, line.len() - 1))) == Some(hz as nat)
        },
        mode != Mode::Unknown && write_line(StateMutation::SetMode { vfo, mode }, snapshot) == Some(
            line,
        ) ==> {
            &&& line.len() > 5
            &&& line.take(2) == "M "@
            &&& line.skip(line.len() - 3) == " 0\n"@
            &&& Mode::of_token(line.subrange(2, line.len() - 3)) == mode
        },
        write_line(StateMutation::SetDataMode { vfo, on }, snapshot) == Some(line) ==> {
            let known = match vfo {
                Vfo::A => snapshot.a.mode,
                Vfo::B => snapshot.b.mode,
            };
            &&& line.len() > 5
            &&& line.take(2) == "M "@
            &&& line.skip(line.len() - 3) == " 0\n"@
            &&& known != Mode::Unknown && (on ==> known == Mode::Usb || known == Mode::Lsb || known
                == Mode::Fm || known == Mode::Am) ==> Mode::of_data_token(
                line.subrange(2, line.len() - 3),
            ) == (known, on)
        },
        write_line(StateMutation::SetVfoFreq { vfo, hz }, snapshot) is Some,
        write_line(StateMutation::SetMode { vfo, mode }, snapshot) is Some,
        write_line(StateMutation::SetDataMode { vfo, on }, snapshot) is Some,
{
    reveal_strlit("F ");
    reveal_strlit("M ");
    reveal_strlit("\n");
    reveal_strlit(" 0\n");
    let digits = decimal(hz as nat);
    crate::ascii::law_number_round_trip(hz as nat, 0);
    crate::ascii::lemma_padded_digits(hz as nat, 0);
    let freq = "F "@ + digits + "\n"@;
    assert(freq.subrange(2, freq.len() - 1) =~= digits);
    assert(freq.take(2) =~= "F "@);
    crate::model::law_hamlib_tokens(mode, Seq::empty(), Seq::empty());
    lemma_token_size(mode, false);
    let plain = "M "@ + mode.token() + " 0\n"@;
    assert(plain.subrange(2, plain.len() - 3) =~= mode.token());
    assert(plain.take(2) =~= "M "@);
    assert(plain.skip(plain.len() - 3) =~= " 0\n"@);
    let known = snapshot.of(vfo).mode;
    lemma_token_size(known, on);
    let token = known.data_token(on);
    let flagged = "M "@ + token + " 0\n"@;
    assert(flagged.subrange(2, flagged.len() - 3) =~= token);
    assert(flagged.take(2) =~= "M "@);
    assert(flagged.skip(flagged.len() - 3) =~= " 0\n"@);
    if known != Mode::Unknown && (on ==> known == Mode::Usb || known == Mode::Lsb || known
        == Mode::Fm || known == Mode::Am) {
        crate::model::law_data_tokens(known, on, Seq::empty(), Seq::empty());
    }
}

proof fn lemma_token_size(mode: Mode, on: bool)
    ensures
        mode.data_token(on).len() > 0,
        mode.token().len() > 0,
        all_ascii(mode.token()),
        forall|i: int| 0 <= i < mode.token().len() ==> #[trigger] mode.token()[i] != '\n',
{
    reveal_strlit("LSB");
    reveal_strlit("USB");
    reveal_strlit("CW");
    reveal_strlit("CWR");
    reveal_strlit("RTTY");
    reveal_strlit("RTTYR");
    reveal_strlit("AM");
    reveal_strlit("FM");
    reveal_strlit("PKTUSB");
    reveal_strlit("PKTLSB");
    reveal_strlit("PKTFM");
    reveal_strlit("PKTAM");
}

/// Split is written as a flag and the VFO that the radio transmits on, B where none is named.
/// What the bridge has no line for is not written as something else.
pub proof fn law_split_reaches_the_bridge(
    snapshot: Snapshot,
    tx_vfo: Option<Vfo>,
    vfo: Vfo,
    offset_hz: i32,
    enabled: bool,
)
    ensures
        write_line(StateMutation::SetSplit { enabled: true, tx_vfo }, snapshot) == Some(
            if tx_vfo == Some(Vfo::A) {
                "S 1 VFOA\n"@
            } else {
                "S 1 VFOB\n"@
            },
        ),
        write_line(StateMutation::SetSplit { enabled: false, tx_vfo }, snapshot) == Some(
            if tx_vfo == Some(Vfo::A) {
                "S 0 VFOA\n"@
            } else {
                "S 0 VFOB\n"@
            },
        ),
        write_line(StateMutation::SetRxVfo { vfo }, snapshot) is None,
        write_line(StateMutation::SetRit { offset_hz, enabled }, snapshot) is None,
        write_line(StateMutation::SetXit { offset_hz, enabled }, snapshot) is None,
{
    reveal_strlit("S ");
    reveal_strlit(" ");
    reveal_strlit("\n");
    reveal_strlit("VFOA");
    reveal_strlit("VFOB");
    reveal_strlit("S 1 VFOA\n");
    reveal_strlit("S 1 VFOB\n");
    reveal_strlit("S 0 VFOA\n");
    reveal_strlit("S 0 VFOB\n");
    assert("S "@ + decimal(1) + " "@ + "VFOA"@ + "\n"@ =~= "S 1 VFOA\n"@);
    assert("S "@ + decimal(1) + " "@ + "VFOB"@ + "\n"@ =~= "S 1 VFOB\n"@);
    assert("S "@ + decimal(0) + " "@ + "VFOA"@ + "\n"@ =~= "S 0 VFOA\n"@);
    assert("S "@ + decimal(0) + " "@ + "VFOB"@ + "\n"@ =~= "S 0 VFOB\n"@);
}

/// A text in front of the first line end is the first line, and what follows it are the others.
proof fn lemma_first_line(line: Seq<char>, rest: Seq<char>)
    requires
        all_ascii(line),
        forall|i: int| 0 <= i < line.len() ==> #[trigger] line[i] != '\n',
    ensures
        line_one(ascii(line + seq!['\n'] + rest)) == ascii(line),
        utf8_or_empty(ascii(line)) == line,
        line_at(ascii(line + seq!['\n'] + rest), 1) == line_one(ascii(rest)),
{
    let text = line + seq!['\n'] + rest;
    let bytes = ascii(text);
    let at = line.len() as int;
    assert(text[at] == '\n');
    assert(bytes[at] == NEWLINE);
    assert forall|i: int| 0 <= i < at implies #[trigger] bytes[i] != NEWLINE by {
        assert(text[i] == line[i]);
        assert((line[i] as int) < 128);
        crate::ascii::law_ascii_bytes(line, i);
        assert(ascii(line)[i] == line[i] as u8);
        assert('\n' as int == 10);
    }
    lemma_until_at(bytes, NEWLINE, at);
    assert(line_one(bytes) =~= ascii(line));
    assert(bytes.skip(at + 1) =~= ascii(rest));
    crate::ascii::law_ascii_is_read_back(line);
    reveal_with_fuel(line_at, 2);
}

/// What a bridge answers is what the poll observes: the frequency and the mode of VFO A, and
/// split with the VFO that the radio transmits on. A reply that writes no frequency reports
/// none.
pub proof fn law_bridge_replies_are_read(
    hz: u64,
    mode: Mode,
    on: bool,
    tx_vfo: Vfo,
    rest: Seq<char>,
)
    requires
        mode != Mode::Unknown,
    ensures
        poll_changes(0, ascii(decimal(hz as nat) + "\n"@)) == seq![
            StateChange::Freq { vfo: Vfo::A, hz },
        ],
        poll_changes(0, ascii("RPRT -1\n"@)) == Seq::<StateChange>::empty(),
        poll_changes(1, ascii(mode.token() + "\n"@ + rest)) == seq![
            StateChange::Mode { vfo: Vfo::A, mode },
        ],
        poll_changes(
            2,
            ascii(
                (if on {
                    "1\n"@
                } else {
                    "0\n"@
                }) + (match tx_vfo {
                    Vfo::A => "VFOA\n"@,
                    Vfo::B => "VFOB\n"@,
                }),
            ),
        ) == seq![StateChange::Split { enabled: on, tx_vfo: Some(tx_vfo) }],
{
    reveal_strlit("\n");
    assert("\n"@ =~= seq!['\n']);
    let digits = decimal(hz as nat);
    crate::ascii::lemma_padded_digits(hz as nat, 0);
    crate::ascii::law_number_round_trip(hz as nat, 0);
    assert(crate::ascii::padded(hz as nat, 0) =~= digits);
    assert forall|i: int| 0 <= i < digits.len() implies #[trigger] digits[i] != '\n' && (
    digits[i] as int) < 128 by {
        assert(crate::text::is_digit(digits[i]));
    }
    lemma_first_line(digits, Seq::empty());
    assert(digits + seq!['\n'] + Seq::<char>::empty() =~= digits + "\n"@);
    lemma_no_number();
    let token = mode.token();
    lemma_token_size(mode, false);
    lemma_first_line(token, rest);
    crate::model::law_hamlib_tokens(mode, Seq::empty(), Seq::empty());
    assert(Seq::<char>::empty() + token + Seq::<char>::empty() =~= token);
    lemma_split_reply(on, tx_vfo);
}

proof fn lemma_no_number()
    ensures
        number_in(line_one(ascii("RPRT -1\n"@))) is None,
{
    reveal_strlit("RPRT -1\n");
    reveal_strlit("RPRT -1");
    let line = "RPRT -1"@;
    lemma_first_line(line, Seq::empty());
    assert(line + seq!['\n'] + Seq::<char>::empty() =~= "RPRT -1\n"@);
    assert(trimmed(line) == line);
    assert(!crate::text::is_digit(line[0]));
}

proof fn lemma_split_reply(on: bool, tx_vfo: Vfo)
    ensures
        ({
            let flag = if on {
                "1\n"@
            } else {
                "0\n"@
            };
            let name = match tx_vfo {
                Vfo::A => "VFOA\n"@,
                Vfo::B => "VFOB\n"@,
            };
            let reply = ascii(flag + name);
            &&& (line_text(line_one(reply)) == "1"@) == on
            &&& same_ignoring_case(line_text(line_at(reply, 1)), "VFOB"@) == (tx_vfo == Vfo::B)
        }),
{
    reveal_strlit("0");
    reveal_strlit("1");
    reveal_strlit("0\n");
    reveal_strlit("1\n");
    reveal_strlit("VFOA");
    reveal_strlit("VFOB");
    reveal_strlit("VFOA\n");
    reveal_strlit("VFOB\n");
    let digit = if on {
        "1"@
    } else {
        "0"@
    };
    let label = match tx_vfo {
        Vfo::A => "VFOA"@,
        Vfo::B => "VFOB"@,
    };
    let named = label + seq!['\n'] + Seq::<char>::empty();
    lemma_first_line(digit, named);
    lemma_first_line(label, Seq::empty());
    let flag = if on {
        "1\n"@
    } else {
        "0\n"@
    };
    let name = match tx_vfo {
        Vfo::A => "VFOA\n"@,
        Vfo::B => "VFOB\n"@,
    };
    assert(digit + seq!['\n'] + named =~= flag + name);
    assert(trimmed(digit) == digit);
    assert(trimmed(label) == label);
    assert("0"@[0] != "1"@[0]);
    assert(crate::text::lower_ascii("VFOA"@[3]) != crate::text::lower_ascii("VFOB"@[3]));
}

/// A report of zero is no fault, a report of any other number is, and it is passed on as it
/// reads. A reply that is no report is no fault either.
pub proof fn law_reports_are_read(code: i32, line: Seq<char>)
    ensures
        rprt_fault(ascii("RPRT 0\n"@)) is None,
        code != 0 ==> rprt_fault(ascii("RPRT "@ + signed_decimal(code as int) + "\n"@)) == Some(
            Failure::Rejected("rigctld RPRT "@ + signed_decimal(code as int)),
        ),
        all_ascii(line) && line.len() > 0 && line[0] != 'R' && !crate::text::is_space(line[0])
            && !crate::text::is_space(line.last()) && (forall|i: int|
            0 <= i < line.len() ==> #[trigger] line[i] != '\n') ==> rprt_fault(
            ascii(line + "\n"@),
        ) is None,
{
    reveal_strlit("\n");
    assert("\n"@ =~= seq!['\n']);
    reveal_strlit("RPRT ");
    reveal_strlit("RPRT 0");
    reveal_strlit("RPRT 0\n");
    reveal_strlit("0");
    reveal_strlit("rigctld ");
    reveal_strlit("rigctld RPRT ");
    let zero = "RPRT 0"@;
    lemma_first_line(zero, Seq::empty());
    assert(zero + seq!['\n'] + Seq::<char>::empty() =~= "RPRT 0\n"@);
    assert(trimmed(zero) == zero);
    assert(zero.take(5) =~= "RPRT "@);
    assert(zero.skip(5) =~= "0"@);
    assert(trimmed("0"@) == "0"@);
    if code != 0 {
        lemma_report(code);
    }
    if all_ascii(line) && line.len() > 0 && line[0] != 'R' && !crate::text::is_space(line[0])
        && !crate::text::is_space(line.last()) && (forall|i: int|
        0 <= i < line.len() ==> #[trigger] line[i] != '\n') {
        lemma_first_line(line, Seq::empty());
        assert(line + seq!['\n'] + Seq::<char>::empty() =~= line + "\n"@);
        assert(trimmed(line) == line);
        if line.len() >= 5 && line.take(5) == "RPRT "@ {
            assert(line.take(5)[0] == 'R');
        }
    }
}

proof fn lemma_report(code: i32)
    requires
        code != 0,
    ensures
        rprt_fault(ascii("RPRT "@ + signed_decimal(code as int) + "\n"@)) == Some(
            Failure::Rejected("rigctld RPRT "@ + signed_decimal(code as int)),
        ),
{
    reveal_strlit("\n");
    assert("\n"@ =~= seq!['\n']);
    reveal_strlit("RPRT ");
    reveal_strlit("0");
    reveal_strlit("rigctld ");
    reveal_strlit("rigctld RPRT ");
    let number = signed_decimal(code as int);
    let size = if code < 0 {
        (-code) as nat
    } else {
        code as nat
    };
    let digits = decimal(size);
    crate::ascii::lemma_padded_digits(size, 0);
    crate::ascii::lemma_decimal_value(size);
    assert(crate::ascii::padded(size, 0) =~= digits);
    assert forall|i: int| 0 <= i < number.len() implies #[trigger] number[i] != '\n' && (
    number[i] as int) < 128 && !crate::text::is_space(number[i]) by {
        if code >= 0 {
            assert(crate::text::is_digit(digits[i]));
        } else if i > 0 {
            assert(number[i] == digits[i - 1]);
            assert(crate::text::is_digit(digits[i - 1]));
        }
    }
    let text = "RPRT "@ + number;
    lemma_first_line(text, Seq::empty());
    assert(text + seq!['\n'] + Seq::<char>::empty() =~= "RPRT "@ + number + "\n"@);
    assert(text.last() == number.last());
    assert(trimmed(text) == text);
    assert(text.take(5) =~= "RPRT "@);
    assert(text.skip(5) =~= number);
    assert(trimmed(number) == number);
    if number == "0"@ {
        assert(number[0] == '0');
        reveal_with_fuel(crate::text::digits_value, 2);
        assert(number.drop_last() =~= Seq::empty());
        assert(code >= 0);
        assert(crate::text::digits_value(digits) == 0);
    }
    assert("rigctld "@ + text =~= "rigctld RPRT "@ + number);
}

} // verus!
