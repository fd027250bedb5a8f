//! Core domain types shared across the hub: VFO selection, operating mode, the
//! universal [`StateMutation`]/[`StateChange`] pair, the [`Field`] coverage key,
//! and the [`RadioEventSource`] provenance tag.
//!
//! These are backend- and dialect-independent. Backends map their native wire
//! vocabulary to and from these types; dialects render them into client
//! vocabularies.

use vstd::prelude::*;

use crate::text::after_prefix;
use crate::text::same_text;
use crate::text::strip_prefix;
use crate::text::trim;
use crate::text::blank;
use crate::text::lemma_trimmed_blank;
use crate::text::trimmed;

pub use crate::power::TxPower;

verus! {

/// Identifies one of the radio's two VFOs.
#[derive(Debug, Clone, Copy, PartialEq, Eq, Structural)]
pub enum Vfo {
    /// VFO A.
    A,
    /// VFO B.
    B,
}

/// Operating mode, normalized across radio families.
#[derive(Debug, Clone, Copy, PartialEq, Eq, Structural)]
pub enum Mode {
    /// Lower sideband.
    Lsb,
    /// Upper sideband.
    Usb,
    /// CW (normal).
    Cw,
    /// CW reverse.
    CwR,
    /// FSK / RTTY.
    Fsk,
    /// FSK / RTTY reverse.
    FskR,
    /// AM.
    Am,
    /// FM.
    Fm,
    /// An unrecognized mode (treated as USB on the wire).
    Unknown,
}

/// Which transmit audio path a PTT key request selects.
///
/// This mirrors Hamlib's `RIG_PTT_ON*` family and the Kenwood `TX`/`TX0`/`TX1`
/// commands. Digital-mode clients such as WSJT-X request [`PttSource::Data`]
/// (`T 3` / `RIG_PTT_ON_DATA`) so the radio modulates from the DATA/USB audio
/// input rather than the microphone, and so the TS-590 does not emit the
/// data-confirmation beep produced by a bare `TX;`.
#[derive(Debug, Clone, Copy, PartialEq, Eq, Structural)]
pub enum PttSource {
    /// Generic PTT (Hamlib `RIG_PTT_ON`, Kenwood `TX;`).
    Generic,
    /// Microphone audio path (Hamlib `RIG_PTT_ON_MIC`, Kenwood `TX0;`).
    Mic,
    /// Data/USB audio path (Hamlib `RIG_PTT_ON_DATA`, Kenwood `TX1;`).
    Data,
}

/// A single normalized change to apply to the radio (a write intent).
#[derive(Debug, Clone, Copy, PartialEq, Eq, Structural)]
pub enum StateMutation {
    /// Set the active receive VFO.
    SetRxVfo {
        /// Active receive VFO.
        vfo: Vfo,
    },
    /// Set a VFO's frequency in Hz.
    SetVfoFreq {
        /// Target VFO.
        vfo: Vfo,
        /// Frequency in Hz.
        hz: u64,
    },
    /// Set a VFO's mode.
    SetMode {
        /// Target VFO.
        vfo: Vfo,
        /// Mode to set.
        mode: Mode,
    },
    /// Enable or disable the DATA sub-mode flag (TS-590 `DA`), independent of the base mode.
    SetDataMode {
        /// Target VFO.
        vfo: Vfo,
        /// Whether the DATA sub-mode is on.
        on: bool,
    },
    /// Enable or disable split, optionally choosing the TX VFO.
    SetSplit {
        /// Whether split is enabled.
        enabled: bool,
        /// The transmit VFO when split is enabled.
        tx_vfo: Option<Vfo>,
    },
    /// Key or unkey the transmitter.
    SetPtt {
        /// Whether the transmitter should be keyed.
        keyed: bool,
        /// The transmit audio path to select when keying (ignored when unkeying).
        source: PttSource,
    },
    /// Set the RIT offset in Hz (a zero offset disables RIT).
    SetRit {
        /// Offset in Hz.
        offset_hz: i32,
        /// Whether RIT is enabled.
        enabled: bool,
    },
    /// Set the XIT offset in Hz (a zero offset disables XIT).
    SetXit {
        /// Offset in Hz.
        offset_hz: i32,
        /// Whether XIT is enabled.
        enabled: bool,
    },
}

/// A single observed change to the universal state, broadcast to faces for
/// auto-information fan-out and recorded into the snapshot.
#[derive(Debug, Clone, Copy, PartialEq, Eq, Structural)]
pub enum StateChange {
    /// The active receive VFO changed.
    RxVfo {
        /// Active receive VFO.
        vfo: Vfo,
    },
    /// A VFO frequency changed.
    Freq {
        /// Affected VFO.
        vfo: Vfo,
        /// New frequency in Hz.
        hz: u64,
    },
    /// A VFO mode changed.
    Mode {
        /// Affected VFO.
        vfo: Vfo,
        /// New mode.
        mode: Mode,
    },
    /// A VFO's DATA sub-mode flag changed (TS-590 `DA`).
    DataMode {
        /// Affected VFO.
        vfo: Vfo,
        /// Whether the DATA sub-mode is on.
        on: bool,
    },
    /// Split state changed.
    Split {
        /// Whether split is enabled.
        enabled: bool,
        /// The transmit VFO when split is enabled.
        tx_vfo: Option<Vfo>,
    },
    /// PTT (transmit) state changed.
    Ptt {
        /// Whether the transmitter is keyed.
        keyed: bool,
    },
    /// RIT state changed.
    Rit {
        /// Whether RIT is enabled.
        enabled: bool,
        /// Offset in Hz.
        offset_hz: i32,
    },
    /// XIT state changed.
    Xit {
        /// Whether XIT is enabled.
        enabled: bool,
        /// Offset in Hz.
        offset_hz: i32,
    },
    /// The configured transmitter output power changed.
    TxPower {
        /// New output power, or nothing when the backend cannot tell it.
        power: Option<TxPower>,
    },
}

/// A coverage key identifying one observable field, used to decide whether the
/// radio's native push stream covers a field (so the baseline poller can back off).
#[derive(Debug, Clone, Copy, PartialEq, Eq, Structural)]
pub enum Field {
    /// Active receive VFO.
    RxVfo,
    /// A VFO frequency.
    Freq(Vfo),
    /// A VFO mode.
    Mode(Vfo),
    /// Split state.
    Split,
    /// PTT state.
    Ptt,
    /// RIT state.
    Rit,
    /// XIT state.
    Xit,
    /// S-meter reading. Reserved for backends that surface signal strength.
    SMeter,
    /// Output power. Reserved for backends that surface power.
    Power,
}

/// Where a state change originated, so the poller can distinguish radio-driven
/// native push (which warrants backing off) from poll-derived diffs.
#[derive(Debug, Clone, Copy, PartialEq, Eq, Structural)]
pub enum RadioEventSource {
    /// An unsolicited frame the radio pushed on its own (auto-information).
    NativePush,
    /// A difference observed during a baseline poll cycle.
    PollDiff,
    /// An optimistic write reflected immediately after the backend acknowledged it.
    OptimisticWrite,
    /// A value confirmed by a verifying read-back. Reserved for verify-after-write.
    VerifyRead,
}

impl Vfo {
    /// The letter of the VFO.
    pub open spec fn letter(self) -> Seq<char> {
        match self {
            Vfo::A => "A"@,
            Vfo::B => "B"@,
        }
    }

    /// The letter of the VFO.
    #[must_use]
    pub fn text(self) -> (r: &'static str)
        ensures
            r@ == self.letter(),
    {
        match self {
            Vfo::A => "A",
            Vfo::B => "B",
        }
    }
}

impl Mode {
    /// The Kenwood `MD` digit of each mode. An unknown mode is written as USB, so that a
    /// write still makes a valid frame.
    pub open spec fn digit(self) -> u8 {
        match self {
            Mode::Lsb => 0x31,
            Mode::Usb => 0x32,
            Mode::Cw => 0x33,
            Mode::Fm => 0x34,
            Mode::Am => 0x35,
            Mode::Fsk => 0x36,
            Mode::CwR => 0x37,
            Mode::FskR => 0x39,
            Mode::Unknown => 0x32,
        }
    }

    /// The mode that a Kenwood `MD` digit means.
    pub open spec fn of_digit(digit: u8) -> Mode {
        if digit == 0x31 {
            Mode::Lsb
        } else if digit == 0x32 {
            Mode::Usb
        } else if digit == 0x33 {
            Mode::Cw
        } else if digit == 0x34 {
            Mode::Fm
        } else if digit == 0x35 {
            Mode::Am
        } else if digit == 0x36 {
            Mode::Fsk
        } else if digit == 0x37 {
            Mode::CwR
        } else if digit == 0x39 {
            Mode::FskR
        } else {
            Mode::Unknown
        }
    }

    /// The Hamlib token of each mode. An unknown mode is written as USB.
    pub open spec fn token(self) -> Seq<char> {
        match self {
            Mode::Lsb => "LSB"@,
            Mode::Usb => "USB"@,
            Mode::Unknown => "USB"@,
            Mode::Cw => "CW"@,
            Mode::CwR => "CWR"@,
            Mode::Fsk => "RTTY"@,
            Mode::FskR => "RTTYR"@,
            Mode::Am => "AM"@,
            Mode::Fm => "FM"@,
        }
    }

    /// The mode that a Hamlib token without white space around it means.
    pub open spec fn of_token(t: Seq<char>) -> Mode {
        if t == "LSB"@ {
            Mode::Lsb
        } else if t == "USB"@ {
            Mode::Usb
        } else if t == "CW"@ {
            Mode::Cw
        } else if t == "CWR"@ {
            Mode::CwR
        } else if t == "RTTY"@ {
            Mode::Fsk
        } else if t == "RTTYR"@ {
            Mode::FskR
        } else if t == "AM"@ {
            Mode::Am
        } else if t == "FM"@ {
            Mode::Fm
        } else {
            Mode::Unknown
        }
    }

    /// The Hamlib token of a mode together with the DATA flag. A mode without a data token
    /// of its own keeps its plain token.
    pub open spec fn data_token(self, data: bool) -> Seq<char> {
        if data && self == Mode::Usb {
            "PKTUSB"@
        } else if data && self == Mode::Lsb {
            "PKTLSB"@
        } else if data && self == Mode::Fm {
            "PKTFM"@
        } else if data && self == Mode::Am {
            "PKTAM"@
        } else {
            self.token()
        }
    }

    /// The mode and the DATA flag that a Hamlib token means.
    pub open spec fn of_data_token(token: Seq<char>) -> (Mode, bool) {
        let t = trimmed(token);
        match after_prefix(t, "PKT"@) {
            Some(base) => (Mode::of_token(trimmed(base)), true),
            None => (Mode::of_token(trimmed(t)), false),
        }
    }

    /// Render the mode as its Kenwood `MD` digit byte (ASCII).
    #[must_use]
    pub fn to_kenwood_digit(self) -> (r: u8)
        ensures
            r == self.digit(),
    {
        match self {
            Mode::Lsb => 0x31,
            Mode::Usb => 0x32,
            Mode::Unknown => 0x32,
            Mode::Cw => 0x33,
            Mode::Fm => 0x34,
            Mode::Am => 0x35,
            Mode::Fsk => 0x36,
            Mode::CwR => 0x37,
            Mode::FskR => 0x39,
        }
    }

    /// Parse a Kenwood `MD` digit byte into a mode.
    #[must_use]
    pub fn from_kenwood_digit(digit: u8) -> (r: Mode)
        ensures
            r == Mode::of_digit(digit),
    {
        match digit {
            0x31 => Mode::Lsb,
            0x32 => Mode::Usb,
            0x33 => Mode::Cw,
            0x34 => Mode::Fm,
            0x35 => Mode::Am,
            0x36 => Mode::Fsk,
            0x37 => Mode::CwR,
            0x39 => Mode::FskR,
            _ => Mode::Unknown,
        }
    }

    /// Render the mode as a Hamlib `rigctld` mode token.
    #[must_use]
    pub fn hamlib_token(self) -> (r: &'static str)
        ensures
            r@ == self.token(),
    {
        match self {
            Mode::Lsb => "LSB",
            Mode::Usb => "USB",
            Mode::Unknown => "USB",
            Mode::Cw => "CW",
            Mode::CwR => "CWR",
            Mode::Fsk => "RTTY",
            Mode::FskR => "RTTYR",
            Mode::Am => "AM",
            Mode::Fm => "FM",
        }
    }

    /// Parse a Hamlib `rigctld` mode token into a mode.
    #[must_use]
    pub fn from_hamlib_token(token: &str) -> (r: Mode)
        ensures
            r == Mode::of_token(trimmed(token@)),
    {
        let trimmed_token = trim(token);
        let t = trimmed_token.as_str();
        if same_text(t, "LSB") {
            Mode::Lsb
        } else if same_text(t, "USB") {
            Mode::Usb
        } else if same_text(t, "CW") {
            Mode::Cw
        } else if same_text(t, "CWR") {
            Mode::CwR
        } else if same_text(t, "RTTY") {
            Mode::Fsk
        } else if same_text(t, "RTTYR") {
            Mode::FskR
        } else if same_text(t, "AM") {
            Mode::Am
        } else if same_text(t, "FM") {
            Mode::Fm
        } else {
            Mode::Unknown
        }
    }

    /// Render the mode as a Hamlib token, folding in the radio's DATA sub-mode flag.
    ///
    /// The TS-590 models data operation as a base mode (`MD`) plus an independent DATA
    /// flag (`DA`), so the composed token is what a Hamlib client expects to read back:
    /// `USB` with data is `PKTUSB`, `LSB` with data is `PKTLSB`, and so on. A base mode with
    /// no canonical `PKT*` token reports its plain token.
    #[must_use]
    pub fn hamlib_token_with_data(self, data: bool) -> (r: &'static str)
        ensures
            r@ == self.data_token(data),
    {
        if data {
            match self {
                Mode::Usb => "PKTUSB",
                Mode::Lsb => "PKTLSB",
                Mode::Fm => "PKTFM",
                Mode::Am => "PKTAM",
                _ => self.hamlib_token(),
            }
        } else {
            self.hamlib_token()
        }
    }

    /// Split a Hamlib mode token into its base [`Mode`] and DATA sub-mode flag.
    ///
    /// A `PKT*` token (WSJT-X sends `PKTUSB` for FT8/WSPR) decomposes into the underlying
    /// base mode with the flag set; every other token is a plain mode with the flag clear,
    /// so selecting any non-data mode also clears the radio's DATA flag.
    #[must_use]
    pub fn decompose_hamlib_token(token: &str) -> (r: (Mode, bool))
        ensures
            r == Mode::of_data_token(token@),
    {
        let t = trim(token);
        match strip_prefix(t.as_str(), "PKT") {
            Some(base) => (Mode::from_hamlib_token(base.as_str()), true),
            None => (Mode::from_hamlib_token(t.as_str()), false),
        }
    }
}

/// A mode is read back from its Kenwood digit. Only the unknown mode, which is written as
/// USB, comes back as another one.
pub proof fn law_kenwood_digits(mode: Mode)
    ensures
        mode != Mode::Unknown ==> Mode::of_digit(mode.digit()) == mode,
        Mode::of_digit(Mode::Unknown.digit()) == Mode::Usb,
{
}

proof fn lemma_reveal_tokens()
    ensures
        "LSB"@ =~= seq!['L', 'S', 'B'],
        "USB"@ =~= seq!['U', 'S', 'B'],
        "CW"@ =~= seq!['C', 'W'],
        "CWR"@ =~= seq!['C', 'W', 'R'],
        "RTTY"@ =~= seq!['R', 'T', 'T', 'Y'],
        "RTTYR"@ =~= seq!['R', 'T', 'T', 'Y', 'R'],
        "AM"@ =~= seq!['A', 'M'],
        "FM"@ =~= seq!['F', 'M'],
        "PKT"@ =~= seq!['P', 'K', 'T'],
        "PKTUSB"@ =~= seq!['P', 'K', 'T', 'U', 'S', 'B'],
        "PKTLSB"@ =~= seq!['P', 'K', 'T', 'L', 'S', 'B'],
        "PKTFM"@ =~= seq!['P', 'K', 'T', 'F', 'M'],
        "PKTAM"@ =~= seq!['P', 'K', 'T', 'A', 'M'],
{
    reveal_strlit("LSB");
    reveal_strlit("USB");
    reveal_strlit("CW");
    reveal_strlit("CWR");
    reveal_strlit("RTTY");
    reveal_strlit("RTTYR");
    reveal_strlit("AM");
    reveal_strlit("FM");
    reveal_strlit("PKT");
    reveal_strlit("PKTUSB");
    reveal_strlit("PKTLSB");
    reveal_strlit("PKTFM");
    reveal_strlit("PKTAM");
}

/// A mode is read back from its Hamlib token, with white space around it or without. Only the
/// unknown mode, which is written as USB, comes back as another one.
pub proof fn law_hamlib_tokens(mode: Mode, before: Seq<char>, after: Seq<char>)
    requires
        blank(before),
        blank(after),
    ensures
        Mode::of_token(mode.token()) == if mode == Mode::Unknown {
            Mode::Usb
        } else {
            mode
        },
        Mode::of_token(trimmed(before + mode.token() + after)) == Mode::of_token(mode.token()),
{
    lemma_reveal_tokens();
    lemma_distinct_tokens();
    lemma_trimmed_blank(before, mode.token(), after);
}

proof fn lemma_distinct_tokens()
    ensures
        "LSB"@ != "USB"@,
        "LSB"@ != "CWR"@,
        "USB"@ != "CWR"@,
        "CW"@ != "AM"@,
        "CW"@ != "FM"@,
        "AM"@ != "FM"@,
        "LSB"@.len() == 3,
        "USB"@.len() == 3,
        "CWR"@.len() == 3,
        "CW"@.len() == 2,
        "AM"@.len() == 2,
        "FM"@.len() == 2,
        "RTTY"@.len() == 4,
        "RTTYR"@.len() == 5,
{
    lemma_reveal_tokens();
    assert("LSB"@[0] != "USB"@[0]);
    assert("LSB"@[0] != "CWR"@[0]);
    assert("USB"@[0] != "CWR"@[0]);
    assert("CW"@[0] != "AM"@[0]);
    assert("CW"@[0] != "FM"@[0]);
    assert("AM"@[0] != "FM"@[0]);
}

/// A token with no white space at its ends is not changed by trimming.
proof fn lemma_trimmed_token(t: Seq<char>)
    requires
        t.len() > 0,
        !crate::text::is_space(t[0]),
        !crate::text::is_space(t.last()),
    ensures
        trimmed(t) == t,
{
}

/// The token that is shown for a mode and a DATA flag means that mode and that flag, with
/// white space around it or without, for every mode that has a data token and, with the flag
/// clear, for every known mode. White space behind the `PKT` prefix does not matter either.
pub proof fn law_data_tokens(mode: Mode, data: bool, before: Seq<char>, after: Seq<char>)
    requires
        mode != Mode::Unknown,
        data ==> mode == Mode::Usb || mode == Mode::Lsb || mode == Mode::Fm || mode == Mode::Am,
        blank(before),
        blank(after),
    ensures
        Mode::of_data_token(mode.data_token(data)) == (mode, data),
        Mode::of_data_token(before + mode.data_token(data) + after) == (mode, data),
        data ==> Mode::of_data_token("PKT"@ + before + mode.token()) == (mode, true),
{
    lemma_reveal_tokens();
    law_hamlib_tokens(mode, Seq::empty(), Seq::empty());
    let token = mode.data_token(data);
    lemma_trimmed_token(token);
    lemma_trimmed_token(mode.token());
    lemma_trimmed_blank(before, token, after);
    if data {
        assert(token.take(3) =~= "PKT"@);
        assert(token.skip(3) =~= mode.token());
        let spaced = "PKT"@ + before + mode.token();
        lemma_trimmed_token(spaced);
        assert(spaced.take(3) =~= "PKT"@);
        assert(spaced.skip(3) =~= before + mode.token());
        assert(before + mode.token() + Seq::<char>::empty() =~= before + mode.token());
        lemma_trimmed_blank(before, mode.token(), Seq::empty());
    } else {
        assert(token.len() < 3 || token.take(3)[0] != "PKT"@[0]);
    }
}

impl StateMutation {
    /// The change that a mutation produces once it is applied.
    pub open spec fn change(self) -> StateChange {
        match self {
            StateMutation::SetRxVfo { vfo } => StateChange::RxVfo { vfo },
            StateMutation::SetVfoFreq { vfo, hz } => StateChange::Freq { vfo, hz },
            StateMutation::SetMode { vfo, mode } => StateChange::Mode { vfo, mode },
            StateMutation::SetDataMode { vfo, on } => StateChange::DataMode { vfo, on },
            StateMutation::SetSplit { enabled, tx_vfo } => StateChange::Split { enabled, tx_vfo },
            StateMutation::SetPtt { keyed, source } => StateChange::Ptt { keyed },
            StateMutation::SetRit { offset_hz, enabled } => StateChange::Rit { enabled, offset_hz },
            StateMutation::SetXit { offset_hz, enabled } => StateChange::Xit { enabled, offset_hz },
        }
    }

    /// The observable [`StateChange`] this mutation produces once applied.
    #[must_use]
    pub fn into_change(self) -> (r: StateChange)
        ensures
            r == self.change(),
    {
        match self {
            StateMutation::SetRxVfo { vfo } => StateChange::RxVfo { vfo },
            StateMutation::SetVfoFreq { vfo, hz } => StateChange::Freq { vfo, hz },
            StateMutation::SetMode { vfo, mode } => StateChange::Mode { vfo, mode },
            StateMutation::SetDataMode { vfo, on } => StateChange::DataMode { vfo, on },
            StateMutation::SetSplit { enabled, tx_vfo } => StateChange::Split { enabled, tx_vfo },
            StateMutation::SetPtt { keyed, source: _ } => StateChange::Ptt { keyed },
            StateMutation::SetRit { offset_hz, enabled } => StateChange::Rit { enabled, offset_hz },
            StateMutation::SetXit { offset_hz, enabled } => StateChange::Xit { enabled, offset_hz },
        }
    }
}

impl StateChange {
    /// The coverage key that a change updates. The DATA flag is part of the composed mode,
    /// so it shares the key of the mode.
    pub open spec fn key(self) -> Field {
        match self {
            StateChange::RxVfo { vfo } => Field::RxVfo,
            StateChange::Freq { vfo, hz } => Field::Freq(vfo),
            StateChange::Mode { vfo, mode } => Field::Mode(vfo),
            StateChange::DataMode { vfo, on } => Field::Mode(vfo),
            StateChange::Split { enabled, tx_vfo } => Field::Split,
            StateChange::Ptt { keyed } => Field::Ptt,
            StateChange::Rit { enabled, offset_hz } => Field::Rit,
            StateChange::Xit { enabled, offset_hz } => Field::Xit,
            StateChange::TxPower { power } => Field::Power,
        }
    }

    /// The coverage [`Field`] this change updates.
    #[must_use]
    pub fn field(&self) -> (r: Field)
        ensures
            r == self.key(),
    {
        match *self {
            StateChange::RxVfo { vfo: _ } => Field::RxVfo,
            StateChange::Freq { vfo, hz: _ } => Field::Freq(vfo),
            StateChange::Mode { vfo, mode: _ } => Field::Mode(vfo),
            StateChange::DataMode { vfo, on: _ } => Field::Mode(vfo),
            StateChange::Split { enabled: _, tx_vfo: _ } => Field::Split,
            StateChange::Ptt { keyed: _ } => Field::Ptt,
            StateChange::Rit { enabled: _, offset_hz: _ } => Field::Rit,
            StateChange::Xit { enabled: _, offset_hz: _ } => Field::Xit,
            StateChange::TxPower { power: _ } => Field::Power,
        }
    }
}

impl Default for PttSource {
    /// Generic keying.
    fn default() -> (r: Self)
        ensures
            r == PttSource::Generic,
    {
        PttSource::Generic
    }
}

/// The digits by which Kenwood radios know the modes, and the tokens by which Hamlib does. No
/// other digit or token means a mode.
pub proof fn law_mode_codes(mode: Mode, digit: u8, token: Seq<char>)
    ensures
        mode.digit() == match mode {
            Mode::Lsb => '1' as u8,
            Mode::Usb => '2' as u8,
            Mode::Cw => '3' as u8,
            Mode::Fm => '4' as u8,
            Mode::Am => '5' as u8,
            Mode::Fsk => '6' as u8,
            Mode::CwR => '7' as u8,
            Mode::FskR => '9' as u8,
            Mode::Unknown => '2' as u8,
        },
        mode.token() == match mode {
            Mode::Lsb => "LSB"@,
            Mode::Usb => "USB"@,
            Mode::Cw => "CW"@,
            Mode::Fm => "FM"@,
            Mode::Am => "AM"@,
            Mode::Fsk => "RTTY"@,
            Mode::CwR => "CWR"@,
            Mode::FskR => "RTTYR"@,
            Mode::Unknown => "USB"@,
        },
        Mode::of_digit(digit) != Mode::Unknown ==> Mode::of_digit(digit).digit() == digit,
        Mode::of_token(token) != Mode::Unknown ==> Mode::of_token(token).token() == token,
        mode != Mode::Unknown ==> Mode::of_digit(mode.digit()) == mode && Mode::of_token(
            mode.token(),
        ) == mode,
{
    law_hamlib_tokens(mode, Seq::empty(), Seq::empty());
    law_kenwood_digits(mode);
}

/// The data variants of the modes that have one, and the flag that only they carry.
pub proof fn law_data_token_names(mode: Mode, data: bool)
    ensures
        mode.data_token(data) == if !data {
            mode.token()
        } else {
            match mode {
                Mode::Usb => "PKTUSB"@,
                Mode::Lsb => "PKTLSB"@,
                Mode::Fm => "PKTFM"@,
                Mode::Am => "PKTAM"@,
                _ => mode.token(),
            }
        },
{
}

} // verus!
