//! The radio backends and the capabilities they advertise.
//!
//! A backend is the only code that knows a specific radio's wire vocabulary. It maps the
//! neutral mutation and change vocabulary to and from bytes and reports what it can do (and
//! how much it can be trusted) via [`BackendCapabilities`].

use vstd::prelude::*;

pub mod kenwood;
pub mod loopback;
pub mod rigctld;

use crate::text::decimal;
use crate::text::push_decimal;

verus! {

/// How the byte stream is split into frames.
#[derive(Debug, Clone, Copy, PartialEq, Eq, Structural)]
pub enum Framing {
    /// Kenwood/Yaesu style: each frame ends with `;`.
    SemicolonTerminated,
    /// Line protocols (e.g. `rigctld` net): each frame ends with `\n`.
    LineTerminated,
    /// Icom CI-V style: each frame ends with `0xFD`.
    CiV,
}

impl Framing {
    /// The byte that ends a frame.
    pub open spec fn delim(self) -> u8 {
        match self {
            Framing::SemicolonTerminated => 0x3b,
            Framing::LineTerminated => 0x0a,
            Framing::CiV => 0xfd,
        }
    }

    /// The byte that ends a frame.
    #[must_use]
    pub fn delimiter(self) -> (r: u8)
        ensures
            r == self.delim(),
    {
        match self {
            Framing::SemicolonTerminated => 0x3b,
            Framing::LineTerminated => 0x0a,
            Framing::CiV => 0xfd,
        }
    }

    /// The name of the framing.
    pub open spec fn name(self) -> Seq<char> {
        match self {
            Framing::SemicolonTerminated => "SemicolonTerminated"@,
            Framing::LineTerminated => "LineTerminated"@,
            Framing::CiV => "CiV"@,
        }
    }

    fn label(self) -> (r: &'static str)
        ensures
            r@ == self.name(),
    {
        match self {
            Framing::SemicolonTerminated => "SemicolonTerminated",
            Framing::LineTerminated => "LineTerminated",
            Framing::CiV => "CiV",
        }
    }
}

/// How a backend models split operation.
#[derive(Debug, Clone, Copy, PartialEq, Eq, Structural)]
pub enum SplitStyle {
    /// Split is a TX/RX VFO pair (Kenwood, Yaesu, most rigs).
    VfoPair,
    /// The radio has no split concept.
    NoSplit,
}

impl SplitStyle {
    /// The name of the style.
    pub open spec fn name(self) -> Seq<char> {
        match self {
            SplitStyle::VfoPair => "VfoPair"@,
            SplitStyle::NoSplit => "None"@,
        }
    }

    fn label(self) -> (r: &'static str)
        ensures
            r@ == self.name(),
    {
        match self {
            SplitStyle::VfoPair => "VfoPair",
            SplitStyle::NoSplit => "None",
        }
    }
}

/// How much the daemon trusts a backend's wire behavior.
#[derive(Debug, Clone, Copy, PartialEq, Eq, Structural)]
pub enum TrustTier {
    /// A first-party native driver that has been certified against the real radio.
    CertifiedNative,
    /// An out-of-process bridge (e.g. `rigctld`) that has not been soak-certified.
    UncertifiedBridge,
    /// The in-memory test backend.
    Loopback,
}

impl TrustTier {
    /// The name of the tier.
    pub open spec fn name(self) -> Seq<char> {
        match self {
            TrustTier::CertifiedNative => "CertifiedNative"@,
            TrustTier::UncertifiedBridge => "UncertifiedBridge"@,
            TrustTier::Loopback => "Loopback"@,
        }
    }

    fn label(self) -> (r: &'static str)
        ensures
            r@ == self.name(),
    {
        match self {
            TrustTier::CertifiedNative => "CertifiedNative",
            TrustTier::UncertifiedBridge => "UncertifiedBridge",
            TrustTier::Loopback => "Loopback",
        }
    }
}

/// The native command family a backend can passthrough (for clients that need raw CAT).
#[derive(Debug, Clone, Copy, PartialEq, Eq, Structural)]
pub enum NativeCommandFamily {
    /// Kenwood `;`-terminated ASCII CAT.
    Kenwood,
}

/// What a backend can do, advertised to sessions and the poller.
#[derive(Debug, Clone, PartialEq, Eq)]
pub struct BackendCapabilities {
    /// A human-readable model identifier.
    pub model: String,
    /// Number of VFOs.
    pub vfo_count: u8,
    /// Whether the radio models RIT.
    pub has_rit: bool,
    /// Whether the radio models XIT.
    pub has_xit: bool,
    /// Whether the radio reports an S-meter.
    pub has_smeter: bool,
    /// How split is modeled.
    pub split: SplitStyle,
    /// Whether the radio has a native push (auto-information) stream.
    pub native_push: bool,
    /// The native command family available for passthrough, if any.
    pub native_command_family: Option<NativeCommandFamily>,
    /// How frames are delimited.
    pub framing: Framing,
    /// Minimum tunable frequency in Hz.
    pub freq_min_hz: u64,
    /// Maximum tunable frequency in Hz.
    pub freq_max_hz: u64,
    /// Trust tier.
    pub trust: TrustTier,
}

/// A truth value in words.
pub open spec fn yes_no(b: bool) -> Seq<char> {
    if b {
        "true"@
    } else {
        "false"@
    }
}

fn word(b: bool) -> (r: &'static str)
    ensures
        r@ == yes_no(b),
{
    if b {
        "true"
    } else {
        "false"
    }
}

impl BackendCapabilities {
    /// The one-line summary.
    pub open spec fn summary_text(self) -> Seq<char> {
        "model="@ + self.model@ + " vfos="@ + decimal(self.vfo_count as nat) + " rit="@ + yes_no(
            self.has_rit,
        ) + " xit="@ + yes_no(self.has_xit) + " smeter="@ + yes_no(self.has_smeter) + " split="@
            + self.split.name() + " native_push="@ + yes_no(self.native_push) + " family="@ + (
        match self.native_command_family {
            Some(NativeCommandFamily::Kenwood) => "Some(Kenwood)"@,
            None => "None"@,
        }) + " framing="@ + self.framing.name() + " freq="@ + decimal(self.freq_min_hz as nat)
            + ".."@ + decimal(self.freq_max_hz as nat) + " trust="@ + self.trust.name()
            + " passthrough="@ + yes_no(self.native_command_family is Some)
    }

    /// Whether raw native passthrough is available (a native command family is present).
    #[must_use]
    pub fn supports_passthrough(&self) -> (r: bool)
        ensures
            r == (self.native_command_family is Some),
    {
        self.native_command_family.is_some()
    }

    /// A one-line human-readable summary (used in startup logging).
    #[must_use]
    pub fn summary(&self) -> (r: String)
        ensures
            r@ == self.summary_text(),
    {
        let mut out = "model=".to_owned();
        out.append(self.model.as_str());
        out.append(" vfos=");
        push_decimal(&mut out, self.vfo_count as u64);
        out.append(" rit=");
        out.append(word(self.has_rit));
        out.append(" xit=");
        out.append(word(self.has_xit));
        out.append(" smeter=");
        out.append(word(self.has_smeter));
        out.append(" split=");
        out.append(self.split.label());
        out.append(" native_push=");
        out.append(word(self.native_push));
        out.append(" family=");
        out.append(
            match self.native_command_family {
                Some(NativeCommandFamily::Kenwood) => "Some(Kenwood)",
                None => "None",
            },
        );
        out.append(" framing=");
        out.append(self.framing.label());
        out.append(" freq=");
        push_decimal(&mut out, self.freq_min_hz);
        out.append("..");
        push_decimal(&mut out, self.freq_max_hz);
        out.append(" trust=");
        out.append(self.trust.label());
        out.append(" passthrough=");
        out.append(word(self.supports_passthrough()));
        out
    }

    /// The same capabilities once more.
    #[must_use]
    pub fn duplicate(&self) -> (r: Self)
        ensures
            r == *self,
    {
        BackendCapabilities {
            model: self.model.clone(),
            vfo_count: self.vfo_count,
            has_rit: self.has_rit,
            has_xit: self.has_xit,
            has_smeter: self.has_smeter,
            split: self.split,
            native_push: self.native_push,
            native_command_family: self.native_command_family,
            framing: self.framing,
            freq_min_hz: self.freq_min_hz,
            freq_max_hz: self.freq_max_hz,
            trust: self.trust,
        }
    }
}

/// The byte that ends a frame: a semicolon, a line feed, or the end mark of CI-V.
pub proof fn law_frame_ends(framing: Framing)
    ensures
        framing == Framing::SemicolonTerminated ==> framing.delim() == ';' as u8,
        framing == Framing::LineTerminated ==> framing.delim() == 10,
        framing == Framing::CiV ==> framing.delim() == 0xfd,
        framing.delim() == ';' as u8 ==> framing == Framing::SemicolonTerminated,
{
}

/// The words for what a backend says of itself.
pub proof fn law_capability_words()
    ensures
        yes_no(true) == "true"@,
        yes_no(false) == "false"@,
        SplitStyle::VfoPair.name() == "VfoPair"@,
        SplitStyle::NoSplit.name() == "None"@,
        TrustTier::CertifiedNative.name() == "CertifiedNative"@,
        TrustTier::UncertifiedBridge.name() == "UncertifiedBridge"@,
        TrustTier::Loopback.name() == "Loopback"@,
        Framing::SemicolonTerminated.name() == "SemicolonTerminated"@,
        Framing::LineTerminated.name() == "LineTerminated"@,
        Framing::CiV.name() == "CiV"@,
{
}

} // verus!
