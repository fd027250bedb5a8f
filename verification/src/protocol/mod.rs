//! Versioned frame contract for the private CatHub device interface.
//!
//! Each frame starts with a fixed 40-byte header. Multi-byte integers use little-endian
//! byte order. Message payloads use type-length-value fields so a newer peer can add optional
//! fields without a major protocol change.

use vstd::prelude::*;

pub mod control_field;
pub mod data_field;
pub mod endpoint_field;
pub mod error;
pub mod feature;
pub mod fields;
pub mod frame;
pub mod hello_field;
pub mod serial_field;
pub mod session_field;

pub use self::error::ProtocolError;
pub use self::fields::Fields;
pub use self::frame::Frame;
pub use self::frame::FrameDecoder;

verus! {

/// Four-byte marker at the start of each private transport frame.
pub const MAGIC: [u8; 4] = [0x43, 0x48, 0x56, 0x53];

/// Size of the version 1 frame header.
pub const HEADER_LEN: usize = 40;

/// Largest frame accepted by the shared decoder before negotiation.
pub const ABSOLUTE_MAX_FRAME_LEN: usize = 1024 * 1024;

/// Major number of the current private transport protocol version.
pub const CURRENT_MAJOR: u16 = 1;

/// Minor number of the current private transport protocol version.
pub const CURRENT_MINOR: u16 = 0;

/// A private transport protocol version.
#[derive(Debug, Clone, Copy, PartialEq, Eq, PartialOrd, Ord, Structural)]
pub struct ProtocolVersion {
    /// Incompatible contract generation.
    pub major: u16,
    /// Backward-compatible feature generation.
    pub minor: u16,
}

impl ProtocolVersion {
    /// The current private transport protocol version.
    pub open spec fn current_version() -> Self {
        ProtocolVersion { major: CURRENT_MAJOR, minor: CURRENT_MINOR }
    }

    /// Current private transport protocol version.
    #[must_use]
    pub fn current() -> (r: Self)
        ensures
            r == Self::current_version(),
    {
        ProtocolVersion { major: CURRENT_MAJOR, minor: CURRENT_MINOR }
    }

    /// Whether this version is not after `other`: by major, then by minor.
    pub open spec fn at_most(self, other: Self) -> bool {
        self.major < other.major || (self.major == other.major && self.minor <= other.minor)
    }

    /// Whether this version lies from `min` to `max`.
    pub open spec fn within(self, min: Self, max: Self) -> bool {
        min.at_most(self) && self.at_most(max)
    }

    /// The highest version in both ranges, where all four bounds are of one major generation.
    pub open spec fn negotiated(
        local_min: Self,
        local_max: Self,
        peer_min: Self,
        peer_max: Self,
    ) -> Option<Self> {
        let minimum = if local_min.minor >= peer_min.minor {
            local_min.minor
        } else {
            peer_min.minor
        };
        let maximum = if local_max.minor <= peer_max.minor {
            local_max.minor
        } else {
            peer_max.minor
        };
        if local_min.major == local_max.major && peer_min.major == peer_max.major
            && local_max.major == peer_max.major && minimum <= maximum {
            Some(ProtocolVersion { major: local_max.major, minor: maximum })
        } else {
            None
        }
    }

    /// Select the highest mutually compatible version.
    #[must_use]
    pub fn negotiate(
        local_min: Self,
        local_max: Self,
        peer_min: Self,
        peer_max: Self,
    ) -> (r: Option<Self>)
        ensures
            r == Self::negotiated(local_min, local_max, peer_min, peer_max),
    {
        if local_min.major != local_max.major || peer_min.major != peer_max.major
            || local_max.major != peer_max.major {
            return None;
        }
        let minimum: u16 = if local_min.minor >= peer_min.minor {
            local_min.minor
        } else {
            peer_min.minor
        };
        let maximum: u16 = if local_max.minor <= peer_max.minor {
            local_max.minor
        } else {
            peer_max.minor
        };
        if minimum <= maximum {
            Some(ProtocolVersion { major: local_max.major, minor: maximum })
        } else {
            None
        }
    }
}

/// The negotiated version lies in both ranges, no later version does, and both peers reach
/// the same version. Where each range is of one major generation and none is negotiated, no
/// version lies in both ranges.
pub proof fn law_negotiation(
    local_min: ProtocolVersion,
    local_max: ProtocolVersion,
    peer_min: ProtocolVersion,
    peer_max: ProtocolVersion,
)
    ensures
        ProtocolVersion::negotiated(local_min, local_max, peer_min, peer_max)
            == ProtocolVersion::negotiated(peer_min, peer_max, local_min, local_max),
        match ProtocolVersion::negotiated(local_min, local_max, peer_min, peer_max) {
            Some(v) => {
                &&& v.within(local_min, local_max)
                &&& v.within(peer_min, peer_max)
                &&& forall|w: ProtocolVersion|
                    w.within(local_min, local_max) && #[trigger] w.within(peer_min, peer_max)
                        ==> w.at_most(v)
            },
            None => local_min.major == local_max.major && peer_min.major == peer_max.major ==> (
            forall|w: ProtocolVersion|
                !(w.within(local_min, local_max) && #[trigger] w.within(peer_min, peer_max))),
        },
{
}

/// Message identifiers in the private device contract.
#[derive(Debug, Clone, Copy, PartialEq, Eq, Structural)]
pub enum MessageKind {
    /// Daemon version and capability offer.
    Hello,
    /// Driver version and capability selection.
    HelloAck,
    /// Request the configured endpoint set.
    Discover,
    /// One endpoint description in a discovery response.
    Endpoint,
    /// End of a discovery response.
    DiscoverComplete,
    /// Attach the daemon to one endpoint.
    Attach,
    /// Confirm an endpoint attachment.
    AttachAck,
    /// Detach the daemon from one endpoint.
    Detach,
    /// Bytes for one application session.
    Data,
    /// Add receive credit for bounded flow control.
    WindowUpdate,
    /// Report the application serial configuration.
    SerialConfig,
    /// Report DTR, RTS, or break state.
    ModemControl,
    /// Report CTS, DSR, DCD, or RI state.
    ModemStatus,
    /// Report an application handle open.
    ApplicationOpen,
    /// Report an application handle close.
    ApplicationClose,
    /// Cancel an outstanding serial operation.
    Cancel,
    /// Purge or reset serial queues.
    Purge,
    /// Request transport health information.
    Health,
    /// Return transport health information.
    HealthAck,
    /// Report a rejected request or protocol fault.
    Error,
}

impl MessageKind {
    /// The wire identifier of each kind.
    pub open spec fn wire(self) -> u16 {
        match self {
            MessageKind::Hello => 1,
            MessageKind::HelloAck => 2,
            MessageKind::Discover => 3,
            MessageKind::Endpoint => 4,
            MessageKind::DiscoverComplete => 5,
            MessageKind::Attach => 6,
            MessageKind::AttachAck => 7,
            MessageKind::Detach => 8,
            MessageKind::Data => 9,
            MessageKind::WindowUpdate => 10,
            MessageKind::SerialConfig => 11,
            MessageKind::ModemControl => 12,
            MessageKind::ModemStatus => 13,
            MessageKind::ApplicationOpen => 14,
            MessageKind::ApplicationClose => 15,
            MessageKind::Cancel => 16,
            MessageKind::Purge => 17,
            MessageKind::Health => 18,
            MessageKind::HealthAck => 19,
            MessageKind::Error => 20,
        }
    }

    /// The wire identifier of this kind.
    #[must_use]
    pub fn code(self) -> (r: u16)
        ensures
            r == self.wire(),
    {
        match self {
            MessageKind::Hello => 1,
            MessageKind::HelloAck => 2,
            MessageKind::Discover => 3,
            MessageKind::Endpoint => 4,
            MessageKind::DiscoverComplete => 5,
            MessageKind::Attach => 6,
            MessageKind::AttachAck => 7,
            MessageKind::Detach => 8,
            MessageKind::Data => 9,
            MessageKind::WindowUpdate => 10,
            MessageKind::SerialConfig => 11,
            MessageKind::ModemControl => 12,
            MessageKind::ModemStatus => 13,
            MessageKind::ApplicationOpen => 14,
            MessageKind::ApplicationClose => 15,
            MessageKind::Cancel => 16,
            MessageKind::Purge => 17,
            MessageKind::Health => 18,
            MessageKind::HealthAck => 19,
            MessageKind::Error => 20,
        }
    }

    /// The kind that a wire identifier names.
    pub open spec fn named(value: u16) -> Result<MessageKind, ProtocolError> {
        if exists|kind: MessageKind| #[trigger] kind.wire() == value {
            Ok(choose|kind: MessageKind| #[trigger] kind.wire() == value)
        } else {
            Err(ProtocolError::UnknownMessageKind(value))
        }
    }
}

/// A wire identifier names exactly the kind that is written with it.
pub proof fn law_kind_round_trip(kind: MessageKind)
    ensures
        MessageKind::named(kind.wire()) == Ok::<MessageKind, ProtocolError>(kind),
{
    assert(kind.wire() == kind.wire());
    let other = choose|k: MessageKind| #[trigger] k.wire() == kind.wire();
    assert(other == kind);
}

impl vstd::std_specs::convert::TryFromSpecImpl<u16> for MessageKind {
    open spec fn obeys_try_from_spec() -> bool {
        true
    }

    open spec fn try_from_spec(value: u16) -> Result<Self, ProtocolError> {
        MessageKind::named(value)
    }
}

impl TryFrom<u16> for MessageKind {
    type Error = ProtocolError;

    fn try_from(value: u16) -> (r: Result<Self, ProtocolError>) {
        let kind = match value {
            1 => MessageKind::Hello,
            2 => MessageKind::HelloAck,
            3 => MessageKind::Discover,
            4 => MessageKind::Endpoint,
            5 => MessageKind::DiscoverComplete,
            6 => MessageKind::Attach,
            7 => MessageKind::AttachAck,
            8 => MessageKind::Detach,
            9 => MessageKind::Data,
            10 => MessageKind::WindowUpdate,
            11 => MessageKind::SerialConfig,
            12 => MessageKind::ModemControl,
            13 => MessageKind::ModemStatus,
            14 => MessageKind::ApplicationOpen,
            15 => MessageKind::ApplicationClose,
            16 => MessageKind::Cancel,
            17 => MessageKind::Purge,
            18 => MessageKind::Health,
            19 => MessageKind::HealthAck,
            20 => MessageKind::Error,
            other => return Err(ProtocolError::UnknownMessageKind(other)),
        };
        proof {
            law_kind_round_trip(kind);
        }
        Ok(kind)
    }
}

/// Header flags for a private transport frame.
#[derive(Debug, Clone, Copy, PartialEq, Eq, Structural)]
pub struct FrameFlags(u32);

impl View for FrameFlags {
    type V = u32;

    closed spec fn view(&self) -> u32 {
        self.0
    }
}

impl FrameFlags {
    /// Wire bit: the frame is a response to the request with the same request ID.
    pub const RESPONSE: u32 = 1;

    /// Wire bit: the frame completes a multi-frame response.
    pub const FINAL: u32 = 2;

    /// Wire bit: the sender requires an explicit response.
    pub const ACK_REQUIRED: u32 = 4;

    /// Construct flags from their wire bits.
    #[must_use]
    pub fn from_bits(bits: u32) -> (r: Self)
        ensures
            r@ == bits,
    {
        FrameFlags(bits)
    }

    /// Return the wire bits.
    #[must_use]
    pub fn bits(self) -> (r: u32)
        ensures
            r == self@,
    {
        self.0
    }

    /// Test whether all supplied flags are set.
    #[must_use]
    pub fn contains(self, other: Self) -> (r: bool)
        ensures
            r == (self@ & other@ == other@),
    {
        self.0 & other.0 == other.0
    }
}

impl Default for FrameFlags {
    /// No flag is set.
    fn default() -> (r: Self)
        ensures
            r@ == 0,
    {
        FrameFlags(0)
    }
}

impl vstd::std_specs::ops::BitOrSpecImpl for FrameFlags {
    open spec fn obeys_bitor_spec() -> bool {
        false
    }

    open spec fn bitor_req(self, rhs: Self) -> bool {
        true
    }

    open spec fn bitor_spec(self, rhs: Self) -> Self::Output {
        self
    }
}

impl std::ops::BitOr for FrameFlags {
    type Output = Self;

    fn bitor(self, rhs: Self) -> (r: Self)
        ensures
            r@ == self@ | rhs@,
    {
        FrameFlags(self.0 | rhs.0)
    }
}

/// Joining flags keeps every flag of both sides.
pub proof fn law_flags_join(a: u32, b: u32)
    ensures
        (a | b) & a == a,
        (a | b) & b == b,
{
    assert((a | b) & a == a) by (bit_vector);
    assert((a | b) & b == b) by (bit_vector);
}

} // verus!
