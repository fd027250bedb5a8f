//! Safe daemon-side state machine for the private virtual-serial protocol.

use vstd::prelude::*;
use vstd::utf8::encode_utf8;

use crate::le::le_bytes;
use crate::protocol::control_field;
use crate::protocol::data_field;
use crate::protocol::endpoint_field;
use crate::protocol::feature;
use crate::protocol::fields::fields_bytes;
use crate::protocol::fields::fixed_field;
use crate::protocol::fields::text_field;
use crate::protocol::frame::frame_bytes;
use crate::protocol::frame::next_in_stream;
use crate::protocol::frame::parsed_frame;
use crate::protocol::frame::FrameView;
use crate::protocol::hello_field;
use crate::protocol::serial_field;
use crate::protocol::session_field;
use crate::protocol::Frame;
use crate::protocol::FrameDecoder;
use crate::protocol::FrameFlags;
use crate::protocol::MessageKind;
use crate::protocol::ProtocolError;
use crate::protocol::ProtocolVersion;
use crate::protocol::ABSOLUTE_MAX_FRAME_LEN;
use crate::protocol::CURRENT_MAJOR;
use crate::protocol::CURRENT_MINOR;
use crate::protocol::HEADER_LEN;

verus! {

/// Default bounded receive window advertised by the daemon.
pub const DEFAULT_RECEIVE_WINDOW: usize = 64 * 1024;

/// Smallest frame limit that the daemon accepts from a driver.
pub const MIN_FRAME_LIMIT: usize = 64;

/// Version 1.0 capabilities required by the managed transport.
pub const REQUIRED_FEATURES: u64 = feature::APPLICATION_LIFECYCLE | feature::SERIAL_CONFIG
    | feature::MODEM_LINES | feature::CANCELLATION | feature::PURGE | feature::HEALTH
    | feature::RECEIVE_CREDIT;

/// One driver-reported endpoint.
#[derive(Debug, Clone, PartialEq, Eq)]
pub struct EndpointDescriptor {
    /// Driver-scoped endpoint identifier.
    pub endpoint_id: u64,
    /// Endpoint kind: 1 is CAT and 2 is WinKeyer.
    pub kind: u16,
    /// Stable configuration identifier.
    pub stable_id: String,
    /// Operator-facing name.
    pub display_name: String,
    /// Whether the driver currently permits attachment.
    pub enabled: bool,
}

/// Serial configuration reported by the application COM handle.
#[derive(Debug, Clone, Copy, PartialEq, Eq, Structural)]
pub struct SerialConfiguration {
    /// Baud rate selected by the application.
    pub baud: u32,
    /// Number of data bits.
    pub data_bits: u16,
    /// Windows parity enum.
    pub parity: u16,
    /// Windows stop-bit enum.
    pub stop_bits: u16,
    /// Protocol flow-control enum.
    pub flow_control: u16,
    /// Read timeout in milliseconds.
    pub read_timeout_ms: u32,
    /// Write timeout in milliseconds.
    pub write_timeout_ms: u32,
}

/// Event produced from driver traffic.
#[derive(Debug, Clone, PartialEq, Eq)]
pub enum DaemonEvent {
    /// Version negotiation completed.
    Negotiated,
    /// One endpoint was discovered.
    Endpoint(EndpointDescriptor),
    /// Endpoint enumeration completed.
    DiscoveryComplete,
    /// Attachment completed with the active application session.
    Attached {
        /// Attached driver endpoint.
        endpoint_id: u64,
        /// Current application-open sequence, or zero while closed.
        session_id: u64,
    },
    /// Application bytes arrived from the public COM handle.
    Data(Vec<u8>),
    /// The application opened its COM handle.
    ApplicationOpen(u64),
    /// The application closed its COM handle.
    ApplicationClose(u64),
    /// The application changed its serial configuration.
    SerialConfiguration(SerialConfiguration),
    /// The application changed DTR, RTS, or break.
    ModemControl(u32),
    /// The application purged one or more queues.
    Purge(u32),
    /// The application canceled an operation.
    Cancel {
        /// Driver-assigned operation identifier.
        operation_id: u64,
        /// Operation kind being canceled.
        kind: u32,
    },
    /// A health request completed.
    Health {
        /// Whether the driver reports an active attachment.
        attached: bool,
        /// Current application-open sequence.
        session_id: u64,
        /// Redacted health detail.
        detail: String,
    },
    /// The driver detached the endpoint.
    Detached,
    /// The driver rejected a request.
    Error {
        /// Stable protocol error code.
        code: u32,
        /// Redacted diagnostic detail.
        detail: String,
    },
}

/// What an event says.
#[allow(inconsistent_fields)]
pub enum EventView {
    /// Version negotiation completed.
    Negotiated,
    /// One endpoint was discovered.
    Endpoint {
        /// Driver-scoped endpoint identifier.
        endpoint_id: u64,
        /// Endpoint kind.
        kind: u16,
        /// Stable configuration identifier.
        stable_id: Seq<char>,
        /// Operator-facing name.
        display_name: Seq<char>,
        /// Whether the driver currently permits attachment.
        enabled: bool,
    },
    /// Endpoint enumeration completed.
    DiscoveryComplete,
    /// Attachment completed.
    Attached {
        /// Attached driver endpoint.
        endpoint_id: u64,
        /// Current application-open sequence.
        session_id: u64,
    },
    /// Application bytes arrived.
    Data(Seq<u8>),
    /// The application opened its COM handle.
    ApplicationOpen(u64),
    /// The application closed its COM handle.
    ApplicationClose(u64),
    /// The application changed its serial configuration.
    SerialConfiguration(SerialConfiguration),
    /// The application changed DTR, RTS, or break.
    ModemControl(u32),
    /// The application purged one or more queues.
    Purge(u32),
    /// The application canceled an operation.
    Cancel {
        /// Driver-assigned operation identifier.
        operation_id: u64,
        /// Operation kind being canceled.
        kind: u32,
    },
    /// A health request completed.
    Health {
        /// Whether the driver reports an active attachment.
        attached: bool,
        /// Current application-open sequence.
        session_id: u64,
        /// Redacted health detail.
        detail: Seq<char>,
    },
    /// The driver detached the endpoint.
    Detached,
    /// The driver rejected a request.
    Error {
        /// Stable protocol error code.
        code: u32,
        /// Redacted diagnostic detail.
        detail: Seq<char>,
    },
}

impl View for DaemonEvent {
    type V = EventView;

    open spec fn view(&self) -> EventView {
        match *self {
            DaemonEvent::Negotiated => EventView::Negotiated,
            DaemonEvent::Endpoint(e) => EventView::Endpoint {
                endpoint_id: e.endpoint_id,
                kind: e.kind,
                stable_id: e.stable_id@,
                display_name: e.display_name@,
                enabled: e.enabled,
            },
            DaemonEvent::DiscoveryComplete => EventView::DiscoveryComplete,
            DaemonEvent::Attached { endpoint_id, session_id } => EventView::Attached {
                endpoint_id,
                session_id,
            },
            DaemonEvent::Data(bytes) => EventView::Data(bytes@),
            DaemonEvent::ApplicationOpen(id) => EventView::ApplicationOpen(id),
            DaemonEvent::ApplicationClose(id) => EventView::ApplicationClose(id),
            DaemonEvent::SerialConfiguration(c) => EventView::SerialConfiguration(c),
            DaemonEvent::ModemControl(mask) => EventView::ModemControl(mask),
            DaemonEvent::Purge(mask) => EventView::Purge(mask),
            DaemonEvent::Cancel { operation_id, kind } => EventView::Cancel { operation_id, kind },
            DaemonEvent::Health { attached, session_id, detail } => EventView::Health {
                attached,
                session_id,
                detail: detail@,
            },
            DaemonEvent::Detached => EventView::Detached,
            DaemonEvent::Error { code, detail } => EventView::Error { code, detail: detail@ },
        }
    }
}

/// What a list of events says.
pub open spec fn event_views(events: Seq<DaemonEvent>) -> Seq<EventView> {
    events.map_values(|e: DaemonEvent| e@)
}

/// Daemon protocol failure.
#[derive(Debug, Clone, Copy, PartialEq, Eq, Structural)]
pub enum DaemonProtocolError {
    /// Shared frame decoder rejected input.
    Protocol(ProtocolError),
    /// Driver selected an incompatible contract.
    Version,
    /// Driver omitted a required capability.
    Features,
    /// A frame exceeds the negotiated limit.
    FrameLimit,
    /// A data operation was attempted before attachment.
    NotAttached,
    /// A data sequence was repeated or moved backward.
    Sequence,
    /// Peer exceeded its receive credit.
    Credit,
    /// A frame addressed a different endpoint.
    WrongEndpoint,
}

impl DaemonProtocolError {
    /// The words that describe this failure.
    pub open spec fn text(self) -> Seq<char> {
        match self {
            DaemonProtocolError::Protocol(e) => "invalid private transport frame: "@ + e.text(),
            DaemonProtocolError::Version => "driver selected an incompatible protocol"@,
            DaemonProtocolError::Features => "driver omitted a required feature"@,
            DaemonProtocolError::FrameLimit => "frame exceeds the negotiated limit"@,
            DaemonProtocolError::NotAttached => "endpoint is not attached"@,
            DaemonProtocolError::Sequence => "invalid data sequence"@,
            DaemonProtocolError::Credit => "receive credit exhausted"@,
            DaemonProtocolError::WrongEndpoint => "frame addressed a different endpoint"@,
        }
    }

    /// Describe this failure in words.
    #[must_use]
    pub fn message(&self) -> (r: String)
        ensures
            r@ == self.text(),
    {
        match *self {
            DaemonProtocolError::Protocol(e) => {
                let mut out = "invalid private transport frame: ".to_owned();
                out.append(e.message().as_str());
                out
            },
            DaemonProtocolError::Version => "driver selected an incompatible protocol".to_owned(),
            DaemonProtocolError::Features => "driver omitted a required feature".to_owned(),
            DaemonProtocolError::FrameLimit => "frame exceeds the negotiated limit".to_owned(),
            DaemonProtocolError::NotAttached => "endpoint is not attached".to_owned(),
            DaemonProtocolError::Sequence => "invalid data sequence".to_owned(),
            DaemonProtocolError::Credit => "receive credit exhausted".to_owned(),
            DaemonProtocolError::WrongEndpoint => "frame addressed a different endpoint".to_owned(),
        }
    }
}

/// What the daemon side of the protocol knows.
pub struct DaemonState {
    /// Bytes received that do not yet make a frame.
    pub buffered: Seq<u8>,
    /// Whether version and capabilities are agreed.
    pub negotiated: bool,
    /// The endpoint that the daemon is attached to.
    pub attached: Option<u64>,
    /// Largest frame that may be sent or received.
    pub frame_limit: nat,
    /// Most send credit that the driver grants.
    pub send_limit: nat,
    /// Bytes that may still be sent.
    pub send_credit: nat,
    /// Bytes that the driver may still send.
    pub receive_credit: nat,
    /// Sequence of the last data frame sent.
    pub outbound: u64,
    /// Sequence of the last data frame received.
    pub inbound: u64,
}

impl DaemonState {
    /// The bounds that every operation keeps.
    pub open spec fn wf(self) -> bool {
        &&& MIN_FRAME_LIMIT <= self.frame_limit <= ABSOLUTE_MAX_FRAME_LEN
        &&& self.send_credit <= self.send_limit <= u32::MAX
        &&& self.receive_credit <= DEFAULT_RECEIVE_WINDOW
        &&& self.buffered.len() <= ABSOLUTE_MAX_FRAME_LEN
    }
}

/// The state of a new daemon.
pub open spec fn initial_state() -> DaemonState {
    DaemonState {
        buffered: Seq::empty(),
        negotiated: false,
        attached: None,
        frame_limit: ABSOLUTE_MAX_FRAME_LEN as nat,
        send_limit: 0,
        send_credit: 0,
        receive_credit: DEFAULT_RECEIVE_WINDOW as nat,
        outbound: 0,
        inbound: 0,
    }
}

/// A frame of the current version without flags.
pub open spec fn plain_frame(
    kind: MessageKind,
    endpoint_id: u64,
    request_id: u64,
    fields: Map<u16, Seq<u8>>,
) -> FrameView {
    FrameView {
        version: ProtocolVersion::current_version(),
        kind,
        flags: 0,
        endpoint_id,
        request_id,
        fields,
    }
}

/// The fields of the version and capability offer.
pub open spec fn hello_fields() -> Map<u16, Seq<u8>> {
    Map::empty().insert(hello_field::MIN_MAJOR, le_bytes(CURRENT_MAJOR as nat, 2)).insert(
        hello_field::MIN_MINOR,
        le_bytes(CURRENT_MINOR as nat, 2),
    ).insert(hello_field::MAX_MAJOR, le_bytes(CURRENT_MAJOR as nat, 2)).insert(
        hello_field::MAX_MINOR,
        le_bytes(CURRENT_MINOR as nat, 2),
    ).insert(hello_field::MAX_FRAME_BYTES, le_bytes(ABSOLUTE_MAX_FRAME_LEN as nat, 4)).insert(
        hello_field::RECEIVE_WINDOW_BYTES,
        le_bytes(DEFAULT_RECEIVE_WINDOW as nat, 4),
    ).insert(hello_field::FEATURES, le_bytes(REQUIRED_FEATURES as nat, 8)).insert(
        hello_field::IDENTITY,
        encode_utf8("cathub-daemon"@),
    )
}

/// The fields of a request to attach.
pub open spec fn attach_fields() -> Map<u16, Seq<u8>> {
    Map::empty().insert(session_field::SESSION_ID, le_bytes(0, 8)).insert(
        session_field::RECEIVE_CREDIT,
        le_bytes(DEFAULT_RECEIVE_WINDOW as nat, 4),
    )
}

/// The fields of a data frame.
pub open spec fn data_fields(sequence: u64, bytes: Seq<u8>) -> Map<u16, Seq<u8>> {
    Map::empty().insert(data_field::SEQUENCE, le_bytes(sequence as nat, 8)).insert(
        data_field::BYTES,
        bytes,
    )
}

/// The sequence that follows `sequence`: one more, and never zero.
pub open spec fn next_sequence(sequence: u64) -> u64 {
    if sequence == u64::MAX {
        1
    } else {
        (sequence + 1) as u64
    }
}

/// The bytes of a result.
pub open spec fn bytes_result(r: Result<Vec<u8>, DaemonProtocolError>) -> Result<
    Seq<u8>,
    DaemonProtocolError,
> {
    match r {
        Ok(bytes) => Ok(bytes@),
        Err(e) => Err(e),
    }
}

/// What sending bytes does: the frame, or why there is none. The sequence number is taken even
/// where the frame then proves too large; the credit is taken only for bytes that are sent.
pub open spec fn data_sent(st: DaemonState, bytes: Seq<u8>) -> (
    Result<Seq<u8>, DaemonProtocolError>,
    DaemonState,
) {
    let sequence = next_sequence(st.outbound);
    let size = HEADER_LEN + 20 + bytes.len();
    let numbered = DaemonState { outbound: sequence, ..st };
    if st.attached is None {
        (Err(DaemonProtocolError::NotAttached), st)
    } else if bytes.len() > st.send_credit {
        (Err(DaemonProtocolError::Credit), st)
    } else if size > ABSOLUTE_MAX_FRAME_LEN {
        (
            Err(
                DaemonProtocolError::Protocol(
                    ProtocolError::FrameTooLarge(
                        if size > usize::MAX {
                            usize::MAX
                        } else {
                            size as usize
                        },
                    ),
                ),
            ),
            numbered,
        )
    } else if size > st.frame_limit {
        (Err(DaemonProtocolError::FrameLimit), numbered)
    } else {
        (
            Ok(
                frame_bytes(
                    plain_frame(
                        MessageKind::Data,
                        st.attached->Some_0,
                        0,
                        data_fields(sequence, bytes),
                    ),
                ),
            ),
            DaemonState { send_credit: (st.send_credit - bytes.len()) as nat, ..numbered },
        )
    }
}

/// What giving credit back does: the frame that tells the driver, where there is anything to
/// tell.
pub open spec fn credit_released(st: DaemonState, count: nat) -> (
    Result<Option<Seq<u8>>, DaemonProtocolError>,
    DaemonState,
) {
    let restored = DaemonState {
        receive_credit: lesser(st.receive_credit + count, DEFAULT_RECEIVE_WINDOW as nat),
        ..st
    };
    if st.attached is None || count == 0 {
        (Ok(None), st)
    } else if count > u32::MAX {
        (Err(DaemonProtocolError::Credit), restored)
    } else {
        (
            Ok(
                Some(
                    frame_bytes(
                        plain_frame(
                            MessageKind::WindowUpdate,
                            st.attached->Some_0,
                            0,
                            Map::empty().insert(data_field::CREDIT, le_bytes(count, 4)),
                        ),
                    ),
                ),
            ),
            restored,
        )
    }
}

/// A transport health request: it needs an agreed version.
pub open spec fn health_request(st: DaemonState, request_id: u64) -> Result<
    Seq<u8>,
    DaemonProtocolError,
> {
    if st.negotiated {
        Ok(frame_bytes(plain_frame(MessageKind::Health, 0, request_id, Map::empty())))
    } else {
        Err(DaemonProtocolError::Version)
    }
}

/// A graceful detach, where an endpoint is attached.
pub open spec fn detach_request(st: DaemonState, reason: u32) -> Option<Seq<u8>> {
    match st.attached {
        Some(endpoint_id) => Some(
            frame_bytes(
                plain_frame(
                    MessageKind::Detach,
                    endpoint_id,
                    0,
                    Map::empty().insert(
                        session_field::OPTIONS_OR_REASON,
                        le_bytes(reason as nat, 4),
                    ),
                ),
            ),
        ),
        None => None,
    }
}

/// A fault in a field, as a daemon failure.
pub open spec fn field_fault<T>(r: Result<T, ProtocolError>) -> DaemonProtocolError {
    DaemonProtocolError::Protocol(r->Err_0)
}

/// The event that reports one endpoint.
pub open spec fn endpoint_event(frame: FrameView) -> Result<EventView, DaemonProtocolError> {
    let kind = fixed_field(frame.fields, endpoint_field::KIND, 2);
    let stable_id = text_field(frame.fields, endpoint_field::STABLE_ID);
    let display_name = text_field(frame.fields, endpoint_field::DISPLAY_NAME);
    let enabled = fixed_field(frame.fields, endpoint_field::ENABLED, 2);
    if kind is Err {
        Err(field_fault(kind))
    } else if stable_id is Err {
        Err(field_fault(stable_id))
    } else if display_name is Err {
        Err(field_fault(display_name))
    } else if enabled is Err {
        Err(field_fault(enabled))
    } else {
        Ok(
            EventView::Endpoint {
                endpoint_id: frame.endpoint_id,
                kind: kind->Ok_0 as u16,
                stable_id: stable_id->Ok_0,
                display_name: display_name->Ok_0,
                enabled: enabled->Ok_0 != 0,
            },
        )
    }
}

/// The event that reports a serial configuration.
pub open spec fn serial_event(m: Map<u16, Seq<u8>>) -> Result<EventView, DaemonProtocolError> {
    let baud = fixed_field(m, serial_field::BAUD, 4);
    let data_bits = fixed_field(m, serial_field::DATA_BITS, 2);
    let parity = fixed_field(m, serial_field::PARITY, 2);
    let stop_bits = fixed_field(m, serial_field::STOP_BITS, 2);
    let flow_control = fixed_field(m, serial_field::FLOW_CONTROL, 2);
    let read_timeout = fixed_field(m, serial_field::READ_TIMEOUT_MS, 4);
    let write_timeout = fixed_field(m, serial_field::WRITE_TIMEOUT_MS, 4);
    if baud is Err {
        Err(field_fault(baud))
    } else if data_bits is Err {
        Err(field_fault(data_bits))
    } else if parity is Err {
        Err(field_fault(parity))
    } else if stop_bits is Err {
        Err(field_fault(stop_bits))
    } else if flow_control is Err {
        Err(field_fault(flow_control))
    } else if read_timeout is Err {
        Err(field_fault(read_timeout))
    } else if write_timeout is Err {
        Err(field_fault(write_timeout))
    } else {
        Ok(
            EventView::SerialConfiguration(
                SerialConfiguration {
                    baud: baud->Ok_0 as u32,
                    data_bits: data_bits->Ok_0 as u16,
                    parity: parity->Ok_0 as u16,
                    stop_bits: stop_bits->Ok_0 as u16,
                    flow_control: flow_control->Ok_0 as u16,
                    read_timeout_ms: read_timeout->Ok_0 as u32,
                    write_timeout_ms: write_timeout->Ok_0 as u32,
                },
            ),
        )
    }
}

/// The event that reports transport health.
pub open spec fn health_event(m: Map<u16, Seq<u8>>) -> Result<EventView, DaemonProtocolError> {
    let attached = fixed_field(m, control_field::MASK, 4);
    let session_id = fixed_field(m, control_field::SEQUENCE_OR_OPERATION_ID, 8);
    let detail = text_field(m, control_field::DETAIL);
    if attached is Err {
        Err(field_fault(attached))
    } else if session_id is Err {
        Err(field_fault(session_id))
    } else if detail is Err {
        Err(field_fault(detail))
    } else {
        Ok(
            EventView::Health {
                attached: attached->Ok_0 != 0,
                session_id: session_id->Ok_0 as u64,
                detail: detail->Ok_0,
            },
        )
    }
}

/// The event that reports a canceled operation.
pub open spec fn cancel_event(m: Map<u16, Seq<u8>>) -> Result<EventView, DaemonProtocolError> {
    let operation = fixed_field(m, control_field::SEQUENCE_OR_OPERATION_ID, 8);
    let kind = fixed_field(m, control_field::KIND_OR_ERROR_CODE, 4);
    if operation is Err {
        Err(field_fault(operation))
    } else if kind is Err {
        Err(field_fault(kind))
    } else {
        Ok(
            EventView::Cancel {
                operation_id: operation->Ok_0 as u64,
                kind: kind->Ok_0 as u32,
            },
        )
    }
}

/// The event that reports a rejected request.
pub open spec fn error_event(m: Map<u16, Seq<u8>>) -> Result<EventView, DaemonProtocolError> {
    let code = fixed_field(m, control_field::KIND_OR_ERROR_CODE, 4);
    let detail = text_field(m, control_field::DETAIL);
    if code is Err {
        Err(field_fault(code))
    } else if detail is Err {
        Err(field_fault(detail))
    } else {
        Ok(EventView::Error { code: code->Ok_0 as u32, detail: detail->Ok_0 })
    }
}

/// The fault in a capability selection, if it has one. The version is looked at first, in
/// the order of its four fields, then the features, the frame limit and the window.
pub open spec fn hello_ack_fault(frame: FrameView) -> Option<DaemonProtocolError> {
    let m = frame.fields;
    let min_major = fixed_field(m, hello_field::MIN_MAJOR, 2);
    let min_minor = fixed_field(m, hello_field::MIN_MINOR, 2);
    let max_major = fixed_field(m, hello_field::MAX_MAJOR, 2);
    let max_minor = fixed_field(m, hello_field::MAX_MINOR, 2);
    let features = fixed_field(m, hello_field::FEATURES, 8);
    let limit = fixed_field(m, hello_field::MAX_FRAME_BYTES, 4);
    let window = fixed_field(m, hello_field::RECEIVE_WINDOW_BYTES, 4);
    if frame.flags & FrameFlags::RESPONSE != FrameFlags::RESPONSE {
        Some(DaemonProtocolError::Version)
    } else if min_major is Err {
        Some(field_fault(min_major))
    } else if min_major->Ok_0 != CURRENT_MAJOR {
        Some(DaemonProtocolError::Version)
    } else if min_minor is Err {
        Some(field_fault(min_minor))
    } else if min_minor->Ok_0 != CURRENT_MINOR {
        Some(DaemonProtocolError::Version)
    } else if max_major is Err {
        Some(field_fault(max_major))
    } else if max_major->Ok_0 != CURRENT_MAJOR {
        Some(DaemonProtocolError::Version)
    } else if max_minor is Err {
        Some(field_fault(max_minor))
    } else if max_minor->Ok_0 != CURRENT_MINOR {
        Some(DaemonProtocolError::Version)
    } else if features is Err {
        Some(field_fault(features))
    } else if (features->Ok_0 as u64) & REQUIRED_FEATURES != REQUIRED_FEATURES {
        Some(DaemonProtocolError::Features)
    } else if limit is Err {
        Some(field_fault(limit))
    } else if limit->Ok_0 < MIN_FRAME_LIMIT {
        Some(DaemonProtocolError::FrameLimit)
    } else if window is Err {
        Some(field_fault(window))
    } else if window->Ok_0 == 0 {
        Some(DaemonProtocolError::Credit)
    } else {
        None
    }
}

/// The lesser of two numbers.
pub open spec fn lesser(a: nat, b: nat) -> nat {
    if a <= b {
        a
    } else {
        b
    }
}

/// What a capability selection does.
pub open spec fn after_hello_ack(st: DaemonState, frame: FrameView) -> (
    Result<Option<EventView>, DaemonProtocolError>,
    DaemonState,
) {
    match hello_ack_fault(frame) {
        Some(e) => (Err(e), st),
        None => {
            let limit = fixed_field(frame.fields, hello_field::MAX_FRAME_BYTES, 4)->Ok_0;
            let window = fixed_field(frame.fields, hello_field::RECEIVE_WINDOW_BYTES, 4)->Ok_0;
            (
                Ok(Some(EventView::Negotiated)),
                DaemonState {
                    negotiated: true,
                    frame_limit: lesser(limit, ABSOLUTE_MAX_FRAME_LEN as nat),
                    send_limit: window,
                    send_credit: window,
                    ..st
                },
            )
        },
    }
}

/// What the confirmation of an attachment does. The attachment stands even where the
/// session number is missing.
pub open spec fn after_attach_ack(st: DaemonState, frame: FrameView) -> (
    Result<Option<EventView>, DaemonProtocolError>,
    DaemonState,
) {
    let window = fixed_field(frame.fields, session_field::RECEIVE_CREDIT, 4);
    let session = fixed_field(frame.fields, session_field::SESSION_ID, 8);
    if window is Err {
        (Err(field_fault(window)), st)
    } else if window->Ok_0 == 0 {
        (Err(DaemonProtocolError::Credit), st)
    } else {
        let attached = DaemonState {
            attached: Some(frame.endpoint_id),
            send_limit: window->Ok_0,
            send_credit: window->Ok_0,
            receive_credit: DEFAULT_RECEIVE_WINDOW as nat,
            outbound: 0,
            inbound: 0,
            ..st
        };
        if session is Err {
            (Err(field_fault(session)), attached)
        } else {
            (
                Ok(
                    Some(
                        EventView::Attached {
                            endpoint_id: frame.endpoint_id,
                            session_id: session->Ok_0 as u64,
                        },
                    ),
                ),
                attached,
            )
        }
    }
}

/// What received data does.
pub open spec fn after_data(st: DaemonState, frame: FrameView) -> (
    Result<Option<EventView>, DaemonProtocolError>,
    DaemonState,
) {
    let sequence = fixed_field(frame.fields, data_field::SEQUENCE, 8);
    if st.attached != Some(frame.endpoint_id) {
        (Err(DaemonProtocolError::WrongEndpoint), st)
    } else if sequence is Err {
        (Err(field_fault(sequence)), st)
    } else if sequence->Ok_0 <= st.inbound {
        (Err(DaemonProtocolError::Sequence), st)
    } else if !frame.fields.contains_key(data_field::BYTES) {
        (
            Err(DaemonProtocolError::Protocol(ProtocolError::MissingField(data_field::BYTES))),
            st,
        )
    } else {
        let bytes = frame.fields[data_field::BYTES];
        if bytes.len() > st.receive_credit {
            (Err(DaemonProtocolError::Credit), st)
        } else {
            (
                Ok(Some(EventView::Data(bytes))),
                DaemonState {
                    inbound: sequence->Ok_0 as u64,
                    receive_credit: (st.receive_credit - bytes.len()) as nat,
                    ..st
                },
            )
        }
    }
}

/// What additional send credit does.
pub open spec fn after_window_update(st: DaemonState, frame: FrameView) -> (
    Result<Option<EventView>, DaemonProtocolError>,
    DaemonState,
) {
    let credit = fixed_field(frame.fields, data_field::CREDIT, 4);
    if st.attached != Some(frame.endpoint_id) {
        (Err(DaemonProtocolError::WrongEndpoint), st)
    } else if credit is Err {
        (Err(field_fault(credit)), st)
    } else if credit->Ok_0 == 0 {
        (Err(DaemonProtocolError::Credit), st)
    } else {
        (
            Ok(None),
            DaemonState { send_credit: lesser(st.send_credit + credit->Ok_0, st.send_limit), ..st },
        )
    }
}

/// An event that changes no state, or the fault that stands in its place.
pub open spec fn report(st: DaemonState, event: Result<EventView, DaemonProtocolError>) -> (
    Result<Option<EventView>, DaemonProtocolError>,
    DaemonState,
) {
    match event {
        Ok(e) => (Ok(Some(e)), st),
        Err(e) => (Err(e), st),
    }
}

/// What one frame from the driver does.
#[verifier::opaque]
pub open spec fn after_frame(st: DaemonState, frame: FrameView) -> (
    Result<Option<EventView>, DaemonProtocolError>,
    DaemonState,
) {
    let m = frame.fields;
    match frame.kind {
        MessageKind::HelloAck => after_hello_ack(st, frame),
        MessageKind::Endpoint => report(st, endpoint_event(frame)),
        MessageKind::DiscoverComplete => (Ok(Some(EventView::DiscoveryComplete)), st),
        MessageKind::AttachAck => after_attach_ack(st, frame),
        MessageKind::Data => after_data(st, frame),
        MessageKind::WindowUpdate => after_window_update(st, frame),
        MessageKind::ApplicationOpen => report(
            st,
            match fixed_field(m, control_field::SEQUENCE_OR_OPERATION_ID, 8) {
                Ok(id) => Ok(EventView::ApplicationOpen(id as u64)),
                Err(e) => Err(DaemonProtocolError::Protocol(e)),
            },
        ),
        MessageKind::ApplicationClose => report(
            st,
            match fixed_field(m, control_field::SEQUENCE_OR_OPERATION_ID, 8) {
                Ok(id) => Ok(EventView::ApplicationClose(id as u64)),
                Err(e) => Err(DaemonProtocolError::Protocol(e)),
            },
        ),
        MessageKind::SerialConfig => report(st, serial_event(m)),
        MessageKind::ModemControl => report(
            st,
            match fixed_field(m, control_field::MASK, 4) {
                Ok(mask) => Ok(EventView::ModemControl(mask as u32)),
                Err(e) => Err(DaemonProtocolError::Protocol(e)),
            },
        ),
        MessageKind::Purge => report(
            st,
            match fixed_field(m, control_field::MASK, 4) {
                Ok(mask) => Ok(EventView::Purge(mask as u32)),
                Err(e) => Err(DaemonProtocolError::Protocol(e)),
            },
        ),
        MessageKind::Cancel => report(st, cancel_event(m)),
        MessageKind::HealthAck => report(st, health_event(m)),
        MessageKind::Detach => (
            Ok(Some(EventView::Detached)),
            DaemonState { attached: None, ..st },
        ),
        MessageKind::Error => report(st, error_event(m)),
        _ => (Ok(None), st),
    }
}

/// The events of a step that was taken.
pub open spec fn step_events(event: Option<EventView>) -> Seq<EventView> {
    match event {
        Some(e) => seq![e],
        None => Seq::empty(),
    }
}

/// The effect of a frame leaves the bytes that follow it alone.
pub proof fn lemma_frame_keeps_buffer(st: DaemonState, frame: FrameView)
    ensures
        after_frame(st, frame).1.buffered == st.buffered,
{
    reveal(after_frame);
}

/// What the frames that are complete in the buffer do, one after the other. The first fault
/// ends the reading.
pub open spec fn after_buffered(st: DaemonState, events: Seq<EventView>) -> (
    Result<Seq<EventView>, DaemonProtocolError>,
    DaemonState,
)
    decreases st.buffered.len(),
{
    let (outcome, taken) = next_in_stream(st.buffered);
    let rest = DaemonState { buffered: st.buffered.skip(taken as int), ..st };
    match outcome {
        Err(e) => (Err(DaemonProtocolError::Protocol(e)), rest),
        Ok(None) => (Ok(events), rest),
        Ok(Some(frame)) => if st.negotiated && taken > st.frame_limit {
            (Err(DaemonProtocolError::FrameLimit), rest)
        } else if st.negotiated && frame.version != ProtocolVersion::current_version() {
            (Err(DaemonProtocolError::Version), rest)
        } else {
            let (event, next) = after_frame(rest, frame);
            proof {
                lemma_frame_keeps_buffer(rest, frame);
            }
            match event {
                Err(e) => (Err(e), next),
                Ok(event) => after_buffered(next, events + step_events(event)),
            }
        },
    }
}

/// What received bytes do. Where too many would wait for a complete frame, they are refused
/// as a whole.
pub open spec fn ingested(st: DaemonState, bytes: Seq<u8>) -> (
    Result<Seq<EventView>, DaemonProtocolError>,
    DaemonState,
) {
    if st.buffered.len() + bytes.len() > ABSOLUTE_MAX_FRAME_LEN {
        (Err(DaemonProtocolError::FrameLimit), st)
    } else {
        after_buffered(with_more(st, bytes), Seq::empty())
    }
}

/// State machine shared by the transport adapter and its tests.
#[derive(Debug)]
pub struct DaemonProtocol {
    decoder: FrameDecoder,
    negotiated: bool,
    attached_endpoint: Option<u64>,
    frame_limit: usize,
    send_limit: usize,
    send_credit: usize,
    receive_credit: usize,
    outbound_sequence: u64,
    inbound_sequence: u64,
}

impl View for DaemonProtocol {
    type V = DaemonState;

    closed spec fn view(&self) -> DaemonState {
        DaemonState {
            buffered: self.decoder@,
            negotiated: self.negotiated,
            attached: self.attached_endpoint,
            frame_limit: self.frame_limit as nat,
            send_limit: self.send_limit as nat,
            send_credit: self.send_credit as nat,
            receive_credit: self.receive_credit as nat,
            outbound: self.outbound_sequence,
            inbound: self.inbound_sequence,
        }
    }
}

/// A frame with little in it can always be written.
proof fn lemma_small_frame(frame: FrameView, size: nat)
    requires
        fields_bytes(frame.fields, 0).len() == size,
    ensures
        frame_bytes(frame).len() == HEADER_LEN + size,
{
    crate::protocol::frame::lemma_header_len(frame, size);
}

proof fn lemma_one_field_len(tag: u16, value: Seq<u8>)
    ensures
        fields_bytes(Map::empty().insert(tag, value), 0).len() == 6 + value.len(),
{
    crate::protocol::fields::lemma_empty_len(0);
    crate::protocol::fields::lemma_insert_len(Map::empty(), tag, value, 0);
}

impl DaemonProtocol {
    /// Create an unnegotiated daemon protocol instance.
    #[must_use]
    pub fn new() -> (r: Self)
        ensures
            r@ == initial_state(),
            r@.wf(),
    {
        DaemonProtocol {
            decoder: FrameDecoder::default(),
            negotiated: false,
            attached_endpoint: None,
            frame_limit: ABSOLUTE_MAX_FRAME_LEN,
            send_limit: 0,
            send_credit: 0,
            receive_credit: DEFAULT_RECEIVE_WINDOW,
            outbound_sequence: 0,
            inbound_sequence: 0,
        }
    }

    /// Build the initial version and capability offer. It can always be built.
    ///
    /// # Errors
    ///
    /// Returns an error if the frame cannot be represented by protocol 1.0.
    pub fn hello(request_id: u64) -> (r: Result<Vec<u8>, DaemonProtocolError>)
        ensures
            r matches Ok(bytes) && bytes@ == frame_bytes(
                plain_frame(MessageKind::Hello, 0, request_id, hello_fields()),
            ),
    {
        let mut frame = Frame::new(MessageKind::Hello, 0, request_id);
        let _ = frame.fields.insert_u16(hello_field::MIN_MAJOR, CURRENT_MAJOR);
        let _ = frame.fields.insert_u16(hello_field::MIN_MINOR, CURRENT_MINOR);
        let _ = frame.fields.insert_u16(hello_field::MAX_MAJOR, CURRENT_MAJOR);
        let _ = frame.fields.insert_u16(hello_field::MAX_MINOR, CURRENT_MINOR);
        let _ = frame.fields.insert_u32(
            hello_field::MAX_FRAME_BYTES,
            ABSOLUTE_MAX_FRAME_LEN as u32,
        );
        let _ = frame.fields.insert_u32(
            hello_field::RECEIVE_WINDOW_BYTES,
            DEFAULT_RECEIVE_WINDOW as u32,
        );
        let _ = frame.fields.insert_u64(hello_field::FEATURES, REQUIRED_FEATURES);
        let _ = frame.fields.insert_string(hello_field::IDENTITY, "cathub-daemon");
        proof {
            lemma_hello_fits();
            assert(frame.fields@ =~= hello_fields());
            assert(frame@ == plain_frame(MessageKind::Hello, 0, request_id, hello_fields()));
        }
        match frame.encode() {
            Ok(bytes) => Ok(bytes),
            Err(e) => Err(DaemonProtocolError::Protocol(e)),
        }
    }

    /// Request the driver's endpoint inventory.
    ///
    /// # Errors
    ///
    /// Returns an error before negotiation.
    pub fn discover(&self, request_id: u64) -> (r: Result<Vec<u8>, DaemonProtocolError>)
        requires
            self@.wf(),
        ensures
            !self@.negotiated ==> r == Err::<Vec<u8>, DaemonProtocolError>(
                DaemonProtocolError::Version,
            ),
            self@.negotiated ==> (r matches Ok(bytes) && bytes@ == frame_bytes(
                plain_frame(MessageKind::Discover, 0, request_id, Map::empty()),
            )),
    {
        if let Err(e) = self.require_negotiated() {
            return Err(e);
        }
        let frame = Frame::new(MessageKind::Discover, 0, request_id);
        proof {
            crate::protocol::fields::lemma_empty_len(0);
            lemma_small_frame(frame@, 0);
        }
        self.encode(&frame)
    }

    /// Attach to one discovered endpoint.
    ///
    /// # Errors
    ///
    /// Returns an error before negotiation.
    pub fn attach(&self, endpoint_id: u64, request_id: u64) -> (r: Result<
        Vec<u8>,
        DaemonProtocolError,
    >)
        requires
            self@.wf(),
        ensures
            !self@.negotiated ==> r == Err::<Vec<u8>, DaemonProtocolError>(
                DaemonProtocolError::Version,
            ),
            self@.negotiated ==> (r matches Ok(bytes) && bytes@ == frame_bytes(
                plain_frame(MessageKind::Attach, endpoint_id, request_id, attach_fields()),
            )),
    {
        if let Err(e) = self.require_negotiated() {
            return Err(e);
        }
        let mut frame = Frame::new(MessageKind::Attach, endpoint_id, request_id);
        let _ = frame.fields.insert_u64(session_field::SESSION_ID, 0);
        let _ = frame.fields.insert_u32(
            session_field::RECEIVE_CREDIT,
            DEFAULT_RECEIVE_WINDOW as u32,
        );
        proof {
            let one = Map::<u16, Seq<u8>>::empty().insert(
                session_field::SESSION_ID,
                le_bytes(0, 8),
            );
            crate::le::lemma_le_bytes_len(0, 8);
            crate::le::lemma_le_bytes_len(DEFAULT_RECEIVE_WINDOW as nat, 4);
            lemma_one_field_len(session_field::SESSION_ID, le_bytes(0, 8));
            crate::protocol::fields::lemma_insert_len(
                one,
                session_field::RECEIVE_CREDIT,
                le_bytes(DEFAULT_RECEIVE_WINDOW as nat, 4),
                0,
            );
            assert(frame.fields@ =~= attach_fields());
            assert(frame@ == plain_frame(
                MessageKind::Attach,
                endpoint_id,
                request_id,
                attach_fields(),
            ));
            lemma_small_frame(frame@, 24);
        }
        self.encode(&frame)
    }

    /// Encode bytes produced by the CatHub endpoint session.
    ///
    /// The sequence number is taken even where the frame then proves too large; the credit
    /// is taken only for bytes that are sent.
    ///
    /// # Errors
    ///
    /// Returns an error before attachment, when credit is exhausted, or if the frame is too
    /// large.
    pub fn data(&mut self, bytes: &[u8]) -> (r: Result<Vec<u8>, DaemonProtocolError>)
        requires
            old(self)@.wf(),
        ensures
            final(self)@.wf(),
            (bytes_result(r), final(self)@) == data_sent(old(self)@, bytes@),
    {
        let endpoint_id: u64 = match self.attached_endpoint {
            Some(endpoint_id) => endpoint_id,
            None => return Err(DaemonProtocolError::NotAttached),
        };
        if bytes.len() > self.send_credit {
            return Err(DaemonProtocolError::Credit);
        }
        self.outbound_sequence = if self.outbound_sequence == u64::MAX {
            1
        } else {
            self.outbound_sequence + 1
        };
        let mut frame = Frame::new(MessageKind::Data, endpoint_id, 0);
        let _ = frame.fields.insert_u64(data_field::SEQUENCE, self.outbound_sequence);
        let _ = frame.fields.insert(data_field::BYTES, vstd::slice::slice_to_vec(bytes));
        proof {
            let sequence = le_bytes(self.outbound_sequence as nat, 8);
            let one = Map::<u16, Seq<u8>>::empty().insert(data_field::SEQUENCE, sequence);
            crate::le::lemma_le_bytes_len(self.outbound_sequence as nat, 8);
            lemma_one_field_len(data_field::SEQUENCE, sequence);
            crate::protocol::fields::lemma_insert_len(one, data_field::BYTES, bytes@, 0);
            assert(frame.fields@ =~= data_fields(self.outbound_sequence, bytes@));
            lemma_small_frame(frame@, 20 + bytes@.len());
        }
        let encoded = match self.encode(&frame) {
            Ok(encoded) => encoded,
            Err(e) => return Err(e),
        };
        self.send_credit = self.send_credit - bytes.len();
        Ok(encoded)
    }

    /// Restore driver send credit after application bytes enter the endpoint session.
    ///
    /// # Errors
    ///
    /// Returns an error if the credit value cannot be encoded.
    pub fn release_received(&mut self, count: usize) -> (r: Result<
        Option<Vec<u8>>,
        DaemonProtocolError,
    >)
        requires
            old(self)@.wf(),
        ensures
            final(self)@.wf(),
            ({
                let (outcome, next) = credit_released(old(self)@, count as nat);
                &&& final(self)@ == next
                &&& match r {
                    Ok(Some(bytes)) => outcome == Ok::<Option<Seq<u8>>, DaemonProtocolError>(
                        Some(bytes@),
                    ),
                    Ok(None) => outcome == Ok::<Option<Seq<u8>>, DaemonProtocolError>(None),
                    Err(e) => outcome == Err::<Option<Seq<u8>>, DaemonProtocolError>(e),
                }
            }),
    {
        let endpoint_id: u64 = match self.attached_endpoint {
            Some(endpoint_id) => endpoint_id,
            None => return Ok(None),
        };
        if count == 0 {
            return Ok(None);
        }
        let raised: usize = self.receive_credit.saturating_add(count);
        self.receive_credit = if raised < DEFAULT_RECEIVE_WINDOW {
            raised
        } else {
            DEFAULT_RECEIVE_WINDOW
        };
        if count as u64 > u32::MAX as u64 {
            return Err(DaemonProtocolError::Credit);
        }
        let mut frame = Frame::new(MessageKind::WindowUpdate, endpoint_id, 0);
        let _ = frame.fields.insert_u32(data_field::CREDIT, count as u32);
        proof {
            crate::le::lemma_le_bytes_len(count as nat, 4);
            lemma_one_field_len(data_field::CREDIT, le_bytes(count as nat, 4));
            lemma_small_frame(frame@, 10);
        }
        match self.encode(&frame) {
            Ok(encoded) => Ok(Some(encoded)),
            Err(e) => Err(e),
        }
    }

    /// Build a transport health request.
    ///
    /// # Errors
    ///
    /// Returns an error before negotiation.
    pub fn health(&self, request_id: u64) -> (r: Result<Vec<u8>, DaemonProtocolError>)
        requires
            self@.wf(),
        ensures
            bytes_result(r) == health_request(self@, request_id),
    {
        if let Err(e) = self.require_negotiated() {
            return Err(e);
        }
        let frame = Frame::new(MessageKind::Health, 0, request_id);
        proof {
            crate::protocol::fields::lemma_empty_len(0);
            lemma_small_frame(frame@, 0);
        }
        self.encode(&frame)
    }

    /// Build a graceful detach frame where an endpoint is attached. It can always be built.
    ///
    /// # Errors
    ///
    /// Returns an error if the detach frame cannot be encoded.
    pub fn detach(&self, reason: u32) -> (r: Result<Option<Vec<u8>>, DaemonProtocolError>)
        requires
            self@.wf(),
        ensures
            match r {
                Ok(Some(bytes)) => detach_request(self@, reason) == Some(bytes@),
                Ok(None) => detach_request(self@, reason) is None,
                Err(_) => false,
            },
    {
        let endpoint_id: u64 = match self.attached_endpoint {
            Some(endpoint_id) => endpoint_id,
            None => return Ok(None),
        };
        let mut frame = Frame::new(MessageKind::Detach, endpoint_id, 0);
        let _ = frame.fields.insert_u32(session_field::OPTIONS_OR_REASON, reason);
        proof {
            crate::le::lemma_le_bytes_len(reason as nat, 4);
            lemma_one_field_len(session_field::OPTIONS_OR_REASON, le_bytes(reason as nat, 4));
            lemma_small_frame(frame@, 10);
        }
        match self.encode(&frame) {
            Ok(encoded) => Ok(Some(encoded)),
            Err(e) => Err(e),
        }
    }

    /// Consume any private stream fragment and return decoded events.
    ///
    /// # Errors
    ///
    /// Returns an error for malformed, incompatible, oversized, out-of-sequence, or
    /// credit-violating driver traffic.
    pub fn ingest(&mut self, bytes: &[u8]) -> (r: Result<Vec<DaemonEvent>, DaemonProtocolError>)
        requires
            old(self)@.wf(),
        ensures
            final(self)@.wf(),
            ({
                let (outcome, next) = ingested(old(self)@, bytes@);
                &&& final(self)@ == next
                &&& match r {
                    Ok(events) => outcome == Ok::<Seq<EventView>, DaemonProtocolError>(
                        event_views(events@),
                    ),
                    Err(e) => outcome == Err::<Seq<EventView>, DaemonProtocolError>(e),
                }
            }),
    {
        if self.decoder.buffered_len().saturating_add(bytes.len()) > ABSOLUTE_MAX_FRAME_LEN {
            return Err(DaemonProtocolError::FrameLimit);
        }
        self.decoder.push(bytes);
        let mut events: Vec<DaemonEvent> = Vec::new();
        let ghost start = self@;
        proof {
            assert(start == DaemonState { buffered: old(self)@.buffered + bytes@, ..old(self)@ });
            assert(event_views(events@) =~= Seq::empty());
        }
        loop
            invariant
                self@.wf(),
                start == (DaemonState { buffered: old(self)@.buffered + bytes@, ..old(self)@ }),
                start.buffered.len() <= ABSOLUTE_MAX_FRAME_LEN,
                after_buffered(start, Seq::empty()) == after_buffered(self@, event_views(events@)),
            decreases self@.buffered.len(),
        {
            let ghost before = self@;
            let waiting: usize = self.decoder.buffered_len();
            let frame = match self.decoder.next_frame() {
                Ok(Some(frame)) => frame,
                Ok(None) => return Ok(events),
                Err(e) => return Err(DaemonProtocolError::Protocol(e)),
            };
            let size: usize = waiting - self.decoder.buffered_len();
            proof {
                assert(self@ == DaemonState {
                    buffered: before.buffered.skip(next_in_stream(before.buffered).1 as int),
                    ..before
                });
            }
            if self.negotiated && size > self.frame_limit {
                return Err(DaemonProtocolError::FrameLimit);
            }
            if self.negotiated && (frame.version.major != CURRENT_MAJOR || frame.version.minor
                != CURRENT_MINOR) {
                return Err(DaemonProtocolError::Version);
            }
            let event = match self.process_frame(&frame) {
                Ok(event) => event,
                Err(e) => return Err(e),
            };
            let ghost views = event_views(events@);
            match event {
                Some(event) => {
                    events.push(event);
                    proof {
                        assert(event_views(events@) =~= views + seq![event@]);
                    }
                },
                None => {
                    proof {
                        assert(views + Seq::<EventView>::empty() =~= views);
                    }
                },
            }
        }
    }

    /// Let one frame from the driver take effect.
    fn process_frame(&mut self, frame: &Frame) -> (r: Result<
        Option<DaemonEvent>,
        DaemonProtocolError,
    >)
        requires
            old(self)@.wf(),
        ensures
            final(self)@.wf(),
            final(self)@ == after_frame(old(self)@, frame@).1,
            final(self)@.buffered == old(self)@.buffered,
            same_step(r, after_frame(old(self)@, frame@).0),
    {
        proof {
            reveal(after_frame);
        }
        match frame.kind {
            MessageKind::HelloAck => self.process_hello_ack(frame),
            MessageKind::Endpoint => process_endpoint(frame),
            MessageKind::DiscoverComplete => Ok(Some(DaemonEvent::DiscoveryComplete)),
            MessageKind::AttachAck => self.process_attach_ack(frame),
            MessageKind::Data => self.process_data(frame),
            MessageKind::WindowUpdate => self.process_window_update(frame),
            MessageKind::ApplicationOpen => match frame.fields.require_u64(
                control_field::SEQUENCE_OR_OPERATION_ID,
            ) {
                Ok(id) => Ok(Some(DaemonEvent::ApplicationOpen(id))),
                Err(e) => Err(DaemonProtocolError::Protocol(e)),
            },
            MessageKind::ApplicationClose => match frame.fields.require_u64(
                control_field::SEQUENCE_OR_OPERATION_ID,
            ) {
                Ok(id) => Ok(Some(DaemonEvent::ApplicationClose(id))),
                Err(e) => Err(DaemonProtocolError::Protocol(e)),
            },
            MessageKind::SerialConfig => process_serial_config(frame),
            MessageKind::ModemControl => match frame.fields.require_u32(control_field::MASK) {
                Ok(mask) => Ok(Some(DaemonEvent::ModemControl(mask))),
                Err(e) => Err(DaemonProtocolError::Protocol(e)),
            },
            MessageKind::Purge => match frame.fields.require_u32(control_field::MASK) {
                Ok(mask) => Ok(Some(DaemonEvent::Purge(mask))),
                Err(e) => Err(DaemonProtocolError::Protocol(e)),
            },
            MessageKind::Cancel => process_cancel(frame),
            MessageKind::HealthAck => process_health(frame),
            MessageKind::Detach => {
                self.attached_endpoint = None;
                Ok(Some(DaemonEvent::Detached))
            },
            MessageKind::Error => process_error(frame),
            _ => Ok(None),
        }
    }

    fn process_hello_ack(&mut self, frame: &Frame) -> (r: Result<
        Option<DaemonEvent>,
        DaemonProtocolError,
    >)
        requires
            old(self)@.wf(),
        ensures
            final(self)@.wf(),
            final(self)@ == after_hello_ack(old(self)@, frame@).1,
            final(self)@.buffered == old(self)@.buffered,
            same_step(r, after_hello_ack(old(self)@, frame@).0),
    {
        if !frame.flags.contains(FrameFlags::from_bits(FrameFlags::RESPONSE)) {
            return Err(DaemonProtocolError::Version);
        }
        match frame.fields.require_u16(hello_field::MIN_MAJOR) {
            Ok(value) => if value != CURRENT_MAJOR {
                return Err(DaemonProtocolError::Version);
            },
            Err(e) => return Err(DaemonProtocolError::Protocol(e)),
        }
        match frame.fields.require_u16(hello_field::MIN_MINOR) {
            Ok(value) => if value != CURRENT_MINOR {
                return Err(DaemonProtocolError::Version);
            },
            Err(e) => return Err(DaemonProtocolError::Protocol(e)),
        }
        match frame.fields.require_u16(hello_field::MAX_MAJOR) {
            Ok(value) => if value != CURRENT_MAJOR {
                return Err(DaemonProtocolError::Version);
            },
            Err(e) => return Err(DaemonProtocolError::Protocol(e)),
        }
        match frame.fields.require_u16(hello_field::MAX_MINOR) {
            Ok(value) => if value != CURRENT_MINOR {
                return Err(DaemonProtocolError::Version);
            },
            Err(e) => return Err(DaemonProtocolError::Protocol(e)),
        }
        let features: u64 = match frame.fields.require_u64(hello_field::FEATURES) {
            Ok(features) => features,
            Err(e) => return Err(DaemonProtocolError::Protocol(e)),
        };
        if features & REQUIRED_FEATURES != REQUIRED_FEATURES {
            return Err(DaemonProtocolError::Features);
        }
        let frame_limit: usize = match frame.fields.require_u32(hello_field::MAX_FRAME_BYTES) {
            Ok(limit) => limit as usize,
            Err(e) => return Err(DaemonProtocolError::Protocol(e)),
        };
        if frame_limit < MIN_FRAME_LIMIT {
            return Err(DaemonProtocolError::FrameLimit);
        }
        let window: usize = match frame.fields.require_u32(hello_field::RECEIVE_WINDOW_BYTES) {
            Ok(window) => window as usize,
            Err(e) => return Err(DaemonProtocolError::Protocol(e)),
        };
        if window == 0 {
            return Err(DaemonProtocolError::Credit);
        }
        self.negotiated = true;
        self.frame_limit = if frame_limit < ABSOLUTE_MAX_FRAME_LEN {
            frame_limit
        } else {
            ABSOLUTE_MAX_FRAME_LEN
        };
        self.send_limit = window;
        self.send_credit = window;
        Ok(Some(DaemonEvent::Negotiated))
    }

    fn process_attach_ack(&mut self, frame: &Frame) -> (r: Result<
        Option<DaemonEvent>,
        DaemonProtocolError,
    >)
        requires
            old(self)@.wf(),
        ensures
            final(self)@.wf(),
            final(self)@ == after_attach_ack(old(self)@, frame@).1,
            final(self)@.buffered == old(self)@.buffered,
            same_step(r, after_attach_ack(old(self)@, frame@).0),
    {
        let window: usize = match frame.fields.require_u32(session_field::RECEIVE_CREDIT) {
            Ok(window) => window as usize,
            Err(e) => return Err(DaemonProtocolError::Protocol(e)),
        };
        if window == 0 {
            return Err(DaemonProtocolError::Credit);
        }
        self.attached_endpoint = Some(frame.endpoint_id);
        self.send_limit = window;
        self.send_credit = window;
        self.receive_credit = DEFAULT_RECEIVE_WINDOW;
        self.outbound_sequence = 0;
        self.inbound_sequence = 0;
        match frame.fields.require_u64(session_field::SESSION_ID) {
            Ok(session_id) => Ok(
                Some(DaemonEvent::Attached { endpoint_id: frame.endpoint_id, session_id }),
            ),
            Err(e) => Err(DaemonProtocolError::Protocol(e)),
        }
    }

    fn process_data(&mut self, frame: &Frame) -> (r: Result<
        Option<DaemonEvent>,
        DaemonProtocolError,
    >)
        requires
            old(self)@.wf(),
        ensures
            final(self)@.wf(),
            final(self)@ == after_data(old(self)@, frame@).1,
            final(self)@.buffered == old(self)@.buffered,
            same_step(r, after_data(old(self)@, frame@).0),
    {
        if let Err(e) = self.require_endpoint(frame) {
            return Err(e);
        }
        let sequence: u64 = match frame.fields.require_u64(data_field::SEQUENCE) {
            Ok(sequence) => sequence,
            Err(e) => return Err(DaemonProtocolError::Protocol(e)),
        };
        if sequence <= self.inbound_sequence {
            return Err(DaemonProtocolError::Sequence);
        }
        let bytes = match frame.fields.get(data_field::BYTES) {
            Some(bytes) => bytes,
            None => return Err(
                DaemonProtocolError::Protocol(ProtocolError::MissingField(data_field::BYTES)),
            ),
        };
        if bytes.len() > self.receive_credit {
            return Err(DaemonProtocolError::Credit);
        }
        self.inbound_sequence = sequence;
        self.receive_credit = self.receive_credit - bytes.len();
        Ok(Some(DaemonEvent::Data(vstd::slice::slice_to_vec(bytes))))
    }

    fn process_window_update(&mut self, frame: &Frame) -> (r: Result<
        Option<DaemonEvent>,
        DaemonProtocolError,
    >)
        requires
            old(self)@.wf(),
        ensures
            final(self)@.wf(),
            final(self)@ == after_window_update(old(self)@, frame@).1,
            final(self)@.buffered == old(self)@.buffered,
            same_step(r, after_window_update(old(self)@, frame@).0),
    {
        if let Err(e) = self.require_endpoint(frame) {
            return Err(e);
        }
        let credit: usize = match frame.fields.require_u32(data_field::CREDIT) {
            Ok(credit) => credit as usize,
            Err(e) => return Err(DaemonProtocolError::Protocol(e)),
        };
        if credit == 0 {
            return Err(DaemonProtocolError::Credit);
        }
        let raised: usize = self.send_credit.saturating_add(credit);
        self.send_credit = if raised < self.send_limit {
            raised
        } else {
            self.send_limit
        };
        Ok(None)
    }

    fn require_negotiated(&self) -> (r: Result<(), DaemonProtocolError>)
        ensures
            r == if self@.negotiated {
                Ok::<(), DaemonProtocolError>(())
            } else {
                Err(DaemonProtocolError::Version)
            },
    {
        if self.negotiated {
            Ok(())
        } else {
            Err(DaemonProtocolError::Version)
        }
    }

    fn require_endpoint(&self, frame: &Frame) -> (r: Result<(), DaemonProtocolError>)
        ensures
            r == if self@.attached == Some(frame@.endpoint_id) {
                Ok::<(), DaemonProtocolError>(())
            } else {
                Err(DaemonProtocolError::WrongEndpoint)
            },
    {
        match self.attached_endpoint {
            Some(endpoint_id) if endpoint_id == frame.endpoint_id => Ok(()),
            _ => Err(DaemonProtocolError::WrongEndpoint),
        }
    }

    fn encode(&self, frame: &Frame) -> (r: Result<Vec<u8>, DaemonProtocolError>)
        requires
            crate::protocol::fields::values_fit(frame@.fields),
        ensures
            ({
                let size = frame_bytes(frame@).len();
                if size > ABSOLUTE_MAX_FRAME_LEN {
                    r == Err::<Vec<u8>, DaemonProtocolError>(
                        DaemonProtocolError::Protocol(
                            ProtocolError::FrameTooLarge(
                                if size > usize::MAX {
                                    usize::MAX
                                } else {
                                    size as usize
                                },
                            ),
                        ),
                    )
                } else if size > self@.frame_limit {
                    r == Err::<Vec<u8>, DaemonProtocolError>(DaemonProtocolError::FrameLimit)
                } else {
                    r matches Ok(bytes) && bytes@ == frame_bytes(frame@)
                }
            }),
    {
        proof {
            lemma_small_frame(frame@, fields_bytes(frame@.fields, 0).len());
        }
        let encoded = match frame.encode() {
            Ok(encoded) => encoded,
            Err(e) => return Err(DaemonProtocolError::Protocol(e)),
        };
        if encoded.len() > self.frame_limit {
            Err(DaemonProtocolError::FrameLimit)
        } else {
            Ok(encoded)
        }
    }
}

impl Default for DaemonProtocol {
    /// An unnegotiated daemon protocol instance.
    fn default() -> (r: Self)
        ensures
            r@ == initial_state(),
            r@.wf(),
    {
        Self::new()
    }
}

/// Whether the outcome of a step is the one that the model gives.
spec fn same_step(
    r: Result<Option<DaemonEvent>, DaemonProtocolError>,
    outcome: Result<Option<EventView>, DaemonProtocolError>,
) -> bool {
    match r {
        Ok(Some(event)) => outcome == Ok::<Option<EventView>, DaemonProtocolError>(Some(event@)),
        Ok(None) => outcome == Ok::<Option<EventView>, DaemonProtocolError>(None),
        Err(e) => outcome == Err::<Option<EventView>, DaemonProtocolError>(e),
    }
}

/// Whether an event, or the fault in its place, is the one that the model gives.
spec fn same_event(
    r: Result<Option<DaemonEvent>, DaemonProtocolError>,
    outcome: Result<EventView, DaemonProtocolError>,
) -> bool {
    match r {
        Ok(Some(event)) => outcome == Ok::<EventView, DaemonProtocolError>(event@),
        Ok(None) => false,
        Err(e) => outcome == Err::<EventView, DaemonProtocolError>(e),
    }
}

fn process_endpoint(frame: &Frame) -> (r: Result<Option<DaemonEvent>, DaemonProtocolError>)
    ensures
        same_event(r, endpoint_event(frame@)),
{
    let kind: u16 = match frame.fields.require_u16(endpoint_field::KIND) {
        Ok(kind) => kind,
        Err(e) => return Err(DaemonProtocolError::Protocol(e)),
    };
    let stable_id = match frame.fields.require_string(endpoint_field::STABLE_ID) {
        Ok(text) => text.to_owned(),
        Err(e) => return Err(DaemonProtocolError::Protocol(e)),
    };
    let display_name = match frame.fields.require_string(endpoint_field::DISPLAY_NAME) {
        Ok(text) => text.to_owned(),
        Err(e) => return Err(DaemonProtocolError::Protocol(e)),
    };
    let enabled: bool = match frame.fields.require_u16(endpoint_field::ENABLED) {
        Ok(enabled) => enabled != 0,
        Err(e) => return Err(DaemonProtocolError::Protocol(e)),
    };
    Ok(
        Some(
            DaemonEvent::Endpoint(
                EndpointDescriptor {
                    endpoint_id: frame.endpoint_id,
                    kind,
                    stable_id,
                    display_name,
                    enabled,
                },
            ),
        ),
    )
}

fn process_serial_config(frame: &Frame) -> (r: Result<Option<DaemonEvent>, DaemonProtocolError>)
    ensures
        same_event(r, serial_event(frame@.fields)),
{
    let baud: u32 = match frame.fields.require_u32(serial_field::BAUD) {
        Ok(value) => value,
        Err(e) => return Err(DaemonProtocolError::Protocol(e)),
    };
    let data_bits: u16 = match frame.fields.require_u16(serial_field::DATA_BITS) {
        Ok(value) => value,
        Err(e) => return Err(DaemonProtocolError::Protocol(e)),
    };
    let parity: u16 = match frame.fields.require_u16(serial_field::PARITY) {
        Ok(value) => value,
        Err(e) => return Err(DaemonProtocolError::Protocol(e)),
    };
    let stop_bits: u16 = match frame.fields.require_u16(serial_field::STOP_BITS) {
        Ok(value) => value,
        Err(e) => return Err(DaemonProtocolError::Protocol(e)),
    };
    let flow_control: u16 = match frame.fields.require_u16(serial_field::FLOW_CONTROL) {
        Ok(value) => value,
        Err(e) => return Err(DaemonProtocolError::Protocol(e)),
    };
    let read_timeout_ms: u32 = match frame.fields.require_u32(serial_field::READ_TIMEOUT_MS) {
        Ok(value) => value,
        Err(e) => return Err(DaemonProtocolError::Protocol(e)),
    };
    let write_timeout_ms: u32 = match frame.fields.require_u32(serial_field::WRITE_TIMEOUT_MS) {
        Ok(value) => value,
        Err(e) => return Err(DaemonProtocolError::Protocol(e)),
    };
    Ok(
        Some(
            DaemonEvent::SerialConfiguration(
                SerialConfiguration {
                    baud,
                    data_bits,
                    parity,
                    stop_bits,
                    flow_control,
                    read_timeout_ms,
                    write_timeout_ms,
                },
            ),
        ),
    )
}

fn process_cancel(frame: &Frame) -> (r: Result<Option<DaemonEvent>, DaemonProtocolError>)
    ensures
        same_event(r, cancel_event(frame@.fields)),
{
    let operation_id: u64 = match frame.fields.require_u64(
        control_field::SEQUENCE_OR_OPERATION_ID,
    ) {
        Ok(value) => value,
        Err(e) => return Err(DaemonProtocolError::Protocol(e)),
    };
    let kind: u32 = match frame.fields.require_u32(control_field::KIND_OR_ERROR_CODE) {
        Ok(value) => value,
        Err(e) => return Err(DaemonProtocolError::Protocol(e)),
    };
    Ok(Some(DaemonEvent::Cancel { operation_id, kind }))
}

fn process_health(frame: &Frame) -> (r: Result<Option<DaemonEvent>, DaemonProtocolError>)
    ensures
        same_event(r, health_event(frame@.fields)),
{
    let attached: bool = match frame.fields.require_u32(control_field::MASK) {
        Ok(value) => value != 0,
        Err(e) => return Err(DaemonProtocolError::Protocol(e)),
    };
    let session_id: u64 = match frame.fields.require_u64(control_field::SEQUENCE_OR_OPERATION_ID) {
        Ok(value) => value,
        Err(e) => return Err(DaemonProtocolError::Protocol(e)),
    };
    let detail = match frame.fields.require_string(control_field::DETAIL) {
        Ok(text) => text.to_owned(),
        Err(e) => return Err(DaemonProtocolError::Protocol(e)),
    };
    Ok(Some(DaemonEvent::Health { attached, session_id, detail }))
}

fn process_error(frame: &Frame) -> (r: Result<Option<DaemonEvent>, DaemonProtocolError>)
    ensures
        same_event(r, error_event(frame@.fields)),
{
    let code: u32 = match frame.fields.require_u32(control_field::KIND_OR_ERROR_CODE) {
        Ok(value) => value,
        Err(e) => return Err(DaemonProtocolError::Protocol(e)),
    };
    let detail = match frame.fields.require_string(control_field::DETAIL) {
        Ok(text) => text.to_owned(),
        Err(e) => return Err(DaemonProtocolError::Protocol(e)),
    };
    Ok(Some(DaemonEvent::Error { code, detail }))
}

/// The offer is small enough for a frame.
proof fn lemma_hello_fits()
    ensures
        crate::protocol::fields::values_fit(hello_fields()),
        fields_bytes(hello_fields(), 0).len() == 85,
{
    reveal_strlit("cathub-daemon");
    vstd::utf8::is_ascii_chars_encode_utf8("cathub-daemon"@);
    crate::le::lemma_le_bytes_len(CURRENT_MAJOR as nat, 2);
    crate::le::lemma_le_bytes_len(CURRENT_MINOR as nat, 2);
    crate::le::lemma_le_bytes_len(ABSOLUTE_MAX_FRAME_LEN as nat, 4);
    crate::le::lemma_le_bytes_len(DEFAULT_RECEIVE_WINDOW as nat, 4);
    crate::le::lemma_le_bytes_len(REQUIRED_FEATURES as nat, 8);
    let m0 = Map::<u16, Seq<u8>>::empty();
    let major = le_bytes(CURRENT_MAJOR as nat, 2);
    let minor = le_bytes(CURRENT_MINOR as nat, 2);
    let m1 = m0.insert(hello_field::MIN_MAJOR, major);
    let m2 = m1.insert(hello_field::MIN_MINOR, minor);
    let m3 = m2.insert(hello_field::MAX_MAJOR, major);
    let m4 = m3.insert(hello_field::MAX_MINOR, minor);
    let limit = le_bytes(ABSOLUTE_MAX_FRAME_LEN as nat, 4);
    let window = le_bytes(DEFAULT_RECEIVE_WINDOW as nat, 4);
    let m5 = m4.insert(hello_field::MAX_FRAME_BYTES, limit);
    let m6 = m5.insert(hello_field::RECEIVE_WINDOW_BYTES, window);
    let features = le_bytes(REQUIRED_FEATURES as nat, 8);
    let m7 = m6.insert(hello_field::FEATURES, features);
    let identity = encode_utf8("cathub-daemon"@);
    crate::protocol::fields::lemma_empty_len(0);
    crate::protocol::fields::lemma_insert_len(m0, hello_field::MIN_MAJOR, major, 0);
    crate::protocol::fields::lemma_insert_len(m1, hello_field::MIN_MINOR, minor, 0);
    crate::protocol::fields::lemma_insert_len(m2, hello_field::MAX_MAJOR, major, 0);
    crate::protocol::fields::lemma_insert_len(m3, hello_field::MAX_MINOR, minor, 0);
    crate::protocol::fields::lemma_insert_len(m4, hello_field::MAX_FRAME_BYTES, limit, 0);
    crate::protocol::fields::lemma_insert_len(m5, hello_field::RECEIVE_WINDOW_BYTES, window, 0);
    crate::protocol::fields::lemma_insert_len(m6, hello_field::FEATURES, features, 0);
    crate::protocol::fields::lemma_insert_len(m7, hello_field::IDENTITY, identity, 0);
}

/// `st` with more bytes behind those that it has received.
pub open spec fn with_more(st: DaemonState, more: Seq<u8>) -> DaemonState {
    DaemonState { buffered: st.buffered + more, ..st }
}

/// Received bytes have the same effect however they are cut: what a first part leads to
/// without a fault goes on with the second part as if both had come at once.
pub proof fn law_ingest_split(st: DaemonState, more: Seq<u8>, events: Seq<EventView>)
    requires
        after_buffered(st, events).0 is Ok,
    ensures
        after_buffered(with_more(st, more), events) == after_buffered(
            with_more(after_buffered(st, events).1, more),
            after_buffered(st, events).0->Ok_0,
        ),
    decreases st.buffered.len(),
{
    let (outcome, taken) = next_in_stream(st.buffered);
    let rest = DaemonState { buffered: st.buffered.skip(taken as int), ..st };
    match outcome {
        Ok(None) => {
            assert(st.buffered.skip(0) =~= st.buffered);
        },
        Ok(Some(frame)) => {
            crate::protocol::frame::law_stream_extends(st.buffered, more);
            let (event, next) = after_frame(rest, frame);
            lemma_frame_keeps_buffer(rest, frame);
            lemma_frame_ignores_buffer(rest, frame, more);
            assert((st.buffered + more).skip(taken as int) =~= rest.buffered + more);
            law_ingest_split(next, more, events + step_events(event->Ok_0));
        },
        Err(_) => {},
    }
}

/// A fault in what has arrived stays a fault when more bytes follow.
#[verifier::spinoff_prover]
#[verifier::rlimit(40)]
proof fn lemma_faults_persist(st: DaemonState, more: Seq<u8>, events: Seq<EventView>)
    requires
        after_buffered(st, events).0 is Err,
    ensures
        after_buffered(with_more(st, more), events).0 == after_buffered(st, events).0,
    decreases st.buffered.len(),
{
    let (outcome, taken) = next_in_stream(st.buffered);
    let rest = DaemonState { buffered: st.buffered.skip(taken as int), ..st };
    match outcome {
        Ok(None) => {},
        Ok(Some(frame)) => {
            crate::protocol::frame::law_stream_extends(st.buffered, more);
            let (event, next) = after_frame(rest, frame);
            lemma_frame_keeps_buffer(rest, frame);
            lemma_frame_ignores_buffer(rest, frame, more);
            assert((st.buffered + more).skip(taken as int) =~= rest.buffered + more);
            let stopped = st.negotiated && (taken > st.frame_limit || frame.version
                != ProtocolVersion::current_version());
            if !stopped && event is Ok {
                lemma_faults_persist(next, more, events + step_events(event->Ok_0));
            }
        },
        Err(_) => {
            crate::protocol::frame::lemma_stream_fault_extends(st.buffered, more);
        },
    }
}

/// Reading goes on alike whatever was reported before, and never adds to the bytes that wait.
#[verifier::spinoff_prover]
#[verifier::rlimit(40)]
proof fn lemma_events_accumulate(st: DaemonState, events: Seq<EventView>)
    ensures
        after_buffered(st, events).1 == after_buffered(st, Seq::empty()).1,
        after_buffered(st, events).0 == match after_buffered(st, Seq::empty()).0 {
            Ok(more) => Ok(events + more),
            Err(e) => Err(e),
        },
        after_buffered(st, events).1.buffered.len() <= st.buffered.len(),
    decreases st.buffered.len(),
{
    let (outcome, taken) = next_in_stream(st.buffered);
    let rest = DaemonState { buffered: st.buffered.skip(taken as int), ..st };
    crate::protocol::frame::lemma_stream_takes(st.buffered);
    match outcome {
        Ok(None) => {
            assert(events + Seq::<EventView>::empty() =~= events);
        },
        Ok(Some(frame)) => {
            let (event, next) = after_frame(rest, frame);
            lemma_frame_keeps_buffer(rest, frame);
            let stopped = st.negotiated && (taken > st.frame_limit || frame.version
                != ProtocolVersion::current_version());
            if !stopped && event is Ok {
                let one = step_events(event->Ok_0);
                lemma_events_accumulate(next, events + one);
                lemma_events_accumulate(next, Seq::empty() + one);
                match after_buffered(next, Seq::empty()).0 {
                    Ok(more) => {
                        assert((events + one) + more =~= events + (Seq::<EventView>::empty() + one
                            + more));
                    },
                    Err(_) => {},
                }
            }
        },
        Err(_) => {},
    }
}

/// The bytes of several parts, one behind the other.
pub open spec fn joined_parts(parts: Seq<Seq<u8>>) -> Seq<u8>
    decreases parts.len(),
{
    if parts.len() == 0 {
        Seq::empty()
    } else {
        parts[0] + joined_parts(parts.skip(1))
    }
}

/// What parts do that are received one after the other, up to the first fault.
pub open spec fn ingested_parts(st: DaemonState, parts: Seq<Seq<u8>>) -> (
    Result<Seq<EventView>, DaemonProtocolError>,
    DaemonState,
)
    decreases parts.len(),
{
    if parts.len() == 0 {
        (Ok(Seq::empty()), st)
    } else {
        let (outcome, next) = ingested(st, parts[0]);
        match outcome {
            Err(e) => (Err(e), next),
            Ok(events) => {
                let (later, last) = ingested_parts(next, parts.skip(1));
                match later {
                    Ok(more) => (Ok(events + more), last),
                    Err(e) => (Err(e), last),
                }
            },
        }
    }
}

proof fn lemma_ingest_two(st: DaemonState, first: Seq<u8>, second: Seq<u8>)
    requires
        ingested(st, first + second).0 is Ok,
    ensures
        ({
            let (outcome, next) = ingested(st, first);
            let (later, last) = ingested(next, second);
            &&& outcome is Ok
            &&& later is Ok
            &&& ingested(st, first + second) == (
                Ok::<Seq<EventView>, DaemonProtocolError>(outcome->Ok_0 + later->Ok_0),
                last,
            )
        }),
{
    let begun = with_more(st, first);
    let none = Seq::<EventView>::empty();
    assert(with_more(begun, second).buffered =~= st.buffered + (first + second));
    if after_buffered(begun, none).0 is Err {
        lemma_faults_persist(begun, second, none);
    }
    let (outcome, next) = after_buffered(begun, none);
    law_ingest_split(begun, second, none);
    lemma_events_accumulate(begun, none);
    lemma_events_accumulate(with_more(next, second), outcome->Ok_0);
}

/// Bytes that are taken without a fault may be cut anywhere into any number of parts: each
/// part is taken without a fault, the events of the parts are together the events of the
/// whole, and the same state is reached. Bytes that complete no frame are kept and report
/// nothing.
pub proof fn law_ingest_parts(st: DaemonState, parts: Seq<Seq<u8>>)
    requires
        parts.len() > 0,
        ingested(st, joined_parts(parts)).0 is Ok,
    ensures
        ingested_parts(st, parts) == ingested(st, joined_parts(parts)),
        forall|part: Seq<u8>|
            st.buffered.len() + part.len() <= ABSOLUTE_MAX_FRAME_LEN && next_in_stream(
                st.buffered + part,
            ).0 == Ok::<Option<FrameView>, ProtocolError>(None) ==> #[trigger] ingested(st, part)
                == (Ok::<Seq<EventView>, DaemonProtocolError>(Seq::empty()), with_more(st, part)),
    decreases parts.len(),
{
    assert forall|part: Seq<u8>|
        st.buffered.len() + part.len() <= ABSOLUTE_MAX_FRAME_LEN && next_in_stream(
            st.buffered + part,
        ).0 == Ok::<Option<FrameView>, ProtocolError>(None) implies #[trigger] ingested(st, part)
        == (Ok::<Seq<EventView>, DaemonProtocolError>(Seq::empty()), with_more(st, part)) by {
        assert((st.buffered + part).skip(0) =~= st.buffered + part);
    }
    let others = parts.skip(1);
    lemma_ingest_two(st, parts[0], joined_parts(others));
    let (outcome, next) = ingested(st, parts[0]);
    if others.len() == 0 {
        reveal_with_fuel(ingested_parts, 2);
        assert(parts[0] + joined_parts(others) =~= parts[0]);
        assert(outcome->Ok_0 + Seq::<EventView>::empty() =~= outcome->Ok_0);
    } else {
        law_ingest_parts(next, others);
    }
}

proof fn lemma_frame_ignores_buffer(st: DaemonState, frame: FrameView, more: Seq<u8>)
    ensures
        after_frame(with_more(st, more), frame) == (
            after_frame(st, frame).0,
            with_more(after_frame(st, frame).1, more),
        ),
{
    reveal(after_frame);
}

/// Data that is accepted has a higher sequence than all data before it, comes from the
/// attached endpoint, and takes exactly its length from the receive credit.
pub proof fn law_accepted_data(st: DaemonState, frame: FrameView, bytes: Seq<u8>)
    requires
        st.wf(),
        after_frame(st, frame).0 == Ok::<Option<EventView>, DaemonProtocolError>(
            Some(EventView::Data(bytes)),
        ),
    ensures
        frame.kind == MessageKind::Data,
        st.attached == Some(frame.endpoint_id),
        after_frame(st, frame).1.inbound > st.inbound,
        after_frame(st, frame).1.receive_credit + bytes.len() == st.receive_credit,
        after_frame(st, frame).1 == (DaemonState {
            inbound: after_frame(st, frame).1.inbound,
            receive_credit: after_frame(st, frame).1.receive_credit,
            ..st
        }),
{
    reveal(after_frame);
    if frame.fields.contains_key(data_field::SEQUENCE) {
        crate::le::lemma_le_value_limit(frame.fields[data_field::SEQUENCE]);
        crate::le::lemma_le_limits();
    }
}

/// What happens between the daemon and the driver.
pub enum LinkStep {
    /// The daemon is asked to send these bytes.
    Send(Seq<u8>),
    /// A frame from the driver takes effect.
    Receive(FrameView),
}

/// The state after a run of steps.
pub open spec fn link_state(st: DaemonState, steps: Seq<LinkStep>) -> DaemonState
    decreases steps.len(),
{
    if steps.len() == 0 {
        st
    } else {
        let before = link_state(st, steps.drop_last());
        match steps.last() {
            LinkStep::Send(bytes) => data_sent(before, bytes).1,
            LinkStep::Receive(frame) => after_frame(before, frame).1,
        }
    }
}

/// What a step of a run is answered, where it asks to send bytes.
pub open spec fn link_answer(st: DaemonState, steps: Seq<LinkStep>, k: int) -> Option<
    Result<Seq<u8>, DaemonProtocolError>,
> {
    match steps[k] {
        LinkStep::Send(bytes) => Some(data_sent(link_state(st, steps.take(k)), bytes).0),
        LinkStep::Receive(_) => None,
    }
}

/// Whether a step of a run uses up a sequence number: it sends bytes, or fails only because
/// the frame is too large. Without an attachment or credit no number is used.
pub open spec fn uses_number(st: DaemonState, steps: Seq<LinkStep>, k: int) -> bool {
    match link_answer(st, steps, k) {
        Some(Ok(_)) => true,
        Some(Err(DaemonProtocolError::FrameLimit)) => true,
        Some(Err(DaemonProtocolError::Protocol(_))) => true,
        _ => false,
    }
}

/// How many sequence numbers the first `k` steps of a run use up.
pub open spec fn numbers_used(st: DaemonState, steps: Seq<LinkStep>, k: int) -> nat
    decreases k,
{
    if k <= 0 {
        0
    } else if uses_number(st, steps, k - 1) {
        numbers_used(st, steps, k - 1) + 1
    } else {
        numbers_used(st, steps, k - 1)
    }
}

/// Whether no step of a run confirms an attachment.
pub open spec fn no_attachment(steps: Seq<LinkStep>) -> bool {
    forall|k: int|
        0 <= k < steps.len() ==> ((#[trigger] steps[k]) matches LinkStep::Receive(frame)
            ==> frame.kind != MessageKind::AttachAck)
}

#[verifier::spinoff_prover]
#[verifier::rlimit(40)]
proof fn lemma_link_state(st: DaemonState, steps: Seq<LinkStep>, k: int)
    requires
        0 <= k <= steps.len(),
        no_attachment(steps),
        st.outbound + steps.len() <= u64::MAX,
    ensures
        numbers_used(st, steps, k) <= k,
        link_state(st, steps.take(k)).outbound == st.outbound + numbers_used(st, steps, k),
        link_state(st, steps.take(k)).attached matches Some(endpoint_id) ==> st.attached == Some(
            endpoint_id,
        ),
    decreases k,
{
    if k > 0 {
        lemma_link_state(st, steps, k - 1);
        assert(steps.take(k).drop_last() =~= steps.take(k - 1));
        assert(steps.take(k).last() == steps[k - 1]);
        match steps[k - 1] {
            LinkStep::Send(_) => {},
            LinkStep::Receive(frame) => {
                reveal(after_frame);
            },
        }
    }
}

proof fn lemma_numbers_rise(st: DaemonState, steps: Seq<LinkStep>, i: int, j: int)
    requires
        0 <= i <= j,
    ensures
        numbers_used(st, steps, i) <= numbers_used(st, steps, j),
        (forall|k: int| i <= k < j ==> !#[trigger] uses_number(st, steps, k)) ==> numbers_used(
            st,
            steps,
            i,
        ) == numbers_used(st, steps, j),
    decreases j - i,
{
    if i < j {
        lemma_numbers_rise(st, steps, i, j - 1);
    }
}

proof fn lemma_data_frame(endpoint_id: u64, sequence: u64, bytes: Seq<u8>)
    requires
        HEADER_LEN + 20 + bytes.len() <= ABSOLUTE_MAX_FRAME_LEN,
    ensures
        ({
            let frame = plain_frame(
                MessageKind::Data,
                endpoint_id,
                0,
                data_fields(sequence, bytes),
            );
            parsed_frame(frame_bytes(frame)) == Ok::<FrameView, ProtocolError>(frame)
        }),
{
    let number = le_bytes(sequence as nat, 8);
    let one = Map::<u16, Seq<u8>>::empty().insert(data_field::SEQUENCE, number);
    crate::le::lemma_le_bytes_len(sequence as nat, 8);
    lemma_one_field_len(data_field::SEQUENCE, number);
    crate::protocol::fields::lemma_insert_len(one, data_field::BYTES, bytes, 0);
    let frame = plain_frame(MessageKind::Data, endpoint_id, 0, data_fields(sequence, bytes));
    crate::protocol::frame::law_frame_round_trip(frame);
}

/// Over a run of sends, with frames from the driver in between that confirm no attachment,
/// each step that sends bytes is answered with a data frame to the attached endpoint
/// that holds these bytes and the number that follows all numbers used before. The numbers
/// rise strictly, and by one where no step in between uses up a number, as one that fails for
/// want of credit does not.
#[verifier::spinoff_prover]
#[verifier::rlimit(40)]
pub proof fn law_data_is_numbered(st: DaemonState, steps: Seq<LinkStep>)
    requires
        no_attachment(steps),
        st.outbound + steps.len() <= u64::MAX,
    ensures
        forall|k: int|
            0 <= k < steps.len() ==> ((#[trigger] link_answer(st, steps, k)) matches Some(Ok(sent))
                ==> {
                &&& steps[k] is Send
                &&& st.attached is Some
                &&& st.outbound + numbers_used(st, steps, k) + 1 <= u64::MAX
                &&& parsed_frame(sent) == Ok::<FrameView, ProtocolError>(
                    plain_frame(
                        MessageKind::Data,
                        st.attached->Some_0,
                        0,
                        data_fields(
                            (st.outbound + numbers_used(st, steps, k) + 1) as u64,
                            steps[k]->Send_0,
                        ),
                    ),
                )
            }),
        forall|i: int, j: int|
            #![trigger link_answer(st, steps, i), link_answer(st, steps, j)]
            0 <= i < j < steps.len() && (link_answer(st, steps, i) matches Some(Ok(_))) ==> {
                &&& numbers_used(st, steps, i) < numbers_used(st, steps, j)
                &&& (forall|k: int| i < k < j ==> !#[trigger] uses_number(st, steps, k))
                    ==> numbers_used(st, steps, j) == numbers_used(st, steps, i) + 1
            },
        forall|k: int|
            0 <= k < steps.len() && #[trigger] link_answer(st, steps, k) == Some(
                Err::<Seq<u8>, DaemonProtocolError>(DaemonProtocolError::Credit),
            ) ==> numbers_used(st, steps, k + 1) == numbers_used(st, steps, k),
{
    assert forall|k: int| 0 <= k < steps.len() implies ((#[trigger] link_answer(st, steps, k))
        matches Some(Ok(sent)) ==> {
        &&& steps[k] is Send
        &&& st.attached is Some
        &&& st.outbound + numbers_used(st, steps, k) + 1 <= u64::MAX
        &&& parsed_frame(sent) == Ok::<FrameView, ProtocolError>(
            plain_frame(
                MessageKind::Data,
                st.attached->Some_0,
                0,
                data_fields(
                    (st.outbound + numbers_used(st, steps, k) + 1) as u64,
                    steps[k]->Send_0,
                ),
            ),
        )
    }) by {
        lemma_link_state(st, steps, k);
        if link_answer(st, steps, k) matches Some(Ok(sent)) {
            lemma_data_frame(
                st.attached->Some_0,
                (st.outbound + numbers_used(st, steps, k) + 1) as u64,
                steps[k]->Send_0,
            );
        }
    }
    assert forall|i: int, j: int|
        #![trigger link_answer(st, steps, i), link_answer(st, steps, j)]
        0 <= i < j < steps.len() && (link_answer(st, steps, i) matches Some(Ok(_))) implies {
        &&& numbers_used(st, steps, i) < numbers_used(st, steps, j)
        &&& (forall|k: int| i < k < j ==> !#[trigger] uses_number(st, steps, k)) ==> numbers_used(
            st,
            steps,
            j,
        ) == numbers_used(st, steps, i) + 1
    } by {
        assert(uses_number(st, steps, i));
        assert(numbers_used(st, steps, i + 1) == numbers_used(st, steps, i) + 1);
        lemma_numbers_rise(st, steps, i + 1, j);
    }
}

/// Each attachment numbers its data from one: the number that follows the confirmation of an
/// attachment is one.
pub proof fn law_attachment_restarts_numbers(st: DaemonState, frame: FrameView)
    requires
        frame.kind == MessageKind::AttachAck,
        after_frame(st, frame).0 is Ok,
    ensures
        after_frame(st, frame).1.attached == Some(frame.endpoint_id),
        next_sequence(after_frame(st, frame).1.outbound) == 1,
{
    reveal(after_frame);
}

/// Every frame from the driver keeps the bounds of the state.
pub proof fn law_frame_keeps_bounds(st: DaemonState, frame: FrameView)
    requires
        st.wf(),
    ensures
        after_frame(st, frame).1.wf(),
{
    reveal(after_frame);
    crate::le::lemma_le_limits();
    if frame.fields.contains_key(hello_field::RECEIVE_WINDOW_BYTES) {
        crate::le::lemma_le_value_limit(frame.fields[hello_field::RECEIVE_WINDOW_BYTES]);
    }
    if frame.fields.contains_key(session_field::RECEIVE_CREDIT) {
        crate::le::lemma_le_value_limit(frame.fields[session_field::RECEIVE_CREDIT]);
    }
}

/// Nothing but a capability selection without a fault makes the protocol negotiated, and
/// then the driver offers every required feature.
pub proof fn law_negotiation_needs_features(st: DaemonState, frame: FrameView)
    requires
        !st.negotiated,
        after_frame(st, frame).1.negotiated,
    ensures
        frame.kind == MessageKind::HelloAck,
        hello_ack_fault(frame) is None,
        (fixed_field(frame.fields, hello_field::FEATURES, 8)->Ok_0 as u64) & REQUIRED_FEATURES
            == REQUIRED_FEATURES,
{
    reveal(after_frame);
}

} // verus!
