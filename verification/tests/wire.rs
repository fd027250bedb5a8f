//! Tests of the frame codec, the daemon's side of the driver protocol and the bridge.

use cathub::daemon::DaemonEvent;
use cathub::daemon::DaemonProtocol;
use cathub::daemon::DaemonProtocolError;
use cathub::daemon::EndpointDescriptor;
use cathub::daemon::SerialConfiguration;
use cathub::daemon::DEFAULT_RECEIVE_WINDOW;
use cathub::daemon::REQUIRED_FEATURES;
use cathub::managed::bridge_action;
use cathub::managed::translate_event;
use cathub::managed::validate_endpoint;
use cathub::managed::write_command;
use cathub::managed::BridgeAction;
use cathub::managed::BridgeEvent;
use cathub::managed::Handshake;
use cathub::managed::HandshakeStep;
use cathub::managed::ManagedError;
use cathub::managed::WriterCommand;
use cathub::managed::FIRST_HEALTH_REQUEST;
use cathub::protocol::control_field;
use cathub::protocol::data_field;
use cathub::protocol::endpoint_field;
use cathub::protocol::error::ProtocolError;
use cathub::protocol::fields::Fields;
use cathub::protocol::frame::Frame;
use cathub::protocol::frame::FrameDecoder;
use cathub::protocol::hello_field;
use cathub::protocol::serial_field;
use cathub::protocol::session_field;
use cathub::protocol::FrameFlags;
use cathub::protocol::MessageKind;
use cathub::protocol::ProtocolVersion;
use cathub::protocol::ABSOLUTE_MAX_FRAME_LEN;
use cathub::protocol::HEADER_LEN;

// --- frames ---

#[test]
fn frame_round_trip_preserves_header_and_fields() {
    let mut frame = Frame::new(MessageKind::Hello, 42, 9);
    frame.flags = FrameFlags::from_bits(FrameFlags::ACK_REQUIRED);
    frame.fields.insert_u16(1, 1).expect("min major");
    frame.fields.insert_u16(2, 0).expect("min minor");
    frame
        .fields
        .insert_string(3, "cathub.exe")
        .expect("identity");

    let encoded = frame.encode().expect("encode");
    let decoded = Frame::decode(&encoded).expect("decode");

    assert_eq!(decoded, frame);
    assert_eq!(decoded.fields.require_u16(1).expect("major"), 1);
    assert_eq!(
        decoded.fields.require_string(3).expect("identity"),
        "cathub.exe"
    );
}

#[test]
fn stream_decoder_handles_split_and_multiple_frames() {
    let first = Frame::new(MessageKind::Health, 0, 1)
        .encode()
        .expect("first");
    let second = Frame::new(MessageKind::Discover, 0, 2)
        .encode()
        .expect("second");
    let split = first.len() / 2;
    let mut decoder = FrameDecoder::default();

    decoder.push(&first[..split]);
    assert!(decoder.next_frame().expect("partial").is_none());
    decoder.push(&first[split..]);
    decoder.push(&second);

    assert_eq!(
        decoder.next_frame().expect("first").expect("frame").kind,
        MessageKind::Health
    );
    assert_eq!(
        decoder.next_frame().expect("second").expect("frame").kind,
        MessageKind::Discover
    );
    assert!(decoder.next_frame().expect("empty").is_none());
}

#[test]
fn decoder_rejects_duplicate_fields() {
    let mut bytes = Frame::new(MessageKind::Health, 0, 1)
        .encode()
        .expect("frame");
    bytes.extend_from_slice(&1u16.to_le_bytes());
    bytes.extend_from_slice(&0u32.to_le_bytes());
    bytes.extend_from_slice(&1u16.to_le_bytes());
    bytes.extend_from_slice(&0u32.to_le_bytes());
    bytes[16..20].copy_from_slice(&12u32.to_le_bytes());

    assert_eq!(Frame::decode(&bytes), Err(ProtocolError::DuplicateField(1)));
}

#[test]
fn version_negotiation_requires_one_major_generation() {
    assert_eq!(
        ProtocolVersion::negotiate(
            ProtocolVersion { major: 1, minor: 0 },
            ProtocolVersion { major: 1, minor: 3 },
            ProtocolVersion { major: 1, minor: 1 },
            ProtocolVersion { major: 1, minor: 2 },
        ),
        Some(ProtocolVersion { major: 1, minor: 2 })
    );
    assert_eq!(
        ProtocolVersion::negotiate(
            ProtocolVersion { major: 1, minor: 0 },
            ProtocolVersion { major: 1, minor: 3 },
            ProtocolVersion { major: 2, minor: 0 },
            ProtocolVersion { major: 2, minor: 0 },
        ),
        None
    );
}

#[test]
fn a_frame_without_fields_is_a_header() {
    let bytes = Frame::new(MessageKind::Discover, 3, 4).encode().expect("encode");
    assert_eq!(bytes.len(), HEADER_LEN);
    assert_eq!(&bytes[..4], b"CHVS");
    assert_eq!(ProtocolVersion::current(), ProtocolVersion { major: 1, minor: 0 });
}

#[test]
fn malformed_frames_are_refused() {
    let good = Frame::new(MessageKind::Health, 0, 1).encode().expect("frame");
    assert_eq!(
        Frame::decode(&good[..12]),
        Err(ProtocolError::Incomplete {
            needed: HEADER_LEN,
            available: 12
        })
    );
    let mut magic = good.clone();
    magic[0] = b'X';
    assert_eq!(Frame::decode(&magic), Err(ProtocolError::BadMagic));
    let mut header = good.clone();
    header[4..6].copy_from_slice(&41u16.to_le_bytes());
    assert!(Frame::decode(&header).is_err());
    let mut long = good.clone();
    long.push(0);
    assert_eq!(Frame::decode(&long), Err(ProtocolError::TrailingBytes(1)));
    let mut huge = good.clone();
    huge[16..20].copy_from_slice(&(ABSOLUTE_MAX_FRAME_LEN as u32).to_le_bytes());
    assert_eq!(
        Frame::decode(&huge),
        Err(ProtocolError::FrameTooLarge(ABSOLUTE_MAX_FRAME_LEN + HEADER_LEN))
    );
    let mut short = good;
    short.extend_from_slice(&[1, 0, 9]);
    short[16..20].copy_from_slice(&3u32.to_le_bytes());
    assert_eq!(Frame::decode(&short), Err(ProtocolError::MalformedFields));
}

#[test]
fn fields_are_typed() {
    let mut fields = Fields::default();
    assert!(fields.is_empty());
    assert_eq!(
        fields.insert_u16(0, 1),
        Err(ProtocolError::ReservedFieldTag)
    );
    fields.insert_u32(5, 1).expect("u32");
    // A later value takes the place of an earlier one.
    fields.insert_u32(5, 0x0102_0304).expect("u32");
    assert_eq!(fields.get(5), Some(&[4u8, 3, 2, 1][..]));
    assert_eq!(fields.require_u32(5), Ok(0x0102_0304));
    assert_eq!(
        fields.require_u16(5),
        Err(ProtocolError::InvalidFieldSize {
            tag: 5,
            expected: 2
        })
    );
    assert_eq!(fields.require_u64(6), Err(ProtocolError::MissingField(6)));
    fields.insert(7, vec![0xff, 0xfe]).expect("bytes");
    assert_eq!(
        fields.require_string(7),
        Err(ProtocolError::InvalidUtf8Field(7))
    );
    assert_eq!(fields.len(), 2);
    assert_eq!(
        ProtocolError::MissingField(6).message(),
        "missing private transport field 6"
    );
}

#[test]
fn message_kinds_have_one_code_each() {
    for code in 0..1_000u16 {
        if let Ok(kind) = MessageKind::try_from(code) {
            assert_eq!(kind.code(), code);
        }
    }
    assert_eq!(
        MessageKind::try_from(0xffff),
        Err(ProtocolError::UnknownMessageKind(0xffff))
    );
}

#[test]
fn flags_combine() {
    let both = FrameFlags::from_bits(FrameFlags::RESPONSE) | FrameFlags::from_bits(FrameFlags::FINAL);
    assert_eq!(both.bits(), 3);
    assert!(both.contains(FrameFlags::from_bits(FrameFlags::FINAL)));
    assert!(!both.contains(FrameFlags::from_bits(FrameFlags::ACK_REQUIRED)));
}

// --- the daemon's side of the protocol ---

fn answer(kind: MessageKind, endpoint: u64, request: u64) -> Frame {
    let mut frame = Frame::new(kind, endpoint, request);
    frame.flags =
        FrameFlags::from_bits(FrameFlags::RESPONSE) | FrameFlags::from_bits(FrameFlags::FINAL);
    frame
}

fn hello_ack_with(features: u64, frame_limit: u32, major: u16) -> Frame {
    let mut frame = answer(MessageKind::HelloAck, 0, 1);
    frame
        .fields
        .insert_u16(hello_field::MIN_MAJOR, major)
        .expect("min major");
    frame
        .fields
        .insert_u16(hello_field::MIN_MINOR, 0)
        .expect("min minor");
    frame
        .fields
        .insert_u16(hello_field::MAX_MAJOR, major)
        .expect("max major");
    frame
        .fields
        .insert_u16(hello_field::MAX_MINOR, 0)
        .expect("max minor");
    frame
        .fields
        .insert_u32(hello_field::MAX_FRAME_BYTES, frame_limit)
        .expect("frame");
    frame
        .fields
        .insert_u32(hello_field::RECEIVE_WINDOW_BYTES, 65_536)
        .expect("window");
    frame
        .fields
        .insert_u64(hello_field::FEATURES, features)
        .expect("features");
    frame
        .fields
        .insert_string(hello_field::IDENTITY, "driver")
        .expect("identity");
    frame
}

fn hello_ack() -> Frame {
    hello_ack_with(REQUIRED_FEATURES, 65_536, 1)
}

fn attach_ack(endpoint: u64, credit: u32) -> Frame {
    let mut ack = answer(MessageKind::AttachAck, endpoint, 2);
    ack.fields
        .insert_u64(session_field::SESSION_ID, 12)
        .expect("session");
    ack.fields
        .insert_u32(session_field::RECEIVE_CREDIT, credit)
        .expect("credit");
    ack
}

fn endpoint_frame(id: u64, kind: u16, stable_id: &str, enabled: u16) -> Frame {
    let mut endpoint = Frame::new(MessageKind::Endpoint, id, 2);
    endpoint
        .fields
        .insert_u16(endpoint_field::KIND, kind)
        .expect("kind");
    endpoint
        .fields
        .insert_string(endpoint_field::STABLE_ID, stable_id)
        .expect("id");
    endpoint
        .fields
        .insert_string(endpoint_field::DISPLAY_NAME, "N1MM")
        .expect("name");
    endpoint
        .fields
        .insert_u16(endpoint_field::ENABLED, enabled)
        .expect("enabled");
    endpoint
}

fn inbound_data(endpoint: u64, sequence: u64, bytes: &[u8]) -> Frame {
    let mut inbound = Frame::new(MessageKind::Data, endpoint, 0);
    inbound
        .fields
        .insert_u64(data_field::SEQUENCE, sequence)
        .expect("sequence");
    inbound
        .fields
        .insert(data_field::BYTES, bytes.to_vec())
        .expect("bytes");
    inbound
}

fn take(protocol: &mut DaemonProtocol, frame: Frame) -> Result<Vec<DaemonEvent>, DaemonProtocolError> {
    protocol.ingest(&frame.encode().expect("encode"))
}

fn negotiated_protocol() -> DaemonProtocol {
    let mut protocol = DaemonProtocol::new();
    take(&mut protocol, hello_ack()).expect("hello ack");
    protocol
}

fn attached_protocol() -> DaemonProtocol {
    let mut protocol = negotiated_protocol();
    take(&mut protocol, attach_ack(7, 65_536)).expect("attach ack");
    protocol
}

#[test]
fn hello_offer_contains_required_contract() {
    let frame = Frame::decode(&DaemonProtocol::hello(9).expect("hello")).expect("decode");
    assert_eq!(frame.kind, MessageKind::Hello);
    assert_eq!(frame.request_id, 9);
    assert_eq!(
        frame.fields.require_u64(hello_field::FEATURES),
        Ok(REQUIRED_FEATURES)
    );
}

#[test]
fn decodes_split_negotiation_and_discovery() {
    let mut protocol = DaemonProtocol::new();
    let bytes = hello_ack().encode().expect("encode");
    assert!(protocol.ingest(&bytes[..13]).expect("part").is_empty());
    assert_eq!(
        protocol.ingest(&bytes[13..]).expect("rest"),
        vec![DaemonEvent::Negotiated]
    );
    assert!(protocol.discover(2).is_ok());

    let events = take(&mut protocol, endpoint_frame(7, 1, "n1mm", 1)).expect("endpoint");
    assert_eq!(
        events,
        vec![DaemonEvent::Endpoint(EndpointDescriptor {
            endpoint_id: 7,
            kind: 1,
            stable_id: "n1mm".to_owned(),
            display_name: "N1MM".to_owned(),
            enabled: true,
        })]
    );
}

#[test]
fn attached_data_uses_sequences_and_credit() {
    let mut protocol = attached_protocol();
    let outbound = Frame::decode(&protocol.data(b"reply").expect("data")).expect("decode");
    assert_eq!(outbound.endpoint_id, 7);
    assert_eq!(outbound.fields.require_u64(data_field::SEQUENCE), Ok(1));

    assert_eq!(
        take(&mut protocol, inbound_data(7, 1, b"request")).expect("ingest"),
        vec![DaemonEvent::Data(b"request".to_vec())]
    );
    let update = Frame::decode(
        &protocol
            .release_received(7)
            .expect("release")
            .expect("update"),
    )
    .expect("decode");
    assert_eq!(update.kind, MessageKind::WindowUpdate);
    assert_eq!(update.fields.require_u32(data_field::CREDIT), Ok(7));
}

#[test]
fn negotiation_refuses_another_contract() {
    assert_eq!(
        take(&mut DaemonProtocol::new(), hello_ack_with(REQUIRED_FEATURES, 65_536, 2)),
        Err(DaemonProtocolError::Version)
    );
    assert_eq!(
        take(&mut DaemonProtocol::new(), hello_ack_with(0, 65_536, 1)),
        Err(DaemonProtocolError::Features)
    );
    assert_eq!(
        take(&mut DaemonProtocol::new(), hello_ack_with(REQUIRED_FEATURES, 8, 1)),
        Err(DaemonProtocolError::FrameLimit)
    );
    assert!(matches!(
        DaemonProtocol::new().ingest(b"this is not a frame at all, however it is read"),
        Err(DaemonProtocolError::Protocol(ProtocolError::BadMagic))
    ));
}

#[test]
fn data_needs_an_attachment_and_credit() {
    let mut protocol = negotiated_protocol();
    assert_eq!(protocol.data(b"x"), Err(DaemonProtocolError::NotAttached));
    assert_eq!(protocol.detach(0), Ok(None));
    take(&mut protocol, attach_ack(7, 4)).expect("attach ack");
    assert_eq!(protocol.data(b"12345"), Err(DaemonProtocolError::Credit));
    assert!(protocol.data(b"1234").is_ok());
    assert_eq!(protocol.data(b"1"), Err(DaemonProtocolError::Credit));

    let mut update = Frame::new(MessageKind::WindowUpdate, 7, 0);
    update
        .fields
        .insert_u32(data_field::CREDIT, 1)
        .expect("credit");
    take(&mut protocol, update).expect("update");
    let second = Frame::decode(&protocol.data(b"1").expect("data")).expect("decode");
    assert_eq!(second.fields.require_u64(data_field::SEQUENCE), Ok(2));
}

#[test]
fn inbound_data_is_checked() {
    let mut protocol = attached_protocol();
    assert_eq!(
        take(&mut protocol, inbound_data(8, 1, b"x")),
        Err(DaemonProtocolError::WrongEndpoint)
    );
    let mut protocol = attached_protocol();
    take(&mut protocol, inbound_data(7, 1, b"x")).expect("first");
    assert_eq!(
        take(&mut protocol, inbound_data(7, 1, b"x")),
        Err(DaemonProtocolError::Sequence)
    );
    let mut protocol = attached_protocol();
    let flood = vec![0u8; DEFAULT_RECEIVE_WINDOW / 2 + 1];
    take(&mut protocol, inbound_data(7, 1, &flood)).expect("half");
    assert_eq!(
        take(&mut protocol, inbound_data(7, 2, &flood)),
        Err(DaemonProtocolError::Credit)
    );
    assert_eq!(
        DaemonProtocolError::Protocol(ProtocolError::BadMagic).message(),
        format!(
            "invalid private transport frame: {}",
            ProtocolError::BadMagic.message()
        )
    );
}

#[test]
fn credit_comes_back_with_what_was_released() {
    let mut protocol = attached_protocol();
    assert_eq!(protocol.release_received(0), Ok(None));
    let flood = vec![0u8; DEFAULT_RECEIVE_WINDOW / 2];
    for sequence in 1..=8u64 {
        take(&mut protocol, inbound_data(7, sequence, &flood)).expect("data");
        assert!(protocol.release_received(flood.len()).expect("release").is_some());
    }
}

#[test]
fn serial_settings_and_control_are_reported() {
    let mut protocol = attached_protocol();
    let mut config = Frame::new(MessageKind::SerialConfig, 7, 0);
    config
        .fields
        .insert_u32(serial_field::BAUD, 57_600)
        .expect("baud");
    config
        .fields
        .insert_u16(serial_field::DATA_BITS, 8)
        .expect("data bits");
    config
        .fields
        .insert_u16(serial_field::PARITY, 0)
        .expect("parity");
    config
        .fields
        .insert_u16(serial_field::STOP_BITS, 0)
        .expect("stop bits");
    config
        .fields
        .insert_u16(serial_field::FLOW_CONTROL, 0)
        .expect("flow");
    config
        .fields
        .insert_u32(serial_field::READ_TIMEOUT_MS, 5)
        .expect("read");
    config
        .fields
        .insert_u32(serial_field::WRITE_TIMEOUT_MS, 6)
        .expect("write");
    assert_eq!(
        take(&mut protocol, config).expect("config"),
        vec![DaemonEvent::SerialConfiguration(SerialConfiguration {
            baud: 57_600,
            data_bits: 8,
            parity: 0,
            stop_bits: 0,
            flow_control: 0,
            read_timeout_ms: 5,
            write_timeout_ms: 6,
        })]
    );
    let mut modem = Frame::new(MessageKind::ModemControl, 7, 0);
    modem
        .fields
        .insert_u32(control_field::MASK, 3)
        .expect("mask");
    assert_eq!(
        take(&mut protocol, modem).expect("modem"),
        vec![DaemonEvent::ModemControl(3)]
    );
}

// --- the bridge ---

fn offered(kind: u16, enabled: bool) -> EndpointDescriptor {
    EndpointDescriptor {
        endpoint_id: 7,
        kind,
        stable_id: "n1mm-cat".to_string(),
        display_name: "N1MM".to_string(),
        enabled,
    }
}

#[test]
fn an_endpoint_must_be_enabled_and_of_its_kind() {
    assert!(validate_endpoint(&offered(1, true), 1).is_ok());
    assert!(matches!(
        validate_endpoint(&offered(1, false), 1),
        Err(ManagedError::PermissionDenied(_))
    ));
    assert!(matches!(
        validate_endpoint(&offered(2, true), 1),
        Err(ManagedError::InvalidData(_))
    ));
}

#[test]
fn handshake_attaches_to_the_configured_endpoint() {
    let mut protocol = DaemonProtocol::new();
    let mut handshake = Handshake::new("n1mm-cat", 1);

    let events = take(&mut protocol, hello_ack()).expect("hello ack");
    let step = handshake.advance(&protocol, &events).expect("negotiated");
    match step {
        HandshakeStep::Write(bytes) => {
            assert_eq!(
                Frame::decode(&bytes).expect("decode").kind,
                MessageKind::Discover
            );
        }
        _ => panic!("discovery comes next"),
    }

    let mut events = take(&mut protocol, endpoint_frame(5, 2, "wktools", 1)).expect("endpoint");
    events.extend(take(&mut protocol, endpoint_frame(7, 1, "n1mm-cat", 1)).expect("endpoint"));
    assert_eq!(
        handshake.advance(&protocol, &events).expect("endpoints"),
        HandshakeStep::Read
    );
    let done = answer(MessageKind::DiscoverComplete, 0, 2);
    let events = take(&mut protocol, done).expect("discovery");
    match handshake.advance(&protocol, &events).expect("found") {
        HandshakeStep::Write(bytes) => {
            let attach = Frame::decode(&bytes).expect("decode");
            assert_eq!(attach.kind, MessageKind::Attach);
            assert_eq!(attach.endpoint_id, 7);
        }
        _ => panic!("the endpoint is attached next"),
    }
    let events = take(&mut protocol, attach_ack(7, 65_536)).expect("attach ack");
    assert_eq!(
        handshake.advance(&protocol, &events).expect("attached"),
        HandshakeStep::Done
    );
}

#[test]
fn handshake_fails_without_the_endpoint() {
    let mut protocol = DaemonProtocol::new();
    let mut handshake = Handshake::new("n1mm-cat", 1);
    let events = take(&mut protocol, hello_ack()).expect("hello ack");
    handshake.advance(&protocol, &events).expect("negotiated");
    let events = take(&mut protocol, answer(MessageKind::DiscoverComplete, 0, 2)).expect("discovery");
    assert!(matches!(
        handshake.advance(&protocol, &events),
        Err(ManagedError::NotFound(_))
    ));
}

#[test]
fn events_become_what_the_session_does() {
    assert_eq!(
        translate_event(DaemonEvent::Data(b"FA;".to_vec())),
        Some(BridgeEvent::Data(b"FA;".to_vec()))
    );
    assert_eq!(translate_event(DaemonEvent::Negotiated), None);
    assert_eq!(translate_event(DaemonEvent::Purge(3)), None);
    assert_eq!(
        bridge_action(&BridgeEvent::Data(b"FA;".to_vec())),
        BridgeAction::Forward(3)
    );
    assert_eq!(
        bridge_action(&BridgeEvent::ApplicationOpen(4)),
        BridgeAction::Note
    );
    assert_eq!(bridge_action(&BridgeEvent::Closed), BridgeAction::End);
}

#[test]
fn the_writer_frames_commands_and_detaches_at_the_end() {
    let mut protocol = attached_protocol();
    let mut request_id = FIRST_HEALTH_REQUEST;
    let step = write_command(
        &mut protocol,
        WriterCommand::Data(b"FA00007030000;".to_vec()),
        &mut request_id,
    );
    assert!(step.running);
    assert_eq!(step.frames.len(), 1);
    let frame = Frame::decode(&step.frames[0]).expect("decode");
    assert_eq!(frame.fields.get(data_field::BYTES), Some(&b"FA00007030000;"[..]));

    let step = write_command(&mut protocol, WriterCommand::Health, &mut request_id);
    let frame = Frame::decode(&step.frames[0]).expect("decode");
    assert_eq!(frame.kind, MessageKind::Health);
    assert_eq!(frame.request_id, 10);
    assert_eq!(request_id, 11);

    let step =
        write_command(&mut protocol, WriterCommand::Shutdown, &mut request_id);
    assert!(!step.running);
    assert_eq!(
        Frame::decode(&step.frames[0]).expect("decode").kind,
        MessageKind::Detach
    );
}

#[test]
fn frames_are_delivered_in_order_however_they_are_cut() {
    let frames = [
        hello_ack(),
        endpoint_frame(7, 1, "n1mm", 1),
        Frame::new(MessageKind::Health, 3, 9),
    ];
    let mut stream = Vec::new();
    for frame in &frames {
        stream.extend(frame.encode().expect("encode"));
    }
    for size in [1, 7, 41, stream.len()] {
        let mut decoder = FrameDecoder::default();
        let mut got = Vec::new();
        for piece in stream.chunks(size) {
            decoder.push(piece);
            while let Some(frame) = decoder.next_frame().expect("no fault") {
                got.push(frame);
            }
        }
        assert_eq!(got, frames.to_vec());
        assert_eq!(decoder.buffered_len(), 0);
    }
}

#[test]
fn bytes_may_be_cut_into_any_number_of_parts() {
    let mut stream = hello_ack().encode().expect("encode");
    stream.extend(endpoint_frame(7, 1, "n1mm", 1).encode().expect("encode"));
    stream.extend(attach_ack(7, 64).encode().expect("encode"));
    let whole = DaemonProtocol::new().ingest(&stream).expect("whole");
    assert_eq!(whole.len(), 3);
    for size in [1, 5, 60] {
        let mut protocol = DaemonProtocol::new();
        let mut events = Vec::new();
        for part in stream.chunks(size) {
            events.extend(protocol.ingest(part).expect("part"));
        }
        assert_eq!(events, whole);
        assert!(protocol.data(b"x").is_ok());
    }
}

#[test]
fn data_is_numbered_from_one_after_each_attachment() {
    fn number(bytes: &[u8]) -> u64 {
        Frame::decode(bytes)
            .expect("decode")
            .fields
            .require_u64(data_field::SEQUENCE)
            .expect("sequence")
    }
    let mut protocol = negotiated_protocol();
    take(&mut protocol, attach_ack(7, 8)).expect("attach");
    assert_eq!(number(&protocol.data(b"abc").expect("first")), 1);
    // A failure for want of credit uses up no number.
    assert_eq!(
        protocol.data(b"too many bytes"),
        Err(DaemonProtocolError::Credit)
    );
    assert_eq!(number(&protocol.data(b"de").expect("second")), 2);
    assert_eq!(number(&protocol.data(b"f").expect("third")), 3);
    take(&mut protocol, attach_ack(9, 8)).expect("attach again");
    let first = protocol.data(b"g").expect("first again");
    assert_eq!(number(&first), 1);
    assert_eq!(Frame::decode(&first).expect("decode").endpoint_id, 9);
}
