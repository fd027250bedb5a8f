//! What the driver of virtual serial ports and the daemon tell each other, byte by byte and
//! field by field.

use vstd::prelude::*;
use vstd::utf8::encode_utf8;

use crate::daemon::DaemonProtocolError;
use crate::daemon::DaemonState;
use crate::daemon::EventView;
use crate::daemon::SerialConfiguration;
use crate::daemon::after_buffered;
use crate::daemon::after_frame;
use crate::daemon::attach_fields;
use crate::daemon::credit_released;
use crate::daemon::data_fields;
use crate::daemon::data_sent;
use crate::daemon::detach_request;
use crate::daemon::health_request;
use crate::daemon::hello_fields;
use crate::daemon::ingested;
use crate::daemon::initial_state;
use crate::daemon::plain_frame;
use crate::daemon::step_events;
use crate::le::le_bytes;
use crate::le::le_value;
use crate::le::lemma_le_bytes_len;
use crate::le::lemma_le_limits;
use crate::le::lemma_le_round_trip;
use crate::protocol::MessageKind;
use crate::protocol::fields::field_bytes;
use crate::protocol::fields::fields_bytes;
use crate::protocol::frame::FrameView;
use crate::protocol::frame::encodable;
use crate::protocol::frame::frame_bytes;
use crate::protocol::frame::law_stream_delivers;
use crate::protocol::frame::lemma_header_len;
use crate::protocol::frame::lemma_header_parts;

verus! {

/// Numbers are written with the lowest byte first.
pub proof fn law_lowest_byte_first(a: u8, b: u8, c: u8, d: u8)
    ensures
        le_value(seq![a, b]) == a + 256 * b,
        le_value(seq![a, b, c, d]) == a + 256 * b + 65_536 * c + 16_777_216 * d,
        le_bytes((a + 256 * b) as nat, 2) == seq![a, b],
        le_bytes((a + 256 * b + 65_536 * c + 16_777_216 * d) as nat, 4) == seq![a, b, c, d],
{
    reveal_with_fuel(le_value, 5);
    reveal_with_fuel(le_bytes, 5);
    assert(seq![a, b].skip(1) =~= seq![b]);
    assert(seq![b].skip(1) =~= Seq::empty());
    assert(seq![a, b, c, d].skip(1) =~= seq![b, c, d]);
    assert(seq![b, c, d].skip(1) =~= seq![c, d]);
    assert(seq![c, d].skip(1) =~= seq![d]);
    assert(seq![d].skip(1) =~= Seq::empty());
    assert(le_bytes((a + 256 * b) as nat, 2) =~= seq![a, b]);
    assert(le_bytes((a + 256 * b + 65_536 * c + 16_777_216 * d) as nat, 4) =~= seq![a, b, c, d]);
}

/// The number of each kind of message on the wire.
pub proof fn law_message_numbers()
    ensures
        MessageKind::Hello.wire() == 1,
        MessageKind::HelloAck.wire() == 2,
        MessageKind::Discover.wire() == 3,
        MessageKind::Endpoint.wire() == 4,
        MessageKind::DiscoverComplete.wire() == 5,
        MessageKind::Attach.wire() == 6,
        MessageKind::AttachAck.wire() == 7,
        MessageKind::Detach.wire() == 8,
        MessageKind::Data.wire() == 9,
        MessageKind::WindowUpdate.wire() == 10,
        MessageKind::SerialConfig.wire() == 11,
        MessageKind::ModemControl.wire() == 12,
        MessageKind::ModemStatus.wire() == 13,
        MessageKind::ApplicationOpen.wire() == 14,
        MessageKind::ApplicationClose.wire() == 15,
        MessageKind::Cancel.wire() == 16,
        MessageKind::Purge.wire() == 17,
        MessageKind::Health.wire() == 18,
        MessageKind::HealthAck.wire() == 19,
        MessageKind::Error.wire() == 20,
{
}

/// A frame is a header of 40 bytes and its fields: the letters `CHVS`, the length of the header,
/// the kind, the version, the flags, the length of the fields, the endpoint and the request, and
/// four bytes of zero.
pub proof fn law_header_layout(frame: FrameView)
    requires
        encodable(frame),
    ensures
        ({
            let bytes = frame_bytes(frame);
            let payload = fields_bytes(frame.fields, 0);
            &&& bytes.len() == 40 + payload.len()
            &&& bytes.take(4) == seq![0x43u8, 0x48, 0x56, 0x53]
            &&& le_value(bytes.subrange(4, 6)) == 40
            &&& le_value(bytes.subrange(6, 8)) == frame.kind.wire()
            &&& le_value(bytes.subrange(8, 10)) == frame.version.major
            &&& le_value(bytes.subrange(10, 12)) == frame.version.minor
            &&& le_value(bytes.subrange(12, 16)) == frame.flags
            &&& le_value(bytes.subrange(16, 20)) == payload.len()
            &&& le_value(bytes.subrange(20, 28)) == frame.endpoint_id
            &&& le_value(bytes.subrange(28, 36)) == frame.request_id
            &&& bytes.subrange(36, 40) == seq![0u8, 0, 0, 0]
            &&& bytes.skip(40) == payload
        }),
{
    let payload = fields_bytes(frame.fields, 0);
    let bytes = frame_bytes(frame);
    lemma_header_len(frame, payload.len());
    lemma_header_parts(frame, payload, Seq::empty());
    assert(bytes + Seq::<u8>::empty() =~= bytes);
    lemma_le_bytes_len(40, 2);
    lemma_le_bytes_len(frame.kind.wire() as nat, 2);
    lemma_le_bytes_len(frame.version.major as nat, 2);
    lemma_le_bytes_len(frame.version.minor as nat, 2);
    lemma_le_bytes_len(frame.flags as nat, 4);
    lemma_le_bytes_len(payload.len(), 4);
    lemma_le_bytes_len(frame.endpoint_id as nat, 8);
    lemma_le_bytes_len(frame.request_id as nat, 8);
    lemma_le_bytes_len(0, 4);
    law_lowest_byte_first(0, 0, 0, 0);
    assert(bytes.subrange(36, 40) =~= le_bytes(0, 4));
    assert(bytes.skip(40) =~= payload);
}

/// A field is its tag in two bytes, the length of its value in four, and the value; fields stand
/// in the order of their tags.
pub proof fn law_field_layout(tag: u16, value: Seq<u8>)
    requires
        value.len() <= u32::MAX,
    ensures
        ({
            let bytes = field_bytes(tag, value);
            &&& bytes.len() == 6 + value.len()
            &&& le_value(bytes.take(2)) == tag
            &&& le_value(bytes.subrange(2, 6)) == value.len()
            &&& bytes.skip(6) == value
        }),
{
    let bytes = field_bytes(tag, value);
    lemma_le_limits();
    lemma_le_bytes_len(tag as nat, 2);
    lemma_le_bytes_len(value.len(), 4);
    lemma_le_round_trip(tag as nat, 2);
    lemma_le_round_trip(value.len(), 4);
    assert(bytes.take(2) =~= le_bytes(tag as nat, 2));
    assert(bytes.subrange(2, 6) =~= le_bytes(value.len(), 4));
    assert(bytes.skip(6) =~= value);
}

/// A frame of the driver with the given fields.
pub open spec fn told(kind: MessageKind, endpoint_id: u64, fields: Map<u16, Seq<u8>>) -> FrameView {
    plain_frame(kind, endpoint_id, 0, fields)
}

/// What the daemon makes of a frame, where it makes an event of it and nothing else changes.
pub open spec fn reports(st: DaemonState, frame: FrameView, event: EventView) -> bool {
    after_frame(st, frame) == (
        Ok::<Option<EventView>, DaemonProtocolError>(Some(event)),
        st,
    )
}

proof fn lemma_number(x: nat, count: nat)
    requires
        count == 2 && x <= u16::MAX || count == 4 && x <= u32::MAX || count == 8 && x <= u64::MAX,
    ensures
        le_bytes(x, count).len() == count,
        le_value(le_bytes(x, count)) == x,
{
    lemma_le_limits();
    lemma_le_bytes_len(x, count);
    lemma_le_round_trip(x, count);
}

proof fn lemma_text(s: Seq<char>)
    ensures
        vstd::utf8::valid_utf8(encode_utf8(s)),
        vstd::utf8::decode_utf8(encode_utf8(s)) == s,
{
    vstd::utf8::encode_utf8_valid_utf8(s);
    vstd::utf8::encode_utf8_decode_utf8(s);
}

/// An endpoint that the driver describes is reported as it is described: its kind under tag 1,
/// its stable name under 2, the name shown for it under 3, and whether it is enabled under 4.
pub proof fn law_endpoints_are_reported(
    st: DaemonState,
    endpoint_id: u64,
    kind: u16,
    stable_id: Seq<char>,
    display_name: Seq<char>,
    enabled: u16,
)
    ensures
        reports(
            st,
            told(
                MessageKind::Endpoint,
                endpoint_id,
                Map::empty().insert(1, le_bytes(kind as nat, 2)).insert(
                    2,
                    encode_utf8(stable_id),
                ).insert(3, encode_utf8(display_name)).insert(4, le_bytes(enabled as nat, 2)),
            ),
            EventView::Endpoint {
                endpoint_id,
                kind,
                stable_id,
                display_name,
                enabled: enabled != 0,
            },
        ),
        reports(
            st,
            told(MessageKind::DiscoverComplete, endpoint_id, Map::empty()),
            EventView::DiscoveryComplete,
        ),
{
    reveal(after_frame);
    lemma_number(kind as nat, 2);
    lemma_number(enabled as nat, 2);
    lemma_text(stable_id);
    lemma_text(display_name);
}

/// The settings of a serial port are reported as the application made them: speed, data bits,
/// parity, stop bits, flow control and the two timeouts, under tags 1 to 7.
pub proof fn law_serial_settings_are_reported(
    st: DaemonState,
    endpoint_id: u64,
    c: SerialConfiguration,
)
    ensures
        reports(
            st,
            told(
                MessageKind::SerialConfig,
                endpoint_id,
                Map::empty().insert(1, le_bytes(c.baud as nat, 4)).insert(
                    2,
                    le_bytes(c.data_bits as nat, 2),
                ).insert(3, le_bytes(c.parity as nat, 2)).insert(
                    4,
                    le_bytes(c.stop_bits as nat, 2),
                ).insert(5, le_bytes(c.flow_control as nat, 2)).insert(
                    6,
                    le_bytes(c.read_timeout_ms as nat, 4),
                ).insert(7, le_bytes(c.write_timeout_ms as nat, 4)),
            ),
            EventView::SerialConfiguration(c),
        ),
{
    reveal(after_frame);
    lemma_number(c.baud as nat, 4);
    lemma_number(c.data_bits as nat, 2);
    lemma_number(c.parity as nat, 2);
    lemma_number(c.stop_bits as nat, 2);
    lemma_number(c.flow_control as nat, 2);
    lemma_number(c.read_timeout_ms as nat, 4);
    lemma_number(c.write_timeout_ms as nat, 4);
}

/// What happens on the application's side is reported with its number: opening and closing and
/// cancellation with the operation under tag 3, modem lines and purges with the mask under 1, a
/// cancellation and a failure with their kind or code under 4, and texts under 5.
pub proof fn law_controls_are_reported(
    st: DaemonState,
    endpoint_id: u64,
    mask: u32,
    operation_id: u64,
    code: u32,
    detail: Seq<char>,
)
    ensures
        ({
            let none = Map::<u16, Seq<u8>>::empty();
            let numbered = none.insert(3, le_bytes(operation_id as nat, 8));
            let masked = none.insert(1, le_bytes(mask as nat, 4));
            &&& reports(
                st,
                told(MessageKind::ApplicationOpen, endpoint_id, numbered),
                EventView::ApplicationOpen(operation_id),
            )
            &&& reports(
                st,
                told(MessageKind::ApplicationClose, endpoint_id, numbered),
                EventView::ApplicationClose(operation_id),
            )
            &&& reports(
                st,
                told(MessageKind::ModemControl, endpoint_id, masked),
                EventView::ModemControl(mask),
            )
            &&& reports(
                st,
                told(MessageKind::Purge, endpoint_id, masked),
                EventView::Purge(mask),
            )
            &&& reports(
                st,
                told(
                    MessageKind::Cancel,
                    endpoint_id,
                    numbered.insert(4, le_bytes(code as nat, 4)),
                ),
                EventView::Cancel { operation_id, kind: code },
            )
            &&& reports(
                st,
                told(
                    MessageKind::Error,
                    endpoint_id,
                    none.insert(4, le_bytes(code as nat, 4)).insert(5, encode_utf8(detail)),
                ),
                EventView::Error { code, detail },
            )
            &&& reports(
                st,
                told(
                    MessageKind::HealthAck,
                    endpoint_id,
                    masked.insert(3, le_bytes(operation_id as nat, 8)).insert(
                        5,
                        encode_utf8(detail),
                    ),
                ),
                EventView::Health { attached: mask != 0, session_id: operation_id, detail },
            )
        }),
{
    reveal(after_frame);
    lemma_number(mask as nat, 4);
    lemma_number(operation_id as nat, 8);
    lemma_number(code as nat, 4);
    lemma_text(detail);
}

/// An attachment names the endpoint, hands over the credit to send and starts both numberings
/// and the credit to receive anew; a detachment ends it. An attachment without credit is refused.
pub proof fn law_attachments(st: DaemonState, endpoint_id: u64, session_id: u64, credit: u32)
    ensures
        ({
            let fields = Map::<u16, Seq<u8>>::empty().insert(
                1,
                le_bytes(session_id as nat, 8),
            ).insert(2, le_bytes(credit as nat, 4));
            let (outcome, later) = after_frame(
                st,
                told(MessageKind::AttachAck, endpoint_id, fields),
            );
            let (gone, apart) = after_frame(
                later,
                told(MessageKind::Detach, endpoint_id, Map::empty()),
            );
            &&& credit == 0 ==> outcome == Err::<Option<EventView>, DaemonProtocolError>(
                DaemonProtocolError::Credit,
            ) && later == st
            &&& credit > 0 ==> {
                &&& outcome == Ok::<Option<EventView>, DaemonProtocolError>(
                    Some(EventView::Attached { endpoint_id, session_id }),
                )
                &&& later == (DaemonState {
                    attached: Some(endpoint_id),
                    send_limit: credit as nat,
                    send_credit: credit as nat,
                    receive_credit: 65_536,
                    outbound: 0,
                    inbound: 0,
                    ..st
                })
            }
            &&& gone == Ok::<Option<EventView>, DaemonProtocolError>(Some(EventView::Detached))
            &&& apart == (DaemonState { attached: None, ..later })
        }),
{
    reveal(after_frame);
    lemma_number(session_id as nat, 8);
    lemma_number(credit as nat, 4);
}

/// Credit is spent by what is sent and given back by the driver, never beyond what it allowed
/// at first; what is received spends the daemon's own window, and releasing it gives it back.
/// Data for another endpoint, beyond the credit or out of sequence is refused.
pub proof fn law_credit_flows(
    st: DaemonState,
    endpoint_id: u64,
    bytes: Seq<u8>,
    credit: u32,
    sequence: u64,
)
    requires
        st.attached == Some(endpoint_id),
        st.send_credit <= st.send_limit,
        bytes.len() <= st.send_credit,
        bytes.len() <= st.receive_credit <= 65_536,
        60 + bytes.len() <= st.frame_limit <= 1_048_576,
    ensures
        ({
            let (sent, after) = data_sent(st, bytes);
            let grant = told(
                MessageKind::WindowUpdate,
                endpoint_id,
                Map::empty().insert(3, le_bytes(credit as nat, 4)),
            );
            let (_, restored) = after_frame(after, grant);
            &&& sent is Ok
            &&& after.send_credit == st.send_credit - bytes.len()
            &&& credit > 0 ==> restored.send_credit == if after.send_credit + credit
                <= st.send_limit {
                after.send_credit + credit
            } else {
                st.send_limit as int
            }
            &&& credit == 0 ==> after_frame(after, grant).0 == Err::<
                Option<EventView>,
                DaemonProtocolError,
            >(DaemonProtocolError::Credit)
        }),
        ({
            let data = told(
                MessageKind::Data,
                endpoint_id,
                Map::empty().insert(1, le_bytes(sequence as nat, 8)).insert(2, bytes),
            );
            let (outcome, later) = after_frame(st, data);
            let (_, released) = credit_released(later, bytes.len());
            &&& sequence > st.inbound ==> {
                &&& outcome == Ok::<Option<EventView>, DaemonProtocolError>(
                    Some(EventView::Data(bytes)),
                )
                &&& later.inbound == sequence
                &&& later.receive_credit == st.receive_credit - bytes.len()
                &&& released.receive_credit == st.receive_credit
                &&& after_frame(later, data).0 == Err::<Option<EventView>, DaemonProtocolError>(
                    DaemonProtocolError::Sequence,
                )
            }
            &&& sequence <= st.inbound ==> outcome == Err::<
                Option<EventView>,
                DaemonProtocolError,
            >(DaemonProtocolError::Sequence)
            &&& sequence > st.inbound && bytes.len() > 0 ==> after_frame(
                DaemonState { receive_credit: 0, ..st },
                data,
            ).0 == Err::<Option<EventView>, DaemonProtocolError>(DaemonProtocolError::Credit)
            &&& after_frame(DaemonState { attached: None, ..st }, data).0 == Err::<
                Option<EventView>,
                DaemonProtocolError,
            >(DaemonProtocolError::WrongEndpoint)
        }),
        bytes.len() > 0 ==> data_sent(DaemonState { send_credit: 0, ..st }, bytes).0 == Err::<
            Seq<u8>,
            DaemonProtocolError,
        >(DaemonProtocolError::Credit),
        data_sent(DaemonState { attached: None, ..st }, bytes).0 == Err::<
            Seq<u8>,
            DaemonProtocolError,
        >(DaemonProtocolError::NotAttached),
{
    reveal(after_frame);
    lemma_number(credit as nat, 4);
    lemma_number(sequence as nat, 8);
}

/// What the daemon says of itself when it greets: version 1.0 at least and at most, frames of up
/// to a mebibyte, a window of 64 KiB, its name, and the features it needs, which are all but
/// several endpoints on one link. It attaches with a session of its own choosing and the same
/// window, numbers its data, and gives the reason for a detachment.
pub proof fn law_requests_say(st: DaemonState, sequence: u64, bytes: Seq<u8>, reason: u32)
    ensures
        hello_fields() == Map::<u16, Seq<u8>>::empty().insert(1, le_bytes(1, 2)).insert(
            2,
            le_bytes(0, 2),
        ).insert(3, le_bytes(1, 2)).insert(4, le_bytes(0, 2)).insert(
            5,
            le_bytes(1_048_576, 4),
        ).insert(6, le_bytes(65_536, 4)).insert(7, le_bytes(0xbf, 8)).insert(
            8,
            encode_utf8("cathub-daemon"@),
        ),
        attach_fields() == Map::<u16, Seq<u8>>::empty().insert(1, le_bytes(0, 8)).insert(
            2,
            le_bytes(65_536, 4),
        ),
        data_fields(sequence, bytes) == Map::<u16, Seq<u8>>::empty().insert(
            1,
            le_bytes(sequence as nat, 8),
        ).insert(2, bytes),
        st.attached is Some ==> detach_request(st, reason) == Some(
            frame_bytes(
                told(
                    MessageKind::Detach,
                    st.attached->Some_0,
                    Map::empty().insert(3, le_bytes(reason as nat, 4)),
                ),
            ),
        ),
        st.attached is None ==> detach_request(st, reason) is None,
        health_request(st, sequence) == if st.negotiated {
            Ok::<Seq<u8>, DaemonProtocolError>(
                frame_bytes(plain_frame(MessageKind::Health, 0, sequence, Map::empty())),
            )
        } else {
            Err(DaemonProtocolError::Version)
        },
        initial_state() == (DaemonState {
            buffered: Seq::empty(),
            negotiated: false,
            attached: None,
            frame_limit: 1_048_576,
            send_limit: 0,
            send_credit: 0,
            receive_credit: 65_536,
            outbound: 0,
            inbound: 0,
        }),
        ({
            let frame = told(MessageKind::Health, 0, Map::empty());
            frame.version.major == 1 && frame.version.minor == 0 && frame.flags == 0
        }),
{
    assert(0x01u64 | 0x02u64 | 0x04u64 | 0x08u64 | 0x10u64 | 0x20u64 | 0x80u64 == 0xbfu64)
        by (bit_vector);
}

/// A driver that answers the greeting with version 1.0, the features that are needed, frames of
/// at least 64 bytes and some credit is accepted; the link then carries frames of that size, up
/// to a mebibyte, and that credit. Any other answer is refused and leaves the link as it was.
pub proof fn law_greetings(
    st: DaemonState,
    flags: u32,
    min: (u16, u16),
    max: (u16, u16),
    limit: u32,
    window: u32,
    features: u64,
)
    ensures
        ({
            let fields = Map::<u16, Seq<u8>>::empty().insert(1, le_bytes(min.0 as nat, 2)).insert(
                2,
                le_bytes(min.1 as nat, 2),
            ).insert(3, le_bytes(max.0 as nat, 2)).insert(4, le_bytes(max.1 as nat, 2)).insert(
                5,
                le_bytes(limit as nat, 4),
            ).insert(6, le_bytes(window as nat, 4)).insert(7, le_bytes(features as nat, 8));
            let answer = FrameView { flags, ..told(MessageKind::HelloAck, 0, fields) };
            let (outcome, later) = after_frame(st, answer);
            let versions = min == (1u16, 0u16) && max == (1u16, 0u16);
            let able = features & 0xbf == 0xbf;
            &&& outcome is Ok <==> flags & 1 == 1 && versions && able && limit >= 64 && window > 0
            &&& outcome is Ok ==> outcome == Ok::<Option<EventView>, DaemonProtocolError>(
                Some(EventView::Negotiated),
            ) && later == (DaemonState {
                negotiated: true,
                frame_limit: if limit <= 1_048_576 {
                    limit as nat
                } else {
                    1_048_576
                },
                send_limit: window as nat,
                send_credit: window as nat,
                ..st
            })
            &&& outcome is Err ==> later == st
            &&& flags & 1 != 1 || !versions ==> outcome == Err::<
                Option<EventView>,
                DaemonProtocolError,
            >(DaemonProtocolError::Version)
            &&& flags & 1 == 1 && versions && !able ==> outcome == Err::<
                Option<EventView>,
                DaemonProtocolError,
            >(DaemonProtocolError::Features)
            &&& flags & 1 == 1 && versions && able && limit < 64 ==> outcome == Err::<
                Option<EventView>,
                DaemonProtocolError,
            >(DaemonProtocolError::FrameLimit)
        }),
{
    reveal(after_frame);
    assert(0x01u64 | 0x02u64 | 0x04u64 | 0x08u64 | 0x10u64 | 0x20u64 | 0x80u64 == 0xbfu64)
        by (bit_vector);
    lemma_number(min.0 as nat, 2);
    lemma_number(min.1 as nat, 2);
    lemma_number(max.0 as nat, 2);
    lemma_number(max.1 as nat, 2);
    lemma_number(limit as nat, 4);
    lemma_number(window as nat, 4);
    lemma_number(features as nat, 8);
}

/// A frame that comes in whole is taken in: its event is reported and nothing of it is left. Once
/// the link is agreed on, a frame beyond the agreed size or of another version is refused; before
/// that, neither matters.
pub proof fn law_frames_are_taken_in(st: DaemonState, frame: FrameView)
    requires
        encodable(frame),
        st.buffered.len() == 0,
    ensures
        ({
            let bytes = frame_bytes(frame);
            let (outcome, later) = ingested(st, bytes);
            let current = frame.version.major == 1 && frame.version.minor == 0;
            let fits = bytes.len() <= st.frame_limit;
            let (event, next) = after_frame(st, frame);
            &&& st.negotiated && !fits ==> outcome == Err::<Seq<EventView>, DaemonProtocolError>(
                DaemonProtocolError::FrameLimit,
            )
            &&& st.negotiated && fits && !current ==> outcome == Err::<
                Seq<EventView>,
                DaemonProtocolError,
            >(DaemonProtocolError::Version)
            &&& !st.negotiated || (fits && current) ==> {
                &&& event is Err ==> outcome == Err::<Seq<EventView>, DaemonProtocolError>(
                    event->Err_0,
                )
                &&& event is Ok ==> outcome == Ok::<Seq<EventView>, DaemonProtocolError>(
                    match event->Ok_0 {
                        Some(e) => seq![e],
                        None => Seq::empty(),
                    },
                )
                &&& later == next
            }
        }),
{
    let bytes = frame_bytes(frame);
    let payload = fields_bytes(frame.fields, 0);
    lemma_header_len(frame, payload.len());
    let full = crate::daemon::with_more(st, bytes);
    assert(st.buffered + bytes =~= bytes);
    law_stream_delivers(frame, Seq::empty());
    assert(bytes + Seq::<u8>::empty() =~= bytes);
    assert(bytes.skip(bytes.len() as int) =~= Seq::empty());
    assert(st.buffered =~= Seq::empty());
    assert(DaemonState { buffered: bytes.skip(bytes.len() as int), ..full } == st);
    let (event, next) = after_frame(st, frame);
    crate::daemon::lemma_frame_keeps_buffer(st, frame);
    if event is Ok {
        let told = step_events(event->Ok_0);
        assert(Seq::<EventView>::empty() + told =~= told);
        lemma_nothing_left(next, told);
    }
}

proof fn lemma_nothing_left(st: DaemonState, events: Seq<EventView>)
    requires
        st.buffered.len() == 0,
    ensures
        after_buffered(st, events) == (Ok::<Seq<EventView>, DaemonProtocolError>(events), st),
{
    assert(st.buffered.skip(0) =~= st.buffered);
}

} // verus!
