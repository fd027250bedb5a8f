//! Frames of the private transport and the decoder for a stream of them.

use vstd::prelude::*;

use crate::le::le_bytes;
use crate::le::le_value;
use crate::le::push_le;
use crate::le::read_le;
use crate::protocol::error::ProtocolError;
use crate::protocol::fields::fields_bytes;
use crate::protocol::fields::first_too_long;
use crate::protocol::fields::parsed_fields;
use crate::protocol::fields::values_fit;
use crate::protocol::fields::Fields;
use crate::protocol::FrameFlags;
use crate::protocol::MessageKind;
use crate::protocol::ProtocolVersion;
use crate::protocol::ABSOLUTE_MAX_FRAME_LEN;
use crate::protocol::HEADER_LEN;
use crate::protocol::MAGIC;

verus! {

/// What a frame holds.
#[verifier::ext_equal]
pub struct FrameView {
    /// Protocol version used for this frame.
    pub version: ProtocolVersion,
    /// Message operation.
    pub kind: MessageKind,
    /// Operation flags as wire bits.
    pub flags: u32,
    /// Stable endpoint ID, or zero for device-wide operations.
    pub endpoint_id: u64,
    /// Request correlation ID, or zero for unsolicited events.
    pub request_id: u64,
    /// The fields of the payload.
    pub fields: Map<u16, Seq<u8>>,
}

/// The marker at the start of each frame, as a sequence.
pub open spec fn magic() -> Seq<u8> {
    seq![0x43, 0x48, 0x56, 0x53]
}

/// The header of a frame with a payload of `payload_len` bytes.
pub open spec fn header_bytes(frame: FrameView, payload_len: nat) -> Seq<u8> {
    magic() + le_bytes(HEADER_LEN as nat, 2) + le_bytes(frame.kind.wire() as nat, 2) + le_bytes(
        frame.version.major as nat,
        2,
    ) + le_bytes(frame.version.minor as nat, 2) + le_bytes(frame.flags as nat, 4) + le_bytes(
        payload_len,
        4,
    ) + le_bytes(frame.endpoint_id as nat, 8) + le_bytes(frame.request_id as nat, 8) + le_bytes(
        0,
        4,
    )
}

/// The stable wire form of a frame.
pub open spec fn frame_bytes(frame: FrameView) -> Seq<u8> {
    header_bytes(frame, fields_bytes(frame.fields, 0).len()) + fields_bytes(frame.fields, 0)
}

/// Whether a frame can be written: its fields are in order and it is not too large.
pub open spec fn encodable(frame: FrameView) -> bool {
    &&& !frame.fields.contains_key(0)
    &&& values_fit(frame.fields)
    &&& HEADER_LEN + fields_bytes(frame.fields, 0).len() <= ABSOLUTE_MAX_FRAME_LEN
}

/// The size of the frame that a header announces, or the fault in its fixed part.
pub open spec fn announced_len(input: Seq<u8>) -> Result<nat, ProtocolError> {
    let header_len = le_value(input.subrange(4, 6));
    let total = HEADER_LEN as nat + le_value(input.subrange(16, 20));
    if input.take(4) != magic() {
        Err(ProtocolError::BadMagic)
    } else if header_len != HEADER_LEN {
        Err(ProtocolError::UnsupportedHeader(header_len as usize))
    } else if total > usize::MAX {
        Err(ProtocolError::FrameTooLarge(usize::MAX))
    } else if total > ABSOLUTE_MAX_FRAME_LEN {
        Err(ProtocolError::FrameTooLarge(total as usize))
    } else {
        Ok(total)
    }
}

/// What one complete frame holds, or the first fault in it. An unknown message kind is
/// reported before a size that is too large.
pub open spec fn parsed_frame(input: Seq<u8>) -> Result<FrameView, ProtocolError> {
    let available = input.len() as usize;
    if input.len() < HEADER_LEN {
        Err(ProtocolError::Incomplete { needed: HEADER_LEN, available })
    } else {
        let kind = MessageKind::named(le_value(input.subrange(6, 8)) as u16);
        let len = announced_len(input);
        if len == Err::<nat, ProtocolError>(ProtocolError::BadMagic) || len matches Err(
            ProtocolError::UnsupportedHeader(_),
        ) {
            Err(len->Err_0)
        } else if kind is Err {
            Err(kind->Err_0)
        } else if len is Err {
            Err(len->Err_0)
        } else {
            let total = len->Ok_0;
            if input.len() < total {
                Err(ProtocolError::Incomplete { needed: total as usize, available })
            } else if input.len() != total {
                Err(ProtocolError::TrailingBytes((input.len() - total) as usize))
            } else {
                match parsed_fields(input.skip(HEADER_LEN as int), Map::empty()) {
                    Ok(fields) => Ok(
                        FrameView {
                            version: ProtocolVersion {
                                major: le_value(input.subrange(8, 10)) as u16,
                                minor: le_value(input.subrange(10, 12)) as u16,
                            },
                            kind: kind->Ok_0,
                            flags: le_value(input.subrange(12, 16)) as u32,
                            endpoint_id: le_value(input.subrange(20, 28)) as u64,
                            request_id: le_value(input.subrange(28, 36)) as u64,
                            fields,
                        },
                    ),
                    Err(e) => Err(e),
                }
            }
        }
    }
}

/// A decoded private transport frame.
#[derive(Debug, Clone, PartialEq, Eq)]
pub struct Frame {
    /// Protocol version used for this frame.
    pub version: ProtocolVersion,
    /// Message operation.
    pub kind: MessageKind,
    /// Operation flags.
    pub flags: FrameFlags,
    /// Stable endpoint ID, or zero for device-wide operations.
    pub endpoint_id: u64,
    /// Request correlation ID, or zero for unsolicited events.
    pub request_id: u64,
    /// Type-length-value payload.
    pub fields: Fields,
}

impl View for Frame {
    type V = FrameView;

    open spec fn view(&self) -> FrameView {
        FrameView {
            version: self.version,
            kind: self.kind,
            flags: self.flags@,
            endpoint_id: self.endpoint_id,
            request_id: self.request_id,
            fields: self.fields@,
        }
    }
}

impl Frame {
    /// Create a frame with the current protocol version.
    #[must_use]
    pub fn new(kind: MessageKind, endpoint_id: u64, request_id: u64) -> (r: Self)
        ensures
            r@ == (FrameView {
                version: ProtocolVersion::current_version(),
                kind,
                flags: 0,
                endpoint_id,
                request_id,
                fields: Map::empty(),
            }),
    {
        Frame {
            version: ProtocolVersion::current(),
            kind,
            flags: FrameFlags::default(),
            endpoint_id,
            request_id,
            fields: Fields::default(),
        }
    }

    /// Encode this frame into the stable wire form.
    ///
    /// # Errors
    ///
    /// Returns an error if a field or frame exceeds the protocol size limits.
    pub fn encode(&self) -> (r: Result<Vec<u8>, ProtocolError>)
        ensures
            match r {
                Ok(bytes) => values_fit(self@.fields) && bytes@ == frame_bytes(self@)
                    && bytes@.len() <= ABSOLUTE_MAX_FRAME_LEN,
                Err(ProtocolError::FieldTooLarge { tag, size }) => first_too_long(self@.fields, tag)
                    && size == self@.fields[tag].len() as usize,
                Err(ProtocolError::FrameTooLarge(size)) => {
                    let total = HEADER_LEN + fields_bytes(self@.fields, 0).len();
                    &&& values_fit(self@.fields)
                    &&& total > ABSOLUTE_MAX_FRAME_LEN
                    &&& size == if total > usize::MAX {
                        usize::MAX as int
                    } else {
                        total
                    }
                },
                Err(_) => false,
            },
    {
        let payload = match self.fields.encode() {
            Ok(payload) => payload,
            Err(e) => return Err(e),
        };
        if payload.len() > usize::MAX - HEADER_LEN {
            return Err(ProtocolError::FrameTooLarge(usize::MAX));
        }
        let total: usize = HEADER_LEN + payload.len();
        if total > ABSOLUTE_MAX_FRAME_LEN {
            return Err(ProtocolError::FrameTooLarge(total));
        }
        let mut output: Vec<u8> = Vec::with_capacity(total);
        output.extend_from_slice(&MAGIC);
        proof {
            assert(output@ =~= magic());
        }
        push_le(&mut output, HEADER_LEN as u64, 2);
        push_le(&mut output, self.kind.code() as u64, 2);
        push_le(&mut output, self.version.major as u64, 2);
        push_le(&mut output, self.version.minor as u64, 2);
        push_le(&mut output, self.flags.bits() as u64, 4);
        push_le(&mut output, payload.len() as u64, 4);
        push_le(&mut output, self.endpoint_id, 8);
        push_le(&mut output, self.request_id, 8);
        push_le(&mut output, 0, 4);
        output.extend_from_slice(&payload);
        proof {
            lemma_header_len(self@, payload@.len());
            assert(output@ =~= frame_bytes(self@));
        }
        Ok(output)
    }

    /// Decode one complete frame.
    ///
    /// # Errors
    ///
    /// Returns an error for invalid framing, unknown message types, or invalid fields.
    pub fn decode(input: &[u8]) -> (r: Result<Self, ProtocolError>)
        ensures
            match r {
                Ok(frame) => parsed_frame(input@) == Ok::<FrameView, ProtocolError>(frame@)
                    && frame.fields.wf(),
                Err(e) => parsed_frame(input@) == Err::<FrameView, ProtocolError>(e),
            },
    {
        let available: usize = input.len();
        if available < HEADER_LEN {
            return Err(ProtocolError::Incomplete { needed: HEADER_LEN, available });
        }
        proof {
            crate::le::lemma_le_limits();
        }
        let announced = announced(input);
        match announced {
            Err(ProtocolError::BadMagic) => return Err(ProtocolError::BadMagic),
            Err(ProtocolError::UnsupportedHeader(len)) => return Err(
                ProtocolError::UnsupportedHeader(len),
            ),
            _ => {},
        }
        let kind = match MessageKind::try_from(read_le(input, 6, 2) as u16) {
            Ok(kind) => kind,
            Err(e) => return Err(e),
        };
        let total: usize = match announced {
            Ok(total) => total,
            Err(e) => return Err(e),
        };
        let version = ProtocolVersion {
            major: read_le(input, 8, 2) as u16,
            minor: read_le(input, 10, 2) as u16,
        };
        let flags = FrameFlags::from_bits(read_le(input, 12, 4) as u32);
        if available < total {
            return Err(ProtocolError::Incomplete { needed: total, available });
        }
        if available != total {
            return Err(ProtocolError::TrailingBytes(available - total));
        }
        proof {
            assert(input@.subrange(HEADER_LEN as int, total as int) =~= input@.skip(
                HEADER_LEN as int,
            ));
        }
        let fields = match Fields::decode(
            vstd::slice::slice_subrange(input, HEADER_LEN, total),
        ) {
            Ok(fields) => fields,
            Err(e) => return Err(e),
        };
        Ok(
            Frame {
                version,
                kind,
                flags,
                endpoint_id: read_le(input, 20, 8),
                request_id: read_le(input, 28, 8),
                fields,
            },
        )
    }
}

/// The size of the frame that a header announces.
fn announced(input: &[u8]) -> (r: Result<usize, ProtocolError>)
    requires
        input@.len() >= HEADER_LEN,
    ensures
        match r {
            Ok(total) => announced_len(input@) == Ok::<nat, ProtocolError>(total as nat),
            Err(e) => announced_len(input@) == Err::<nat, ProtocolError>(e),
        },
{
    proof {
        crate::le::lemma_le_limits();
    }
    if input[0] != MAGIC[0] || input[1] != MAGIC[1] || input[2] != MAGIC[2] || input[3]
        != MAGIC[3] {
        proof {
            let head = input@.take(4);
            assert(head[0] != magic()[0] || head[1] != magic()[1] || head[2] != magic()[2]
                || head[3] != magic()[3]);
        }
        return Err(ProtocolError::BadMagic);
    }
    proof {
        assert(input@.take(4) =~= magic());
    }
    let header_len: usize = read_le(input, 4, 2) as usize;
    if header_len != HEADER_LEN {
        return Err(ProtocolError::UnsupportedHeader(header_len));
    }
    let payload_len: u64 = read_le(input, 16, 4);
    if payload_len > (usize::MAX - HEADER_LEN) as u64 {
        return Err(ProtocolError::FrameTooLarge(usize::MAX));
    }
    let total: usize = HEADER_LEN + payload_len as usize;
    if total > ABSOLUTE_MAX_FRAME_LEN {
        return Err(ProtocolError::FrameTooLarge(total));
    }
    Ok(total)
}

/// A header always has its fixed size.
pub proof fn lemma_header_len(frame: FrameView, payload_len: nat)
    ensures
        header_bytes(frame, payload_len).len() == HEADER_LEN,
{
    crate::le::lemma_le_bytes_len(HEADER_LEN as nat, 2);
    crate::le::lemma_le_bytes_len(frame.kind.wire() as nat, 2);
    crate::le::lemma_le_bytes_len(frame.version.major as nat, 2);
    crate::le::lemma_le_bytes_len(frame.version.minor as nat, 2);
    crate::le::lemma_le_bytes_len(frame.flags as nat, 4);
    crate::le::lemma_le_bytes_len(payload_len, 4);
    crate::le::lemma_le_bytes_len(frame.endpoint_id as nat, 8);
    crate::le::lemma_le_bytes_len(frame.request_id as nat, 8);
    crate::le::lemma_le_bytes_len(0, 4);
}

/// The parts of a header stand where the decoder looks for them.
#[verifier::rlimit(40)]
pub(crate) proof fn lemma_header_parts(frame: FrameView, payload: Seq<u8>, rest: Seq<u8>)
    requires
        HEADER_LEN + payload.len() <= ABSOLUTE_MAX_FRAME_LEN,
    ensures
        ({
            let input = header_bytes(frame, payload.len()) + payload + rest;
            &&& input.take(4) == magic()
            &&& le_value(input.subrange(4, 6)) == HEADER_LEN
            &&& le_value(input.subrange(6, 8)) == frame.kind.wire()
            &&& le_value(input.subrange(8, 10)) == frame.version.major
            &&& le_value(input.subrange(10, 12)) == frame.version.minor
            &&& le_value(input.subrange(12, 16)) == frame.flags
            &&& le_value(input.subrange(16, 20)) == payload.len()
            &&& le_value(input.subrange(20, 28)) == frame.endpoint_id
            &&& le_value(input.subrange(28, 36)) == frame.request_id
        }),
{
    let input = header_bytes(frame, payload.len()) + payload + rest;
    lemma_header_len(frame, payload.len());
    crate::le::lemma_le_limits();
    crate::le::lemma_le_bytes_len(HEADER_LEN as nat, 2);
    crate::le::lemma_le_bytes_len(frame.kind.wire() as nat, 2);
    crate::le::lemma_le_bytes_len(frame.version.major as nat, 2);
    crate::le::lemma_le_bytes_len(frame.version.minor as nat, 2);
    crate::le::lemma_le_bytes_len(frame.flags as nat, 4);
    crate::le::lemma_le_bytes_len(payload.len(), 4);
    crate::le::lemma_le_bytes_len(frame.endpoint_id as nat, 8);
    crate::le::lemma_le_bytes_len(frame.request_id as nat, 8);
    crate::le::lemma_le_bytes_len(0, 4);
    assert(input.take(4) =~= magic());
    assert(input.subrange(4, 6) =~= le_bytes(HEADER_LEN as nat, 2));
    crate::le::lemma_le_round_trip(HEADER_LEN as nat, 2);
    assert(input.subrange(6, 8) =~= le_bytes(frame.kind.wire() as nat, 2));
    crate::le::lemma_le_round_trip(frame.kind.wire() as nat, 2);
    assert(input.subrange(8, 10) =~= le_bytes(frame.version.major as nat, 2));
    crate::le::lemma_le_round_trip(frame.version.major as nat, 2);
    assert(input.subrange(10, 12) =~= le_bytes(frame.version.minor as nat, 2));
    crate::le::lemma_le_round_trip(frame.version.minor as nat, 2);
    assert(input.subrange(12, 16) =~= le_bytes(frame.flags as nat, 4));
    crate::le::lemma_le_round_trip(frame.flags as nat, 4);
    assert(input.subrange(16, 20) =~= le_bytes(payload.len(), 4));
    crate::le::lemma_le_round_trip(payload.len(), 4);
    assert(input.subrange(20, 28) =~= le_bytes(frame.endpoint_id as nat, 8));
    crate::le::lemma_le_round_trip(frame.endpoint_id as nat, 8);
    assert(input.subrange(28, 36) =~= le_bytes(frame.request_id as nat, 8));
    crate::le::lemma_le_round_trip(frame.request_id as nat, 8);
}

/// Decoding what was encoded gives back the frame.
pub proof fn law_frame_round_trip(frame: FrameView)
    requires
        encodable(frame),
    ensures
        parsed_frame(frame_bytes(frame)) == Ok::<FrameView, ProtocolError>(frame),
{
    let payload = fields_bytes(frame.fields, 0);
    let input = frame_bytes(frame);
    lemma_header_len(frame, payload.len());
    lemma_header_parts(frame, payload, Seq::empty());
    assert(header_bytes(frame, payload.len()) + payload + Seq::<u8>::empty() =~= input);
    crate::protocol::law_kind_round_trip(frame.kind);
    crate::protocol::fields::law_fields_round_trip(frame.fields);
    assert(input.skip(HEADER_LEN as int) =~= payload);
}

/// What a stream decoder does with the bytes that it has: the frame or the fault that it
/// reports, and how many bytes it takes out.
pub open spec fn next_in_stream(buffer: Seq<u8>) -> (Result<Option<FrameView>, ProtocolError>, nat) {
    if buffer.len() < HEADER_LEN {
        (Ok(None), 0)
    } else {
        match announced_len(buffer) {
            Err(e) => (Err(e), 0),
            Ok(total) => if buffer.len() < total {
                (Ok(None), 0)
            } else {
                match parsed_frame(buffer.take(total as int)) {
                    Ok(frame) => (Ok(Some(frame)), total),
                    Err(e) => (Err(e), total),
                }
            },
        }
    }
}

/// A frame at the front of a stream is delivered, and exactly its bytes are taken out, no
/// matter what follows.
pub proof fn law_stream_delivers(frame: FrameView, rest: Seq<u8>)
    requires
        encodable(frame),
    ensures
        next_in_stream(frame_bytes(frame) + rest) == (
            Ok::<Option<FrameView>, ProtocolError>(Some(frame)),
            frame_bytes(frame).len(),
        ),
{
    let payload = fields_bytes(frame.fields, 0);
    let buffer = frame_bytes(frame) + rest;
    lemma_header_len(frame, payload.len());
    lemma_header_parts(frame, payload, rest);
    assert(header_bytes(frame, payload.len()) + payload + rest =~= buffer);
    assert(buffer.take(frame_bytes(frame).len() as int) =~= frame_bytes(frame));
    law_frame_round_trip(frame);
}

/// While only a part of a frame has arrived, the decoder waits and keeps every byte.
pub proof fn law_stream_waits(frame: FrameView, arrived: int)
    requires
        encodable(frame),
        0 <= arrived < frame_bytes(frame).len(),
    ensures
        next_in_stream(frame_bytes(frame).take(arrived)) == (
            Ok::<Option<FrameView>, ProtocolError>(None),
            0nat,
        ),
{
    let payload = fields_bytes(frame.fields, 0);
    let buffer = frame_bytes(frame).take(arrived);
    lemma_header_len(frame, payload.len());
    if arrived >= HEADER_LEN {
        lemma_header_parts(frame, payload, Seq::empty());
        let input = header_bytes(frame, payload.len()) + payload + Seq::<u8>::empty();
        assert(buffer.take(4) =~= input.take(4));
        assert(buffer.subrange(4, 6) =~= input.subrange(4, 6));
        assert(buffer.subrange(16, 20) =~= input.subrange(16, 20));
    }
}

/// A frame that a stream delivers is delivered just the same when more bytes follow.
pub proof fn law_stream_extends(buffer: Seq<u8>, more: Seq<u8>)
    requires
        next_in_stream(buffer).0 matches Ok(Some(_)),
    ensures
        next_in_stream(buffer + more) == next_in_stream(buffer),
        next_in_stream(buffer).1 <= buffer.len(),
{
    let all = buffer + more;
    assert(all.take(4) =~= buffer.take(4));
    assert(all.subrange(4, 6) =~= buffer.subrange(4, 6));
    assert(all.subrange(16, 20) =~= buffer.subrange(16, 20));
    let total = announced_len(buffer)->Ok_0;
    assert(all.take(total as int) =~= buffer.take(total as int));
}

/// A fault at the front of a stream is a fault just the same when more bytes follow.
pub proof fn lemma_stream_fault_extends(buffer: Seq<u8>, more: Seq<u8>)
    requires
        next_in_stream(buffer).0 is Err,
    ensures
        next_in_stream(buffer + more) == next_in_stream(buffer),
{
    let all = buffer + more;
    assert(all.take(4) =~= buffer.take(4));
    assert(all.subrange(4, 6) =~= buffer.subrange(4, 6));
    assert(all.subrange(16, 20) =~= buffer.subrange(16, 20));
    if announced_len(buffer) is Ok {
        let total = announced_len(buffer)->Ok_0;
        assert(all.take(total as int) =~= buffer.take(total as int));
    }
}

/// A decoder takes no more bytes out than it has.
pub proof fn lemma_stream_takes(buffer: Seq<u8>)
    ensures
        next_in_stream(buffer).1 <= buffer.len(),
{
}

/// The bytes of several frames, one behind the other.
pub open spec fn joined_frames(frames: Seq<FrameView>) -> Seq<u8>
    decreases frames.len(),
{
    if frames.len() == 0 {
        Seq::empty()
    } else {
        frame_bytes(frames[0]) + joined_frames(frames.skip(1))
    }
}

/// One use of a stream decoder.
pub enum StreamStep {
    /// Bytes arrive.
    Push(Seq<u8>),
    /// The next frame is asked for.
    Next,
}

/// All the bytes that arrive in a run of steps.
pub open spec fn pushed(steps: Seq<StreamStep>) -> Seq<u8>
    decreases steps.len(),
{
    if steps.len() == 0 {
        Seq::empty()
    } else {
        match steps[0] {
            StreamStep::Push(bytes) => bytes + pushed(steps.skip(1)),
            StreamStep::Next => pushed(steps.skip(1)),
        }
    }
}

/// What a run of steps is answered, request by request, and the bytes that are then left.
pub open spec fn stream_run(buffer: Seq<u8>, steps: Seq<StreamStep>) -> (
    Seq<Result<Option<FrameView>, ProtocolError>>,
    Seq<u8>,
)
    decreases steps.len(),
{
    if steps.len() == 0 {
        (Seq::empty(), buffer)
    } else {
        match steps[0] {
            StreamStep::Push(bytes) => stream_run(buffer + bytes, steps.skip(1)),
            StreamStep::Next => {
                let (outcome, taken) = next_in_stream(buffer);
                let (more, rest) = stream_run(buffer.skip(taken as int), steps.skip(1));
                (seq![outcome] + more, rest)
            },
        }
    }
}

/// The frames among the answers, in order.
pub open spec fn delivered(outcomes: Seq<Result<Option<FrameView>, ProtocolError>>) -> Seq<
    FrameView,
>
    decreases outcomes.len(),
{
    if outcomes.len() == 0 {
        Seq::empty()
    } else {
        match outcomes[0] {
            Ok(Some(frame)) => seq![frame] + delivered(outcomes.skip(1)),
            _ => delivered(outcomes.skip(1)),
        }
    }
}

/// While frames arrive, the first of them is delivered exactly once it is complete; until
/// then the decoder waits.
pub proof fn law_stream_front(frames: Seq<FrameView>, buffer: Seq<u8>, ahead: Seq<u8>)
    requires
        forall|i: int| 0 <= i < frames.len() ==> encodable(#[trigger] frames[i]),
        buffer + ahead == joined_frames(frames),
    ensures
        next_in_stream(buffer) == if frames.len() > 0 && frame_bytes(frames[0]).len()
            <= buffer.len() {
            (Ok::<Option<FrameView>, ProtocolError>(Some(frames[0])), frame_bytes(frames[0]).len())
        } else {
            (Ok::<Option<FrameView>, ProtocolError>(None), 0)
        },
{
    if frames.len() == 0 {
        assert((buffer + ahead).len() == 0);
    } else {
        let first = frame_bytes(frames[0]);
        let all = buffer + ahead;
        assert(all == first + joined_frames(frames.skip(1)));
        if first.len() <= buffer.len() {
            let rest = buffer.skip(first.len() as int);
            assert forall|i: int| 0 <= i < first.len() implies buffer[i] == first[i] by {
                assert(all[i] == buffer[i]);
            }
            assert(buffer =~= first + rest);
            law_stream_delivers(frames[0], rest);
        } else {
            assert forall|i: int| 0 <= i < buffer.len() implies buffer[i] == first[i] by {
                assert(all[i] == first[i]);
            }
            assert(buffer =~= first.take(buffer.len() as int));
            law_stream_waits(frames[0], buffer.len() as int);
        }
    }
}

/// Whether a run has delivered the first frames without a fault, and left the bytes that are
/// behind them.
spec fn ran_well(
    frames: Seq<FrameView>,
    outcomes: Seq<Result<Option<FrameView>, ProtocolError>>,
    rest: Seq<u8>,
    ahead: Seq<u8>,
) -> bool {
    let n = delivered(outcomes).len();
    &&& forall|i: int| 0 <= i < outcomes.len() ==> (#[trigger] outcomes[i]) is Ok
    &&& n <= frames.len()
    &&& delivered(outcomes) == frames.take(n as int)
    &&& rest + ahead == joined_frames(frames.skip(n as int))
}

/// A run that begins with a request that is answered with no frame.
#[verifier::spinoff_prover]
proof fn lemma_waited(
    frames: Seq<FrameView>,
    more: Seq<Result<Option<FrameView>, ProtocolError>>,
    rest: Seq<u8>,
    ahead: Seq<u8>,
)
    requires
        ran_well(frames, more, rest, ahead),
    ensures
        ran_well(frames, seq![Ok::<Option<FrameView>, ProtocolError>(None)] + more, rest, ahead),
{
    let outcomes = seq![Ok::<Option<FrameView>, ProtocolError>(None)] + more;
    assert(outcomes.skip(1) =~= more);
    assert forall|i: int| 0 <= i < outcomes.len() implies (#[trigger] outcomes[i]) is Ok by {
        if i > 0 {
            assert(outcomes[i] == more[i - 1]);
        }
    }
}

/// A run that begins with a request that is answered with the first frame.
#[verifier::spinoff_prover]
proof fn lemma_delivered(
    frames: Seq<FrameView>,
    more: Seq<Result<Option<FrameView>, ProtocolError>>,
    rest: Seq<u8>,
    ahead: Seq<u8>,
)
    requires
        frames.len() > 0,
        ran_well(frames.skip(1), more, rest, ahead),
    ensures
        ran_well(
            frames,
            seq![Ok::<Option<FrameView>, ProtocolError>(Some(frames[0]))] + more,
            rest,
            ahead,
        ),
{
    let outcomes = seq![Ok::<Option<FrameView>, ProtocolError>(Some(frames[0]))] + more;
    let others = frames.skip(1);
    let n = delivered(more).len() as int;
    assert(outcomes.skip(1) =~= more);
    assert(delivered(outcomes) == seq![frames[0]] + delivered(more));
    assert(seq![frames[0]] + others.take(n) =~= frames.take(n + 1));
    assert(others.skip(n) =~= frames.skip(n + 1));
    assert forall|i: int| 0 <= i < outcomes.len() implies (#[trigger] outcomes[i]) is Ok by {
        if i > 0 {
            assert(outcomes[i] == more[i - 1]);
        }
    }
}

#[verifier::spinoff_prover]
#[verifier::rlimit(40)]
proof fn lemma_stream_run(
    frames: Seq<FrameView>,
    buffer: Seq<u8>,
    steps: Seq<StreamStep>,
    ahead: Seq<u8>,
)
    requires
        forall|i: int| 0 <= i < frames.len() ==> encodable(#[trigger] frames[i]),
        buffer + pushed(steps) + ahead == joined_frames(frames),
    ensures
        ran_well(frames, stream_run(buffer, steps).0, stream_run(buffer, steps).1, ahead),
    decreases steps.len(),
{
    if steps.len() == 0 {
        assert(buffer + pushed(steps) =~= buffer);
        assert(frames.skip(0) =~= frames);
        assert(frames.take(0) =~= Seq::empty());
    } else {
        let later = steps.skip(1);
        match steps[0] {
            StreamStep::Push(bytes) => {
                assert(buffer + bytes + pushed(later) =~= buffer + pushed(steps));
                lemma_stream_run(frames, buffer + bytes, later, ahead);
            },
            StreamStep::Next => {
                let to_come = pushed(later) + ahead;
                assert(buffer + pushed(steps) + ahead =~= buffer + to_come);
                law_stream_front(frames, buffer, to_come);
                let (outcome, taken) = next_in_stream(buffer);
                let left = buffer.skip(taken as int);
                let (more, rest) = stream_run(left, later);
                if outcome == Ok::<Option<FrameView>, ProtocolError>(None) {
                    assert(left =~= buffer);
                    lemma_stream_run(frames, left, later, ahead);
                    lemma_waited(frames, more, rest, ahead);
                } else {
                    lemma_front_taken(frames, buffer, pushed(later), ahead);
                    lemma_stream_run(frames.skip(1), left, later, ahead);
                    lemma_delivered(frames, more, rest, ahead);
                }
            },
        }
    }
}

/// Once the first frame is taken out, the bytes of the others are left.
#[verifier::spinoff_prover]
proof fn lemma_front_taken(
    frames: Seq<FrameView>,
    buffer: Seq<u8>,
    to_come: Seq<u8>,
    ahead: Seq<u8>,
)
    requires
        forall|i: int| 0 <= i < frames.len() ==> encodable(#[trigger] frames[i]),
        frames.len() > 0,
        frame_bytes(frames[0]).len() <= buffer.len(),
        buffer + (to_come + ahead) == joined_frames(frames),
    ensures
        buffer.skip(frame_bytes(frames[0]).len() as int) + to_come + ahead == joined_frames(
            frames.skip(1),
        ),
        forall|i: int| 0 <= i < frames.skip(1).len() ==> encodable(#[trigger] frames.skip(1)[i]),
{
    let others = frames.skip(1);
    let first = frame_bytes(frames[0]);
    assert(buffer.skip(first.len() as int) + to_come + ahead =~= (buffer + (to_come + ahead)).skip(
        first.len() as int,
    ));
    assert((first + joined_frames(others)).skip(first.len() as int) =~= joined_frames(others));
    assert forall|i: int| 0 <= i < others.len() implies encodable(#[trigger] others[i]) by {
        assert(others[i] == frames[i + 1]);
    }
}

/// Frames that arrive one behind the other, cut into pieces anywhere and asked for at any
/// time, are delivered exactly, in order and without a fault. Here `ahead` has not arrived
/// yet. What is left are the bytes behind the frames delivered, the next request is answered
/// with the next frame exactly where that is complete, and once everything has arrived and
/// nothing more is delivered, every frame was, and no byte is left.
#[verifier::spinoff_prover]
pub proof fn law_stream_run(
    frames: Seq<FrameView>,
    buffer: Seq<u8>,
    steps: Seq<StreamStep>,
    ahead: Seq<u8>,
)
    requires
        forall|i: int| 0 <= i < frames.len() ==> encodable(#[trigger] frames[i]),
        buffer + pushed(steps) + ahead == joined_frames(frames),
    ensures
        ({
            let (outcomes, rest) = stream_run(buffer, steps);
            let n = delivered(outcomes).len();
            &&& forall|i: int| 0 <= i < outcomes.len() ==> (#[trigger] outcomes[i]) is Ok
            &&& n <= frames.len()
            &&& delivered(outcomes) == frames.take(n as int)
            &&& rest + ahead == joined_frames(frames.skip(n as int))
            &&& next_in_stream(rest).0 == Ok::<Option<FrameView>, ProtocolError>(
                if n < frames.len() && frame_bytes(frames[n as int]).len() <= rest.len() {
                    Some(frames[n as int])
                } else {
                    None
                },
            )
            &&& ahead.len() == 0 && next_in_stream(rest).0 == Ok::<
                Option<FrameView>,
                ProtocolError,
            >(None) ==> n == frames.len() && rest.len() == 0
        }),
{
    lemma_stream_run(frames, buffer, steps, ahead);
    let (outcomes, rest) = stream_run(buffer, steps);
    let n = delivered(outcomes).len();
    let others = frames.skip(n as int);
    assert forall|i: int| 0 <= i < others.len() implies encodable(#[trigger] others[i]) by {
        assert(others[i] == frames[i + n]);
    }
    law_stream_front(others, rest, ahead);
    if ahead.len() == 0 {
        assert(rest + ahead =~= rest);
        if others.len() > 0 {
            assert(rest.len() == frame_bytes(others[0]).len() + joined_frames(others.skip(1)).len());
        }
    }
}

/// Incremental decoder for a byte stream from the private device interface.
#[derive(Debug)]
pub struct FrameDecoder {
    buffer: Vec<u8>,
}

impl View for FrameDecoder {
    type V = Seq<u8>;

    closed spec fn view(&self) -> Seq<u8> {
        self.buffer@
    }
}

impl Default for FrameDecoder {
    /// A decoder that has received nothing.
    fn default() -> (r: Self)
        ensures
            r@ == Seq::<u8>::empty(),
    {
        FrameDecoder { buffer: Vec::new() }
    }
}

impl FrameDecoder {
    /// Add bytes received from the device.
    pub fn push(&mut self, bytes: &[u8])
        ensures
            final(self)@ == old(self)@ + bytes@,
    {
        self.buffer.extend_from_slice(bytes);
        proof {
            assert(self@ =~= old(self)@ + bytes@);
        }
    }

    /// Decode the next complete frame when it is available.
    ///
    /// # Errors
    ///
    /// Returns an error when the buffered header or frame is invalid.
    pub fn next_frame(&mut self) -> (r: Result<Option<Frame>, ProtocolError>)
        ensures
            ({
                let (outcome, taken) = next_in_stream(old(self)@);
                &&& final(self)@ == old(self)@.skip(taken as int)
                &&& match r {
                    Ok(Some(frame)) => outcome == Ok::<Option<FrameView>, ProtocolError>(
                        Some(frame@),
                    ) && frame.fields.wf(),
                    Ok(None) => outcome == Ok::<Option<FrameView>, ProtocolError>(None),
                    Err(e) => outcome == Err::<Option<FrameView>, ProtocolError>(e),
                }
            }),
    {
        proof {
            assert(self@.skip(0) =~= self@);
        }
        if self.buffer.len() < HEADER_LEN {
            return Ok(None);
        }
        let total: usize = match announced(self.buffer.as_slice()) {
            Ok(total) => total,
            Err(e) => return Err(e),
        };
        if self.buffer.len() < total {
            return Ok(None);
        }
        let mut bytes = self.buffer.split_off(total);
        std::mem::swap(&mut self.buffer, &mut bytes);
        proof {
            assert(bytes@ =~= old(self)@.take(total as int));
            assert(self@ =~= old(self)@.skip(total as int));
        }
        match Frame::decode(bytes.as_slice()) {
            Ok(frame) => Ok(Some(frame)),
            Err(e) => Err(e),
        }
    }

    /// Return the number of bytes that wait for a complete frame.
    #[must_use]
    pub fn buffered_len(&self) -> (r: usize)
        ensures
            r == self@.len(),
    {
        self.buffer.len()
    }
}

} // verus!
