//! The bridge between CatHub endpoint sessions and the private driver transport: the
//! handshake, what the writer does with a command, and what the session does with an event.

use vstd::prelude::*;

use crate::daemon::credit_released;
use crate::daemon::data_sent;
use crate::daemon::detach_request;
use crate::daemon::event_views;
use crate::daemon::health_request;
use crate::daemon::plain_frame;
use crate::daemon::DaemonEvent;
use crate::daemon::DaemonProtocol;
use crate::daemon::DaemonProtocolError;
use crate::daemon::DaemonState;
use crate::daemon::EndpointDescriptor;
use crate::daemon::EventView;
use crate::daemon::SerialConfiguration;
use crate::protocol::frame::frame_bytes;
use crate::protocol::MessageKind;
use crate::radio::framer::byte_seqs;
use crate::text::decimal;
use crate::text::push_decimal;
use crate::text::same_text;

verus! {

/// How many bytes the bridge to a session holds.
pub const BRIDGE_CAPACITY: usize = 65_536;

/// How many commands and events wait at most.
pub const MESSAGE_CAPACITY: usize = 128;

/// The request id of the first health request.
pub const FIRST_HEALTH_REQUEST: u64 = 10;

/// Why an endpoint cannot be used.
#[derive(Debug, Clone, PartialEq, Eq)]
pub enum ManagedError {
    /// There is no such endpoint.
    NotFound(String),
    /// The endpoint is disabled.
    PermissionDenied(String),
    /// The endpoint or the driver does something else than expected.
    InvalidData(String),
}

/// Why an endpoint cannot be used, as a value of the model.
pub enum Refusal {
    /// There is no such endpoint.
    NotFound(Seq<char>),
    /// The endpoint is disabled.
    PermissionDenied(Seq<char>),
    /// The endpoint or the driver does something else than expected.
    InvalidData(Seq<char>),
}

impl View for ManagedError {
    type V = Refusal;

    open spec fn view(&self) -> Refusal {
        match *self {
            ManagedError::NotFound(why) => Refusal::NotFound(why@),
            ManagedError::PermissionDenied(why) => Refusal::PermissionDenied(why@),
            ManagedError::InvalidData(why) => Refusal::InvalidData(why@),
        }
    }
}

/// An endpoint as the driver described it.
pub struct Offer {
    /// Driver-scoped endpoint identifier.
    pub endpoint_id: u64,
    /// Endpoint kind.
    pub kind: u16,
    /// Stable configuration identifier.
    pub stable_id: Seq<char>,
    /// The name that is shown for it.
    pub display_name: Seq<char>,
    /// Whether the driver currently permits attachment.
    pub enabled: bool,
}

/// What is wrong with an endpoint: it is disabled, or of another kind than expected.
pub open spec fn offer_problem(offer: Offer, expected_kind: u16) -> Option<Refusal> {
    let named = "managed virtual endpoint `"@ + offer.stable_id;
    if !offer.enabled {
        Some(Refusal::PermissionDenied(named + "` is disabled"@))
    } else if offer.kind != expected_kind {
        Some(
            Refusal::InvalidData(
                named + "` has kind "@ + decimal(offer.kind as nat) + ", expected "@ + decimal(
                    expected_kind as nat,
                ),
            ),
        )
    } else {
        None
    }
}

/// The endpoint that a descriptor describes.
pub open spec fn offered(endpoint: EndpointDescriptor) -> Offer {
    Offer {
        endpoint_id: endpoint.endpoint_id,
        kind: endpoint.kind,
        stable_id: endpoint.stable_id@,
        display_name: endpoint.display_name@,
        enabled: endpoint.enabled,
    }
}

/// Check an endpoint before it is attached to.
///
/// # Errors
///
/// Returns an error if it is disabled or of another kind than expected.
pub fn validate_endpoint(endpoint: &EndpointDescriptor, expected_kind: u16) -> (r: Result<
    (),
    ManagedError,
>)
    ensures
        match r {
            Ok(()) => offer_problem(offered(*endpoint), expected_kind) is None,
            Err(e) => offer_problem(offered(*endpoint), expected_kind) == Some(e@),
        },
{
    let mut why = "managed virtual endpoint `".to_owned();
    why.append(endpoint.stable_id.as_str());
    if !endpoint.enabled {
        why.append("` is disabled");
        return Err(ManagedError::PermissionDenied(why));
    }
    if endpoint.kind != expected_kind {
        why.append("` has kind ");
        push_decimal(&mut why, endpoint.kind as u64);
        why.append(", expected ");
        push_decimal(&mut why, expected_kind as u64);
        return Err(ManagedError::InvalidData(why));
    }
    Ok(())
}

/// How far the handshake has come.
#[derive(Debug, Clone, Copy, PartialEq, Eq, Structural)]
pub enum Stage {
    /// The offer is out, and the driver has to agree.
    Negotiating,
    /// The driver lists its endpoints.
    Discovering,
    /// The driver has to confirm the attachment.
    Attaching,
    /// The endpoint is attached.
    Attached,
}

/// What the handshake does next.
#[derive(Debug, PartialEq, Eq)]
pub enum HandshakeStep {
    /// Read on.
    Read,
    /// Write the frame, then read on.
    Write(Vec<u8>),
    /// The endpoint is attached.
    Done,
}

/// What the handshake does next, as a value of the model.
pub enum HandshakeTurn {
    /// Read on.
    Read,
    /// Write the frame.
    Write(Seq<u8>),
    /// The endpoint is attached.
    Done,
}

impl View for HandshakeStep {
    type V = HandshakeTurn;

    open spec fn view(&self) -> HandshakeTurn {
        match *self {
            HandshakeStep::Read => HandshakeTurn::Read,
            HandshakeStep::Write(frame) => HandshakeTurn::Write(frame@),
            HandshakeStep::Done => HandshakeTurn::Done,
        }
    }
}

/// The handshake that leads to an attached endpoint.
#[derive(Debug)]
pub struct Handshake {
    stable_id: String,
    expected_kind: u16,
    stage: Stage,
    found: Option<EndpointDescriptor>,
}

/// The handshake, as a value of the model.
pub struct HandshakeState {
    /// The endpoint that is looked for.
    pub stable_id: Seq<char>,
    /// The kind it has to have.
    pub expected_kind: u16,
    /// How far it has come.
    pub stage: Stage,
    /// The endpoint, once the driver has listed it.
    pub found: Option<Offer>,
}

impl View for Handshake {
    type V = HandshakeState;

    closed spec fn view(&self) -> HandshakeState {
        HandshakeState {
            stable_id: self.stable_id@,
            expected_kind: self.expected_kind,
            stage: self.stage,
            found: match self.found {
                Some(endpoint) => Some(offered(endpoint)),
                None => None,
            },
        }
    }
}

/// The first listed endpoint with a name.
pub open spec fn first_offer(events: Seq<EventView>, stable_id: Seq<char>) -> Option<Offer>
    decreases events.len(),
{
    if events.len() == 0 {
        None
    } else {
        match first_offer(events.drop_last(), stable_id) {
            Some(offer) => Some(offer),
            None => match events.last() {
                EventView::Endpoint {
                    endpoint_id,
                    kind,
                    stable_id: id,
                    display_name,
                    enabled,
                } => if id == stable_id {
                    Some(Offer { endpoint_id, kind, stable_id: id, display_name, enabled })
                } else {
                    None
                },
                _ => None,
            },
        }
    }
}

/// Whether the version is agreed.
pub open spec fn is_negotiated(events: Seq<EventView>) -> bool {
    exists|i: int| 0 <= i < events.len() && (#[trigger] events[i]) is Negotiated
}

/// Whether all endpoints are listed.
pub open spec fn is_discovered(events: Seq<EventView>) -> bool {
    exists|i: int| 0 <= i < events.len() && (#[trigger] events[i]) is DiscoveryComplete
}

/// Whether the attachment is confirmed.
pub open spec fn is_attached(events: Seq<EventView>) -> bool {
    exists|i: int| 0 <= i < events.len() && (#[trigger] events[i]) is Attached
}

/// A failure of the private protocol.
pub open spec fn protocol_failure(e: DaemonProtocolError) -> Refusal {
    Refusal::InvalidData(e.text())
}

/// What the handshake does with the events of one read. An endpoint that is listed before the
/// version is agreed does not count.
pub open spec fn shaken(h: HandshakeState, st: DaemonState, events: Seq<EventView>) -> (
    Result<HandshakeTurn, Refusal>,
    HandshakeState,
) {
    match h.stage {
        Stage::Negotiating => if !is_negotiated(events) {
            (Ok(HandshakeTurn::Read), h)
        } else if !st.negotiated {
            (Err(protocol_failure(DaemonProtocolError::Version)), h)
        } else {
            (
                Ok(
                    HandshakeTurn::Write(
                        frame_bytes(plain_frame(MessageKind::Discover, 0, 2, Map::empty())),
                    ),
                ),
                HandshakeState { stage: Stage::Discovering, ..h },
            )
        },
        Stage::Discovering => {
            let found = match h.found {
                Some(offer) => Some(offer),
                None => first_offer(events, h.stable_id),
            };
            let looked = HandshakeState { found, ..h };
            if !is_discovered(events) {
                (Ok(HandshakeTurn::Read), looked)
            } else {
                match found {
                    None => (
                        Err(
                            Refusal::NotFound(
                                "managed virtual endpoint `"@ + h.stable_id + "` was not found"@,
                            ),
                        ),
                        looked,
                    ),
                    Some(offer) => match offer_problem(offer, h.expected_kind) {
                        Some(why) => (Err(why), looked),
                        None => if !st.negotiated {
                            (Err(protocol_failure(DaemonProtocolError::Version)), looked)
                        } else {
                            (
                                Ok(
                                    HandshakeTurn::Write(
                                        frame_bytes(
                                            plain_frame(
                                                MessageKind::Attach,
                                                offer.endpoint_id,
                                                3,
                                                crate::daemon::attach_fields(),
                                            ),
                                        ),
                                    ),
                                ),
                                HandshakeState { stage: Stage::Attaching, ..looked },
                            )
                        },
                    },
                }
            }
        },
        Stage::Attaching => if is_attached(events) {
            (Ok(HandshakeTurn::Done), HandshakeState { stage: Stage::Attached, ..h })
        } else {
            (Ok(HandshakeTurn::Read), h)
        },
        Stage::Attached => (Ok(HandshakeTurn::Done), h),
    }
}

fn copy_descriptor(endpoint: &EndpointDescriptor) -> (r: EndpointDescriptor)
    ensures
        offered(r) == offered(*endpoint),
{
    EndpointDescriptor {
        endpoint_id: endpoint.endpoint_id,
        kind: endpoint.kind,
        stable_id: endpoint.stable_id.clone(),
        display_name: endpoint.display_name.clone(),
        enabled: endpoint.enabled,
    }
}

fn find_offer(events: &Vec<DaemonEvent>, stable_id: &str) -> (r: Option<EndpointDescriptor>)
    ensures
        match r {
            Some(endpoint) => first_offer(event_views(events@), stable_id@) == Some(
                offered(endpoint),
            ),
            None => first_offer(event_views(events@), stable_id@) is None,
        },
{
    let ghost all = event_views(events@);
    let mut i: usize = 0;
    while i < events.len()
        invariant
            i <= events@.len(),
            all == event_views(events@),
            first_offer(all.take(i as int), stable_id@) is None,
        decreases events@.len() - i,
    {
        proof {
            assert(all.take(i + 1).drop_last() =~= all.take(i as int));
            assert(all.take(i + 1).last() == events@[i as int]@);
        }
        if let DaemonEvent::Endpoint(endpoint) = &events[i] {
            if same_text(endpoint.stable_id.as_str(), stable_id) {
                proof {
                    lemma_first_offer_stays(all, i + 1, stable_id@);
                }
                return Some(copy_descriptor(endpoint));
            }
        }
        i = i + 1;
    }
    proof {
        assert(all.take(i as int) =~= all);
    }
    None
}

proof fn lemma_first_offer_stays(events: Seq<EventView>, n: int, stable_id: Seq<char>)
    requires
        0 <= n <= events.len(),
        first_offer(events.take(n), stable_id) is Some,
    ensures
        first_offer(events, stable_id) == first_offer(events.take(n), stable_id),
    decreases events.len() - n,
{
    if n < events.len() {
        assert(events.take(n + 1).drop_last() =~= events.take(n));
        lemma_first_offer_stays(events, n + 1, stable_id);
    } else {
        assert(events.take(n) =~= events);
    }
}

fn finishes(events: &Vec<DaemonEvent>, stage: Stage) -> (r: bool)
    ensures
        r == match stage {
            Stage::Negotiating => is_negotiated(event_views(events@)),
            Stage::Discovering => is_discovered(event_views(events@)),
            Stage::Attaching => is_attached(event_views(events@)),
            Stage::Attached => false,
        },
{
    let ghost all = event_views(events@);
    let mut i: usize = 0;
    while i < events.len()
        invariant
            i <= events@.len(),
            all == event_views(events@),
            forall|j: int|
                0 <= j < i ==> match stage {
                    Stage::Negotiating => (#[trigger] all[j]) !is Negotiated,
                    Stage::Discovering => all[j] !is DiscoveryComplete,
                    Stage::Attaching => all[j] !is Attached,
                    Stage::Attached => true,
                },
        decreases events@.len() - i,
    {
        proof {
            assert(all[i as int] == events@[i as int]@);
        }
        let hit: bool = match (&events[i], stage) {
            (DaemonEvent::Negotiated, Stage::Negotiating) => true,
            (DaemonEvent::DiscoveryComplete, Stage::Discovering) => true,
            (DaemonEvent::Attached { .. }, Stage::Attaching) => true,
            _ => false,
        };
        if hit {
            return true;
        }
        i = i + 1;
    }
    false
}

fn refused(e: DaemonProtocolError) -> (r: ManagedError)
    ensures
        r@ == protocol_failure(e),
{
    ManagedError::InvalidData(e.message())
}

impl Handshake {
    /// Start the handshake for an endpoint. The hello frame is written first.
    #[must_use]
    pub fn new(stable_id: &str, expected_kind: u16) -> (r: Self)
        ensures
            r@ == (HandshakeState {
                stable_id: stable_id@,
                expected_kind,
                stage: Stage::Negotiating,
                found: None,
            }),
    {
        Handshake {
            stable_id: stable_id.to_owned(),
            expected_kind,
            stage: Stage::Negotiating,
            found: None,
        }
    }

    /// Go on with the events of one read.
    ///
    /// # Errors
    ///
    /// Returns an error if the endpoint is missing, disabled or of another kind, or if the
    /// protocol refuses the next request.
    pub fn advance(&mut self, protocol: &DaemonProtocol, events: &Vec<DaemonEvent>) -> (r: Result<
        HandshakeStep,
        ManagedError,
    >)
        requires
            protocol@.wf(),
        ensures
            ({
                let (outcome, next) = shaken(old(self)@, protocol@, event_views(events@));
                &&& final(self)@ == next
                &&& match r {
                    Ok(step) => outcome == Ok::<HandshakeTurn, Refusal>(step@),
                    Err(e) => outcome == Err::<HandshakeTurn, Refusal>(e@),
                }
            }),
    {
        match self.stage {
            Stage::Negotiating => {
                if !finishes(events, Stage::Negotiating) {
                    return Ok(HandshakeStep::Read);
                }
                match protocol.discover(2) {
                    Ok(frame) => {
                        self.stage = Stage::Discovering;
                        Ok(HandshakeStep::Write(frame))
                    },
                    Err(e) => Err(refused(e)),
                }
            },
            Stage::Discovering => {
                if self.found.is_none() {
                    self.found = find_offer(events, self.stable_id.as_str());
                }
                if !finishes(events, Stage::Discovering) {
                    return Ok(HandshakeStep::Read);
                }
                let endpoint = match &self.found {
                    Some(endpoint) => endpoint,
                    None => {
                        let mut why = "managed virtual endpoint `".to_owned();
                        why.append(self.stable_id.as_str());
                        why.append("` was not found");
                        return Err(ManagedError::NotFound(why));
                    },
                };
                if let Err(e) = validate_endpoint(endpoint, self.expected_kind) {
                    return Err(e);
                }
                match protocol.attach(endpoint.endpoint_id, 3) {
                    Ok(frame) => {
                        self.stage = Stage::Attaching;
                        Ok(HandshakeStep::Write(frame))
                    },
                    Err(e) => Err(refused(e)),
                }
            },
            Stage::Attaching => {
                if finishes(events, Stage::Attaching) {
                    self.stage = Stage::Attached;
                    Ok(HandshakeStep::Done)
                } else {
                    Ok(HandshakeStep::Read)
                }
            },
            Stage::Attached => Ok(HandshakeStep::Done),
        }
    }
}

/// What a session is told.
#[derive(Debug, PartialEq, Eq)]
pub enum BridgeEvent {
    /// Bytes from the application.
    Data(Vec<u8>),
    /// The application opened its port.
    ApplicationOpen(u64),
    /// The application closed its port.
    ApplicationClose(u64),
    /// The application changed its serial settings.
    SerialConfiguration(SerialConfiguration),
    /// The application changed its modem lines.
    ModemControl(u32),
    /// The transport closed.
    Closed,
    /// The transport failed.
    Failed(String),
}

/// Keep what a session is told of an event of the driver.
#[must_use]
pub fn translate_event(event: DaemonEvent) -> (r: Option<BridgeEvent>)
    ensures
        match event {
            DaemonEvent::Data(bytes) => r matches Some(BridgeEvent::Data(same)) && same == bytes,
            DaemonEvent::ApplicationOpen(sequence) => r == Some(
                BridgeEvent::ApplicationOpen(sequence),
            ),
            DaemonEvent::ApplicationClose(sequence) => r == Some(
                BridgeEvent::ApplicationClose(sequence),
            ),
            DaemonEvent::SerialConfiguration(config) => r == Some(
                BridgeEvent::SerialConfiguration(config),
            ),
            DaemonEvent::ModemControl(lines) => r == Some(BridgeEvent::ModemControl(lines)),
            _ => r is None,
        },
{
    match event {
        DaemonEvent::Data(bytes) => Some(BridgeEvent::Data(bytes)),
        DaemonEvent::ApplicationOpen(sequence) => Some(BridgeEvent::ApplicationOpen(sequence)),
        DaemonEvent::ApplicationClose(sequence) => Some(BridgeEvent::ApplicationClose(sequence)),
        DaemonEvent::SerialConfiguration(config) => Some(
            BridgeEvent::SerialConfiguration(config),
        ),
        DaemonEvent::ModemControl(lines) => Some(BridgeEvent::ModemControl(lines)),
        _ => None,
    }
}

/// What the bridge does with an event.
#[derive(Debug, Clone, Copy, PartialEq, Eq, Structural)]
pub enum BridgeAction {
    /// Hand the bytes to the session, then give the credit for that many back.
    Forward(usize),
    /// Nothing but a note.
    Note,
    /// End the session.
    End,
}

/// What the bridge does with an event: bytes are handed on, and a session ends with its
/// application or its transport.
#[must_use]
pub fn bridge_action(event: &BridgeEvent) -> (r: BridgeAction)
    ensures
        r == match *event {
            BridgeEvent::Data(bytes) => BridgeAction::Forward(bytes@.len() as usize),
            BridgeEvent::ApplicationOpen(_) => BridgeAction::Note,
            BridgeEvent::SerialConfiguration(_) => BridgeAction::Note,
            BridgeEvent::ModemControl(_) => BridgeAction::Note,
            BridgeEvent::ApplicationClose(_) => BridgeAction::End,
            BridgeEvent::Closed => BridgeAction::End,
            BridgeEvent::Failed(_) => BridgeAction::End,
        },
{
    match event {
        BridgeEvent::Data(bytes) => BridgeAction::Forward(bytes.len()),
        BridgeEvent::ApplicationOpen(_) => BridgeAction::Note,
        BridgeEvent::SerialConfiguration(_) => BridgeAction::Note,
        BridgeEvent::ModemControl(_) => BridgeAction::Note,
        BridgeEvent::ApplicationClose(_) => BridgeAction::End,
        BridgeEvent::Closed => BridgeAction::End,
        BridgeEvent::Failed(_) => BridgeAction::End,
    }
}

/// What the writer is asked to do.
#[derive(Debug, PartialEq, Eq)]
pub enum WriterCommand {
    /// Send bytes to the application.
    Data(Vec<u8>),
    /// Give the credit for that many bytes back.
    Release(usize),
    /// Ask for the driver's health.
    Health,
    /// Detach and stop.
    Shutdown,
}

/// What the writer does.
#[derive(Debug, PartialEq, Eq)]
pub struct WriterStep {
    /// The frames to write, in order.
    pub frames: Vec<Vec<u8>>,
    /// Whether the writer goes on.
    pub running: bool,
}

/// What the writer does, as a value of the model.
pub struct Written {
    /// The frames to write, in order.
    pub frames: Seq<Seq<u8>>,
    /// Whether the writer goes on.
    pub running: bool,
    /// The state of the protocol after it.
    pub state: DaemonState,
    /// The id of the next health request.
    pub request_id: u64,
}

/// One frame, or the end of the writer.
pub open spec fn one_frame(frame: Result<Seq<u8>, DaemonProtocolError>) -> Seq<Seq<u8>> {
    match frame {
        Ok(bytes) => seq![bytes],
        Err(_) => Seq::empty(),
    }
}

/// The id of the request after `id`.
pub open spec fn next_request(id: u64) -> u64 {
    if id == u64::MAX {
        0
    } else {
        (id + 1) as u64
    }
}

/// What the writer does with a command. It stops where the protocol refuses a request, and
/// after a shutdown, which detaches first.
pub open spec fn written(command: WriterCommand, st: DaemonState, request_id: u64) -> Written {
    match command {
        WriterCommand::Data(bytes) => {
            let (frame, next) = data_sent(st, bytes@);
            Written { frames: one_frame(frame), running: frame is Ok, state: next, request_id }
        },
        WriterCommand::Release(count) => {
            let (frame, next) = credit_released(st, count as nat);
            Written {
                frames: match frame {
                    Ok(Some(bytes)) => seq![bytes],
                    _ => Seq::empty(),
                },
                running: frame is Ok,
                state: next,
                request_id,
            }
        },
        WriterCommand::Health => {
            let frame = health_request(st, request_id);
            Written {
                frames: one_frame(frame),
                running: frame is Ok,
                state: st,
                request_id: next_request(request_id),
            }
        },
        WriterCommand::Shutdown => Written {
            frames: (match detach_request(st, 0) {
                Some(bytes) => seq![bytes],
                None => Seq::empty(),
            }) + one_frame(health_request(st, request_id)),
            running: false,
            state: st,
            request_id: next_request(request_id),
        },
    }
}

/// What the writer does with a command.
pub fn write_command(protocol: &mut DaemonProtocol, command: WriterCommand, request_id: &mut u64) -> (r:
    WriterStep)
    requires
        old(protocol)@.wf(),
    ensures
        final(protocol)@.wf(),
        ({
            let done = written(command, old(protocol)@, *old(request_id));
            &&& byte_seqs(r.frames@) == done.frames
            &&& r.running == done.running
            &&& final(protocol)@ == done.state
            &&& *final(request_id) == done.request_id
        }),
{
    let mut frames: Vec<Vec<u8>> = Vec::new();
    let mut running: bool = true;
    let ghost mut said: Seq<Seq<u8>> = Seq::empty();
    match command {
        WriterCommand::Data(bytes) => match protocol.data(bytes.as_slice()) {
            Ok(frame) => {
                proof {
                    said = seq![frame@];
                }
                frames.push(frame);
            },
            Err(_) => {
                running = false;
            },
        },
        WriterCommand::Release(count) => match protocol.release_received(count) {
            Ok(Some(frame)) => {
                proof {
                    said = seq![frame@];
                }
                frames.push(frame);
            },
            Ok(None) => {},
            Err(_) => {
                running = false;
            },
        },
        WriterCommand::Health => {
            let id: u64 = *request_id;
            *request_id = id.wrapping_add(1);
            match protocol.health(id) {
                Ok(frame) => {
                    proof {
                        said = seq![frame@];
                    }
                    frames.push(frame);
                },
                Err(_) => {
                    running = false;
                },
            }
        },
        WriterCommand::Shutdown => {
            running = false;
            if let Ok(Some(frame)) = protocol.detach(0) {
                proof {
                    said = seq![frame@];
                }
                frames.push(frame);
            }
            let id: u64 = *request_id;
            *request_id = id.wrapping_add(1);
            if let Ok(frame) = protocol.health(id) {
                proof {
                    said = said + seq![frame@];
                }
                frames.push(frame);
            }
        },
    }
    proof {
        assert(byte_seqs(frames@) =~= said);
        assert(said =~= written(command, old(protocol)@, *old(request_id)).frames);
    }
    WriterStep { frames, running }
}

/// The handshake only ever attaches to the endpoint it looks for, and only if that is enabled
/// and of the expected kind.
pub proof fn law_attaches_to_the_right_endpoint(
    h: HandshakeState,
    st: DaemonState,
    events: Seq<EventView>,
)
    requires
        h.found matches Some(offer) ==> offer.stable_id == h.stable_id,
    ensures
        ({
            let (outcome, next) = shaken(h, st, events);
            &&& next.found matches Some(offer) ==> offer.stable_id == h.stable_id
            &&& next.stable_id == h.stable_id
            &&& h.stage == Stage::Discovering && next.stage == Stage::Attaching
                ==> (next.found matches Some(offer) && offer.enabled && offer.kind
                == h.expected_kind && st.negotiated)
        }),
{
    lemma_first_offer_is_named(events, h.stable_id);
}

proof fn lemma_first_offer_is_named(events: Seq<EventView>, stable_id: Seq<char>)
    ensures
        first_offer(events, stable_id) matches Some(offer) ==> offer.stable_id == stable_id,
    decreases events.len(),
{
    if events.len() > 0 {
        lemma_first_offer_is_named(events.drop_last(), stable_id);
    }
}

/// A shutdown always stops the writer, and detaches first where an endpoint is attached.
pub proof fn law_shutdown_detaches(st: DaemonState, request_id: u64)
    ensures
        ({
            let done = written(WriterCommand::Shutdown, st, request_id);
            &&& !done.running
            &&& detach_request(st, 0) matches Some(bytes) ==> done.frames.len() > 0
                && done.frames[0] == bytes
        }),
{
}

/// The handshake asks in turn: once the driver has agreed it asks for the endpoints, once it has
/// named them all it attaches to the one that is wanted, and once that is attached it is done.
/// Until then it reads on.
pub proof fn law_handshake_asks_in_turn(
    h: HandshakeState,
    st: DaemonState,
    events: Seq<EventView>,
    endpoint_id: u64,
    kind: u16,
    display_name: Seq<char>,
)
    requires
        st.negotiated,
    ensures
        h.stage == Stage::Negotiating ==> {
            let (asked, later) = shaken(h, st, seq![EventView::Negotiated]);
            &&& asked == Ok::<HandshakeTurn, Refusal>(
                HandshakeTurn::Write(
                    frame_bytes(plain_frame(MessageKind::Discover, 0, 2, Map::empty())),
                ),
            )
            &&& later.stage == Stage::Discovering
            &&& shaken(h, st, Seq::empty()) == (Ok::<HandshakeTurn, Refusal>(HandshakeTurn::Read), h)
        },
        h.stage == Stage::Discovering && h.found is None && h.expected_kind == kind ==> {
            let offer = EventView::Endpoint {
                endpoint_id,
                kind,
                stable_id: h.stable_id,
                display_name,
                enabled: true,
            };
            let (asked, later) = shaken(h, st, seq![offer, EventView::DiscoveryComplete]);
            let (missing, _) = shaken(h, st, seq![EventView::DiscoveryComplete]);
            &&& asked == Ok::<HandshakeTurn, Refusal>(
                HandshakeTurn::Write(
                    frame_bytes(
                        plain_frame(
                            MessageKind::Attach,
                            endpoint_id,
                            3,
                            crate::daemon::attach_fields(),
                        ),
                    ),
                ),
            )
            &&& later.stage == Stage::Attaching
            &&& missing == Err::<HandshakeTurn, Refusal>(
                Refusal::NotFound(
                    "managed virtual endpoint `"@ + h.stable_id + "` was not found"@,
                ),
            )
        },
        h.stage == Stage::Attaching ==> {
            let (done, later) = shaken(
                h,
                st,
                seq![EventView::Attached { endpoint_id, session_id: 0 }],
            );
            &&& done == Ok::<HandshakeTurn, Refusal>(HandshakeTurn::Done)
            &&& later.stage == Stage::Attached
            &&& shaken(h, st, Seq::empty()) == (Ok::<HandshakeTurn, Refusal>(HandshakeTurn::Read), h)
        },
        h.stage == Stage::Attached ==> shaken(h, st, events) == (
            Ok::<HandshakeTurn, Refusal>(HandshakeTurn::Done),
            h,
        ),
{
    let agreed = seq![EventView::Negotiated];
    assert(agreed[0] is Negotiated);
    let offer = EventView::Endpoint {
        endpoint_id,
        kind,
        stable_id: h.stable_id,
        display_name,
        enabled: true,
    };
    let found = seq![offer, EventView::DiscoveryComplete];
    assert(found[1] is DiscoveryComplete);
    assert(found.drop_last() =~= seq![offer]);
    assert(seq![offer].drop_last() =~= Seq::empty());
    reveal_with_fuel(first_offer, 3);
    let end = seq![EventView::DiscoveryComplete];
    assert(end[0] is DiscoveryComplete);
    assert(end.drop_last() =~= Seq::empty());
    let attached = seq![EventView::Attached { endpoint_id, session_id: 0 }];
    assert(attached[0] is Attached);
}

/// An endpoint can be used exactly when it is enabled and of the kind that is expected.
pub proof fn law_offers(offer: Offer, expected_kind: u16)
    ensures
        offer_problem(offer, expected_kind) is None <==> offer.enabled && offer.kind
            == expected_kind,
        !offer.enabled ==> offer_problem(offer, expected_kind) == Some(
            Refusal::PermissionDenied(
                "managed virtual endpoint `"@ + offer.stable_id + "` is disabled"@,
            ),
        ),
        offer.enabled && offer.kind != expected_kind ==> offer_problem(offer, expected_kind)
            is Some && offer_problem(offer, expected_kind)->Some_0 is InvalidData,
{
}

/// The writer sends what it is given as one frame and goes on as long as the link carries it.
/// Health requests are numbered one after the other; a shutdown detaches where something is
/// attached, asks for health a last time and stops.
pub proof fn law_writer(st: DaemonState, bytes: Vec<u8>, count: usize, request_id: u64)
    requires
        request_id < u64::MAX,
    ensures
        ({
            let data = written(WriterCommand::Data(bytes), st, request_id);
            let (frame, after) = data_sent(st, bytes@);
            &&& data.running == frame is Ok
            &&& data.state == after
            &&& data.request_id == request_id
            &&& frame is Ok ==> data.frames == seq![frame->Ok_0]
            &&& frame is Err ==> data.frames == Seq::<Seq<u8>>::empty()
        }),
        ({
            let release = written(WriterCommand::Release(count), st, request_id);
            &&& release.state == credit_released(st, count as nat).1
            &&& release.request_id == request_id
            &&& st.attached is Some && 0 < count <= u32::MAX ==> release.running
                && release.frames.len() == 1 && Ok::<Option<Seq<u8>>, DaemonProtocolError>(
                Some(release.frames[0]),
            ) == credit_released(st, count as nat).0
            &&& st.attached is None || count == 0 ==> release.running && release.frames
                == Seq::<Seq<u8>>::empty()
        }),
        st.negotiated ==> ({
            let health = written(WriterCommand::Health, st, request_id);
            let last = written(WriterCommand::Shutdown, st, request_id);
            let asked = frame_bytes(
                plain_frame(MessageKind::Health, 0, request_id, Map::empty()),
            );
            &&& health.running && health.frames == seq![asked] && health.state == st
            &&& health.request_id == request_id + 1
            &&& !last.running
            &&& last.frames == if st.attached is Some {
                seq![detach_request(st, 0)->Some_0, asked]
            } else {
                seq![asked]
            }
        }),
        !st.negotiated ==> !written(WriterCommand::Health, st, request_id).running,
{
    if st.negotiated {
        let asked = frame_bytes(plain_frame(MessageKind::Health, 0, request_id, Map::empty()));
        let last = written(WriterCommand::Shutdown, st, request_id);
        if st.attached is Some {
            assert(last.frames =~= seq![detach_request(st, 0)->Some_0, asked]);
        } else {
            assert(last.frames =~= seq![asked]);
        }
    }
}

} // verus!
