//! Running one operation on a backend.
//!
//! An operation alternates between the wire and decisions. [`Backend::start`] and
//! [`Backend::resume`] take the decisions: each returns the next command for the transport or
//! the result of the operation.

use vstd::prelude::*;

use crate::ascii::ascii;
use crate::backend::BackendCapabilities;
use crate::backend::NativeCommandFamily;
use crate::backend::TrustTier;
use crate::backend::kenwood::ts590::Ts590Backend;
use crate::backend::kenwood::ts590;
use crate::backend::loopback::LoopbackBackend;
use crate::backend::loopback::LoopbackLog;
use crate::backend::rigctld::RigctldBackend;
use crate::backend::rigctld;
use crate::error::BackendError;
use crate::error::Failure;
use crate::kenwood::parts;
use crate::model::PttSource;
use crate::model::RadioEventSource;
use crate::model::StateChange;
use crate::model::StateMutation;
use crate::radio::scheduler::OpKind;
use crate::radio::transport::Expect;
use crate::radio::transport::ExpectView;
use crate::state::RadioEvent;
use crate::state::RadioState;
use crate::state::Snapshot;
use crate::state::StateHandle;
use crate::state::announced;
use crate::state::recorded_all;
use crate::text::signed_decimal;

verus! {

/// A radio backend.
#[derive(Debug)]
pub enum Backend {
    /// The native TS-590 backend.
    Ts590(Ts590Backend),
    /// The `rigctld` bridge.
    Rigctld(RigctldBackend),
    /// The in-memory radio.
    Loopback(LoopbackBackend),
}

/// How far an operation has come while the transport works for it.
#[derive(Debug, Clone, Copy, PartialEq, Eq, Structural)]
pub enum Running {
    /// A step of the baseline poll.
    Poll {
        /// The number of the step.
        index: usize,
    },
    /// The write of a mutation.
    Apply {
        /// The mutation.
        mutation: StateMutation,
    },
    /// A raw native command.
    Passthrough,
}

/// What an operation does next.
#[derive(Debug, PartialEq, Eq)]
pub enum OpStep {
    /// Write a command and come back with its reply.
    Submit {
        /// The bytes of the command.
        bytes: Vec<u8>,
        /// What to expect after it.
        expect: Expect,
        /// How far the operation has come.
        running: Running,
    },
    /// The operation is over.
    Done(Result<Vec<u8>, BackendError>),
}

/// What an operation does next, as a value of the model.
pub enum NextStep {
    /// Write a command and come back with its reply.
    Submit {
        /// The bytes of the command.
        bytes: Seq<u8>,
        /// What to expect after it.
        expect: ExpectView,
        /// How far the operation has come.
        running: Running,
    },
    /// The operation is over.
    Done(Result<Seq<u8>, Failure>),
}

impl View for OpStep {
    type V = NextStep;

    open spec fn view(&self) -> NextStep {
        match *self {
            OpStep::Submit { bytes, expect, running } => NextStep::Submit {
                bytes: bytes@,
                expect: expect@,
                running,
            },
            OpStep::Done(Ok(bytes)) => NextStep::Done(Ok(bytes@)),
            OpStep::Done(Err(e)) => NextStep::Done(Err(e@)),
        }
    }
}

/// An operation's next step together with the changes that it observed on the way.
pub struct Progress {
    /// What to do next.
    pub step: NextStep,
    /// The changes that were observed, in order.
    pub changes: Seq<StateChange>,
    /// Where the changes come from.
    pub source: RadioEventSource,
}

/// The end of an operation that observed nothing more.
pub open spec fn finished(result: Result<Seq<u8>, Failure>) -> Progress {
    Progress {
        step: NextStep::Done(result),
        changes: Seq::empty(),
        source: RadioEventSource::PollDiff,
    }
}

/// A command that is written before anything is observed.
pub open spec fn submitted(bytes: Seq<u8>, expect: ExpectView, running: Running) -> Progress {
    Progress {
        step: NextStep::Submit { bytes, expect, running },
        changes: Seq::empty(),
        source: RadioEventSource::PollDiff,
    }
}

/// What is expected after a raw native command.
pub open spec fn native_expectation(raw: Seq<u8>) -> ExpectView {
    match parts(raw) {
        Some((verb, payload)) => if payload.len() == 0 {
            ExpectView::Reply(seq![verb])
        } else {
            ExpectView::NoReply
        },
        None => ExpectView::NoReply,
    }
}

/// A step of the TS-590's baseline poll, or the end of it.
pub open spec fn ts590_poll_step(index: int) -> NextStep {
    if index < ts590::POLL_COUNT {
        NextStep::Submit {
            bytes: ts590::poll_bytes(index),
            expect: ExpectView::Reply(seq![ascii(ts590::poll_verb(index))]),
            running: Running::Poll { index: index as usize },
        }
    } else {
        NextStep::Done(Ok(Seq::empty()))
    }
}

/// A step of the bridge's baseline poll, or the end of it.
pub open spec fn rigctld_poll_step(index: int) -> NextStep {
    if index < rigctld::POLL_COUNT {
        NextStep::Submit {
            bytes: ascii(
                if index == 0 {
                    "f\n"@
                } else if index == 1 {
                    "m\n"@
                } else {
                    "s\n"@
                },
            ),
            expect: ExpectView::Lines(
                if index == 0 {
                    1
                } else {
                    2
                },
            ),
            running: Running::Poll { index: index as usize },
        }
    } else {
        NextStep::Done(Ok(Seq::empty()))
    }
}

/// The first step of an operation.
pub open spec fn started(backend: Backend, kind: OpKind, state: RadioState) -> Progress {
    match backend {
        Backend::Ts590(_) => match kind {
            OpKind::Poll => Progress { step: ts590_poll_step(0), ..finished(Ok(Seq::empty())) },
            OpKind::Apply(mutation) => submitted(
                ts590::write_bytes(mutation, state.snapshot),
                ExpectView::NoReply,
                Running::Apply { mutation },
            ),
            OpKind::Passthrough(raw) => submitted(
                raw@,
                native_expectation(raw@),
                Running::Passthrough,
            ),
        },
        Backend::Rigctld(_) => match kind {
            OpKind::Poll => Progress { step: rigctld_poll_step(0), ..finished(Ok(Seq::empty())) },
            OpKind::Apply(mutation) => match rigctld::write_line(mutation, state.snapshot) {
                Some(line) => submitted(
                    ascii(line),
                    ExpectView::Lines(1),
                    Running::Apply { mutation },
                ),
                None => finished(Err(Failure::Unsupported)),
            },
            OpKind::Passthrough(raw) => finished(Err(Failure::Unsupported)),
        },
        Backend::Loopback(radio) => match kind {
            OpKind::Poll => Progress {
                changes: seq![
                    StateChange::Freq {
                        vfo: crate::model::Vfo::A,
                        hz: radio@.truth_freq_a,
                    },
                ],
                ..finished(Ok(Seq::empty()))
            },
            OpKind::Apply(mutation) => Progress {
                changes: seq![mutation.change()],
                source: RadioEventSource::OptimisticWrite,
                ..finished(Ok(Seq::empty()))
            },
            OpKind::Passthrough(raw) => finished(Ok(raw@)),
        },
    }
}

/// The step that follows a reply. A failure ends the operation.
pub open spec fn resumed(
    backend: Backend,
    running: Running,
    reply: Result<Seq<u8>, Failure>,
    state: RadioState,
) -> Progress {
    match reply {
        Err(e) => finished(Err(e)),
        Ok(bytes) => match running {
            Running::Passthrough => finished(Ok(bytes)),
            Running::Poll { index } => match backend {
                Backend::Ts590(_) => Progress {
                    step: ts590_poll_step(index + 1),
                    changes: match ts590::event_changes(bytes, state.snapshot.rx_vfo) {
                        Some(changes) => changes,
                        None => Seq::empty(),
                    },
                    source: RadioEventSource::PollDiff,
                },
                Backend::Rigctld(_) => Progress {
                    step: rigctld_poll_step(index + 1),
                    changes: rigctld::poll_changes(index as int, bytes),
                    source: RadioEventSource::PollDiff,
                },
                Backend::Loopback(_) => finished(Ok(Seq::empty())),
            },
            Running::Apply { mutation } => {
                let written = Progress {
                    changes: seq![mutation.change()],
                    source: RadioEventSource::OptimisticWrite,
                    ..finished(Ok(Seq::empty()))
                };
                match backend {
                    Backend::Rigctld(_) => match rigctld::rprt_fault(bytes) {
                        Some(e) => finished(Err(e)),
                        None => written,
                    },
                    _ => written,
                }
            },
        },
    }
}

/// A reply of the transport as a value of the model.
pub open spec fn reply_view(reply: Result<Vec<u8>, BackendError>) -> Result<Seq<u8>, Failure> {
    match reply {
        Ok(bytes) => Ok(bytes@),
        Err(e) => Err(e@),
    }
}

/// What the loopback radio has seen once an operation is started on it.
pub open spec fn loopback_after(log: LoopbackLog, kind: OpKind) -> LoopbackLog {
    match kind {
        OpKind::Poll => LoopbackLog {
            polls: if log.polls < u64::MAX {
                log.polls + 1
            } else {
                log.polls
            },
            ..log
        },
        OpKind::Apply(mutation) => LoopbackLog { mutations: log.mutations.push(mutation), ..log },
        OpKind::Passthrough(raw) => LoopbackLog {
            passthroughs: log.passthroughs.push(raw@),
            ..log
        },
    }
}

impl Backend {
    /// The backend's advertised capabilities.
    #[must_use]
    pub fn capabilities(&self) -> (r: BackendCapabilities)
        ensures
            match *self {
                Backend::Ts590(_) => ts590::ts590_capabilities(r),
                Backend::Rigctld(bridge) => rigctld::rigctld_capabilities(bridge, r),
                Backend::Loopback(_) => crate::backend::loopback::loopback_capabilities(r),
            },
    {
        match self {
            Backend::Ts590(radio) => radio.capabilities(),
            Backend::Rigctld(bridge) => bridge.capabilities(),
            Backend::Loopback(radio) => radio.capabilities(),
        }
    }

    /// The command that enables the radio's native push stream, if it has one.
    #[must_use]
    pub fn native_push_enable(&self) -> (r: Option<Vec<u8>>)
        ensures
            match r {
                Some(bytes) => *self is Ts590 && bytes@ == ascii("AI2;"@),
                None => !(*self is Ts590),
            },
    {
        match self {
            Backend::Ts590(radio) => radio.native_push_enable(),
            Backend::Rigctld(_) => None,
            Backend::Loopback(radio) => radio.native_push_enable(),
        }
    }

    /// Start an operation. What it observes at once is recorded, and what is to be announced
    /// is appended to `events`.
    pub fn start(
        &mut self,
        kind: &OpKind,
        state: &mut StateHandle,
        events: &mut Vec<RadioEvent>,
    ) -> (r: OpStep)
        ensures
            ({
                let progress = started(*old(self), *kind, old(state)@);
                &&& r@ == progress.step
                &&& final(state)@ == recorded_all(
                    old(state)@,
                    progress.changes,
                    progress.source,
                )
                &&& final(events)@ == old(events)@ + announced(
                    old(state)@,
                    progress.changes,
                    progress.source,
                )
            }),
            match *old(self) {
                Backend::Loopback(radio) => *final(self) matches Backend::Loopback(later)
                    && later@ == loopback_after(radio@, *kind),
                _ => *final(self) == *old(self),
            },
    {
        let mut changes: Vec<StateChange> = Vec::new();
        let mut source = RadioEventSource::PollDiff;
        let ghost before = *self;
        let step = match self {
            Backend::Ts590(_) => match kind {
                OpKind::Poll => ts590_step(0),
                OpKind::Apply(mutation) => {
                    let snapshot = state.snapshot();
                    OpStep::Submit {
                        bytes: Ts590Backend::apply_bytes(*mutation, &snapshot),
                        expect: Expect::NoReply,
                        running: Running::Apply { mutation: *mutation },
                    }
                },
                OpKind::Passthrough(raw) => OpStep::Submit {
                    bytes: vstd::slice::slice_to_vec(raw.as_slice()),
                    expect: Ts590Backend::passthrough_expect(raw.as_slice()),
                    running: Running::Passthrough,
                },
            },
            Backend::Rigctld(_) => match kind {
                OpKind::Poll => rigctld_step(0),
                OpKind::Apply(mutation) => {
                    let snapshot = state.snapshot();
                    match RigctldBackend::apply_bytes(*mutation, &snapshot) {
                        Some(bytes) => OpStep::Submit {
                            bytes,
                            expect: Expect::Lines(1),
                            running: Running::Apply { mutation: *mutation },
                        },
                        None => OpStep::Done(Err(BackendError::Unsupported)),
                    }
                },
                OpKind::Passthrough(_) => OpStep::Done(Err(BackendError::Unsupported)),
            },
            Backend::Loopback(radio) => match kind {
                OpKind::Poll => {
                    changes.push(radio.poll());
                    OpStep::Done(Ok(Vec::new()))
                },
                OpKind::Apply(mutation) => {
                    changes.push(radio.apply(*mutation));
                    source = RadioEventSource::OptimisticWrite;
                    OpStep::Done(Ok(Vec::new()))
                },
                OpKind::Passthrough(raw) => OpStep::Done(Ok(radio.passthrough(raw.as_slice()))),
            },
        };
        proof {
            let progress = started(before, *kind, old(state)@);
            assert(changes@ =~= progress.changes);
        }
        state.record_all(&changes, source, events);
        step
    }

    /// Go on with an operation after the transport's answer to its command.
    pub fn resume(
        &mut self,
        running: Running,
        reply: Result<Vec<u8>, BackendError>,
        state: &mut StateHandle,
        events: &mut Vec<RadioEvent>,
    ) -> (r: OpStep)
        requires
            running matches Running::Poll { index } ==> index < usize::MAX,
        ensures
            *final(self) == *old(self),
            ({
                let progress = resumed(*old(self), running, reply_view(reply), old(state)@);
                &&& r@ == progress.step
                &&& final(state)@ == recorded_all(
                    old(state)@,
                    progress.changes,
                    progress.source,
                )
                &&& final(events)@ == old(events)@ + announced(
                    old(state)@,
                    progress.changes,
                    progress.source,
                )
            }),
    {
        let mut changes: Vec<StateChange> = Vec::new();
        let mut source = RadioEventSource::PollDiff;
        let ghost view = reply_view(reply);
        let step = match reply {
            Err(e) => OpStep::Done(Err(e)),
            Ok(bytes) => match running {
                Running::Passthrough => OpStep::Done(Ok(bytes)),
                Running::Poll { index } => match self {
                    Backend::Ts590(_) => {
                        let rx_vfo = state.snapshot().rx_vfo;
                        if let Some(seen) = Ts590Backend::changes_in(bytes.as_slice(), rx_vfo) {
                            changes = seen;
                        }
                        ts590_step(index + 1)
                    },
                    Backend::Rigctld(_) => {
                        changes = RigctldBackend::changes_in(index, bytes.as_slice());
                        rigctld_step(index + 1)
                    },
                    Backend::Loopback(_) => OpStep::Done(Ok(Vec::new())),
                },
                Running::Apply { mutation } => {
                    let fault = match self {
                        Backend::Rigctld(_) => match rigctld::check_rprt(bytes.as_slice()) {
                            Ok(()) => None,
                            Err(e) => Some(e),
                        },
                        _ => None,
                    };
                    match fault {
                        Some(e) => OpStep::Done(Err(e)),
                        None => {
                            changes.push(mutation.into_change());
                            source = RadioEventSource::OptimisticWrite;
                            OpStep::Done(Ok(Vec::new()))
                        },
                    }
                },
            },
        };
        proof {
            let progress = resumed(*old(self), running, view, old(state)@);
            assert(changes@ =~= progress.changes);
        }
        state.record_all(&changes, source, events);
        step
    }

    /// Route an unsolicited frame into the universal state as a native push event.
    ///
    /// Modeled frames update the snapshot, are announced as coalesced changes and then relayed
    /// verbatim for transparent mirror endpoints. Frames the backend does not model are only
    /// relayed verbatim, so native pass-through endpoints keep features like the radio's noise
    /// blanker and front-panel changes in sync.
    pub fn route_event(
        &self,
        frame: &[u8],
        state: &mut StateHandle,
        events: &mut Vec<RadioEvent>,
    )
        ensures
            ({
                let changes = if *self is Ts590 {
                    ts590::event_changes(frame@, old(state)@.snapshot.rx_vfo)
                } else {
                    None
                };
                let source = RadioEventSource::NativePush;
                match changes {
                    Some(seen) => {
                        &&& final(state)@ == recorded_all(old(state)@, seen, source)
                        &&& final(events)@.len() > 0
                        &&& final(events)@.drop_last() == old(events)@ + announced(
                            old(state)@,
                            seen,
                            source,
                        )
                        &&& final(events)@.last() matches RadioEvent::RawNative(bytes) && bytes@
                            == frame@
                    },
                    None => {
                        &&& final(state)@ == old(state)@
                        &&& final(events)@.len() > 0
                        &&& final(events)@.drop_last() == old(events)@
                        &&& final(events)@.last() matches RadioEvent::Raw(bytes) && bytes@ == frame@
                    },
                }
            }),
    {
        let modeled: bool = match self {
            Backend::Ts590(radio) => radio.record_event(
                frame,
                state,
                RadioEventSource::NativePush,
                events,
            ),
            _ => false,
        };
        let ghost told = events@;
        if modeled {
            events.push(crate::state::record_raw_native(frame));
        } else {
            events.push(crate::state::record_raw(frame));
        }
        proof {
            assert(events@.drop_last() =~= told);
        }
    }
}

fn ts590_step(index: usize) -> (r: OpStep)
    ensures
        r@ == ts590_poll_step(index as int),
{
    match Ts590Backend::poll_command(index) {
        Some((bytes, expect)) => OpStep::Submit { bytes, expect, running: Running::Poll { index } },
        None => OpStep::Done(Ok(Vec::new())),
    }
}

fn rigctld_step(index: usize) -> (r: OpStep)
    ensures
        r@ == rigctld_poll_step(index as int),
{
    match RigctldBackend::poll_command(index) {
        Some((bytes, expect)) => OpStep::Submit { bytes, expect, running: Running::Poll { index } },
        None => OpStep::Done(Ok(Vec::new())),
    }
}

/// The bridge fails closed on raw native commands.
pub proof fn law_bridge_has_no_passthrough(
    bridge: RigctldBackend,
    raw: Vec<u8>,
    state: RadioState,
)
    ensures
        started(Backend::Rigctld(bridge), OpKind::Passthrough(raw), state) == finished(
            Err(Failure::Unsupported),
        ),
{
}

/// A write that fails on the wire is not recorded: the cached state never runs ahead of the
/// radio.
pub proof fn law_failed_writes_are_not_recorded(
    backend: Backend,
    mutation: StateMutation,
    failure: Failure,
    state: RadioState,
)
    ensures
        ({
            let progress = resumed(backend, Running::Apply { mutation }, Err(failure), state);
            &&& progress.step == NextStep::Done(Err(failure))
            &&& recorded_all(state, progress.changes, progress.source) == state
        }),
{
}

/// Whatever the backend, an unkey request unkeys: the native radio is sent `RX;`, the bridge
/// `T 0`, and the in-memory radio is unkeyed at once. Once the radio has taken it, the cached
/// state is unkeyed as well.
pub proof fn law_every_backend_unkeys(
    backend: Backend,
    state: RadioState,
    source: PttSource,
    reply: Seq<u8>,
)
    ensures
        ({
            let unkey = StateMutation::SetPtt { keyed: false, source };
            let progress = started(backend, OpKind::Apply(unkey), state);
            let running = Running::Apply { mutation: unkey };
            match backend {
                Backend::Ts590(_) => progress.step == (NextStep::Submit {
                    bytes: ascii("RX;"@),
                    expect: ExpectView::NoReply,
                    running,
                }),
                Backend::Rigctld(_) => progress.step == (NextStep::Submit {
                    bytes: ascii("T 0\n"@),
                    expect: ExpectView::Lines(1),
                    running,
                }),
                Backend::Loopback(_) => progress.step == NextStep::Done(Ok(Seq::empty()))
                    && !recorded_all(state, progress.changes, progress.source).snapshot.ptt,
            }
        }),
        ({
            let running = Running::Apply {
                mutation: StateMutation::SetPtt { keyed: false, source },
            };
            let progress = resumed(backend, running, Ok(reply), state);
            progress.step matches NextStep::Done(Ok(_)) ==> !recorded_all(
                state,
                progress.changes,
                progress.source,
            ).snapshot.ptt
        }),
{
    rigctld::law_keying_reaches_the_bridge(state.snapshot, source);
    ts590::law_keying_reaches_the_radio(state.snapshot, source);
    let change = StateChange::Ptt { keyed: false };
    let changes = seq![change];
    assert(changes.skip(1) =~= Seq::empty());
    reveal(Snapshot::after);
    reveal_with_fuel(recorded_all, 2);
}

/// Whatever the backend, a key request keys, by the audio path that is asked for.
pub proof fn law_every_backend_keys(backend: Backend, state: RadioState, source: PttSource)
    ensures
        ({
            let key = StateMutation::SetPtt { keyed: true, source };
            let progress = started(backend, OpKind::Apply(key), state);
            let running = Running::Apply { mutation: key };
            match backend {
                Backend::Ts590(_) => progress.step == (NextStep::Submit {
                    bytes: ascii(
                        match source {
                            PttSource::Generic => "TX;"@,
                            PttSource::Mic => "TX0;"@,
                            PttSource::Data => "TX1;"@,
                        },
                    ),
                    expect: ExpectView::NoReply,
                    running,
                }),
                Backend::Rigctld(_) => progress.step == (NextStep::Submit {
                    bytes: ascii(
                        match source {
                            PttSource::Generic => "T 1\n"@,
                            PttSource::Mic => "T 2\n"@,
                            PttSource::Data => "T 3\n"@,
                        },
                    ),
                    expect: ExpectView::Lines(1),
                    running,
                }),
                Backend::Loopback(_) => recorded_all(
                    state,
                    progress.changes,
                    progress.source,
                ).snapshot.ptt,
            }
        }),
{
    rigctld::law_keying_reaches_the_bridge(state.snapshot, source);
    ts590::law_keying_reaches_the_radio(state.snapshot, source);
    let changes = seq![StateChange::Ptt { keyed: true }];
    assert(changes.skip(1) =~= Seq::empty());
    reveal(Snapshot::after);
    reveal_with_fuel(recorded_all, 2);
}

/// A write that the radio takes is recorded as the change it makes, from an optimistic source;
/// one that the bridge refuses is not, and its report is the result.
pub proof fn law_taken_writes_are_recorded(
    backend: Backend,
    mutation: StateMutation,
    state: RadioState,
    code: i32,
)
    ensures
        ({
            let running = Running::Apply { mutation };
            let taken = resumed(backend, running, Ok(ascii("RPRT 0\n"@)), state);
            let refused = resumed(
                backend,
                running,
                Ok(ascii("RPRT "@ + signed_decimal(code as int) + "\n"@)),
                state,
            );
            &&& taken.step == NextStep::Done(Ok(Seq::empty()))
            &&& taken.changes == seq![mutation.change()]
            &&& taken.source == RadioEventSource::OptimisticWrite
            &&& backend is Rigctld && code != 0 ==> {
                &&& refused.step == NextStep::Done(
                    Err(Failure::Rejected("rigctld RPRT "@ + signed_decimal(code as int))),
                )
                &&& refused.changes == Seq::<StateChange>::empty()
            }
        }),
{
    rigctld::law_reports_are_read(code, Seq::empty());
}

/// A native command goes to the native radio as it is and its reply comes back as it is; a reply
/// is awaited only for a bare verb, and under that verb. The in-memory radio echoes it.
pub proof fn law_native_commands_are_untouched(
    backend: Backend,
    raw: Vec<u8>,
    state: RadioState,
    reply: Seq<u8>,
)
    ensures
        ({
            let progress = started(backend, OpKind::Passthrough(raw), state);
            match backend {
                Backend::Ts590(_) => progress.step matches NextStep::Submit {
                    bytes,
                    expect,
                    running: Running::Passthrough,
                } && bytes == raw@ && (match parts(raw@) {
                    Some((verb, payload)) => expect == if payload.len() == 0 {
                        ExpectView::Reply(seq![verb])
                    } else {
                        ExpectView::NoReply
                    },
                    None => expect == ExpectView::NoReply,
                }),
                Backend::Rigctld(_) => progress.step == NextStep::Done(Err(Failure::Unsupported)),
                Backend::Loopback(_) => progress.step == NextStep::Done(Ok(raw@)),
            }
        }),
        resumed(backend, Running::Passthrough, Ok(reply), state).step == NextStep::Done(Ok(reply)),
        resumed(backend, Running::Passthrough, Ok(reply), state).changes
            == Seq::<StateChange>::empty(),
{
}

/// A poll runs through its queries in order: each reply leads to the next query, the last one
/// ends the poll, and the bridge asks for frequency, mode and split.
pub proof fn law_polls_run_through(backend: Backend, state: RadioState, reply: Seq<u8>, at: usize)
    requires
        at < usize::MAX,
    ensures
        ({
            let next = resumed(backend, Running::Poll { index: at }, Ok(reply), state).step;
            let first = started(backend, OpKind::Poll, state).step;
            &&& !(backend is Loopback) ==> first is Submit && first->running == (Running::Poll {
                index: 0,
            })
            &&& next is Submit ==> next->running == (Running::Poll { index: (at + 1) as usize })
            &&& backend is Ts590 && at < 4 || backend is Rigctld && at < 2 ==> next is Submit
            &&& backend is Ts590 && at >= 4 || backend is Rigctld && at >= 2 ==> next
                == NextStep::Done(Ok(Seq::empty()))
            &&& backend is Rigctld ==> {
                &&& first->bytes == ascii("f\n"@) && first->expect == ExpectView::Lines(1)
                &&& at == 0 ==> next->bytes == ascii("m\n"@) && next->expect == ExpectView::Lines(2)
                &&& at == 1 ==> next->bytes == ascii("s\n"@) && next->expect == ExpectView::Lines(2)
            }
        }),
{
}

/// What the backends say of themselves is what they do: the native radio pushes on its own, takes
/// native commands and offsets and is trusted; the bridge does none of it and is trusted only
/// where it is certified; the in-memory radio takes commands and offsets and is trusted by nobody.
pub proof fn law_capabilities(
    native: BackendCapabilities,
    bridge: RigctldBackend,
    bridged: BackendCapabilities,
    memory: BackendCapabilities,
)
    requires
        ts590::ts590_capabilities(native),
        rigctld::rigctld_capabilities(bridge, bridged),
        crate::backend::loopback::loopback_capabilities(memory),
    ensures
        native.model@ == "TS-590"@ && memory.model@ == "loopback"@ && bridged.model@ == "rigctld:"@
            + bridge.model(),
        native.vfo_count == 2 && bridged.vfo_count == 2 && memory.vfo_count == 2,
        native.has_rit && native.has_xit && native.has_smeter && native.native_push,
        !bridged.has_rit && !bridged.has_xit && !bridged.has_smeter && !bridged.native_push,
        memory.has_rit && memory.has_xit && memory.has_smeter && !memory.native_push,
        native.native_command_family == Some(NativeCommandFamily::Kenwood),
        memory.native_command_family == Some(NativeCommandFamily::Kenwood),
        bridged.native_command_family is None,
        native.framing.delim() == 0x3b && memory.framing.delim() == 0x3b && bridged.framing.delim()
            == 0x0a,
        native.freq_min_hz == 30_000 && bridged.freq_min_hz == 30_000 && memory.freq_min_hz
            == 30_000,
        native.freq_max_hz == 60_000_000 && bridged.freq_max_hz == 60_000_000
            && memory.freq_max_hz == 60_000_000,
        native.trust == TrustTier::CertifiedNative && memory.trust == TrustTier::Loopback,
        bridged.trust == if bridge.certified() {
            TrustTier::CertifiedNative
        } else {
            TrustTier::UncertifiedBridge
        },
{
}

/// The in-memory radio remembers what it was asked for: every write and every native command in
/// order, and how often it was polled.
pub proof fn law_memory_radio_remembers(log: LoopbackLog, mutation: StateMutation, raw: Vec<u8>)
    requires
        log.polls < u64::MAX,
    ensures
        loopback_after(log, OpKind::Apply(mutation)) == (LoopbackLog {
            mutations: log.mutations.push(mutation),
            ..log
        }),
        loopback_after(log, OpKind::Passthrough(raw)) == (LoopbackLog {
            passthroughs: log.passthroughs.push(raw@),
            ..log
        }),
        loopback_after(log, OpKind::Poll) == (LoopbackLog { polls: log.polls + 1, ..log }),
        ({
            let fresh = crate::backend::loopback::fresh_log();
            fresh.mutations.len() == 0 && fresh.passthroughs.len() == 0 && fresh.polls == 0
        }),
{
}

} // verus!
