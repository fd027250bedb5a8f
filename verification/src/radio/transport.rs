//! Reply matching on the byte transport.
//!
//! Exactly one solicited command is in flight. Its reply is told apart from the frames that
//! the radio pushes on its own; everything else is routed as an unsolicited frame.

use vstd::prelude::*;

use crate::ascii::ascii;
use crate::ascii::ascii_bytes;
use crate::ascii::begins_with;
use crate::ascii::starts_with;
use crate::error::BackendError;
use crate::error::Failure;
use crate::radio::framer::byte_seqs;

verus! {

/// Default per-command reply timeout in milliseconds.
pub const REPLY_TIMEOUT_MS: u64 = 1_000;

/// What the transport should expect after writing a command.
#[derive(Debug, Clone, PartialEq, Eq)]
pub enum Expect {
    /// A reply whose frame begins with one of these verb prefixes (Kenwood/Yaesu, where
    /// unsolicited push frames can interleave and must be told apart by verb).
    Reply(Vec<Vec<u8>>),
    /// The next `n` frames, concatenated (verb-less line protocols like `rigctld`, which
    /// have no unsolicited frames so the next lines are unambiguously the reply).
    Lines(usize),
    /// No reply (set-and-forget write).
    NoReply,
}

/// What an expectation says.
pub enum ExpectView {
    /// A frame that begins with one of these verbs.
    Reply(Seq<Seq<u8>>),
    /// The next frames.
    Lines(nat),
    /// No reply.
    NoReply,
}

impl View for Expect {
    type V = ExpectView;

    open spec fn view(&self) -> ExpectView {
        match *self {
            Expect::Reply(verbs) => ExpectView::Reply(byte_seqs(verbs@)),
            Expect::Lines(n) => ExpectView::Lines(n as nat),
            Expect::NoReply => ExpectView::NoReply,
        }
    }
}

/// How a pending command recognizes its reply.
#[derive(Debug)]
enum Matcher {
    Verb(Vec<Vec<u8>>),
    Lines { remaining: usize, acc: Vec<u8> },
}

/// What a command in flight waits for.
pub enum Awaited {
    /// A frame that begins with one of these verbs.
    Verb(Seq<Seq<u8>>),
    /// So many more frames behind those that have come.
    Lines {
        /// Frames still to come.
        remaining: nat,
        /// What has come.
        acc: Seq<u8>,
    },
}

/// A command in flight.
pub struct InFlight {
    /// What it waits for.
    pub awaited: Awaited,
    /// The instant at which it is given up.
    pub deadline_ms: u64,
}

/// Whether a frame begins with one of several verbs.
pub open spec fn matches_verb(frame: Seq<u8>, verbs: Seq<Seq<u8>>) -> bool {
    exists|i: int| 0 <= i < verbs.len() && begins_with(frame, #[trigger] verbs[i])
}

/// Whether a frame begins with one of several verbs.
#[must_use]
pub fn frame_matches(frame: &[u8], verbs: &Vec<Vec<u8>>) -> (r: bool)
    ensures
        r == matches_verb(frame@, byte_seqs(verbs@)),
{
    let mut i: usize = 0;
    while i < verbs.len()
        invariant
            i <= verbs@.len(),
            forall|j: int| 0 <= j < i ==> !begins_with(frame@, #[trigger] byte_seqs(verbs@)[j]),
        decreases verbs@.len() - i,
    {
        proof {
            assert(byte_seqs(verbs@)[i as int] == verbs@[i as int]@);
        }
        if starts_with(frame, verbs[i].as_slice()) {
            return true;
        }
        i = i + 1;
    }
    false
}

/// What a frame means to the transport.
#[derive(Debug, PartialEq, Eq)]
pub enum FrameAction {
    /// The reply is complete.
    Reply(Vec<u8>),
    /// The radio sent the frame on its own.
    Route(Vec<u8>),
    /// The frame is a part of the reply.
    Hold,
}

/// What a frame means, as a value of the model.
pub enum Verdict {
    /// The reply is complete.
    Reply(Seq<u8>),
    /// The radio sent the frame on its own.
    Route(Seq<u8>),
    /// The frame is a part of the reply.
    Hold,
}

impl View for FrameAction {
    type V = Verdict;

    open spec fn view(&self) -> Verdict {
        match *self {
            FrameAction::Reply(bytes) => Verdict::Reply(bytes@),
            FrameAction::Route(bytes) => Verdict::Route(bytes@),
            FrameAction::Hold => Verdict::Hold,
        }
    }
}

/// The command that is in flight once a command with this expectation was written.
pub open spec fn in_flight(expect: ExpectView, now_ms: u64) -> Option<InFlight> {
    let deadline_ms = if now_ms + REPLY_TIMEOUT_MS > u64::MAX {
        u64::MAX
    } else {
        (now_ms + REPLY_TIMEOUT_MS) as u64
    };
    match expect {
        ExpectView::NoReply => None,
        ExpectView::Reply(verbs) => Some(InFlight { awaited: Awaited::Verb(verbs), deadline_ms }),
        ExpectView::Lines(n) => if n == 0 {
            None
        } else {
            Some(
                InFlight {
                    awaited: Awaited::Lines { remaining: n, acc: Seq::empty() },
                    deadline_ms,
                },
            )
        },
    }
}

/// What a frame means while `pending` is in flight, and what is in flight after it. A
/// `rigctld` error is a complete reply even where more lines were expected.
pub open spec fn after_frame(pending: Option<InFlight>, frame: Seq<u8>) -> (
    Verdict,
    Option<InFlight>,
) {
    match pending {
        None => (Verdict::Route(frame), None),
        Some(command) => match command.awaited {
            Awaited::Verb(verbs) => if matches_verb(frame, verbs) {
                (Verdict::Reply(frame), None)
            } else {
                (Verdict::Route(frame), pending)
            },
            Awaited::Lines { remaining, acc } => if remaining <= 1 || begins_with(
                frame,
                ascii("RPRT "@),
            ) {
                (Verdict::Reply(acc + frame), None)
            } else {
                (
                    Verdict::Hold,
                    Some(
                        InFlight {
                            awaited: Awaited::Lines {
                                remaining: (remaining - 1) as nat,
                                acc: acc + frame,
                            },
                            ..command
                        },
                    ),
                )
            },
        },
    }
}

/// The reply side of the transport: what is in flight.
#[derive(Debug)]
pub struct Transport {
    pending: Option<(Matcher, u64)>,
}

impl View for Transport {
    type V = Option<InFlight>;

    closed spec fn view(&self) -> Option<InFlight> {
        match self.pending {
            None => None,
            Some((Matcher::Verb(verbs), deadline_ms)) => Some(
                InFlight { awaited: Awaited::Verb(byte_seqs(verbs@)), deadline_ms },
            ),
            Some((Matcher::Lines { remaining, acc }, deadline_ms)) => Some(
                InFlight {
                    awaited: Awaited::Lines { remaining: remaining as nat, acc: acc@ },
                    deadline_ms,
                },
            ),
        }
    }
}

impl Transport {
    /// A transport with nothing in flight.
    #[must_use]
    pub fn new() -> (r: Self)
        ensures
            r@ is None,
    {
        Transport { pending: None }
    }

    /// Whether no command is in flight, so that the next one may be written.
    #[must_use]
    pub fn is_idle(&self) -> (r: bool)
        ensures
            r == (self@ is None),
    {
        self.pending.is_none()
    }

    /// The instant at which the command in flight is given up.
    #[must_use]
    pub fn deadline_ms(&self) -> (r: Option<u64>)
        ensures
            r == match self@ {
                Some(command) => Some(command.deadline_ms),
                None => None::<u64>,
            },
    {
        match &self.pending {
            Some((_, deadline_ms)) => Some(*deadline_ms),
            None => None,
        }
    }

    /// A command was written. Returns whether it is answered at once, with no bytes.
    pub fn command_sent(&mut self, expect: Expect, now_ms: u64) -> (r: bool)
        requires
            old(self)@ is None,
        ensures
            final(self)@ == in_flight(expect@, now_ms),
            r == (final(self)@ is None),
    {
        let deadline_ms: u64 = now_ms.saturating_add(REPLY_TIMEOUT_MS);
        match expect {
            Expect::NoReply => true,
            Expect::Reply(verbs) => {
                self.pending = Some((Matcher::Verb(verbs), deadline_ms));
                false
            },
            Expect::Lines(n) => if n == 0 {
                true
            } else {
                let acc: Vec<u8> = Vec::new();
                self.pending = Some((Matcher::Lines { remaining: n, acc }, deadline_ms));
                false
            },
        }
    }

    /// A frame came in.
    pub fn frame_received(&mut self, frame: Vec<u8>) -> (r: FrameAction)
        ensures
            (r@, final(self)@) == after_frame(old(self)@, frame@),
    {
        match self.pending.take() {
            None => FrameAction::Route(frame),
            Some((Matcher::Verb(verbs), deadline_ms)) => if frame_matches(
                frame.as_slice(),
                &verbs,
            ) {
                FrameAction::Reply(frame)
            } else {
                self.pending = Some((Matcher::Verb(verbs), deadline_ms));
                FrameAction::Route(frame)
            },
            Some((Matcher::Lines { remaining, acc }, deadline_ms)) => {
                let mut acc = acc;
                let ghost before = acc@;
                acc.extend_from_slice(frame.as_slice());
                proof {
                    assert(acc@ =~= before + frame@);
                }
                let rprt = ascii_bytes("RPRT ");
                if remaining <= 1 || starts_with(frame.as_slice(), rprt.as_slice()) {
                    FrameAction::Reply(acc)
                } else {
                    self.pending = Some(
                        (Matcher::Lines { remaining: remaining - 1, acc }, deadline_ms),
                    );
                    FrameAction::Hold
                }
            },
        }
    }

    /// Time has passed. Returns whether the command in flight is given up, to be answered
    /// with [`BackendError::Timeout`].
    pub fn time_passed(&mut self, now_ms: u64) -> (r: bool)
        ensures
            r == (old(self)@ is Some && now_ms >= old(self)@->Some_0.deadline_ms),
            final(self)@ == if r {
                None
            } else {
                old(self)@
            },
    {
        match &self.pending {
            Some((_, deadline_ms)) => {
                let due: bool = now_ms >= *deadline_ms;
                if due {
                    self.pending = None;
                }
                due
            },
            None => false,
        }
    }

    /// The byte stream closed. Returns the answer to the command in flight, if there is one.
    pub fn stream_closed(&mut self) -> (r: Option<BackendError>)
        ensures
            final(self)@ is None,
            match r {
                Some(e) => old(self)@ is Some && e@ == Failure::Transport("transport closed"@),
                None => old(self)@ is None,
            },
    {
        match self.pending.take() {
            Some(_) => Some(BackendError::Transport("transport closed".to_owned())),
            None => None,
        }
    }
}

/// Unsolicited frames never extend the deadline of the command in flight: whatever frames
/// come, as long as it is in flight it is the same command with the same deadline.
pub proof fn law_deadline_is_absolute(command: InFlight, frame: Seq<u8>)
    ensures
        after_frame(Some(command), frame).1 matches Some(later) ==> later.deadline_ms
            == command.deadline_ms,
{
}

/// A frame that answers no command is routed unchanged.
pub proof fn law_unsolicited_frames_are_routed(command: InFlight, frame: Seq<u8>, verbs: Seq<Seq<u8>>)
    requires
        command.awaited == Awaited::Verb(verbs),
        !matches_verb(frame, verbs),
    ensures
        after_frame(Some(command), frame) == (Verdict::Route(frame), Some(command)),
{
}

/// A reply of two lines is both lines in order; a report that comes first is the whole reply. A
/// frame that comes while no reply is awaited is routed, and so is one of another verb, while
/// one of the awaited verb is the reply and ends the wait.
pub proof fn law_replies_are_collected(
    first: Seq<u8>,
    second: Seq<u8>,
    verb: Seq<u8>,
    payload: Seq<u8>,
    now_ms: u64,
)
    requires
        now_ms <= u64::MAX - 1_000,
        !begins_with(first, ascii("RPRT "@)),
    ensures
        ({
            let waiting = in_flight(ExpectView::Lines(2), now_ms);
            let (held, rest) = after_frame(waiting, first);
            &&& waiting is Some && waiting->Some_0.deadline_ms == now_ms + 1_000
            &&& held == Verdict::Hold
            &&& after_frame(rest, second) == (Verdict::Reply(first + second), None::<InFlight>)
            &&& after_frame(waiting, ascii("RPRT "@) + second) == (
                Verdict::Reply(ascii("RPRT "@) + second),
                None::<InFlight>,
            )
        }),
        after_frame(in_flight(ExpectView::Lines(1), now_ms), first) == (
            Verdict::Reply(first),
            None::<InFlight>,
        ),
        in_flight(ExpectView::NoReply, now_ms) is None,
        in_flight(ExpectView::Lines(0), now_ms) is None,
        after_frame(None, first) == (Verdict::Route(first), None::<InFlight>),
        after_frame(in_flight(ExpectView::Reply(seq![verb]), now_ms), verb + payload) == (
            Verdict::Reply(verb + payload),
            None::<InFlight>,
        ),
        in_flight(ExpectView::Reply(seq![verb]), now_ms) matches Some(command) && command.deadline_ms
            == now_ms + 1_000,
{
    let waiting = in_flight(ExpectView::Lines(2), now_ms);
    let (held, rest) = after_frame(waiting, first);
    assert(Seq::<u8>::empty() + first =~= first);
    let report = ascii("RPRT "@) + second;
    assert(Seq::<u8>::empty() + report =~= report);
    assert(report.take(ascii("RPRT "@).len() as int) =~= ascii("RPRT "@));
    assert(begins_with(report, ascii("RPRT "@)));
    let verbs = seq![verb];
    assert((verb + payload).take(verb.len() as int) =~= verb);
    assert(begins_with(verb + payload, verbs[0]));
    assert(matches_verb(verb + payload, verbs));
}

} // verus!
