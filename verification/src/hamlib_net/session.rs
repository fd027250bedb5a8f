//! One rigctld client connection: request lines in, replies out, and the writes in between.

use vstd::prelude::*;
use vstd::utf8::decode_utf8;
use vstd::utf8::valid_utf8;

use crate::dialect::ApplyStep;
use crate::dialect::ClientSessionContext;
use crate::dialect::apply_begun;
use crate::dialect::apply_finished;
use crate::error::BackendError;
use crate::hamlib_net::extended::LineStep;
use crate::hamlib_net::extended::LineTurn;
use crate::hamlib_net::extended::NetWrite;
use crate::hamlib_net::extended::WriteTurn;
use crate::hamlib_net::extended::after_write;
use crate::hamlib_net::extended::finish_write;
use crate::hamlib_net::extended::handle_line;
use crate::hamlib_net::extended::line_turn;
use crate::model::StateMutation;
use crate::permissions::CommandClass;
use crate::permissions::EndpointPermissions;
use crate::ptt::PttLease;
use crate::ptt::PttManager;
use crate::radio::framer::byte_seqs;
use crate::radio::framer::joined;
use crate::radio::scheduler::Priority;
use crate::state::RadioState;
use crate::state::StateHandle;

verus! {

/// Maximum bytes buffered for a single request line before the connection is closed. Real
/// rigctld commands are short; this only bounds a misbehaving client.
pub const MAX_LINE_LEN: usize = 4096;

/// What `String::from_utf8_lossy` makes of bytes.
pub uninterp spec fn lossy_text(bytes: Seq<u8>) -> Seq<char>;

/// `String::from_utf8_lossy` of the standard library reads valid UTF-8 as it is, and puts a
/// replacement character in the place of each invalid sequence. How many of them stand for
/// which invalid bytes is not spelled out.
#[verifier::external_body]
pub(crate) fn text_lossy(bytes: &[u8]) -> (r: String)
    ensures
        r@ == lossy_text(bytes@),
        valid_utf8(bytes@) ==> r@ == decode_utf8(bytes@),
{
    String::from_utf8_lossy(bytes).into_owned()
}

/// A line without one carriage return at its end.
pub open spec fn without_cr(line: Seq<u8>) -> Seq<u8> {
    if line.len() > 0 && line.last() == 0x0d {
        line.drop_last()
    } else {
        line
    }
}

/// The lines that `bytes` complete where `partial` has been read, and the partial line that
/// is left; none is left where a line has outgrown its bound.
pub open spec fn lines_fed(partial: Seq<u8>, bytes: Seq<u8>) -> (Seq<Seq<u8>>, Option<Seq<u8>>)
    decreases bytes.len(),
{
    if bytes.len() == 0 {
        (Seq::empty(), Some(partial))
    } else if bytes[0] == 0x0a {
        let (lines, rest) = lines_fed(Seq::empty(), bytes.skip(1));
        (seq![without_cr(partial)] + lines, rest)
    } else if partial.len() >= MAX_LINE_LEN {
        (Seq::empty(), None)
    } else {
        lines_fed(partial.push(bytes[0]), bytes.skip(1))
    }
}

/// Splits what a client sends into lines.
#[derive(Debug)]
pub struct LineReader {
    buf: Vec<u8>,
}

/// What a chunk of bytes gave.
#[derive(Debug)]
pub struct Received {
    /// The lines that are complete now, without their ends.
    pub lines: Vec<Vec<u8>>,
    /// Whether the connection goes on: it does not once a line has outgrown its bound.
    pub open: bool,
}

impl LineReader {
    /// The partial line.
    pub closed spec fn partial(&self) -> Seq<u8> {
        self.buf@
    }

    /// A reader that nothing has come in on.
    #[must_use]
    pub fn new() -> (r: Self)
        ensures
            r.partial() == Seq::<u8>::empty(),
    {
        LineReader { buf: Vec::new() }
    }

    /// Take bytes in. The hard length cap keeps a client that never sends a newline from
    /// growing the buffer without bound.
    pub fn feed(&mut self, bytes: &[u8]) -> (r: Received)
        ensures
            byte_seqs(r.lines@) == lines_fed(old(self).partial(), bytes@).0,
            r.open == lines_fed(old(self).partial(), bytes@).1 is Some,
            r.open ==> Some(final(self).partial()) == lines_fed(old(self).partial(), bytes@).1,
    {
        let mut lines: Vec<Vec<u8>> = Vec::new();
        let mut i: usize = 0;
        let ghost want = lines_fed(self.buf@, bytes@);
        proof {
            assert(bytes@.skip(0) =~= bytes@);
            assert(byte_seqs(lines@) + want.0 =~= want.0);
        }
        while i < bytes.len()
            invariant
                i <= bytes@.len(),
                want == lines_fed(old(self).partial(), bytes@),
                ({
                    let (more, rest) = lines_fed(self.buf@, bytes@.skip(i as int));
                    byte_seqs(lines@) + more == want.0 && rest == want.1
                }),
            decreases bytes@.len() - i,
        {
            let ghost before = byte_seqs(lines@);
            let b: u8 = bytes[i];
            proof {
                assert(bytes@.skip(i as int)[0] == b);
                assert(bytes@.skip(i as int).skip(1) =~= bytes@.skip(i + 1));
            }
            if b == 0x0a {
                let ghost partial = self.buf@;
                let mut line: Vec<u8> = Vec::new();
                std::mem::swap(&mut self.buf, &mut line);
                let n: usize = line.len();
                if n > 0 && line[n - 1] == 0x0d {
                    line.truncate(n - 1);
                }
                proof {
                    assert(line@ =~= without_cr(partial));
                }
                lines.push(line);
                proof {
                    let (more, rest) = lines_fed(Seq::empty(), bytes@.skip(i + 1));
                    assert(self.buf@ =~= Seq::<u8>::empty());
                    assert(byte_seqs(lines@) =~= before.push(without_cr(partial)));
                    assert(byte_seqs(lines@) + more =~= before + (seq![without_cr(partial)]
                        + more));
                }
            } else if self.buf.len() >= MAX_LINE_LEN {
                proof {
                    assert(before + Seq::<Seq<u8>>::empty() =~= before);
                }
                return Received { lines, open: false };
            } else {
                self.buf.push(b);
            }
            i = i + 1;
        }
        proof {
            assert(bytes@.skip(i as int) =~= Seq::<u8>::empty());
            assert(byte_seqs(lines@) + Seq::<Seq<u8>>::empty() =~= byte_seqs(lines@));
        }
        Received { lines, open: true }
    }
}

/// What a connection does next.
#[derive(Debug, PartialEq, Eq)]
pub enum NetStep {
    /// Send the reply (nothing where it is empty).
    Reply(String),
    /// Close the connection.
    Quit,
    /// Have the radio apply the write, then go on with [`NetFace::finish`].
    Submit {
        /// How urgent it is.
        priority: Priority,
        /// The write.
        write: NetWrite,
    },
}

/// What a connection does next, as a value of the model.
pub enum NetTurn {
    /// Send the reply.
    Reply(Seq<char>),
    /// Close the connection.
    Quit,
    /// Have the radio apply the write.
    Submit {
        /// How urgent it is.
        priority: Priority,
        /// The write.
        write: WriteTurn,
    },
}

impl View for NetStep {
    type V = NetTurn;

    open spec fn view(&self) -> NetTurn {
        match *self {
            NetStep::Reply(text) => NetTurn::Reply(text@),
            NetStep::Quit => NetTurn::Quit,
            NetStep::Submit { priority, write } => NetTurn::Submit { priority, write: write@ },
        }
    }
}

/// How many writes are left of a line.
pub open spec fn writes_left(turn: LineTurn) -> nat {
    match turn {
        LineTurn::Apply(write) => if write.follow is Some {
            2
        } else {
            1
        },
        _ => 0,
    }
}

/// What a connection does with what a line does, and the lease after it. A write that is
/// over without touching the radio goes on at once.
pub open spec fn settled(
    turn: LineTurn,
    session_id: u64,
    perms: EndpointPermissions,
    state: RadioState,
    lease: PttLease,
    now_ms: u64,
) -> (NetTurn, PttLease)
    decreases writes_left(turn),
{
    match turn {
        LineTurn::Reply(text) => (NetTurn::Reply(text), lease),
        LineTurn::Quit => (NetTurn::Quit, lease),
        LineTurn::Apply(write) => {
            let (step, later) = apply_begun(
                session_id,
                perms,
                write.mutation,
                write.class,
                state,
                lease,
                now_ms,
            );
            match step {
                ApplyStep::Submit(priority) => (NetTurn::Submit { priority, write }, later),
                ApplyStep::Done(outcome) => settled(
                    after_write(write, outcome),
                    session_id,
                    perms,
                    state,
                    later,
                    now_ms,
                ),
            }
        },
    }
}

/// One rigctld client connection.
#[derive(Debug)]
pub struct NetFace {
    /// The session's context.
    pub ctx: ClientSessionContext,
    /// The capability dump served for `\dump_state`.
    pub dump: String,
    /// The request lines that come in.
    pub requests: LineReader,
}

impl NetFace {
    /// A connection that serves the given capability dump.
    #[must_use]
    pub fn new(ctx: ClientSessionContext, dump: String) -> (r: Self)
        ensures
            r.ctx == ctx,
            r.dump == dump,
            r.requests.partial() == Seq::<u8>::empty(),
    {
        NetFace { ctx, dump, requests: LineReader::new() }
    }

    /// Take bytes in; return the request lines that are complete now.
    pub fn receive(&mut self, bytes: &[u8]) -> (r: Received)
        ensures
            byte_seqs(r.lines@) == lines_fed(old(self).requests.partial(), bytes@).0,
            r.open == lines_fed(old(self).requests.partial(), bytes@).1 is Some,
            r.open ==> Some(final(self).requests.partial()) == lines_fed(
                old(self).requests.partial(),
                bytes@,
            ).1,
            final(self).ctx == old(self).ctx,
            final(self).dump == old(self).dump,
    {
        self.requests.feed(bytes)
    }

    fn settle(
        &self,
        step: LineStep,
        state: &StateHandle,
        ptt: &mut PttManager,
        now_ms: u64,
    ) -> (r: NetStep)
        ensures
            (r@, final(ptt)@) == settled(
                step@,
                self.ctx.session_id,
                self.ctx.perms,
                state@,
                old(ptt)@,
                now_ms,
            ),
        decreases writes_left(step@),
    {
        match step {
            LineStep::Reply(text) => NetStep::Reply(text),
            LineStep::Quit => NetStep::Quit,
            LineStep::Apply(write) => match self.ctx.apply_modeled(
                write.mutation,
                write.class,
                state,
                ptt,
                now_ms,
            ) {
                ApplyStep::Submit(priority) => NetStep::Submit { priority, write },
                ApplyStep::Done(outcome) => self.settle(
                    finish_write(write, outcome),
                    state,
                    ptt,
                    now_ms,
                ),
            },
        }
    }

    /// Handle one request line.
    pub fn handle(
        &self,
        line: &[u8],
        state: &StateHandle,
        ptt: &mut PttManager,
        now_ms: u64,
    ) -> (r: NetStep)
        ensures
            (r@, final(ptt)@) == settled(
                line_turn(lossy_text(line@), self.ctx, state@.snapshot, self.dump@),
                self.ctx.session_id,
                self.ctx.perms,
                state@,
                old(ptt)@,
                now_ms,
            ),
            valid_utf8(line@) ==> lossy_text(line@) == decode_utf8(line@),
    {
        let text = text_lossy(line);
        self.handle_text(text.as_str(), state, ptt, now_ms)
    }

    /// Handle one request line that has been read as text.
    pub fn handle_text(
        &self,
        line: &str,
        state: &StateHandle,
        ptt: &mut PttManager,
        now_ms: u64,
    ) -> (r: NetStep)
        ensures
            (r@, final(ptt)@) == settled(
                line_turn(line@, self.ctx, state@.snapshot, self.dump@),
                self.ctx.session_id,
                self.ctx.perms,
                state@,
                old(ptt)@,
                now_ms,
            ),
    {
        let snapshot = state.snapshot();
        let step = handle_line(line, &self.ctx, &snapshot, self.dump.as_str());
        self.settle(step, state, ptt, now_ms)
    }

    /// Go on with a line once the radio has answered its write.
    pub fn finish(
        &self,
        write: NetWrite,
        result: &Result<Vec<u8>, BackendError>,
        state: &StateHandle,
        ptt: &mut PttManager,
        now_ms: u64,
    ) -> (r: NetStep)
        ensures
            ({
                let (outcome, lease) = apply_finished(
                    self.ctx.session_id,
                    write.mutation,
                    write.class,
                    *result,
                    old(ptt)@,
                );
                (r@, final(ptt)@) == settled(
                    after_write(write@, outcome),
                    self.ctx.session_id,
                    self.ctx.perms,
                    state@,
                    lease,
                    now_ms,
                )
            }),
    {
        let outcome = self.ctx.finish_modeled(write.mutation, write.class, result, ptt);
        self.settle(finish_write(write, outcome), state, ptt, now_ms)
    }
}

/// A read-only connection never sends anything to the radio and never takes the lease,
/// whatever its client asks for.
pub proof fn law_readers_never_submit(
    line: Seq<char>,
    ctx: ClientSessionContext,
    dump: Seq<char>,
    state: RadioState,
    lease: PttLease,
    now_ms: u64,
)
    requires
        ctx.perms == EndpointPermissions::reader(),
    ensures
        ({
            let (next, later) = settled(
                line_turn(line, ctx, state.snapshot, dump),
                ctx.session_id,
                ctx.perms,
                state,
                lease,
                now_ms,
            );
            &&& next !is Submit
            &&& later == lease
        }),
{
    lemma_readers_never_submit(
        line_turn(line, ctx, state.snapshot, dump),
        ctx.session_id,
        state,
        lease,
        now_ms,
    );
}

proof fn lemma_readers_never_submit(
    turn: LineTurn,
    session_id: u64,
    state: RadioState,
    lease: PttLease,
    now_ms: u64,
)
    requires
        turn matches LineTurn::Apply(write) ==> write.class == CommandClass::ModeledWrite
            || write.class == CommandClass::PttWrite,
    ensures
        ({
            let (next, later) = settled(
                turn,
                session_id,
                EndpointPermissions::reader(),
                state,
                lease,
                now_ms,
            );
            &&& next !is Submit
            &&& later == lease
        }),
{
    reveal_with_fuel(settled, 2);
}

/// Two chunks give what they give as one.
proof fn lemma_two_chunks(partial: Seq<u8>, first: Seq<u8>, second: Seq<u8>)
    ensures
        ({
            let (lines, rest) = lines_fed(partial, first);
            lines_fed(partial, first + second) == match rest {
                Some(left) => (lines + lines_fed(left, second).0, lines_fed(left, second).1),
                None => (lines, None),
            }
        }),
    decreases first.len(),
{
    let whole = first + second;
    if first.len() == 0 {
        assert(whole =~= second);
        assert(Seq::<Seq<u8>>::empty() + lines_fed(partial, second).0 =~= lines_fed(
            partial,
            second,
        ).0);
    } else {
        assert(whole[0] == first[0]);
        assert(whole.skip(1) =~= first.skip(1) + second);
        if first[0] == 0x0a {
            lemma_two_chunks(Seq::empty(), first.skip(1), second);
            let (lines, rest) = lines_fed(Seq::empty(), first.skip(1));
            if let Some(left) = rest {
                let more = lines_fed(left, second).0;
                assert(seq![without_cr(partial)] + (lines + more) =~= seq![without_cr(partial)]
                    + lines + more);
            }
        } else if partial.len() < MAX_LINE_LEN {
            lemma_two_chunks(partial.push(first[0]), first.skip(1), second);
        }
    }
}

/// What chunks give that are fed one after the other, up to a line that outgrows its bound.
pub open spec fn chunks_fed(partial: Seq<u8>, chunks: Seq<Seq<u8>>) -> (
    Seq<Seq<u8>>,
    Option<Seq<u8>>,
)
    decreases chunks.len(),
{
    if chunks.len() == 0 {
        (Seq::empty(), Some(partial))
    } else {
        let (lines, rest) = lines_fed(partial, chunks[0]);
        match rest {
            Some(left) => {
                let (more, last) = chunks_fed(left, chunks.skip(1));
                (lines + more, last)
            },
            None => (lines, None),
        }
    }
}

/// The lines do not depend on how the stream is cut into chunks, however many there are.
pub proof fn law_chunks_do_not_matter(partial: Seq<u8>, chunks: Seq<Seq<u8>>)
    ensures
        chunks_fed(partial, chunks) == lines_fed(partial, joined(chunks)),
    decreases chunks.len(),
{
    if chunks.len() > 0 {
        lemma_two_chunks(partial, chunks[0], joined(chunks.skip(1)));
        if let Some(left) = lines_fed(partial, chunks[0]).1 {
            law_chunks_do_not_matter(left, chunks.skip(1));
        }
    }
}

/// A partial line never outgrows its bound.
pub proof fn law_lines_are_bounded(partial: Seq<u8>, bytes: Seq<u8>)
    requires
        partial.len() <= MAX_LINE_LEN,
    ensures
        lines_fed(partial, bytes).1 matches Some(left) ==> left.len() <= MAX_LINE_LEN,
        forall|i: int|
            0 <= i < lines_fed(partial, bytes).0.len() ==> (#[trigger] lines_fed(
                partial,
                bytes,
            ).0[i]).len() <= MAX_LINE_LEN,
    decreases bytes.len(),
{
    if bytes.len() > 0 {
        if bytes[0] == 0x0a {
            law_lines_are_bounded(Seq::empty(), bytes.skip(1));
            let (lines, rest) = lines_fed(Seq::empty(), bytes.skip(1));
            let all = lines_fed(partial, bytes).0;
            assert forall|i: int| 0 <= i < all.len() implies (#[trigger] all[i]).len()
                <= MAX_LINE_LEN by {
                if i > 0 {
                    assert(all[i] == lines[i - 1]);
                }
            }
        } else if partial.len() < MAX_LINE_LEN {
            law_lines_are_bounded(partial.push(bytes[0]), bytes.skip(1));
        }
    }
}

/// What a line asks for is settled at once where the radio is not needed: a reply is sent, a quit
/// ends the connection, a write without authority is refused with `RPRT -1`, and one whose value
/// the radio already holds is reported as done. Everything else goes to the radio as it is.
pub proof fn law_lines_are_settled(
    mutation: StateMutation,
    class: CommandClass,
    text: Seq<char>,
    session_id: u64,
    perms: EndpointPermissions,
    state: RadioState,
    lease: PttLease,
    now_ms: u64,
)
    ensures
        ({
            let write = WriteTurn { mutation, class, follow: None, wrap: None };
            let (turn, later) = settled(
                LineTurn::Apply(write),
                session_id,
                perms,
                state,
                lease,
                now_ms,
            );
            &&& settled(LineTurn::Reply(text), session_id, perms, state, lease, now_ms) == (
                NetTurn::Reply(text),
                lease,
            )
            &&& settled(LineTurn::Quit, session_id, perms, state, lease, now_ms) == (
                NetTurn::Quit,
                lease,
            )
            &&& !perms.permits_mutation(class, mutation) ==> turn == NetTurn::Reply("RPRT -1\n"@)
                && later == lease
            &&& perms.permits_mutation(class, mutation) && state.redundant(mutation) ==> turn
                == NetTurn::Reply("RPRT 0\n"@) && later == lease
            &&& perms.permits_mutation(class, mutation) && !state.redundant(mutation) && class
                == CommandClass::ModeledWrite ==> turn == (NetTurn::Submit {
                priority: Priority::Write,
                write,
            }) && later == lease
        }),
{
    reveal_with_fuel(settled, 2);
}

} // verus!
