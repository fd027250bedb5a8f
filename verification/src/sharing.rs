//! What sessions that share one radio can rely on.

use vstd::prelude::*;

use crate::ascii::ascii;
use crate::backend::kenwood::ts590::write_bytes;
use crate::backend::rigctld::rprt_fault;
use crate::dialect::client::ClientDialect;
use crate::dialect::kenwood::status_bytes;
use crate::dialect::kenwood::ts2000;
use crate::dialect::kenwood::ts590;
use crate::dialect::kenwood::Turn;
use crate::dialect::release_of;
use crate::dialect::ClientSessionContext;
use crate::hamlib_net::command::NetCommand;
use crate::hamlib_net::plain::number_line;
use crate::hamlib_net::plain::plain_turn;
use crate::hamlib_net::plain::PlainTurn;
use crate::kenwood::is_letter;
use crate::kenwood::law_parts_of_frame;
use crate::kenwood::number_frame;
use crate::kenwood::parts;
use crate::kenwood::TERMINATOR;
use crate::model::PttSource;
use crate::model::RadioEventSource;
use crate::model::StateChange;
use crate::model::StateMutation;
use crate::model::Vfo;
use crate::permissions::CommandClass;
use crate::ptt::PttLease;
use crate::radio::operation::law_every_backend_unkeys;
use crate::radio::operation::resumed;
use crate::radio::operation::started;
use crate::radio::operation::Backend;
use crate::radio::operation::NextStep;
use crate::radio::operation::Running;
use crate::radio::scheduler::OpKind;
use crate::serial_face::face_turn;
use crate::state::announced;
use crate::state::recorded_all;
use crate::state::RadioEvent;
use crate::state::RadioState;
use crate::state::Snapshot;

verus! {

/// The query of a verb: the verb and nothing but the terminator.
pub open spec fn query_of(verb: Seq<char>) -> Seq<u8> {
    ascii(verb) + seq![TERMINATOR]
}

/// The verb under which the frequency of a VFO is read and written.
pub open spec fn freq_verb(vfo: Vfo) -> Seq<char> {
    match vfo {
        Vfo::A => "FA"@,
        Vfo::B => "FB"@,
    }
}

/// Whether a verb asks for something that the cached state answers.
pub open spec fn cached_verb(verb: Seq<char>) -> bool {
    verb == "FA"@ || verb == "FB"@ || verb == "MD"@ || verb == "IF"@ || verb == "AI"@ || verb
        == "ID"@ || verb == "PS"@
}

proof fn lemma_query_parts(verb: Seq<char>)
    requires
        cached_verb(verb),
    ensures
        parts(query_of(verb)) == Some((ascii(verb), Seq::<u8>::empty())),
{
    reveal_strlit("FA");
    reveal_strlit("FB");
    reveal_strlit("MD");
    reveal_strlit("IF");
    reveal_strlit("AI");
    reveal_strlit("ID");
    reveal_strlit("PS");
    let bytes = ascii(verb);
    assert(bytes.len() == 2);
    assert forall|i: int| 0 <= i < bytes.len() implies is_letter(#[trigger] bytes[i]) by {
        assert(bytes[i] == verb[i] as u8);
    }
    law_parts_of_frame(bytes, Seq::empty());
    assert(bytes + Seq::<u8>::empty() + seq![TERMINATOR] =~= query_of(verb));
}

proof fn lemma_verbs_differ()
    ensures
        ascii("FA"@) != ascii("FB"@),
        ascii("FA"@) != ascii("IF"@),
        ascii("FB"@) != ascii("IF"@),
{
    reveal_strlit("FA");
    reveal_strlit("FB");
    reveal_strlit("IF");
    assert(ascii("FA"@)[0] == 0x46 && ascii("FA"@)[1] == 0x41);
    assert(ascii("FB"@)[0] == 0x46 && ascii("FB"@)[1] == 0x42);
    assert(ascii("IF"@)[0] == 0x49);
}

/// Every write that the radio accepts is recorded: the in-memory radio accepts it when it is
/// started, and the others when they are answered without a fault.
pub proof fn law_accepted_writes_are_recorded(
    backend: Backend,
    mutation: StateMutation,
    reply: Seq<u8>,
    state: RadioState,
)
    requires
        backend is Rigctld ==> rprt_fault(reply) is None,
    ensures
        ({
            let progress = if backend is Loopback {
                started(backend, OpKind::Apply(mutation), state)
            } else {
                resumed(backend, Running::Apply { mutation }, Ok(reply), state)
            };
            &&& progress.step == NextStep::Done(Ok(Seq::<u8>::empty()))
            &&& recorded_all(state, progress.changes, progress.source) == state.recorded(
                mutation.change(),
                RadioEventSource::OptimisticWrite,
            )
        }),
{
    let changes = seq![mutation.change()];
    let source = RadioEventSource::OptimisticWrite;
    assert(changes.skip(1) =~= Seq::empty());
    assert(recorded_all(state, changes, source) == recorded_all(
        state.recorded(changes[0], source),
        changes.skip(1),
        source,
    ));
}

/// A frequency that one session writes, or that the operator dials, is what every session reads
/// from then on: under its own verb where a session knows both VFOs, and as the frequency where
/// the VFO is the operating one.
pub proof fn law_frequencies_are_shared(
    state: RadioState,
    vfo: Vfo,
    hz: u64,
    source: RadioEventSource,
    ai: bool,
    net: ClientSessionContext,
    dump: Seq<char>,
)
    ensures
        ({
            let later = state.recorded(StateChange::Freq { vfo, hz }, source).snapshot;
            let verb = freq_verb(vfo);
            let as_a = Turn::Reply(number_frame(ascii("FA"@), hz as nat));
            &&& ts590::handled(query_of(verb), later, ai, false) == Turn::Reply(
                number_frame(ascii(verb), hz as nat),
            )
            &&& vfo == later.rx_vfo ==> ts590::handled(query_of("FA"@), later, ai, true) == as_a
            &&& vfo == later.rx_vfo ==> ts2000::handled(query_of("FA"@), later, ai) == as_a
            &&& vfo == later.rx_vfo && net.perms.permits(CommandClass::ModeledRead)
                ==> plain_turn(NetCommand::GetFreq, Seq::empty(), net, later, dump)
                == PlainTurn::Reply(number_line(hz as nat))
        }),
{
    lemma_query_parts("FA"@);
    lemma_query_parts("FB"@);
    lemma_verbs_differ();
    reveal(Snapshot::after);
}

/// What the cached state answers is answered from it, whatever a session may do: no such query
/// reaches the radio or the lease.
pub proof fn law_queries_are_answered_from_the_cache(
    ctx: ClientSessionContext,
    dialect: ClientDialect,
    verb: Seq<char>,
    state: RadioState,
    lease: PttLease,
    now_ms: u64,
)
    requires
        cached_verb(verb),
        dialect !is Transparent,
    ensures
        ({
            let (turn, later) = face_turn(
                ctx,
                dialect.turn(query_of(verb), state.snapshot, ctx.ai, ctx.single_vfo),
                state,
                lease,
                now_ms,
            );
            turn is Reply && later == lease
        }),
{
    lemma_query_parts(verb);
    lemma_cached_turns(verb, state, ctx.ai, ctx.single_vfo);
}

proof fn lemma_cached_turns(verb: Seq<char>, state: RadioState, ai: bool, single_vfo: bool)
    requires
        cached_verb(verb),
    ensures
        ts590::handled(query_of(verb), state.snapshot, ai, single_vfo) is Reply,
        ts2000::handled(query_of(verb), state.snapshot, ai) is Reply,
{
    lemma_query_parts(verb);
    reveal_strlit("FA");
    reveal_strlit("FB");
    reveal_strlit("MD");
    reveal_strlit("IF");
    reveal_strlit("AI");
    reveal_strlit("ID");
    reveal_strlit("PS");
    reveal_strlit("TX");
    reveal_strlit("RX");
    let bytes = ascii(verb);
    assert(bytes[0] == verb[0] as u8 && bytes[1] == verb[1] as u8);
    assert(ascii("TX"@)[0] == 0x54 && ascii("TX"@)[1] == 0x58);
    assert(ascii("RX"@)[0] == 0x52 && ascii("RX"@)[1] == 0x58);
    assert(bytes != ascii("TX"@));
    assert(bytes != ascii("RX"@));
}

/// A frequency that changes is announced, and each session that listens and shows that VFO is
/// told the new value first.
pub proof fn law_changes_reach_every_listener(
    state: RadioState,
    vfo: Vfo,
    hz: u64,
    source: RadioEventSource,
    dialect: ClientDialect,
    single_vfo: bool,
)
    requires
        state.snapshot.of(vfo).freq_hz != hz,
        state.snapshot.rx_vfo == vfo,
        dialect !is Transparent,
    ensures
        ({
            let change = StateChange::Freq { vfo, hz };
            let later = state.recorded(change, source).snapshot;
            let verb = if dialect is Ts590 && !single_vfo {
                freq_verb(vfo)
            } else {
                "FA"@
            };
            &&& announced(state, seq![change], source) == seq![RadioEvent::Change(change)]
            &&& dialect.told(RadioEvent::Change(change), later, true, single_vfo) matches Some(
                bytes,
            ) && number_frame(ascii(verb), hz as nat).is_prefix_of(bytes)
        }),
{
    let change = StateChange::Freq { vfo, hz };
    let changes = seq![change];
    assert(changes.skip(1) =~= Seq::empty());
    reveal(Snapshot::after);
    reveal(Snapshot::changed_by);
    reveal_with_fuel(announced, 2);
    assert(announced(state, changes, source) =~= seq![RadioEvent::Change(change)]);
    let later = state.recorded(change, source).snapshot;
    let status = status_bytes(later, single_vfo);
    let own = number_frame(ascii(freq_verb(vfo)), hz as nat);
    let as_a = number_frame(ascii("FA"@), hz as nat);
    assert(own.is_prefix_of(own + status));
    assert(as_a.is_prefix_of(as_a + status));
    assert(as_a.is_prefix_of(as_a));
}

/// Whoever goes away, whether a session that disconnects, one that keys for too long or the
/// daemon itself, leaves the station unkeyed: the write that is sent in its place, ahead of
/// everything else, unkeys the radio, the lease is free afterwards, and until then no other
/// session gets it.
pub proof fn law_nobody_leaves_the_radio_keyed(
    state: RadioState,
    lease: PttLease,
    owner: u64,
    source: RadioEventSource,
    backend: Backend,
)
    requires
        lease.owner() == Some(owner),
    ensures
        release_of(owner).session_id == owner,
        release_of(owner).priority.level() == 0,
        started(backend, OpKind::Apply(release_of(owner).mutation), state).step matches NextStep::Submit {
            bytes,
            ..
        } ==> bytes == if backend is Ts590 {
            ascii("RX;"@)
        } else {
            ascii("T 0\n"@)
        },
        backend is Loopback ==> ({
            let progress = started(backend, OpKind::Apply(release_of(owner).mutation), state);
            !recorded_all(state, progress.changes, progress.source).snapshot.ptt
        }),
        !(backend is Loopback) ==> started(
            backend,
            OpKind::Apply(release_of(owner).mutation),
            state,
        ).step is Submit,
        write_bytes(release_of(owner).mutation, state.snapshot) == ascii("RX;"@),
        !state.recorded(release_of(owner).mutation.change(), source).snapshot.ptt,
        !state.redundant(release_of(owner).mutation),
        forall|other: u64, has_ptt: bool, now_ms: u64|
            other != owner ==> {
                let (grant, later) = #[trigger] lease.keyed(other, has_ptt, now_ms);
                grant is Err && later == lease
            },
        lease.unkeyed(owner).owner() is None,
{
    reveal(Snapshot::after);
    law_every_backend_unkeys(backend, state, PttSource::Generic, Seq::empty());
}

} // verus!
