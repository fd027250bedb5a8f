//! The client dialects behind one interface.

use vstd::prelude::*;

use crate::dialect::kenwood::transparent;
use crate::dialect::kenwood::transparent::TransparentTs590Dialect;
use crate::dialect::kenwood::ts2000;
use crate::dialect::kenwood::ts2000::Ts2000Dialect;
use crate::dialect::kenwood::ts590;
use crate::dialect::kenwood::ts590::Ts590Dialect;
use crate::dialect::kenwood::DialectStep;
use crate::dialect::kenwood::Turn;
use crate::dialect::ClientSessionContext;
use crate::model::StateChange;
use crate::radio::framer::byte_seqs;
use crate::state::RadioEvent;
use crate::state::Snapshot;

verus! {

/// A client CAT dialect: translates a client's vocabulary to and from the neutral state.
#[derive(Debug, Clone, Copy, PartialEq, Eq)]
pub enum ClientDialect {
    /// The virtualizing native dialect.
    Ts590(Ts590Dialect),
    /// The foreign translator.
    Ts2000(Ts2000Dialect),
    /// The transparent mirror.
    Transparent(TransparentTs590Dialect),
}

/// The bytes an optional vector holds.
pub open spec fn bytes_of(v: Option<Vec<u8>>) -> Option<Seq<u8>> {
    match v {
        Some(bytes) => Some(bytes@),
        None => None,
    }
}

impl ClientDialect {
    /// What the dialect does with a request.
    pub open spec fn turn(
        self,
        request: Seq<u8>,
        snapshot: Snapshot,
        ai: bool,
        single_vfo: bool,
    ) -> Turn {
        match self {
            ClientDialect::Ts590(_) => ts590::handled(request, snapshot, ai, single_vfo),
            ClientDialect::Ts2000(_) => ts2000::handled(request, snapshot, ai),
            ClientDialect::Transparent(_) => transparent::handled(request, ai),
        }
    }

    /// The notification of a change.
    pub open spec fn notification(
        self,
        change: StateChange,
        snapshot: Snapshot,
        ai: bool,
        single_vfo: bool,
    ) -> Option<Seq<u8>> {
        match self {
            ClientDialect::Ts590(_) => ts590::notification(change, snapshot, ai, single_vfo),
            ClientDialect::Ts2000(_) => ts2000::notification(change, snapshot, ai),
            ClientDialect::Transparent(_) => None,
        }
    }

    /// What of an unmodeled frame of the radio reaches the session.
    pub open spec fn relayed(self, raw: Seq<u8>, ai: bool, single_vfo: bool) -> Option<Seq<u8>> {
        match self {
            ClientDialect::Ts590(_) => if ai && !single_vfo {
                Some(raw)
            } else {
                None
            },
            ClientDialect::Ts2000(_) => None,
            ClientDialect::Transparent(_) => if ai {
                Some(raw)
            } else {
                None
            },
        }
    }

    /// What of a modeled frame of the radio reaches the session.
    pub open spec fn mirrored(self, raw: Seq<u8>, ai: bool) -> Option<Seq<u8>> {
        match self {
            ClientDialect::Transparent(_) => if ai {
                Some(raw)
            } else {
                None
            },
            _ => None,
        }
    }

    /// What the session is told of an event.
    pub open spec fn told(
        self,
        event: RadioEvent,
        snapshot: Snapshot,
        ai: bool,
        single_vfo: bool,
    ) -> Option<Seq<u8>> {
        match event {
            RadioEvent::Change(change) => self.notification(change, snapshot, ai, single_vfo),
            RadioEvent::Raw(raw) => self.relayed(raw@, ai, single_vfo),
            RadioEvent::RawNative(raw) => self.mirrored(raw@, ai),
        }
    }

    /// The notifications of several changes, without those that do not apply.
    pub open spec fn notifications(
        self,
        changes: Seq<StateChange>,
        snapshot: Snapshot,
        ai: bool,
        single_vfo: bool,
    ) -> Seq<Seq<u8>>
        decreases changes.len(),
    {
        if changes.len() == 0 {
            Seq::empty()
        } else {
            let earlier = self.notifications(changes.drop_last(), snapshot, ai, single_vfo);
            match self.notification(changes.last(), snapshot, ai, single_vfo) {
                Some(bytes) => earlier.push(bytes),
                None => earlier,
            }
        }
    }

    /// The frames that restore a session that lost events.
    pub open spec fn resynced(self, snapshot: Snapshot, ai: bool, single_vfo: bool) -> Seq<
        Seq<u8>,
    > {
        match self {
            ClientDialect::Transparent(_) => if ai {
                ts590::resync_frames(snapshot)
            } else {
                Seq::empty()
            },
            _ => self.notifications(snapshot.changes(), snapshot, ai, single_vfo),
        }
    }

    /// Handle one inbound request frame.
    pub fn handle(
        &self,
        request: &[u8],
        ctx: &mut ClientSessionContext,
        snapshot: &Snapshot,
    ) -> (r: DialectStep)
        ensures
            r@ == self.turn(request@, *snapshot, old(ctx).ai, old(ctx).single_vfo),
            *final(ctx) == (ClientSessionContext {
                ai: ts590::ai_after(request@, old(ctx).ai),
                ..*old(ctx)
            }),
    {
        match self {
            ClientDialect::Ts590(d) => d.handle(request, ctx, snapshot),
            ClientDialect::Ts2000(d) => d.handle(request, ctx, snapshot),
            ClientDialect::Transparent(d) => d.handle(request, ctx),
        }
    }

    /// Render a state change as an unsolicited notification for this endpoint, if it applies.
    #[must_use]
    pub fn format_notification(
        &self,
        change: &StateChange,
        ctx: &ClientSessionContext,
        snapshot: &Snapshot,
    ) -> (r: Option<Vec<u8>>)
        ensures
            bytes_of(r) == self.notification(*change, *snapshot, ctx.ai, ctx.single_vfo),
    {
        match self {
            ClientDialect::Ts590(d) => d.format_notification(change, ctx, snapshot),
            ClientDialect::Ts2000(d) => d.format_notification(change, ctx, snapshot),
            ClientDialect::Transparent(d) => d.format_notification(change),
        }
    }

    /// Render an unsolicited native frame the backend does not model as a notification for
    /// this endpoint, if it applies.
    #[must_use]
    pub fn format_passthrough(&self, raw: &[u8], ctx: &ClientSessionContext) -> (r: Option<Vec<u8>>)
        ensures
            bytes_of(r) == self.relayed(raw@, ctx.ai, ctx.single_vfo),
    {
        match self {
            ClientDialect::Ts590(d) => d.format_passthrough(raw, ctx),
            ClientDialect::Ts2000(_) => None,
            ClientDialect::Transparent(d) => d.format_passthrough(raw, ctx),
        }
    }

    /// Render a *modeled* native frame (one the backend parsed into a state change) as a
    /// verbatim relay for this endpoint, if it applies: a virtualizing endpoint consumes the
    /// state change instead.
    #[must_use]
    pub fn format_native_passthrough(
        &self,
        raw: &[u8],
        ctx: &ClientSessionContext,
    ) -> (r: Option<Vec<u8>>)
        ensures
            bytes_of(r) == self.mirrored(raw@, ctx.ai),
    {
        match self {
            ClientDialect::Transparent(d) => d.format_native_passthrough(raw, ctx),
            _ => None,
        }
    }

    /// What this endpoint is told of an event.
    #[must_use]
    pub fn format_event(
        &self,
        event: &RadioEvent,
        ctx: &ClientSessionContext,
        snapshot: &Snapshot,
    ) -> (r: Option<Vec<u8>>)
        ensures
            bytes_of(r) == self.told(*event, *snapshot, ctx.ai, ctx.single_vfo),
    {
        match event {
            RadioEvent::Change(change) => self.format_notification(change, ctx, snapshot),
            RadioEvent::Raw(raw) => self.format_passthrough(raw.as_slice(), ctx),
            RadioEvent::RawNative(raw) => self.format_native_passthrough(raw.as_slice(), ctx),
        }
    }

    /// Re-present the full current state to a session that lagged behind and lost one or more
    /// events. Returns the frames to write, in order.
    ///
    /// A virtualizing endpoint is restored by the notifications of the whole snapshot; a
    /// transparent mirror gets the radio's state as raw frames.
    #[must_use]
    pub fn resync(&self, snapshot: &Snapshot, ctx: &ClientSessionContext) -> (r: Vec<Vec<u8>>)
        ensures
            byte_seqs(r@) == self.resynced(*snapshot, ctx.ai, ctx.single_vfo),
    {
        if let ClientDialect::Transparent(d) = self {
            return d.resync(snapshot, ctx);
        }
        let changes = snapshot.as_changes();
        let mut frames: Vec<Vec<u8>> = Vec::new();
        let mut i: usize = 0;
        while i < changes.len()
            invariant
                i <= changes@.len(),
                byte_seqs(frames@) =~= self.notifications(
                    changes@.take(i as int),
                    *snapshot,
                    ctx.ai,
                    ctx.single_vfo,
                ),
            decreases changes@.len() - i,
        {
            proof {
                assert(changes@.take(i + 1).drop_last() =~= changes@.take(i as int));
                assert(changes@.take(i + 1).last() == changes@[i as int]);
            }
            if let Some(bytes) = self.format_notification(&changes[i], ctx, snapshot) {
                let ghost before = byte_seqs(frames@);
                let ghost added = bytes@;
                frames.push(bytes);
                proof {
                    assert(byte_seqs(frames@) =~= before.push(added));
                }
            }
            i += 1;
        }
        proof {
            assert(changes@.take(i as int) =~= changes@);
        }
        frames
    }
}

/// A session with auto-information off is told nothing, whatever happens, and is not
/// resynchronized either.
pub proof fn law_silent_without_ai(
    dialect: ClientDialect,
    event: RadioEvent,
    snapshot: Snapshot,
    single_vfo: bool,
)
    ensures
        dialect.told(event, snapshot, false, single_vfo) is None,
        dialect.resynced(snapshot, false, single_vfo) == Seq::<Seq<u8>>::empty(),
{
    lemma_silent(dialect, snapshot.changes(), snapshot, single_vfo);
}

proof fn lemma_silent(
    dialect: ClientDialect,
    changes: Seq<StateChange>,
    snapshot: Snapshot,
    single_vfo: bool,
)
    ensures
        dialect.notifications(changes, snapshot, false, single_vfo) == Seq::<Seq<u8>>::empty(),
    decreases changes.len(),
{
    if changes.len() > 0 {
        lemma_silent(dialect, changes.drop_last(), snapshot, single_vfo);
    }
}

/// A session that lost events loses none of the state: whatever part of the snapshot the
/// dialect would have announced is announced by the resynchronization.
pub proof fn law_resync_announces_everything(
    dialect: ClientDialect,
    snapshot: Snapshot,
    change: StateChange,
    ai: bool,
    single_vfo: bool,
)
    requires
        snapshot.changes().contains(change),
        dialect.notification(change, snapshot, ai, single_vfo) is Some,
    ensures
        dialect.resynced(snapshot, ai, single_vfo).contains(
            dialect.notification(change, snapshot, ai, single_vfo)->Some_0,
        ),
{
    let i = choose|i: int|
        0 <= i < snapshot.changes().len() && snapshot.changes()[i] == change;
    lemma_announced(dialect, snapshot.changes(), i, snapshot, ai, single_vfo);
}

proof fn lemma_announced(
    dialect: ClientDialect,
    changes: Seq<StateChange>,
    i: int,
    snapshot: Snapshot,
    ai: bool,
    single_vfo: bool,
)
    requires
        0 <= i < changes.len(),
        dialect.notification(changes[i], snapshot, ai, single_vfo) is Some,
    ensures
        dialect.notifications(changes, snapshot, ai, single_vfo).contains(
            dialect.notification(changes[i], snapshot, ai, single_vfo)->Some_0,
        ),
    decreases changes.len(),
{
    let all = dialect.notifications(changes, snapshot, ai, single_vfo);
    if i == changes.len() - 1 {
        assert(all[all.len() - 1] == dialect.notification(changes[i], snapshot, ai, single_vfo)->Some_0);
    } else {
        lemma_announced(dialect, changes.drop_last(), i, snapshot, ai, single_vfo);
        let earlier = dialect.notifications(changes.drop_last(), snapshot, ai, single_vfo);
        let want = dialect.notification(changes[i], snapshot, ai, single_vfo)->Some_0;
        let j = choose|j: int| 0 <= j < earlier.len() && earlier[j] == want;
        assert(all[j] == want);
    }
}

/// Only the transparent mirror sees the frames of the radio that are modeled, and it sees
/// nothing else of the changes they carry: no endpoint hears of one change twice.
pub proof fn law_changes_are_told_once(
    dialect: ClientDialect,
    change: StateChange,
    raw: Seq<u8>,
    snapshot: Snapshot,
    ai: bool,
    single_vfo: bool,
)
    ensures
        dialect.notification(change, snapshot, ai, single_vfo) is None || dialect.mirrored(
            raw,
            ai,
        ) is None,
{
}

/// Frames of the radio that the hub does not model reach the sessions that see the radio as it
/// is: those of the native dialect with both VFOs, and mirrors. Frames that it does model reach
/// mirrors alone, since every other session is told of the change itself. All of them are handed
/// on as they are, and only to sessions that want to be told.
pub proof fn law_raw_frames(raw: Seq<u8>, single_vfo: bool, snapshot: Snapshot)
    ensures
        ({
            let native = ClientDialect::Ts590(Ts590Dialect);
            let translator = ClientDialect::Ts2000(Ts2000Dialect);
            let mirror = ClientDialect::Transparent(TransparentTs590Dialect);
            &&& native.relayed(raw, true, false) == Some(raw)
            &&& native.relayed(raw, true, true) is None
            &&& translator.relayed(raw, true, single_vfo) is None
            &&& mirror.relayed(raw, true, single_vfo) == Some(raw)
            &&& native.mirrored(raw, true) is None
            &&& translator.mirrored(raw, true) is None
            &&& mirror.mirrored(raw, true) == Some(raw)
            &&& mirror.relayed(raw, false, single_vfo) is None
            &&& mirror.mirrored(raw, false) is None
            &&& native.relayed(raw, false, single_vfo) is None
            &&& forall|change: StateChange|
                (#[trigger] mirror.notification(change, snapshot, true, single_vfo)) is None
            &&& mirror.resynced(snapshot, true, single_vfo) == ts590::resync_frames(snapshot)
        }),
{
}

/// Several changes are told one after the other, without those that the session is not told of.
pub proof fn law_notifications_in_order(
    dialect: ClientDialect,
    first: StateChange,
    second: StateChange,
    snapshot: Snapshot,
    ai: bool,
    single_vfo: bool,
)
    ensures
        ({
            let a = dialect.notification(first, snapshot, ai, single_vfo);
            let b = dialect.notification(second, snapshot, ai, single_vfo);
            dialect.notifications(seq![first, second], snapshot, ai, single_vfo) == match (a, b) {
                (Some(x), Some(y)) => seq![x, y],
                (Some(x), None) => seq![x],
                (None, Some(y)) => seq![y],
                (None, None) => Seq::empty(),
            }
        }),
{
    reveal_with_fuel(ClientDialect::notifications, 3);
    let both = seq![first, second];
    assert(both.drop_last() =~= seq![first]);
    assert(seq![first].drop_last() =~= Seq::empty());
    let a = dialect.notification(first, snapshot, ai, single_vfo);
    let b = dialect.notification(second, snapshot, ai, single_vfo);
    let told = dialect.notifications(both, snapshot, ai, single_vfo);
    if let Some(x) = a {
        if let Some(y) = b {
            assert(told =~= seq![x, y]);
        } else {
            assert(told =~= seq![x]);
        }
    } else if let Some(y) = b {
        assert(told =~= seq![y]);
    }
}

} // verus!
