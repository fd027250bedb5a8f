//! The universal radio state: a single in-memory snapshot every endpoint reads from, plus
//! the notifications that endpoints receive for auto-information fan-out.
//!
//! A change is announced **only when a field's value actually changes**, so an idempotent
//! write (re-setting the same frequency) produces no spurious notification.

use vstd::prelude::*;

use crate::model::Field;
use crate::model::Mode;
use crate::model::RadioEventSource;
use crate::model::StateChange;
use crate::model::StateMutation;
use crate::model::TxPower;
use crate::model::Vfo;

verus! {

/// Default IF passband reported for a VFO (Hz). Real backends may refine this; the default
/// matches the canonical Hamlib `get_mode` second line.
pub const DEFAULT_PASSBAND_HZ: u32 = 2_400;

/// A point-in-time view of one VFO.
#[derive(Debug, Clone, Copy, PartialEq, Eq, Structural)]
pub struct VfoSnapshot {
    /// Frequency in Hz.
    pub freq_hz: u64,
    /// Operating mode.
    pub mode: Mode,
    /// Whether the backend has observed this VFO's base mode.
    pub mode_known: bool,
    /// Whether the DATA sub-mode flag (TS-590 `DA`) is on for this VFO.
    pub data: bool,
    /// IF passband in Hz.
    pub passband_hz: u32,
}

/// A VFO that nothing is known of.
pub open spec fn unknown_vfo() -> VfoSnapshot {
    VfoSnapshot {
        freq_hz: 0,
        mode: Mode::Usb,
        mode_known: false,
        data: false,
        passband_hz: DEFAULT_PASSBAND_HZ,
    }
}

impl Default for VfoSnapshot {
    /// A VFO that nothing is known of.
    fn default() -> (r: Self)
        ensures
            r == unknown_vfo(),
    {
        VfoSnapshot {
            freq_hz: 0,
            mode: Mode::Usb,
            mode_known: false,
            data: false,
            passband_hz: DEFAULT_PASSBAND_HZ,
        }
    }
}

/// A consistent point-in-time view of the whole radio.
#[derive(Debug, Clone, Copy, PartialEq, Eq, Structural)]
pub struct Snapshot {
    /// VFO A.
    pub a: VfoSnapshot,
    /// VFO B.
    pub b: VfoSnapshot,
    /// The receive VFO.
    pub rx_vfo: Vfo,
    /// The transmit VFO (relevant when split is enabled).
    pub tx_vfo: Vfo,
    /// Whether split is enabled.
    pub split: bool,
    /// Whether the transmitter is keyed.
    pub ptt: bool,
    /// Whether the radio reports power on.
    pub power_on: bool,
    /// Configured transmitter output power, when the backend can expose it.
    pub tx_power: Option<TxPower>,
    /// Whether RIT is enabled.
    pub rit_enabled: bool,
    /// RIT offset in Hz.
    pub rit_offset_hz: i32,
    /// Whether XIT is enabled.
    pub xit_enabled: bool,
    /// XIT offset in Hz.
    pub xit_offset_hz: i32,
}

/// A radio at rest. A TS-590 reports power on at rest.
pub open spec fn radio_at_rest() -> Snapshot {
    Snapshot {
        a: unknown_vfo(),
        b: unknown_vfo(),
        rx_vfo: Vfo::A,
        tx_vfo: Vfo::A,
        split: false,
        ptt: false,
        power_on: true,
        tx_power: None,
        rit_enabled: false,
        rit_offset_hz: 0,
        xit_enabled: false,
        xit_offset_hz: 0,
    }
}

impl Default for Snapshot {
    /// A radio at rest.
    fn default() -> (r: Self)
        ensures
            r == radio_at_rest(),
    {
        Snapshot {
            a: VfoSnapshot::default(),
            b: VfoSnapshot::default(),
            rx_vfo: Vfo::A,
            tx_vfo: Vfo::A,
            split: false,
            ptt: false,
            power_on: true,
            tx_power: None,
            rit_enabled: false,
            rit_offset_hz: 0,
            xit_enabled: false,
            xit_offset_hz: 0,
        }
    }
}

impl Snapshot {
    /// The view of one VFO.
    pub open spec fn of(self, vfo: Vfo) -> VfoSnapshot {
        match vfo {
            Vfo::A => self.a,
            Vfo::B => self.b,
        }
    }

    /// The view of the operating VFO.
    pub open spec fn operating(self) -> VfoSnapshot {
        self.of(self.rx_vfo)
    }

    /// This snapshot with another view of one VFO.
    pub open spec fn with(self, vfo: Vfo, view: VfoSnapshot) -> Snapshot {
        match vfo {
            Vfo::A => Snapshot { a: view, ..self },
            Vfo::B => Snapshot { b: view, ..self },
        }
    }

    /// Whether a mutation would leave the radio as it is. A mode is compared by the digit
    /// that would be written, with the mode of the operating VFO. Keying and unkeying are
    /// never redundant.
    pub open spec fn redundant(self, mutation: StateMutation) -> bool {
        match mutation {
            StateMutation::SetRxVfo { vfo } => self.rx_vfo == vfo,
            StateMutation::SetVfoFreq { vfo, hz } => self.of(vfo).freq_hz == hz,
            StateMutation::SetMode { vfo, mode } => self.operating().mode.digit() == mode.digit(),
            StateMutation::SetDataMode { vfo, on } => self.of(vfo).data == on,
            StateMutation::SetSplit { enabled, tx_vfo } => self.split == enabled && (tx_vfo is Some
                ==> tx_vfo == Some(self.tx_vfo)),
            StateMutation::SetRit { offset_hz, enabled } => self.rit_enabled == enabled
                && self.rit_offset_hz == offset_hz,
            StateMutation::SetXit { offset_hz, enabled } => self.xit_enabled == enabled
                && self.xit_offset_hz == offset_hz,
            StateMutation::SetPtt { keyed, source } => false,
        }
    }

    /// This snapshot once a change is observed.
    #[verifier::opaque]
    pub open spec fn after(self, change: StateChange) -> Snapshot {
        match change {
            StateChange::RxVfo { vfo } => Snapshot { rx_vfo: vfo, ..self },
            StateChange::Freq { vfo, hz } => self.with(
                vfo,
                VfoSnapshot { freq_hz: hz, ..self.of(vfo) },
            ),
            StateChange::Mode { vfo, mode } => self.with(
                vfo,
                VfoSnapshot { mode, mode_known: true, ..self.of(vfo) },
            ),
            StateChange::DataMode { vfo, on } => self.with(
                vfo,
                VfoSnapshot { data: on, ..self.of(vfo) },
            ),
            StateChange::Split { enabled, tx_vfo } => Snapshot {
                split: enabled,
                tx_vfo: match tx_vfo {
                    Some(vfo) => vfo,
                    None => self.tx_vfo,
                },
                ..self
            },
            StateChange::Ptt { keyed } => Snapshot { ptt: keyed, ..self },
            StateChange::Rit { enabled, offset_hz } => Snapshot {
                rit_enabled: enabled,
                rit_offset_hz: offset_hz,
                ..self
            },
            StateChange::Xit { enabled, offset_hz } => Snapshot {
                xit_enabled: enabled,
                xit_offset_hz: offset_hz,
                ..self
            },
            StateChange::TxPower { power } => Snapshot { tx_power: power, ..self },
        }
    }

    /// Whether a change gives a field another value. That a mode becomes known is no
    /// change of its value.
    #[verifier::opaque]
    pub open spec fn changed_by(self, change: StateChange) -> bool {
        match change {
            StateChange::RxVfo { vfo } => self.rx_vfo != vfo,
            StateChange::Freq { vfo, hz } => self.of(vfo).freq_hz != hz,
            StateChange::Mode { vfo, mode } => self.of(vfo).mode != mode,
            StateChange::DataMode { vfo, on } => self.of(vfo).data != on,
            StateChange::Split { enabled, tx_vfo } => self.split != enabled || (tx_vfo is Some
                && tx_vfo != Some(self.tx_vfo)),
            StateChange::Ptt { keyed } => self.ptt != keyed,
            StateChange::Rit { enabled, offset_hz } => self.rit_enabled != enabled
                || self.rit_offset_hz != offset_hz,
            StateChange::Xit { enabled, offset_hz } => self.xit_enabled != enabled
                || self.xit_offset_hz != offset_hz,
            StateChange::TxPower { power } => self.tx_power != power,
        }
    }

    /// The changes that rebuild this snapshot, the receive VFO last.
    pub open spec fn changes(self) -> Seq<StateChange> {
        seq![
            StateChange::Freq { vfo: Vfo::A, hz: self.a.freq_hz },
            StateChange::Freq { vfo: Vfo::B, hz: self.b.freq_hz },
            StateChange::Mode { vfo: Vfo::A, mode: self.a.mode },
            StateChange::Mode { vfo: Vfo::B, mode: self.b.mode },
            StateChange::DataMode { vfo: Vfo::A, on: self.a.data },
            StateChange::DataMode { vfo: Vfo::B, on: self.b.data },
            StateChange::Split { enabled: self.split, tx_vfo: Some(self.tx_vfo) },
            StateChange::Rit { enabled: self.rit_enabled, offset_hz: self.rit_offset_hz },
            StateChange::Xit { enabled: self.xit_enabled, offset_hz: self.xit_offset_hz },
            StateChange::Ptt { keyed: self.ptt },
            StateChange::TxPower { power: self.tx_power },
            StateChange::RxVfo { vfo: self.rx_vfo },
        ]
    }

    /// The view of one VFO.
    #[must_use]
    pub fn vfo(&self, vfo: Vfo) -> (r: VfoSnapshot)
        ensures
            r == self.of(vfo),
    {
        match vfo {
            Vfo::A => self.a,
            Vfo::B => self.b,
        }
    }

    /// Whether applying `mutation` would leave the radio unchanged from this snapshot.
    ///
    /// The hub forwards a modeled write to the wire only when it would actually change the
    /// radio. Re-sending a value the radio already holds is not just wasted I/O: on the
    /// TS-590 every redundant `MD`/`FA` set makes the radio emit its PC-control beep. PTT is
    /// never redundant: keying and unkeying must always reach the radio and participate in
    /// the single-owner lease.
    #[must_use]
    pub fn is_redundant(&self, mutation: &StateMutation) -> (r: bool)
        ensures
            r == self.redundant(*mutation),
    {
        match *mutation {
            StateMutation::SetRxVfo { vfo } => self.rx_vfo == vfo,
            StateMutation::SetVfoFreq { vfo, hz } => self.vfo(vfo).freq_hz == hz,
            StateMutation::SetMode { vfo: _, mode } => self.vfo(self.rx_vfo).mode.to_kenwood_digit()
                == mode.to_kenwood_digit(),
            StateMutation::SetDataMode { vfo, on } => self.vfo(vfo).data == on,
            StateMutation::SetSplit { enabled, tx_vfo } => {
                let target = match tx_vfo {
                    Some(vfo) => vfo,
                    None => self.tx_vfo,
                };
                self.split == enabled && self.tx_vfo == target
            },
            StateMutation::SetRit { offset_hz, enabled } => self.rit_enabled == enabled
                && self.rit_offset_hz == offset_hz,
            StateMutation::SetXit { offset_hz, enabled } => self.xit_enabled == enabled
                && self.xit_offset_hz == offset_hz,
            StateMutation::SetPtt { keyed: _, source: _ } => false,
        }
    }

    /// Decompose this snapshot into the full ordered list of [`StateChange`]s that
    /// reconstruct it.
    ///
    /// Used to re-synchronize a client session that fell behind: replaying these through the
    /// dialect's notification formatter restores the client to the current radio state even
    /// when a one-shot event (a mode or VFO change) was lost. `RxVfo` comes last so a foreign
    /// dialect's VFO-switch frame (which leads with the active `FA`/`MD`) reflects the final
    /// state.
    #[must_use]
    pub fn as_changes(&self) -> (r: Vec<StateChange>)
        ensures
            r@ == self.changes(),
    {
        let r = vec![
            StateChange::Freq { vfo: Vfo::A, hz: self.a.freq_hz },
            StateChange::Freq { vfo: Vfo::B, hz: self.b.freq_hz },
            StateChange::Mode { vfo: Vfo::A, mode: self.a.mode },
            StateChange::Mode { vfo: Vfo::B, mode: self.b.mode },
            StateChange::DataMode { vfo: Vfo::A, on: self.a.data },
            StateChange::DataMode { vfo: Vfo::B, on: self.b.data },
            StateChange::Split { enabled: self.split, tx_vfo: Some(self.tx_vfo) },
            StateChange::Rit { enabled: self.rit_enabled, offset_hz: self.rit_offset_hz },
            StateChange::Xit { enabled: self.xit_enabled, offset_hz: self.xit_offset_hz },
            StateChange::Ptt { keyed: self.ptt },
            StateChange::TxPower { power: self.tx_power },
            StateChange::RxVfo { vfo: self.rx_vfo },
        ];
        proof {
            assert(r@ =~= self.changes());
        }
        r
    }
}

/// Whether a change gives a field another value.
fn would_change(snap: &Snapshot, change: StateChange) -> (r: bool)
    ensures
        r == snap.changed_by(change),
{
    proof {
        reveal(Snapshot::changed_by);
    }
    match change {
        StateChange::RxVfo { vfo } => snap.rx_vfo != vfo,
        StateChange::Freq { vfo, hz } => snap.vfo(vfo).freq_hz != hz,
        StateChange::Mode { vfo, mode } => snap.vfo(vfo).mode != mode,
        StateChange::DataMode { vfo, on } => snap.vfo(vfo).data != on,
        StateChange::Split { enabled, tx_vfo } => snap.split != enabled || match tx_vfo {
            Some(vfo) => vfo != snap.tx_vfo,
            None => false,
        },
        StateChange::Ptt { keyed } => snap.ptt != keyed,
        StateChange::Rit { enabled, offset_hz } => snap.rit_enabled != enabled
            || snap.rit_offset_hz != offset_hz,
        StateChange::Xit { enabled, offset_hz } => snap.xit_enabled != enabled
            || snap.xit_offset_hz != offset_hz,
        StateChange::TxPower { power } => match (snap.tx_power, power) {
            (Some(a), Some(b)) => a != b,
            (None, None) => false,
            _ => true,
        },
    }
}

/// The view of one VFO after a change that concerns it.
fn changed_vfo(view: VfoSnapshot, change: StateChange) -> (r: VfoSnapshot)
    ensures
        r == match change {
            StateChange::Freq { vfo, hz } => VfoSnapshot { freq_hz: hz, ..view },
            StateChange::Mode { vfo, mode } => VfoSnapshot { mode, mode_known: true, ..view },
            StateChange::DataMode { vfo, on } => VfoSnapshot { data: on, ..view },
            _ => view,
        },
{
    match change {
        StateChange::Freq { vfo: _, hz } => VfoSnapshot { freq_hz: hz, ..view },
        StateChange::Mode { vfo: _, mode } => VfoSnapshot { mode, mode_known: true, ..view },
        StateChange::DataMode { vfo: _, on } => VfoSnapshot { data: on, ..view },
        _ => view,
    }
}

/// Replace the view of the VFO that a change concerns.
#[verifier::spinoff_prover]
fn apply_vfo_change(snap: &mut Snapshot, vfo: Vfo, change: StateChange)
    requires
        match change {
            StateChange::Freq { vfo: target, hz } => target == vfo,
            StateChange::Mode { vfo: target, mode } => target == vfo,
            StateChange::DataMode { vfo: target, on } => target == vfo,
            _ => false,
        },
    ensures
        *final(snap) == old(snap).after(change),
{
    proof {
        reveal(Snapshot::after);
    }
    match vfo {
        Vfo::A => {
            snap.a = changed_vfo(snap.a, change);
        },
        Vfo::B => {
            snap.b = changed_vfo(snap.b, change);
        },
    }
}

/// Set a switch of the radio as a change says.
#[verifier::spinoff_prover]
fn apply_switch_change(snap: &mut Snapshot, change: StateChange)
    requires
        change is RxVfo || change is Split || change is Ptt,
    ensures
        *final(snap) == old(snap).after(change),
{
    proof {
        reveal(Snapshot::after);
    }
    match change {
        StateChange::RxVfo { vfo } => {
            snap.rx_vfo = vfo;
        },
        StateChange::Split { enabled, tx_vfo } => {
            snap.split = enabled;
            if let Some(vfo) = tx_vfo {
                snap.tx_vfo = vfo;
            }
        },
        StateChange::Ptt { keyed } => {
            snap.ptt = keyed;
        },
        _ => {},
    }
}

/// Set an offset or the power of the radio as a change says.
#[verifier::spinoff_prover]
fn apply_level_change(snap: &mut Snapshot, change: StateChange)
    requires
        change is Rit || change is Xit || change is TxPower,
    ensures
        *final(snap) == old(snap).after(change),
{
    proof {
        reveal(Snapshot::after);
    }
    match change {
        StateChange::Rit { enabled, offset_hz } => {
            snap.rit_enabled = enabled;
            snap.rit_offset_hz = offset_hz;
        },
        StateChange::Xit { enabled, offset_hz } => {
            snap.xit_enabled = enabled;
            snap.xit_offset_hz = offset_hz;
        },
        StateChange::TxPower { power } => {
            snap.tx_power = power;
        },
        _ => {},
    }
}

/// Apply a change to the snapshot, returning whether any value actually changed. The value that
/// the change names is then the one that it brings, and no other value changes.
pub fn apply_change(snap: &mut Snapshot, change: StateChange) -> (r: bool)
    ensures
        *final(snap) == old(snap).after(change),
        r == old(snap).changed_by(change),
        r <==> !old(snap).shows(change),
        final(snap).shows(change),
        !final(snap).changed_by(change),
        !r ==> *final(snap) == old(snap).noting(change),
        forall|other: StateChange|
            !same_value(change, other) ==> #[trigger] final(snap).shows(other) == old(snap).shows(
                other,
            ),
{
    proof {
        law_changes_are_exact(*old(snap), change);
    }
    let changed: bool = would_change(snap, change);
    match change {
        StateChange::Freq { vfo, hz: _ } => apply_vfo_change(snap, vfo, change),
        StateChange::Mode { vfo, mode: _ } => apply_vfo_change(snap, vfo, change),
        StateChange::DataMode { vfo, on: _ } => apply_vfo_change(snap, vfo, change),
        StateChange::Rit { enabled: _, offset_hz: _ } => apply_level_change(snap, change),
        StateChange::Xit { enabled: _, offset_hz: _ } => apply_level_change(snap, change),
        StateChange::TxPower { power: _ } => apply_level_change(snap, change),
        _ => apply_switch_change(snap, change),
    }
    changed
}

/// An ordered radio-output event delivered to endpoints for auto-information fan-out.
///
/// Both modeled changes and unmodeled native frames travel in the **same** order, so
/// endpoints observe them in the order the radio produced them, which matters for native
/// pass-through clients that consume the CAT stream directly.
#[derive(Debug, Clone, PartialEq, Eq)]
pub enum RadioEvent {
    /// A coalesced modeled state change (poll diff or native push).
    Change(StateChange),
    /// An unsolicited native frame the backend does not model, forwarded verbatim to
    /// native pass-through endpoints.
    Raw(Vec<u8>),
    /// A native frame the backend *did* model, forwarded verbatim for transparent mirror
    /// endpoints. Virtualizing endpoints ignore it: they consume the coalesced change instead.
    RawNative(Vec<u8>),
}

/// What the hub knows of the radio.
pub struct RadioState {
    /// The cached view of the radio.
    pub snapshot: Snapshot,
    /// The fields that the radio's native push has been seen to cover.
    pub covered: Set<Field>,
    /// The VFOs whose cached base mode may be stale.
    pub uncertain_mode: Set<Vfo>,
    /// The VFOs whose cached DATA flag may be stale.
    pub uncertain_data: Set<Vfo>,
}

impl RadioState {
    /// What recording a change does.
    ///
    /// A frequency set by the hub can cross a band boundary and recall that band's stored
    /// mode and DATA flag, so both become uncertain. Each becomes certain again as soon as it
    /// is observed or written, even where its value does not change.
    pub open spec fn recorded(self, change: StateChange, source: RadioEventSource) -> RadioState {
        let retuned = source == RadioEventSource::OptimisticWrite && self.snapshot.changed_by(
            change,
        );
        RadioState {
            snapshot: self.snapshot.after(change),
            covered: if source == RadioEventSource::NativePush {
                self.covered.insert(change.key())
            } else {
                self.covered
            },
            uncertain_mode: match change {
                StateChange::Freq { vfo, hz } => if retuned {
                    self.uncertain_mode.insert(vfo)
                } else {
                    self.uncertain_mode
                },
                StateChange::Mode { vfo, mode } => self.uncertain_mode.remove(vfo),
                _ => self.uncertain_mode,
            },
            uncertain_data: match change {
                StateChange::Freq { vfo, hz } => if retuned {
                    self.uncertain_data.insert(vfo)
                } else {
                    self.uncertain_data
                },
                StateChange::DataMode { vfo, on } => self.uncertain_data.remove(vfo),
                _ => self.uncertain_data,
            },
        }
    }

    /// Whether a modeled write is safely redundant: an uncertain fact never is.
    pub open spec fn redundant(self, mutation: StateMutation) -> bool {
        &&& self.snapshot.redundant(mutation)
        &&& match mutation {
            StateMutation::SetMode { vfo, mode } => !self.uncertain_mode.contains(vfo),
            StateMutation::SetDataMode { vfo, on } => !self.uncertain_data.contains(vfo),
            _ => true,
        }
    }
}

/// What recording several changes in order does.
pub open spec fn recorded_all(
    state: RadioState,
    changes: Seq<StateChange>,
    source: RadioEventSource,
) -> RadioState
    decreases changes.len(),
{
    if changes.len() == 0 {
        state
    } else {
        recorded_all(state.recorded(changes[0], source), changes.skip(1), source)
    }
}

/// The announcements that recording several changes in order makes.
pub open spec fn announced(
    state: RadioState,
    changes: Seq<StateChange>,
    source: RadioEventSource,
) -> Seq<RadioEvent>
    decreases changes.len(),
{
    if changes.len() == 0 {
        Seq::empty()
    } else {
        let first = if state.snapshot.changed_by(changes[0]) {
            seq![RadioEvent::Change(changes[0])]
        } else {
            Seq::empty()
        };
        first + announced(state.recorded(changes[0], source), changes.skip(1), source)
    }
}

/// A radio at rest that nothing has been observed of.
pub open spec fn fresh_state() -> RadioState {
    RadioState {
        snapshot: radio_at_rest(),
        covered: Set::empty(),
        uncertain_mode: Set::empty(),
        uncertain_data: Set::empty(),
    }
}

/// The universal state.
#[derive(Debug, Clone, PartialEq, Eq)]
pub struct StateHandle {
    snapshot: Snapshot,
    covered: Vec<Field>,
    uncertain_mode_a: bool,
    uncertain_mode_b: bool,
    uncertain_data_a: bool,
    uncertain_data_b: bool,
}

/// The VFOs among two flags.
pub open spec fn flagged(a: bool, b: bool) -> Set<Vfo> {
    Set::new(
        |vfo: Vfo|
            match vfo {
                Vfo::A => a,
                Vfo::B => b,
            },
    )
}

impl View for StateHandle {
    type V = RadioState;

    closed spec fn view(&self) -> RadioState {
        RadioState {
            snapshot: self.snapshot,
            covered: self.covered@.to_set(),
            uncertain_mode: flagged(self.uncertain_mode_a, self.uncertain_mode_b),
            uncertain_data: flagged(self.uncertain_data_a, self.uncertain_data_b),
        }
    }
}

impl StateHandle {
    /// Create an empty state at its defaults.
    #[must_use]
    pub fn new() -> (r: Self)
        ensures
            r@ == fresh_state(),
    {
        let r = StateHandle {
            snapshot: Snapshot::default(),
            covered: Vec::new(),
            uncertain_mode_a: false,
            uncertain_mode_b: false,
            uncertain_data_a: false,
            uncertain_data_b: false,
        };
        proof {
            assert(r@.covered =~= Set::<Field>::empty());
            assert(r@.uncertain_mode =~= Set::<Vfo>::empty());
            assert(r@.uncertain_data =~= Set::<Vfo>::empty());
        }
        r
    }

    /// Record an observed change. The change is applied to the snapshot, and is returned to be
    /// announced **only if it actually changes a value**. A native push additionally marks the
    /// field as natively covered so the poller can back off.
    #[verifier::spinoff_prover]
    #[verifier::rlimit(40)]
    pub fn record(&mut self, change: StateChange, source: RadioEventSource) -> (r: Option<
        RadioEvent,
    >)
        ensures
            final(self)@ == old(self)@.recorded(change, source),
            r == if old(self)@.snapshot.changed_by(change) {
                Some(RadioEvent::Change(change))
            } else {
                None::<RadioEvent>
            },
    {
        if source == RadioEventSource::NativePush {
            let field = change.field();
            if !self.is_native_push_covered(field) {
                self.covered.push(field);
            }
            proof {
                assert(self.covered@.to_set() =~= old(self).covered@.to_set().insert(field)) by {
                    if old(self).covered@.contains(field) {
                    } else {
                        assert(self.covered@ == old(self).covered@.push(field));
                        assert(self.covered@.last() == field);
                        assert forall|f: Field| self.covered@.contains(f) implies f == field
                            || old(self).covered@.contains(f) by {
                        }
                        assert forall|f: Field| old(self).covered@.contains(f) implies self.covered@.contains(
                            f,
                        ) by {
                            let i = old(self).covered@.index_of(f);
                            assert(self.covered@[i] == f);
                        }
                    }
                }
            }
        }
        let changed: bool = apply_change(&mut self.snapshot, change);
        match change {
            StateChange::Freq { vfo, hz: _ } => {
                if changed && source == RadioEventSource::OptimisticWrite {
                    match vfo {
                        Vfo::A => {
                            self.uncertain_mode_a = true;
                            self.uncertain_data_a = true;
                        },
                        Vfo::B => {
                            self.uncertain_mode_b = true;
                            self.uncertain_data_b = true;
                        },
                    }
                }
            },
            StateChange::Mode { vfo, mode: _ } => match vfo {
                Vfo::A => {
                    self.uncertain_mode_a = false;
                },
                Vfo::B => {
                    self.uncertain_mode_b = false;
                },
            },
            StateChange::DataMode { vfo, on: _ } => match vfo {
                Vfo::A => {
                    self.uncertain_data_a = false;
                },
                Vfo::B => {
                    self.uncertain_data_b = false;
                },
            },
            _ => {},
        }
        proof {
            let want = old(self)@.recorded(change, source);
            assert(self@.uncertain_mode =~= want.uncertain_mode);
            assert(self@.uncertain_data =~= want.uncertain_data);
            assert(self@.covered =~= want.covered);
        }
        if changed {
            Some(RadioEvent::Change(change))
        } else {
            None
        }
    }

    /// Record several observed changes in order and append what is to be announced.
    pub fn record_all(
        &mut self,
        changes: &Vec<StateChange>,
        source: RadioEventSource,
        events: &mut Vec<RadioEvent>,
    )
        ensures
            final(self)@ == recorded_all(old(self)@, changes@, source),
            final(events)@ == old(events)@ + announced(old(self)@, changes@, source),
    {
        let mut i: usize = 0;
        proof {
            assert(changes@.skip(0) =~= changes@);
            assert(events@ + announced(self@, changes@, source) =~= old(events)@ + announced(
                old(self)@,
                changes@,
                source,
            ));
        }
        while i < changes.len()
            invariant
                i <= changes@.len(),
                recorded_all(self@, changes@.skip(i as int), source) == recorded_all(
                    old(self)@,
                    changes@,
                    source,
                ),
                events@ + announced(self@, changes@.skip(i as int), source) == old(events)@
                    + announced(old(self)@, changes@, source),
            decreases changes@.len() - i,
        {
            let ghost before = self@;
            let ghost told = events@;
            proof {
                assert(changes@.skip(i as int).skip(1) =~= changes@.skip(i + 1));
                assert(changes@.skip(i as int)[0] == changes@[i as int]);
            }
            match self.record(changes[i], source) {
                Some(event) => {
                    events.push(event);
                },
                None => {},
            }
            proof {
                assert(told + announced(before, changes@.skip(i as int), source) =~= events@
                    + announced(self@, changes@.skip(i + 1), source));
            }
            i = i + 1;
        }
        proof {
            assert(changes@.skip(i as int) =~= Seq::empty());
            assert(events@ + Seq::<RadioEvent>::empty() =~= events@);
        }
    }

    /// A consistent point-in-time view of the radio.
    #[must_use]
    pub fn snapshot(&self) -> (r: Snapshot)
        ensures
            r == self@.snapshot,
    {
        self.snapshot
    }

    /// Whether a modeled write is safely redundant against the current cache.
    ///
    /// Mode facts invalidated by an optimistic frequency change are deliberately treated as
    /// non-redundant until the radio reports them or a client re-asserts them. Other fields
    /// retain the snapshot's ordinary idempotent suppression.
    #[must_use]
    pub fn is_redundant(&self, mutation: &StateMutation) -> (r: bool)
        ensures
            r == self@.redundant(*mutation),
    {
        let invalidated: bool = match *mutation {
            StateMutation::SetMode { vfo, mode: _ } => match vfo {
                Vfo::A => self.uncertain_mode_a,
                Vfo::B => self.uncertain_mode_b,
            },
            StateMutation::SetDataMode { vfo, on: _ } => match vfo {
                Vfo::A => self.uncertain_data_a,
                Vfo::B => self.uncertain_data_b,
            },
            _ => false,
        };
        !invalidated && self.snapshot.is_redundant(mutation)
    }

    /// Whether the radio's native push stream has been observed to cover this field.
    #[must_use]
    pub fn is_native_push_covered(&self, field: Field) -> (r: bool)
        ensures
            r == self@.covered.contains(field),
    {
        let mut i: usize = 0;
        while i < self.covered.len()
            invariant
                i <= self.covered@.len(),
                forall|j: int| 0 <= j < i ==> #[trigger] self.covered@[j] != field,
            decreases self.covered@.len() - i,
        {
            if self.covered[i] == field {
                return true;
            }
            i = i + 1;
        }
        false
    }
}

/// The announcement of an unsolicited native frame that the backend does not model.
#[must_use]
pub fn record_raw(frame: &[u8]) -> (r: RadioEvent)
    ensures
        r matches RadioEvent::Raw(bytes) && bytes@ == frame@,
{
    RadioEvent::Raw(vstd::slice::slice_to_vec(frame))
}

/// The announcement of a *modeled* native frame, verbatim for transparent mirror endpoints.
#[must_use]
pub fn record_raw_native(frame: &[u8]) -> (r: RadioEvent)
    ensures
        r matches RadioEvent::RawNative(bytes) && bytes@ == frame@,
{
    RadioEvent::RawNative(vstd::slice::slice_to_vec(frame))
}

/// A snapshot once several changes are observed in order.
pub open spec fn after_all(snapshot: Snapshot, changes: Seq<StateChange>) -> Snapshot
    decreases changes.len(),
{
    if changes.len() == 0 {
        snapshot
    } else {
        after_all(snapshot.after(changes[0]), changes.skip(1))
    }
}

/// Replaying the changes of a snapshot over any other one rebuilds it, but for what no
/// change carries: the passband of each VFO and the power switch. Both modes are then known.
#[verifier::spinoff_prover]
pub proof fn law_changes_rebuild(target: Snapshot, start: Snapshot)
    ensures
        after_all(start, target.changes()) == (Snapshot {
            a: VfoSnapshot { mode_known: true, passband_hz: start.a.passband_hz, ..target.a },
            b: VfoSnapshot { mode_known: true, passband_hz: start.b.passband_hz, ..target.b },
            power_on: start.power_on,
            ..target
        }),
{
    let c = target.changes();
    let s4 = lemma_replay_first(target, start);
    let s8 = lemma_replay_second(target, s4);
    let s12 = lemma_replay_third(target, s8);
    assert(c.skip(0) =~= c);
    assert(c.skip(12) =~= Seq::empty());
}

/// The first four steps of a replay: frequencies and modes.
#[verifier::spinoff_prover]
proof fn lemma_replay_first(target: Snapshot, from: Snapshot) -> (to: Snapshot)
    ensures
        after_all(from, target.changes().skip(0)) == after_all(to, target.changes().skip(4)),
        to == (Snapshot {
            a: VfoSnapshot {
                freq_hz: target.a.freq_hz,
                mode: target.a.mode,
                mode_known: true,
                ..from.a
            },
            b: VfoSnapshot {
                freq_hz: target.b.freq_hz,
                mode: target.b.mode,
                mode_known: true,
                ..from.b
            },
            ..from
        }),
{
    let c = target.changes();
    let s1 = lemma_replay_step(from, c, 0);
    let s2 = lemma_replay_step(s1, c, 1);
    let s3 = lemma_replay_step(s2, c, 2);
    let s4 = lemma_replay_step(s3, c, 3);
    reveal(Snapshot::after);
    s4
}

/// The next four steps of a replay: DATA flags, split and RIT.
#[verifier::spinoff_prover]
proof fn lemma_replay_second(target: Snapshot, from: Snapshot) -> (to: Snapshot)
    ensures
        after_all(from, target.changes().skip(4)) == after_all(to, target.changes().skip(8)),
        to == (Snapshot {
            a: VfoSnapshot { data: target.a.data, ..from.a },
            b: VfoSnapshot { data: target.b.data, ..from.b },
            split: target.split,
            tx_vfo: target.tx_vfo,
            rit_enabled: target.rit_enabled,
            rit_offset_hz: target.rit_offset_hz,
            ..from
        }),
{
    let c = target.changes();
    let s1 = lemma_replay_step(from, c, 4);
    let s2 = lemma_replay_step(s1, c, 5);
    let s3 = lemma_replay_step(s2, c, 6);
    let s4 = lemma_replay_step(s3, c, 7);
    reveal(Snapshot::after);
    s4
}

/// The last four steps of a replay: XIT, keying, power and the receive VFO.
#[verifier::spinoff_prover]
proof fn lemma_replay_third(target: Snapshot, from: Snapshot) -> (to: Snapshot)
    ensures
        after_all(from, target.changes().skip(8)) == after_all(to, target.changes().skip(12)),
        to == (Snapshot {
            xit_enabled: target.xit_enabled,
            xit_offset_hz: target.xit_offset_hz,
            ptt: target.ptt,
            tx_power: target.tx_power,
            rx_vfo: target.rx_vfo,
            ..from
        }),
{
    let c = target.changes();
    let s1 = lemma_replay_step(from, c, 8);
    let s2 = lemma_replay_step(s1, c, 9);
    let s3 = lemma_replay_step(s2, c, 10);
    let s4 = lemma_replay_step(s3, c, 11);
    reveal(Snapshot::after);
    s4
}

/// One step of a replay.
proof fn lemma_replay_step(from: Snapshot, changes: Seq<StateChange>, i: int) -> (to: Snapshot)
    requires
        0 <= i < changes.len(),
    ensures
        to == from.after(changes[i]),
        after_all(from, changes.skip(i)) == after_all(to, changes.skip(i + 1)),
{
    assert(changes.skip(i).skip(1) =~= changes.skip(i + 1));
    from.after(changes[i])
}

/// Whether two changes are of the same value of the radio.
pub open spec fn same_value(a: StateChange, b: StateChange) -> bool {
    match (a, b) {
        (StateChange::RxVfo { .. }, StateChange::RxVfo { .. }) => true,
        (StateChange::Freq { vfo: x, .. }, StateChange::Freq { vfo: y, .. }) => x == y,
        (StateChange::Mode { vfo: x, .. }, StateChange::Mode { vfo: y, .. }) => x == y,
        (StateChange::DataMode { vfo: x, .. }, StateChange::DataMode { vfo: y, .. }) => x == y,
        (StateChange::Split { .. }, StateChange::Split { .. }) => true,
        (StateChange::Ptt { .. }, StateChange::Ptt { .. }) => true,
        (StateChange::Rit { .. }, StateChange::Rit { .. }) => true,
        (StateChange::Xit { .. }, StateChange::Xit { .. }) => true,
        (StateChange::TxPower { .. }, StateChange::TxPower { .. }) => true,
        _ => false,
    }
}

impl Snapshot {
    /// Whether the value that a change names is the one that it brings. A split that names no
    /// transmit VFO leaves that open.
    #[verifier::opaque]
    pub open spec fn shows(self, change: StateChange) -> bool {
        match change {
            StateChange::RxVfo { vfo } => self.rx_vfo == vfo,
            StateChange::Freq { vfo, hz } => self.of(vfo).freq_hz == hz,
            StateChange::Mode { vfo, mode } => self.of(vfo).mode == mode,
            StateChange::DataMode { vfo, on } => self.of(vfo).data == on,
            StateChange::Split { enabled, tx_vfo } => self.split == enabled && (tx_vfo is Some
                ==> tx_vfo == Some(self.tx_vfo)),
            StateChange::Ptt { keyed } => self.ptt == keyed,
            StateChange::Rit { enabled, offset_hz } => (self.rit_enabled, self.rit_offset_hz) == (
                enabled,
                offset_hz,
            ),
            StateChange::Xit { enabled, offset_hz } => (self.xit_enabled, self.xit_offset_hz) == (
                enabled,
                offset_hz,
            ),
            StateChange::TxPower { power } => self.tx_power == power,
        }
    }

    /// The snapshot with the mode noted as observed that a change is of.
    #[verifier::opaque]
    pub open spec fn noting(self, change: StateChange) -> Snapshot {
        match change {
            StateChange::Mode { vfo, mode } => self.with(
                vfo,
                VfoSnapshot { mode_known: true, ..self.of(vfo) },
            ),
            _ => self,
        }
    }
}

/// A change counts exactly where the value that it names differed before, and afterwards the
/// value is the one that it brings. No other value changes, nor what no change carries, but
/// that a mode is noted as observed; a split that names no transmit VFO keeps it.
pub proof fn law_changes_are_exact(snapshot: Snapshot, change: StateChange)
    ensures
        snapshot.changed_by(change) <==> !snapshot.shows(change),
        snapshot.changed_by(change) <==> snapshot.after(change) != snapshot.noting(change),
        snapshot.after(change).shows(change),
        !snapshot.after(change).changed_by(change),
        snapshot.after(change).after(change) == snapshot.after(change),
        forall|other: StateChange|
            !same_value(change, other) ==> #[trigger] snapshot.after(change).shows(other)
                == snapshot.shows(other),
        forall|vfo: Vfo|
            {
                let now = #[trigger] snapshot.after(change).of(vfo);
                &&& now.passband_hz == snapshot.of(vfo).passband_hz
                &&& now.mode_known == snapshot.noting(change).of(vfo).mode_known
            },
        snapshot.after(change).power_on == snapshot.power_on,
        change matches StateChange::Split { tx_vfo: None, .. } ==> snapshot.after(change).tx_vfo
            == snapshot.tx_vfo,
{
    law_change_is_idempotent(snapshot, change);
    lemma_change_counts(snapshot, change);
    assert forall|other: StateChange| !same_value(change, other) implies #[trigger] snapshot.after(
        change,
    ).shows(other) == snapshot.shows(other) by {
        lemma_change_spares(snapshot, change, other);
    }
    lemma_change_keeps(snapshot, change);
}

#[verifier::spinoff_prover]
#[verifier::rlimit(40)]
proof fn lemma_change_counts(snapshot: Snapshot, change: StateChange)
    ensures
        snapshot.changed_by(change) <==> !snapshot.shows(change),
        snapshot.changed_by(change) <==> snapshot.after(change) != snapshot.noting(change),
        snapshot.after(change).shows(change),
{
    reveal(Snapshot::after);
    reveal(Snapshot::shows);
    reveal(Snapshot::noting);
    reveal(Snapshot::changed_by);
    match change {
        StateChange::Freq { vfo, .. } => match vfo {
            Vfo::A => {},
            Vfo::B => {},
        },
        StateChange::Mode { vfo, .. } => match vfo {
            Vfo::A => {},
            Vfo::B => {},
        },
        StateChange::DataMode { vfo, .. } => match vfo {
            Vfo::A => {},
            Vfo::B => {},
        },
        _ => {},
    }
}

proof fn lemma_change_spares(snapshot: Snapshot, change: StateChange, other: StateChange)
    requires
        !same_value(change, other),
    ensures
        snapshot.after(change).shows(other) == snapshot.shows(other),
{
    if change is Freq {
        lemma_freq_spares(snapshot, change, other);
    } else if change is Mode {
        lemma_mode_spares(snapshot, change, other);
    } else if change is DataMode {
        lemma_data_spares(snapshot, change, other);
    } else if change is Rit || change is Xit || change is TxPower {
        lemma_level_spares(snapshot, change, other);
    } else {
        lemma_switch_spares(snapshot, change, other);
    }
}

#[verifier::spinoff_prover]
#[verifier::rlimit(40)]
proof fn lemma_freq_spares(snapshot: Snapshot, change: StateChange, other: StateChange)
    requires
        change is Freq,
        !same_value(change, other),
    ensures
        snapshot.after(change).shows(other) == snapshot.shows(other),
{
    reveal(Snapshot::after);
    reveal(Snapshot::shows);
}

#[verifier::spinoff_prover]
#[verifier::rlimit(40)]
proof fn lemma_mode_spares(snapshot: Snapshot, change: StateChange, other: StateChange)
    requires
        change is Mode,
        !same_value(change, other),
    ensures
        snapshot.after(change).shows(other) == snapshot.shows(other),
{
    reveal(Snapshot::after);
    reveal(Snapshot::shows);
}

#[verifier::spinoff_prover]
#[verifier::rlimit(40)]
proof fn lemma_data_spares(snapshot: Snapshot, change: StateChange, other: StateChange)
    requires
        change is DataMode,
        !same_value(change, other),
    ensures
        snapshot.after(change).shows(other) == snapshot.shows(other),
{
    reveal(Snapshot::after);
    reveal(Snapshot::shows);
}

#[verifier::spinoff_prover]
#[verifier::rlimit(40)]
proof fn lemma_level_spares(snapshot: Snapshot, change: StateChange, other: StateChange)
    requires
        change is Rit || change is Xit || change is TxPower,
        !same_value(change, other),
    ensures
        snapshot.after(change).shows(other) == snapshot.shows(other),
{
    reveal(Snapshot::after);
    reveal(Snapshot::shows);
}

#[verifier::spinoff_prover]
#[verifier::rlimit(40)]
proof fn lemma_switch_spares(snapshot: Snapshot, change: StateChange, other: StateChange)
    requires
        change is RxVfo || change is Split || change is Ptt,
        !same_value(change, other),
    ensures
        snapshot.after(change).shows(other) == snapshot.shows(other),
{
    reveal(Snapshot::after);
    reveal(Snapshot::shows);
}

#[verifier::spinoff_prover]
#[verifier::rlimit(40)]
proof fn lemma_change_keeps(snapshot: Snapshot, change: StateChange)
    ensures
        forall|vfo: Vfo|
            {
                let now = #[trigger] snapshot.after(change).of(vfo);
                &&& now.passband_hz == snapshot.of(vfo).passband_hz
                &&& now.mode_known == snapshot.noting(change).of(vfo).mode_known
            },
        snapshot.after(change).power_on == snapshot.power_on,
        change matches StateChange::Split { tx_vfo: None, .. } ==> snapshot.after(change).tx_vfo
            == snapshot.tx_vfo,
{
    reveal(Snapshot::after);
    reveal(Snapshot::noting);
}

/// Observing the same change again changes no value, so nothing is announced twice.
pub proof fn law_change_is_idempotent(snapshot: Snapshot, change: StateChange)
    ensures
        !snapshot.after(change).changed_by(change),
        snapshot.after(change).after(change) == snapshot.after(change),
{
    if change is Freq || change is Mode || change is DataMode {
        lemma_vfo_change_is_idempotent(snapshot, change);
    } else if change is Rit || change is Xit || change is TxPower {
        lemma_offset_change_is_idempotent(snapshot, change);
    } else {
        lemma_switch_change_is_idempotent(snapshot, change);
    }
}

#[verifier::spinoff_prover]
proof fn lemma_vfo_change_is_idempotent(snapshot: Snapshot, change: StateChange)
    requires
        change is Freq || change is Mode || change is DataMode,
    ensures
        !snapshot.after(change).changed_by(change),
        snapshot.after(change).after(change) == snapshot.after(change),
{
    reveal(Snapshot::after);
    reveal(Snapshot::changed_by);
}

#[verifier::spinoff_prover]
proof fn lemma_offset_change_is_idempotent(snapshot: Snapshot, change: StateChange)
    requires
        change is Rit || change is Xit || change is TxPower,
    ensures
        !snapshot.after(change).changed_by(change),
        snapshot.after(change).after(change) == snapshot.after(change),
{
    reveal(Snapshot::after);
    reveal(Snapshot::changed_by);
}

#[verifier::spinoff_prover]
proof fn lemma_switch_change_is_idempotent(snapshot: Snapshot, change: StateChange)
    requires
        change is RxVfo || change is Split || change is Ptt,
    ensures
        !snapshot.after(change).changed_by(change),
        snapshot.after(change).after(change) == snapshot.after(change),
{
    reveal(Snapshot::after);
    reveal(Snapshot::changed_by);
}

/// Apart from modes and keying, a write is redundant exactly when its change changes no
/// value.
pub proof fn law_redundant_writes(snapshot: Snapshot, mutation: StateMutation)
    requires
        !(mutation is SetMode),
        !(mutation is SetPtt),
    ensures
        snapshot.redundant(mutation) <==> !snapshot.changed_by(mutation.change()),
{
    reveal(Snapshot::changed_by);
}

/// Keying and unkeying always reach the radio.
pub proof fn law_ptt_is_never_redundant(state: RadioState, mutation: StateMutation)
    requires
        mutation is SetPtt,
    ensures
        !state.redundant(mutation),
{
}

/// After the hub retunes a VFO, no mode or DATA write to that VFO is suppressed until the
/// fact is observed again.
pub proof fn law_retuning_makes_modes_uncertain(
    state: RadioState,
    vfo: Vfo,
    hz: u64,
    mode: Mode,
    on: bool,
)
    requires
        state.snapshot.of(vfo).freq_hz != hz,
    ensures
        ({
            let tuned = state.recorded(
                StateChange::Freq { vfo, hz },
                RadioEventSource::OptimisticWrite,
            );
            &&& !tuned.redundant(StateMutation::SetMode { vfo, mode })
            &&& !tuned.redundant(StateMutation::SetDataMode { vfo, on })
        }),
{
    reveal(Snapshot::changed_by);
}

/// A mode or DATA flag that is recorded is certain again.
pub proof fn law_observation_restores_certainty(
    state: RadioState,
    vfo: Vfo,
    mode: Mode,
    on: bool,
    source: RadioEventSource,
)
    ensures
        !state.recorded(StateChange::Mode { vfo, mode }, source).uncertain_mode.contains(vfo),
        !state.recorded(StateChange::DataMode { vfo, on }, source).uncertain_data.contains(vfo),
{
}

/// Only the radio's own push stream counts as coverage.
pub proof fn law_only_native_push_covers(
    state: RadioState,
    change: StateChange,
    source: RadioEventSource,
)
    ensures
        source == RadioEventSource::NativePush ==> state.recorded(change, source).covered.contains(
            change.key(),
        ),
        source != RadioEventSource::NativePush ==> state.recorded(change, source).covered
            == state.covered,
{
}

/// A write that takes effect leaves exactly its own value in the state: the frequency, mode or
/// DATA flag of its VFO, the receive VFO, split with its transmit VFO, keying, or an offset.
pub proof fn law_writes_take_effect(snapshot: Snapshot, mutation: StateMutation)
    ensures
        ({
            let later = snapshot.after(mutation.change());
            match mutation {
                StateMutation::SetVfoFreq { vfo: Vfo::A, hz } => later == (Snapshot {
                    a: VfoSnapshot { freq_hz: hz, ..snapshot.a },
                    ..snapshot
                }),
                StateMutation::SetVfoFreq { vfo: Vfo::B, hz } => later == (Snapshot {
                    b: VfoSnapshot { freq_hz: hz, ..snapshot.b },
                    ..snapshot
                }),
                StateMutation::SetMode { vfo: Vfo::A, mode } => later == (Snapshot {
                    a: VfoSnapshot { mode, mode_known: true, ..snapshot.a },
                    ..snapshot
                }),
                StateMutation::SetMode { vfo: Vfo::B, mode } => later == (Snapshot {
                    b: VfoSnapshot { mode, mode_known: true, ..snapshot.b },
                    ..snapshot
                }),
                StateMutation::SetDataMode { vfo: Vfo::A, on } => later == (Snapshot {
                    a: VfoSnapshot { data: on, ..snapshot.a },
                    ..snapshot
                }),
                StateMutation::SetDataMode { vfo: Vfo::B, on } => later == (Snapshot {
                    b: VfoSnapshot { data: on, ..snapshot.b },
                    ..snapshot
                }),
                StateMutation::SetRxVfo { vfo } => later == (Snapshot { rx_vfo: vfo, ..snapshot }),
                StateMutation::SetSplit { enabled, tx_vfo: Some(vfo) } => later == (Snapshot {
                    split: enabled,
                    tx_vfo: vfo,
                    ..snapshot
                }),
                StateMutation::SetSplit { enabled, tx_vfo: None } => later == (Snapshot {
                    split: enabled,
                    ..snapshot
                }),
                StateMutation::SetPtt { keyed, source } => later == (Snapshot {
                    ptt: keyed,
                    ..snapshot
                }),
                StateMutation::SetRit { offset_hz, enabled } => later == (Snapshot {
                    rit_enabled: enabled,
                    rit_offset_hz: offset_hz,
                    ..snapshot
                }),
                StateMutation::SetXit { offset_hz, enabled } => later == (Snapshot {
                    xit_enabled: enabled,
                    xit_offset_hz: offset_hz,
                    ..snapshot
                }),
            }
        }),
{
    reveal(Snapshot::after);
}

/// A mode is left unsent only where the receive VFO already has a mode with the same digit, and
/// a DATA flag only where its VFO already has it.
pub proof fn law_redundant_modes(state: RadioState, vfo: Vfo, mode: Mode, on: bool)
    ensures
        state.redundant(StateMutation::SetMode { vfo, mode }) <==> state.snapshot.of(
            state.snapshot.rx_vfo,
        ).mode.digit() == mode.digit() && !state.uncertain_mode.contains(vfo),
        state.redundant(StateMutation::SetDataMode { vfo, on }) <==> state.snapshot.of(vfo).data
            == on && !state.uncertain_data.contains(vfo),
{
}

/// Changes share a coverage key exactly where they are of the same value, but that the DATA
/// flag of a VFO shares the key of its mode.
pub proof fn law_coverage_keys(a: StateChange, b: StateChange)
    ensures
        a.key() == b.key() <==> same_value(a, b) || match (a, b) {
            (StateChange::Mode { vfo: x, .. }, StateChange::DataMode { vfo: y, .. }) => x == y,
            (StateChange::DataMode { vfo: x, .. }, StateChange::Mode { vfo: y, .. }) => x == y,
            _ => false,
        },
        a matches StateChange::Freq { vfo, .. } ==> a.key() == Field::Freq(vfo),
{
}

/// What recording a change does to certainty and coverage, VFO by VFO: only a frequency that the
/// hub itself wrote and that changes makes the mode and the DATA flag of that VFO uncertain, only
/// a mode or a DATA flag of the VFO makes it certain again, and nothing else does either.
pub proof fn law_certainty(
    state: RadioState,
    change: StateChange,
    source: RadioEventSource,
    vfo: Vfo,
    field: Field,
)
    ensures
        ({
            let later = state.recorded(change, source);
            let retuned = source == RadioEventSource::OptimisticWrite && match change {
                StateChange::Freq { vfo: w, hz } => w == vfo && state.snapshot.of(vfo).freq_hz != hz,
                _ => false,
            };
            let moded = match change {
                StateChange::Mode { vfo: w, .. } => w == vfo,
                _ => false,
            };
            let flagged = match change {
                StateChange::DataMode { vfo: w, .. } => w == vfo,
                _ => false,
            };
            &&& later.uncertain_mode.contains(vfo) <==> retuned || (state.uncertain_mode.contains(
                vfo,
            ) && !moded)
            &&& later.uncertain_data.contains(vfo) <==> retuned || (state.uncertain_data.contains(
                vfo,
            ) && !flagged)
            &&& later.covered.contains(field) <==> state.covered.contains(field) || (source
                == RadioEventSource::NativePush && change.key() == field)
        }),
{
    reveal(Snapshot::changed_by);
}

/// A change is announced when it changes a value and not otherwise, as it is, in the order in
/// which the changes come; recording it again announces nothing.
pub proof fn law_announcements(
    state: RadioState,
    change: StateChange,
    next: StateChange,
    source: RadioEventSource,
)
    ensures
        announced(state, seq![change], source) == if state.snapshot.changed_by(change) {
            seq![RadioEvent::Change(change)]
        } else {
            Seq::empty()
        },
        announced(state.recorded(change, source), seq![change], source) == Seq::<
            RadioEvent,
        >::empty(),
        announced(state, seq![change, next], source) == announced(state, seq![change], source)
            + announced(state.recorded(change, source), seq![next], source),
        announced(state, Seq::empty(), source) == Seq::<RadioEvent>::empty(),
        recorded_all(state, seq![change, next], source) == state.recorded(change, source).recorded(
            next,
            source,
        ),
{
    reveal_with_fuel(announced, 3);
    reveal_with_fuel(recorded_all, 3);
    assert(seq![change].skip(1) =~= Seq::empty());
    assert(seq![next].skip(1) =~= Seq::empty());
    assert(seq![change, next].skip(1) =~= seq![next]);
    assert(announced(state, seq![change, next], source) =~= announced(state, seq![change], source)
        + announced(state.recorded(change, source), seq![next], source));
    assert(!state.snapshot.after(change).changed_by(change)) by {
        reveal(Snapshot::after);
        reveal(Snapshot::changed_by);
    }
}

/// Before anything is observed the radio receives and transmits without split or offsets, keyed
/// by nobody, powered, with no frequency or mode known and the usual passband.
pub proof fn law_at_rest()
    ensures
        ({
            let rest = fresh_state().snapshot;
            &&& rest.rx_vfo == Vfo::A && rest.tx_vfo == Vfo::A && rest.power_on
            &&& !rest.ptt && !rest.split && !rest.rit_enabled && !rest.xit_enabled
            &&& rest.rit_offset_hz == 0 && rest.xit_offset_hz == 0
            &&& rest.tx_power is None
            &&& rest.a == rest.b
            &&& rest.a.freq_hz == 0 && !rest.a.mode_known && !rest.a.data && rest.a.passband_hz
                == 2_400
            &&& fresh_state().covered == Set::<Field>::empty()
            &&& fresh_state().uncertain_mode == Set::<Vfo>::empty()
            &&& fresh_state().uncertain_data == Set::<Vfo>::empty()
        }),
{
}

/// The power that is recorded is the one that is known, and nothing else changes with it.
pub proof fn law_power_is_recorded(
    state: RadioState,
    power: Option<crate::power::TxPower>,
    source: RadioEventSource,
)
    ensures
        state.recorded(StateChange::TxPower { power }, source).snapshot == (Snapshot {
            tx_power: power,
            ..state.snapshot
        }),
{
    reveal(Snapshot::after);
}

} // verus!
