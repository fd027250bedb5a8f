//! The in-memory loopback backend used by tests and the `loopback` config option.
//!
//! It records every mutation and passthrough it receives and exposes a mutable "truth"
//! frequency so a test can simulate a front-panel knob turn that a poll then diffs into
//! state. It has no native push (so the poller always runs at baseline against it).

use vstd::prelude::*;

use crate::backend::BackendCapabilities;
use crate::backend::Framing;
use crate::backend::NativeCommandFamily;
use crate::backend::SplitStyle;
use crate::backend::TrustTier;
use crate::model::StateChange;
use crate::model::StateMutation;
use crate::model::Vfo;
use crate::radio::framer::byte_seqs;

verus! {

/// The default VFO-A "truth" the loopback radio reports when polled.
pub const DEFAULT_TRUTH_FREQ_A: u64 = 14_074_000;

/// What a loopback radio has seen.
pub struct LoopbackLog {
    /// The mutations applied so far, in order.
    pub mutations: Seq<StateMutation>,
    /// The raw passthrough payloads forwarded so far, in order.
    pub passthroughs: Seq<Seq<u8>>,
    /// How many poll cycles have run.
    pub polls: nat,
    /// The frequency that a poll reports.
    pub truth_freq_a: u64,
}

/// What a fresh loopback radio has seen: nothing.
pub open spec fn fresh_log() -> LoopbackLog {
    LoopbackLog {
        mutations: Seq::empty(),
        passthroughs: Seq::empty(),
        polls: 0,
        truth_freq_a: DEFAULT_TRUTH_FREQ_A,
    }
}

/// What the loopback radio advertises.
pub open spec fn loopback_capabilities(r: BackendCapabilities) -> bool {
    &&& r.model@ == "loopback"@
    &&& r.vfo_count == 2
    &&& r.has_rit
    &&& r.has_xit
    &&& r.has_smeter
    &&& r.split == SplitStyle::VfoPair
    &&& !r.native_push
    &&& r.native_command_family == Some(NativeCommandFamily::Kenwood)
    &&& r.framing == Framing::SemicolonTerminated
    &&& r.freq_min_hz == 30_000
    &&& r.freq_max_hz == 60_000_000
    &&& r.trust == TrustTier::Loopback
}

/// A deterministic in-memory backend.
#[derive(Debug)]
pub struct LoopbackBackend {
    mutations: Vec<StateMutation>,
    passthroughs: Vec<Vec<u8>>,
    polls: u64,
    truth_freq_a: u64,
}

impl View for LoopbackBackend {
    type V = LoopbackLog;

    closed spec fn view(&self) -> LoopbackLog {
        LoopbackLog {
            mutations: self.mutations@,
            passthroughs: byte_seqs(self.passthroughs@),
            polls: self.polls as nat,
            truth_freq_a: self.truth_freq_a,
        }
    }
}

impl LoopbackBackend {
    /// Create a fresh loopback backend.
    #[must_use]
    pub fn new() -> (r: Self)
        ensures
            r@ == fresh_log(),
    {
        let r = LoopbackBackend {
            mutations: Vec::new(),
            passthroughs: Vec::new(),
            polls: 0,
            truth_freq_a: DEFAULT_TRUTH_FREQ_A,
        };
        proof {
            assert(r@.passthroughs =~= Seq::empty());
        }
        r
    }

    /// The mutations applied so far (in order).
    #[must_use]
    pub fn mutations(&self) -> (r: &Vec<StateMutation>)
        ensures
            r@ == self@.mutations,
    {
        &self.mutations
    }

    /// The raw passthrough payloads forwarded so far (in order).
    #[must_use]
    pub fn passthroughs(&self) -> (r: &Vec<Vec<u8>>)
        ensures
            byte_seqs(r@) == self@.passthroughs,
    {
        &self.passthroughs
    }

    /// How many poll cycles have run.
    #[must_use]
    pub fn poll_count(&self) -> (r: u64)
        ensures
            r == self@.polls,
    {
        self.polls
    }

    /// Simulate a front-panel change to VFO A's frequency; the next poll diffs it.
    pub fn set_truth_freq_a(&mut self, hz: u64)
        ensures
            final(self)@ == (LoopbackLog { truth_freq_a: hz, ..old(self)@ }),
    {
        self.truth_freq_a = hz;
    }

    /// Run one poll cycle: the change that it observes. The loopback radio only surfaces
    /// VFO-A frequency truth; the count of cycles stays at its highest value.
    pub fn poll(&mut self) -> (r: StateChange)
        ensures
            r == (StateChange::Freq { vfo: Vfo::A, hz: old(self)@.truth_freq_a }),
            final(self)@ == (LoopbackLog {
                polls: if old(self)@.polls < u64::MAX {
                    old(self)@.polls + 1
                } else {
                    old(self)@.polls
                },
                ..old(self)@
            }),
    {
        self.polls = self.polls.saturating_add(1);
        StateChange::Freq { vfo: Vfo::A, hz: self.truth_freq_a }
    }

    /// Apply a mutation: remember it. The change that it makes is observed at once.
    pub fn apply(&mut self, mutation: StateMutation) -> (r: StateChange)
        ensures
            r == mutation.change(),
            final(self)@ == (LoopbackLog {
                mutations: old(self)@.mutations.push(mutation),
                ..old(self)@
            }),
    {
        self.mutations.push(mutation);
        mutation.into_change()
    }

    /// Parse an unsolicited frame: the loopback radio sends none.
    #[must_use]
    pub fn parse_event(&self, _frame: &[u8]) -> (r: Option<StateMutation>)
        ensures
            r is None,
    {
        None
    }

    /// Forward a raw command: remember it and echo it.
    pub fn passthrough(&mut self, raw: &[u8]) -> (r: Vec<u8>)
        ensures
            r@ == raw@,
            final(self)@ == (LoopbackLog {
                passthroughs: old(self)@.passthroughs.push(raw@),
                ..old(self)@
            }),
    {
        self.passthroughs.push(vstd::slice::slice_to_vec(raw));
        proof {
            assert(self@.passthroughs =~= old(self)@.passthroughs.push(raw@));
        }
        vstd::slice::slice_to_vec(raw)
    }

    /// The backend's advertised capabilities.
    #[must_use]
    pub fn capabilities(&self) -> (r: BackendCapabilities)
        ensures
            loopback_capabilities(r),
    {
        BackendCapabilities {
            model: "loopback".to_owned(),
            vfo_count: 2,
            has_rit: true,
            has_xit: true,
            has_smeter: true,
            split: SplitStyle::VfoPair,
            native_push: false,
            native_command_family: Some(NativeCommandFamily::Kenwood),
            framing: Framing::SemicolonTerminated,
            freq_min_hz: 30_000,
            freq_max_hz: 60_000_000,
            trust: TrustTier::Loopback,
        }
    }

    /// The loopback radio has no native push stream.
    #[must_use]
    pub fn native_push_enable(&self) -> (r: Option<Vec<u8>>)
        ensures
            r is None,
    {
        None
    }
}

} // verus!
