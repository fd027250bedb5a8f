//! Tests of the cached state, the native backend, the transport and the scheduler.

use cathub::backend::kenwood::ts590::is_query;
use cathub::backend::kenwood::ts590::parse_if_status;
use cathub::backend::kenwood::ts590::IfStatus;
use cathub::backend::kenwood::ts590::Ts590Backend;
use cathub::backend::kenwood::ts590::POLL_COUNT;
use cathub::backend::loopback::LoopbackBackend;
use cathub::backend::rigctld::RigctldBackend;
use cathub::backend::Framing;
use cathub::backend::TrustTier;
use cathub::error::BackendError;
use cathub::events::next_interval;
use cathub::model::Field;
use cathub::model::Mode;
use cathub::model::PttSource;
use cathub::model::RadioEventSource;
use cathub::model::StateChange;
use cathub::model::StateMutation;
use cathub::model::Vfo;
use cathub::radio::framer::Framer;
use cathub::radio::framer::MAX_RADIO_FRAME_LEN;
use cathub::radio::operation::Backend;
use cathub::radio::operation::OpStep;
use cathub::radio::scheduler::OpKind;
use cathub::radio::scheduler::Operation;
use cathub::radio::scheduler::Priority;
use cathub::radio::scheduler::Scheduler;
use cathub::radio::supervisor::Supervisor;
use cathub::radio::supervisor::SupervisorAction;
use cathub::radio::supervisor::TransportNews;
use cathub::radio::transport::frame_matches;
use cathub::radio::transport::Expect;
use cathub::radio::transport::FrameAction;
use cathub::radio::transport::Transport;
use cathub::radio::transport::REPLY_TIMEOUT_MS;
use cathub::state::record_raw;
use cathub::state::record_raw_native;
use cathub::state::RadioEvent;
use cathub::state::apply_change;
use cathub::state::Snapshot;
use cathub::state::StateHandle;

/// A radio behind a byte stream, with everything that serves it.
struct Bench {
    backend: Backend,
    framer: Framer,
    transport: Transport,
    state: StateHandle,
    events: Vec<RadioEvent>,
    written: Vec<u8>,
}

impl Bench {
    fn new(backend: Backend) -> Self {
        let framing = backend.capabilities().framing;
        Bench {
            backend,
            framer: Framer::new(framing),
            transport: Transport::new(),
            state: StateHandle::new(),
            events: Vec::new(),
            written: Vec::new(),
        }
    }

    fn ts590() -> Self {
        Bench::new(Backend::Ts590(Ts590Backend::new()))
    }

    /// Send one command and take what the radio answers, at one instant.
    fn submit(&mut self, bytes: &[u8], expect: Expect, answer: &[u8]) -> Result<Vec<u8>, BackendError> {
        self.written.extend_from_slice(bytes);
        if self.transport.command_sent(expect, 0) {
            return Ok(Vec::new());
        }
        for frame in self.framer.push(answer) {
            match self.transport.frame_received(frame) {
                FrameAction::Reply(reply) => return Ok(reply),
                FrameAction::Route(frame) => {
                    self.backend
                        .route_event(&frame, &mut self.state, &mut self.events)
                }
                FrameAction::Hold => {}
            }
        }
        assert!(self.transport.time_passed(REPLY_TIMEOUT_MS));
        Err(BackendError::Timeout)
    }

    /// Run one operation against a radio that answers each command.
    fn run(&mut self, kind: OpKind, radio: &dyn Fn(&[u8]) -> Vec<u8>) -> Result<Vec<u8>, BackendError> {
        let mut step = self
            .backend
            .start(&kind, &mut self.state, &mut self.events);
        loop {
            match step {
                OpStep::Submit {
                    bytes,
                    expect,
                    running,
                } => {
                    let reply = self.submit(&bytes, expect, &radio(&bytes));
                    step = self
                        .backend
                        .resume(running, reply, &mut self.state, &mut self.events);
                }
                OpStep::Done(result) => return result,
            }
        }
    }

    fn apply(&mut self, mutation: StateMutation) {
        self.run(OpKind::Apply(mutation), &|_| Vec::new())
            .expect("apply");
    }
}

// --- the cached state ---

#[test]
fn defaults_are_sane() {
    let snap = StateHandle::new().snapshot();
    assert!(snap.power_on);
    assert_eq!(snap.vfo(Vfo::A).freq_hz, 0);
    assert_eq!(snap.vfo(Vfo::A).mode, Mode::Usb);
    assert_eq!(snap.vfo(Vfo::A).passband_hz, 2_400);
    assert!(!snap.split && !snap.ptt);
}

#[test]
fn record_updates_snapshot() {
    let mut state = StateHandle::new();
    state.record(
        StateChange::Freq {
            vfo: Vfo::A,
            hz: 7_030_000,
        },
        RadioEventSource::PollDiff,
    );
    assert_eq!(state.snapshot().vfo(Vfo::A).freq_hz, 7_030_000);
}

#[test]
fn is_redundant_detects_unchanged_values() {
    let mut state = StateHandle::new();
    state.record(
        StateChange::Freq {
            vfo: Vfo::A,
            hz: 7_030_000,
        },
        RadioEventSource::PollDiff,
    );
    let snap = state.snapshot();

    // Re-setting the value the radio already holds is redundant.
    assert!(snap.is_redundant(&StateMutation::SetVfoFreq {
        vfo: Vfo::A,
        hz: 7_030_000,
    }));
    assert!(!snap.is_redundant(&StateMutation::SetVfoFreq {
        vfo: Vfo::A,
        hz: 7_040_000,
    }));

    // Mode is tracked against the receive VFO (default A, USB).
    assert!(snap.is_redundant(&StateMutation::SetMode {
        vfo: Vfo::A,
        mode: Mode::Usb,
    }));
    // An Unknown mode still writes the USB digit (MD2), so a SetMode(Unknown) on a
    // USB VFO is the same frame the radio already holds and must be redundant.
    assert!(snap.is_redundant(&StateMutation::SetMode {
        vfo: Vfo::A,
        mode: Mode::Unknown,
    }));
    assert!(!snap.is_redundant(&StateMutation::SetMode {
        vfo: Vfo::A,
        mode: Mode::Cw,
    }));
}

#[test]
fn is_redundant_and_round_trip_for_data_mode() {
    let mut state = StateHandle::new();
    let snap = state.snapshot();
    // DATA defaults off, so SetDataMode { on: false } is a no-op and on: true is a change.
    assert!(snap.is_redundant(&StateMutation::SetDataMode {
        vfo: Vfo::A,
        on: false,
    }));
    assert!(!snap.is_redundant(&StateMutation::SetDataMode {
        vfo: Vfo::A,
        on: true,
    }));

    // Recording the change flips the snapshot and inverts which write is redundant.
    state.record(
        StateChange::DataMode {
            vfo: Vfo::A,
            on: true,
        },
        RadioEventSource::OptimisticWrite,
    );
    let snap = state.snapshot();
    assert!(snap.vfo(Vfo::A).data);
    assert!(snap.is_redundant(&StateMutation::SetDataMode {
        vfo: Vfo::A,
        on: true,
    }));
    assert!(!snap.is_redundant(&StateMutation::SetDataMode {
        vfo: Vfo::A,
        on: false,
    }));
}

#[test]
fn is_redundant_covers_split_rit_xit() {
    let snap = StateHandle::new().snapshot();
    // Defaults: split off, RIT/XIT off at zero offset.
    assert!(snap.is_redundant(&StateMutation::SetSplit {
        enabled: false,
        tx_vfo: None,
    }));
    assert!(!snap.is_redundant(&StateMutation::SetSplit {
        enabled: true,
        tx_vfo: Some(Vfo::B),
    }));
    assert!(snap.is_redundant(&StateMutation::SetRit {
        enabled: false,
        offset_hz: 0,
    }));
    assert!(!snap.is_redundant(&StateMutation::SetRit {
        enabled: true,
        offset_hz: 100,
    }));
    assert!(snap.is_redundant(&StateMutation::SetXit {
        enabled: false,
        offset_hz: 0,
    }));
    assert!(!snap.is_redundant(&StateMutation::SetXit {
        enabled: true,
        offset_hz: -50,
    }));
}

#[test]
fn is_redundant_never_suppresses_ptt() {
    let snap = StateHandle::new().snapshot();
    // PTT is off by default, but an unkey must still always reach the radio.
    assert!(!snap.is_redundant(&StateMutation::SetPtt {
        keyed: false,
        source: PttSource::Generic,
    }));
    assert!(!snap.is_redundant(&StateMutation::SetPtt {
        keyed: true,
        source: PttSource::Generic,
    }));
}

#[test]
fn change_broadcasts_only_on_actual_change() {
    let mut state = StateHandle::new();
    // First set: USB == default USB, so NO broadcast.
    assert_eq!(
        state.record(
            StateChange::Mode {
                vfo: Vfo::A,
                mode: Mode::Usb,
            },
            RadioEventSource::PollDiff,
        ),
        None
    );
    // A real change: CW differs from USB, so exactly one frame.
    assert_eq!(
        state.record(
            StateChange::Mode {
                vfo: Vfo::A,
                mode: Mode::Cw,
            },
            RadioEventSource::PollDiff,
        ),
        Some(RadioEvent::Change(StateChange::Mode {
            vfo: Vfo::A,
            mode: Mode::Cw
        }))
    );
}

#[test]
fn record_raw_broadcasts_verbatim_without_touching_snapshot() {
    let state = StateHandle::new();
    assert_eq!(record_raw(b"NB1;"), RadioEvent::Raw(b"NB1;".to_vec()));
    // A raw relay must not mark native-push coverage.
    assert!(!state.is_native_push_covered(Field::Freq(Vfo::A)));
}

#[test]
fn record_raw_native_broadcasts_verbatim_without_touching_snapshot() {
    let state = StateHandle::new();
    assert_eq!(
        record_raw_native(b"FA00014035000;"),
        RadioEvent::RawNative(b"FA00014035000;".to_vec())
    );
    // Relaying the verbatim frame must not itself mutate the snapshot or coverage; the
    // caller has already recorded the modeled change.
    assert_eq!(state.snapshot().vfo(Vfo::A).freq_hz, 0);
    assert!(!state.is_native_push_covered(Field::Freq(Vfo::A)));
}

#[test]
fn native_push_marks_coverage_but_poll_diff_does_not() {
    let mut state = StateHandle::new();
    assert!(!state.is_native_push_covered(Field::Freq(Vfo::A)));
    state.record(
        StateChange::Freq { vfo: Vfo::A, hz: 1 },
        RadioEventSource::PollDiff,
    );
    assert!(!state.is_native_push_covered(Field::Freq(Vfo::A)));
    state.record(
        StateChange::Freq { vfo: Vfo::A, hz: 2 },
        RadioEventSource::NativePush,
    );
    assert!(state.is_native_push_covered(Field::Freq(Vfo::A)));
}

#[test]
fn split_and_rit_xit_round_trip() {
    let mut state = StateHandle::new();
    state.record(
        StateChange::Split {
            enabled: true,
            tx_vfo: Some(Vfo::B),
        },
        RadioEventSource::OptimisticWrite,
    );
    state.record(
        StateChange::Rit {
            enabled: true,
            offset_hz: 100,
        },
        RadioEventSource::OptimisticWrite,
    );
    state.record(
        StateChange::Xit {
            enabled: true,
            offset_hz: -50,
        },
        RadioEventSource::OptimisticWrite,
    );
    let snap = state.snapshot();
    assert!(snap.split && snap.tx_vfo == Vfo::B);
    assert!(snap.rit_enabled && snap.rit_offset_hz == 100);
    assert!(snap.xit_enabled && snap.xit_offset_hz == -50);
}

#[test]
fn recording_a_snapshot_over_again_restores_it() {
    let mut state = StateHandle::new();
    for change in [
        StateChange::Freq {
            vfo: Vfo::B,
            hz: 14_034_320,
        },
        StateChange::RxVfo { vfo: Vfo::B },
        StateChange::Mode {
            vfo: Vfo::B,
            mode: Mode::Cw,
        },
    ] {
        state.record(change, RadioEventSource::PollDiff);
    }
    let snapshot = state.snapshot();
    let mut other = StateHandle::new();
    let mut events = Vec::new();
    other.record_all(&snapshot.as_changes(), RadioEventSource::PollDiff, &mut events);
    assert_eq!(other.snapshot().vfo(Vfo::B).freq_hz, 14_034_320);
    assert_eq!(other.snapshot().rx_vfo, Vfo::B);
    assert_eq!(other.snapshot().vfo(Vfo::B).mode, Mode::Cw);
}

// --- the poller's pace ---

#[test]
fn poller_drives_polls_through_scheduler() {
    let mut backend = Backend::Loopback(LoopbackBackend::new());
    let mut state = StateHandle::new();
    let mut events = Vec::new();
    let mut scheduler = Scheduler::new();
    for ticket in 0..3u64 {
        scheduler.enqueue(Operation {
            session_id: 0,
            priority: Priority::Poll,
            kind: OpKind::Poll,
            ticket,
        });
        let op = scheduler.select_next().expect("the poll waits");
        assert_eq!(op.ticket, ticket);
        backend.start(&op.kind, &mut state, &mut events);
    }
    match backend {
        Backend::Loopback(radio) => {
            assert!(radio.poll_count() >= 2, "poller should run repeatedly")
        }
        _ => unreachable!(),
    }
}

#[test]
fn back_off_only_when_native_push_covers_field() {
    let mut state = StateHandle::new();
    let baseline = 200;
    let heartbeat = 2_000;

    // No coverage yet: baseline.
    assert_eq!(next_interval(&state, true, baseline, heartbeat), baseline);

    // A poll-diff event must NOT trigger back-off.
    state.record(
        StateChange::Freq {
            vfo: Vfo::A,
            hz: 7_001_000,
        },
        RadioEventSource::PollDiff,
    );
    assert_eq!(next_interval(&state, true, baseline, heartbeat), baseline);

    // A native-push event covers the field: back off to heartbeat.
    state.record(
        StateChange::Freq {
            vfo: Vfo::A,
            hz: 7_002_000,
        },
        RadioEventSource::NativePush,
    );
    assert_eq!(next_interval(&state, true, baseline, heartbeat), heartbeat);

    // With native push disabled, always baseline regardless of coverage.
    assert_eq!(next_interval(&state, false, baseline, heartbeat), baseline);
}

#[test]
fn back_off_follows_the_active_vfo_not_a_fixed_vfo_a() {
    // Native push covers VFO B's frequency while the radio sits on VFO B. The poller must
    // recognize coverage of the *active* VFO and back off, instead of over-polling
    // because it only ever probed VFO A.
    let mut state = StateHandle::new();
    let baseline = 200;
    let heartbeat = 2_000;

    // Make VFO B the active receive VFO.
    state.record(
        StateChange::RxVfo { vfo: Vfo::B },
        RadioEventSource::NativePush,
    );
    // Native push covers VFO B's frequency.
    state.record(
        StateChange::Freq {
            vfo: Vfo::B,
            hz: 14_074_000,
        },
        RadioEventSource::NativePush,
    );
    // Coverage of the active VFO (B) must drive the back-off.
    assert_eq!(next_interval(&state, true, baseline, heartbeat), heartbeat);
}

#[test]
fn enable_native_push_reports_capability() {
    let native = Backend::Ts590(Ts590Backend::new());
    assert_eq!(native.native_push_enable(), Some(b"AI2;".to_vec()));

    let bridge = Backend::Loopback(LoopbackBackend::new());
    // Loopback reports no native push.
    assert_eq!(bridge.native_push_enable(), None);
}

// --- the native backend ---

#[test]
fn poll_commands_never_retarget_a_vfo() {
    let mut commands = Vec::new();
    for index in 0..POLL_COUNT {
        let (cmd, _) = Ts590Backend::poll_command(index).expect("a poll command");
        assert!(
            !cmd.starts_with(b"FR") && !cmd.starts_with(b"FT"),
            "poll set must not contain a VFO-select command"
        );
        commands.push(cmd);
    }
    assert!(Ts590Backend::poll_command(POLL_COUNT).is_none());
    assert_eq!(commands, [b"FA;", b"FB;", b"IF;", b"MD;", b"DA;"]);
}

#[test]
fn parse_event_reads_freq_and_mode() {
    let backend = Ts590Backend::new();
    assert_eq!(
        backend.parse_event(b"FA00007030000;"),
        Some(StateMutation::SetVfoFreq {
            vfo: Vfo::A,
            hz: 7_030_000
        })
    );
    assert_eq!(
        backend.parse_event(b"FB00014250000;"),
        Some(StateMutation::SetVfoFreq {
            vfo: Vfo::B,
            hz: 14_250_000
        })
    );
    assert_eq!(
        backend.parse_event(b"MD3;"),
        Some(StateMutation::SetMode {
            vfo: Vfo::A,
            mode: Mode::Cw
        })
    );
    assert_eq!(
        backend.parse_event(b"DA1;"),
        Some(StateMutation::SetDataMode {
            vfo: Vfo::A,
            on: true
        })
    );
    assert_eq!(
        backend.parse_event(b"DA0;"),
        Some(StateMutation::SetDataMode {
            vfo: Vfo::A,
            on: false
        })
    );
    assert_eq!(
        backend.parse_event(b"IF000140343201234-0000012345121019999;"),
        Some(StateMutation::SetRxVfo { vfo: Vfo::B })
    );
    assert_eq!(backend.parse_event(b"ZZ;"), None);
}

#[test]
fn parse_if_status_reads_active_vfo_from_real_status_shape() {
    let status =
        parse_if_status(b"IF000140343201234-0000012345121019999;").expect("parse IF status");

    assert_eq!(
        status,
        IfStatus {
            freq_hz: 14_034_320,
            ptt: true,
            mode: Mode::Usb,
            rx_vfo: Vfo::B,
            split: true,
        }
    );
}

#[test]
fn parse_if_status_ignores_non_vfo_memory_mode() {
    assert_eq!(
        parse_if_status(b"IF000140343201234-0000012345122019999;"),
        None
    );
}

#[test]
fn native_fr_then_md_records_mode_on_active_vfo() {
    let backend = Ts590Backend::new();
    let mut state = StateHandle::new();
    let mut events = Vec::new();
    state.record(
        StateChange::Freq {
            vfo: Vfo::B,
            hz: 14_034_320,
        },
        RadioEventSource::PollDiff,
    );

    assert!(backend.record_event(b"FR1;", &mut state, RadioEventSource::NativePush, &mut events));
    assert!(backend.record_event(b"MD3;", &mut state, RadioEventSource::NativePush, &mut events));

    let snap = state.snapshot();
    assert_eq!(snap.rx_vfo, Vfo::B);
    assert_eq!(snap.vfo(Vfo::B).freq_hz, 14_034_320);
    assert_eq!(snap.vfo(Vfo::B).mode, Mode::Cw);
    assert_eq!(
        snap.vfo(Vfo::A).mode,
        Mode::Usb,
        "VFO B mode push must not be recorded against VFO A"
    );
}

#[test]
fn capabilities_are_certified_native_with_push() {
    let caps = Ts590Backend::new().capabilities();
    assert_eq!(caps.trust, TrustTier::CertifiedNative);
    assert!(caps.native_push);
    assert!(caps.supports_passthrough());
    assert_eq!(
        Ts590Backend::new().native_push_enable(),
        Some(b"AI2;".to_vec())
    );
}

#[test]
fn apply_freq_writes_kenwood_frame() {
    let mut bench = Bench::ts590();
    bench.apply(StateMutation::SetVfoFreq {
        vfo: Vfo::A,
        hz: 7_030_000,
    });
    assert_eq!(bench.written, b"FA00007030000;");
    assert_eq!(bench.state.snapshot().vfo(Vfo::A).freq_hz, 7_030_000);
}

#[test]
fn apply_rx_vfo_writes_fr_and_updates_state() {
    let mut bench = Bench::ts590();
    bench.apply(StateMutation::SetRxVfo { vfo: Vfo::B });
    assert_eq!(bench.written, b"FR1;");
    assert_eq!(bench.state.snapshot().rx_vfo, Vfo::B);
}

#[test]
fn apply_rx_vfo_preserves_split_tx_vfo() {
    let mut bench = Bench::ts590();
    bench.state.record(
        StateChange::Split {
            enabled: true,
            tx_vfo: Some(Vfo::B),
        },
        RadioEventSource::PollDiff,
    );
    bench.apply(StateMutation::SetRxVfo { vfo: Vfo::A });
    assert_eq!(bench.written, b"FR0;FT1;");
    let snap = bench.state.snapshot();
    assert_eq!(snap.rx_vfo, Vfo::A);
    assert!(snap.split);
    assert_eq!(snap.tx_vfo, Vfo::B);
}

#[test]
fn apply_ptt_keys_and_unkeys() {
    let mut bench = Bench::ts590();
    bench.apply(StateMutation::SetPtt {
        keyed: true,
        source: PttSource::Generic,
    });
    assert_eq!(bench.written, b"TX;");
    assert!(bench.state.snapshot().ptt);
    bench.apply(StateMutation::SetPtt {
        keyed: false,
        source: PttSource::Generic,
    });
    assert_eq!(bench.written, b"TX;RX;");
    assert!(!bench.state.snapshot().ptt);
}

#[test]
fn ptt_data_source_keys_with_tx1() {
    let mut bench = Bench::ts590();
    bench.apply(StateMutation::SetPtt {
        keyed: true,
        source: PttSource::Data,
    });
    assert_eq!(bench.written, b"TX1;");
    assert!(bench.state.snapshot().ptt);
}

#[test]
fn poll_reads_back_freq_and_mode() {
    let mut bench = Bench::ts590();
    // A fake radio that answers the poll queries.
    bench
        .run(OpKind::Poll, &|frame: &[u8]| {
            match frame {
                b"FA;" => b"FA00007030000;".to_vec(),
                b"FB;" => b"FB00014250000;".to_vec(),
                b"IF;" => b"IF000070300000000+0000000000030000000;".to_vec(),
                b"MD;" => b"MD3;".to_vec(),
                b"DA;" => b"DA1;".to_vec(),
                _ => Vec::new(),
            }
        })
        .expect("poll");
    let snap = bench.state.snapshot();
    assert_eq!(snap.vfo(Vfo::A).freq_hz, 7_030_000);
    assert_eq!(snap.vfo(Vfo::B).freq_hz, 14_250_000);
    assert_eq!(snap.vfo(Vfo::A).mode, Mode::Cw);
    assert!(snap.vfo(Vfo::A).data, "DA; reply should set the DATA flag");
}

fn on_vfo_b(data: &'static [u8]) -> impl Fn(&[u8]) -> Vec<u8> {
    move |frame: &[u8]| match frame {
        b"FA;" => b"FA00003020950;".to_vec(),
        b"FB;" => b"FB00014034320;".to_vec(),
        b"IF;" => b"IF000140343201234-0000012345021009999;".to_vec(),
        b"MD;" => b"MD3;".to_vec(),
        b"DA;" => data.to_vec(),
        _ => Vec::new(),
    }
}

#[test]
fn poll_reads_active_vfo_from_if_status() {
    let mut bench = Bench::ts590();
    bench.run(OpKind::Poll, &on_vfo_b(b"DA0;")).expect("poll");
    let snap = bench.state.snapshot();
    assert_eq!(snap.rx_vfo, Vfo::B);
    assert_eq!(snap.vfo(snap.rx_vfo).freq_hz, 14_034_320);
    assert_eq!(snap.vfo(snap.rx_vfo).mode, Mode::Cw);
}

#[test]
fn poll_records_md_and_da_on_active_vfo() {
    let mut bench = Bench::ts590();
    bench.run(OpKind::Poll, &on_vfo_b(b"DA1;")).expect("poll");
    let snap = bench.state.snapshot();
    assert_eq!(snap.rx_vfo, Vfo::B);
    assert_eq!(snap.vfo(Vfo::B).mode, Mode::Cw);
    assert!(snap.vfo(Vfo::B).data);
    assert_eq!(
        snap.vfo(Vfo::A).mode,
        Mode::Usb,
        "active VFO B MD reply must not update VFO A"
    );
    assert!(
        !snap.vfo(Vfo::A).data,
        "active VFO B DA reply must not update VFO A"
    );
}

#[test]
fn apply_data_mode_writes_da_frame() {
    let mut bench = Bench::ts590();
    bench.apply(StateMutation::SetDataMode {
        vfo: Vfo::A,
        on: true,
    });
    assert_eq!(bench.written, b"DA1;");
    assert!(bench.state.snapshot().vfo(Vfo::A).data);

    bench.written.clear();
    bench.apply(StateMutation::SetDataMode {
        vfo: Vfo::A,
        on: false,
    });
    assert_eq!(bench.written, b"DA0;");
    assert!(!bench.state.snapshot().vfo(Vfo::A).data);
}

#[test]
fn query_detection_distinguishes_get_from_set() {
    assert!(is_query(b"FA;"));
    assert!(!is_query(b"FA00007030000;"));
    assert!(!is_query(b"EX0050000;"));
}

#[test]
fn a_poll_that_times_out_fails() {
    let mut bench = Bench::ts590();
    assert_eq!(
        bench.run(OpKind::Poll, &|_| Vec::new()),
        Err(BackendError::Timeout)
    );
}

#[test]
fn raw_queries_wait_for_their_answer() {
    let mut bench = Bench::ts590();
    let reply = bench.run(OpKind::Passthrough(b"PS;".to_vec()), &|_| {
        b"NB1;PS1;".to_vec()
    });
    assert_eq!(reply, Ok(b"PS1;".to_vec()));
    assert_eq!(bench.events, vec![RadioEvent::Raw(b"NB1;".to_vec())]);
    let reply = bench.run(OpKind::Passthrough(b"NB1;".to_vec()), &|_| Vec::new());
    assert_eq!(reply, Ok(Vec::new()));
}

// --- framing, matching and scheduling ---

#[test]
fn framer_splits_on_semicolons() {
    let mut framer = Framer::new(Framing::SemicolonTerminated);
    let frames = framer.push(b"FA00007030000;MD3;");
    assert_eq!(frames.len(), 2);
    assert_eq!(frames[0], b"FA00007030000;");
    assert_eq!(frames[1], b"MD3;");
}

#[test]
fn framer_holds_partial_frames() {
    let mut framer = Framer::new(Framing::SemicolonTerminated);
    assert!(framer.push(b"FA0000703").is_empty());
    let frames = framer.push(b"0000;");
    assert_eq!(frames, vec![b"FA00007030000;".to_vec()]);
}

#[test]
fn framer_discards_overlong_partial_frame_and_resyncs() {
    let mut framer = Framer::new(Framing::SemicolonTerminated);
    // Stream more than the cap without ever sending a delimiter.
    let junk = vec![b'X'; MAX_RADIO_FRAME_LEN + 64];
    assert!(framer.push(&junk).is_empty());
    // The partial buffer must have been bounded, not grown unbounded.
    assert!(framer.buffered_len() <= MAX_RADIO_FRAME_LEN);
    // Flush whatever junk remains with a delimiter, then a clean frame parses correctly.
    framer.push(b";");
    let frames = framer.push(b"FA00007030000;");
    assert_eq!(frames, vec![b"FA00007030000;".to_vec()]);
}

#[test]
fn verb_matching_uses_prefix() {
    assert!(frame_matches(b"FA00007030000;", &vec![b"FA".to_vec()]));
    assert!(!frame_matches(b"MD3;", &vec![b"FA".to_vec()]));
}

#[test]
fn route_event_records_full_ts590_if_status() {
    let backend = Backend::Ts590(Ts590Backend::new());
    let mut state = StateHandle::new();
    let mut events = Vec::new();

    backend.route_event(
        b"IF000140343201234-0000012345121019999;",
        &mut state,
        &mut events,
    );

    let snap = state.snapshot();
    assert_eq!(snap.rx_vfo, Vfo::B);
    assert_eq!(snap.vfo(Vfo::B).freq_hz, 14_034_320);
    assert_eq!(snap.vfo(Vfo::B).mode, Mode::Usb);
    assert!(snap.ptt);
    assert!(snap.split);
}

#[test]
fn route_event_relays_modeled_frame_as_raw_native_for_mirror_endpoints() {
    let backend = Backend::Ts590(Ts590Backend::new());
    let mut state = StateHandle::new();
    let mut events = Vec::new();

    backend.route_event(b"FA00014035000;", &mut state, &mut events);

    // A modeled frame must broadcast BOTH the coalesced Change (for virtualizing endpoints)
    // and the verbatim RawNative (for transparent mirror endpoints like ARCP-590).
    let mut saw_change = false;
    let mut saw_raw_native = false;
    for evt in events {
        match evt {
            RadioEvent::Change(_) => saw_change = true,
            RadioEvent::RawNative(bytes) => {
                assert_eq!(bytes, b"FA00014035000;");
                saw_raw_native = true;
            }
            RadioEvent::Raw(_) => panic!("a modeled frame must not broadcast as Raw"),
        }
    }
    assert!(
        saw_change,
        "modeled frame must broadcast a coalesced Change"
    );
    assert!(
        saw_raw_native,
        "modeled frame must also relay verbatim as RawNative"
    );
}

#[test]
fn route_event_relays_unmodeled_frame_as_raw_only() {
    let backend = Backend::Ts590(Ts590Backend::new());
    let mut state = StateHandle::new();
    let mut events = Vec::new();

    backend.route_event(b"NB1;", &mut state, &mut events);

    assert_eq!(events, vec![RadioEvent::Raw(b"NB1;".to_vec())]);
}

#[test]
fn priority_orders_ptt_first() {
    assert!(Priority::Ptt.rank() < Priority::Write.rank());
    assert!(Priority::Write.rank() < Priority::Read.rank());
    assert!(Priority::Read.rank() < Priority::Poll.rank());
}

#[test]
fn unsolicited_frames_do_not_extend_reply_deadline() {
    let mut transport = Transport::new();
    assert!(!transport.command_sent(Expect::Reply(vec![b"FA".to_vec()]), 100));
    let mut now = 100;
    while now < 100 + REPLY_TIMEOUT_MS {
        assert!(!transport.time_passed(now));
        assert_eq!(
            transport.frame_received(b"NB0;".to_vec()),
            FrameAction::Route(b"NB0;".to_vec())
        );
        now += 50;
    }
    assert!(
        transport.time_passed(now),
        "an absolute reply deadline must not be extended by unsolicited frames"
    );
    assert!(transport.is_idle());
}

#[test]
fn line_matcher_completes_multi_line_request_on_rprt_error() {
    let mut bench = Bench::new(Backend::Rigctld(RigctldBackend::new("test", false)));
    let reply = bench.submit(b"x\n", Expect::Lines(2), b"RPRT -11\n");
    assert_eq!(bench.written, b"x\n");
    assert_eq!(reply, Ok(b"RPRT -11\n".to_vec()));
}

#[test]
fn line_matcher_collects_the_lines_it_was_asked_for() {
    let mut bench = Bench::new(Backend::Rigctld(RigctldBackend::new("test", false)));
    let reply = bench.submit(b"m\n", Expect::Lines(2), b"USB\n2400\n");
    assert_eq!(reply, Ok(b"USB\n2400\n".to_vec()));
    assert_eq!(bench.submit(b"q\n", Expect::Lines(0), b""), Ok(Vec::new()));
}

#[test]
fn a_closed_stream_fails_the_command_in_flight() {
    let mut transport = Transport::new();
    assert_eq!(transport.stream_closed(), None);
    transport.command_sent(Expect::Reply(vec![b"FA".to_vec()]), 0);
    assert_eq!(transport.deadline_ms(), Some(REPLY_TIMEOUT_MS));
    assert_eq!(
        transport.stream_closed(),
        Some(BackendError::Transport("transport closed".to_string()))
    );
    assert!(transport.is_idle());
}

#[test]
fn supervisor_reconnects_after_transport_drop() {
    let mut supervisor = Supervisor::new(10, 50);
    let mut bench = Bench::ts590();
    // Two transports: the first one is dropped with a command in flight, the second one is
    // handed out when the supervisor asks for it.
    let mut transports = vec![Transport::new()];
    bench
        .transport
        .command_sent(Expect::Reply(vec![b"FA".to_vec()]), 0);
    assert_eq!(
        bench.transport.stream_closed(),
        Some(BackendError::Transport("transport closed".to_string()))
    );
    let mut action = supervisor.next(TransportNews::Disconnected);
    assert_eq!(action, SupervisorAction::ReopenAfter { wait_ms: 10 });
    while action != SupervisorAction::Serve {
        let news = match transports.pop() {
            Some(transport) => {
                bench.transport = transport;
                TransportNews::Reopened
            }
            None => TransportNews::ReopenFailed,
        };
        action = supervisor.next(news);
    }
    // The same link serves commands again.
    let reply = bench
        .submit(
            b"FA;",
            Expect::Reply(vec![b"FA".to_vec()]),
            b"FA00014047470;",
        )
        .expect("reconnected transport should answer an FA read");
    assert!(reply.starts_with(b"FA"), "reply should be an FA frame");
}

#[test]
fn supervisor_stops_when_command_channel_closes() {
    let mut supervisor = Supervisor::new(10, 50);
    assert_eq!(
        supervisor.next(TransportNews::Shutdown),
        SupervisorAction::Stop
    );
}

#[test]
fn supervisor_doubles_the_wait_up_to_the_ceiling() {
    let mut supervisor = Supervisor::new(10, 50);
    let mut waits = Vec::new();
    for _ in 0..5 {
        match supervisor.next(TransportNews::ReopenFailed) {
            SupervisorAction::ReopenAfter { wait_ms } => waits.push(wait_ms),
            _ => panic!("a failed attempt is tried again"),
        }
    }
    assert_eq!(waits, vec![10, 20, 40, 50, 50]);
    supervisor.next(TransportNews::Reopened);
    assert_eq!(
        supervisor.next(TransportNews::Disconnected),
        SupervisorAction::ReopenAfter { wait_ms: 10 }
    );
}

fn queued(session_id: u64, priority: Priority, ticket: u64) -> Operation {
    Operation {
        session_id,
        priority,
        kind: OpKind::Poll,
        ticket,
    }
}

#[test]
fn urgent_operations_go_first_and_sessions_keep_their_order() {
    let mut scheduler = Scheduler::new();
    scheduler.enqueue(queued(0, Priority::Poll, 1));
    scheduler.enqueue(queued(1, Priority::Write, 2));
    scheduler.enqueue(queued(1, Priority::Ptt, 3));
    scheduler.enqueue(queued(2, Priority::Read, 4));
    scheduler.enqueue(queued(3, Priority::Write, 5));
    let mut order = Vec::new();
    while let Some(op) = scheduler.select_next() {
        order.push(op.ticket);
    }
    // Session 1's keying waits behind its own earlier write only.
    assert_eq!(order, vec![2, 3, 5, 4, 1]);
}

// --- one command on the wire ---

#[test]
fn command_with_reply_reads_until_terminator() {
    let mut bench = Bench::ts590();
    let reply = bench
        .submit(
            b"FA;",
            Expect::Reply(vec![b"FA".to_vec()]),
            b"FA00014074000;",
        )
        .expect("reply");
    assert_eq!(bench.written, b"FA;");
    assert_eq!(reply, b"FA00014074000;".to_vec());
}

#[test]
fn command_without_reply_returns_empty() {
    let mut bench = Bench::ts590();
    let reply = bench
        .submit(b"FA00021074000;", Expect::NoReply, b"")
        .expect("ok");
    assert_eq!(bench.written, b"FA00021074000;");
    assert!(reply.is_empty());
}

#[test]
fn missing_reply_times_out() {
    let mut bench = Bench::ts590();
    let err = bench
        .submit(b"FA;", Expect::Reply(vec![b"FA".to_vec()]), b"")
        .expect_err("timeout");
    assert!(matches!(err, BackendError::Timeout));
}

#[test]
fn no_byte_of_a_long_stream_is_lost() {
    let mut stream = Vec::new();
    for _ in 0..6 {
        stream.extend(vec![b'X'; MAX_RADIO_FRAME_LEN - 1]);
        stream.push(b';');
    }
    stream.extend(b"FA");
    let mut framer = Framer::new(Framing::SemicolonTerminated);
    let frames = framer.push(&stream);
    assert_eq!(frames.len(), 6);
    assert_eq!(frames.concat(), stream[..stream.len() - 2].to_vec());
    assert_eq!(framer.buffered_len(), 2);
}

#[test]
fn the_first_queue_wins_a_tie() {
    let mut scheduler = Scheduler::new();
    scheduler.enqueue(queued(5, Priority::Read, 1));
    scheduler.enqueue(queued(2, Priority::Read, 2));
    scheduler.enqueue(queued(5, Priority::Read, 3));
    let mut order = Vec::new();
    while let Some(op) = scheduler.select_next() {
        order.push(op.ticket);
    }
    assert_eq!(order, vec![1, 3, 2]);
}

#[test]
fn a_change_counts_once_and_touches_one_value() {
    let mut snap = Snapshot::default();
    let before = snap;
    let split = StateChange::Split {
        enabled: true,
        tx_vfo: None,
    };
    assert!(apply_change(&mut snap, split));
    assert!(!apply_change(&mut snap, split));
    assert_eq!(
        snap,
        Snapshot {
            split: true,
            ..before
        }
    );
    // A mode that is the assumed one changes nothing, but is known from then on.
    let mode = StateChange::Mode {
        vfo: Vfo::A,
        mode: Mode::Usb,
    };
    assert!(!apply_change(&mut snap, mode));
    assert!(snap.vfo(Vfo::A).mode_known);
    assert!(!snap.vfo(Vfo::B).mode_known);
}
