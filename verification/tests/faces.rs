//! Tests of the serial dialects and of sessions that share one radio.

use cathub::backend::loopback::LoopbackBackend;
use cathub::dialect::client::ClientDialect;
use cathub::dialect::kenwood::freq_frame;
use cathub::dialect::kenwood::mode_from_digit;
use cathub::dialect::kenwood::mode_to_digit;
use cathub::dialect::kenwood::parse_command;
use cathub::dialect::kenwood::synth_if;
use cathub::dialect::kenwood::transparent::TransparentTs590Dialect;
use cathub::dialect::kenwood::ts2000::Ts2000Dialect;
use cathub::dialect::kenwood::ts590::snapshot_resync_frames;
use cathub::dialect::kenwood::ts590::Ts590Dialect;
use cathub::dialect::ApplyOutcome;
use cathub::dialect::ApplyStep;
use cathub::dialect::ClientSessionContext;
use cathub::dialect::PassthroughStep;
use cathub::error::BackendError;
use cathub::hamlib_net::session::NetFace;
use cathub::hamlib_net::session::NetStep;
use cathub::model::Mode;
use cathub::model::PttSource;
use cathub::model::RadioEventSource;
use cathub::model::StateChange;
use cathub::model::StateMutation;
use cathub::model::Vfo;
use cathub::permissions::CommandClass;
use cathub::permissions::EndpointPermissions;
use cathub::ptt::PttManager;
use cathub::radio::operation::Backend;
use cathub::radio::operation::OpStep;
use cathub::radio::scheduler::OpKind;
use cathub::serial_face::FaceStep;
use cathub::serial_face::SerialFace;
use cathub::state::RadioEvent;
use cathub::state::StateHandle;

const ERR: &[u8] = b"?;";

fn perms(tokens: &[&str]) -> EndpointPermissions {
    let owned: Vec<String> = tokens.iter().map(|t| t.to_string()).collect();
    EndpointPermissions::from_tokens(&owned)
}

fn ts590() -> ClientDialect {
    ClientDialect::Ts590(Ts590Dialect::new())
}

fn ts2000() -> ClientDialect {
    ClientDialect::Ts2000(Ts2000Dialect::new())
}

fn transparent() -> ClientDialect {
    ClientDialect::Transparent(TransparentTs590Dialect::new())
}

/// A wired-up radio: the in-memory backend, the state and the PTT lease.
struct Rig {
    backend: Backend,
    state: StateHandle,
    ptt: PttManager,
    events: Vec<RadioEvent>,
}

impl Rig {
    fn new() -> Self {
        Rig {
            backend: Backend::Loopback(LoopbackBackend::new()),
            state: StateHandle::new(),
            ptt: PttManager::new(300_000),
            events: Vec::new(),
        }
    }

    fn radio(&self) -> &LoopbackBackend {
        match &self.backend {
            Backend::Loopback(radio) => radio,
            _ => unreachable!(),
        }
    }

    fn mutations(&self) -> Vec<StateMutation> {
        self.radio().mutations().clone()
    }

    fn passthroughs(&self) -> Vec<Vec<u8>> {
        self.radio().passthroughs().clone()
    }

    fn run(&mut self, kind: OpKind) -> Result<Vec<u8>, BackendError> {
        match self
            .backend
            .start(&kind, &mut self.state, &mut self.events)
        {
            OpStep::Done(result) => result,
            OpStep::Submit { .. } => panic!("the in-memory radio answers at once"),
        }
    }

    fn record(&mut self, change: StateChange, source: RadioEventSource) {
        if let Some(event) = self.state.record(change, source) {
            self.events.push(event);
        }
    }

    fn apply(
        &mut self,
        ctx: &ClientSessionContext,
        mutation: StateMutation,
        class: CommandClass,
    ) -> ApplyOutcome {
        match ctx.apply_modeled(mutation, class, &self.state, &mut self.ptt, 0) {
            ApplyStep::Done(outcome) => outcome,
            ApplyStep::Submit(_) => {
                let result = self.run(OpKind::Apply(mutation));
                ctx.finish_modeled(mutation, class, &result, &mut self.ptt)
            }
        }
    }

    fn ctx(&self, perms: EndpointPermissions, id: u64) -> ClientSessionContext {
        ClientSessionContext::new(id, perms, self.backend.capabilities())
    }

    fn face(&self, dialect: ClientDialect, perms: EndpointPermissions, id: u64) -> SerialFace {
        SerialFace::new(dialect, self.ctx(perms, id), b';')
    }

    fn single_vfo_face(&self, perms: EndpointPermissions) -> SerialFace {
        SerialFace::new(ts590(), self.ctx(perms, 5).with_single_vfo(true), b';')
    }

    /// Send bytes to a session and take what it writes back.
    fn request(&mut self, face: &mut SerialFace, bytes: &[u8]) -> Vec<u8> {
        let mut out = Vec::new();
        for frame in face.receive(bytes) {
            let reply = match face.handle(&frame, &self.state, &mut self.ptt, 0) {
                FaceStep::Reply(reply) => reply,
                FaceStep::Apply {
                    mutation, class, ..
                } => {
                    let result = self.run(OpKind::Apply(mutation));
                    face.finish_apply(mutation, class, &result, &mut self.ptt)
                }
                FaceStep::Forward { raw, .. } => {
                    let result = self.run(OpKind::Passthrough(raw));
                    ClientSessionContext::finish_passthrough(result)
                }
            };
            out.extend(reply);
        }
        out
    }

    /// What a session is told of the events that have gathered.
    fn told(&self, face: &SerialFace) -> Vec<u8> {
        let snapshot = self.state.snapshot();
        let mut out = Vec::new();
        for event in &self.events {
            out.extend(face.notify(event, &snapshot).unwrap_or_default());
        }
        out
    }

    fn note(&self, face: &SerialFace, change: StateChange) -> Option<Vec<u8>> {
        face.notify(&RadioEvent::Change(change), &self.state.snapshot())
    }
}

fn contains(haystack: &[u8], needle: &[u8]) -> bool {
    haystack.windows(needle.len()).any(|w| w == needle)
}

const POLL: RadioEventSource = RadioEventSource::PollDiff;
const PUSH: RadioEventSource = RadioEventSource::NativePush;

// --- the helpers of the Kenwood dialects ---

#[test]
fn parse_command_splits_verb_and_payload() {
    assert_eq!(
        parse_command(b"FA00007050000;"),
        Some((b"FA".to_vec(), b"00007050000".to_vec()))
    );
    assert_eq!(parse_command(b"TX;"), Some((b"TX".to_vec(), b"".to_vec())));
    assert_eq!(
        parse_command(b"AI2;"),
        Some((b"AI".to_vec(), b"2".to_vec()))
    );
    assert_eq!(parse_command(b"FA;"), Some((b"FA".to_vec(), b"".to_vec())));
    assert_eq!(parse_command(b";"), None);
}

#[test]
fn freq_frame_is_eleven_digits() {
    assert_eq!(freq_frame(b"FA", 7_050_000), b"FA00007050000;".to_vec());
    assert_eq!(freq_frame(b"FB", 0), b"FB00000000000;".to_vec());
}

#[test]
fn mode_digit_helpers_round_trip() {
    assert_eq!(mode_from_digit(mode_to_digit(Mode::Cw)), Mode::Cw);
    assert_eq!(mode_to_digit(Mode::Usb), b'2');
}

// --- the session context ---

#[test]
fn modeled_write_denied_without_permission() {
    let mut rig = Rig::new();
    let ctx = rig.ctx(EndpointPermissions::read_only(), 1);
    let outcome = rig.apply(
        &ctx,
        StateMutation::SetVfoFreq {
            vfo: Vfo::A,
            hz: 7_000_000,
        },
        CommandClass::ModeledWrite,
    );
    assert_eq!(outcome, ApplyOutcome::Denied);
    assert!(rig.mutations().is_empty());
}

#[test]
fn redundant_modeled_write_is_suppressed() {
    let mut rig = Rig::new();
    let ctx = rig.ctx(perms(&["read", "write"]), 1);
    // A fresh snapshot already reports VFO A in USB, so re-setting USB must not reach the
    // radio: re-sending an unchanged value is exactly what triggers the TS-590 PC-control
    // beep when a client like WSJT-X re-asserts mode on every poll.
    let outcome = rig.apply(
        &ctx,
        StateMutation::SetMode {
            vfo: Vfo::A,
            mode: Mode::Usb,
        },
        CommandClass::ModeledWrite,
    );
    assert_eq!(outcome, ApplyOutcome::Applied);
    assert!(rig.mutations().is_empty());

    // A genuine change still reaches the radio.
    let outcome = rig.apply(
        &ctx,
        StateMutation::SetMode {
            vfo: Vfo::A,
            mode: Mode::Cw,
        },
        CommandClass::ModeledWrite,
    );
    assert_eq!(outcome, ApplyOutcome::Applied);
    assert_eq!(rig.mutations().len(), 1);
}

#[test]
fn ptt_write_is_never_suppressed_as_redundant() {
    // Two unkey requests in a row must both reach the radio; PTT is never deduplicated.
    let mut rig = Rig::new();
    let ctx = rig.ctx(perms(&["ptt"]), 1);
    for _ in 0..2 {
        let outcome = rig.apply(
            &ctx,
            StateMutation::SetPtt {
                keyed: false,
                source: PttSource::Generic,
            },
            CommandClass::PttWrite,
        );
        assert_eq!(outcome, ApplyOutcome::Applied);
    }
    assert_eq!(rig.mutations().len(), 2);
}

#[test]
fn modeled_write_dispatches_when_allowed() {
    let mut rig = Rig::new();
    let ctx = rig.ctx(perms(&["read", "write"]), 1);
    let outcome = rig.apply(
        &ctx,
        StateMutation::SetVfoFreq {
            vfo: Vfo::A,
            hz: 7_000_000,
        },
        CommandClass::ModeledWrite,
    );
    assert_eq!(outcome, ApplyOutcome::Applied);
    assert_eq!(rig.mutations().len(), 1);
}

#[test]
fn frequency_write_does_not_grant_mode_control() {
    let mut rig = Rig::new();
    let ctx = rig.ctx(perms(&["read", "frequency_write"]), 1);

    let frequency = StateMutation::SetVfoFreq {
        vfo: Vfo::A,
        hz: 14_074_000,
    };
    assert_eq!(
        rig.apply(&ctx, frequency, CommandClass::ModeledWrite),
        ApplyOutcome::Applied
    );

    let mode = StateMutation::SetMode {
        vfo: Vfo::A,
        mode: Mode::Cw,
    };
    assert_eq!(
        rig.apply(&ctx, mode, CommandClass::ModeledWrite),
        ApplyOutcome::Denied
    );
    assert_eq!(rig.mutations(), vec![frequency]);
}

#[test]
fn ptt_is_busy_for_a_second_session() {
    let mut rig = Rig::new();
    let ctx1 = rig.ctx(perms(&["ptt"]), 1);
    // Share the same radio/ptt by cloning the context with a new session id.
    let ctx2 = ctx1.clone_for_session(2);
    let key = StateMutation::SetPtt {
        keyed: true,
        source: PttSource::Generic,
    };
    assert_eq!(
        rig.apply(&ctx1, key, CommandClass::PttWrite),
        ApplyOutcome::Applied
    );
    assert_eq!(
        rig.apply(&ctx2, key, CommandClass::PttWrite),
        ApplyOutcome::Busy
    );
}

#[test]
fn passthrough_denied_returns_error_frame() {
    let rig = Rig::new();
    let ctx = rig.ctx(EndpointPermissions::read_only(), 1);
    // A read-only endpoint may not issue a passthrough write.
    assert_eq!(
        ctx.passthrough(CommandClass::ConfigWrite),
        PassthroughStep::Refused
    );
    let mut rig = rig;
    let mut face = rig.face(ts590(), EndpointPermissions::read_only(), 1);
    assert_eq!(rig.request(&mut face, b"EX0050000;"), b"?;".to_vec());
}

#[test]
fn ai_flag_is_per_session_and_resets_on_clone() {
    let rig = Rig::new();
    let mut ctx = rig.ctx(EndpointPermissions::read_only(), 1);
    assert!(!ctx.ai_on());
    ctx.set_ai(true);
    assert!(ctx.ai_on());
    let fresh = ctx.clone_for_session(2);
    assert!(
        !fresh.ai_on(),
        "a cloned endpoint starts with auto-info off"
    );
}

#[test]
fn a_key_request_that_the_radio_refuses_gives_the_lease_back() {
    let rig = Rig::new();
    let ctx = rig.ctx(perms(&["ptt"]), 1);
    let mut ptt = PttManager::new(300_000);
    let key = StateMutation::SetPtt {
        keyed: true,
        source: PttSource::Generic,
    };
    let step = ctx.apply_modeled(key, CommandClass::PttWrite, &rig.state, &mut ptt, 0);
    assert!(matches!(step, ApplyStep::Submit(_)));
    assert_eq!(ptt.owner(), Some(1));
    assert_eq!(
        ctx.finish_modeled(
            key,
            CommandClass::PttWrite,
            &Err(BackendError::Timeout),
            &mut ptt
        ),
        ApplyOutcome::Error
    );
    assert_eq!(ptt.owner(), None);
}

// --- the virtualizing native dialect ---

#[test]
fn reads_frequency_from_cache() {
    let mut rig = Rig::new();
    let mut face = rig.face(ts590(), EndpointPermissions::read_only(), 5);
    rig.record(
        StateChange::Freq {
            vfo: Vfo::A,
            hz: 7_074_000,
        },
        POLL,
    );
    assert_eq!(rig.request(&mut face, b"FA;"), b"FA00007074000;".to_vec());
}

#[test]
fn write_is_denied_for_read_only_face() {
    let mut rig = Rig::new();
    let mut face = rig.face(ts590(), EndpointPermissions::read_only(), 5);
    assert_eq!(rig.request(&mut face, b"FA00007050000;"), ERR.to_vec());
    assert!(rig.mutations().is_empty());
}

#[test]
fn mode_read_and_write() {
    let mut rig = Rig::new();
    let mut face = rig.face(ts590(), perms(&["read", "write"]), 5);
    assert_eq!(
        rig.request(&mut face, b"MD;"),
        b"MD2;".to_vec(),
        "default mode is USB digit 2"
    );
    assert_eq!(rig.request(&mut face, b"MD3;"), Vec::<u8>::new());
    assert_eq!(
        rig.mutations(),
        vec![StateMutation::SetMode {
            vfo: Vfo::A,
            mode: Mode::Cw
        }]
    );
}

#[test]
fn ts590_ai_read_reports_state_without_changing_it() {
    let mut rig = Rig::new();
    let mut face = rig.face(ts590(), EndpointPermissions::read_only(), 5);
    // A fresh face: auto-info off, and reading it must not enable it.
    assert_eq!(rig.request(&mut face, b"AI;"), b"AI0;".to_vec());
    assert!(!face.ctx.ai_on(), "AI; read must not change the flag");

    // After enabling, a read reports 2 and leaves it enabled (regression: a read used
    // to be parsed as a write with an empty payload and silently disabled auto-info,
    // which froze native clients like ARCP-590 that poll AI; as a keepalive).
    assert!(rig.request(&mut face, b"AI2;").is_empty());
    assert!(face.ctx.ai_on());
    assert_eq!(rig.request(&mut face, b"AI;"), b"AI2;".to_vec());
    assert!(face.ctx.ai_on(), "AI; read must not disable auto-info");
}

#[test]
fn ai_toggle_is_virtualized_and_drives_notifications() {
    let mut rig = Rig::new();
    let mut face = rig.face(ts590(), EndpointPermissions::read_only(), 5);
    assert!(rig.request(&mut face, b"AI2;").is_empty());
    assert!(face.ctx.ai_on());
    let note = rig.note(
        &face,
        StateChange::Freq {
            vfo: Vfo::A,
            hz: 14_074_000,
        },
    );
    // The active VFO is A by default, so an active-VFO frequency change must push the
    // per-VFO `FA` frame *and* the operating-status `IF` frame so clients that track the
    // operating frequency (N1MM, Log4OM-as-TS590) follow the change.
    let mut expected = b"FA00014074000;".to_vec();
    expected.extend_from_slice(&synth_if(&rig.state.snapshot(), false));
    assert_eq!(note, Some(expected));
}

/// On VFO A, a frequency change pushed an `FA` frame and N1MM updated. On VFO B a bare `FB`
/// frame is ignored by operating-frequency trackers, so the displayed frequency would freeze.
/// The active-VFO change must also push the operating-status `IF` frame regardless of which
/// VFO is active.
#[test]
fn notification_for_active_vfo_b_freq_pushes_operating_if() {
    let mut rig = Rig::new();
    let mut face = rig.face(ts590(), EndpointPermissions::read_only(), 5);
    rig.record(StateChange::RxVfo { vfo: Vfo::B }, POLL);
    let change = StateChange::Freq {
        vfo: Vfo::B,
        hz: 14_034_320,
    };
    rig.record(change, POLL);
    face.ctx.set_ai(true);
    let note = rig
        .note(&face, change)
        .expect("active-VFO freq change must notify");
    let synth = synth_if(&rig.state.snapshot(), false);
    assert!(
        contains(&note, &synth),
        "VFO B active-freq notification must include the operating IF frame; got {:?}",
        String::from_utf8_lossy(&note)
    );
    // The IF frame must report VFO B (rx_vfo field == '1') and B's frequency.
    assert!(
        contains(&note, b"IF"),
        "notification must contain an IF status frame"
    );
    assert!(
        contains(&note, b"FB00014034320;"),
        "notification must still include the per-VFO FB frame"
    );
}

#[test]
fn mode_read_follows_active_vfo_b() {
    let mut rig = Rig::new();
    let mut face = rig.face(ts590(), EndpointPermissions::read_only(), 5);
    rig.record(StateChange::RxVfo { vfo: Vfo::B }, POLL);
    rig.record(
        StateChange::Mode {
            vfo: Vfo::B,
            mode: Mode::Cw,
        },
        POLL,
    );
    // A real TS-590 `MD;` reports the *active* VFO's mode, so with VFO B active and set
    // to CW the read must return the CW digit (3), not VFO A's default USB (2).
    assert_eq!(rig.request(&mut face, b"MD;"), b"MD3;".to_vec());
}

#[test]
fn mode_write_targets_active_vfo_b() {
    let mut rig = Rig::new();
    let mut face = rig.face(ts590(), perms(&["read", "write"]), 5);
    rig.record(StateChange::RxVfo { vfo: Vfo::B }, POLL);
    assert_eq!(rig.request(&mut face, b"MD3;"), Vec::<u8>::new());
    // The write must target the active VFO (B), not be hardcoded to VFO A.
    assert_eq!(
        rig.mutations(),
        vec![StateMutation::SetMode {
            vfo: Vfo::B,
            mode: Mode::Cw
        }]
    );
}

#[test]
fn passthrough_frame_is_relayed_only_when_auto_info_on() {
    let rig = Rig::new();
    let mut ctx = rig.ctx(EndpointPermissions::read_only(), 5);
    // Auto-info off: the radio's unmodeled echo is suppressed for this face.
    assert_eq!(Ts590Dialect::new().format_passthrough(b"NB1;", &ctx), None);
    // After the client enables auto-info, the echo is relayed verbatim so its NB cycle
    // (and front-panel changes) stay in sync.
    ctx.set_ai(true);
    assert_eq!(
        Ts590Dialect::new().format_passthrough(b"NB1;", &ctx),
        Some(b"NB1;".to_vec())
    );
    assert_eq!(
        Ts590Dialect::new().format_passthrough(b"NB0;", &ctx),
        Some(b"NB0;".to_vec())
    );
}

#[test]
fn id_and_ps_identify_as_ts590() {
    let mut rig = Rig::new();
    let mut face = rig.face(ts590(), EndpointPermissions::read_only(), 5);
    assert_eq!(rig.request(&mut face, b"ID;"), b"ID021;".to_vec());
    assert_eq!(rig.request(&mut face, b"PS;"), b"PS1;".to_vec());
}

#[test]
fn if_answer_is_38_bytes() {
    let mut rig = Rig::new();
    let mut face = rig.face(ts590(), EndpointPermissions::read_only(), 5);
    let reply = rig.request(&mut face, b"IF;");
    assert_eq!(reply.len(), 38);
    assert!(reply.starts_with(b"IF"));
}

#[test]
fn unmodeled_set_requires_config_write() {
    let mut rig = Rig::new();
    let mut face = rig.face(ts590(), perms(&["read", "write"]), 5);
    // No config_write permission: an EX-menu set is refused, never forwarded.
    assert_eq!(rig.request(&mut face, b"EX0050000;"), ERR.to_vec());
    assert!(rig.passthroughs().is_empty());
}

#[test]
fn passthrough_read_is_forwarded_when_permitted() {
    let mut rig = Rig::new();
    let mut face = rig.face(ts590(), perms(&["read"]), 5);
    let reply = rig.request(&mut face, b"RM;");
    // The loopback backend echoes the raw passthrough.
    assert_eq!(reply, b"RM;".to_vec());
    assert_eq!(rig.passthroughs(), vec![b"RM;".to_vec()]);
}

/// With the rig on VFO B, a single-VFO face must see the operating frequency presented
/// as VFO A: `IF;` reports P10 == '0' (not '1') so N1MM SO1V never warns, and the
/// frequency is VFO B's operating frequency.
#[test]
fn single_vfo_if_presents_operating_vfo_b_as_vfo_a() {
    let mut rig = Rig::new();
    let mut face = rig.single_vfo_face(EndpointPermissions::read_only());
    rig.record(StateChange::RxVfo { vfo: Vfo::B }, POLL);
    rig.record(
        StateChange::Freq {
            vfo: Vfo::B,
            hz: 14_034_320,
        },
        POLL,
    );
    let reply = rig.request(&mut face, b"IF;");
    assert_eq!(reply.len(), 38);
    // P10 (the active-VFO digit) is at index 30 in the 38-byte IF answer.
    assert_eq!(reply[30], b'0', "operating VFO must be presented as VFO A");
    assert!(
        contains(&reply, b"00014034320"),
        "IF must carry the operating (VFO B) frequency; got {}",
        String::from_utf8_lossy(&reply)
    );
}

/// A single-VFO face reads the operating VFO's frequency via `FA;`, even when the rig
/// is physically on VFO B.
#[test]
fn single_vfo_fa_read_returns_operating_vfo_b_freq() {
    let mut rig = Rig::new();
    let mut face = rig.single_vfo_face(EndpointPermissions::read_only());
    rig.record(StateChange::RxVfo { vfo: Vfo::B }, POLL);
    rig.record(
        StateChange::Freq {
            vfo: Vfo::B,
            hz: 14_034_320,
        },
        POLL,
    );
    assert_eq!(rig.request(&mut face, b"FA;"), b"FA00014034320;".to_vec());
}

/// An `FA` write from a single-VFO face must tune the operating VFO (B), not VFO A.
#[test]
fn single_vfo_fa_write_tunes_operating_vfo_b() {
    let mut rig = Rig::new();
    let mut face = rig.single_vfo_face(perms(&["read", "write"]));
    rig.record(StateChange::RxVfo { vfo: Vfo::B }, POLL);
    assert_eq!(rig.request(&mut face, b"FA00014050000;"), Vec::<u8>::new());
    assert_eq!(
        rig.mutations(),
        vec![StateMutation::SetVfoFreq {
            vfo: Vfo::B,
            hz: 14_050_000
        }]
    );
}

/// The receive-VFO selector never exposes VFO B to a single-VFO face: `FR;` reports
/// VFO A and a `FR1;` select is swallowed (not forwarded to the radio).
#[test]
fn single_vfo_fr_is_virtualized_to_vfo_a() {
    let mut rig = Rig::new();
    let mut face = rig.single_vfo_face(perms(&["read", "write"]));
    rig.record(StateChange::RxVfo { vfo: Vfo::B }, POLL);
    assert_eq!(rig.request(&mut face, b"FR;"), b"FR0;".to_vec());
    assert_eq!(rig.request(&mut face, b"FR1;"), Vec::<u8>::new());
    assert!(
        rig.passthroughs().is_empty(),
        "FR must never reach the radio as a passthrough on a single-VFO face"
    );
}

/// Switching the operating VFO (A->B) must re-present the new operating VFO as VFO A:
/// the push carries `FA`(new freq) + `MD`(new mode) + an `IF` with P10 == '0', so a
/// single-VFO logger seamlessly retunes with no SO1V warning.
#[test]
fn single_vfo_rxvfo_switch_re_presents_operating_as_vfo_a() {
    let mut rig = Rig::new();
    let mut face = rig.single_vfo_face(EndpointPermissions::read_only());
    rig.record(
        StateChange::Freq {
            vfo: Vfo::B,
            hz: 21_205_000,
        },
        POLL,
    );
    rig.record(
        StateChange::Mode {
            vfo: Vfo::B,
            mode: Mode::Cw,
        },
        POLL,
    );
    rig.record(StateChange::RxVfo { vfo: Vfo::B }, POLL);
    face.ctx.set_ai(true);
    let note = rig
        .note(&face, StateChange::RxVfo { vfo: Vfo::B })
        .expect("A/B switch must notify a single-VFO face");
    assert!(
        contains(&note, b"FA00021205000;"),
        "switch must push the new operating frequency as FA; got {}",
        String::from_utf8_lossy(&note)
    );
    assert!(
        contains(&note, b"MD3;"),
        "switch must push the new operating mode (CW=3); got {}",
        String::from_utf8_lossy(&note)
    );
    // The trailing IF must present VFO A (P10 == '0'), never VFO B.
    let if_pos = note
        .windows(2)
        .position(|w| w == b"IF")
        .expect("notification must contain an IF frame");
    assert_eq!(
        note[if_pos + 30],
        b'0',
        "the operating VFO must be presented as VFO A in the IF frame"
    );
}

/// An active-VFO (B) frequency change pushes `FA` (not `FB`) plus an `IF` presenting
/// VFO A, so N1MM SO1V tracks the change. Inactive-VFO churn is suppressed.
#[test]
fn single_vfo_active_freq_change_pushes_fa_as_vfo_a() {
    let mut rig = Rig::new();
    let mut face = rig.single_vfo_face(EndpointPermissions::read_only());
    rig.record(StateChange::RxVfo { vfo: Vfo::B }, POLL);
    let change = StateChange::Freq {
        vfo: Vfo::B,
        hz: 14_034_320,
    };
    rig.record(change, POLL);
    face.ctx.set_ai(true);
    let note = rig
        .note(&face, change)
        .expect("active-VFO freq change must notify");
    assert!(
        note.starts_with(b"FA00014034320;"),
        "active VFO-B change must be presented as an FA frame; got {}",
        String::from_utf8_lossy(&note)
    );
    assert!(
        !contains(&note, b"FB"),
        "a single-VFO face must never receive an FB frame; got {}",
        String::from_utf8_lossy(&note)
    );
    let if_pos = note.windows(2).position(|w| w == b"IF").expect("IF frame");
    assert_eq!(note[if_pos + 30], b'0', "IF must present VFO A");
}

/// A frequency change on the *inactive* VFO is invisible to a single-VFO face.
#[test]
fn single_vfo_inactive_freq_change_is_suppressed() {
    let rig = Rig::new();
    let mut face = rig.single_vfo_face(EndpointPermissions::read_only());
    // Operating on VFO A; a change on VFO B must not be pushed.
    face.ctx.set_ai(true);
    let note = rig.note(
        &face,
        StateChange::Freq {
            vfo: Vfo::B,
            hz: 7_000_000,
        },
    );
    assert_eq!(note, None);
}

/// A single-VFO face never receives raw passthrough frames (which could leak VFO B).
#[test]
fn single_vfo_suppresses_raw_passthrough() {
    let rig = Rig::new();
    let mut face = rig.single_vfo_face(EndpointPermissions::read_only());
    face.ctx.set_ai(true);
    assert_eq!(
        Ts590Dialect::new().format_passthrough(b"FB00014000000;", &face.ctx),
        None
    );
}

// --- the foreign translator ---

#[test]
fn if_response_contains_frequency() {
    let mut rig = Rig::new();
    let mut face = rig.face(ts2000(), EndpointPermissions::read_only(), 7);
    rig.record(
        StateChange::Freq {
            vfo: Vfo::A,
            hz: 14_074_000,
        },
        POLL,
    );
    let reply = rig.request(&mut face, b"IF;");
    assert!(reply.starts_with(b"IF00014074000"));
    assert!(reply.ends_with(b";"));
    assert_eq!(reply.len(), 38, "Kenwood IF answer is 38 bytes");
}

#[test]
fn rejects_vfo_target_write() {
    let mut rig = Rig::new();
    let mut face = rig.face(ts2000(), perms(&["read", "write"]), 7);
    assert_eq!(rig.request(&mut face, b"FR1;"), ERR.to_vec());
    // Crucially: no split mutation reached the radio.
    assert!(rig.mutations().is_empty());
}

#[test]
fn rx_vfo_change_notifies_with_current_if_status() {
    let mut rig = Rig::new();
    let mut face = rig.face(ts2000(), EndpointPermissions::read_only(), 7);
    face.ctx.set_ai(true);
    rig.record(
        StateChange::Freq {
            vfo: Vfo::B,
            hz: 14_034_320,
        },
        PUSH,
    );
    rig.record(
        StateChange::Mode {
            vfo: Vfo::B,
            mode: Mode::Usb,
        },
        PUSH,
    );
    rig.record(StateChange::RxVfo { vfo: Vfo::B }, PUSH);

    let notification = rig
        .note(&face, StateChange::RxVfo { vfo: Vfo::B })
        .expect("IF notification");

    // The notification still carries the full `IF` status so split/PTT stay in sync.
    let if_at = notification
        .windows(2)
        .position(|w| w == b"IF")
        .expect("IF segment present");
    assert_eq!(
        &notification[if_at..if_at + 13],
        b"IF00014034320",
        "embedded IF status reports the new active frequency"
    );
    assert_eq!(
        *notification.get(if_at + 30).expect("VFO field"),
        b'1',
        "TS-2000 IF VFO field should report VFO B"
    );
}

#[test]
fn vfo_switch_pushes_fa_for_new_active_frequency() {
    // A VFO A->B switch must push an `FA` (and `MD`) frame for the new active VFO so
    // HDSDR/OmniRig retunes the panadapter.
    let mut rig = Rig::new();
    let mut face = rig.face(ts2000(), EndpointPermissions::read_only(), 7);
    face.ctx.set_ai(true);
    rig.record(
        StateChange::Freq {
            vfo: Vfo::B,
            hz: 7_034_320,
        },
        PUSH,
    );
    rig.record(
        StateChange::Mode {
            vfo: Vfo::B,
            mode: Mode::Cw,
        },
        PUSH,
    );
    rig.record(StateChange::RxVfo { vfo: Vfo::B }, PUSH);

    let notification = rig
        .note(&face, StateChange::RxVfo { vfo: Vfo::B })
        .expect("notification");

    assert!(
        notification.starts_with(b"FA00007034320;"),
        "VFO switch must lead with FA for the new active frequency, got {}",
        String::from_utf8_lossy(&notification)
    );
    assert!(
        contains(
            &notification,
            &[b'M', b'D', mode_to_digit(Mode::Cw), b';']
        ),
        "VFO switch must also push the new active mode (MD)"
    );
}

#[test]
fn answers_id_as_ts2000() {
    let mut rig = Rig::new();
    let mut face = rig.face(ts2000(), EndpointPermissions::read_only(), 7);
    assert_eq!(rig.request(&mut face, b"ID;"), b"ID019;".to_vec());
}

#[test]
fn ts2000_ai_read_reports_state_without_changing_it() {
    let mut rig = Rig::new();
    let mut face = rig.face(ts2000(), EndpointPermissions::read_only(), 7);
    assert_eq!(rig.request(&mut face, b"AI;"), b"AI0;".to_vec());
    assert!(!face.ctx.ai_on());
    assert!(rig.request(&mut face, b"AI2;").is_empty());
    assert_eq!(rig.request(&mut face, b"AI;"), b"AI2;".to_vec());
    assert!(face.ctx.ai_on(), "AI; read must not disable auto-info");
}

#[test]
fn reads_frequency_from_state() {
    let mut rig = Rig::new();
    let mut face = rig.face(ts2000(), EndpointPermissions::read_only(), 7);
    rig.record(
        StateChange::Freq {
            vfo: Vfo::A,
            hz: 21_200_000,
        },
        POLL,
    );
    assert_eq!(rig.request(&mut face, b"FA;"), b"FA00021200000;".to_vec());
}

#[test]
fn fa_write_tunes_active_vfo_b() {
    let mut rig = Rig::new();
    let mut face = rig.face(ts2000(), perms(&["read", "write"]), 7);
    rig.record(StateChange::RxVfo { vfo: Vfo::B }, PUSH);

    assert_eq!(rig.request(&mut face, b"FA00014074000;"), Vec::<u8>::new());

    assert_eq!(
        rig.mutations(),
        vec![StateMutation::SetVfoFreq {
            vfo: Vfo::B,
            hz: 14_074_000
        }],
        "HDSDR/OmniRig FA set-frequency writes express the displayed active frequency"
    );
}

#[test]
fn fa_read_reports_active_vfo_b_frequency() {
    let mut rig = Rig::new();
    let mut face = rig.face(ts2000(), EndpointPermissions::read_only(), 7);
    rig.record(
        StateChange::Freq {
            vfo: Vfo::A,
            hz: 14_062_820,
        },
        PUSH,
    );
    rig.record(
        StateChange::Freq {
            vfo: Vfo::B,
            hz: 14_074_000,
        },
        PUSH,
    );
    rig.record(StateChange::RxVfo { vfo: Vfo::B }, PUSH);

    assert_eq!(
        rig.request(&mut face, b"FA;"),
        b"FA00014074000;".to_vec(),
        "HDSDR/OmniRig FA reads track the displayed active frequency"
    );
}

#[test]
fn active_vfo_b_frequency_notifies_as_fa() {
    let mut rig = Rig::new();
    let mut face = rig.face(ts2000(), EndpointPermissions::read_only(), 7);
    face.ctx.set_ai(true);
    rig.record(StateChange::RxVfo { vfo: Vfo::B }, PUSH);

    let notification = rig
        .note(
            &face,
            StateChange::Freq {
                vfo: Vfo::B,
                hz: 14_074_000,
            },
        )
        .expect("active VFO B frequency notification");

    assert_eq!(notification, b"FA00014074000;".to_vec());
}

#[test]
fn md_read_and_write_use_active_vfo_b() {
    let mut rig = Rig::new();
    let mut face = rig.face(ts2000(), perms(&["read", "write"]), 7);
    rig.record(
        StateChange::Mode {
            vfo: Vfo::A,
            mode: Mode::Lsb,
        },
        PUSH,
    );
    rig.record(
        StateChange::Mode {
            vfo: Vfo::B,
            mode: Mode::Cw,
        },
        PUSH,
    );
    rig.record(StateChange::RxVfo { vfo: Vfo::B }, PUSH);

    assert_eq!(rig.request(&mut face, b"MD;"), b"MD3;");
    assert_eq!(rig.request(&mut face, b"MD2;"), Vec::<u8>::new());

    assert_eq!(
        rig.mutations(),
        vec![StateMutation::SetMode {
            vfo: Vfo::B,
            mode: Mode::Usb
        }],
        "HDSDR/OmniRig MD writes express the displayed active mode"
    );
}

// --- the transparent mirror ---

#[test]
fn forwards_a_vfo_select_to_the_radio_verbatim() {
    // An A/B (`FR1;`) from a mirror client must reach the radio raw, not be swallowed by
    // virtualization.
    let mut rig = Rig::new();
    let mut face = rig.face(transparent(), perms(&["read", "write", "config_write"]), 1);
    let reply = rig.request(&mut face, b"FR1;");
    // Loopback echoes the passthrough; production fire-and-forget writes return empty.
    assert_eq!(reply, b"FR1;");
    assert_eq!(rig.passthroughs(), vec![b"FR1;".to_vec()]);
}

#[test]
fn forwards_a_frequency_read_to_the_radio() {
    let mut rig = Rig::new();
    let mut face = rig.face(transparent(), perms(&["read", "write", "config_write"]), 1);
    let _ = rig.request(&mut face, b"FA;");
    assert_eq!(rig.passthroughs(), vec![b"FA;".to_vec()]);
}

#[test]
fn keys_and_unkeys_through_the_ptt_lease() {
    let mut rig = Rig::new();
    let mut face = rig.face(transparent(), perms(&["read", "ptt"]), 1);
    assert!(rig.request(&mut face, b"TX;").is_empty());
    assert_eq!(rig.ptt.owner(), Some(1), "TX must take the shared PTT lease");
    assert!(rig.request(&mut face, b"RX;").is_empty());
    assert_eq!(rig.ptt.owner(), None, "RX must release the shared PTT lease");
}

#[test]
fn ptt_command_never_reaches_the_radio_as_a_raw_write() {
    // TX/RX must be modeled (lease-arbitrated), not passed through as raw bytes.
    let mut rig = Rig::new();
    let mut face = rig.face(transparent(), perms(&["read", "ptt"]), 1);
    let _ = rig.request(&mut face, b"TX;");
    assert!(
        rig.passthroughs().is_empty(),
        "PTT must not be forwarded as a raw passthrough"
    );
}

#[test]
fn keepalive_reads_are_answered_locally() {
    let mut rig = Rig::new();
    let mut face = rig.face(transparent(), EndpointPermissions::read_only(), 1);
    assert_eq!(rig.request(&mut face, b"ID;"), b"ID021;");
    assert_eq!(rig.request(&mut face, b"PS;"), b"PS1;");
    assert!(
        rig.passthroughs().is_empty(),
        "ID/PS keepalives must not generate radio traffic"
    );
}

#[test]
fn auto_information_is_virtualized_per_face() {
    let mut rig = Rig::new();
    let mut face = rig.face(transparent(), EndpointPermissions::read_only(), 1);
    assert_eq!(rig.request(&mut face, b"AI;"), b"AI0;");
    assert!(rig.request(&mut face, b"AI2;").is_empty());
    assert!(face.ctx.ai_on());
    assert_eq!(rig.request(&mut face, b"AI;"), b"AI2;");
    assert!(
        rig.passthroughs().is_empty(),
        "AI must never reach the radio; the rig stays in hub-owned AI2"
    );
}

#[test]
fn relays_modeled_and_unmodeled_frames_verbatim_when_auto_info_on() {
    let rig = Rig::new();
    let mut ctx = rig.ctx(EndpointPermissions::read_only(), 1);
    let dialect = TransparentTs590Dialect::new();
    // AI off: suppress everything.
    assert_eq!(dialect.format_native_passthrough(b"FR1;", &ctx), None);
    assert_eq!(dialect.format_passthrough(b"NB1;", &ctx), None);
    ctx.set_ai(true);
    // AI on: relay both the modeled CAT echo and the unmodeled frame byte-for-byte.
    assert_eq!(
        dialect.format_native_passthrough(b"FA00014035000;", &ctx),
        Some(b"FA00014035000;".to_vec())
    );
    assert_eq!(
        dialect.format_passthrough(b"NB1;", &ctx),
        Some(b"NB1;".to_vec())
    );
}

#[test]
fn never_synthesizes_a_modeled_notification() {
    let rig = Rig::new();
    let mut face = rig.face(transparent(), EndpointPermissions::read_only(), 1);
    face.ctx.set_ai(true);
    let change = StateChange::Freq {
        vfo: Vfo::A,
        hz: 14_035_000,
    };
    assert_eq!(
        TransparentTs590Dialect::new().format_notification(&change),
        None,
        "a transparent face must never emit a synthesized notification"
    );
    assert_eq!(rig.note(&face, change), None);
}

#[test]
fn resync_re_presents_full_state_after_a_lag() {
    let mut rig = Rig::new();
    let mut ctx = rig.ctx(EndpointPermissions::read_only(), 1);
    ctx.set_ai(true);
    rig.record(
        StateChange::Freq {
            vfo: Vfo::A,
            hz: 14_035_000,
        },
        POLL,
    );
    let frames = TransparentTs590Dialect::new().resync(&rig.state.snapshot(), &ctx);
    assert!(
        frames.iter().any(|f| f == b"FA00014035000;"),
        "re-sync must include the current VFO A frequency, got {frames:?}"
    );
    assert!(
        frames.iter().any(|f| f.starts_with(b"IF")),
        "re-sync must include the operating-status IF frame"
    );
    assert_eq!(frames, snapshot_resync_frames(&rig.state.snapshot()));
}

#[test]
fn resync_is_empty_when_auto_info_off() {
    let rig = Rig::new();
    let ctx = rig.ctx(EndpointPermissions::read_only(), 1);
    assert!(
        TransparentTs590Dialect::new()
            .resync(&rig.state.snapshot(), &ctx)
            .is_empty(),
        "an AI-off mirror face must emit nothing on re-sync"
    );
}

// --- serial sessions ---

#[test]
fn serves_a_read_request() {
    let mut rig = Rig::new();
    let mut client = rig.face(ts590(), EndpointPermissions::read_only(), 1);
    rig.record(
        StateChange::Freq {
            vfo: Vfo::A,
            hz: 7_030_000,
        },
        POLL,
    );
    assert_eq!(rig.request(&mut client, b"FA;"), b"FA00007030000;");
}

#[test]
fn fans_out_notifications_to_subscribed_face() {
    let mut rig = Rig::new();
    let mut client = rig.face(ts590(), EndpointPermissions::read_only(), 1);
    // Enable auto-info on the face.
    rig.request(&mut client, b"AI2;");
    // A state change is pushed without the client polling.
    rig.record(
        StateChange::Freq {
            vfo: Vfo::A,
            hz: 14_123_000,
        },
        POLL,
    );
    assert!(rig.told(&client).starts_with(b"FA00014123000;"));
}

#[test]
fn relays_unmodeled_radio_frame_to_subscribed_face() {
    let mut rig = Rig::new();
    let mut client = rig.face(ts590(), EndpointPermissions::read_only(), 1);
    // Enable auto-info on the face.
    rig.request(&mut client, b"AI2;");
    // The radio echoes a noise-blanker change the backend does not model; it must reach
    // the client verbatim so its NB state machine advances (regression for the ARCP-590
    // NB cycle that stalled when these echoes were dropped).
    rig.events.push(RadioEvent::Raw(b"NB1;".to_vec()));
    assert_eq!(rig.told(&client), b"NB1;");
}

#[test]
fn dropping_a_keyed_client_releases_the_ptt_lease() {
    // A client keys the transmitter, then its transport vanishes (crash/cable pull).
    // The hub must drop TX immediately, not hold it until the safety ceiling fires.
    let mut rig = Rig::new();
    let mut client = rig.face(ts590(), perms(&["read", "ptt"]), 1);
    rig.request(&mut client, b"TX;");
    assert_eq!(rig.ptt.owner(), Some(1), "client should hold the PTT lease");

    // The face must release the lease promptly on disconnect.
    let release = client
        .ctx
        .release_ptt_on_disconnect(&rig.ptt)
        .expect("a keyed client is unkeyed");
    let answer = rig.run(OpKind::Apply(release.mutation));
    assert!(answer.is_ok(), "unkey");
    release.finish(Some(answer), &mut rig.ptt);
    assert!(!rig.state.snapshot().ptt);
    assert_eq!(
        rig.ptt.owner(),
        None,
        "PTT lease must be released when a keyed client disconnects"
    );
}

#[test]
fn lagged_face_does_not_permanently_lose_a_one_shot_mode_change() {
    // A lagged face that merely skips would render the old mode forever; the re-sync must
    // restore the current mode to the client.
    let mut rig = Rig::new();
    let mut client = rig.face(ts590(), EndpointPermissions::read_only(), 1);
    rig.request(&mut client, b"AI2;");

    // The one-shot change we must not lose: switch to CW.
    rig.record(
        StateChange::Mode {
            vfo: Vfo::A,
            mode: Mode::Cw,
        },
        PUSH,
    );
    for i in 0..2_000u64 {
        rig.record(
            StateChange::Freq {
                vfo: Vfo::A,
                hz: 7_000_000 + i,
            },
            POLL,
        );
    }
    // The ring kept its last entries only: the mode change is gone from it.
    let kept = rig.events.split_off(rig.events.len() - 256);
    assert!(!kept
        .iter()
        .any(|e| matches!(e, RadioEvent::Change(StateChange::Mode { .. }))));

    let expected = vec![b'M', b'D', mode_to_digit(Mode::Cw), b';'];
    let frames = client.resync(&rig.state.snapshot());
    assert!(
        frames.iter().any(|frame| contains(frame, &expected)),
        "after lagging, the face must be re-synced to the current CW mode"
    );
}

#[test]
fn a_client_that_never_ends_a_request_is_bounded() {
    let mut rig = Rig::new();
    let mut client = rig.face(ts590(), EndpointPermissions::read_only(), 1);
    let junk = vec![b'X'; 10_000];
    assert!(rig.request(&mut client, &junk).is_empty());
    rig.request(&mut client, b";");
    assert_eq!(rig.request(&mut client, b"ID;"), b"ID021;");
}

// --- sessions that share one radio ---

/// A write on one face is visible to a read on another face on the same radio.
#[test]
fn write_from_one_face_visible_on_another() {
    let mut rig = Rig::new();
    let mut writer_face = rig.face(ts590(), perms(&["read", "write"]), 1);
    let mut reader_face = rig.face(ts2000(), EndpointPermissions::read_only(), 2);

    // Set VFO A frequency from the native (N1MM-style) face.
    rig.request(&mut writer_face, b"FA00007050000;");

    let reply = rig.request(&mut reader_face, b"FA;");
    assert_eq!(reply, b"FA00007050000;");
}

/// Modeled reads are served from the cache: no client read ever reaches the backend, so a
/// flurry of reads from many faces adds zero real-radio commands.
#[test]
fn face_reads_are_served_from_cache_not_the_backend() {
    let mut rig = Rig::new();
    let mut a = rig.face(ts590(), EndpointPermissions::read_only(), 1);
    let mut b = rig.face(ts2000(), EndpointPermissions::read_only(), 2);

    for _ in 0..20 {
        let _ = rig.request(&mut a, b"FA;");
        let _ = rig.request(&mut b, b"FA;");
    }

    assert_eq!(rig.radio().poll_count(), 0, "reads must not poll the radio");
    assert!(
        rig.mutations().is_empty(),
        "reads must not mutate the radio"
    );
    assert!(
        rig.passthroughs().is_empty(),
        "modeled reads must not passthrough"
    );
}

/// A TS-2000 (OmniRig/HDSDR) face never emits VFO-target traffic: status reads come from
/// cache and a VFO-target write is rejected, never forwarded.
#[test]
fn ts2000_face_never_retargets_vfo() {
    let mut rig = Rig::new();
    let mut omni = rig.face(ts2000(), EndpointPermissions::read_only(), 1);

    let _ = rig.request(&mut omni, b"IF;");
    let _ = rig.request(&mut omni, b"FA;");
    let _ = rig.request(&mut omni, b"FB;");
    // OmniRig issuing an FR (RX VFO select) write must be rejected, not forwarded.
    let reply = rig.request(&mut omni, b"FR1;");
    assert_eq!(reply, b"?;");

    assert!(
        rig.mutations().is_empty(),
        "no status read or VFO-select should mutate the radio"
    );
    assert!(rig.passthroughs().is_empty());
}

/// A simulated front-panel change (a poll-diff from the backend's truth) fans out to every
/// auto-info-subscribed face without any client having polled.
#[test]
fn front_panel_change_fans_out_to_all_subscribed_faces() {
    let mut rig = Rig::new();
    let mut a = rig.face(ts590(), EndpointPermissions::read_only(), 1);
    let mut b = rig.face(ts590(), EndpointPermissions::read_only(), 2);

    // Both faces turn on virtualized auto-info.
    rig.request(&mut a, b"AI2;");
    rig.request(&mut b, b"AI2;");

    // Operator turns the knob: backend truth changes, then a poll diffs it into state.
    match &mut rig.backend {
        Backend::Loopback(radio) => radio.set_truth_freq_a(7_123_000),
        _ => unreachable!(),
    }
    rig.run(OpKind::Poll).expect("poll");

    assert!(rig.told(&a).starts_with(b"FA00007123000;"));
    assert!(rig.told(&b).starts_with(b"FA00007123000;"));
}

/// Writes fanned in from several faces are strictly serialized through the one radio task.
#[test]
fn writes_from_all_faces_are_strictly_ordered() {
    let mut rig = Rig::new();
    let perms = perms(&["read", "write"]);
    let mut f1 = rig.face(ts590(), perms, 1);
    let mut f2 = rig.face(ts590(), perms, 2);
    let mut f3 = rig.face(ts590(), perms, 3);

    rig.request(&mut f1, b"FA00007010000;");
    rig.request(&mut f2, b"FA00007020000;");
    rig.request(&mut f3, b"FA00007030000;");

    let muts = rig.mutations();
    assert_eq!(muts.len(), 3, "every write reaches the radio exactly once");
}

/// PTT is a single-owner lease: the first capable face keys, a second is refused while the
/// lease is held, and the lease frees on `RX;` so the second face can then key.
#[test]
fn ptt_lease_is_arbitrated_across_faces() {
    let mut rig = Rig::new();
    let perms = perms(&["read", "write", "ptt"]);
    let mut f1 = rig.face(ts590(), perms, 1);
    let mut f2 = rig.face(ts590(), perms, 2);

    // f1 keys: a Kenwood set has no positive reply, so nothing comes back.
    assert!(rig.request(&mut f1, b"TX;").is_empty());

    // f2 tries to key while f1 holds the lease: rejected with `?;`.
    assert_eq!(rig.request(&mut f2, b"TX;"), b"?;");

    // f1 unkeys, releasing the lease.
    rig.request(&mut f1, b"RX;");

    // f2 can now acquire it (no error reply).
    rig.request(&mut f2, b"TX;");
    assert_eq!(rig.ptt.owner(), Some(2));
}

/// The Hamlib net face (engine / WSJT-X) and a serial face share one radio state: a write on
/// the serial face is read back over the line protocol, and a read-only endpoint rejects
/// writes.
#[test]
fn hamlib_net_and_serial_face_share_radio_state() {
    let mut rig = Rig::new();

    // A native serial face that can write (N1MM-style).
    let mut n1mm = rig.face(ts590(), perms(&["read", "write"]), 1);

    // A read-only Hamlib net endpoint (the QsoRipper engine).
    let mut engine = NetFace::new(rig.ctx(EndpointPermissions::read_only(), 2), String::new());

    // Set the frequency from the serial face.
    rig.request(&mut n1mm, b"FA00014250000;");

    // The engine reads it back over the Hamlib net protocol (`f` => bare Hz).
    let received = engine.receive(b"f\n");
    assert!(received.open);
    assert_eq!(received.lines.len(), 1);
    match engine.handle(&received.lines[0], &rig.state, &mut rig.ptt, 0) {
        NetStep::Reply(text) => assert_eq!(text.trim(), "14250000"),
        _ => panic!("a read is answered at once"),
    }

    // The read-only endpoint rejects a set-frequency write.
    let received = engine.receive(b"F 7000000\n");
    match engine.handle(&received.lines[0], &rig.state, &mut rig.ptt, 0) {
        NetStep::Reply(text) => assert!(
            text.starts_with("RPRT -"),
            "read-only endpoint rejects F: {text}"
        ),
        _ => panic!("a read-only endpoint submits nothing"),
    }
}
