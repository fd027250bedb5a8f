//! Tests of the model, permissions, the PTT lease, errors and the simple backends.

use cathub::backend::loopback::LoopbackBackend;
use cathub::backend::rigctld::check_rprt;
use cathub::backend::rigctld::first_line;
use cathub::backend::rigctld::nth_line;
use cathub::backend::rigctld::RigctldBackend;
use cathub::backend::TrustTier;
use cathub::error::BackendError;
use cathub::error::CatHubError;
use cathub::error::ConfigError;
use cathub::model::Field;
use cathub::model::Mode;
use cathub::model::PttSource;
use cathub::model::RadioEventSource;
use cathub::model::StateChange;
use cathub::model::StateMutation;
use cathub::model::Vfo;
use cathub::permissions::CommandClass;
use cathub::permissions::EndpointPermissions;
use cathub::power::TxPower;
use cathub::ptt::PttDenied;
use cathub::ptt::PttManager;
use cathub::radio::operation::Backend;
use cathub::radio::operation::OpStep;
use cathub::radio::operation::Running;
use cathub::radio::scheduler::OpKind;
use cathub::state::StateHandle;

fn perms(tokens: &[&str]) -> EndpointPermissions {
    let owned: Vec<String> = tokens.iter().map(|t| t.to_string()).collect();
    EndpointPermissions::from_tokens(&owned)
}

// --- model ---

#[test]
fn kenwood_mode_digits_round_trip() {
    for mode in [
        Mode::Lsb,
        Mode::Usb,
        Mode::Cw,
        Mode::Fm,
        Mode::Am,
        Mode::Fsk,
        Mode::CwR,
        Mode::FskR,
    ] {
        assert_eq!(Mode::from_kenwood_digit(mode.to_kenwood_digit()), mode);
    }
}

#[test]
fn unknown_kenwood_digit_maps_to_unknown_and_back_to_usb() {
    assert_eq!(Mode::from_kenwood_digit(b'0'), Mode::Unknown);
    assert_eq!(Mode::Unknown.to_kenwood_digit(), b'2');
}

#[test]
fn hamlib_tokens_round_trip() {
    for mode in [
        Mode::Lsb,
        Mode::Usb,
        Mode::Cw,
        Mode::CwR,
        Mode::Fsk,
        Mode::FskR,
        Mode::Am,
        Mode::Fm,
    ] {
        assert_eq!(Mode::from_hamlib_token(mode.hamlib_token()), mode);
    }
    assert_eq!(Mode::from_hamlib_token("WAT"), Mode::Unknown);
}

#[test]
fn hamlib_data_tokens_compose_and_decompose() {
    assert_eq!(Mode::Usb.hamlib_token_with_data(true), "PKTUSB");
    assert_eq!(Mode::Lsb.hamlib_token_with_data(true), "PKTLSB");
    assert_eq!(Mode::Fm.hamlib_token_with_data(true), "PKTFM");
    assert_eq!(Mode::Am.hamlib_token_with_data(true), "PKTAM");
    assert_eq!(Mode::Usb.hamlib_token_with_data(false), "USB");
    assert_eq!(Mode::Cw.hamlib_token_with_data(true), "CW");

    assert_eq!(Mode::decompose_hamlib_token("PKTUSB"), (Mode::Usb, true));
    assert_eq!(Mode::decompose_hamlib_token("PKTLSB"), (Mode::Lsb, true));
    assert_eq!(Mode::decompose_hamlib_token("USB"), (Mode::Usb, false));
    assert_eq!(Mode::decompose_hamlib_token("CW"), (Mode::Cw, false));

    for mode in [Mode::Usb, Mode::Lsb, Mode::Fm, Mode::Am] {
        let token = mode.hamlib_token_with_data(true);
        assert_eq!(Mode::decompose_hamlib_token(token), (mode, true));
    }
}

#[test]
fn data_mode_mutation_into_change_round_trips() {
    assert_eq!(
        StateMutation::SetDataMode {
            vfo: Vfo::A,
            on: true,
        }
        .into_change(),
        StateChange::DataMode {
            vfo: Vfo::A,
            on: true,
        }
    );
    // DataMode shares the Mode coverage key so native MD/DA pushes can't fight.
    assert_eq!(
        StateChange::DataMode {
            vfo: Vfo::B,
            on: false,
        }
        .field(),
        Field::Mode(Vfo::B)
    );
}

#[test]
fn vfo_display_renders_letter() {
    assert_eq!(Vfo::A.text(), "A");
    assert_eq!(Vfo::B.text(), "B");
}

#[test]
fn mutation_into_change_maps_each_variant() {
    assert_eq!(
        StateMutation::SetVfoFreq {
            vfo: Vfo::A,
            hz: 7_000_000
        }
        .into_change(),
        StateChange::Freq {
            vfo: Vfo::A,
            hz: 7_000_000
        }
    );
    assert_eq!(
        StateMutation::SetPtt {
            keyed: true,
            source: PttSource::Generic,
        }
        .into_change(),
        StateChange::Ptt { keyed: true }
    );
    assert_eq!(
        StateMutation::SetRit {
            offset_hz: 50,
            enabled: true
        }
        .into_change(),
        StateChange::Rit {
            enabled: true,
            offset_hz: 50
        }
    );
}

#[test]
fn change_field_keys_are_stable() {
    assert_eq!(
        StateChange::Freq { vfo: Vfo::B, hz: 1 }.field(),
        Field::Freq(Vfo::B)
    );
    assert_eq!(
        StateChange::Xit {
            enabled: false,
            offset_hz: 0
        }
        .field(),
        Field::Xit
    );
}

#[test]
fn mode_tokens_ignore_surrounding_space() {
    assert_eq!(Mode::from_hamlib_token("  CWR "), Mode::CwR);
    assert_eq!(Mode::decompose_hamlib_token(" PKTFM "), (Mode::Fm, true));
    assert_eq!(Mode::decompose_hamlib_token("PKT"), (Mode::Unknown, true));
}

#[test]
fn transmit_power_is_relative_to_full_power() {
    let power = TxPower::from_watts(50, 100);
    assert_eq!(power.relative_decimal(), "0.5");
    assert_eq!(TxPower::parse_relative_millionths("0.5"), Some(500_000));
    assert_eq!(power.milliwatts_for_relative(500_000), Some(50_000));
    assert_eq!(TxPower::parse_relative_millionths("half"), None);
    assert_eq!(TxPower::from_watts(5, 0).milliwatts_for_relative(1), None);
}

// --- permissions ---

#[test]
fn tokens_parse_into_flags() {
    let perms = perms(&["read", "write", "ptt"]);
    assert!(perms.read && perms.write && perms.ptt);
    assert!(!perms.frequency_write);
    assert!(!perms.config_write);
}

#[test]
fn frequency_write_is_narrowly_scoped() {
    let perms = perms(&["read", "frequency_write"]);
    assert!(perms.frequency_write);
    assert!(!perms.write);
    assert!(perms.allows_mutation(
        CommandClass::ModeledWrite,
        &StateMutation::SetVfoFreq {
            vfo: Vfo::A,
            hz: 14_074_000,
        }
    ));
    assert!(!perms.allows_mutation(
        CommandClass::ModeledWrite,
        &StateMutation::SetMode {
            vfo: Vfo::A,
            mode: Mode::Cw,
        }
    ));
}

#[test]
fn read_only_denies_writes_and_ptt() {
    let perms = EndpointPermissions::read_only();
    assert!(perms.allows(CommandClass::ModeledRead));
    assert!(!perms.allows(CommandClass::ModeledWrite));
    assert!(!perms.allows(CommandClass::PttWrite));
    assert!(!perms.allows(CommandClass::ConfigWrite));
}

#[test]
fn auto_info_toggle_always_allowed() {
    let perms = EndpointPermissions::read_only();
    assert!(perms.allows(CommandClass::AutoInfoToggle));
}

#[test]
fn config_write_requires_flag() {
    let perms = perms(&["read", "write", "ptt", "config_write"]);
    assert!(perms.allows(CommandClass::ConfigWrite));
}

#[test]
fn unknown_tokens_grant_nothing() {
    let perms = perms(&["READ", "admin"]);
    assert!(!perms.allows(CommandClass::ModeledRead));
    assert!(!perms.allows(CommandClass::Denied));
}

// --- PTT lease ---

#[test]
fn first_capable_face_acquires_lease() {
    let mut ptt = PttManager::new(300_000);
    assert_eq!(ptt.try_key(1, true, 0), Ok(()));
    assert_eq!(ptt.owner(), Some(1));
}

#[test]
fn second_face_rejected_while_held() {
    let mut ptt = PttManager::new(300_000);
    assert_eq!(ptt.try_key(1, true, 0), Ok(()));
    assert_eq!(ptt.try_key(2, true, 0), Err(PttDenied::Busy));
}

#[test]
fn owner_can_reassert_without_error() {
    let mut ptt = PttManager::new(300_000);
    assert_eq!(ptt.try_key(1, true, 0), Ok(()));
    assert_eq!(ptt.try_key(1, true, 0), Ok(()));
}

#[test]
fn lease_releases_on_unkey() {
    let mut ptt = PttManager::new(300_000);
    ptt.try_key(1, true, 0).expect("key");
    ptt.unkey(1);
    assert_eq!(ptt.owner(), None);
    assert_eq!(ptt.try_key(2, true, 0), Ok(()));
}

#[test]
fn face_without_capability_is_not_permitted() {
    let mut ptt = PttManager::new(300_000);
    assert_eq!(ptt.try_key(1, false, 0), Err(PttDenied::NotPermitted));
    assert_eq!(ptt.owner(), None);
}

#[test]
fn safety_ceiling_releases_a_stuck_transmitter() {
    let mut ptt = PttManager::new(0);
    ptt.try_key(1, true, 0).expect("key");
    // The ceiling reports the owner but holds the lease until the caller unkeys.
    assert_eq!(ptt.expired_owner(0), Some(1));
    assert_eq!(ptt.owner(), Some(1));
    ptt.unkey(1);
    assert_eq!(ptt.owner(), None);
}

#[test]
fn safety_ceiling_does_not_release_before_expiry() {
    let mut ptt = PttManager::new(300_000);
    ptt.try_key(1, true, 0).expect("key");
    assert_eq!(ptt.expired_owner(0), None);
    assert_eq!(ptt.owner(), Some(1));
}

#[test]
fn safety_ceiling_counts_from_the_last_key_request() {
    let mut ptt = PttManager::new(1_000);
    ptt.try_key(1, true, 0).expect("key");
    ptt.try_key(1, true, 900).expect("reassert");
    assert_eq!(ptt.expired_owner(1_899), None);
    assert_eq!(ptt.expired_owner(1_900), Some(1));
}

#[test]
fn only_the_owner_releases_the_lease() {
    let mut ptt = PttManager::new(300_000);
    ptt.try_key(1, true, 0).expect("key");
    ptt.unkey(2);
    assert_eq!(ptt.owner(), Some(1));
}

// --- errors ---

#[test]
fn backend_error_displays() {
    assert_eq!(BackendError::Timeout.message(), "timeout");
    assert_eq!(BackendError::Unsupported.message(), "unsupported");
    assert_eq!(
        BackendError::Rejected("rigctld RPRT -1".into()).message(),
        "rejected: rigctld RPRT -1"
    );
    assert_eq!(
        BackendError::Transport("closed".into()).message(),
        "transport: closed"
    );
}

#[test]
fn config_error_wraps_invalid() {
    let err = ConfigError::Invalid("no endpoints".into());
    assert_eq!(err.message(), "invalid config: no endpoints");
}

#[test]
fn cathub_error_from_config() {
    let err: CatHubError = ConfigError::Invalid("bad".into()).into();
    assert!(matches!(err, CatHubError::Config(_)));
    assert!(err.message().contains("invalid config: bad"));
}

#[test]
fn cathub_error_backend_displays() {
    assert_eq!(
        CatHubError::Backend("unknown".into()).message(),
        "backend: unknown"
    );
}

#[test]
fn io_and_parse_failures_carry_their_text() {
    assert_eq!(CatHubError::Io("gone".into()).message(), "i/o: gone");
    assert_eq!(
        ConfigError::Io("gone".into()).message(),
        "reading config: gone"
    );
    assert_eq!(
        ConfigError::Parse("line 1".into()).message(),
        "parsing config: line 1"
    );
}

// --- backends ---

#[test]
fn passthrough_support_tracks_command_family() {
    let mut caps = LoopbackBackend::new().capabilities();
    assert!(caps.supports_passthrough());
    caps.native_command_family = None;
    assert!(!caps.supports_passthrough());
}

#[test]
fn summary_mentions_every_axis() {
    let caps = LoopbackBackend::new().capabilities();
    let s = caps.summary();
    assert!(s.contains("model="));
    assert!(s.contains("native_push="));
    assert!(s.contains("trust="));
    assert!(s.contains("passthrough="));
}

#[test]
fn poll_records_truth_and_counts() {
    let mut radio = LoopbackBackend::new();
    radio.set_truth_freq_a(7_123_000);
    let mut backend = Backend::Loopback(radio);
    let mut state = StateHandle::new();
    let mut events = Vec::new();
    let step = backend.start(&OpKind::Poll, &mut state, &mut events);
    assert_eq!(step, OpStep::Done(Ok(Vec::new())));
    match &backend {
        Backend::Loopback(radio) => assert_eq!(radio.poll_count(), 1),
        _ => unreachable!(),
    }
    assert_eq!(state.snapshot().vfo(Vfo::A).freq_hz, 7_123_000);
}

#[test]
fn apply_records_mutation_and_state() {
    let mut backend = Backend::Loopback(LoopbackBackend::new());
    let mut state = StateHandle::new();
    let mut events = Vec::new();
    let mutation = StateMutation::SetVfoFreq {
        vfo: Vfo::A,
        hz: 14_250_000,
    };
    backend.start(&OpKind::Apply(mutation), &mut state, &mut events);
    match &backend {
        Backend::Loopback(radio) => assert_eq!(radio.mutations(), &vec![mutation]),
        _ => unreachable!(),
    }
    assert_eq!(state.snapshot().vfo(Vfo::A).freq_hz, 14_250_000);
}

#[test]
fn passthrough_echoes_and_records() {
    let mut radio = LoopbackBackend::new();
    let reply = radio.passthrough(b"EX0050000;");
    assert_eq!(reply, b"EX0050000;");
    assert_eq!(radio.passthroughs(), &vec![b"EX0050000;".to_vec()]);
}

#[test]
fn loopback_has_no_native_push() {
    assert!(LoopbackBackend::new().native_push_enable().is_none());
    assert!(!LoopbackBackend::new().capabilities().native_push);
}

#[test]
fn poller_refreshes_state() {
    let mut backend = Backend::Loopback(LoopbackBackend::new());
    let mut state = StateHandle::new();
    let mut events = Vec::new();
    for _ in 0..3 {
        backend.start(&OpKind::Poll, &mut state, &mut events);
    }
    assert_eq!(state.snapshot().vfo(Vfo::A).freq_hz, 14_074_000);
    // One announcement for one real change, however often it is polled.
    assert_eq!(events.len(), 1);
}

#[test]
fn bridge_is_uncertified_by_default() {
    let backend = RigctldBackend::new("TS-590SG", false);
    assert_eq!(backend.capabilities().trust, TrustTier::UncertifiedBridge);
    assert!(backend.capabilities().native_command_family.is_none());
    assert!(!backend.capabilities().supports_passthrough());
}

#[test]
fn passthrough_fails_closed() {
    let mut backend = Backend::Rigctld(RigctldBackend::new("IC-7300", false));
    let mut state = StateHandle::new();
    let mut events = Vec::new();
    let step = backend.start(
        &OpKind::Passthrough(b"EX0050000;".to_vec()),
        &mut state,
        &mut events,
    );
    assert_eq!(step, OpStep::Done(Err(BackendError::Unsupported)));
}

#[test]
fn rprt_zero_is_ok_nonzero_is_error() {
    assert!(check_rprt(b"RPRT 0\n").is_ok());
    assert!(check_rprt(b"RPRT -11\n").is_err());
    assert!(check_rprt(b"7030000\n").is_ok());
}

#[test]
fn parses_lines() {
    assert_eq!(first_line(b"USB\n2400\n"), b"USB");
    assert_eq!(nth_line(b"1\nVFOB\n", 1), b"VFOB");
}

#[test]
fn bridge_write_is_recorded_only_when_accepted() {
    let mutation = StateMutation::SetVfoFreq {
        vfo: Vfo::A,
        hz: 7_030_000,
    };
    for (reply, hz) in [("RPRT 0\n", 7_030_000), ("RPRT -1\n", 0)] {
        let mut backend = Backend::Rigctld(RigctldBackend::new("TS-590SG", true));
        let mut state = StateHandle::new();
        let mut events = Vec::new();
        match backend.start(&OpKind::Apply(mutation), &mut state, &mut events) {
            OpStep::Submit { bytes, running, .. } => {
                assert_eq!(bytes, b"F 7030000\n");
                assert_eq!(running, Running::Apply { mutation });
                let done = backend.resume(
                    running,
                    Ok(reply.as_bytes().to_vec()),
                    &mut state,
                    &mut events,
                );
                assert_eq!(matches!(done, OpStep::Done(Ok(_))), hz != 0);
            }
            OpStep::Done(_) => panic!("the bridge writes a command"),
        }
        assert_eq!(state.snapshot().vfo(Vfo::A).freq_hz, hz);
    }
}

#[test]
fn bridge_poll_reads_frequency_mode_and_split() {
    let mut backend = Backend::Rigctld(RigctldBackend::new("TS-590SG", true));
    let mut state = StateHandle::new();
    state.record(
        StateChange::RxVfo { vfo: Vfo::A },
        RadioEventSource::PollDiff,
    );
    let mut events = Vec::new();
    let mut step = backend.start(&OpKind::Poll, &mut state, &mut events);
    let mut sent = Vec::new();
    loop {
        match step {
            OpStep::Submit { bytes, running, .. } => {
                let reply: &[u8] = match bytes.as_slice() {
                    b"f\n" => b"7030000\n",
                    b"m\n" => b"PKTUSB\n2400\n",
                    _ => b"1\nVFOB\n",
                };
                sent.push(bytes);
                step = backend.resume(running, Ok(reply.to_vec()), &mut state, &mut events);
            }
            OpStep::Done(result) => {
                assert!(result.is_ok());
                break;
            }
        }
    }
    assert_eq!(sent, vec![b"f\n".to_vec(), b"m\n".to_vec(), b"s\n".to_vec()]);
    let snapshot = state.snapshot();
    assert_eq!(snapshot.vfo(Vfo::A).freq_hz, 7_030_000);
    assert!(snapshot.split);
}
