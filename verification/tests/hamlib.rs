//! Tests of the Hamlib network protocol.

use cathub::backend::loopback::LoopbackBackend;
use cathub::dialect::ApplyOutcome;
use cathub::dialect::ClientSessionContext;
use cathub::error::BackendError;
use cathub::hamlib_net::command::NetCommand;
use cathub::hamlib_net::extended::erp_records;
use cathub::hamlib_net::extended::split_erp;
use cathub::hamlib_net::plain::outcome_rprt;
use cathub::hamlib_net::plain::parse_freq_hz;
use cathub::hamlib_net::session::LineReader;
use cathub::hamlib_net::session::NetFace;
use cathub::hamlib_net::session::NetStep;
use cathub::hamlib_net::session::MAX_LINE_LEN;
use cathub::model::Mode;
use cathub::model::PttSource;
use cathub::model::RadioEventSource;
use cathub::model::StateChange;
use cathub::model::StateMutation;
use cathub::model::Vfo;
use cathub::permissions::EndpointPermissions;
use cathub::power::TxPower;
use cathub::ptt::PttManager;
use cathub::radio::operation::Backend;
use cathub::radio::operation::OpStep;
use cathub::radio::scheduler::OpKind;
use cathub::state::RadioEvent;
use cathub::state::StateHandle;

const RPRT_OK: &[u8] = b"RPRT 0\n";
const RPRT_EINVAL: &[u8] = b"RPRT -1\n";
const RPRT_ENAVAIL: &[u8] = b"RPRT -11\n";

fn perms(tokens: &[&str]) -> EndpointPermissions {
    let owned: Vec<String> = tokens.iter().map(|t| t.to_string()).collect();
    EndpointPermissions::from_tokens(&owned)
}

/// A connection to an in-memory radio.
struct Net {
    backend: Backend,
    state: StateHandle,
    ptt: PttManager,
    events: Vec<RadioEvent>,
    face: NetFace,
}

impl Net {
    fn with(ctx: ClientSessionContext) -> Self {
        Net {
            backend: Backend::Loopback(LoopbackBackend::new()),
            state: StateHandle::new(),
            ptt: PttManager::new(300_000),
            events: Vec::new(),
            face: NetFace::new(ctx, "1\n2014\n0\ndone\n".to_string()),
        }
    }

    fn new(perms: EndpointPermissions) -> Self {
        let caps = LoopbackBackend::new().capabilities();
        Net::with(ClientSessionContext::new(1, perms, caps))
    }

    /// A single-VFO-virtualized face: the operating VFO is always presented as `VFOA`,
    /// split is hidden, and physical A/B identity never leaks (N1MM SO1V, Log4OM).
    fn single_vfo(perms: EndpointPermissions) -> Self {
        let caps = LoopbackBackend::new().capabilities();
        Net::with(ClientSessionContext::new(1, perms, caps).with_single_vfo(true))
    }

    fn record(&mut self, change: StateChange, source: RadioEventSource) {
        self.state.record(change, source);
    }

    /// Put the radio on physical VFO B (14.074 USB) with VFO A on 14.035 CW, split on
    /// with TX on the inactive VFO: the classic state a single-VFO logger must collapse
    /// to "operating VFO is VFOA".
    fn operating_on_b(&mut self) {
        for change in [
            StateChange::Freq {
                vfo: Vfo::A,
                hz: 14_035_000,
            },
            StateChange::Mode {
                vfo: Vfo::A,
                mode: Mode::Cw,
            },
            StateChange::Freq {
                vfo: Vfo::B,
                hz: 14_074_000,
            },
            StateChange::Mode {
                vfo: Vfo::B,
                mode: Mode::Usb,
            },
            StateChange::RxVfo { vfo: Vfo::B },
            StateChange::Split {
                enabled: true,
                tx_vfo: Some(Vfo::A),
            },
        ] {
            self.record(change, RadioEventSource::PollDiff);
        }
    }

    fn mutations(&self) -> Vec<StateMutation> {
        match &self.backend {
            Backend::Loopback(radio) => radio.mutations().clone(),
            _ => unreachable!(),
        }
    }

    fn run(&mut self, mutation: StateMutation) -> Result<Vec<u8>, BackendError> {
        match self
            .backend
            .start(&OpKind::Apply(mutation), &mut self.state, &mut self.events)
        {
            OpStep::Done(result) => result,
            OpStep::Submit { .. } => panic!("the in-memory radio answers at once"),
        }
    }

    fn settle(&mut self, mut step: NetStep) -> Vec<u8> {
        loop {
            match step {
                NetStep::Reply(text) => return text.into_bytes(),
                NetStep::Quit => return b"<quit>".to_vec(),
                NetStep::Submit { write, .. } => {
                    let result = self.run(write.mutation);
                    step = self
                        .face
                        .finish(write, &result, &self.state, &mut self.ptt, 0);
                }
            }
        }
    }

    fn reply(&mut self, line: &str) -> Vec<u8> {
        let step = self
            .face
            .handle_text(line, &self.state, &mut self.ptt, 0);
        self.settle(step)
    }

    /// Send bytes and take the replies to the lines that they complete.
    fn send(&mut self, bytes: &[u8]) -> Vec<u8> {
        let received = self.face.receive(bytes);
        let mut out = Vec::new();
        for line in &received.lines {
            let step = self.face.handle(line, &self.state, &mut self.ptt, 0);
            out.extend(self.settle(step));
        }
        out
    }
}

#[test]
fn get_freq_reads_from_state() {
    let mut net = Net::new(EndpointPermissions::read_only());
    net.record(
        StateChange::Freq {
            vfo: Vfo::A,
            hz: 7_030_000,
        },
        RadioEventSource::PollDiff,
    );
    assert_eq!(net.reply("f"), b"7030000\n".to_vec());
}

#[test]
fn get_mode_returns_token_and_passband() {
    let mut net = Net::new(EndpointPermissions::read_only());
    net.record(
        StateChange::Mode {
            vfo: Vfo::A,
            mode: Mode::Cw,
        },
        RadioEventSource::PollDiff,
    );
    assert_eq!(net.reply("m"), b"CW\n2400\n".to_vec());
}

#[test]
fn get_freq_and_mode_follow_active_vfo_b() {
    let mut net = Net::new(EndpointPermissions::read_only());
    net.record(
        StateChange::Freq {
            vfo: Vfo::B,
            hz: 14_034_320,
        },
        RadioEventSource::PollDiff,
    );
    net.record(
        StateChange::Mode {
            vfo: Vfo::B,
            mode: Mode::Cw,
        },
        RadioEventSource::PollDiff,
    );
    net.record(
        StateChange::RxVfo { vfo: Vfo::B },
        RadioEventSource::PollDiff,
    );

    assert_eq!(net.reply("f"), b"14034320\n".to_vec());
    assert_eq!(net.reply("m"), b"CW\n2400\n".to_vec());
    assert_eq!(net.reply("v"), b"VFOB\n".to_vec());
}

#[test]
fn get_split_freq_and_mode_read_the_transmit_vfo() {
    let mut net = Net::new(EndpointPermissions::read_only());
    net.operating_on_b();

    assert_eq!(net.reply("i"), b"14035000\n".to_vec());
    assert_eq!(net.reply("x"), b"CW\n2400\n".to_vec());
}

#[test]
fn get_rfpower_and_power2mw_use_cached_transmit_power() {
    let mut net = Net::new(EndpointPermissions::read_only());
    net.record(
        StateChange::TxPower {
            power: Some(TxPower::from_watts(50, 100)),
        },
        RadioEventSource::PollDiff,
    );

    assert_eq!(net.reply("l RFPOWER"), b"0.5\n".to_vec());
    assert_eq!(
        net.reply("2 0.5 14074000 USB"),
        b"50000\n".to_vec()
    );
}

#[test]
fn rfpower_reads_report_unavailable_without_cached_power() {
    let mut net = Net::new(EndpointPermissions::read_only());

    assert_eq!(net.reply("l RFPOWER"), RPRT_ENAVAIL.to_vec());
    assert_eq!(
        net.reply("2 0.5 14074000 USB"),
        RPRT_ENAVAIL.to_vec()
    );
}

#[test]
fn split_mode_is_unavailable_until_the_transmit_mode_is_observed() {
    let mut net = Net::new(EndpointPermissions::read_only());
    net.record(
        StateChange::Freq {
            vfo: Vfo::B,
            hz: 14_076_000,
        },
        RadioEventSource::PollDiff,
    );
    net.record(
        StateChange::Split {
            enabled: true,
            tx_vfo: Some(Vfo::B),
        },
        RadioEventSource::PollDiff,
    );

    assert_eq!(net.reply("i"), b"14076000\n".to_vec());
    assert_eq!(net.reply("x"), RPRT_ENAVAIL.to_vec());
}

#[test]
fn read_only_endpoint_rejects_set_freq() {
    let mut net = Net::new(EndpointPermissions::read_only());
    assert_eq!(net.reply("F 14074000"), RPRT_EINVAL.to_vec());
    assert!(net.mutations().is_empty());
}

#[test]
fn read_only_endpoint_rejects_set_mode_and_ptt() {
    let mut net = Net::new(EndpointPermissions::read_only());
    assert_eq!(net.reply("M USB 0"), RPRT_EINVAL.to_vec());
    assert_eq!(net.reply("T 1"), RPRT_EINVAL.to_vec());
}

#[test]
fn write_endpoint_sets_frequency() {
    let mut net = Net::new(perms(&["read", "write", "ptt"]));
    assert_eq!(net.reply("F 14074000"), RPRT_OK.to_vec());
    assert_eq!(
        net.mutations(),
        vec![StateMutation::SetVfoFreq {
            vfo: Vfo::A,
            hz: 14_074_000
        }]
    );
}

#[test]
fn set_freq_accepts_hamlib_decimal_format() {
    // Hamlib (WSJT-X, engine, Log4OM) sends set_freq as a "%f" double, e.g.
    // "F 14040005.000000". Earlier this was rejected with RPRT -1.
    let mut net = Net::new(perms(&["read", "write"]));
    assert_eq!(net.reply("F 14040005.000000"), RPRT_OK.to_vec());
    assert_eq!(
        net.mutations(),
        vec![StateMutation::SetVfoFreq {
            vfo: Vfo::A,
            hz: 14_040_005
        }]
    );
}

#[test]
fn parse_freq_hz_handles_integer_and_decimal() {
    assert_eq!(parse_freq_hz("14040000"), Some(14_040_000));
    assert_eq!(parse_freq_hz("14040005.000000"), Some(14_040_005));
    assert_eq!(parse_freq_hz("0.000000"), Some(0));
    assert_eq!(parse_freq_hz("abc"), None);
    assert_eq!(parse_freq_hz(""), None);
}

#[test]
fn set_freq_never_retargets_vfo() {
    let mut net = Net::new(perms(&["read", "write"]));
    let _ = net.reply("F 14074000");
    // No SetSplit (FR/FT) mutation: frequency landed on the active VFO only.
    assert!(net
        .mutations()
        .iter()
        .all(|m| matches!(m, StateMutation::SetVfoFreq { .. })));
}

#[test]
fn set_mode_pktusb_writes_base_mode_then_data_flag() {
    // WSJT-X sends PKTUSB/PKTLSB for digital modes. The hub must split it into a base
    // mode write plus the independent DATA flag. Starting from the default USB/no-data,
    // PKTLSB is a genuine change on both axes, so both mutations reach the radio in order.
    let mut net = Net::new(perms(&["read", "write"]));
    assert_eq!(net.reply("M PKTLSB 0"), RPRT_OK.to_vec());
    assert_eq!(
        net.mutations(),
        vec![
            StateMutation::SetMode {
                vfo: Vfo::A,
                mode: Mode::Lsb,
            },
            StateMutation::SetDataMode {
                vfo: Vfo::A,
                on: true,
            },
        ]
    );
}

#[test]
fn set_freq_then_same_pktusb_reasserts_mode_after_band_memory_recall() {
    // The TS-590 recalls MD and DA from per-band memory as soon as FA/FB crosses a band
    // boundary. Before its AI/poll updates arrive, the cache still contains the old
    // PKTUSB value. WSJT-X then sends M PKTUSB; that re-assertion must reach the radio
    // instead of being incorrectly deduped against the stale pre-tune cache.
    let mut net = Net::new(perms(&["read", "write"]));
    net.record(
        StateChange::DataMode {
            vfo: Vfo::A,
            on: true,
        },
        RadioEventSource::PollDiff,
    );

    assert_eq!(net.reply("F 28074000"), RPRT_OK.to_vec());
    assert_eq!(net.reply("M PKTUSB 0"), RPRT_OK.to_vec());

    assert_eq!(
        net.mutations(),
        vec![
            StateMutation::SetVfoFreq {
                vfo: Vfo::A,
                hz: 28_074_000,
            },
            StateMutation::SetMode {
                vfo: Vfo::A,
                mode: Mode::Usb,
            },
            StateMutation::SetDataMode {
                vfo: Vfo::A,
                on: true,
            },
        ]
    );
}

#[test]
fn set_mode_plain_clears_data_flag() {
    // Switching from a data mode to a plain mode must emit DA0. Prime DATA on, then send
    // plain USB: the base mode is unchanged (deduped) but the DATA-off write lands.
    let mut net = Net::new(perms(&["read", "write"]));
    net.record(
        StateChange::DataMode {
            vfo: Vfo::A,
            on: true,
        },
        RadioEventSource::PollDiff,
    );
    assert_eq!(net.reply("M USB 0"), RPRT_OK.to_vec());
    assert_eq!(
        net.mutations(),
        vec![StateMutation::SetDataMode {
            vfo: Vfo::A,
            on: false,
        }]
    );
}

#[test]
fn set_freq_and_mode_target_active_vfo_b() {
    // WSJT-X / Log4OM write through the hamlib_net face. When the rig is on VFO B, a
    // set_freq / set_mode must land on VFO B (the active VFO), never be forced to A.
    let mut net = Net::new(perms(&["read", "write"]));
    net.record(
        StateChange::RxVfo { vfo: Vfo::B },
        RadioEventSource::PollDiff,
    );
    assert_eq!(net.reply("F 14034320"), RPRT_OK.to_vec());
    assert_eq!(net.reply("M CW 0"), RPRT_OK.to_vec());
    let muts = net.mutations();
    assert!(
        muts.contains(&StateMutation::SetVfoFreq {
            vfo: Vfo::B,
            hz: 14_034_320,
        }),
        "set_freq must target active VFO B, got {muts:?}"
    );
    assert!(
        muts.contains(&StateMutation::SetMode {
            vfo: Vfo::B,
            mode: Mode::Cw,
        }),
        "set_mode must target active VFO B, got {muts:?}"
    );
}

#[test]
fn get_mode_composes_pkt_token_when_data_on() {
    let mut net = Net::new(EndpointPermissions::read_only());
    net.record(
        StateChange::DataMode {
            vfo: Vfo::A,
            on: true,
        },
        RadioEventSource::PollDiff,
    );
    // Default base mode is USB; with DATA on a Hamlib client must read PKTUSB.
    assert_eq!(net.reply("m"), b"PKTUSB\n2400\n".to_vec());
}

#[test]
fn ptt_requires_ptt_permission() {
    let mut net = Net::new(perms(&["read", "write"]));
    // Has write but not ptt.
    assert_eq!(net.reply("T 1"), RPRT_EINVAL.to_vec());
}

#[test]
fn set_ptt_keys_on_any_nonzero_value() {
    // WSJT-X in Data/Pkt mode sends `T 3` (RIG_PTT_ON_DATA), N1MM/others may send
    // `T 2` (on mic) or `T 1`; all must key. Only `T 0` unkeys.
    // `T 1` (generic), `T 2` (on mic), and `T 3` (on data) all key, but each selects
    // the matching transmit audio path on the wire. Only `T 0` unkeys.
    for (arg, source) in [
        ("1", PttSource::Generic),
        ("2", PttSource::Mic),
        ("3", PttSource::Data),
    ] {
        let mut net = Net::new(perms(&["read", "write", "ptt"]));
        assert_eq!(
            net.reply(&format!("T {arg}")),
            RPRT_OK.to_vec(),
            "T {arg} should be accepted"
        );
        assert_eq!(
            net.mutations(),
            vec![StateMutation::SetPtt {
                keyed: true,
                source
            }],
            "T {arg} should key the radio with the matching source"
        );
    }

    let mut net = Net::new(perms(&["read", "write", "ptt"]));
    assert_eq!(net.reply("T 0"), RPRT_OK.to_vec());
    assert_eq!(
        net.mutations(),
        vec![StateMutation::SetPtt {
            keyed: false,
            source: PttSource::Generic
        }]
    );
}

#[test]
fn dump_state_and_chk_vfo_match_golden() {
    let mut net = Net::new(EndpointPermissions::read_only());
    let dump = net.reply("\\dump_state");
    assert!(dump.starts_with(b"1\n"), "protocol version 1 first line");
    assert!(dump.ends_with(b"done\n"));
    assert_eq!(net.reply("\\chk_vfo"), b"0\n".to_vec());
    assert_eq!(net.reply("\\get_powerstat"), b"1\n".to_vec());
}

#[test]
fn quit_closes() {
    let mut net = Net::new(EndpointPermissions::read_only());
    assert!(matches!(
        net.face
            .handle_text("q", &net.state, &mut net.ptt, 0),
        NetStep::Quit
    ));
}

#[test]
fn set_rit_applies_offset_when_capable() {
    let mut net = Net::new(perms(&["read", "write"]));
    assert_eq!(net.reply("\\set_rit 100"), RPRT_OK.to_vec());
    assert_eq!(
        net.mutations(),
        vec![StateMutation::SetRit {
            offset_hz: 100,
            enabled: true,
        }]
    );
    let snap = net.state.snapshot();
    assert!(snap.rit_enabled);
    assert_eq!(snap.rit_offset_hz, 100);
}

#[test]
fn set_xit_applies_offset_when_capable() {
    let mut net = Net::new(perms(&["read", "write"]));
    assert_eq!(net.reply("Z -250"), RPRT_OK.to_vec());
    assert_eq!(
        net.mutations(),
        vec![StateMutation::SetXit {
            offset_hz: -250,
            enabled: true,
        }]
    );
    assert_eq!(net.state.snapshot().xit_offset_hz, -250);
}

#[test]
fn set_rit_zero_offset_disables_rit() {
    let mut net = Net::new(perms(&["read", "write"]));
    assert_eq!(net.reply("\\set_rit 0"), RPRT_OK.to_vec());
    assert!(!net.state.snapshot().rit_enabled);
}

#[test]
fn get_rit_and_xit_report_offsets() {
    let mut net = Net::new(EndpointPermissions::read_only());
    assert_eq!(net.reply("\\get_rit"), b"0\n".to_vec());
    net.record(
        StateChange::Rit {
            enabled: true,
            offset_hz: 250,
        },
        RadioEventSource::PollDiff,
    );
    net.record(
        StateChange::Xit {
            enabled: true,
            offset_hz: -50,
        },
        RadioEventSource::PollDiff,
    );
    assert_eq!(net.reply("j"), b"250\n".to_vec());
    assert_eq!(net.reply("z"), b"-50\n".to_vec());
}

#[test]
fn rit_and_xit_report_not_available_without_capability() {
    // A backend that does not model RIT/XIT must answer not-available.
    let mut caps = LoopbackBackend::new().capabilities();
    caps.has_rit = false;
    caps.has_xit = false;
    let ctx = ClientSessionContext::new(1, perms(&["read", "write"]), caps);
    let mut net = Net::with(ctx);
    assert_eq!(net.reply("\\set_rit 100"), RPRT_ENAVAIL.to_vec());
    assert_eq!(net.reply("\\set_xit 100"), RPRT_ENAVAIL.to_vec());
}

// --- Extended Response Protocol (Log4OM-NG) ---

#[test]
fn erp_set_vfo_query_lists_supported_vfos() {
    // Log4OM-NG opens every session with `;V ?` (extended set_vfo query). The reply
    // must echo the command, list the supported VFOs (newline before RPRT, matching
    // real rigctld), and end with RPRT 0 — all `;`-separated on one logical block.
    let mut net = Net::new(perms(&["read", "write"]));
    assert_eq!(
        net.reply(";V ?"),
        b"set_vfo: ?;VFOA VFOB \nRPRT 0\n".to_vec()
    );
}

#[test]
fn erp_get_vfo_info_reports_active_vfo_block() {
    // Log4OM-NG polls with `+\get_vfo_info VFOA` (newline-separated extended form).
    let mut net = Net::new(perms(&["read", "write"]));
    net.record(
        StateChange::Freq {
            vfo: Vfo::A,
            hz: 14_074_000,
        },
        RadioEventSource::PollDiff,
    );
    net.record(
        StateChange::Mode {
            vfo: Vfo::A,
            mode: Mode::Cw,
        },
        RadioEventSource::PollDiff,
    );
    assert_eq!(
        net.reply("+\\get_vfo_info VFOA"),
        b"get_vfo_info: VFOA\nFreq: 14074000\nMode: CW\nWidth: 2400\nSplit: 0\nSatMode: 0\nRPRT 0\n"
            .to_vec()
    );
}

#[test]
fn plain_get_vfo_info_reports_bare_values() {
    // The non-extended form returns just the values (Freq, Mode, Width, Split, SatMode).
    let mut net = Net::new(EndpointPermissions::read_only());
    net.record(
        StateChange::Freq {
            vfo: Vfo::A,
            hz: 7_030_000,
        },
        RadioEventSource::PollDiff,
    );
    net.record(
        StateChange::Mode {
            vfo: Vfo::A,
            mode: Mode::Cw,
        },
        RadioEventSource::PollDiff,
    );
    assert_eq!(
        net.reply("\\get_vfo_info VFOA"),
        b"7030000\nCW\n2400\n0\n0\n".to_vec()
    );
}

#[test]
fn erp_generic_set_echoes_command_then_rprt() {
    // A generic extended set (e.g. `+F`) echoes `set_freq: <arg>` then `RPRT 0`,
    // newline-separated for the `+` separator.
    let mut net = Net::new(perms(&["read", "write"]));
    assert_eq!(
        net.reply("+F 14200000"),
        b"set_freq: 14200000\nRPRT 0\n".to_vec()
    );
}

#[test]
fn erp_set_vfo_with_arg_echoes_on_one_line() {
    // `;V VFOA` selects the active VFO (never retargets) and replies on one line.
    let mut net = Net::new(perms(&["read", "write"]));
    assert_eq!(
        net.reply(";V VFOA"),
        b"set_vfo: VFOA;RPRT 0\n".to_vec()
    );
}

#[test]
fn erp_labeled_get_freq_single_line() {
    // `;f` returns a single-line labeled extended response.
    let mut net = Net::new(EndpointPermissions::read_only());
    net.record(
        StateChange::Freq {
            vfo: Vfo::A,
            hz: 14_074_000,
        },
        RadioEventSource::PollDiff,
    );
    assert_eq!(
        net.reply(";f"),
        b"get_freq:;Frequency: 14074000;RPRT 0\n".to_vec()
    );
}

#[test]
fn erp_get_split_terminates_with_rprt() {
    // `\get_split_vfo` returns data only in the plain protocol. Through the ERP generic
    // fallback it must still end with an `RPRT` record so an ERP client (Log4OM-NG)
    // reading until the terminator does not block.
    let mut net = Net::new(EndpointPermissions::read_only());
    assert_eq!(
        net.reply("+\\get_split_vfo"),
        b"get_split_vfo:\n0\nVFOA\nRPRT 0\n".to_vec()
    );
}

#[test]
fn set_mode_rejects_unknown_token() {
    // An unrecognized mode token must be rejected (RPRT -1), never silently applied as
    // USB with a false `RPRT 0`.
    let mut net = Net::new(perms(&["read", "write"]));
    assert_eq!(net.reply("M WAT"), RPRT_EINVAL.to_vec());
    // And nothing was written to the radio.
    assert!(
        net.mutations().is_empty(),
        "an unknown mode must not mutate the radio"
    );
}

#[test]
fn dropping_a_keyed_hamlib_client_releases_the_ptt_lease() {
    // A rigctld client keys PTT then its TCP connection drops. The hub must release the
    // lease immediately, not hold the transmitter up until the safety ceiling.
    let caps = LoopbackBackend::new().capabilities();
    let mut net = Net::with(ClientSessionContext::new(7, perms(&["read", "ptt"]), caps));
    assert_eq!(net.send(b"T 1\n"), RPRT_OK.to_vec());
    assert_eq!(net.ptt.owner(), Some(7), "client should hold the PTT lease");

    // Drop the transport.
    let release = net
        .face
        .ctx
        .release_ptt_on_disconnect(&net.ptt)
        .expect("a keyed client is unkeyed");
    let answer = net.run(release.mutation);
    assert!(answer.is_ok(), "unkey");
    release.finish(Some(answer), &mut net.ptt);
    assert_eq!(
        net.ptt.owner(),
        None,
        "PTT lease must release when a keyed rigctld client disconnects"
    );
}

#[test]
fn overlong_request_without_newline_closes_the_connection() {
    // A client that streams bytes without ever sending a newline must not grow the
    // line buffer without bound; the hub caps it and closes the connection.
    let mut net = Net::new(perms(&["read"]));
    // Send well over the cap with no newline.
    let flood = vec![b'f'; MAX_LINE_LEN + 256];
    let received = net.face.receive(&flood);
    assert!(
        !received.open,
        "the connection must close on an overlong line"
    );
    assert!(received.lines.is_empty());
}

// --- single-VFO virtualization (N1MM SO1V, Log4OM) ---

#[test]
fn single_vfo_erp_get_vfo_info_follows_operating_vfo_as_vfoa() {
    // Log4OM bug: it polls `+\get_vfo_info VFOA` and must see the OPERATING VFO (B),
    // presented as VFOA, with split hidden — not stale physical VFO A.
    let mut net = Net::single_vfo(perms(&["read", "write"]));
    net.operating_on_b();
    assert_eq!(
        net.reply("+\\get_vfo_info VFOA"),
        b"get_vfo_info: VFOA\nFreq: 14074000\nMode: USB\nWidth: 2400\nSplit: 0\nSatMode: 0\nRPRT 0\n"
            .to_vec()
    );
}

#[test]
fn single_vfo_plain_get_vfo_info_follows_operating_vfo() {
    let mut net = Net::single_vfo(EndpointPermissions::read_only());
    net.operating_on_b();
    // Bare values: operating VFO B's freq/mode/width, split forced to 0.
    assert_eq!(
        net.reply("\\get_vfo_info VFOA"),
        b"14074000\nUSB\n2400\n0\n0\n".to_vec()
    );
}

#[test]
fn single_vfo_get_vfo_always_reports_vfoa() {
    let mut net = Net::single_vfo(EndpointPermissions::read_only());
    net.operating_on_b();
    // Even operating on physical B, a single-VFO face claims VFOA.
    assert_eq!(net.reply("v"), b"VFOA\n".to_vec());
}

#[test]
fn single_vfo_get_split_vfo_hides_split() {
    let mut net = Net::single_vfo(EndpointPermissions::read_only());
    net.operating_on_b();
    // Radio is split, but a single-VFO face reports no split and TX on VFOA.
    assert_eq!(net.reply("s"), b"0\nVFOA\n".to_vec());
}

#[test]
fn single_vfo_split_freq_and_mode_are_unavailable() {
    let mut net = Net::single_vfo(EndpointPermissions::read_only());
    net.operating_on_b();

    assert_eq!(net.reply("i"), RPRT_ENAVAIL.to_vec());
    assert_eq!(net.reply("x"), RPRT_ENAVAIL.to_vec());
}

#[test]
fn single_vfo_erp_set_vfo_query_lists_only_vfoa() {
    let mut net = Net::single_vfo(perms(&["read", "write"]));
    assert_eq!(
        net.reply(";V ?"),
        b"set_vfo: ?;VFOA \nRPRT 0\n".to_vec()
    );
}

#[test]
fn single_vfo_set_split_on_is_rejected_without_mutating_radio() {
    let mut net = Net::single_vfo(perms(&["read", "write"]));
    // A single-VFO client must never desync the radio's real split state. "Split on"
    // is rejected (RPRT_ENAVAIL) so WSJT-X falls back to "Fake It"; "split off" is an
    // accepted no-op. Neither path mutates the real radio.
    assert_eq!(net.reply("S 1 VFOB"), RPRT_ENAVAIL.to_vec());
    assert_eq!(net.reply("S 0 VFOA"), RPRT_OK.to_vec());
    assert!(
        net.mutations().is_empty(),
        "single-VFO set_split_vfo must not mutate real radio split"
    );
}

#[test]
fn single_vfo_read_only_set_split_is_denied() {
    let mut net = Net::single_vfo(EndpointPermissions::read_only());
    assert_eq!(net.reply("S 1 VFOB"), RPRT_EINVAL.to_vec());
}

#[test]
fn dual_vfo_get_vfo_info_still_reports_literal_physical_vfo() {
    // Regression guard: a non-single-VFO face (e.g. the engine endpoint) keeps the
    // faithful dual-VFO view — `get_vfo_info VFOA` returns physical VFO A even when
    // operating on B, and real split is reported.
    let mut net = Net::new(perms(&["read", "write"]));
    net.operating_on_b();
    assert_eq!(
        net.reply("+\\get_vfo_info VFOA"),
        b"get_vfo_info: VFOA\nFreq: 14035000\nMode: CW\nWidth: 2400\nSplit: 1\nSatMode: 0\nRPRT 0\n"
            .to_vec()
    );
    // And VFOB explicitly is still addressable.
    assert_eq!(
        net.reply("+\\get_vfo_info VFOB"),
        b"get_vfo_info: VFOB\nFreq: 14074000\nMode: USB\nWidth: 2400\nSplit: 1\nSatMode: 0\nRPRT 0\n"
            .to_vec()
    );
}


// --- lines, commands and replies ---

#[test]
fn lines_are_joined_across_reads() {
    let mut net = Net::new(EndpointPermissions::read_only());
    assert!(net.send(b"\\chk").is_empty());
    assert_eq!(net.send(b"_vfo\nf\n"), b"0\n0\n".to_vec());
}

#[test]
fn a_line_that_is_not_text_is_read_as_nearly_as_possible() {
    let mut net = Net::new(EndpointPermissions::read_only());
    assert_eq!(net.send(b"\xff\xfe\n"), net.reply("\u{fffd}\u{fffd}"));
    assert_eq!(net.send(b"f \xff\n"), b"0\n".to_vec());
}

#[test]
fn complete_lines_before_an_overlong_one_are_kept() {
    let mut reader = LineReader::new();
    let mut bytes = b"f\n".to_vec();
    bytes.extend(vec![b'x'; MAX_LINE_LEN + 1]);
    let received = reader.feed(&bytes);
    assert!(!received.open);
    assert_eq!(received.lines, vec![b"f".to_vec()]);
}

#[test]
fn commands_have_short_and_long_names() {
    assert_eq!(NetCommand::resolve("f"), NetCommand::resolve("\\get_freq"));
    assert_eq!(NetCommand::resolve("f").long_name(), Some("get_freq"));
    assert_eq!(NetCommand::resolve("T").long_name(), Some("set_ptt"));
    assert_ne!(NetCommand::resolve("f"), NetCommand::resolve("F"));
}

#[test]
fn extended_requests_carry_their_separator() {
    assert_eq!(split_erp("+f"), Some(('\n', "f".to_string())));
    assert_eq!(split_erp(";V ?"), Some((';', "V ?".to_string())));
    assert_eq!(split_erp("f"), None);
    assert_eq!(
        erp_records(';', &["a".to_string(), "b".to_string()]),
        "a;b\n"
    );
}

#[test]
fn every_outcome_has_its_report() {
    assert_eq!(outcome_rprt(ApplyOutcome::Applied), "RPRT 0\n");
    assert_eq!(outcome_rprt(ApplyOutcome::Denied), "RPRT -1\n");
    assert_eq!(outcome_rprt(ApplyOutcome::Busy), "RPRT -1\n");
    assert_eq!(outcome_rprt(ApplyOutcome::Error), "RPRT -1\n");
    assert_eq!(outcome_rprt(ApplyOutcome::Unsupported), "RPRT -1\n");
}

#[test]
fn only_zero_or_a_missing_value_unkeys() {
    for line in ["T 0", "T", "T 00", "T -0", "\\set_ptt 0"] {
        let mut net = Net::new(perms(&["ptt"]));
        net.reply(line);
        assert_eq!(
            net.mutations(),
            vec![StateMutation::SetPtt {
                keyed: false,
                source: PttSource::Generic
            }]
        );
    }
    for line in ["T 7", "T -1", "T 4294967296", "T 99999999999999999999999", "T on", "T 0x0"] {
        let mut net = Net::new(perms(&["ptt"]));
        assert_eq!(net.reply(line), RPRT_OK.to_vec());
        assert_eq!(
            net.mutations(),
            vec![StateMutation::SetPtt {
                keyed: true,
                source: PttSource::Generic
            }],
            "{line}"
        );
    }
}

#[test]
fn what_is_set_is_read_back() {
    let mut net = Net::new(perms(&["read", "write"]));
    assert_eq!(net.send(b"F 7074000\nf\n"), b"RPRT 0\n7074000\n".to_vec());
    assert_eq!(net.send(b"M CW 0\nm\n"), b"RPRT 0\nCW\n2400\n".to_vec());
    assert_eq!(net.send(b"S 1 VFOB\ns\n"), b"RPRT 0\n1\nVFOB\n".to_vec());
}
