//! Tests of the virtual serial endpoints.

use cathub::config::default_baud;
use cathub::config::default_baseline_ms;
use cathub::config::default_heartbeat_ms;
use cathub::config::default_host;
use cathub::config::default_max_tx_ms;
use cathub::config::default_native_push;
use cathub::config::default_reply_timeout_ms;
use cathub::config::default_tcp_port;
use cathub::config::default_transport;
use cathub::config::default_winkeyer_api_bind;
use cathub::config::default_winkeyer_baud;
use cathub::config::default_winkeyer_max_tx_ms;
use cathub::config::validate::ApiBind;
use cathub::config::Config;
use cathub::config::EventsConfig;
use cathub::config::HamlibNetConfig;
use cathub::config::PollConfig;
use cathub::config::PttConfig;
use cathub::config::RadioConfig;
use cathub::config::SerialEndpointConfig;
use cathub::config::WinkeyerConfig;
use cathub::config::WinkeyerEndpointConfig;
use cathub::error::ConfigError;
use cathub::provisioning::definition;
use cathub::provisioning::definition_for_hardware_id;
use cathub::provisioning::desired_endpoint;
use cathub::provisioning::desired_endpoints;
use cathub::provisioning::normalize_com_port;
use cathub::provisioning::plan::confirm;
use cathub::provisioning::plan::plan_from_snapshot;
use cathub::provisioning::plan::InstalledEndpoint;
use cathub::provisioning::plan::PortClaim;
use cathub::provisioning::plan::ProvisionAction;
use cathub::provisioning::plan::SystemSnapshot;
use cathub::provisioning::report::RemoveReport;
use cathub::provisioning::report::StatusReport;
use cathub::provisioning::system::arbiter_claims;
use cathub::provisioning::system::check_create;
use cathub::provisioning::system::check_remove;
use cathub::provisioning::system::com_number;
use cathub::provisioning::system::select_removed;
use cathub::provisioning::system::snapshot as system_snapshot;
use cathub::provisioning::system::DeviceFacts;
use cathub::provisioning::work::next_removal;
use cathub::provisioning::work::next_work;
use cathub::provisioning::work::SystemWork;
use cathub::provisioning::work::WorkStage;
use cathub::provisioning::work::WorkStep;
use cathub::provisioning::EndpointDefinition;
use cathub::provisioning::EndpointKind;

type Table = toml::map::Map<String, toml::Value>;

fn text_or(table: &Table, key: &str, default: String) -> String {
    match table.get(key) {
        Some(value) => value.as_str().expect("a text").to_string(),
        None => default,
    }
}

fn text(table: &Table, key: &str) -> String {
    table[key].as_str().expect("a text").to_string()
}

fn option(table: &Table, key: &str) -> Option<String> {
    table
        .get(key)
        .map(|value| value.as_str().expect("a text").to_string())
}

fn number_or(table: &Table, key: &str, default: u64) -> u64 {
    match table.get(key) {
        Some(value) => value.as_integer().expect("a number") as u64,
        None => default,
    }
}

fn flag_or(table: &Table, key: &str, default: bool) -> bool {
    match table.get(key) {
        Some(value) => value.as_bool().expect("a flag"),
        None => default,
    }
}

fn list(table: &Table, key: &str) -> Vec<String> {
    match table.get(key) {
        Some(value) => value
            .as_array()
            .expect("a list")
            .iter()
            .map(|item| item.as_str().expect("a text").to_string())
            .collect(),
        None => Vec::new(),
    }
}

fn section(table: &Table, key: &str) -> Table {
    match table.get(key) {
        Some(value) => value.as_table().expect("a table").clone(),
        None => Table::new(),
    }
}

fn sections(table: &Table, key: &str) -> Vec<Table> {
    match table.get(key) {
        Some(value) => value
            .as_array()
            .expect("a list")
            .iter()
            .map(|item| item.as_table().expect("a table").clone())
            .collect(),
        None => Vec::new(),
    }
}

/// Read a configuration out of a parsed document, with the defaults of what it leaves out.
fn from_table(table: &Table) -> Config {
    let radio = section(table, "radio");
    let poll = section(table, "poll");
    let ptt = section(table, "ptt");
    let events = section(table, "events");
    Config {
        radio: RadioConfig {
            backend: text(&radio, "backend"),
            model: text_or(&radio, "model", String::new()),
            transport: text_or(&radio, "transport", default_transport()),
            port: text_or(&radio, "port", String::new()),
            baud: number_or(&radio, "baud", default_baud() as u64) as u32,
            host: text_or(&radio, "host", default_host()),
            tcp_port: number_or(&radio, "tcp_port", default_tcp_port() as u64) as u16,
            certified: flag_or(&radio, "certified", false),
            reply_timeout_ms: number_or(&radio, "reply_timeout_ms", default_reply_timeout_ms()),
        },
        poll: PollConfig {
            baseline_ms: number_or(&poll, "baseline_ms", default_baseline_ms()),
            heartbeat_ms: number_or(&poll, "heartbeat_ms", default_heartbeat_ms()),
        },
        ptt: PttConfig {
            max_tx_ms: number_or(&ptt, "max_tx_ms", default_max_tx_ms()),
        },
        events: EventsConfig {
            native_push: flag_or(&events, "native_push", default_native_push()),
        },
        serial_endpoint: sections(table, "serial_endpoint")
            .iter()
            .map(|e| SerialEndpointConfig {
                name: text(e, "name"),
                transport: text_or(e, "transport", String::new()),
                virtual_endpoint: option(e, "virtual_endpoint"),
                application_transport: option(e, "application_transport"),
                baud: number_or(e, "baud", default_baud() as u64) as u32,
                dialect: text(e, "dialect"),
                perms: list(e, "perms"),
                single_vfo: flag_or(e, "single_vfo", false),
            })
            .collect(),
        hamlib_net: sections(table, "hamlib_net")
            .iter()
            .map(|e| HamlibNetConfig {
                name: text(e, "name"),
                bind: text(e, "bind"),
                perms: list(e, "perms"),
                single_vfo: flag_or(e, "single_vfo", false),
            })
            .collect(),
        winkeyer: table
            .get("winkeyer")
            .map(|value| value.as_table().expect("a table"))
            .map(|w| WinkeyerConfig {
                port: text(w, "port"),
                baud: number_or(w, "baud", default_winkeyer_baud() as u64) as u32,
                max_tx_ms: number_or(w, "max_tx_ms", default_winkeyer_max_tx_ms()),
                api_bind: text_or(w, "api_bind", default_winkeyer_api_bind()),
            }),
        winkeyer_endpoint: sections(table, "winkeyer_endpoint")
            .iter()
            .map(|e| WinkeyerEndpointConfig {
                name: text(e, "name"),
                transport: text_or(e, "transport", String::new()),
                virtual_endpoint: option(e, "virtual_endpoint"),
                application_transport: option(e, "application_transport"),
                baud: number_or(e, "baud", default_winkeyer_baud() as u64) as u32,
                primary: flag_or(e, "primary", false),
                perms: list(e, "perms"),
            })
            .collect(),
    }
}

/// How the keyer's API address reads.
fn bind_of(config: &Config) -> ApiBind {
    let text = match &config.winkeyer {
        Some(winkeyer) => winkeyer.api_bind.clone(),
        None => return ApiBind::Malformed,
    };
    if text.starts_with("127.") {
        ApiBind::Loopback
    } else if text.contains(':') {
        ApiBind::Routable
    } else {
        ApiBind::Malformed
    }
}

fn checked(config: Config) -> Result<Config, ConfigError> {
    config.validate(bind_of(&config))?;
    Ok(config)
}

fn table_of(text: &str) -> Result<Table, ConfigError> {
    toml::from_str::<Table>(text).map_err(|error| ConfigError::Parse(error.to_string()))
}

/// Parse a configuration from a bare document.
fn parse(text: &str) -> Result<Config, ConfigError> {
    checked(from_table(&table_of(text)?))
}

fn config(body: &str) -> Config {
    parse(body).expect("config")
}

#[test]
fn derives_the_five_production_endpoint_identities() {
    let config = config(
        r#"
[radio]
backend = "loopback"

[[serial_endpoint]]
name = "hdsdr"
virtual_endpoint = "hdsdr-cat"
application_transport = "COM11"
dialect = "ts2000"

[[serial_endpoint]]
name = "n1mm"
virtual_endpoint = "n1mm-cat"
application_transport = "COM21"
dialect = "ts590"

[[serial_endpoint]]
name = "arcp"
virtual_endpoint = "arcp590-cat"
application_transport = "COM31"
dialect = "ts590-transparent"

[winkeyer]
port = "COM3"

[[winkeyer_endpoint]]
name = "n1mm-winkeyer"
virtual_endpoint = "n1mm-winkeyer"
application_transport = "COM41"

[[winkeyer_endpoint]]
name = "wktools"
virtual_endpoint = "wktools"
application_transport = "COM43"
"#,
    );
    let desired = desired_endpoints(&config).expect("desired");
    assert_eq!(desired.len(), 5);
    assert_eq!(
        desired.first().unwrap().hardware_id,
        r"ROOT\CATHUB_HDSDR_CAT"
    );
    assert_eq!(desired.get(4).unwrap().com_port, "COM43");
}

#[test]
fn conflicts_are_the_foreign_claims_in_port_order() {
    let config = config(
        r#"
[radio]
backend = "loopback"
[[serial_endpoint]]
name = "a"
virtual_endpoint = "n1mm-cat"
application_transport = "COM30"
dialect = "ts590"
[[serial_endpoint]]
name = "b"
virtual_endpoint = "arcp590-cat"
application_transport = "COM21"
dialect = "ts590"
"#,
    );
    let desired = desired_endpoints(&config);
    let claim = |port: &str| PortClaim {
        com_port: port.to_string(),
        owner: "USB\\VID_1234".to_string(),
        cathub_owned: false,
    };
    let snapshot = SystemSnapshot {
        owned: Vec::new(),
        claims: vec![claim("com30"), claim("COM99"), claim("COM21")],
    };
    let plan = plan_from_snapshot(&desired.expect("endpoints"), &snapshot).expect("plan");
    assert_eq!(plan.conflicts, vec![claim("COM21"), claim("com30")]);
}

#[test]
fn detects_non_cathub_com_claims() {
    let config = config(
        r#"
[radio]
backend = "loopback"
[[serial_endpoint]]
name = "n1mm"
virtual_endpoint = "n1mm-cat"
application_transport = "com21"
dialect = "ts590"
"#,
    );
    let snapshot = SystemSnapshot {
        owned: Vec::new(),
        claims: vec![PortClaim {
            com_port: "COM21".to_string(),
            owner: "USB\\VID_1234".to_string(),
            cathub_owned: false,
        }],
    };
    let plan = plan_from_snapshot(&desired_endpoints(&config).unwrap(), &snapshot).unwrap();
    assert_eq!(plan.conflicts.len(), 1);
    assert!(matches!(
        plan.actions.first(),
        Some(ProvisionAction::Create { .. })
    ));
}

#[test]
fn retained_endpoint_is_idempotent() {
    let config = config(
        r#"
[radio]
backend = "loopback"
[[serial_endpoint]]
name = "n1mm"
virtual_endpoint = "n1mm-cat"
application_transport = "COM21"
dialect = "ts590"
"#,
    );
    let snapshot = SystemSnapshot {
        owned: vec![InstalledEndpoint {
            stable_id: "n1mm-cat".to_string(),
            kind: EndpointKind::Cat,
            hardware_id: r"ROOT\CATHUB_N1MM_CAT".to_string(),
            instance_id: r"ROOT\CATHUB_N1MM_CAT\0000".to_string(),
            display_name: "CatHub N1MM CAT Port".to_string(),
            com_port: Some("COM21".to_string()),
            authorized_for_current_user: true,
        }],
        claims: vec![PortClaim {
            com_port: "COM21".to_string(),
            owner: r"ROOT\CATHUB_N1MM_CAT\0000".to_string(),
            cathub_owned: true,
        }],
    };
    let plan = plan_from_snapshot(&desired_endpoints(&config).unwrap(), &snapshot).unwrap();
    assert!(plan.is_applicable());
    assert!(!plan.requires_changes());
}

#[test]
fn installed_endpoint_with_another_owner_is_reauthorized() {
    let config = config(
        r#"
[radio]
backend = "loopback"
[[serial_endpoint]]
name = "n1mm"
virtual_endpoint = "n1mm-cat"
application_transport = "COM21"
dialect = "ts590"
"#,
    );
    let snapshot = SystemSnapshot {
        owned: vec![InstalledEndpoint {
            stable_id: "n1mm-cat".to_string(),
            kind: EndpointKind::Cat,
            hardware_id: r"ROOT\CATHUB_N1MM_CAT".to_string(),
            instance_id: r"ROOT\CATHUB_N1MM_CAT\0000".to_string(),
            display_name: "CatHub N1MM CAT Port".to_string(),
            com_port: Some("COM21".to_string()),
            authorized_for_current_user: false,
        }],
        claims: vec![PortClaim {
            com_port: "COM21".to_string(),
            owner: r"ROOT\CATHUB_N1MM_CAT\0000".to_string(),
            cathub_owned: true,
        }],
    };
    let plan = plan_from_snapshot(&desired_endpoints(&config).unwrap(), &snapshot).unwrap();
    assert!(matches!(
        plan.actions.first(),
        Some(ProvisionAction::Authorize { .. })
    ));
    assert!(plan.requires_changes());
}

#[test]
fn rejects_kind_mismatch_and_invalid_com_name() {
    assert!(desired_endpoint("wktools", EndpointKind::Cat, "bad", &None).is_err());
    assert!(normalize_com_port("COM0").is_err());
    assert!(normalize_com_port("LPT1").is_err());
    assert_eq!(normalize_com_port("com0042").unwrap(), "COM42");
}

fn facts(instance: &str, port: Option<&str>, hardware: &[&str], user: bool) -> DeviceFacts {
    DeviceFacts {
        instance_id: instance.to_string(),
        port_name: port.map(|p| p.to_string()),
        hardware_ids: hardware.iter().map(|h| h.to_string()).collect(),
        friendly_names: vec!["A port".to_string()],
        descriptions: Vec::new(),
        owned_by_user: user,
    }
}

fn n1mm_config() -> Config {
    config(
        r#"
[radio]
backend = "loopback"
[[serial_endpoint]]
name = "n1mm"
virtual_endpoint = "n1mm-cat"
application_transport = "COM21"
dialect = "ts590"
"#,
    )
}

#[test]
fn definitions_are_found_by_either_id() {
    for id in [
        "hdsdr-cat",
        "n1mm-cat",
        "arcp590-cat",
        "n1mm-winkeyer",
        "wktools",
    ] {
        let found = definition(id).expect("defined");
        assert_eq!(found.stable_id(), id);
        assert_eq!(definition_for_hardware_id(found.hardware_id()), Some(found));
        assert_eq!(
            definition_for_hardware_id(&found.hardware_id().to_ascii_lowercase()),
            Some(found)
        );
    }
    assert_eq!(definition("modem"), None);
    assert_eq!(definition_for_hardware_id("USB\\VID_1234"), None);
}

#[test]
fn the_arbiter_marks_one_port_per_bit() {
    assert_eq!(arbiter_claims(&[0b0000_0101, 0b1000_0000]), vec![1, 3, 16]);
    assert_eq!(com_number("com0042"), Ok(42));
    assert!(com_number("COM").is_err());
}

#[test]
fn a_system_is_read_off_its_devices_and_reservations() {
    let devices = vec![
        facts("USB\\A", Some("COM7"), &["USB\\VID_1"], false),
        facts(
            "ROOT\\CATHUB_N1MM_CAT\\0000",
            Some("COM21"),
            &["ROOT\\CATHUB_N1MM_CAT"],
            true,
        ),
        facts("USB\\B", None, &[], false),
    ];
    let snapshot = system_snapshot(&devices, &vec![7, 9]);
    assert_eq!(snapshot.owned.len(), 1);
    assert_eq!(snapshot.owned[0].stable_id, "n1mm-cat");
    assert_eq!(snapshot.owned[0].com_port.as_deref(), Some("COM21"));
    assert!(snapshot.owned[0].authorized_for_current_user);
    let mut ports: Vec<(String, bool)> = snapshot
        .claims
        .iter()
        .map(|c| (c.com_port.clone(), c.cathub_owned))
        .collect();
    ports.sort();
    assert_eq!(
        ports,
        vec![
            ("COM21".to_string(), true),
            ("COM7".to_string(), false),
            ("COM9".to_string(), false),
        ]
    );
}

#[test]
fn applying_a_plan_leaves_nothing_to_do() {
    let desired = desired_endpoints(&n1mm_config()).unwrap();
    let empty = SystemSnapshot {
        owned: Vec::new(),
        claims: Vec::new(),
    };
    let plan = plan_from_snapshot(&desired, &empty).unwrap();
    assert!(plan.is_applicable() && plan.requires_changes());
    let text = plan.render_text();
    assert!(text.starts_with("CatHub virtual serial plan: 1 endpoint(s), 0 conflict(s)"));
    let after = system_snapshot(
        &vec![facts(
            "ROOT\\CATHUB_N1MM_CAT\\0000",
            Some("COM21"),
            &["ROOT\\CATHUB_N1MM_CAT"],
            true,
        )],
        &vec![21],
    );
    assert_eq!(confirm(&plan, &after), Ok(()));
    assert!(confirm(&plan, &empty).is_err());
}

#[test]
fn a_device_moves_to_the_port_that_is_configured() {
    let desired = desired_endpoints(&n1mm_config()).unwrap();
    let moved = system_snapshot(
        &vec![facts(
            "ROOT\\CATHUB_N1MM_CAT\\0000",
            Some("COM22"),
            &["ROOT\\CATHUB_N1MM_CAT"],
            true,
        )],
        &Vec::new(),
    );
    let plan = plan_from_snapshot(&desired, &moved).unwrap();
    assert_eq!(
        plan.actions,
        vec![ProvisionAction::Reassign {
            stable_id: "n1mm-cat".to_string(),
            instance_id: "ROOT\\CATHUB_N1MM_CAT\\0000".to_string(),
            from: Some("COM22".to_string()),
            to: "COM21".to_string(),
        }]
    );
}

#[test]
fn only_own_devices_are_created_or_removed() {
    assert!(check_create("n1mm-cat", "ROOT\\CATHUB_N1MM_CAT").is_ok());
    assert!(check_create("wktools", "ROOT\\CATHUB_N1MM_CAT").is_err());
    assert!(check_create("n1mm-cat", "USB\\VID_1").is_err());
    let snapshot = system_snapshot(
        &vec![facts(
            "ROOT\\CATHUB_N1MM_CAT\\0000",
            Some("COM21"),
            &["ROOT\\CATHUB_N1MM_CAT"],
            true,
        )],
        &Vec::new(),
    );
    assert_eq!(check_remove(&snapshot.owned[0]), Ok(()));
    let removed = select_removed(&["n1mm-cat".to_string()], &snapshot).unwrap();
    assert_eq!(removed.len(), 1);
    assert!(select_removed(&["modem".to_string()], &snapshot).is_err());
    let report = RemoveReport {
        removed,
        reboot_required: false,
    };
    assert!(report.render_text().contains("n1mm-cat"));
    let status = StatusReport {
        platform: "test".to_string(),
        owned_endpoints: Vec::new(),
        com_claims: Vec::new(),
    };
    assert_eq!(
        status.render_text(),
        "CatHub virtual serial status: 0 owned endpoint(s)\n  No CatHub-owned devices are installed.\nCOM Name Arbiter/PnP claims: 0"
    );
}

#[test]
fn two_endpoints_cannot_share_a_port() {
    let config = config(
        r#"
[radio]
backend = "loopback"
[[serial_endpoint]]
name = "n1mm"
virtual_endpoint = "n1mm-cat"
application_transport = "COM21"
dialect = "ts590"
[[serial_endpoint]]
name = "arcp"
virtual_endpoint = "arcp590-cat"
application_transport = "com21"
dialect = "ts590"
"#,
    );
    assert!(desired_endpoints(&config).is_err());
}

/// Carry an action out against a system that fails at one kind of work.
fn carry_out(
    next: &dyn Fn(WorkStage, Result<(), String>) -> WorkStep,
    fails: &dyn Fn(&SystemWork) -> bool,
) -> (Vec<SystemWork>, Result<(), String>) {
    let mut done = Vec::new();
    let mut step = next(WorkStage::Start, Ok(()));
    loop {
        match step {
            WorkStep::Run { work, stage } => {
                let outcome = if fails(&work) {
                    Err("broken".to_string())
                } else {
                    Ok(())
                };
                done.push(work);
                step = next(stage, outcome);
            }
            WorkStep::Finished => return (done, Ok(())),
            WorkStep::Failed(why) => return (done, Err(why)),
        }
    }
}

fn creation() -> ProvisionAction {
    ProvisionAction::Create {
        stable_id: "n1mm-cat".to_string(),
        hardware_id: "ROOT\\CATHUB_N1MM_CAT".to_string(),
        com_port: "COM21".to_string(),
    }
}

fn claim_of(port: &str) -> SystemWork {
    SystemWork::ClaimPort {
        com_port: port.to_string(),
    }
}

fn release_of(port: &str) -> SystemWork {
    SystemWork::ReleasePort {
        com_port: port.to_string(),
    }
}

#[test]
fn a_device_is_created_on_a_claimed_port() {
    let action = creation();
    let create = SystemWork::CreateDevice {
        definition: EndpointDefinition::N1mmCat,
        com_port: "COM21".to_string(),
    };
    let (done, result) = carry_out(&|stage, outcome| next_work(&action, stage, outcome), &|_| false);
    assert_eq!(result, Ok(()));
    assert_eq!(done.len(), 2);
    assert_eq!(done[0], claim_of("COM21"));
    assert_eq!(done[1], create);
    // A device that cannot be made gives its port back.
    let (done, result) = carry_out(&|stage, outcome| next_work(&action, stage, outcome), &|work| {
        *work == create
    });
    assert_eq!(result, Err("broken".to_string()));
    assert_eq!(done[2], release_of("COM21"));
    // A port that cannot be claimed is not used.
    let (done, result) = carry_out(&|stage, outcome| next_work(&action, stage, outcome), &|work| {
        *work == claim_of("COM21")
    });
    assert_eq!(result, Err("broken".to_string()));
    assert_eq!(done, vec![claim_of("COM21")]);
    // Foreign hardware is refused before anything is done.
    let foreign = ProvisionAction::Create {
        stable_id: "n1mm-cat".to_string(),
        hardware_id: "USB\\VID_1".to_string(),
        com_port: "COM21".to_string(),
    };
    let (done, result) =
        carry_out(&|stage, outcome| next_work(&foreign, stage, outcome), &|_| false);
    assert!(done.is_empty() && result.is_err());
}

#[test]
fn a_device_that_moves_frees_its_old_port() {
    let action = ProvisionAction::Reassign {
        stable_id: "n1mm-cat".to_string(),
        instance_id: "I".to_string(),
        from: Some("COM22".to_string()),
        to: "COM21".to_string(),
    };
    let moved = SystemWork::MoveDevice {
        instance_id: "I".to_string(),
        com_port: "COM21".to_string(),
    };
    let (done, result) = carry_out(&|stage, outcome| next_work(&action, stage, outcome), &|_| false);
    assert_eq!(result, Ok(()));
    assert_eq!(done, vec![claim_of("COM21"), moved, release_of("COM22")]);
    let (done, result) = carry_out(&|stage, outcome| next_work(&action, stage, outcome), &|work| {
        matches!(work, SystemWork::MoveDevice { .. })
    });
    assert_eq!(result, Err("broken".to_string()));
    assert_eq!(done.last(), Some(&release_of("COM21")));
}

#[test]
fn owners_change_without_touching_ports() {
    let action = ProvisionAction::Authorize {
        stable_id: "n1mm-cat".to_string(),
        instance_id: "I".to_string(),
        com_port: "COM21".to_string(),
    };
    let (done, result) = carry_out(&|stage, outcome| next_work(&action, stage, outcome), &|_| false);
    assert_eq!(result, Ok(()));
    assert_eq!(
        done,
        vec![SystemWork::AuthorizeDevice {
            instance_id: "I".to_string()
        }]
    );
    let kept = ProvisionAction::Retain {
        stable_id: "n1mm-cat".to_string(),
        instance_id: "I".to_string(),
        com_port: "COM21".to_string(),
    };
    assert_eq!(
        next_work(&kept, WorkStage::Start, Ok(())),
        WorkStep::Finished
    );
}

#[test]
fn a_removed_device_frees_its_port() {
    let snapshot = system_snapshot(
        &vec![facts(
            "ROOT\\CATHUB_N1MM_CAT\\0000",
            Some("COM21"),
            &["ROOT\\CATHUB_N1MM_CAT"],
            true,
        )],
        &Vec::new(),
    );
    let device = &snapshot.owned[0];
    let remove = SystemWork::RemoveDevice {
        instance_id: "ROOT\\CATHUB_N1MM_CAT\\0000".to_string(),
    };
    let (done, result) =
        carry_out(&|stage, outcome| next_removal(device, stage, outcome), &|_| false);
    assert_eq!(result, Ok(()));
    assert_eq!(done.len(), 2);
    assert_eq!(done[0], remove);
    assert_eq!(done[1], release_of("COM21"));
    let (done, result) = carry_out(&|stage, outcome| next_removal(device, stage, outcome), &|work| {
        *work == remove
    });
    assert_eq!(result, Err("broken".to_string()));
    assert_eq!(done.len(), 1);
}
