//! Tests of the configuration and of bringing the daemon up.

use cathub::config::default_baud;
use cathub::config::default_baseline_ms;
use cathub::config::default_config_path;
use cathub::config::default_heartbeat_ms;
use cathub::config::default_host;
use cathub::config::default_max_tx_ms;
use cathub::config::default_native_push;
use cathub::config::default_reply_timeout_ms;
use cathub::config::default_tcp_port;
use cathub::config::default_transport;
use cathub::config::default_winkeyer_api_bind;
use cathub::config::default_winkeyer_baud;
use cathub::config::default_winkeyer_max_tx_ms;
use cathub::config::document::document_layout;
use cathub::config::document::layout_from_keys;
use cathub::config::document::plan_migration;
use cathub::config::document::Migration;
use cathub::config::document::DocumentLayout;
use cathub::config::validate::ApiBind;
use cathub::config::Config;
use cathub::config::ConfigEnvironment;
use cathub::config::ConfigLocation;
use cathub::config::EventsConfig;
use cathub::config::HamlibNetConfig;
use cathub::config::PollConfig;
use cathub::config::PttConfig;
use cathub::config::RadioConfig;
use cathub::config::SerialEndpointConfig;
use cathub::config::WinkeyerConfig;
use cathub::config::WinkeyerEndpointConfig;
use cathub::config::SHARED_DIR;
use cathub::config::SHARED_FILE;
use cathub::config::UNIFIED_SECTION;
use cathub::error::ConfigError;
use cathub::hub::build_backend;
use cathub::hub::dialect_for;
use cathub::hub::native_push_active;
use cathub::hub::open_transport;
use cathub::hub::plan_sessions;
use cathub::dialect::Release;
use cathub::hub::release_on_shutdown;
use cathub::hub::watchdog;
use cathub::radio::scheduler::Priority;
use cathub::hub::TransportKind;
use cathub::model::PttSource;
use cathub::model::StateMutation;
use cathub::ptt::PttManager;

type Table = toml::map::Map<String, toml::Value>;

fn text_or(table: &Table, key: &str, default: String) -> String {
    match table.get(key) {
        Some(value) => value.as_str().expect("a text").to_string(),
        None => default,
    }
}

fn text(table: &Table, key: &str) -> String {
    table[key].as_str().expect("a text").to_string()
}

fn option(table: &Table, key: &str) -> Option<String> {
    table
        .get(key)
        .map(|value| value.as_str().expect("a text").to_string())
}

fn number_or(table: &Table, key: &str, default: u64) -> u64 {
    match table.get(key) {
        Some(value) => value.as_integer().expect("a number") as u64,
        None => default,
    }
}

fn flag_or(table: &Table, key: &str, default: bool) -> bool {
    match table.get(key) {
        Some(value) => value.as_bool().expect("a flag"),
        None => default,
    }
}

fn list(table: &Table, key: &str) -> Vec<String> {
    match table.get(key) {
        Some(value) => value
            .as_array()
            .expect("a list")
            .iter()
            .map(|item| item.as_str().expect("a text").to_string())
            .collect(),
        None => Vec::new(),
    }
}

fn section(table: &Table, key: &str) -> Table {
    match table.get(key) {
        Some(value) => value.as_table().expect("a table").clone(),
        None => Table::new(),
    }
}

fn sections(table: &Table, key: &str) -> Vec<Table> {
    match table.get(key) {
        Some(value) => value
            .as_array()
            .expect("a list")
            .iter()
            .map(|item| item.as_table().expect("a table").clone())
            .collect(),
        None => Vec::new(),
    }
}

/// Read a configuration out of a parsed document, with the defaults of what it leaves out.
fn from_table(table: &Table) -> Config {
    let radio = section(table, "radio");
    let poll = section(table, "poll");
    let ptt = section(table, "ptt");
    let events = section(table, "events");
    Config {
        radio: RadioConfig {
            backend: text(&radio, "backend"),
            model: text_or(&radio, "model", String::new()),
            transport: text_or(&radio, "transport", default_transport()),
            port: text_or(&radio, "port", String::new()),
            baud: number_or(&radio, "baud", default_baud() as u64) as u32,
            host: text_or(&radio, "host", default_host()),
            tcp_port: number_or(&radio, "tcp_port", default_tcp_port() as u64) as u16,
            certified: flag_or(&radio, "certified", false),
            reply_timeout_ms: number_or(&radio, "reply_timeout_ms", default_reply_timeout_ms()),
        },
        poll: PollConfig {
            baseline_ms: number_or(&poll, "baseline_ms", default_baseline_ms()),
            heartbeat_ms: number_or(&poll, "heartbeat_ms", default_heartbeat_ms()),
        },
        ptt: PttConfig {
            max_tx_ms: number_or(&ptt, "max_tx_ms", default_max_tx_ms()),
        },
        events: EventsConfig {
            native_push: flag_or(&events, "native_push", default_native_push()),
        },
        serial_endpoint: sections(table, "serial_endpoint")
            .iter()
            .map(|e| SerialEndpointConfig {
                name: text(e, "name"),
                transport: text_or(e, "transport", String::new()),
                virtual_endpoint: option(e, "virtual_endpoint"),
                application_transport: option(e, "application_transport"),
                baud: number_or(e, "baud", default_baud() as u64) as u32,
                dialect: text(e, "dialect"),
                perms: list(e, "perms"),
                single_vfo: flag_or(e, "single_vfo", false),
            })
            .collect(),
        hamlib_net: sections(table, "hamlib_net")
            .iter()
            .map(|e| HamlibNetConfig {
                name: text(e, "name"),
                bind: text(e, "bind"),
                perms: list(e, "perms"),
                single_vfo: flag_or(e, "single_vfo", false),
            })
            .collect(),
        winkeyer: table
            .get("winkeyer")
            .map(|value| value.as_table().expect("a table"))
            .map(|w| WinkeyerConfig {
                port: text(w, "port"),
                baud: number_or(w, "baud", default_winkeyer_baud() as u64) as u32,
                max_tx_ms: number_or(w, "max_tx_ms", default_winkeyer_max_tx_ms()),
                api_bind: text_or(w, "api_bind", default_winkeyer_api_bind()),
            }),
        winkeyer_endpoint: sections(table, "winkeyer_endpoint")
            .iter()
            .map(|e| WinkeyerEndpointConfig {
                name: text(e, "name"),
                transport: text_or(e, "transport", String::new()),
                virtual_endpoint: option(e, "virtual_endpoint"),
                application_transport: option(e, "application_transport"),
                baud: number_or(e, "baud", default_winkeyer_baud() as u64) as u32,
                primary: flag_or(e, "primary", false),
                perms: list(e, "perms"),
            })
            .collect(),
    }
}

/// How the keyer's API address reads.
fn bind_of(config: &Config) -> ApiBind {
    let text = match &config.winkeyer {
        Some(winkeyer) => winkeyer.api_bind.clone(),
        None => return ApiBind::Malformed,
    };
    if text.starts_with("127.") {
        ApiBind::Loopback
    } else if text.contains(':') {
        ApiBind::Routable
    } else {
        ApiBind::Malformed
    }
}

fn checked(config: Config) -> Result<Config, ConfigError> {
    config.validate(bind_of(&config))?;
    Ok(config)
}

fn table_of(text: &str) -> Result<Table, ConfigError> {
    toml::from_str::<Table>(text).map_err(|error| ConfigError::Parse(error.to_string()))
}

/// Parse a configuration from a bare document.
fn parse(text: &str) -> Result<Config, ConfigError> {
    checked(from_table(&table_of(text)?))
}

/// Parse a configuration from a document in either layout.
fn parse_document(text: &str) -> Result<Config, ConfigError> {
    match document_layout(text)? {
        DocumentLayout::Unified => checked(from_table(&section(&table_of(text)?, UNIFIED_SECTION))),
        DocumentLayout::Standalone => parse(text),
    }
}

const SAMPLE: &str = r#"
[radio]
backend = "ts590"
model = "TS-590SG"
transport = "serial"
port = "COM3"
baud = 4800

[poll]
baseline_ms = 200
heartbeat_ms = 2500

[ptt]
max_tx_ms = 120000

[events]
native_push = true

[[serial_endpoint]]
name = "n1mm"
transport = "COM20"
application_transport = "COM21"
baud = 4800
dialect = "ts590"
perms = ["read", "write", "ptt"]
single_vfo = true

[[hamlib_net]]
name = "engine"
bind = "127.0.0.1:4532"
perms = ["read"]
"#;

#[test]
fn parses_full_config() {
    let config = parse(SAMPLE).expect("parse");
    assert_eq!(config.radio.backend, "ts590");
    assert_eq!(config.radio.port, "COM3");
    assert_eq!(config.serial_endpoint.len(), 1);
    assert_eq!(config.hamlib_net.len(), 1);
    assert!(config.serial_endpoint[0].permissions().ptt);
    assert!(
        config.serial_endpoint[0].single_vfo,
        "single_vfo parses as true"
    );
    assert!(config.hamlib_net[0].permissions().read);
    assert!(!config.hamlib_net[0].permissions().write);
    assert_eq!(config.baseline_interval(), 200);
    assert_eq!(config.heartbeat_interval(), 2_500);
    assert_eq!(config.ptt_max_tx(), 120_000);
}

#[test]
fn applies_defaults() {
    let text = r#"
[radio]
backend = "loopback"

[[serial_endpoint]]
name = "x"
transport = "COM5"
dialect = "ts590"
"#;
    let config = parse(text).expect("parse");
    assert_eq!(config.radio.baud, 4_800);
    assert_eq!(config.poll.baseline_ms, 250);
    assert_eq!(config.ptt.max_tx_ms, 300_000);
    assert!(config.events.native_push);
    assert_eq!(config.serial_endpoint[0].baud, 4_800);
    assert!(
        !config.serial_endpoint[0].single_vfo,
        "single_vfo defaults to false (native dual-VFO presentation)"
    );
}

#[test]
fn rejects_unknown_backend() {
    let text = r#"
[radio]
backend = "icom"
[[serial_endpoint]]
name = "x"
transport = "COM5"
dialect = "ts590"
"#;
    assert!(parse(text).is_err());
}

#[test]
fn serial_backend_requires_port() {
    let text = r#"
[radio]
backend = "ts590"
transport = "serial"
[[serial_endpoint]]
name = "x"
transport = "COM5"
dialect = "ts590"
"#;
    let err = parse(text).expect_err("missing port");
    assert!(err.message().contains("requires radio.port"));
}

#[test]
fn rejects_unknown_dialect() {
    let text = r#"
[radio]
backend = "loopback"
[[serial_endpoint]]
name = "x"
transport = "COM5"
dialect = "yaesu"
"#;
    assert!(parse(text).is_err());
}

#[test]
fn requires_at_least_one_endpoint() {
    let text = r#"
[radio]
backend = "loopback"
"#;
    assert!(parse(text).is_err());
}

#[test]
fn describe_mentions_all_sections() {
    let config = parse(SAMPLE).expect("parse");
    let text = config.describe();
    assert!(text.contains("radio: backend=ts590"));
    assert!(text.contains("reply_timeout_ms=1000"));
    assert!(text.contains("poll: baseline_ms=200"));
    assert!(text.contains("ptt: max_tx_ms=120000"));
    assert!(text.contains("events: native_push=true"));
    assert!(text.contains("endpoint: name=n1mm"));
    assert!(text.contains("hamlib_net: name=engine"));
    assert!(text.contains("Client connection guide"));
    assert!(text.contains("hub=COM20, application=COM21"));
}

#[test]
fn default_path_is_unified_config_toml() {
    // With no override, the default resolves to the shared unified file name and lives
    // under the shared per-user directory rather than a standalone cathub.toml.
    assert!(
        SHARED_FILE.ends_with("config.toml"),
        "expected config.toml, got {SHARED_FILE}"
    );
    let unset = ConfigEnvironment {
        windows: false,
        named: false,
        app_data: false,
        xdg_config_home: false,
        home: true,
    };
    assert_eq!(default_config_path(unset), ConfigLocation::HomeConfig);
    for location in [
        ConfigLocation::AppData,
        ConfigLocation::XdgConfig,
        ConfigLocation::HomeConfig,
        ConfigLocation::WorkingDirectory,
    ] {
        let text = location.segments().join("/");
        assert!(
            text.ends_with("config.toml"),
            "expected config.toml, got {text}"
        );
        assert!(
            text.contains(SHARED_DIR) || text == SHARED_FILE,
            "expected shared dir or bare fallback, got {text}"
        );
    }
    assert_eq!(
        ConfigLocation::HomeConfig.segments(),
        vec![".config", "qsoripper", "config.toml"]
    );
    assert!(ConfigLocation::Named.segments().is_empty());
    let xdg = ConfigEnvironment {
        xdg_config_home: true,
        ..unset
    };
    assert_eq!(default_config_path(xdg), ConfigLocation::XdgConfig);
    let windows = ConfigEnvironment {
        windows: true,
        app_data: true,
        ..unset
    };
    assert_eq!(default_config_path(windows), ConfigLocation::AppData);
    let named = ConfigEnvironment {
        named: true,
        ..windows
    };
    assert_eq!(default_config_path(named), ConfigLocation::Named);
    // The bare last-resort fallback is the only case without the shared dir.
    let bare = ConfigEnvironment {
        home: false,
        ..unset
    };
    assert_eq!(default_config_path(bare), ConfigLocation::WorkingDirectory);
}

#[test]
fn parses_unified_cat_hub_section() {
    // A unified config.toml carrying unrelated engine/launcher tables plus a [cat_hub]
    // subtree must load only the cat_hub subtree and ignore everything else.
    let text = r#"
[station_profile]
callsign = "K7ABC"

[launcher]
selected = ["engine-rust"]

[cat_hub.radio]
backend = "ts590"
transport = "serial"
port = "COM4"
baud = 4800

[[cat_hub.serial_endpoint]]
name = "n1mm"
transport = "COM20"
application_transport = "COM21"
dialect = "ts590"
perms = ["read", "write", "ptt"]

[[cat_hub.hamlib_net]]
name = "engine"
bind = "127.0.0.1:4532"
perms = ["read"]
"#;
    let config = parse_document(text).expect("parse unified");
    assert_eq!(config.radio.backend, "ts590");
    assert_eq!(config.radio.port, "COM4");
    assert_eq!(config.serial_endpoint.len(), 1);
    assert_eq!(
        config.serial_endpoint[0].application_transport.as_deref(),
        Some("COM21")
    );
    assert_eq!(config.hamlib_net.len(), 1);
    assert!(config.serial_endpoint[0].permissions().ptt);
}

#[test]
fn parse_document_falls_back_to_standalone() {
    // A standalone config without a [cat_hub] table still parses for back-compat.
    let config = parse_document(SAMPLE).expect("parse standalone");
    assert_eq!(config.radio.backend, "ts590");
    assert_eq!(config.radio.port, "COM3");
    assert_eq!(config.serial_endpoint.len(), 1);
}

#[test]
fn parse_document_validates_cat_hub_section() {
    // Validation still applies to the nested subtree (no endpoints is invalid).
    let text = r#"
[cat_hub.radio]
backend = "loopback"
"#;
    assert!(parse_document(text).is_err());
}

#[test]
fn parses_and_describes_winkeyer_broker() {
    let text = r#"
[radio]
backend = "loopback"

[[hamlib_net]]
name = "engine"
bind = "127.0.0.1:4532"

[winkeyer]
port = "COM3"
max_tx_ms = 30000
api_bind = "127.0.0.1:50071"

[[winkeyer_endpoint]]
name = "n1mm"
transport = "COM40"
application_transport = "COM41"
primary = true
perms = ["status", "send", "control", "ptt"]
"#;
    let config = parse(text).expect("parse keyer");
    let winkeyer = config.winkeyer.as_ref().expect("winkeyer");
    assert_eq!(winkeyer.port, "COM3");
    assert_eq!(winkeyer.baud, 1_200);
    assert_eq!(config.winkeyer_endpoint.len(), 1);
    assert!(config.winkeyer_endpoint[0].primary);
    assert_eq!(
        config.winkeyer_endpoint[0].application_transport.as_deref(),
        Some("COM41")
    );
    let description = config.describe();
    assert!(description.contains("winkeyer: port=COM3"));
    assert!(description.contains("winkeyer_endpoint: name=n1mm"));
    assert!(description.contains("application_transport=COM41"));
}

#[test]
fn rejects_matching_hub_and_application_transports() {
    let serial = SAMPLE.replace(
        "application_transport = \"COM21\"",
        "application_transport = \"com20\"",
    );
    assert!(parse(&serial)
        .expect_err("matching serial pair")
        .message()
        .contains("application_transport must differ"));

    let winkeyer = r#"
[radio]
backend = "loopback"
[[hamlib_net]]
name = "engine"
bind = "127.0.0.1:4532"
[winkeyer]
port = "COM3"
[[winkeyer_endpoint]]
name = "wktools"
transport = "COM42"
application_transport = "com42"
"#;
    assert!(parse(winkeyer)
        .expect_err("matching WinKeyer pair")
        .message()
        .contains("application_transport must differ"));
}

#[test]
fn rejects_non_loopback_winkeyer_api_and_duplicate_primary_endpoints() {
    let non_loopback = r#"
[radio]
backend = "loopback"
[[hamlib_net]]
name = "engine"
bind = "127.0.0.1:4532"
[winkeyer]
port = "COM3"
api_bind = "0.0.0.0:50071"
"#;
    assert!(parse(non_loopback)
        .expect_err("non-loopback")
        .message()
        .contains("loopback"));

    let duplicate_primary = r#"
[radio]
backend = "loopback"
[[hamlib_net]]
name = "engine"
bind = "127.0.0.1:4532"
[winkeyer]
port = "COM3"
[[winkeyer_endpoint]]
name = "one"
transport = "COM40"
primary = true
[[winkeyer_endpoint]]
name = "two"
transport = "COM42"
primary = true
"#;
    assert!(parse(duplicate_primary)
        .expect_err("primary")
        .message()
        .contains("at most one"));
}

#[test]
fn rejects_keyer_port_collision_and_endpoints_without_device() {
    let collision = r#"
[radio]
backend = "ts590"
port = "COM3"
[[hamlib_net]]
name = "engine"
bind = "127.0.0.1:4532"
[winkeyer]
port = "com3"
"#;
    assert!(parse(collision)
        .expect_err("collision")
        .message()
        .contains("distinct"));

    let orphan = r#"
[radio]
backend = "loopback"
[[hamlib_net]]
name = "engine"
bind = "127.0.0.1:4532"
[[winkeyer_endpoint]]
name = "n1mm"
transport = "COM40"
"#;
    assert!(parse(orphan)
        .expect_err("orphan")
        .message()
        .contains("requires a [winkeyer]"));
}

// --- bring-up ---

#[test]
fn build_backend_dispatches_each_kind() {
    let cfg = parse(
        "[radio]\nbackend = \"ts590\"\nport = \"COM3\"\n\
         [[serial_endpoint]]\nname=\"f\"\ntransport=\"COM5\"\ndialect=\"ts590\"\n",
    )
    .expect("parse");
    assert_eq!(
        build_backend(&cfg).expect("ts590").capabilities().model,
        "TS-590"
    );

    let cfg = parse(
        "[radio]\nbackend = \"rigctld\"\nmodel=\"TS-590SG\"\ntransport=\"tcp\"\n\
         [[serial_endpoint]]\nname=\"f\"\ntransport=\"COM5\"\ndialect=\"ts590\"\n",
    )
    .expect("parse");
    assert!(build_backend(&cfg)
        .expect("rigctld")
        .capabilities()
        .model
        .starts_with("rigctld:"));

    let cfg = parse(
        "[radio]\nbackend = \"loopback\"\n[[serial_endpoint]]\nname=\"f\"\ntransport=\"COM5\"\ndialect=\"ts590\"\n",
    )
    .expect("parse");
    assert_eq!(
        build_backend(&cfg).expect("loopback").capabilities().model,
        "loopback"
    );
}

#[test]
fn dialect_for_known_and_unknown() {
    assert!(dialect_for("ts590").is_ok());
    assert!(dialect_for("ts2000").is_ok());
    assert!(dialect_for("yaesu").is_err());
}

#[test]
fn open_transport_rejects_unknown_transport() {
    let mut cfg = parse(
        "[radio]\nbackend = \"ts590\"\ntransport = \"serial\"\nport = \"COM3\"\n\
         [[serial_endpoint]]\nname=\"f\"\ntransport=\"COM5\"\ndialect=\"ts590\"\n",
    )
    .expect("parse");
    assert_eq!(open_transport(&cfg.radio).ok(), Some(TransportKind::Serial));
    // open_transport defends against a transport string that bypassed validation.
    cfg.radio.transport = "usb".to_string();
    assert!(open_transport(&cfg.radio).is_err());
}

#[test]
fn sessions_are_numbered_across_all_endpoints() {
    let text = format!(
        "{SAMPLE}\n[winkeyer]\nport = \"COM9\"\n\
         [[winkeyer_endpoint]]\nname = \"keys\"\ntransport = \"COM40\"\n"
    );
    let config = parse(&text).expect("parse");
    let backend = build_backend(&config).expect("backend");
    assert!(native_push_active(&config, &backend));
    let plan = plan_sessions(&config, &backend.capabilities()).expect("plan");
    assert_eq!(plan.keyer_ids.len(), 1);
    assert_eq!(plan.faces.len(), 1);
    assert_eq!(plan.listeners.len(), 1);
    let mut ids = plan.keyer_ids.clone();
    ids.push(plan.faces[0].ctx.session_id);
    ids.push(plan.listeners[0].session_id);
    ids.push(plan.next_id);
    ids.sort();
    ids.dedup();
    assert_eq!(ids.len(), 4, "no two sessions share an id");
    assert!(plan.faces[0].ctx.single_vfo());
    assert!(!plan.listeners[0].perms.write);

    let mut broken = config;
    broken.serial_endpoint[0].dialect = "yaesu".to_string();
    let error = plan_sessions(&broken, &backend.capabilities()).expect_err("dialect");
    assert!(error.message().contains("yaesu"));
}

#[test]
fn a_stuck_transmitter_is_unkeyed() {
    let mut ptt = PttManager::new(1_000);
    assert_eq!(release_on_shutdown(&ptt), None);
    ptt.try_key(4, true, 10).expect("key");
    assert_eq!(watchdog(&ptt, 500), None);
    let unkey = StateMutation::SetPtt {
        keyed: false,
        source: PttSource::Generic,
    };
    let expected = Release {
        session_id: 4,
        priority: Priority::Ptt,
        mutation: unkey,
    };
    assert_eq!(watchdog(&ptt, 5_000), Some(Release::new(4)));
    assert_eq!(release_on_shutdown(&ptt), Some(expected));
    // The lease is held until the write was answered or given up.
    assert_eq!(ptt.owner(), Some(4));
    Release::new(3).finish(None, &mut ptt);
    assert_eq!(ptt.owner(), Some(4));
    Release::new(4).finish(None, &mut ptt);
    assert_eq!(ptt.owner(), None);
}

// --- document layout ---

#[test]
fn a_document_is_unified_exactly_where_it_has_the_daemon_table() {
    assert_eq!(document_layout(SAMPLE), Ok(DocumentLayout::Standalone));
    assert_eq!(
        document_layout("[launcher]\nx = 1\n[cat_hub.radio]\nbackend = \"loopback\"\n"),
        Ok(DocumentLayout::Unified)
    );
    assert_eq!(document_layout(""), Ok(DocumentLayout::Standalone));
    assert!(matches!(
        document_layout("[radio\n"),
        Err(ConfigError::Parse(_))
    ));
    assert_eq!(
        layout_from_keys(Ok(vec!["a".to_string(), "cat_hub".to_string()])),
        Ok(DocumentLayout::Unified)
    );
    assert_eq!(
        layout_from_keys(Ok(vec!["cat_hubs".to_string()])),
        Ok(DocumentLayout::Standalone)
    );
    assert_eq!(
        layout_from_keys(Err("no".to_string())),
        Err(ConfigError::Parse("no".to_string()))
    );
}

#[test]
fn permission_lists_are_described_as_they_are_written() {
    let config = parse(SAMPLE).expect("parse");
    let text = config.describe();
    assert!(text.contains("perms=[\"read\", \"write\", \"ptt\"] single_vfo=true"));
    let mut odd = config;
    odd.hamlib_net[0].perms = vec!["a\"b".to_string()];
    assert!(odd.describe().contains("perms=[\"a\\\"b\"]"));
}

#[test]
fn keyer_settings_are_checked() {
    let good = "[radio]\nbackend = \"loopback\"\n[[hamlib_net]]\nname = \"e\"\nbind = \"127.0.0.1:4532\"\n\
                [winkeyer]\nport = \"COM3\"\n";
    assert!(parse(good).is_ok());
    for (more, word) in [
        ("baud = 9600\n", "must be 1200"),
        ("max_tx_ms = 999\n", "between 1000 and 300000"),
        ("api_bind = \"nonsense\"\n", "host:port"),
        (
            "[[winkeyer_endpoint]]\nname = \"k\"\ntransport = \"COM4\"\nbaud = 9600\n",
            "baud must be 1200",
        ),
        (
            "[[winkeyer_endpoint]]\nname = \"k\"\ntransport = \"COM4\"\nperms = [\"fly\"]\n",
            "unknown permission 'fly'",
        ),
        (
            "[[winkeyer_endpoint]]\nname = \"k\"\ntransport = \"COM4\"\n\
             [[winkeyer_endpoint]]\nname = \"l\"\ntransport = \"com4\"\n",
            "distinct",
        ),
    ] {
        let error = parse(&format!("{good}{more}")).expect_err(word);
        assert!(error.message().contains(word), "{}", error.message());
    }
    let mirror = SAMPLE.replace("dialect = \"ts590\"", "dialect = \"ts590-transparent\"");
    assert!(parse(&mirror)
        .expect_err("a mirror shows both VFOs")
        .message()
        .contains("transparent"));
}

#[test]
fn a_migration_never_loses_a_file() {
    assert_eq!(plan_migration(true, false, false), None);
    assert_eq!(
        plan_migration(true, true, true),
        Some(Migration {
            back_up_output: true,
            remove_section: true,
        })
    );
    assert_eq!(
        plan_migration(false, false, false),
        Some(Migration {
            back_up_output: false,
            remove_section: false,
        })
    );
}
