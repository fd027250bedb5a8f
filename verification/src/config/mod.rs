//! Daemon configuration.
//!
//! One radio section selects and parameterizes the backend; the poll, PTT and event sections
//! tune cadence and safety; serial and Hamlib net endpoints declare the clients. Everything
//! but the radio's backend has a sane default so a minimal configuration is short.

use vstd::prelude::*;

pub mod describe;
pub mod document;
pub mod validate;

use crate::permissions::EndpointPermissions;
use crate::text::texts;

verus! {

/// The table key the daemon's settings live under inside a shared unified document.
pub const UNIFIED_SECTION: &'static str = "cat_hub";

/// Environment override for the shared configuration path.
pub const CONFIG_PATH_ENV: &'static str = "QSORIPPER_CONFIG_PATH";

/// Per-user configuration directory name.
pub const SHARED_DIR: &'static str = "qsoripper";

/// Shared unified configuration file name.
pub const SHARED_FILE: &'static str = "config.toml";

/// The transport of a radio section that names none.
#[must_use]
pub fn default_transport() -> (r: String)
    ensures
        r@ == "serial"@,
{
    "serial".to_owned()
}

/// The baud rate of a radio or a serial endpoint that names none.
#[must_use]
pub fn default_baud() -> (r: u32)
    ensures
        r == 4_800,
{
    4_800
}

/// The TCP host of a radio section that names none.
#[must_use]
pub fn default_host() -> (r: String)
    ensures
        r@ == "127.0.0.1"@,
{
    "127.0.0.1".to_owned()
}

/// The TCP port of a radio section that names none.
#[must_use]
pub fn default_tcp_port() -> (r: u16)
    ensures
        r == 4_532,
{
    4_532
}

/// The reply timeout of a radio section that names none.
#[must_use]
pub fn default_reply_timeout_ms() -> (r: u64)
    ensures
        r == 1_000,
{
    1_000
}

/// The baseline poll interval where none is named.
#[must_use]
pub fn default_baseline_ms() -> (r: u64)
    ensures
        r == 250,
{
    250
}

/// The heartbeat interval where none is named.
#[must_use]
pub fn default_heartbeat_ms() -> (r: u64)
    ensures
        r == 3_000,
{
    3_000
}

/// The transmit ceiling where none is named.
#[must_use]
pub fn default_max_tx_ms() -> (r: u64)
    ensures
        r == 300_000,
{
    300_000
}

/// Whether the native push stream is enabled where nothing is said.
#[must_use]
pub fn default_native_push() -> (r: bool)
    ensures
        r,
{
    true
}

/// The baud rate of a keyer that names none.
#[must_use]
pub fn default_winkeyer_baud() -> (r: u32)
    ensures
        r == 1_200,
{
    1_200
}

/// The transmit ceiling of a keyer that names none.
#[must_use]
pub fn default_winkeyer_max_tx_ms() -> (r: u64)
    ensures
        r == 30_000,
{
    30_000
}

/// The API address of a keyer that names none.
#[must_use]
pub fn default_winkeyer_api_bind() -> (r: String)
    ensures
        r@ == "127.0.0.1:50071"@,
{
    "127.0.0.1:50071".to_owned()
}

/// The radio section.
#[derive(Debug, Clone, PartialEq, Eq)]
pub struct RadioConfig {
    /// Backend selector: `ts590`, `rigctld`, or `loopback`.
    pub backend: String,
    /// Human-readable / Hamlib model id (e.g. `TS-590SG`, `2014`).
    pub model: String,
    /// `serial` or `tcp`.
    pub transport: String,
    /// Serial port path (e.g. `COM3`, `/dev/ttyUSB0`).
    pub port: String,
    /// Serial baud rate.
    pub baud: u32,
    /// TCP host (for `tcp` transport or the rigctld bridge).
    pub host: String,
    /// TCP port.
    pub tcp_port: u16,
    /// Whether a bridge backend has been operator-certified.
    pub certified: bool,
    /// Per-command reply timeout in milliseconds.
    pub reply_timeout_ms: u64,
}

/// The poll section.
#[derive(Debug, Clone, PartialEq, Eq)]
pub struct PollConfig {
    /// Baseline poll interval in milliseconds.
    pub baseline_ms: u64,
    /// Heartbeat (backed-off) interval in milliseconds.
    pub heartbeat_ms: u64,
}

impl Default for PollConfig {
    fn default() -> (r: Self)
        ensures
            r == (PollConfig { baseline_ms: 250, heartbeat_ms: 3_000 }),
    {
        PollConfig { baseline_ms: default_baseline_ms(), heartbeat_ms: default_heartbeat_ms() }
    }
}

/// The PTT section.
#[derive(Debug, Clone, PartialEq, Eq)]
pub struct PttConfig {
    /// Maximum continuous transmit time in milliseconds (safety ceiling).
    pub max_tx_ms: u64,
}

impl Default for PttConfig {
    fn default() -> (r: Self)
        ensures
            r == (PttConfig { max_tx_ms: 300_000 }),
    {
        PttConfig { max_tx_ms: default_max_tx_ms() }
    }
}

/// The event section.
#[derive(Debug, Clone, PartialEq, Eq)]
pub struct EventsConfig {
    /// Whether to enable the radio's native push stream.
    pub native_push: bool,
}

impl Default for EventsConfig {
    fn default() -> (r: Self)
        ensures
            r == (EventsConfig { native_push: true }),
    {
        EventsConfig { native_push: default_native_push() }
    }
}

/// A serial client endpoint.
#[derive(Debug, Clone, PartialEq, Eq)]
pub struct SerialEndpointConfig {
    /// A label for logging.
    pub name: String,
    /// The serial port this endpoint listens on (a com0com / tty path).
    pub transport: String,
    /// The CatHub-managed virtual endpoint that backs this one instead of a port.
    pub virtual_endpoint: Option<String>,
    /// The paired endpoint opened by the client application. The hub never opens it.
    pub application_transport: Option<String>,
    /// Baud rate for the endpoint port.
    pub baud: u32,
    /// Dialect: `ts590`, `ts590-transparent` or `ts2000`.
    pub dialect: String,
    /// Permission tokens (`read`, `frequency_write`, `write`, `ptt`, `config_write`).
    pub perms: Vec<String>,
    /// Present the *operating* VFO as VFO A to this endpoint (operating-VFO virtualization).
    ///
    /// Single-VFO loggers (notably N1MM Logger+ in SO1V) read the active VFO from the Kenwood
    /// `IF;` answer and refuse to track VFO B. With `single_vfo` the hub always presents
    /// whichever VFO the operator is actually using as VFO A, so the logger follows A/B
    /// switches seamlessly. Leave this off for true dual-VFO control endpoints such as
    /// ARCP-590, which must see and address real VFO A and B independently.
    pub single_vfo: bool,
}

impl SerialEndpointConfig {
    /// The parsed permission set.
    #[must_use]
    pub fn permissions(&self) -> (r: EndpointPermissions)
        ensures
            r == EndpointPermissions::granted(texts(self.perms@)),
    {
        EndpointPermissions::from_tokens(self.perms.as_slice())
    }
}

/// A rigctld-compatible TCP endpoint.
#[derive(Debug, Clone, PartialEq, Eq)]
pub struct HamlibNetConfig {
    /// A label for logging.
    pub name: String,
    /// The bind address (e.g. `127.0.0.1:4532`).
    pub bind: String,
    /// Permission tokens (`read`, `frequency_write`, `write`, `ptt`, `config_write`).
    pub perms: Vec<String>,
    /// Present the *operating* VFO as VFO A to this endpoint (operating-VFO virtualization).
    ///
    /// Single-VFO rigctld clients (notably WSJT-X, which expects to receive on VFO A, and
    /// Log4OM, which polls `\get_vfo_info VFOA`) misbehave when the hub reports the true VFO B
    /// as the active receive VFO. Leave this off for true dual-VFO control endpoints.
    pub single_vfo: bool,
}

impl HamlibNetConfig {
    /// The parsed permission set.
    #[must_use]
    pub fn permissions(&self) -> (r: EndpointPermissions)
        ensures
            r == EndpointPermissions::granted(texts(self.perms@)),
    {
        EndpointPermissions::from_tokens(self.perms.as_slice())
    }
}

/// The optional physical-keyer broker section.
#[derive(Debug, Clone, PartialEq, Eq)]
pub struct WinkeyerConfig {
    /// Physical WinKeyer serial port exclusively owned by CatHub.
    pub port: String,
    /// Physical baud rate. WinKeyer always starts at 1200 baud.
    pub baud: u32,
    /// Broker-wide transmit safety ceiling.
    pub max_tx_ms: u64,
    /// Loopback gRPC endpoint.
    pub api_bind: String,
}

/// One virtual WinKeyer serial endpoint backed by a com0com/PTY pair.
#[derive(Debug, Clone, PartialEq, Eq)]
pub struct WinkeyerEndpointConfig {
    /// Stable endpoint name used in logs and ownership status.
    pub name: String,
    /// Hub side of the virtual serial pair.
    pub transport: String,
    /// The CatHub-managed virtual endpoint that backs this one instead of a port.
    pub virtual_endpoint: Option<String>,
    /// Paired endpoint opened by the client application. The hub never opens it.
    pub application_transport: Option<String>,
    /// Virtual endpoint baud rate.
    pub baud: u32,
    /// Whether this client controls the idle paddle/foreground settings.
    pub primary: bool,
    /// Permission tokens: `status`, `send`, `control`, `ptt`, `config_write`.
    pub perms: Vec<String>,
}

/// The full daemon configuration.
#[derive(Debug, Clone, PartialEq, Eq)]
pub struct Config {
    /// The radio backend section.
    pub radio: RadioConfig,
    /// Poll cadence.
    pub poll: PollConfig,
    /// PTT safety.
    pub ptt: PttConfig,
    /// Event/native-push policy.
    pub events: EventsConfig,
    /// Serial client endpoints.
    pub serial_endpoint: Vec<SerialEndpointConfig>,
    /// Hamlib net endpoints.
    pub hamlib_net: Vec<HamlibNetConfig>,
    /// Optional physical WinKeyer broker.
    pub winkeyer: Option<WinkeyerConfig>,
    /// Virtual WinKeyer client endpoints.
    pub winkeyer_endpoint: Vec<WinkeyerEndpointConfig>,
}

impl Config {
    /// The PTT maximum-transmit safety ceiling, in milliseconds.
    #[must_use]
    pub fn ptt_max_tx(&self) -> (r: u64)
        ensures
            r == self.ptt.max_tx_ms,
    {
        self.ptt.max_tx_ms
    }

    /// The baseline poll interval, in milliseconds.
    #[must_use]
    pub fn baseline_interval(&self) -> (r: u64)
        ensures
            r == self.poll.baseline_ms,
    {
        self.poll.baseline_ms
    }

    /// The heartbeat poll interval, in milliseconds.
    #[must_use]
    pub fn heartbeat_interval(&self) -> (r: u64)
        ensures
            r == self.poll.heartbeat_ms,
    {
        self.poll.heartbeat_ms
    }
}

/// Where the configuration is looked for.
#[derive(Debug, Clone, Copy, PartialEq, Eq, Structural)]
pub enum ConfigLocation {
    /// The file that the environment names.
    Named,
    /// The shared file in the shared directory under the application data directory.
    AppData,
    /// The shared file in the shared directory under the XDG configuration directory.
    XdgConfig,
    /// The shared file in the shared directory under `.config` in the home directory.
    HomeConfig,
    /// The shared file in the working directory, as a last resort.
    WorkingDirectory,
}

/// The path of the shared file below the directory that a location starts from, name by name.
pub open spec fn below(location: ConfigLocation) -> Seq<Seq<char>> {
    match location {
        ConfigLocation::Named => Seq::empty(),
        ConfigLocation::AppData => seq![SHARED_DIR@, SHARED_FILE@],
        ConfigLocation::XdgConfig => seq![SHARED_DIR@, SHARED_FILE@],
        ConfigLocation::HomeConfig => seq![".config"@, SHARED_DIR@, SHARED_FILE@],
        ConfigLocation::WorkingDirectory => seq![SHARED_FILE@],
    }
}

impl ConfigLocation {
    /// The path of the shared file below the directory that this location starts from, name by
    /// name. The file that the environment names is that file itself.
    #[must_use]
    pub fn segments(self) -> (r: Vec<String>)
        ensures
            texts(r@) == below(self),
    {
        let mut names: Vec<String> = Vec::new();
        if self == ConfigLocation::HomeConfig {
            names.push(".config".to_owned());
        }
        if self != ConfigLocation::Named && self != ConfigLocation::WorkingDirectory {
            names.push(SHARED_DIR.to_owned());
        }
        if self != ConfigLocation::Named {
            names.push(SHARED_FILE.to_owned());
        }
        proof {
            assert(texts(names@) =~= below(self));
        }
        names
    }
}

/// Which variables of the environment are set.
#[derive(Debug, Clone, Copy, PartialEq, Eq, Structural)]
pub struct ConfigEnvironment {
    /// Whether this is Windows.
    pub windows: bool,
    /// The configuration path override.
    pub named: bool,
    /// The application data directory.
    pub app_data: bool,
    /// The XDG configuration directory.
    pub xdg_config_home: bool,
    /// The home directory.
    pub home: bool,
}

/// The default configuration location: the override, then the per-user directory of the
/// platform, then the working directory.
#[must_use]
pub fn default_config_path(env: ConfigEnvironment) -> (r: ConfigLocation)
    ensures
        r == if env.named {
            ConfigLocation::Named
        } else if env.windows && env.app_data {
            ConfigLocation::AppData
        } else if !env.windows && env.xdg_config_home {
            ConfigLocation::XdgConfig
        } else if !env.windows && env.home {
            ConfigLocation::HomeConfig
        } else {
            ConfigLocation::WorkingDirectory
        },
{
    if env.named {
        return ConfigLocation::Named;
    }
    if env.windows {
        if env.app_data {
            return ConfigLocation::AppData;
        }
    } else {
        if env.xdg_config_home {
            return ConfigLocation::XdgConfig;
        }
        if env.home {
            return ConfigLocation::HomeConfig;
        }
    }
    ConfigLocation::WorkingDirectory
}

} // verus!
