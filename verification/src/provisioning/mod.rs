//! Idempotent provisioning for CatHub-owned virtual serial endpoints.
//!
//! The endpoint identities are compiled into the driver package. A configuration names the
//! endpoints it wants; the plan says what has to change for the system to have them.

use vstd::prelude::*;

pub mod outcome;
pub mod plan;
pub mod report;
pub mod system;
pub mod wants;
pub mod work;

use crate::config::Config;
use crate::config::SerialEndpointConfig;
use crate::config::WinkeyerEndpointConfig;
use crate::text::after_prefix;
use crate::text::decimal;
use crate::text::eq_ignore_ascii_case;
use crate::text::lowered;
use crate::text::parse_u64;
use crate::text::parsed_unsigned;
use crate::text::push_decimal;
use crate::text::same_ignoring_case;
use crate::text::strip_prefix;
use crate::text::to_ascii_lowercase;
use crate::text::to_ascii_uppercase;
use crate::text::trim;
use crate::text::trimmed;
use crate::text::uppered;

verus! {

/// The highest COM port number.
pub const MAX_COM_PORTS: u64 = 4096;

/// What an endpoint carries.
#[derive(Debug, Clone, Copy, PartialEq, Eq, Structural)]
pub enum EndpointKind {
    /// CAT commands.
    Cat,
    /// The WinKeyer protocol.
    Winkeyer,
}

impl EndpointKind {
    /// The name of a kind.
    pub open spec fn name(self) -> Seq<char> {
        match self {
            EndpointKind::Cat => "Cat"@,
            EndpointKind::Winkeyer => "Winkeyer"@,
        }
    }

    fn label(self) -> (r: &'static str)
        ensures
            r@ == self.name(),
    {
        match self {
            EndpointKind::Cat => "Cat",
            EndpointKind::Winkeyer => "Winkeyer",
        }
    }
}

/// One endpoint identity compiled into the CatHub driver package.
#[derive(Debug, Clone, Copy, PartialEq, Eq, Structural)]
pub enum EndpointDefinition {
    /// The default endpoint.
    Default,
    /// CAT for HDSDR.
    HdsdrCat,
    /// CAT for N1MM.
    N1mmCat,
    /// CAT for ARCP-590.
    Arcp590Cat,
    /// The keyer for N1MM.
    N1mmWinkeyer,
    /// The keyer for WKTools.
    Wktools,
}

impl EndpointDefinition {
    /// The stable name of the endpoint.
    pub open spec fn id(self) -> Seq<char> {
        match self {
            EndpointDefinition::Default => "cathub-default"@,
            EndpointDefinition::HdsdrCat => "hdsdr-cat"@,
            EndpointDefinition::N1mmCat => "n1mm-cat"@,
            EndpointDefinition::Arcp590Cat => "arcp590-cat"@,
            EndpointDefinition::N1mmWinkeyer => "n1mm-winkeyer"@,
            EndpointDefinition::Wktools => "wktools"@,
        }
    }

    /// The stable name of the endpoint.
    #[must_use]
    pub fn stable_id(self) -> (r: &'static str)
        ensures
            r@ == self.id(),
    {
        match self {
            EndpointDefinition::Default => "cathub-default",
            EndpointDefinition::HdsdrCat => "hdsdr-cat",
            EndpointDefinition::N1mmCat => "n1mm-cat",
            EndpointDefinition::Arcp590Cat => "arcp590-cat",
            EndpointDefinition::N1mmWinkeyer => "n1mm-winkeyer",
            EndpointDefinition::Wktools => "wktools",
        }
    }

    /// The hardware id that the driver package knows.
    pub open spec fn hardware(self) -> Seq<char> {
        match self {
            EndpointDefinition::Default => "ROOT\\CATHUB_VIRTUAL_SERIAL"@,
            EndpointDefinition::HdsdrCat => "ROOT\\CATHUB_HDSDR_CAT"@,
            EndpointDefinition::N1mmCat => "ROOT\\CATHUB_N1MM_CAT"@,
            EndpointDefinition::Arcp590Cat => "ROOT\\CATHUB_ARCP590_CAT"@,
            EndpointDefinition::N1mmWinkeyer => "ROOT\\CATHUB_N1MM_WINKEYER"@,
            EndpointDefinition::Wktools => "ROOT\\CATHUB_WKTOOLS"@,
        }
    }

    /// The hardware id that the driver package knows.
    #[must_use]
    pub fn hardware_id(self) -> (r: &'static str)
        ensures
            r@ == self.hardware(),
    {
        match self {
            EndpointDefinition::Default => "ROOT\\CATHUB_VIRTUAL_SERIAL",
            EndpointDefinition::HdsdrCat => "ROOT\\CATHUB_HDSDR_CAT",
            EndpointDefinition::N1mmCat => "ROOT\\CATHUB_N1MM_CAT",
            EndpointDefinition::Arcp590Cat => "ROOT\\CATHUB_ARCP590_CAT",
            EndpointDefinition::N1mmWinkeyer => "ROOT\\CATHUB_N1MM_WINKEYER",
            EndpointDefinition::Wktools => "ROOT\\CATHUB_WKTOOLS",
        }
    }

    /// The name shown to the user.
    pub open spec fn title(self) -> Seq<char> {
        match self {
            EndpointDefinition::Default => "CatHub Virtual Serial Port"@,
            EndpointDefinition::HdsdrCat => "CatHub HDSDR CAT Port"@,
            EndpointDefinition::N1mmCat => "CatHub N1MM CAT Port"@,
            EndpointDefinition::Arcp590Cat => "CatHub ARCP-590 CAT Port"@,
            EndpointDefinition::N1mmWinkeyer => "CatHub N1MM WinKeyer Port"@,
            EndpointDefinition::Wktools => "CatHub WKTools Port"@,
        }
    }

    /// The name shown to the user.
    #[must_use]
    pub fn display_name(self) -> (r: &'static str)
        ensures
            r@ == self.title(),
    {
        match self {
            EndpointDefinition::Default => "CatHub Virtual Serial Port",
            EndpointDefinition::HdsdrCat => "CatHub HDSDR CAT Port",
            EndpointDefinition::N1mmCat => "CatHub N1MM CAT Port",
            EndpointDefinition::Arcp590Cat => "CatHub ARCP-590 CAT Port",
            EndpointDefinition::N1mmWinkeyer => "CatHub N1MM WinKeyer Port",
            EndpointDefinition::Wktools => "CatHub WKTools Port",
        }
    }

    /// The port where none is configured.
    pub open spec fn port(self) -> Seq<char> {
        match self {
            EndpointDefinition::Default => "COM21"@,
            EndpointDefinition::HdsdrCat => "COM11"@,
            EndpointDefinition::N1mmCat => "COM21"@,
            EndpointDefinition::Arcp590Cat => "COM31"@,
            EndpointDefinition::N1mmWinkeyer => "COM41"@,
            EndpointDefinition::Wktools => "COM43"@,
        }
    }

    /// The port where none is configured.
    #[must_use]
    pub fn default_port(self) -> (r: &'static str)
        ensures
            r@ == self.port(),
    {
        match self {
            EndpointDefinition::Default => "COM21",
            EndpointDefinition::HdsdrCat => "COM11",
            EndpointDefinition::N1mmCat => "COM21",
            EndpointDefinition::Arcp590Cat => "COM31",
            EndpointDefinition::N1mmWinkeyer => "COM41",
            EndpointDefinition::Wktools => "COM43",
        }
    }

    /// What the endpoint carries.
    pub open spec fn carries(self) -> EndpointKind {
        match self {
            EndpointDefinition::Default => EndpointKind::Cat,
            EndpointDefinition::HdsdrCat => EndpointKind::Cat,
            EndpointDefinition::N1mmCat => EndpointKind::Cat,
            EndpointDefinition::Arcp590Cat => EndpointKind::Cat,
            EndpointDefinition::N1mmWinkeyer => EndpointKind::Winkeyer,
            EndpointDefinition::Wktools => EndpointKind::Winkeyer,
        }
    }

    /// What the endpoint carries.
    #[must_use]
    pub fn kind(self) -> (r: EndpointKind)
        ensures
            r == self.carries(),
    {
        match self {
            EndpointDefinition::Default => EndpointKind::Cat,
            EndpointDefinition::HdsdrCat => EndpointKind::Cat,
            EndpointDefinition::N1mmCat => EndpointKind::Cat,
            EndpointDefinition::Arcp590Cat => EndpointKind::Cat,
            EndpointDefinition::N1mmWinkeyer => EndpointKind::Winkeyer,
            EndpointDefinition::Wktools => EndpointKind::Winkeyer,
        }
    }
}

/// The endpoint with a stable name, in any case.
pub open spec fn defined(id: Seq<char>) -> Option<EndpointDefinition> {
    if same_ignoring_case(EndpointDefinition::Default.id(), id) {
        Some(EndpointDefinition::Default)
    } else if same_ignoring_case(EndpointDefinition::HdsdrCat.id(), id) {
        Some(EndpointDefinition::HdsdrCat)
    } else if same_ignoring_case(EndpointDefinition::N1mmCat.id(), id) {
        Some(EndpointDefinition::N1mmCat)
    } else if same_ignoring_case(EndpointDefinition::Arcp590Cat.id(), id) {
        Some(EndpointDefinition::Arcp590Cat)
    } else if same_ignoring_case(EndpointDefinition::N1mmWinkeyer.id(), id) {
        Some(EndpointDefinition::N1mmWinkeyer)
    } else if same_ignoring_case(EndpointDefinition::Wktools.id(), id) {
        Some(EndpointDefinition::Wktools)
    } else {
        None
    }
}

/// The endpoint with a stable name, in any case.
#[must_use]
pub fn definition(stable_id: &str) -> (r: Option<EndpointDefinition>)
    ensures
        r == defined(stable_id@),
{
    if eq_ignore_ascii_case(EndpointDefinition::Default.stable_id(), stable_id) {
        Some(EndpointDefinition::Default)
    } else if eq_ignore_ascii_case(EndpointDefinition::HdsdrCat.stable_id(), stable_id) {
        Some(EndpointDefinition::HdsdrCat)
    } else if eq_ignore_ascii_case(EndpointDefinition::N1mmCat.stable_id(), stable_id) {
        Some(EndpointDefinition::N1mmCat)
    } else if eq_ignore_ascii_case(EndpointDefinition::Arcp590Cat.stable_id(), stable_id) {
        Some(EndpointDefinition::Arcp590Cat)
    } else if eq_ignore_ascii_case(EndpointDefinition::N1mmWinkeyer.stable_id(), stable_id) {
        Some(EndpointDefinition::N1mmWinkeyer)
    } else if eq_ignore_ascii_case(EndpointDefinition::Wktools.stable_id(), stable_id) {
        Some(EndpointDefinition::Wktools)
    } else {
        None
    }
}

/// The endpoint with a hardware id, in any case.
pub open spec fn defined_by_hardware(hardware_id: Seq<char>) -> Option<EndpointDefinition> {
    if same_ignoring_case(EndpointDefinition::Default.hardware(), hardware_id) {
        Some(EndpointDefinition::Default)
    } else if same_ignoring_case(EndpointDefinition::HdsdrCat.hardware(), hardware_id) {
        Some(EndpointDefinition::HdsdrCat)
    } else if same_ignoring_case(EndpointDefinition::N1mmCat.hardware(), hardware_id) {
        Some(EndpointDefinition::N1mmCat)
    } else if same_ignoring_case(EndpointDefinition::Arcp590Cat.hardware(), hardware_id) {
        Some(EndpointDefinition::Arcp590Cat)
    } else if same_ignoring_case(EndpointDefinition::N1mmWinkeyer.hardware(), hardware_id) {
        Some(EndpointDefinition::N1mmWinkeyer)
    } else if same_ignoring_case(EndpointDefinition::Wktools.hardware(), hardware_id) {
        Some(EndpointDefinition::Wktools)
    } else {
        None
    }
}

/// The endpoint with a hardware id, in any case.
#[must_use]
pub fn definition_for_hardware_id(hardware_id: &str) -> (r: Option<EndpointDefinition>)
    ensures
        r == defined_by_hardware(hardware_id@),
{
    if eq_ignore_ascii_case(EndpointDefinition::Default.hardware_id(), hardware_id) {
        Some(EndpointDefinition::Default)
    } else if eq_ignore_ascii_case(EndpointDefinition::HdsdrCat.hardware_id(), hardware_id) {
        Some(EndpointDefinition::HdsdrCat)
    } else if eq_ignore_ascii_case(EndpointDefinition::N1mmCat.hardware_id(), hardware_id) {
        Some(EndpointDefinition::N1mmCat)
    } else if eq_ignore_ascii_case(EndpointDefinition::Arcp590Cat.hardware_id(), hardware_id) {
        Some(EndpointDefinition::Arcp590Cat)
    } else if eq_ignore_ascii_case(EndpointDefinition::N1mmWinkeyer.hardware_id(), hardware_id) {
        Some(EndpointDefinition::N1mmWinkeyer)
    } else if eq_ignore_ascii_case(EndpointDefinition::Wktools.hardware_id(), hardware_id) {
        Some(EndpointDefinition::Wktools)
    } else {
        None
    }
}

/// Every endpoint is found by its own names.
pub proof fn law_definitions_are_found(d: EndpointDefinition)
    ensures
        defined(d.id()) == Some(d),
        defined_by_hardware(d.hardware()) == Some(d),
{
    reveal_strlit("cathub-default");
    reveal_strlit("hdsdr-cat");
    reveal_strlit("n1mm-cat");
    reveal_strlit("arcp590-cat");
    reveal_strlit("n1mm-winkeyer");
    reveal_strlit("wktools");
    reveal_strlit("ROOT\\CATHUB_VIRTUAL_SERIAL");
    reveal_strlit("ROOT\\CATHUB_HDSDR_CAT");
    reveal_strlit("ROOT\\CATHUB_N1MM_CAT");
    reveal_strlit("ROOT\\CATHUB_ARCP590_CAT");
    reveal_strlit("ROOT\\CATHUB_N1MM_WINKEYER");
    reveal_strlit("ROOT\\CATHUB_WKTOOLS");
}

/// The number of a COM port name: `COM` in any case and a number from 1 to 4096, with white
/// space around it.
pub open spec fn com_port_number(name: Seq<char>) -> Option<nat> {
    match after_prefix(uppered(trimmed(name)), "COM"@) {
        Some(digits) => match parsed_unsigned(digits, u16::MAX as nat) {
            Some(n) => if 1 <= n <= MAX_COM_PORTS {
                Some(n)
            } else {
                None
            },
            None => None,
        },
        None => None,
    }
}

/// A COM port name as it is written.
pub open spec fn com_name(n: nat) -> Seq<char> {
    "COM"@ + decimal(n)
}

/// What is said of a name that is no COM port.
pub open spec fn not_a_port(name: Seq<char>) -> Seq<char> {
    "`"@ + uppered(trimmed(name)) + "` is not a valid COM1 through COM4096 name"@
}

/// The number of a COM port.
pub(crate) fn port_number(name: &str) -> (r: Option<u64>)
    ensures
        match r {
            Some(n) => com_port_number(name@) == Some(n as nat),
            None => com_port_number(name@) is None,
        },
{
    let value = to_ascii_uppercase(trim(name).as_str());
    match strip_prefix(value.as_str(), "COM") {
        Some(digits) => match parse_u64(digits.as_str()) {
            Some(n) => {
                if n >= 1 && n <= MAX_COM_PORTS {
                    Some(n)
                } else {
                    None
                }
            },
            None => None,
        },
        None => None,
    }
}

/// The name of a COM port.
pub(crate) fn port_name(n: u64) -> (r: String)
    ensures
        r@ == com_name(n as nat),
{
    let mut out = "COM".to_owned();
    push_decimal(&mut out, n);
    out
}

/// The canonical name of a COM port.
///
/// # Errors
///
/// Returns an error if the name is not one of `COM1` to `COM4096`.
pub fn normalize_com_port(value: &str) -> (r: Result<String, String>)
    ensures
        match r {
            Ok(name) => com_port_number(value@) is Some && name@ == com_name(
                com_port_number(value@)->Some_0,
            ),
            Err(why) => com_port_number(value@) is None && why@ == not_a_port(value@),
        },
{
    match port_number(value) {
        Some(n) => Ok(port_name(n)),
        None => {
            let mut why = "`".to_owned();
            why.append(to_ascii_uppercase(trim(value).as_str()).as_str());
            why.append("` is not a valid COM1 through COM4096 name");
            Err(why)
        },
    }
}

/// An endpoint that a configuration wants.
#[derive(Debug, PartialEq, Eq)]
pub struct DesiredEndpoint {
    /// The stable name.
    pub stable_id: String,
    /// What it carries.
    pub kind: EndpointKind,
    /// The hardware id.
    pub hardware_id: String,
    /// The name shown to the user.
    pub display_name: String,
    /// The COM port.
    pub com_port: String,
    /// The name in the configuration.
    pub configured_name: String,
}

/// An endpoint that a configuration wants, as a value of the model.
pub struct Desired {
    /// The stable name.
    pub stable_id: Seq<char>,
    /// What it carries.
    pub kind: EndpointKind,
    /// The hardware id.
    pub hardware_id: Seq<char>,
    /// The name shown to the user.
    pub display_name: Seq<char>,
    /// The COM port.
    pub com_port: Seq<char>,
    /// The name in the configuration.
    pub configured_name: Seq<char>,
}

impl View for DesiredEndpoint {
    type V = Desired;

    open spec fn view(&self) -> Desired {
        Desired {
            stable_id: self.stable_id@,
            kind: self.kind,
            hardware_id: self.hardware_id@,
            display_name: self.display_name@,
            com_port: self.com_port@,
            configured_name: self.configured_name@,
        }
    }
}

/// The endpoints of a vector.
pub open spec fn desired_views(v: Seq<DesiredEndpoint>) -> Seq<Desired> {
    v.map_values(|e: DesiredEndpoint| e@)
}

/// The endpoint that a configured name stands for, or what is wrong with it.
pub open spec fn wanted(
    stable_id: Seq<char>,
    kind: EndpointKind,
    configured_name: Seq<char>,
    requested_port: Option<Seq<char>>,
) -> Result<Desired, Seq<char>> {
    let id = lowered(trimmed(stable_id));
    match defined(id) {
        None => Err("unknown CatHub virtual endpoint `"@ + id + "`"@),
        Some(definition) => if definition.carries() != kind {
            Err(
                "virtual endpoint `"@ + id + "` is a "@ + definition.carries().name()
                    + " endpoint and cannot back this "@ + kind.name() + " configuration"@,
            )
        } else {
            let port = match requested_port {
                Some(port) => port,
                None => definition.port(),
            };
            match com_port_number(port) {
                None => Err(not_a_port(port)),
                Some(n) => Ok(
                    Desired {
                        stable_id: id,
                        kind,
                        hardware_id: definition.hardware(),
                        display_name: definition.title(),
                        com_port: com_name(n),
                        configured_name,
                    },
                ),
            }
        },
    }
}

/// The text that an optional string holds.
pub open spec fn text_of(s: Option<String>) -> Option<Seq<char>> {
    match s {
        Some(text) => Some(text@),
        None => None,
    }
}

/// The endpoint that a configured name stands for.
///
/// # Errors
///
/// Returns an error if there is no such endpoint, it carries something else, or the requested
/// port is no COM port.
pub fn desired_endpoint(
    stable_id: &str,
    kind: EndpointKind,
    configured_name: &str,
    requested_port: &Option<String>,
) -> (r: Result<DesiredEndpoint, String>)
    ensures
        match r {
            Ok(endpoint) => wanted(
                stable_id@,
                kind,
                configured_name@,
                text_of(*requested_port),
            ) == Ok::<Desired, Seq<char>>(endpoint@),
            Err(why) => wanted(
                stable_id@,
                kind,
                configured_name@,
                text_of(*requested_port),
            ) == Err::<Desired, Seq<char>>(why@),
        },
{
    let id = to_ascii_lowercase(trim(stable_id).as_str());
    let definition = match definition(id.as_str()) {
        Some(definition) => definition,
        None => {
            let mut why = "unknown CatHub virtual endpoint `".to_owned();
            why.append(id.as_str());
            why.append("`");
            return Err(why);
        },
    };
    if definition.kind() != kind {
        let mut why = "virtual endpoint `".to_owned();
        why.append(id.as_str());
        why.append("` is a ");
        why.append(definition.kind().label());
        why.append(" endpoint and cannot back this ");
        why.append(kind.label());
        why.append(" configuration");
        return Err(why);
    }
    let com_port = match requested_port {
        Some(port) => normalize_com_port(port.as_str()),
        None => normalize_com_port(definition.default_port()),
    };
    match com_port {
        Ok(com_port) => Ok(
            DesiredEndpoint {
                stable_id: id,
                kind,
                hardware_id: definition.hardware_id().to_owned(),
                display_name: definition.display_name().to_owned(),
                com_port,
                configured_name: configured_name.to_owned(),
            },
        ),
        Err(why) => Err(why),
    }
}

/// The endpoints that serial endpoints want, in order, or the first thing that is wrong.
pub open spec fn wanted_serials(endpoints: Seq<SerialEndpointConfig>) -> Result<
    Seq<Desired>,
    Seq<char>,
>
    decreases endpoints.len(),
{
    if endpoints.len() == 0 {
        Ok(Seq::empty())
    } else {
        match wanted_serials(endpoints.drop_last()) {
            Err(why) => Err(why),
            Ok(earlier) => {
                let last = endpoints.last();
                match last.virtual_endpoint {
                    None => Ok(earlier),
                    Some(id) => match wanted(
                        id@,
                        EndpointKind::Cat,
                        last.name@,
                        text_of(last.application_transport),
                    ) {
                        Ok(endpoint) => Ok(earlier.push(endpoint)),
                        Err(why) => Err(why),
                    },
                }
            },
        }
    }
}

/// What keyer endpoints want is added, in order, or the first thing that is wrong is said.
pub open spec fn wanted_keyers(
    before: Seq<Desired>,
    endpoints: Seq<WinkeyerEndpointConfig>,
) -> Result<Seq<Desired>, Seq<char>>
    decreases endpoints.len(),
{
    if endpoints.len() == 0 {
        Ok(before)
    } else {
        match wanted_keyers(before, endpoints.drop_last()) {
            Err(why) => Err(why),
            Ok(earlier) => {
                let last = endpoints.last();
                match last.virtual_endpoint {
                    None => Ok(earlier),
                    Some(id) => match wanted(
                        id@,
                        EndpointKind::Winkeyer,
                        last.name@,
                        text_of(last.application_transport),
                    ) {
                        Ok(endpoint) => Ok(earlier.push(endpoint)),
                        Err(why) => Err(why),
                    },
                }
            },
        }
    }
}

/// Whether an earlier endpoint has the stable name of the last one.
pub open spec fn repeats_id(endpoints: Seq<Desired>) -> bool {
    exists|i: int|
        0 <= i < endpoints.len() - 1 && same_ignoring_case(
            (#[trigger] endpoints[i]).stable_id,
            endpoints.last().stable_id,
        )
}

/// Whether an earlier endpoint has the port of the last one.
pub open spec fn repeats_port(endpoints: Seq<Desired>) -> bool {
    exists|i: int|
        0 <= i < endpoints.len() - 1 && same_ignoring_case(
            (#[trigger] endpoints[i]).com_port,
            endpoints.last().com_port,
        )
}

/// What is wrong with endpoints that are wanted together: a name or a port that comes twice.
pub open spec fn repetition(endpoints: Seq<Desired>) -> Option<Seq<char>>
    decreases endpoints.len(),
{
    if endpoints.len() == 0 {
        None
    } else {
        match repetition(endpoints.drop_last()) {
            Some(why) => Some(why),
            None => if repeats_id(endpoints) {
                Some(
                    "managed virtual endpoint `"@ + endpoints.last().stable_id
                        + "` is configured more than once"@,
                )
            } else if repeats_port(endpoints) {
                Some(
                    "managed virtual COM port `"@ + endpoints.last().com_port
                        + "` is configured more than once"@,
                )
            } else {
                None
            },
        }
    }
}

/// The endpoints that a configuration wants, or the first thing that is wrong with them.
pub open spec fn wanted_by(config: Config) -> Result<Seq<Desired>, Seq<char>> {
    match wanted_serials(config.serial_endpoint@) {
        Err(why) => Err(why),
        Ok(serials) => match wanted_keyers(serials, config.winkeyer_endpoint@) {
            Err(why) => Err(why),
            Ok(all) => match repetition(all) {
                Some(why) => Err(why),
                None => Ok(all),
            },
        },
    }
}

proof fn lemma_serial_error_stays(endpoints: Seq<SerialEndpointConfig>, n: int)
    requires
        0 <= n <= endpoints.len(),
        wanted_serials(endpoints.take(n)) is Err,
    ensures
        wanted_serials(endpoints) == wanted_serials(endpoints.take(n)),
    decreases endpoints.len() - n,
{
    if n < endpoints.len() {
        assert(endpoints.take(n + 1).drop_last() =~= endpoints.take(n));
        lemma_serial_error_stays(endpoints, n + 1);
    } else {
        assert(endpoints.take(n) =~= endpoints);
    }
}

proof fn lemma_keyer_error_stays(before: Seq<Desired>, endpoints: Seq<WinkeyerEndpointConfig>, n: int)
    requires
        0 <= n <= endpoints.len(),
        wanted_keyers(before, endpoints.take(n)) is Err,
    ensures
        wanted_keyers(before, endpoints) == wanted_keyers(before, endpoints.take(n)),
    decreases endpoints.len() - n,
{
    if n < endpoints.len() {
        assert(endpoints.take(n + 1).drop_last() =~= endpoints.take(n));
        lemma_keyer_error_stays(before, endpoints, n + 1);
    } else {
        assert(endpoints.take(n) =~= endpoints);
    }
}

proof fn lemma_repetition_stays(endpoints: Seq<Desired>, n: int)
    requires
        0 <= n <= endpoints.len(),
        repetition(endpoints.take(n)) is Some,
    ensures
        repetition(endpoints) == repetition(endpoints.take(n)),
    decreases endpoints.len() - n,
{
    if n < endpoints.len() {
        assert(endpoints.take(n + 1).drop_last() =~= endpoints.take(n));
        lemma_repetition_stays(endpoints, n + 1);
    } else {
        assert(endpoints.take(n) =~= endpoints);
    }
}

fn collect_serials(endpoints: &Vec<SerialEndpointConfig>) -> (r: Result<
    Vec<DesiredEndpoint>,
    String,
>)
    ensures
        match r {
            Ok(v) => wanted_serials(endpoints@) == Ok::<Seq<Desired>, Seq<char>>(
                desired_views(v@),
            ),
            Err(why) => wanted_serials(endpoints@) == Err::<Seq<Desired>, Seq<char>>(why@),
        },
{
    let mut desired: Vec<DesiredEndpoint> = Vec::new();
    let mut i: usize = 0;
    proof {
        assert(desired_views(desired@) =~= Seq::empty());
    }
    while i < endpoints.len()
        invariant
            i <= endpoints@.len(),
            wanted_serials(endpoints@.take(i as int)) == Ok::<Seq<Desired>, Seq<char>>(
                desired_views(desired@),
            ),
        decreases endpoints@.len() - i,
    {
        let ghost before = desired_views(desired@);
        let endpoint = &endpoints[i];
        proof {
            assert(endpoints@.take(i + 1).drop_last() =~= endpoints@.take(i as int));
            assert(endpoints@.take(i + 1).last() == endpoints@[i as int]);
        }
        if let Some(id) = &endpoint.virtual_endpoint {
            match desired_endpoint(
                id.as_str(),
                EndpointKind::Cat,
                endpoint.name.as_str(),
                &endpoint.application_transport,
            ) {
                Ok(one) => {
                    let ghost added = one@;
                    desired.push(one);
                    proof {
                        assert(desired_views(desired@) =~= before.push(added));
                    }
                },
                Err(why) => {
                    proof {
                        lemma_serial_error_stays(endpoints@, i + 1);
                    }
                    return Err(why);
                },
            }
        }
        i = i + 1;
    }
    proof {
        assert(endpoints@.take(i as int) =~= endpoints@);
    }
    Ok(desired)
}

fn collect_keyers(desired: &mut Vec<DesiredEndpoint>, endpoints: &Vec<WinkeyerEndpointConfig>) -> (r:
    Result<(), String>)
    ensures
        match r {
            Ok(()) => wanted_keyers(desired_views(old(desired)@), endpoints@) == Ok::<
                Seq<Desired>,
                Seq<char>,
            >(desired_views(final(desired)@)),
            Err(why) => wanted_keyers(desired_views(old(desired)@), endpoints@) == Err::<
                Seq<Desired>,
                Seq<char>,
            >(why@),
        },
{
    let ghost start = desired_views(desired@);
    let mut i: usize = 0;
    proof {
        assert(endpoints@.take(0) =~= Seq::empty());
    }
    while i < endpoints.len()
        invariant
            i <= endpoints@.len(),
            start == desired_views(old(desired)@),
            wanted_keyers(start, endpoints@.take(i as int)) == Ok::<Seq<Desired>, Seq<char>>(
                desired_views(desired@),
            ),
        decreases endpoints@.len() - i,
    {
        let ghost before = desired_views(desired@);
        let endpoint = &endpoints[i];
        proof {
            assert(endpoints@.take(i + 1).drop_last() =~= endpoints@.take(i as int));
            assert(endpoints@.take(i + 1).last() == endpoints@[i as int]);
        }
        if let Some(id) = &endpoint.virtual_endpoint {
            match desired_endpoint(
                id.as_str(),
                EndpointKind::Winkeyer,
                endpoint.name.as_str(),
                &endpoint.application_transport,
            ) {
                Ok(one) => {
                    let ghost added = one@;
                    desired.push(one);
                    proof {
                        assert(desired_views(desired@) =~= before.push(added));
                    }
                },
                Err(why) => {
                    proof {
                        lemma_keyer_error_stays(start, endpoints@, i + 1);
                    }
                    return Err(why);
                },
            }
        }
        i = i + 1;
    }
    proof {
        assert(endpoints@.take(i as int) =~= endpoints@);
    }
    Ok(())
}

fn has_id_before(endpoints: &Vec<DesiredEndpoint>, n: usize) -> (r: bool)
    requires
        0 < n <= endpoints@.len(),
    ensures
        r == repeats_id(desired_views(endpoints@).take(n as int)),
{
    let ghost some = desired_views(endpoints@).take(n as int);
    let mut i: usize = 0;
    while i < n - 1
        invariant
            i <= n - 1,
            0 < n <= endpoints@.len(),
            some == desired_views(endpoints@).take(n as int),
            forall|j: int|
                0 <= j < i ==> !same_ignoring_case(
                    (#[trigger] some[j]).stable_id,
                    some.last().stable_id,
                ),
        decreases n - i,
    {
        if eq_ignore_ascii_case(endpoints[i].stable_id.as_str(), endpoints[n - 1].stable_id.as_str()) {
            proof {
                assert(same_ignoring_case(some[i as int].stable_id, some.last().stable_id));
            }
            return true;
        }
        i = i + 1;
    }
    false
}

fn has_port_before(endpoints: &Vec<DesiredEndpoint>, n: usize) -> (r: bool)
    requires
        0 < n <= endpoints@.len(),
    ensures
        r == repeats_port(desired_views(endpoints@).take(n as int)),
{
    let ghost some = desired_views(endpoints@).take(n as int);
    let mut i: usize = 0;
    while i < n - 1
        invariant
            i <= n - 1,
            0 < n <= endpoints@.len(),
            some == desired_views(endpoints@).take(n as int),
            forall|j: int|
                0 <= j < i ==> !same_ignoring_case(
                    (#[trigger] some[j]).com_port,
                    some.last().com_port,
                ),
        decreases n - i,
    {
        if eq_ignore_ascii_case(endpoints[i].com_port.as_str(), endpoints[n - 1].com_port.as_str()) {
            proof {
                assert(same_ignoring_case(some[i as int].com_port, some.last().com_port));
            }
            return true;
        }
        i = i + 1;
    }
    false
}

/// The endpoints that a configuration wants.
///
/// # Errors
///
/// Returns an error if an endpoint is unknown, carries something else or names no COM port, or
/// if an endpoint or a port is configured more than once.
pub fn desired_endpoints(config: &Config) -> (r: Result<Vec<DesiredEndpoint>, String>)
    ensures
        match r {
            Ok(v) => wanted_by(*config) == Ok::<Seq<Desired>, Seq<char>>(desired_views(v@)),
            Err(why) => wanted_by(*config) == Err::<Seq<Desired>, Seq<char>>(why@),
        },
{
    let mut desired = match collect_serials(&config.serial_endpoint) {
        Ok(desired) => desired,
        Err(why) => return Err(why),
    };
    if let Err(why) = collect_keyers(&mut desired, &config.winkeyer_endpoint) {
        return Err(why);
    }
    let ghost all = desired_views(desired@);
    let mut i: usize = 0;
    while i < desired.len()
        invariant
            i <= desired@.len(),
            all == desired_views(desired@),
            wanted_serials(config.serial_endpoint@) is Ok,
            wanted_keyers(
                wanted_serials(config.serial_endpoint@)->Ok_0,
                config.winkeyer_endpoint@,
            ) == Ok::<Seq<Desired>, Seq<char>>(all),
            repetition(all.take(i as int)) is None,
        decreases desired@.len() - i,
    {
        proof {
            assert(all.take(i + 1).drop_last() =~= all.take(i as int));
            assert(all.take(i + 1).last() == desired@[i as int]@);
        }
        if has_id_before(&desired, i + 1) {
            proof {
                lemma_repetition_stays(all, i + 1);
            }
            let mut why = "managed virtual endpoint `".to_owned();
            why.append(desired[i].stable_id.as_str());
            why.append("` is configured more than once");
            return Err(why);
        }
        if has_port_before(&desired, i + 1) {
            proof {
                lemma_repetition_stays(all, i + 1);
            }
            let mut why = "managed virtual COM port `".to_owned();
            why.append(desired[i].com_port.as_str());
            why.append("` is configured more than once");
            return Err(why);
        }
        i = i + 1;
    }
    proof {
        assert(all.take(i as int) =~= all);
    }
    Ok(desired)
}

/// A canonical COM port name stays as it is, and names the same port.
pub proof fn law_com_names_are_canonical(name: Seq<char>)
    requires
        com_port_number(name) is Some,
    ensures
        com_port_number(com_name(com_port_number(name)->Some_0)) == com_port_number(name),
{
    let n = com_port_number(name)->Some_0;
    lemma_com_name_is_read(n);
}

proof fn lemma_com_name_is_read(n: nat)
    requires
        1 <= n <= MAX_COM_PORTS,
    ensures
        com_port_number(com_name(n)) == Some(n),
{
    reveal_strlit("COM");
    let digits = decimal(n);
    let name = com_name(n);
    crate::ascii::lemma_padded_digits(n, 0);
    crate::ascii::lemma_decimal_value(n);
    assert(crate::ascii::padded(n, 0) =~= digits);
    assert(crate::text::is_digit(digits[0]));
    assert(crate::text::is_digit(digits.last()));
    assert(name[0] == 'C');
    assert(name.last() == digits.last());
    assert(!crate::text::is_space(name[0]));
    assert(!crate::text::is_space(name.last()));
    assert(trimmed(name) == name);
    assert forall|i: int| 0 <= i < name.len() implies crate::text::upper_ascii(
        #[trigger] name[i],
    ) == name[i] by {
        if i >= 3 {
            assert(name[i] == digits[i - 3]);
            assert(crate::text::is_digit(digits[i - 3]));
        }
    }
    assert(uppered(name) =~= name);
    assert(name.take(3) =~= "COM"@);
    assert(name.skip(3) =~= digits);
    assert(crate::text::without_plus(digits) == digits);
}

} // verus!
