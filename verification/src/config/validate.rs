//! The semantic constraints of a configuration.

use vstd::prelude::*;

use crate::config::Config;
use crate::config::RadioConfig;
use crate::config::SerialEndpointConfig;
use crate::config::WinkeyerConfig;
use crate::config::WinkeyerEndpointConfig;
use crate::error::ConfigError;
use crate::text::eq_ignore_ascii_case;
use crate::text::is_empty_text;
use crate::text::same_ignoring_case;
use crate::text::same_text;
use crate::text::texts;
use crate::text::trim;
use crate::text::trimmed;

verus! {

/// What the API address of the keyer turned out to be.
#[derive(Debug, Clone, Copy, PartialEq, Eq, Structural)]
pub enum ApiBind {
    /// It is no socket address.
    Malformed,
    /// It is a socket address on a loopback interface.
    Loopback,
    /// It is a socket address that others can reach.
    Routable,
}

/// What is wrong with a radio section.
pub open spec fn radio_problem(radio: RadioConfig) -> Option<Seq<char>> {
    if radio.backend@ != "ts590"@ && radio.backend@ != "rigctld"@ && radio.backend@
        != "loopback"@ {
        Some(
            "unknown radio.backend '"@ + radio.backend@
                + "' (expected ts590, rigctld, or loopback)"@,
        )
    } else if radio.backend@ == "loopback"@ {
        None
    } else if radio.transport@ == "serial"@ {
        if radio.port@.len() == 0 {
            Some("radio.transport = \"serial\" requires radio.port"@)
        } else {
            None
        }
    } else if radio.transport@ == "tcp"@ {
        None
    } else {
        Some(
            "unknown radio.transport '"@ + radio.transport@ + "' (expected serial or tcp)"@,
        )
    }
}

/// Whether the application is told to open the very port that the hub owns.
pub open spec fn same_port(transport: Seq<char>, application: Option<String>) -> bool {
    match application {
        Some(port) => same_ignoring_case(trimmed(port@), trimmed(transport)),
        None => false,
    }
}

/// What is wrong with a serial endpoint.
pub open spec fn serial_problem(endpoint: SerialEndpointConfig) -> Option<Seq<char>> {
    let named = "endpoint '"@ + endpoint.name@;
    if same_port(endpoint.transport@, endpoint.application_transport) {
        Some(named + "' application_transport must differ from transport"@)
    } else if endpoint.dialect@ != "ts590"@ && endpoint.dialect@ != "ts590-transparent"@
        && endpoint.dialect@ != "ts2000"@ {
        Some(
            named + "' has unknown dialect '"@ + endpoint.dialect@
                + "' (expected ts590, ts590-transparent, or ts2000)"@,
        )
    } else if endpoint.dialect@ == "ts590-transparent"@ && endpoint.single_vfo {
        Some(
            named
                + "' combines dialect 'ts590-transparent' with single_vfo = true; a transparent mirror endpoint relays the radio's real dual-VFO stream verbatim and cannot virtualize the operating VFO"@,
        )
    } else {
        None
    }
}

/// What is wrong with the first of several serial endpoints that has a problem.
pub open spec fn serial_problems(endpoints: Seq<SerialEndpointConfig>) -> Option<Seq<char>>
    decreases endpoints.len(),
{
    if endpoints.len() == 0 {
        None
    } else {
        match serial_problems(endpoints.drop_last()) {
            Some(problem) => Some(problem),
            None => serial_problem(endpoints.last()),
        }
    }
}

/// Whether a token is a permission of a keyer endpoint.
pub open spec fn keyer_permission(token: Seq<char>) -> bool {
    token == "status"@ || token == "send"@ || token == "control"@ || token == "ptt"@ || token
        == "config_write"@
}

/// The first token that is no permission of a keyer endpoint.
pub open spec fn unknown_permission(tokens: Seq<Seq<char>>) -> Option<Seq<char>>
    decreases tokens.len(),
{
    if tokens.len() == 0 {
        None
    } else {
        match unknown_permission(tokens.drop_last()) {
            Some(token) => Some(token),
            None => if keyer_permission(tokens.last()) {
                None
            } else {
                Some(tokens.last())
            },
        }
    }
}

/// What is wrong with a keyer endpoint.
pub open spec fn keyer_endpoint_problem(endpoint: WinkeyerEndpointConfig) -> Option<Seq<char>> {
    let named = "winkeyer endpoint '"@ + endpoint.name@;
    let perms = texts(endpoint.perms@);
    if endpoint.virtual_endpoint is None && trimmed(endpoint.transport@).len() == 0 {
        Some(named + "' requires transport"@)
    } else if endpoint.baud != 1_200 {
        Some(named + "' baud must be 1200"@)
    } else if same_port(endpoint.transport@, endpoint.application_transport) {
        Some(named + "' application_transport must differ from transport"@)
    } else if unknown_permission(perms) is Some {
        Some(
            named + "' has unknown permission '"@ + unknown_permission(perms)->Some_0 + "'"@,
        )
    } else if perms.contains("send"@) && !perms.contains("status"@) {
        Some(named + "' permission 'send' requires 'status'"@)
    } else if perms.contains("ptt"@) && !(perms.contains("send"@) && perms.contains("control"@)) {
        Some(named + "' permission 'ptt' requires 'send' and 'control'"@)
    } else if perms.contains("config_write"@) && !(perms.contains("status"@) && perms.contains(
        "control"@,
    )) {
        Some(named + "' permission 'config_write' requires 'status' and 'control'"@)
    } else {
        None
    }
}

/// Whether two keyer endpoints have the same port. An endpoint that a managed virtual
/// endpoint backs has none.
pub open spec fn share_port(a: WinkeyerEndpointConfig, b: WinkeyerEndpointConfig) -> bool {
    a.virtual_endpoint is None && b.virtual_endpoint is None && same_ignoring_case(
        a.transport@,
        b.transport@,
    )
}

/// Whether an earlier endpoint has the port of the last one.
pub open spec fn repeats_transport(endpoints: Seq<WinkeyerEndpointConfig>) -> bool {
    exists|i: int|
        0 <= i < endpoints.len() - 1 && share_port(#[trigger] endpoints[i], endpoints.last())
}

/// What is wrong with the first of several keyer endpoints that has a problem.
pub open spec fn keyer_endpoint_problems(endpoints: Seq<WinkeyerEndpointConfig>) -> Option<
    Seq<char>,
>
    decreases endpoints.len(),
{
    if endpoints.len() == 0 {
        None
    } else {
        match keyer_endpoint_problems(endpoints.drop_last()) {
            Some(problem) => Some(problem),
            None => match keyer_endpoint_problem(endpoints.last()) {
                Some(problem) => Some(problem),
                None => if repeats_transport(endpoints) {
                    Some("winkeyer endpoint transports must be distinct"@)
                } else {
                    None
                },
            },
        }
    }
}

/// Whether two keyer endpoints claim to be the primary one.
pub open spec fn two_primaries(endpoints: Seq<WinkeyerEndpointConfig>) -> bool {
    exists|i: int, j: int|
        0 <= i < j < endpoints.len() && (#[trigger] endpoints[i]).primary && (
        #[trigger] endpoints[j]).primary
}

/// What is wrong with the keyer section itself.
pub open spec fn keyer_problem(keyer: WinkeyerConfig, bind: ApiBind, radio_port: Seq<char>) -> Option<
    Seq<char>,
> {
    if trimmed(keyer.port@).len() == 0 {
        Some("winkeyer.port must not be empty"@)
    } else if keyer.baud != 1_200 {
        Some("winkeyer.baud must be 1200; high-baud session switching is not broker-safe"@)
    } else if !(1_000 <= keyer.max_tx_ms <= 300_000) {
        Some("winkeyer.max_tx_ms must be between 1000 and 300000"@)
    } else if bind == ApiBind::Malformed {
        Some("winkeyer.api_bind must be a host:port socket address"@)
    } else if bind == ApiBind::Routable {
        Some("winkeyer.api_bind must use a loopback address"@)
    } else if same_ignoring_case(keyer.port@, radio_port) {
        Some("winkeyer.port must be distinct from radio.port"@)
    } else {
        None
    }
}

/// What is wrong with the keyer and its endpoints.
pub open spec fn winkeyer_problem(config: Config, bind: ApiBind) -> Option<Seq<char>> {
    match config.winkeyer {
        None => if config.winkeyer_endpoint@.len() > 0 {
            Some("[[winkeyer_endpoint]] requires a [winkeyer] physical device section"@)
        } else {
            None
        },
        Some(keyer) => match keyer_problem(keyer, bind, config.radio.port@) {
            Some(problem) => Some(problem),
            None => if two_primaries(config.winkeyer_endpoint@) {
                Some("at most one [[winkeyer_endpoint]] may set primary = true"@)
            } else {
                keyer_endpoint_problems(config.winkeyer_endpoint@)
            },
        },
    }
}

/// What is wrong with a configuration: its first problem, if it has any.
pub open spec fn config_problem(config: Config, bind: ApiBind) -> Option<Seq<char>> {
    match radio_problem(config.radio) {
        Some(problem) => Some(problem),
        None => match serial_problems(config.serial_endpoint@) {
            Some(problem) => Some(problem),
            None => if config.serial_endpoint@.len() == 0 && config.hamlib_net@.len() == 0 {
                Some("at least one [[serial_endpoint]] or [[hamlib_net]] endpoint is required"@)
            } else {
                winkeyer_problem(config, bind)
            },
        },
    }
}

/// Whether a validation result says what a problem says.
pub open spec fn reports(result: Result<(), ConfigError>, problem: Option<Seq<char>>) -> bool {
    match result {
        Ok(()) => problem is None,
        Err(ConfigError::Invalid(why)) => problem == Some(why@),
        Err(_) => false,
    }
}

fn quoted(before: &str, name: &str, after: &str) -> (r: String)
    ensures
        r@ == before@ + name@ + after@,
{
    let mut out = before.to_owned();
    out.append(name);
    out.append(after);
    out
}

fn invalid(why: &str) -> (r: Result<(), ConfigError>)
    ensures
        reports(r, Some(why@)),
{
    Err(ConfigError::Invalid(why.to_owned()))
}

fn validate_radio(radio: &RadioConfig) -> (r: Result<(), ConfigError>)
    ensures
        reports(r, radio_problem(*radio)),
{
    let backend = radio.backend.as_str();
    if !same_text(backend, "ts590") && !same_text(backend, "rigctld") && !same_text(
        backend,
        "loopback",
    ) {
        return Err(
            ConfigError::Invalid(
                quoted(
                    "unknown radio.backend '",
                    backend,
                    "' (expected ts590, rigctld, or loopback)",
                ),
            ),
        );
    }
    if same_text(backend, "loopback") {
        return Ok(());
    }
    let transport = radio.transport.as_str();
    if same_text(transport, "serial") {
        if is_empty_text(radio.port.as_str()) {
            return invalid("radio.transport = \"serial\" requires radio.port");
        }
        return Ok(());
    }
    if same_text(transport, "tcp") {
        return Ok(());
    }
    Err(
        ConfigError::Invalid(
            quoted("unknown radio.transport '", transport, "' (expected serial or tcp)"),
        ),
    )
}

fn is_same_port(transport: &str, application: &Option<String>) -> (r: bool)
    ensures
        r == same_port(transport@, *application),
{
    match application {
        Some(port) => eq_ignore_ascii_case(trim(port.as_str()).as_str(), trim(transport).as_str()),
        None => false,
    }
}

fn validate_serial_endpoint(endpoint: &SerialEndpointConfig) -> (r: Result<(), ConfigError>)
    ensures
        reports(r, serial_problem(*endpoint)),
{
    let name = endpoint.name.as_str();
    let dialect = endpoint.dialect.as_str();
    if is_same_port(endpoint.transport.as_str(), &endpoint.application_transport) {
        return Err(
            ConfigError::Invalid(
                quoted(
                    "endpoint '",
                    name,
                    "' application_transport must differ from transport",
                ),
            ),
        );
    }
    if !same_text(dialect, "ts590") && !same_text(dialect, "ts590-transparent") && !same_text(
        dialect,
        "ts2000",
    ) {
        let mut why = quoted("endpoint '", name, "' has unknown dialect '");
        why.append(dialect);
        why.append("' (expected ts590, ts590-transparent, or ts2000)");
        return Err(ConfigError::Invalid(why));
    }
    if same_text(dialect, "ts590-transparent") && endpoint.single_vfo {
        return Err(
            ConfigError::Invalid(
                quoted(
                    "endpoint '",
                    name,
                    "' combines dialect 'ts590-transparent' with single_vfo = true; a transparent mirror endpoint relays the radio's real dual-VFO stream verbatim and cannot virtualize the operating VFO",
                ),
            ),
        );
    }
    Ok(())
}

fn has(perms: &Vec<String>, token: &str) -> (r: bool)
    ensures
        r == texts(perms@).contains(token@),
{
    let mut i: usize = 0;
    while i < perms.len()
        invariant
            i <= perms@.len(),
            forall|j: int| 0 <= j < i ==> texts(perms@)[j] != token@,
        decreases perms@.len() - i,
    {
        if same_text(perms[i].as_str(), token) {
            proof {
                assert(texts(perms@)[i as int] == token@);
            }
            return true;
        }
        i = i + 1;
    }
    false
}

fn first_unknown(perms: &Vec<String>) -> (r: Option<String>)
    ensures
        match r {
            Some(token) => unknown_permission(texts(perms@)) == Some(token@),
            None => unknown_permission(texts(perms@)) is None,
        },
{
    let ghost all = texts(perms@);
    let mut i: usize = 0;
    while i < perms.len()
        invariant
            i <= perms@.len(),
            all == texts(perms@),
            unknown_permission(all.take(i as int)) is None,
        decreases perms@.len() - i,
    {
        let token = perms[i].as_str();
        proof {
            assert(all.take(i + 1).drop_last() =~= all.take(i as int));
            assert(all.take(i + 1).last() == token@);
        }
        if !same_text(token, "status") && !same_text(token, "send") && !same_text(
            token,
            "control",
        ) && !same_text(token, "ptt") && !same_text(token, "config_write") {
            proof {
                lemma_unknown_stays(all, i + 1);
            }
            return Some(token.to_owned());
        }
        i = i + 1;
    }
    proof {
        assert(all.take(i as int) =~= all);
    }
    None
}

proof fn lemma_unknown_stays(tokens: Seq<Seq<char>>, n: int)
    requires
        0 <= n <= tokens.len(),
        unknown_permission(tokens.take(n)) is Some,
    ensures
        unknown_permission(tokens) == unknown_permission(tokens.take(n)),
    decreases tokens.len() - n,
{
    if n < tokens.len() {
        assert(tokens.take(n + 1).drop_last() =~= tokens.take(n));
        lemma_unknown_stays(tokens, n + 1);
    } else {
        assert(tokens.take(n) =~= tokens);
    }
}

/// Validate one keyer endpoint on its own.
///
/// # Errors
///
/// Returns the endpoint's first problem.
pub fn validate_winkeyer_endpoint(endpoint: &WinkeyerEndpointConfig) -> (r: Result<
    (),
    ConfigError,
>)
    ensures
        reports(r, keyer_endpoint_problem(*endpoint)),
{
    let name = endpoint.name.as_str();
    let start = "winkeyer endpoint '";
    if endpoint.virtual_endpoint.is_none() && is_empty_text(
        trim(endpoint.transport.as_str()).as_str(),
    ) {
        return Err(ConfigError::Invalid(quoted(start, name, "' requires transport")));
    }
    if endpoint.baud != 1_200 {
        return Err(ConfigError::Invalid(quoted(start, name, "' baud must be 1200")));
    }
    if is_same_port(endpoint.transport.as_str(), &endpoint.application_transport) {
        return Err(
            ConfigError::Invalid(
                quoted(start, name, "' application_transport must differ from transport"),
            ),
        );
    }
    if let Some(token) = first_unknown(&endpoint.perms) {
        let mut why = quoted(start, name, "' has unknown permission '");
        why.append(token.as_str());
        why.append("'");
        return Err(ConfigError::Invalid(why));
    }
    let status: bool = has(&endpoint.perms, "status");
    let send: bool = has(&endpoint.perms, "send");
    let control: bool = has(&endpoint.perms, "control");
    if send && !status {
        return Err(
            ConfigError::Invalid(quoted(start, name, "' permission 'send' requires 'status'")),
        );
    }
    if has(&endpoint.perms, "ptt") && (!send || !control) {
        return Err(
            ConfigError::Invalid(
                quoted(start, name, "' permission 'ptt' requires 'send' and 'control'"),
            ),
        );
    }
    if has(&endpoint.perms, "config_write") && (!status || !control) {
        return Err(
            ConfigError::Invalid(
                quoted(start, name, "' permission 'config_write' requires 'status' and 'control'"),
            ),
        );
    }
    Ok(())
}

fn has_two_primaries(endpoints: &Vec<WinkeyerEndpointConfig>) -> (r: bool)
    ensures
        r == two_primaries(endpoints@),
{
    let mut seen: bool = false;
    let ghost mut at: int = 0;
    let mut i: usize = 0;
    while i < endpoints.len()
        invariant
            i <= endpoints@.len(),
            seen ==> 0 <= at < i && endpoints@[at].primary,
            forall|j: int| 0 <= j < i && (#[trigger] endpoints@[j]).primary ==> seen && j == at,
        decreases endpoints@.len() - i,
    {
        if endpoints[i].primary {
            if seen {
                proof {
                    assert(endpoints@[at].primary && endpoints@[i as int].primary);
                }
                return true;
            }
            seen = true;
            proof {
                at = i as int;
            }
        }
        i = i + 1;
    }
    false
}

fn is_repeated(endpoints: &Vec<WinkeyerEndpointConfig>, n: usize) -> (r: bool)
    requires
        0 < n <= endpoints@.len(),
    ensures
        r == repeats_transport(endpoints@.take(n as int)),
{
    let ghost some = endpoints@.take(n as int);
    let last = &endpoints[n - 1];
    if last.virtual_endpoint.is_some() {
        return false;
    }
    let mut i: usize = 0;
    while i < n - 1
        invariant
            i <= n - 1,
            0 < n <= endpoints@.len(),
            some == endpoints@.take(n as int),
            *last == some.last(),
            last.virtual_endpoint is None,
            forall|j: int| 0 <= j < i ==> !share_port(#[trigger] some[j], *last),
        decreases n - i,
    {
        if endpoints[i].virtual_endpoint.is_none() && eq_ignore_ascii_case(
            endpoints[i].transport.as_str(),
            last.transport.as_str(),
        ) {
            proof {
                assert(share_port(some[i as int], *last));
            }
            return true;
        }
        i = i + 1;
    }
    false
}

impl Config {
    /// Validate semantic constraints not captured by the type system. `bind` says what the
    /// keyer's API address is; without a keyer it does not matter.
    ///
    /// # Errors
    ///
    /// Returns the first problem found.
    pub fn validate(&self, bind: ApiBind) -> (r: Result<(), ConfigError>)
        ensures
            reports(r, config_problem(*self, bind)),
    {
        if let Err(e) = validate_radio(&self.radio) {
            return Err(e);
        }
        let mut i: usize = 0;
        while i < self.serial_endpoint.len()
            invariant
                i <= self.serial_endpoint@.len(),
                radio_problem(self.radio) is None,
                serial_problems(self.serial_endpoint@.take(i as int)) is None,
            decreases self.serial_endpoint@.len() - i,
        {
            proof {
                let all = self.serial_endpoint@;
                assert(all.take(i + 1).drop_last() =~= all.take(i as int));
                assert(all.take(i + 1).last() == all[i as int]);
            }
            if let Err(e) = validate_serial_endpoint(&self.serial_endpoint[i]) {
                proof {
                    lemma_serial_problem_stays(self.serial_endpoint@, i + 1);
                }
                return Err(e);
            }
            i = i + 1;
        }
        proof {
            assert(self.serial_endpoint@.take(i as int) =~= self.serial_endpoint@);
        }
        if self.serial_endpoint.len() == 0 && self.hamlib_net.len() == 0 {
            return invalid(
                "at least one [[serial_endpoint]] or [[hamlib_net]] endpoint is required",
            );
        }
        self.validate_winkeyer(bind)
    }

    fn validate_winkeyer(&self, bind: ApiBind) -> (r: Result<(), ConfigError>)
        ensures
            reports(r, winkeyer_problem(*self, bind)),
    {
        let keyer = match &self.winkeyer {
            Some(keyer) => keyer,
            None => {
                if self.winkeyer_endpoint.len() > 0 {
                    return invalid(
                        "[[winkeyer_endpoint]] requires a [winkeyer] physical device section",
                    );
                }
                return Ok(());
            },
        };
        if is_empty_text(trim(keyer.port.as_str()).as_str()) {
            return invalid("winkeyer.port must not be empty");
        }
        if keyer.baud != 1_200 {
            return invalid(
                "winkeyer.baud must be 1200; high-baud session switching is not broker-safe",
            );
        }
        if keyer.max_tx_ms < 1_000 || keyer.max_tx_ms > 300_000 {
            return invalid("winkeyer.max_tx_ms must be between 1000 and 300000");
        }
        match bind {
            ApiBind::Malformed => {
                return invalid("winkeyer.api_bind must be a host:port socket address");
            },
            ApiBind::Routable => {
                return invalid("winkeyer.api_bind must use a loopback address");
            },
            ApiBind::Loopback => {},
        }
        if eq_ignore_ascii_case(keyer.port.as_str(), self.radio.port.as_str()) {
            return invalid("winkeyer.port must be distinct from radio.port");
        }
        if has_two_primaries(&self.winkeyer_endpoint) {
            return invalid("at most one [[winkeyer_endpoint]] may set primary = true");
        }
        let mut i: usize = 0;
        while i < self.winkeyer_endpoint.len()
            invariant
                i <= self.winkeyer_endpoint@.len(),
                self.winkeyer == Some(*keyer),
                keyer_problem(*keyer, bind, self.radio.port@) is None,
                !two_primaries(self.winkeyer_endpoint@),
                keyer_endpoint_problems(self.winkeyer_endpoint@.take(i as int)) is None,
            decreases self.winkeyer_endpoint@.len() - i,
        {
            proof {
                let all = self.winkeyer_endpoint@;
                assert(all.take(i + 1).drop_last() =~= all.take(i as int));
                assert(all.take(i + 1).last() == all[i as int]);
            }
            if let Err(e) = validate_winkeyer_endpoint(&self.winkeyer_endpoint[i]) {
                proof {
                    lemma_keyer_problem_stays(self.winkeyer_endpoint@, i + 1);
                }
                return Err(e);
            }
            if is_repeated(&self.winkeyer_endpoint, i + 1) {
                proof {
                    lemma_keyer_problem_stays(self.winkeyer_endpoint@, i + 1);
                }
                return invalid("winkeyer endpoint transports must be distinct");
            }
            i = i + 1;
        }
        proof {
            assert(self.winkeyer_endpoint@.take(i as int) =~= self.winkeyer_endpoint@);
        }
        Ok(())
    }
}

proof fn lemma_serial_problem_stays(endpoints: Seq<SerialEndpointConfig>, n: int)
    requires
        0 <= n <= endpoints.len(),
        serial_problems(endpoints.take(n)) is Some,
    ensures
        serial_problems(endpoints) == serial_problems(endpoints.take(n)),
    decreases endpoints.len() - n,
{
    if n < endpoints.len() {
        assert(endpoints.take(n + 1).drop_last() =~= endpoints.take(n));
        lemma_serial_problem_stays(endpoints, n + 1);
    } else {
        assert(endpoints.take(n) =~= endpoints);
    }
}

proof fn lemma_keyer_problem_stays(endpoints: Seq<WinkeyerEndpointConfig>, n: int)
    requires
        0 <= n <= endpoints.len(),
        keyer_endpoint_problems(endpoints.take(n)) is Some,
    ensures
        keyer_endpoint_problems(endpoints) == keyer_endpoint_problems(endpoints.take(n)),
    decreases endpoints.len() - n,
{
    if n < endpoints.len() {
        assert(endpoints.take(n + 1).drop_last() =~= endpoints.take(n));
        lemma_keyer_problem_stays(endpoints, n + 1);
    } else {
        assert(endpoints.take(n) =~= endpoints);
    }
}

/// A configuration is valid only if each of its serial endpoints is.
pub proof fn law_valid_endpoints(config: Config, bind: ApiBind, i: int)
    requires
        config_problem(config, bind) is None,
        0 <= i < config.serial_endpoint@.len(),
    ensures
        serial_problem(config.serial_endpoint@[i]) is None,
{
    let all = config.serial_endpoint@;
    assert(all.take(i + 1).drop_last() =~= all.take(i));
    if serial_problem(all[i]) is Some {
        lemma_serial_problem_stays(all, i + 1);
    }
}

/// In a valid configuration no two keyer endpoints share a port, and each is valid.
pub proof fn law_valid_keyer_endpoints(config: Config, bind: ApiBind, i: int, j: int)
    requires
        config_problem(config, bind) is None,
        0 <= i < j < config.winkeyer_endpoint@.len(),
    ensures
        !share_port(config.winkeyer_endpoint@[i], config.winkeyer_endpoint@[j]),
        keyer_endpoint_problem(config.winkeyer_endpoint@[i]) is None,
        keyer_endpoint_problem(config.winkeyer_endpoint@[j]) is None,
        !(config.winkeyer_endpoint@[i].primary && config.winkeyer_endpoint@[j].primary),
{
    let all = config.winkeyer_endpoint@;
    assert(all.take(i + 1).drop_last() =~= all.take(i));
    assert(all.take(j + 1).drop_last() =~= all.take(j));
    assert(all.take(i + 1).last() == all[i]);
    assert(all.take(j + 1).last() == all[j]);
    if keyer_endpoint_problems(all.take(i + 1)) is Some {
        lemma_keyer_problem_stays(all, i + 1);
    }
    if keyer_endpoint_problems(all.take(j + 1)) is Some {
        lemma_keyer_problem_stays(all, j + 1);
    }
    assert(all.take(j + 1)[i] == all[i]);
}

proof fn lemma_serial_problems(endpoints: Seq<SerialEndpointConfig>)
    ensures
        serial_problems(endpoints) is None <==> forall|i: int|
            0 <= i < endpoints.len() ==> serial_problem(#[trigger] endpoints[i]) is None,
    decreases endpoints.len(),
{
    if endpoints.len() > 0 {
        let earlier = endpoints.drop_last();
        lemma_serial_problems(earlier);
        assert forall|i: int| 0 <= i < earlier.len() implies earlier[i] == #[trigger] endpoints[i] by {}
        if serial_problems(endpoints) is None {
            assert forall|i: int| 0 <= i < endpoints.len() implies serial_problem(
                #[trigger] endpoints[i],
            ) is None by {
                if i < earlier.len() {
                    assert(serial_problem(earlier[i]) is None);
                }
            }
        } else if serial_problems(earlier) is Some {
            let i = choose|i: int|
                0 <= i < earlier.len() && serial_problem(#[trigger] earlier[i]) is Some;
            assert(serial_problem(endpoints[i]) is Some);
        } else {
            assert(serial_problem(endpoints[endpoints.len() - 1]) is Some);
        }
    }
}

/// Whether every endpoint is in order on its own and shares its port with none before it.
spec fn keyers_agree(endpoints: Seq<WinkeyerEndpointConfig>) -> bool {
    &&& forall|i: int|
        0 <= i < endpoints.len() ==> keyer_endpoint_problem(#[trigger] endpoints[i]) is None
    &&& forall|i: int, j: int|
        0 <= i < j < endpoints.len() ==> !#[trigger] share_port(endpoints[i], endpoints[j])
}

proof fn lemma_keyer_endpoint_problems(endpoints: Seq<WinkeyerEndpointConfig>)
    ensures
        keyer_endpoint_problems(endpoints) is None <==> keyers_agree(endpoints),
    decreases endpoints.len(),
{
    if endpoints.len() > 0 {
        let earlier = endpoints.drop_last();
        let last = endpoints.len() - 1;
        lemma_keyer_endpoint_problems(earlier);
        assert forall|i: int| 0 <= i < earlier.len() implies earlier[i] == #[trigger] endpoints[i] by {}
        if keyer_endpoint_problems(endpoints) is None {
            assert(keyers_agree(earlier));
            assert forall|i: int| 0 <= i < endpoints.len() implies keyer_endpoint_problem(
                #[trigger] endpoints[i],
            ) is None by {
                if i < last {
                    assert(keyer_endpoint_problem(earlier[i]) is None);
                }
            }
            assert forall|i: int, j: int| 0 <= i < j < endpoints.len() implies !#[trigger] share_port(
                endpoints[i],
                endpoints[j],
            ) by {
                if j < last {
                    assert(!share_port(earlier[i], earlier[j]));
                }
            }
        } else if keyers_agree(endpoints) {
            assert forall|i: int| 0 <= i < earlier.len() implies keyer_endpoint_problem(
                #[trigger] earlier[i],
            ) is None by {
                assert(keyer_endpoint_problem(endpoints[i]) is None);
            }
            assert forall|i: int, j: int| 0 <= i < j < earlier.len() implies !#[trigger] share_port(
                earlier[i],
                earlier[j],
            ) by {
                assert(!share_port(endpoints[i], endpoints[j]));
            }
            assert(keyers_agree(earlier));
            assert(keyer_endpoint_problem(endpoints[last]) is None);
            if repeats_transport(endpoints) {
                let i = choose|i: int|
                    0 <= i < endpoints.len() - 1 && share_port(
                        #[trigger] endpoints[i],
                        endpoints.last(),
                    );
                assert(share_port(endpoints[i], endpoints[last]));
            }
        }
    }
}

/// Whether an endpoint for applications that a serial port serves can be served.
pub open spec fn servable(endpoint: SerialEndpointConfig) -> bool {
    &&& endpoint.application_transport matches Some(port) ==> !same_ignoring_case(
        trimmed(port@),
        trimmed(endpoint.transport@),
    )
    &&& endpoint.dialect@ == "ts590"@ || endpoint.dialect@ == "ts2000"@ || (endpoint.dialect@
        == "ts590-transparent"@ && !endpoint.single_vfo)
}

/// Whether an endpoint for keying can be served: at 1200 baud, on a port of its own, with
/// permissions that exist and that bring along those they need.
pub open spec fn keyable(endpoint: WinkeyerEndpointConfig) -> bool {
    let perms = texts(endpoint.perms@);
    &&& endpoint.virtual_endpoint is Some || trimmed(endpoint.transport@).len() > 0
    &&& endpoint.baud == 1_200
    &&& endpoint.application_transport matches Some(port) ==> !same_ignoring_case(
        trimmed(port@),
        trimmed(endpoint.transport@),
    )
    &&& forall|i: int|
        0 <= i < perms.len() ==> (#[trigger] perms[i] == "status"@ || perms[i] == "send"@
            || perms[i] == "control"@ || perms[i] == "ptt"@ || perms[i] == "config_write"@)
    &&& perms.contains("send"@) ==> perms.contains("status"@)
    &&& perms.contains("ptt"@) ==> perms.contains("send"@) && perms.contains("control"@)
    &&& perms.contains("config_write"@) ==> perms.contains("status"@) && perms.contains("control"@)
}

proof fn lemma_unknown_permission(tokens: Seq<Seq<char>>)
    ensures
        unknown_permission(tokens) is None <==> forall|i: int|
            0 <= i < tokens.len() ==> keyer_permission(#[trigger] tokens[i]),
    decreases tokens.len(),
{
    if tokens.len() > 0 {
        let earlier = tokens.drop_last();
        lemma_unknown_permission(earlier);
        assert forall|i: int| 0 <= i < earlier.len() implies earlier[i] == #[trigger] tokens[i] by {}
        if unknown_permission(tokens) is None {
            assert forall|i: int| 0 <= i < tokens.len() implies keyer_permission(
                #[trigger] tokens[i],
            ) by {
                if i < earlier.len() {
                    assert(keyer_permission(earlier[i]));
                }
            }
        } else if unknown_permission(earlier) is Some {
            let i = choose|i: int| 0 <= i < earlier.len() && !keyer_permission(#[trigger] earlier[i]);
            assert(!keyer_permission(tokens[i]));
        } else {
            assert(!keyer_permission(tokens[tokens.len() - 1]));
        }
    }
}

proof fn lemma_keyable(endpoint: WinkeyerEndpointConfig)
    ensures
        keyer_endpoint_problem(endpoint) is None <==> keyable(endpoint),
{
    let perms = texts(endpoint.perms@);
    lemma_unknown_permission(perms);
    if keyable(endpoint) {
        assert forall|i: int| 0 <= i < perms.len() implies keyer_permission(#[trigger] perms[i]) by {
        }
    }
    if unknown_permission(perms) is None {
        assert forall|i: int| 0 <= i < perms.len() implies (#[trigger] perms[i] == "status"@
            || perms[i] == "send"@ || perms[i] == "control"@ || perms[i] == "ptt"@ || perms[i]
            == "config_write"@) by {
            assert(keyer_permission(perms[i]));
        }
    }
}

/// A configuration is accepted exactly when it can be served: a radio that is known and can be
/// reached, endpoints in order and at least one of them, and, where there is a keyer, a keyer on
/// a port of its own at 1200 baud with a time limit from one second to five minutes and an
/// address of this machine, at most one primary endpoint, and endpoints on ports of their own.
pub proof fn law_accepted_configurations(config: Config, bind: ApiBind)
    ensures
        config_problem(config, bind) is None <==> {
            let radio = config.radio;
            let keyers = config.winkeyer_endpoint@;
            &&& radio.backend@ == "loopback"@ || ((radio.backend@ == "ts590"@ || radio.backend@
                == "rigctld"@) && (radio.transport@ == "tcp"@ || (radio.transport@ == "serial"@
                && radio.port@.len() > 0)))
            &&& forall|i: int|
                0 <= i < config.serial_endpoint@.len() ==> servable(
                    #[trigger] config.serial_endpoint@[i],
                )
            &&& config.serial_endpoint@.len() + config.hamlib_net@.len() > 0
            &&& config.winkeyer is None ==> keyers.len() == 0
            &&& config.winkeyer matches Some(keyer) ==> {
                &&& trimmed(keyer.port@).len() > 0
                &&& keyer.baud == 1_200
                &&& 1_000 <= keyer.max_tx_ms <= 300_000
                &&& bind != ApiBind::Malformed && bind != ApiBind::Routable
                &&& !same_ignoring_case(keyer.port@, radio.port@)
                &&& forall|i: int| 0 <= i < keyers.len() ==> keyable(#[trigger] keyers[i])
                &&& forall|i: int, j: int|
                    #![trigger keyers[i], keyers[j]]
                    0 <= i < j < keyers.len() ==> !(keyers[i].primary && keyers[j].primary) && !(
                    keyers[i].virtual_endpoint is None && keyers[j].virtual_endpoint is None
                        && same_ignoring_case(keyers[i].transport@, keyers[j].transport@))
            }
        },
{
    let serials = config.serial_endpoint@;
    let keyers = config.winkeyer_endpoint@;
    reveal_strlit("ts590");
    reveal_strlit("ts590-transparent");
    reveal_strlit("ts2000");
    reveal_strlit("rigctld");
    reveal_strlit("loopback");
    reveal_strlit("serial");
    reveal_strlit("tcp");
    assert("ts590"@.len() == 5 && "ts590-transparent"@.len() == 17 && "ts2000"@.len() == 6);
    assert("rigctld"@.len() == 7 && "loopback"@.len() == 8 && "serial"@.len() == 6 && "tcp"@.len()
        == 3);
    lemma_serial_problems(serials);
    assert forall|i: int| 0 <= i < serials.len() implies (serial_problem(#[trigger] serials[i])
        is None <==> servable(serials[i])) by {}
    lemma_keyer_endpoint_problems(keyers);
    assert forall|i: int| 0 <= i < keyers.len() implies (keyer_endpoint_problem(
        #[trigger] keyers[i],
    ) is None <==> keyable(keyers[i])) by {
        lemma_keyable(keyers[i]);
    }
    if serial_problems(serials) is None {
        assert forall|i: int| 0 <= i < serials.len() implies servable(#[trigger] serials[i]) by {
            assert(serial_problem(serials[i]) is None);
        }
    } else {
        let i = choose|i: int|
            0 <= i < serials.len() && serial_problem(#[trigger] serials[i]) is Some;
        assert(!servable(serials[i]));
    }
    if keyers_agree(keyers) {
        assert forall|i: int| 0 <= i < keyers.len() implies keyable(#[trigger] keyers[i]) by {
            assert(keyer_endpoint_problem(keyers[i]) is None);
        }
        assert forall|i: int, j: int|
            #![trigger keyers[i], keyers[j]]
            0 <= i < j < keyers.len() implies !(keyers[i].virtual_endpoint is None
            && keyers[j].virtual_endpoint is None && same_ignoring_case(
            keyers[i].transport@,
            keyers[j].transport@,
        )) by {
            assert(!share_port(keyers[i], keyers[j]));
        }
    } else if exists|i: int|
        0 <= i < keyers.len() && keyer_endpoint_problem(#[trigger] keyers[i]) is Some {
        let i = choose|i: int|
            0 <= i < keyers.len() && keyer_endpoint_problem(#[trigger] keyers[i]) is Some;
        assert(!keyable(keyers[i]));
    } else {
        let (i, j) = choose|i: int, j: int|
            0 <= i < j < keyers.len() && #[trigger] share_port(keyers[i], keyers[j]);
        assert(share_port(keyers[i], keyers[j]));
    }
    if two_primaries(keyers) {
        let (i, j) = choose|i: int, j: int|
            0 <= i < j < keyers.len() && (#[trigger] keyers[i]).primary && (
            #[trigger] keyers[j]).primary;
        assert(keyers[i].primary && keyers[j].primary);
    }
}

/// What is wrong with an endpoint for keying is said in terms of it: its name, and what it lacks
/// or what it may not have.
pub proof fn law_keying_complaints(endpoint: WinkeyerEndpointConfig)
    ensures
        ({
            let named = "winkeyer endpoint '"@ + endpoint.name@;
            let perms = texts(endpoint.perms@);
            let problem = keyer_endpoint_problem(endpoint);
            let placed = endpoint.virtual_endpoint is Some || trimmed(endpoint.transport@).len()
                > 0;
            let apart = !same_port(endpoint.transport@, endpoint.application_transport);
            let usual = placed && endpoint.baud == 1_200 && apart;
            let known = unknown_permission(perms) is None;
            &&& !placed ==> problem == Some(named + "' requires transport"@)
            &&& placed && endpoint.baud != 1_200 ==> problem == Some(
                named + "' baud must be 1200"@,
            )
            &&& placed && endpoint.baud == 1_200 && !apart ==> problem == Some(
                named + "' application_transport must differ from transport"@,
            )
            &&& usual && known && perms.contains("send"@) && !perms.contains("status"@) ==> problem
                == Some(named + "' permission 'send' requires 'status'"@)
            &&& usual && known && perms.contains("status"@) && perms.contains("ptt"@)
                && !perms.contains("control"@) ==> problem == Some(
                named + "' permission 'ptt' requires 'send' and 'control'"@,
            )
            &&& usual && known && !perms.contains("ptt"@) && !perms.contains("send"@)
                && perms.contains("config_write"@) && !perms.contains("control"@) ==> problem
                == Some(named + "' permission 'config_write' requires 'status' and 'control'"@)
        }),
{
}

} // verus!
