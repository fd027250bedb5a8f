//! Bringing the hub up and down: which backend, transport and dialects a configuration asks
//! for, which sessions it opens, and when the transmitter is released.

use vstd::prelude::*;

use crate::backend::kenwood::ts590::Ts590Backend;
use crate::backend::loopback::fresh_log;
use crate::backend::loopback::LoopbackBackend;
use crate::backend::rigctld::RigctldBackend;
use crate::backend::BackendCapabilities;
use crate::config::validate::config_problem;
use crate::config::validate::law_valid_endpoints;
use crate::config::validate::ApiBind;
use crate::config::Config;
use crate::config::HamlibNetConfig;
use crate::config::RadioConfig;
use crate::config::SerialEndpointConfig;
use crate::dialect::client::ClientDialect;
use crate::dialect::kenwood::transparent::TransparentTs590Dialect;
use crate::dialect::kenwood::ts2000::Ts2000Dialect;
use crate::dialect::kenwood::ts590::Ts590Dialect;
use crate::dialect::release_of;
use crate::dialect::Release;
use crate::dialect::ClientSessionContext;
use crate::error::CatHubError;
use crate::events::POLLER_SESSION;
use crate::kenwood::TERMINATOR;
use crate::permissions::EndpointPermissions;
use crate::ptt::PttManager;
use crate::radio::operation::Backend;
use crate::serial_face::SerialFace;
use crate::text::same_text;
use crate::text::texts;

verus! {

/// How often the watchdog looks at the transmitter, in milliseconds.
pub const WATCHDOG_INTERVAL_MS: u64 = 500;

/// How long the first poll may take before the endpoints are served anyway, in milliseconds.
pub const PRIME_TIMEOUT_MS: u64 = 1_000;

/// How long unkeying may take at shutdown, in milliseconds.
pub const SHUTDOWN_TIMEOUT_MS: u64 = 500;

/// Whether a failure is one of the backend, in these words.
pub open spec fn backend_failure(e: CatHubError, why: Seq<char>) -> bool {
    e matches CatHubError::Backend(words) && words@ == why
}

fn unknown(what: &str, name: &str) -> (r: CatHubError)
    ensures
        backend_failure(r, what@ + name@ + "'"@),
{
    let mut why = what.to_owned();
    why.append(name);
    why.append("'");
    CatHubError::Backend(why)
}

/// Build the configured radio backend.
///
/// # Errors
///
/// Returns an error if the configuration names no known backend.
pub fn build_backend(config: &Config) -> (r: Result<Backend, CatHubError>)
    ensures
        match r {
            Ok(Backend::Ts590(_)) => config.radio.backend@ == "ts590"@,
            Ok(Backend::Rigctld(bridge)) => config.radio.backend@ != "ts590"@
                && config.radio.backend@ == "rigctld"@ && bridge.model() == config.radio.model@
                && bridge.certified() == config.radio.certified,
            Ok(Backend::Loopback(radio)) => config.radio.backend@ != "ts590"@
                && config.radio.backend@ != "rigctld"@ && config.radio.backend@ == "loopback"@
                && radio@ == fresh_log(),
            Err(e) => config.radio.backend@ != "ts590"@ && config.radio.backend@ != "rigctld"@
                && config.radio.backend@ != "loopback"@ && backend_failure(
                e,
                "unknown backend '"@ + config.radio.backend@ + "'"@,
            ),
        },
{
    let name = config.radio.backend.as_str();
    if same_text(name, "ts590") {
        Ok(Backend::Ts590(Ts590Backend::new()))
    } else if same_text(name, "rigctld") {
        Ok(
            Backend::Rigctld(
                RigctldBackend::new(config.radio.model.as_str(), config.radio.certified),
            ),
        )
    } else if same_text(name, "loopback") {
        Ok(Backend::Loopback(LoopbackBackend::new()))
    } else {
        Err(unknown("unknown backend '", name))
    }
}

/// The dialect that a name selects.
pub open spec fn dialect_named(name: Seq<char>) -> Option<ClientDialect> {
    if name == "ts590"@ {
        Some(ClientDialect::Ts590(Ts590Dialect))
    } else if name == "ts590-transparent"@ {
        Some(ClientDialect::Transparent(TransparentTs590Dialect))
    } else if name == "ts2000"@ {
        Some(ClientDialect::Ts2000(Ts2000Dialect))
    } else {
        None
    }
}

/// Build a client dialect by name.
///
/// # Errors
///
/// Returns an error if the name is no known dialect.
pub fn dialect_for(name: &str) -> (r: Result<ClientDialect, CatHubError>)
    ensures
        match r {
            Ok(dialect) => dialect_named(name@) == Some(dialect),
            Err(e) => dialect_named(name@) is None && backend_failure(
                e,
                "unknown dialect '"@ + name@ + "'"@,
            ),
        },
{
    if same_text(name, "ts590") {
        Ok(ClientDialect::Ts590(Ts590Dialect::new()))
    } else if same_text(name, "ts590-transparent") {
        Ok(ClientDialect::Transparent(TransparentTs590Dialect::new()))
    } else if same_text(name, "ts2000") {
        Ok(ClientDialect::Ts2000(Ts2000Dialect::new()))
    } else {
        Err(unknown("unknown dialect '", name))
    }
}

/// How the radio is reached.
#[derive(Debug, Clone, Copy, PartialEq, Eq, Structural)]
pub enum TransportKind {
    /// A real serial port.
    Serial,
    /// A TCP socket (for a `tcp` transport or rigctld bridge endpoint).
    Tcp,
}

/// How the radio of a section is reached.
///
/// # Errors
///
/// Returns an error if the section names no known transport.
pub fn open_transport(radio: &RadioConfig) -> (r: Result<TransportKind, CatHubError>)
    ensures
        match r {
            Ok(TransportKind::Serial) => radio.transport@ == "serial"@,
            Ok(TransportKind::Tcp) => radio.transport@ != "serial"@ && radio.transport@ == "tcp"@,
            Err(e) => radio.transport@ != "serial"@ && radio.transport@ != "tcp"@
                && backend_failure(e, "unknown radio.transport '"@ + radio.transport@ + "'"@),
        },
{
    let name = radio.transport.as_str();
    if same_text(name, "serial") {
        Ok(TransportKind::Serial)
    } else if same_text(name, "tcp") {
        Ok(TransportKind::Tcp)
    } else {
        Err(unknown("unknown radio.transport '", name))
    }
}

/// Whether native push is in play: the operator enabled it and the backend has a push command.
#[must_use]
pub fn native_push_active(config: &Config, backend: &Backend) -> (r: bool)
    ensures
        r == (config.radio.backend@ != "loopback"@ && config.events.native_push && *backend
            is Ts590),
{
    !same_text(config.radio.backend.as_str(), "loopback") && config.events.native_push
        && backend.native_push_enable().is_some()
}

/// How many keyer endpoints are served: none without a keyer.
pub open spec fn keyer_sessions(config: Config) -> nat {
    if config.winkeyer is Some {
        config.winkeyer_endpoint@.len()
    } else {
        0
    }
}

/// How many sessions a configuration opens at startup.
pub open spec fn session_count(config: Config) -> nat {
    keyer_sessions(config) + config.serial_endpoint@.len() + config.hamlib_net@.len()
}

/// The sessions that are opened at startup.
#[derive(Debug)]
pub struct SessionPlan {
    /// The ids of the keyer endpoints.
    pub keyer_ids: Vec<u64>,
    /// The sessions of the serial endpoints.
    pub faces: Vec<SerialFace>,
    /// The contexts that the connections of the Hamlib net listeners are made from.
    pub listeners: Vec<ClientSessionContext>,
    /// The id of the first connection.
    pub next_id: u64,
}

/// The context of a session.
pub open spec fn planned_context(
    id: int,
    perms: Seq<String>,
    caps: BackendCapabilities,
    single_vfo: bool,
) -> ClientSessionContext {
    ClientSessionContext {
        session_id: id as u64,
        perms: EndpointPermissions::granted(texts(perms)),
        caps,
        ai: false,
        single_vfo,
    }
}

/// Whether a session is the one planned for a serial endpoint.
pub open spec fn planned_face(
    face: SerialFace,
    id: int,
    endpoint: SerialEndpointConfig,
    caps: BackendCapabilities,
) -> bool {
    &&& Some(face.dialect) == dialect_named(endpoint.dialect@)
    &&& face.ctx == planned_context(id, endpoint.perms@, caps, endpoint.single_vfo)
    &&& face.requests.wf()
    &&& face.requests.delim() == TERMINATOR
    &&& face.requests.partial() == Seq::<u8>::empty()
}

/// Whether a plan is the one for a configuration: the sessions are numbered from 1 on, the
/// keyer endpoints first, then the serial endpoints, then the listeners.
pub open spec fn planned(config: Config, caps: BackendCapabilities, plan: SessionPlan) -> bool {
    let keyers = keyer_sessions(config) as int;
    let serials = config.serial_endpoint@.len() as int;
    &&& plan.keyer_ids@ == Seq::new(keyers as nat, |i: int| (1 + i) as u64)
    &&& plan.faces@.len() == serials
    &&& forall|i: int|
        0 <= i < serials ==> planned_face(
            #[trigger] plan.faces@[i],
            1 + keyers + i,
            config.serial_endpoint@[i],
            caps,
        )
    &&& plan.listeners@.len() == config.hamlib_net@.len()
    &&& forall|i: int|
        0 <= i < config.hamlib_net@.len() ==> #[trigger] plan.listeners@[i] == planned_context(
            1 + keyers + serials + i,
            config.hamlib_net@[i].perms@,
            caps,
            config.hamlib_net@[i].single_vfo,
        )
    &&& plan.next_id == 1 + session_count(config)
}

/// Whether the serial endpoint `i` is the first one whose dialect is unknown.
pub open spec fn first_unknown_dialect(config: Config, i: int) -> bool {
    &&& 0 <= i < config.serial_endpoint@.len()
    &&& dialect_named(config.serial_endpoint@[i].dialect@) is None
    &&& forall|j: int|
        0 <= j < i ==> dialect_named((#[trigger] config.serial_endpoint@[j]).dialect@) is Some
}

fn listener_contexts(
    endpoints: &Vec<HamlibNetConfig>,
    first: u64,
    caps: &BackendCapabilities,
) -> (r: Vec<ClientSessionContext>)
    requires
        first + endpoints@.len() <= u64::MAX,
    ensures
        r@.len() == endpoints@.len(),
        forall|i: int|
            0 <= i < endpoints@.len() ==> #[trigger] r@[i] == planned_context(
                first + i,
                endpoints@[i].perms@,
                *caps,
                endpoints@[i].single_vfo,
            ),
{
    let mut listeners: Vec<ClientSessionContext> = Vec::new();
    let mut i: usize = 0;
    while i < endpoints.len()
        invariant
            i <= endpoints@.len(),
            first + endpoints@.len() <= u64::MAX,
            listeners@.len() == i,
            forall|j: int|
                0 <= j < i ==> #[trigger] listeners@[j] == planned_context(
                    first + j,
                    endpoints@[j].perms@,
                    *caps,
                    endpoints@[j].single_vfo,
                ),
        decreases endpoints@.len() - i,
    {
        let ctx = ClientSessionContext::new(
            first + i as u64,
            endpoints[i].permissions(),
            caps.duplicate(),
        );
        listeners.push(ctx.with_single_vfo(endpoints[i].single_vfo));
        i = i + 1;
    }
    listeners
}

/// Plan the sessions of a configuration.
///
/// # Errors
///
/// Returns an error for the first serial endpoint whose dialect is unknown.
pub fn plan_sessions(config: &Config, caps: &BackendCapabilities) -> (r: Result<
    SessionPlan,
    CatHubError,
>)
    requires
        session_count(*config) < u64::MAX,
    ensures
        match r {
            Ok(plan) => planned(*config, *caps, plan),
            Err(e) => exists|i: int| #[trigger]
                first_unknown_dialect(*config, i) && backend_failure(
                    e,
                    "unknown dialect '"@ + config.serial_endpoint@[i].dialect@ + "'"@,
                ),
        },
{
    let mut keyer_ids: Vec<u64> = Vec::new();
    let mut next_id: u64 = 1;
    if config.winkeyer.is_some() {
        let mut k: usize = 0;
        while k < config.winkeyer_endpoint.len()
            invariant
                k <= config.winkeyer_endpoint@.len(),
                config.winkeyer is Some,
                session_count(*config) < u64::MAX,
                next_id == 1 + k,
                keyer_ids@ == Seq::new(k as nat, |i: int| (1 + i) as u64),
            decreases config.winkeyer_endpoint@.len() - k,
        {
            keyer_ids.push(next_id);
            proof {
                assert(keyer_ids@ =~= Seq::new((k + 1) as nat, |i: int| (1 + i) as u64));
            }
            next_id = next_id + 1;
            k = k + 1;
        }
    }
    let ghost keyers = keyer_sessions(*config) as int;
    proof {
        assert(keyer_ids@ =~= Seq::new(keyers as nat, |i: int| (1 + i) as u64));
    }
    let mut faces: Vec<SerialFace> = Vec::new();
    let mut i: usize = 0;
    while i < config.serial_endpoint.len()
        invariant
            i <= config.serial_endpoint@.len(),
            keyers == keyer_sessions(*config),
            session_count(*config) < u64::MAX,
            next_id == 1 + keyers + i,
            faces@.len() == i,
            forall|j: int|
                0 <= j < i ==> planned_face(
                    #[trigger] faces@[j],
                    1 + keyers + j,
                    config.serial_endpoint@[j],
                    *caps,
                ),
        decreases config.serial_endpoint@.len() - i,
    {
        let endpoint = &config.serial_endpoint[i];
        let dialect = match dialect_for(endpoint.dialect.as_str()) {
            Ok(dialect) => dialect,
            Err(e) => {
                proof {
                    assert forall|j: int| 0 <= j < i implies dialect_named(
                        (#[trigger] config.serial_endpoint@[j]).dialect@,
                    ) is Some by {
                        assert(planned_face(
                            faces@[j],
                            1 + keyers + j,
                            config.serial_endpoint@[j],
                            *caps,
                        ));
                    }
                    assert(first_unknown_dialect(*config, i as int));
                }
                return Err(e);
            },
        };
        let ctx = ClientSessionContext::new(next_id, endpoint.permissions(), caps.duplicate());
        let ctx = ctx.with_single_vfo(endpoint.single_vfo);
        faces.push(SerialFace::new(dialect, ctx, TERMINATOR));
        next_id = next_id + 1;
        i = i + 1;
    }
    let listeners = listener_contexts(&config.hamlib_net, next_id, caps);
    next_id = next_id + config.hamlib_net.len() as u64;
    Ok(SessionPlan { keyer_ids, faces, listeners, next_id })
}

/// Unkey a transmitter that exceeded the configured ceiling: the release of its lease, where
/// there is one to release. The radio is unkeyed first, then the lease goes, so the ceiling is
/// a real stuck-transmitter backstop and the lease is never freed while the radio is still
/// keyed.
#[must_use]
pub fn watchdog(ptt: &PttManager, now_ms: u64) -> (r: Option<Release>)
    ensures
        r == match ptt@.overdue(now_ms) {
            Some(owner) => Some(release_of(owner)),
            None => None::<Release>,
        },
{
    match ptt.expired_owner(now_ms) {
        Some(owner) => Some(Release::new(owner)),
        None => None,
    }
}

/// Never leave the transmitter keyed at an orderly stop: the release of the lease, where it is
/// held.
#[must_use]
pub fn release_on_shutdown(ptt: &PttManager) -> (r: Option<Release>)
    ensures
        r == match ptt@.owner() {
            Some(owner) => Some(release_of(owner)),
            None => None::<Release>,
        },
{
    match ptt.owner() {
        Some(owner) => Some(Release::new(owner)),
        None => None,
    }
}

/// A valid configuration starts: its backend and dialects are known, and so is its transport
/// unless the backend needs none.
pub proof fn law_valid_configurations_start(config: Config, bind: ApiBind)
    requires
        config_problem(config, bind) is None,
    ensures
        config.radio.backend@ == "ts590"@ || config.radio.backend@ == "rigctld"@
            || config.radio.backend@ == "loopback"@,
        config.radio.backend@ != "loopback"@ ==> config.radio.transport@ == "serial"@
            || config.radio.transport@ == "tcp"@,
        forall|i: int| !#[trigger] first_unknown_dialect(config, i),
        config.serial_endpoint@.len() > 0 || config.hamlib_net@.len() > 0,
{
    assert forall|i: int| !#[trigger] first_unknown_dialect(config, i) by {
        if first_unknown_dialect(config, i) {
            law_valid_endpoints(config, bind, i);
        }
    }
}

/// Every session has an id of its own, and none has that of the poller.
pub proof fn law_session_ids_are_distinct(
    config: Config,
    caps: BackendCapabilities,
    plan: SessionPlan,
)
    requires
        planned(config, caps, plan),
        session_count(config) < u64::MAX,
    ensures
        forall|i: int|
            0 <= i < plan.keyer_ids@.len() ==> POLLER_SESSION < #[trigger] plan.keyer_ids@[i]
                < plan.next_id,
        forall|i: int, j: int|
            0 <= i < j < plan.keyer_ids@.len() ==> #[trigger] plan.keyer_ids@[i]
                != #[trigger] plan.keyer_ids@[j],
        forall|i: int, j: int|
            0 <= i < plan.keyer_ids@.len() && 0 <= j < plan.faces@.len()
                ==> #[trigger] plan.keyer_ids@[i] < (#[trigger] plan.faces@[j]).ctx.session_id,
        forall|i: int, j: int|
            0 <= i < j < plan.faces@.len() ==> (#[trigger] plan.faces@[i]).ctx.session_id < (
            #[trigger] plan.faces@[j]).ctx.session_id,
        forall|i: int|
            0 <= i < plan.faces@.len() ==> POLLER_SESSION < (
            #[trigger] plan.faces@[i]).ctx.session_id < plan.next_id,
        forall|i: int, j: int|
            0 <= i < plan.faces@.len() && 0 <= j < plan.listeners@.len() ==> (
            #[trigger] plan.faces@[i]).ctx.session_id < (
            #[trigger] plan.listeners@[j]).session_id,
        forall|i: int, j: int|
            0 <= i < j < plan.listeners@.len() ==> (#[trigger] plan.listeners@[i]).session_id < (
            #[trigger] plan.listeners@[j]).session_id,
        forall|i: int|
            0 <= i < plan.listeners@.len() ==> POLLER_SESSION < (
            #[trigger] plan.listeners@[i]).session_id < plan.next_id,
{
    let keyers = keyer_sessions(config) as int;
    assert forall|i: int| 0 <= i < plan.faces@.len() implies (
    #[trigger] plan.faces@[i]).ctx.session_id == 1 + keyers + i by {
        assert(planned_face(plan.faces@[i], 1 + keyers + i, config.serial_endpoint@[i], caps));
    }
}

/// The names of the dialects in a configuration.
pub proof fn law_dialect_names(name: Seq<char>)
    ensures
        dialect_named("ts590"@) == Some(ClientDialect::Ts590(Ts590Dialect)),
        dialect_named("ts590-transparent"@) == Some(
            ClientDialect::Transparent(TransparentTs590Dialect),
        ),
        dialect_named("ts2000"@) == Some(ClientDialect::Ts2000(Ts2000Dialect)),
        name != "ts590"@ && name != "ts590-transparent"@ && name != "ts2000"@ ==> dialect_named(
            name,
        ) is None,
{
    reveal_strlit("ts590");
    reveal_strlit("ts590-transparent");
    reveal_strlit("ts2000");
    assert("ts590"@.len() == 5 && "ts590-transparent"@.len() == 17 && "ts2000"@.len() == 6);
}

/// A session starts with auto-information off and with the permissions that its endpoint is
/// configured with.
pub proof fn law_sessions_start(
    id: int,
    perms: Seq<String>,
    caps: BackendCapabilities,
    single_vfo: bool,
)
    requires
        0 <= id <= u64::MAX,
    ensures
        ({
            let ctx = planned_context(id, perms, caps, single_vfo);
            &&& ctx.session_id == id
            &&& !ctx.ai
            &&& ctx.single_vfo == single_vfo
            &&& ctx.caps == caps
            &&& ctx.perms.ptt <==> texts(perms).contains("ptt"@)
            &&& ctx.perms.write <==> texts(perms).contains("write"@)
            &&& ctx.perms.read <==> texts(perms).contains("read"@)
        }),
{
}

/// The dialect that is reported as unknown is the first one of that kind, and one only; where none
/// is reported, every endpoint has a dialect.
pub proof fn law_one_unknown_dialect(config: Config, i: int, j: int)
    ensures
        first_unknown_dialect(config, i) && first_unknown_dialect(config, j) ==> i == j,
        first_unknown_dialect(config, i) ==> 0 <= i < config.serial_endpoint@.len()
            && dialect_named(config.serial_endpoint@[i].dialect@) is None,
        0 <= i < config.serial_endpoint@.len() && dialect_named(
            config.serial_endpoint@[i].dialect@,
        ) is None ==> exists|k: int| 0 <= k <= i && #[trigger] first_unknown_dialect(config, k),
    decreases i,
{
    let all = config.serial_endpoint@;
    if first_unknown_dialect(config, i) && first_unknown_dialect(config, j) {
        if i < j {
            assert(dialect_named(all[i].dialect@) is Some);
        } else if j < i {
            assert(dialect_named(all[j].dialect@) is Some);
        }
    }
    if 0 <= i < all.len() && dialect_named(all[i].dialect@) is None {
        if exists|e: int| 0 <= e < i && dialect_named((#[trigger] all[e]).dialect@) is None {
            let e = choose|e: int| 0 <= e < i && dialect_named((#[trigger] all[e]).dialect@) is None;
            law_one_unknown_dialect(config, e, e);
        } else {
            assert(first_unknown_dialect(config, i));
        }
    }
}

/// Every endpoint gets a session, those for keying only where there is a keyer, numbered from one
/// on: first the keying ones, then the serial ones, then the listeners.
pub proof fn law_every_endpoint_gets_a_session(
    config: Config,
    caps: BackendCapabilities,
    plan: SessionPlan,
    i: int,
)
    requires
        planned(config, caps, plan),
        session_count(config) < u64::MAX,
    ensures
        ({
            let keyers = plan.keyer_ids@.len();
            let serials = plan.faces@.len();
            &&& config.winkeyer is None ==> keyers == 0
            &&& config.winkeyer is Some ==> keyers == config.winkeyer_endpoint@.len()
            &&& serials == config.serial_endpoint@.len()
            &&& plan.listeners@.len() == config.hamlib_net@.len()
            &&& plan.next_id == 1 + keyers + serials + plan.listeners@.len()
            &&& 0 <= i < keyers ==> plan.keyer_ids@[i] == 1 + i
            &&& 0 <= i < serials ==> plan.faces@[i].ctx.session_id == 1 + keyers + i
                && plan.faces@[i].ctx.single_vfo == config.serial_endpoint@[i].single_vfo
            &&& 0 <= i < plan.listeners@.len() ==> plan.listeners@[i].session_id == 1 + keyers
                + serials + i && plan.listeners@[i].single_vfo == config.hamlib_net@[i].single_vfo
        }),
{
    let keyers = keyer_sessions(config) as int;
    if 0 <= i < plan.faces@.len() {
        assert(planned_face(plan.faces@[i], 1 + keyers + i, config.serial_endpoint@[i], caps));
    }
}

} // verus!
