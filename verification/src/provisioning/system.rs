//! What is made of the devices and port reservations of a system.

use vstd::prelude::*;

use crate::order::in_order;
use crate::order::indices;
use crate::order::is_before;
use crate::order::key_of_text;
use crate::order::key_seqs;
use crate::order::precedes;
use crate::order::sort_keys;
use crate::order::text_key;
use crate::provisioning::com_name;
use crate::provisioning::com_port_number;
use crate::provisioning::defined;
use crate::provisioning::defined_by_hardware;
use crate::provisioning::definition;
use crate::provisioning::definition_for_hardware_id;
use crate::provisioning::not_a_port;
use crate::provisioning::plan::claim_views;
use crate::provisioning::plan::installed_views;
use crate::provisioning::plan::Claim;
use crate::provisioning::plan::Installed;
use crate::provisioning::plan::InstalledEndpoint;
use crate::provisioning::plan::PortClaim;
use crate::provisioning::plan::SystemSnapshot;
use crate::provisioning::port_name;
use crate::provisioning::port_number;
use crate::provisioning::EndpointDefinition;
use crate::provisioning::MAX_COM_PORTS;
use crate::text::lowered;
use crate::text::same_text;
use crate::text::texts;
use crate::text::to_ascii_lowercase;
use crate::text::to_ascii_uppercase;
use crate::text::trim;
use crate::text::trimmed;

verus! {

/// Whether a bit of a bitmap is set.
pub open spec fn bit_set(bitmap: Seq<u8>, bit: int) -> bool {
    0 <= bit < bitmap.len() * 8 && bitmap[bit / 8] & (1u8 << ((bit % 8) as u8)) != 0
}

/// The port numbers up to `n` that a bitmap reserves: bit 0 stands for port 1.
pub open spec fn reserved_ports(bitmap: Seq<u8>, n: nat) -> Seq<u64>
    decreases n,
{
    if n == 0 {
        Seq::empty()
    } else {
        let earlier = reserved_ports(bitmap, (n - 1) as nat);
        if bit_set(bitmap, n - 1) {
            earlier.push(n as u64)
        } else {
            earlier
        }
    }
}

/// The COM port numbers that the arbiter's bitmap reserves.
#[must_use]
pub fn arbiter_claims(bitmap: &[u8]) -> (r: Vec<u64>)
    ensures
        r@ == reserved_ports(bitmap@, MAX_COM_PORTS as nat),
{
    let mut claims: Vec<u64> = Vec::new();
    let mut n: u64 = 0;
    while n < MAX_COM_PORTS
        invariant
            n <= MAX_COM_PORTS,
            claims@ == reserved_ports(bitmap@, n as nat),
        decreases MAX_COM_PORTS - n,
    {
        let at: usize = (n / 8) as usize;
        let shift: u8 = (n % 8) as u8;
        proof {
            assert(n / 8 == at);
        }
        if at < bitmap.len() && bitmap[at] & (1u8 << shift) != 0 {
            claims.push(n + 1);
        }
        n = n + 1;
    }
    claims
}

/// What is known of one device.
#[derive(Debug)]
pub struct DeviceFacts {
    /// The device instance.
    pub instance_id: String,
    /// The port name in its registry key.
    pub port_name: Option<String>,
    /// Its hardware ids, the most specific first.
    pub hardware_ids: Vec<String>,
    /// Its friendly names.
    pub friendly_names: Vec<String>,
    /// Its descriptions.
    pub descriptions: Vec<String>,
    /// Whether its owner is the current user.
    pub owned_by_user: bool,
}

/// The endpoint that the first known of several hardware ids belongs to.
pub open spec fn first_definition(ids: Seq<Seq<char>>) -> Option<EndpointDefinition>
    decreases ids.len(),
{
    if ids.len() == 0 {
        None
    } else {
        match first_definition(ids.drop_last()) {
            Some(definition) => Some(definition),
            None => defined_by_hardware(ids.last()),
        }
    }
}

impl DeviceFacts {
    /// The endpoint that the device is, if it is one of CatHub's.
    pub open spec fn definition(self) -> Option<EndpointDefinition> {
        first_definition(texts(self.hardware_ids@))
    }

    /// The number of the device's COM port.
    pub open spec fn port(self) -> Option<nat> {
        match self.port_name {
            Some(name) => com_port_number(name@),
            None => None,
        }
    }

    /// The name shown to the user: the first friendly name, or else the first description, or
    /// else the name of the endpoint.
    pub open spec fn title(self, definition: EndpointDefinition) -> Seq<char> {
        if self.friendly_names@.len() > 0 {
            self.friendly_names@[0]@
        } else if self.descriptions@.len() > 0 {
            self.descriptions@[0]@
        } else {
            definition.title()
        }
    }

    /// The device as an installed endpoint.
    pub open spec fn installed(self, definition: EndpointDefinition) -> Installed {
        Installed {
            stable_id: definition.id(),
            kind: definition.carries(),
            hardware_id: definition.hardware(),
            instance_id: self.instance_id@,
            display_name: self.title(definition),
            com_port: match self.port() {
                Some(n) => Some(com_name(n)),
                None => None,
            },
            authorized: self.owned_by_user,
        }
    }
}

/// The devices that are CatHub endpoints, in order.
pub open spec fn endpoints_among(devices: Seq<DeviceFacts>) -> Seq<Installed>
    decreases devices.len(),
{
    if devices.len() == 0 {
        Seq::empty()
    } else {
        let earlier = endpoints_among(devices.drop_last());
        match devices.last().definition() {
            Some(definition) => earlier.push(devices.last().installed(definition)),
            None => earlier,
        }
    }
}

/// The port numbers of the devices that have a port, in order.
pub open spec fn numbers_among(devices: Seq<DeviceFacts>) -> Seq<nat>
    decreases devices.len(),
{
    if devices.len() == 0 {
        Seq::empty()
    } else {
        let earlier = numbers_among(devices.drop_last());
        match devices.last().port() {
            Some(n) => earlier.push(n),
            None => earlier,
        }
    }
}

/// The claims of the devices that have a port, in order.
pub open spec fn claims_among(devices: Seq<DeviceFacts>) -> Seq<Claim>
    decreases devices.len(),
{
    if devices.len() == 0 {
        Seq::empty()
    } else {
        let earlier = claims_among(devices.drop_last());
        let last = devices.last();
        match last.port() {
            Some(n) => earlier.push(
                Claim {
                    com_port: com_name(n),
                    owner: last.instance_id@,
                    cathub_owned: last.definition() is Some,
                },
            ),
            None => earlier,
        }
    }
}

/// Port numbers, with the reserved ones that are not among them.
pub open spec fn with_reserved(numbers: Seq<nat>, reserved: Seq<u64>) -> Seq<nat>
    decreases reserved.len(),
{
    if reserved.len() == 0 {
        numbers
    } else {
        let earlier = with_reserved(numbers, reserved.drop_last());
        if earlier.contains(reserved.last() as nat) {
            earlier
        } else {
            earlier.push(reserved.last() as nat)
        }
    }
}

/// The claims of the devices, and those of the arbiter to the further ports.
pub open spec fn all_claims(devices: Seq<DeviceFacts>, reserved: Seq<u64>) -> Seq<Claim> {
    let numbers = with_reserved(numbers_among(devices), reserved);
    let own = claims_among(devices);
    own + numbers.skip(own.len() as int).map_values(|n: nat| reservation(n))
}

/// The keys by which port numbers are ordered.
pub open spec fn number_keys(numbers: Seq<nat>) -> Seq<Seq<u32>> {
    numbers.map_values(|n: nat| seq![n as u32])
}

/// The endpoints of a system, in the order of their names.
pub open spec fn owned_in_order(devices: Seq<DeviceFacts>) -> Seq<Installed> {
    let owned = endpoints_among(devices);
    in_order(owned, owned.map_values(|e: Installed| text_key(e.stable_id)))
}

/// The claims of a system, in the order of the port numbers.
pub open spec fn claims_in_order(devices: Seq<DeviceFacts>, reserved: Seq<u64>) -> Seq<Claim> {
    in_order(
        all_claims(devices, reserved),
        number_keys(with_reserved(numbers_among(devices), reserved)),
    )
}

fn find_definition(ids: &Vec<String>) -> (r: Option<EndpointDefinition>)
    ensures
        r == first_definition(texts(ids@)),
{
    let ghost all = texts(ids@);
    let mut i: usize = 0;
    while i < ids.len()
        invariant
            i <= ids@.len(),
            all == texts(ids@),
            first_definition(all.take(i as int)) is None,
        decreases ids@.len() - i,
    {
        proof {
            assert(all.take(i + 1).drop_last() =~= all.take(i as int));
            assert(all.take(i + 1).last() == ids@[i as int]@);
        }
        if let Some(definition) = definition_for_hardware_id(ids[i].as_str()) {
            proof {
                lemma_first_definition_stays(all, i + 1);
            }
            return Some(definition);
        }
        i = i + 1;
    }
    proof {
        assert(all.take(i as int) =~= all);
    }
    None
}

proof fn lemma_first_definition_stays(ids: Seq<Seq<char>>, n: int)
    requires
        0 <= n <= ids.len(),
        first_definition(ids.take(n)) is Some,
    ensures
        first_definition(ids) == first_definition(ids.take(n)),
    decreases ids.len() - n,
{
    if n < ids.len() {
        assert(ids.take(n + 1).drop_last() =~= ids.take(n));
        lemma_first_definition_stays(ids, n + 1);
    } else {
        assert(ids.take(n) =~= ids);
    }
}

fn device_port(device: &DeviceFacts) -> (r: Option<u64>)
    ensures
        match r {
            Some(n) => device.port() == Some(n as nat),
            None => device.port() is None,
        },
{
    match &device.port_name {
        Some(name) => port_number(name.as_str()),
        None => None,
    }
}

fn installed_endpoint(device: &DeviceFacts, definition: EndpointDefinition) -> (r:
    InstalledEndpoint)
    ensures
        r@ == device.installed(definition),
{
    let display_name = if device.friendly_names.len() > 0 {
        device.friendly_names[0].clone()
    } else if device.descriptions.len() > 0 {
        device.descriptions[0].clone()
    } else {
        definition.display_name().to_owned()
    };
    let com_port = match device_port(device) {
        Some(n) => Some(port_name(n)),
        None => None,
    };
    InstalledEndpoint {
        stable_id: definition.stable_id().to_owned(),
        kind: definition.kind(),
        hardware_id: definition.hardware_id().to_owned(),
        instance_id: device.instance_id.clone(),
        display_name,
        com_port,
        authorized_for_current_user: device.owned_by_user,
    }
}

/// The numbers of a vector.
pub open spec fn number_views(v: Seq<u64>) -> Seq<nat> {
    v.map_values(|n: u64| n as nat)
}

proof fn lemma_claims_match_numbers(devices: Seq<DeviceFacts>)
    ensures
        claims_among(devices).len() == numbers_among(devices).len(),
    decreases devices.len(),
{
    if devices.len() > 0 {
        lemma_claims_match_numbers(devices.drop_last());
    }
}

proof fn lemma_reserved_come_last(numbers: Seq<nat>, reserved: Seq<u64>)
    ensures
        with_reserved(numbers, reserved).len() >= numbers.len(),
        with_reserved(numbers, reserved).take(numbers.len() as int) == numbers,
    decreases reserved.len(),
{
    if reserved.len() > 0 {
        lemma_reserved_come_last(numbers, reserved.drop_last());
        let earlier = with_reserved(numbers, reserved.drop_last());
        let all = with_reserved(numbers, reserved);
        assert(all.take(numbers.len() as int) =~= earlier.take(numbers.len() as int));
    } else {
        assert(numbers.take(numbers.len() as int) =~= numbers);
    }
}

fn has_number(numbers: &Vec<u64>, n: u64) -> (r: bool)
    ensures
        r == number_views(numbers@).contains(n as nat),
{
    let mut i: usize = 0;
    while i < numbers.len()
        invariant
            i <= numbers@.len(),
            forall|j: int| 0 <= j < i ==> number_views(numbers@)[j] != n as nat,
        decreases numbers@.len() - i,
    {
        if numbers[i] == n {
            proof {
                assert(number_views(numbers@)[i as int] == n as nat);
            }
            return true;
        }
        i = i + 1;
    }
    false
}

fn sort_owned(owned: &Vec<InstalledEndpoint>) -> (r: Vec<InstalledEndpoint>)
    ensures
        installed_views(r@) == in_order(
            installed_views(owned@),
            installed_views(owned@).map_values(|e: Installed| text_key(e.stable_id)),
        ),
{
    let ghost items = installed_views(owned@);
    let ghost want = items.map_values(|e: Installed| text_key(e.stable_id));
    let mut keys: Vec<Vec<u32>> = Vec::new();
    let mut i: usize = 0;
    while i < owned.len()
        invariant
            i <= owned@.len(),
            items == installed_views(owned@),
            want == items.map_values(|e: Installed| text_key(e.stable_id)),
            key_seqs(keys@) =~= want.take(i as int),
        decreases owned@.len() - i,
    {
        let ghost before = key_seqs(keys@);
        keys.push(key_of_text(owned[i].stable_id.as_str()));
        proof {
            assert(items[i as int] == owned@[i as int]@);
            assert(key_seqs(keys@) =~= before.push(want[i as int]));
            assert(want.take(i + 1) =~= want.take(i as int).push(want[i as int]));
        }
        i = i + 1;
    }
    proof {
        assert(key_seqs(keys@) =~= want);
    }
    let order = sort_keys(&keys);
    let mut sorted: Vec<InstalledEndpoint> = Vec::new();
    let mut k: usize = 0;
    while k < order.len()
        invariant
            k <= order@.len(),
            order@.len() == owned@.len(),
            items == installed_views(owned@),
            forall|j: int| 0 <= j < order@.len() ==> #[trigger] order@[j] < owned@.len(),
            installed_views(sorted@) =~= indices(order@).take(k as int).map_values(
                |j: int| items[j],
            ),
        decreases order@.len() - k,
    {
        let ghost before = installed_views(sorted@);
        let ghost picked = items[order@[k as int] as int];
        sorted.push(owned[order[k]].duplicate());
        proof {
            assert(installed_views(sorted@) =~= before.push(picked));
            assert(indices(order@).take(k + 1) =~= indices(order@).take(k as int).push(
                order@[k as int] as int,
            ));
        }
        k = k + 1;
    }
    proof {
        assert(indices(order@).take(k as int) =~= indices(order@));
    }
    sorted
}

fn sort_by_number(claims: &Vec<PortClaim>, numbers: &Vec<u64>) -> (r: Vec<PortClaim>)
    requires
        claims@.len() == numbers@.len(),
        forall|i: int| 0 <= i < numbers@.len() ==> #[trigger] numbers@[i] <= MAX_COM_PORTS,
    ensures
        claim_views(r@) == in_order(
            claim_views(claims@),
            number_keys(number_views(numbers@)),
        ),
{
    let ghost items = claim_views(claims@);
    let ghost want = number_keys(number_views(numbers@));
    let mut keys: Vec<Vec<u32>> = Vec::new();
    let mut i: usize = 0;
    while i < numbers.len()
        invariant
            i <= numbers@.len(),
            want == number_keys(number_views(numbers@)),
            forall|i: int| 0 <= i < numbers@.len() ==> #[trigger] numbers@[i] <= MAX_COM_PORTS,
            key_seqs(keys@) =~= want.take(i as int),
        decreases numbers@.len() - i,
    {
        let ghost before = key_seqs(keys@);
        let mut key: Vec<u32> = Vec::new();
        key.push(numbers[i] as u32);
        proof {
            assert(key@ =~= want[i as int]);
        }
        keys.push(key);
        proof {
            assert(key_seqs(keys@) =~= before.push(want[i as int]));
            assert(want.take(i + 1) =~= want.take(i as int).push(want[i as int]));
        }
        i = i + 1;
    }
    proof {
        assert(key_seqs(keys@) =~= want);
    }
    let order = sort_keys(&keys);
    let mut sorted: Vec<PortClaim> = Vec::new();
    let mut k: usize = 0;
    while k < order.len()
        invariant
            k <= order@.len(),
            order@.len() == claims@.len(),
            items == claim_views(claims@),
            forall|j: int| 0 <= j < order@.len() ==> #[trigger] order@[j] < claims@.len(),
            claim_views(sorted@) =~= indices(order@).take(k as int).map_values(|j: int| items[j]),
        decreases order@.len() - k,
    {
        let ghost before = claim_views(sorted@);
        let ghost picked = items[order@[k as int] as int];
        sorted.push(claims[order[k]].duplicate());
        proof {
            assert(claim_views(sorted@) =~= before.push(picked));
            assert(indices(order@).take(k + 1) =~= indices(order@).take(k as int).push(
                order@[k as int] as int,
            ));
        }
        k = k + 1;
    }
    proof {
        assert(indices(order@).take(k as int) =~= indices(order@));
    }
    sorted
}

/// What is found on a system with these devices and these port reservations.
#[must_use]
pub fn snapshot(devices: &Vec<DeviceFacts>, reserved: &Vec<u64>) -> (r: SystemSnapshot)
    requires
        forall|i: int| 0 <= i < reserved@.len() ==> #[trigger] reserved@[i] <= MAX_COM_PORTS,
    ensures
        installed_views(r.owned@) == owned_in_order(devices@),
        claim_views(r.claims@) == claims_in_order(devices@, reserved@),
{
    let mut owned: Vec<InstalledEndpoint> = Vec::new();
    let mut claims: Vec<PortClaim> = Vec::new();
    let mut numbers: Vec<u64> = Vec::new();
    let mut i: usize = 0;
    proof {
        assert(installed_views(owned@) =~= Seq::empty());
        assert(claim_views(claims@) =~= Seq::empty());
        assert(number_views(numbers@) =~= Seq::empty());
    }
    while i < devices.len()
        invariant
            i <= devices@.len(),
            installed_views(owned@) == endpoints_among(devices@.take(i as int)),
            claim_views(claims@) == claims_among(devices@.take(i as int)),
            number_views(numbers@) == numbers_among(devices@.take(i as int)),
            forall|j: int| 0 <= j < numbers@.len() ==> #[trigger] numbers@[j] <= MAX_COM_PORTS,
        decreases devices@.len() - i,
    {
        let device = &devices[i];
        let ghost had_owned = installed_views(owned@);
        let ghost had_claims = claim_views(claims@);
        let ghost had_numbers = number_views(numbers@);
        proof {
            assert(devices@.take(i + 1).drop_last() =~= devices@.take(i as int));
            assert(devices@.take(i + 1).last() == devices@[i as int]);
        }
        let found = find_definition(&device.hardware_ids);
        if let Some(n) = device_port(device) {
            let claim = PortClaim {
                com_port: port_name(n),
                owner: device.instance_id.clone(),
                cathub_owned: found.is_some(),
            };
            let ghost added = claim@;
            claims.push(claim);
            numbers.push(n);
            proof {
                assert(claim_views(claims@) =~= had_claims.push(added));
                assert(number_views(numbers@) =~= had_numbers.push(n as nat));
            }
        }
        if let Some(definition) = found {
            let endpoint = installed_endpoint(device, definition);
            let ghost added = endpoint@;
            owned.push(endpoint);
            proof {
                assert(installed_views(owned@) =~= had_owned.push(added));
            }
        }
        i = i + 1;
    }
    proof {
        assert(devices@.take(i as int) =~= devices@);
        lemma_claims_match_numbers(devices@);
    }
    let ghost own = claim_views(claims@);
    let ghost first = number_views(numbers@);
    let mut k: usize = 0;
    proof {
        assert(own + first.skip(first.len() as int).map_values(|n: nat| reservation(n)) =~= own);
    }
    while k < reserved.len()
        invariant
            k <= reserved@.len(),
            forall|j: int| 0 <= j < reserved@.len() ==> #[trigger] reserved@[j] <= MAX_COM_PORTS,
            forall|j: int| 0 <= j < numbers@.len() ==> #[trigger] numbers@[j] <= MAX_COM_PORTS,
            own.len() == first.len(),
            number_views(numbers@) == with_reserved(first, reserved@.take(k as int)),
            numbers@.len() >= first.len(),
            claim_views(claims@) == own + number_views(numbers@).skip(
                first.len() as int,
            ).map_values(|n: nat| reservation(n)),
        decreases reserved@.len() - k,
    {
        let n: u64 = reserved[k];
        let ghost had_claims = claim_views(claims@);
        let ghost had_numbers = number_views(numbers@);
        proof {
            assert(reserved@.take(k + 1).drop_last() =~= reserved@.take(k as int));
            assert(reserved@.take(k + 1).last() == n);
        }
        if !has_number(&numbers, n) {
            let claim = PortClaim {
                com_port: port_name(n),
                owner: "COM Name Arbiter reservation".to_owned(),
                cathub_owned: false,
            };
            let ghost added = claim@;
            claims.push(claim);
            numbers.push(n);
            proof {
                assert(claim_views(claims@) =~= had_claims.push(added));
                assert(number_views(numbers@) =~= had_numbers.push(n as nat));
                assert(number_views(numbers@).skip(first.len() as int) =~= had_numbers.skip(
                    first.len() as int,
                ).push(n as nat));
                assert(claim_views(claims@) =~= own + number_views(numbers@).skip(
                    first.len() as int,
                ).map_values(|n: nat| reservation(n)));
            }
        }
        k = k + 1;
    }
    proof {
        assert(reserved@.take(k as int) =~= reserved@);
        assert(claim_views(claims@) =~= all_claims(devices@, reserved@));
        lemma_reserved_come_last(first, reserved@);
    }
    let owned = sort_owned(&owned);
    let claims = sort_by_number(&claims, &numbers);
    SystemSnapshot { owned, claims }
}

/// The claim of the arbiter to a port.
pub open spec fn reservation(n: nat) -> Claim {
    Claim {
        com_port: com_name(n),
        owner: "COM Name Arbiter reservation"@,
        cathub_owned: false,
    }
}

/// The number of a COM port.
///
/// # Errors
///
/// Returns an error if the name is not one of `COM1` to `COM4096`.
pub fn com_number(name: &str) -> (r: Result<u32, String>)
    ensures
        match r {
            Ok(n) => com_port_number(name@) == Some(n as nat),
            Err(why) => com_port_number(name@) is None && why@ == not_a_port(name@),
        },
{
    match port_number(name) {
        Some(n) => Ok(n as u32),
        None => {
            let mut why = "`".to_owned();
            why.append(to_ascii_uppercase(trim(name).as_str()).as_str());
            why.append("` is not a valid COM1 through COM4096 name");
            Err(why)
        },
    }
}

/// The size in bytes of a UTF-16 registry value of that many units.
///
/// # Errors
///
/// Returns an error if the registry cannot hold that much.
pub fn byte_len(units: usize) -> (r: Result<u32, String>)
    ensures
        match r {
            Ok(bytes) => bytes == units * 2,
            Err(why) => units * 2 > u32::MAX && why@ == "UTF-16 registry value is too large"@,
        },
{
    if units <= 0x7fff_ffff {
        Ok((units * 2) as u32)
    } else {
        Err("UTF-16 registry value is too large".to_owned())
    }
}

fn about(before: &str, id: &str, after: &str) -> (r: String)
    ensures
        r@ == before@ + id@ + after@,
{
    let mut out = before.to_owned();
    out.append(id);
    out.append(after);
    out
}

/// Why a device with that stable name and hardware id is not created, if it is not: the hardware
/// id is not CatHub's, or belongs to another endpoint.
pub open spec fn creation_refused(stable_id: Seq<char>, hardware_id: Seq<char>) -> Option<
    Seq<char>,
> {
    match defined_by_hardware(hardware_id) {
        None => Some("refusing to create non-CatHub hardware ID `"@ + hardware_id + "`"@),
        Some(definition) => if definition.id() == stable_id {
            None
        } else {
            Some(
                "stable endpoint `"@ + stable_id + "` does not own hardware ID `"@ + hardware_id
                    + "`"@,
            )
        },
    }
}

/// Check that a device may be created: its hardware id is CatHub's and belongs to the endpoint.
///
/// # Errors
///
/// Returns an error if it does not.
pub fn check_create(stable_id: &str, hardware_id: &str) -> (r: Result<EndpointDefinition, String>)
    ensures
        match r {
            Ok(definition) => creation_refused(stable_id@, hardware_id@) is None
                && defined_by_hardware(hardware_id@) == Some(definition),
            Err(why) => creation_refused(stable_id@, hardware_id@) == Some(why@),
        },
{
    let definition = match definition_for_hardware_id(hardware_id) {
        Some(definition) => definition,
        None => {
            return Err(
                about("refusing to create non-CatHub hardware ID `", hardware_id, "`"),
            );
        },
    };
    if !same_text(definition.stable_id(), stable_id) {
        let mut why = about("stable endpoint `", stable_id, "` does not own hardware ID `");
        why.append(hardware_id);
        why.append("`");
        return Err(why);
    }
    Ok(definition)
}

/// Why a device is not removed, if it is not: it is not CatHub's, or its stable name and its
/// hardware id do not belong together.
pub open spec fn removal_refused(device: Installed) -> Option<Seq<char>> {
    match defined_by_hardware(device.hardware_id) {
        None => Some("refusing to remove non-CatHub device `"@ + device.instance_id + "`"@),
        Some(definition) => if definition.id() == device.stable_id {
            None
        } else {
            Some(
                "device `"@ + device.instance_id
                    + "` has inconsistent CatHub ownership metadata"@,
            )
        },
    }
}

/// Check that a device may be removed: its hardware id is CatHub's and belongs to the endpoint.
///
/// # Errors
///
/// Returns an error if it does not.
pub fn check_remove(endpoint: &InstalledEndpoint) -> (r: Result<(), String>)
    ensures
        match r {
            Ok(()) => removal_refused(endpoint@) is None,
            Err(why) => removal_refused(endpoint@) == Some(why@),
        },
{
    let definition = match definition_for_hardware_id(endpoint.hardware_id.as_str()) {
        Some(definition) => definition,
        None => {
            return Err(
                about(
                    "refusing to remove non-CatHub device `",
                    endpoint.instance_id.as_str(),
                    "`",
                ),
            );
        },
    };
    if !same_text(definition.stable_id(), endpoint.stable_id.as_str()) {
        return Err(
            about(
                "device `",
                endpoint.instance_id.as_str(),
                "` has inconsistent CatHub ownership metadata",
            ),
        );
    }
    Ok(())
}

/// The names that are asked for, as they are compared.
pub open spec fn requested(ids: Seq<Seq<char>>) -> Seq<Seq<char>> {
    ids.map_values(|id: Seq<char>| lowered(trimmed(id)))
}

/// Whether the name `i` is the first unknown one in the order of names.
pub open spec fn least_unknown(names: Seq<Seq<char>>, i: int) -> bool {
    &&& 0 <= i < names.len()
    &&& defined(names[i]) is None
    &&& forall|j: int|
        0 <= j < names.len() && defined(#[trigger] names[j]) is None ==> !precedes(
            text_key(names[j]),
            text_key(names[i]),
        )
}

/// The devices to remove: those that are asked for, or all where none is.
pub open spec fn removable(owned: Seq<Installed>, names: Seq<Seq<char>>) -> Seq<Installed> {
    owned.filter(|e: Installed| names.len() == 0 || names.contains(e.stable_id))
}

fn lowered_names(ids: &[String]) -> (r: Vec<String>)
    ensures
        texts(r@) == requested(texts(ids@)),
{
    let ghost want = requested(texts(ids@));
    let mut names: Vec<String> = Vec::new();
    let mut i: usize = 0;
    while i < ids.len()
        invariant
            i <= ids@.len(),
            want == requested(texts(ids@)),
            texts(names@) =~= want.take(i as int),
        decreases ids@.len() - i,
    {
        let name = to_ascii_lowercase(trim(ids[i].as_str()).as_str());
        proof {
            assert(texts(ids@)[i as int] == ids@[i as int]@);
            assert(want.take(i + 1) =~= want.take(i as int).push(name@));
        }
        crate::text::push_text(&mut names, name);
        i = i + 1;
    }
    proof {
        assert(want.take(i as int) =~= want);
    }
    names
}

fn find_unknown(names: &Vec<String>) -> (r: Option<usize>)
    ensures
        match r {
            Some(i) => least_unknown(texts(names@), i as int),
            None => forall|j: int|
                0 <= j < names@.len() ==> defined(#[trigger] texts(names@)[j]) is Some,
        },
{
    let ghost all = texts(names@);
    let mut found: Option<usize> = None;
    let mut i: usize = 0;
    while i < names.len()
        invariant
            i <= names@.len(),
            all == texts(names@),
            found is None ==> forall|j: int| 0 <= j < i ==> defined(#[trigger] all[j]) is Some,
            found matches Some(k) ==> k < i && least_unknown(all.take(i as int), k as int),
        decreases names@.len() - i,
    {
        let ghost earlier = all.take(i as int);
        let ghost now = all.take(i + 1);
        proof {
            assert(now[i as int] == names@[i as int]@);
            assert forall|j: int| 0 <= j < i implies #[trigger] now[j] == earlier[j] by {}
        }
        if definition(names[i].as_str()).is_none() {
            let key = key_of_text(names[i].as_str());
            match found {
                None => {
                    found = Some(i);
                    proof {
                        crate::order::lemma_precedes_strict(
                            text_key(now[i as int]),
                            text_key(now[i as int]),
                        );
                        assert forall|j: int|
                            0 <= j < now.len() && defined(#[trigger] now[j]) is None implies j
                            == i by {
                            if j < i {
                                assert(now[j] == all[j]);
                            }
                        }
                        assert(least_unknown(now, i as int));
                    }
                },
                Some(k) => {
                    let best = key_of_text(names[k].as_str());
                    proof {
                        assert(now[k as int] == names@[k as int]@);
                    }
                    if is_before(&key, &best) {
                        found = Some(i);
                        proof {
                            crate::order::lemma_precedes_strict(key@, best@);
                            assert forall|j: int|
                                0 <= j < now.len() && defined(
                                    #[trigger] now[j],
                                ) is None implies !precedes(text_key(now[j]), key@) by {
                                if j < i {
                                    assert(now[j] == earlier[j]);
                                    crate::order::lemma_precedes_through(
                                        key@,
                                        best@,
                                        text_key(now[j]),
                                    );
                                }
                            }
                            assert(least_unknown(now, i as int));
                        }
                    } else {
                        proof {
                            assert forall|j: int|
                                0 <= j < now.len() && defined(
                                    #[trigger] now[j],
                                ) is None implies !precedes(text_key(now[j]), best@) by {
                                if j < i {
                                    assert(now[j] == earlier[j]);
                                }
                            }
                            assert(least_unknown(now, k as int));
                        }
                    }
                },
            }
        } else {
            proof {
                if let Some(k) = found {
                    assert(now[k as int] == earlier[k as int]);
                    assert forall|j: int|
                        0 <= j < now.len() && defined(#[trigger] now[j]) is None implies !precedes(
                        text_key(now[j]),
                        text_key(now[k as int]),
                    ) by {
                        if j < i {
                            assert(now[j] == earlier[j]);
                        }
                    }
                    assert(least_unknown(now, k as int));
                }
            }
        }
        i = i + 1;
    }
    proof {
        assert(all.take(i as int) =~= all);
    }
    found
}

fn has_name(names: &Vec<String>, id: &str) -> (r: bool)
    ensures
        r == texts(names@).contains(id@),
{
    let mut i: usize = 0;
    while i < names.len()
        invariant
            i <= names@.len(),
            forall|j: int| 0 <= j < i ==> texts(names@)[j] != id@,
        decreases names@.len() - i,
    {
        if same_text(names[i].as_str(), id) {
            proof {
                assert(texts(names@)[i as int] == id@);
            }
            return true;
        }
        i = i + 1;
    }
    false
}

/// The devices to remove: those whose names are asked for, in any case, or all where no name
/// is given.
///
/// # Errors
///
/// Returns an error for the first unknown name in the order of names.
pub fn select_removed(ids: &[String], snapshot: &SystemSnapshot) -> (r: Result<
    Vec<InstalledEndpoint>,
    String,
>)
    ensures
        match r {
            Ok(removed) => {
                &&& forall|j: int|
                    0 <= j < ids@.len() ==> defined(
                        #[trigger] requested(texts(ids@))[j],
                    ) is Some
                &&& installed_views(removed@) == removable(
                    installed_views(snapshot.owned@),
                    requested(texts(ids@)),
                )
            },
            Err(why) => exists|i: int| #[trigger]
                least_unknown(requested(texts(ids@)), i) && why@
                    == "unknown CatHub virtual endpoint `"@ + requested(texts(ids@))[i] + "`"@,
        },
{
    let names = lowered_names(ids);
    if let Some(i) = find_unknown(&names) {
        proof {
            assert(names@[i as int]@ == texts(names@)[i as int]);
        }
        return Err(about("unknown CatHub virtual endpoint `", names[i].as_str(), "`"));
    }
    let ghost all = installed_views(snapshot.owned@);
    let ghost wanted = texts(names@);
    let ghost keep = |e: Installed| wanted.len() == 0 || wanted.contains(e.stable_id);
    let mut removed: Vec<InstalledEndpoint> = Vec::new();
    let mut i: usize = 0;
    proof {
        assert(installed_views(removed@) =~= all.take(0).filter(keep));
    }
    while i < snapshot.owned.len()
        invariant
            i <= snapshot.owned@.len(),
            all == installed_views(snapshot.owned@),
            wanted == texts(names@),
            keep == (|e: Installed| wanted.len() == 0 || wanted.contains(e.stable_id)),
            installed_views(removed@) == all.take(i as int).filter(keep),
        decreases snapshot.owned@.len() - i,
    {
        let endpoint = &snapshot.owned[i];
        let ghost had = installed_views(removed@);
        proof {
            assert(all.take(i + 1).drop_last() =~= all.take(i as int));
            assert(all.take(i + 1).last() == endpoint@);
            reveal(Seq::filter);
        }
        if names.len() == 0 || has_name(&names, endpoint.stable_id.as_str()) {
            let one = endpoint.duplicate();
            let ghost added = one@;
            removed.push(one);
            proof {
                assert(installed_views(removed@) =~= had.push(added));
            }
        }
        i = i + 1;
    }
    proof {
        assert(all.take(i as int) =~= all);
    }
    Ok(removed)
}

/// A port that a device has is never claimed by the arbiter as well: the port numbers of the
/// arbiter's claims are none of the devices' and each comes once.
pub proof fn law_reservations_are_further_ports(numbers: Seq<nat>, reserved: Seq<u64>, i: int, j: int)
    requires
        numbers.len() <= i < with_reserved(numbers, reserved).len(),
        0 <= j < i,
    ensures
        with_reserved(numbers, reserved)[j] != with_reserved(numbers, reserved)[i],
    decreases reserved.len(),
{
    if reserved.len() > 0 {
        let earlier = with_reserved(numbers, reserved.drop_last());
        if i < earlier.len() {
            law_reservations_are_further_ports(numbers, reserved.drop_last(), i, j);
        } else {
            assert(with_reserved(numbers, reserved)[j] == earlier[j]);
        }
    }
}

/// The arbiter's bitmap only ever reserves ports from 1 to 4096.
pub proof fn law_reserved_ports_are_ports(bitmap: Seq<u8>, n: nat, i: int)
    requires
        n <= MAX_COM_PORTS,
        0 <= i < reserved_ports(bitmap, n).len(),
    ensures
        1 <= reserved_ports(bitmap, n)[i] <= n,
        bit_set(bitmap, reserved_ports(bitmap, n)[i] - 1),
    decreases n,
{
    if n > 0 {
        let earlier = reserved_ports(bitmap, (n - 1) as nat);
        if i < earlier.len() {
            law_reserved_ports_are_ports(bitmap, (n - 1) as nat, i);
            assert(reserved_ports(bitmap, n)[i] == earlier[i]);
        }
    }
}

/// A bit of a bitmap is set where the byte it stands in, counted from the first, has it, counted
/// from the lowest: bit 0 is the ones of the first byte and bit 7 its top.
pub proof fn law_bits(bitmap: Seq<u8>, at: int, b: u8)
    requires
        0 <= at < bitmap.len(),
        bitmap[at] == b,
    ensures
        bit_set(bitmap, at * 8) <==> b % 2 == 1,
        bit_set(bitmap, at * 8 + 1) <==> b / 2 % 2 == 1,
        bit_set(bitmap, at * 8 + 2) <==> b / 4 % 2 == 1,
        bit_set(bitmap, at * 8 + 3) <==> b / 8 % 2 == 1,
        bit_set(bitmap, at * 8 + 4) <==> b / 16 % 2 == 1,
        bit_set(bitmap, at * 8 + 5) <==> b / 32 % 2 == 1,
        bit_set(bitmap, at * 8 + 6) <==> b / 64 % 2 == 1,
        bit_set(bitmap, at * 8 + 7) <==> b / 128 == 1,
        !bit_set(bitmap, bitmap.len() as int * 8),
{
    assert((b & (1u8 << 0u8) != 0) == (b % 2 == 1) && (b & (1u8 << 1u8) != 0) == (b / 2 % 2 == 1)
        && (b & (1u8 << 2u8) != 0) == (b / 4 % 2 == 1) && (b & (1u8 << 3u8) != 0) == (b / 8 % 2
        == 1) && (b & (1u8 << 4u8) != 0) == (b / 16 % 2 == 1) && (b & (1u8 << 5u8) != 0) == (b / 32
        % 2 == 1) && (b & (1u8 << 6u8) != 0) == (b / 64 % 2 == 1) && (b & (1u8 << 7u8) != 0) == (b
        / 128 == 1)) by (bit_vector);
}

/// The ports that a bitmap reserves are those whose bit is set, the first bit standing for COM1.
pub proof fn law_reserved_ports(bitmap: Seq<u8>, n: nat, port: u64)
    requires
        n <= MAX_COM_PORTS,
    ensures
        reserved_ports(bitmap, n).contains(port) <==> 1 <= port <= n && bit_set(
            bitmap,
            port as int - 1,
        ),
    decreases n,
{
    let all = reserved_ports(bitmap, n);
    if n == 0 {
    } else {
        let earlier = reserved_ports(bitmap, (n - 1) as nat);
        law_reserved_ports(bitmap, (n - 1) as nat, port);
        if all.contains(port) {
            let i = all.index_of(port);
            if i < earlier.len() {
                assert(earlier[i] == port);
            }
        }
        if earlier.contains(port) {
            let i = earlier.index_of(port);
            assert(all[i] == port);
        }
        if port == n && bit_set(bitmap, n - 1) {
            assert(all[all.len() - 1] == port);
        }
    }
}

proof fn lemma_among(devices: Seq<DeviceFacts>, i: int)
    requires
        0 <= i < devices.len(),
    ensures
        devices[i].definition() matches Some(d) ==> endpoints_among(devices).contains(
            devices[i].installed(d),
        ),
        devices[i].port() matches Some(n) ==> claims_among(devices).contains(
            Claim {
                com_port: com_name(n),
                owner: devices[i].instance_id@,
                cathub_owned: devices[i].definition() is Some,
            },
        ),
        claims_among(devices).len() == numbers_among(devices).len(),
    decreases devices.len(),
{
    let earlier = devices.drop_last();
    let last = devices.len() - 1;
    if i < last {
        lemma_among(earlier, i);
        assert(earlier[i] == devices[i]);
        if let Some(d) = devices[i].definition() {
            let before = endpoints_among(earlier);
            let k = before.index_of(devices[i].installed(d));
            assert(endpoints_among(devices)[k] == before[k]);
        }
        if let Some(n) = devices[i].port() {
            let claim = Claim {
                com_port: com_name(n),
                owner: devices[i].instance_id@,
                cathub_owned: devices[i].definition() is Some,
            };
            let before = claims_among(earlier);
            let k = before.index_of(claim);
            assert(claims_among(devices)[k] == before[k]);
        }
    } else {
        if earlier.len() > 0 {
            lemma_among(earlier, 0);
        }
        if let Some(d) = devices[i].definition() {
            let all = endpoints_among(devices);
            assert(all[all.len() - 1] == devices[i].installed(d));
        }
        if let Some(n) = devices[i].port() {
            let all = claims_among(devices);
            assert(all[all.len() - 1].com_port == com_name(n));
        }
    }
}

proof fn lemma_in_order_contains<T>(items: Seq<T>, keys: Seq<Seq<u32>>, item: T)
    requires
        items.len() == keys.len(),
        items.contains(item),
    ensures
        in_order(items, keys).contains(item),
{
    crate::order::law_sorted(keys, keys.len());
    let order = crate::order::sorted_indices(keys, keys.len());
    let k = items.index_of(item);
    assert(order.contains(k));
    let i = order.index_of(k);
    assert(in_order(items, keys)[i] == item);
}

/// A device that has the hardware id of an endpoint is that endpoint, with the instance, the
/// owner and the port that the device has. A device of any kind that has a port has claimed it,
/// and a reserved port that no device has is claimed as well.
pub proof fn law_devices_are_found(
    devices: Seq<DeviceFacts>,
    reserved: Seq<u64>,
    i: int,
    d: EndpointDefinition,
    r: int,
)
    requires
        0 <= i < devices.len(),
        0 <= r < reserved.len(),
    ensures
        devices[i].hardware_ids@.len() == 1 && devices[i].hardware_ids@[0]@ == d.hardware() ==> {
            let found = devices[i].installed(d);
            &&& owned_in_order(devices).contains(found)
            &&& found.stable_id == d.id()
            &&& found.kind == d.carries()
            &&& found.hardware_id == d.hardware()
            &&& found.instance_id == devices[i].instance_id@
            &&& found.authorized == devices[i].owned_by_user
            &&& found.com_port == match devices[i].port() {
                Some(n) => Some("COM"@ + crate::text::decimal(n)),
                None => None,
            }
        },
        devices[i].port() matches Some(n) ==> claims_in_order(devices, reserved).contains(
            Claim {
                com_port: com_name(n),
                owner: devices[i].instance_id@,
                cathub_owned: devices[i].definition() is Some,
            },
        ),
        !numbers_among(devices).contains(reserved[r] as nat) ==> claims_in_order(
            devices,
            reserved,
        ).contains(
            Claim {
                com_port: com_name(reserved[r] as nat),
                owner: "COM Name Arbiter reservation"@,
                cathub_owned: false,
            },
        ),
{
    lemma_among(devices, i);
    if devices[i].hardware_ids@.len() == 1 && devices[i].hardware_ids@[0]@ == d.hardware() {
        let ids = texts(devices[i].hardware_ids@);
        assert(ids.drop_last() =~= Seq::empty());
        assert(ids.last() == d.hardware());
        reveal_with_fuel(first_definition, 2);
        crate::provisioning::law_definitions_are_found(d);
        let owned = endpoints_among(devices);
        lemma_in_order_contains(
            owned,
            owned.map_values(|e: Installed| text_key(e.stable_id)),
            devices[i].installed(d),
        );
    }
    let numbers = with_reserved(numbers_among(devices), reserved);
    let own = claims_among(devices);
    let all = all_claims(devices, reserved);
    lemma_with_reserved(numbers_among(devices), reserved, r);
    assert(all.len() == numbers.len());
    if let Some(n) = devices[i].port() {
        let claim = Claim {
            com_port: com_name(n),
            owner: devices[i].instance_id@,
            cathub_owned: devices[i].definition() is Some,
        };
        let k = own.index_of(claim);
        assert(all[k] == claim);
        lemma_in_order_contains(all, number_keys(numbers), claim);
    }
    if !numbers_among(devices).contains(reserved[r] as nat) {
        let k = numbers.index_of(reserved[r] as nat);
        if k < own.len() {
            assert(numbers_among(devices)[k] == numbers[k]);
        }
        let claim = reservation(reserved[r] as nat);
        assert(all[k] == claim);
        lemma_in_order_contains(all, number_keys(numbers), claim);
    }
}

proof fn lemma_with_reserved(numbers: Seq<nat>, reserved: Seq<u64>, r: int)
    requires
        0 <= r < reserved.len(),
    ensures
        with_reserved(numbers, reserved).contains(reserved[r] as nat),
        numbers.len() <= with_reserved(numbers, reserved).len(),
        forall|k: int|
            0 <= k < numbers.len() ==> #[trigger] with_reserved(numbers, reserved)[k] == numbers[k],
    decreases reserved.len(),
{
    let earlier = reserved.drop_last();
    let before = with_reserved(numbers, earlier);
    let all = with_reserved(numbers, reserved);
    if r < earlier.len() {
        lemma_with_reserved(numbers, earlier, r);
        assert(earlier[r] == reserved[r]);
        let k = before.index_of(reserved[r] as nat);
        assert(all[k] == before[k]);
    } else {
        if earlier.len() > 0 {
            lemma_with_reserved(numbers, earlier, 0);
        }
        if !before.contains(reserved[r] as nat) {
            assert(all[all.len() - 1] == reserved[r] as nat);
        }
    }
    assert forall|k: int| 0 <= k < numbers.len() implies #[trigger] all[k] == numbers[k] by {
        assert(before[k] == numbers[k]);
    }
}

/// What is removed on request are the devices that go by one of the names, or all where none is
/// named.
pub proof fn law_removable(owned: Seq<Installed>, names: Seq<Seq<char>>, device: Installed)
    ensures
        removable(owned, Seq::empty()) == owned,
        owned.contains(device) && names.contains(device.stable_id) ==> removable(
            owned,
            names,
        ).contains(device),
        names.len() > 0 && removable(owned, names).contains(device) ==> owned.contains(device)
            && names.contains(device.stable_id),
{
    let chosen = |e: Installed| names.len() == 0 || names.contains(e.stable_id);
    lemma_filter(owned, chosen, device);
    let all = |e: Installed| Seq::<Seq<char>>::empty().len() == 0 || Seq::<Seq<char>>::empty().contains(
        e.stable_id,
    );
    lemma_filter_all(owned, all);
}

proof fn lemma_filter(owned: Seq<Installed>, chosen: spec_fn(Installed) -> bool, device: Installed)
    ensures
        owned.filter(chosen).contains(device) <==> owned.contains(device) && chosen(device),
    decreases owned.len(),
{
    reveal(Seq::filter);
    let kept = owned.filter(chosen);
    if owned.len() > 0 {
        let earlier = owned.drop_last();
        let before = earlier.filter(chosen);
        lemma_filter(earlier, chosen, device);
        if kept.contains(device) {
            let i = kept.index_of(device);
            if i < before.len() {
                assert(before[i] == device);
                let k = earlier.index_of(device);
                assert(owned[k] == device);
            } else {
                assert(owned[owned.len() - 1] == device);
            }
        }
        if owned.contains(device) && chosen(device) {
            let k = owned.index_of(device);
            if k < earlier.len() {
                assert(earlier[k] == device);
                let i = before.index_of(device);
                assert(kept[i] == device);
            } else {
                assert(kept[kept.len() - 1] == device);
            }
        }
    }
}

proof fn lemma_filter_all(owned: Seq<Installed>, chosen: spec_fn(Installed) -> bool)
    requires
        forall|e: Installed| #[trigger] chosen(e),
    ensures
        owned.filter(chosen) == owned,
    decreases owned.len(),
{
    reveal(Seq::filter);
    if owned.len() > 0 {
        lemma_filter_all(owned.drop_last(), chosen);
        assert(owned.drop_last().push(owned.last()) =~= owned);
        assert(chosen(owned.last()));
    } else {
        assert(owned.filter(chosen) =~= owned);
    }
}

/// A device is shown under its friendly name, else under its description, else under the title of
/// its endpoint.
pub proof fn law_titles(device: DeviceFacts, d: EndpointDefinition)
    ensures
        device.friendly_names@.len() > 0 ==> device.title(d) == device.friendly_names@[0]@,
        device.friendly_names@.len() == 0 && device.descriptions@.len() > 0 ==> device.title(d)
            == device.descriptions@[0]@,
        device.friendly_names@.len() == 0 && device.descriptions@.len() == 0 ==> device.title(d)
            == d.title(),
{
}

} // verus!
