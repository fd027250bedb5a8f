//! The plan that leads from the endpoints of a system to the endpoints that are wanted.

use vstd::prelude::*;

use crate::order::in_order;
use crate::order::indices;
use crate::order::key_of_text;
use crate::order::key_seqs;
use crate::order::law_sorted;
use crate::order::lemma_precedes_strict;
use crate::order::precedes;
use crate::order::sort_keys;
use crate::order::sorted_indices;
use crate::order::text_key;
use crate::provisioning::Desired;
use crate::provisioning::DesiredEndpoint;
use crate::provisioning::EndpointKind;
use crate::provisioning::desired_views;
use crate::provisioning::text_of;
use crate::text::eq_ignore_ascii_case;
use crate::text::lower_ascii;
use crate::text::lowered;
use crate::text::same_ignoring_case;
use crate::text::same_text;
use crate::text::to_ascii_lowercase;
use crate::text::to_ascii_uppercase;
use crate::text::upper_ascii;
use crate::text::uppered;

verus! {

/// An endpoint that is installed.
#[derive(Debug, PartialEq, Eq)]
pub struct InstalledEndpoint {
    /// The stable name.
    pub stable_id: String,
    /// What it carries.
    pub kind: EndpointKind,
    /// The hardware id.
    pub hardware_id: String,
    /// The device instance.
    pub instance_id: String,
    /// The name shown to the user.
    pub display_name: String,
    /// The COM port, if it has one.
    pub com_port: Option<String>,
    /// Whether the current user owns it.
    pub authorized_for_current_user: bool,
}

/// An endpoint that is installed, as a value of the model.
pub struct Installed {
    /// The stable name.
    pub stable_id: Seq<char>,
    /// What it carries.
    pub kind: EndpointKind,
    /// The hardware id.
    pub hardware_id: Seq<char>,
    /// The device instance.
    pub instance_id: Seq<char>,
    /// The name shown to the user.
    pub display_name: Seq<char>,
    /// The COM port, if it has one.
    pub com_port: Option<Seq<char>>,
    /// Whether the current user owns it.
    pub authorized: bool,
}

impl View for InstalledEndpoint {
    type V = Installed;

    open spec fn view(&self) -> Installed {
        Installed {
            stable_id: self.stable_id@,
            kind: self.kind,
            hardware_id: self.hardware_id@,
            instance_id: self.instance_id@,
            display_name: self.display_name@,
            com_port: text_of(self.com_port),
            authorized: self.authorized_for_current_user,
        }
    }
}

/// The endpoints of a vector.
pub open spec fn installed_views(v: Seq<InstalledEndpoint>) -> Seq<Installed> {
    v.map_values(|e: InstalledEndpoint| e@)
}

/// A COM port that someone has claimed.
#[derive(Debug, PartialEq, Eq)]
pub struct PortClaim {
    /// The COM port.
    pub com_port: String,
    /// Who has claimed it.
    pub owner: String,
    /// Whether it is a CatHub device.
    pub cathub_owned: bool,
}

/// A COM port that someone has claimed, as a value of the model.
pub struct Claim {
    /// The COM port.
    pub com_port: Seq<char>,
    /// Who has claimed it.
    pub owner: Seq<char>,
    /// Whether it is a CatHub device.
    pub cathub_owned: bool,
}

impl View for PortClaim {
    type V = Claim;

    open spec fn view(&self) -> Claim {
        Claim { com_port: self.com_port@, owner: self.owner@, cathub_owned: self.cathub_owned }
    }
}

/// The claims of a vector.
pub open spec fn claim_views(v: Seq<PortClaim>) -> Seq<Claim> {
    v.map_values(|c: PortClaim| c@)
}

impl PortClaim {
    /// The same claim once more.
    #[must_use]
    pub fn duplicate(&self) -> (r: Self)
        ensures
            r@ == self@,
    {
        PortClaim {
            com_port: self.com_port.clone(),
            owner: self.owner.clone(),
            cathub_owned: self.cathub_owned,
        }
    }
}

impl DesiredEndpoint {
    /// The same endpoint once more.
    #[must_use]
    pub fn duplicate(&self) -> (r: Self)
        ensures
            r@ == self@,
    {
        DesiredEndpoint {
            stable_id: self.stable_id.clone(),
            kind: self.kind,
            hardware_id: self.hardware_id.clone(),
            display_name: self.display_name.clone(),
            com_port: self.com_port.clone(),
            configured_name: self.configured_name.clone(),
        }
    }
}

fn copy_text(s: &Option<String>) -> (r: Option<String>)
    ensures
        text_of(r) == text_of(*s),
{
    match s {
        Some(text) => Some(text.clone()),
        None => None,
    }
}

impl InstalledEndpoint {
    /// The same endpoint once more.
    #[must_use]
    pub fn duplicate(&self) -> (r: Self)
        ensures
            r@ == self@,
    {
        InstalledEndpoint {
            stable_id: self.stable_id.clone(),
            kind: self.kind,
            hardware_id: self.hardware_id.clone(),
            instance_id: self.instance_id.clone(),
            display_name: self.display_name.clone(),
            com_port: copy_text(&self.com_port),
            authorized_for_current_user: self.authorized_for_current_user,
        }
    }
}

/// What is found on a system.
#[derive(Debug)]
pub struct SystemSnapshot {
    /// The CatHub devices.
    pub owned: Vec<InstalledEndpoint>,
    /// The COM ports that are taken.
    pub claims: Vec<PortClaim>,
}

/// One step of a plan.
#[derive(Debug, PartialEq, Eq)]
pub enum ProvisionAction {
    /// Create a device.
    Create {
        /// The stable name.
        stable_id: String,
        /// The hardware id.
        hardware_id: String,
        /// The COM port it gets.
        com_port: String,
    },
    /// Move a device to another port.
    Reassign {
        /// The stable name.
        stable_id: String,
        /// The device instance.
        instance_id: String,
        /// The COM port it has.
        from: Option<String>,
        /// The COM port it gets.
        to: String,
    },
    /// Make the current user the owner of a device.
    Authorize {
        /// The stable name.
        stable_id: String,
        /// The device instance.
        instance_id: String,
        /// The COM port it has.
        com_port: String,
    },
    /// Leave a device as it is.
    Retain {
        /// The stable name.
        stable_id: String,
        /// The device instance.
        instance_id: String,
        /// The COM port it has.
        com_port: String,
    },
}

/// One step of a plan, as a value of the model.
pub enum Step {
    /// Create a device.
    Create {
        /// The stable name.
        stable_id: Seq<char>,
        /// The hardware id.
        hardware_id: Seq<char>,
        /// The COM port it gets.
        com_port: Seq<char>,
    },
    /// Move a device to another port.
    Reassign {
        /// The stable name.
        stable_id: Seq<char>,
        /// The device instance.
        instance_id: Seq<char>,
        /// The COM port it has.
        from: Option<Seq<char>>,
        /// The COM port it gets.
        to: Seq<char>,
    },
    /// Make the current user the owner of a device.
    Authorize {
        /// The stable name.
        stable_id: Seq<char>,
        /// The device instance.
        instance_id: Seq<char>,
        /// The COM port it has.
        com_port: Seq<char>,
    },
    /// Leave a device as it is.
    Retain {
        /// The stable name.
        stable_id: Seq<char>,
        /// The device instance.
        instance_id: Seq<char>,
        /// The COM port it has.
        com_port: Seq<char>,
    },
}

impl View for ProvisionAction {
    type V = Step;

    open spec fn view(&self) -> Step {
        match *self {
            ProvisionAction::Create { stable_id, hardware_id, com_port } => Step::Create {
                stable_id: stable_id@,
                hardware_id: hardware_id@,
                com_port: com_port@,
            },
            ProvisionAction::Reassign { stable_id, instance_id, from, to } => Step::Reassign {
                stable_id: stable_id@,
                instance_id: instance_id@,
                from: text_of(from),
                to: to@,
            },
            ProvisionAction::Authorize { stable_id, instance_id, com_port } => Step::Authorize {
                stable_id: stable_id@,
                instance_id: instance_id@,
                com_port: com_port@,
            },
            ProvisionAction::Retain { stable_id, instance_id, com_port } => Step::Retain {
                stable_id: stable_id@,
                instance_id: instance_id@,
                com_port: com_port@,
            },
        }
    }
}

/// The steps of a vector.
pub open spec fn step_views(v: Seq<ProvisionAction>) -> Seq<Step> {
    v.map_values(|a: ProvisionAction| a@)
}

/// What has to change for a system to have the endpoints that are wanted.
#[derive(Debug)]
pub struct ProvisionPlan {
    /// The endpoints that are wanted, in the order of their names.
    pub desired: Vec<DesiredEndpoint>,
    /// What is done for each of them.
    pub actions: Vec<ProvisionAction>,
    /// The claims of others that stand in the way.
    pub conflicts: Vec<PortClaim>,
}

/// A plan, as a value of the model.
pub struct Plan {
    /// The endpoints that are wanted, in the order of their names.
    pub desired: Seq<Desired>,
    /// What is done for each of them.
    pub steps: Seq<Step>,
    /// The claims of others that stand in the way.
    pub conflicts: Seq<Claim>,
}

impl View for ProvisionPlan {
    type V = Plan;

    open spec fn view(&self) -> Plan {
        Plan {
            desired: desired_views(self.desired@),
            steps: step_views(self.actions@),
            conflicts: claim_views(self.conflicts@),
        }
    }
}

impl Plan {
    /// Whether a plan changes anything.
    pub open spec fn changes(self) -> bool {
        exists|i: int| 0 <= i < self.steps.len() && (#[trigger] self.steps[i]) !is Retain
    }
}

impl ProvisionPlan {
    /// Whether nothing stands in the way of the plan.
    #[must_use]
    pub fn is_applicable(&self) -> (r: bool)
        ensures
            r == (self@.conflicts.len() == 0),
    {
        self.conflicts.len() == 0
    }

    /// Whether the plan changes anything.
    #[must_use]
    pub fn requires_changes(&self) -> (r: bool)
        ensures
            r == self@.changes(),
    {
        let mut i: usize = 0;
        while i < self.actions.len()
            invariant
                i <= self.actions@.len(),
                forall|j: int| 0 <= j < i ==> (#[trigger] self@.steps[j]) is Retain,
            decreases self.actions@.len() - i,
        {
            match &self.actions[i] {
                ProvisionAction::Retain { .. } => {},
                _ => {
                    proof {
                        assert(self@.steps[i as int] !is Retain);
                    }
                    return true;
                },
            }
            i = i + 1;
        }
        false
    }
}

/// The device that is installed under a name: the last one, where there are several.
pub open spec fn installed_as(owned: Seq<Installed>, id: Seq<char>) -> Option<Installed>
    decreases owned.len(),
{
    if owned.len() == 0 {
        None
    } else if lowered(owned.last().stable_id) == id {
        Some(owned.last())
    } else {
        installed_as(owned.drop_last(), id)
    }
}

/// The claim to a port: the last one, where there are several.
pub open spec fn claim_to(claims: Seq<Claim>, port: Seq<char>) -> Option<Claim>
    decreases claims.len(),
{
    if claims.len() == 0 {
        None
    } else if uppered(claims.last().com_port) == port {
        Some(claims.last())
    } else {
        claim_to(claims.drop_last(), port)
    }
}

/// Whether a device has a port.
pub open spec fn has_port(device: Installed, port: Seq<char>) -> bool {
    device.com_port matches Some(own) && same_ignoring_case(own, port)
}

/// The claim of someone else to the port that an endpoint wants.
pub open spec fn conflict_of(endpoint: Desired, owned: Seq<Installed>, claims: Seq<Claim>) -> Option<
    Claim,
> {
    match claim_to(claims, endpoint.com_port) {
        None => None,
        Some(claim) => {
            let own = match installed_as(owned, endpoint.stable_id) {
                Some(device) => same_ignoring_case(device.instance_id, claim.owner) || has_port(
                    device,
                    claim.com_port,
                ),
                None => false,
            };
            if own {
                None
            } else {
                Some(claim)
            }
        },
    }
}

/// What is done for an endpoint: a device is created where there is none, moved where it has
/// another port, handed over where it has another owner, and left alone otherwise.
pub open spec fn step_for(endpoint: Desired, owned: Seq<Installed>) -> Step {
    match installed_as(owned, endpoint.stable_id) {
        None => Step::Create {
            stable_id: endpoint.stable_id,
            hardware_id: endpoint.hardware_id,
            com_port: endpoint.com_port,
        },
        Some(device) => if !has_port(device, endpoint.com_port) {
            Step::Reassign {
                stable_id: endpoint.stable_id,
                instance_id: device.instance_id,
                from: device.com_port,
                to: endpoint.com_port,
            }
        } else if device.authorized {
            Step::Retain {
                stable_id: endpoint.stable_id,
                instance_id: device.instance_id,
                com_port: endpoint.com_port,
            }
        } else {
            Step::Authorize {
                stable_id: endpoint.stable_id,
                instance_id: device.instance_id,
                com_port: endpoint.com_port,
            }
        },
    }
}

/// The conflicts of several endpoints, in their order.
pub open spec fn conflicts_of(
    desired: Seq<Desired>,
    owned: Seq<Installed>,
    claims: Seq<Claim>,
) -> Seq<Claim>
    decreases desired.len(),
{
    if desired.len() == 0 {
        Seq::empty()
    } else {
        let earlier = conflicts_of(desired.drop_last(), owned, claims);
        match conflict_of(desired.last(), owned, claims) {
            Some(claim) => earlier.push(claim),
            None => earlier,
        }
    }
}

/// Claims without those that repeat the port of the one kept before them.
pub open spec fn distinct(claims: Seq<Claim>) -> Seq<Claim>
    decreases claims.len(),
{
    if claims.len() == 0 {
        Seq::empty()
    } else {
        let earlier = distinct(claims.drop_last());
        if earlier.len() > 0 && same_ignoring_case(
            claims.last().com_port,
            earlier.last().com_port,
        ) {
            earlier
        } else {
            earlier.push(claims.last())
        }
    }
}

/// Endpoints in the order of their names.
pub open spec fn by_name(desired: Seq<Desired>) -> Seq<Desired> {
    in_order(desired, desired.map_values(|d: Desired| text_key(d.stable_id)))
}

/// Claims in the order of their ports' names.
pub open spec fn by_port(claims: Seq<Claim>) -> Seq<Claim> {
    in_order(claims, claims.map_values(|c: Claim| text_key(c.com_port)))
}

/// Whether several devices go by the name of the device `i`, which is wanted.
pub open spec fn ambiguous(desired: Seq<Desired>, owned: Seq<Installed>, i: int) -> bool {
    &&& 0 <= i < owned.len()
    &&& exists|d: int|
        0 <= d < desired.len() && (#[trigger] desired[d]).stable_id == owned[i].stable_id
    &&& exists|j: int|
        0 <= j < owned.len() && j != i && (#[trigger] owned[j]).stable_id == owned[i].stable_id
}

/// The first device that shares its name with another one, where that name is wanted.
pub open spec fn first_ambiguous(desired: Seq<Desired>, owned: Seq<Installed>, n: nat) -> Option<
    int,
>
    decreases n,
{
    if n == 0 {
        None
    } else {
        match first_ambiguous(desired, owned, (n - 1) as nat) {
            Some(i) => Some(i),
            None => if ambiguous(desired, owned, n - 1) {
                Some(n - 1)
            } else {
                None
            },
        }
    }
}

/// What is said where several devices go by one name.
pub open spec fn ambiguity(id: Seq<char>) -> Seq<char> {
    "multiple CatHub-owned PnP devices advertise stable endpoint `"@ + id
        + "`; remove the duplicates before applying"@
}

/// The plan for the endpoints that are wanted.
pub open spec fn planned(desired: Seq<Desired>, owned: Seq<Installed>, claims: Seq<Claim>) -> Result<
    Plan,
    Seq<char>,
> {
    let sorted = by_name(desired);
    match first_ambiguous(desired, owned, owned.len()) {
        Some(i) => Err(ambiguity(owned[i].stable_id)),
        None => Ok(
            Plan {
                desired: sorted,
                steps: sorted.map_values(|d: Desired| step_for(d, owned)),
                conflicts: distinct(by_port(conflicts_of(sorted, owned, claims))),
            },
        ),
    }
}

fn sort_desired(desired: &Vec<DesiredEndpoint>) -> (r: Vec<DesiredEndpoint>)
    ensures
        desired_views(r@) == by_name(desired_views(desired@)),
{
    let ghost items = desired_views(desired@);
    let ghost want = items.map_values(|d: Desired| text_key(d.stable_id));
    let mut keys: Vec<Vec<u32>> = Vec::new();
    let mut i: usize = 0;
    while i < desired.len()
        invariant
            i <= desired@.len(),
            items == desired_views(desired@),
            want == items.map_values(|d: Desired| text_key(d.stable_id)),
            key_seqs(keys@) =~= want.take(i as int),
        decreases desired@.len() - i,
    {
        let ghost before = key_seqs(keys@);
        keys.push(key_of_text(desired[i].stable_id.as_str()));
        proof {
            assert(items[i as int] == desired@[i as int]@);
            assert(key_seqs(keys@) =~= before.push(want[i as int]));
            assert(want.take(i + 1) =~= want.take(i as int).push(want[i as int]));
        }
        i = i + 1;
    }
    proof {
        assert(key_seqs(keys@) =~= want);
    }
    let order = sort_keys(&keys);
    let mut sorted: Vec<DesiredEndpoint> = Vec::new();
    let mut k: usize = 0;
    while k < order.len()
        invariant
            k <= order@.len(),
            order@.len() == desired@.len(),
            items == desired_views(desired@),
            forall|j: int| 0 <= j < order@.len() ==> #[trigger] order@[j] < desired@.len(),
            desired_views(sorted@) =~= indices(order@).take(k as int).map_values(
                |j: int| items[j],
            ),
        decreases order@.len() - k,
    {
        let ghost before = desired_views(sorted@);
        let ghost picked = items[order@[k as int] as int];
        sorted.push(desired[order[k]].duplicate());
        proof {
            assert(desired_views(sorted@) =~= before.push(picked));
            assert(indices(order@).take(k + 1) =~= indices(order@).take(k as int).push(
                order@[k as int] as int,
            ));
        }
        k = k + 1;
    }
    proof {
        assert(indices(order@).take(k as int) =~= indices(order@));
    }
    sorted
}

fn sort_claims(claims: &Vec<PortClaim>) -> (r: Vec<PortClaim>)
    ensures
        claim_views(r@) == by_port(claim_views(claims@)),
{
    let ghost items = claim_views(claims@);
    let ghost want = items.map_values(|c: Claim| text_key(c.com_port));
    let mut keys: Vec<Vec<u32>> = Vec::new();
    let mut i: usize = 0;
    while i < claims.len()
        invariant
            i <= claims@.len(),
            items == claim_views(claims@),
            want == items.map_values(|c: Claim| text_key(c.com_port)),
            key_seqs(keys@) =~= want.take(i as int),
        decreases claims@.len() - i,
    {
        let ghost before = key_seqs(keys@);
        keys.push(key_of_text(claims[i].com_port.as_str()));
        proof {
            assert(items[i as int] == claims@[i as int]@);
            assert(key_seqs(keys@) =~= before.push(want[i as int]));
            assert(want.take(i + 1) =~= want.take(i as int).push(want[i as int]));
        }
        i = i + 1;
    }
    proof {
        assert(key_seqs(keys@) =~= want);
    }
    let order = sort_keys(&keys);
    let mut sorted: Vec<PortClaim> = Vec::new();
    let mut k: usize = 0;
    while k < order.len()
        invariant
            k <= order@.len(),
            order@.len() == claims@.len(),
            items == claim_views(claims@),
            forall|j: int| 0 <= j < order@.len() ==> #[trigger] order@[j] < claims@.len(),
            claim_views(sorted@) =~= indices(order@).take(k as int).map_values(|j: int| items[j]),
        decreases order@.len() - k,
    {
        let ghost before = claim_views(sorted@);
        let ghost picked = items[order@[k as int] as int];
        sorted.push(claims[order[k]].duplicate());
        proof {
            assert(claim_views(sorted@) =~= before.push(picked));
            assert(indices(order@).take(k + 1) =~= indices(order@).take(k as int).push(
                order@[k as int] as int,
            ));
        }
        k = k + 1;
    }
    proof {
        assert(indices(order@).take(k as int) =~= indices(order@));
    }
    sorted
}

fn drop_repeats(claims: &Vec<PortClaim>) -> (r: Vec<PortClaim>)
    ensures
        claim_views(r@) == distinct(claim_views(claims@)),
{
    let ghost all = claim_views(claims@);
    let mut kept: Vec<PortClaim> = Vec::new();
    let mut i: usize = 0;
    proof {
        assert(claim_views(kept@) =~= Seq::empty());
    }
    while i < claims.len()
        invariant
            i <= claims@.len(),
            all == claim_views(claims@),
            claim_views(kept@) == distinct(all.take(i as int)),
        decreases claims@.len() - i,
    {
        let ghost before = claim_views(kept@);
        proof {
            assert(all.take(i + 1).drop_last() =~= all.take(i as int));
            assert(all.take(i + 1).last() == claims@[i as int]@);
        }
        let n: usize = kept.len();
        let repeated: bool = n > 0 && eq_ignore_ascii_case(
            claims[i].com_port.as_str(),
            kept[n - 1].com_port.as_str(),
        );
        if !repeated {
            kept.push(claims[i].duplicate());
            proof {
                assert(claim_views(kept@) =~= before.push(claims@[i as int]@));
            }
        }
        i = i + 1;
    }
    proof {
        assert(all.take(i as int) =~= all);
    }
    kept
}

fn find_installed<'a>(owned: &'a Vec<InstalledEndpoint>, id: &str) -> (r: Option<
    &'a InstalledEndpoint,
>)
    ensures
        match r {
            Some(device) => installed_as(installed_views(owned@), id@) == Some(device@),
            None => installed_as(installed_views(owned@), id@) is None,
        },
{
    let ghost all = installed_views(owned@);
    let mut n: usize = owned.len();
    proof {
        assert(all.take(n as int) =~= all);
    }
    while n > 0
        invariant
            n <= owned@.len(),
            all == installed_views(owned@),
            installed_as(all, id@) == installed_as(all.take(n as int), id@),
        decreases n,
    {
        proof {
            assert(all.take(n as int).drop_last() =~= all.take(n - 1));
            assert(all.take(n as int).last() == owned@[n - 1]@);
        }
        let device = &owned[n - 1];
        if same_text(to_ascii_lowercase(device.stable_id.as_str()).as_str(), id) {
            return Some(device);
        }
        n = n - 1;
    }
    None
}

fn find_claim<'a>(claims: &'a Vec<PortClaim>, port: &str) -> (r: Option<&'a PortClaim>)
    ensures
        match r {
            Some(claim) => claim_to(claim_views(claims@), port@) == Some(claim@),
            None => claim_to(claim_views(claims@), port@) is None,
        },
{
    let ghost all = claim_views(claims@);
    let mut n: usize = claims.len();
    proof {
        assert(all.take(n as int) =~= all);
    }
    while n > 0
        invariant
            n <= claims@.len(),
            all == claim_views(claims@),
            claim_to(all, port@) == claim_to(all.take(n as int), port@),
        decreases n,
    {
        proof {
            assert(all.take(n as int).drop_last() =~= all.take(n - 1));
            assert(all.take(n as int).last() == claims@[n - 1]@);
        }
        let claim = &claims[n - 1];
        if same_text(to_ascii_uppercase(claim.com_port.as_str()).as_str(), port) {
            return Some(claim);
        }
        n = n - 1;
    }
    None
}

fn is_on_port(device: &InstalledEndpoint, port: &str) -> (r: bool)
    ensures
        r == has_port(device@, port@),
{
    match &device.com_port {
        Some(own) => eq_ignore_ascii_case(own.as_str(), port),
        None => false,
    }
}

fn find_conflict(endpoint: &DesiredEndpoint, snapshot: &SystemSnapshot) -> (r: Option<PortClaim>)
    ensures
        match r {
            Some(claim) => conflict_of(
                endpoint@,
                installed_views(snapshot.owned@),
                claim_views(snapshot.claims@),
            ) == Some(claim@),
            None => conflict_of(
                endpoint@,
                installed_views(snapshot.owned@),
                claim_views(snapshot.claims@),
            ) is None,
        },
{
    let claim = match find_claim(&snapshot.claims, endpoint.com_port.as_str()) {
        Some(claim) => claim,
        None => return None,
    };
    let own: bool = match find_installed(&snapshot.owned, endpoint.stable_id.as_str()) {
        Some(device) => eq_ignore_ascii_case(device.instance_id.as_str(), claim.owner.as_str())
            || is_on_port(device, claim.com_port.as_str()),
        None => false,
    };
    if own {
        None
    } else {
        Some(claim.duplicate())
    }
}

fn action_for(endpoint: &DesiredEndpoint, owned: &Vec<InstalledEndpoint>) -> (r: ProvisionAction)
    ensures
        r@ == step_for(endpoint@, installed_views(owned@)),
{
    let stable_id = endpoint.stable_id.clone();
    let com_port = endpoint.com_port.clone();
    match find_installed(owned, endpoint.stable_id.as_str()) {
        None => ProvisionAction::Create {
            stable_id,
            hardware_id: endpoint.hardware_id.clone(),
            com_port,
        },
        Some(device) => {
            let instance_id = device.instance_id.clone();
            if !is_on_port(device, endpoint.com_port.as_str()) {
                ProvisionAction::Reassign {
                    stable_id,
                    instance_id,
                    from: copy_text(&device.com_port),
                    to: com_port,
                }
            } else if device.authorized_for_current_user {
                ProvisionAction::Retain { stable_id, instance_id, com_port }
            } else {
                ProvisionAction::Authorize { stable_id, instance_id, com_port }
            }
        },
    }
}

fn is_ambiguous(desired: &Vec<DesiredEndpoint>, owned: &Vec<InstalledEndpoint>, i: usize) -> (r:
    bool)
    requires
        i < owned@.len(),
    ensures
        r == ambiguous(desired_views(desired@), installed_views(owned@), i as int),
{
    let ghost want = desired_views(desired@);
    let ghost all = installed_views(owned@);
    let id = owned[i].stable_id.as_str();
    let mut wanted: bool = false;
    let mut d: usize = 0;
    while d < desired.len()
        invariant
            d <= desired@.len(),
            want == desired_views(desired@),
            wanted == exists|e: int| 0 <= e < d && (#[trigger] want[e]).stable_id == id@,
        decreases desired@.len() - d,
    {
        if same_text(desired[d].stable_id.as_str(), id) {
            wanted = true;
        }
        proof {
            assert(want[d as int].stable_id == desired@[d as int].stable_id@);
        }
        d = d + 1;
    }
    let mut shared: bool = false;
    let mut j: usize = 0;
    while j < owned.len()
        invariant
            j <= owned@.len(),
            i < owned@.len(),
            all == installed_views(owned@),
            shared == exists|e: int|
                0 <= e < j && e != i && (#[trigger] all[e]).stable_id == id@,
        decreases owned@.len() - j,
    {
        if j != i && same_text(owned[j].stable_id.as_str(), id) {
            shared = true;
        }
        proof {
            assert(all[j as int].stable_id == owned@[j as int].stable_id@);
        }
        j = j + 1;
    }
    wanted && shared
}

proof fn lemma_first_ambiguous_stays(
    desired: Seq<Desired>,
    owned: Seq<Installed>,
    n: nat,
    m: nat,
)
    requires
        n <= m,
        first_ambiguous(desired, owned, n) is Some,
    ensures
        first_ambiguous(desired, owned, m) == first_ambiguous(desired, owned, n),
    decreases m,
{
    if n < m {
        lemma_first_ambiguous_stays(desired, owned, n, (m - 1) as nat);
    }
}

/// Plan what has to change for a system to have the endpoints that are wanted.
///
/// # Errors
///
/// Returns an error if several devices go by a name that is wanted.
pub fn plan_from_snapshot(desired: &Vec<DesiredEndpoint>, snapshot: &SystemSnapshot) -> (r: Result<
    ProvisionPlan,
    String,
>)
    ensures
        match r {
            Ok(plan) => planned(
                desired_views(desired@),
                installed_views(snapshot.owned@),
                claim_views(snapshot.claims@),
            ) == Ok::<Plan, Seq<char>>(plan@),
            Err(why) => planned(
                desired_views(desired@),
                installed_views(snapshot.owned@),
                claim_views(snapshot.claims@),
            ) == Err::<Plan, Seq<char>>(why@),
        },
{
    let ghost want = desired_views(desired@);
    let ghost owned = installed_views(snapshot.owned@);
    let ghost claims = claim_views(snapshot.claims@);
    let mut i: usize = 0;
    while i < snapshot.owned.len()
        invariant
            i <= snapshot.owned@.len(),
            want == desired_views(desired@),
            owned == installed_views(snapshot.owned@),
            claims == claim_views(snapshot.claims@),
            first_ambiguous(want, owned, i as nat) is None,
        decreases snapshot.owned@.len() - i,
    {
        if is_ambiguous(desired, &snapshot.owned, i) {
            proof {
                lemma_first_ambiguous_stays(want, owned, (i + 1) as nat, owned.len());
                assert(owned[i as int].stable_id == snapshot.owned@[i as int].stable_id@);
            }
            let mut why =
                "multiple CatHub-owned PnP devices advertise stable endpoint `".to_owned();
            why.append(snapshot.owned[i].stable_id.as_str());
            why.append("`; remove the duplicates before applying");
            return Err(why);
        }
        i = i + 1;
    }
    let sorted = sort_desired(desired);
    let ghost names = desired_views(sorted@);
    let mut actions: Vec<ProvisionAction> = Vec::new();
    let mut conflicts: Vec<PortClaim> = Vec::new();
    let mut k: usize = 0;
    proof {
        assert(claim_views(conflicts@) =~= Seq::empty());
    }
    while k < sorted.len()
        invariant
            k <= sorted@.len(),
            names == desired_views(sorted@),
            owned == installed_views(snapshot.owned@),
            claims == claim_views(snapshot.claims@),
            step_views(actions@) =~= names.take(k as int).map_values(
                |d: Desired| step_for(d, owned),
            ),
            claim_views(conflicts@) == conflicts_of(names.take(k as int), owned, claims),
        decreases sorted@.len() - k,
    {
        let ghost before = claim_views(conflicts@);
        proof {
            assert(names.take(k + 1).drop_last() =~= names.take(k as int));
            assert(names.take(k + 1).last() == sorted@[k as int]@);
        }
        if let Some(claim) = find_conflict(&sorted[k], snapshot) {
            let ghost added = claim@;
            conflicts.push(claim);
            proof {
                assert(claim_views(conflicts@) =~= before.push(added));
            }
        }
        let ghost done = step_views(actions@);
        actions.push(action_for(&sorted[k], &snapshot.owned));
        proof {
            assert(step_views(actions@) =~= done.push(step_for(names[k as int], owned)));
            assert(names.take(k + 1) =~= names.take(k as int).push(names[k as int]));
        }
        k = k + 1;
    }
    proof {
        assert(names.take(k as int) =~= names);
    }
    let conflicts = drop_repeats(&sort_claims(&conflicts));
    Ok(ProvisionPlan { desired: sorted, actions, conflicts })
}

/// What is said of claims that stand in the way.
pub open spec fn conflict_text(conflicts: Seq<Claim>) -> Seq<char> {
    "requested COM ports are already claimed: "@ + crate::text::joined_by(
        conflicts.map_values(|c: Claim| c.com_port + " ("@ + c.owner + ")"@),
        ", "@,
    )
}

/// What is said of claims that stand in the way.
#[must_use]
pub fn format_conflicts(conflicts: &Vec<PortClaim>) -> (r: String)
    ensures
        r@ == conflict_text(claim_views(conflicts@)),
{
    let ghost all = claim_views(conflicts@).map_values(
        |c: Claim| c.com_port + " ("@ + c.owner + ")"@,
    );
    let ghost start = "requested COM ports are already claimed: "@;
    let mut out = "requested COM ports are already claimed: ".to_owned();
    let mut i: usize = 0;
    proof {
        assert(start + crate::text::joined_by(all.take(0), ", "@) =~= start);
    }
    while i < conflicts.len()
        invariant
            i <= conflicts@.len(),
            all == claim_views(conflicts@).map_values(
                |c: Claim| c.com_port + " ("@ + c.owner + ")"@,
            ),
            out@ == start + crate::text::joined_by(all.take(i as int), ", "@),
        decreases conflicts@.len() - i,
    {
        if i > 0 {
            out.append(", ");
        }
        out.append(conflicts[i].com_port.as_str());
        out.append(" (");
        out.append(conflicts[i].owner.as_str());
        out.append(")");
        proof {
            assert(all.take(i + 1).drop_last() =~= all.take(i as int));
            assert(all.take(i + 1).last() == conflicts@[i as int].com_port@ + " ("@
                + conflicts@[i as int].owner@ + ")"@);
            if i == 0 {
                assert(all.take(0) =~= Seq::empty());
            }
            assert(out@ =~= start + crate::text::joined_by(all.take(i + 1), ", "@));
        }
        i = i + 1;
    }
    proof {
        assert(all.take(i as int) =~= all);
    }
    out
}

/// Check that a system now has what a plan wanted.
///
/// # Errors
///
/// Returns an error if something is in the way or something still has to change.
pub fn confirm(plan: &ProvisionPlan, after: &SystemSnapshot) -> (r: Result<(), String>)
    ensures
        match planned(
            plan@.desired,
            installed_views(after.owned@),
            claim_views(after.claims@),
        ) {
            Err(why) => r matches Err(e) && e@ == why,
            Ok(left) => if left.conflicts.len() > 0 || left.changes() {
                r matches Err(e) && e@
                    == "provisioning completed but the resulting PnP/COM state does not match the requested plan"@
            } else {
                r is Ok
            },
        },
{
    match plan_from_snapshot(&plan.desired, after) {
        Err(why) => Err(why),
        Ok(left) => {
            if !left.is_applicable() || left.requires_changes() {
                Err(
                    "provisioning completed but the resulting PnP/COM state does not match the requested plan".to_owned(),
                )
            } else {
                Ok(())
            }
        },
    }
}

/// Provisioning is idempotent: where every wanted endpoint is installed on its port and
/// belongs to the user, nothing is in the way and nothing changes.
pub proof fn law_provisioning_is_idempotent(
    desired: Seq<Desired>,
    owned: Seq<Installed>,
    claims: Seq<Claim>,
)
    requires
        first_ambiguous(desired, owned, owned.len()) is None,
        forall|d: int|
            0 <= d < desired.len() ==> {
                let want = #[trigger] desired[d];
                &&& installed_as(owned, want.stable_id) matches Some(device) && has_port(
                    device,
                    want.com_port,
                ) && device.authorized
                &&& claim_to(claims, want.com_port) matches Some(claim) ==> same_ignoring_case(
                    claim.owner,
                    installed_as(owned, want.stable_id)->Some_0.instance_id,
                )
            },
    ensures
        planned(desired, owned, claims) matches Ok(plan) && plan.conflicts.len() == 0
            && !plan.changes(),
{
    let keys = desired.map_values(|d: Desired| text_key(d.stable_id));
    law_sorted(keys, keys.len());
    let sorted = by_name(desired);
    let order = sorted_indices(keys, keys.len());
    assert forall|i: int| 0 <= i < sorted.len() implies step_for(#[trigger] sorted[i], owned)
        is Retain && conflict_of(sorted[i], owned, claims) is None by {
        assert(sorted[i] == desired[order[i]]);
    }
    lemma_no_conflicts(sorted, owned, claims);
    let none = conflicts_of(sorted, owned, claims);
    assert(by_port(none) =~= Seq::empty());
}

pub(crate) proof fn lemma_no_conflicts(desired: Seq<Desired>, owned: Seq<Installed>, claims: Seq<Claim>)
    requires
        forall|i: int|
            0 <= i < desired.len() ==> conflict_of(#[trigger] desired[i], owned, claims) is None,
    ensures
        conflicts_of(desired, owned, claims) == Seq::<Claim>::empty(),
    decreases desired.len(),
{
    if desired.len() > 0 {
        lemma_no_conflicts(desired.drop_last(), owned, claims);
    }
}

pub(crate) proof fn lemma_claim_to(claims: Seq<Claim>, port: Seq<char>)
    ensures
        claim_to(claims, port) matches Some(claim) ==> claims.contains(claim) && uppered(
            claim.com_port,
        ) == port,
    decreases claims.len(),
{
    if claims.len() > 0 {
        let last = claims.last();
        if uppered(last.com_port) == port {
            assert(claims[claims.len() - 1] == last);
        } else {
            let rest = claims.drop_last();
            lemma_claim_to(rest, port);
            if let Some(claim) = claim_to(rest, port) {
                let i = rest.index_of(claim);
                assert(claims[i] == claim);
            }
        }
    }
}

/// Whether an endpoint meets this conflict.
pub open spec fn meets(
    desired: Seq<Desired>,
    owned: Seq<Installed>,
    claims: Seq<Claim>,
    d: int,
    claim: Claim,
) -> bool {
    &&& 0 <= d < desired.len()
    &&& conflict_of(desired[d], owned, claims) == Some(claim)
}

proof fn lemma_conflicts(
    desired: Seq<Desired>,
    owned: Seq<Installed>,
    claims: Seq<Claim>,
    claim: Claim,
)
    ensures
        conflicts_of(desired, owned, claims).contains(claim) <==> exists|d: int|
            #[trigger] meets(desired, owned, claims, d, claim),
    decreases desired.len(),
{
    let found = conflicts_of(desired, owned, claims);
    if desired.len() > 0 {
        let rest = desired.drop_last();
        let earlier = conflicts_of(rest, owned, claims);
        let last = desired.len() - 1;
        lemma_conflicts(rest, owned, claims, claim);
        if found.contains(claim) {
            let i = found.index_of(claim);
            if i < earlier.len() {
                assert(earlier[i] == claim);
                assert(earlier.contains(claim));
                let d = choose|d: int| #[trigger] meets(rest, owned, claims, d, claim);
                assert(meets(desired, owned, claims, d, claim));
            } else {
                assert(meets(desired, owned, claims, last, claim));
            }
        }
        if exists|d: int| #[trigger] meets(desired, owned, claims, d, claim) {
            let d = choose|d: int| #[trigger] meets(desired, owned, claims, d, claim);
            if d < last {
                assert(meets(rest, owned, claims, d, claim));
                assert(earlier.contains(claim));
                let i = earlier.index_of(claim);
                assert(found[i] == claim);
            } else {
                assert(found[found.len() - 1] == claim);
            }
        }
    }
}

/// Conflicts over one port, however it is written, are one and the same claim.
proof fn lemma_one_conflict(
    desired: Seq<Desired>,
    owned: Seq<Installed>,
    claims: Seq<Claim>,
    d: int,
    e: int,
    a: Claim,
    b: Claim,
)
    requires
        meets(desired, owned, claims, d, a),
        meets(desired, owned, claims, e, b),
        same_ignoring_case(a.com_port, b.com_port),
    ensures
        a == b,
{
    lemma_claim_to(claims, desired[d].com_port);
    lemma_claim_to(claims, desired[e].com_port);
    assert forall|i: int| 0 <= i < a.com_port.len() implies upper_ascii(#[trigger] a.com_port[i])
        == upper_ascii(b.com_port[i]) by {
        assert(lower_ascii(a.com_port[i]) == lower_ascii(b.com_port[i]));
    }
    assert(uppered(a.com_port) =~= uppered(b.com_port));
}

/// Whether claims stand in the order of their ports' names.
pub open spec fn port_order(claims: Seq<Claim>) -> bool {
    forall|i: int, j: int|
        0 <= i < j < claims.len() ==> !precedes(
            text_key((#[trigger] claims[j]).com_port),
            text_key((#[trigger] claims[i]).com_port),
        )
}

/// Whether no two claims are to one port.
pub open spec fn port_once(claims: Seq<Claim>) -> bool {
    forall|i: int, j: int|
        0 <= i < j < claims.len() ==> !same_ignoring_case(
            (#[trigger] claims[i]).com_port,
            (#[trigger] claims[j]).com_port,
        )
}

proof fn lemma_char_key(a: char, b: char)
    requires
        a as u32 == b as u32,
    ensures
        a == b,
{
}

proof fn lemma_text_key(a: Seq<char>, b: Seq<char>)
    requires
        text_key(a) == text_key(b),
    ensures
        a == b,
{
    assert(a.len() == text_key(a).len());
    assert(b.len() == text_key(b).len());
    assert forall|i: int| 0 <= i < a.len() implies a[i] == b[i] by {
        assert(text_key(a)[i] == a[i] as u32);
        assert(text_key(b)[i] == b[i] as u32);
        lemma_char_key(a[i], b[i]);
    }
    assert(a =~= b);
}

#[verifier::spinoff_prover]
#[verifier::rlimit(40)]
proof fn lemma_distinct(claims: Seq<Claim>)
    requires
        port_order(claims),
        forall|i: int, j: int|
            0 <= i < claims.len() && 0 <= j < claims.len() && same_ignoring_case(
                (#[trigger] claims[i]).com_port,
                (#[trigger] claims[j]).com_port,
            ) ==> claims[i] == claims[j],
    ensures
        port_order(distinct(claims)),
        port_once(distinct(claims)),
        forall|claim: Claim| #[trigger]
            distinct(claims).contains(claim) <==> claims.contains(claim),
        claims.len() > 0 ==> distinct(claims).len() > 0 && distinct(claims).last()
            == claims.last(),
    decreases claims.len(),
{
    if claims.len() > 0 {
        let rest = claims.drop_last();
        let last = claims.last();
        let n = claims.len() - 1;
        assert forall|i: int, j: int|
            0 <= i < rest.len() && 0 <= j < rest.len() && same_ignoring_case(
                (#[trigger] rest[i]).com_port,
                (#[trigger] rest[j]).com_port,
            ) implies rest[i] == rest[j] by {
            assert(claims[i] == rest[i] && claims[j] == rest[j]);
        }
        assert forall|i: int, j: int| 0 <= i < j < rest.len() implies !precedes(
            text_key((#[trigger] rest[j]).com_port),
            text_key((#[trigger] rest[i]).com_port),
        ) by {
            assert(claims[i] == rest[i] && claims[j] == rest[j]);
        }
        lemma_distinct(rest);
        let earlier = distinct(rest);
        let kept = distinct(claims);
        let repeats = earlier.len() > 0 && same_ignoring_case(
            last.com_port,
            earlier.last().com_port,
        );
        if earlier.len() > 0 {
            assert(rest.len() > 0) by {
                if rest.len() == 0 {
                    assert(distinct(rest) =~= Seq::empty());
                }
            }
            assert(earlier.last() == claims[n - 1]);
            assert(claims[n] == last);
        }
        assert forall|i: int| 0 <= i < earlier.len() implies !precedes(
            text_key(last.com_port),
            text_key((#[trigger] earlier[i]).com_port),
        ) && (!repeats ==> !same_ignoring_case(earlier[i].com_port, last.com_port)) by {
            assert(earlier.contains(earlier[i]));
            let k = rest.index_of(earlier[i]);
            assert(claims[k] == earlier[i]);
            assert(!precedes(text_key(last.com_port), text_key(claims[k].com_port)));
            if !repeats && same_ignoring_case(earlier[i].com_port, last.com_port) {
                assert(claims[k] == claims[n]);
                let end = earlier.last();
                if i < earlier.len() - 1 {
                    assert(!precedes(text_key(end.com_port), text_key(earlier[i].com_port)));
                }
                assert(!precedes(text_key(last.com_port), text_key(end.com_port)));
                lemma_precedes_strict(text_key(end.com_port), text_key(last.com_port));
                lemma_text_key(end.com_port, last.com_port);
            }
        }
        assert forall|claim: Claim| #[trigger] kept.contains(claim) <==> claims.contains(
            claim,
        ) by {
            if kept.contains(claim) {
                let i = kept.index_of(claim);
                if i < earlier.len() {
                    assert(earlier[i] == claim);
                    assert(earlier.contains(claim));
                    let k = rest.index_of(claim);
                    assert(claims[k] == claim);
                } else {
                    assert(claims[n] == claim);
                }
            }
            if claims.contains(claim) {
                let k = claims.index_of(claim);
                if k < n {
                    assert(rest[k] == claim);
                    assert(rest.contains(claim));
                    assert(earlier.contains(claim));
                    let i = earlier.index_of(claim);
                    assert(kept[i] == claim);
                } else if repeats {
                    assert(claims[n] == claims[n - 1]);
                    assert(kept[kept.len() - 1] == claim);
                } else {
                    assert(kept[kept.len() - 1] == claim);
                }
            }
        }
    }
}

/// The conflicts of a plan are exactly the claims of others to the ports that are wanted, each
/// once, in the order of the ports' names.
#[verifier::spinoff_prover]
#[verifier::rlimit(40)]
pub proof fn law_conflicts_are_exact(
    desired: Seq<Desired>,
    owned: Seq<Installed>,
    claims: Seq<Claim>,
)
    requires
        first_ambiguous(desired, owned, owned.len()) is None,
    ensures
        ({
            let conflicts = planned(desired, owned, claims)->Ok_0.conflicts;
            &&& planned(desired, owned, claims) is Ok
            &&& forall|claim: Claim| #[trigger]
                conflicts.contains(claim) <==> exists|d: int|
                    #[trigger] meets(desired, owned, claims, d, claim)
            &&& forall|d: int, claim: Claim| #[trigger]
                meets(desired, owned, claims, d, claim) ==> claims.contains(claim) && uppered(
                    claim.com_port,
                ) == desired[d].com_port
            &&& port_order(conflicts)
            &&& port_once(conflicts)
        }),
{
    let names = desired.map_values(|d: Desired| text_key(d.stable_id));
    let sorted = by_name(desired);
    let order = sorted_indices(names, names.len());
    law_sorted(names, names.len());
    let found = conflicts_of(sorted, owned, claims);
    let ports = found.map_values(|c: Claim| text_key(c.com_port));
    let lined = by_port(found);
    let places = sorted_indices(ports, ports.len());
    law_sorted(ports, ports.len());
    assert forall|i: int| 0 <= i < lined.len() implies (#[trigger] lined[i]) == found[places[i]]
        && 0 <= places[i] < found.len() by {}
    assert forall|i: int, j: int| 0 <= i < j < lined.len() implies !precedes(
        text_key((#[trigger] lined[j]).com_port),
        text_key((#[trigger] lined[i]).com_port),
    ) by {
        assert(places[i] != places[j]);
        assert(ports[places[i]] == text_key(lined[i].com_port));
        assert(ports[places[j]] == text_key(lined[j].com_port));
    }
    assert forall|i: int, j: int|
        0 <= i < lined.len() && 0 <= j < lined.len() && same_ignoring_case(
            (#[trigger] lined[i]).com_port,
            (#[trigger] lined[j]).com_port,
        ) implies lined[i] == lined[j] by {
        let a = found[places[i]];
        let b = found[places[j]];
        lemma_conflicts(sorted, owned, claims, a);
        lemma_conflicts(sorted, owned, claims, b);
        assert(found.contains(a) && found.contains(b));
        let d = choose|d: int| #[trigger] meets(sorted, owned, claims, d, a);
        let e = choose|e: int| #[trigger] meets(sorted, owned, claims, e, b);
        lemma_one_conflict(sorted, owned, claims, d, e, a, b);
    }
    lemma_distinct(lined);
    let conflicts = distinct(lined);
    assert forall|claim: Claim| #[trigger] conflicts.contains(claim) <==> exists|d: int|
        #[trigger] meets(desired, owned, claims, d, claim) by {
        lemma_conflicts(sorted, owned, claims, claim);
        if conflicts.contains(claim) {
            assert(lined.contains(claim));
            let i = lined.index_of(claim);
            assert(found[places[i]] == claim);
            let s = choose|s: int| #[trigger] meets(sorted, owned, claims, s, claim);
            assert(sorted[s] == desired[order[s]]);
            assert(meets(desired, owned, claims, order[s], claim));
        }
        if exists|d: int| #[trigger] meets(desired, owned, claims, d, claim) {
            let d = choose|d: int| #[trigger] meets(desired, owned, claims, d, claim);
            assert(order.contains(d));
            let s = order.index_of(d);
            assert(sorted[s] == desired[d]);
            assert(meets(sorted, owned, claims, s, claim));
            assert(found.contains(claim));
            let k = found.index_of(claim);
            assert(places.contains(k));
            let i = places.index_of(k);
            assert(lined[i] == claim);
            assert(lined.contains(claim));
        }
    }
    assert forall|d: int, claim: Claim| #[trigger]
        meets(desired, owned, claims, d, claim) implies claims.contains(claim) && uppered(
        claim.com_port,
    ) == desired[d].com_port by {
        lemma_claim_to(claims, desired[d].com_port);
    }
}

} // verus!
