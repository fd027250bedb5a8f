//! Where carrying out a plan leads.

use vstd::prelude::*;

use crate::order::law_sorted;
use crate::order::sorted_indices;
use crate::order::text_key;
use crate::provisioning::Desired;
use crate::provisioning::plan::Claim;
use crate::provisioning::plan::Installed;
use crate::provisioning::plan::Step;
use crate::provisioning::plan::ambiguous;
use crate::provisioning::plan::by_name;
use crate::provisioning::plan::by_port;
use crate::provisioning::plan::claim_to;
use crate::provisioning::plan::conflict_of;
use crate::provisioning::plan::conflicts_of;
use crate::provisioning::plan::first_ambiguous;
use crate::provisioning::plan::installed_as;
use crate::provisioning::plan::law_conflicts_are_exact;
use crate::provisioning::plan::lemma_claim_to;
use crate::provisioning::plan::lemma_no_conflicts;
use crate::provisioning::plan::meets;
use crate::provisioning::plan::planned;
use crate::provisioning::plan::step_for;
use crate::text::lower_ascii;
use crate::text::lowered;
use crate::text::same_ignoring_case;
use crate::text::upper_ascii;
use crate::text::uppered;

verus! {

/// The devices of a system once a step has been carried out: a creation adds a device of the
/// name and hardware id on the port that it names, a move gives its device the port that it
/// names, and both, like an authorization, make the user the owner. What a creation says
/// nothing about, such as the device instance, is as in `made`.
pub open spec fn carried(owned: Seq<Installed>, step: Step, made: Installed) -> Seq<Installed> {
    match step {
        Step::Create { stable_id, hardware_id, com_port } => owned.push(
            Installed {
                stable_id,
                hardware_id,
                com_port: Some(com_port),
                authorized: true,
                ..made
            },
        ),
        Step::Reassign { instance_id, to, .. } => owned.map_values(
            |device: Installed|
                if device.instance_id == instance_id {
                    Installed { com_port: Some(to), authorized: true, ..device }
                } else {
                    device
                },
        ),
        Step::Authorize { instance_id, .. } => owned.map_values(
            |device: Installed|
                if device.instance_id == instance_id {
                    Installed { authorized: true, ..device }
                } else {
                    device
                },
        ),
        Step::Retain { .. } => owned,
    }
}

/// The devices of a system once the first `n` steps have been carried out in turn.
pub open spec fn carried_all(
    owned: Seq<Installed>,
    steps: Seq<Step>,
    made: Seq<Installed>,
    n: nat,
) -> Seq<Installed>
    decreases n,
{
    if n == 0 {
        owned
    } else {
        carried(
            carried_all(owned, steps, made, (n - 1) as nat),
            steps[n - 1],
            made[n - 1],
        )
    }
}

/// Whether every wanted endpoint has a name of its own, in lower case.
pub open spec fn plainly_named(desired: Seq<Desired>) -> bool {
    &&& forall|d: int|
        0 <= d < desired.len() ==> lowered((#[trigger] desired[d]).stable_id)
            == desired[d].stable_id
    &&& forall|d: int, e: int|
        0 <= d < desired.len() && 0 <= e < desired.len() && d != e ==> (
        #[trigger] desired[d]).stable_id != (#[trigger] desired[e]).stable_id
}

/// Whether every device has an instance of its own, those that are made included.
pub open spec fn instances_differ(owned: Seq<Installed>, made: Seq<Installed>) -> bool {
    let all = owned + made;
    forall|k: int, l: int|
        0 <= k < all.len() && 0 <= l < all.len() && k != l ==> (#[trigger] all[k]).instance_id != (
        #[trigger] all[l]).instance_id
}

/// Whether the last device that goes by a name stands at a place.
pub open spec fn stands_at(devices: Seq<Installed>, id: Seq<char>, k: int) -> bool {
    &&& 0 <= k < devices.len()
    &&& lowered(devices[k].stable_id) == id
    &&& forall|l: int| k < l < devices.len() ==> lowered((#[trigger] devices[l]).stable_id) != id
}

/// Whether no device goes by a name.
pub open spec fn stands_nowhere(devices: Seq<Installed>, id: Seq<char>) -> bool {
    forall|l: int| 0 <= l < devices.len() ==> lowered((#[trigger] devices[l]).stable_id) != id
}

proof fn lemma_stands(devices: Seq<Installed>, id: Seq<char>) -> (at: int)
    ensures
        match installed_as(devices, id) {
            Some(device) => stands_at(devices, id, at) && device == devices[at],
            None => stands_nowhere(devices, id),
        },
    decreases devices.len(),
{
    if devices.len() == 0 {
        0
    } else if lowered(devices.last().stable_id) == id {
        devices.len() - 1
    } else {
        let earlier = devices.drop_last();
        let at = lemma_stands(earlier, id);
        if installed_as(devices, id) is None {
            assert forall|l: int| 0 <= l < devices.len() implies lowered(
                (#[trigger] devices[l]).stable_id,
            ) != id by {
                if l < earlier.len() {
                    assert(earlier[l] == devices[l]);
                }
            }
        } else {
            assert forall|l: int| at < l < devices.len() implies lowered(
                (#[trigger] devices[l]).stable_id,
            ) != id by {
                if l < earlier.len() {
                    assert(earlier[l] == devices[l]);
                }
            }
        }
        at
    }
}

proof fn lemma_found_at(devices: Seq<Installed>, id: Seq<char>, k: int)
    requires
        stands_at(devices, id, k),
    ensures
        installed_as(devices, id) == Some(devices[k]),
    decreases devices.len(),
{
    if k < devices.len() - 1 {
        let earlier = devices.drop_last();
        assert(lowered(devices[devices.len() - 1].stable_id) != id);
        assert forall|l: int| k < l < earlier.len() implies lowered(
            (#[trigger] earlier[l]).stable_id,
        ) != id by {
            assert(earlier[l] == devices[l]);
        }
        lemma_found_at(earlier, id, k);
    }
}

proof fn lemma_found_nowhere(devices: Seq<Installed>, id: Seq<char>)
    requires
        stands_nowhere(devices, id),
    ensures
        installed_as(devices, id) is None,
{
    let at = lemma_stands(devices, id);
}

/// Whether an endpoint is installed on its own port and owned by the user, as the device that
/// was there before or as one with the hardware id of the endpoint.
pub open spec fn fulfilled(want: Desired, owned: Seq<Installed>, device: Installed) -> bool {
    &&& device.com_port is Some
    &&& same_ignoring_case(device.com_port->Some_0, want.com_port)
    &&& device.authorized
    &&& match installed_as(owned, want.stable_id) {
        Some(before) => device.instance_id == before.instance_id,
        None => device.hardware_id == want.hardware_id && device.com_port == Some(want.com_port),
    }
}

spec fn met(want: Desired, owned: Seq<Installed>, now: Seq<Installed>) -> bool {
    exists|k: int| #[trigger] stands_at(now, want.stable_id, k) && fulfilled(want, owned, now[k])
}

spec fn waits(want: Desired, owned: Seq<Installed>, now: Seq<Installed>) -> bool {
    installed_as(now, want.stable_id) == installed_as(owned, want.stable_id)
}

spec fn same_places(owned: Seq<Installed>, now: Seq<Installed>) -> bool {
    now.len() == owned.len() && forall|k: int|
        0 <= k < owned.len() ==> (#[trigger] now[k]).stable_id == owned[k].stable_id
            && now[k].instance_id == owned[k].instance_id
}

spec fn one_instance_each(now: Seq<Installed>) -> bool {
    forall|k: int, l: int|
        0 <= k < now.len() && 0 <= l < now.len() && k != l ==> (#[trigger] now[k]).instance_id != (
        #[trigger] now[l]).instance_id
}

spec fn one_name_each(now: Seq<Installed>, desired: Seq<Desired>) -> bool {
    forall|k: int, l: int, d: int|
        0 <= k < now.len() && 0 <= l < now.len() && k != l && 0 <= d < desired.len() && (
        #[trigger] now[k]).stable_id == (#[trigger] now[l]).stable_id ==> now[k].stable_id != (
        #[trigger] desired[d]).stable_id
}

spec fn under_way(
    desired: Seq<Desired>,
    owned: Seq<Installed>,
    made: Seq<Installed>,
    now: Seq<Installed>,
    n: int,
) -> bool {
    &&& one_instance_each(now)
    &&& forall|k: int, i: int|
        0 <= k < now.len() && n <= i < desired.len() ==> (#[trigger] now[k]).instance_id != (
        #[trigger] made[i]).instance_id
    &&& one_name_each(now, desired)
    &&& forall|i: int| 0 <= i < n ==> met(#[trigger] desired[i], owned, now)
    &&& forall|i: int| n <= i < desired.len() ==> waits(#[trigger] desired[i], owned, now)
}

proof fn lemma_creation(
    desired: Seq<Desired>,
    owned: Seq<Installed>,
    made: Seq<Installed>,
    now: Seq<Installed>,
    n: int,
)
    requires
        0 <= n < desired.len(),
        made.len() == desired.len(),
        plainly_named(desired),
        instances_differ(owned, made),
        under_way(desired, owned, made, now, n),
        step_for(desired[n], owned) is Create,
    ensures
        under_way(
            desired,
            owned,
            made,
            carried(now, step_for(desired[n], owned), made[n]),
            n + 1,
        ),
{
    let want = desired[n];
    let next = carried(now, step_for(want, owned), made[n]);
    let id = want.stable_id;
    let last = now.len() as int;
    assert(waits(want, owned, now));
    let at = lemma_stands(now, id);
    assert(stands_nowhere(now, id));
    assert(next.drop_last() =~= now);
    assert(next[last].stable_id == id);
    assert(lowered(next[last].stable_id) == id);
    assert forall|i: int, j: int|
        0 <= i < made.len() && 0 <= j < made.len() && i != j implies (
    #[trigger] made[i]).instance_id != (#[trigger] made[j]).instance_id by {
        let all = owned + made;
        assert(all[owned.len() + i] == made[i]);
        assert(all[owned.len() + j] == made[j]);
    }
    assert forall|k: int, l: int, d: int|
        0 <= k < next.len() && 0 <= l < next.len() && k != l && 0 <= d < desired.len() && (
        #[trigger] next[k]).stable_id == (#[trigger] next[l]).stable_id implies next[k].stable_id
        != (#[trigger] desired[d]).stable_id by {
        if k == last {
            assert(next[l] == now[l]);
            assert(lowered(now[l].stable_id) != id);
        } else if l == last {
            assert(next[k] == now[k]);
            assert(lowered(now[k].stable_id) != id);
        } else {
            assert(next[k] == now[k] && next[l] == now[l]);
        }
    }
    assert forall|i: int| 0 <= i < n + 1 implies met(#[trigger] desired[i], owned, next) by {
        if i < n {
            assert(met(desired[i], owned, now));
            let k = choose|k: int| #[trigger]
                stands_at(now, desired[i].stable_id, k) && fulfilled(desired[i], owned, now[k]);
            assert(next[k] == now[k]);
            assert forall|l: int| k < l < next.len() implies lowered(
                (#[trigger] next[l]).stable_id,
            ) != desired[i].stable_id by {
                if l < last {
                    assert(next[l] == now[l]);
                }
            }
            assert(stands_at(next, desired[i].stable_id, k));
        } else {
            lemma_same_text(want.com_port);
            assert(stands_at(next, id, last));
            assert(fulfilled(want, owned, next[last]));
        }
    }
    assert forall|i: int| n + 1 <= i < desired.len() implies waits(
        #[trigger] desired[i],
        owned,
        next,
    ) by {
        assert(waits(desired[i], owned, now));
        assert(next.last() == next[last]);
    }
}

proof fn lemma_same_text(s: Seq<char>)
    ensures
        same_ignoring_case(s, s),
{
}

/// A step that keeps every device in its place and alters none but the one that stands under the
/// name of the endpoint.
proof fn lemma_alteration(
    desired: Seq<Desired>,
    owned: Seq<Installed>,
    made: Seq<Installed>,
    now: Seq<Installed>,
    next: Seq<Installed>,
    n: int,
    at: int,
)
    requires
        0 <= n < desired.len(),
        made.len() == desired.len(),
        plainly_named(desired),
        under_way(desired, owned, made, now, n),
        stands_at(now, desired[n].stable_id, at),
        same_places(now, next),
        forall|k: int| 0 <= k < now.len() && k != at ==> #[trigger] next[k] == now[k],
        fulfilled(desired[n], owned, next[at]),
    ensures
        under_way(desired, owned, made, next, n + 1),
{
    assert forall|k: int, l: int, d: int|
        0 <= k < next.len() && 0 <= l < next.len() && k != l && 0 <= d < desired.len() && (
        #[trigger] next[k]).stable_id == (#[trigger] next[l]).stable_id implies next[k].stable_id
        != (#[trigger] desired[d]).stable_id by {
        assert(now[k].stable_id == now[l].stable_id);
    }
    assert forall|k: int, l: int|
        0 <= k < next.len() && 0 <= l < next.len() && k != l implies (
    #[trigger] next[k]).instance_id != (#[trigger] next[l]).instance_id by {
        assert(now[k].instance_id != now[l].instance_id);
    }
    assert forall|k: int, i: int|
        0 <= k < next.len() && n + 1 <= i < desired.len() implies (
    #[trigger] next[k]).instance_id != (#[trigger] made[i]).instance_id by {
        assert(now[k].instance_id != made[i].instance_id);
    }
    assert forall|id: Seq<char>, k: int| stands_at(now, id, k) implies #[trigger] stands_at(
        next,
        id,
        k,
    ) by {
        assert forall|l: int| k < l < next.len() implies lowered((#[trigger] next[l]).stable_id)
            != id by {
            assert(lowered(now[l].stable_id) != id);
        }
    }
    assert forall|i: int| 0 <= i < n + 1 implies met(#[trigger] desired[i], owned, next) by {
        if i < n {
            assert(met(desired[i], owned, now));
            let k = choose|k: int| #[trigger]
                stands_at(now, desired[i].stable_id, k) && fulfilled(desired[i], owned, now[k]);
            assert(desired[i].stable_id != desired[n].stable_id);
            assert(k != at);
            assert(stands_at(next, desired[i].stable_id, k));
        } else {
            assert(stands_at(next, desired[n].stable_id, at));
        }
    }
    assert forall|i: int| n + 1 <= i < desired.len() implies waits(
        #[trigger] desired[i],
        owned,
        next,
    ) by {
        let id = desired[i].stable_id;
        assert(waits(desired[i], owned, now));
        assert(id != desired[n].stable_id);
        let k = lemma_stands(now, id);
        if installed_as(now, id) is Some {
            assert(k != at);
            assert(stands_at(next, id, k));
            lemma_found_at(next, id, k);
        } else {
            assert forall|l: int| 0 <= l < next.len() implies lowered(
                (#[trigger] next[l]).stable_id,
            ) != id by {
                assert(lowered(now[l].stable_id) != id);
            }
            lemma_found_nowhere(next, id);
        }
    }
}

proof fn lemma_step(
    desired: Seq<Desired>,
    owned: Seq<Installed>,
    made: Seq<Installed>,
    now: Seq<Installed>,
    n: int,
)
    requires
        0 <= n < desired.len(),
        made.len() == desired.len(),
        plainly_named(desired),
        instances_differ(owned, made),
        under_way(desired, owned, made, now, n),
    ensures
        under_way(
            desired,
            owned,
            made,
            carried(now, step_for(desired[n], owned), made[n]),
            n + 1,
        ),
{
    let want = desired[n];
    let step = step_for(want, owned);
    let next = carried(now, step, made[n]);
    if step is Create {
        lemma_creation(desired, owned, made, now, n);
    } else {
        assert(waits(want, owned, now));
        let at = lemma_stands(now, want.stable_id);
        assert(installed_as(owned, want.stable_id) == Some(now[at]));
        lemma_same_text(want.com_port);
        assert forall|k: int| 0 <= k < now.len() && k != at implies #[trigger] next[k]
            == now[k] by {
            assert(now[k].instance_id != now[at].instance_id);
        }
        assert(same_places(now, next));
        assert(fulfilled(want, owned, next[at]));
        lemma_alteration(desired, owned, made, now, next, n, at);
    }
}

proof fn lemma_steps(
    desired: Seq<Desired>,
    owned: Seq<Installed>,
    made: Seq<Installed>,
    steps: Seq<Step>,
    n: nat,
)
    requires
        n <= desired.len(),
        made.len() == desired.len(),
        steps.len() == desired.len(),
        forall|i: int|
            0 <= i < desired.len() ==> #[trigger] steps[i] == step_for(desired[i], owned),
        plainly_named(desired),
        instances_differ(owned, made),
        one_name_each(owned, desired),
    ensures
        under_way(desired, owned, made, carried_all(owned, steps, made, n), n as int),
    decreases n,
{
    if n == 0 {
        let all = owned + made;
        assert forall|k: int, l: int|
            0 <= k < owned.len() && 0 <= l < owned.len() && k != l implies (
        #[trigger] owned[k]).instance_id != (#[trigger] owned[l]).instance_id by {
            assert(all[k] == owned[k] && all[l] == owned[l]);
        }
        assert forall|k: int, i: int|
            0 <= k < owned.len() && 0 <= i < desired.len() implies (
        #[trigger] owned[k]).instance_id != (#[trigger] made[i]).instance_id by {
            assert(all[k] == owned[k] && all[owned.len() + i] == made[i]);
        }
    } else {
        let m = (n - 1) as nat;
        lemma_steps(desired, owned, made, steps, m);
        assert(steps[n - 1] == step_for(desired[n - 1], owned));
        lemma_step(desired, owned, made, carried_all(owned, steps, made, m), n - 1);
    }
}

proof fn lemma_names(desired: Seq<Desired>, owned: Seq<Installed>, n: nat)
    requires
        n <= owned.len(),
    ensures
        first_ambiguous(desired, owned, n) is None <==> forall|i: int|
            0 <= i < n ==> !#[trigger] ambiguous(desired, owned, i),
    decreases n,
{
    if n > 0 {
        lemma_names(desired, owned, (n - 1) as nat);
        if first_ambiguous(desired, owned, (n - 1) as nat) is Some {
            let i = choose|i: int| 0 <= i < n - 1 && #[trigger] ambiguous(desired, owned, i);
            assert(ambiguous(desired, owned, i));
        }
    }
}

proof fn lemma_case(c: char)
    ensures
        lower_ascii(upper_ascii(c)) == lower_ascii(c),
{
}

proof fn lemma_port_names(own: Seq<char>, port: Seq<char>, other: Seq<char>)
    requires
        same_ignoring_case(own, port),
        uppered(other) == port,
    ensures
        same_ignoring_case(own, other),
{
    assert(other.len() == port.len());
    assert forall|i: int| 0 <= i < own.len() implies lower_ascii(#[trigger] own[i])
        == lower_ascii(other[i]) by {
        assert(port[i] == uppered(other)[i]);
        lemma_case(other[i]);
        assert(lower_ascii(own[i]) == lower_ascii(port[i]));
    }
}

/// Carrying out the steps of a plan leads to the system that is wanted: every endpoint is
/// installed on its own port and owned by the user, the devices that were there are kept, those
/// that were missing have the hardware id of their endpoint, and a plan made for that system,
/// whatever ports are claimed on it by then, meets no conflict and changes nothing.
pub proof fn law_plans_lead_to_what_is_wanted(
    desired: Seq<Desired>,
    owned: Seq<Installed>,
    claims: Seq<Claim>,
    made: Seq<Installed>,
    later_claims: Seq<Claim>,
)
    requires
        planned(desired, owned, claims) is Ok,
        plainly_named(desired),
        made.len() == desired.len(),
        instances_differ(owned, made),
    ensures
        ({
            let plan = planned(desired, owned, claims)->Ok_0;
            let after = carried_all(owned, plan.steps, made, plan.steps.len());
            let again = planned(desired, after, later_claims);
            &&& plan.steps.len() == desired.len()
            &&& forall|d: int|
                0 <= d < desired.len() ==> {
                    let want = #[trigger] desired[d];
                    &&& installed_as(after, want.stable_id) is Some
                    &&& fulfilled(want, owned, installed_as(after, want.stable_id)->Some_0)
                }
            &&& again is Ok
            &&& again->Ok_0.conflicts.len() == 0
            &&& !again->Ok_0.changes()
        }),
{
    let names = desired.map_values(|d: Desired| text_key(d.stable_id));
    law_sorted(names, names.len());
    let sorted = by_name(desired);
    let order = sorted_indices(names, names.len());
    assert forall|i: int| 0 <= i < sorted.len() implies #[trigger] sorted[i] == desired[order[i]]
        && 0 <= order[i] < desired.len() by {}
    assert forall|d: int, e: int|
        0 <= d < sorted.len() && 0 <= e < sorted.len() && d != e implies (
    #[trigger] sorted[d]).stable_id != (#[trigger] sorted[e]).stable_id by {
        assert(order[d] != order[e]);
    }
    assert(plainly_named(sorted));
    let plan = planned(desired, owned, claims)->Ok_0;
    lemma_names(desired, owned, owned.len());
    assert forall|k: int, l: int, d: int|
        0 <= k < owned.len() && 0 <= l < owned.len() && k != l && 0 <= d < sorted.len() && (
        #[trigger] owned[k]).stable_id == (#[trigger] owned[l]).stable_id implies
        owned[k].stable_id != (#[trigger] sorted[d]).stable_id by {
        assert(!ambiguous(desired, owned, k));
        assert(sorted[d] == desired[order[d]]);
    }
    lemma_steps(sorted, owned, made, plan.steps, sorted.len());
    let after = carried_all(owned, plan.steps, made, plan.steps.len());
    assert forall|s: int| 0 <= s < sorted.len() implies {
        let want = #[trigger] sorted[s];
        &&& installed_as(after, want.stable_id) is Some
        &&& fulfilled(want, owned, installed_as(after, want.stable_id)->Some_0)
    } by {
        let want = sorted[s];
        assert(met(want, owned, after));
        let k = choose|k: int| #[trigger]
            stands_at(after, want.stable_id, k) && fulfilled(want, owned, after[k]);
        lemma_found_at(after, want.stable_id, k);
    }
    assert forall|d: int| 0 <= d < desired.len() implies {
        let want = #[trigger] desired[d];
        &&& installed_as(after, want.stable_id) is Some
        &&& fulfilled(want, owned, installed_as(after, want.stable_id)->Some_0)
    } by {
        assert(order.contains(d));
        let s = order.index_of(d);
        assert(sorted[s] == desired[d]);
    }
    assert forall|i: int| 0 <= i < after.len() implies !#[trigger] ambiguous(
        desired,
        after,
        i,
    ) by {
        if ambiguous(desired, after, i) {
            let d = choose|d: int|
                0 <= d < desired.len() && (#[trigger] desired[d]).stable_id == after[i].stable_id;
            let j = choose|j: int|
                0 <= j < after.len() && j != i && (#[trigger] after[j]).stable_id
                    == after[i].stable_id;
            assert(order.contains(d));
            let s = order.index_of(d);
            assert(sorted[s] == desired[d]);
            assert(after[i].stable_id == after[j].stable_id);
            assert(after[i].stable_id != sorted[s].stable_id);
        }
    }
    lemma_names(desired, after, after.len());
    assert forall|i: int| 0 <= i < sorted.len() implies step_for(#[trigger] sorted[i], after)
        is Retain && conflict_of(sorted[i], after, later_claims) is None by {
        let want = sorted[i];
        let device = installed_as(after, want.stable_id)->Some_0;
        lemma_claim_to(later_claims, want.com_port);
        if claim_to(later_claims, want.com_port) is Some {
            let claim = claim_to(later_claims, want.com_port)->Some_0;
            lemma_port_names(device.com_port->Some_0, want.com_port, claim.com_port);
        }
    }
    lemma_no_conflicts(sorted, after, later_claims);
    let none = conflicts_of(sorted, after, later_claims);
    assert(by_port(none) =~= Seq::empty());
}

/// A plan is refused exactly where two devices go by one name that is wanted.
pub proof fn law_ambiguity_is_refused(
    desired: Seq<Desired>,
    owned: Seq<Installed>,
    claims: Seq<Claim>,
    i: int,
    j: int,
    d: int,
)
    ensures
        0 <= i < j < owned.len() && 0 <= d < desired.len() && owned[i].stable_id
            == owned[j].stable_id && desired[d].stable_id == owned[i].stable_id ==> planned(
            desired,
            owned,
            claims,
        ) is Err,
        planned(desired, owned, claims) is Err ==> exists|k: int, l: int, e: int|
            #![trigger owned[k], owned[l], desired[e]]
            0 <= k < owned.len() && 0 <= l < owned.len() && k != l && 0 <= e < desired.len()
                && owned[k].stable_id == owned[l].stable_id && desired[e].stable_id
                == owned[k].stable_id,
{
    lemma_names(desired, owned, owned.len());
    if 0 <= i < j < owned.len() && 0 <= d < desired.len() && owned[i].stable_id
        == owned[j].stable_id && desired[d].stable_id == owned[i].stable_id {
        assert(ambiguous(desired, owned, i));
    }
    if planned(desired, owned, claims) is Err {
        let k = choose|k: int| 0 <= k < owned.len() && #[trigger] ambiguous(desired, owned, k);
        let e = choose|e: int|
            0 <= e < desired.len() && (#[trigger] desired[e]).stable_id == owned[k].stable_id;
        let l = choose|l: int|
            0 <= l < owned.len() && l != k && (#[trigger] owned[l]).stable_id
                == owned[k].stable_id;
        assert(owned[k].stable_id == owned[l].stable_id);
        assert(desired[e].stable_id == owned[k].stable_id);
    }
}

/// A port that is wanted and that someone has claimed stands in the way unless the claim is that
/// of the device which is installed under the name of the endpoint, or that device already has
/// the port. A port that nobody has claimed never does.
pub proof fn law_claims_stand_in_the_way(
    desired: Seq<Desired>,
    owned: Seq<Installed>,
    claims: Seq<Claim>,
    d: int,
    claim: Claim,
)
    requires
        planned(desired, owned, claims) is Ok,
        0 <= d < desired.len(),
        claim_to(claims, desired[d].com_port) == Some(claim),
    ensures
        ({
            let want = desired[d];
            let conflicts = planned(desired, owned, claims)->Ok_0.conflicts;
            &&& installed_as(owned, want.stable_id) is None ==> conflicts.contains(claim)
            &&& installed_as(owned, want.stable_id) matches Some(device) ==> !same_ignoring_case(
                device.instance_id,
                claim.owner,
            ) && !(device.com_port is Some && same_ignoring_case(
                device.com_port->Some_0,
                claim.com_port,
            )) ==> conflicts.contains(claim)
            &&& desired.len() == 1 && conflicts.len() > 0 ==> {
                &&& conflicts.contains(claim)
                &&& installed_as(owned, want.stable_id) matches Some(device)
                    ==> !same_ignoring_case(device.instance_id, claim.owner) && !(
                device.com_port is Some && same_ignoring_case(
                    device.com_port->Some_0,
                    claim.com_port,
                ))
            }
        }),
{
    law_conflicts_are_exact(desired, owned, claims);
    let want = desired[d];
    let conflicts = planned(desired, owned, claims)->Ok_0.conflicts;
    if conflict_of(want, owned, claims) is Some {
        assert(meets(desired, owned, claims, d, claim));
    }
    if desired.len() == 1 && conflicts.len() > 0 {
        let first = conflicts[0];
        assert(conflicts.contains(first));
        let e = choose|e: int| #[trigger] meets(desired, owned, claims, e, first);
        assert(e == 0 && d == 0);
    }
}

} // verus!
