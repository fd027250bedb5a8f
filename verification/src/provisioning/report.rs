//! What is said of a system, a plan, and what was done.

use vstd::prelude::*;

use crate::config::describe::truth;
use crate::config::describe::truth_text;
use crate::provisioning::Desired;
use crate::provisioning::plan::Claim;
use crate::provisioning::plan::Installed;
use crate::provisioning::plan::InstalledEndpoint;
use crate::provisioning::plan::Plan;
use crate::provisioning::plan::PortClaim;
use crate::provisioning::plan::ProvisionAction;
use crate::provisioning::plan::ProvisionPlan;
use crate::provisioning::plan::Step;
use crate::provisioning::plan::claim_views;
use crate::provisioning::plan::installed_views;
use crate::text::decimal;
use crate::text::join;
use crate::text::joined_by;
use crate::text::push_decimal;
use crate::text::push_text;
use crate::text::texts;

verus! {

/// What a system has.
#[derive(Debug)]
pub struct StatusReport {
    /// The operating system.
    pub platform: String,
    /// The CatHub devices.
    pub owned_endpoints: Vec<InstalledEndpoint>,
    /// The COM ports that are taken.
    pub com_claims: Vec<PortClaim>,
}

/// What was done to a system.
#[derive(Debug)]
pub struct ApplyReport {
    /// Whether anything changed.
    pub changed: bool,
    /// Whether the system has to be restarted.
    pub reboot_required: bool,
    /// The plan that was followed.
    pub plan: ProvisionPlan,
    /// What the system has now.
    pub status: StatusReport,
}

/// What was removed from a system.
#[derive(Debug)]
pub struct RemoveReport {
    /// The devices that were removed.
    pub removed: Vec<InstalledEndpoint>,
    /// Whether the system has to be restarted.
    pub reboot_required: bool,
}

/// The lines of a device: its own, and a hint where the user does not own it.
pub open spec fn device_lines(device: Installed) -> Seq<Seq<char>> {
    let own = "  "@ + device.stable_id + ": "@ + (match device.com_port {
        Some(port) => port,
        None => "unassigned"@,
    }) + " ("@ + device.instance_id + ") ["@ + device.display_name + "]"@;
    if device.authorized {
        seq![own]
    } else {
        seq![own, "    Private daemon access requires owner reconciliation."@]
    }
}

/// The lines of several devices.
pub open spec fn devices_lines(devices: Seq<Installed>) -> Seq<Seq<char>>
    decreases devices.len(),
{
    if devices.len() == 0 {
        Seq::empty()
    } else {
        devices_lines(devices.drop_last()) + device_lines(devices.last())
    }
}

/// The line of a claim.
pub open spec fn claim_line(claim: Claim) -> Seq<char> {
    "  "@ + claim.com_port + ": "@ + claim.owner
}

/// What is said of a system.
pub open spec fn status_text(owned: Seq<Installed>, claims: Seq<Claim>) -> Seq<char> {
    let none = if owned.len() == 0 {
        seq!["  No CatHub-owned devices are installed."@]
    } else {
        Seq::empty()
    };
    joined_by(
        seq!["CatHub virtual serial status: "@ + decimal(owned.len()) + " owned endpoint(s)"@]
            + devices_lines(owned) + none + seq![
            "COM Name Arbiter/PnP claims: "@ + decimal(claims.len()),
        ] + claims.map_values(|c: Claim| claim_line(c)),
        "\n"@,
    )
}

fn push_device_lines(lines: &mut Vec<String>, device: &InstalledEndpoint)
    ensures
        texts(final(lines)@) == texts(old(lines)@) + device_lines(device@),
{
    let mut own = "  ".to_owned();
    own.append(device.stable_id.as_str());
    own.append(": ");
    match &device.com_port {
        Some(port) => {
            own.append(port.as_str());
        },
        None => {
            own.append("unassigned");
        },
    }
    own.append(" (");
    own.append(device.instance_id.as_str());
    own.append(") [");
    own.append(device.display_name.as_str());
    own.append("]");
    push_text(lines, own);
    if !device.authorized_for_current_user {
        push_text(
            lines,
            "    Private daemon access requires owner reconciliation.".to_owned(),
        );
    }
    proof {
        assert(texts(lines@) =~= texts(old(lines)@) + device_lines(device@));
    }
}

fn push_devices_lines(lines: &mut Vec<String>, devices: &Vec<InstalledEndpoint>)
    ensures
        texts(final(lines)@) == texts(old(lines)@) + devices_lines(installed_views(devices@)),
{
    let ghost all = installed_views(devices@);
    let ghost start = texts(lines@);
    let mut i: usize = 0;
    proof {
        assert(all.take(0) =~= Seq::empty());
        assert(start + Seq::<Seq<char>>::empty() =~= start);
    }
    while i < devices.len()
        invariant
            i <= devices@.len(),
            all == installed_views(devices@),
            texts(lines@) == start + devices_lines(all.take(i as int)),
        decreases devices@.len() - i,
    {
        proof {
            assert(all.take(i + 1).drop_last() =~= all.take(i as int));
            assert(all.take(i + 1).last() == devices@[i as int]@);
        }
        push_device_lines(lines, &devices[i]);
        proof {
            assert(texts(lines@) =~= start + devices_lines(all.take(i + 1)));
        }
        i = i + 1;
    }
    proof {
        assert(all.take(i as int) =~= all);
    }
}

fn push_claim_lines(lines: &mut Vec<String>, claims: &Vec<PortClaim>)
    ensures
        texts(final(lines)@) == texts(old(lines)@) + claim_views(claims@).map_values(
            |c: Claim| claim_line(c),
        ),
{
    let ghost all = claim_views(claims@);
    let ghost said = all.map_values(|c: Claim| claim_line(c));
    let ghost start = texts(lines@);
    let mut i: usize = 0;
    proof {
        assert(start + said.take(0) =~= start);
    }
    while i < claims.len()
        invariant
            i <= claims@.len(),
            all == claim_views(claims@),
            said == all.map_values(|c: Claim| claim_line(c)),
            texts(lines@) == start + said.take(i as int),
        decreases claims@.len() - i,
    {
        let mut line = "  ".to_owned();
        line.append(claims[i].com_port.as_str());
        line.append(": ");
        line.append(claims[i].owner.as_str());
        proof {
            assert(all[i as int] == claims@[i as int]@);
            assert(said.take(i + 1) =~= said.take(i as int).push(said[i as int]));
        }
        push_text(lines, line);
        proof {
            assert(texts(lines@) =~= start + said.take(i + 1));
        }
        i = i + 1;
    }
    proof {
        assert(said.take(i as int) =~= said);
    }
}

fn counted(before: &str, n: usize, after: &str) -> (r: String)
    ensures
        r@ == before@ + decimal(n as nat) + after@,
{
    let mut out = before.to_owned();
    push_decimal(&mut out, n as u64);
    out.append(after);
    out
}

impl StatusReport {
    /// The report in words.
    #[must_use]
    pub fn render_text(&self) -> (r: String)
        ensures
            r@ == status_text(
                installed_views(self.owned_endpoints@),
                claim_views(self.com_claims@),
            ),
    {
        let mut lines: Vec<String> = Vec::new();
        push_text(
            &mut lines,
            counted(
                "CatHub virtual serial status: ",
                self.owned_endpoints.len(),
                " owned endpoint(s)",
            ),
        );
        push_devices_lines(&mut lines, &self.owned_endpoints);
        if self.owned_endpoints.len() == 0 {
            push_text(&mut lines, "  No CatHub-owned devices are installed.".to_owned());
        }
        let mut count = "COM Name Arbiter/PnP claims: ".to_owned();
        push_decimal(&mut count, self.com_claims.len() as u64);
        push_text(&mut lines, count);
        push_claim_lines(&mut lines, &self.com_claims);
        proof {
            let owned = installed_views(self.owned_endpoints@);
            let claims = claim_views(self.com_claims@);
            let none = if owned.len() == 0 {
                seq!["  No CatHub-owned devices are installed."@]
            } else {
                Seq::empty()
            };
            assert(texts(lines@) =~= seq![
                "CatHub virtual serial status: "@ + decimal(owned.len()) + " owned endpoint(s)"@,
            ] + devices_lines(owned) + none + seq![
                "COM Name Arbiter/PnP claims: "@ + decimal(claims.len()),
            ] + claims.map_values(|c: Claim| claim_line(c)));
        }
        join(lines.as_slice(), "\n")
    }
}

/// The line of a step.
pub open spec fn step_line(step: Step) -> Seq<char> {
    match step {
        Step::Create { stable_id, hardware_id, com_port } => "  CREATE "@ + stable_id + " as "@
            + com_port + " ("@ + hardware_id + ")"@,
        Step::Reassign { stable_id, instance_id, from, to } => "  REASSIGN "@ + stable_id
            + " from "@ + (match from {
            Some(port) => port,
            None => "unassigned"@,
        }) + " to "@ + to + " ("@ + instance_id + ")"@,
        Step::Retain { stable_id, instance_id, com_port } => "  RETAIN "@ + stable_id + " as "@
            + com_port + " ("@ + instance_id + ")"@,
        Step::Authorize { stable_id, instance_id, com_port } => "  AUTHORIZE "@ + stable_id
            + " on "@ + com_port + " ("@ + instance_id + ")"@,
    }
}

fn action_line(action: &ProvisionAction) -> (r: String)
    ensures
        r@ == step_line(action@),
{
    match action {
        ProvisionAction::Create { stable_id, hardware_id, com_port } => {
            let mut line = "  CREATE ".to_owned();
            line.append(stable_id.as_str());
            line.append(" as ");
            line.append(com_port.as_str());
            line.append(" (");
            line.append(hardware_id.as_str());
            line.append(")");
            line
        },
        ProvisionAction::Reassign { stable_id, instance_id, from, to } => {
            let mut line = "  REASSIGN ".to_owned();
            line.append(stable_id.as_str());
            line.append(" from ");
            match from {
                Some(port) => {
                    line.append(port.as_str());
                },
                None => {
                    line.append("unassigned");
                },
            }
            line.append(" to ");
            line.append(to.as_str());
            line.append(" (");
            line.append(instance_id.as_str());
            line.append(")");
            line
        },
        ProvisionAction::Retain { stable_id, instance_id, com_port } => {
            let mut line = "  RETAIN ".to_owned();
            line.append(stable_id.as_str());
            line.append(" as ");
            line.append(com_port.as_str());
            line.append(" (");
            line.append(instance_id.as_str());
            line.append(")");
            line
        },
        ProvisionAction::Authorize { stable_id, instance_id, com_port } => {
            let mut line = "  AUTHORIZE ".to_owned();
            line.append(stable_id.as_str());
            line.append(" on ");
            line.append(com_port.as_str());
            line.append(" (");
            line.append(instance_id.as_str());
            line.append(")");
            line
        },
    }
}

/// The line of a conflict.
pub open spec fn conflict_line(claim: Claim) -> Seq<char> {
    "  CONFLICT "@ + claim.com_port + " is owned by "@ + claim.owner
}

/// What is said of a plan.
pub open spec fn plan_text(plan: Plan) -> Seq<char> {
    joined_by(
        seq![
            "CatHub virtual serial plan: "@ + decimal(plan.desired.len()) + " endpoint(s), "@
                + decimal(plan.conflicts.len()) + " conflict(s)"@,
        ] + plan.steps.map_values(|s: Step| step_line(s)) + plan.conflicts.map_values(
            |c: Claim| conflict_line(c),
        ),
        "\n"@,
    )
}

fn push_step_lines(lines: &mut Vec<String>, actions: &Vec<ProvisionAction>)
    ensures
        texts(final(lines)@) == texts(old(lines)@) + crate::provisioning::plan::step_views(
            actions@,
        ).map_values(|s: Step| step_line(s)),
{
    let ghost all = crate::provisioning::plan::step_views(actions@);
    let ghost said = all.map_values(|s: Step| step_line(s));
    let ghost start = texts(lines@);
    let mut i: usize = 0;
    proof {
        assert(start + said.take(0) =~= start);
    }
    while i < actions.len()
        invariant
            i <= actions@.len(),
            all == crate::provisioning::plan::step_views(actions@),
            said == all.map_values(|s: Step| step_line(s)),
            texts(lines@) == start + said.take(i as int),
        decreases actions@.len() - i,
    {
        proof {
            assert(all[i as int] == actions@[i as int]@);
            assert(said.take(i + 1) =~= said.take(i as int).push(said[i as int]));
        }
        push_text(lines, action_line(&actions[i]));
        proof {
            assert(texts(lines@) =~= start + said.take(i + 1));
        }
        i = i + 1;
    }
    proof {
        assert(said.take(i as int) =~= said);
    }
}

fn push_conflict_lines(lines: &mut Vec<String>, conflicts: &Vec<PortClaim>)
    ensures
        texts(final(lines)@) == texts(old(lines)@) + claim_views(conflicts@).map_values(
            |c: Claim| conflict_line(c),
        ),
{
    let ghost all = claim_views(conflicts@);
    let ghost said = all.map_values(|c: Claim| conflict_line(c));
    let ghost start = texts(lines@);
    let mut i: usize = 0;
    proof {
        assert(start + said.take(0) =~= start);
    }
    while i < conflicts.len()
        invariant
            i <= conflicts@.len(),
            all == claim_views(conflicts@),
            said == all.map_values(|c: Claim| conflict_line(c)),
            texts(lines@) == start + said.take(i as int),
        decreases conflicts@.len() - i,
    {
        let mut line = "  CONFLICT ".to_owned();
        line.append(conflicts[i].com_port.as_str());
        line.append(" is owned by ");
        line.append(conflicts[i].owner.as_str());
        proof {
            assert(all[i as int] == conflicts@[i as int]@);
            assert(said.take(i + 1) =~= said.take(i as int).push(said[i as int]));
        }
        push_text(lines, line);
        proof {
            assert(texts(lines@) =~= start + said.take(i + 1));
        }
        i = i + 1;
    }
    proof {
        assert(said.take(i as int) =~= said);
    }
}

impl ProvisionPlan {
    /// The plan in words.
    #[must_use]
    pub fn render_text(&self) -> (r: String)
        ensures
            r@ == plan_text(self@),
    {
        let mut lines: Vec<String> = Vec::new();
        let mut first = "CatHub virtual serial plan: ".to_owned();
        push_decimal(&mut first, self.desired.len() as u64);
        first.append(" endpoint(s), ");
        push_decimal(&mut first, self.conflicts.len() as u64);
        first.append(" conflict(s)");
        push_text(&mut lines, first);
        push_step_lines(&mut lines, &self.actions);
        push_conflict_lines(&mut lines, &self.conflicts);
        proof {
            let plan = self@;
            assert(texts(lines@) =~= seq![
                "CatHub virtual serial plan: "@ + decimal(plan.desired.len()) + " endpoint(s), "@
                    + decimal(plan.conflicts.len()) + " conflict(s)"@,
            ] + plan.steps.map_values(|s: Step| step_line(s)) + plan.conflicts.map_values(
                |c: Claim| conflict_line(c),
            ));
        }
        join(lines.as_slice(), "\n")
    }
}

impl ApplyReport {
    /// The report in words.
    #[must_use]
    pub fn render_text(&self) -> (r: String)
        ensures
            r@ == plan_text(self.plan@) + "\nApplied: changed="@ + truth(self.changed)
                + ", reboot_required="@ + truth(self.reboot_required) + "\n"@ + status_text(
                installed_views(self.status.owned_endpoints@),
                claim_views(self.status.com_claims@),
            ),
    {
        let mut out = self.plan.render_text();
        out.append("\nApplied: changed=");
        out.append(truth_text(self.changed));
        out.append(", reboot_required=");
        out.append(truth_text(self.reboot_required));
        out.append("\n");
        out.append(self.status.render_text().as_str());
        out
    }
}

/// The line of a device that was removed.
pub open spec fn removed_line(device: Installed) -> Seq<char> {
    "  "@ + device.stable_id + " ("@ + device.instance_id + ")"@
}

impl RemoveReport {
    /// The report in words.
    #[must_use]
    pub fn render_text(&self) -> (r: String)
        ensures
            r@ == joined_by(
                seq![
                    "Removed "@ + decimal(self.removed@.len())
                        + " CatHub-owned endpoint(s); reboot_required="@ + truth(
                        self.reboot_required,
                    ),
                ] + installed_views(self.removed@).map_values(|d: Installed| removed_line(d)),
                "\n"@,
            ),
    {
        let ghost all = installed_views(self.removed@);
        let ghost said = all.map_values(|d: Installed| removed_line(d));
        let mut lines: Vec<String> = Vec::new();
        let mut first = counted(
            "Removed ",
            self.removed.len(),
            " CatHub-owned endpoint(s); reboot_required=",
        );
        first.append(truth_text(self.reboot_required));
        push_text(&mut lines, first);
        let ghost start = texts(lines@);
        let mut i: usize = 0;
        proof {
            assert(start + said.take(0) =~= start);
        }
        while i < self.removed.len()
            invariant
                i <= self.removed@.len(),
                all == installed_views(self.removed@),
                said == all.map_values(|d: Installed| removed_line(d)),
                texts(lines@) == start + said.take(i as int),
            decreases self.removed@.len() - i,
        {
            let mut line = "  ".to_owned();
            line.append(self.removed[i].stable_id.as_str());
            line.append(" (");
            line.append(self.removed[i].instance_id.as_str());
            line.append(")");
            proof {
                assert(all[i as int] == self.removed@[i as int]@);
                assert(said.take(i + 1) =~= said.take(i as int).push(said[i as int]));
            }
            push_text(&mut lines, line);
            proof {
                assert(texts(lines@) =~= start + said.take(i + 1));
            }
            i = i + 1;
        }
        proof {
            assert(said.take(i as int) =~= said);
            assert(texts(lines@) =~= seq![
                "Removed "@ + decimal(self.removed@.len())
                    + " CatHub-owned endpoint(s); reboot_required="@ + truth(self.reboot_required),
            ] + said);
        }
        join(lines.as_slice(), "\n")
    }
}

/// What is said of each step names what is done, the endpoint, the port and the device.
pub proof fn law_step_lines(a: Seq<char>, b: Seq<char>, c: Seq<char>, d: Seq<char>)
    ensures
        step_line(Step::Create { stable_id: a, hardware_id: b, com_port: c }) == "  CREATE "@ + a
            + " as "@ + c + " ("@ + b + ")"@,
        step_line(Step::Reassign { stable_id: a, instance_id: b, from: Some(c), to: d })
            == "  REASSIGN "@ + a + " from "@ + c + " to "@ + d + " ("@ + b + ")"@,
        step_line(Step::Reassign { stable_id: a, instance_id: b, from: None, to: d })
            == "  REASSIGN "@ + a + " from "@ + "unassigned"@ + " to "@ + d + " ("@ + b + ")"@,
        step_line(Step::Retain { stable_id: a, instance_id: b, com_port: c }) == "  RETAIN "@ + a
            + " as "@ + c + " ("@ + b + ")"@,
        step_line(Step::Authorize { stable_id: a, instance_id: b, com_port: c })
            == "  AUTHORIZE "@ + a + " on "@ + c + " ("@ + b + ")"@,
        conflict_line(Claim { com_port: a, owner: b, cathub_owned: false }) == "  CONFLICT "@ + a
            + " is owned by "@ + b,
        claim_line(Claim { com_port: a, owner: b, cathub_owned: false }) == "  "@ + a + ": "@ + b,
{
}

/// What is said of a system lists every device with its name, port, instance and title, tells
/// where the user does not own one, and counts the devices and the claims.
pub proof fn law_status_lists(device: Installed, claim: Claim)
    ensures
        ({
            let own = "  "@ + device.stable_id + ": "@ + (match device.com_port {
                Some(port) => port,
                None => "unassigned"@,
            }) + " ("@ + device.instance_id + ") ["@ + device.display_name + "]"@;
            let hint = if device.authorized {
                Seq::empty()
            } else {
                "\n"@ + "    Private daemon access requires owner reconciliation."@
            };
            status_text(seq![device], seq![claim]) == "CatHub virtual serial status: "@ + "1"@
                + " owned endpoint(s)"@ + "\n"@ + own + hint + "\n"@
                + "COM Name Arbiter/PnP claims: "@ + "1"@ + "\n"@ + ("  "@ + claim.com_port + ": "@
                + claim.owner)
        }),
{
    reveal_strlit("1");
    assert(decimal(1) =~= "1"@);
    assert(seq![device].drop_last() =~= Seq::empty());
    reveal_with_fuel(devices_lines, 2);
    assert(devices_lines(seq![device]) =~= device_lines(device));
    let head = "CatHub virtual serial status: "@ + decimal(1) + " owned endpoint(s)"@;
    let count = "COM Name Arbiter/PnP claims: "@ + decimal(1);
    let claimed = claim_line(claim);
    let listed = seq![claim].map_values(|c: Claim| claim_line(c));
    assert(listed =~= seq![claimed]);
    let own = device_lines(device)[0];
    let none = Seq::<Seq<char>>::empty();
    let lines = seq![head] + devices_lines(seq![device]) + none + seq![count] + listed;
    if device.authorized {
        assert(lines =~= seq![head, own, count, claimed]);
        lemma_joined_four(head, own, count, claimed, "\n"@);
    } else {
        let hint = device_lines(device)[1];
        assert(lines =~= seq![head, own, hint, count, claimed]);
        let sep = "\n"@;
        lemma_joined_four(head, own, hint, count, sep);
        let five = seq![head, own, hint, count, claimed];
        assert(five.drop_last() =~= seq![head, own, hint, count]);
        assert(joined_by(five, sep) =~= head + sep + own + (sep + hint) + sep + count + sep
            + claimed);
    }
    assert(status_text(seq![device], seq![claim]) =~= {
        let hint = if device.authorized {
            Seq::empty()
        } else {
            "\n"@ + "    Private daemon access requires owner reconciliation."@
        };
        "CatHub virtual serial status: "@ + "1"@ + " owned endpoint(s)"@ + "\n"@ + own + hint
            + "\n"@ + "COM Name Arbiter/PnP claims: "@ + "1"@ + "\n"@ + claimed
    });
}

proof fn lemma_joined_four(
    a: Seq<char>,
    b: Seq<char>,
    c: Seq<char>,
    d: Seq<char>,
    sep: Seq<char>,
)
    ensures
        joined_by(seq![a, b, c, d], sep) == a + sep + b + sep + c + sep + d,
{
    reveal_with_fuel(joined_by, 5);
    assert(seq![a, b, c, d].drop_last() =~= seq![a, b, c]);
    assert(seq![a, b, c].drop_last() =~= seq![a, b]);
    assert(seq![a, b].drop_last() =~= seq![a]);
    assert(seq![a].drop_last() =~= Seq::empty());
    assert(joined_by(seq![a, b, c, d], sep) =~= a + sep + b + sep + c + sep + d);
}

/// What is said of a plan counts the endpoints and the conflicts and lists the steps, then the
/// conflicts.
pub proof fn law_plan_lists(want: Desired, step: Step, claim: Claim)
    ensures
        plan_text(Plan { desired: seq![want], steps: seq![step], conflicts: Seq::empty() })
            == "CatHub virtual serial plan: "@ + "1"@ + " endpoint(s), "@ + "0"@ + " conflict(s)"@
            + "\n"@ + step_line(step),
        plan_text(Plan { desired: seq![want], steps: seq![step], conflicts: seq![claim] })
            == "CatHub virtual serial plan: "@ + "1"@ + " endpoint(s), "@ + "1"@ + " conflict(s)"@
            + "\n"@ + step_line(step) + "\n"@ + conflict_line(claim),
{
    reveal_strlit("0");
    reveal_strlit("1");
    assert(decimal(0) =~= "0"@);
    assert(decimal(1) =~= "1"@);
    let sep = "\n"@;
    let steps = seq![step].map_values(|s: Step| step_line(s));
    let conflicts = seq![claim].map_values(|c: Claim| conflict_line(c));
    let none = Seq::<Claim>::empty().map_values(|c: Claim| conflict_line(c));
    assert(steps =~= seq![step_line(step)]);
    assert(conflicts =~= seq![conflict_line(claim)]);
    assert(none =~= Seq::empty());
    let calm = "CatHub virtual serial plan: "@ + decimal(1) + " endpoint(s), "@ + decimal(0)
        + " conflict(s)"@;
    let torn = "CatHub virtual serial plan: "@ + decimal(1) + " endpoint(s), "@ + decimal(1)
        + " conflict(s)"@;
    let a = step_line(step);
    let b = conflict_line(claim);
    assert(seq![calm] + steps + none =~= seq![calm, a]);
    assert(seq![torn] + steps + conflicts =~= seq![torn, a, b]);
    reveal_with_fuel(joined_by, 4);
    assert(seq![torn, a, b].drop_last() =~= seq![torn, a]);
    assert(seq![torn, a].drop_last() =~= seq![torn]);
    assert(seq![calm, a].drop_last() =~= seq![calm]);
    assert(joined_by(seq![calm, a], sep) =~= calm + sep + a);
    assert(joined_by(seq![torn, a, b], sep) =~= torn + sep + a + sep + b);
}

} // verus!
