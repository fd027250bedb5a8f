//! What is done to the system for one action of a plan, and for one device that is removed, step
//! by step: a COM port is claimed before a device gets it, and given back when the device could
//! not be set up.

use vstd::prelude::*;

use crate::provisioning::defined_by_hardware;
use crate::provisioning::plan::Installed;
use crate::provisioning::plan::InstalledEndpoint;
use crate::provisioning::plan::ProvisionAction;
use crate::provisioning::plan::Step;
use crate::provisioning::system::check_create;
use crate::provisioning::system::check_remove;
use crate::provisioning::system::creation_refused;
use crate::provisioning::system::removal_refused;
use crate::provisioning::text_of;
use crate::provisioning::EndpointDefinition;

verus! {

/// One thing that is done to the system.
#[derive(Debug, PartialEq, Eq)]
pub enum SystemWork {
    /// Claim a COM port in the port database.
    ClaimPort {
        /// The port.
        com_port: String,
    },
    /// Give a COM port back to the port database.
    ReleasePort {
        /// The port.
        com_port: String,
    },
    /// Create a device and give it a port and an owner.
    CreateDevice {
        /// What the device is.
        definition: EndpointDefinition,
        /// The port.
        com_port: String,
    },
    /// Give a device another port and its owner, and restart it.
    MoveDevice {
        /// The device instance.
        instance_id: String,
        /// The port.
        com_port: String,
    },
    /// Give a device its owner, and restart it.
    AuthorizeDevice {
        /// The device instance.
        instance_id: String,
    },
    /// Remove a device.
    RemoveDevice {
        /// The device instance.
        instance_id: String,
    },
}

/// One thing that is done to the system, as a value of the model.
pub enum Work {
    /// Claim a COM port.
    ClaimPort(Seq<char>),
    /// Give a COM port back.
    ReleasePort(Seq<char>),
    /// Create a device with a port.
    CreateDevice(EndpointDefinition, Seq<char>),
    /// Give a device another port.
    MoveDevice(Seq<char>, Seq<char>),
    /// Give a device its owner.
    AuthorizeDevice(Seq<char>),
    /// Remove a device.
    RemoveDevice(Seq<char>),
}

impl View for SystemWork {
    type V = Work;

    open spec fn view(&self) -> Work {
        match *self {
            SystemWork::ClaimPort { com_port } => Work::ClaimPort(com_port@),
            SystemWork::ReleasePort { com_port } => Work::ReleasePort(com_port@),
            SystemWork::CreateDevice { definition, com_port } => Work::CreateDevice(
                definition,
                com_port@,
            ),
            SystemWork::MoveDevice { instance_id, com_port } => Work::MoveDevice(
                instance_id@,
                com_port@,
            ),
            SystemWork::AuthorizeDevice { instance_id } => Work::AuthorizeDevice(instance_id@),
            SystemWork::RemoveDevice { instance_id } => Work::RemoveDevice(instance_id@),
        }
    }
}

/// How far the work has come.
#[derive(Debug, PartialEq, Eq)]
pub enum WorkStage {
    /// Nothing is done yet.
    Start,
    /// The port is being claimed.
    Claiming,
    /// The device is being worked on.
    Working,
    /// The port that is no longer used is being given back.
    Releasing,
    /// The claimed port is being given back after a failure.
    Undoing {
        /// What failed.
        why: String,
    },
}

/// How far the work has come, as a value of the model.
pub enum Stage {
    /// Nothing is done yet.
    Start,
    /// The port is being claimed.
    Claiming,
    /// The device is being worked on.
    Working,
    /// The port that is no longer used is being given back.
    Releasing,
    /// The claimed port is being given back after a failure.
    Undoing(Seq<char>),
}

impl View for WorkStage {
    type V = Stage;

    open spec fn view(&self) -> Stage {
        match *self {
            WorkStage::Start => Stage::Start,
            WorkStage::Claiming => Stage::Claiming,
            WorkStage::Working => Stage::Working,
            WorkStage::Releasing => Stage::Releasing,
            WorkStage::Undoing { why } => Stage::Undoing(why@),
        }
    }
}

/// What comes next.
#[derive(Debug, PartialEq, Eq)]
pub enum WorkStep {
    /// Do something to the system, then go on with how it went.
    Run {
        /// What to do.
        work: SystemWork,
        /// How far the work has come then.
        stage: WorkStage,
    },
    /// All is done.
    Finished,
    /// The work failed.
    Failed(String),
}

/// What comes next, as a value of the model.
pub enum NextWork {
    /// Do something to the system.
    Run(Work, Stage),
    /// All is done.
    Finished,
    /// The work failed.
    Failed(Seq<char>),
}

impl View for WorkStep {
    type V = NextWork;

    open spec fn view(&self) -> NextWork {
        match *self {
            WorkStep::Run { work, stage } => NextWork::Run(work@, stage@),
            WorkStep::Finished => NextWork::Finished,
            WorkStep::Failed(why) => NextWork::Failed(why@),
        }
    }
}

/// How something went, as a value of the model.
pub open spec fn outcome_view(outcome: Result<(), String>) -> Result<(), Seq<char>> {
    match outcome {
        Ok(()) => Ok(()),
        Err(why) => Err(why@),
    }
}

/// What comes after a claim: the work that the port is for, or the failure.
pub open spec fn after_claim(work: Work, outcome: Result<(), Seq<char>>) -> NextWork {
    match outcome {
        Ok(()) => NextWork::Run(work, Stage::Working),
        Err(why) => NextWork::Failed(why),
    }
}

/// What comes after work that ends either way.
pub open spec fn after_last(outcome: Result<(), Seq<char>>) -> NextWork {
    match outcome {
        Ok(()) => NextWork::Finished,
        Err(why) => NextWork::Failed(why),
    }
}

/// What comes next for an action. At the start nothing has been done that could have gone one way
/// or the other.
pub open spec fn next_for(
    action: Step,
    stage: Stage,
    outcome: Result<(), Seq<char>>,
) -> NextWork {
    match action {
        Step::Create { stable_id, hardware_id, com_port } => match stage {
            Stage::Start => match creation_refused(stable_id, hardware_id) {
                Some(why) => NextWork::Failed(why),
                None => NextWork::Run(Work::ClaimPort(com_port), Stage::Claiming),
            },
            Stage::Claiming => match (outcome, creation_refused(stable_id, hardware_id)) {
                (Ok(()), Some(why)) => NextWork::Run(
                    Work::ReleasePort(com_port),
                    Stage::Undoing(why),
                ),
                _ => after_claim(
                    Work::CreateDevice(defined_by_hardware(hardware_id)->Some_0, com_port),
                    outcome,
                ),
            },
            Stage::Working => match outcome {
                Ok(()) => NextWork::Finished,
                Err(why) => NextWork::Run(Work::ReleasePort(com_port), Stage::Undoing(why)),
            },
            Stage::Releasing => after_last(outcome),
            Stage::Undoing(why) => NextWork::Failed(why),
        },
        Step::Reassign { stable_id, instance_id, from, to } => match stage {
            Stage::Start => NextWork::Run(Work::ClaimPort(to), Stage::Claiming),
            Stage::Claiming => after_claim(Work::MoveDevice(instance_id, to), outcome),
            Stage::Working => match outcome {
                Ok(()) => match from {
                    Some(port) => NextWork::Run(Work::ReleasePort(port), Stage::Releasing),
                    None => NextWork::Finished,
                },
                Err(why) => NextWork::Run(Work::ReleasePort(to), Stage::Undoing(why)),
            },
            Stage::Releasing => after_last(outcome),
            Stage::Undoing(why) => NextWork::Failed(why),
        },
        Step::Authorize { stable_id, instance_id, com_port } => match stage {
            Stage::Start => NextWork::Run(Work::AuthorizeDevice(instance_id), Stage::Working),
            Stage::Undoing(why) => NextWork::Failed(why),
            _ => after_last(outcome),
        },
        Step::Retain { stable_id, instance_id, com_port } => NextWork::Finished,
    }
}

/// What comes next for a device that is removed: the device goes, then its port is given back.
pub open spec fn next_for_removal(
    device: Installed,
    stage: Stage,
    outcome: Result<(), Seq<char>>,
) -> NextWork {
    match stage {
        Stage::Start => match removal_refused(device) {
            Some(why) => NextWork::Failed(why),
            None => NextWork::Run(Work::RemoveDevice(device.instance_id), Stage::Working),
        },
        Stage::Working => match outcome {
            Ok(()) => match device.com_port {
                Some(port) => NextWork::Run(Work::ReleasePort(port), Stage::Releasing),
                None => NextWork::Finished,
            },
            Err(why) => NextWork::Failed(why),
        },
        Stage::Undoing(why) => NextWork::Failed(why),
        _ => after_last(outcome),
    }
}

fn run(work: SystemWork, stage: WorkStage) -> (r: WorkStep)
    ensures
        r@ == NextWork::Run(work@, stage@),
{
    WorkStep::Run { work, stage }
}

fn last(outcome: Result<(), String>) -> (r: WorkStep)
    ensures
        r@ == after_last(outcome_view(outcome)),
{
    match outcome {
        Ok(()) => WorkStep::Finished,
        Err(why) => WorkStep::Failed(why),
    }
}

fn claim(com_port: &String) -> (r: WorkStep)
    ensures
        r@ == NextWork::Run(Work::ClaimPort(com_port@), Stage::Claiming),
{
    run(SystemWork::ClaimPort { com_port: com_port.clone() }, WorkStage::Claiming)
}

fn give_back(com_port: &String, why: String) -> (r: WorkStep)
    ensures
        r@ == NextWork::Run(Work::ReleasePort(com_port@), Stage::Undoing(why@)),
{
    run(SystemWork::ReleasePort { com_port: com_port.clone() }, WorkStage::Undoing { why })
}

fn release(com_port: &String) -> (r: WorkStep)
    ensures
        r@ == NextWork::Run(Work::ReleasePort(com_port@), Stage::Releasing),
{
    run(SystemWork::ReleasePort { com_port: com_port.clone() }, WorkStage::Releasing)
}

fn next_creation(
    stable_id: &String,
    hardware_id: &String,
    com_port: &String,
    stage: WorkStage,
    outcome: Result<(), String>,
) -> (r: WorkStep)
    ensures
        r@ == next_for(
            Step::Create { stable_id: stable_id@, hardware_id: hardware_id@, com_port: com_port@ },
            stage@,
            outcome_view(outcome),
        ),
{
    match stage {
        WorkStage::Start => match check_create(stable_id.as_str(), hardware_id.as_str()) {
            Ok(_) => claim(com_port),
            Err(why) => WorkStep::Failed(why),
        },
        WorkStage::Claiming => match outcome {
            Err(why) => WorkStep::Failed(why),
            Ok(()) => match check_create(stable_id.as_str(), hardware_id.as_str()) {
                Ok(definition) => run(
                    SystemWork::CreateDevice { definition, com_port: com_port.clone() },
                    WorkStage::Working,
                ),
                Err(why) => give_back(com_port, why),
            },
        },
        WorkStage::Working => match outcome {
            Ok(()) => WorkStep::Finished,
            Err(why) => give_back(com_port, why),
        },
        WorkStage::Releasing => last(outcome),
        WorkStage::Undoing { why } => WorkStep::Failed(why),
    }
}

fn next_move(
    instance_id: &String,
    from: &Option<String>,
    to: &String,
    stage: WorkStage,
    outcome: Result<(), String>,
    Ghost(stable_id): Ghost<Seq<char>>,
) -> (r: WorkStep)
    ensures
        r@ == next_for(
            Step::Reassign {
                stable_id,
                instance_id: instance_id@,
                from: text_of(*from),
                to: to@,
            },
            stage@,
            outcome_view(outcome),
        ),
{
    match stage {
        WorkStage::Start => claim(to),
        WorkStage::Claiming => match outcome {
            Err(why) => WorkStep::Failed(why),
            Ok(()) => run(
                SystemWork::MoveDevice { instance_id: instance_id.clone(), com_port: to.clone() },
                WorkStage::Working,
            ),
        },
        WorkStage::Working => match outcome {
            Ok(()) => match from {
                Some(port) => release(port),
                None => WorkStep::Finished,
            },
            Err(why) => give_back(to, why),
        },
        WorkStage::Releasing => last(outcome),
        WorkStage::Undoing { why } => WorkStep::Failed(why),
    }
}

/// Decide what comes next for an action of a plan. At the start, `outcome` is not looked at.
#[must_use]
pub fn next_work(action: &ProvisionAction, stage: WorkStage, outcome: Result<(), String>) -> (r:
    WorkStep)
    ensures
        r@ == next_for(action@, stage@, outcome_view(outcome)),
{
    match action {
        ProvisionAction::Create { stable_id, hardware_id, com_port } => next_creation(
            stable_id,
            hardware_id,
            com_port,
            stage,
            outcome,
        ),
        ProvisionAction::Reassign { stable_id, instance_id, from, to } => next_move(
            instance_id,
            from,
            to,
            stage,
            outcome,
            Ghost(stable_id@),
        ),
        ProvisionAction::Authorize { stable_id: _, instance_id, com_port: _ } => match stage {
            WorkStage::Start => run(
                SystemWork::AuthorizeDevice { instance_id: instance_id.clone() },
                WorkStage::Working,
            ),
            WorkStage::Undoing { why } => WorkStep::Failed(why),
            _ => last(outcome),
        },
        ProvisionAction::Retain { .. } => WorkStep::Finished,
    }
}

/// Decide what comes next for a device that is removed. At the start, `outcome` is not looked at.
#[must_use]
pub fn next_removal(
    device: &InstalledEndpoint,
    stage: WorkStage,
    outcome: Result<(), String>,
) -> (r: WorkStep)
    ensures
        r@ == next_for_removal(device@, stage@, outcome_view(outcome)),
{
    match stage {
        WorkStage::Start => match check_remove(device) {
            Err(why) => WorkStep::Failed(why),
            Ok(()) => run(
                SystemWork::RemoveDevice { instance_id: device.instance_id.clone() },
                WorkStage::Working,
            ),
        },
        WorkStage::Working => match outcome {
            Err(why) => WorkStep::Failed(why),
            Ok(()) => match &device.com_port {
                Some(port) => release(port),
                None => WorkStep::Finished,
            },
        },
        WorkStage::Undoing { why } => WorkStep::Failed(why),
        _ => last(outcome),
    }
}

/// A device that could not be set up on a port that was claimed for it costs no port: the port is
/// given back, and the action then fails with what went wrong, however giving it back went.
pub proof fn law_failures_give_the_port_back(
    action: Step,
    why: Seq<char>,
    later: Result<(), Seq<char>>,
)
    requires
        action is Create || action is Reassign,
    ensures
        ({
            let port = match action {
                Step::Create { stable_id, hardware_id, com_port } => com_port,
                Step::Reassign { stable_id, instance_id, from, to } => to,
                _ => Seq::empty(),
            };
            &&& next_for(action, Stage::Working, Err(why)) == NextWork::Run(
                Work::ReleasePort(port),
                Stage::Undoing(why),
            )
            &&& next_for(action, Stage::Undoing(why), later) == NextWork::Failed(why)
        }),
{
}

/// A device gets a port only once the port has been claimed.
pub proof fn law_ports_are_claimed_first(
    action: Step,
    stage: Stage,
    outcome: Result<(), Seq<char>>,
)
    ensures
        next_for(action, stage, outcome) matches NextWork::Run(work, _) ==> (work is CreateDevice
            || work is MoveDevice) ==> stage is Claiming && outcome is Ok,
{
}

/// Only the devices that the hub defines are created, and only those are removed.
pub proof fn law_only_own_devices_are_touched(
    action: Step,
    device: Installed,
    stage: Stage,
    outcome: Result<(), Seq<char>>,
)
    ensures
        next_for(action, stage, outcome) matches NextWork::Run(
            Work::CreateDevice(definition, _),
            _,
        ) ==> (action matches Step::Create { hardware_id, .. } && defined_by_hardware(hardware_id)
            == Some(definition)),
        next_for_removal(device, stage, outcome) matches NextWork::Run(Work::RemoveDevice(_), _)
            ==> defined_by_hardware(device.hardware_id) is Some,
{
}

/// What is done for each action where all goes well: a new device is created on the port that was
/// claimed for it, a moved one gets the port that was claimed for it before its old one is given
/// back, an authorized one gets its owner, and one that is retained is left alone.
pub proof fn law_work_in_order(
    definition: EndpointDefinition,
    instance_id: Seq<char>,
    from: Option<Seq<char>>,
    port: Seq<char>,
    done: Result<(), Seq<char>>,
    why: Seq<char>,
)
    requires
        done is Ok,
    ensures
        ({
            let create = Step::Create {
                stable_id: definition.id(),
                hardware_id: definition.hardware(),
                com_port: port,
            };
            &&& next_for(create, Stage::Start, done) == NextWork::Run(
                Work::ClaimPort(port),
                Stage::Claiming,
            )
            &&& next_for(create, Stage::Claiming, done) == NextWork::Run(
                Work::CreateDevice(definition, port),
                Stage::Working,
            )
            &&& next_for(create, Stage::Working, done) == NextWork::Finished
            &&& next_for(create, Stage::Claiming, Err(why)) == NextWork::Failed(why)
        }),
        ({
            let reassign = Step::Reassign {
                stable_id: definition.id(),
                instance_id,
                from,
                to: port,
            };
            &&& next_for(reassign, Stage::Start, done) == NextWork::Run(
                Work::ClaimPort(port),
                Stage::Claiming,
            )
            &&& next_for(reassign, Stage::Claiming, done) == NextWork::Run(
                Work::MoveDevice(instance_id, port),
                Stage::Working,
            )
            &&& next_for(reassign, Stage::Claiming, Err(why)) == NextWork::Failed(why)
            &&& next_for(reassign, Stage::Working, done) == match from {
                Some(old) => NextWork::Run(Work::ReleasePort(old), Stage::Releasing),
                None => NextWork::Finished,
            }
            &&& next_for(reassign, Stage::Releasing, done) == NextWork::Finished
        }),
        ({
            let authorize = Step::Authorize {
                stable_id: definition.id(),
                instance_id,
                com_port: port,
            };
            let retain = Step::Retain { stable_id: definition.id(), instance_id, com_port: port };
            &&& next_for(authorize, Stage::Start, done) == NextWork::Run(
                Work::AuthorizeDevice(instance_id),
                Stage::Working,
            )
            &&& next_for(authorize, Stage::Working, done) == NextWork::Finished
            &&& next_for(authorize, Stage::Working, Err(why)) == NextWork::Failed(why)
            &&& next_for(retain, Stage::Start, done) == NextWork::Finished
        }),
{
    crate::provisioning::law_definitions_are_found(definition);
}

/// A device is removed before its port is given back, and only where it is one of the hub's own
/// under its own name; a device whose hardware id belongs to another name is not created.
pub proof fn law_removal_in_order(
    definition: EndpointDefinition,
    device: Installed,
    done: Result<(), Seq<char>>,
    why: Seq<char>,
)
    requires
        done is Ok,
    ensures
        device.hardware_id == definition.hardware() && device.stable_id == definition.id() ==> {
            &&& next_for_removal(device, Stage::Start, done) == NextWork::Run(
                Work::RemoveDevice(device.instance_id),
                Stage::Working,
            )
            &&& next_for_removal(device, Stage::Working, done) == match device.com_port {
                Some(port) => NextWork::Run(Work::ReleasePort(port), Stage::Releasing),
                None => NextWork::Finished,
            }
            &&& next_for_removal(device, Stage::Working, Err(why)) == NextWork::Failed(why)
            &&& next_for_removal(device, Stage::Releasing, done) == NextWork::Finished
        },
        device.hardware_id == definition.hardware() && device.stable_id != definition.id()
            ==> next_for_removal(device, Stage::Start, done) is Failed,
        device.stable_id != definition.id() ==> creation_refused(
            device.stable_id,
            definition.hardware(),
        ) is Some,
        creation_refused(definition.id(), definition.hardware()) is None,
{
    crate::provisioning::law_definitions_are_found(definition);
}

} // verus!
