//! Serial API conformance profiles and result reports.

use vstd::prelude::*;

pub mod judge;
pub mod profiles;

use crate::conformance::profiles::find_profile;
use crate::conformance::profiles::profile_named;
use crate::conformance::profiles::ApplicationProfile;
use crate::text::decimal;
use crate::text::eq_ignore_ascii_case;
use crate::text::push_decimal;
use crate::text::same_ignoring_case;

verus! {

/// Stable identifier for a serial API test.
#[derive(Debug, Clone, Copy, PartialEq, Eq, Structural)]
pub enum CaseId {
    /// Blocking `ReadFile` and `WriteFile` transfer.
    SynchronousIo,
    /// Overlapped `ReadFile` and `WriteFile` transfer.
    OverlappedIo,
    /// Cancellation of a pending overlapped read.
    CancelPendingRead,
    /// Read timeout behavior.
    ReadTimeout,
    /// Receive queue purge and abort behavior.
    PurgeReceive,
    /// Receive notification through `WaitCommEvent`.
    WaitCommEvent,
    /// Serial line format and flow-control configuration.
    SerialConfiguration,
    /// DTR, RTS, and break control requests.
    ModemControl,
    /// Queue counters and error status through `ClearCommError`.
    QueueStatus,
    /// Bounded-buffer overflow fails atomically and leaves the handle usable.
    BufferSaturation,
}

impl CaseId {
    /// The stable command-line and report identifier.
    pub open spec fn name(self) -> Seq<char> {
        match self {
            CaseId::SynchronousIo => "synchronous_io"@,
            CaseId::OverlappedIo => "overlapped_io"@,
            CaseId::CancelPendingRead => "cancel_pending_read"@,
            CaseId::ReadTimeout => "read_timeout"@,
            CaseId::PurgeReceive => "purge_receive"@,
            CaseId::WaitCommEvent => "wait_comm_event"@,
            CaseId::SerialConfiguration => "serial_configuration"@,
            CaseId::ModemControl => "modem_control"@,
            CaseId::QueueStatus => "queue_status"@,
            CaseId::BufferSaturation => "buffer_saturation"@,
        }
    }

    /// Return the stable command-line and report identifier.
    #[must_use]
    pub fn as_str(self) -> (r: &'static str)
        ensures
            r@ == self.name(),
    {
        match self {
            CaseId::SynchronousIo => "synchronous_io",
            CaseId::OverlappedIo => "overlapped_io",
            CaseId::CancelPendingRead => "cancel_pending_read",
            CaseId::ReadTimeout => "read_timeout",
            CaseId::PurgeReceive => "purge_receive",
            CaseId::WaitCommEvent => "wait_comm_event",
            CaseId::SerialConfiguration => "serial_configuration",
            CaseId::ModemControl => "modem_control",
            CaseId::QueueStatus => "queue_status",
            CaseId::BufferSaturation => "buffer_saturation",
        }
    }
}

/// Importance of one case for an application profile.
#[derive(Debug, Clone, Copy, PartialEq, Eq, Structural)]
pub enum Requirement {
    /// The client cannot be supported when this case fails.
    Required,
    /// The client can operate without this case, but CatHub records the result.
    Optional,
    /// The client does not use this behavior in the current inventory.
    NotApplicable,
}

/// Result state for one conformance case.
#[derive(Debug, Clone, Copy, PartialEq, Eq, Structural)]
pub enum CaseStatus {
    /// The device met the test condition.
    Passed,
    /// The device did not meet the test condition.
    Failed,
    /// The harness could not run the test in this environment.
    Skipped,
}

/// Result for one serial API test.
#[derive(Debug, Clone, PartialEq, Eq)]
pub struct CaseResult {
    /// Test identifier.
    pub id: CaseId,
    /// Profile requirement.
    pub requirement: Requirement,
    /// Result state.
    pub status: CaseStatus,
    /// Human-readable result detail.
    pub detail: String,
    /// Win32 error code when an API call failed.
    pub win32_error: Option<u32>,
}

/// Machine-readable output from one harness run.
#[derive(Debug, Clone, PartialEq, Eq)]
pub struct ConformanceReport {
    /// Report schema version.
    pub schema_version: u32,
    /// UTC time from the host that ran the harness.
    pub generated_at_utc: String,
    /// Selected application profile.
    pub profile: String,
    /// Application-facing COM port.
    pub application_port: String,
    /// Peer COM port used by the test process.
    pub peer_port: String,
    /// Operating system description.
    pub operating_system: String,
    /// Result for each selected case.
    pub results: Vec<CaseResult>,
}

impl ConformanceReport {
    /// Return true when all required tests pass.
    #[must_use]
    pub fn required_cases_pass(&self) -> (r: bool)
        ensures
            r == forall|i: int|
                0 <= i < self.results@.len() ==> {
                    ||| (#[trigger] self.results@[i]).requirement != Requirement::Required
                    ||| self.results@[i].status == CaseStatus::Passed
                },
    {
        let mut i: usize = 0;
        while i < self.results.len()
            invariant
                i <= self.results@.len(),
                forall|j: int|
                    0 <= j < i ==> {
                        ||| (#[trigger] self.results@[j]).requirement != Requirement::Required
                        ||| self.results@[j].status == CaseStatus::Passed
                    },
            decreases self.results@.len() - i,
        {
            let result = &self.results[i];
            if result.requirement == Requirement::Required && result.status != CaseStatus::Passed {
                proof {
                    assert(self.results@[i as int].status != CaseStatus::Passed);
                }
                return false;
            }
            i = i + 1;
        }
        true
    }
}

/// Conformance harness errors. Failures of the operating system and of the JSON writer are
/// carried as their text.
#[derive(Debug, Clone, PartialEq, Eq)]
pub enum ConformanceError {
    /// The requested profile does not exist.
    UnknownProfile(String),
    /// The native serial API harness only runs on Windows.
    UnsupportedPlatform,
    /// A Win32 operation failed.
    Win32 {
        /// Operation name.
        operation: String,
        /// The error code.
        code: u32,
    },
    /// A native operation returned an invalid result.
    InvalidResult(String),
    /// Report file operation failed.
    Io(String),
    /// Report serialization failed.
    Json(String),
}

impl ConformanceError {
    /// The words that describe this failure.
    pub open spec fn text(self) -> Seq<char> {
        match self {
            ConformanceError::UnknownProfile(name) => "unknown conformance profile '"@ + name@
                + "'"@,
            ConformanceError::UnsupportedPlatform =>
                "the serial conformance harness requires Windows"@,
            ConformanceError::Win32 { operation, code } => "Win32 operation '"@ + operation@
                + "' failed with error "@ + decimal(code as nat),
            ConformanceError::InvalidResult(why) => "serial conformance failure: "@ + why@,
            ConformanceError::Io(why) => why@,
            ConformanceError::Json(why) => why@,
        }
    }

    /// Describe this failure in words.
    #[must_use]
    pub fn message(&self) -> (r: String)
        ensures
            r@ == self.text(),
    {
        match self {
            ConformanceError::UnknownProfile(name) => {
                let mut out = "unknown conformance profile '".to_owned();
                out.append(name.as_str());
                out.append("'");
                out
            },
            ConformanceError::UnsupportedPlatform => {
                "the serial conformance harness requires Windows".to_owned()
            },
            ConformanceError::Win32 { operation, code } => {
                let mut out = "Win32 operation '".to_owned();
                out.append(operation.as_str());
                out.append("' failed with error ");
                push_decimal(&mut out, *code as u64);
                out
            },
            ConformanceError::InvalidResult(why) => {
                let mut out = "serial conformance failure: ".to_owned();
                out.append(why.as_str());
                out
            },
            ConformanceError::Io(why) => why.clone(),
            ConformanceError::Json(why) => why.clone(),
        }
    }
}

/// Whether a failure is an invalid result, in these words.
pub open spec fn invalid_result(e: ConformanceError, why: Seq<char>) -> bool {
    e matches ConformanceError::InvalidResult(words) && words@ == why
}

/// Select the profile to run against a virtual serial pair. The harness needs Windows, and the
/// two ports have to be different.
///
/// # Errors
///
/// Returns an error if the profile is unknown, the host is not Windows, or the ports are the
/// same.
pub fn run(profile_name: &str, application_port: &str, peer_port: &str, windows: bool) -> (r: Result<
    ApplicationProfile,
    ConformanceError,
>)
    ensures
        match profile_named(profile_name@) {
            None => r matches Err(ConformanceError::UnknownProfile(name)) && name@
                == profile_name@,
            Some(profile) => if !windows {
                r matches Err(ConformanceError::UnsupportedPlatform)
            } else if same_ignoring_case(application_port@, peer_port@) {
                r matches Err(e) && invalid_result(
                    e,
                    "application and peer ports must be different"@,
                )
            } else {
                r matches Ok(found) && found@ == profile
            },
        },
{
    let profile = match find_profile(profile_name) {
        Some(profile) => profile,
        None => return Err(ConformanceError::UnknownProfile(profile_name.to_owned())),
    };
    if !windows {
        return Err(ConformanceError::UnsupportedPlatform);
    }
    if eq_ignore_ascii_case(application_port, peer_port) {
        return Err(
            ConformanceError::InvalidResult(
                "application and peer ports must be different".to_owned(),
            ),
        );
    }
    Ok(profile)
}

/// Select the profile to run against a managed endpoint whose private peer is reached over TCP.
/// The harness needs Windows.
///
/// # Errors
///
/// Returns an error if the profile is unknown or the host is not Windows.
pub fn run_with_tcp_peer(profile_name: &str, windows: bool) -> (r: Result<
    ApplicationProfile,
    ConformanceError,
>)
    ensures
        match profile_named(profile_name@) {
            None => r matches Err(ConformanceError::UnknownProfile(name)) && name@
                == profile_name@,
            Some(profile) => if !windows {
                r matches Err(ConformanceError::UnsupportedPlatform)
            } else {
                r matches Ok(found) && found@ == profile
            },
        },
{
    let profile = match find_profile(profile_name) {
        Some(profile) => profile,
        None => return Err(ConformanceError::UnknownProfile(profile_name.to_owned())),
    };
    if !windows {
        return Err(ConformanceError::UnsupportedPlatform);
    }
    Ok(profile)
}

/// A report is summed up by its required cases alone: what an optional case did does not
/// matter.
pub proof fn law_optional_cases_do_not_matter(
    a: Seq<CaseResult>,
    b: Seq<CaseResult>,
    at: int,
    r: CaseResult,
)
    requires
        0 <= at < a.len(),
        a[at].requirement != Requirement::Required,
        r.requirement != Requirement::Required,
        b == a.update(at, r),
    ensures
        (forall|i: int|
            0 <= i < a.len() ==> {
                ||| (#[trigger] a[i]).requirement != Requirement::Required
                ||| a[i].status == CaseStatus::Passed
            }) == (forall|i: int|
            0 <= i < b.len() ==> {
                ||| (#[trigger] b[i]).requirement != Requirement::Required
                ||| b[i].status == CaseStatus::Passed
            }),
{
    assert forall|i: int| 0 <= i < a.len() && i != at implies a[i] == #[trigger] b[i] by {}
    if forall|i: int|
        0 <= i < b.len() ==> {
            ||| (#[trigger] b[i]).requirement != Requirement::Required
            ||| b[i].status == CaseStatus::Passed
        } {
        assert forall|i: int| 0 <= i < a.len() implies {
            ||| (#[trigger] a[i]).requirement != Requirement::Required
            ||| a[i].status == CaseStatus::Passed
        } by {
            if i != at {
                assert(a[i] == b[i]);
            }
        }
    }
}

} // verus!
