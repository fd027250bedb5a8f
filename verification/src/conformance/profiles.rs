//! The serial behavior that each supported application needs.

use vstd::prelude::*;

use crate::conformance::CaseId;
use crate::conformance::Requirement;
use crate::text::same_text;

verus! {

/// One serial behavior in an application profile.
#[derive(Debug, Clone, Copy, PartialEq, Eq)]
pub struct ProfileCase {
    /// Test identifier.
    pub id: CaseId,
    /// Importance for the client.
    pub requirement: Requirement,
    /// Current source for the requirement.
    pub evidence: &'static str,
}

/// One serial behavior, as a value of the model.
pub struct CaseView {
    /// Test identifier.
    pub id: CaseId,
    /// Importance for the client.
    pub requirement: Requirement,
    /// Current source for the requirement.
    pub evidence: Seq<char>,
}

impl View for ProfileCase {
    type V = CaseView;

    open spec fn view(&self) -> CaseView {
        CaseView { id: self.id, requirement: self.requirement, evidence: self.evidence@ }
    }
}

/// The cases of a vector.
pub open spec fn case_views(v: Seq<ProfileCase>) -> Seq<CaseView> {
    v.map_values(|c: ProfileCase| c@)
}

/// Expected serial behavior for one supported application interface.
#[derive(Debug, Clone, PartialEq, Eq)]
pub struct ApplicationProfile {
    /// Stable profile name.
    pub name: &'static str,
    /// Application and interface name.
    pub client: &'static str,
    /// Required serial format.
    pub line_format: &'static str,
    /// Tests selected for this profile.
    pub cases: Vec<ProfileCase>,
}

/// Expected serial behavior, as a value of the model.
pub struct ProfileView {
    /// Stable profile name.
    pub name: Seq<char>,
    /// Application and interface name.
    pub client: Seq<char>,
    /// Required serial format.
    pub line_format: Seq<char>,
    /// Tests selected for this profile.
    pub cases: Seq<CaseView>,
}

impl View for ApplicationProfile {
    type V = ProfileView;

    open spec fn view(&self) -> ProfileView {
        ProfileView {
            name: self.name@,
            client: self.client@,
            line_format: self.line_format@,
            cases: case_views(self.cases@),
        }
    }
}

/// The profiles of a vector.
pub open spec fn profile_views(v: Seq<ApplicationProfile>) -> Seq<ProfileView> {
    v.map_values(|p: ApplicationProfile| p@)
}

/// A case that a client cannot do without.
pub open spec fn needed(id: CaseId, evidence: Seq<char>) -> CaseView {
    CaseView { id, requirement: Requirement::Required, evidence }
}

fn required(id: CaseId, evidence: &'static str) -> (r: ProfileCase)
    ensures
        r@ == needed(id, evidence@),
{
    ProfileCase { id, requirement: Requirement::Required, evidence }
}

fn optional(id: CaseId, evidence: &'static str) -> (r: ProfileCase)
    ensures
        r@ == (CaseView { id, requirement: Requirement::Optional, evidence: evidence@ }),
{
    ProfileCase { id, requirement: Requirement::Optional, evidence }
}

/// The cases of every profile; only the source for the serial format differs.
pub open spec fn standard_cases(format_evidence: Seq<char>) -> Seq<CaseView> {
    let scope = "CatHub issue #6 acceptance scope"@;
    seq![
        needed(CaseId::SynchronousIo, scope),
        needed(CaseId::OverlappedIo, scope),
        needed(CaseId::CancelPendingRead, scope),
        needed(CaseId::ReadTimeout, scope),
        needed(CaseId::PurgeReceive, scope),
        needed(CaseId::WaitCommEvent, scope),
        needed(CaseId::SerialConfiguration, format_evidence),
        CaseView {
            id: CaseId::ModemControl,
            requirement: Requirement::Optional,
            evidence: "client trace required"@,
        },
        needed(CaseId::QueueStatus, scope),
    ]
}

fn cases(format_evidence: &'static str) -> (r: Vec<ProfileCase>)
    ensures
        case_views(r@) == standard_cases(format_evidence@),
{
    let scope = "CatHub issue #6 acceptance scope";
    let mut v: Vec<ProfileCase> = Vec::new();
    v.push(required(CaseId::SynchronousIo, scope));
    v.push(required(CaseId::OverlappedIo, scope));
    v.push(required(CaseId::CancelPendingRead, scope));
    v.push(required(CaseId::ReadTimeout, scope));
    v.push(required(CaseId::PurgeReceive, scope));
    v.push(required(CaseId::WaitCommEvent, scope));
    v.push(required(CaseId::SerialConfiguration, format_evidence));
    v.push(optional(CaseId::ModemControl, "client trace required"));
    v.push(required(CaseId::QueueStatus, scope));
    proof {
        assert(case_views(v@) =~= standard_cases(format_evidence@));
    }
    v
}

/// A CAT profile.
pub open spec fn cat_profile(name: Seq<char>, client: Seq<char>) -> ProfileView {
    ProfileView {
        name,
        client,
        line_format: "Client-configured CAT format"@,
        cases: standard_cases("CatHub issue #6 acceptance scope"@),
    }
}

fn cat(name: &'static str, client: &'static str) -> (r: ApplicationProfile)
    ensures
        r@ == cat_profile(name@, client@),
{
    ApplicationProfile {
        name,
        client,
        line_format: "Client-configured CAT format",
        cases: cases("CatHub issue #6 acceptance scope"),
    }
}

/// A keyer profile.
pub open spec fn keyer_profile(name: Seq<char>, client: Seq<char>) -> ProfileView {
    ProfileView {
        name,
        client,
        line_format: "1200 baud, 8 data bits, no parity, 2 stop bits"@,
        cases: standard_cases("WinKeyer host format 1200 8-N-2"@),
    }
}

fn keyer(name: &'static str, client: &'static str) -> (r: ApplicationProfile)
    ensures
        r@ == keyer_profile(name@, client@),
{
    ApplicationProfile {
        name,
        client,
        line_format: "1200 baud, 8 data bits, no parity, 2 stop bits",
        cases: cases("WinKeyer host format 1200 8-N-2"),
    }
}

/// All supported application profiles.
pub open spec fn known_profiles() -> Seq<ProfileView> {
    seq![
        cat_profile("hdsdr-omnirig"@, "HDSDR through OmniRig, TS-2000 dialect"@),
        cat_profile("n1mm-radio"@, "N1MM Logger+ radio CAT, TS-590 dialect"@),
        cat_profile("arcp-590"@, "Kenwood ARCP-590"@),
        keyer_profile("n1mm-winkeyer"@, "N1MM Logger+ WinKeyer"@),
        keyer_profile("wktools"@, "WKTools maintenance"@),
    ]
}

/// Return all supported application profiles.
#[must_use]
pub fn profiles() -> (r: Vec<ApplicationProfile>)
    ensures
        profile_views(r@) == known_profiles(),
{
    let mut v: Vec<ApplicationProfile> = Vec::new();
    v.push(cat("hdsdr-omnirig", "HDSDR through OmniRig, TS-2000 dialect"));
    v.push(cat("n1mm-radio", "N1MM Logger+ radio CAT, TS-590 dialect"));
    v.push(cat("arcp-590", "Kenwood ARCP-590"));
    v.push(keyer("n1mm-winkeyer", "N1MM Logger+ WinKeyer"));
    v.push(keyer("wktools", "WKTools maintenance"));
    proof {
        assert(profile_views(v@) =~= known_profiles());
    }
    v
}

/// The profile with a name.
pub open spec fn profile_named(name: Seq<char>) -> Option<ProfileView> {
    if name == "hdsdr-omnirig"@ {
        Some(known_profiles()[0])
    } else if name == "n1mm-radio"@ {
        Some(known_profiles()[1])
    } else if name == "arcp-590"@ {
        Some(known_profiles()[2])
    } else if name == "n1mm-winkeyer"@ {
        Some(known_profiles()[3])
    } else if name == "wktools"@ {
        Some(known_profiles()[4])
    } else {
        None
    }
}

/// Find a profile by its stable name.
#[must_use]
pub fn find_profile(name: &str) -> (r: Option<ApplicationProfile>)
    ensures
        match r {
            Some(profile) => profile_named(name@) == Some(profile@),
            None => profile_named(name@) is None,
        },
{
    if same_text(name, "hdsdr-omnirig") {
        Some(cat("hdsdr-omnirig", "HDSDR through OmniRig, TS-2000 dialect"))
    } else if same_text(name, "n1mm-radio") {
        Some(cat("n1mm-radio", "N1MM Logger+ radio CAT, TS-590 dialect"))
    } else if same_text(name, "arcp-590") {
        Some(cat("arcp-590", "Kenwood ARCP-590"))
    } else if same_text(name, "n1mm-winkeyer") {
        Some(keyer("n1mm-winkeyer", "N1MM Logger+ WinKeyer"))
    } else if same_text(name, "wktools") {
        Some(keyer("wktools", "WKTools maintenance"))
    } else {
        None
    }
}

/// No profile has a case twice.
pub proof fn law_cases_are_unique(p: int, i: int, j: int)
    requires
        0 <= p < known_profiles().len(),
        0 <= i < j < known_profiles()[p].cases.len(),
    ensures
        known_profiles()[p].cases[i].id != known_profiles()[p].cases[j].id,
{
}

/// Every profile is found by its own name.
pub proof fn law_profiles_are_found(p: int)
    requires
        0 <= p < known_profiles().len(),
    ensures
        profile_named(known_profiles()[p].name) == Some(known_profiles()[p]),
{
    reveal_strlit("hdsdr-omnirig");
    reveal_strlit("n1mm-radio");
    reveal_strlit("arcp-590");
    reveal_strlit("n1mm-winkeyer");
    reveal_strlit("wktools");
    assert("hdsdr-omnirig"@[0] != "n1mm-winkeyer"@[0]);
    assert("hdsdr-omnirig"@.len() == 13 && "n1mm-winkeyer"@.len() == 13);
    assert("n1mm-radio"@.len() == 10 && "arcp-590"@.len() == 8 && "wktools"@.len() == 7);
    assert(p == 0 || p == 1 || p == 2 || p == 3 || p == 4);
}

} // verus!
