//! Tests of the conformance profiles and verdicts, the published runtime information and the
//! ordering of names.

use cathub::conformance::judge::case_result;
use cathub::conformance::judge::format_command;
use cathub::conformance::judge::judge_event;
use cathub::conformance::judge::judge_format;
use cathub::conformance::judge::judge_purge;
use cathub::conformance::judge::judge_queue_depth;
use cathub::conformance::judge::judge_queued;
use cathub::conformance::judge::judge_timeout;
use cathub::conformance::judge::judge_wait;
use cathub::conformance::judge::judge_write;
use cathub::conformance::judge::report;
use cathub::conformance::judge::require_equal;
use cathub::conformance::judge::EV_RXCHAR;
use cathub::conformance::profiles::find_profile;
use cathub::conformance::profiles::profiles;
use cathub::conformance::run;
use cathub::conformance::run_with_tcp_peer;
use cathub::conformance::CaseId;
use cathub::conformance::CaseResult;
use cathub::conformance::CaseStatus;
use cathub::conformance::ConformanceError;
use cathub::conformance::ConformanceReport;
use cathub::conformance::Requirement;
use cathub::runtime_info::may_remove;
use cathub::runtime_info::HamlibEndpoint;
use cathub::runtime_info::RuntimeInfo;

#[test]
fn every_profile_has_unique_cases() {
    for profile in profiles() {
        for (index, case) in profile.cases.iter().enumerate() {
            assert!(
                profile.cases[..index].iter().all(|seen| seen.id != case.id),
                "profile {} has duplicate case {}",
                profile.name,
                case.id.as_str()
            );
        }
    }
}

#[test]
fn required_case_summary_ignores_optional_failure() {
    let report = ConformanceReport {
        schema_version: 1,
        generated_at_utc: String::new(),
        profile: "test".to_string(),
        application_port: "COM1".to_string(),
        peer_port: "COM2".to_string(),
        operating_system: "test".to_string(),
        results: vec![
            CaseResult {
                id: CaseId::SynchronousIo,
                requirement: Requirement::Required,
                status: CaseStatus::Passed,
                detail: String::new(),
                win32_error: None,
            },
            CaseResult {
                id: CaseId::ModemControl,
                requirement: Requirement::Optional,
                status: CaseStatus::Failed,
                detail: String::new(),
                win32_error: Some(1),
            },
        ],
    };

    assert!(report.required_cases_pass());
}

#[test]
fn a_failed_required_case_fails_the_report() {
    let profile = find_profile("n1mm-winkeyer").expect("profile");
    let case = profile
        .cases
        .iter()
        .find(|case| case.requirement == Requirement::Required)
        .expect("a required case");
    let failed = case_result(
        *case,
        Err(ConformanceError::Win32 {
            operation: "ReadFile".to_string(),
            code: 5,
        }),
    );
    assert_eq!(failed.status, CaseStatus::Failed);
    assert_eq!(failed.win32_error, Some(5));
    assert_eq!(
        failed.detail,
        "Win32 operation 'ReadFile' failed with error 5"
    );
    let summary = report("n1mm-winkeyer", "COM1", "COM2", 12, vec![failed]);
    assert_eq!(summary.generated_at_utc, "unix:12");
    assert!(!summary.required_cases_pass());
}

#[test]
fn profiles_are_found_by_name() {
    for profile in profiles() {
        assert_eq!(find_profile(profile.name), Some(profile));
    }
    assert_eq!(find_profile("unheard-of"), None);
    assert!(matches!(
        run("unheard-of", "COM1", "COM2", true),
        Err(ConformanceError::UnknownProfile(_))
    ));
    assert_eq!(
        run_with_tcp_peer("wktools", false),
        Err(ConformanceError::UnsupportedPlatform)
    );
    assert_eq!(
        run("wktools", "COM1", "COM2", true).map(|profile| profile.name),
        Ok("wktools")
    );
}

#[test]
fn a_timed_read_is_neither_early_nor_late() {
    assert_eq!(
        judge_timeout(0, 101_000_000),
        Ok("empty read completed after 101 ms".to_string())
    );
    assert!(judge_timeout(0, 49_999_999).is_err());
    assert!(judge_timeout(0, 1_000_000_001).is_err());
    assert!(judge_timeout(1, 101_000_000).is_err());
}

#[test]
fn queues_and_writes_are_judged_by_their_counts() {
    assert!(judge_queued(1).is_ok() && judge_queued(0).is_err());
    assert_eq!(
        judge_purge(5, 0),
        Ok("purge removed 5 queued bytes".to_string())
    );
    assert!(judge_purge(5, 2).is_err());
    assert!(judge_queue_depth(4, 4).is_ok() && judge_queue_depth(3, 4).is_err());
    assert!(judge_write("wrote", 3, 3).is_ok());
    assert_eq!(
        judge_write("wrote", 2, 3).map_err(|e| e.message()),
        Err("serial conformance failure: wrote 2 of 3 bytes".to_string())
    );
    assert_eq!(
        require_equal("echo", b"ab", b"abc").map_err(|e| e.message()),
        Err("serial conformance failure: echo returned 2 bytes, expected 3".to_string())
    );
    assert!(require_equal("echo", b"ab", b"ab").is_ok());
}

#[test]
fn events_and_waits_are_judged_by_their_codes() {
    assert!(judge_event(EV_RXCHAR | 4).is_ok());
    assert_eq!(
        judge_event(0x100).map_err(|e| e.message()),
        Err("serial conformance failure: WaitCommEvent returned mask 0x00000100".to_string())
    );
    assert!(judge_wait("read", 10, 0).is_ok());
    assert!(judge_wait("read", 10, 258).is_err());
}

#[test]
fn keyer_clients_use_two_stop_bits() {
    assert_eq!(format_command("wktools"), "baud=1200 parity=N data=8 stop=2");
    assert!(judge_format("wktools", 1_200, 8, 0, 2).is_ok());
    assert!(judge_format("wktools", 1_200, 8, 0, 0).is_err());
    assert!(judge_format("n1mm-cat", 9_600, 8, 0, 0).is_ok());
}

#[test]
fn publishes_and_removes_runtime_info() {
    let info = RuntimeInfo::new(
        77,
        Some("http://127.0.0.1:54321".to_string()),
        vec![HamlibEndpoint {
            name: "engine".to_string(),
            endpoint: "127.0.0.1:4532".to_string(),
        }],
    );
    assert_eq!(info.schema_version, 1);
    assert_eq!(info.pid, 77);
    assert_eq!(
        info.winkeyer_endpoint.as_deref(),
        Some("http://127.0.0.1:54321")
    );
    assert_eq!(info.hamlib_endpoints[0].endpoint, "127.0.0.1:4532");
    assert_eq!(info.temporary_extension(), "tmp-77");

    assert!(may_remove(Some(77), 77));
    assert!(!may_remove(Some(78), 77));
    assert!(!may_remove(None, 77));
}
