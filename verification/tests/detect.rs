use perry::compose::detect::{
    backends_to_probe, check_machines, colima_running, command_result, first_image, hung_error,
    lima_instance, not_found_reason, op_timeout_secs, priority_list, probe_plan, probe_result,
    version_failure, wait_code, Detection, ProbeFailure, ProbeOutcome, ProbePlan, STDERR_LIMIT,
};
use perry::compose::error::ComposeError;
use perry::compose::types::ImageInfo;
use perry::platform::Platform;

fn detect(setting: Option<&str>) -> Vec<(String, String)> {
    let mut search = Detection::new(backends_to_probe(setting, Platform::Linux));
    while let Some(name) = search.candidate() {
        let reason = match probe_plan(&name, Platform::Linux) {
            ProbePlan::Unknown => "unknown backend".to_string(),
            _ => not_found_reason(&name),
        };
        search.record(ProbeOutcome::Failed(reason));
    }
    match search.into_error() {
        ComposeError::NoBackendFound { probed } => {
            assert!(probed.iter().all(|p| !p.available));
            probed.into_iter().map(|p| (p.name, p.reason)).collect()
        }
        _ => panic!("expected NoBackendFound"),
    }
}

#[test]
fn test_detect_backend_env_override_behavior() {
    let probed = detect(Some("invalid-backend-name"));
    assert_eq!(probed.len(), 1);
    assert_eq!(probed[0].0, "invalid-backend-name");
    assert_eq!(probed[0].1, "unknown backend");

    let probed = detect(Some("bogus-one,bogus-two,bogus-three"));
    assert_eq!(probed.len(), 3, "expected one probe per name");
    assert_eq!(probed[0].0, "bogus-one");
    assert_eq!(probed[1].0, "bogus-two");
    assert_eq!(probed[2].0, "bogus-three");
    assert!(probed.iter().all(|p| p.1.contains("unknown")));

    let probed = detect(Some("  bogus-a  , bogus-b ,, "));
    assert_eq!(probed.len(), 2);
    assert_eq!(probed[0].0, "bogus-a");
    assert_eq!(probed[1].0, "bogus-b");

    assert_eq!(detect(Some("")).len(), detect(None).len());
    assert_eq!(detect(None).len(), 3);
}

#[test]
fn priorities_are_trimmed() {
    assert!(priority_list(" , ,").is_empty());
    assert_eq!(priority_list("a, b\t,\u{a0}c"), vec!["a", "b", "c"]);
    assert_eq!(backends_to_probe(Some(" "), Platform::MacOs).len(), 8);
}

#[test]
fn outcomes_become_results() {
    let ok = probe_result("x", ProbeOutcome::Available);
    assert!(ok.available && ok.reason.is_empty() && ok.name == "x");
    let late = probe_result("x", ProbeOutcome::TimedOut);
    assert!(!late.available);
    assert_eq!(late.reason, "probe timed out");
}

#[test]
fn plans_by_name_and_platform() {
    assert_eq!(probe_plan("apple/container", Platform::MacOs), ProbePlan::Version);
    assert_eq!(probe_plan("podman", Platform::MacOs), ProbePlan::Machine);
    assert_eq!(probe_plan("podman", Platform::Linux), ProbePlan::Binary);
    assert_eq!(probe_plan("orbstack", Platform::Linux), ProbePlan::OrbStack);
    assert_eq!(probe_plan("colima", Platform::Linux), ProbePlan::Colima);
    assert_eq!(probe_plan("lima", Platform::Linux), ProbePlan::Lima);
    assert_eq!(probe_plan("nerdctl", Platform::Linux), ProbePlan::Binary);
    assert_eq!(probe_plan("docker", Platform::Linux), ProbePlan::Binary);
    assert_eq!(probe_plan("rancher-desktop", Platform::MacOs), ProbePlan::Unknown);
}

#[test]
fn probe_outputs_are_read() {
    assert_eq!(not_found_reason("podman"), "podman not found");
    assert_eq!(version_failure(Some(2), " oops\n"), "apple/container --version exited 2: oops");
    assert_eq!(version_failure(None, ""), "apple/container --version exited -1: ");
    assert!(colima_running("colima is running"));
    assert!(!colima_running("colima is stopped"));
    assert!(check_machines(r#"[{"Running":false},{"Running":true}]"#).is_ok());
    assert_eq!(check_machines(r#"[{"Running":"true"},{}]"#).unwrap_err(), "no podman machine running");
    assert_eq!(check_machines("{}").unwrap_err(), "no podman machine running");
    assert_eq!(check_machines("oops").unwrap_err(), "invalid podman output");
    let stdout = "junk\n{\"status\":\"Stopped\",\"name\":\"a\"}\r\n{\"status\":\"Running\",\"name\":\"b\"}\n";
    assert_eq!(lima_instance(stdout), Some("b".to_string()));
    assert_eq!(lima_instance("{\"status\":\"Running\",\"name\":1}\n{\"status\":\"Running\",\"name\":\"b\"}"), None);
    assert_eq!(lima_instance(""), None);
}

#[test]
fn commands_end_or_hang() {
    assert_eq!(op_timeout_secs(None), 300);
    assert_eq!(op_timeout_secs(Some("12")), 12);
    assert_eq!(op_timeout_secs(Some("+12")), 12);
    assert_eq!(op_timeout_secs(Some("-1")), 300);
    assert_eq!(op_timeout_secs(Some("18446744073709551615")), u64::MAX);
    assert_eq!(op_timeout_secs(Some("18446744073709551616")), 300);
    assert_eq!(op_timeout_secs(Some("")), 300);
    assert_eq!(
        hung_error("/bin/docker", 5).text(),
        "Backend error (exit -1): container CLI `/bin/docker` hung for 5s; aborted (configure via PERRY_CONTAINER_OP_TIMEOUT_SECS)"
    );
    let ok = command_result(true, Some(0), "out".into(), "err").unwrap();
    assert_eq!(ok, ("out".to_string(), "err".to_string()));
    assert_eq!(command_result(false, None, "".into(), "e").unwrap_err().text(), "Backend error (exit -1): e");
    let long = "ü".repeat(STDERR_LIMIT);
    let error = command_result(false, Some(3), "".into(), &long).unwrap_err();
    assert_eq!(
        error.text(),
        format!("Backend error (exit 3): {}... [truncated, 8192 bytes total]", "ü".repeat(STDERR_LIMIT / 2))
    );
    let edge = "x".repeat(STDERR_LIMIT);
    assert!(command_result(false, Some(3), "".into(), &edge).unwrap_err().text().ends_with('x'));
}

#[test]
fn exit_codes_are_read() {
    assert_eq!(wait_code(" 17\n"), 17);
    assert_eq!(wait_code("-2147483648"), i32::MIN);
    assert_eq!(wait_code("2147483648"), -1);
    assert_eq!(wait_code("2147483647"), i32::MAX);
    assert_eq!(wait_code(""), -1);
    assert_eq!(wait_code("1 2"), -1);
}

#[test]
fn the_first_image_counts() {
    let image = |id: &str| ImageInfo {
        id: id.into(),
        repository: "r".into(),
        tag: "t".into(),
        size: 1,
        created: "c".into(),
    };
    assert_eq!(first_image(vec![image("a"), image("b")], "ref").unwrap().id, "a");
    assert!(matches!(first_image(vec![], "ref"), Err(ComposeError::NotFound(r)) if r == "ref"));
}

#[test]
fn failed_probes_say_why() {
    let cases = [
        (ProbeFailure::VersionCall("e".to_string()), "apple/container --version failed: e"),
        (ProbeFailure::MachineList, "podman machine list failed"),
        (ProbeFailure::MachineOutput, "invalid podman output"),
        (ProbeFailure::OrbStackMissing, "orbstack not found"),
        (ProbeFailure::ColimaStatus, "colima status failed"),
        (ProbeFailure::ColimaStopped, "colima not running"),
        (ProbeFailure::ColimaDocker, "docker cli not found for colima"),
        (ProbeFailure::LimaList, "limactl list failed"),
        (ProbeFailure::LimaStopped, "no running lima instance"),
        (ProbeFailure::Unknown, "unknown backend"),
    ];
    for (failure, text) in cases {
        assert_eq!(failure.reason(), text);
    }
}
