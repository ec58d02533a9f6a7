use std::collections::BTreeSet;

use perry::compose::backend::{platform_candidates, SecurityProfile};
use perry::compose::capabilities::{
    capabilities_for_backend, normalise_security_profile, normalise_spec_for, BackendCapabilities,
    EnforcementMode, FeatureSupport, NormalizationAction,
};
use perry::compose::maps::OrderedMap;
use perry::compose::selection::{
    feature_satisfies, required_features, select_backend_for, unsupported_feature_names, SelectMode,
};
use perry::compose::types::{
    ComposeHealthcheck, ComposeNetwork, ComposeService, ComposeSpec, ContainerSpec, VolumeValue,
};
use perry::platform::Platform;

#[test]
fn docker_supports_everything_we_care_about() {
    let unsupported = unsupported_feature_names(&BackendCapabilities::docker());
    assert!(
        unsupported.is_empty(),
        "Docker should have no unsupported features; got {:?}",
        unsupported
    );
}

#[test]
fn apple_unsupported_features_match_cli_reality() {
    let unsupported: BTreeSet<&str> =
        unsupported_feature_names(&BackendCapabilities::apple()).into_iter().collect();
    let expected: BTreeSet<&str> = [
        "privileged",
        "seccomp_profile",
        "no_new_privileges",
        "internal_network",
        "ipc_namespace_share",
        "pid_namespace_share",
        "selinux_mount_labels",
        "network_alias",
    ]
    .into_iter()
    .collect();
    assert_eq!(unsupported, expected);
}

#[test]
fn normalise_drops_privileged_on_apple() {
    let mut spec = ContainerSpec {
        image: "alpine".into(),
        privileged: Some(true),
        ..Default::default()
    };
    let warnings = normalise_spec_for(&BackendCapabilities::apple(), "svc", &mut spec);
    assert_eq!(spec.privileged, None);
    assert_eq!(warnings.len(), 1);
    assert_eq!(warnings[0].field, "privileged");
    assert_eq!(warnings[0].backend, "apple");
    assert!(matches!(warnings[0].action, NormalizationAction::Dropped));
    assert_eq!(
        warnings[0].reason,
        "backend apple does not support `privileged` mode; field dropped"
    );
}

#[test]
fn normalise_keeps_privileged_on_docker() {
    let mut spec = ContainerSpec {
        image: "alpine".into(),
        privileged: Some(true),
        ..Default::default()
    };
    let warnings = normalise_spec_for(&BackendCapabilities::docker(), "svc", &mut spec);
    assert_eq!(spec.privileged, Some(true));
    assert!(warnings.is_empty());
}

#[test]
fn normalise_drops_seccomp_on_apple() {
    let mut profile = SecurityProfile {
        read_only_root: true,
        seccomp: Some("/etc/seccomp.json".into()),
        ..Default::default()
    };
    let warnings = normalise_security_profile(&BackendCapabilities::apple(), "svc", &mut profile);
    assert_eq!(profile.seccomp, None);
    assert!(profile.read_only_root);
    assert_eq!(warnings.len(), 1);
    assert_eq!(warnings[0].field, "seccomp");
}

#[test]
fn normalise_keeps_seccomp_on_docker() {
    let mut profile = SecurityProfile {
        read_only_root: false,
        seccomp: Some("/etc/seccomp.json".into()),
        ..Default::default()
    };
    let warnings = normalise_security_profile(&BackendCapabilities::docker(), "svc", &mut profile);
    assert_eq!(profile.seccomp, Some("/etc/seccomp.json".into()));
    assert!(warnings.is_empty());
}

#[test]
fn normalise_idempotent_on_apple() {
    let mut spec = ContainerSpec {
        image: "alpine".into(),
        privileged: Some(true),
        ..Default::default()
    };
    let _ = normalise_spec_for(&BackendCapabilities::apple(), "svc", &mut spec);
    let warnings_pass2 = normalise_spec_for(&BackendCapabilities::apple(), "svc", &mut spec);
    assert!(warnings_pass2.is_empty());
}

#[test]
fn enforcement_mode_default_is_lenient() {
    assert_eq!(EnforcementMode::default(), EnforcementMode::Lenient);
}

#[test]
fn capability_constants_have_distinct_backend_ids() {
    let names = [
        BackendCapabilities::docker().backend,
        BackendCapabilities::podman().backend,
        BackendCapabilities::apple().backend,
        BackendCapabilities::lima().backend,
    ];
    let unique: BTreeSet<&str> = names.iter().copied().collect();
    assert_eq!(unique.len(), names.len(), "duplicate backend identifiers");
}

#[test]
fn normalise_drops_aliases_on_apple() {
    let mut spec = ContainerSpec {
        image: "alpine".into(),
        network_aliases: Some(vec!["db".into()]),
        ..Default::default()
    };
    let warnings = normalise_spec_for(&BackendCapabilities::apple(), "svc", &mut spec);
    assert_eq!(spec.network_aliases, None);
    assert_eq!(warnings[0].field, "network_aliases");
    assert_eq!(warnings[0].service, "svc");
    assert!(warnings[0].reason.contains("service-key DNS aliases dropped — sibling"));

    let mut none = ContainerSpec { network_aliases: Some(vec![]), ..Default::default() };
    assert!(normalise_spec_for(&BackendCapabilities::apple(), "svc", &mut none).is_empty());
    assert_eq!(none.network_aliases, Some(vec![]));
}

#[test]
fn support_is_told_apart() {
    assert!(FeatureSupport::Native.is_native());
    assert!(!FeatureSupport::Partial("x").is_native());
    assert!(FeatureSupport::Unsupported.is_unsupported());
    assert!(!FeatureSupport::Emulated.is_unsupported());
}

#[test]
fn backends_without_a_table_count_as_docker() {
    assert_eq!(capabilities_for_backend("apple/container").backend, "apple");
    assert_eq!(capabilities_for_backend("lima").backend, "lima");
    assert_eq!(capabilities_for_backend("podman").backend, "podman");
    assert_eq!(capabilities_for_backend("colima").backend, "docker");
    assert_eq!(capabilities_for_backend("").backend, "docker");
}

fn project(service: ComposeService) -> ComposeSpec {
    let mut services = OrderedMap::new();
    services.insert("a".to_string(), ComposeService::default());
    services.insert("b".to_string(), service);
    ComposeSpec { services, ..Default::default() }
}

fn volume(text: &str) -> VolumeValue {
    VolumeValue { value: serde_yaml::Value::String(text.to_string()), entry: None }
}

#[test]
fn required_features_follow_the_services() {
    assert!(required_features(&project(ComposeService::default())).is_empty());
    let everything = ComposeService {
        privileged: Some(true),
        security_opt: Some(vec!["no-new-privileges=true".into(), "seccomp:x".into()]),
        cap_drop: Some(vec!["ALL".into()]),
        read_only: Some(true),
        user: Some("nobody".into()),
        restart: Some("always".into()),
        healthcheck: Some(ComposeHealthcheck {
            test: serde_yaml::Value::Null,
            interval: None,
            timeout: None,
            retries: None,
            start_period: None,
            start_interval: None,
            disable: None,
        }),
        pid: Some("host".into()),
        tmpfs: Some(serde_yaml::Value::Null),
        volumes: Some(vec![volume("a:/b"), volume("a:/b:Z")]),
        ..Default::default()
    };
    let mut spec = project(everything);
    let mut networks = OrderedMap::new();
    networks.insert(
        "n".to_string(),
        Some(ComposeNetwork { internal: Some(true), ..Default::default() }),
    );
    spec.networks = Some(networks);
    assert_eq!(
        required_features(&spec),
        vec![
            "healthcheck_native",
            "internal_network",
            "linux_capabilities",
            "no_new_privileges",
            "pid_namespace_share",
            "privileged",
            "read_only_rootfs",
            "restart_policy",
            "run_as_user",
            "seccomp_profile",
            "selinux_mount_labels",
            "tmpfs_mounts",
        ]
    );
    let nothing = ComposeService {
        privileged: Some(false),
        security_opt: Some(vec!["label=x".into()]),
        cap_add: Some(vec![]),
        restart: Some("no".into()),
        pid: Some("private".into()),
        volumes: Some(vec![volume("a:/b:zz")]),
        ..Default::default()
    };
    assert!(required_features(&project(nothing)).is_empty());
}

#[test]
fn backends_are_selected_by_feature() {
    let plain = project(ComposeService::default());
    let restarting = project(ComposeService { restart: Some("always".into()), ..Default::default() });
    let privileged = project(ComposeService { privileged: Some(true), ..Default::default() });
    let mac = Platform::MacOs;
    assert_eq!(select_backend_for(&plain, SelectMode::StrictNative, mac), Some("apple/container"));
    assert_eq!(select_backend_for(&plain, SelectMode::default(), Platform::Linux), Some("podman"));
    assert_eq!(
        select_backend_for(&restarting, SelectMode::AcceptEmulated, mac),
        Some("apple/container")
    );
    assert_eq!(select_backend_for(&restarting, SelectMode::StrictNative, mac), Some("orbstack"));
    assert_eq!(select_backend_for(&privileged, SelectMode::AcceptPartial, mac), Some("orbstack"));
}

#[test]
fn modes_accept_more_and_more() {
    let apple = BackendCapabilities::apple();
    assert!(!feature_satisfies(&apple, "restart_policy", SelectMode::StrictNative));
    assert!(feature_satisfies(&apple, "restart_policy", SelectMode::AcceptEmulated));
    assert!(!feature_satisfies(&apple, "user_defined_bridge", SelectMode::AcceptEmulated));
    assert!(feature_satisfies(&apple, "user_defined_bridge", SelectMode::AcceptPartial));
    assert!(!feature_satisfies(&apple, "privileged", SelectMode::AcceptPartial));
    assert!(feature_satisfies(&apple, "no_such_feature", SelectMode::StrictNative));
}

#[test]
fn docker_is_always_the_last_resort() {
    for platform in [
        Platform::MacOs,
        Platform::Ios,
        Platform::Linux,
        Platform::Windows,
        Platform::Other,
    ] {
        let names = platform_candidates(platform);
        assert_eq!(names.last(), Some(&"docker"));
        assert!(names.contains(&"podman"));
    }
}
