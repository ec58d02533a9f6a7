use perry::compose::apple_outputs::{read_entry, read_image, split_image_reference};
use perry::compose::backend::{platform_candidates, SecurityProfile};
use perry::compose::error::ComposeError;
use perry::compose::maps::OrderedMap;
use perry::compose::outputs::{read_docker_entry, read_docker_image, read_docker_inspection};
use perry::compose::protocol::{
    insert_before_image, prepare_run, AppleContainerProtocol, CliProtocol, DockerProtocol,
    LimaProtocol,
};
use perry::compose::types::{
    ComposeNetwork, ComposeServiceBuild, ComposeVolume, ContainerSpec, ListOrDict,
};
use perry::platform::Platform;

fn pairs(entries: &[(&str, &str)]) -> OrderedMap<String> {
    let mut map = OrderedMap::new();
    for (k, v) in entries {
        map.insert(k.to_string(), v.to_string());
    }
    map
}

#[test]
fn test_docker_run_args() {
    let proto = DockerProtocol;
    let spec = ContainerSpec {
        image: "nginx".into(),
        name: Some("web".into()),
        ports: Some(vec!["80:80".into()]),
        env: Some(pairs(&[("FOO", "BAR")])),
        rm: Some(true),
        ..Default::default()
    };

    let args = proto.run_args(&spec);
    assert!(args.contains(&"run".to_string()));
    assert!(args.contains(&"--name".to_string()));
    assert!(args.contains(&"web".to_string()));
    assert!(args.contains(&"-p".to_string()));
    assert!(args.contains(&"80:80".to_string()));
    assert!(args.contains(&"-e".to_string()));
    assert!(args.contains(&"FOO=BAR".to_string()));
    assert!(args.contains(&"--rm".to_string()));
    assert!(args.contains(&"nginx".to_string()));
}

#[test]
fn test_docker_run_args_includes_network_alias() {
    let proto = DockerProtocol;
    let spec = ContainerSpec {
        image: "postgres:16-alpine".into(),
        name: Some("myapp_db_abc12345".into()),
        network: Some("myapp_appnet".into()),
        network_aliases: Some(vec!["db".into(), "primary-db".into()]),
        ..Default::default()
    };
    let args = proto.run_args(&spec);
    assert!(
        args.windows(2).any(|w| w[0] == "--network-alias" && w[1] == "db"),
        "expected --network-alias db; got {:?}",
        args
    );
    assert!(
        args.windows(2).any(|w| w[0] == "--network-alias" && w[1] == "primary-db"),
        "expected --network-alias primary-db; got {:?}",
        args
    );
}

#[test]
fn test_docker_run_args_emits_seccomp_when_set() {
    let proto = DockerProtocol;
    let spec = ContainerSpec {
        image: "alpine".into(),
        ..Default::default()
    };
    let _ = proto.run_args(&spec);
    let security_args = proto.security_args(&SecurityProfile {
        read_only_root: true,
        seccomp: Some("default".into()),
        ..Default::default()
    });
    assert!(
        security_args.iter().any(|s| s.contains("seccomp")),
        "expected seccomp in security args; got {:?}",
        security_args
    );
}

#[test]
fn test_docker_run_args_emits_entrypoint_array_form() {
    let proto = DockerProtocol;
    let spec = ContainerSpec {
        image: "alpine".into(),
        entrypoint: Some(vec!["/usr/bin/env".into(), "sh".into()]),
        ..Default::default()
    };
    let args = proto.run_args(&spec);
    let ep_idx = args
        .iter()
        .position(|s| s == "--entrypoint")
        .expect("expected --entrypoint flag");
    assert!(
        ep_idx + 1 < args.len(),
        "--entrypoint must have a value after it; got {:?}",
        args
    );
}

#[test]
fn test_docker_run_args_omits_rm_when_unset() {
    let proto = DockerProtocol;
    let spec = ContainerSpec {
        image: "alpine".into(),
        rm: None,
        ..Default::default()
    };
    let args = proto.run_args(&spec);
    assert!(
        !args.iter().any(|s| s == "--rm"),
        "rm: None must NOT emit --rm; got {:?}",
        args
    );
}

#[test]
fn test_docker_run_args_omits_optional_flags_when_unset() {
    let proto = DockerProtocol;
    let spec = ContainerSpec {
        image: "alpine".into(),
        ..Default::default()
    };
    let args = proto.run_args(&spec);
    let unwanted = [
        "--privileged",
        "--read-only",
        "--user",
        "--workdir",
        "--cap-add",
        "--cap-drop",
        "--rm",
        "--name",
        "--network",
    ];
    for flag in unwanted {
        assert!(
            !args.iter().any(|s| s == flag),
            "minimal spec must NOT emit `{flag}`; got {:?}",
            args
        );
    }
}

#[test]
fn test_apple_run_args_emits_detach_for_orchestrator() {
    let proto = AppleContainerProtocol;
    let spec = ContainerSpec {
        image: "alpine".into(),
        ..Default::default()
    };
    let args = proto.run_args(&spec);
    assert!(
        args.iter().any(|s| s == "--detach"),
        "apple/container run MUST include --detach for orchestrator; got {:?}",
        args
    );
}

#[test]
fn test_apple_run_args_includes_network_alias() {
    let proto = AppleContainerProtocol;
    let spec = ContainerSpec {
        image: "alpine".into(),
        network: Some("appnet".into()),
        network_aliases: Some(vec!["worker".into()]),
        ..Default::default()
    };
    let args = proto.run_args(&spec);
    assert!(
        args.windows(2).any(|w| w[0] == "--network-alias" && w[1] == "worker"),
        "apple/container should emit --network-alias too; got {:?}",
        args
    );
}

#[test]
fn test_docker_security_run_args() {
    let proto = DockerProtocol;
    let spec = ContainerSpec {
        image: "nginx".into(),
        privileged: Some(true),
        user: Some("nobody".into()),
        workdir: Some("/tmp".into()),
        cap_add: Some(vec!["NET_ADMIN".into()]),
        cap_drop: Some(vec!["ALL".into()]),
        read_only: Some(true),
        ..Default::default()
    };

    let args = proto.run_args(&spec);
    assert!(args.contains(&"--privileged".to_string()));
    assert!(args.contains(&"--user".to_string()));
    assert!(args.contains(&"nobody".to_string()));
    assert!(args.contains(&"--workdir".to_string()));
    assert!(args.contains(&"/tmp".to_string()));
    assert!(args.contains(&"--cap-add".to_string()));
    assert!(args.contains(&"NET_ADMIN".to_string()));
    assert!(args.contains(&"--cap-drop".to_string()));
    assert!(args.contains(&"ALL".to_string()));
    assert!(args.contains(&"--read-only".to_string()));
}

#[test]
fn test_apple_run_args() {
    let proto = AppleContainerProtocol;
    let spec = ContainerSpec {
        image: "alpine".into(),
        rm: Some(true),
        ..Default::default()
    };

    let args = proto.run_args(&spec);
    assert!(args.contains(&"run".to_string()));
    assert!(args.contains(&"--detach".to_string()));
    assert!(args.contains(&"--rm".to_string()));
    assert!(args.contains(&"alpine".to_string()));
}

#[test]
fn test_apple_run_args_drops_privileged() {
    let proto = AppleContainerProtocol;
    let spec = ContainerSpec {
        image: "alpine".into(),
        privileged: Some(true),
        ..Default::default()
    };
    let args = proto.run_args(&spec);
    assert!(
        !args.iter().any(|s| s == "--privileged"),
        "apple/container must NOT emit --privileged; got {:?}",
        args
    );
}

#[test]
fn test_apple_security_args_drops_seccomp() {
    let proto = AppleContainerProtocol;
    let args = proto.security_args(&SecurityProfile {
        read_only_root: true,
        seccomp: Some("default".into()),
        ..Default::default()
    });
    assert!(args.iter().any(|s| s == "--read-only"));
    assert!(
        !args.iter().any(|s| s.contains("seccomp")),
        "apple/container security_args must drop seccomp; got {:?}",
        args
    );
}

#[test]
fn test_apple_logs_uses_n_not_tail() {
    let proto = AppleContainerProtocol;
    let args = proto.logs_args("abc123", Some(50));
    assert_eq!(args[0], "logs");
    assert!(
        args.windows(2).any(|w| w[0] == "-n" && w[1] == "50"),
        "expected `-n 50`; got {:?}",
        args
    );
    assert!(
        !args.iter().any(|s| s == "--tail"),
        "apple/container must NOT emit --tail; got {:?}",
        args
    );
}

#[test]
fn test_apple_list_uses_list_not_ps() {
    let proto = AppleContainerProtocol;
    let args = proto.list_args(true);
    assert_eq!(args[0], "list");
    assert!(args.contains(&"--format".to_string()));
    assert!(args.contains(&"json".to_string()));
    assert!(args.contains(&"--all".to_string()));
    assert!(
        !args.iter().any(|s| s == "ps"),
        "apple/container must NOT emit `ps`; got {:?}",
        args
    );
}

#[test]
fn test_apple_inspect_drops_format_flag() {
    let proto = AppleContainerProtocol;
    let args = proto.inspect_args("abc123");
    assert_eq!(args[0], "inspect");
    assert!(
        !args.iter().any(|s| s == "--format"),
        "apple/container inspect must NOT emit --format; got {:?}",
        args
    );
}

#[test]
fn test_apple_image_subcommand_routing() {
    let proto = AppleContainerProtocol;

    let pull = proto.pull_image_args("alpine:3.20");
    assert_eq!(&pull[..2], &["image".to_string(), "pull".to_string()]);
    assert_eq!(pull.last().unwrap(), "alpine:3.20");

    let list = proto.list_images_args();
    assert_eq!(&list[..2], &["image".to_string(), "list".to_string()]);
    assert!(list.iter().any(|s| s == "json"));

    let remove = proto.remove_image_args("alpine:3.20", true);
    assert_eq!(&remove[..2], &["image".to_string(), "delete".to_string()]);
    assert!(remove.iter().any(|s| s == "--force"));

    let inspect = proto.inspect_image_args("alpine:3.20");
    assert_eq!(
        &inspect[..2],
        &["image".to_string(), "inspect".to_string()]
    );
    assert!(!inspect.iter().any(|s| s == "--format"));
}

#[test]
fn test_apple_remove_uses_delete_canonical_form() {
    let proto = AppleContainerProtocol;
    let args = proto.remove_args("abc123", true);
    assert_eq!(args[0], "delete");
    assert!(args.iter().any(|s| s == "--force"));
}

#[test]
fn test_apple_volume_create_drops_driver() {
    let proto = AppleContainerProtocol;
    let cfg = ComposeVolume {
        driver: Some("local".into()),
        ..Default::default()
    };
    let args = proto.create_volume_args("data", &cfg);
    assert_eq!(&args[..2], &["volume".to_string(), "create".to_string()]);
    assert!(
        !args.iter().any(|s| s == "--driver"),
        "apple/container volume create must NOT emit --driver; got {:?}",
        args
    );
    assert_eq!(args.last().unwrap(), "data");
}

#[test]
fn test_apple_volume_remove_uses_delete() {
    let proto = AppleContainerProtocol;
    let args = proto.remove_volume_args("data");
    assert_eq!(args, vec!["volume", "delete", "data"]);
}

#[test]
fn test_apple_network_create_drops_driver() {
    let proto = AppleContainerProtocol;
    let cfg = ComposeNetwork {
        driver: Some("bridge".into()),
        ..Default::default()
    };
    let args = proto.create_network_args("appnet", &cfg);
    assert_eq!(&args[..2], &["network".to_string(), "create".to_string()]);
    assert!(
        !args.iter().any(|s| s == "--driver"),
        "apple/container network create must NOT emit --driver; got {:?}",
        args
    );
    assert_eq!(args.last().unwrap(), "appnet");
}

#[test]
fn test_apple_network_remove_uses_delete() {
    let proto = AppleContainerProtocol;
    let args = proto.remove_network_args("appnet");
    assert_eq!(args, vec!["network", "delete", "appnet"]);
}

#[test]
fn test_apple_create_args_no_detach() {
    let proto = AppleContainerProtocol;
    let spec = ContainerSpec {
        image: "alpine".into(),
        ..Default::default()
    };
    let args = proto.create_args(&spec);
    assert_eq!(args[0], "create");
    assert!(
        !args.iter().any(|s| s == "--detach"),
        "apple/container create must NOT emit --detach; got {:?}",
        args
    );
}

#[test]
fn test_apple_parse_list_output_handles_empty_array() {
    let proto = AppleContainerProtocol;
    let infos = proto.parse_list_output("[]").expect("empty array parses");
    assert!(infos.is_empty());
}

#[test]
fn test_apple_parse_list_output_apple_shape() {
    let proto = AppleContainerProtocol;
    let stdout = r#"[
        {
            "configuration": {
                "id": "abc123def456",
                "image": { "reference": "docker.io/library/alpine:3.20" },
                "hostname": "alpine-test",
                "labels": { "perry.compose.project": "test" }
            },
            "status": "running",
            "networks": [{ "address": "10.0.0.5" }]
        }
    ]"#;
    let infos = proto.parse_list_output(stdout).expect("parse ok");
    assert_eq!(infos.len(), 1);
    assert_eq!(infos[0].id, "abc123def456");
    assert_eq!(infos[0].name, "alpine-test");
    assert_eq!(infos[0].image, "docker.io/library/alpine:3.20");
    assert_eq!(infos[0].status, "running");
    assert_eq!(infos[0].ip_address, "10.0.0.5");
    assert_eq!(
        infos[0].labels.get("perry.compose.project"),
        Some(&"test".to_string())
    );
}

#[test]
fn test_apple_parse_inspect_output_apple_shape() {
    let proto = AppleContainerProtocol;
    let stdout = r#"[
        {
            "configuration": {
                "id": "ctr-id",
                "image": { "reference": "alpine:latest" },
                "hostname": "ctr-name",
                "labels": {}
            },
            "status": "running",
            "networks": []
        }
    ]"#;
    let info = proto.parse_inspect_output(stdout).expect("parse ok");
    assert_eq!(info.id, "ctr-id");
    assert_eq!(info.name, "ctr-name");
    assert_eq!(info.image, "alpine:latest");
    assert_eq!(info.status, "running");
    assert_eq!(info.ip_address, "");
}

#[test]
fn test_apple_parse_inspect_output_falls_back_to_docker_shape() {
    let proto = AppleContainerProtocol;
    let stdout = r#"[
        {
            "Id": "docker-id",
            "Name": "docker-name",
            "Config": { "Image": "alpine:latest", "Labels": {} },
            "State": { "Status": "running" },
            "Created": "2026-04-28T12:00:00Z",
            "NetworkSettings": { "IPAddress": "172.17.0.2", "Networks": {} }
        }
    ]"#;
    let info = proto.parse_inspect_output(stdout).expect("parse ok");
    assert_eq!(info.id, "docker-id");
    assert_eq!(info.name, "docker-name");
    assert_eq!(info.ip_address, "172.17.0.2");
}

#[test]
fn test_apple_parse_list_images_output_apple_shape() {
    let proto = AppleContainerProtocol;
    let stdout = r#"[
        {
            "reference": "docker.io/library/alpine:3.20",
            "id": "sha256:abc123",
            "size": 7654321,
            "createdAt": "2026-04-01T00:00:00Z"
        },
        {
            "reference": "docker.io/library/postgres:16-alpine",
            "id": "sha256:def456",
            "size": 234567890
        }
    ]"#;
    let images = proto.parse_list_images_output(stdout).expect("parse ok");
    assert_eq!(images.len(), 2);
    assert_eq!(images[0].repository, "docker.io/library/alpine");
    assert_eq!(images[0].tag, "3.20");
    assert_eq!(images[0].id, "sha256:abc123");
    assert_eq!(images[1].repository, "docker.io/library/postgres");
    assert_eq!(images[1].tag, "16-alpine");
}

#[test]
fn test_split_image_reference_handles_registry_port() {
    let (repo, tag) = split_image_reference("localhost:5000/repo:1.0");
    assert_eq!(repo, "localhost:5000/repo");
    assert_eq!(tag, "1.0");
}

#[test]
fn test_split_image_reference_handles_digest() {
    let (repo, tag) =
        split_image_reference("alpine@sha256:abc123def456");
    assert_eq!(repo, "alpine");
    assert_eq!(tag, "sha256:abc123def456");
}

#[test]
fn test_split_image_reference_defaults_to_latest() {
    let (repo, tag) = split_image_reference("alpine");
    assert_eq!(repo, "alpine");
    assert_eq!(tag, "latest");
}

#[test]
fn test_apple_run_args_includes_labels() {
    let proto = AppleContainerProtocol;
    let labels = pairs(&[
        ("perry.compose.project", "myproj"),
        ("perry.compose.spec_hash", "abcd1234"),
    ]);
    let spec = ContainerSpec {
        image: "alpine".into(),
        labels: Some(labels),
        ..Default::default()
    };
    let args = proto.run_args(&spec);
    let label_pairs: Vec<&str> = args
        .windows(2)
        .filter(|w| w[0] == "--label")
        .map(|w| w[1].as_str())
        .collect();
    assert!(
        label_pairs
            .iter()
            .any(|s| *s == "perry.compose.project=myproj"),
        "expected project label; got {:?}",
        label_pairs
    );
    assert!(
        label_pairs
            .iter()
            .any(|s| *s == "perry.compose.spec_hash=abcd1234"),
        "expected spec_hash label; got {:?}",
        label_pairs
    );
}

#[test]
fn test_lima_run_args() {
    let proto = LimaProtocol {
        instance: "default".into(),
    };
    let spec = ContainerSpec {
        image: "busybox".into(),
        ..Default::default()
    };

    let args = proto.run_args(&spec);
    assert_eq!(args[0], "shell");
    assert_eq!(args[1], "default");
    assert_eq!(args[2], "nerdctl");
    assert_eq!(args[3], "run");
}

#[test]
fn test_platform_candidates() {
    for platform in [
        Platform::MacOs,
        Platform::Ios,
        Platform::Linux,
        Platform::Windows,
        Platform::Other,
    ] {
        let candidates = platform_candidates(platform);
        assert!(!candidates.is_empty());
        if matches!(platform, Platform::MacOs | Platform::Ios) {
            assert_eq!(candidates[0], "apple/container");
        } else {
            assert_eq!(candidates[0], "podman");
        }
    }
}

fn full_spec() -> ContainerSpec {
    ContainerSpec {
        image: "img".into(),
        name: Some("n".into()),
        ports: Some(vec!["1:2".into()]),
        volumes: Some(vec!["v:/v".into()]),
        env: Some(pairs(&[("K", "V")])),
        cmd: Some(vec!["c1".into(), "c2".into()]),
        entrypoint: Some(vec!["e1".into(), "e2".into()]),
        network: Some("net".into()),
        rm: Some(true),
        read_only: Some(true),
        labels: Some(pairs(&[("l", "x")])),
        privileged: Some(true),
        user: Some("u".into()),
        workdir: Some("/w".into()),
        cap_add: Some(vec!["A".into()]),
        cap_drop: Some(vec!["D".into()]),
        network_aliases: Some(vec!["al".into()]),
    }
}

#[test]
fn docker_arguments_in_full() {
    assert_eq!(
        DockerProtocol.run_args(&full_spec()).join(" "),
        "run --detach --name n -p 1:2 -v v:/v -e K=V --label l=x --network net \
         --network-alias al --rm --read-only --privileged --user u --workdir /w --cap-add A \
         --cap-drop D --entrypoint e1 e2 img c1 c2"
    );
    assert_eq!(
        DockerProtocol.create_args(&full_spec()).join(" "),
        "create --name n -p 1:2 -v v:/v -e K=V --label l=x --network net --read-only \
         --privileged --user u --workdir /w --cap-add A --cap-drop D --entrypoint e1 e2 img c1 c2"
    );
    assert_eq!(DockerProtocol.stop_args("x", Some(10)), vec!["stop", "--time", "10", "x"]);
    assert_eq!(DockerProtocol.stop_args("x", None), vec!["stop", "x"]);
    assert_eq!(DockerProtocol.start_args("x"), vec!["start", "x"]);
    assert_eq!(DockerProtocol.remove_args("x", true), vec!["rm", "-f", "x"]);
    assert_eq!(DockerProtocol.list_args(true), vec!["ps", "--format", "json", "--all"]);
    assert_eq!(DockerProtocol.inspect_args("x"), vec!["inspect", "--format", "json", "x"]);
    assert_eq!(DockerProtocol.logs_args("x", Some(5)), vec!["logs", "--tail", "5", "x"]);
    assert_eq!(
        DockerProtocol.exec_args("x", &["ls".to_string()], Some(&pairs(&[("A", "B")])), Some("/w")),
        vec!["exec", "--workdir", "/w", "-e", "A=B", "x", "ls"]
    );
    assert_eq!(DockerProtocol.pull_image_args("i"), vec!["pull", "i"]);
    assert_eq!(DockerProtocol.list_images_args(), vec!["images", "--format", "json"]);
    assert_eq!(DockerProtocol.remove_image_args("i", false), vec!["rmi", "i"]);
    assert_eq!(DockerProtocol.remove_network_args("n"), vec!["network", "rm", "n"]);
    assert_eq!(DockerProtocol.remove_volume_args("v"), vec!["volume", "rm", "v"]);
    assert_eq!(DockerProtocol.inspect_network_args("n"), vec!["network", "inspect", "n"]);
    assert_eq!(DockerProtocol.inspect_volume_args("v"), vec!["volume", "inspect", "v"]);
    assert_eq!(DockerProtocol.inspect_image_args("i"), vec!["inspect", "--format", "json", "i"]);
    assert!(DockerProtocol.subcommand_prefix().is_none());
}

#[test]
fn docker_networks_volumes_and_builds() {
    let labels = || Some(ListOrDict::List(vec!["a=b".into(), "c".into()]));
    let network = ComposeNetwork { driver: Some("bridge".into()), labels: labels(), ..Default::default() };
    assert_eq!(
        DockerProtocol.create_network_args("n", &network),
        vec!["network", "create", "--driver", "bridge", "--label", "a=b", "--label", "c=", "n"]
    );
    let volume = ComposeVolume { driver: Some("local".into()), labels: labels(), ..Default::default() };
    assert_eq!(
        DockerProtocol.create_volume_args("v", &volume),
        vec!["volume", "create", "--driver", "local", "--label", "a=b", "--label", "c=", "v"]
    );
    let build = ComposeServiceBuild {
        context: Some("ctx".into()),
        containerfile: Some("File".into()),
        ..Default::default()
    };
    assert_eq!(
        DockerProtocol.build_args(&build, "tag"),
        vec!["build", "-t", "tag", "-f", "File", "ctx"]
    );
    assert_eq!(
        DockerProtocol.build_args(&ComposeServiceBuild::default(), "tag"),
        vec!["build", "-t", "tag", "."]
    );
}

#[test]
fn apple_arguments_in_full() {
    assert_eq!(
        AppleContainerProtocol.run_args(&full_spec()).join(" "),
        "run --detach --rm --name n --network net --network-alias al -p 1:2 -v v:/v -e K=V \
         --label l=x --read-only --user u --workdir /w --cap-add A --cap-drop D \
         --entrypoint e1 e2 img c1 c2"
    );
    assert_eq!(
        AppleContainerProtocol.create_args(&full_spec()).join(" "),
        "create --rm --name n --network net --network-alias al -p 1:2 -v v:/v -e K=V --label l=x \
         --read-only --user u --workdir /w --cap-add A --cap-drop D --entrypoint e1 e2 img c1 c2"
    );
}

#[test]
fn lima_goes_through_its_instance() {
    let proto = LimaProtocol { instance: "vm".into() };
    let front = ["shell", "vm", "nerdctl"];
    let check = |args: Vec<String>, inner: Vec<String>| {
        assert_eq!(&args[..3], &front);
        assert_eq!(&args[3..], &inner[..]);
    };
    check(proto.create_args(&full_spec()), DockerProtocol.create_args(&full_spec()));
    check(proto.logs_args("x", Some(1)), DockerProtocol.logs_args("x", Some(1)));
    check(proto.list_images_args(), DockerProtocol.list_images_args());
    assert_eq!(proto.capabilities().backend, "lima");
    let profile = SecurityProfile { read_only_root: true, ..Default::default() };
    assert_eq!(proto.security_args(&profile), vec!["--read-only"]);
}

#[test]
fn security_options_are_parsed() {
    let mut profile = SecurityProfile::default();
    profile.merge_security_opt(&[
        "label=disable".to_string(),
        "seccomp=a.json".to_string(),
        "no-new-privileges:false".to_string(),
    ]);
    assert_eq!(profile.seccomp, Some("a.json".to_string()));
    assert!(!profile.no_new_privileges);
    profile.merge_security_opt(&["seccomp:b.json".to_string(), "no-new-privileges".to_string()]);
    assert_eq!(profile.seccomp, Some("b.json".to_string()));
    assert!(profile.no_new_privileges);
    assert_eq!(
        DockerProtocol.security_args(&profile),
        vec!["--security-opt", "seccomp=b.json", "--security-opt", "no-new-privileges:true"]
    );
}

#[test]
fn hardening_stands_before_the_image() {
    let spec = ContainerSpec {
        image: "alpine".into(),
        name: Some("web".into()),
        privileged: Some(true),
        cmd: Some(vec!["sh".into()]),
        ..Default::default()
    };
    let profile = SecurityProfile {
        read_only_root: true,
        seccomp: Some("p".into()),
        no_new_privileges: false,
    };
    let docker = prepare_run(&DockerProtocol, &spec, &profile);
    assert_eq!(
        docker.args.join(" "),
        "run --detach --name web --privileged --read-only --security-opt seccomp=p alpine sh"
    );
    assert_eq!(docker.name, Some("web".to_string()));
    assert!(docker.warnings.is_empty());
    let apple = prepare_run(&AppleContainerProtocol, &spec, &profile);
    assert_eq!(apple.args.join(" "), "run --detach --name web --read-only alpine sh");
    let fields: Vec<&str> = apple.warnings.iter().map(|w| w.field).collect();
    assert_eq!(fields, vec!["privileged", "seccomp"]);
    assert_eq!(apple.warnings[0].service, "web");
    let unnamed = prepare_run(
        &AppleContainerProtocol,
        &ContainerSpec { image: "i".into(), privileged: Some(true), ..Default::default() },
        &SecurityProfile::default(),
    );
    assert_eq!(unnamed.warnings[0].service, "<unnamed>");
    assert_eq!(
        insert_before_image(vec!["a".into()], "b", 0, vec!["c".into()]),
        vec!["a".to_string()]
    );
    let words = |v: &[&str]| v.iter().map(|s| s.to_string()).collect::<Vec<_>>();
    assert_eq!(
        insert_before_image(words(&["run", "i", "i", "i"]), "i", 1, words(&["x", "y"])),
        words(&["run", "i", "x", "y", "i", "i"])
    );
    assert_eq!(insert_before_image(words(&["i"]), "i", 2, words(&["x"])), words(&["i"]));
}

#[test]
fn hardening_parts_no_option_from_its_value() {
    let spec = ContainerSpec {
        image: "redis".into(),
        name: Some("redis".into()),
        ..Default::default()
    };
    let profile = SecurityProfile { read_only_root: true, ..Default::default() };
    let run = prepare_run(&DockerProtocol, &spec, &profile);
    assert_eq!(run.args, vec!["run", "--detach", "--name", "redis", "--read-only", "redis"]);
    let spec = ContainerSpec { cmd: Some(vec!["redis".into()]), ..spec };
    let run = prepare_run(&AppleContainerProtocol, &spec, &profile);
    assert_eq!(
        run.args,
        vec!["run", "--detach", "--name", "redis", "--read-only", "redis", "redis"]
    );
    let lima = LimaProtocol { instance: "redis".into() };
    let run = prepare_run(&lima, &spec, &profile);
    assert_eq!(
        run.args.join(" "),
        "shell redis nerdctl run --detach --name redis --read-only redis redis"
    );
}

#[test]
fn what_apple_cannot_harden_is_warned_of() {
    let spec = ContainerSpec { image: "i".into(), name: Some("n".into()), ..Default::default() };
    let profile = SecurityProfile {
        read_only_root: true,
        seccomp: Some("p".into()),
        no_new_privileges: true,
    };
    let run = prepare_run(&AppleContainerProtocol, &spec, &profile);
    assert_eq!(run.args.join(" "), "run --detach --name n --read-only i");
    let fields: Vec<&str> = run.warnings.iter().map(|w| w.field).collect();
    assert_eq!(fields, vec!["seccomp", "no_new_privileges"]);
    let run = prepare_run(&DockerProtocol, &spec, &profile);
    assert!(run.warnings.is_empty());
    assert_eq!(
        run.args.join(" "),
        "run --detach --name n --read-only --security-opt seccomp=p --security-opt no-new-privileges:true i"
    );
}

#[test]
fn apple_lists_in_the_docker_form_are_read() {
    let list = |stdout: &str| {
        let found = AppleContainerProtocol.parse_list_output(stdout).unwrap();
        found.into_iter().map(|c| (c.id, c.name, c.status)).collect::<Vec<_>>()
    };
    let web = || ("1".to_string(), "web".to_string(), "running".to_string());
    assert_eq!(list(r#"{"ID":"1","Names":["web"],"Status":"Up 2 hours"}"#), vec![web()]);
    assert_eq!(list(r#" [{"ID":"1","Names":["web"],"Status":"running"}] "#), vec![web()]);
    assert!(list(r#"[{"ID":"1"},{"ID":2}]"#).is_empty());
    assert!(list("no json").is_empty());
}

#[test]
fn only_what_is_up_and_not_paused_is_running() {
    let status = |text: &str| {
        let line = format!(r#"{{"ID":"1","Status":"{text}"}}"#);
        DockerProtocol.parse_list_output(&line).unwrap().remove(0).status
    };
    assert_eq!(status("Up 3 minutes"), "running");
    assert_eq!(status("Up"), "running");
    assert_eq!(status("Up 3 minutes (healthy)"), "running");
    assert_eq!(status("Up 3 minutes (Paused)"), "Up 3 minutes (Paused)");
    assert_eq!(status("Exited (0) 2 hours ago"), "Exited (0) 2 hours ago");
    assert_eq!(status("Upgrading"), "Upgrading");
}

#[test]
fn records_are_read_from_values() {
    let value = |text: &str| serde_json::from_str::<serde_json::Value>(text).unwrap();
    let entry = read_docker_entry(&value(r#"{"Id":"1","Names":["a","b"],"Image":"i"}"#)).unwrap();
    assert_eq!((entry.id.as_str(), entry.name.as_str(), entry.image.as_str()), ("1", "a", "i"));
    assert!(read_docker_entry(&value(r#"{"ID":"1","Id":"2"}"#)).is_none());
    assert!(read_docker_entry(&value(r#"{"ID":1}"#)).is_none());
    let image = read_docker_image(&value(r#"{"ID":"1","Repository":"r","Tag":"t","Size":3}"#));
    let image = image.unwrap();
    assert_eq!((image.repository.as_str(), image.tag.as_str(), image.size), ("r", "t", 3));
    let found = read_docker_inspection(&value(
        r#"{"Id":"1","Name":"/n","Config":{"Image":"i"},"State":{"Status":"exited"},"Created":"c"}"#,
    ));
    assert_eq!(found.unwrap().status, "exited");
    assert!(read_docker_inspection(&value(r#"{"Id":"1"}"#)).is_none());
    let entry = read_entry(&value(r#"{"configuration":{"id":"1","hostname":"h"}}"#)).unwrap();
    assert_eq!(entry.into_info().name, "h");
    let image = read_image(&value(r#"{"reference":"docker.io/library/alpine:3"}"#)).unwrap();
    assert_eq!(image.into_info().tag, "3");
}

#[test]
fn apple_creates_as_it_runs() {
    let spec = ContainerSpec {
        image: "i".into(),
        name: Some("n".into()),
        rm: Some(true),
        ..Default::default()
    };
    let run = AppleContainerProtocol.run_args(&spec);
    let create = AppleContainerProtocol.create_args(&spec);
    assert_eq!(create, vec!["create", "--rm", "--name", "n", "i"]);
    assert_eq!(create[1..], run[2..]);
}

#[test]
fn networks_and_volumes_are_listed_by_name() {
    let lima = LimaProtocol { instance: "default".into() };
    assert_eq!(DockerProtocol.list_networks_args().join(" "), "network ls --format {{.Name}}");
    assert_eq!(DockerProtocol.list_volumes_args().join(" "), "volume ls --format {{.Name}}");
    assert_eq!(AppleContainerProtocol.list_networks_args().join(" "), "network list --quiet");
    assert_eq!(AppleContainerProtocol.list_volumes_args().join(" "), "volume list --quiet");
    assert_eq!(
        lima.list_volumes_args().join(" "),
        "shell default nerdctl volume ls --format {{.Name}}"
    );
}

#[test]
fn docker_lists_one_object_to_a_line() {
    let stdout = concat_lines(&[
        r#"{"ID":"1","Names":["web","alias"],"Image":"nginx","Status":"Up 5 seconds","Ports":["80"],"Labels":{"a":"b","n":1},"CreatedAt":"now"}"#,
        "not json",
        r#"{"Id":"2","State":"exited","Labels":"x=y,bare,z=1=2"}"#,
        r#"{"ID":"3","Id":"4"}"#,
        r#"{"Names":"web"}"#,
    ]);
    let infos = DockerProtocol.parse_list_output(&stdout).unwrap();
    assert_eq!(infos.len(), 2);
    assert_eq!(infos[0].id, "1");
    assert_eq!(infos[0].name, "web");
    assert_eq!(infos[0].status, "running");
    assert_eq!(infos[0].ports, vec!["80"]);
    assert_eq!(infos[0].labels.get("a"), Some(&"b".to_string()));
    assert_eq!(infos[0].labels.get("n"), Some(&String::new()));
    assert_eq!(infos[0].created, "now");
    assert_eq!(infos[1].id, "2");
    assert_eq!(infos[1].name, "");
    assert_eq!(infos[1].status, "exited");
    assert_eq!(infos[1].labels.keys(), vec!["x", "z"]);
    assert_eq!(infos[1].labels.get("z"), Some(&"1=2".to_string()));
}

fn concat_lines(lines: &[&str]) -> String {
    lines.join("\n")
}

#[test]
fn docker_takes_positional_records_too() {
    let infos = DockerProtocol.parse_list_output(r#"["id",["n"],"img","Exited (0)"]"#).unwrap();
    assert_eq!(infos[0].id, "id");
    assert_eq!(infos[0].name, "n");
    assert_eq!(infos[0].status, "Exited (0)");
    assert_eq!(DockerProtocol.parse_list_output("[]").unwrap().len(), 1);
    assert!(DockerProtocol.parse_list_output("[1,2,3,4,5,6,7,8]").unwrap().is_empty());
}

#[test]
fn docker_inspections_fail_in_three_ways() {
    assert!(matches!(
        DockerProtocol.parse_inspect_output("[]"),
        Err(ComposeError::NotFound(m)) if m == "Inspect output empty"
    ));
    assert!(matches!(
        DockerProtocol.parse_inspect_output("[{\"Id\":\"x\"}]"),
        Err(ComposeError::JsonError(_))
    ));
    match DockerProtocol.parse_inspect_output("{") {
        Err(ComposeError::JsonError(m)) => assert!(m.contains("EOF")),
        _ => panic!("expected a JSON error"),
    }
}

#[test]
fn docker_inspections_find_an_address() {
    let text = |settings: &str| {
        format!(
            r#"[{{"Id":"i","Name":"n","Config":{{"Image":"m","Labels":{{"k":"v"}}}},"State":{{"Status":"running"}},"Created":"c"{settings}}}]"#
        )
    };
    let inspect = |settings: &str| DockerProtocol.parse_inspect_output(&text(settings)).unwrap();
    assert_eq!(inspect("").ip_address, "");
    assert_eq!(inspect(r#","NetworkSettings":null"#).ip_address, "");
    assert_eq!(inspect(r#","NetworkSettings":{"IPAddress":"1.1.1.1"}"#).ip_address, "1.1.1.1");
    let nested = inspect(r#","NetworkSettings":{"IPAddress":"","Networks":{"a":{"IPAddress":"2.2.2.2"}}}"#);
    assert_eq!(nested.ip_address, "2.2.2.2");
    assert_eq!(nested.labels.get("k"), Some(&"v".to_string()));
    assert_eq!(nested.image, "m");
    assert!(DockerProtocol
        .parse_inspect_output(&text(r#","NetworkSettings":{"Networks":{"a":1}}"#))
        .is_err());
}

#[test]
fn docker_images_one_to_a_line() {
    let stdout = concat_lines(&[
        r#"{"ID":"i","Repository":"r","Tag":"t","Size":5,"CreatedAt":"c"}"#,
        r#"{"ID":"j","Size":"5MB"}"#,
        r#"{"Repositories":"s"}"#,
    ]);
    let images = DockerProtocol.parse_list_images_output(&stdout).unwrap();
    assert_eq!(images.len(), 2);
    assert_eq!(images[0].repository, "r");
    assert_eq!(images[0].size, 5);
    assert_eq!(images[1].repository, "s");
    assert_eq!(images[1].tag, "");
}

#[test]
fn apple_falls_back_to_the_docker_form() {
    let proto = AppleContainerProtocol;
    assert!(proto.parse_list_output(" \n").unwrap().is_empty());
    let infos = proto.parse_list_output(r#"{"ID":"d","Names":["n"]}"#).unwrap();
    assert_eq!(infos[0].id, "d");
    let twice = proto.parse_list_output(
        r#"[{"configuration":{"ID":"a","name":"h"}},{"status":"stopped","networks":[{"ipAddress":"3.3.3.3"}]}]"#,
    ).unwrap();
    assert_eq!(twice.len(), 2);
    assert_eq!(twice[0].name, "h");
    assert_eq!(twice[1].name, "");
    assert_eq!(twice[1].ip_address, "3.3.3.3");
    assert!(proto.parse_list_images_output("").unwrap().is_empty());
    let images = proto
        .parse_list_images_output(r#"[{"name":"busybox"},{"id":"x","name":"b","tag":"1"}]"#)
        .unwrap();
    assert_eq!(images[0].tag, "latest");
    assert_eq!(images[1].tag, "1");
    assert_eq!(proto.parse_list_images_output(r#"{"ID":"q"}"#).unwrap()[0].id, "q");
    assert!(proto.parse_inspect_output("  ").is_err());
}

#[test]
fn container_ids_are_trimmed() {
    assert_eq!(DockerProtocol.parse_container_id(" abc\n").unwrap(), "abc");
    assert_eq!(AppleContainerProtocol.parse_container_id("abc").unwrap(), "abc");
    assert_eq!(LimaProtocol { instance: "i".into() }.parse_container_id("\tx\r\n").unwrap(), "x");
}
