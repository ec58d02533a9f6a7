use perry::compose::capabilities::{BackendCapabilities, EnforcementMode};
use perry::compose::cleanup::{
    cleanup_steps, managed_containers, managed_projects, project_containers, removal_if_found,
    removal_outcome, CleanupOptions, CleanupOutcome, CleanupReport, RemovalOutcome, RemovalStep,
    ResourceOutcome,
};
use perry::compose::cli::{config_text, exec_env, log_lines, log_text, ps_table, sorted};
use perry::compose::config::{require_files, ProjectConfig};
use perry::compose::engine::{ComposeEngine, SessionContainer};
use perry::compose::error::ComposeError;
use perry::compose::hash::service_spec_hash;
use perry::compose::installer::BackendInstaller;
use perry::compose::maps::OrderedMap;
use perry::compose::order::resolve_startup_order;
use perry::compose::steps::{Reply, Step};
use perry::compose::types::{
    BuildSpec, ComposeDependsOn, ComposeNetwork, ComposeService, ComposeServiceNetworkConfig,
    ComposeServicePort, ComposeServiceVolume, ComposeSpec, ComposeVolume, ContainerInfo,
    ContainerLogs, DependsOnSpec, ListOrDict, PortSpec, ServiceNetworks, StringOrList, VolumeEntry,
    VolumeType, VolumeValue,
};
use perry::platform::Platform;
use serde_yaml::Value;

fn made(id: &str) -> SessionContainer {
    SessionContainer { id: id.to_string(), created: true }
}

fn again(id: &str) -> SessionContainer {
    SessionContainer { id: id.to_string(), created: false }
}

fn text(s: &str) -> Value {
    Value::String(s.to_string())
}

fn yaml(s: &str) -> Value {
    serde_yaml::from_str(s).unwrap()
}

fn strings(v: &[&str]) -> Vec<String> {
    v.iter().map(|s| s.to_string()).collect()
}

fn project(services: Vec<(&str, ComposeService)>) -> ComposeSpec {
    let mut map = OrderedMap::new();
    for (name, service) in services {
        map.insert(name.to_string(), service);
    }
    ComposeSpec { services: map, ..Default::default() }
}

fn after(names: &[&str]) -> ComposeService {
    ComposeService {
        image: Some("img".to_string()),
        depends_on: Some(DependsOnSpec::List(strings(names))),
        ..Default::default()
    }
}

// ---- types ----

#[test]
fn settings_become_maps() {
    let mut dict = OrderedMap::new();
    dict.insert("s".to_string(), Some(text("v")));
    dict.insert("n".to_string(), Some(yaml("8080")));
    dict.insert("b".to_string(), Some(yaml("true")));
    dict.insert("e".to_string(), None);
    dict.insert("l".to_string(), Some(yaml("[1, 2]")));
    let map = ListOrDict::Dict(dict).to_map();
    assert_eq!(map.get("s").unwrap(), "v");
    assert_eq!(map.get("n").unwrap(), "8080");
    assert_eq!(map.get("b").unwrap(), "true");
    assert_eq!(map.get("e").unwrap(), "");
    assert_eq!(map.get("l").unwrap(), "- 1\n- 2\n");
    let list = ListOrDict::List(strings(&["a=1", "b", "c=x=y", "a=2"])).to_map();
    assert_eq!(list.keys(), vec!["a", "b", "c"]);
    assert_eq!(list.get("a").unwrap(), "2");
    assert_eq!(list.get("b").unwrap(), "");
    assert_eq!(list.get("c").unwrap(), "x=y");
}

#[test]
fn lists_and_names() {
    assert_eq!(StringOrList::String("a".into()).to_list(), vec!["a"]);
    assert_eq!(StringOrList::List(strings(&["a", "b"])).to_list(), vec!["a", "b"]);
    let mut map = OrderedMap::new();
    map.insert("z".to_string(), ComposeDependsOn { condition: None, required: None, restart: None });
    map.insert("a".to_string(), ComposeDependsOn { condition: None, required: None, restart: None });
    assert_eq!(DependsOnSpec::Mapping(map).service_names(), vec!["z", "a"]);
    assert_eq!(ServiceNetworks::List(strings(&["n"])).names(), vec!["n"]);
}

#[test]
fn volumes_and_ports_as_arguments() {
    let long = |read_only| {
        VolumeEntry::Long(ComposeServiceVolume {
            volume_type: VolumeType::Bind,
            source: Some("/a".into()),
            target: Some("/b".into()),
            read_only,
            consistency: None,
            bind: None,
            volume: None,
            tmpfs: None,
            image: None,
        })
    };
    assert_eq!(long(Some(true)).to_string_form(), "/a:/b:ro");
    assert_eq!(long(Some(false)).to_string_form(), "/a:/b");
    assert_eq!(VolumeEntry::Short("x:/y".into()).to_string_form(), "x:/y");
    let port = |published: Option<Value>| {
        PortSpec::Long(ComposeServicePort {
            name: None,
            mode: None,
            host_ip: None,
            target: yaml("80"),
            published,
            protocol: None,
            app_protocol: None,
        })
    };
    assert_eq!(port(Some(text("8080"))).to_string_form(), "8080:80");
    assert_eq!(port(None).to_string_form(), "80");
    assert_eq!(PortSpec::Short(yaml("5432")).to_string_form(), "5432");
    assert_eq!(PortSpec::Short(yaml("[1]")).to_string_form(), "- 1");
}

#[test]
fn services_become_containers() {
    let service = ComposeService {
        image: Some("nginx".into()),
        command: Some(yaml("[run, 1, --fast]")),
        environment: Some(ListOrDict::List(strings(&["A=1", "B"]))),
        ports: Some(vec![PortSpec::Short(text("80:80"))]),
        volumes: Some(vec![
            VolumeValue { value: text("a:/a"), entry: Some(VolumeEntry::Short("a:/a".into())) },
            VolumeValue { value: yaml("5"), entry: None },
        ]),
        networks: Some(ServiceNetworks::List(strings(&["front", "back"]))),
        user: Some("me".into()),
        working_dir: Some("/w".into()),
        ..Default::default()
    };
    let spec = service.to_container_spec("web", "web-1");
    assert_eq!(spec.image, "nginx");
    assert_eq!(spec.name, Some("web-1".to_string()));
    assert_eq!(spec.cmd, Some(strings(&["run", "--fast"])));
    assert_eq!(spec.ports, Some(strings(&["80:80"])));
    assert_eq!(spec.volumes, Some(strings(&["a:/a", "5"])));
    assert_eq!(spec.env.unwrap().keys(), vec!["A", "B"]);
    assert_eq!(spec.network, Some("front".to_string()));
    assert_eq!(spec.user, Some("me".to_string()));
    assert!(spec.labels.is_none() && spec.network_aliases.is_none());
    let built = ComposeService { build: Some(BuildSpec::Context(".".into())), ..Default::default() };
    assert!(built.needs_build());
    assert_eq!(built.image_ref("api"), "api-image");
    assert_eq!(built.build.as_ref().unwrap().context(), Some("."));
    assert_eq!(built.build.unwrap().as_build().context, Some(".".to_string()));
    assert!(!service.needs_build());
    assert_eq!(ComposeService::default().command_list(), None);
    assert_eq!(ComposeService::default().explicit_name(), None);
}

#[test]
fn the_last_file_wins() {
    let mut a = project(vec![("web", after(&[])), ("db", after(&[]))]);
    a.name = Some("first".into());
    let mut b = project(vec![("db", after(&["web"])), ("new", after(&[]))]);
    b.version = Some("3".into());
    let mut volumes = OrderedMap::new();
    volumes.insert("v".to_string(), None);
    b.volumes = Some(volumes);
    let mut models = OrderedMap::new();
    models.insert("m".to_string(), text("x"));
    b.models = Some(models);
    a.merge(b);
    assert_eq!(a.services.keys(), vec!["web", "db", "new"]);
    assert!(a.services.get("db").unwrap().depends_on.as_ref().unwrap().service_names() == vec!["web"]);
    assert_eq!(a.name, Some("first".to_string()));
    assert_eq!(a.version, Some("3".to_string()));
    assert!(a.volumes.unwrap().contains_key("v"));
    assert!(a.models.unwrap().contains_key("m"));
    assert!(a.networks.is_none());
}

#[test]
fn maps_keep_their_order() {
    let mut m: OrderedMap<String> = OrderedMap::new();
    m.insert("b".into(), "1".into());
    m.insert("a".into(), "2".into());
    m.insert("b".into(), "3".into());
    assert_eq!(m.keys(), vec!["b", "a"]);
    assert_eq!(m.get("b"), Some(&"3".to_string()));
    assert_eq!(m.len(), 2);
    assert!(m.holds("a", "2") && !m.holds("a", "1") && !m.holds("c", ""));
    let (keys, values) = m.into_entries();
    assert_eq!((keys, values), (strings(&["b", "a"]), strings(&["3", "2"])));
}

// ---- order ----

#[test]
fn services_start_after_what_they_need() {
    let spec = project(vec![
        ("web", after(&["api", "cache"])),
        ("api", after(&["db", "db"])),
        ("db", after(&[])),
        ("cache", after(&[])),
        ("alone", after(&[])),
    ]);
    assert_eq!(
        resolve_startup_order(&spec).unwrap(),
        vec!["alone", "cache", "db", "api", "web"]
    );
    assert!(resolve_startup_order(&project(vec![])).unwrap().is_empty());
}

#[test]
fn circles_and_gaps_are_reported() {
    let spec = project(vec![
        ("z", after(&["y"])),
        ("free", after(&[])),
        ("y", after(&["z"])),
        ("behind", after(&["z"])),
    ]);
    match resolve_startup_order(&spec) {
        Err(ComposeError::DependencyCycle { services }) => {
            assert_eq!(services, vec!["z", "y", "behind"])
        }
        _ => panic!("expected a cycle"),
    }
    let own = project(vec![("a", after(&["a"]))]);
    assert!(matches!(resolve_startup_order(&own), Err(ComposeError::DependencyCycle { .. })));
    let gap = project(vec![("a", after(&["a", "nowhere"]))]);
    assert_eq!(
        resolve_startup_order(&gap).unwrap_err().text(),
        "Validation error: Service 'a' depends on 'nowhere' which is not defined"
    );
}

// ---- starting ----

fn full_project() -> ComposeSpec {
    let mut spec = project(vec![
        (
            "web",
            ComposeService {
                build: Some(BuildSpec::Context("ctx".into())),
                depends_on: Some(DependsOnSpec::List(strings(&["db"]))),
                networks: Some(ServiceNetworks::List(strings(&["front"]))),
                ..Default::default()
            },
        ),
        (
            "db",
            ComposeService {
                image: Some("pg".into()),
                privileged: Some(true),
                volumes: Some(vec![
                    VolumeValue { value: text("data:/var"), entry: None },
                    VolumeValue { value: text("shared:/s"), entry: None },
                    VolumeValue { value: text("./x:/x"), entry: None },
                    VolumeValue { value: text("other:/o"), entry: None },
                ]),
                ..Default::default()
            },
        ),
    ]);
    let mut networks = OrderedMap::new();
    networks.insert("front".to_string(), None);
    networks.insert(
        "outside".to_string(),
        Some(ComposeNetwork { external: Some(true), ..Default::default() }),
    );
    spec.networks = Some(networks);
    let mut volumes = OrderedMap::new();
    volumes.insert("data".to_string(), None);
    volumes.insert(
        "shared".to_string(),
        Some(ComposeVolume {
            external: Some(true),
            name: Some("real".into()),
            ..Default::default()
        }),
    );
    spec.volumes = Some(volumes);
    spec
}

fn missing() -> ComposeError {
    ComposeError::NotFound("x".into())
}

fn describe(step: &Step) -> String {
    match step {
        Step::InspectNetwork(n) => format!("inspect network {n}"),
        Step::CreateNetwork { declared, name } => format!("create network {declared} as {name}"),
        Step::InspectVolume(n) => format!("inspect volume {n}"),
        Step::CreateVolume { declared, name } => format!("create volume {declared} as {name}"),
        Step::Describe(s) => format!("describe {s}"),
        Step::Build { service, image } => format!("build {image} for {service}"),
        Step::InspectContainer(n) => format!("inspect {n}"),
        Step::StopContainer { id, timeout } => format!("stop {id} {timeout}"),
        Step::RemoveContainer(n) => format!("remove {n}"),
        Step::StartContainer(n) => format!("start {n}"),
        Step::RunContainer { spec, .. } => format!("run {}", spec.name.as_ref().unwrap()),
        Step::RemoveNetwork(n) => format!("remove network {n}"),
        Step::RemoveVolume(n) => format!("remove volume {n}"),
        Step::ListContainers => "list".to_string(),
        Step::Finish => "finish".to_string(),
        Step::Fail(e) => format!("fail: {}", e.text()),
    }
}

fn up<F: FnMut(&Step) -> Reply>(
    engine: &mut ComposeEngine,
    caps: BackendCapabilities,
    services: &[&str],
    mut reply: F,
) -> Vec<String> {
    let (mut run, mut step) = engine.up_begin(caps, strings(services));
    let mut log = vec![describe(&step)];
    while !matches!(step, Step::Finish | Step::Fail(_)) {
        let answer = reply(&step);
        assert!(ComposeEngine::up_accepts(&run, &answer));
        step = engine.up_step(&mut run, answer);
        log.push(describe(&step));
    }
    log
}

fn down<F: FnMut(&Step) -> Reply>(
    engine: &mut ComposeEngine,
    volumes: bool,
    mut reply: F,
) -> Vec<String> {
    let (mut run, mut step) = engine.down_begin(vec![], volumes);
    let mut log = vec![describe(&step)];
    while !matches!(step, Step::Finish | Step::Fail(_)) {
        let answer = reply(&step);
        assert!(ComposeEngine::down_accepts(&run, &answer));
        step = engine.down_step(&mut run, answer);
        log.push(describe(&step));
    }
    log
}

fn fresh(step: &Step) -> Reply {
    match step {
        Step::Describe(s) => Reply::Described { name: format!("{s}-1"), definition: s.clone() },
        Step::RunContainer { spec, .. } => {
            Reply::Started(format!("id-{}", spec.name.as_ref().unwrap()))
        }
        Step::InspectNetwork(_) | Step::InspectVolume(_) | Step::InspectContainer(_) => {
            Reply::Failed(missing())
        }
        Step::ListContainers => {
            Reply::Listed { containers: vec![], generated: "generated".to_string() }
        }
        _ => Reply::Done,
    }
}

#[test]
fn a_project_comes_up_and_goes_down() {
    let mut engine = ComposeEngine::new(full_project(), "proj".to_string());
    let log = up(&mut engine, BackendCapabilities::docker(), &[], fresh);
    assert_eq!(
        log,
        vec![
            "inspect network proj_front",
            "create network front as proj_front",
            "inspect volume proj_data",
            "create volume data as proj_data",
            "describe db",
            "inspect db-1",
            "run db-1",
            "describe web",
            "build web-image for web",
            "inspect web-1",
            "run web-1",
            "finish",
        ]
    );
    assert_eq!(engine.session.containers, vec![made("id-db-1"), made("id-web-1")]);
    assert_eq!(engine.session.networks, vec!["proj_front"]);
    assert_eq!(engine.resolve_container_name("db", "other".into()), "db-1");
    assert_eq!(engine.resolve_container_name("nobody", "other".into()), "nobody-unknown");
    let handle = engine.handle(4);
    assert_eq!((handle.stack_id, handle.services), (4, strings(&["web", "db"])));

    let log = down(&mut engine, false, fresh);
    assert_eq!(
        log,
        vec![
            "stop id-web-1 5",
            "remove id-web-1",
            "stop id-db-1 5",
            "remove id-db-1",
            "remove network proj_front",
            "list",
            "stop web-1 10",
            "remove web-1",
            "list",
            "stop db-1 10",
            "remove db-1",
            "remove network proj_front",
            "finish",
        ]
    );
    assert_eq!(engine.session.volumes, vec!["proj_data"]);
    let log = down(&mut engine, true, fresh);
    assert_eq!(log[0], "remove volume proj_data");
    assert_eq!(log[log.len() - 2], "remove volume proj_data");
    assert!(engine.session.volumes.is_empty());
}

#[test]
fn containers_carry_the_project() {
    let mut engine = ComposeEngine::new(full_project(), "proj".to_string());
    let mut specs = Vec::new();
    up(&mut engine, BackendCapabilities::docker(), &["web", "db"], |step| {
        if let Step::RunContainer { spec, .. } = step {
            specs.push(spec.clone());
        }
        fresh(step)
    });
    let db = &specs[0];
    assert_eq!(db.image, "pg");
    assert_eq!(db.privileged, Some(true));
    assert_eq!(
        db.volumes,
        Some(strings(&["proj_data:/var", "real:/s", "./x:/x", "other:/o"]))
    );
    assert!(db.network.is_none() && db.network_aliases.is_none());
    let labels = db.labels.as_ref().unwrap();
    assert_eq!(labels.get("perry.compose.project").unwrap(), "proj");
    assert_eq!(labels.get("perry.compose.service").unwrap(), "db");
    assert_eq!(labels.get("perry.compose.spec_hash").unwrap(), &service_spec_hash("db"));
    let web = &specs[1];
    assert_eq!(web.image, "web-image");
    assert_eq!(web.network, Some("proj_front".to_string()));
    assert_eq!(web.network_aliases, Some(strings(&["web"])));
}

#[test]
fn a_failing_service_is_undone() {
    let mut engine = ComposeEngine::new(full_project(), "proj".to_string());
    let log = up(&mut engine, BackendCapabilities::docker(), &[], |step| match step {
        Step::Build { .. } => {
            Reply::Failed(ComposeError::BackendError { code: 1, message: "no".into() })
        }
        _ => fresh(step),
    });
    assert_eq!(
        &log[8..],
        &[
            "build web-image for web",
            "stop id-db-1 5",
            "remove id-db-1",
            "remove network proj_front",
            "remove volume proj_data",
            "fail: Service 'web' failed to start: build failed: Backend error (exit 1): no",
        ]
    );
    assert!(engine.session.containers.is_empty() && engine.session.volumes.is_empty());
}

#[test]
fn running_containers_are_left_alone_and_stale_ones_replaced() {
    let info = |status: &str, hash: &str| {
        let mut labels = OrderedMap::new();
        labels.insert("perry.compose.spec_hash".to_string(), hash.to_string());
        Reply::Found(ContainerInfo {
            id: "i".into(),
            name: "n".into(),
            image: "m".into(),
            status: status.into(),
            ports: vec![],
            labels,
            created: String::new(),
            ip_address: String::new(),
        })
    };
    let spec = || project(vec![("a", after(&[]))]);
    let start = |status: &str, hash: String| {
        let mut engine = ComposeEngine::new(spec(), "p".to_string());
        let log = up(&mut engine, BackendCapabilities::docker(), &[], |step| match step {
            Step::InspectContainer(_) => info(status, &hash),
            _ => fresh(step),
        });
        (log, engine.session.containers)
    };
    let (log, up) = start("running", service_spec_hash("a"));
    assert_eq!(log, vec!["describe a", "inspect a-1", "finish"]);
    assert!(up.is_empty());
    let (log, up) = start("exited", service_spec_hash("a"));
    assert_eq!(log, vec!["describe a", "inspect a-1", "start a-1", "finish"]);
    assert_eq!(up, vec![again("a-1")]);
    let (log, up) = start("running", "stale".to_string());
    assert_eq!(
        log,
        vec!["describe a", "inspect a-1", "stop a-1 10", "remove a-1", "run a-1", "finish"]
    );
    assert_eq!(up, vec![made("id-a-1")]);
}

#[test]
fn a_container_started_again_goes_back_to_being_stopped() {
    let mut engine = ComposeEngine::new(
        project(vec![("a", after(&[])), ("b", after(&["a"])), ("c", after(&["b"]))]),
        "p".to_string(),
    );
    let log = up(&mut engine, BackendCapabilities::docker(), &[], |step| match step {
        Step::InspectContainer(name) if name == "a-1" => {
            let mut labels = OrderedMap::new();
            labels.insert("perry.compose.spec_hash".to_string(), service_spec_hash("a"));
            Reply::Found(ContainerInfo {
                id: "i".into(),
                name: "a-1".into(),
                image: "m".into(),
                status: "exited".into(),
                ports: vec![],
                labels,
                created: String::new(),
                ip_address: String::new(),
            })
        }
        Step::RunContainer { spec, .. } if spec.name.as_deref() == Some("c-1") => {
            Reply::Failed(missing())
        }
        _ => fresh(step),
    });
    assert_eq!(
        log,
        vec![
            "describe a",
            "inspect a-1",
            "start a-1",
            "describe b",
            "inspect b-1",
            "run b-1",
            "describe c",
            "inspect c-1",
            "run c-1",
            "stop id-b-1 5",
            "remove id-b-1",
            "stop a-1 5",
            "fail: Service 'c' failed to start: Not found: x",
        ]
    );
    assert!(engine.session.containers.is_empty());
}

#[test]
fn limits_are_warned_about_or_refused() {
    let mut engine = ComposeEngine::new(full_project(), "proj".to_string())
        .with_enforcement(EnforcementMode::WarnUser);
    assert_eq!(engine.enforcement(), EnforcementMode::WarnUser);
    let log = up(&mut engine, BackendCapabilities::apple(), &[], fresh);
    assert_eq!(log[0], "inspect volume proj_data");
    assert_eq!(log.last().unwrap(), "finish");
    let warnings = engine.take_normalization_warnings();
    let fields: Vec<&str> = warnings.iter().map(|w| w.field).collect();
    assert_eq!(fields, vec!["user_defined_bridge", "privileged"]);
    assert_eq!(warnings[0].service, "network:front");
    assert!(engine.take_normalization_warnings().is_empty());

    let mut strict = ComposeEngine::new(full_project(), "proj".to_string())
        .with_enforcement(EnforcementMode::Strict);
    let log = up(&mut strict, BackendCapabilities::apple(), &[], fresh);
    assert_eq!(
        log,
        vec!["fail: Backend 'apple' cannot honor the spec for service 'network:front': network:front: user_defined_bridge (backend apple does not natively support user-defined bridges; network creation skipped)"]
    );

    let mut spec = full_project();
    spec.networks = None;
    let mut strict =
        ComposeEngine::new(spec, "proj".to_string()).with_enforcement(EnforcementMode::Strict);
    let log = up(&mut strict, BackendCapabilities::apple(), &[], fresh);
    assert_eq!(
        &log[2..],
        &[
            "describe db",
            "remove volume proj_data",
            "fail: Backend 'apple' cannot honor the spec for service 'db': db: privileged (backend apple does not support `privileged` mode; field dropped)",
        ]
    );
}

#[test]
fn failures_before_the_services_end_at_once() {
    let mut engine = ComposeEngine::new(full_project(), "proj".to_string());
    let log = up(&mut engine, BackendCapabilities::docker(), &[], |step| match step {
        Step::CreateVolume { .. } => Reply::Failed(missing()),
        _ => fresh(step),
    });
    assert_eq!(log.last().unwrap(), "fail: Not found: x");
    assert_eq!(engine.session.networks, vec!["proj_front"]);
    let mut broken = ComposeEngine::new(project(vec![("a", after(&["b"]))]), "p".to_string());
    let log = up(&mut broken, BackendCapabilities::docker(), &[], fresh);
    assert_eq!(log.len(), 1);
    assert!(log[0].contains("'b' which is not defined"));
    let log = down(&mut engine, true, |step| match step {
        Step::ListContainers => Reply::Failed(missing()),
        _ => fresh(step),
    });
    assert_eq!(log, vec!["remove network proj_front", "list", "fail: Not found: x"]);
}

#[test]
fn containers_are_found_by_label_on_the_way_down() {
    let container = |id: &str, project: &str, service: &str| {
        let mut labels = OrderedMap::new();
        labels.insert("perry.compose.project".to_string(), project.to_string());
        labels.insert("perry.compose.service".to_string(), service.to_string());
        ContainerInfo {
            id: id.into(),
            name: id.into(),
            image: "m".into(),
            status: "running".into(),
            ports: vec![],
            labels,
            created: String::new(),
            ip_address: String::new(),
        }
    };
    let all = || {
        vec![container("1", "p", "a"), container("2", "q", "a"), container("3", "p", "b")]
    };
    let mut engine = ComposeEngine::new(project(vec![("a", after(&[]))]), "p".to_string());
    let log = down(&mut engine, false, |step| match step {
        Step::ListContainers => Reply::Listed { containers: all(), generated: "g".into() },
        _ => fresh(step),
    });
    assert_eq!(log, vec!["list", "stop 1 10", "remove 1", "stop g 10", "remove g", "finish"]);
    assert_eq!(project_containers(&all(), "p"), vec!["1", "3"]);
    assert_eq!(managed_containers(&all()), vec!["1", "2", "3"]);
}

#[test]
fn aliases_are_added_once() {
    let mut networks = OrderedMap::new();
    networks.insert(
        "front".to_string(),
        Some(ComposeServiceNetworkConfig {
            aliases: Some(strings(&["web", "www", "www"])),
            ..Default::default()
        }),
    );
    networks.insert("back".to_string(), None);
    let service = ComposeService {
        image: Some("i".into()),
        networks: Some(ServiceNetworks::Mapping(networks)),
        environment: Some(ListOrDict::List(strings(&["A=1", "bare"]))),
        command: Some(yaml("[a, 1]")),
        ports: Some(vec![PortSpec::Short(yaml("80")), PortSpec::Short(yaml("true"))]),
        ..Default::default()
    };
    let engine = ComposeEngine::new(project(vec![]), "p".to_string());
    let spec = engine.container_for(true, &service, "web", "c", "h");
    assert_eq!(spec.network_aliases, Some(strings(&["web", "www"])));
    assert_eq!(spec.network, Some("p_front".to_string()));
    assert_eq!(spec.env.unwrap().keys(), vec!["A"]);
    assert_eq!(spec.cmd, Some(strings(&["a", ""])));
    assert_eq!(spec.ports, Some(strings(&["80", ""])));
    assert!(engine.container_for(false, &service, "web", "c", "h").network.is_none());
}

// ---- the rest ----

#[test]
fn hashes_are_stable() {
    assert_eq!(service_spec_hash(""), "d41d8cd98f00b204");
    assert_eq!(service_spec_hash("abc"), "900150983cd24fb0");
    assert_ne!(service_spec_hash("postgres:15"), service_spec_hash("postgres:16"));
}

#[test]
fn cleanups_are_reported() {
    assert!(CleanupOptions::default().networks && !CleanupOptions::default_for_project().volumes);
    let report = CleanupReport::list_failed(&missing());
    assert_eq!(report.errors, vec!["list containers: Not found: x"]);
    let containers = vec![
        CleanupOutcome { id: "1".into(), stop_error: Some(missing()), remove_error: None },
        CleanupOutcome { id: "2".into(), stop_error: None, remove_error: Some(missing()) },
        CleanupOutcome { id: "3".into(), stop_error: None, remove_error: None },
    ];
    let networks = ResourceOutcome {
        list_error: None,
        removals: vec![
            RemovalOutcome { name: "p_a".into(), error: None },
            RemovalOutcome { name: "p_b".into(), error: Some(missing()) },
        ],
    };
    let volumes = ResourceOutcome { list_error: Some(missing()), removals: vec![] };
    let report = CleanupReport::of_outcomes(&containers, &networks, &volumes);
    assert_eq!(report.containers_removed, 2);
    assert_eq!((report.networks_removed, report.volumes_removed), (1, 0));
    assert_eq!(
        report.errors,
        vec![
            "stop 1: Not found: x",
            "remove container 2: Not found: x",
            "remove network p_b: Not found: x",
            "list volumes: Not found: x",
        ]
    );
    assert!(matches!(removal_outcome(vec![Err(missing()), Ok(())]), Ok(true)));
    assert!(matches!(removal_outcome(vec![Ok(()), Err(missing())]), Ok(false)));
    assert!(matches!(removal_outcome(vec![]), Ok(false)));
    assert!(removal_outcome(vec![Ok(()), Err(ComposeError::validation("v"))]).is_err());
}

#[test]
fn containers_get_five_seconds_to_stop() {
    let said = |steps: &[RemovalStep]| {
        steps.iter().map(|s| format!("{s:?}")).collect::<Vec<_>>().join("; ")
    };
    let whole = |force: bool| {
        format!(r#"Stop {{ id: "c", timeout: 5 }}; Remove {{ id: "c", force: {force} }}"#)
    };
    assert_eq!(said(&cleanup_steps("c")), whole(true));
    assert_eq!(said(&removal_if_found(true, "c", false)), whole(false));
    assert!(removal_if_found(false, "c", true).is_empty());
    let steps = cleanup_steps("c");
    let mut outcome = CleanupOutcome::new("c".into());
    outcome.record(&steps[0], None);
    outcome.record(&steps[1], Some(missing()));
    assert!(outcome.stop_error.is_none() && outcome.remove_error.is_some());
}

#[test]
fn configurations_are_written_in_either_format() {
    let yaml = || "b: 1\na: [x]\n".to_string();
    assert_eq!(config_text("yaml", yaml()).unwrap(), yaml());
    assert_eq!(
        config_text("json", yaml()).unwrap(),
        "{\n  \"b\": 1,\n  \"a\": [\n    \"x\"\n  ]\n}"
    );
    assert!(matches!(
        config_text("json", "bad: [1,2".to_string()),
        Err(ComposeError::ParseError(_))
    ));
    assert!(matches!(
        config_text("json", "[1]: 2".to_string()),
        Err(ComposeError::JsonError(_))
    ));
}

#[test]
fn what_a_project_left_is_known_by_name() {
    let names = strings(&["proj_front", "proj", "proj_", "other_front", "xproj_a", "bridge"]);
    let one = strings(&["proj"]);
    let all = CleanupOptions { volumes: true, networks: true };
    assert_eq!(all.networks_to_remove(&names, &one), vec!["proj_front", "proj_"]);
    assert_eq!(all.volumes_to_remove(&names, &one), vec!["proj_front", "proj_"]);
    let two = strings(&["other", "proj"]);
    assert_eq!(
        all.volumes_to_remove(&names, &two),
        vec!["proj_front", "proj_", "other_front"]
    );
    let usual = CleanupOptions::default();
    assert_eq!(usual.networks_to_remove(&names, &one).len(), 2);
    assert!(usual.volumes_to_remove(&names, &one).is_empty());
    let none = CleanupOptions { volumes: false, networks: false };
    assert!(none.networks_to_remove(&names, &one).is_empty());
    let container = |project: Option<&str>| {
        let mut labels = OrderedMap::new();
        if let Some(p) = project {
            labels.insert("perry.compose.project".to_string(), p.to_string());
        }
        ContainerInfo {
            id: "i".into(),
            name: "n".into(),
            image: "m".into(),
            status: "running".into(),
            ports: vec![],
            labels,
            created: String::new(),
            ip_address: String::new(),
        }
    };
    let infos = vec![container(Some("proj")), container(None), container(Some("other"))];
    assert_eq!(managed_projects(&infos), vec!["proj", "other"]);
}

#[test]
fn projects_are_found() {
    let config = |files: &[&str], name: Option<&str>| {
        ProjectConfig::new(strings(files), name.map(|s| s.to_string()), vec![])
    };
    assert_eq!(config(&[], Some("n")).resolve_project_name(Some("s"), Some("d")), "n");
    assert_eq!(config(&[], None).resolve_project_name(Some("s"), Some("d")), "s");
    assert_eq!(config(&[], None).resolve_project_name(None, Some("d")), "d");
    assert_eq!(config(&[], None).resolve_project_name(None, None), "default");
    let present = strings(&["docker-compose.yml", "compose.yml"]);
    let files = |c: ProjectConfig, s: Option<&str>, p: Platform| c.resolve_compose_files(s, p, &present);
    assert_eq!(files(config(&["x"], None), Some("y"), Platform::Linux), vec!["x"]);
    assert_eq!(files(config(&[], None), Some("a:b;c"), Platform::Linux), vec!["a", "b;c"]);
    assert_eq!(files(config(&[], None), Some("a:b;c"), Platform::Windows), vec!["a:b", "c"]);
    assert_eq!(files(config(&[], None), None, Platform::Linux), vec!["compose.yml"]);
    assert!(matches!(require_files(vec![]), Err(ComposeError::FileNotFound { .. })));
    assert_eq!(require_files(strings(&["f"])).unwrap(), vec!["f"]);
}

#[test]
fn installers_ask_only_at_a_terminal() {
    let asking = BackendInstaller::new(false);
    assert!(asking.check_prompt(true).is_ok());
    assert_eq!(
        asking.check_prompt(false).unwrap_err().text(),
        "Validation error: No container backend found and stderr is not a TTY."
    );
    assert_eq!(
        BackendInstaller::new(true).check_prompt(true).unwrap_err().text(),
        "Validation error: No container backend found and PERRY_NO_INSTALL_PROMPT is set."
    );
    assert_eq!(asking.platform_options(Platform::MacOs).len(), 2);
    assert_eq!(asking.platform_options(Platform::MacOs)[0].install_command, "brew install container");
    assert_eq!(asking.platform_options(Platform::Linux)[0].name, "podman");
}

#[test]
fn commands_print_tables() {
    let logs = ContainerLogs { stdout: "a\nb".into(), stderr: "".into() };
    assert_eq!(log_text(&logs), "STDOUT:\na\nb\nSTDERR:\n");
    assert_eq!(
        log_lines("web", "x\r\ny\n"),
        vec!["web          | x", "web          | y"]
    );
    let table = ps_table(&vec![ContainerInfo {
        id: "i".into(),
        name: "n".into(),
        image: "m".into(),
        status: "s".into(),
        ports: vec![],
        labels: OrderedMap::new(),
        created: String::new(),
        ip_address: String::new(),
    }]);
    assert_eq!(table[0], format!("{:<24}  {:<12}  {:<36}", "SERVICE", "STATUS", "CONTAINER"));
    assert_eq!(table[1], "-".repeat(76));
    assert_eq!(table[2], format!("{:<24}  {:<12}  {:<36}", "n", "s", "i"));
    assert_eq!(sorted(strings(&["b", "a", "ab", "a", ""])), vec!["", "a", "a", "ab", "b"]);
    assert!(exec_env(&strings(&["bare"])).is_none());
    assert_eq!(exec_env(&strings(&["A=1=2"])).unwrap().get("A").unwrap(), "1=2");
}

#[test]
fn services_are_named_or_all() {
    let engine = ComposeEngine::new(project(vec![("b", after(&[])), ("a", after(&[]))]), "p".into());
    assert_eq!(engine.named_or_all(&vec![]), vec!["b", "a"]);
    assert_eq!(engine.named_or_all(&strings(&["x"])), vec!["x"]);
    assert!(engine.require_service("a").is_ok());
    assert_eq!(engine.require_service("x").unwrap_err().text(), "Not found: x");
}
