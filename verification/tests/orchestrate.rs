use perry::compose::error::ComposeError;
use perry::compose::orchestrate::{
    is_present, is_running, orchestrate_service, OrchestratePhase, OrchestrateReply, OrchestrateStep,
};
use perry::compose::testing::{MockBackend, RecordedCall};
use perry::compose::types::{BuildSpec, ComposeService, ComposeServiceBuild, ContainerHandle};

fn svc_with_image(image: &str) -> ComposeService {
    ComposeService {
        image: Some(image.to_string()),
        ..Default::default()
    }
}

fn svc_with_build(context: &str) -> ComposeService {
    ComposeService {
        build: Some(BuildSpec::Config(ComposeServiceBuild {
            context: Some(context.to_string()),
            ..Default::default()
        })),
        ..Default::default()
    }
}

fn drive(
    service: &ComposeService,
    name: &str,
    mock: &mut MockBackend,
) -> Result<Option<ContainerHandle>, ComposeError> {
    let mut phase = OrchestratePhase::CheckingRunning;
    let mut step = OrchestrateStep::Inspect;
    loop {
        let reply = match step {
            OrchestrateStep::Inspect => OrchestrateReply::Inspected(mock.inspect(name)),
            OrchestrateStep::Start => {
                mock.record(RecordedCall::Start(name.to_string()));
                OrchestrateReply::Acted(Ok(()))
            }
            OrchestrateStep::Build => {
                mock.record(RecordedCall::Build(service.image_ref(name)));
                OrchestrateReply::Acted(Ok(()))
            }
            OrchestrateStep::Run => {
                OrchestrateReply::Ran(Ok(mock.run(&service.to_container_spec(name, name))))
            }
            OrchestrateStep::Finish(handle) => return Ok(handle),
            OrchestrateStep::Fail(e) => return Err(e),
        };
        let (p, s) = orchestrate_service(service.needs_build(), phase, reply);
        phase = p;
        step = s;
    }
}

#[test]
fn already_running_skips_orchestration() {
    let mut mock = MockBackend::new();
    mock.set_inspect_running(true);
    let svc = svc_with_image("alpine");
    let result = drive(&svc, "web", &mut mock).unwrap();
    assert!(result.is_none(), "running service should skip and return None");
    let calls = mock.recorded_calls();
    assert!(!calls.iter().any(|c| matches!(c, RecordedCall::Run { .. })));
    assert!(!calls.iter().any(|c| matches!(c, RecordedCall::Start { .. })));
}

#[test]
fn stopped_existing_service_is_started_not_run() {
    let mut mock = MockBackend::new();
    mock.set_inspect_running(false);
    let svc = svc_with_image("alpine");
    let result = drive(&svc, "web", &mut mock).unwrap();
    assert!(result.is_none(), "start path returns None (no fresh handle)");
    let calls = mock.recorded_calls();
    assert!(calls.iter().any(|c| matches!(c, RecordedCall::Start { .. })));
    assert!(!calls.iter().any(|c| matches!(c, RecordedCall::Run { .. })));
}

#[test]
fn missing_service_with_build_calls_build_then_run() {
    let mut mock = MockBackend::new();
    mock.set_inspect_not_found();
    let svc = svc_with_build(".");
    let result = drive(&svc, "api", &mut mock).unwrap();
    assert!(result.is_some(), "fresh run returns a handle");
    let calls = mock.recorded_calls();
    let build_idx = calls
        .iter()
        .position(|c| matches!(c, RecordedCall::Build { .. }))
        .expect("expected backend.build");
    let run_idx = calls
        .iter()
        .position(|c| matches!(c, RecordedCall::Run { .. }))
        .expect("expected backend.run");
    assert!(build_idx < run_idx);
}

#[test]
fn missing_service_no_build_skips_build() {
    let mut mock = MockBackend::new();
    mock.set_inspect_not_found();
    let svc = svc_with_image("alpine");
    let _ = drive(&svc, "cache", &mut mock).unwrap();
    let calls = mock.recorded_calls();
    assert!(!calls.iter().any(|c| matches!(c, RecordedCall::Build { .. })));
    assert!(calls.iter().any(|c| matches!(c, RecordedCall::Run { .. })));
}

#[test]
fn other_failures_of_an_inspection_are_handed_on() {
    let failed = || ComposeError::BackendError { code: 7, message: "m".into() };
    assert!(matches!(is_running(Err(failed())), Err(ComposeError::BackendError { code: 7, .. })));
    assert!(matches!(is_running(Err(ComposeError::NotFound("x".into()))), Ok(false)));
    assert!(!is_present(&Err(failed())));
    let (phase, step) = orchestrate_service(
        false,
        OrchestratePhase::CheckingRunning,
        OrchestrateReply::Inspected(Err(failed())),
    );
    assert_eq!(phase, OrchestratePhase::Ended);
    assert!(matches!(step, OrchestrateStep::Fail(ComposeError::BackendError { .. })));
    let (_, step) = orchestrate_service(
        true,
        OrchestratePhase::Building,
        OrchestrateReply::Acted(Err(failed())),
    );
    assert!(matches!(step, OrchestrateStep::Fail(_)));
}

#[test]
fn mock_backends_answer_by_mode() {
    let mut mock = MockBackend::named("m");
    assert_eq!(mock.name, "m");
    assert_eq!(mock.inspect("x").unwrap().status, "running");
    mock.set_inspect_running(false);
    let info = mock.inspect("x").unwrap();
    assert_eq!(info.status, "exited");
    assert_eq!(info.ip_address, "172.17.0.2");
    mock.set_inspect_not_found();
    assert!(matches!(mock.inspect("x"), Err(ComposeError::NotFound(_))));
    let handle = mock.run(&Default::default());
    assert_eq!(handle.id, "mock-id");
    assert_eq!(mock.recorded_calls().len(), 4);
    assert_eq!(MockBackend::default().name, "mock");
}
