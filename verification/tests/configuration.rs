use backend_supervisor::commands::{
    check_service_health, ready_event, start_backend_services, stop_backend_services,
};
use backend_supervisor::config::{
    default_groups, perl_service, python_services, CaptureMode, ProcessSpec, ServiceGroup,
};
use backend_supervisor::handle::ProcessHandle;
use backend_supervisor::manager::BackendManager;
use backend_supervisor::protocol::{
    HealthStatus, LaunchAction, LaunchEvent, Phase, SpawnError, StartError,
};

#[test]
fn process_spec_keeps_its_parts() {
    let spec = ProcessSpec::new(
        "bin/tool".to_string(),
        vec!["--fast".to_string(), "x".to_string()],
        "work".to_string(),
        CaptureMode::Discard,
    );
    assert_eq!(spec.program(), "bin/tool");
    assert_eq!(spec.args(), &vec!["--fast".to_string(), "x".to_string()]);
    assert_eq!(spec.working_dir(), "work");
    assert_eq!(spec.capture(), CaptureMode::Discard);
}

#[test]
fn service_group_keeps_its_parts() {
    let a = ProcessSpec::new("a".to_string(), Vec::new(), ".".to_string(), CaptureMode::Piped);
    let b = ProcessSpec::new("b".to_string(), Vec::new(), ".".to_string(), CaptureMode::Piped);
    let group = ServiceGroup::new("stage".to_string(), vec![a.clone(), b.clone()], 250);
    assert_eq!(group.name(), "stage");
    assert_eq!(group.len(), 2);
    assert_eq!(group.spec(0), Some(&a));
    assert_eq!(group.spec(1), Some(&b));
    assert_eq!(group.spec(2), None);
    assert_eq!(group.settle_millis(), 250);
}

#[test]
fn python_services_are_the_first_stage() {
    let group = python_services();
    assert_eq!(group.name(), "python-services");
    assert_eq!(group.len(), 2);
    assert_eq!(group.settle_millis(), 3000);

    let embedding = group.spec(0).unwrap();
    assert_eq!(embedding.program(), "./venv/bin/python3");
    assert_eq!(
        embedding.args(),
        &vec!["-m".to_string(), "src.services.embedding_service".to_string()]
    );
    assert_eq!(embedding.working_dir(), "backend/python-backend");
    assert_eq!(embedding.capture(), CaptureMode::Piped);

    let gemini = group.spec(1).unwrap();
    assert_eq!(gemini.program(), "./venv/bin/python3");
    assert_eq!(gemini.args(), &vec!["-m".to_string(), "src.services.gemini_service".to_string()]);
    assert_eq!(gemini.working_dir(), "backend/python-backend");
    assert_eq!(gemini.capture(), CaptureMode::Piped);
}

#[test]
fn perl_service_is_the_second_stage() {
    let group = perl_service();
    assert_eq!(group.name(), "perl-service");
    assert_eq!(group.len(), 1);
    assert_eq!(group.settle_millis(), 2000);
    let api = group.spec(0).unwrap();
    assert_eq!(api.program(), "perl");
    assert_eq!(api.args(), &vec!["perl-backend/script/api_server.pl".to_string()]);
    assert_eq!(api.working_dir(), "backend");
    assert_eq!(api.capture(), CaptureMode::Piped);
}

#[test]
fn default_backend_has_two_stages() {
    assert_eq!(default_groups(), vec![python_services(), perl_service()]);
    let manager = BackendManager::new();
    assert_eq!(manager.group_count(), 2);
    assert_eq!(manager.group(0), Some(&python_services()));
    assert_eq!(manager.group(1), Some(&perl_service()));
    assert_eq!(manager.phase(), Phase::Idle);
    assert!(manager.handles().is_empty());
    assert_eq!(manager.launches(), 0);

    let by_default = BackendManager::default();
    assert_eq!(by_default.group_count(), 2);
    assert_eq!(by_default.phase(), Phase::Idle);
}

#[test]
fn default_backend_launch_order() {
    let mut manager = BackendManager::new();
    let launch = manager.start_services().unwrap();
    let t = launch.ticket;
    assert_eq!(launch.first, LaunchAction::Spawn { group: 0, index: 0 });
    assert_eq!(
        manager.advance(t, LaunchEvent::Spawned { pid: 1, at: 0 }),
        LaunchAction::Spawn { group: 0, index: 1 }
    );
    assert_eq!(
        manager.advance(t, LaunchEvent::Spawned { pid: 2, at: 0 }),
        LaunchAction::Settle { group: 0, millis: 3000 }
    );
    assert_eq!(manager.advance(t, LaunchEvent::Settled), LaunchAction::Spawn { group: 1, index: 0 });
    assert_eq!(
        manager.advance(t, LaunchEvent::Spawned { pid: 3, at: 0 }),
        LaunchAction::Settle { group: 1, millis: 2000 }
    );
    assert_eq!(manager.advance(t, LaunchEvent::Settled), LaunchAction::Notify);
}

#[test]
fn messages_in_words() {
    assert_eq!(HealthStatus::Running.message(), "Services running");
    assert_eq!(HealthStatus::Degraded.message(), "Services degraded");
    assert_eq!(HealthStatus::Starting.message(), "Services starting");
    assert_eq!(HealthStatus::Stopped.message(), "Services stopped");
    assert_eq!(StartError::AlreadyRunning.message(), "Backend services already running");
    assert_eq!(SpawnError::ExecutableNotFound.message(), "executable not found");
    assert_eq!(SpawnError::InvalidWorkingDir.message(), "working directory does not exist");
    assert_eq!(
        SpawnError::OsRefused.message(),
        "the operating system refused to create the process"
    );
    assert_eq!(ready_event(), "backend-ready");
}

#[test]
fn start_command_answers_with_launch_and_message() {
    let mut manager = BackendManager::new();
    let (launch, message) = start_backend_services(&mut manager).unwrap();
    assert_eq!(message, "Backend services starting...");
    assert_eq!(launch.ticket, 1);
    assert_eq!(launch.first, LaunchAction::Spawn { group: 0, index: 0 });
    assert_eq!(manager.phase(), Phase::Starting);

    assert_eq!(
        start_backend_services(&mut manager),
        Err("Backend services already running".to_string())
    );
    assert_eq!(manager.phase(), Phase::Starting);
    assert_eq!(manager.launches(), 1);
}

#[test]
fn stop_command_answers_with_handles_and_message() {
    let mut manager = BackendManager::new();
    let (launch, _) = start_backend_services(&mut manager).unwrap();
    manager.advance(launch.ticket, LaunchEvent::Spawned { pid: 11, at: 5 });
    let (handles, message) = stop_backend_services(&mut manager);
    assert_eq!(message, "Backend services stopped");
    assert_eq!(handles, vec![ProcessHandle { pid: 11, spawned_at: 5, running: true }]);
    assert_eq!(manager.phase(), Phase::Stopped);
    assert!(manager.handles().is_empty());

    let (handles, message) = stop_backend_services(&mut manager);
    assert_eq!(message, "Backend services stopped");
    assert!(handles.is_empty());
}

#[test]
fn health_command_follows_the_status() {
    let mut manager = BackendManager::with_groups(vec![ServiceGroup::new(
        "one".to_string(),
        vec![ProcessSpec::new("p".to_string(), Vec::new(), ".".to_string(), CaptureMode::Piped)],
        0,
    )]);
    assert_eq!(check_service_health(&manager), Err("Services stopped".to_string()));
    let t = manager.start_services().unwrap().ticket;
    assert_eq!(check_service_health(&manager), Ok("Services starting".to_string()));
    manager.advance(t, LaunchEvent::Spawned { pid: 1, at: 0 });
    manager.advance(t, LaunchEvent::Settled);
    assert_eq!(check_service_health(&manager), Ok("Services running".to_string()));
    manager.record_exit(0);
    assert_eq!(check_service_health(&manager), Err("Services degraded".to_string()));
    manager.stop_services();
    assert_eq!(check_service_health(&manager), Err("Services stopped".to_string()));
}
