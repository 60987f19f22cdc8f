use backend_supervisor::config::{CaptureMode, ProcessSpec, ServiceGroup};
use backend_supervisor::handle::ProcessHandle;
use backend_supervisor::manager::BackendManager;
use backend_supervisor::protocol::{
    HealthStatus, Launch, LaunchAction, LaunchEvent, Phase, SpawnError, SpawnFailure, StartError,
};

fn worker(name: &str) -> ProcessSpec {
    ProcessSpec::new(name.to_string(), Vec::new(), ".".to_string(), CaptureMode::Piped)
}

fn group(name: &str, workers: &[&str], settle: u64) -> ServiceGroup {
    ServiceGroup::new(name.to_string(), workers.iter().map(|w| worker(w)).collect(), settle)
}

fn two_stage() -> BackendManager {
    BackendManager::with_groups(vec![
        group("A", &["worker-1", "worker-2"], 1),
        group("B", &["api"], 1),
    ])
}

fn running(pid: u32, spawned_at: u64) -> ProcessHandle {
    ProcessHandle { pid, spawned_at, running: true }
}

#[test]
fn two_groups_launch_then_stop() {
    let mut manager = two_stage();
    let launch = manager.start_services().unwrap();
    assert_eq!(launch, Launch { ticket: 1, first: LaunchAction::Spawn { group: 0, index: 0 } });
    assert_eq!(manager.phase(), Phase::Starting);

    let t = launch.ticket;
    assert_eq!(
        manager.advance(t, LaunchEvent::Spawned { pid: 101, at: 10 }),
        LaunchAction::Spawn { group: 0, index: 1 }
    );
    assert_eq!(
        manager.advance(t, LaunchEvent::Spawned { pid: 102, at: 11 }),
        LaunchAction::Settle { group: 0, millis: 1 }
    );
    assert_eq!(
        manager.advance(t, LaunchEvent::Settled),
        LaunchAction::Spawn { group: 1, index: 0 }
    );
    assert_eq!(manager.handles(), &vec![running(101, 10), running(102, 11)]);
    assert_eq!(manager.check_health(), HealthStatus::Starting);

    assert_eq!(
        manager.advance(t, LaunchEvent::Spawned { pid: 103, at: 12 }),
        LaunchAction::Settle { group: 1, millis: 1 }
    );
    assert_eq!(manager.phase(), Phase::Starting);
    assert_eq!(manager.advance(t, LaunchEvent::Settled), LaunchAction::Notify);
    assert_eq!(manager.phase(), Phase::Running);
    assert_eq!(manager.handles(), &vec![running(101, 10), running(102, 11), running(103, 12)]);
    assert_eq!(manager.check_health(), HealthStatus::Running);
    assert!(manager.failures().is_empty());

    let terminated = manager.stop_services();
    assert_eq!(terminated, vec![running(101, 10), running(102, 11), running(103, 12)]);
    assert!(manager.handles().is_empty());
    assert_eq!(manager.phase(), Phase::Stopped);
    assert_eq!(manager.check_health(), HealthStatus::Stopped);
}

#[test]
fn start_then_stop_at_once_leaves_nothing() {
    let mut manager = two_stage();
    let launch = manager.start_services().unwrap();
    let terminated = manager.stop_services();
    assert!(terminated.is_empty());
    assert!(manager.handles().is_empty());
    assert_eq!(manager.phase(), Phase::Stopped);

    // The launch is still in flight: the process it had begun to spawn is
    // not tracked and has to be terminated by the launch itself.
    assert_eq!(
        manager.advance(launch.ticket, LaunchEvent::Spawned { pid: 7, at: 1 }),
        LaunchAction::Terminate { pid: 7 }
    );
    assert!(manager.handles().is_empty());
    assert_eq!(manager.advance(launch.ticket, LaunchEvent::Settled), LaunchAction::Halt);
    assert_eq!(
        manager.advance(launch.ticket, LaunchEvent::SpawnFailed { error: SpawnError::OsRefused }),
        LaunchAction::Halt
    );
    assert!(manager.handles().is_empty());
    assert!(manager.failures().is_empty());
    assert_eq!(manager.phase(), Phase::Stopped);
}

#[test]
fn stop_in_the_middle_hands_over_what_was_spawned() {
    let mut manager = two_stage();
    let t = manager.start_services().unwrap().ticket;
    manager.advance(t, LaunchEvent::Spawned { pid: 101, at: 10 });
    manager.advance(t, LaunchEvent::Spawned { pid: 102, at: 11 });
    assert_eq!(manager.stop_services(), vec![running(101, 10), running(102, 11)]);
    assert_eq!(manager.advance(t, LaunchEvent::Settled), LaunchAction::Halt);
    assert!(manager.handles().is_empty());
}

#[test]
fn health_before_any_start_is_stopped() {
    let manager = two_stage();
    assert_eq!(manager.phase(), Phase::Idle);
    assert_eq!(manager.check_health(), HealthStatus::Stopped);
    assert_ne!(manager.check_health(), HealthStatus::Running);
    assert_eq!(BackendManager::new().check_health(), HealthStatus::Stopped);
}

#[test]
fn readiness_is_announced_once_after_the_last_settle() {
    let mut manager = two_stage();
    let launch = manager.start_services().unwrap();
    let mut action = launch.first;
    let mut performed = Vec::new();
    let mut pid = 500;
    for _ in 0..32 {
        performed.push(action);
        let event = match action {
            LaunchAction::Spawn { .. } => {
                pid += 1;
                LaunchEvent::Spawned { pid, at: 0 }
            }
            LaunchAction::Settle { .. } => LaunchEvent::Settled,
            _ => break,
        };
        action = manager.advance(launch.ticket, event);
    }
    assert_eq!(
        performed,
        vec![
            LaunchAction::Spawn { group: 0, index: 0 },
            LaunchAction::Spawn { group: 0, index: 1 },
            LaunchAction::Settle { group: 0, millis: 1 },
            LaunchAction::Spawn { group: 1, index: 0 },
            LaunchAction::Settle { group: 1, millis: 1 },
            LaunchAction::Notify,
        ]
    );
    let announced = performed.iter().filter(|a| **a == LaunchAction::Notify).count();
    assert_eq!(announced, 1);

    // The launch is over: no report brings a second announcement.
    assert_eq!(manager.advance(launch.ticket, LaunchEvent::Settled), LaunchAction::Halt);
    assert_eq!(manager.phase(), Phase::Running);
    assert_eq!(manager.handles().len(), 3);
}

#[test]
fn second_start_is_refused_and_spawns_nothing() {
    let mut manager = two_stage();
    let first = manager.start_services();
    assert_eq!(
        first,
        Ok(Launch { ticket: 1, first: LaunchAction::Spawn { group: 0, index: 0 } })
    );
    assert_eq!(manager.start_services(), Err(StartError::AlreadyRunning));
    assert_eq!(manager.phase(), Phase::Starting);
    assert_eq!(manager.launches(), 1);
    assert!(manager.handles().is_empty());

    // The first launch goes on where it stood.
    assert_eq!(
        manager.advance(1, LaunchEvent::Spawned { pid: 1, at: 0 }),
        LaunchAction::Spawn { group: 0, index: 1 }
    );
    assert_eq!(manager.start_services(), Err(StartError::AlreadyRunning));
    assert_eq!(manager.handles().len(), 1);
}

#[test]
fn start_is_refused_while_running() {
    let mut manager = BackendManager::with_groups(vec![group("only", &[], 5)]);
    let launch = manager.start_services().unwrap();
    assert_eq!(launch.first, LaunchAction::Settle { group: 0, millis: 5 });
    assert_eq!(manager.advance(launch.ticket, LaunchEvent::Settled), LaunchAction::Notify);
    assert_eq!(manager.phase(), Phase::Running);
    assert_eq!(manager.start_services(), Err(StartError::AlreadyRunning));
    assert_eq!(manager.phase(), Phase::Running);
}

#[test]
fn failed_spawn_keeps_earlier_groups() {
    let mut manager = two_stage();
    let t = manager.start_services().unwrap().ticket;
    manager.advance(t, LaunchEvent::Spawned { pid: 101, at: 10 });
    manager.advance(t, LaunchEvent::Spawned { pid: 102, at: 11 });
    manager.advance(t, LaunchEvent::Settled);

    let answer = manager.advance(t, LaunchEvent::SpawnFailed { error: SpawnError::ExecutableNotFound });
    assert_eq!(answer, LaunchAction::Settle { group: 1, millis: 1 });
    assert_eq!(manager.handles(), &vec![running(101, 10), running(102, 11)]);
    assert_eq!(
        manager.failures(),
        &vec![SpawnFailure { group: 1, index: 0, error: SpawnError::ExecutableNotFound }]
    );
    assert_eq!(manager.phase(), Phase::Starting);

    assert_eq!(manager.advance(t, LaunchEvent::Settled), LaunchAction::Notify);
    assert_eq!(manager.phase(), Phase::Running);
    assert_eq!(manager.check_health(), HealthStatus::Running);
    assert_eq!(manager.stop_services(), vec![running(101, 10), running(102, 11)]);
}

#[test]
fn failed_spawn_gives_up_the_rest_of_its_group() {
    let mut manager = two_stage();
    let t = manager.start_services().unwrap().ticket;
    let answer = manager.advance(t, LaunchEvent::SpawnFailed { error: SpawnError::InvalidWorkingDir });
    assert_eq!(answer, LaunchAction::Settle { group: 0, millis: 1 });
    assert!(manager.handles().is_empty());
    assert_eq!(
        manager.failures(),
        &vec![SpawnFailure { group: 0, index: 0, error: SpawnError::InvalidWorkingDir }]
    );
    // The next group is launched all the same.
    assert_eq!(manager.advance(t, LaunchEvent::Settled), LaunchAction::Spawn { group: 1, index: 0 });
    assert_eq!(
        manager.advance(t, LaunchEvent::Spawned { pid: 9, at: 3 }),
        LaunchAction::Settle { group: 1, millis: 1 }
    );
    assert_eq!(manager.handles(), &vec![running(9, 3)]);
}

#[test]
fn failure_after_a_success_keeps_the_sibling() {
    let mut manager = two_stage();
    let t = manager.start_services().unwrap().ticket;
    manager.advance(t, LaunchEvent::Spawned { pid: 101, at: 10 });
    let answer = manager.advance(t, LaunchEvent::SpawnFailed { error: SpawnError::OsRefused });
    assert_eq!(answer, LaunchAction::Settle { group: 0, millis: 1 });
    assert_eq!(manager.handles(), &vec![running(101, 10)]);
    assert_eq!(
        manager.failures(),
        &vec![SpawnFailure { group: 0, index: 1, error: SpawnError::OsRefused }]
    );
}

#[test]
fn stop_without_start_is_harmless() {
    let mut manager = two_stage();
    let terminated = manager.stop_services();
    assert!(terminated.is_empty());
    assert_eq!(manager.phase(), Phase::Stopped);
    assert!(manager.handles().is_empty());
    assert_eq!(manager.launches(), 0);
    assert_eq!(manager.group_count(), 2);
    // And again.
    assert!(manager.stop_services().is_empty());
    assert_eq!(manager.phase(), Phase::Stopped);
}

#[test]
fn manager_can_be_started_again_after_stop() {
    let mut manager = two_stage();
    let old = manager.start_services().unwrap().ticket;
    manager.advance(old, LaunchEvent::Spawned { pid: 1, at: 0 });
    manager.advance(old, LaunchEvent::SpawnFailed { error: SpawnError::OsRefused });
    manager.stop_services();

    let launch = manager.start_services().unwrap();
    assert_eq!(launch, Launch { ticket: 2, first: LaunchAction::Spawn { group: 0, index: 0 } });
    assert_eq!(manager.phase(), Phase::Starting);
    assert!(manager.failures().is_empty());
    assert!(manager.handles().is_empty());

    // The launch that was overtaken does not act on the new one.
    assert_eq!(
        manager.advance(old, LaunchEvent::Spawned { pid: 2, at: 0 }),
        LaunchAction::Terminate { pid: 2 }
    );
    assert_eq!(manager.advance(old, LaunchEvent::Settled), LaunchAction::Halt);
    assert!(manager.handles().is_empty());
    assert_eq!(
        manager.advance(launch.ticket, LaunchEvent::Spawned { pid: 3, at: 0 }),
        LaunchAction::Spawn { group: 0, index: 1 }
    );
    assert_eq!(manager.handles(), &vec![running(3, 0)]);
}

#[test]
fn report_that_is_not_awaited_changes_nothing() {
    let mut manager = two_stage();
    let t = manager.start_services().unwrap().ticket;
    // A spawn is awaited, not a settle.
    assert_eq!(manager.advance(t, LaunchEvent::Settled), LaunchAction::Halt);
    assert_eq!(manager.phase(), Phase::Starting);
    manager.advance(t, LaunchEvent::Spawned { pid: 1, at: 0 });
    manager.advance(t, LaunchEvent::Spawned { pid: 2, at: 0 });
    // A settle is awaited, not a spawn.
    assert_eq!(
        manager.advance(t, LaunchEvent::Spawned { pid: 3, at: 0 }),
        LaunchAction::Terminate { pid: 3 }
    );
    assert_eq!(
        manager.advance(t, LaunchEvent::SpawnFailed { error: SpawnError::OsRefused }),
        LaunchAction::Halt
    );
    assert_eq!(manager.handles().len(), 2);
    assert!(manager.failures().is_empty());
    // A ticket that was never issued.
    assert_eq!(manager.advance(99, LaunchEvent::Settled), LaunchAction::Halt);
    assert_eq!(manager.advance(t, LaunchEvent::Settled), LaunchAction::Spawn { group: 1, index: 0 });
}

#[test]
fn launch_without_groups_is_complete_at_once() {
    let mut manager = BackendManager::with_groups(Vec::new());
    let launch = manager.start_services().unwrap();
    assert_eq!(launch, Launch { ticket: 1, first: LaunchAction::Notify });
    assert_eq!(manager.phase(), Phase::Running);
    assert_eq!(manager.check_health(), HealthStatus::Running);
    assert_eq!(manager.advance(1, LaunchEvent::Settled), LaunchAction::Halt);
}

#[test]
fn exit_of_a_process_degrades_health() {
    let mut manager = two_stage();
    let t = manager.start_services().unwrap().ticket;
    manager.advance(t, LaunchEvent::Spawned { pid: 101, at: 10 });
    manager.advance(t, LaunchEvent::Spawned { pid: 102, at: 11 });
    manager.advance(t, LaunchEvent::Settled);
    manager.advance(t, LaunchEvent::Spawned { pid: 103, at: 12 });

    assert!(manager.record_exit(1));
    assert_eq!(manager.check_health(), HealthStatus::Starting);
    manager.advance(t, LaunchEvent::Settled);
    assert_eq!(manager.check_health(), HealthStatus::Degraded);
    assert_eq!(
        manager.handles(),
        &vec![
            running(101, 10),
            ProcessHandle { pid: 102, spawned_at: 11, running: false },
            running(103, 12),
        ]
    );
    assert!(!manager.record_exit(3));
    assert_eq!(manager.handles().len(), 3);

    // A process that has exited is handed over for termination like the others.
    let terminated = manager.stop_services();
    assert_eq!(terminated.len(), 3);
    assert!(!terminated[1].running);
    assert_eq!(manager.check_health(), HealthStatus::Stopped);
}

#[test]
fn record_exit_on_empty_table_finds_nothing() {
    let mut manager = two_stage();
    assert!(!manager.record_exit(0));
    assert_eq!(manager.phase(), Phase::Idle);
}

#[test]
fn activity_and_tickets() {
    let mut manager = two_stage();
    assert!(!manager.is_active());
    assert!(manager.has_ticket_left());
    assert_eq!(manager.launches(), 0);
    manager.start_services().unwrap();
    assert!(manager.is_active());
    manager.stop_services();
    assert!(!manager.is_active());
    assert_eq!(manager.launches(), 1);
}

#[test]
fn spawned_handle_is_running() {
    assert_eq!(ProcessHandle::spawned(4, 9), ProcessHandle { pid: 4, spawned_at: 9, running: true });
}

#[test]
fn lookup_of_what_to_spawn() {
    let manager = two_stage();
    assert_eq!(manager.group_count(), 2);
    assert_eq!(manager.process_spec(0, 1).unwrap().program(), "worker-2");
    assert_eq!(manager.process_spec(1, 0).unwrap().program(), "api");
    assert!(manager.process_spec(1, 1).is_none());
    assert!(manager.process_spec(2, 0).is_none());
    assert_eq!(manager.group(1).unwrap().name(), "B");
    assert_eq!(manager.group(1).unwrap().settle_millis(), 1);
    assert_eq!(manager.group(0).unwrap().len(), 2);
    assert!(manager.group(0).unwrap().spec(2).is_none());
    assert!(manager.group(2).is_none());
}
