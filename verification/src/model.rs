//! The supervisor as a state machine over mathematical values. The executable
//! manager is specified against these transitions, and the lifecycle laws are
//! proved of them.

use vstd::prelude::*;
use crate::config::ServiceGroupView;
use crate::handle::ProcessHandle;
use crate::protocol::{HealthStatus, LaunchAction, LaunchEvent, Phase, SpawnFailure};

verus! {

/// The state of a supervisor.
pub struct ManagerState {
    /// The configured groups, in launch order.
    pub groups: Seq<ServiceGroupView>,
    /// The process table: the handles of the tracked processes, oldest first.
    pub table: Seq<ProcessHandle>,
    /// The lifecycle phase.
    pub phase: Phase,
    /// How many launches have been accepted. The latest has this number as its ticket.
    pub launches: nat,
    /// While starting: the group whose launch is under way.
    pub group: usize,
    /// While starting: how many processes of that group have been dealt with.
    /// Equal to the size of the group while the group settles.
    pub index: usize,
    /// The spawns that failed during the latest launch, oldest first.
    pub failures: Seq<SpawnFailure>,
}

/// True if every handle of the table is running.
pub open spec fn all_running(table: Seq<ProcessHandle>) -> bool {
    forall|i: int| 0 <= i < table.len() ==> (#[trigger] table[i]).running
}

/// The process identifiers of a table, in table order.
pub open spec fn pids(table: Seq<ProcessHandle>) -> Seq<u32> {
    table.map_values(|handle: ProcessHandle| handle.pid)
}

impl ManagerState {
    /// The state of a supervisor that has not started anything.
    pub open spec fn init(groups: Seq<ServiceGroupView>) -> ManagerState {
        ManagerState {
            groups,
            table: Seq::empty(),
            phase: Phase::Idle,
            launches: 0,
            group: 0,
            index: 0,
            failures: Seq::empty(),
        }
    }

    /// Validity: the configuration is of a size a machine can hold, the
    /// phase is not `Stopping` (a stop is one call, and is over when the call
    /// returns), the table is empty unless a launch is under way or
    /// complete, and while a launch is under way the position lies inside
    /// the configuration.
    pub open spec fn wf(self) -> bool {
        &&& self.groups.len() <= usize::MAX
        &&& forall|g: int|
            0 <= g < self.groups.len() ==> (#[trigger] self.groups[g]).specs.len() <= usize::MAX
        &&& self.phase != Phase::Stopping
        &&& (self.phase == Phase::Idle || self.phase == Phase::Stopped) ==> self.table.len() == 0
        &&& self.phase == Phase::Starting ==> {
            &&& self.group < self.groups.len()
            &&& self.index <= self.groups[self.group as int].specs.len()
        }
    }

    /// Size of the group at position `group`.
    pub open spec fn group_len(self, group: usize) -> nat {
        self.groups[group as int].specs.len()
    }

    /// True if a start is refused: a launch is under way or complete.
    pub open spec fn is_active(self) -> bool {
        self.phase == Phase::Starting || self.phase == Phase::Running
    }

    /// True if `ticket` identifies the launch that is under way.
    pub open spec fn is_current(self, ticket: u64) -> bool {
        self.phase == Phase::Starting && ticket == self.launches
    }

    /// What a launch has to do when it stands at position `index` of the
    /// group at position `group`: spawn the process there; past the last
    /// process of the group, let the group settle; past the last group,
    /// announce readiness.
    pub open spec fn action_at(self, group: usize, index: usize) -> LaunchAction {
        if group >= self.groups.len() {
            LaunchAction::Notify
        } else if index < self.group_len(group) {
            LaunchAction::Spawn { group, index }
        } else {
            LaunchAction::Settle { group, millis: self.groups[group as int].settle_millis }
        }
    }

    /// The state in which a launch stands at the head of the group at
    /// position `group`; past the last group the launch is complete.
    pub open spec fn enter_group(self, group: usize) -> ManagerState {
        if group >= self.groups.len() {
            ManagerState { phase: Phase::Running, ..self }
        } else {
            ManagerState { phase: Phase::Starting, group, index: 0, ..self }
        }
    }

    /// The state after a start that was accepted.
    pub open spec fn start(self) -> ManagerState {
        (ManagerState {
            launches: self.launches + 1,
            failures: Seq::empty(),
            ..self
        }).enter_group(0)
    }

    /// The first action of a launch that was accepted.
    pub open spec fn first_action(self) -> LaunchAction {
        self.action_at(0, 0)
    }

    /// What is answered to a report that the launch under way is not waiting
    /// for, or that comes from a launch that has been overtaken: a process
    /// that was spawned nevertheless must not outlive the report.
    pub open spec fn dismissal(event: LaunchEvent) -> LaunchAction {
        match event {
            LaunchEvent::Spawned { pid, at } => LaunchAction::Terminate { pid },
            _ => LaunchAction::Halt,
        }
    }

    /// True if `event` is the report that the launch under way is waiting for.
    pub open spec fn expects(self, event: LaunchEvent) -> bool {
        match event {
            LaunchEvent::Spawned { .. } => self.index < self.group_len(self.group),
            LaunchEvent::SpawnFailed { .. } => self.index < self.group_len(self.group),
            LaunchEvent::Settled => self.index == self.group_len(self.group),
        }
    }

    /// True if the report changes the state: it bears the ticket of the
    /// launch under way and is the one the launch is waiting for.
    pub open spec fn accepts(self, ticket: u64, event: LaunchEvent) -> bool {
        self.is_current(ticket) && self.expects(event)
    }

    /// The state after a report.
    ///
    /// A spawned process is entered in the table and the launch moves to the
    /// next process. A failed spawn is recorded, nothing is rolled back, and
    /// the rest of the group is given up: the group settles as it is. Once a
    /// group has settled the launch moves to the next group, and past the
    /// last group it is complete. Any other report changes nothing.
    pub open spec fn advance(self, ticket: u64, event: LaunchEvent) -> ManagerState {
        if !self.accepts(ticket, event) {
            self
        } else {
            match event {
                LaunchEvent::Spawned { pid, at } => ManagerState {
                    table: self.table.push(ProcessHandle { pid, spawned_at: at, running: true }),
                    index: (self.index + 1) as usize,
                    ..self
                },
                LaunchEvent::SpawnFailed { error } => ManagerState {
                    failures: self.failures.push(
                        SpawnFailure { group: self.group, index: self.index, error },
                    ),
                    index: self.group_len(self.group) as usize,
                    ..self
                },
                LaunchEvent::Settled => self.enter_group((self.group + 1) as usize),
            }
        }
    }

    /// What is answered to a report.
    pub open spec fn answer(self, ticket: u64, event: LaunchEvent) -> LaunchAction {
        if !self.accepts(ticket, event) {
            Self::dismissal(event)
        } else {
            match event {
                LaunchEvent::Spawned { .. } => self.action_at(self.group, (self.index + 1) as usize),
                LaunchEvent::SpawnFailed { .. } => self.action_at(
                    self.group,
                    self.group_len(self.group) as usize,
                ),
                LaunchEvent::Settled => self.action_at((self.group + 1) as usize, 0),
            }
        }
    }

    /// The state after a stop: the table is empty and the phase is `Stopped`.
    pub open spec fn stop(self) -> ManagerState {
        ManagerState { table: Seq::empty(), phase: Phase::Stopped, ..self }
    }

    /// The state after the process in slot `slot` of the table was found to
    /// have exited. A slot outside the table changes nothing.
    pub open spec fn mark_exited(self, slot: usize) -> ManagerState {
        if slot < self.table.len() {
            ManagerState {
                table: self.table.update(slot as int, self.table[slot as int].exited()),
                ..self
            }
        } else {
            self
        }
    }

    /// The aggregate health.
    pub open spec fn health(self) -> HealthStatus {
        match self.phase {
            Phase::Running => if all_running(self.table) {
                HealthStatus::Running
            } else {
                HealthStatus::Degraded
            },
            Phase::Starting => HealthStatus::Starting,
            _ => HealthStatus::Stopped,
        }
    }
}

} // verus!
