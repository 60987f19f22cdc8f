//! The executable supervisor.
//!
//! A `BackendManager` is a plain value: the host keeps it behind one lock and
//! holds that lock for the whole of every call, so that a stop issued from
//! another thread and the launch that runs in the background never see the
//! process table half changed.

use vstd::prelude::*;
use crate::config::{default_groups, default_groups_view, ProcessSpec, ServiceGroup};
use crate::handle::ProcessHandle;
use crate::model::{all_running, ManagerState};
use crate::protocol::{
    HealthStatus, Launch, LaunchAction, LaunchEvent, Phase, SpawnFailure, StartError,
};

verus! {

/// The supervisor of the backend processes.
pub struct BackendManager {
    groups: Vec<ServiceGroup>,
    table: Vec<ProcessHandle>,
    phase: Phase,
    launches: u64,
    group: usize,
    index: usize,
    failures: Vec<SpawnFailure>,
}

impl View for BackendManager {
    type V = ManagerState;

    closed spec fn view(&self) -> ManagerState {
        ManagerState {
            groups: self.groups@.map_values(|group: ServiceGroup| group@),
            table: self.table@,
            phase: self.phase,
            launches: self.launches as nat,
            group: self.group,
            index: self.index,
            failures: self.failures@,
        }
    }
}

impl BackendManager {
    /// Validity of the manager: that of its state.
    pub open spec fn wf(&self) -> bool {
        self@.wf()
    }

    /// A manager of the default backend. Nothing has been started.
    pub fn new() -> (manager: BackendManager)
        ensures
            manager.wf(),
            manager@ == ManagerState::init(default_groups_view()),
    {
        BackendManager::with_groups(default_groups())
    }

    /// A manager of the given groups, which are launched in the order given.
    /// Nothing has been started.
    pub fn with_groups(groups: Vec<ServiceGroup>) -> (manager: BackendManager)
        ensures
            manager.wf(),
            manager@ == ManagerState::init(groups@.map_values(|group: ServiceGroup| group@)),
    {
        let manager = BackendManager {
            groups,
            table: Vec::new(),
            phase: Phase::Idle,
            launches: 0,
            group: 0,
            index: 0,
            failures: Vec::new(),
        };
        proof {
            manager.lemma_groups_fit();
        }
        manager
    }

    /// The configuration is of a size a machine can hold.
    proof fn lemma_groups_fit(&self)
        ensures
            self@.groups.len() <= usize::MAX,
            forall|g: int|
                0 <= g < self@.groups.len() ==> (#[trigger] self@.groups[g]).specs.len()
                    <= usize::MAX,
    {
        assert(self.groups.len() == self.groups@.len());
        assert forall|g: int| 0 <= g < self@.groups.len() implies (#[trigger] self@.groups[g]).specs.len()
            <= usize::MAX by {
            self.groups@[g].lemma_len_fits();
        }
    }

    /// What a launch has to do at position `index` of the group at position `group`.
    fn action_at(&self, group: usize, index: usize) -> (action: LaunchAction)
        ensures
            action == self@.action_at(group, index),
    {
        if group >= self.groups.len() {
            LaunchAction::Notify
        } else if index < self.groups[group].len() {
            LaunchAction::Spawn { group, index }
        } else {
            LaunchAction::Settle { group, millis: self.groups[group].settle_millis() }
        }
    }

    /// Puts the launch at the head of the group at position `group`, or
    /// completes it past the last group.
    fn enter_group(&mut self, group: usize)
        requires
            old(self)@.groups.len() <= usize::MAX,
        ensures
            final(self)@ == old(self)@.enter_group(group),
    {
        if group >= self.groups.len() {
            self.phase = Phase::Running;
        } else {
            self.phase = Phase::Starting;
            self.group = group;
            self.index = 0;
        }
    }

    /// True if a start would be refused: a launch is under way or complete.
    pub fn is_active(&self) -> (active: bool)
        ensures
            active == self@.is_active(),
    {
        self.phase == Phase::Starting || self.phase == Phase::Running
    }

    /// True if the count of launches can still grow, so that a start can be
    /// given a ticket of its own.
    pub fn has_ticket_left(&self) -> (left: bool)
        ensures
            left == (self@.launches < u64::MAX),
    {
        self.launches < u64::MAX
    }

    /// Begins a launch, unless one is under way or complete.
    ///
    /// While the phase is `Starting` or `Running` the call is refused with
    /// `AlreadyRunning` and changes nothing. Otherwise the phase becomes
    /// `Starting` (or `Running` at once, if no group is configured), the
    /// failures of the launch before are forgotten, and the caller receives
    /// the ticket of the new launch together with its first action. The
    /// launch itself is the caller's to run, away from the calling thread:
    /// perform the action, report with [`BackendManager::advance`], perform
    /// the answer, and so on until the answer ends the launch.
    pub fn start_services(&mut self) -> (result: Result<Launch, StartError>)
        requires
            old(self).wf(),
            old(self)@.is_active() || old(self)@.launches < u64::MAX,
        ensures
            final(self).wf(),
            result is Err <==> old(self)@.is_active(),
            old(self)@.is_active() ==> result == Err::<Launch, StartError>(
                StartError::AlreadyRunning,
            ) && final(self)@ == old(self)@,
            !old(self)@.is_active() ==> final(self)@ == old(self)@.start() && result == Ok::<
                Launch,
                StartError,
            >(
                Launch {
                    ticket: (old(self)@.launches + 1) as u64,
                    first: old(self)@.first_action(),
                },
            ),
    {
        if self.is_active() {
            return Err(StartError::AlreadyRunning);
        }
        self.launches = self.launches + 1;
        self.failures = Vec::new();
        self.enter_group(0);
        let first = self.action_at(0, 0);
        Ok(Launch { ticket: self.launches, first })
    }

    /// Takes the report of a launch and answers with what to do next.
    ///
    /// A report counts if it bears the ticket of the launch under way and is
    /// the one that launch is waiting for. A process reported as spawned is
    /// then entered in the table; a failed spawn is recorded, rolls nothing
    /// back and ends the work on its group, which settles as it is; a group
    /// that has settled is followed by the next one, and the last one by
    /// `Notify`, with the phase `Running`. Any other report changes nothing
    /// and ends the launch it came from: with `Terminate` if it reports a
    /// process, which is not tracked and must not be left alive, and with
    /// `Halt` otherwise.
    pub fn advance(&mut self, ticket: u64, event: LaunchEvent) -> (action: LaunchAction)
        requires
            old(self).wf(),
        ensures
            final(self).wf(),
            final(self)@ == old(self)@.advance(ticket, event),
            action == old(self)@.answer(ticket, event),
    {
        if self.phase != Phase::Starting || ticket != self.launches {
            return Self::dismissal(event);
        }
        let size = self.groups[self.group].len();
        match event {
            LaunchEvent::Spawned { pid, at } => {
                if self.index < size {
                    self.table.push(ProcessHandle::spawned(pid, at));
                    self.index = self.index + 1;
                    self.action_at(self.group, self.index)
                } else {
                    LaunchAction::Terminate { pid }
                }
            },
            LaunchEvent::SpawnFailed { error } => {
                if self.index < size {
                    self.failures.push(SpawnFailure { group: self.group, index: self.index, error });
                    self.index = size;
                    self.action_at(self.group, self.index)
                } else {
                    LaunchAction::Halt
                }
            },
            LaunchEvent::Settled => {
                if self.index == size {
                    let next = self.group + 1;
                    self.enter_group(next);
                    self.action_at(next, 0)
                } else {
                    LaunchAction::Halt
                }
            },
        }
    }

    /// The answer to a report that does not count.
    fn dismissal(event: LaunchEvent) -> (action: LaunchAction)
        ensures
            action == ManagerState::dismissal(event),
    {
        match event {
            LaunchEvent::Spawned { pid, at } => LaunchAction::Terminate { pid },
            _ => LaunchAction::Halt,
        }
    }

    /// Shuts the backend down. Never refused.
    ///
    /// Every handle leaves the table and is returned, in table order: the
    /// caller terminates each of these processes and waits for it, whether or
    /// not it is still running. The phase becomes `Stopped`, so that a launch
    /// still under way is overtaken and enters nothing more in the table.
    pub fn stop_services(&mut self) -> (handles: Vec<ProcessHandle>)
        requires
            old(self).wf(),
        ensures
            final(self).wf(),
            handles@ == old(self)@.table,
            final(self)@ == old(self)@.stop(),
    {
        self.phase = Phase::Stopping;
        let mut handles: Vec<ProcessHandle> = Vec::new();
        std::mem::swap(&mut self.table, &mut handles);
        self.phase = Phase::Stopped;
        handles
    }

    /// Records that the process in slot `slot` of the table has exited.
    /// Returns false, and changes nothing, if the table has no such slot.
    pub fn record_exit(&mut self, slot: usize) -> (found: bool)
        requires
            old(self).wf(),
        ensures
            final(self).wf(),
            found == (slot < old(self)@.table.len()),
            final(self)@ == old(self)@.mark_exited(slot),
    {
        if slot < self.table.len() {
            let handle = self.table[slot];
            self.table.set(
                slot,
                ProcessHandle { pid: handle.pid, spawned_at: handle.spawned_at, running: false },
            );
            true
        } else {
            false
        }
    }

    /// The aggregate health: `Running` if the launch is complete and every
    /// tracked process is running, `Degraded` if the launch is complete and
    /// some tracked process has exited, `Starting` while a launch is under
    /// way, and `Stopped` otherwise.
    pub fn check_health(&self) -> (status: HealthStatus)
        ensures
            status == self@.health(),
    {
        match self.phase {
            Phase::Running => {
                let mut slot: usize = 0;
                while slot < self.table.len()
                    invariant
                        self.phase == Phase::Running,
                        slot <= self.table.len(),
                        forall|i: int| 0 <= i < slot ==> (#[trigger] self.table@[i]).running,
                    decreases self.table.len() - slot,
                {
                    if !self.table[slot].running {
                        assert(!all_running(self@.table));
                        return HealthStatus::Degraded;
                    }
                    slot = slot + 1;
                }
                assert(all_running(self@.table));
                HealthStatus::Running
            },
            Phase::Starting => HealthStatus::Starting,
            _ => HealthStatus::Stopped,
        }
    }

    /// The lifecycle phase.
    pub fn phase(&self) -> (phase: Phase)
        ensures
            phase == self@.phase,
    {
        self.phase
    }

    /// The process table, oldest handle first.
    pub fn handles(&self) -> (handles: &Vec<ProcessHandle>)
        ensures
            handles@ == self@.table,
    {
        &self.table
    }

    /// The spawns that failed during the latest launch, oldest first.
    pub fn failures(&self) -> (failures: &Vec<SpawnFailure>)
        ensures
            failures@ == self@.failures,
    {
        &self.failures
    }

    /// The ticket of the latest launch; zero if there has been none.
    pub fn launches(&self) -> (launches: u64)
        ensures
            launches == self@.launches,
    {
        self.launches
    }

    /// The number of configured groups.
    pub fn group_count(&self) -> (count: usize)
        ensures
            count == self@.groups.len(),
    {
        self.groups.len()
    }

    /// The group at position `group` of the configuration, if there is one.
    pub fn group(&self, group: usize) -> (found: Option<&ServiceGroup>)
        ensures
            group < self@.groups.len() ==> found.is_some() && found.unwrap()@
                == self@.groups[group as int],
            group >= self@.groups.len() ==> found.is_none(),
    {
        if group < self.groups.len() {
            Some(&self.groups[group])
        } else {
            None
        }
    }

    /// The process at position `index` of the group at position `group`: what
    /// the action `Spawn { group, index }` asks to be spawned.
    pub fn process_spec(&self, group: usize, index: usize) -> (found: Option<&ProcessSpec>)
        ensures
            match found {
                Some(spec) => group < self@.groups.len() && index < self@.groups[group as int].specs.len()
                    && spec@ == self@.groups[group as int].specs[index as int],
                None => !(group < self@.groups.len() && index
                    < self@.groups[group as int].specs.len()),
            },
    {
        if group < self.groups.len() {
            self.groups[group].spec(index)
        } else {
            None
        }
    }
}

impl Default for BackendManager {
    /// The manager of the default backend.
    fn default() -> (manager: BackendManager)
        ensures
            manager.wf(),
            manager@ == ManagerState::init(default_groups_view()),
    {
        BackendManager::new()
    }
}

} // verus!
