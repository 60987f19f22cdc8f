//! Laws of the lifecycle, proved of the state machine that the manager is
//! specified against.

use vstd::prelude::*;
use crate::config::ServiceGroupView;
use crate::model::{pids, ManagerState};
use crate::protocol::{HealthStatus, LaunchAction, LaunchEvent, Phase, SpawnError};

verus! {

/// A start is refused exactly while a launch is under way or complete, and
/// an accepted start leaves a valid state in which the new ticket is the
/// current one, unless no group is configured and the launch is complete at
/// once.
pub proof fn lemma_start_valid(s: ManagerState)
    requires
        s.wf(),
        !s.is_active(),
    ensures
        s.start().wf(),
        s.start().is_active(),
        s.start().launches == s.launches + 1,
        s.start().table == s.table,
        s.start().table.len() == 0,
        s.start().failures.len() == 0,
        s.groups.len() > 0 ==> s.start().phase == Phase::Starting
            && s.start().group == 0 && s.start().index == 0,
        s.groups.len() == 0 ==> s.start().phase == Phase::Running && s.first_action()
            == LaunchAction::Notify,
{
}

/// Every report leaves a valid state, keeps the configuration and the count
/// of launches, and keeps every handle that was in the table, in its slot.
pub proof fn lemma_advance_valid(s: ManagerState, ticket: u64, event: LaunchEvent)
    requires
        s.wf(),
    ensures
        s.advance(ticket, event).wf(),
        s.advance(ticket, event).groups == s.groups,
        s.advance(ticket, event).launches == s.launches,
        s.table.is_prefix_of(s.advance(ticket, event).table),
{
}

/// A stop is never refused: from whatever phase, it leaves a valid state
/// with an empty table in the phase `Stopped`, and touches nothing else.
pub proof fn lemma_stop_valid(s: ManagerState)
    requires
        s.wf(),
    ensures
        s.stop().wf(),
        s.stop().table.len() == 0,
        s.stop().phase == Phase::Stopped,
        s.stop().groups == s.groups,
        s.stop().launches == s.launches,
        s.stop().failures == s.failures,
        !s.stop().is_active(),
{
}

/// Recording an exit keeps the state valid and changes nothing but the
/// running flag of the one slot.
pub proof fn lemma_mark_exited_valid(s: ManagerState, slot: usize)
    requires
        s.wf(),
    ensures
        s.mark_exited(slot).wf(),
        s.mark_exited(slot).phase == s.phase,
        s.mark_exited(slot).table.len() == s.table.len(),
        pids(s.mark_exited(slot).table) == pids(s.table),
        forall|i: int|
            0 <= i < s.table.len() && i != slot ==> s.mark_exited(slot).table[i] == s.table[i],
        slot < s.table.len() ==> !s.mark_exited(slot).table[slot as int].running,
{
    assert(pids(s.mark_exited(slot).table) =~= pids(s.table));
}

/// Before anything is started the health is `Stopped`, never `Running`.
pub proof fn lemma_health_before_start(groups: Seq<ServiceGroupView>)
    ensures
        ManagerState::init(groups).health() == HealthStatus::Stopped,
{
}

/// The health is `Running` or `Degraded` only once a launch is complete,
/// and `Starting` only while one is under way.
pub proof fn lemma_health_follows_phase(s: ManagerState)
    ensures
        (s.health() == HealthStatus::Running || s.health() == HealthStatus::Degraded)
            <==> s.phase == Phase::Running,
        s.health() == HealthStatus::Starting <==> s.phase == Phase::Starting,
{
}

/// A start followed at once by a stop leaves nothing tracked, and the launch
/// that the start began is overtaken: whatever it reports from then on
/// changes nothing, and a process it reports is answered with the order to
/// terminate it. The same holds after the manager has been started again.
pub proof fn lemma_start_then_stop(s: ManagerState, event: LaunchEvent)
    requires
        s.wf(),
        !s.is_active(),
        s.launches < u64::MAX,
    ensures
        ({
            let ticket = (s.launches + 1) as u64;
            let stopped = s.start().stop();
            let restarted = stopped.start();
            &&& stopped.wf()
            &&& stopped.table.len() == 0
            &&& stopped.phase == Phase::Stopped
            &&& !stopped.is_current(ticket)
            &&& stopped.advance(ticket, event) == stopped
            &&& stopped.answer(ticket, event) == ManagerState::dismissal(event)
            &&& !restarted.is_current(ticket)
            &&& restarted.advance(ticket, event) == restarted
            &&& restarted.answer(ticket, event) == ManagerState::dismissal(event)
        }),
        event matches LaunchEvent::Spawned { pid, .. } ==> ManagerState::dismissal(event) == (
        LaunchAction::Terminate { pid }),
{
}

/// At any moment at most one launch is under way: two tickets that are both
/// current are the same ticket. A report that bears another ticket, or that
/// comes while no launch is under way, changes nothing.
pub proof fn lemma_one_launch_at_a_time(
    s: ManagerState,
    ticket: u64,
    other: u64,
    event: LaunchEvent,
)
    ensures
        s.is_current(ticket) && s.is_current(other) ==> ticket == other,
        !s.is_current(ticket) ==> s.advance(ticket, event) == s && s.answer(ticket, event)
            == ManagerState::dismissal(event),
{
}

/// While a launch is under way, reports lead to `Starting` or `Running`
/// only: until a stop, a second start finds the manager active and is
/// refused.
pub proof fn lemma_active_until_stopped(s: ManagerState, ticket: u64, event: LaunchEvent)
    requires
        s.wf(),
        s.is_active(),
    ensures
        s.advance(ticket, event).is_active(),
{
}

/// A failed spawn rolls nothing back: the table is what it was, so what the
/// groups before, and the processes before in the same group, have put
/// there stays tracked. The failure is recorded with its position, and the
/// launch goes on by letting the group settle.
pub proof fn lemma_failure_keeps_table(s: ManagerState, ticket: u64, error: SpawnError)
    requires
        s.wf(),
        s.accepts(ticket, LaunchEvent::SpawnFailed { error }),
    ensures
        ({
            let after = s.advance(ticket, LaunchEvent::SpawnFailed { error });
            &&& after.table == s.table
            &&& after.phase == Phase::Starting
            &&& after.group == s.group
            &&& after.failures.len() == s.failures.len() + 1
            &&& after.failures.last().group == s.group
            &&& after.failures.last().index == s.index
            &&& after.failures.last().error == error
            &&& after.accepts(ticket, LaunchEvent::Settled)
        }),
        s.answer(ticket, LaunchEvent::SpawnFailed { error }) == (LaunchAction::Settle {
            group: s.group,
            millis: s.groups[s.group as int].settle_millis,
        }),
{
}

/// A spawn that succeeded is tracked: its handle is the last of the table
/// and is running, and the handles before it are untouched.
pub proof fn lemma_spawned_is_tracked(s: ManagerState, ticket: u64, pid: u32, at: u64)
    requires
        s.wf(),
        s.accepts(ticket, LaunchEvent::Spawned { pid, at }),
    ensures
        ({
            let after = s.advance(ticket, LaunchEvent::Spawned { pid, at });
            &&& after.table.len() == s.table.len() + 1
            &&& after.table.drop_last() == s.table
            &&& after.table.last().pid == pid
            &&& after.table.last().spawned_at == at
            &&& after.table.last().running
            &&& after.phase == Phase::Starting
            &&& after.group == s.group
            &&& after.index == s.index + 1
        }),
        s.answer(ticket, LaunchEvent::Spawned { pid, at }) != LaunchAction::Notify,
{
    let after = s.advance(ticket, LaunchEvent::Spawned { pid, at });
    assert(after.table.drop_last() =~= s.table);
}

/// A process that is reported is never lost sight of: either its handle
/// enters the table, or the answer orders its termination.
pub proof fn lemma_spawned_tracked_or_terminated(s: ManagerState, ticket: u64, pid: u32, at: u64)
    requires
        s.wf(),
    ensures
        ({
            let event = LaunchEvent::Spawned { pid, at };
            let after = s.advance(ticket, event);
            ||| after.table == s.table.push(
                crate::handle::ProcessHandle { pid, spawned_at: at, running: true },
            ) && s.answer(ticket, event) != (LaunchAction::Terminate { pid })
            ||| after == s && s.answer(ticket, event) == (LaunchAction::Terminate { pid })
        }),
{
}

/// Readiness is announced only in answer to the report that the last group
/// has settled, by the launch under way, which is thereby complete.
pub proof fn lemma_notify_only_after_last_settle(s: ManagerState, ticket: u64, event: LaunchEvent)
    requires
        s.wf(),
        s.answer(ticket, event) == LaunchAction::Notify,
    ensures
        event == LaunchEvent::Settled,
        s.is_current(ticket),
        s.group + 1 == s.groups.len(),
        s.index == s.group_len(s.group),
        s.advance(ticket, event).phase == Phase::Running,
        !s.advance(ticket, event).is_current(ticket),
{
}

/// A stop where nothing is tracked orders nothing terminated and changes
/// nothing but the phase, which becomes `Stopped`. This is so in particular
/// when nothing was ever started.
pub proof fn lemma_stop_with_nothing_tracked(s: ManagerState)
    requires
        s.table.len() == 0,
    ensures
        pids(s.table).len() == 0,
        s.stop() == (ManagerState { phase: Phase::Stopped, ..s }),
        s.stop().phase == Phase::Stopped,
{
    assert(s.table =~= Seq::empty());
}

/// Stopping a manager that never started anything orders nothing terminated
/// and leaves it `Stopped`, with everything else as it was made.
pub proof fn lemma_stop_before_start(groups: Seq<ServiceGroupView>)
    ensures
        ManagerState::init(groups).table.len() == 0,
        ManagerState::init(groups).stop() == (ManagerState {
            phase: Phase::Stopped,
            ..ManagerState::init(groups)
        }),
{
    lemma_stop_with_nothing_tracked(ManagerState::init(groups));
}

} // verus!
