//! Laws that hold of every history: of any sequence of calls on a manager,
//! in whatever order two threads happen to make them.

use vstd::prelude::*;
use vstd::multiset::Multiset;
use crate::model::{pids, ManagerState};
use crate::protocol::{HealthStatus, LaunchAction, LaunchEvent, Phase};

verus! {

/// One call on the manager.
pub enum Step {
    /// A call of `start_services`.
    Start,
    /// A call of `stop_services`.
    Stop,
    /// A call of `advance` with this ticket and report.
    Report { ticket: u64, event: LaunchEvent },
    /// A call of `record_exit` for this slot.
    Exit { slot: usize },
}

/// The state after one call. A start that is refused changes nothing.
pub open spec fn step(s: ManagerState, call: Step) -> ManagerState {
    match call {
        Step::Start => if s.is_active() {
            s
        } else {
            s.start()
        },
        Step::Stop => s.stop(),
        Step::Report { ticket, event } => s.advance(ticket, event),
        Step::Exit { slot } => s.mark_exited(slot),
    }
}

/// The state after a sequence of calls.
pub open spec fn run(s: ManagerState, calls: Seq<Step>) -> ManagerState
    decreases calls.len(),
{
    if calls.len() == 0 {
        s
    } else {
        step(run(s, calls.drop_last()), calls.last())
    }
}

/// The processes that a call reports as spawned.
pub open spec fn reported(call: Step) -> Multiset<u32> {
    match call {
        Step::Report { ticket, event: LaunchEvent::Spawned { pid, at } } => Multiset::singleton(pid),
        _ => Multiset::empty(),
    }
}

/// The processes whose termination a call orders: a stop orders that of
/// every tracked process, a report that of the process it reports if that
/// process is not entered in the table.
pub open spec fn ordered(s: ManagerState, call: Step) -> Multiset<u32> {
    match call {
        Step::Stop => pids(s.table).to_multiset(),
        Step::Report { ticket, event } => match s.answer(ticket, event) {
            LaunchAction::Terminate { pid } => Multiset::singleton(pid),
            _ => Multiset::empty(),
        },
        _ => Multiset::empty(),
    }
}

/// The processes reported as spawned in the course of the calls.
pub open spec fn reported_in(calls: Seq<Step>) -> Multiset<u32>
    decreases calls.len(),
{
    if calls.len() == 0 {
        Multiset::empty()
    } else {
        reported_in(calls.drop_last()).add(reported(calls.last()))
    }
}

/// The processes whose termination is ordered in the course of the calls.
pub open spec fn ordered_in(s: ManagerState, calls: Seq<Step>) -> Multiset<u32>
    decreases calls.len(),
{
    if calls.len() == 0 {
        Multiset::empty()
    } else {
        ordered_in(s, calls.drop_last()).add(ordered(run(s, calls.drop_last()), calls.last()))
    }
}

/// True if the call announces readiness for the launch with this ticket:
/// as the first action of the start that issues the ticket, or as the answer
/// to a report that bears it.
pub open spec fn announces(s: ManagerState, call: Step, ticket: u64) -> bool {
    match call {
        Step::Start => !s.is_active() && ticket == s.launches + 1 && s.first_action()
            == LaunchAction::Notify,
        Step::Report { ticket: t, event } => t == ticket && s.answer(t, event)
            == LaunchAction::Notify,
        _ => false,
    }
}

/// How often readiness is announced for the launch with this ticket in the
/// course of the calls.
pub open spec fn announcements(s: ManagerState, calls: Seq<Step>, ticket: u64) -> nat
    decreases calls.len(),
{
    if calls.len() == 0 {
        0
    } else {
        announcements(s, calls.drop_last(), ticket) + if announces(
            run(s, calls.drop_last()),
            calls.last(),
            ticket,
        ) {
            1nat
        } else {
            0nat
        }
    }
}

/// True if no call of the sequence is a start.
pub open spec fn no_start(calls: Seq<Step>) -> bool {
    forall|i: int| 0 <= i < calls.len() ==> #[trigger] calls[i] != Step::Start
}

/// True if no call of the sequence is a stop.
pub open spec fn no_stop(calls: Seq<Step>) -> bool {
    forall|i: int| 0 <= i < calls.len() ==> #[trigger] calls[i] != Step::Stop
}

/// Every call leaves a valid state, keeps the configuration, and does not
/// lower the count of launches.
pub proof fn lemma_step_valid(s: ManagerState, call: Step)
    requires
        s.wf(),
    ensures
        step(s, call).wf(),
        step(s, call).groups == s.groups,
        step(s, call).launches >= s.launches,
{
}

/// Every history leaves a valid state, keeps the configuration, and does not
/// lower the count of launches.
pub proof fn lemma_run_valid(s: ManagerState, calls: Seq<Step>)
    requires
        s.wf(),
    ensures
        run(s, calls).wf(),
        run(s, calls).groups == s.groups,
        run(s, calls).launches >= s.launches,
    decreases calls.len(),
{
    if calls.len() > 0 {
        lemma_run_valid(s, calls.drop_last());
        lemma_step_valid(run(s, calls.drop_last()), calls.last());
    }
}

/// One call loses sight of no process: the processes tracked after it,
/// together with those whose termination it orders, are the processes
/// tracked before it together with those it reports.
pub proof fn lemma_step_accounts(s: ManagerState, call: Step)
    requires
        s.wf(),
    ensures
        pids(step(s, call).table).to_multiset().add(ordered(s, call)) == pids(
            s.table,
        ).to_multiset().add(reported(call)),
{
    broadcast use vstd::seq_lib::group_to_multiset_ensures;

    let before = pids(s.table);
    let after = pids(step(s, call).table);
    let nothing = Multiset::<u32>::empty();
    assert(Seq::<u32>::empty().to_multiset() =~= nothing);
    match call {
        Step::Start => {
            assert(after =~= before);
            assert(before.to_multiset().add(nothing) =~= before.to_multiset());
        },
        Step::Stop => {
            assert(after =~= Seq::<u32>::empty());
            assert(nothing.add(before.to_multiset()) =~= before.to_multiset().add(nothing));
        },
        Step::Exit { slot } => {
            assert(after =~= before);
            assert(before.to_multiset().add(nothing) =~= before.to_multiset());
        },
        Step::Report { ticket, event } => {
            match event {
                LaunchEvent::Spawned { pid, at } => {
                    if s.accepts(ticket, event) {
                        assert(after =~= before.push(pid));
                        assert(before.push(pid).to_multiset() =~= before.to_multiset().insert(pid));
                        assert(before.to_multiset().insert(pid).add(nothing)
                            =~= before.to_multiset().add(Multiset::singleton(pid)));
                    } else {
                        assert(after =~= before);
                    }
                },
                _ => {
                    assert(after =~= before);
                    assert(before.to_multiset().add(nothing) =~= before.to_multiset());
                },
            }
        },
    }
}

/// No history loses sight of a process: the processes tracked at its end,
/// together with all those whose termination was ordered on the way, are the
/// processes tracked at its beginning together with all those reported as
/// spawned on the way. So a process that the manager was told of is tracked
/// until the caller has been told to terminate it.
pub proof fn lemma_every_process_accounted(s: ManagerState, calls: Seq<Step>)
    requires
        s.wf(),
    ensures
        pids(run(s, calls).table).to_multiset().add(ordered_in(s, calls)) == pids(
            s.table,
        ).to_multiset().add(reported_in(calls)),
    decreases calls.len(),
{
    let nothing = Multiset::<u32>::empty();
    if calls.len() == 0 {
        assert(pids(s.table).to_multiset().add(nothing) =~= pids(s.table).to_multiset());
    } else {
        let earlier = calls.drop_last();
        let middle = run(s, earlier);
        lemma_every_process_accounted(s, earlier);
        lemma_run_valid(s, earlier);
        lemma_step_accounts(middle, calls.last());
        let tracked_end = pids(run(s, calls).table).to_multiset();
        let tracked_middle = pids(middle.table).to_multiset();
        let tracked_begin = pids(s.table).to_multiset();
        let o1 = ordered_in(s, earlier);
        let o2 = ordered(middle, calls.last());
        let r1 = reported_in(earlier);
        let r2 = reported(calls.last());
        assert(tracked_end.add(o1.add(o2)) =~= tracked_end.add(o2).add(o1));
        assert(tracked_middle.add(r2).add(o1) =~= tracked_middle.add(o1).add(r2));
        assert(tracked_begin.add(r1).add(r2) =~= tracked_begin.add(r1.add(r2)));
    }
}

/// The table never adopts a process from elsewhere: whatever a manager
/// tracks after any history from its creation was reported to it as spawned
/// in the course of that history.
pub proof fn lemma_table_holds_only_reported(
    groups: Seq<crate::config::ServiceGroupView>,
    calls: Seq<Step>,
    slot: int,
)
    requires
        ManagerState::init(groups).wf(),
        0 <= slot < run(ManagerState::init(groups), calls).table.len(),
    ensures
        reported_in(calls).count(run(ManagerState::init(groups), calls).table[slot].pid) > 0,
{
    broadcast use vstd::seq_lib::group_to_multiset_ensures;

    let s = ManagerState::init(groups);
    let end = pids(run(s, calls).table);
    let pid = run(s, calls).table[slot].pid;
    lemma_every_process_accounted(s, calls);
    assert(pids(s.table) =~= Seq::<u32>::empty());
    assert(pids(s.table).to_multiset() =~= Multiset::<u32>::empty());
    assert(end[slot] == pid);
    assert(end.contains(pid));
    assert(end.to_multiset().count(pid) > 0);
    assert(end.to_multiset().add(ordered_in(s, calls)).count(pid) > 0);
}

/// True if the lifecycle allows the phase `to` to follow the phase `from`
/// in one call: a manager at rest may be started, a launch may complete, and
/// a stop leads to `Stopped` from anywhere.
pub open spec fn may_follow(from: Phase, to: Phase) -> bool {
    ||| to == from
    ||| to == Phase::Stopped
    ||| (from == Phase::Idle || from == Phase::Stopped) && (to == Phase::Starting || to
        == Phase::Running)
    ||| from == Phase::Starting && to == Phase::Running
}

/// Every call moves the phase along the lifecycle. A launch begins only at
/// rest, completes only from `Starting`, and nothing but a start leaves
/// `Stopped`; the phase is `Running` at once after a start only where no
/// group is configured.
pub proof fn lemma_phase_follows_lifecycle(s: ManagerState, call: Step)
    requires
        s.wf(),
    ensures
        may_follow(s.phase, step(s, call).phase),
        step(s, call).phase != s.phase && !s.is_active() && step(s, call).phase != Phase::Stopped
            ==> call == Step::Start,
        call == Step::Start && !s.is_active() && step(s, call).phase == Phase::Running
            ==> s.groups.len() == 0,
        call is Exit ==> step(s, call).phase == s.phase,
{
}

/// Without a start nothing runs: from a state in which no launch is under
/// way or complete, calls other than a start lead only to such states, with
/// an empty table and the health `Stopped`.
pub proof fn lemma_idle_without_start(s: ManagerState, calls: Seq<Step>)
    requires
        s.wf(),
        !s.is_active(),
        no_start(calls),
    ensures
        !run(s, calls).is_active(),
        run(s, calls).table.len() == 0,
        run(s, calls).health() == HealthStatus::Stopped,
        run(s, calls).launches == s.launches,
    decreases calls.len(),
{
    if calls.len() > 0 {
        let earlier = calls.drop_last();
        assert(no_start(earlier)) by {
            assert forall|i: int| 0 <= i < earlier.len() implies #[trigger] earlier[i]
                != Step::Start by {
                assert(earlier[i] == calls[i]);
            }
        }
        lemma_idle_without_start(s, earlier);
        lemma_run_valid(s, earlier);
        assert(calls.last() == calls[calls.len() - 1]);
    }
}

/// Before the first start the health is `Stopped`, never `Running`, whatever
/// else has been called.
pub proof fn lemma_not_running_before_start(
    groups: Seq<crate::config::ServiceGroupView>,
    calls: Seq<Step>,
)
    requires
        ManagerState::init(groups).wf(),
        no_start(calls),
    ensures
        run(ManagerState::init(groups), calls).health() == HealthStatus::Stopped,
        run(ManagerState::init(groups), calls).phase != Phase::Running,
{
    lemma_idle_without_start(ManagerState::init(groups), calls);
}

/// After a stop nothing is left alive, whatever the launch had done before
/// and whatever it still reports afterwards. Take any history, a stop, and
/// any calls after it other than a start: at the end the table is empty, and
/// the processes whose termination was ordered are exactly those tracked at
/// the beginning and those reported as spawned, the ones reported after the
/// stop included.
pub proof fn lemma_nothing_survives_stop(s: ManagerState, before: Seq<Step>, after: Seq<Step>)
    requires
        s.wf(),
        no_start(after),
    ensures
        ({
            let calls = before.push(Step::Stop) + after;
            &&& run(s, calls).table.len() == 0
            &&& run(s, calls).phase == Phase::Stopped
            &&& ordered_in(s, calls) == pids(s.table).to_multiset().add(reported_in(calls))
        }),
{
    broadcast use vstd::seq_lib::group_to_multiset_ensures;

    let calls = before.push(Step::Stop) + after;
    let stopped = run(s, before.push(Step::Stop));
    assert(before.push(Step::Stop).drop_last() =~= before);
    lemma_run_valid(s, before);
    lemma_run_split(s, before.push(Step::Stop), after);
    lemma_idle_without_start(stopped, after);
    lemma_stays_stopped(stopped, after);
    lemma_every_process_accounted(s, calls);
    let remaining = pids(run(s, calls).table);
    assert(remaining =~= Seq::<u32>::empty());
    assert(remaining.to_multiset() =~= Multiset::<u32>::empty());
    assert(remaining.to_multiset().add(ordered_in(s, calls)) =~= ordered_in(s, calls));
}

/// A history made of two parts leads where the second part leads from the
/// end of the first.
pub proof fn lemma_run_split(s: ManagerState, first: Seq<Step>, second: Seq<Step>)
    ensures
        run(s, first + second) == run(run(s, first), second),
    decreases second.len(),
{
    if second.len() == 0 {
        assert(first + second =~= first);
    } else {
        assert((first + second).drop_last() =~= first + second.drop_last());
        assert((first + second).last() == second.last());
        lemma_run_split(s, first, second.drop_last());
    }
}

/// Once stopped, the manager stays `Stopped` until it is started again.
pub proof fn lemma_stays_stopped(s: ManagerState, calls: Seq<Step>)
    requires
        s.wf(),
        s.phase == Phase::Stopped,
        no_start(calls),
    ensures
        run(s, calls).phase == Phase::Stopped,
    decreases calls.len(),
{
    if calls.len() > 0 {
        let earlier = calls.drop_last();
        assert(no_start(earlier)) by {
            assert forall|i: int| 0 <= i < earlier.len() implies #[trigger] earlier[i]
                != Step::Start by {
                assert(earlier[i] == calls[i]);
            }
        }
        lemma_stays_stopped(s, earlier);
        lemma_run_valid(s, earlier);
        assert(calls.last() == calls[calls.len() - 1]);
    }
}

/// Until it is stopped, a manager that is active stays active, so that every
/// further start is refused and changes nothing: only one launch runs.
pub proof fn lemma_active_without_stop(s: ManagerState, calls: Seq<Step>)
    requires
        s.wf(),
        s.is_active(),
        no_stop(calls),
    ensures
        run(s, calls).is_active(),
        run(s, calls).launches == s.launches,
        step(run(s, calls), Step::Start) == run(s, calls),
    decreases calls.len(),
{
    if calls.len() > 0 {
        let earlier = calls.drop_last();
        assert(no_stop(earlier)) by {
            assert forall|i: int| 0 <= i < earlier.len() implies #[trigger] earlier[i]
                != Step::Stop by {
                assert(earlier[i] == calls[i]);
            }
        }
        lemma_active_without_stop(s, earlier);
        lemma_run_valid(s, earlier);
        assert(calls.last() == calls[calls.len() - 1]);
    }
}

/// True if the launch with this ticket is over for good: a later launch has
/// been accepted, or this one is the latest and is not under way.
pub open spec fn is_over(s: ManagerState, ticket: u64) -> bool {
    s.launches > ticket || (s.launches == ticket && s.phase != Phase::Starting)
}

/// A launch that is over stays over, and readiness is not announced for it.
pub proof fn lemma_over_stays_over(s: ManagerState, call: Step, ticket: u64)
    requires
        s.wf(),
        is_over(s, ticket),
    ensures
        is_over(step(s, call), ticket),
        !announces(s, call, ticket),
{
}

/// A call that announces readiness for a launch ends that launch.
pub proof fn lemma_announced_is_over(s: ManagerState, call: Step, ticket: u64)
    requires
        s.wf(),
        announces(s, call, ticket),
    ensures
        is_over(step(s, call), ticket),
        step(s, call).phase == Phase::Running,
{
}

/// In no history is readiness announced twice for one launch; and once it
/// has been announced, the launch is over.
pub proof fn lemma_announced_at_most_once(s: ManagerState, calls: Seq<Step>, ticket: u64)
    requires
        s.wf(),
    ensures
        announcements(s, calls, ticket) <= 1,
        announcements(s, calls, ticket) == 1 ==> is_over(run(s, calls), ticket),
    decreases calls.len(),
{
    if calls.len() > 0 {
        let earlier = calls.drop_last();
        let middle = run(s, earlier);
        lemma_announced_at_most_once(s, earlier, ticket);
        lemma_run_valid(s, earlier);
        if announcements(s, earlier, ticket) == 1 {
            lemma_over_stays_over(middle, calls.last(), ticket);
        } else if announces(middle, calls.last(), ticket) {
            lemma_announced_is_over(middle, calls.last(), ticket);
        }
    }
}

} // verus!
