//! The course of a launch in which every spawn succeeds and no stop
//! intervenes: what the driver is asked to do, in which order, and where the
//! manager stands at the end.

use vstd::prelude::*;
use crate::config::ServiceGroupView;
use crate::handle::ProcessHandle;
use crate::model::ManagerState;
use crate::protocol::{LaunchAction, LaunchEvent, Phase};

verus! {

/// What an undisturbed launch asks for from position `index` of the group at
/// position `group` on: each process of each group in the order listed, a
/// settle delay after each group, and readiness at the very end.
pub open spec fn script_from(groups: Seq<ServiceGroupView>, group: nat, index: nat) -> Seq<
    LaunchAction,
>
    decreases groups.len() - group, groups[group as int].specs.len() - index,
{
    if group >= groups.len() {
        seq![LaunchAction::Notify]
    } else if index < groups[group as int].specs.len() {
        seq![LaunchAction::Spawn { group: group as usize, index: index as usize }] + script_from(
            groups,
            group,
            index + 1,
        )
    } else {
        seq![
            LaunchAction::Settle {
                group: group as usize,
                millis: groups[group as int].settle_millis,
            },
        ] + script_from(groups, group + 1, 0)
    }
}

/// What an undisturbed launch asks for, from its start to its end.
pub open spec fn script(groups: Seq<ServiceGroupView>) -> Seq<LaunchAction> {
    script_from(groups, 0, 0)
}

/// The handles that an undisturbed launch enters in the table from position
/// `index` of the group at position `group` on, where `spawn` gives the
/// identifier and the spawn time of each process.
pub open spec fn handles_from(
    groups: Seq<ServiceGroupView>,
    group: nat,
    index: nat,
    spawn: spec_fn(usize, usize) -> (u32, u64),
) -> Seq<ProcessHandle>
    decreases groups.len() - group, groups[group as int].specs.len() - index,
{
    if group >= groups.len() {
        Seq::empty()
    } else if index < groups[group as int].specs.len() {
        seq![
            ProcessHandle {
                pid: spawn(group as usize, index as usize).0,
                spawned_at: spawn(group as usize, index as usize).1,
                running: true,
            },
        ] + handles_from(groups, group, index + 1, spawn)
    } else {
        handles_from(groups, group + 1, 0, spawn)
    }
}

/// The report of a driver for whom everything goes well: the process asked
/// for was spawned, the delay asked for has elapsed.
pub open spec fn success(action: LaunchAction, spawn: spec_fn(usize, usize) -> (u32, u64)) -> LaunchEvent {
    match action {
        LaunchAction::Spawn { group, index } => LaunchEvent::Spawned {
            pid: spawn(group, index).0,
            at: spawn(group, index).1,
        },
        _ => LaunchEvent::Settled,
    }
}

/// True if the action asks the driver for work and a report.
pub open spec fn awaits_report(action: LaunchAction) -> bool {
    action is Spawn || action is Settle
}

/// The state reached, and the actions performed, by a driver that starts
/// with `action`, performs each action with success, reports it, and goes on
/// with the answer until an answer ends the launch or `fuel` actions have
/// been performed.
pub open spec fn drive(
    s: ManagerState,
    ticket: u64,
    action: LaunchAction,
    spawn: spec_fn(usize, usize) -> (u32, u64),
    fuel: nat,
) -> (ManagerState, Seq<LaunchAction>)
    decreases fuel,
{
    if fuel == 0 {
        (s, Seq::empty())
    } else if awaits_report(action) {
        let event = success(action, spawn);
        let rest = drive(
            s.advance(ticket, event),
            ticket,
            s.answer(ticket, event),
            spawn,
            (fuel - 1) as nat,
        );
        (rest.0, seq![action] + rest.1)
    } else {
        (s, seq![action])
    }
}

/// The script ends with the announcement of readiness and holds no other:
/// everything before it is a spawn or a settle delay. If there is a group to
/// launch, the announcement comes directly after the settle delay of the
/// last group.
pub proof fn lemma_script_shape(groups: Seq<ServiceGroupView>, group: nat, index: nat)
    requires
        groups.len() <= usize::MAX,
        group < groups.len() ==> index <= groups[group as int].specs.len(),
    ensures
        ({
            let script = script_from(groups, group, index);
            &&& script.len() >= 1
            &&& script.last() == LaunchAction::Notify
            &&& forall|i: int| 0 <= i < script.len() - 1 ==> awaits_report(#[trigger] script[i])
            &&& group < groups.len() ==> script.len() >= 2 && script[script.len() - 2] == (
            LaunchAction::Settle {
                group: (groups.len() - 1) as usize,
                millis: groups.last().settle_millis,
            })
        }),
    decreases groups.len() - group, groups[group as int].specs.len() - index,
{
    let script = script_from(groups, group, index);
    if group >= groups.len() {
    } else if index < groups[group as int].specs.len() {
        let rest = script_from(groups, group, index + 1);
        lemma_script_shape(groups, group, index + 1);
        assert(script =~= seq![script[0]] + rest);
        assert forall|i: int| 0 <= i < script.len() - 1 implies awaits_report(
            #[trigger] script[i],
        ) by {
            if i > 0 {
                assert(script[i] == rest[i - 1]);
            }
        }
        assert(script[script.len() - 2] == rest[rest.len() - 2]);
    } else {
        let rest = script_from(groups, group + 1, 0);
        lemma_script_shape(groups, group + 1, 0);
        assert(script =~= seq![script[0]] + rest);
        assert forall|i: int| 0 <= i < script.len() - 1 implies awaits_report(
            #[trigger] script[i],
        ) by {
            if i > 0 {
                assert(script[i] == rest[i - 1]);
            }
        }
        if group + 1 < groups.len() {
            assert(script[script.len() - 2] == rest[rest.len() - 2]);
        } else {
            assert(rest =~= seq![LaunchAction::Notify]);
            assert(script.len() == 2);
        }
    }
}

/// A launch under way that is driven with success from where it stands does
/// what the script says, action for action, and nothing else. At the end it
/// is complete: the phase is `Running`, the table has gained one running
/// handle for each process spawned, in the order of the script, and no
/// failure has been recorded.
pub proof fn lemma_driven_launch(
    s: ManagerState,
    ticket: u64,
    spawn: spec_fn(usize, usize) -> (u32, u64),
    fuel: nat,
)
    requires
        s.wf(),
        s.is_current(ticket),
        fuel >= script_from(s.groups, s.group as nat, s.index as nat).len(),
    ensures
        ({
            let end = drive(s, ticket, s.action_at(s.group, s.index), spawn, fuel);
            &&& end.1 == script_from(s.groups, s.group as nat, s.index as nat)
            &&& end.0.phase == Phase::Running
            &&& end.0.table == s.table + handles_from(
                s.groups,
                s.group as nat,
                s.index as nat,
                spawn,
            )
            &&& end.0.failures == s.failures
            &&& end.0.launches == s.launches
            &&& end.0.wf()
        }),
    decreases s.groups.len() - s.group, s.groups[s.group as int].specs.len() - s.index,
{
    let action = s.action_at(s.group, s.index);
    let event = success(action, spawn);
    let next = s.advance(ticket, event);
    let answer = s.answer(ticket, event);
    let end = drive(s, ticket, action, spawn, fuel);
    let rest = drive(next, ticket, answer, spawn, (fuel - 1) as nat);
    let script = script_from(s.groups, s.group as nat, s.index as nat);
    lemma_script_shape(s.groups, s.group as nat, s.index as nat);
    assert(awaits_report(action));
    assert(s.accepts(ticket, event));
    assert(end.0 == rest.0 && end.1 == seq![action] + rest.1);
    if s.index < s.group_len(s.group) {
        assert(next.group == s.group && next.index == s.index + 1);
        assert(answer == next.action_at(next.group, next.index));
        lemma_driven_launch(next, ticket, spawn, (fuel - 1) as nat);
        assert(end.0.table =~= s.table + handles_from(
            s.groups,
            s.group as nat,
            s.index as nat,
            spawn,
        ));
    } else if s.group + 1 < s.groups.len() {
        assert(next.group == s.group + 1 && next.index == 0);
        assert(answer == next.action_at(next.group, next.index));
        lemma_driven_launch(next, ticket, spawn, (fuel - 1) as nat);
    } else {
        assert(answer == LaunchAction::Notify);
        assert(script_from(s.groups, (s.group + 1) as nat, 0) =~= seq![LaunchAction::Notify]);
        assert(rest.1 =~= seq![LaunchAction::Notify]);
        assert(handles_from(s.groups, (s.group + 1) as nat, 0, spawn) =~= Seq::empty());
        assert(end.0.table =~= s.table + handles_from(
            s.groups,
            s.group as nat,
            s.index as nat,
            spawn,
        ));
    }
}

/// If every spawn of every group succeeds, a launch does what the script
/// says from the start: it spawns every process of every group in order,
/// lets each group settle, and announces readiness once, as its last
/// action, after the settle delay of the last group. The manager is then
/// `Running`, and the table holds one running handle for each configured
/// process, in launch order.
pub proof fn lemma_undisturbed_launch(
    s: ManagerState,
    spawn: spec_fn(usize, usize) -> (u32, u64),
    fuel: nat,
)
    requires
        s.wf(),
        !s.is_active(),
        s.launches < u64::MAX,
        fuel >= script(s.groups).len(),
    ensures
        ({
            let ticket = (s.launches + 1) as u64;
            let end = drive(s.start(), ticket, s.first_action(), spawn, fuel);
            let script = script(s.groups);
            &&& end.1 == script
            &&& script.last() == LaunchAction::Notify
            &&& forall|i: int| 0 <= i < script.len() - 1 ==> #[trigger] script[i] != LaunchAction::Notify
            &&& end.0.phase == Phase::Running
            &&& end.0.table == handles_from(s.groups, 0, 0, spawn)
            &&& end.0.failures.len() == 0
        }),
{
    let ticket = (s.launches + 1) as u64;
    let started = s.start();
    let script = script(s.groups);
    lemma_script_shape(s.groups, 0, 0);
    assert forall|i: int| 0 <= i < script.len() - 1 implies #[trigger] script[i]
        != LaunchAction::Notify by {
        assert(awaits_report(script[i]));
    }
    if s.groups.len() == 0 {
        assert(drive(started, ticket, s.first_action(), spawn, fuel).1 =~= script);
        assert(started.table =~= handles_from(s.groups, 0, 0, spawn));
    } else {
        assert(s.first_action() == started.action_at(started.group, started.index));
        lemma_driven_launch(started, ticket, spawn, fuel);
        assert(started.table + handles_from(s.groups, 0, 0, spawn) =~= handles_from(
            s.groups,
            0,
            0,
            spawn,
        ));
    }
}

} // verus!
