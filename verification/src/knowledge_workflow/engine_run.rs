//! Whole runs of the engine loop: whatever happens to it, in whatever order.

use vstd::prelude::*;

use crate::knowledge_workflow::engine::{
    action_for, after_command, departure, due_since, engaged, host_answer, host_quiesced,
    may_start, refusal_text, CommandAction, EngineCommand, EngineCore, EngineExit, EngineView,
    ExecutorPolicy, HostAction, Refusal, LEASE_ATTEMPT_MILLIS, MAX_CONCURRENCY,
};
use crate::knowledge_workflow::types::TaskKey;

verus! {

/// What happens to the loop.
pub ghost enum EngineEvent {
    Maintenance { active: bool },
    Finished { task_id: i64 },
    ConnectionFinished,
    Watch { now: u64 },
    ChangesRead { cursor: i64 },
    ChangesUnreadable,
    LeaseAttempt { now: u64 },
    LeaseAcquired { generation: i64, now: u64 },
    Heartbeat { owned: bool, now: u64 },
    SafePoint { now: u64 },
    Claimed { task_id: i64 },
    Command { command: EngineCommand, now: u64 },
}

/// A loop before anything happened to it.
pub open spec fn begun(policy: ExecutorPolicy, cursor: i64, now: u64) -> EngineView {
    EngineView {
        core: EngineCore {
            policy,
            generation: None,
            connection_running: false,
            shutting_down: false,
            maintenance_requested: false,
            explicit_maintenance: false,
            quiesce_pending: false,
            quiesce_force_at: None,
            shutdown_started: None,
            watcher_faulted: false,
            cursor,
            last_lease_attempt: None,
            last_heartbeat: now,
            last_watch: None,
        },
        active: Seq::empty(),
    }
}

/// The loop wants the lease that it does not have.
pub open spec fn wants_lease(core: EngineCore) -> bool {
    !core.shutting_down && core.policy is Acquire && core.generation is None
}

/// The event may happen: the lease comes only to a loop that wants it, and a
/// task is claimed only where one may be started.
pub open spec fn possible(e: EngineView, event: EngineEvent) -> bool {
    match event {
        EngineEvent::LeaseAcquired { .. } => wants_lease(e.core),
        EngineEvent::Claimed { .. } => may_start(e.core, e.active),
        _ => true,
    }
}

/// The loop after an event.
pub open spec fn after_event(e: EngineView, event: EngineEvent) -> EngineView {
    let core = e.core;
    match event {
        EngineEvent::Maintenance { active } => if active && !core.shutting_down {
            EngineView {
                core: EngineCore { shutting_down: true, maintenance_requested: true, ..core },
                ..e
            }
        } else {
            e
        },
        EngineEvent::Finished { task_id } => EngineView {
            active: e.active.filter(|id: i64| id != task_id),
            ..e
        },
        EngineEvent::ConnectionFinished => EngineView {
            core: EngineCore { connection_running: false, ..core },
            ..e
        },
        EngineEvent::Watch { now } => if due_since(
            core.last_watch,
            now,
            if engaged(core, e.active) {
                200
            } else {
                1_000
            },
        ) {
            EngineView { core: EngineCore { last_watch: Some(now), ..core }, ..e }
        } else {
            e
        },
        EngineEvent::ChangesRead { cursor } => EngineView {
            core: EngineCore { watcher_faulted: false, cursor, ..core },
            ..e
        },
        EngineEvent::ChangesUnreadable => EngineView {
            core: EngineCore { watcher_faulted: true, ..core },
            ..e
        },
        EngineEvent::LeaseAttempt { now } => if wants_lease(core) && due_since(
            core.last_lease_attempt,
            now,
            LEASE_ATTEMPT_MILLIS,
        ) {
            EngineView { core: EngineCore { last_lease_attempt: Some(now), ..core }, ..e }
        } else {
            e
        },
        EngineEvent::LeaseAcquired { generation, now } => EngineView {
            core: EngineCore { generation: Some(generation), last_heartbeat: now, ..core },
            ..e
        },
        EngineEvent::Heartbeat { owned, now } => EngineView {
            core: if owned {
                EngineCore { last_heartbeat: now, ..core }
            } else {
                EngineCore { generation: None, ..core }
            },
            ..e
        },
        EngineEvent::SafePoint { now } => if core.shutting_down && core.shutdown_started is None {
            EngineView { core: EngineCore { shutdown_started: Some(now), ..core }, ..e }
        } else {
            e
        },
        EngineEvent::Claimed { task_id } => EngineView { active: e.active.push(task_id), ..e },
        EngineEvent::Command { command, now } => EngineView {
            core: after_command(core, command, now),
            ..e
        },
    }
}

/// The loop after all these events.
pub open spec fn after_events(start: EngineView, events: Seq<EngineEvent>) -> EngineView
    decreases events.len(),
{
    if events.len() == 0 {
        start
    } else {
        after_event(after_events(start, events.drop_last()), events.last())
    }
}

/// Each of the events may happen after those before it.
pub open spec fn possible_run(start: EngineView, events: Seq<EngineEvent>) -> bool
    decreases events.len(),
{
    events.len() == 0 || (possible_run(start, events.drop_last()) && possible(
        after_events(start, events.drop_last()),
        events.last(),
    ))
}

/// A quiesce request is among the events.
pub open spec fn asked_to_quiesce(events: Seq<EngineEvent>) -> bool {
    exists|k: int| 0 <= k < events.len() && is_quiesce(#[trigger] events[k])
}

pub open spec fn is_quiesce(event: EngineEvent) -> bool {
    event matches EngineEvent::Command { command, .. } && command is Quiesce
}

/// However a run goes, no more tasks run at a time than allowed, a loop that
/// only observes holds no lease and runs nothing, and a loop that was asked to
/// quiesce shuts down for maintenance: it claims nothing more and refuses
/// requests.
pub proof fn every_run_keeps_its_bounds(
    policy: ExecutorPolicy,
    cursor: i64,
    began: u64,
    events: Seq<EngineEvent>,
    key: TaskKey,
    task_id: i64,
)
    requires
        possible_run(begun(policy, cursor, began), events),
    ensures
        ({
            let e = after_events(begun(policy, cursor, began), events);
            &&& e.core.policy == policy
            &&& e.active.len() <= MAX_CONCURRENCY
            &&& policy is ObserveOnly ==> e.core.generation is None && e.active.len() == 0
                && !possible(e, EngineEvent::Claimed { task_id })
            &&& e.core.quiesce_pending ==> e.core.shutting_down && e.core.maintenance_requested
            &&& asked_to_quiesce(events) ==> e.core.shutting_down && e.core.maintenance_requested
                && !possible(e, EngineEvent::Claimed { task_id }) && action_for(
                e.core,
                EngineCommand::Request { key },
            ) == CommandAction::Refuse(Refusal::RequestDuringMaintenance)
        }),
    decreases events.len(),
{
    if events.len() > 0 {
        let start = begun(policy, cursor, began);
        let front = events.drop_last();
        every_run_keeps_its_bounds(policy, cursor, began, front, key, task_id);
        let e = after_events(start, front);
        if let EngineEvent::Finished { task_id: done } = events.last() {
            e.active.lemma_filter_len(|id: i64| id != done);
        }
        if asked_to_quiesce(events) && !is_quiesce(events.last()) {
            let k = choose|k: int| 0 <= k < events.len() && is_quiesce(#[trigger] events[k]);
            assert(front[k] == events[k]);
            assert(asked_to_quiesce(front));
        }
    }
}

/// A loop that only observes never takes the lease and never claims a task,
/// and no loop does so after a quiesce request.
pub proof fn leases_and_claims_need_an_executor_at_work(
    policy: ExecutorPolicy,
    cursor: i64,
    began: u64,
    events: Seq<EngineEvent>,
    k: int,
)
    requires
        possible_run(begun(policy, cursor, began), events),
        0 <= k < events.len(),
        events[k] is Claimed || events[k] is LeaseAcquired,
    ensures
        policy is Acquire,
        !asked_to_quiesce(events.take(k)),
    decreases events.len(),
{
    let front = events.drop_last();
    if k < front.len() {
        leases_and_claims_need_an_executor_at_work(policy, cursor, began, front, k);
        assert(front.take(k) =~= events.take(k));
    } else {
        assert(events.take(k) =~= front);
        let task_id: i64 = match events[k] {
            EngineEvent::Claimed { task_id } => task_id,
            _ => 0,
        };
        every_run_keeps_its_bounds(policy, cursor, began, front, arbitrary(), task_id);
    }
}

// ---- what commands and events do ------------------------------------------------

/// What is asked of the executor is done, unless maintenance was asked for, the
/// executor works elsewhere, or the same is under way already.
pub proof fn commands_are_answered(core: EngineCore, key: TaskKey, deadline: u64)
    ensures
        action_for(core, EngineCommand::Request { key }) == (if core.maintenance_requested {
            CommandAction::Refuse(Refusal::RequestDuringMaintenance)
        } else {
            CommandAction::Request(key)
        }),
        core.maintenance_requested ==> action_for(core, EngineCommand::TestConnection)
            == CommandAction::Refuse(Refusal::TestDuringMaintenance),
        !core.maintenance_requested && core.generation is None ==> action_for(
            core,
            EngineCommand::TestConnection,
        ) == CommandAction::Refuse(Refusal::TestOwnedElsewhere),
        !core.maintenance_requested && core.connection_running && core.generation is Some
            ==> action_for(core, EngineCommand::TestConnection) is Accept,
        !core.maintenance_requested && !core.connection_running ==> (
        core.generation matches Some(generation) ==> action_for(core, EngineCommand::TestConnection)
            == (CommandAction::TestConnection { generation })),
        action_for(core, EngineCommand::Observe { key }) == CommandAction::Publish(key),
        action_for(core, EngineCommand::Quiesce { deadline }) == (if core.quiesce_pending {
            CommandAction::Refuse(Refusal::QuiesceAlreadyPending)
        } else {
            CommandAction::Defer
        }),
        action_for(core, EngineCommand::Resume) == (if core.maintenance_requested {
            CommandAction::Refuse(Refusal::QuiesceInProgress)
        } else {
            CommandAction::Accept
        }),
        action_for(core, EngineCommand::Shutdown) is Nothing,
{
}

/// Only shutting down and maintenance end the work; maintenance keeps a second
/// before its deadline for its answer. Nothing else that is asked changes what
/// the executor is about.
pub proof fn commands_change_what_they_say(
    core: EngineCore,
    command: EngineCommand,
    deadline: u64,
    now: u64,
)
    ensures
        ({
            let n = after_command(core, command, now);
            &&& n.shutting_down <==> core.shutting_down || command is Shutdown || (
            command is Quiesce && !core.quiesce_pending)
            &&& n.maintenance_requested <==> core.maintenance_requested || (command is Quiesce
                && !core.quiesce_pending)
            &&& n.quiesce_pending <==> core.quiesce_pending || command is Quiesce
            &&& n.connection_running <==> core.connection_running || (command is TestConnection
                && !core.maintenance_requested && core.generation is Some)
            &&& n.generation == core.generation && n.policy == core.policy && n.cursor
                == core.cursor
        }),
        !core.quiesce_pending && deadline >= 1_000 ==> after_command(
            core,
            EngineCommand::Quiesce { deadline },
            now,
        ).quiesce_force_at == Some((deadline - 1_000) as u64),
        !core.quiesce_pending && core.shutdown_started is None ==> after_command(
            core,
            EngineCommand::Quiesce { deadline },
            now,
        ).shutdown_started == Some(now),
{
}

/// An executor that is to stop leaves as soon as nothing runs, and at the
/// latest when the time for it is over: at the moment that maintenance set, or
/// two seconds after it began to shut down. What still runs then is
/// interrupted; the lease is always given back.
pub proof fn executors_leave_when_idle_or_late(core: EngineCore, active: Seq<i64>, now: u64)
    ensures
        ({
            let idle = active.len() == 0 && !core.connection_running;
            let late = match core.quiesce_force_at {
                Some(time) => now >= time,
                None => match core.shutdown_started {
                    Some(started) => now - started >= 2_000,
                    None => false,
                },
            };
            let leave = departure(core, active, now);
            &&& leave is Some <==> core.shutting_down && (idle || late)
            &&& leave matches Some(d) ==> {
                &&& d.release == core.generation
                &&& idle ==> d.interrupt is None
                &&& !idle ==> d.interrupt == core.generation
                &&& d.clear_projection == core.maintenance_requested
                &&& d.acknowledge == core.quiesce_pending
                &&& d.exit is Maintenance <==> core.maintenance_requested
                &&& d.exit matches EngineExit::Maintenance { explicit } ==> explicit
                    == core.explicit_maintenance
            }
        }),
{
}

/// Two things run at once at most, a connection test among them, and nothing
/// starts without the lease or on the way out.
pub proof fn two_things_run_at_once(core: EngineCore, active: Seq<i64>)
    ensures
        may_start(core, active) <==> !core.shutting_down && core.generation is Some && (if core.connection_running {
            active.len() < 1
        } else {
            active.len() < 2
        }),
{
}

/// What is observed moves exactly what it speaks of.
pub proof fn events_move_what_they_speak_of(e: EngineView, task_id: i64, generation: i64, now: u64)
    ensures
        ({
            let n = after_event(e, EngineEvent::Maintenance { active: true });
            &&& n.core.shutting_down && (e.core.shutting_down || n.core.maintenance_requested)
            &&& n.active == e.active && n.core.explicit_maintenance == e.core.explicit_maintenance
        }),
        after_event(e, EngineEvent::Maintenance { active: false }) == e,
        ({
            let n = after_event(e, EngineEvent::Finished { task_id });
            &&& !n.active.contains(task_id) && n.core == e.core
            &&& forall|id: i64| id != task_id ==> (#[trigger] n.active.contains(id)
                <==> e.active.contains(id))
        }),
        !after_event(e, EngineEvent::ConnectionFinished).core.connection_running,
        after_event(e, EngineEvent::LeaseAcquired { generation, now }).core.generation == Some(
            generation,
        ),
        after_event(e, EngineEvent::LeaseAcquired { generation, now }).core.last_heartbeat == now,
        after_event(e, EngineEvent::Heartbeat { owned: true, now }).core.last_heartbeat == now,
        after_event(e, EngineEvent::Heartbeat { owned: true, now }).core.generation
            == e.core.generation,
        after_event(e, EngineEvent::Heartbeat { owned: false, now }).core.generation is None,
        after_event(e, EngineEvent::Claimed { task_id }).active == e.active.push(task_id),
        e.core.shutting_down && e.core.shutdown_started is None ==> after_event(
            e,
            EngineEvent::SafePoint { now },
        ).core.shutdown_started == Some(now),
        !e.core.shutting_down || e.core.shutdown_started is Some ==> after_event(
            e,
            EngineEvent::SafePoint { now },
        ) == e,
        after_event(e, EngineEvent::ChangesUnreadable).core.watcher_faulted,
        forall|cursor: i64| #![trigger after_event(e, EngineEvent::ChangesRead { cursor })]
            !after_event(e, EngineEvent::ChangesRead { cursor }).core.watcher_faulted && after_event(
                e,
                EngineEvent::ChangesRead { cursor },
            ).core.cursor == cursor,
{
    let n = after_event(e, EngineEvent::Finished { task_id });
    let keep = |id: i64| id != task_id;
    assert(n.active == e.active.filter(keep));
    assert forall|id: i64| n.active.contains(id) implies keep(id) && e.active.contains(id) by {
        lemma_kept_ids(e.active, keep, id);
    }
    assert forall|id: i64| id != task_id implies (#[trigger] n.active.contains(id)
        <==> e.active.contains(id)) by {
        lemma_kept_ids(e.active, keep, id);
    }
}

proof fn lemma_kept_ids(all: Seq<i64>, keep: spec_fn(i64) -> bool, id: i64)
    ensures
        all.filter(keep).contains(id) <==> all.contains(id) && keep(id),
    decreases all.len(),
{
    reveal(Seq::filter);
    if all.len() > 0 {
        let rest = all.drop_last();
        lemma_kept_ids(rest, keep, id);
        let kept = all.filter(keep);
        let before = rest.filter(keep);
        if before.contains(id) {
            let k = choose|k: int| 0 <= k < before.len() && before[k] == id;
            assert(kept[k] == id);
        }
        if rest.contains(id) {
            let k = choose|k: int| 0 <= k < rest.len() && rest[k] == id;
            assert(all[k] == id);
        }
        if keep(all.last()) {
            assert(kept[kept.len() - 1] == all.last());
        }
        assert(all[all.len() - 1] == all.last());
        if all.contains(id) && all.last() != id {
            let k = choose|k: int| 0 <= k < all.len() && all[k] == id;
            assert(rest[k] == id);
        }
        if kept.contains(id) && !before.contains(id) {
            let k = choose|k: int| 0 <= k < kept.len() && kept[k] == id;
            if k < before.len() {
                assert(before[k] == id);
            }
        }
    }
}

/// Changes are looked for five times a second while the executor works, and
/// once a second otherwise; the lease is sought once a second.
pub proof fn the_executor_looks_in_time(e: EngineView, now: u64)
    requires
        e.core.last_watch is Some,
        e.core.last_lease_attempt is Some,
    ensures
        ({
            let looks = after_event(e, EngineEvent::Watch { now }).core.last_watch;
            let busy = e.core.generation is Some || e.active.len() > 0
                || e.core.connection_running;
            &&& busy && now - e.core.last_watch->0 >= 200 ==> looks == Some(now)
            &&& busy && now - e.core.last_watch->0 < 200 ==> looks == e.core.last_watch
            &&& !busy && now - e.core.last_watch->0 >= 1_000 ==> looks == Some(now)
            &&& !busy && now - e.core.last_watch->0 < 1_000 ==> looks == e.core.last_watch
        }),
        ({
            let seeks = after_event(e, EngineEvent::LeaseAttempt { now }).core.last_lease_attempt;
            let wanted = !e.core.shutting_down && e.core.policy is Acquire
                && e.core.generation is None;
            &&& wanted && now - e.core.last_lease_attempt->0 >= 1_000 ==> seeks == Some(now)
            &&& !(wanted && now - e.core.last_lease_attempt->0 >= 1_000) ==> seeks
                == e.core.last_lease_attempt
        }),
{
}

/// While maintenance lasts the executor does no work; it says so, and goes on
/// only when maintenance is over.
pub proof fn maintenance_is_waited_out(
    quiesced: bool,
    command: EngineCommand,
    maintenance_active: bool,
)
    ensures
        ({
            let answer = host_answer(command, maintenance_active);
            &&& command is Shutdown <==> answer is Stop
            &&& command is Request ==> answer == HostAction::Refuse(
                Refusal::RequestDuringMaintenance,
            )
            &&& command is TestConnection ==> answer == HostAction::Refuse(
                Refusal::TestDuringMaintenance,
            )
            &&& command is Observe ==> answer is Wait
            &&& command is Quiesce ==> answer is Accept
            &&& command is Resume && maintenance_active ==> answer == HostAction::Refuse(
                Refusal::MaintenanceNotOver,
            )
            &&& command is Resume && !maintenance_active ==> answer is Accept
        }),
        host_quiesced(quiesced, command, maintenance_active) <==> command is Quiesce || (quiesced
            && !(command is Resume && !maintenance_active)),
{
}

/// A refusal says why.
pub proof fn refusals_say_why(refusal: Refusal)
    ensures
        refusal is RequestDuringMaintenance ==> refusal_text(refusal)
            == "MAINTENANCE_IN_PROGRESS: 资料维护期间不能提交 AI 任务"@,
        refusal is TestDuringMaintenance ==> refusal_text(refusal)
            == "MAINTENANCE_IN_PROGRESS: 资料维护期间不能测试连接"@,
        refusal is TestOwnedElsewhere ==> refusal_text(refusal)
            == "连接测试正由另一个拾阅进程管理，请在主界面重试"@,
        refusal is QuiesceAlreadyPending ==> refusal_text(refusal)
            == "KNOWLEDGE_QUIESCE_ALREADY_PENDING: safe point request already exists"@,
        refusal is QuiesceInProgress ==> refusal_text(refusal)
            == "KNOWLEDGE_QUIESCE_IN_PROGRESS: safe point is not ready"@,
        refusal is MaintenanceNotOver ==> refusal_text(refusal)
            == "MAINTENANCE_IN_PROGRESS: 资料维护尚未结束"@,
{
}

/// The executor begins with nothing: no lease, no work, and nothing asked of it;
/// it has seen what it is told that it has.
pub proof fn executors_begin_with_nothing(policy: ExecutorPolicy, cursor: i64, now: u64)
    ensures
        ({
            let e = begun(policy, cursor, now);
            &&& e.active.len() == 0
            &&& e.core.policy == policy
            &&& e.core.generation is None
            &&& !e.core.connection_running && !e.core.shutting_down
            &&& !e.core.maintenance_requested && !e.core.explicit_maintenance
            &&& !e.core.quiesce_pending && e.core.quiesce_force_at is None
            &&& e.core.shutdown_started is None && !e.core.watcher_faulted
            &&& e.core.cursor == cursor && e.core.last_heartbeat == now
            &&& e.core.last_lease_attempt is None && e.core.last_watch is None
        }),
{
}

} // verus!
