//! The decisions of the engine loop: when to watch, to hold the lease, to
//! start work, to answer a command and to reach a safe point.
//!
//! Times are milliseconds of one monotonic clock.

use vstd::prelude::*;

use crate::knowledge_workflow::failure::{sanitize_detail, sanitized};
use crate::knowledge_workflow::rows::TaskRow;
use crate::knowledge_workflow::engine_run::{after_event, begun, wants_lease, EngineEvent};
use crate::knowledge_workflow::types::{ConnectionState, KnowledgeNotice, TaskKey};

verus! {

/// How many provider calls run at once.
pub const MAX_CONCURRENCY: usize = 2;

pub const LEASE_HEARTBEAT_MILLIS: u64 = 5_000;

pub const LEASE_ATTEMPT_MILLIS: u64 = 1_000;

/// Part of a maintenance deadline that is kept for interrupting, releasing and
/// answering.
pub const QUIESCE_ACK_BUDGET_MILLIS: u64 = 1_000;

/// How long a plain shutdown waits for running work.
pub const SHUTDOWN_GRACE_MILLIS: u64 = 2_000;

#[derive(Debug, Clone, Copy, PartialEq, Eq, Structural)]
pub enum EngineCommand {
    Request { key: TaskKey },
    TestConnection,
    Observe { key: TaskKey },
    Quiesce { deadline: u64 },
    Resume,
    Shutdown,
}

#[derive(Debug, Clone, Copy, PartialEq, Eq, Structural)]
pub enum EngineExit {
    Shutdown,
    Maintenance { explicit: bool },
}

#[derive(Debug, Clone, Copy, PartialEq, Eq, Structural)]
pub enum ExecutorPolicy {
    Acquire,
    ObserveOnly,
}

/// Why a command is refused.
#[derive(Debug, Clone, Copy, PartialEq, Eq, Structural)]
pub enum Refusal {
    RequestDuringMaintenance,
    TestDuringMaintenance,
    TestOwnedElsewhere,
    QuiesceAlreadyPending,
    QuiesceInProgress,
    MaintenanceNotOver,
}

pub open spec fn refusal_text(refusal: Refusal) -> Seq<char> {
    match refusal {
        Refusal::RequestDuringMaintenance =>
            "MAINTENANCE_IN_PROGRESS: 资料维护期间不能提交 AI 任务"@,
        Refusal::TestDuringMaintenance => "MAINTENANCE_IN_PROGRESS: 资料维护期间不能测试连接"@,
        Refusal::TestOwnedElsewhere => "连接测试正由另一个拾阅进程管理，请在主界面重试"@,
        Refusal::QuiesceAlreadyPending =>
            "KNOWLEDGE_QUIESCE_ALREADY_PENDING: safe point request already exists"@,
        Refusal::QuiesceInProgress => "KNOWLEDGE_QUIESCE_IN_PROGRESS: safe point is not ready"@,
        Refusal::MaintenanceNotOver => "MAINTENANCE_IN_PROGRESS: 资料维护尚未结束"@,
    }
}

impl Refusal {
    pub fn text(self) -> (r: &'static str)
        ensures
            r@ == refusal_text(self),
    {
        match self {
            Refusal::RequestDuringMaintenance =>
                "MAINTENANCE_IN_PROGRESS: 资料维护期间不能提交 AI 任务",
            Refusal::TestDuringMaintenance => "MAINTENANCE_IN_PROGRESS: 资料维护期间不能测试连接",
            Refusal::TestOwnedElsewhere => "连接测试正由另一个拾阅进程管理，请在主界面重试",
            Refusal::QuiesceAlreadyPending =>
                "KNOWLEDGE_QUIESCE_ALREADY_PENDING: safe point request already exists",
            Refusal::QuiesceInProgress =>
                "KNOWLEDGE_QUIESCE_IN_PROGRESS: safe point is not ready",
            Refusal::MaintenanceNotOver => "MAINTENANCE_IN_PROGRESS: 资料维护尚未结束",
        }
    }
}

/// What the engine does about a command.
#[derive(Debug, Clone, Copy, PartialEq, Eq, Structural)]
pub enum CommandAction {
    Nothing,
    /// Ask the store and answer with its receipt.
    Request(TaskKey),
    Refuse(Refusal),
    Accept,
    /// Start a connection test for the generation, announce it and accept.
    TestConnection { generation: i64 },
    /// Read the key's snapshot and publish it.
    Publish(TaskKey),
    /// Answer when the safe point is reached.
    Defer,
}

/// Everything the loop remembers but the tasks it runs.
#[derive(Debug, Clone, Copy, PartialEq, Eq, Structural)]
pub struct EngineCore {
    pub policy: ExecutorPolicy,
    pub generation: Option<i64>,
    pub connection_running: bool,
    pub shutting_down: bool,
    pub maintenance_requested: bool,
    pub explicit_maintenance: bool,
    pub quiesce_pending: bool,
    pub quiesce_force_at: Option<u64>,
    pub shutdown_started: Option<u64>,
    pub watcher_faulted: bool,
    pub cursor: i64,
    pub last_lease_attempt: Option<u64>,
    pub last_heartbeat: u64,
    pub last_watch: Option<u64>,
}

/// The loop's memory. `active` holds the numbers of the tasks it runs.
#[derive(Debug)]
pub struct EngineState {
    pub core: EngineCore,
    pub active: Vec<i64>,
}

pub ghost struct EngineView {
    pub core: EngineCore,
    pub active: Seq<i64>,
}

impl View for EngineState {
    type V = EngineView;

    open spec fn view(&self) -> EngineView {
        EngineView { core: self.core, active: self.active@ }
    }
}

/// At least `interval` has gone by since `last`.
pub open spec fn elapsed(last: u64, now: u64, interval: u64) -> bool {
    now - last >= interval
}

pub open spec fn due_since(last: Option<u64>, now: u64, interval: u64) -> bool {
    match last {
        Some(time) => elapsed(time, now, interval),
        None => true,
    }
}

fn has_elapsed(last: u64, now: u64, interval: u64) -> (r: bool)
    ensures
        r == elapsed(last, now, interval),
{
    if now < last {
        interval == 0 && now == last
    } else {
        now - last >= interval
    }
}

/// Work is in progress or may begin at any time.
pub open spec fn engaged(core: EngineCore, active: Seq<i64>) -> bool {
    core.generation is Some || active.len() > 0 || core.connection_running
}

/// The answer to a command.
pub open spec fn action_for(core: EngineCore, command: EngineCommand) -> CommandAction {
    match command {
        EngineCommand::Request { key } => if core.maintenance_requested {
            CommandAction::Refuse(Refusal::RequestDuringMaintenance)
        } else {
            CommandAction::Request(key)
        },
        EngineCommand::TestConnection => if core.maintenance_requested {
            CommandAction::Refuse(Refusal::TestDuringMaintenance)
        } else {
            match core.generation {
                Some(generation) => if core.connection_running {
                    CommandAction::Accept
                } else {
                    CommandAction::TestConnection { generation }
                },
                None => CommandAction::Refuse(Refusal::TestOwnedElsewhere),
            }
        },
        EngineCommand::Observe { key } => CommandAction::Publish(key),
        EngineCommand::Quiesce { .. } => if core.quiesce_pending {
            CommandAction::Refuse(Refusal::QuiesceAlreadyPending)
        } else {
            CommandAction::Defer
        },
        EngineCommand::Resume => if core.maintenance_requested {
            CommandAction::Refuse(Refusal::QuiesceInProgress)
        } else {
            CommandAction::Accept
        },
        EngineCommand::Shutdown => CommandAction::Nothing,
    }
}

/// When a quiesce request stops waiting: some time before its deadline.
pub open spec fn force_time(deadline: u64) -> u64 {
    if deadline >= QUIESCE_ACK_BUDGET_MILLIS {
        (deadline - QUIESCE_ACK_BUDGET_MILLIS) as u64
    } else {
        deadline
    }
}

pub open spec fn after_command(core: EngineCore, command: EngineCommand, now: u64) -> EngineCore {
    match command {
        EngineCommand::TestConnection => EngineCore {
            connection_running: core.connection_running || action_for(
                core,
                command,
            ) is TestConnection,
            ..core
        },
        EngineCommand::Quiesce { deadline } => if core.quiesce_pending {
            core
        } else {
            EngineCore {
                shutting_down: true,
                maintenance_requested: true,
                explicit_maintenance: true,
                shutdown_started: Some(
                    match core.shutdown_started {
                        Some(time) => time,
                        None => now,
                    },
                ),
                quiesce_force_at: Some(force_time(deadline)),
                quiesce_pending: true,
                ..core
            }
        },
        EngineCommand::Shutdown => EngineCore { shutting_down: true, ..core },
        _ => core,
    }
}

/// How the loop ends: what to interrupt and release in the store, whether to
/// drop what the projection shows, and whether to answer a quiesce request.
#[derive(Debug, Clone, Copy, PartialEq, Eq, Structural)]
pub struct Departure {
    pub interrupt: Option<i64>,
    pub release: Option<i64>,
    pub clear_projection: bool,
    pub acknowledge: bool,
    pub exit: EngineExit,
}

/// Running work is waited for no longer.
pub open spec fn patience_over(core: EngineCore, now: u64) -> bool {
    match core.quiesce_force_at {
        Some(time) => now >= time,
        None => match core.shutdown_started {
            Some(started) => elapsed(started, now, SHUTDOWN_GRACE_MILLIS),
            None => false,
        },
    }
}

/// The safe point that the loop has reached, if it has.
pub open spec fn departure(core: EngineCore, active: Seq<i64>, now: u64) -> Option<Departure> {
    let idle = active.len() == 0 && !core.connection_running;
    if !core.shutting_down || (!idle && !patience_over(core, now)) {
        None
    } else {
        Some(
            Departure {
                interrupt: if idle {
                    None
                } else {
                    core.generation
                },
                release: core.generation,
                clear_projection: core.maintenance_requested,
                acknowledge: core.quiesce_pending,
                exit: if core.maintenance_requested {
                    EngineExit::Maintenance { explicit: core.explicit_maintenance }
                } else {
                    EngineExit::Shutdown
                },
            },
        )
    }
}

/// Another task may be started.
pub open spec fn may_start(core: EngineCore, active: Seq<i64>) -> bool {
    !core.shutting_down && core.generation is Some && active.len() + (if core.connection_running {
        1int
    } else {
        0
    }) < MAX_CONCURRENCY
}

/// The keys in the order of their first change, each once.
pub open spec fn coalesced(rows: Seq<TaskRow>) -> Seq<TaskKey>
    decreases rows.len(),
{
    if rows.len() == 0 {
        Seq::empty()
    } else {
        let front = coalesced(rows.drop_last());
        if front.contains(rows.last().key) {
            front
        } else {
            front.push(rows.last().key)
        }
    }
}

/// The latest tick among the rows, or `cursor` where none is later.
pub open spec fn latest_tick(rows: Seq<TaskRow>, cursor: i64) -> i64
    decreases rows.len(),
{
    if rows.len() == 0 {
        cursor
    } else {
        let front = latest_tick(rows.drop_last(), cursor);
        if rows.last().change_seq > front {
            rows.last().change_seq
        } else {
            front
        }
    }
}

fn holds_key(keys: &[TaskKey], key: TaskKey) -> (r: bool)
    ensures
        r == keys@.contains(key),
{
    let mut i: usize = 0;
    while i < keys.len()
        invariant
            i <= keys.len(),
            forall|k: int| 0 <= k < i ==> keys@[k] != key,
        decreases keys.len() - i,
    {
        if keys[i].kind == key.kind && keys[i].target_id == key.target_id {
            return true;
        }
        i += 1;
    }
    false
}

impl EngineState {
    pub fn new(policy: ExecutorPolicy, cursor: i64, now: u64) -> (r: EngineState)
        ensures
            r@ == begun(policy, cursor, now),
    {
        EngineState {
            core: EngineCore {
                policy,
                generation: None,
                connection_running: false,
                shutting_down: false,
                maintenance_requested: false,
                explicit_maintenance: false,
                quiesce_pending: false,
                quiesce_force_at: None,
                shutdown_started: None,
                watcher_faulted: false,
                cursor,
                last_lease_attempt: None,
                last_heartbeat: now,
                last_watch: None,
            },
            active: Vec::new(),
        }
    }

    /// Active data maintenance begins a shutdown.
    pub fn observe_maintenance(&mut self, active: bool)
        ensures
            final(self)@ == after_event(old(self)@, EngineEvent::Maintenance { active }),
    {
        if active && !self.core.shutting_down {
            self.core.shutting_down = true;
            self.core.maintenance_requested = true;
        }
    }

    pub fn task_finished(&mut self, task_id: i64)
        ensures
            final(self)@ == after_event(old(self)@, EngineEvent::Finished { task_id }),
    {
        let ghost keep = |id: i64| id != task_id;
        let mut left: Vec<i64> = Vec::new();
        let mut i: usize = 0;
        proof {
            reveal(Seq::filter);
        }
        while i < self.active.len()
            invariant
                i <= self.active.len(),
                *self == *old(self),
                keep == (|id: i64| id != task_id),
                left@ == self.active@.take(i as int).filter(keep),
            decreases self.active.len() - i,
        {
            proof {
                reveal(Seq::filter);
                assert(self.active@.take(i + 1).drop_last() =~= self.active@.take(i as int));
                assert(self.active@.take(i + 1).last() == self.active@[i as int]);
            }
            if self.active[i] != task_id {
                left.push(self.active[i]);
            }
            i += 1;
        }
        proof {
            assert(self.active@.take(self.active@.len() as int) =~= self.active@);
        }
        self.active = left;
    }

    /// What a finished connection test shows. A result of a lost generation
    /// does not count.
    pub fn connection_finished(
        &mut self,
        generation: i64,
        owns_lease: bool,
        result: Result<String, String>,
    ) -> (r: ConnectionState)
        ensures
            final(self)@ == after_event(old(self)@, EngineEvent::ConnectionFinished),
            if old(self).core.generation == Some(generation) && owns_lease {
                match result {
                    Ok(message) => r == ConnectionState::Succeeded(message),
                    Err(detail) => r == (ConnectionState::Failed { detail }),
                }
            } else {
                r is Failed && r->detail@ == "执行权已转移，请重新测试连接"@
            },
    {
        self.core.connection_running = false;
        let current: bool = match self.core.generation {
            Some(held) => held == generation,
            None => false,
        };
        if current && owns_lease {
            match result {
                Ok(message) => ConnectionState::Succeeded(message),
                Err(detail) => ConnectionState::Failed { detail },
            }
        } else {
            ConnectionState::Failed { detail: "执行权已转移，请重新测试连接".to_owned() }
        }
    }

    /// Whether the stored changes are read now: often while work may go on,
    /// seldom otherwise. Reading is noted.
    pub fn begin_watch(&mut self, now: u64) -> (r: bool)
        ensures
            r == due_since(
                old(self).core.last_watch,
                now,
                if engaged(old(self).core, old(self).active@) {
                    200
                } else {
                    1_000
                },
            ),
            final(self)@ == after_event(old(self)@, EngineEvent::Watch { now }),
    {
        let interval: u64 = if self.core.generation.is_some() || self.active.len() > 0
            || self.core.connection_running {
            200
        } else {
            1_000
        };
        let is_due: bool = match self.core.last_watch {
            Some(time) => has_elapsed(time, now, interval),
            None => true,
        };
        if is_due {
            self.core.last_watch = Some(now);
        }
        is_due
    }

    /// Takes in the changes that were read. Gives the changed keys, each once,
    /// and a notice where reading had failed before.
    pub fn changes_read(&mut self, rows: &[TaskRow]) -> (r: (Vec<TaskKey>, Option<KnowledgeNotice>))
        ensures
            final(self)@ == after_event(
                old(self)@,
                EngineEvent::ChangesRead { cursor: latest_tick(rows@, old(self).core.cursor) },
            ),
            r.0@ == coalesced(rows@),
            match r.1 {
                Some(notice) => old(self).core.watcher_faulted && notice is ModuleFault
                    && notice->user_message@ == "后台任务状态观察已恢复"@
                    && notice->technical_detail@ == "knowledge change watcher recovered"@,
                None => !old(self).core.watcher_faulted,
            },
    {
        let notice = if self.core.watcher_faulted {
            Some(
                KnowledgeNotice::ModuleFault {
                    user_message: "后台任务状态观察已恢复".to_owned(),
                    technical_detail: "knowledge change watcher recovered".to_owned(),
                },
            )
        } else {
            None
        };
        self.core.watcher_faulted = false;
        let mut keys: Vec<TaskKey> = Vec::new();
        let mut cursor: i64 = self.core.cursor;
        let mut i: usize = 0;
        while i < rows.len()
            invariant
                i <= rows.len(),
                self.core == (EngineCore { watcher_faulted: false, ..old(self).core }),
                self.active@ == old(self).active@,
                keys@ == coalesced(rows@.take(i as int)),
                cursor == latest_tick(rows@.take(i as int), old(self).core.cursor),
            decreases rows.len() - i,
        {
            proof {
                assert(rows@.take(i + 1).drop_last() =~= rows@.take(i as int));
                assert(rows@.take(i + 1).last() == rows@[i as int]);
            }
            let row = rows[i];
            if row.change_seq > cursor {
                cursor = row.change_seq;
            }
            if !holds_key(&keys, row.key) {
                keys.push(row.key);
            }
            i += 1;
        }
        proof {
            assert(rows@.take(rows@.len() as int) =~= rows@);
        }
        self.core.cursor = cursor;
        (keys, notice)
    }

    /// The changes could not be read: told once, until reading works again.
    pub fn changes_unreadable(&mut self, description: &str) -> (r: Option<KnowledgeNotice>)
        ensures
            final(self)@ == after_event(old(self)@, EngineEvent::ChangesUnreadable),
            match r {
                Some(notice) => !old(self).core.watcher_faulted && notice is ModuleFault
                    && notice->user_message@ == "暂时无法读取后台任务状态，正在重试"@
                    && notice->technical_detail@ == sanitized(description@),
                None => old(self).core.watcher_faulted,
            },
    {
        if self.core.watcher_faulted {
            None
        } else {
            self.core.watcher_faulted = true;
            Some(
                KnowledgeNotice::ModuleFault {
                    user_message: "暂时无法读取后台任务状态，正在重试".to_owned(),
                    technical_detail: sanitize_detail(description),
                },
            )
        }
    }

    /// Whether the lease is to be asked for now. Asking is noted.
    pub fn begin_lease_attempt(&mut self, now: u64) -> (r: bool)
        ensures
            r == (wants_lease(old(self).core) && due_since(
                old(self).core.last_lease_attempt,
                now,
                LEASE_ATTEMPT_MILLIS,
            )),
            final(self)@ == after_event(old(self)@, EngineEvent::LeaseAttempt { now }),
    {
        let wants: bool = !self.core.shutting_down && matches!(
            self.core.policy,
            ExecutorPolicy::Acquire
        ) && self.core.generation.is_none();
        let is_due: bool = match self.core.last_lease_attempt {
            Some(time) => has_elapsed(time, now, LEASE_ATTEMPT_MILLIS),
            None => true,
        };
        if wants && is_due {
            self.core.last_lease_attempt = Some(now);
            true
        } else {
            false
        }
    }

    /// The lease came to a loop that had asked for it.
    pub fn lease_acquired(&mut self, generation: i64, now: u64)
        requires
            wants_lease(old(self).core),
        ensures
            final(self)@ == after_event(old(self)@, EngineEvent::LeaseAcquired { generation, now }),
    {
        self.core.generation = Some(generation);
        self.core.last_heartbeat = now;
    }

    /// The generation for which a heartbeat is to be told now.
    pub fn heartbeat_due(&self, now: u64) -> (r: Option<i64>)
        ensures
            r == (if !self.core.shutting_down && self.core.policy is Acquire && elapsed(
                self.core.last_heartbeat,
                now,
                LEASE_HEARTBEAT_MILLIS,
            ) {
                self.core.generation
            } else {
                None
            }),
            r is Some ==> r == self.core.generation && now - self.core.last_heartbeat >= 5_000,
            !self.core.shutting_down && self.core.policy is Acquire && now
                - self.core.last_heartbeat >= 5_000 ==> r == self.core.generation,
    {
        if !self.core.shutting_down && matches!(self.core.policy, ExecutorPolicy::Acquire)
            && has_elapsed(self.core.last_heartbeat, now, LEASE_HEARTBEAT_MILLIS) {
            self.core.generation
        } else {
            None
        }
    }

    /// A heartbeat that was not accepted means that the lease is lost.
    pub fn heartbeat_told(&mut self, owned: bool, now: u64)
        ensures
            final(self)@ == after_event(old(self)@, EngineEvent::Heartbeat { owned, now }),
    {
        if owned {
            self.core.last_heartbeat = now;
        } else {
            self.core.generation = None;
        }
    }

    /// Whether the loop ends here. A shutdown notes when it began.
    pub fn safe_point(&mut self, now: u64) -> (r: Option<Departure>)
        ensures
            final(self)@ == after_event(old(self)@, EngineEvent::SafePoint { now }),
            r == departure(final(self).core, final(self).active@, now),
    {
        if !self.core.shutting_down {
            return None;
        }
        let started: u64 = match self.core.shutdown_started {
            Some(time) => time,
            None => now,
        };
        self.core.shutdown_started = Some(started);
        let idle: bool = self.active.len() == 0 && !self.core.connection_running;
        let over: bool = match self.core.quiesce_force_at {
            Some(time) => now >= time,
            None => has_elapsed(started, now, SHUTDOWN_GRACE_MILLIS),
        };
        if idle || over {
            let exit = if self.core.maintenance_requested {
                EngineExit::Maintenance { explicit: self.core.explicit_maintenance }
            } else {
                EngineExit::Shutdown
            };
            Some(
                Departure {
                    interrupt: if idle { None } else { self.core.generation },
                    release: self.core.generation,
                    clear_projection: self.core.maintenance_requested,
                    acknowledge: self.core.quiesce_pending,
                    exit,
                },
            )
        } else {
            None
        }
    }

    /// The generation for which another task may be claimed now.
    pub fn claim_generation(&self) -> (r: Option<i64>)
        ensures
            r == (if may_start(self.core, self.active@) {
                self.core.generation
            } else {
                None
            }),
    {
        let busy: usize = if self.core.connection_running { 1 } else { 0 };
        if !self.core.shutting_down && self.active.len() < MAX_CONCURRENCY - busy {
            self.core.generation
        } else {
            None
        }
    }

    pub fn task_started(&mut self, task_id: i64)
        requires
            may_start(old(self).core, old(self).active@),
        ensures
            final(self)@ == after_event(old(self)@, EngineEvent::Claimed { task_id }),
            final(self).active@.len() + (if final(self).core.connection_running {
                1int
            } else {
                0
            }) <= MAX_CONCURRENCY,
    {
        self.active.push(task_id);
    }

    /// Decides about a command.
    pub fn command(&mut self, command: EngineCommand, now: u64) -> (r: CommandAction)
        ensures
            r == action_for(old(self).core, command),
            final(self)@ == after_event(old(self)@, EngineEvent::Command { command, now }),
    {
        match command {
            EngineCommand::Request { key } => if self.core.maintenance_requested {
                CommandAction::Refuse(Refusal::RequestDuringMaintenance)
            } else {
                CommandAction::Request(key)
            },
            EngineCommand::TestConnection => if self.core.maintenance_requested {
                CommandAction::Refuse(Refusal::TestDuringMaintenance)
            } else {
                match self.core.generation {
                    Some(generation) => if self.core.connection_running {
                        CommandAction::Accept
                    } else {
                        self.core.connection_running = true;
                        CommandAction::TestConnection { generation }
                    },
                    None => CommandAction::Refuse(Refusal::TestOwnedElsewhere),
                }
            },
            EngineCommand::Observe { key } => CommandAction::Publish(key),
            EngineCommand::Quiesce { deadline } => if self.core.quiesce_pending {
                CommandAction::Refuse(Refusal::QuiesceAlreadyPending)
            } else {
                self.core.shutting_down = true;
                self.core.maintenance_requested = true;
                self.core.explicit_maintenance = true;
                if self.core.shutdown_started.is_none() {
                    self.core.shutdown_started = Some(now);
                }
                self.core.quiesce_force_at = Some(
                    if deadline >= QUIESCE_ACK_BUDGET_MILLIS {
                        deadline - QUIESCE_ACK_BUDGET_MILLIS
                    } else {
                        deadline
                    },
                );
                self.core.quiesce_pending = true;
                CommandAction::Defer
            },
            EngineCommand::Resume => if self.core.maintenance_requested {
                CommandAction::Refuse(Refusal::QuiesceInProgress)
            } else {
                CommandAction::Accept
            },
            EngineCommand::Shutdown => {
                self.core.shutting_down = true;
                CommandAction::Nothing
            },
        }
    }
}

// ---- the host around the loop -----------------------------------------------

/// What the host does about a command while the loop does not run.
#[derive(Debug, Clone, Copy, PartialEq, Eq, Structural)]
pub enum HostAction {
    Wait,
    Stop,
    Accept,
    Refuse(Refusal),
}

pub open spec fn host_answer(command: EngineCommand, maintenance_active: bool) -> HostAction {
    match command {
        EngineCommand::Shutdown => HostAction::Stop,
        EngineCommand::Request { .. } => HostAction::Refuse(Refusal::RequestDuringMaintenance),
        EngineCommand::TestConnection => HostAction::Refuse(Refusal::TestDuringMaintenance),
        EngineCommand::Observe { .. } => HostAction::Wait,
        EngineCommand::Quiesce { .. } => HostAction::Accept,
        EngineCommand::Resume => if maintenance_active {
            HostAction::Refuse(Refusal::MaintenanceNotOver)
        } else {
            HostAction::Accept
        },
    }
}

pub open spec fn host_quiesced(
    quiesced: bool,
    command: EngineCommand,
    maintenance_active: bool,
) -> bool {
    match command {
        EngineCommand::Quiesce { .. } => true,
        EngineCommand::Resume => quiesced && maintenance_active,
        _ => quiesced,
    }
}

/// Decides about a command that arrives while the host waits. Gives the
/// answer and whether the host stays quiesced by request.
pub fn host_command(quiesced: bool, command: EngineCommand, maintenance_active: bool) -> (r: (
    HostAction,
    bool,
))
    ensures
        r.0 == host_answer(command, maintenance_active),
        r.1 == host_quiesced(quiesced, command, maintenance_active),
{
    match command {
        EngineCommand::Shutdown => (HostAction::Stop, quiesced),
        EngineCommand::Request { .. } => (
            HostAction::Refuse(Refusal::RequestDuringMaintenance),
            quiesced,
        ),
        EngineCommand::TestConnection => (
            HostAction::Refuse(Refusal::TestDuringMaintenance),
            quiesced,
        ),
        EngineCommand::Observe { .. } => (HostAction::Wait, quiesced),
        EngineCommand::Quiesce { .. } => (HostAction::Accept, true),
        EngineCommand::Resume => if maintenance_active {
            (HostAction::Refuse(Refusal::MaintenanceNotOver), quiesced)
        } else {
            (HostAction::Accept, false)
        },
    }
}

/// How the loop ended, as the host sees it.
#[derive(Debug)]
pub enum LoopEnd {
    Exit(EngineExit),
    /// A write was rejected because maintenance began meanwhile.
    Rejected,
    Failed { description: String },
}

/// What the host does next: wait, quiesced by request or not, or stop.
#[derive(Debug)]
pub enum HostNext {
    Wait { quiesced: bool },
    Stop,
    StopWith(KnowledgeNotice),
}

pub fn after_loop(end: LoopEnd) -> (r: HostNext)
    ensures
        match end {
            LoopEnd::Exit(EngineExit::Maintenance { explicit }) => r == (HostNext::Wait {
                quiesced: explicit,
            }),
            LoopEnd::Exit(EngineExit::Shutdown) => r is Stop,
            LoopEnd::Rejected => r == (HostNext::Wait { quiesced: false }),
            LoopEnd::Failed { description } => r is StopWith && r->StopWith_0 is ModuleFault
                && r->StopWith_0->user_message@ == "后台知识处理模块已停止"@
                && r->StopWith_0->technical_detail@ == sanitized(description@),
        },
{
    match end {
        LoopEnd::Exit(EngineExit::Maintenance { explicit }) => HostNext::Wait { quiesced: explicit },
        LoopEnd::Exit(EngineExit::Shutdown) => HostNext::Stop,
        LoopEnd::Rejected => HostNext::Wait { quiesced: false },
        LoopEnd::Failed { description } => HostNext::StopWith(
            KnowledgeNotice::ModuleFault {
                user_message: "后台知识处理模块已停止".to_owned(),
                technical_detail: sanitize_detail(&description),
            },
        ),
    }
}

// ---- laws -------------------------------------------------------------------

/// A loop that shuts down keeps shutting down, and starts nothing more.
pub proof fn shutting_down_is_final(
    core: EngineCore,
    active: Seq<i64>,
    command: EngineCommand,
    now: u64,
)
    requires
        core.shutting_down,
    ensures
        after_command(core, command, now).shutting_down,
        !may_start(after_command(core, command, now), active),
{
}

/// A loop that was asked for maintenance refuses requests and tests, whatever
/// else was asked before.
pub proof fn maintenance_refuses_work(core: EngineCore, earlier: EngineCommand, key: TaskKey, now: u64)
    requires
        core.maintenance_requested,
    ensures
        action_for(after_command(core, earlier, now), EngineCommand::Request { key })
            == CommandAction::Refuse(Refusal::RequestDuringMaintenance),
        action_for(after_command(core, earlier, now), EngineCommand::TestConnection)
            == CommandAction::Refuse(Refusal::TestDuringMaintenance),
{
}

/// A quiesce request is answered in time: once it was taken, the loop leaves
/// at the latest when the budget before its deadline begins, and it answers
/// then. Work that still runs is interrupted.
pub proof fn quiesce_is_acknowledged_in_time(
    core: EngineCore,
    active: Seq<i64>,
    deadline: u64,
    asked: u64,
    now: u64,
)
    requires
        !core.quiesce_pending,
        deadline >= QUIESCE_ACK_BUDGET_MILLIS,
        now >= deadline - QUIESCE_ACK_BUDGET_MILLIS,
    ensures
        ({
            let taken = after_command(core, EngineCommand::Quiesce { deadline }, asked);
            let leave = departure(taken, active, now);
            &&& leave is Some
            &&& leave->0.acknowledge
            &&& leave->0.clear_projection
            &&& leave->0.exit == (EngineExit::Maintenance { explicit: true })
            &&& active.len() > 0 ==> leave->0.interrupt == core.generation
            &&& leave->0.release == core.generation
        }),
{
}

/// Before that time, a loop that still works does not leave.
pub proof fn quiesce_lets_work_finish(
    core: EngineCore,
    active: Seq<i64>,
    deadline: u64,
    asked: u64,
    now: u64,
)
    requires
        !core.quiesce_pending,
        active.len() > 0,
        now < force_time(deadline),
    ensures
        departure(
            after_command(core, EngineCommand::Quiesce { deadline }, asked),
            active,
            now,
        ) is None,
{
}

/// The watched keys are those of the changed rows, each once, and the cursor
/// never goes back.
pub proof fn watching_misses_no_change(rows: Seq<TaskRow>, cursor: i64)
    ensures
        coalesced(rows).no_duplicates(),
        forall|i: int| 0 <= i < rows.len() ==> coalesced(rows).contains((#[trigger] rows[i]).key),
        forall|i: int| 0 <= i < rows.len() ==> (#[trigger] rows[i]).change_seq <= latest_tick(rows, cursor),
        latest_tick(rows, cursor) >= cursor,
    decreases rows.len(),
{
    if rows.len() > 0 {
        let front = rows.drop_last();
        watching_misses_no_change(front, cursor);
        let last = rows.last().key;
        assert forall|i: int| 0 <= i < rows.len() implies coalesced(rows).contains(
            (#[trigger] rows[i]).key,
        ) by {
            if i < front.len() {
                assert(front[i] == rows[i]);
                let k = choose|k: int|
                    0 <= k < coalesced(front).len() && coalesced(front)[k] == rows[i].key;
                assert(coalesced(rows)[k] == rows[i].key);
            } else if !coalesced(front).contains(last) {
                assert(coalesced(rows)[coalesced(front).len() as int] == last);
            }
        }
        assert forall|i: int| 0 <= i < rows.len() implies (
        #[trigger] rows[i]).change_seq <= latest_tick(rows, cursor) by {
            if i < front.len() {
                assert(front[i] == rows[i]);
            }
        }
    }
}

} // verus!
