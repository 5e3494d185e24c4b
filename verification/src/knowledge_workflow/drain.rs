//! Interrupting, removing and listing tasks.

use vstd::prelude::*;

use crate::knowledge_workflow::rows::{
    attempt_changed, attempt_stopped, open_run, run_failed, task_changed, AttemptChange, AttemptRow,
    AttemptView, RunRow, RunView, TaskChange, TaskRow,
};
use crate::knowledge_workflow::select::count_where;
use crate::knowledge_workflow::store::{
    attempt_views, owns, run_views, StoreFailure, StoreView, WorkflowStore, RETENTION_SECONDS,
};
use crate::knowledge_workflow::types::{
    pending, terminal, ErrorKind, TaskKey, TaskKind, TaskStatus,
};

verus! {

/// A flag for each task.
pub open spec fn flags_of(tasks: Seq<TaskRow>, hit: spec_fn(TaskRow) -> bool) -> Seq<bool> {
    tasks.map_values(|t: TaskRow| hit(t))
}

/// A task of this number is hit.
pub open spec fn hits(tasks: Seq<TaskRow>, hit: spec_fn(TaskRow) -> bool, id: i64) -> bool {
    exists|i: int| 0 <= i < tasks.len() && (#[trigger] tasks[i]).id == id && hit(tasks[i])
}

/// Each hit task is interrupted and stamped with a tick of its own, in row order.
pub open spec fn tasks_interrupted(
    tasks: Seq<TaskRow>,
    hit: spec_fn(TaskRow) -> bool,
    clock: i64,
    now: i64,
) -> Seq<TaskRow> {
    Seq::new(
        tasks.len(),
        |i: int|
            if hit(tasks[i]) {
                task_changed(
                    tasks[i],
                    TaskChange::Interrupt { now },
                    (clock + count_where(tasks.take(i + 1), hit)) as i64,
                )
            } else {
                tasks[i]
            },
    )
}

/// The attempt of a hit task that the interruption stops.
pub open spec fn stopped_by(
    tasks: Seq<TaskRow>,
    hit: spec_fn(TaskRow) -> bool,
    generation: Option<i64>,
    a: AttemptView,
) -> bool {
    a.status is Running && (generation is Some ==> a.claim_generation == generation) && hits(
        tasks,
        hit,
        a.task_id,
    )
}

/// The run belongs to an attempt of a hit task.
pub open spec fn run_of_hit(
    s: StoreView,
    hit: spec_fn(TaskRow) -> bool,
    r: RunView,
) -> bool {
    exists|i: int|
        0 <= i < s.attempts.len() && (#[trigger] s.attempts[i]).id == r.attempt_id && hits(
            s.tasks,
            hit,
            s.attempts[i].task_id,
        )
}

/// The hit tasks, their running attempts and their open runs are interrupted.
pub open spec fn interrupted(
    s: StoreView,
    hit: spec_fn(TaskRow) -> bool,
    generation: Option<i64>,
    user_message: Seq<char>,
    detail: Seq<char>,
    run_message: Seq<char>,
    now: i64,
) -> StoreView {
    StoreView {
        tasks: tasks_interrupted(s.tasks, hit, s.clock, now),
        attempts: s.attempts.map_values(
            |a: AttemptView|
                if stopped_by(s.tasks, hit, generation, a) {
                    attempt_stopped(
                        a,
                        TaskStatus::Interrupted,
                        now,
                        ErrorKind::Interrupted,
                        user_message,
                        detail,
                    )
                } else {
                    a
                },
        ),
        runs: s.runs.map_values(
            |r: RunView|
                if open_run(r.status) && run_of_hit(s, hit, r) {
                    run_failed(r, now, "EXECUTOR_INTERRUPTED"@, run_message)
                } else {
                    r
                },
        ),
        clock: (s.clock + count_where(s.tasks, hit)) as i64,
        ..s
    }
}

fn interrupt_tasks(
    tasks: &mut Vec<TaskRow>,
    flags: &Vec<bool>,
    Ghost(hit): Ghost<spec_fn(TaskRow) -> bool>,
    clock: i64,
    now: i64,
) -> (r: i64)
    requires
        flags@ == flags_of(old(tasks)@, hit),
        clock + old(tasks)@.len() <= i64::MAX,
    ensures
        final(tasks)@ == tasks_interrupted(old(tasks)@, hit, clock, now),
        r == clock + count_where(old(tasks)@, hit),
{
    let ghost before = tasks@;
    let mut seq: i64 = clock;
    let mut i: usize = 0;
    while i < tasks.len()
        invariant
            i <= tasks.len(),
            tasks.len() == before.len(),
            flags@ == flags_of(before, hit),
            clock + before.len() <= i64::MAX,
            seq == clock + count_where(before.take(i as int), hit),
            seq <= clock + i,
            forall|k: int|
                0 <= k < i ==> #[trigger] tasks@[k] == tasks_interrupted(
                    before,
                    hit,
                    clock,
                    now,
                )[k],
            forall|k: int| i <= k < before.len() ==> #[trigger] tasks@[k] == before[k],
        decreases tasks.len() - i,
    {
        proof {
            assert(before.take(i + 1).drop_last() =~= before.take(i as int));
            assert(before.take(i + 1).last() == before[i as int]);
            assert(flags@[i as int] == hit(before[i as int]));
        }
        if flags[i] {
            seq = seq + 1;
            let row = tasks[i];
            tasks.set(i, row.changed(TaskChange::Interrupt { now }, seq));
        }
        i += 1;
    }
    proof {
        assert(before.take(before.len() as int) =~= before);
        assert(tasks@ =~= tasks_interrupted(before, hit, clock, now));
    }
    seq
}

/// Whether a flagged task has this number.
fn flagged(
    tasks: &Vec<TaskRow>,
    flags: &Vec<bool>,
    Ghost(hit): Ghost<spec_fn(TaskRow) -> bool>,
    id: i64,
) -> (r: bool)
    requires
        flags@ == flags_of(tasks@, hit),
    ensures
        r == hits(tasks@, hit, id),
{
    let mut i: usize = 0;
    while i < tasks.len()
        invariant
            i <= tasks.len(),
            flags@ == flags_of(tasks@, hit),
            forall|k: int|
                0 <= k < i ==> !((#[trigger] tasks@[k]).id == id && hit(tasks@[k])),
        decreases tasks.len() - i,
    {
        proof {
            assert(flags@[i as int] == hit(tasks@[i as int]));
        }
        if tasks[i].id == id && flags[i] {
            return true;
        }
        i += 1;
    }
    false
}

fn stop_attempts(
    attempts: &mut Vec<AttemptRow>,
    tasks: &Vec<TaskRow>,
    flags: &Vec<bool>,
    Ghost(hit): Ghost<spec_fn(TaskRow) -> bool>,
    generation: Option<i64>,
    change: &AttemptChange,
)
    requires
        flags@ == flags_of(tasks@, hit),
    ensures
        attempt_views(final(attempts)@) == attempt_views(old(attempts)@).map_values(
            |a: AttemptView|
                if stopped_by(tasks@, hit, generation, a) {
                    attempt_changed(a, *change)
                } else {
                    a
                },
        ),
{
    let ghost before = attempts@;
    let mut i: usize = 0;
    while i < attempts.len()
        invariant
            i <= attempts.len(),
            attempts.len() == before.len(),
            flags@ == flags_of(tasks@, hit),
            forall|k: int|
                0 <= k < i ==> (#[trigger] attempts@[k])@ == (if stopped_by(
                    tasks@,
                    hit,
                    generation,
                    before[k]@,
                ) {
                    attempt_changed(before[k]@, *change)
                } else {
                    before[k]@
                }),
            forall|k: int| i <= k < before.len() ==> #[trigger] attempts@[k] == before[k],
        decreases attempts.len() - i,
    {
        let of_generation: bool = match generation {
            None => true,
            Some(wanted) => match attempts[i].claim_generation {
                Some(claimed) => claimed == wanted,
                None => false,
            },
        };
        if matches!(attempts[i].status, TaskStatus::Running) && of_generation && flagged(
            tasks,
            flags,
            Ghost(hit),
            attempts[i].task_id,
        ) {
            let row = attempts[i].changed(change);
            attempts.set(i, row);
        }
        i += 1;
    }
    proof {
        assert(attempt_views(attempts@) =~= attempt_views(before).map_values(
            |a: AttemptView|
                if stopped_by(tasks@, hit, generation, a) {
                    attempt_changed(a, *change)
                } else {
                    a
                },
        ));
    }
}

/// Whether an attempt of a flagged task has this number.
fn attempt_of_flagged(
    attempts: &Vec<AttemptRow>,
    tasks: &Vec<TaskRow>,
    flags: &Vec<bool>,
    Ghost(hit): Ghost<spec_fn(TaskRow) -> bool>,
    id: i64,
) -> (r: bool)
    requires
        flags@ == flags_of(tasks@, hit),
    ensures
        r == (exists|i: int|
            0 <= i < attempts@.len() && (#[trigger] attempt_views(attempts@)[i]).id == id && hits(
                tasks@,
                hit,
                attempt_views(attempts@)[i].task_id,
            )),
{
    let mut i: usize = 0;
    while i < attempts.len()
        invariant
            i <= attempts.len(),
            flags@ == flags_of(tasks@, hit),
            forall|k: int|
                0 <= k < i ==> !((#[trigger] attempt_views(attempts@)[k]).id == id && hits(
                    tasks@,
                    hit,
                    attempt_views(attempts@)[k].task_id,
                )),
        decreases attempts.len() - i,
    {
        if attempts[i].id == id && flagged(tasks, flags, Ghost(hit), attempts[i].task_id) {
            proof {
                assert(attempt_views(attempts@)[i as int].id == id);
            }
            return true;
        }
        i += 1;
    }
    false
}

fn interrupt_runs(
    runs: &mut Vec<RunRow>,
    attempts: &Vec<AttemptRow>,
    tasks: &Vec<TaskRow>,
    flags: &Vec<bool>,
    Ghost(hit): Ghost<spec_fn(TaskRow) -> bool>,
    Ghost(s): Ghost<StoreView>,
    message: &str,
    now: i64,
)
    requires
        flags@ == flags_of(tasks@, hit),
        s.attempts == attempt_views(attempts@),
        s.tasks == tasks@,
    ensures
        run_views(final(runs)@) == run_views(old(runs)@).map_values(
            |r: RunView|
                if open_run(r.status) && run_of_hit(s, hit, r) {
                    run_failed(r, now, "EXECUTOR_INTERRUPTED"@, message@)
                } else {
                    r
                },
        ),
{
    let ghost before = runs@;
    let mut i: usize = 0;
    while i < runs.len()
        invariant
            i <= runs.len(),
            runs.len() == before.len(),
            flags@ == flags_of(tasks@, hit),
            s.attempts == attempt_views(attempts@),
            s.tasks == tasks@,
            forall|k: int|
                0 <= k < i ==> (#[trigger] runs@[k])@ == (if open_run(before[k]@.status)
                    && run_of_hit(s, hit, before[k]@) {
                    run_failed(before[k]@, now, "EXECUTOR_INTERRUPTED"@, message@)
                } else {
                    before[k]@
                }),
            forall|k: int| i <= k < before.len() ==> #[trigger] runs@[k] == before[k],
        decreases runs.len() - i,
    {
        if runs[i].is_open() && attempt_of_flagged(
            attempts,
            tasks,
            flags,
            Ghost(hit),
            runs[i].attempt_id,
        ) {
            proof {
                assert(run_of_hit(s, hit, before[i as int]@));
            }
            let row = runs[i].failed(now, "EXECUTOR_INTERRUPTED", message);
            runs.set(i, row);
        }
        i += 1;
    }
    proof {
        assert(run_views(runs@) =~= run_views(before).map_values(
            |r: RunView|
                if open_run(r.status) && run_of_hit(s, hit, r) {
                    run_failed(r, now, "EXECUTOR_INTERRUPTED"@, message@)
                } else {
                    r
                },
        ));
    }
}

/// The task runs, but not for `generation`: its executor is gone.
pub open spec fn stale(s: StoreView, generation: i64) -> spec_fn(TaskRow) -> bool {
    |t: TaskRow|
        t.status is Running && exists|i: int|
            0 <= i < s.attempts.len() && (#[trigger] s.attempts[i]).task_id == t.id
                && s.attempts[i].status is Running && s.attempts[i].claim_generation != Some(
                generation,
            )
}

/// A running attempt of the task was claimed in `generation`.
pub open spec fn executed_by(s: StoreView, generation: i64) -> spec_fn(TaskRow) -> bool {
    |t: TaskRow|
        exists|i: int|
            0 <= i < s.attempts.len() && (#[trigger] s.attempts[i]).task_id == t.id
                && s.attempts[i].status is Running && s.attempts[i].claim_generation == Some(
                generation,
            )
}

impl WorkflowStore {
    /// Flags the tasks with a running attempt of the generation, or of another one.
    fn flag_running(&self, generation: i64, of_generation: bool, running_only: bool) -> (r: Vec<
        bool,
    >)
        requires
            of_generation != running_only,
        ensures
            r@ == flags_of(
                self@.tasks,
                if of_generation {
                    executed_by(self@, generation)
                } else {
                    stale(self@, generation)
                },
            ),
    {
        let ghost hit = if of_generation {
            executed_by(self@, generation)
        } else {
            stale(self@, generation)
        };
        let mut flags: Vec<bool> = Vec::new();
        let mut t: usize = 0;
        while t < self.tasks.len()
            invariant
                t <= self.tasks.len(),
                of_generation != running_only,
                hit == (if of_generation {
                    executed_by(self@, generation)
                } else {
                    stale(self@, generation)
                }),
                flags@ == flags_of(self@.tasks.take(t as int), hit),
            decreases self.tasks.len() - t,
        {
            let id: i64 = self.tasks[t].id;
            let mut found: bool = false;
            let mut i: usize = 0;
            while i < self.attempts.len() && !found
                invariant
                    i <= self.attempts.len(),
                    t < self.tasks.len(),
                    id == self.tasks@[t as int].id,
                    found ==> exists|k: int|
                        0 <= k < self@.attempts.len() && (#[trigger] self@.attempts[k]).task_id
                            == id && self@.attempts[k].status is Running && (
                        self@.attempts[k].claim_generation == Some(generation)) == of_generation,
                    !found ==> forall|k: int|
                        0 <= k < i ==> !((#[trigger] self@.attempts[k]).task_id == id
                            && self@.attempts[k].status is Running && (
                        self@.attempts[k].claim_generation == Some(generation)) == of_generation),
                decreases self.attempts.len() - i,
            {
                let row = &self.attempts[i];
                let claimed: bool = match row.claim_generation {
                    Some(value) => value == generation,
                    None => false,
                };
                if row.task_id == id && matches!(row.status, TaskStatus::Running) && claimed
                    == of_generation {
                    found = true;
                }
                proof {
                    assert(self@.attempts[i as int] == row@);
                }
                i += 1;
            }
            let running: bool = matches!(self.tasks[t].status, TaskStatus::Running);
            let flag: bool = found && (running || !running_only);
            proof {
                let row = self@.tasks[t as int];
                assert(flag == hit(row));
                assert(flags_of(self@.tasks.take(t + 1), hit) =~= flags_of(
                    self@.tasks.take(t as int),
                    hit,
                ).push(hit(row)));
            }
            flags.push(flag);
            t += 1;
        }
        proof {
            assert(self@.tasks.take(self@.tasks.len() as int) =~= self@.tasks);
        }
        flags
    }

    fn interrupt(
        &mut self,
        flags: Vec<bool>,
        Ghost(hit): Ghost<spec_fn(TaskRow) -> bool>,
        generation: Option<i64>,
        user_message: &str,
        detail: &str,
        run_message: &str,
        now: i64,
    )
        requires
            old(self)@.has_room(),
            flags@ == flags_of(old(self)@.tasks, hit),
        ensures
            final(self)@ == interrupted(
                old(self)@,
                hit,
                generation,
                user_message@,
                detail@,
                run_message@,
                now,
            ),
    {
        let ghost before = self@;
        let change = AttemptChange::Stopped {
            status: TaskStatus::Interrupted,
            now,
            kind: ErrorKind::Interrupted,
            user_message: user_message.to_owned(),
            detail: detail.to_owned(),
        };
        interrupt_runs(
            &mut self.runs,
            &self.attempts,
            &self.tasks,
            &flags,
            Ghost(hit),
            Ghost(before),
            run_message,
            now,
        );
        stop_attempts(&mut self.attempts, &self.tasks, &flags, Ghost(hit), generation, &change);
        let clock: i64 = self.clock;
        let seq: i64 = interrupt_tasks(&mut self.tasks, &flags, Ghost(hit), clock, now);
        self.clock = seq;
        proof {
            let after = interrupted(
                before,
                hit,
                generation,
                user_message@,
                detail@,
                run_message@,
                now,
            );
            assert(self@.attempts =~= after.attempts);
            assert(self@.runs =~= after.runs);
        }
    }

    /// Interrupts every running task that an earlier executor left behind, and
    /// tells how many there were.
    pub fn interrupt_stale_running(&mut self, generation: i64, now: i64) -> (r: usize)
        requires
            old(self)@.has_room(),
        ensures
            r == count_where(old(self)@.tasks, stale(old(self)@, generation)),
            final(self)@ == interrupted(
                old(self)@,
                stale(old(self)@, generation),
                None,
                "执行器失联，任务已中断"@,
                "EXECUTOR_INTERRUPTED: lease generation was superseded"@,
                "executor lease was superseded"@,
                now,
            ),
    {
        let ghost hit = stale(self@, generation);
        let flags = self.flag_running(generation, false, true);
        let count: usize = count_flags(&flags, Ghost(hit), Ghost(self@.tasks));
        self.interrupt(
            flags,
            Ghost(hit),
            None,
            "执行器失联，任务已中断",
            "EXECUTOR_INTERRUPTED: lease generation was superseded",
            "executor lease was superseded",
            now,
        );
        count
    }

    /// Interrupts what the owner itself still executes. Without the lease
    /// nothing changes.
    pub fn interrupt_generation(&mut self, owner: &str, generation: i64, now: i64)
        requires
            old(self)@.has_room(),
        ensures
            final(self)@ == (if owns(old(self)@, owner@, generation) {
                interrupted(
                    old(self)@,
                    executed_by(old(self)@, generation),
                    Some(generation),
                    "任务被程序退出中断"@,
                    "EXECUTOR_INTERRUPTED: owner shut down"@,
                    "executor owner shut down"@,
                    now,
                )
            } else {
                old(self)@
            }),
    {
        if self.owns_lease(owner, generation) {
            let ghost hit = executed_by(self@, generation);
            let flags = self.flag_running(generation, true, false);
            self.interrupt(
                flags,
                Ghost(hit),
                Some(generation),
                "任务被程序退出中断",
                "EXECUTOR_INTERRUPTED: owner shut down",
                "executor owner shut down",
                now,
            );
        }
    }
}

fn count_flags(
    flags: &Vec<bool>,
    Ghost(hit): Ghost<spec_fn(TaskRow) -> bool>,
    Ghost(tasks): Ghost<Seq<TaskRow>>,
) -> (r: usize)
    requires
        flags@ == flags_of(tasks, hit),
    ensures
        r == count_where(tasks, hit),
{
    let mut count: usize = 0;
    let mut i: usize = 0;
    while i < flags.len()
        invariant
            i <= flags.len(),
            count <= i,
            flags@ == flags_of(tasks, hit),
            count == count_where(tasks.take(i as int), hit),
        decreases flags.len() - i,
    {
        proof {
            assert(tasks.take(i + 1).drop_last() =~= tasks.take(i as int));
            assert(tasks.take(i + 1).last() == tasks[i as int]);
        }
        if flags[i] {
            count += 1;
        }
        i += 1;
    }
    proof {
        assert(tasks.take(tasks.len() as int) =~= tasks);
    }
    count
}

// ---- removal ----------------------------------------------------------------

/// The tasks that are not gone, and the attempts of no gone task.
pub open spec fn without(s: StoreView, gone: spec_fn(TaskRow) -> bool) -> StoreView {
    StoreView {
        tasks: s.tasks.filter(|t: TaskRow| !gone(t)),
        attempts: s.attempts.filter(|a: AttemptView| !hits(s.tasks, gone, a.task_id)),
        ..s
    }
}

pub open spec fn expired(now: i64) -> spec_fn(TaskRow) -> bool {
    |t: TaskRow| terminal(t.status) && t.updated_at < now - RETENTION_SECONDS
}

pub open spec fn with_target(key: TaskKey) -> spec_fn(TaskRow) -> bool {
    |t: TaskRow| t.key == key
}

/// A task for `key` is still pending.
pub open spec fn active(s: StoreView, key: TaskKey) -> bool {
    exists|i: int|
        0 <= i < s.tasks.len() && (#[trigger] s.tasks[i]).key == key && pending(s.tasks[i].status)
}

impl WorkflowStore {
    fn remove(&mut self, flags: Vec<bool>, Ghost(gone): Ghost<spec_fn(TaskRow) -> bool>)
        requires
            flags@ == flags_of(old(self)@.tasks, gone),
        ensures
            final(self)@ == without(old(self)@, gone),
    {
        let ghost before = self@;
        let ghost keep_task = |t: TaskRow| !gone(t);
        let ghost keep_attempt = |a: AttemptView| !hits(before.tasks, gone, a.task_id);
        let mut attempts: Vec<AttemptRow> = Vec::new();
        let mut i: usize = 0;
        proof {
            reveal(Seq::filter);
        }
        while i < self.attempts.len()
            invariant
                i <= self.attempts.len(),
                self@ == before,
                flags@ == flags_of(before.tasks, gone),
                keep_attempt == (|a: AttemptView| !hits(before.tasks, gone, a.task_id)),
                attempt_views(attempts@) == before.attempts.take(i as int).filter(keep_attempt),
            decreases self.attempts.len() - i,
        {
            proof {
                reveal(Seq::filter);
                assert(before.attempts.take(i + 1).drop_last() =~= before.attempts.take(i as int));
                assert(before.attempts.take(i + 1).last() == self.attempts@[i as int]@);
            }
            if !flagged(&self.tasks, &flags, Ghost(gone), self.attempts[i].task_id) {
                let row = self.attempts[i].copied();
                proof {
                    assert(attempt_views(attempts@.push(row)) =~= attempt_views(attempts@).push(
                        row@,
                    ));
                }
                attempts.push(row);
            }
            i += 1;
        }
        let mut tasks: Vec<TaskRow> = Vec::new();
        let mut t: usize = 0;
        while t < self.tasks.len()
            invariant
                t <= self.tasks.len(),
                self@ == before,
                flags@ == flags_of(before.tasks, gone),
                keep_task == (|t: TaskRow| !gone(t)),
                tasks@ == before.tasks.take(t as int).filter(keep_task),
            decreases self.tasks.len() - t,
        {
            proof {
                reveal(Seq::filter);
                assert(before.tasks.take(t + 1).drop_last() =~= before.tasks.take(t as int));
                assert(before.tasks.take(t + 1).last() == before.tasks[t as int]);
                assert(flags@[t as int] == gone(before.tasks[t as int]));
            }
            if !flags[t] {
                tasks.push(self.tasks[t]);
            }
            t += 1;
        }
        proof {
            assert(before.tasks.take(before.tasks.len() as int) =~= before.tasks);
            assert(before.attempts.take(before.attempts.len() as int) =~= before.attempts);
        }
        self.tasks = tasks;
        self.attempts = attempts;
    }

    /// Forgets tasks that finished long ago.
    pub fn prune_terminal_history(&mut self, now: i64) -> (r: Result<(), StoreFailure>)
        requires
            now >= i64::MIN + RETENTION_SECONDS,
        ensures
            if old(self)@.fenced {
                r == Err::<(), StoreFailure>(StoreFailure::Maintenance) && final(self)@
                    == old(self)@
            } else {
                r == Ok::<(), StoreFailure>(()) && final(self)@ == without(
                    old(self)@,
                    expired(now),
                )
            },
    {
        if self.fenced {
            return Err(StoreFailure::Maintenance);
        }
        let limit: i64 = now - RETENTION_SECONDS;
        let ghost gone = expired(now);
        let mut flags: Vec<bool> = Vec::new();
        let mut i: usize = 0;
        while i < self.tasks.len()
            invariant
                i <= self.tasks.len(),
                limit == now - RETENTION_SECONDS,
                gone == expired(now),
                flags@ == flags_of(self.tasks@.take(i as int), gone),
            decreases self.tasks.len() - i,
        {
            let row = self.tasks[i];
            let flag: bool = row.status.is_terminal() && row.updated_at < limit;
            proof {
                assert(flags_of(self.tasks@.take(i + 1), gone) =~= flags_of(
                    self.tasks@.take(i as int),
                    gone,
                ).push(gone(row)));
            }
            flags.push(flag);
            i += 1;
        }
        proof {
            assert(self.tasks@.take(self.tasks@.len() as int) =~= self.tasks@);
        }
        self.remove(flags, Ghost(gone));
        Ok(())
    }

    pub fn is_active(&self, key: TaskKey) -> (r: bool)
        ensures
            r == active(self@, key),
    {
        let mut i: usize = 0;
        while i < self.tasks.len()
            invariant
                i <= self.tasks.len(),
                forall|k: int|
                    0 <= k < i ==> !((#[trigger] self.tasks@[k]).key == key && pending(
                        self.tasks@[k].status,
                    )),
            decreases self.tasks.len() - i,
        {
            let row = self.tasks[i];
            if row.key.kind == key.kind && row.key.target_id == key.target_id
                && !row.status.is_terminal() {
                proof {
                    assert(self@.tasks[i as int] == row);
                }
                return true;
            }
            i += 1;
        }
        false
    }

    /// Refuses while a task can still write to the target; otherwise forgets
    /// the target's tasks. The caller removes the target itself.
    pub fn prepare_delete(&mut self, key: TaskKey) -> (r: Result<(), StoreFailure>)
        ensures
            match r {
                Ok(_) => !active(old(self)@, key) && final(self)@ == without(
                    old(self)@,
                    with_target(key),
                ),
                Err(failure) => active(old(self)@, key) && final(self)@ == old(self)@ && failure
                    == (match key.kind {
                    TaskKind::ResourceCompletion => StoreFailure::ResourceProcessingActive(
                        key.target_id,
                    ),
                    TaskKind::ArticleSummary => StoreFailure::ArticleSummaryActive(key.target_id),
                }),
            },
    {
        if self.is_active(key) {
            return match key.kind {
                TaskKind::ResourceCompletion => Err(
                    StoreFailure::ResourceProcessingActive(key.target_id),
                ),
                TaskKind::ArticleSummary => Err(StoreFailure::ArticleSummaryActive(key.target_id)),
            };
        }
        let ghost gone = with_target(key);
        let mut flags: Vec<bool> = Vec::new();
        let mut i: usize = 0;
        while i < self.tasks.len()
            invariant
                i <= self.tasks.len(),
                gone == with_target(key),
                flags@ == flags_of(self.tasks@.take(i as int), gone),
            decreases self.tasks.len() - i,
        {
            let row = self.tasks[i];
            let flag: bool = row.key.kind == key.kind && row.key.target_id == key.target_id;
            proof {
                assert(flags_of(self.tasks@.take(i + 1), gone) =~= flags_of(
                    self.tasks@.take(i as int),
                    gone,
                ).push(gone(row)));
            }
            flags.push(flag);
            i += 1;
        }
        proof {
            assert(self.tasks@.take(self.tasks@.len() as int) =~= self.tasks@);
        }
        self.remove(flags, Ghost(gone));
        Ok(())
    }
}

// ---- changes ----------------------------------------------------------------

pub open spec fn after_cursor(cursor: i64) -> spec_fn(TaskRow) -> bool {
    |t: TaskRow| t.change_seq > cursor
}

/// By the tick of the last change, then by number.
pub open spec fn in_change_order(rows: Seq<TaskRow>) -> bool {
    forall|i: int, j: int|
        0 <= i < j < rows.len() ==> (#[trigger] rows[i]).change_seq < (
        #[trigger] rows[j]).change_seq || (rows[i].change_seq == rows[j].change_seq && rows[i].id
            <= rows[j].id)
}

impl WorkflowStore {
    /// The tasks that changed after `cursor`, each with its tick, in the order
    /// of their changes.
    pub fn changes_after(&self, cursor: i64) -> (r: Vec<TaskRow>)
        ensures
            in_change_order(r@),
            r@.to_multiset() == self@.tasks.filter(after_cursor(cursor)).to_multiset(),
    {
        let mut r: Vec<TaskRow> = Vec::new();
        let ghost keep = after_cursor(cursor);
        let mut i: usize = 0;
        proof {
            reveal(Seq::filter);
            assert(self.tasks@.take(0).filter(keep) =~= r@);
        }
        while i < self.tasks.len()
            invariant
                i <= self.tasks.len(),
                keep == after_cursor(cursor),
                in_change_order(r@),
                r@.to_multiset() == self.tasks@.take(i as int).filter(keep).to_multiset(),
            decreases self.tasks.len() - i,
        {
            proof {
                reveal(Seq::filter);
                assert(self.tasks@.take(i + 1).drop_last() =~= self.tasks@.take(i as int));
                assert(self.tasks@.take(i + 1).last() == self.tasks@[i as int]);
            }
            let row = self.tasks[i];
            if row.change_seq > cursor {
                let mut at: usize = r.len();
                while at > 0 && (r[at - 1].change_seq > row.change_seq || (r[at - 1].change_seq
                    == row.change_seq && r[at - 1].id > row.id))
                    invariant
                        at <= r.len(),
                        in_change_order(r@),
                        forall|k: int|
                            at <= k < r@.len() ==> row.change_seq < (#[trigger] r@[k]).change_seq
                                || (row.change_seq == r@[k].change_seq && row.id <= r@[k].id),
                    decreases at,
                {
                    at -= 1;
                }
                let ghost before = r@;
                r.insert(at, row);
                proof {
                    broadcast use vstd::seq_lib::group_to_multiset_ensures;

                    assert(r@.remove(at as int) =~= before);
                    assert(r@[at as int] == row);
                    assert(r@.to_multiset() =~= before.to_multiset().insert(row)) by {
                        assert(before.to_multiset() == r@.to_multiset().remove(row));
                        assert(r@.contains(row));
                    }
                    assert(self.tasks@.take(i as int).filter(keep).push(row).to_multiset()
                        =~= self.tasks@.take(i as int).filter(keep).to_multiset().insert(row));
                }
            }
            i += 1;
        }
        proof {
            assert(self.tasks@.take(self.tasks@.len() as int) =~= self.tasks@);
        }
        r
    }
}

} // verus!
