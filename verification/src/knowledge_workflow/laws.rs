//! What every operation of the workflow store keeps, and what its operations
//! mean together.

use vstd::prelude::*;

use crate::knowledge_workflow::drain::{
    executed_by, expired, hits, interrupted, stale, stopped_by, with_target, without,
};
use crate::knowledge_workflow::rows::{
    attempt_stopped, AttemptView, LeaseView, OutputView, SnapshotInput, TaskChange, TaskRow,
};
use crate::knowledge_workflow::select::{
    first_by, lemma_first_by, lemma_first_by_index, strict_order,
};
use crate::knowledge_workflow::store::{
    advanced, article_completed, automatic_retries, claimable, claimed, disposition_of, failed,
    fence, finished, later, latest_task, lease_acquired, lease_free, lease_released, new_task,
    newer, next_due, owns, requested, resource_completed, running_attempt, snapshot_recorded,
    sooner, wanted_attempt, with_attempts, with_key, with_task, due, ClaimedTask, StoreView,
    LEASE_EXPIRES_SECS, MAX_AUTOMATIC_RETRIES,
};
use crate::knowledge_workflow::types::{
    pending, terminal, ErrorKind, RequestDisposition, TaskKey, TaskStatus,
};

verus! {

/// Numbers identify rows, and new ones are fresh.
pub open spec fn identified(s: StoreView) -> bool {
    &&& forall|i: int, j: int|
        0 <= i < s.tasks.len() && 0 <= j < s.tasks.len() && (#[trigger] s.tasks[i]).id == (
        #[trigger] s.tasks[j]).id ==> i == j
    &&& forall|i: int| 0 <= i < s.tasks.len() ==> (#[trigger] s.tasks[i]).id < s.next_task_id
    &&& forall|i: int|
        0 <= i < s.attempts.len() ==> (#[trigger] s.attempts[i]).id < s.next_attempt_id
}

/// A task has this number.
#[verifier::opaque]
pub open spec fn task_known(s: StoreView, id: i64) -> bool {
    exists|t: int| 0 <= t < s.tasks.len() && (#[trigger] s.tasks[t]).id == id
}

/// The task of this number has a pending attempt.
#[verifier::opaque]
pub open spec fn attempt_pending(s: StoreView, id: i64) -> bool {
    exists|a: int|
        0 <= a < s.attempts.len() && (#[trigger] s.attempts[a]).task_id == id && pending(
            s.attempts[a].status,
        )
}

/// Every attempt is one of a known task.
pub open spec fn attempts_belong(s: StoreView) -> bool {
    forall|a: int|
        0 <= a < s.attempts.len() ==> task_known(s, (#[trigger] s.attempts[a]).task_id)
}

/// A pending attempt is in the state of its task.
pub open spec fn attempts_match(s: StoreView) -> bool {
    forall|a: int, t: int|
        0 <= a < s.attempts.len() && 0 <= t < s.tasks.len() && (#[trigger] s.attempts[a]).task_id
            == (#[trigger] s.tasks[t]).id && pending(s.attempts[a].status) ==> s.attempts[a].status
            == s.tasks[t].status
}

/// A task has at most one pending attempt.
pub open spec fn one_pending(s: StoreView) -> bool {
    forall|a: int, b: int|
        0 <= a < s.attempts.len() && 0 <= b < s.attempts.len() && (
        #[trigger] s.attempts[a]).task_id == (#[trigger] s.attempts[b]).task_id && pending(
            s.attempts[a].status,
        ) && pending(s.attempts[b].status) ==> a == b
}

/// A pending task has a pending attempt.
pub open spec fn tasks_attempted(s: StoreView) -> bool {
    forall|t: int|
        0 <= t < s.tasks.len() && pending((#[trigger] s.tasks[t]).status) ==> attempt_pending(
            s,
            s.tasks[t].id,
        )
}

proof fn lemma_task_known(s: StoreView, n: StoreView, id: i64)
    requires
        task_known(s, id),
        n.tasks.len() >= s.tasks.len(),
        forall|i: int| 0 <= i < s.tasks.len() ==> (#[trigger] n.tasks[i]).id == s.tasks[i].id,
    ensures
        task_known(n, id),
{
    reveal(task_known);
    let t = choose|t: int| 0 <= t < s.tasks.len() && (#[trigger] s.tasks[t]).id == id;
    assert(n.tasks[t].id == id);
}

/// A pending attempt that stays where it is stays pending.
proof fn lemma_attempt_pending(s: StoreView, n: StoreView, id: i64)
    requires
        attempt_pending(s, id),
        n.attempts.len() >= s.attempts.len(),
        forall|i: int|
            0 <= i < s.attempts.len() && (#[trigger] s.attempts[i]).task_id == id && pending(
                s.attempts[i].status,
            ) ==> n.attempts[i].task_id == id && pending(n.attempts[i].status),
    ensures
        attempt_pending(n, id),
{
    reveal(attempt_pending);
    let a = choose|a: int|
        0 <= a < s.attempts.len() && (#[trigger] s.attempts[a]).task_id == id && pending(
            s.attempts[a].status,
        );
    assert(n.attempts[a].task_id == id);
}

/// No task was retried by itself more often than allowed.
pub open spec fn retries_bounded(s: StoreView) -> bool {
    forall|id: i64| #[trigger] automatic_retries(s.attempts, id) <= MAX_AUTOMATIC_RETRIES
}

/// The tasks and their attempts agree.
pub open spec fn consistent(s: StoreView) -> bool {
    identified(s) && attempts_belong(s) && attempts_match(s) && one_pending(s) && tasks_attempted(s)
        && retries_bounded(s)
}

pub proof fn lemma_count_agrees(a: Seq<AttemptView>, b: Seq<AttemptView>, id: i64)
    requires
        a.len() == b.len(),
        forall|i: int|
            0 <= i < a.len() ==> (#[trigger] a[i]).task_id == b[i].task_id && a[i].automatic_retry
                == b[i].automatic_retry,
    ensures
        automatic_retries(a, id) == automatic_retries(b, id),
    decreases a.len(),
{
    if a.len() > 0 {
        let fa = a.drop_last();
        let fb = b.drop_last();
        assert forall|i: int| 0 <= i < fa.len() implies (#[trigger] fa[i]).task_id == fb[i].task_id
            && fa[i].automatic_retry == fb[i].automatic_retry by {
            assert(fa[i] == a[i] && fb[i] == b[i]);
        }
        lemma_count_agrees(fa, fb, id);
        assert(a[a.len() - 1].task_id == b[a.len() - 1].task_id);
    }
}

/// A step that moves rows in place, leaving numbers and belonging as they are.
pub open spec fn in_place(s: StoreView, n: StoreView) -> bool {
    &&& n.tasks.len() == s.tasks.len()
    &&& n.attempts.len() == s.attempts.len()
    &&& n.next_task_id == s.next_task_id
    &&& n.next_attempt_id == s.next_attempt_id
    &&& forall|i: int| 0 <= i < s.tasks.len() ==> (#[trigger] n.tasks[i]).id == s.tasks[i].id
    &&& forall|i: int|
        0 <= i < s.attempts.len() ==> {
            &&& (#[trigger] n.attempts[i]).id == s.attempts[i].id
            &&& n.attempts[i].task_id == s.attempts[i].task_id
            &&& n.attempts[i].automatic_retry == s.attempts[i].automatic_retry
        }
}

proof fn lemma_in_place(s: StoreView, n: StoreView)
    requires
        consistent(s),
        in_place(s, n),
    ensures
        identified(n),
        attempts_belong(n),
        retries_bounded(n),
{
    assert forall|a: int| 0 <= a < n.attempts.len() implies task_known(
        n,
        (#[trigger] n.attempts[a]).task_id,
    ) by {
        assert(task_known(s, s.attempts[a].task_id));
        lemma_task_known(s, n, s.attempts[a].task_id);
    }
    assert forall|id: i64| #[trigger]
        automatic_retries(n.attempts, id) <= MAX_AUTOMATIC_RETRIES by {
        lemma_count_agrees(n.attempts, s.attempts, id);
        assert(automatic_retries(s.attempts, id) <= MAX_AUTOMATIC_RETRIES);
    }
    assert forall|i: int, j: int|
        0 <= i < n.tasks.len() && 0 <= j < n.tasks.len() && (#[trigger] n.tasks[i]).id == (
        #[trigger] n.tasks[j]).id implies i == j by {
        assert(s.tasks[i].id == s.tasks[j].id);
    }
}

/// The same, where no state of a task or an attempt changes.
proof fn lemma_same_states(s: StoreView, n: StoreView)
    requires
        consistent(s),
        in_place(s, n),
        forall|i: int| 0 <= i < s.tasks.len() ==> (#[trigger] n.tasks[i]).status == s.tasks[i].status,
        forall|i: int|
            0 <= i < s.attempts.len() ==> (#[trigger] n.attempts[i]).status == s.attempts[i].status,
    ensures
        consistent(n),
{
    lemma_in_place(s, n);
    assert forall|a: int, t: int|
        0 <= a < n.attempts.len() && 0 <= t < n.tasks.len() && (#[trigger] n.attempts[a]).task_id
            == (#[trigger] n.tasks[t]).id && pending(n.attempts[a].status) implies n.attempts[a].status
        == n.tasks[t].status by {
        assert(s.attempts[a].task_id == s.tasks[t].id);
    }
    assert forall|a: int, b: int|
        0 <= a < n.attempts.len() && 0 <= b < n.attempts.len() && (
        #[trigger] n.attempts[a]).task_id == (#[trigger] n.attempts[b]).task_id && pending(
            n.attempts[a].status,
        ) && pending(n.attempts[b].status) implies a == b by {
        assert(s.attempts[a].task_id == s.attempts[b].task_id);
    }
    assert forall|t: int|
        0 <= t < n.tasks.len() && pending((#[trigger] n.tasks[t]).status) implies attempt_pending(
        n,
        n.tasks[t].id,
    ) by {
        assert(pending(s.tasks[t].status));
        lemma_attempt_pending(s, n, s.tasks[t].id);
    }
}

/// The same, where the task `id` and its pending attempt end together and
/// nothing else changes state.
proof fn lemma_ended(s: StoreView, n: StoreView, id: i64)
    requires
        consistent(s),
        in_place(s, n),
        forall|i: int|
            0 <= i < s.tasks.len() ==> if s.tasks[i].id == id {
                terminal((#[trigger] n.tasks[i]).status)
            } else {
                n.tasks[i].status == s.tasks[i].status
            },
        forall|i: int|
            0 <= i < s.attempts.len() ==> if s.attempts[i].task_id == id && pending(
                s.attempts[i].status,
            ) {
                terminal((#[trigger] n.attempts[i]).status)
            } else {
                n.attempts[i].status == s.attempts[i].status
            },
    ensures
        consistent(n),
{
    lemma_in_place(s, n);
    assert forall|a: int, t: int|
        0 <= a < n.attempts.len() && 0 <= t < n.tasks.len() && (#[trigger] n.attempts[a]).task_id
            == (#[trigger] n.tasks[t]).id && pending(n.attempts[a].status) implies n.attempts[a].status
        == n.tasks[t].status by {
        assert(s.attempts[a].task_id == s.tasks[t].id);
    }
    assert forall|a: int, b: int|
        0 <= a < n.attempts.len() && 0 <= b < n.attempts.len() && (
        #[trigger] n.attempts[a]).task_id == (#[trigger] n.attempts[b]).task_id && pending(
            n.attempts[a].status,
        ) && pending(n.attempts[b].status) implies a == b by {
        assert(s.attempts[a].task_id == s.attempts[b].task_id);
    }
    assert forall|t: int|
        0 <= t < n.tasks.len() && pending((#[trigger] n.tasks[t]).status) implies attempt_pending(
        n,
        n.tasks[t].id,
    ) by {
        assert(s.tasks[t].id != id);
        assert(pending(s.tasks[t].status));
        lemma_attempt_pending(s, n, s.tasks[t].id);
    }
}

/// Advancing a task and recording a snapshot keep tasks and attempts in agreement.
pub proof fn advancing_keeps_consistency(
    s: StoreView,
    task: ClaimedTask,
    stage: crate::knowledge_workflow::types::TaskStage,
    input: SnapshotInput,
    now: i64,
)
    requires
        consistent(s),
    ensures
        consistent(advanced(s, task, stage, now)),
        consistent(snapshot_recorded(s, task, input, now)),
{
    lemma_same_states(s, advanced(s, task, stage, now));
    lemma_same_states(s, snapshot_recorded(s, task, input, now));
}

/// Where the fence holds, the claimed attempt is the task's only pending one.
proof fn lemma_fenced_attempt(s: StoreView, owner: Seq<char>, task: ClaimedTask)
    requires
        consistent(s),
        fence(s, owner, task),
    ensures
        forall|i: int|
            0 <= i < s.attempts.len() && (#[trigger] s.attempts[i]).task_id == task.id && pending(
                s.attempts[i].status,
            ) ==> running_attempt(s.attempts[i], task.id, Some(task.generation)),
        task_known(s, task.id),
{
    let k = choose|i: int|
        0 <= i < s.attempts.len() && running_attempt(
            #[trigger] s.attempts[i],
            task.id,
            Some(task.generation),
        );
    assert(pending(s.attempts[k].status));
    assert forall|i: int|
        0 <= i < s.attempts.len() && (#[trigger] s.attempts[i]).task_id == task.id && pending(
            s.attempts[i].status,
        ) implies running_attempt(s.attempts[i], task.id, Some(task.generation)) by {
        assert(s.attempts[i].task_id == s.attempts[k].task_id);
        assert(i == k);
    }
}

/// Completing a task keeps tasks and attempts in agreement.
pub proof fn completing_keeps_consistency(
    s: StoreView,
    owner: Seq<char>,
    task: ClaimedTask,
    run_id: i64,
    output: OutputView,
    summary: Seq<char>,
    translation: Seq<char>,
    model: Seq<char>,
    now: i64,
)
    requires
        consistent(s),
        fence(s, owner, task),
    ensures
        consistent(finished(s, task, now)),
        consistent(resource_completed(s, task, run_id, output, now)),
        consistent(article_completed(s, task, summary, translation, model, now)),
{
    lemma_fenced_attempt(s, owner, task);
    lemma_ended(s, finished(s, task, now), task.id);
    lemma_ended(s, resource_completed(s, task, run_id, output, now), task.id);
    lemma_ended(s, article_completed(s, task, summary, translation, model, now), task.id);
}

proof fn lemma_count_push(a: Seq<AttemptView>, row: AttemptView, id: i64)
    ensures
        automatic_retries(a.push(row), id) == automatic_retries(a, id) + (if row.task_id == id
            && row.automatic_retry {
            1nat
        } else {
            0nat
        }),
{
    assert(a.push(row).drop_last() =~= a);
}

/// A task whose pending attempt is over waits again with a new attempt.
proof fn lemma_requeued(s: StoreView, n: StoreView, id: i64, row: AttemptView)
    requires
        identified(s),
        attempts_belong(s),
        attempts_match(s),
        one_pending(s),
        retries_bounded(s),
        task_known(s, id),
        // Every other pending task has its attempt; this one has none pending.
        forall|t: int|
            0 <= t < s.tasks.len() && s.tasks[t].id != id && pending((#[trigger] s.tasks[t]).status)
                ==> attempt_pending(s, s.tasks[t].id),
        forall|a: int|
            0 <= a < s.attempts.len() && (#[trigger] s.attempts[a]).task_id == id ==> !pending(
                s.attempts[a].status,
            ),
        n.tasks.len() == s.tasks.len(),
        forall|i: int| 0 <= i < s.tasks.len() ==> (#[trigger] n.tasks[i]).id == s.tasks[i].id,
        forall|i: int|
            0 <= i < s.tasks.len() ==> (#[trigger] n.tasks[i]).status == (if s.tasks[i].id == id {
                TaskStatus::Queued
            } else {
                s.tasks[i].status
            }),
        n.attempts == s.attempts.push(row),
        row.id == s.next_attempt_id,
        row.task_id == id,
        row.status is Queued,
        row.automatic_retry ==> automatic_retries(s.attempts, id) < MAX_AUTOMATIC_RETRIES,
        n.next_task_id == s.next_task_id,
        n.next_attempt_id == s.next_attempt_id + 1,
    ensures
        consistent(n),
{
    let m = s.attempts.len() as int;
    assert forall|a: int| 0 <= a < n.attempts.len() implies task_known(
        n,
        (#[trigger] n.attempts[a]).task_id,
    ) by {
        if a == m {
            lemma_task_known(s, n, id);
        } else {
            assert(n.attempts[a] == s.attempts[a]);
            lemma_task_known(s, n, s.attempts[a].task_id);
        }
    }
    assert forall|i: int, j: int|
        0 <= i < n.tasks.len() && 0 <= j < n.tasks.len() && (#[trigger] n.tasks[i]).id == (
        #[trigger] n.tasks[j]).id implies i == j by {
        assert(s.tasks[i].id == s.tasks[j].id);
    }
    assert forall|a: int, t: int|
        0 <= a < n.attempts.len() && 0 <= t < n.tasks.len() && (#[trigger] n.attempts[a]).task_id
            == (#[trigger] n.tasks[t]).id && pending(n.attempts[a].status) implies n.attempts[a].status
        == n.tasks[t].status by {
        if a < m {
            assert(n.attempts[a] == s.attempts[a]);
            assert(s.attempts[a].task_id == s.tasks[t].id);
        }
    }
    assert forall|t: int|
        0 <= t < n.tasks.len() && pending((#[trigger] n.tasks[t]).status) implies attempt_pending(
        n,
        n.tasks[t].id,
    ) by {
        if s.tasks[t].id == id {
            reveal(attempt_pending);
            assert(n.attempts[m].task_id == n.tasks[t].id);
        } else {
            assert(pending(s.tasks[t].status));
            lemma_attempt_pending(s, n, s.tasks[t].id);
        }
    }
    assert forall|a: int, b: int|
        0 <= a < n.attempts.len() && 0 <= b < n.attempts.len() && (
        #[trigger] n.attempts[a]).task_id == (#[trigger] n.attempts[b]).task_id && pending(
            n.attempts[a].status,
        ) && pending(n.attempts[b].status) implies a == b by {
        if a < m {
            assert(n.attempts[a] == s.attempts[a]);
        }
        if b < m {
            assert(n.attempts[b] == s.attempts[b]);
        }
    }
    assert forall|other: i64| #[trigger]
        automatic_retries(n.attempts, other) <= MAX_AUTOMATIC_RETRIES by {
        lemma_count_push(s.attempts, row, other);
        assert(automatic_retries(s.attempts, other) <= MAX_AUTOMATIC_RETRIES);
    }
}

/// Failing a task keeps tasks and attempts in agreement, and never retries a
/// task by itself more often than allowed.
pub proof fn failing_keeps_consistency(
    s: StoreView,
    owner: Seq<char>,
    task: ClaimedTask,
    run_id: Option<i64>,
    kind: ErrorKind,
    user_message: Seq<char>,
    detail: Seq<char>,
    now: i64,
)
    requires
        consistent(s),
        s.has_room(),
        fence(s, owner, task),
    ensures
        consistent(failed(s, task, run_id, kind, user_message, detail, now)),
{
    lemma_fenced_attempt(s, owner, task);
    let n = failed(s, task, run_id, kind, user_message, detail, now);
    // The state in which the claimed attempts have stopped.
    let stopped = StoreView {
        attempts: s.attempts.map_values(
            |a: AttemptView|
                if running_attempt(a, task.id, Some(task.generation)) {
                    attempt_stopped(
                        a,
                        TaskStatus::Failed,
                        now,
                        kind,
                        user_message,
                        detail,
                    )
                } else {
                    a
                },
        ),
        ..s
    };
    lemma_in_place(s, stopped);
    if n.attempts.len() == s.attempts.len() {
        assert(n.attempts =~= stopped.attempts);
        lemma_ended(s, n, task.id);
    } else {
        assert(n.attempts.len() == s.attempts.len() + 1);
        let row = n.attempts.last();
        assert(n.attempts.drop_last() =~= stopped.attempts);
        assert(n.attempts =~= stopped.attempts.push(row));
        assert forall|a: int, t: int|
            0 <= a < stopped.attempts.len() && 0 <= t < stopped.tasks.len() && (
            #[trigger] stopped.attempts[a]).task_id == (#[trigger] stopped.tasks[t]).id && pending(
                stopped.attempts[a].status,
            ) implies stopped.attempts[a].status == stopped.tasks[t].status by {
            assert(s.attempts[a].task_id == s.tasks[t].id);
        }
        assert forall|a: int, b: int|
            0 <= a < stopped.attempts.len() && 0 <= b < stopped.attempts.len() && (
            #[trigger] stopped.attempts[a]).task_id == (#[trigger] stopped.attempts[b]).task_id
                && pending(stopped.attempts[a].status) && pending(
                stopped.attempts[b].status,
            ) implies a == b by {
            assert(s.attempts[a].task_id == s.attempts[b].task_id);
        }
        assert forall|t: int|
            0 <= t < stopped.tasks.len() && stopped.tasks[t].id != task.id && pending(
                (#[trigger] stopped.tasks[t]).status,
            ) implies attempt_pending(stopped, stopped.tasks[t].id) by {
            assert(pending(s.tasks[t].status));
            lemma_attempt_pending(s, stopped, s.tasks[t].id);
        }
        assert forall|a: int|
            0 <= a < stopped.attempts.len() && (#[trigger] stopped.attempts[a]).task_id
                == task.id implies !pending(stopped.attempts[a].status) by {
            if pending(s.attempts[a].status) {
                assert(running_attempt(s.attempts[a], task.id, Some(task.generation)));
            }
        }
        lemma_task_known(s, stopped, task.id);
        assert(with_attempts(
            s,
            task.id,
            Some(task.generation),
            |a: AttemptView|
                attempt_stopped(a, TaskStatus::Failed, now, kind, user_message, detail),
        ).attempts =~= stopped.attempts);
        lemma_requeued(stopped, n, task.id, row);
    }
}

/// Claiming a task keeps tasks and attempts in agreement: the task and its
/// waiting attempt start together.
pub proof fn claiming_keeps_consistency(
    s: StoreView,
    owner: Seq<char>,
    generation: i64,
    now: i64,
)
    requires
        consistent(s),
        claimable(s, owner, generation, now) is Some,
    ensures
        consistent(claimed(s, claimable(s, owner, generation, now)->0, generation, now)),
        ({
            let k = claimable(s, owner, generation, now)->0;
            let n = claimed(s, k, generation, now);
            fence(n, owner, ClaimedTask { id: s.tasks[k].id, key: s.tasks[k].key, generation })
        }),
{
    let k = claimable(s, owner, generation, now)->0;
    lemma_first_by_index(s.tasks, due(now), sooner());
    let id = s.tasks[k].id;
    let n = claimed(s, k, generation, now);
    let keep = wanted_attempt(id, true, None);
    lemma_first_by_index(s.attempts, keep, later());
    assert(attempt_pending(s, id));
    lemma_pending_position(s, id);
    let w = pending_position(s, id);
    assert(keep(s.attempts[w]));
    let a = first_by(s.attempts, keep, later())->0;
    assert(s.attempts[a].task_id == s.attempts[w].task_id);
    assert(a == w);
    lemma_in_place(s, n);
    assert forall|x: int, t: int|
        0 <= x < n.attempts.len() && 0 <= t < n.tasks.len() && (#[trigger] n.attempts[x]).task_id
            == (#[trigger] n.tasks[t]).id && pending(n.attempts[x].status) implies n.attempts[x].status
        == n.tasks[t].status by {
        assert(s.attempts[x].task_id == s.tasks[t].id);
        if s.tasks[t].id == id && x != a {
            assert(s.attempts[x].task_id == s.attempts[a].task_id);
        }
    }
    assert forall|x: int, y: int|
        0 <= x < n.attempts.len() && 0 <= y < n.attempts.len() && (
        #[trigger] n.attempts[x]).task_id == (#[trigger] n.attempts[y]).task_id && pending(
            n.attempts[x].status,
        ) && pending(n.attempts[y].status) implies x == y by {
        assert(s.attempts[x].task_id == s.attempts[y].task_id);
    }
    assert forall|t: int|
        0 <= t < n.tasks.len() && pending((#[trigger] n.tasks[t]).status) implies attempt_pending(
        n,
        n.tasks[t].id,
    ) by {
        assert(pending(s.tasks[t].status));
        lemma_attempt_pending(s, n, s.tasks[t].id);
    }
    assert(running_attempt(n.attempts[a], id, Some(generation)));
}

/// Where the pending attempt of a task stands.
spec fn pending_position(s: StoreView, id: i64) -> int {
    choose|a: int|
        0 <= a < s.attempts.len() && (#[trigger] s.attempts[a]).task_id == id && pending(
            s.attempts[a].status,
        )
}

proof fn lemma_pending_position(s: StoreView, id: i64)
    requires
        attempt_pending(s, id),
    ensures
        0 <= pending_position(s, id) < s.attempts.len(),
        s.attempts[pending_position(s, id)].task_id == id,
        pending(s.attempts[pending_position(s, id)].status),
{
    reveal(attempt_pending);
}

/// A request keeps tasks and attempts in agreement.
pub proof fn requesting_keeps_consistency(s: StoreView, key: TaskKey, now: i64)
    requires
        consistent(s),
        s.has_room(),
    ensures
        consistent(requested(s, key, now)),
{
    let n = requested(s, key, now);
    lemma_first_by_index(s.tasks, with_key(key), newer());
    match disposition_of(s, key) {
        RequestDisposition::Existing => {},
        RequestDisposition::Retried => {
            let k = latest_task(s.tasks, key)->0;
            let id = s.tasks[k].id;
            assert(task_known(s, id)) by {
                reveal(task_known);
            }
            assert forall|a: int|
                0 <= a < s.attempts.len() && (#[trigger] s.attempts[a]).task_id == id implies !pending(
                s.attempts[a].status,
            ) by {
                assert(s.attempts[a].task_id == s.tasks[k].id);
            }
            lemma_requeued(s, n, id, n.attempts.last());
        },
        RequestDisposition::Created => {
            let id = s.next_task_id;
            let m = s.attempts.len() as int;
            let l = s.tasks.len() as int;
            assert(n.tasks[l].id == id);
            assert(n.attempts[m].task_id == id);
            assert forall|i: int| 0 <= i < l implies n.tasks[i] == #[trigger] s.tasks[i] by {}
            assert forall|i: int| 0 <= i < m implies n.attempts[i] == #[trigger] s.attempts[i] by {}
            assert forall|a: int| 0 <= a < m implies (
            #[trigger] s.attempts[a]).task_id != id by {
                assert(task_known(s, s.attempts[a].task_id));
                reveal(task_known);
            }
            assert forall|a: int| 0 <= a < n.attempts.len() implies task_known(
                n,
                (#[trigger] n.attempts[a]).task_id,
            ) by {
                if a < m {
                    lemma_task_known(s, n, s.attempts[a].task_id);
                } else {
                    reveal(task_known);
                }
            }
            assert forall|a: int, t: int|
                0 <= a < n.attempts.len() && 0 <= t < n.tasks.len() && (
                #[trigger] n.attempts[a]).task_id == (#[trigger] n.tasks[t]).id && pending(
                    n.attempts[a].status,
                ) implies n.attempts[a].status == n.tasks[t].status by {
                if a < m {
                    assert(s.attempts[a].task_id != id);
                    assert(t < l);
                    assert(s.attempts[a].task_id == s.tasks[t].id);
                }
            }
            assert forall|t: int|
                0 <= t < n.tasks.len() && pending(
                    (#[trigger] n.tasks[t]).status,
                ) implies attempt_pending(n, n.tasks[t].id) by {
                if t < l {
                    assert(pending(s.tasks[t].status));
                    lemma_attempt_pending(s, n, s.tasks[t].id);
                } else {
                    reveal(attempt_pending);
                }
            }
            assert forall|other: i64| #[trigger]
                automatic_retries(n.attempts, other) <= MAX_AUTOMATIC_RETRIES by {
                lemma_count_push(s.attempts, n.attempts.last(), other);
                assert(automatic_retries(s.attempts, other) <= MAX_AUTOMATIC_RETRIES);
            }
        },
    }
}

/// Interrupting keeps tasks and attempts in agreement, both when an executor
/// takes over and when one shuts down.
pub proof fn interrupting_keeps_consistency(
    s: StoreView,
    generation: i64,
    user_message: Seq<char>,
    detail: Seq<char>,
    run_message: Seq<char>,
    now: i64,
)
    requires
        consistent(s),
    ensures
        consistent(
            interrupted(s, stale(s, generation), None, user_message, detail, run_message, now),
        ),
        consistent(
            interrupted(
                s,
                executed_by(s, generation),
                Some(generation),
                user_message,
                detail,
                run_message,
                now,
            ),
        ),
{
    assert forall|t: int, a: int|
        0 <= t < s.tasks.len() && 0 <= a < s.attempts.len() && (stale(s, generation))(
            #[trigger] s.tasks[t],
        ) && (#[trigger] s.attempts[a]).task_id == s.tasks[t].id && pending(
            s.attempts[a].status,
        ) implies s.attempts[a].status is Running by {}
    lemma_interrupted(
        s,
        stale(s, generation),
        None,
        user_message,
        detail,
        run_message,
        now,
    );
    assert forall|t: int, a: int|
        0 <= t < s.tasks.len() && 0 <= a < s.attempts.len() && (executed_by(s, generation))(
            #[trigger] s.tasks[t],
        ) && (#[trigger] s.attempts[a]).task_id == s.tasks[t].id && pending(
            s.attempts[a].status,
        ) implies s.attempts[a].status is Running && s.attempts[a].claim_generation == Some(
        generation,
    ) by {
        let w = choose|i: int|
            0 <= i < s.attempts.len() && (#[trigger] s.attempts[i]).task_id == s.tasks[t].id
                && s.attempts[i].status is Running && s.attempts[i].claim_generation == Some(
                generation,
            );
        assert(s.attempts[w].task_id == s.attempts[a].task_id);
        assert(w == a);
    }
    lemma_interrupted(
        s,
        executed_by(s, generation),
        Some(generation),
        user_message,
        detail,
        run_message,
        now,
    );
}

proof fn lemma_interrupted(
    s: StoreView,
    hit: spec_fn(TaskRow) -> bool,
    generation: Option<i64>,
    user_message: Seq<char>,
    detail: Seq<char>,
    run_message: Seq<char>,
    now: i64,
)
    requires
        consistent(s),
        forall|t: int, a: int|
            0 <= t < s.tasks.len() && 0 <= a < s.attempts.len() && hit(#[trigger] s.tasks[t]) && (
            #[trigger] s.attempts[a]).task_id == s.tasks[t].id && pending(s.attempts[a].status)
                ==> s.attempts[a].status is Running && (generation is Some
                ==> s.attempts[a].claim_generation == generation),
    ensures
        consistent(interrupted(s, hit, generation, user_message, detail, run_message, now)),
{
    let n = interrupted(s, hit, generation, user_message, detail, run_message, now);
    lemma_in_place(s, n);
    assert forall|a: int, t: int|
        0 <= a < n.attempts.len() && 0 <= t < n.tasks.len() && (#[trigger] n.attempts[a]).task_id
            == (#[trigger] n.tasks[t]).id && pending(n.attempts[a].status) implies n.attempts[a].status
        == n.tasks[t].status by {
        assert(s.attempts[a].task_id == s.tasks[t].id);
        if hit(s.tasks[t]) {
            assert(hits(s.tasks, hit, s.attempts[a].task_id));
            assert(stopped_by(s.tasks, hit, generation, s.attempts[a]));
        }
    }
    assert forall|a: int, b: int|
        0 <= a < n.attempts.len() && 0 <= b < n.attempts.len() && (
        #[trigger] n.attempts[a]).task_id == (#[trigger] n.attempts[b]).task_id && pending(
            n.attempts[a].status,
        ) && pending(n.attempts[b].status) implies a == b by {
        assert(s.attempts[a].task_id == s.attempts[b].task_id);
    }
    assert forall|t: int|
        0 <= t < n.tasks.len() && pending((#[trigger] n.tasks[t]).status) implies attempt_pending(
        n,
        n.tasks[t].id,
    ) by {
        assert(!hit(s.tasks[t]));
        assert(pending(s.tasks[t].status));
        let id = s.tasks[t].id;
        assert forall|i: int|
            0 <= i < s.attempts.len() && (#[trigger] s.attempts[i]).task_id == id && pending(
                s.attempts[i].status,
            ) implies n.attempts[i].task_id == id && pending(n.attempts[i].status) by {
            if hits(s.tasks, hit, id) {
                let u = choose|u: int|
                    0 <= u < s.tasks.len() && (#[trigger] s.tasks[u]).id == id && hit(s.tasks[u]);
                assert(u == t);
            }
        }
        lemma_attempt_pending(s, n, id);
    }
}

// ---- removal ----------------------------------------------------------------

/// What a filter keeps was there, and was to be kept.
proof fn filter_origin<T>(s: Seq<T>, keep: spec_fn(T) -> bool, i: int) -> (k: int)
    requires
        0 <= i < s.filter(keep).len(),
    ensures
        0 <= k < s.len(),
        s[k] == s.filter(keep)[i],
        keep(s[k]),
    decreases s.len(),
{
    reveal(Seq::filter);
    if s.len() == 0 {
        0
    } else {
        let front = s.drop_last();
        if i < front.filter(keep).len() {
            let k = filter_origin(front, keep, i);
            assert(front[k] == s[k]);
            k
        } else {
            s.len() - 1
        }
    }
}

/// What is to be kept is kept.
proof fn filter_place<T>(s: Seq<T>, keep: spec_fn(T) -> bool, k: int) -> (i: int)
    requires
        0 <= k < s.len(),
        keep(s[k]),
    ensures
        0 <= i < s.filter(keep).len(),
        s.filter(keep)[i] == s[k],
    decreases s.len(),
{
    reveal(Seq::filter);
    let front = s.drop_last();
    if k < front.len() {
        assert(front[k] == s[k]);
        filter_place(front, keep, k)
    } else {
        s.filter(keep).len() - 1
    }
}

/// What holds between any two elements, in order, holds between any two that
/// a filter keeps.
proof fn lemma_filter_pairs<T>(
    s: Seq<T>,
    keep: spec_fn(T) -> bool,
    related: spec_fn(T, T) -> bool,
)
    requires
        forall|i: int, j: int| 0 <= i < j < s.len() ==> related(#[trigger] s[i], #[trigger] s[j]),
    ensures
        forall|i: int, j: int|
            0 <= i < j < s.filter(keep).len() ==> related(
                #[trigger] s.filter(keep)[i],
                #[trigger] s.filter(keep)[j],
            ),
    decreases s.len(),
{
    reveal(Seq::filter);
    if s.len() > 0 {
        let front = s.drop_last();
        assert forall|i: int, j: int| 0 <= i < j < front.len() implies related(
            #[trigger] front[i],
            #[trigger] front[j],
        ) by {
            assert(front[i] == s[i] && front[j] == s[j]);
        }
        lemma_filter_pairs(front, keep, related);
        if keep(s.last()) {
            let f = s.filter(keep);
            let g = front.filter(keep);
            assert forall|i: int, j: int| 0 <= i < j < f.len() implies related(
                #[trigger] f[i],
                #[trigger] f[j],
            ) by {
                assert(f[i] == g[i]);
                if j == g.len() {
                    let k = filter_origin(front, keep, i);
                    assert(front[k] == s[k]);
                    assert(related(s[k], s[s.len() - 1]));
                } else {
                    assert(f[j] == g[j]);
                }
            }
        }
    }
}

proof fn lemma_filter_count(s: Seq<AttemptView>, keep: spec_fn(AttemptView) -> bool, id: i64)
    ensures
        automatic_retries(s.filter(keep), id) <= automatic_retries(s, id),
    decreases s.len(),
{
    reveal(Seq::filter);
    if s.len() > 0 {
        lemma_filter_count(s.drop_last(), keep, id);
        if keep(s.last()) {
            lemma_count_push(s.drop_last().filter(keep), s.last(), id);
        }
    }
}

/// Forgetting tasks keeps the remaining tasks and attempts in agreement.
pub proof fn forgetting_keeps_consistency(s: StoreView, gone: spec_fn(TaskRow) -> bool)
    requires
        consistent(s),
    ensures
        consistent(without(s, gone)),
{
    let n = without(s, gone);
    let keep_task = |t: TaskRow| !gone(t);
    let keep_attempt = |a: AttemptView| !hits(s.tasks, gone, a.task_id);
    assert(n.tasks == s.tasks.filter(keep_task));
    assert(n.attempts == s.attempts.filter(keep_attempt));
    assert(identified(n)) by {
        let differ = |x: TaskRow, y: TaskRow| x.id != y.id;
        lemma_filter_pairs(s.tasks, keep_task, differ);
        assert forall|i: int, j: int|
            0 <= i < n.tasks.len() && 0 <= j < n.tasks.len() && (#[trigger] n.tasks[i]).id == (
            #[trigger] n.tasks[j]).id implies i == j by {
            if i < j {
                assert(differ(n.tasks[i], n.tasks[j]));
            } else if j < i {
                assert(differ(n.tasks[j], n.tasks[i]));
            }
        }
        assert forall|i: int| 0 <= i < n.tasks.len() implies (
        #[trigger] n.tasks[i]).id < n.next_task_id by {
            let k = filter_origin(s.tasks, keep_task, i);
            assert(s.tasks[k].id < s.next_task_id);
        }
        assert forall|i: int| 0 <= i < n.attempts.len() implies (
        #[trigger] n.attempts[i]).id < n.next_attempt_id by {
            let k = filter_origin(s.attempts, keep_attempt, i);
            assert(s.attempts[k].id < s.next_attempt_id);
        }
    }
    assert(one_pending(n)) by {
        let apart = |x: AttemptView, y: AttemptView|
            !(x.task_id == y.task_id && pending(x.status) && pending(y.status));
        assert forall|i: int, j: int| 0 <= i < j < s.attempts.len() implies apart(
            #[trigger] s.attempts[i],
            #[trigger] s.attempts[j],
        ) by {}
        lemma_filter_pairs(s.attempts, keep_attempt, apart);
        assert forall|a: int, b: int|
            0 <= a < n.attempts.len() && 0 <= b < n.attempts.len() && (
            #[trigger] n.attempts[a]).task_id == (#[trigger] n.attempts[b]).task_id && pending(
                n.attempts[a].status,
            ) && pending(n.attempts[b].status) implies a == b by {
            if a < b {
                assert(apart(n.attempts[a], n.attempts[b]));
            } else if b < a {
                assert(apart(n.attempts[b], n.attempts[a]));
            }
        }
    }
    assert forall|a: int| 0 <= a < n.attempts.len() implies task_known(
        n,
        (#[trigger] n.attempts[a]).task_id,
    ) by {
        let k = filter_origin(s.attempts, keep_attempt, a);
        assert(task_known(s, s.attempts[k].task_id));
        reveal(task_known);
        let t = choose|t: int|
            0 <= t < s.tasks.len() && (#[trigger] s.tasks[t]).id == s.attempts[k].task_id;
        assert(keep_task(s.tasks[t]));
        let i = filter_place(s.tasks, keep_task, t);
        assert(n.tasks[i].id == n.attempts[a].task_id);
    }
    assert forall|a: int, t: int|
        0 <= a < n.attempts.len() && 0 <= t < n.tasks.len() && (#[trigger] n.attempts[a]).task_id
            == (#[trigger] n.tasks[t]).id && pending(n.attempts[a].status) implies n.attempts[a].status
        == n.tasks[t].status by {
        let k = filter_origin(s.attempts, keep_attempt, a);
        let u = filter_origin(s.tasks, keep_task, t);
        assert(s.attempts[k].task_id == s.tasks[u].id);
    }
    assert forall|t: int|
        0 <= t < n.tasks.len() && pending((#[trigger] n.tasks[t]).status) implies attempt_pending(
        n,
        n.tasks[t].id,
    ) by {
        let u = filter_origin(s.tasks, keep_task, t);
        assert(pending(s.tasks[u].status));
        let id = s.tasks[u].id;
        lemma_pending_position(s, id);
        let a = pending_position(s, id);
        assert(!hits(s.tasks, gone, id)) by {
            if hits(s.tasks, gone, id) {
                let v = choose|v: int|
                    0 <= v < s.tasks.len() && (#[trigger] s.tasks[v]).id == id && gone(s.tasks[v]);
                assert(v == u);
            }
        }
        assert(keep_attempt(s.attempts[a]));
        let i = filter_place(s.attempts, keep_attempt, a);
        reveal(attempt_pending);
        assert(n.attempts[i].task_id == n.tasks[t].id);
    }
    assert forall|id: i64| #[trigger]
        automatic_retries(n.attempts, id) <= MAX_AUTOMATIC_RETRIES by {
        lemma_filter_count(s.attempts, keep_attempt, id);
        assert(automatic_retries(s.attempts, id) <= MAX_AUTOMATIC_RETRIES);
    }
}

/// Forgetting old tasks never forgets one that is still pending; preparing a
/// target for deletion leaves none of its tasks.
pub proof fn forgetting_is_selective(s: StoreView, key: TaskKey, now: i64)
    ensures
        forall|t: int|
            0 <= t < s.tasks.len() && pending((#[trigger] s.tasks[t]).status) ==> without(
                s,
                expired(now),
            ).tasks.contains(s.tasks[t]),
        forall|t: int|
            0 <= t < without(s, with_target(key)).tasks.len() ==> (#[trigger] without(
                s,
                with_target(key),
            ).tasks[t]).key != key,
{
    let gone = expired(now);
    let keep = |t: TaskRow| !gone(t);
    assert forall|t: int|
        0 <= t < s.tasks.len() && pending((#[trigger] s.tasks[t]).status) implies without(
        s,
        expired(now),
    ).tasks.contains(s.tasks[t]) by {
        assert(keep(s.tasks[t]));
        let i = filter_place(s.tasks, keep, t);
        assert(without(s, expired(now)).tasks[i] == s.tasks[t]);
    }
    let aimed = with_target(key);
    let other = |t: TaskRow| !aimed(t);
    assert forall|t: int| 0 <= t < without(s, with_target(key)).tasks.len() implies (
    #[trigger] without(s, with_target(key)).tasks[t]).key != key by {
        let k = filter_origin(s.tasks, other, t);
    }
}

// ---- the lease --------------------------------------------------------------

/// How the lease may move: the generation never falls, and within one
/// generation the owner can only leave.
pub open spec fn lease_moves(before: LeaseView, after: LeaseView) -> bool {
    &&& after.generation >= before.generation
    &&& after.generation == before.generation ==> after.owner_id == before.owner_id
        || after.owner_id is None
}

/// `owner` can never again write for a claim of `generation`.
pub open spec fn superseded(lease: LeaseView, owner: Seq<char>, generation: i64) -> bool {
    lease.generation > generation || (lease.generation == generation && lease.owner_id != Some(owner))
}

/// Acquiring and releasing only move the lease forward.
pub proof fn lease_only_moves_forward(s: StoreView, owner: Seq<char>, generation: i64, now: i64)
    requires
        s.lease.generation < i64::MAX,
    ensures
        lease_moves(s.lease, lease_acquired(s, owner, now).lease),
        lease_moves(s.lease, lease_released(s, owner, generation).lease),
{
}

/// An executor that lost its lease stays fenced out, however the lease moves on.
pub proof fn superseded_executor_stays_fenced(
    s: StoreView,
    n: StoreView,
    owner: Seq<char>,
    task: ClaimedTask,
)
    requires
        superseded(s.lease, owner, task.generation),
        lease_moves(s.lease, n.lease),
    ensures
        superseded(n.lease, owner, task.generation),
        !fence(n, owner, task),
{
}

/// Whoever takes the lease over fences out every claim of the former owner.
pub proof fn takeover_fences_the_former_owner(
    s: StoreView,
    owner: Seq<char>,
    other: Seq<char>,
    task: ClaimedTask,
    now: i64,
)
    requires
        !s.fenced,
        s.lease.generation < i64::MAX,
        owns(s, owner, task.generation),
        other != owner,
        lease_free(s.lease, now),
    ensures
        owns(lease_acquired(s, other, now), other, (task.generation + 1) as i64),
        superseded(lease_acquired(s, other, now).lease, owner, task.generation),
        !fence(lease_acquired(s, other, now), owner, task),
{
}

/// There is one executor: nobody else gets a lease that is alive, and no two
/// owners hold it at once.
pub proof fn there_is_one_executor(
    s: StoreView,
    owner: Seq<char>,
    other: Seq<char>,
    generation: i64,
    other_generation: i64,
    now: i64,
)
    requires
        owns(s, owner, generation),
    ensures
        owns(s, other, other_generation) ==> other == owner && other_generation == generation,
        other != owner && s.lease.heartbeat_at > now - LEASE_EXPIRES_SECS ==> lease_acquired(
            s,
            other,
            now,
        ) == s,
{
}

// ---- requests and choices ---------------------------------------------------

pub proof fn lemma_newer_is_an_order()
    ensures
        strict_order(newer()),
        strict_order(sooner()),
        strict_order(later()),
{
}

/// Asking again for a task that is still pending changes nothing.
pub proof fn requesting_twice_changes_nothing(s: StoreView, key: TaskKey, now: i64, then: i64)
    requires
        s.has_room(),
        identified(s),
        forall|t: int|
            0 <= t < s.tasks.len() && (#[trigger] s.tasks[t]).key == key ==> s.tasks[t].created_at
                <= now,
    ensures
        disposition_of(requested(s, key, now), key) == RequestDisposition::Existing,
        requested(requested(s, key, now), key, then) == requested(s, key, now),
{
    lemma_newer_is_an_order();
    let n = requested(s, key, now);
    lemma_first_by(s.tasks, with_key(key), newer());
    lemma_first_by(n.tasks, with_key(key), newer());
    match disposition_of(s, key) {
        RequestDisposition::Existing => {},
        RequestDisposition::Retried => {
            let k = latest_task(s.tasks, key)->0;
            assert(n.tasks[k].key == key);
            let m = latest_task(n.tasks, key)->0;
            assert(n.tasks[m].created_at == s.tasks[m].created_at && n.tasks[m].id == s.tasks[m].id
                && n.tasks[m].key == s.tasks[m].key);
            assert(!(newer())(n.tasks[k], n.tasks[m]));
            assert(!(newer())(s.tasks[m], s.tasks[k]));
            assert(s.tasks[m].id == s.tasks[k].id);
        },
        RequestDisposition::Created => {
            let l = s.tasks.len() as int;
            assert(n.tasks[l] == new_task(s, key, now));
            let m = latest_task(n.tasks, key)->0;
            assert(!(newer())(n.tasks[l], n.tasks[m]));
            if m < l {
                assert(n.tasks[m] == s.tasks[m]);
                assert(s.tasks[m].created_at <= now);
                assert(s.tasks[m].id < s.next_task_id);
            }
        },
    }
}

/// A task that waits is left waiting by requests and by the passing of time,
/// so that it waits until an executor claims it.
pub proof fn waiting_tasks_wait_for_an_executor(s: StoreView, key: TaskKey, now: i64, t: int)
    requires
        identified(s),
        0 <= t < s.tasks.len(),
        s.tasks[t].status is Queued,
    ensures
        requested(s, key, now).tasks[t] == s.tasks[t],
        without(s, expired(now)).tasks.contains(s.tasks[t]),
{
    forgetting_is_selective(s, key, now);
    lemma_newer_is_an_order();
    lemma_first_by(s.tasks, with_key(key), newer());
}

/// The task that is taken up is due, and none that is due comes before it: by
/// when it runs next, then by age, then by number.
pub proof fn claims_follow_the_queue(tasks: Seq<TaskRow>, now: i64)
    ensures
        match next_due(tasks, now) {
            Some(k) => 0 <= k < tasks.len() && tasks[k].status is Queued && tasks[k].next_run_at
                <= now && forall|j: int|
                0 <= j < tasks.len() && (#[trigger] tasks[j]).status is Queued
                    && tasks[j].next_run_at <= now ==> !(sooner())(tasks[j], tasks[k]),
            None => forall|j: int|
                0 <= j < tasks.len() && (#[trigger] tasks[j]).status is Queued
                    ==> tasks[j].next_run_at > now,
        },
{
    lemma_newer_is_an_order();
    lemma_first_by(tasks, due(now), sooner());
    match next_due(tasks, now) {
        Some(k) => {
            assert forall|j: int|
                0 <= j < tasks.len() && (#[trigger] tasks[j]).status is Queued
                    && tasks[j].next_run_at <= now implies !(sooner())(tasks[j], tasks[k]) by {
                assert((due(now))(tasks[j]));
            }
        },
        None => {
            assert forall|j: int| 0 <= j < tasks.len() && (
            #[trigger] tasks[j]).status is Queued implies tasks[j].next_run_at > now by {
                assert(!(due(now))(tasks[j]));
            }
        },
    }
}

/// Every move of a task is seen by an observer that has read up to the clock.
pub proof fn every_move_is_observable(s: StoreView, id: i64, change: TaskChange)
    requires
        s.clock < i64::MAX,
    ensures
        forall|t: int|
            0 <= t < s.tasks.len() && (#[trigger] s.tasks[t]).id == id ==> with_task(
                s,
                id,
                change,
            ).tasks[t].change_seq > s.clock,
{
}

/// Text that the provider wrote before changes neither the stored text nor
/// the revision of the article projection.
pub proof fn identical_article_text_is_no_change(
    s: StoreView,
    task: ClaimedTask,
    summary: Seq<char>,
    translation: Seq<char>,
    model: Seq<char>,
    first: i64,
    then: i64,
)
    requires
        s.has_room(),
    ensures
        ({
            let once = article_completed(s, task, summary, translation, model, first);
            let twice = article_completed(once, task, summary, translation, model, then);
            twice.article_ai == once.article_ai && twice.revisions == once.revisions
        }),
{
    let id = task.key.target_id;
    let keep = |v: crate::knowledge_workflow::rows::ArticleAiView| v.article_id == id;
    let none = |
        a: crate::knowledge_workflow::rows::ArticleAiView,
        b: crate::knowledge_workflow::rows::ArticleAiView,
    | false;
    let once = article_completed(s, task, summary, translation, model, first);
    lemma_first_by_index(s.article_ai, keep, none);
    lemma_first_by_index(once.article_ai, keep, none);
    match first_by(s.article_ai, keep, none) {
        Some(k) => {
            if once.article_ai != s.article_ai {
                crate::knowledge_workflow::store::lemma_first_by_agrees(
                    s.article_ai,
                    once.article_ai,
                    keep,
                    none,
                );
            }
        },
        None => {
            let l = s.article_ai.len() as int;
            assert(once.article_ai.drop_last() =~= s.article_ai);
            assert(keep(once.article_ai[l]));
        },
    }
}

} // verus!
