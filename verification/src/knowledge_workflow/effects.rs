//! What the operations of the workflow store do to the rows that a reader of
//! the library sees.

use vstd::prelude::*;
use vstd::utf8::encode_utf8;

use crate::digest::content_digest;
use crate::knowledge_workflow::drain::{
    active, after_cursor, executed_by, expired, hits, in_change_order, interrupted, run_of_hit, stale,
    with_target, without,
};
use crate::knowledge_workflow::laws::{lemma_count_agrees, lemma_newer_is_an_order};
use crate::knowledge_workflow::rows::{
    ArticleAiView, AttemptView, OutputView, SnapshotInput, TaskRow,
};
use crate::knowledge_workflow::select::{
    count_where, first_by, lemma_first_by, lemma_first_by_index,
};
use crate::knowledge_workflow::store::{
    advanced, article_completed, article_position, as_stored, attempted, automatic_of, automatic_retries,
    claimed, content_hash, disposition_of, due, failed, failure_noted, failure_text, fence, finished, last_number, later,
    latest_attempt, latest_attempted, latest_task, lease_acquired, lease_released, newer, next_due, numbered, outcome, requested,
    resource_completed, run_started, running_attempt, running_position, same_content, shows, snapshot_recorded, sooner, source_failed,
    target_exists, task_position, unordered, wanted_attempt, with_key, ClaimedTask, EnrichmentConfig, StoreFailure, StoreView,
};
use crate::knowledge_workflow::types::{error_code, pending, ErrorKind, TaskKey, TaskKind, TaskSnapshot, TaskStage, TaskStatus};
use crate::number::signed;
use crate::text::{ascii_lower, contains, text_opt};

verus! {

/// Without an order the first row that is kept is found.
pub proof fn lemma_first_kept<T>(
    s: Seq<T>,
    keep: spec_fn(T) -> bool,
    before: spec_fn(T, T) -> bool,
)
    requires
        forall|a: T, b: T| !#[trigger] before(a, b),
    ensures
        match first_by(s, keep, before) {
            Some(k) => 0 <= k < s.len() && keep(s[k]) && forall|j: int|
                0 <= j < k ==> !keep(#[trigger] s[j]),
            None => forall|j: int| 0 <= j < s.len() ==> !keep(#[trigger] s[j]),
        },
    decreases s.len(),
{
    if s.len() > 0 {
        let front = s.drop_last();
        lemma_first_kept(front, keep, before);
        assert forall|j: int| 0 <= j < front.len() implies front[j] == #[trigger] s[j] by {}
    }
}

// ---- results ----------------------------------------------------------------

/// After a summary the first row of the article holds exactly the texts that
/// the provider gave, rows of other articles stay as they are, and the article
/// projection moves on wherever no row of the article held these texts before.
pub proof fn completed_articles_hold_the_new_text(
    s: StoreView,
    task: ClaimedTask,
    summary: Seq<char>,
    translation: Seq<char>,
    model: Seq<char>,
    now: i64,
)
    requires
        s.has_room(),
    ensures
        ({
            let n = article_completed(s, task, summary, translation, model, now);
            let id = task.key.target_id;
            &&& exists|k: int|
                0 <= k < n.article_ai.len() && (#[trigger] n.article_ai[k]).article_id == id
                    && n.article_ai[k].summary_zh == summary && n.article_ai[k].translation_zh
                    == translation && n.article_ai[k].model == model && (forall|j: int|
                    0 <= j < k ==> (#[trigger] n.article_ai[j]).article_id != id)
            &&& forall|k: int|
                0 <= k < s.article_ai.len() && (#[trigger] s.article_ai[k]).article_id != id
                    ==> n.article_ai[k] == s.article_ai[k]
            &&& forall|k: int|
                0 <= k < n.article_ai.len() && (#[trigger] n.article_ai[k]).article_id != id
                    ==> k < s.article_ai.len() && n.article_ai[k] == s.article_ai[k]
            &&& (forall|k: int|
                0 <= k < s.article_ai.len() && (#[trigger] s.article_ai[k]).article_id == id
                    ==> s.article_ai[k].summary_zh != summary || s.article_ai[k].translation_zh
                    != translation || s.article_ai[k].model != model) ==> n.revisions.article
                == s.revisions.article + 1
            &&& n.revisions.resource == s.revisions.resource
            &&& n.revisions.excerpt == s.revisions.excerpt
        }),
{
    let id = task.key.target_id;
    let n = article_completed(s, task, summary, translation, model, now);
    let keep = |v: ArticleAiView| v.article_id == id;
    let none = |a: ArticleAiView, b: ArticleAiView| false;
    lemma_first_kept(s.article_ai, keep, none);
    assert(article_position(s, id) == first_by(s.article_ai, keep, none));
    match article_position(s, id) {
        Some(k) => {
            assert(n.article_ai[k].article_id == id);
            assert forall|j: int| 0 <= j < k implies (#[trigger] n.article_ai[j]).article_id
                != id by {
                assert(!keep(s.article_ai[j]));
            }
        },
        None => {
            let k = s.article_ai.len() as int;
            assert(n.article_ai[k].article_id == id);
            assert forall|j: int| 0 <= j < k implies (#[trigger] n.article_ai[j]).article_id
                != id by {
                assert(!keep(s.article_ai[j]));
            }
        },
    }
}

/// A task that was completed is told as succeeded at that moment, and so is the
/// attempt that ran under the claim, with no error left on it. Other tasks and
/// attempts stay as they are.
pub proof fn completed_tasks_have_succeeded(s: StoreView, task: ClaimedTask, now: i64)
    requires
        s.has_room(),
    ensures
        ({
            let n = finished(s, task, now);
            &&& n.tasks.len() == s.tasks.len() && n.attempts.len() == s.attempts.len()
            &&& forall|t: int|
                0 <= t < s.tasks.len() ==> if s.tasks[t].id == task.id {
                    (#[trigger] n.tasks[t]).status is Succeeded && n.tasks[t].updated_at == now
                        && n.tasks[t].key == s.tasks[t].key && n.tasks[t].id == task.id
                        && n.tasks[t].change_seq == s.clock + 1
                } else {
                    n.tasks[t] == s.tasks[t]
                }
            &&& forall|a: int|
                0 <= a < s.attempts.len() ==> if s.attempts[a].task_id == task.id
                    && s.attempts[a].status is Running && s.attempts[a].claim_generation == Some(
                    task.generation,
                ) {
                    (#[trigger] n.attempts[a]).status is Succeeded && n.attempts[a].finished_at
                        == Some(now) && n.attempts[a].error_kind is None
                        && n.attempts[a].user_message is None
                        && n.attempts[a].technical_detail is None && n.attempts[a].attempt_number
                        == s.attempts[a].attempt_number
                } else {
                    n.attempts[a] == s.attempts[a]
                }
            &&& n.resources == s.resources && n.lease == s.lease && n.revisions == s.revisions
        }),
{
}

/// The provider's answer about a resource is kept behind the earlier ones, as
/// it came; the run is closed, the task has succeeded, and the resource
/// projection moves on.
pub proof fn completed_resources_keep_the_answer(
    s: StoreView,
    task: ClaimedTask,
    run_id: i64,
    output: OutputView,
    now: i64,
)
    requires
        s.has_room(),
    ensures
        ({
            let n = resource_completed(s, task, run_id, output, now);
            &&& n.enrichments.len() == s.enrichments.len() + 1
            &&& n.enrichments.last().resource_id == task.key.target_id
            &&& n.enrichments.last().output == output
            &&& n.enrichments.last().applied_at == now
            &&& forall|k: int|
                0 <= k < s.enrichments.len() ==> #[trigger] n.enrichments[k] == s.enrichments[k]
            &&& n.revisions.resource == s.revisions.resource + 1
            &&& n.revisions.article == s.revisions.article
            &&& n.revisions.excerpt == s.revisions.excerpt
            &&& n.runs.len() == s.runs.len()
            &&& forall|k: int|
                0 <= k < s.runs.len() ==> if s.runs[k].id == run_id {
                    (#[trigger] n.runs[k]).status is Succeeded && n.runs[k].finished_at == Some(now)
                } else {
                    n.runs[k] == s.runs[k]
                }
            &&& forall|t: int|
                0 <= t < s.tasks.len() && s.tasks[t].id == task.id ==> (
                #[trigger] n.tasks[t]).status is Succeeded
        }),
{
}

/// A fetched page is kept once per content, the resource points at what was
/// fetched and counts as healthy again, a title that the reader knows is not
/// replaced, and the work goes on with organizing.
pub proof fn fetched_pages_are_kept_once(
    s: StoreView,
    task: ClaimedTask,
    input: SnapshotInput,
    now: i64,
)
    requires
        s.has_room(),
    ensures
        ({
            let n = snapshot_recorded(s, task, input, now);
            let id = task.key.target_id;
            let hash = content_hash(input);
            &&& forall|k: int|
                0 <= k < s.snapshots.len() ==> #[trigger] n.snapshots[k] == s.snapshots[k]
            &&& (exists|k: int|
                0 <= k < s.snapshots.len() && (#[trigger] s.snapshots[k]).resource_id == id
                    && s.snapshots[k].content_hash == hash) ==> n.snapshots.len()
                == s.snapshots.len()
            &&& !(exists|k: int|
                0 <= k < s.snapshots.len() && (#[trigger] s.snapshots[k]).resource_id == id
                    && s.snapshots[k].content_hash == hash) ==> {
                &&& n.snapshots.len() == s.snapshots.len() + 1
                &&& n.snapshots.last().resource_id == id
                &&& n.snapshots.last().content_hash == hash
                &&& n.snapshots.last().fetched_url == text_opt(input.fetched_url)
                &&& n.snapshots.last().http_status == input.http_status
                &&& n.snapshots.last().title == text_opt(input.title)
                &&& n.snapshots.last().cleaned_content == text_opt(input.cleaned_content)
                &&& n.snapshots.last().fetched_at == now
            }
            &&& n.resources.len() == s.resources.len()
            &&& forall|r: int|
                0 <= r < s.resources.len() ==> if s.resources[r].id == id {
                    &&& (#[trigger] n.resources[r]).health is Healthy
                    &&& n.resources[r].source_failure_count == 0
                    &&& n.resources[r].last_checked_at == Some(now)
                    &&& n.resources[r].updated_at == now
                    &&& n.resources[r].title == (if s.resources[r].title is Some {
                        s.resources[r].title
                    } else {
                        text_opt(input.title)
                    })
                    &&& exists|k: int|
                        0 <= k < n.snapshots.len() && n.resources[r].latest_snapshot_id == Some(
                            (#[trigger] n.snapshots[k]).id,
                        ) && n.snapshots[k].resource_id == id && n.snapshots[k].content_hash
                            == hash
                } else {
                    n.resources[r] == s.resources[r]
                }
            &&& n.revisions.resource == s.revisions.resource + 1
            &&& n.revisions.article == s.revisions.article
            &&& forall|t: int|
                0 <= t < s.tasks.len() ==> if s.tasks[t].id == task.id {
                    (#[trigger] n.tasks[t]).current_stage == Some(TaskStage::Organizing)
                        && n.tasks[t].status == s.tasks[t].status
                } else {
                    n.tasks[t] == s.tasks[t]
                }
        }),
{
    let id = task.key.target_id;
    let n = snapshot_recorded(s, task, input, now);
    let hash = content_hash(input);
    let keep = same_content(id, hash);
    lemma_first_by_index(s.snapshots, keep, as_stored());
    match first_by(s.snapshots, keep, as_stored()) {
        Some(k) => {
            assert(n.snapshots[k].resource_id == id);
        },
        None => {
            let k = s.snapshots.len() as int;
            assert(n.snapshots[k].content_hash == hash);
            assert forall|j: int| 0 <= j < s.snapshots.len() implies !((
            #[trigger] s.snapshots[j]).resource_id == id && s.snapshots[j].content_hash
                == hash) by {
                assert(!keep(s.snapshots[j]));
            }
        },
    }
}

/// The stage that the work has reached shows on the task and on the attempt
/// that runs under the claim, and nowhere else.
pub proof fn stages_show_on_task_and_attempt(
    s: StoreView,
    task: ClaimedTask,
    stage: TaskStage,
    now: i64,
)
    requires
        s.has_room(),
    ensures
        ({
            let n = advanced(s, task, stage, now);
            &&& n.tasks.len() == s.tasks.len() && n.attempts.len() == s.attempts.len()
            &&& forall|t: int|
                0 <= t < s.tasks.len() ==> if s.tasks[t].id == task.id {
                    (#[trigger] n.tasks[t]).current_stage == Some(stage) && n.tasks[t].status
                        == s.tasks[t].status && n.tasks[t].updated_at == now
                        && n.tasks[t].change_seq == s.clock + 1
                } else {
                    n.tasks[t] == s.tasks[t]
                }
            &&& forall|a: int|
                0 <= a < s.attempts.len() ==> if s.attempts[a].task_id == task.id
                    && s.attempts[a].status is Running && s.attempts[a].claim_generation == Some(
                    task.generation,
                ) {
                    (#[trigger] n.attempts[a]).current_stage == Some(stage) && n.attempts[a].status
                        is Running
                } else {
                    n.attempts[a] == s.attempts[a]
                }
            &&& n.revisions == s.revisions
        }),
{
}

// ---- who may write ----------------------------------------------------------

/// A write of an executor takes effect exactly where no maintenance is active,
/// the executor holds the lease of the claim's generation, and an attempt of
/// the task still runs under the claim. Elsewhere nothing is written.
pub proof fn only_the_executor_at_work_writes(
    before: StoreView,
    now: StoreView,
    owner: Seq<char>,
    task: ClaimedTask,
    r: Result<bool, StoreFailure>,
    after: StoreView,
)
    requires
        outcome(before, now, owner, task, r, after),
    ensures
        r is Err <==> before.fenced,
        r is Err ==> r->Err_0 is Maintenance,
        r == Ok::<bool, StoreFailure>(true) <==> !before.fenced && before.lease.owner_id == Some(
            owner,
        ) && before.lease.generation == task.generation && exists|i: int|
            0 <= i < before.attempts.len() && (#[trigger] before.attempts[i]).task_id == task.id
                && before.attempts[i].status is Running && before.attempts[i].claim_generation
                == Some(task.generation),
        r == Ok::<bool, StoreFailure>(true) ==> now == after,
        r != Ok::<bool, StoreFailure>(true) ==> now == before,
{
    if fence(before, owner, task) {
        let i = choose|i: int|
            0 <= i < before.attempts.len() && running_attempt(
                #[trigger] before.attempts[i],
                task.id,
                Some(task.generation),
            );
        assert(before.attempts[i].task_id == task.id);
    } else if before.lease.owner_id == Some(owner) && before.lease.generation == task.generation {
        assert forall|i: int| 0 <= i < before.attempts.len() implies !((
        #[trigger] before.attempts[i]).task_id == task.id && before.attempts[i].status is Running
            && before.attempts[i].claim_generation == Some(task.generation)) by {
            assert(!running_attempt(before.attempts[i], task.id, Some(task.generation)));
        }
    }
}

/// Who holds the lease keeps it and its generation by asking again. Anybody
/// else gets it, under the next generation, exactly where nobody holds it or
/// its holder gave no sign for fifteen seconds. During maintenance it stays
/// with whom it is.
pub proof fn leases_pass_on_after_silence(s: StoreView, owner: Seq<char>, now: i64)
    requires
        s.lease.generation < i64::MAX,
    ensures
        ({
            let n = lease_acquired(s, owner, now).lease;
            let held = s.lease.owner_id == Some(owner);
            let silent = s.lease.owner_id is None || s.lease.heartbeat_at + 15 <= now;
            &&& s.fenced ==> n == s.lease
            &&& !s.fenced && (held || silent) ==> n.owner_id == Some(owner) && n.heartbeat_at
                == now
            &&& !s.fenced && held ==> n.generation == s.lease.generation
            &&& !s.fenced && !held && silent ==> n.generation == s.lease.generation + 1
            &&& !held && !silent ==> n == s.lease
        }),
        lease_acquired(s, owner, now) == (StoreView {
            lease: lease_acquired(s, owner, now).lease,
            ..s
        }),
{
}

/// Only the holder of the lease gives it up; then nobody holds it, and its
/// generation is not used again.
pub proof fn leases_are_given_up_by_their_holder(s: StoreView, owner: Seq<char>, generation: i64)
    ensures
        ({
            let n = lease_released(s, owner, generation);
            &&& n.lease.generation == s.lease.generation
            &&& s.lease.owner_id == Some(owner) && s.lease.generation == generation
                ==> n.lease.owner_id is None
            &&& !(s.lease.owner_id == Some(owner) && s.lease.generation == generation) ==> n == s
            &&& n.tasks == s.tasks && n.attempts == s.attempts
        }),
{
}

// ---- the queue --------------------------------------------------------------

/// Of the tasks that wait and whose time has come, the one that was to run
/// first is taken up; of several, the oldest, and then the one with the lowest
/// number.
pub proof fn the_earliest_due_task_is_taken_up(tasks: Seq<TaskRow>, now: i64)
    ensures
        match next_due(tasks, now) {
            Some(k) => {
                &&& 0 <= k < tasks.len()
                &&& tasks[k].status is Queued
                &&& tasks[k].next_run_at <= now
                &&& forall|j: int|
                    0 <= j < tasks.len() && (#[trigger] tasks[j]).status is Queued
                        && tasks[j].next_run_at <= now ==> tasks[k].next_run_at
                        < tasks[j].next_run_at || (tasks[k].next_run_at == tasks[j].next_run_at
                        && (tasks[k].created_at < tasks[j].created_at || (tasks[k].created_at
                        == tasks[j].created_at && tasks[k].id <= tasks[j].id)))
            },
            None => forall|j: int|
                0 <= j < tasks.len() && (#[trigger] tasks[j]).status is Queued
                    ==> tasks[j].next_run_at > now,
        },
{
    lemma_newer_is_an_order();
    lemma_first_by(tasks, due(now), sooner());
    match next_due(tasks, now) {
        Some(k) => {
            assert forall|j: int|
                0 <= j < tasks.len() && (#[trigger] tasks[j]).status is Queued
                    && tasks[j].next_run_at <= now implies tasks[k].next_run_at
                < tasks[j].next_run_at || (tasks[k].next_run_at == tasks[j].next_run_at && (
            tasks[k].created_at < tasks[j].created_at || (tasks[k].created_at
                == tasks[j].created_at && tasks[k].id <= tasks[j].id))) by {
                assert((due(now))(tasks[j]));
                assert(!(sooner())(tasks[j], tasks[k]));
            }
        },
        None => {
            assert forall|j: int| 0 <= j < tasks.len() && (
            #[trigger] tasks[j]).status is Queued implies tasks[j].next_run_at > now by {
                assert(!(due(now))(tasks[j]));
            }
        },
    }
}

/// A task that is taken up runs from then on: a resource begins with fetching
/// its page, an article with its summary. Its queued attempt runs under the
/// claim's generation. Nothing else moves.
pub proof fn claimed_tasks_run_from_their_first_stage(
    s: StoreView,
    k: int,
    generation: i64,
    now: i64,
)
    requires
        s.has_room(),
        0 <= k < s.tasks.len(),
    ensures
        ({
            let n = claimed(s, k, generation, now);
            let t = s.tasks[k];
            let stage = match t.key.kind {
                TaskKind::ResourceCompletion => TaskStage::Fetching,
                TaskKind::ArticleSummary => TaskStage::Summarizing,
            };
            &&& n.tasks[k].status is Running
            &&& n.tasks[k].current_stage == Some(stage)
            &&& n.tasks[k].updated_at == now
            &&& n.tasks[k].key == t.key
            &&& forall|j: int|
                0 <= j < s.tasks.len() && s.tasks[j].id != t.id ==> #[trigger] n.tasks[j]
                    == s.tasks[j]
            &&& (exists|a: int|
                0 <= a < s.attempts.len() && (#[trigger] s.attempts[a]).task_id == t.id
                    && s.attempts[a].status is Queued) ==> exists|a: int|
                0 <= a < n.attempts.len() && s.attempts[a].task_id == t.id
                    && s.attempts[a].status is Queued && (#[trigger] n.attempts[a]).task_id == t.id
                    && n.attempts[a].status is Running && n.attempts[a].claim_generation == Some(
                    generation,
                ) && n.attempts[a].started_at == Some(now) && n.attempts[a].current_stage == Some(
                    stage,
                )
            &&& forall|a: int|
                0 <= a < s.attempts.len() && (s.attempts[a].task_id != t.id
                    || !(s.attempts[a].status is Queued)) ==> #[trigger] n.attempts[a]
                    == s.attempts[a]
            &&& n.revisions == s.revisions
        }),
{
    let t = s.tasks[k];
    let n = claimed(s, k, generation, now);
    let keep = wanted_attempt(t.id, true, None);
    lemma_first_by_index(s.attempts, keep, later());
    match first_by(s.attempts, keep, later()) {
        Some(a) => {
            assert(n.attempts[a].task_id == t.id);
        },
        None => {
            assert forall|a: int| 0 <= a < s.attempts.len() implies !((
            #[trigger] s.attempts[a]).task_id == t.id && s.attempts[a].status is Queued) by {
                assert(!keep(s.attempts[a]));
            }
        },
    }
}

/// A request is answered by the latest task of its key: while that one waits
/// or runs nothing changes; a task that succeeded, or none at all, makes a new
/// one; one that failed or was interrupted is queued again, as the reader's own
/// retry.
pub proof fn requests_are_answered_by_the_latest_task(
    s: StoreView,
    key: TaskKey,
    now: i64,
    t: int,
)
    requires
        s.has_room(),
        0 <= t < s.tasks.len(),
        s.tasks[t].key == key,
        forall|j: int|
            0 <= j < s.tasks.len() && (#[trigger] s.tasks[j]).key == key && j != t
                ==> s.tasks[j].created_at < s.tasks[t].created_at || (s.tasks[j].created_at
                == s.tasks[t].created_at && s.tasks[j].id < s.tasks[t].id),
    ensures
        ({
            let n = requested(s, key, now);
            let d = disposition_of(s, key);
            match s.tasks[t].status {
                TaskStatus::Queued | TaskStatus::Running => d is Existing && n == s,
                TaskStatus::Succeeded => d is Created && n.tasks.len() == s.tasks.len() + 1
                    && n.tasks[t] == s.tasks[t],
                TaskStatus::Failed | TaskStatus::Interrupted => {
                    &&& d is Retried
                    &&& n.tasks.len() == s.tasks.len()
                    &&& n.tasks[t].status is Queued
                    &&& n.tasks[t].current_stage is None
                    &&& n.tasks[t].next_run_at == now
                    &&& n.tasks[t].id == s.tasks[t].id
                    &&& n.attempts.len() == s.attempts.len() + 1
                    &&& n.attempts.last().task_id == s.tasks[t].id
                    &&& n.attempts.last().status is Queued
                    &&& !n.attempts.last().automatic_retry
                    &&& forall|a: int|
                        0 <= a < s.attempts.len() && (#[trigger] s.attempts[a]).task_id
                            == s.tasks[t].id ==> s.attempts[a].attempt_number
                            < n.attempts.last().attempt_number
                },
            }
        }),
{
    lemma_newer_is_an_order();
    lemma_first_by(s.tasks, with_key(key), newer());
    assert((with_key(key))(s.tasks[t]));
    let m = latest_task(s.tasks, key)->0;
    if m != t {
        assert((newer())(s.tasks[t], s.tasks[m]));
    }
    lemma_numbers_grow(s.attempts, s.tasks[t].id);
}

/// A first request makes a task that waits to run at once, with one attempt.
pub proof fn first_requests_make_a_task(s: StoreView, key: TaskKey, now: i64)
    requires
        s.has_room(),
        disposition_of(s, key) is Created,
    ensures
        ({
            let n = requested(s, key, now);
            &&& n.tasks.len() == s.tasks.len() + 1
            &&& n.tasks.last().key == key
            &&& n.tasks.last().id == s.next_task_id
            &&& n.tasks.last().status is Queued
            &&& n.tasks.last().current_stage is None
            &&& n.tasks.last().next_run_at == now
            &&& n.tasks.last().created_at == now
            &&& forall|j: int| 0 <= j < s.tasks.len() ==> #[trigger] n.tasks[j] == s.tasks[j]
            &&& n.attempts.len() == s.attempts.len() + 1
            &&& n.attempts.last().task_id == n.tasks.last().id
            &&& n.attempts.last().status is Queued
            &&& n.attempts.last().attempt_number == 1
            &&& !n.attempts.last().automatic_retry
        }),
{
}

/// Without a task of its key a request makes one.
pub proof fn unknown_keys_are_created(s: StoreView, key: TaskKey)
    requires
        forall|j: int| 0 <= j < s.tasks.len() ==> (#[trigger] s.tasks[j]).key != key,
    ensures
        disposition_of(s, key) is Created,
{
    lemma_first_by_index(s.tasks, with_key(key), newer());
}

proof fn lemma_numbers_grow(attempts: Seq<AttemptView>, id: i64)
    requires
        forall|a: int|
            0 <= a < attempts.len() ==> (#[trigger] attempts[a]).attempt_number < i64::MAX,
    ensures
        last_number(attempts, id) < i64::MAX,
        forall|a: int|
            0 <= a < attempts.len() && (#[trigger] attempts[a]).task_id == id
                ==> attempts[a].attempt_number <= last_number(attempts, id),
{
    lemma_newer_is_an_order();
    let keep = wanted_attempt(id, false, None);
    lemma_first_by(attempts, keep, later());
    assert forall|a: int| 0 <= a < attempts.len() && (#[trigger] attempts[a]).task_id
        == id implies attempts[a].attempt_number <= last_number(attempts, id) by {
        assert(keep(attempts[a]));
        let k = first_by(attempts, keep, later())->0;
        assert(!(later())(attempts[a], attempts[k]));
    }
}

// ---- failures ---------------------------------------------------------------

/// A task that failed is queued again by itself only after a passing failure,
/// and only twice: one second later the first time, two seconds later the
/// second. Otherwise it has failed. Either way the attempt that ran under the
/// claim has failed, and says why.
pub proof fn only_passing_failures_are_retried_twice(
    s: StoreView,
    task: ClaimedTask,
    run_id: Option<i64>,
    kind: ErrorKind,
    user_message: Seq<char>,
    detail: Seq<char>,
    now: i64,
)
    requires
        s.has_room(),
        now <= i64::MAX - 2,
    ensures
        ({
            let n = failed(s, task, run_id, kind, user_message, detail, now);
            let retries = count_where(
                s.attempts,
                |a: AttemptView| a.task_id == task.id && a.automatic_retry,
            );
            &&& n.tasks.len() == s.tasks.len()
            &&& forall|t: int|
                0 <= t < s.tasks.len() ==> if s.tasks[t].id != task.id {
                    #[trigger] n.tasks[t] == s.tasks[t]
                } else if kind is Transient && retries < 2 {
                    n.tasks[t].status is Queued && n.tasks[t].current_stage is None
                        && n.tasks[t].next_run_at == now + retries + 1
                } else {
                    n.tasks[t].status is Failed
                }
            &&& forall|a: int|
                0 <= a < s.attempts.len() ==> if s.attempts[a].task_id == task.id
                    && s.attempts[a].status is Running && s.attempts[a].claim_generation == Some(
                    task.generation,
                ) {
                    (#[trigger] n.attempts[a]).status is Failed && n.attempts[a].error_kind == Some(
                        kind,
                    ) && n.attempts[a].user_message == Some(user_message)
                        && n.attempts[a].technical_detail == Some(detail)
                        && n.attempts[a].finished_at == Some(now)
                } else {
                    n.attempts[a] == s.attempts[a]
                }
            &&& if kind is Transient && retries < 2 {
                &&& n.attempts.len() == s.attempts.len() + 1
                &&& n.attempts.last().task_id == task.id
                &&& n.attempts.last().status is Queued
                &&& n.attempts.last().automatic_retry
                &&& forall|a: int|
                    0 <= a < s.attempts.len() && (#[trigger] s.attempts[a]).task_id == task.id
                        ==> s.attempts[a].attempt_number < n.attempts.last().attempt_number
            } else {
                n.attempts.len() == s.attempts.len()
            }
        }),
{
    let n = failed(s, task, run_id, kind, user_message, detail, now);
    let retries = count_where(
        s.attempts,
        |a: AttemptView| a.task_id == task.id && a.automatic_retry,
    );
    assert(automatic_of(task.id) =~= |a: AttemptView| a.task_id == task.id && a.automatic_retry);
    let stopped = failure_noted(s, task, run_id, kind, user_message, detail, now).attempts;
    lemma_count_agrees(s.attempts, stopped, task.id);
    assert(automatic_retries(s.attempts, task.id) == retries);
    lemma_numbers_grow(stopped, task.id);
    assert forall|a: int| 0 <= a < s.attempts.len() && (#[trigger] s.attempts[a]).task_id
        == task.id implies s.attempts[a].attempt_number <= last_number(stopped, task.id) by {
        assert(stopped[a].task_id == task.id);
    }
}

/// A resource whose page could not be fetched is checked; it counts the failure
/// unless the failure passes, and is broken after three of them, or at once
/// where the address is gone.
pub proof fn fetch_failures_break_a_resource(
    s: StoreView,
    resource_id: i64,
    kind: ErrorKind,
    detail: Seq<char>,
    now: i64,
)
    requires
        s.has_room(),
    ensures
        ({
            let n = source_failed(s, resource_id, kind, detail, now);
            let low = ascii_lower(detail);
            let gone = contains(low, "404"@) || contains(low, "410"@) || contains(
                low,
                "invalid url"@,
            ) || contains(low, "unsupported url"@);
            &&& n.resources.len() == s.resources.len()
            &&& n.revisions.resource == s.revisions.resource + 1
            &&& n.revisions.article == s.revisions.article
            &&& forall|r: int|
                0 <= r < s.resources.len() ==> if s.resources[r].id != resource_id {
                    #[trigger] n.resources[r] == s.resources[r]
                } else if kind is Transient {
                    n.resources[r].last_checked_at == Some(now) && n.resources[r].health
                        == s.resources[r].health && n.resources[r].source_failure_count
                        == s.resources[r].source_failure_count && n.resources[r].updated_at
                        == s.resources[r].updated_at
                } else {
                    &&& n.resources[r].last_checked_at == Some(now)
                    &&& n.resources[r].updated_at == now
                    &&& n.resources[r].source_failure_count == s.resources[r].source_failure_count
                        + 1
                    &&& gone || n.resources[r].source_failure_count >= 3
                        ==> n.resources[r].health is Broken
                    &&& !gone && n.resources[r].source_failure_count < 3
                        ==> n.resources[r].health == s.resources[r].health
                }
        }),
{
}

/// A failure counts against the source exactly while a resource is fetched.
pub proof fn sources_fail_only_while_fetching(
    s: StoreView,
    task: ClaimedTask,
    run_id: Option<i64>,
    kind: ErrorKind,
    user_message: Seq<char>,
    detail: Seq<char>,
    now: i64,
    t: int,
)
    requires
        s.has_room(),
        now <= i64::MAX - 2,
        0 <= t < s.tasks.len(),
        s.tasks[t].id == task.id,
        forall|j: int| 0 <= j < t ==> (#[trigger] s.tasks[j]).id != task.id,
    ensures
        ({
            let n = failed(s, task, run_id, kind, user_message, detail, now);
            if task.key.kind is ResourceCompletion && s.tasks[t].current_stage == Some(
                TaskStage::Fetching,
            ) {
                n.resources == source_failed(s, task.key.target_id, kind, detail, now).resources
                    && n.revisions.resource == s.revisions.resource + 1
            } else {
                n.resources == s.resources && n.revisions == s.revisions
            }
        }),
{
    lemma_first_kept(s.tasks, numbered(task.id), unordered());
    assert((numbered(task.id))(s.tasks[t]));
    let k = task_position(s, task.id)->0;
    if k < t {
        assert((numbered(task.id))(s.tasks[k]));
    }
}

// ---- draining ---------------------------------------------------------------

/// Interrupting stops exactly the tasks that are hit: they and their running
/// attempts are told as interrupted, with the reason, and their open runs have
/// failed. Everything else stays.
pub proof fn interruption_stops_what_it_hits(
    s: StoreView,
    hit: spec_fn(TaskRow) -> bool,
    generation: Option<i64>,
    user_message: Seq<char>,
    detail: Seq<char>,
    run_message: Seq<char>,
    now: i64,
)
    ensures
        ({
            let n = interrupted(s, hit, generation, user_message, detail, run_message, now);
            &&& n.tasks.len() == s.tasks.len() && n.attempts.len() == s.attempts.len()
                && n.runs.len() == s.runs.len()
            &&& forall|t: int|
                0 <= t < s.tasks.len() ==> if hit(s.tasks[t]) {
                    (#[trigger] n.tasks[t]).status is Interrupted && n.tasks[t].current_stage
                        is None && n.tasks[t].updated_at == now && n.tasks[t].id == s.tasks[t].id
                } else {
                    n.tasks[t] == s.tasks[t]
                }
            &&& forall|a: int|
                0 <= a < s.attempts.len() ==> {
                    let stops = s.attempts[a].status is Running && (generation is Some
                        ==> s.attempts[a].claim_generation == generation) && exists|t: int|
                        0 <= t < s.tasks.len() && (#[trigger] s.tasks[t]).id
                            == s.attempts[a].task_id && hit(s.tasks[t]);
                    if stops {
                        (#[trigger] n.attempts[a]).status is Interrupted
                            && n.attempts[a].error_kind == Some(ErrorKind::Interrupted)
                            && n.attempts[a].user_message == Some(user_message)
                            && n.attempts[a].technical_detail == Some(detail)
                            && n.attempts[a].finished_at == Some(now)
                    } else {
                        n.attempts[a] == s.attempts[a]
                    }
                }
            &&& forall|k: int|
                0 <= k < s.runs.len() ==> #[trigger] n.runs[k] == s.runs[k] || (
                n.runs[k].status is Failed && (s.runs[k].status is Pending
                    || s.runs[k].status is Running) && n.runs[k].error_code == Some(
                    "EXECUTOR_INTERRUPTED"@,
                ) && n.runs[k].error_message == Some(run_message) && n.runs[k].finished_at == Some(
                    now,
                ))
            &&& forall|k: int, a: int, t: int|
                0 <= k < s.runs.len() && 0 <= a < s.attempts.len() && 0 <= t < s.tasks.len() && (
                s.runs[k].status is Pending || s.runs[k].status is Running) && (
                #[trigger] s.attempts[a]).id == s.runs[k].attempt_id && s.attempts[a].task_id == (
                #[trigger] s.tasks[t]).id && hit(s.tasks[t]) ==> (
                #[trigger] n.runs[k]).status is Failed
            &&& n.lease == s.lease && n.revisions == s.revisions
        }),
{
    let n = interrupted(s, hit, generation, user_message, detail, run_message, now);
    assert forall|k: int, a: int, t: int|
        0 <= k < s.runs.len() && 0 <= a < s.attempts.len() && 0 <= t < s.tasks.len() && (
        s.runs[k].status is Pending || s.runs[k].status is Running) && (
        #[trigger] s.attempts[a]).id == s.runs[k].attempt_id && s.attempts[a].task_id == (
        #[trigger] s.tasks[t]).id && hit(s.tasks[t]) implies (
    #[trigger] n.runs[k]).status is Failed by {
        assert(hits(s.tasks, hit, s.attempts[a].task_id));
        assert(run_of_hit(s, hit, s.runs[k]));
    }
}

/// An executor that takes over interrupts exactly the running tasks with an
/// attempt that runs under another generation; one that shuts down, those that
/// run under its own.
pub proof fn interruption_is_for_running_tasks(s: StoreView, generation: i64, t: TaskRow)
    ensures
        (stale(s, generation))(t) <==> t.status is Running && exists|a: int|
            0 <= a < s.attempts.len() && (#[trigger] s.attempts[a]).task_id == t.id
                && s.attempts[a].status is Running && s.attempts[a].claim_generation != Some(
                generation,
            ),
        (executed_by(s, generation))(t) <==> exists|a: int|
            0 <= a < s.attempts.len() && (#[trigger] s.attempts[a]).task_id == t.id
                && s.attempts[a].status is Running && s.attempts[a].claim_generation == Some(
                generation,
            ),
{
}

/// What ended is forgotten after ninety days, and nothing that is pending.
pub proof fn history_is_kept_for_ninety_days(now: i64, t: TaskRow)
    ensures
        (expired(now))(t) <==> (t.status is Succeeded || t.status is Failed
            || t.status is Interrupted) && t.updated_at + 90 * 86_400 < now,
{
}

// ---- what readers are shown -------------------------------------------------

/// A request is taken only for what is there: a resource of this number, or an
/// article.
pub proof fn requests_need_their_target(s: StoreView, key: TaskKey)
    ensures
        key.kind is ResourceCompletion ==> (target_exists(s, key) <==> exists|i: int|
            0 <= i < s.resources.len() && (#[trigger] s.resources[i]).id == key.target_id),
        key.kind is ArticleSummary ==> (target_exists(s, key) <==> s.article_ids.contains(
            key.target_id,
        )),
{
}

/// What is shown of a key is its latest task that was ever attempted, with its
/// latest attempt: the state, the stage and the number of changes of the one,
/// and the number and the error of the other.
pub proof fn the_latest_attempt_is_shown(
    s: StoreView,
    key: TaskKey,
    shown: TaskSnapshot,
    t: int,
    a: int,
)
    requires
        latest_attempted(s, key) == Some(t),
        latest_attempt(s, s.tasks[t].id) == Some(a),
        shows(s, key, shown, t, a),
    ensures
        0 <= t < s.tasks.len() && 0 <= a < s.attempts.len(),
        s.tasks[t].key == key,
        s.attempts[a].task_id == s.tasks[t].id,
        forall|j: int|
            0 <= j < s.attempts.len() && (#[trigger] s.attempts[j]).task_id == s.tasks[t].id
                ==> s.attempts[j].attempt_number <= s.attempts[a].attempt_number,
        forall|j: int, b: int|
            0 <= j < s.tasks.len() && (#[trigger] s.tasks[j]).key == key && 0 <= b
                < s.attempts.len() && (#[trigger] s.attempts[b]).task_id == s.tasks[j].id
                ==> s.tasks[j].created_at < s.tasks[t].created_at || (s.tasks[j].created_at
                == s.tasks[t].created_at && s.tasks[j].id <= s.tasks[t].id),
        shown.task_id == s.tasks[t].id,
        shown.key == key,
        shown.status == s.tasks[t].status,
        shown.current_stage == s.tasks[t].current_stage,
        shown.change_seq == s.tasks[t].change_seq,
        shown.attempt_number == s.attempts[a].attempt_number,
        shown.automatic_retry == s.attempts[a].automatic_retry,
        shown.error_kind == s.attempts[a].error_kind,
        text_opt(shown.user_message) == s.attempts[a].user_message,
        text_opt(shown.technical_detail) == s.attempts[a].technical_detail,
{
    lemma_newer_is_an_order();
    lemma_first_by(s.tasks, attempted(s, key), newer());
    let keep = wanted_attempt(s.tasks[t].id, false, None);
    lemma_first_by(s.attempts, keep, later());
    assert forall|j: int| 0 <= j < s.attempts.len() && (#[trigger] s.attempts[j]).task_id
        == s.tasks[t].id implies s.attempts[j].attempt_number <= s.attempts[a].attempt_number by {
        assert(keep(s.attempts[j]));
        assert(!(later())(s.attempts[j], s.attempts[a]));
    }
    assert forall|j: int, b: int|
        0 <= j < s.tasks.len() && (#[trigger] s.tasks[j]).key == key && 0 <= b < s.attempts.len()
            && (#[trigger] s.attempts[b]).task_id == s.tasks[j].id implies s.tasks[j].created_at
        < s.tasks[t].created_at || (s.tasks[j].created_at == s.tasks[t].created_at && s.tasks[j].id
        <= s.tasks[t].id) by {
        let mine = wanted_attempt(s.tasks[j].id, false, None);
        lemma_first_by_index(s.attempts, mine, later());
        assert(mine(s.attempts[b]));
        assert((attempted(s, key))(s.tasks[j]));
        assert(!(newer())(s.tasks[j], s.tasks[t]));
    }
}

/// A run that begins is one for the resource of the task and the attempt that
/// runs, by the provider and the model that are configured; it is open, and
/// stands behind the runs before it.
pub proof fn runs_begin_open(
    s: StoreView,
    task: ClaimedTask,
    config: EnrichmentConfig,
    snapshot_id: Option<i64>,
    attempt_id: i64,
    now: i64,
)
    requires
        s.has_room(),
    ensures
        ({
            let n = run_started(s, task, config, snapshot_id, attempt_id, now);
            let run = n.runs.last();
            &&& n.runs.len() == s.runs.len() + 1
            &&& forall|k: int| 0 <= k < s.runs.len() ==> #[trigger] n.runs[k] == s.runs[k]
            &&& run.id == s.next_run_id && n.next_run_id == s.next_run_id + 1
            &&& run.resource_id == task.key.target_id
            &&& run.snapshot_id == snapshot_id
            &&& run.attempt_id == attempt_id
            &&& run.provider == config.provider@ && run.model == config.model@
            &&& run.prompt_version == config.prompt_version@
            &&& run.schema_version == config.schema_version@
            &&& run.status is Running && run.started_at == now
            &&& run.finished_at is None && run.error_code is None && run.error_message is None
            &&& n.tasks == s.tasks && n.attempts == s.attempts && n.resources == s.resources
        }),
{
}

/// A failure closes the run that it names, or else the open runs of the
/// attempt that ran under the claim, with its code and its detail.
pub proof fn failures_close_their_run(
    s: StoreView,
    task: ClaimedTask,
    run_id: i64,
    kind: ErrorKind,
    user_message: Seq<char>,
    detail: Seq<char>,
    now: i64,
)
    requires
        s.has_room(),
        now <= i64::MAX - 2,
    ensures
        ({
            let n = failed(s, task, Some(run_id), kind, user_message, detail, now);
            &&& n.runs.len() == s.runs.len()
            &&& forall|k: int|
                0 <= k < s.runs.len() ==> if s.runs[k].id == run_id {
                    (#[trigger] n.runs[k]).status is Failed && n.runs[k].finished_at == Some(now)
                        && n.runs[k].error_code == Some(error_code(kind))
                        && n.runs[k].error_message == Some(detail)
                } else {
                    n.runs[k] == s.runs[k]
                }
        }),
        ({
            let n = failed(s, task, None, kind, user_message, detail, now);
            &&& n.runs.len() == s.runs.len()
            &&& forall|k: int|
                0 <= k < s.runs.len() && !(s.runs[k].status is Pending)
                    && !(s.runs[k].status is Running) ==> #[trigger] n.runs[k] == s.runs[k]
            &&& forall|k: int|
                0 <= k < s.runs.len() ==> #[trigger] n.runs[k] == s.runs[k] || (
                n.runs[k].status is Failed && n.runs[k].error_code == Some(error_code(kind)) && exists|
                    a: int,
                |
                    0 <= a < s.attempts.len() && (#[trigger] s.attempts[a]).id
                        == s.runs[k].attempt_id && s.attempts[a].task_id == task.id
                        && s.attempts[a].claim_generation == Some(task.generation))
        }),
{
    let n = failed(s, task, None, kind, user_message, detail, now);
    let noted = failure_noted(s, task, None, kind, user_message, detail, now);
    let keep = wanted_attempt(task.id, false, Some(task.generation));
    lemma_first_by_index(noted.attempts, keep, later());
    match first_by(noted.attempts, keep, later()) {
        Some(a) => {
            assert(s.attempts[a].id == noted.attempts[a].id && s.attempts[a].task_id == task.id
                && s.attempts[a].claim_generation == Some(task.generation));
        },
        None => {},
    }
}

/// Observers are told of exactly the tasks that changed after what they have
/// seen.
pub proof fn observers_see_later_changes(cursor: i64, t: TaskRow)
    ensures
        (after_cursor(cursor))(t) <==> t.change_seq > cursor,
{
}

/// A refusal of the store is told by its code, and by what it is about.
pub proof fn refusals_of_the_store_are_told(id: i64)
    ensures
        failure_text(StoreFailure::Maintenance) == "MAINTENANCE_IN_PROGRESS"@,
        failure_text(
            StoreFailure::TargetNotFound(
                TaskKey { kind: TaskKind::ResourceCompletion, target_id: id },
            ),
        ) == "WORKFLOW_TARGET_NOT_FOUND: "@ + "ResourceCompletion"@ + " "@ + signed(id as int),
        failure_text(
            StoreFailure::TargetNotFound(TaskKey { kind: TaskKind::ArticleSummary, target_id: id }),
        ) == "WORKFLOW_TARGET_NOT_FOUND: "@ + "ArticleSummary"@ + " "@ + signed(id as int),
        failure_text(StoreFailure::TaskMissing) == "WORKFLOW_TASK_MISSING"@,
        failure_text(StoreFailure::ResourceProcessingActive(id)) == "RESOURCE_PROCESSING_ACTIVE: "@
            + signed(id as int),
        failure_text(StoreFailure::ArticleSummaryActive(id)) == "ARTICLE_SUMMARY_ACTIVE: "@
            + signed(id as int),
{
}

/// A key is active while one of its tasks waits or runs; then it cannot be
/// deleted. Deleting forgets its tasks and no others.
pub proof fn active_keys_have_a_pending_task(s: StoreView, key: TaskKey, t: TaskRow)
    ensures
        active(s, key) <==> exists|i: int|
            0 <= i < s.tasks.len() && (#[trigger] s.tasks[i]).key == key && (
            s.tasks[i].status is Queued || s.tasks[i].status is Running),
        (with_target(key))(t) <==> t.key == key,
        without(s, with_target(key)).tasks == s.tasks.filter(|u: TaskRow| u.key != key),
        without(s, with_target(key)).article_ai == s.article_ai,
        without(s, with_target(key)).resources == s.resources,
{
    assert forall|i: int| 0 <= i < s.tasks.len() implies pending(
        (#[trigger] s.tasks[i]).status,
    ) == (s.tasks[i].status is Queued || s.tasks[i].status is Running) by {}
    let gone = with_target(key);
    assert((|u: TaskRow| !gone(u)) =~= (|u: TaskRow| u.key != key));
}

/// A fetched page is known by the digest of its text; one without text by that
/// of nothing.
pub proof fn pages_are_known_by_their_text(input: SnapshotInput)
    ensures
        input.cleaned_content matches Some(content) ==> content_hash(input) == content_digest(
            encode_utf8(content@),
        ),
        input.cleaned_content is None ==> content_hash(input) == content_digest(encode_utf8(""@)),
{
}

/// A run belongs to the attempt that runs under the claim.
pub proof fn runs_belong_to_the_running_attempt(s: StoreView, owner: Seq<char>, task: ClaimedTask)
    requires
        fence(s, owner, task),
    ensures
        running_position(s, task) matches Some(k) && 0 <= k < s.attempts.len()
            && s.attempts[k].task_id == task.id && s.attempts[k].status is Running
            && s.attempts[k].claim_generation == Some(task.generation),
{
    let keep = |a: AttemptView| running_attempt(a, task.id, Some(task.generation));
    let none = |a: AttemptView, b: AttemptView| false;
    lemma_first_by_index(s.attempts, keep, none);
    assert(running_position(s, task) == first_by(s.attempts, keep, none));
    let i = choose|i: int|
        0 <= i < s.attempts.len() && running_attempt(
            #[trigger] s.attempts[i],
            task.id,
            Some(task.generation),
        );
    assert(keep(s.attempts[i]));
}

/// Observers are told of changes in the order in which they were made.
pub proof fn changes_come_in_their_order(rows: Seq<TaskRow>, i: int, j: int)
    requires
        in_change_order(rows),
        0 <= i < j < rows.len(),
    ensures
        rows[i].change_seq <= rows[j].change_seq,
        rows[i].change_seq == rows[j].change_seq ==> rows[i].id <= rows[j].id,
{
}

} // verus!
