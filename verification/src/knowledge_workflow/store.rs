//! The workflow store: every durable decision about tasks, attempts and the
//! executor lease.

use vstd::prelude::*;

use crate::digest::{content_digest, digest};
use crate::knowledge_workflow::effects::completed_articles_hold_the_new_text;
use crate::knowledge_workflow::failure::{
    class_message, classify_error, error_class, sanitize_detail, sanitized,
};
use crate::knowledge_workflow::rows::{
    attempt_changed, attempt_staged, attempt_started, attempt_stopped, attempt_succeeded,
    clone_text, new_attempt, open_run, queued_attempt, resource_fetch_failed, resource_fetched,
    run_failed, run_succeeded, task_changed, ArticleAiRow, ArticleAiView, AttemptChange, AttemptRow,
    AttemptView, EnrichmentOutput, EnrichmentRow, EnrichmentView, LeaseRow, LeaseView, OutputView,
    ResourceRow, ResourceView, RunRow, RunStatus, RunView,
    SnapshotInput, SnapshotRow, SnapshotView, TaskChange, TaskRow,
};
use crate::knowledge_workflow::select::{count_where, first_by, lemma_first_by_index};
use crate::knowledge_workflow::types::{
    error_code, pending, ErrorKind, RequestDisposition, RequestReceipt, TaskKey, TaskKind,
    TaskSnapshot, TaskStage, TaskStatus,
};
use crate::library_projection_revision::{LibraryProjectionRevision, ProjectionImpact};
use crate::number::{decimal_i64, signed};
use crate::text::{ascii_lower, chars_of, contains, contains_text, same_text, text_opt, to_ascii_lower};

verus! {

/// How often a task is retried without being asked.
pub const MAX_AUTOMATIC_RETRIES: i64 = 2;

/// An owner that was not heard of for this long has lost the lease.
pub const LEASE_EXPIRES_SECS: i64 = 15;

/// Finished tasks are kept this long.
pub const RETENTION_SECONDS: i64 = 7_776_000;

pub ghost struct StoreView {
    pub fenced: bool,
    pub tasks: Seq<TaskRow>,
    pub attempts: Seq<AttemptView>,
    pub runs: Seq<RunView>,
    pub resources: Seq<ResourceView>,
    pub snapshots: Seq<SnapshotView>,
    pub article_ids: Seq<i64>,
    pub article_ai: Seq<ArticleAiView>,
    pub enrichments: Seq<EnrichmentView>,
    pub lease: LeaseView,
    pub clock: i64,
    pub revisions: LibraryProjectionRevision,
    pub next_task_id: i64,
    pub next_attempt_id: i64,
    pub next_run_id: i64,
    pub next_snapshot_id: i64,
}

/// The rows as one transaction sees them. `fenced` says that data maintenance
/// was active when the transaction was opened: it may then only drain.
#[derive(Debug)]
pub struct WorkflowStore {
    pub fenced: bool,
    pub tasks: Vec<TaskRow>,
    pub attempts: Vec<AttemptRow>,
    pub runs: Vec<RunRow>,
    pub resources: Vec<ResourceRow>,
    pub snapshots: Vec<SnapshotRow>,
    pub article_ids: Vec<i64>,
    pub article_ai: Vec<ArticleAiRow>,
    /// The answers that were applied to resources, the latest last.
    pub enrichments: Vec<EnrichmentRow>,
    pub lease: LeaseRow,
    pub clock: i64,
    pub revisions: LibraryProjectionRevision,
    pub next_task_id: i64,
    pub next_attempt_id: i64,
    pub next_run_id: i64,
    pub next_snapshot_id: i64,
}

pub open spec fn attempt_views(s: Seq<AttemptRow>) -> Seq<AttemptView> {
    s.map_values(|a: AttemptRow| a@)
}

pub open spec fn run_views(s: Seq<RunRow>) -> Seq<RunView> {
    s.map_values(|r: RunRow| r@)
}

pub open spec fn resource_views(s: Seq<ResourceRow>) -> Seq<ResourceView> {
    s.map_values(|r: ResourceRow| r@)
}

pub open spec fn snapshot_views(s: Seq<SnapshotRow>) -> Seq<SnapshotView> {
    s.map_values(|r: SnapshotRow| r@)
}

pub open spec fn article_ai_views(s: Seq<ArticleAiRow>) -> Seq<ArticleAiView> {
    s.map_values(|r: ArticleAiRow| r@)
}

pub open spec fn enrichment_views(s: Seq<EnrichmentRow>) -> Seq<EnrichmentView> {
    s.map_values(|r: EnrichmentRow| r@)
}

impl View for WorkflowStore {
    type V = StoreView;

    open spec fn view(&self) -> StoreView {
        StoreView {
            fenced: self.fenced,
            tasks: self.tasks@,
            attempts: attempt_views(self.attempts@),
            runs: run_views(self.runs@),
            resources: resource_views(self.resources@),
            snapshots: snapshot_views(self.snapshots@),
            article_ids: self.article_ids@,
            article_ai: article_ai_views(self.article_ai@),
            enrichments: enrichment_views(self.enrichments@),
            lease: self.lease@,
            clock: self.clock,
            revisions: self.revisions,
            next_task_id: self.next_task_id,
            next_attempt_id: self.next_attempt_id,
            next_run_id: self.next_run_id,
            next_snapshot_id: self.next_snapshot_id,
        }
    }
}

impl StoreView {
    /// Every counter can still advance as far as one operation needs.
    pub open spec fn has_room(self) -> bool {
        &&& self.clock + self.tasks.len() < i64::MAX
        &&& self.lease.generation < i64::MAX
        &&& self.next_task_id < i64::MAX
        &&& self.next_attempt_id < i64::MAX
        &&& self.next_run_id < i64::MAX
        &&& self.next_snapshot_id < i64::MAX
        &&& self.revisions.has_room()
        &&& forall|i: int|
            0 <= i < self.attempts.len() ==> (#[trigger] self.attempts[i]).attempt_number
                < i64::MAX
        &&& forall|i: int|
            0 <= i < self.resources.len() ==> (#[trigger] self.resources[i]).source_failure_count
                < i64::MAX
    }
}

#[derive(Debug, Clone, Copy, PartialEq, Eq, Structural)]
pub enum StoreFailure {
    /// Data maintenance is active; only draining writes are admitted.
    Maintenance,
    TargetNotFound(TaskKey),
    /// The claimed task has no row.
    TaskMissing,
    ResourceProcessingActive(i64),
    ArticleSummaryActive(i64),
}

pub open spec fn failure_text(failure: StoreFailure) -> Seq<char> {
    match failure {
        StoreFailure::Maintenance => "MAINTENANCE_IN_PROGRESS"@,
        StoreFailure::TargetNotFound(key) => "WORKFLOW_TARGET_NOT_FOUND: "@ + (match key.kind {
            TaskKind::ResourceCompletion => "ResourceCompletion"@,
            TaskKind::ArticleSummary => "ArticleSummary"@,
        }) + " "@ + signed(key.target_id as int),
        StoreFailure::TaskMissing => "WORKFLOW_TASK_MISSING"@,
        StoreFailure::ResourceProcessingActive(id) => "RESOURCE_PROCESSING_ACTIVE: "@ + signed(
            id as int,
        ),
        StoreFailure::ArticleSummaryActive(id) => "ARTICLE_SUMMARY_ACTIVE: "@ + signed(id as int),
    }
}

impl StoreFailure {
    pub fn message(self) -> (r: String)
        ensures
            r@ == failure_text(self),
    {
        match self {
            StoreFailure::Maintenance => "MAINTENANCE_IN_PROGRESS".to_owned(),
            StoreFailure::TargetNotFound(key) => {
                let mut text = "WORKFLOW_TARGET_NOT_FOUND: ".to_owned();
                match key.kind {
                    TaskKind::ResourceCompletion => text.append("ResourceCompletion"),
                    TaskKind::ArticleSummary => text.append("ArticleSummary"),
                }
                text.append(" ");
                text.append(&decimal_i64(key.target_id));
                text
            },
            StoreFailure::TaskMissing => "WORKFLOW_TASK_MISSING".to_owned(),
            StoreFailure::ResourceProcessingActive(id) => {
                let mut text = "RESOURCE_PROCESSING_ACTIVE: ".to_owned();
                text.append(&decimal_i64(id));
                text
            },
            StoreFailure::ArticleSummaryActive(id) => {
                let mut text = "ARTICLE_SUMMARY_ACTIVE: ".to_owned();
                text.append(&decimal_i64(id));
                text
            },
        }
    }
}

/// A task that an executor has taken up, with the generation it holds.
#[derive(Debug, Clone, Copy, PartialEq, Eq, Structural)]
pub struct ClaimedTask {
    pub id: i64,
    pub key: TaskKey,
    pub generation: i64,
}

// ---- rows by identity -------------------------------------------------------

pub open spec fn tasks_changed(
    tasks: Seq<TaskRow>,
    id: i64,
    change: TaskChange,
    seq: i64,
) -> Seq<TaskRow> {
    tasks.map_values(
        |t: TaskRow|
            if t.id == id {
                task_changed(t, change, seq)
            } else {
                t
            },
    )
}

fn change_tasks(tasks: &mut Vec<TaskRow>, id: i64, change: TaskChange, seq: i64)
    ensures
        final(tasks)@ == tasks_changed(old(tasks)@, id, change, seq),
{
    let mut i: usize = 0;
    let ghost before = tasks@;
    while i < tasks.len()
        invariant
            i <= tasks.len(),
            tasks.len() == before.len(),
            forall|k: int|
                0 <= k < i ==> #[trigger] tasks@[k] == (if before[k].id == id {
                    task_changed(before[k], change, seq)
                } else {
                    before[k]
                }),
            forall|k: int| i <= k < before.len() ==> #[trigger] tasks@[k] == before[k],
        decreases tasks.len() - i,
    {
        let row = tasks[i];
        if row.id == id {
            tasks.set(i, row.changed(change, seq));
        }
        i += 1;
    }
    proof {
        assert(tasks@ =~= tasks_changed(before, id, change, seq));
    }
}

/// A running attempt of the task, of the given generation where one is given.
pub open spec fn running_attempt(a: AttemptView, task_id: i64, generation: Option<i64>) -> bool {
    a.task_id == task_id && a.status is Running && (generation is Some ==> a.claim_generation
        == generation)
}

impl AttemptRow {
    fn runs_for(&self, task_id: i64, generation: Option<i64>) -> (r: bool)
        ensures
            r == running_attempt(self@, task_id, generation),
    {
        self.task_id == task_id && matches!(self.status, TaskStatus::Running) && (match generation {
            None => true,
            Some(wanted) => match self.claim_generation {
                Some(claimed) => claimed == wanted,
                None => false,
            },
        })
    }
}

fn change_attempts(
    attempts: &mut Vec<AttemptRow>,
    task_id: i64,
    generation: Option<i64>,
    change: &AttemptChange,
)
    ensures
        attempt_views(final(attempts)@) == attempt_views(old(attempts)@).map_values(
            |a: AttemptView|
                if running_attempt(a, task_id, generation) {
                    attempt_changed(a, *change)
                } else {
                    a
                },
        ),
{
    let mut i: usize = 0;
    let ghost before = attempts@;
    while i < attempts.len()
        invariant
            i <= attempts.len(),
            attempts.len() == before.len(),
            forall|k: int|
                0 <= k < i ==> (#[trigger] attempts@[k])@ == (if running_attempt(
                    before[k]@,
                    task_id,
                    generation,
                ) {
                    attempt_changed(before[k]@, *change)
                } else {
                    before[k]@
                }),
            forall|k: int| i <= k < before.len() ==> #[trigger] attempts@[k] == before[k],
        decreases attempts.len() - i,
    {
        if attempts[i].runs_for(task_id, generation) {
            let row = attempts[i].changed(change);
            attempts.set(i, row);
        }
        i += 1;
    }
    proof {
        assert(attempt_views(attempts@) =~= attempt_views(before).map_values(
            |a: AttemptView|
                if running_attempt(a, task_id, generation) {
                    attempt_changed(a, *change)
                } else {
                    a
                },
        ));
    }
}

// ---- orders and selections --------------------------------------------------

pub open spec fn with_key(key: TaskKey) -> spec_fn(TaskRow) -> bool {
    |t: TaskRow| t.key == key
}

/// Newest first: by creation, then by number.
pub open spec fn newer() -> spec_fn(TaskRow, TaskRow) -> bool {
    |a: TaskRow, b: TaskRow|
        a.created_at > b.created_at || (a.created_at == b.created_at && a.id > b.id)
}

pub open spec fn due(now: i64) -> spec_fn(TaskRow) -> bool {
    |t: TaskRow| t.status is Queued && t.next_run_at <= now
}

/// The order in which waiting tasks are taken up.
pub open spec fn sooner() -> spec_fn(TaskRow, TaskRow) -> bool {
    |a: TaskRow, b: TaskRow|
        a.next_run_at < b.next_run_at || (a.next_run_at == b.next_run_at && (a.created_at
            < b.created_at || (a.created_at == b.created_at && a.id < b.id)))
}

/// Latest attempt first.
pub open spec fn later() -> spec_fn(AttemptView, AttemptView) -> bool {
    |a: AttemptView, b: AttemptView|
        a.attempt_number > b.attempt_number || (a.attempt_number == b.attempt_number && a.id > b.id)
}

/// The newest task for `key`.
pub open spec fn latest_task(tasks: Seq<TaskRow>, key: TaskKey) -> Option<int> {
    first_by(tasks, with_key(key), newer())
}

fn find_latest_task(tasks: &[TaskRow], key: TaskKey) -> (r: Option<usize>)
    ensures
        match r {
            Some(k) => latest_task(tasks@, key) == Some(k as int) && k < tasks.len(),
            None => latest_task(tasks@, key) is None,
        },
{
    let mut best: Option<usize> = None;
    let mut i: usize = 0;
    while i < tasks.len()
        invariant
            i <= tasks.len(),
            match best {
                Some(k) => k < i && latest_task(tasks@.take(i as int), key) == Some(k as int),
                None => latest_task(tasks@.take(i as int), key) is None,
            },
        decreases tasks.len() - i,
    {
        proof {
            assert(tasks@.take(i + 1).drop_last() =~= tasks@.take(i as int));
        }
        let row = tasks[i];
        if row.key.kind == key.kind && row.key.target_id == key.target_id {
            match best {
                None => {
                    best = Some(i);
                },
                Some(k) => {
                    let other = tasks[k];
                    if row.created_at > other.created_at || (row.created_at == other.created_at
                        && row.id > other.id) {
                        best = Some(i);
                    }
                },
            }
        }
        i += 1;
    }
    proof {
        assert(tasks@.take(tasks@.len() as int) =~= tasks@);
    }
    best
}

/// The waiting task that is taken up next.
pub open spec fn next_due(tasks: Seq<TaskRow>, now: i64) -> Option<int> {
    first_by(tasks, due(now), sooner())
}

fn find_next_due(tasks: &[TaskRow], now: i64) -> (r: Option<usize>)
    ensures
        match r {
            Some(k) => next_due(tasks@, now) == Some(k as int) && k < tasks.len(),
            None => next_due(tasks@, now) is None,
        },
{
    let mut best: Option<usize> = None;
    let mut i: usize = 0;
    while i < tasks.len()
        invariant
            i <= tasks.len(),
            match best {
                Some(k) => k < i && next_due(tasks@.take(i as int), now) == Some(k as int),
                None => next_due(tasks@.take(i as int), now) is None,
            },
        decreases tasks.len() - i,
    {
        proof {
            assert(tasks@.take(i + 1).drop_last() =~= tasks@.take(i as int));
        }
        let row = tasks[i];
        if matches!(row.status, TaskStatus::Queued) && row.next_run_at <= now {
            match best {
                None => {
                    best = Some(i);
                },
                Some(k) => {
                    let other = tasks[k];
                    if row.next_run_at < other.next_run_at || (row.next_run_at == other.next_run_at
                        && (row.created_at < other.created_at || (row.created_at == other.created_at
                        && row.id < other.id))) {
                        best = Some(i);
                    }
                },
            }
        }
        i += 1;
    }
    proof {
        assert(tasks@.take(tasks@.len() as int) =~= tasks@);
    }
    best
}

fn comes_later(a: &AttemptRow, b: &AttemptRow) -> (r: bool)
    ensures
        r == (later())(a@, b@),
{
    a.attempt_number > b.attempt_number || (a.attempt_number == b.attempt_number && a.id > b.id)
}

/// The latest attempt of a task; with `queued_only`, the latest that waits;
/// with a generation, the latest that it claimed.
pub open spec fn wanted_attempt(
    task_id: i64,
    queued_only: bool,
    generation: Option<i64>,
) -> spec_fn(AttemptView) -> bool {
    |a: AttemptView|
        a.task_id == task_id && (queued_only ==> a.status is Queued) && (generation is Some
            ==> a.claim_generation == generation)
}

fn find_attempt(
    attempts: &[AttemptRow],
    task_id: i64,
    queued_only: bool,
    generation: Option<i64>,
) -> (r: Option<usize>)
    ensures
        ({
            let keep = wanted_attempt(task_id, queued_only, generation);
            match r {
                Some(k) => first_by(attempt_views(attempts@), keep, later()) == Some(k as int) && k
                    < attempts.len(),
                None => first_by(attempt_views(attempts@), keep, later()) is None,
            }
        }),
{
    let ghost keep = wanted_attempt(task_id, queued_only, generation);
    let ghost all = attempt_views(attempts@);
    let mut best: Option<usize> = None;
    let mut i: usize = 0;
    while i < attempts.len()
        invariant
            i <= attempts.len(),
            keep == wanted_attempt(task_id, queued_only, generation),
            all == attempt_views(attempts@),
            match best {
                Some(k) => k < i && first_by(all.take(i as int), keep, later()) == Some(k as int),
                None => first_by(all.take(i as int), keep, later()) is None,
            },
        decreases attempts.len() - i,
    {
        proof {
            assert(all.take(i + 1).drop_last() =~= all.take(i as int));
            assert(all.take(i + 1).last() == attempts@[i as int]@);
        }
        let row = &attempts[i];
        let claimed: bool = match generation {
            None => true,
            Some(wanted) => match row.claim_generation {
                Some(value) => value == wanted,
                None => false,
            },
        };
        if row.task_id == task_id && (!queued_only || matches!(row.status, TaskStatus::Queued))
            && claimed {
            match best {
                None => {
                    best = Some(i);
                },
                Some(k) => {
                    proof {
                        assert(all.take(i + 1)[k as int] == attempts@[k as int]@);
                    }
                    if comes_later(row, &attempts[k]) {
                        best = Some(i);
                    }
                },
            }
        }
        i += 1;
    }
    proof {
        assert(all.take(all.len() as int) =~= all);
    }
    best
}

/// The number of the task's latest attempt, or 0.
pub open spec fn last_number(attempts: Seq<AttemptView>, task_id: i64) -> i64 {
    match first_by(attempts, wanted_attempt(task_id, false, None), later()) {
        Some(k) => attempts[k].attempt_number,
        None => 0,
    }
}

fn latest_number(attempts: &[AttemptRow], task_id: i64) -> (r: i64)
    ensures
        r == last_number(attempt_views(attempts@), task_id),
{
    match find_attempt(attempts, task_id, false, None) {
        Some(k) => attempts[k].attempt_number,
        None => 0,
    }
}

pub open spec fn automatic_of(task_id: i64) -> spec_fn(AttemptView) -> bool {
    |a: AttemptView| a.task_id == task_id && a.automatic_retry
}

/// How often the task was retried without being asked.
pub open spec fn automatic_retries(attempts: Seq<AttemptView>, task_id: i64) -> nat {
    count_where(attempts, automatic_of(task_id))
}

fn count_automatic(attempts: &[AttemptRow], task_id: i64) -> (r: usize)
    ensures
        r == automatic_retries(attempt_views(attempts@), task_id),
{
    let ghost all = attempt_views(attempts@);
    let mut count: usize = 0;
    let mut i: usize = 0;
    while i < attempts.len()
        invariant
            i <= attempts.len(),
            count <= i,
            all == attempt_views(attempts@),
            count == automatic_retries(all.take(i as int), task_id),
        decreases attempts.len() - i,
    {
        proof {
            assert(all.take(i + 1).drop_last() =~= all.take(i as int));
            assert(all.take(i + 1).last() == attempts@[i as int]@);
        }
        if attempts[i].task_id == task_id && attempts[i].automatic_retry {
            count += 1;
        }
        i += 1;
    }
    proof {
        assert(all.take(all.len() as int) =~= all);
    }
    count
}

// ---- the lease and its fence ------------------------------------------------

/// `owner` holds the lease in `generation`.
pub open spec fn owns(s: StoreView, owner: Seq<char>, generation: i64) -> bool {
    s.lease.owner_id == Some(owner) && s.lease.generation == generation
}

/// A running attempt of the task was claimed in `generation`.
pub open spec fn runs_in(s: StoreView, task_id: i64, generation: i64) -> bool {
    exists|i: int|
        0 <= i < s.attempts.len() && running_attempt(
            #[trigger] s.attempts[i],
            task_id,
            Some(generation),
        )
}

/// The executor may still write for the task: it holds the lease in the
/// generation that claimed it, and the claimed attempt still runs.
pub open spec fn fence(s: StoreView, owner: Seq<char>, task: ClaimedTask) -> bool {
    owns(s, owner, task.generation) && runs_in(s, task.id, task.generation)
}

/// The task of this number moves, and the change clock ticks once.
pub open spec fn with_task(s: StoreView, id: i64, change: TaskChange) -> StoreView {
    StoreView {
        tasks: tasks_changed(s.tasks, id, change, (s.clock + 1) as i64),
        clock: (s.clock + 1) as i64,
        ..s
    }
}

/// The running attempts of the task that the generation claimed move.
pub open spec fn with_attempts(
    s: StoreView,
    task_id: i64,
    generation: Option<i64>,
    f: spec_fn(AttemptView) -> AttemptView,
) -> StoreView {
    StoreView {
        attempts: s.attempts.map_values(
            |a: AttemptView|
                if running_attempt(a, task_id, generation) {
                    f(a)
                } else {
                    a
                },
        ),
        ..s
    }
}

/// One more attempt waits for the task.
pub open spec fn with_new_attempt(
    s: StoreView,
    task_id: i64,
    number: i64,
    automatic: bool,
    now: i64,
) -> StoreView {
    StoreView {
        attempts: s.attempts.push(
            queued_attempt(s.next_attempt_id, task_id, number, automatic, now),
        ),
        next_attempt_id: (s.next_attempt_id + 1) as i64,
        ..s
    }
}

// ---- requests ---------------------------------------------------------------

pub open spec fn target_exists(s: StoreView, key: TaskKey) -> bool {
    match key.kind {
        TaskKind::ResourceCompletion => exists|i: int|
            0 <= i < s.resources.len() && (#[trigger] s.resources[i]).id == key.target_id,
        TaskKind::ArticleSummary => s.article_ids.contains(key.target_id),
    }
}

/// What a request for `key` comes to: nothing while the newest task is still
/// pending, another attempt where it failed or was interrupted, a new task
/// otherwise.
pub open spec fn disposition_of(s: StoreView, key: TaskKey) -> RequestDisposition {
    match latest_task(s.tasks, key) {
        Some(k) => if pending(s.tasks[k].status) {
            RequestDisposition::Existing
        } else if s.tasks[k].status is Succeeded {
            RequestDisposition::Created
        } else {
            RequestDisposition::Retried
        },
        None => RequestDisposition::Created,
    }
}

pub open spec fn new_task(s: StoreView, key: TaskKey, now: i64) -> TaskRow {
    TaskRow {
        id: s.next_task_id,
        key,
        status: TaskStatus::Queued,
        current_stage: None,
        change_seq: (s.clock + 1) as i64,
        next_run_at: now,
        created_at: now,
        updated_at: now,
    }
}

pub open spec fn requested(s: StoreView, key: TaskKey, now: i64) -> StoreView {
    match disposition_of(s, key) {
        RequestDisposition::Existing => s,
        RequestDisposition::Retried => {
            let id = s.tasks[latest_task(s.tasks, key)->0].id;
            with_new_attempt(
                with_task(s, id, TaskChange::Requeue { next_run_at: now, now }),
                id,
                (last_number(s.attempts, id) + 1) as i64,
                false,
                now,
            )
        },
        RequestDisposition::Created => with_new_attempt(
            StoreView {
                tasks: s.tasks.push(new_task(s, key, now)),
                clock: (s.clock + 1) as i64,
                next_task_id: (s.next_task_id + 1) as i64,
                ..s
            },
            s.next_task_id,
            1,
            false,
            now,
        ),
    }
}

proof fn lemma_attempt_views_push(s: Seq<AttemptRow>, row: AttemptRow)
    ensures
        attempt_views(s.push(row)) == attempt_views(s).push(row@),
{
    assert(attempt_views(s.push(row)) =~= attempt_views(s).push(row@));
}

impl WorkflowStore {
    fn has_resource(&self, id: i64) -> (r: bool)
        ensures
            r == (exists|i: int|
                0 <= i < self@.resources.len() && (#[trigger] self@.resources[i]).id == id),
    {
        let mut i: usize = 0;
        while i < self.resources.len()
            invariant
                i <= self.resources.len(),
                forall|k: int| 0 <= k < i ==> (#[trigger] self@.resources[k]).id != id,
            decreases self.resources.len() - i,
        {
            if self.resources[i].id == id {
                proof {
                    assert(self@.resources[i as int].id == id);
                }
                return true;
            }
            i += 1;
        }
        false
    }

    fn has_article(&self, id: i64) -> (r: bool)
        ensures
            r == self@.article_ids.contains(id),
    {
        let mut i: usize = 0;
        while i < self.article_ids.len()
            invariant
                i <= self.article_ids.len(),
                forall|k: int| 0 <= k < i ==> self.article_ids@[k] != id,
            decreases self.article_ids.len() - i,
        {
            if self.article_ids[i] == id {
                return true;
            }
            i += 1;
        }
        false
    }

    fn change_task(&mut self, id: i64, change: TaskChange)
        requires
            old(self).clock < i64::MAX,
        ensures
            final(self)@ == with_task(old(self)@, id, change),
    {
        let seq: i64 = self.clock + 1;
        self.clock = seq;
        change_tasks(&mut self.tasks, id, change, seq);
    }

    fn change_running(&mut self, task_id: i64, generation: i64, change: &AttemptChange)
        ensures
            final(self)@ == with_attempts(
                old(self)@,
                task_id,
                Some(generation),
                |a: AttemptView| attempt_changed(a, *change),
            ),
    {
        change_attempts(&mut self.attempts, task_id, Some(generation), change);
        proof {
            assert(self@.attempts =~= with_attempts(
                old(self)@,
                task_id,
                Some(generation),
                |a: AttemptView| attempt_changed(a, *change),
            ).attempts);
        }
    }

    fn add_attempt(&mut self, task_id: i64, number: i64, automatic: bool, now: i64)
        requires
            old(self).next_attempt_id < i64::MAX,
        ensures
            final(self)@ == with_new_attempt(old(self)@, task_id, number, automatic, now),
    {
        let row = new_attempt(self.next_attempt_id, task_id, number, automatic, now);
        proof {
            lemma_attempt_views_push(self.attempts@, row);
        }
        self.attempts.push(row);
        self.next_attempt_id = self.next_attempt_id + 1;
    }

    /// Asks for a task. A pending one is left alone, a failed or interrupted
    /// one gets another attempt, and otherwise a new task is queued.
    pub fn request(&mut self, key: TaskKey, now: i64) -> (r: Result<RequestReceipt, StoreFailure>)
        requires
            old(self)@.has_room(),
        ensures
            match r {
                Ok(receipt) => !old(self)@.fenced && target_exists(old(self)@, key) && receipt == (
                RequestReceipt { key, disposition: disposition_of(old(self)@, key) })
                    && final(self)@ == requested(old(self)@, key, now),
                Err(failure) => final(self)@ == old(self)@ && (if old(self)@.fenced {
                    failure is Maintenance
                } else {
                    !target_exists(old(self)@, key) && failure == StoreFailure::TargetNotFound(key)
                }),
            },
    {
        if self.fenced {
            return Err(StoreFailure::Maintenance);
        }
        let known: bool = match key.kind {
            TaskKind::ResourceCompletion => self.has_resource(key.target_id),
            TaskKind::ArticleSummary => self.has_article(key.target_id),
        };
        if !known {
            return Err(StoreFailure::TargetNotFound(key));
        }
        let ghost before = self@;
        let disposition = match find_latest_task(&self.tasks, key) {
            Some(k) => {
                let row = self.tasks[k];
                match row.status {
                    TaskStatus::Queued | TaskStatus::Running => RequestDisposition::Existing,
                    TaskStatus::Failed | TaskStatus::Interrupted => {
                        proof {
                            lemma_last_number_room(before, row.id);
                        }
                        let next: i64 = latest_number(&self.attempts, row.id) + 1;
                        self.change_task(row.id, TaskChange::Requeue { next_run_at: now, now });
                        self.add_attempt(row.id, next, false, now);
                        RequestDisposition::Retried
                    },
                    TaskStatus::Succeeded => {
                        self.create_task(key, now);
                        RequestDisposition::Created
                    },
                }
            },
            None => {
                self.create_task(key, now);
                RequestDisposition::Created
            },
        };
        Ok(RequestReceipt { key, disposition })
    }

    fn create_task(&mut self, key: TaskKey, now: i64)
        requires
            old(self)@.has_room(),
        ensures
            final(self)@ == with_new_attempt(
                StoreView {
                    tasks: old(self)@.tasks.push(new_task(old(self)@, key, now)),
                    clock: (old(self)@.clock + 1) as i64,
                    next_task_id: (old(self)@.next_task_id + 1) as i64,
                    ..old(self)@
                },
                old(self)@.next_task_id,
                1,
                false,
                now,
            ),
    {
        let id: i64 = self.next_task_id;
        let seq: i64 = self.clock + 1;
        self.tasks.push(
            TaskRow {
                id,
                key,
                status: TaskStatus::Queued,
                current_stage: None,
                change_seq: seq,
                next_run_at: now,
                created_at: now,
                updated_at: now,
            },
        );
        self.clock = seq;
        self.next_task_id = id + 1;
        self.add_attempt(id, 1, false, now);
    }
}

proof fn lemma_last_number_room(s: StoreView, task_id: i64)
    requires
        s.has_room(),
    ensures
        last_number(s.attempts, task_id) < i64::MAX,
{
    lemma_first_by_index(s.attempts, wanted_attempt(task_id, false, None), later());
}

// ---- observation ------------------------------------------------------------

/// What an observer of `key` is shown: the newest task with its latest
/// attempt. A task without an attempt is not shown.
pub open spec fn shows(s: StoreView, key: TaskKey, shown: TaskSnapshot, task: int, attempt: int) -> bool {
    let t = s.tasks[task];
    let a = s.attempts[attempt];
    &&& shown.task_id == t.id
    &&& shown.key == t.key
    &&& shown.status == t.status
    &&& shown.current_stage == t.current_stage
    &&& shown.change_seq == t.change_seq
    &&& shown.attempt_number == a.attempt_number
    &&& shown.automatic_retry == a.automatic_retry
    &&& shown.error_kind == a.error_kind
    &&& text_opt(shown.user_message) == a.user_message
    &&& text_opt(shown.technical_detail) == a.technical_detail
}

/// The tasks that have an attempt.
pub open spec fn attempted(s: StoreView, key: TaskKey) -> spec_fn(TaskRow) -> bool {
    |t: TaskRow|
        t.key == key && first_by(s.attempts, wanted_attempt(t.id, false, None), later()) is Some
}

pub open spec fn latest_attempted(s: StoreView, key: TaskKey) -> Option<int> {
    first_by(s.tasks, attempted(s, key), newer())
}

pub open spec fn latest_attempt(s: StoreView, task_id: i64) -> Option<int> {
    first_by(s.attempts, wanted_attempt(task_id, false, None), later())
}

impl WorkflowStore {
    fn find_latest_attempted(&self, key: TaskKey) -> (r: Option<(usize, usize)>)
        ensures
            match r {
                Some((t, a)) => t < self.tasks.len() && a < self.attempts.len() && latest_attempted(
                    self@,
                    key,
                ) == Some(t as int) && latest_attempt(self@, self.tasks@[t as int].id) == Some(
                    a as int,
                ),
                None => latest_attempted(self@, key) is None,
            },
    {
        let ghost keep = attempted(self@, key);
        let mut best: Option<(usize, usize)> = None;
        let mut i: usize = 0;
        while i < self.tasks.len()
            invariant
                i <= self.tasks.len(),
                keep == attempted(self@, key),
                match best {
                    Some((t, a)) => t < i && a < self.attempts.len() && first_by(
                        self.tasks@.take(i as int),
                        keep,
                        newer(),
                    ) == Some(t as int) && latest_attempt(self@, self.tasks@[t as int].id) == Some(
                        a as int,
                    ),
                    None => first_by(self.tasks@.take(i as int), keep, newer()) is None,
                },
            decreases self.tasks.len() - i,
        {
            proof {
                assert(self.tasks@.take(i + 1).drop_last() =~= self.tasks@.take(i as int));
            }
            let row = self.tasks[i];
            if row.key.kind == key.kind && row.key.target_id == key.target_id {
                match find_attempt(&self.attempts, row.id, false, None) {
                    None => {},
                    Some(a) => match best {
                        None => {
                            best = Some((i, a));
                        },
                        Some((t, _)) => {
                            let other = self.tasks[t];
                            if row.created_at > other.created_at || (row.created_at
                                == other.created_at && row.id > other.id) {
                                best = Some((i, a));
                            }
                        },
                    },
                }
            }
            i += 1;
        }
        proof {
            assert(self.tasks@.take(self.tasks@.len() as int) =~= self.tasks@);
        }
        best
    }

    pub fn latest_snapshot(&self, key: TaskKey) -> (r: Option<TaskSnapshot>)
        ensures
            match r {
                Some(shown) => latest_attempted(self@, key) is Some && ({
                    let t = latest_attempted(self@, key)->0;
                    latest_attempt(self@, self@.tasks[t].id) is Some && shows(
                        self@,
                        key,
                        shown,
                        t,
                        latest_attempt(self@, self@.tasks[t].id)->0,
                    )
                }),
                None => latest_attempted(self@, key) is None,
            },
    {
        match self.find_latest_attempted(key) {
            None => None,
            Some((t, a)) => {
                let task = self.tasks[t];
                let attempt = &self.attempts[a];
                Some(
                    TaskSnapshot {
                        task_id: task.id,
                        key: task.key,
                        status: task.status,
                        current_stage: task.current_stage,
                        attempt_number: attempt.attempt_number,
                        automatic_retry: attempt.automatic_retry,
                        error_kind: attempt.error_kind,
                        user_message: clone_text(&attempt.user_message),
                        technical_detail: clone_text(&attempt.technical_detail),
                        change_seq: task.change_seq,
                    },
                )
            },
        }
    }

    /// Whether every counter can still advance.
    pub fn can_advance(&self) -> (r: bool)
        ensures
            r == self@.has_room(),
    {
        let tasks: u128 = self.tasks.len() as u128;
        if self.clock > 0 && self.clock as u128 + tasks >= i64::MAX as u128 {
            return false;
        }
        if self.clock <= 0 && (0 - self.clock as i128) as u128 + i64::MAX as u128 <= tasks {
            return false;
        }
        if self.lease.generation == i64::MAX || self.next_task_id == i64::MAX
            || self.next_attempt_id == i64::MAX || self.next_run_id == i64::MAX
            || self.next_snapshot_id == i64::MAX || self.revisions.article == i64::MAX
            || self.revisions.resource == i64::MAX || self.revisions.excerpt == i64::MAX {
            return false;
        }
        let mut i: usize = 0;
        while i < self.attempts.len()
            invariant
                i <= self.attempts.len(),
                forall|k: int|
                    0 <= k < i ==> (#[trigger] self@.attempts[k]).attempt_number < i64::MAX,
            decreases self.attempts.len() - i,
        {
            if self.attempts[i].attempt_number == i64::MAX {
                proof {
                    assert(self@.attempts[i as int].attempt_number == i64::MAX);
                }
                return false;
            }
            i += 1;
        }
        let mut j: usize = 0;
        while j < self.resources.len()
            invariant
                j <= self.resources.len(),
                forall|k: int|
                    0 <= k < j ==> (#[trigger] self@.resources[k]).source_failure_count < i64::MAX,
            decreases self.resources.len() - j,
        {
            if self.resources[j].source_failure_count == i64::MAX {
                proof {
                    assert(self@.resources[j as int].source_failure_count == i64::MAX);
                }
                return false;
            }
            j += 1;
        }
        true
    }

    pub fn current_clock(&self) -> (r: i64)
        ensures
            r == self@.clock,
    {
        self.clock
    }
}

// ---- the lease --------------------------------------------------------------

/// The lease can be taken from its owner, if it has one.
pub open spec fn lease_free(lease: LeaseView, now: i64) -> bool {
    lease.owner_id is None || lease.heartbeat_at <= now - LEASE_EXPIRES_SECS
}

pub open spec fn lease_acquired(s: StoreView, owner: Seq<char>, now: i64) -> StoreView {
    if s.fenced {
        s
    } else if s.lease.owner_id == Some(owner) {
        StoreView { lease: LeaseView { heartbeat_at: now, ..s.lease }, ..s }
    } else if lease_free(s.lease, now) {
        StoreView {
            lease: LeaseView {
                owner_id: Some(owner),
                generation: (s.lease.generation + 1) as i64,
                heartbeat_at: now,
            },
            ..s
        }
    } else {
        s
    }
}

impl WorkflowStore {
    pub fn owns_lease(&self, owner: &str, generation: i64) -> (r: bool)
        ensures
            r == owns(self@, owner@, generation),
    {
        match &self.lease.owner_id {
            Some(current) => same_text(current, owner) && self.lease.generation == generation,
            None => false,
        }
    }

    /// Takes the lease, or renews it. The generation grows with each new owner.
    pub fn acquire_lease(&mut self, owner: &str, now: i64) -> (r: Option<i64>)
        requires
            old(self)@.lease.generation < i64::MAX,
            now >= i64::MIN + LEASE_EXPIRES_SECS,
        ensures
            final(self)@ == lease_acquired(old(self)@, owner@, now),
            r == (if old(self)@.fenced {
                None
            } else if old(self)@.lease.owner_id == Some(owner@) || lease_free(
                old(self)@.lease,
                now,
            ) {
                Some(final(self)@.lease.generation)
            } else {
                None
            }),
    {
        if self.fenced {
            return None;
        }
        let (vacant, same): (bool, bool) = match &self.lease.owner_id {
            Some(current) => (false, same_text(current, owner)),
            None => (true, false),
        };
        if same {
            self.lease.heartbeat_at = now;
            return Some(self.lease.generation);
        }
        if vacant || self.lease.heartbeat_at <= now - LEASE_EXPIRES_SECS {
            let next: i64 = self.lease.generation + 1;
            self.lease = LeaseRow {
                owner_id: Some(owner.to_owned()),
                generation: next,
                heartbeat_at: now,
            };
            return Some(next);
        }
        None
    }

    /// Tells that the owner is alive; `false` where it no longer owns the lease.
    pub fn heartbeat(&mut self, owner: &str, generation: i64, now: i64) -> (r: bool)
        ensures
            r == owns(old(self)@, owner@, generation),
            final(self)@ == (if r {
                StoreView {
                    lease: LeaseView { heartbeat_at: now, ..old(self)@.lease },
                    ..old(self)@
                }
            } else {
                old(self)@
            }),
    {
        let owned: bool = self.owns_lease(owner, generation);
        if owned {
            self.lease.heartbeat_at = now;
        }
        owned
    }

    pub fn release_lease(&mut self, owner: &str, generation: i64)
        ensures
            final(self)@ == lease_released(old(self)@, owner@, generation),
    {
        if self.owns_lease(owner, generation) {
            self.lease.owner_id = None;
            self.lease.heartbeat_at = 0;
        }
    }
}

/// An owner that gives the lease up leaves it vacant; nobody else can.
pub open spec fn lease_released(s: StoreView, owner: Seq<char>, generation: i64) -> StoreView {
    if owns(s, owner, generation) {
        StoreView {
            lease: LeaseView { owner_id: None, heartbeat_at: 0, ..s.lease },
            ..s
        }
    } else {
        s
    }
}

// ---- claiming and advancing -------------------------------------------------

pub open spec fn first_stage(kind: TaskKind) -> TaskStage {
    match kind {
        TaskKind::ResourceCompletion => TaskStage::Fetching,
        TaskKind::ArticleSummary => TaskStage::Summarizing,
    }
}

/// The task at position `k` is taken up: it runs, and so does its latest
/// waiting attempt.
pub open spec fn claimed(s: StoreView, k: int, generation: i64, now: i64) -> StoreView {
    let t = s.tasks[k];
    let stage = first_stage(t.key.kind);
    let started = match first_by(s.attempts, wanted_attempt(t.id, true, None), later()) {
        Some(a) => s.attempts.update(a, attempt_started(s.attempts[a], stage, now, generation)),
        None => s.attempts,
    };
    with_task(StoreView { attempts: started, ..s }, t.id, TaskChange::Start { stage, now })
}

/// The task that the executor takes up next, if it may and one is due.
pub open spec fn claimable(s: StoreView, owner: Seq<char>, generation: i64, now: i64) -> Option<
    int,
> {
    if s.fenced || !owns(s, owner, generation) {
        None
    } else {
        next_due(s.tasks, now)
    }
}

proof fn lemma_attempt_views_update(s: Seq<AttemptRow>, k: int, row: AttemptRow)
    requires
        0 <= k < s.len(),
    ensures
        attempt_views(s.update(k, row)) == attempt_views(s).update(k, row@),
{
    assert(attempt_views(s.update(k, row)) =~= attempt_views(s).update(k, row@));
}

impl WorkflowStore {
    pub fn claim_next(&mut self, owner: &str, generation: i64, now: i64) -> (r: Option<ClaimedTask>)
        requires
            old(self)@.has_room(),
        ensures
            match claimable(old(self)@, owner@, generation, now) {
                Some(k) => final(self)@ == claimed(old(self)@, k, generation, now) && r == Some(
                    ClaimedTask {
                        id: old(self)@.tasks[k].id,
                        key: old(self)@.tasks[k].key,
                        generation,
                    },
                ),
                None => final(self)@ == old(self)@ && r is None,
            },
    {
        if self.fenced || !self.owns_lease(owner, generation) {
            return None;
        }
        let ghost before = self@;
        match find_next_due(&self.tasks, now) {
            None => None,
            Some(k) => {
                let task = self.tasks[k];
                let stage = match task.key.kind {
                    TaskKind::ResourceCompletion => TaskStage::Fetching,
                    TaskKind::ArticleSummary => TaskStage::Summarizing,
                };
                match find_attempt(&self.attempts, task.id, true, None) {
                    None => {},
                    Some(a) => {
                        let mut row = self.attempts[a].copied();
                        row.status = TaskStatus::Running;
                        row.current_stage = Some(stage);
                        row.started_at = Some(now);
                        row.claim_generation = Some(generation);
                        proof {
                            lemma_attempt_views_update(self.attempts@, a as int, row);
                        }
                        self.attempts.set(a, row);
                    },
                }
                self.change_task(task.id, TaskChange::Start { stage, now });
                Some(ClaimedTask { id: task.id, key: task.key, generation })
            },
        }
    }

    fn fence_valid(&self, owner: &str, task: ClaimedTask) -> (r: bool)
        ensures
            r == fence(self@, owner@, task),
    {
        if !self.owns_lease(owner, task.generation) {
            return false;
        }
        let mut i: usize = 0;
        while i < self.attempts.len()
            invariant
                i <= self.attempts.len(),
                owns(self@, owner@, task.generation),
                forall|k: int|
                    0 <= k < i ==> !running_attempt(
                        #[trigger] self@.attempts[k],
                        task.id,
                        Some(task.generation),
                    ),
            decreases self.attempts.len() - i,
        {
            if self.attempts[i].runs_for(task.id, Some(task.generation)) {
                proof {
                    assert(running_attempt(
                        self@.attempts[i as int],
                        task.id,
                        Some(task.generation),
                    ));
                }
                return true;
            }
            i += 1;
        }
        false
    }

    /// Moves a claimed task to its next stage; `false` where the fence is lost.
    pub fn advance(&mut self, owner: &str, task: ClaimedTask, stage: TaskStage, now: i64) -> (r:
        Result<bool, StoreFailure>)
        requires
            old(self)@.has_room(),
        ensures
            outcome(
                old(self)@,
                final(self)@,
                owner@,
                task,
                r,
                advanced(old(self)@, task, stage, now),
            ),
    {
        if self.fenced {
            return Err(StoreFailure::Maintenance);
        }
        if !self.fence_valid(owner, task) {
            return Ok(false);
        }
        self.change_task(task.id, TaskChange::Stage { stage, now });
        self.change_running(task.id, task.generation, &AttemptChange::Stage(stage));
        proof {
            assert(self@.attempts =~= advanced(old(self)@, task, stage, now).attempts);
        }
        Ok(true)
    }
}

pub open spec fn advanced(s: StoreView, task: ClaimedTask, stage: TaskStage, now: i64) -> StoreView {
    with_attempts(
        with_task(s, task.id, TaskChange::Stage { stage, now }),
        task.id,
        Some(task.generation),
        |a: AttemptView| attempt_staged(a, stage),
    )
}

/// What a fenced write comes to: refused during maintenance, without effect
/// where the fence is lost, and `after` otherwise.
pub open spec fn outcome(
    before: StoreView,
    now: StoreView,
    owner: Seq<char>,
    task: ClaimedTask,
    r: Result<bool, StoreFailure>,
    after: StoreView,
) -> bool {
    if before.fenced {
        r == Err::<bool, StoreFailure>(StoreFailure::Maintenance) && now == before
    } else if !fence(before, owner, task) {
        r == Ok::<bool, StoreFailure>(false) && now == before
    } else {
        r == Ok::<bool, StoreFailure>(true) && now == after
    }
}

// ---- snapshots of fetched resources -----------------------------------------

pub open spec fn same_content(resource_id: i64, hash: Seq<char>) -> spec_fn(SnapshotView) -> bool {
    |v: SnapshotView| v.resource_id == resource_id && v.content_hash == hash
}

/// No order: the row that stands first.
pub open spec fn as_stored() -> spec_fn(SnapshotView, SnapshotView) -> bool {
    |a: SnapshotView, b: SnapshotView| false
}

pub open spec fn stored_snapshot(s: StoreView, resource_id: i64, hash: Seq<char>) -> Option<int> {
    first_by(s.snapshots, same_content(resource_id, hash), as_stored())
}

/// The digest by which equal contents of a resource are found again.
pub open spec fn content_hash(input: SnapshotInput) -> Seq<char> {
    content_digest(
        match input.cleaned_content {
            Some(content) => vstd::utf8::encode_utf8(content@),
            None => vstd::utf8::encode_utf8(""@),
        },
    )
}

pub open spec fn new_snapshot(s: StoreView, resource_id: i64, input: SnapshotInput, now: i64) -> SnapshotView {
    SnapshotView {
        id: s.next_snapshot_id,
        resource_id,
        content_hash: content_hash(input),
        fetched_url: text_opt(input.fetched_url),
        http_status: input.http_status,
        title: text_opt(input.title),
        cleaned_content: text_opt(input.cleaned_content),
        fetched_at: now,
    }
}

pub open spec fn resources_fetched(
    resources: Seq<ResourceView>,
    id: i64,
    snapshot_id: i64,
    title: Option<Seq<char>>,
    now: i64,
) -> Seq<ResourceView> {
    resources.map_values(
        |r: ResourceView|
            if r.id == id {
                resource_fetched(r, snapshot_id, title, now)
            } else {
                r
            },
    )
}

/// The content is kept once, the resource points at it, and the task goes on
/// to organizing.
pub open spec fn snapshot_recorded(
    s: StoreView,
    task: ClaimedTask,
    input: SnapshotInput,
    now: i64,
) -> StoreView {
    let stored = stored_snapshot(s, task.key.target_id, content_hash(input));
    let id = match stored {
        Some(k) => s.snapshots[k].id,
        None => s.next_snapshot_id,
    };
    let kept = match stored {
        Some(_) => s,
        None => StoreView {
            snapshots: s.snapshots.push(new_snapshot(s, task.key.target_id, input, now)),
            next_snapshot_id: (s.next_snapshot_id + 1) as i64,
            ..s
        },
    };
    advanced(
        StoreView {
            resources: resources_fetched(
                s.resources,
                task.key.target_id,
                id,
                text_opt(input.title),
                now,
            ),
            revisions: s.revisions.advanced(
                ProjectionImpact { article: false, resource: true, excerpt: false },
            ),
            ..kept
        },
        task,
        TaskStage::Organizing,
        now,
    )
}

fn mark_fetched(
    resources: &mut Vec<ResourceRow>,
    id: i64,
    snapshot_id: i64,
    title: &Option<String>,
    now: i64,
)
    ensures
        resource_views(final(resources)@) == resources_fetched(
            resource_views(old(resources)@),
            id,
            snapshot_id,
            text_opt(*title),
            now,
        ),
{
    let mut i: usize = 0;
    let ghost before = resources@;
    while i < resources.len()
        invariant
            i <= resources.len(),
            resources.len() == before.len(),
            forall|k: int|
                0 <= k < i ==> (#[trigger] resources@[k])@ == (if before[k]@.id == id {
                    resource_fetched(before[k]@, snapshot_id, text_opt(*title), now)
                } else {
                    before[k]@
                }),
            forall|k: int| i <= k < before.len() ==> #[trigger] resources@[k] == before[k],
        decreases resources.len() - i,
    {
        if resources[i].id == id {
            let row = resources[i].fetched(snapshot_id, title, now);
            resources.set(i, row);
        }
        i += 1;
    }
    proof {
        assert(resource_views(resources@) =~= resources_fetched(
            resource_views(before),
            id,
            snapshot_id,
            text_opt(*title),
            now,
        ));
    }
}

fn mark_fetch_failed(
    resources: &mut Vec<ResourceRow>,
    id: i64,
    transient: bool,
    permanent: bool,
    now: i64,
)
    requires
        forall|k: int|
            0 <= k < old(resources)@.len() ==> (
            #[trigger] old(resources)@[k]).source_failure_count < i64::MAX,
    ensures
        resource_views(final(resources)@) == resources_failed(
            resource_views(old(resources)@),
            id,
            transient,
            permanent,
            now,
        ),
{
    let mut i: usize = 0;
    let ghost before = resources@;
    while i < resources.len()
        invariant
            i <= resources.len(),
            resources.len() == before.len(),
            forall|k: int|
                0 <= k < before.len() ==> (#[trigger] before[k]).source_failure_count < i64::MAX,
            forall|k: int|
                0 <= k < i ==> (#[trigger] resources@[k])@ == (if before[k]@.id == id {
                    resource_fetch_failed(before[k]@, transient, permanent, now)
                } else {
                    before[k]@
                }),
            forall|k: int| i <= k < before.len() ==> #[trigger] resources@[k] == before[k],
        decreases resources.len() - i,
    {
        proof {
            assert(resources@[i as int] == before[i as int]);
        }
        if resources[i].id == id {
            let row = resources[i].fetch_failed(transient, permanent, now);
            resources.set(i, row);
        }
        i += 1;
    }
    proof {
        assert(resource_views(resources@) =~= resources_failed(
            resource_views(before),
            id,
            transient,
            permanent,
            now,
        ));
    }
}

pub open spec fn resources_failed(
    resources: Seq<ResourceView>,
    id: i64,
    transient: bool,
    permanent: bool,
    now: i64,
) -> Seq<ResourceView> {
    resources.map_values(
        |r: ResourceView|
            if r.id == id {
                resource_fetch_failed(r, transient, permanent, now)
            } else {
                r
            },
    )
}

impl WorkflowStore {
    fn find_snapshot(&self, resource_id: i64, hash: &str) -> (r: Option<usize>)
        ensures
            match r {
                Some(k) => k < self.snapshots.len() && stored_snapshot(self@, resource_id, hash@)
                    == Some(k as int),
                None => stored_snapshot(self@, resource_id, hash@) is None,
            },
    {
        let ghost keep = same_content(resource_id, hash@);
        let ghost all = self@.snapshots;
        let mut found: Option<usize> = None;
        let mut i: usize = 0;
        while i < self.snapshots.len()
            invariant
                i <= self.snapshots.len(),
                keep == same_content(resource_id, hash@),
                all == self@.snapshots,
                match found {
                    Some(k) => k < i && first_by(all.take(i as int), keep, as_stored()) == Some(
                        k as int,
                    ),
                    None => first_by(all.take(i as int), keep, as_stored()) is None,
                },
            decreases self.snapshots.len() - i,
        {
            proof {
                assert(all.take(i + 1).drop_last() =~= all.take(i as int));
                assert(all.take(i + 1).last() == self.snapshots@[i as int]@);
            }
            if found.is_none() && self.snapshots[i].resource_id == resource_id && same_text(
                &self.snapshots[i].content_hash,
                hash,
            ) {
                found = Some(i);
            }
            i += 1;
        }
        proof {
            assert(all.take(all.len() as int) =~= all);
        }
        found
    }

    /// Keeps what a fetch brought and moves the task to organizing.
    pub fn record_snapshot_and_advance(
        &mut self,
        owner: &str,
        task: ClaimedTask,
        input: &SnapshotInput,
        now: i64,
    ) -> (r: Result<bool, StoreFailure>)
        requires
            old(self)@.has_room(),
        ensures
            outcome(
                old(self)@,
                final(self)@,
                owner@,
                task,
                r,
                snapshot_recorded(old(self)@, task, *input, now),
            ),
    {
        if self.fenced {
            return Err(StoreFailure::Maintenance);
        }
        if !self.fence_valid(owner, task) {
            return Ok(false);
        }
        let hash = match &input.cleaned_content {
            Some(content) => digest(content.as_str().as_bytes()),
            None => digest("".as_bytes()),
        };
        let resource_id: i64 = task.key.target_id;
        let ghost before = self@;
        let id: i64 = match self.find_snapshot(resource_id, &hash) {
            Some(k) => self.snapshots[k].id,
            None => {
                let id: i64 = self.next_snapshot_id;
                let row = SnapshotRow {
                    id,
                    resource_id,
                    content_hash: hash,
                    fetched_url: clone_text(&input.fetched_url),
                    http_status: input.http_status,
                    title: clone_text(&input.title),
                    cleaned_content: clone_text(&input.cleaned_content),
                    fetched_at: now,
                };
                proof {
                    assert(snapshot_views(self.snapshots@.push(row)) =~= snapshot_views(
                        self.snapshots@,
                    ).push(row@));
                }
                self.snapshots.push(row);
                self.next_snapshot_id = id + 1;
                id
            },
        };
        mark_fetched(&mut self.resources, resource_id, id, &input.title, now);
        self.revisions.advance(ProjectionImpact::resource());
        self.change_task(task.id, TaskChange::Stage { stage: TaskStage::Organizing, now });
        self.change_running(
            task.id,
            task.generation,
            &AttemptChange::Stage(TaskStage::Organizing),
        );
        proof {
            assert(self@.attempts =~= snapshot_recorded(before, task, *input, now).attempts);
        }
        Ok(true)
    }
}

// ---- provider runs ----------------------------------------------------------

/// Which provider a run asks, and how.
#[derive(Debug)]
pub struct EnrichmentConfig {
    pub enabled: bool,
    pub provider: String,
    pub model: String,
    pub prompt_version: String,
    pub schema_version: String,
}

/// The attempt that a run belongs to: the first that runs in the generation.
pub open spec fn running_position(s: StoreView, task: ClaimedTask) -> Option<int> {
    first_by(
        s.attempts,
        |a: AttemptView| running_attempt(a, task.id, Some(task.generation)),
        |a: AttemptView, b: AttemptView| false,
    )
}

pub open spec fn run_started(
    s: StoreView,
    task: ClaimedTask,
    config: EnrichmentConfig,
    snapshot_id: Option<i64>,
    attempt_id: i64,
    now: i64,
) -> StoreView {
    StoreView {
        runs: s.runs.push(
            RunView {
                id: s.next_run_id,
                resource_id: task.key.target_id,
                snapshot_id,
                attempt_id,
                provider: config.provider@,
                model: config.model@,
                prompt_version: config.prompt_version@,
                schema_version: config.schema_version@,
                status: RunStatus::Running,
                started_at: now,
                finished_at: None,
                error_code: None,
                error_message: None,
            },
        ),
        next_run_id: (s.next_run_id + 1) as i64,
        ..s
    }
}

impl WorkflowStore {
    fn find_running(&self, task: ClaimedTask) -> (r: Option<usize>)
        ensures
            match r {
                Some(k) => k < self.attempts.len() && running_position(self@, task) == Some(
                    k as int,
                ),
                None => running_position(self@, task) is None,
            },
    {
        let ghost keep = |a: AttemptView| running_attempt(a, task.id, Some(task.generation));
        let ghost none = |a: AttemptView, b: AttemptView| false;
        let ghost all = self@.attempts;
        let mut found: Option<usize> = None;
        let mut i: usize = 0;
        while i < self.attempts.len()
            invariant
                i <= self.attempts.len(),
                keep == (|a: AttemptView| running_attempt(a, task.id, Some(task.generation))),
                none == (|a: AttemptView, b: AttemptView| false),
                all == self@.attempts,
                match found {
                    Some(k) => k < i && first_by(all.take(i as int), keep, none) == Some(k as int),
                    None => first_by(all.take(i as int), keep, none) is None,
                },
            decreases self.attempts.len() - i,
        {
            proof {
                assert(all.take(i + 1).drop_last() =~= all.take(i as int));
                assert(all.take(i + 1).last() == self.attempts@[i as int]@);
            }
            if found.is_none() && self.attempts[i].runs_for(task.id, Some(task.generation)) {
                found = Some(i);
            }
            i += 1;
        }
        proof {
            assert(all.take(all.len() as int) =~= all);
        }
        found
    }

    /// Opens a run of the provider for the claimed task; `None` where the
    /// fence is lost.
    pub fn start_enrichment(
        &mut self,
        owner: &str,
        task: ClaimedTask,
        config: &EnrichmentConfig,
        snapshot_id: Option<i64>,
        now: i64,
    ) -> (r: Result<Option<i64>, StoreFailure>)
        requires
            old(self)@.has_room(),
        ensures
            if old(self)@.fenced {
                r == Err::<Option<i64>, StoreFailure>(StoreFailure::Maintenance) && final(self)@
                    == old(self)@
            } else if !fence(old(self)@, owner@, task) {
                r == Ok::<Option<i64>, StoreFailure>(None) && final(self)@ == old(self)@
            } else {
                &&& r == Ok::<Option<i64>, StoreFailure>(Some(old(self)@.next_run_id))
                &&& running_position(old(self)@, task) is Some
                &&& final(self)@ == run_started(
                    old(self)@,
                    task,
                    *config,
                    snapshot_id,
                    old(self)@.attempts[running_position(old(self)@, task)->0].id,
                    now,
                )
            },
    {
        if self.fenced {
            return Err(StoreFailure::Maintenance);
        }
        if !self.fence_valid(owner, task) {
            return Ok(None);
        }
        proof {
            lemma_first_by_index(
                self@.attempts,
                |a: AttemptView| running_attempt(a, task.id, Some(task.generation)),
                |a: AttemptView, b: AttemptView| false,
            );
        }
        match self.find_running(task) {
            None => Ok(None),
            Some(k) => {
                let id: i64 = self.next_run_id;
                let row = RunRow {
                    id,
                    resource_id: task.key.target_id,
                    snapshot_id,
                    attempt_id: self.attempts[k].id,
                    provider: config.provider.clone(),
                    model: config.model.clone(),
                    prompt_version: config.prompt_version.clone(),
                    schema_version: config.schema_version.clone(),
                    status: RunStatus::Running,
                    started_at: now,
                    finished_at: None,
                    error_code: None,
                    error_message: None,
                };
                proof {
                    assert(run_views(self.runs@.push(row)) =~= run_views(self.runs@).push(row@));
                }
                self.runs.push(row);
                self.next_run_id = id + 1;
                Ok(Some(id))
            },
        }
    }
}

// ---- completion -------------------------------------------------------------

/// The claimed attempts and the task have succeeded.
pub open spec fn finished(s: StoreView, task: ClaimedTask, now: i64) -> StoreView {
    with_task(
        with_attempts(
            s,
            task.id,
            Some(task.generation),
            |a: AttemptView| attempt_succeeded(a, now),
        ),
        task.id,
        TaskChange::Finish { status: TaskStatus::Succeeded, now },
    )
}

pub open spec fn run_closed(s: StoreView, run_id: i64, now: i64) -> StoreView {
    StoreView {
        runs: s.runs.map_values(
            |r: RunView|
                if r.id == run_id {
                    run_succeeded(r, now)
                } else {
                    r
                },
        ),
        ..s
    }
}

/// The provider's answer is applied to the resource, and the run and the task
/// are closed.
pub open spec fn resource_completed(
    s: StoreView,
    task: ClaimedTask,
    run_id: i64,
    output: OutputView,
    now: i64,
) -> StoreView {
    finished(
        run_closed(
            StoreView {
                enrichments: s.enrichments.push(
                    EnrichmentView { resource_id: task.key.target_id, output, applied_at: now },
                ),
                revisions: s.revisions.advanced(
                    ProjectionImpact { article: false, resource: true, excerpt: false },
                ),
                ..s
            },
            run_id,
            now,
        ),
        task,
        now,
    )
}

fn close_run(runs: &mut Vec<RunRow>, run_id: i64, now: i64)
    ensures
        run_views(final(runs)@) == run_views(old(runs)@).map_values(
            |r: RunView|
                if r.id == run_id {
                    run_succeeded(r, now)
                } else {
                    r
                },
        ),
{
    let mut i: usize = 0;
    let ghost before = runs@;
    while i < runs.len()
        invariant
            i <= runs.len(),
            runs.len() == before.len(),
            forall|k: int|
                0 <= k < i ==> (#[trigger] runs@[k])@ == (if before[k]@.id == run_id {
                    run_succeeded(before[k]@, now)
                } else {
                    before[k]@
                }),
            forall|k: int| i <= k < before.len() ==> #[trigger] runs@[k] == before[k],
        decreases runs.len() - i,
    {
        if runs[i].id == run_id {
            let row = runs[i].succeeded(now);
            runs.set(i, row);
        }
        i += 1;
    }
    proof {
        assert(run_views(runs@) =~= run_views(before).map_values(
            |r: RunView|
                if r.id == run_id {
                    run_succeeded(r, now)
                } else {
                    r
                },
        ));
    }
}

/// Where the article's text stands, if the provider wrote about it before.
pub open spec fn article_position(s: StoreView, article_id: i64) -> Option<int> {
    first_by(
        s.article_ai,
        |v: ArticleAiView| v.article_id == article_id,
        |a: ArticleAiView, b: ArticleAiView| false,
    )
}

/// The text differs from what is stored about the article.
pub open spec fn article_text_changes(
    s: StoreView,
    article_id: i64,
    summary: Seq<char>,
    translation: Seq<char>,
    model: Seq<char>,
) -> bool {
    match article_position(s, article_id) {
        Some(k) => s.article_ai[k].summary_zh != summary || s.article_ai[k].translation_zh
            != translation || s.article_ai[k].model != model,
        None => true,
    }
}

/// The text is stored, and the article projection advances, only where it
/// differs from what is stored already.
pub open spec fn article_completed(
    s: StoreView,
    task: ClaimedTask,
    summary: Seq<char>,
    translation: Seq<char>,
    model: Seq<char>,
    now: i64,
) -> StoreView {
    let id = task.key.target_id;
    let row = ArticleAiView {
        article_id: id,
        summary_zh: summary,
        translation_zh: translation,
        model,
        updated_at: now,
    };
    let written = if article_text_changes(s, id, summary, translation, model) {
        StoreView {
            article_ai: match article_position(s, id) {
                Some(k) => s.article_ai.update(k, row),
                None => s.article_ai.push(row),
            },
            revisions: s.revisions.advanced(
                ProjectionImpact { article: true, resource: false, excerpt: false },
            ),
            ..s
        }
    } else {
        s
    };
    finished(written, task, now)
}

impl WorkflowStore {
    fn finish_success(&mut self, task: ClaimedTask, now: i64)
        requires
            old(self)@.clock < i64::MAX,
        ensures
            final(self)@ == finished(old(self)@, task, now),
    {
        self.change_running(task.id, task.generation, &AttemptChange::Succeeded { now });
        self.change_task(task.id, TaskChange::Finish { status: TaskStatus::Succeeded, now });
        proof {
            assert(self@.attempts =~= finished(old(self)@, task, now).attempts);
        }
    }

    /// Applies the provider's answer to the resource, and closes the run and
    /// the task. An answer that comes too late is dropped.
    pub fn complete_resource(
        &mut self,
        owner: &str,
        task: ClaimedTask,
        run_id: i64,
        output: EnrichmentOutput,
        now: i64,
    ) -> (r: Result<bool, StoreFailure>)
        requires
            old(self)@.has_room(),
        ensures
            outcome(
                old(self)@,
                final(self)@,
                owner@,
                task,
                r,
                resource_completed(old(self)@, task, run_id, output@, now),
            ),
    {
        if self.fenced {
            return Err(StoreFailure::Maintenance);
        }
        if !self.fence_valid(owner, task) {
            return Ok(false);
        }
        let row = EnrichmentRow { resource_id: task.key.target_id, output, applied_at: now };
        proof {
            assert(enrichment_views(self.enrichments@.push(row)) =~= enrichment_views(
                self.enrichments@,
            ).push(row@));
        }
        self.enrichments.push(row);
        self.revisions.advance(ProjectionImpact::resource());
        close_run(&mut self.runs, run_id, now);
        self.finish_success(task, now);
        Ok(true)
    }

    /// Closes a task whose resource must not be sent to a provider.
    pub fn complete_resource_without_enrichment(
        &mut self,
        owner: &str,
        task: ClaimedTask,
        now: i64,
    ) -> (r: Result<bool, StoreFailure>)
        requires
            old(self)@.has_room(),
        ensures
            outcome(old(self)@, final(self)@, owner@, task, r, finished(old(self)@, task, now)),
    {
        if self.fenced {
            return Err(StoreFailure::Maintenance);
        }
        if !self.fence_valid(owner, task) {
            return Ok(false);
        }
        self.finish_success(task, now);
        Ok(true)
    }

    fn find_article_text(&self, article_id: i64) -> (r: Option<usize>)
        ensures
            match r {
                Some(k) => k < self.article_ai.len() && article_position(self@, article_id) == Some(
                    k as int,
                ),
                None => article_position(self@, article_id) is None,
            },
    {
        let ghost keep = |v: ArticleAiView| v.article_id == article_id;
        let ghost none = |a: ArticleAiView, b: ArticleAiView| false;
        let ghost all = self@.article_ai;
        let mut found: Option<usize> = None;
        let mut i: usize = 0;
        while i < self.article_ai.len()
            invariant
                i <= self.article_ai.len(),
                keep == (|v: ArticleAiView| v.article_id == article_id),
                none == (|a: ArticleAiView, b: ArticleAiView| false),
                all == self@.article_ai,
                match found {
                    Some(k) => k < i && first_by(all.take(i as int), keep, none) == Some(k as int),
                    None => first_by(all.take(i as int), keep, none) is None,
                },
            decreases self.article_ai.len() - i,
        {
            proof {
                assert(all.take(i + 1).drop_last() =~= all.take(i as int));
                assert(all.take(i + 1).last() == self.article_ai@[i as int]@);
            }
            if found.is_none() && self.article_ai[i].article_id == article_id {
                found = Some(i);
            }
            i += 1;
        }
        proof {
            assert(all.take(all.len() as int) =~= all);
        }
        found
    }

    /// Stores what the provider wrote about an article and closes the task.
    pub fn complete_article(
        &mut self,
        owner: &str,
        task: ClaimedTask,
        summary: &str,
        translation: &str,
        model: &str,
        now: i64,
    ) -> (r: Result<bool, StoreFailure>)
        requires
            old(self)@.has_room(),
        ensures
            outcome(
                old(self)@,
                final(self)@,
                owner@,
                task,
                r,
                article_completed(old(self)@, task, summary@, translation@, model@, now),
            ),
            r == Ok::<bool, StoreFailure>(true) ==> exists|k: int|
                0 <= k < final(self).article_ai@.len() && (
                #[trigger] final(self).article_ai@[k]).article_id == task.key.target_id && final(self).article_ai@[k].summary_zh@ == summary@ && final(self).article_ai@[k].translation_zh@ == translation@ && final(self).article_ai@[k].model@ == model@,
            r == Ok::<bool, StoreFailure>(true) && (forall|k: int|
                0 <= k < old(self).article_ai@.len() && (
                #[trigger] old(self).article_ai@[k]).article_id == task.key.target_id ==> old(self).article_ai@[k].summary_zh@ != summary@ || old(self).article_ai@[k].translation_zh@ != translation@ || old(self).article_ai@[k].model@ != model@) ==> final(self).revisions.article > old(self).revisions.article,
    {
        if self.fenced {
            return Err(StoreFailure::Maintenance);
        }
        if !self.fence_valid(owner, task) {
            return Ok(false);
        }
        let article_id: i64 = task.key.target_id;
        let ghost before = self@;
        let row = ArticleAiRow {
            article_id,
            summary_zh: summary.to_owned(),
            translation_zh: translation.to_owned(),
            model: model.to_owned(),
            updated_at: now,
        };
        let ghost written = row@;
        match self.find_article_text(article_id) {
            Some(k) => {
                let unchanged: bool = same_text(&self.article_ai[k].summary_zh, summary)
                    && same_text(&self.article_ai[k].translation_zh, translation) && same_text(
                    &self.article_ai[k].model,
                    model,
                );
                if !unchanged {
                    proof {
                        assert(article_ai_views(self.article_ai@.update(k as int, row))
                            =~= article_ai_views(self.article_ai@).update(k as int, row@));
                    }
                    self.article_ai.set(k, row);
                    self.revisions.advance(ProjectionImpact::article());
                }
            },
            None => {
                proof {
                    assert(article_ai_views(self.article_ai@.push(row)) =~= article_ai_views(
                        self.article_ai@,
                    ).push(row@));
                }
                self.article_ai.push(row);
                self.revisions.advance(ProjectionImpact::article());
            },
        }
        self.finish_success(task, now);
        proof {
            completed_articles_hold_the_new_text(before, task, summary@, translation@, model@, now);
            let k = choose|k: int|
                0 <= k < self@.article_ai.len() && (#[trigger] self@.article_ai[k]).article_id
                    == article_id && self@.article_ai[k].summary_zh == summary@
                    && self@.article_ai[k].translation_zh == translation@
                    && self@.article_ai[k].model == model@;
            assert(self.article_ai@[k]@ == self@.article_ai[k]);
            assert forall|k: int|
                0 <= k < before.article_ai.len() implies (#[trigger] before.article_ai[k]) == old(self).article_ai@[k]@ by {}
        }
        Ok(true)
    }
}

// ---- failure ----------------------------------------------------------------

pub open spec fn numbered(id: i64) -> spec_fn(TaskRow) -> bool {
    |t: TaskRow| t.id == id
}

pub open spec fn unordered() -> spec_fn(TaskRow, TaskRow) -> bool {
    |a: TaskRow, b: TaskRow| false
}

pub open spec fn task_position(s: StoreView, id: i64) -> Option<int> {
    first_by(s.tasks, numbered(id), unordered())
}

/// A failure that another fetch will not mend.
pub open spec fn permanent(detail: Seq<char>) -> bool {
    let lower = ascii_lower(detail);
    contains(lower, "404"@) || contains(lower, "410"@) || contains(lower, "invalid url"@)
        || contains(lower, "unsupported url"@)
}

/// The fetch of a resource failed.
pub open spec fn source_failed(
    s: StoreView,
    resource_id: i64,
    kind: ErrorKind,
    detail: Seq<char>,
    now: i64,
) -> StoreView {
    StoreView {
        resources: resources_failed(
            s.resources,
            resource_id,
            kind is Transient,
            permanent(detail),
            now,
        ),
        revisions: s.revisions.advanced(
            ProjectionImpact { article: false, resource: true, excerpt: false },
        ),
        ..s
    }
}

/// The runs that fail with the attempt: the named one, or else the open one
/// of the attempt that the generation claimed last.
pub open spec fn fails_with(s: StoreView, task: ClaimedTask, run_id: Option<i64>) -> spec_fn(
    RunView,
) -> bool {
    let last = first_by(
        s.attempts,
        wanted_attempt(task.id, false, Some(task.generation)),
        later(),
    );
    |r: RunView|
        match run_id {
            Some(id) => r.id == id,
            None => last is Some && r.attempt_id == s.attempts[last->0].id && open_run(r.status),
        }
}

/// Seconds until an automatic retry: doubled each time.
pub open spec fn retry_delay(retries: nat) -> int {
    if retries == 0 {
        1
    } else {
        2
    }
}

/// A transient failure is retried without being asked, twice at most.
pub open spec fn retries_itself(s: StoreView, task: ClaimedTask, kind: ErrorKind) -> bool {
    kind is Transient && automatic_retries(s.attempts, task.id) < MAX_AUTOMATIC_RETRIES
}

/// What a failure leaves on the source, on the attempt that ran under the claim
/// and on its runs.
pub open spec fn failure_noted(
    s: StoreView,
    task: ClaimedTask,
    run_id: Option<i64>,
    kind: ErrorKind,
    user_message: Seq<char>,
    detail: Seq<char>,
    now: i64,
) -> StoreView {
    let fetching = task.key.kind is ResourceCompletion && task_position(s, task.id) is Some
        && s.tasks[task_position(s, task.id)->0].current_stage == Some(TaskStage::Fetching);
    let sourced = if fetching {
        source_failed(s, task.key.target_id, kind, detail, now)
    } else {
        s
    };
    let stopped = with_attempts(
        sourced,
        task.id,
        Some(task.generation),
        |a: AttemptView|
            attempt_stopped(a, TaskStatus::Failed, now, kind, user_message, detail),
    );
    StoreView {
        runs: s.runs.map_values(
            |r: RunView|
                if (fails_with(stopped, task, run_id))(r) {
                    run_failed(r, now, error_code(kind), detail)
                } else {
                    r
                },
        ),
        ..stopped
    }
}

pub open spec fn failed(
    s: StoreView,
    task: ClaimedTask,
    run_id: Option<i64>,
    kind: ErrorKind,
    user_message: Seq<char>,
    detail: Seq<char>,
    now: i64,
) -> StoreView {
    let closed = failure_noted(s, task, run_id, kind, user_message, detail, now);
    if retries_itself(closed, task, kind) {
        let delay = retry_delay(automatic_retries(closed.attempts, task.id));
        with_new_attempt(
            with_task(
                closed,
                task.id,
                TaskChange::Requeue { next_run_at: (now + delay) as i64, now },
            ),
            task.id,
            (last_number(closed.attempts, task.id) + 1) as i64,
            true,
            now,
        )
    } else {
        with_task(closed, task.id, TaskChange::Finish { status: TaskStatus::Failed, now })
    }
}

fn fail_runs(
    runs: &mut Vec<RunRow>,
    run_id: Option<i64>,
    attempt_id: Option<i64>,
    now: i64,
    code: &str,
    message: &str,
)
    ensures
        run_views(final(runs)@) == run_views(old(runs)@).map_values(
            |r: RunView|
                if match run_id {
                    Some(id) => r.id == id,
                    None => attempt_id is Some && r.attempt_id == attempt_id->0 && open_run(
                        r.status,
                    ),
                } {
                    run_failed(r, now, code@, message@)
                } else {
                    r
                },
        ),
{
    let mut i: usize = 0;
    let ghost before = runs@;
    while i < runs.len()
        invariant
            i <= runs.len(),
            runs.len() == before.len(),
            forall|k: int|
                0 <= k < i ==> (#[trigger] runs@[k])@ == (if match run_id {
                    Some(id) => before[k]@.id == id,
                    None => attempt_id is Some && before[k]@.attempt_id == attempt_id->0
                        && open_run(before[k]@.status),
                } {
                    run_failed(before[k]@, now, code@, message@)
                } else {
                    before[k]@
                }),
            forall|k: int| i <= k < before.len() ==> #[trigger] runs@[k] == before[k],
        decreases runs.len() - i,
    {
        let hit: bool = match run_id {
            Some(id) => runs[i].id == id,
            None => match attempt_id {
                Some(attempt) => runs[i].attempt_id == attempt && runs[i].is_open(),
                None => false,
            },
        };
        if hit {
            let row = runs[i].failed(now, code, message);
            runs.set(i, row);
        }
        i += 1;
    }
    proof {
        assert(run_views(runs@) =~= run_views(before).map_values(
            |r: RunView|
                if match run_id {
                    Some(id) => r.id == id,
                    None => attempt_id is Some && r.attempt_id == attempt_id->0 && open_run(
                        r.status,
                    ),
                } {
                    run_failed(r, now, code@, message@)
                } else {
                    r
                },
        ));
    }
}

fn is_permanent(detail: &str) -> (r: bool)
    ensures
        r == permanent(detail@),
{
    let chars = chars_of(detail);
    let lower = to_ascii_lower(&chars);
    contains_text(&lower, "404") || contains_text(&lower, "410") || contains_text(
        &lower,
        "invalid url",
    ) || contains_text(&lower, "unsupported url")
}

impl WorkflowStore {
    fn find_task(&self, id: i64) -> (r: Option<usize>)
        ensures
            match r {
                Some(k) => k < self.tasks.len() && task_position(self@, id) == Some(k as int),
                None => task_position(self@, id) is None,
            },
    {
        let mut found: Option<usize> = None;
        let mut i: usize = 0;
        while i < self.tasks.len()
            invariant
                i <= self.tasks.len(),
                match found {
                    Some(k) => k < i && first_by(
                        self.tasks@.take(i as int),
                        numbered(id),
                        unordered(),
                    ) == Some(k as int),
                    None => first_by(self.tasks@.take(i as int), numbered(id), unordered()) is None,
                },
            decreases self.tasks.len() - i,
        {
            proof {
                assert(self.tasks@.take(i + 1).drop_last() =~= self.tasks@.take(i as int));
            }
            if found.is_none() && self.tasks[i].id == id {
                found = Some(i);
            }
            i += 1;
        }
        proof {
            assert(self.tasks@.take(self.tasks@.len() as int) =~= self.tasks@);
        }
        found
    }

    /// Ends the claimed attempt with an error. A transient one is retried
    /// later, as long as retries are left; any other one fails the task.
    #[verifier::rlimit(60)]
    pub fn fail(
        &mut self,
        owner: &str,
        task: ClaimedTask,
        run_id: Option<i64>,
        description: &str,
        now: i64,
    ) -> (r: Result<bool, StoreFailure>)
        requires
            old(self)@.has_room(),
            now <= i64::MAX - 2,
        ensures
            ({
                let kind = error_class(ascii_lower(description@));
                if !old(self)@.fenced && fence(old(self)@, owner@, task)
                    && task.key.kind is ResourceCompletion && task_position(
                    old(self)@,
                    task.id,
                ) is None {
                    r == Err::<bool, StoreFailure>(StoreFailure::TaskMissing) && final(self)@
                        == old(self)@
                } else {
                    outcome(
                        old(self)@,
                        final(self)@,
                        owner@,
                        task,
                        r,
                        failed(
                            old(self)@,
                            task,
                            run_id,
                            kind,
                            class_message(kind),
                            sanitized(description@),
                            now,
                        ),
                    )
                }
            }),
    {
        let (kind, user_message) = classify_error(description);
        let detail = sanitize_detail(description);
        if self.fenced {
            return Err(StoreFailure::Maintenance);
        }
        if !self.fence_valid(owner, task) {
            return Ok(false);
        }
        let ghost before = self@;
        if matches!(task.key.kind, TaskKind::ResourceCompletion) {
            match self.find_task(task.id) {
                None => {
                    return Err(StoreFailure::TaskMissing);
                },
                Some(k) => {
                    if matches!(self.tasks[k].current_stage, Some(TaskStage::Fetching)) {
                        let transient: bool = matches!(kind, ErrorKind::Transient);
                        proof {
                            assert forall|k: int|
                                0 <= k < self.resources@.len() implies (
                            #[trigger] self.resources@[k]).source_failure_count < i64::MAX by {
                                assert(self@.resources[k].source_failure_count < i64::MAX);
                            }
                        }
                        mark_fetch_failed(
                            &mut self.resources,
                            task.key.target_id,
                            transient,
                            is_permanent(&detail),
                            now,
                        );
                        self.revisions.advance(ProjectionImpact::resource());
                    }
                },
            }
        }
        let ghost sourced = self@;
        let change = AttemptChange::Stopped {
            status: TaskStatus::Failed,
            now,
            kind,
            user_message: user_message.to_owned(),
            detail: detail.clone(),
        };
        self.change_running(task.id, task.generation, &change);
        let ghost stopped = with_attempts(
            sourced,
            task.id,
            Some(task.generation),
            |a: AttemptView|
                attempt_stopped(a, TaskStatus::Failed, now, kind, user_message@, detail@),
        );
        proof {
            assert(self@.attempts =~= stopped.attempts);
            assert(self@ == stopped);
        }
        let claimed_last: Option<i64> = match find_attempt(
            &self.attempts,
            task.id,
            false,
            Some(task.generation),
        ) {
            Some(k) => Some(self.attempts[k].id),
            None => None,
        };
        fail_runs(&mut self.runs, run_id, claimed_last, now, kind.code(), &detail);
        let ghost closed = StoreView {
            runs: before.runs.map_values(
                |r: RunView|
                    if (fails_with(stopped, task, run_id))(r) {
                        run_failed(r, now, error_code(kind), detail@)
                    } else {
                        r
                    },
            ),
            ..stopped
        };
        proof {
            assert(self@.runs =~= closed.runs);
            assert(self@ == closed);
            lemma_last_number_unchanged(sourced, stopped, task);
            lemma_last_number_room(before, task.id);
        }
        let retries: usize = count_automatic(&self.attempts, task.id);
        if matches!(kind, ErrorKind::Transient) && retries < 2 {
            let next: i64 = latest_number(&self.attempts, task.id) + 1;
            let delay: i64 = if retries == 0 { 1 } else { 2 };
            self.change_task(task.id, TaskChange::Requeue { next_run_at: now + delay, now });
            self.add_attempt(task.id, next, true, now);
        } else {
            self.change_task(
                task.id,
                TaskChange::Finish { status: TaskStatus::Failed, now },
            );
        }
        Ok(true)
    }
}

/// Stopping attempts leaves their numbers as they are.
proof fn lemma_last_number_unchanged(before: StoreView, after: StoreView, task: ClaimedTask)
    requires
        before.attempts.len() == after.attempts.len(),
        forall|i: int|
            0 <= i < before.attempts.len() ==> (#[trigger] after.attempts[i]).task_id
                == before.attempts[i].task_id && after.attempts[i].attempt_number
                == before.attempts[i].attempt_number && after.attempts[i].id
                == before.attempts[i].id,
    ensures
        last_number(after.attempts, task.id) == last_number(before.attempts, task.id),
{
    lemma_first_by_agrees(
        before.attempts,
        after.attempts,
        wanted_attempt(task.id, false, None),
        later(),
    );
    lemma_first_by_index(before.attempts, wanted_attempt(task.id, false, None), later());
}

/// Two sequences that are kept and ordered alike have the same first.
pub proof fn lemma_first_by_agrees<T>(
    a: Seq<T>,
    b: Seq<T>,
    keep: spec_fn(T) -> bool,
    before: spec_fn(T, T) -> bool,
)
    requires
        a.len() == b.len(),
        forall|i: int| 0 <= i < a.len() ==> keep(#[trigger] a[i]) == keep(b[i]),
        forall|i: int, j: int|
            0 <= i < a.len() && 0 <= j < a.len() ==> before(#[trigger] a[i], #[trigger] a[j])
                == before(b[i], b[j]),
    ensures
        first_by(a, keep, before) == first_by(b, keep, before),
    decreases a.len(),
{
    if a.len() > 0 {
        let fa = a.drop_last();
        let fb = b.drop_last();
        assert forall|i: int| 0 <= i < fa.len() implies keep(#[trigger] fa[i]) == keep(fb[i]) by {
            assert(fa[i] == a[i] && fb[i] == b[i]);
        }
        assert forall|i: int, j: int| 0 <= i < fa.len() && 0 <= j < fa.len() implies before(
            #[trigger] fa[i],
            #[trigger] fa[j],
        ) == before(fb[i], fb[j]) by {
            assert(fa[i] == a[i] && fb[i] == b[i] && fa[j] == a[j] && fb[j] == b[j]);
        }
        lemma_first_by_agrees(fa, fb, keep, before);
        lemma_first_by_index(fa, keep, before);
        assert(a[a.len() - 1] == a.last() && b[b.len() - 1] == b.last());
        match first_by(fa, keep, before) {
            Some(k) => {
                assert(before(a[a.len() - 1], a[k]) == before(b[b.len() - 1], b[k]));
            },
            None => {},
        }
    }
}

} // verus!
