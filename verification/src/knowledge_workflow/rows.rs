//! The durable rows that knowledge processing reads and writes, and their
//! mathematical models.

use vstd::prelude::*;

use crate::knowledge_workflow::types::{ErrorKind, TaskKey, TaskStage, TaskStatus};
use crate::text::{text_opt, texts};

verus! {

#[derive(Debug, Clone, Copy, PartialEq, Eq, Structural)]
pub struct TaskRow {
    pub id: i64,
    pub key: TaskKey,
    pub status: TaskStatus,
    pub current_stage: Option<TaskStage>,
    pub change_seq: i64,
    pub next_run_at: i64,
    pub created_at: i64,
    pub updated_at: i64,
}

#[derive(Debug)]
pub struct AttemptRow {
    pub id: i64,
    pub task_id: i64,
    pub attempt_number: i64,
    pub status: TaskStatus,
    pub automatic_retry: bool,
    pub current_stage: Option<TaskStage>,
    pub created_at: i64,
    pub started_at: Option<i64>,
    pub finished_at: Option<i64>,
    pub claim_generation: Option<i64>,
    pub error_kind: Option<ErrorKind>,
    pub user_message: Option<String>,
    pub technical_detail: Option<String>,
}

pub ghost struct AttemptView {
    pub id: i64,
    pub task_id: i64,
    pub attempt_number: i64,
    pub status: TaskStatus,
    pub automatic_retry: bool,
    pub current_stage: Option<TaskStage>,
    pub created_at: i64,
    pub started_at: Option<i64>,
    pub finished_at: Option<i64>,
    pub claim_generation: Option<i64>,
    pub error_kind: Option<ErrorKind>,
    pub user_message: Option<Seq<char>>,
    pub technical_detail: Option<Seq<char>>,
}

impl View for AttemptRow {
    type V = AttemptView;

    open spec fn view(&self) -> AttemptView {
        AttemptView {
            id: self.id,
            task_id: self.task_id,
            attempt_number: self.attempt_number,
            status: self.status,
            automatic_retry: self.automatic_retry,
            current_stage: self.current_stage,
            created_at: self.created_at,
            started_at: self.started_at,
            finished_at: self.finished_at,
            claim_generation: self.claim_generation,
            error_kind: self.error_kind,
            user_message: text_opt(self.user_message),
            technical_detail: text_opt(self.technical_detail),
        }
    }
}

/// An attempt that waits to be claimed.
pub open spec fn queued_attempt(
    id: i64,
    task_id: i64,
    attempt_number: i64,
    automatic_retry: bool,
    now: i64,
) -> AttemptView {
    AttemptView {
        id,
        task_id,
        attempt_number,
        status: TaskStatus::Queued,
        automatic_retry,
        current_stage: None,
        created_at: now,
        started_at: None,
        finished_at: None,
        claim_generation: None,
        error_kind: None,
        user_message: None,
        technical_detail: None,
    }
}

pub fn new_attempt(
    id: i64,
    task_id: i64,
    attempt_number: i64,
    automatic_retry: bool,
    now: i64,
) -> (r: AttemptRow)
    ensures
        r@ == queued_attempt(id, task_id, attempt_number, automatic_retry, now),
{
    AttemptRow {
        id,
        task_id,
        attempt_number,
        status: TaskStatus::Queued,
        automatic_retry,
        current_stage: None,
        created_at: now,
        started_at: None,
        finished_at: None,
        claim_generation: None,
        error_kind: None,
        user_message: None,
        technical_detail: None,
    }
}

pub fn clone_text(text: &Option<String>) -> (r: Option<String>)
    ensures
        text_opt(r) == text_opt(*text),
        r is Some == *text is Some,
{
    match text {
        Some(value) => Some(value.clone()),
        None => None,
    }
}

/// How an executor moves an attempt that it runs.
#[derive(Debug)]
pub enum AttemptChange {
    Stage(TaskStage),
    Succeeded { now: i64 },
    Stopped { status: TaskStatus, now: i64, kind: ErrorKind, user_message: String, detail: String },
}

pub open spec fn attempt_staged(a: AttemptView, stage: TaskStage) -> AttemptView {
    AttemptView { current_stage: Some(stage), ..a }
}

pub open spec fn attempt_succeeded(a: AttemptView, now: i64) -> AttemptView {
    AttemptView {
        status: TaskStatus::Succeeded,
        finished_at: Some(now),
        error_kind: None,
        user_message: None,
        technical_detail: None,
        ..a
    }
}

pub open spec fn attempt_stopped(
    a: AttemptView,
    status: TaskStatus,
    now: i64,
    kind: ErrorKind,
    user_message: Seq<char>,
    detail: Seq<char>,
) -> AttemptView {
    AttemptView {
        status,
        finished_at: Some(now),
        error_kind: Some(kind),
        user_message: Some(user_message),
        technical_detail: Some(detail),
        ..a
    }
}

pub open spec fn attempt_changed(a: AttemptView, change: AttemptChange) -> AttemptView {
    match change {
        AttemptChange::Stage(stage) => attempt_staged(a, stage),
        AttemptChange::Succeeded { now } => attempt_succeeded(a, now),
        AttemptChange::Stopped { status, now, kind, user_message, detail } => attempt_stopped(
            a,
            status,
            now,
            kind,
            user_message@,
            detail@,
        ),
    }
}

/// An attempt that an executor of `generation` has taken up.
pub open spec fn attempt_started(
    a: AttemptView,
    stage: TaskStage,
    now: i64,
    generation: i64,
) -> AttemptView {
    AttemptView {
        status: TaskStatus::Running,
        current_stage: Some(stage),
        started_at: Some(now),
        claim_generation: Some(generation),
        ..a
    }
}

impl AttemptRow {
    pub fn copied(&self) -> (r: AttemptRow)
        ensures
            r@ == self@,
    {
        AttemptRow {
            id: self.id,
            task_id: self.task_id,
            attempt_number: self.attempt_number,
            status: self.status,
            automatic_retry: self.automatic_retry,
            current_stage: self.current_stage,
            created_at: self.created_at,
            started_at: self.started_at,
            finished_at: self.finished_at,
            claim_generation: self.claim_generation,
            error_kind: self.error_kind,
            user_message: clone_text(&self.user_message),
            technical_detail: clone_text(&self.technical_detail),
        }
    }

    pub fn changed(&self, change: &AttemptChange) -> (r: AttemptRow)
        ensures
            r@ == attempt_changed(self@, *change),
    {
        let mut row = self.copied();
        match change {
            AttemptChange::Stage(stage) => {
                row.current_stage = Some(*stage);
            },
            AttemptChange::Succeeded { now } => {
                row.status = TaskStatus::Succeeded;
                row.finished_at = Some(*now);
                row.error_kind = None;
                row.user_message = None;
                row.technical_detail = None;
            },
            AttemptChange::Stopped { status, now, kind, user_message, detail } => {
                row.status = *status;
                row.finished_at = Some(*now);
                row.error_kind = Some(*kind);
                row.user_message = Some(user_message.clone());
                row.technical_detail = Some(detail.clone());
            },
        }
        row
    }
}

/// How a task moves. Each change also stamps the change clock.
#[derive(Debug, Clone, Copy)]
pub enum TaskChange {
    Requeue { next_run_at: i64, now: i64 },
    Start { stage: TaskStage, now: i64 },
    Stage { stage: TaskStage, now: i64 },
    Finish { status: TaskStatus, now: i64 },
    Interrupt { now: i64 },
}

pub open spec fn task_changed(t: TaskRow, change: TaskChange, seq: i64) -> TaskRow {
    match change {
        TaskChange::Requeue { next_run_at, now } => TaskRow {
            status: TaskStatus::Queued,
            current_stage: None,
            next_run_at,
            updated_at: now,
            change_seq: seq,
            ..t
        },
        TaskChange::Start { stage, now } => TaskRow {
            status: TaskStatus::Running,
            current_stage: Some(stage),
            updated_at: now,
            change_seq: seq,
            ..t
        },
        TaskChange::Stage { stage, now } => TaskRow {
            current_stage: Some(stage),
            updated_at: now,
            change_seq: seq,
            ..t
        },
        TaskChange::Finish { status, now } => TaskRow {
            status,
            updated_at: now,
            change_seq: seq,
            ..t
        },
        TaskChange::Interrupt { now } => TaskRow {
            status: TaskStatus::Interrupted,
            current_stage: None,
            updated_at: now,
            change_seq: seq,
            ..t
        },
    }
}

impl TaskRow {
    pub fn changed(self, change: TaskChange, seq: i64) -> (r: TaskRow)
        ensures
            r == task_changed(self, change, seq),
    {
        let mut row = self;
        row.change_seq = seq;
        match change {
            TaskChange::Requeue { next_run_at, now } => {
                row.status = TaskStatus::Queued;
                row.current_stage = None;
                row.next_run_at = next_run_at;
                row.updated_at = now;
            },
            TaskChange::Start { stage, now } => {
                row.status = TaskStatus::Running;
                row.current_stage = Some(stage);
                row.updated_at = now;
            },
            TaskChange::Stage { stage, now } => {
                row.current_stage = Some(stage);
                row.updated_at = now;
            },
            TaskChange::Finish { status, now } => {
                row.status = status;
                row.updated_at = now;
            },
            TaskChange::Interrupt { now } => {
                row.status = TaskStatus::Interrupted;
                row.current_stage = None;
                row.updated_at = now;
            },
        }
        row
    }
}

#[derive(Debug, Clone, Copy, PartialEq, Eq, Structural)]
pub enum RunStatus {
    Pending,
    Running,
    Succeeded,
    Failed,
}

/// One call of the enrichment provider.
#[derive(Debug)]
pub struct RunRow {
    pub id: i64,
    pub resource_id: i64,
    pub snapshot_id: Option<i64>,
    pub attempt_id: i64,
    pub provider: String,
    pub model: String,
    pub prompt_version: String,
    pub schema_version: String,
    pub status: RunStatus,
    pub started_at: i64,
    pub finished_at: Option<i64>,
    pub error_code: Option<String>,
    pub error_message: Option<String>,
}

pub ghost struct RunView {
    pub id: i64,
    pub resource_id: i64,
    pub snapshot_id: Option<i64>,
    pub attempt_id: i64,
    pub provider: Seq<char>,
    pub model: Seq<char>,
    pub prompt_version: Seq<char>,
    pub schema_version: Seq<char>,
    pub status: RunStatus,
    pub started_at: i64,
    pub finished_at: Option<i64>,
    pub error_code: Option<Seq<char>>,
    pub error_message: Option<Seq<char>>,
}

impl View for RunRow {
    type V = RunView;

    open spec fn view(&self) -> RunView {
        RunView {
            id: self.id,
            resource_id: self.resource_id,
            snapshot_id: self.snapshot_id,
            attempt_id: self.attempt_id,
            provider: self.provider@,
            model: self.model@,
            prompt_version: self.prompt_version@,
            schema_version: self.schema_version@,
            status: self.status,
            started_at: self.started_at,
            finished_at: self.finished_at,
            error_code: text_opt(self.error_code),
            error_message: text_opt(self.error_message),
        }
    }
}

/// A run whose provider may still answer.
pub open spec fn open_run(status: RunStatus) -> bool {
    status is Pending || status is Running
}

pub open spec fn run_failed(r: RunView, now: i64, code: Seq<char>, message: Seq<char>) -> RunView {
    RunView {
        status: RunStatus::Failed,
        finished_at: Some(now),
        error_code: Some(code),
        error_message: Some(message),
        ..r
    }
}

pub open spec fn run_succeeded(r: RunView, now: i64) -> RunView {
    RunView { status: RunStatus::Succeeded, finished_at: Some(now), ..r }
}

impl RunRow {
    pub fn is_open(&self) -> (r: bool)
        ensures
            r == open_run(self.status),
    {
        matches!(self.status, RunStatus::Pending | RunStatus::Running)
    }

    fn copied(&self) -> (r: RunRow)
        ensures
            r@ == self@,
    {
        RunRow {
            id: self.id,
            resource_id: self.resource_id,
            snapshot_id: self.snapshot_id,
            attempt_id: self.attempt_id,
            provider: self.provider.clone(),
            model: self.model.clone(),
            prompt_version: self.prompt_version.clone(),
            schema_version: self.schema_version.clone(),
            status: self.status,
            started_at: self.started_at,
            finished_at: self.finished_at,
            error_code: clone_text(&self.error_code),
            error_message: clone_text(&self.error_message),
        }
    }

    pub fn failed(&self, now: i64, code: &str, message: &str) -> (r: RunRow)
        ensures
            r@ == run_failed(self@, now, code@, message@),
    {
        let mut row = self.copied();
        row.status = RunStatus::Failed;
        row.finished_at = Some(now);
        row.error_code = Some(code.to_owned());
        row.error_message = Some(message.to_owned());
        row
    }

    pub fn succeeded(&self, now: i64) -> (r: RunRow)
        ensures
            r@ == run_succeeded(self@, now),
    {
        let mut row = self.copied();
        row.status = RunStatus::Succeeded;
        row.finished_at = Some(now);
        row
    }
}

#[derive(Debug, Clone, Copy, PartialEq, Eq, Structural)]
pub enum ResourcePrivacy {
    Public,
    Private,
}

#[derive(Debug, Clone, Copy, PartialEq, Eq, Structural)]
pub enum ResourceHealth {
    Unknown,
    Healthy,
    Broken,
}

/// What knowledge processing reads and writes of a library resource.
#[derive(Debug)]
pub struct ResourceRow {
    pub id: i64,
    pub privacy: ResourcePrivacy,
    pub health: ResourceHealth,
    pub title: Option<String>,
    pub latest_snapshot_id: Option<i64>,
    pub linked_article_id: Option<i64>,
    pub source_failure_count: i64,
    pub last_checked_at: Option<i64>,
    pub updated_at: i64,
}

pub ghost struct ResourceView {
    pub id: i64,
    pub privacy: ResourcePrivacy,
    pub health: ResourceHealth,
    pub title: Option<Seq<char>>,
    pub latest_snapshot_id: Option<i64>,
    pub linked_article_id: Option<i64>,
    pub source_failure_count: i64,
    pub last_checked_at: Option<i64>,
    pub updated_at: i64,
}

impl View for ResourceRow {
    type V = ResourceView;

    open spec fn view(&self) -> ResourceView {
        ResourceView {
            id: self.id,
            privacy: self.privacy,
            health: self.health,
            title: text_opt(self.title),
            latest_snapshot_id: self.latest_snapshot_id,
            linked_article_id: self.linked_article_id,
            source_failure_count: self.source_failure_count,
            last_checked_at: self.last_checked_at,
            updated_at: self.updated_at,
        }
    }
}

/// How many failed checks in a row make a resource broken.
pub const BROKEN_AFTER_FAILURES: i64 = 3;

pub open spec fn resource_fetched(
    r: ResourceView,
    snapshot_id: i64,
    title: Option<Seq<char>>,
    now: i64,
) -> ResourceView {
    ResourceView {
        latest_snapshot_id: Some(snapshot_id),
        title: if r.title is Some {
            r.title
        } else {
            title
        },
        last_checked_at: Some(now),
        updated_at: now,
        health: ResourceHealth::Healthy,
        source_failure_count: 0,
        ..r
    }
}

/// A transient failure only notes the check. Any other one counts, and a
/// permanent or repeated one marks the resource broken.
pub open spec fn resource_fetch_failed(
    r: ResourceView,
    transient: bool,
    permanent: bool,
    now: i64,
) -> ResourceView {
    if transient {
        ResourceView { last_checked_at: Some(now), ..r }
    } else {
        ResourceView {
            source_failure_count: (r.source_failure_count + 1) as i64,
            health: if permanent || r.source_failure_count + 1 >= BROKEN_AFTER_FAILURES {
                ResourceHealth::Broken
            } else {
                r.health
            },
            last_checked_at: Some(now),
            updated_at: now,
            ..r
        }
    }
}

impl ResourceRow {
    pub fn copied(&self) -> (r: ResourceRow)
        ensures
            r@ == self@,
    {
        ResourceRow {
            id: self.id,
            privacy: self.privacy,
            health: self.health,
            title: clone_text(&self.title),
            latest_snapshot_id: self.latest_snapshot_id,
            linked_article_id: self.linked_article_id,
            source_failure_count: self.source_failure_count,
            last_checked_at: self.last_checked_at,
            updated_at: self.updated_at,
        }
    }

    pub fn fetched(&self, snapshot_id: i64, title: &Option<String>, now: i64) -> (r: ResourceRow)
        ensures
            r@ == resource_fetched(self@, snapshot_id, text_opt(*title), now),
    {
        let mut row = self.copied();
        row.latest_snapshot_id = Some(snapshot_id);
        if row.title.is_none() {
            row.title = clone_text(title);
        }
        row.last_checked_at = Some(now);
        row.updated_at = now;
        row.health = ResourceHealth::Healthy;
        row.source_failure_count = 0;
        row
    }

    pub fn fetch_failed(&self, transient: bool, permanent: bool, now: i64) -> (r: ResourceRow)
        requires
            self.source_failure_count < i64::MAX,
        ensures
            r@ == resource_fetch_failed(self@, transient, permanent, now),
    {
        let mut row = self.copied();
        row.last_checked_at = Some(now);
        if !transient {
            row.source_failure_count = self.source_failure_count + 1;
            if permanent || self.source_failure_count + 1 >= BROKEN_AFTER_FAILURES {
                row.health = ResourceHealth::Broken;
            }
            row.updated_at = now;
        }
        row
    }
}

/// What a fetch of a resource brought.
#[derive(Debug)]
pub struct SnapshotInput {
    pub fetched_url: Option<String>,
    pub http_status: Option<i64>,
    pub title: Option<String>,
    pub cleaned_content: Option<String>,
    pub fetch_error: Option<String>,
}

#[derive(Debug)]
pub struct SnapshotRow {
    pub id: i64,
    pub resource_id: i64,
    pub content_hash: String,
    pub fetched_url: Option<String>,
    pub http_status: Option<i64>,
    pub title: Option<String>,
    pub cleaned_content: Option<String>,
    pub fetched_at: i64,
}

pub ghost struct SnapshotView {
    pub id: i64,
    pub resource_id: i64,
    pub content_hash: Seq<char>,
    pub fetched_url: Option<Seq<char>>,
    pub http_status: Option<i64>,
    pub title: Option<Seq<char>>,
    pub cleaned_content: Option<Seq<char>>,
    pub fetched_at: i64,
}

impl View for SnapshotRow {
    type V = SnapshotView;

    open spec fn view(&self) -> SnapshotView {
        SnapshotView {
            id: self.id,
            resource_id: self.resource_id,
            content_hash: self.content_hash@,
            fetched_url: text_opt(self.fetched_url),
            http_status: self.http_status,
            title: text_opt(self.title),
            cleaned_content: text_opt(self.cleaned_content),
            fetched_at: self.fetched_at,
        }
    }
}

/// What the provider wrote about an article.
#[derive(Debug)]
pub struct ArticleAiRow {
    pub article_id: i64,
    pub summary_zh: String,
    pub translation_zh: String,
    pub model: String,
    pub updated_at: i64,
}

pub ghost struct ArticleAiView {
    pub article_id: i64,
    pub summary_zh: Seq<char>,
    pub translation_zh: Seq<char>,
    pub model: Seq<char>,
    pub updated_at: i64,
}

impl View for ArticleAiRow {
    type V = ArticleAiView;

    open spec fn view(&self) -> ArticleAiView {
        ArticleAiView {
            article_id: self.article_id,
            summary_zh: self.summary_zh@,
            translation_zh: self.translation_zh@,
            model: self.model@,
            updated_at: self.updated_at,
        }
    }
}

/// What the provider found out about a resource.
#[derive(Debug, Clone, PartialEq, Eq)]
pub struct EnrichmentOutput {
    pub purpose_zh: String,
    pub use_when_zh: String,
    pub capabilities: Vec<String>,
    pub limitations: Vec<String>,
    pub categories: Vec<String>,
    pub tags_zh: Vec<String>,
    pub tags_en: Vec<String>,
    pub pricing: String,
    pub requires_login: Option<bool>,
    pub languages: Vec<String>,
    pub evidence: Vec<String>,
}

pub ghost struct OutputView {
    pub purpose_zh: Seq<char>,
    pub use_when_zh: Seq<char>,
    pub capabilities: Seq<Seq<char>>,
    pub limitations: Seq<Seq<char>>,
    pub categories: Seq<Seq<char>>,
    pub tags_zh: Seq<Seq<char>>,
    pub tags_en: Seq<Seq<char>>,
    pub pricing: Seq<char>,
    pub requires_login: Option<bool>,
    pub languages: Seq<Seq<char>>,
    pub evidence: Seq<Seq<char>>,
}

impl View for EnrichmentOutput {
    type V = OutputView;

    open spec fn view(&self) -> OutputView {
        OutputView {
            purpose_zh: self.purpose_zh@,
            use_when_zh: self.use_when_zh@,
            capabilities: texts(self.capabilities@),
            limitations: texts(self.limitations@),
            categories: texts(self.categories@),
            tags_zh: texts(self.tags_zh@),
            tags_en: texts(self.tags_en@),
            pricing: self.pricing@,
            requires_login: self.requires_login,
            languages: texts(self.languages@),
            evidence: texts(self.evidence@),
        }
    }
}

/// An answer of the provider that was applied to a resource.
#[derive(Debug)]
pub struct EnrichmentRow {
    pub resource_id: i64,
    pub output: EnrichmentOutput,
    pub applied_at: i64,
}

pub ghost struct EnrichmentView {
    pub resource_id: i64,
    pub output: OutputView,
    pub applied_at: i64,
}

impl View for EnrichmentRow {
    type V = EnrichmentView;

    open spec fn view(&self) -> EnrichmentView {
        EnrichmentView {
            resource_id: self.resource_id,
            output: self.output@,
            applied_at: self.applied_at,
        }
    }
}

/// Who may execute tasks, and since when the owner was last heard of.
#[derive(Debug)]
pub struct LeaseRow {
    pub owner_id: Option<String>,
    pub generation: i64,
    pub heartbeat_at: i64,
}

pub ghost struct LeaseView {
    pub owner_id: Option<Seq<char>>,
    pub generation: i64,
    pub heartbeat_at: i64,
}

impl View for LeaseRow {
    type V = LeaseView;

    open spec fn view(&self) -> LeaseView {
        LeaseView {
            owner_id: text_opt(self.owner_id),
            generation: self.generation,
            heartbeat_at: self.heartbeat_at,
        }
    }
}

} // verus!
