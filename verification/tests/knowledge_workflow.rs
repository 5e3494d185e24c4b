use shiyue::knowledge_workflow::engine::{
    after_loop, host_command, CommandAction, Departure, EngineCommand, EngineExit, EngineState,
    ExecutorPolicy, HostAction, HostNext, LoopEnd, Refusal, MAX_CONCURRENCY,
};
use shiyue::knowledge_workflow::execution::{
    connection_verdict, execute_article, execute_resource, provider_key, ArticleAction,
    ArticleEvent, ResourceAction, ResourceEvent, ResourcePhase,
};
use shiyue::knowledge_workflow::failure::{classify_error, sanitize_detail};
use shiyue::knowledge_workflow::projection::KnowledgeProjectionState;
use shiyue::knowledge_workflow::rows::{
    EnrichmentOutput, LeaseRow, ResourceHealth, ResourcePrivacy, ResourceRow, SnapshotInput, SnapshotRow,
};
use shiyue::knowledge_workflow::store::{
    ClaimedTask, EnrichmentConfig, StoreFailure, WorkflowStore,
};
use shiyue::knowledge_workflow::types::{
    ConnectionState, ErrorKind, KnowledgeNotice, RequestDisposition, TaskKey, TaskKind, TaskStage,
    TaskStatus,
};
use shiyue::library_projection_revision::LibraryProjectionRevision;

const RESOURCE_ID: i64 = 5;
const ARTICLE_ID: i64 = 8;

/// A library with one public resource, whose page was fetched, and one article.
fn library(now: i64) -> WorkflowStore {
    WorkflowStore {
        fenced: false,
        tasks: Vec::new(),
        attempts: Vec::new(),
        runs: Vec::new(),
        resources: vec![ResourceRow {
            id: RESOURCE_ID,
            privacy: ResourcePrivacy::Public,
            health: ResourceHealth::Healthy,
            title: Some("Design Tool".into()),
            latest_snapshot_id: Some(1),
            linked_article_id: None,
            source_failure_count: 0,
            last_checked_at: Some(now),
            updated_at: now,
        }],
        snapshots: vec![SnapshotRow {
            id: 1,
            resource_id: RESOURCE_ID,
            content_hash: "test-hash".into(),
            fetched_url: Some("https://example.com/design".into()),
            http_status: Some(200),
            title: Some("Design Tool".into()),
            cleaned_content: Some("A useful design tool".into()),
            fetched_at: now,
        }],
        article_ids: vec![ARTICLE_ID],
        article_ai: Vec::new(),
        enrichments: Vec::new(),
        lease: LeaseRow {
            owner_id: None,
            generation: 0,
            heartbeat_at: 0,
        },
        clock: 0,
        revisions: LibraryProjectionRevision::default(),
        next_task_id: 1,
        next_attempt_id: 1,
        next_run_id: 1,
        next_snapshot_id: 2,
    }
}

fn resource_key() -> TaskKey {
    TaskKey::new(TaskKind::ResourceCompletion, RESOURCE_ID)
}

fn article_key() -> TaskKey {
    TaskKey::new(TaskKind::ArticleSummary, ARTICLE_ID)
}

fn config() -> EnrichmentConfig {
    EnrichmentConfig {
        enabled: true,
        provider: "provider".into(),
        model: "model".into(),
        prompt_version: "1".into(),
        schema_version: "1".into(),
    }
}

fn answer(purpose: &str) -> EnrichmentOutput {
    EnrichmentOutput {
        purpose_zh: purpose.into(),
        use_when_zh: purpose.into(),
        capabilities: vec![],
        limitations: vec![],
        categories: vec!["tool".into()],
        tags_zh: vec![],
        tags_en: vec![],
        pricing: "unknown".into(),
        requires_login: None,
        languages: vec![],
        evidence: vec![],
    }
}

/// What the latest answer says that a resource is for.
fn purpose_zh(store: &WorkflowStore, resource_id: i64) -> Option<String> {
    store
        .enrichments
        .iter()
        .rev()
        .find(|row| row.resource_id == resource_id)
        .map(|row| row.output.purpose_zh.clone())
}

fn status(store: &WorkflowStore, key: TaskKey) -> TaskStatus {
    store.latest_snapshot(key).unwrap().status
}

/// An engine over a library, with a clock in milliseconds.
struct Bench {
    state: EngineState,
    owner: &'static str,
    running: Vec<ClaimedTask>,
}

impl Bench {
    fn start(policy: ExecutorPolicy, owner: &'static str, store: &WorkflowStore) -> Bench {
        Bench {
            state: EngineState::new(policy, store.current_clock(), 0),
            owner,
            running: Vec::new(),
        }
    }

    fn acquire(&mut self, store: &mut WorkflowStore, now: u64) -> bool {
        if !self.state.begin_lease_attempt(now) {
            return false;
        }
        match store.acquire_lease(self.owner, (now / 1000) as i64) {
            Some(generation) => {
                store.interrupt_stale_running(generation, (now / 1000) as i64);
                self.state.lease_acquired(generation, now);
                true
            }
            None => false,
        }
    }

    fn claim(&mut self, store: &mut WorkflowStore, now: u64) -> bool {
        let Some(generation) = self.state.claim_generation() else {
            return false;
        };
        match store.claim_next(self.owner, generation, (now / 1000) as i64) {
            Some(task) => {
                self.state.task_started(task.id);
                self.running.push(task);
                true
            }
            None => false,
        }
    }

    /// Brings the running resource task to its end.
    fn finish(&mut self, store: &mut WorkflowStore, now: u64) {
        let task = self.running.remove(0);
        let seconds = (now / 1000) as i64;
        assert!(store
            .advance(self.owner, task, TaskStage::Organizing, seconds)
            .unwrap());
        let run_id = store
            .start_enrichment(self.owner, task, &config(), Some(1), seconds)
            .unwrap()
            .unwrap();
        assert!(store
            .complete_resource(self.owner, task, run_id, answer("设计工具"), seconds)
            .unwrap());
        self.state.task_finished(task.id);
    }

    fn leave(&mut self, store: &mut WorkflowStore, now: u64) -> Option<Departure> {
        let departure = self.state.safe_point(now)?;
        if let Some(generation) = departure.interrupt {
            store.interrupt_generation(self.owner, generation, (now / 1000) as i64);
        }
        if let Some(generation) = departure.release {
            store.release_lease(self.owner, generation);
        }
        Some(departure)
    }
}

#[test]
fn identical_article_knowledge_output_is_a_revision_noop() {
    let mut store = library(1);
    let owner = "article-revision-owner";
    let generation = store.acquire_lease(owner, 10).unwrap();
    let key = article_key();
    store.request(key, 11).unwrap();
    let first = store.claim_next(owner, generation, 11).unwrap();
    let before = store.revisions;
    assert!(store
        .complete_article(owner, first, "摘要", "翻译", "model", 12)
        .unwrap());
    let after_first = store.revisions;
    assert_eq!(after_first.article, before.article + 1);
    assert_eq!(store.article_ai[0].summary_zh, "摘要");
    assert_eq!(store.article_ai[0].translation_zh, "翻译");

    store.request(key, 13).unwrap();
    let second = store.claim_next(owner, generation, 13).unwrap();
    assert!(store
        .complete_article(owner, second, "摘要", "翻译", "model", 14)
        .unwrap());
    assert_eq!(store.revisions, after_first);
}

#[test]
fn request_is_idempotent_and_failed_request_creates_attempt() {
    let mut store = library(10);
    let key = resource_key();
    assert_eq!(
        store.request(key, 11).unwrap().disposition,
        RequestDisposition::Created
    );
    assert_eq!(
        store.request(key, 12).unwrap().disposition,
        RequestDisposition::Existing
    );
    store.tasks[0].status = TaskStatus::Failed;
    store.attempts[0].status = TaskStatus::Failed;
    assert_eq!(
        store.request(key, 13).unwrap().disposition,
        RequestDisposition::Retried
    );
    assert_eq!(store.attempts.len(), 2);
}

#[test]
fn two_engines_have_only_one_executor_lease() {
    let mut store = library(1);
    let mut first = Bench::start(ExecutorPolicy::Acquire, "first", &store);
    let mut second = Bench::start(ExecutorPolicy::Acquire, "second", &store);
    assert!(first.acquire(&mut store, 1_000));
    assert!(!second.acquire(&mut store, 2_000));
    assert_eq!(store.lease.owner_id.as_deref(), Some("first"));
    assert!(store.owns_lease("first", store.lease.generation));
    assert!(!store.owns_lease("second", store.lease.generation));
}

#[test]
fn gui_style_request_notice_snapshot_completes() {
    let mut store = library(1);
    let key = resource_key();
    let mut engine = Bench::start(ExecutorPolicy::Acquire, "engine", &store);
    assert_eq!(
        engine.state.command(EngineCommand::Request { key }, 1_000),
        CommandAction::Request(key)
    );
    store.request(key, 1).unwrap();
    assert!(engine.acquire(&mut store, 1_000));
    assert!(engine.claim(&mut store, 1_000));
    engine.finish(&mut store, 2_000);

    assert!(engine.state.begin_watch(2_000));
    let rows = store.changes_after(engine.state.core.cursor);
    let (changed, fault) = engine.state.changes_read(&rows);
    assert_eq!(changed, vec![key]);
    assert!(fault.is_none());
    assert_eq!(status(&store, key), TaskStatus::Succeeded);
    assert!(store.changes_after(engine.state.core.cursor).is_empty());
}

#[test]
fn projection_residency_evicts_immediately_and_reobserve_materializes() {
    let mut store = library(1);
    let key = resource_key();
    let mut observer = KnowledgeProjectionState::new();
    assert!(observer.observe(key));
    assert!(observer.publish(key, store.latest_snapshot(key)));
    assert!(observer.snapshot(key).is_some());

    let mut engine = Bench::start(ExecutorPolicy::Acquire, "engine", &store);
    store.request(key, 1).unwrap();
    assert!(engine.acquire(&mut store, 1_000));
    assert!(engine.claim(&mut store, 1_000));
    engine.finish(&mut store, 2_000);
    assert!(observer.publish(key, store.latest_snapshot(key)));
    assert_eq!(
        observer.snapshot(key).unwrap().as_ref().unwrap().status,
        TaskStatus::Succeeded
    );

    observer.forget(key);
    assert!(!observer.is_resident(key));
    assert!(observer.snapshot(key).is_none());
    assert!(!observer.publish(key, store.latest_snapshot(key)));
    assert!(
        observer.snapshot(key).is_none(),
        "queued publication resurrected an evicted snapshot"
    );

    assert!(observer.observe(key));
    assert!(observer.publish(key, store.latest_snapshot(key)));
    assert_eq!(
        observer.snapshot(key).unwrap().as_ref().unwrap().status,
        TaskStatus::Succeeded
    );
}

#[test]
fn cli_style_no_wait_survives_restart_and_waits_for_terminal_state() {
    let mut store = library(1);
    let key = resource_key();
    let mut client = Bench::start(ExecutorPolicy::ObserveOnly, "client", &store);
    store.request(key, 1).unwrap();
    assert!(!client.acquire(&mut store, 1_000));
    assert!(!client.claim(&mut store, 1_000));
    assert_eq!(status(&store, key), TaskStatus::Queued);

    let mut executor = Bench::start(ExecutorPolicy::Acquire, "executor", &store);
    assert!(executor.acquire(&mut store, 2_000));
    assert!(executor.claim(&mut store, 2_000));
    executor.finish(&mut store, 3_000);
    assert!(status(&store, key).is_terminal());
    assert_eq!(status(&store, key), TaskStatus::Succeeded);
}

#[test]
fn maintenance_participant_quiesces_idle_engine_rejects_work_and_resumes() {
    let mut store = library(1);
    let key = resource_key();
    let mut engine = Bench::start(ExecutorPolicy::Acquire, "engine", &store);
    let mut observer = KnowledgeProjectionState::new();
    observer.observe(key);
    observer.publish(key, store.latest_snapshot(key));
    assert!(engine.acquire(&mut store, 1_000));

    assert_eq!(
        engine
            .state
            .command(EngineCommand::Quiesce { deadline: 3_000 }, 1_000),
        CommandAction::Defer
    );
    assert_eq!(
        engine.state.command(EngineCommand::Request { key }, 1_000),
        CommandAction::Refuse(Refusal::RequestDuringMaintenance)
    );
    assert!(Refusal::RequestDuringMaintenance
        .text()
        .contains("MAINTENANCE_IN_PROGRESS"));
    let departure = engine.leave(&mut store, 1_000).unwrap();
    assert!(departure.acknowledge);
    assert!(departure.clear_projection);
    observer.clear_materialized();
    assert!(observer.is_resident(key));
    assert!(observer.snapshot(key).is_none());
    assert_eq!(store.lease.owner_id, None);

    let HostNext::Wait { quiesced } = after_loop(LoopEnd::Exit(departure.exit)) else {
        panic!("the host waits");
    };
    assert!(quiesced);
    assert_eq!(
        host_command(quiesced, EngineCommand::Request { key }, true),
        (
            HostAction::Refuse(Refusal::RequestDuringMaintenance),
            true
        )
    );
    assert_eq!(
        host_command(quiesced, EngineCommand::TestConnection, true),
        (HostAction::Refuse(Refusal::TestDuringMaintenance), true)
    );
    for refusal in [
        Refusal::RequestDuringMaintenance,
        Refusal::TestDuringMaintenance,
        Refusal::MaintenanceNotOver,
    ] {
        assert!(refusal.text().contains("MAINTENANCE_IN_PROGRESS"));
    }
    assert_eq!(
        host_command(quiesced, EngineCommand::Resume, true),
        (HostAction::Refuse(Refusal::MaintenanceNotOver), true)
    );
    assert_eq!(
        host_command(quiesced, EngineCommand::Resume, false),
        (HostAction::Accept, false)
    );

    let mut resumed = Bench::start(ExecutorPolicy::Acquire, "engine", &store);
    observer.publish(key, store.latest_snapshot(key));
    assert!(observer.snapshot(key).is_some());
    store.request(key, 5).unwrap();
    assert!(resumed.acquire(&mut store, 5_000));
    assert!(resumed.claim(&mut store, 5_000));
    resumed.finish(&mut store, 6_000);
    assert_eq!(status(&store, key), TaskStatus::Succeeded);
}

#[test]
fn maintenance_quiesce_allows_provider_to_finish_inside_deadline() {
    let mut store = library(1);
    let key = resource_key();
    let mut engine = Bench::start(ExecutorPolicy::Acquire, "engine", &store);
    store.request(key, 1).unwrap();
    assert!(engine.acquire(&mut store, 1_000));
    assert!(engine.claim(&mut store, 1_000));
    engine
        .state
        .command(EngineCommand::Quiesce { deadline: 3_000 }, 1_000);
    assert!(engine.leave(&mut store, 1_050).is_none());
    engine.finish(&mut store, 1_100);
    let departure = engine.leave(&mut store, 1_100).unwrap();
    assert_eq!(departure.interrupt, None);
    assert_eq!(status(&store, key), TaskStatus::Succeeded);
    assert_eq!(purpose_zh(&store, RESOURCE_ID).as_deref(), Some("设计工具"));
    assert_eq!(store.enrichments[0].applied_at, 1);
}

#[test]
fn maintenance_deadline_interrupts_attempt_and_fences_late_provider_result() {
    let mut store = library(1);
    let key = resource_key();
    let mut engine = Bench::start(ExecutorPolicy::Acquire, "engine", &store);
    store.request(key, 1).unwrap();
    assert!(engine.acquire(&mut store, 1_000));
    assert!(engine.claim(&mut store, 1_000));
    let task = engine.running[0];
    store
        .advance("engine", task, TaskStage::Organizing, 1)
        .unwrap();
    let run_id = store
        .start_enrichment("engine", task, &config(), Some(1), 1)
        .unwrap()
        .unwrap();
    engine
        .state
        .command(EngineCommand::Quiesce { deadline: 4_000 }, 1_000);
    assert!(engine.leave(&mut store, 2_999).is_none());
    let departure = engine.leave(&mut store, 3_000).unwrap();
    assert_eq!(departure.exit, EngineExit::Maintenance { explicit: true });
    assert_eq!(status(&store, key), TaskStatus::Interrupted);

    assert!(!store
        .complete_resource("engine", task, run_id, answer("不应写入"), 5)
        .unwrap());
    assert_eq!(status(&store, key), TaskStatus::Interrupted);
    assert_eq!(purpose_zh(&store, RESOURCE_ID), None);
}

#[test]
fn queued_task_survives_quiesce_and_executes_after_an_executor_resumes() {
    let mut store = library(1);
    let key = resource_key();
    let mut client = Bench::start(ExecutorPolicy::ObserveOnly, "client", &store);
    store.request(key, 1).unwrap();
    client
        .state
        .command(EngineCommand::Quiesce { deadline: 2_000 }, 1_000);
    assert!(client.leave(&mut store, 1_000).is_some());
    assert_eq!(status(&store, key), TaskStatus::Queued);

    let mut executor = Bench::start(ExecutorPolicy::Acquire, "executor", &store);
    assert!(executor.acquire(&mut store, 3_000));
    assert!(executor.claim(&mut store, 3_000));
    executor.finish(&mut store, 4_000);
    assert_eq!(status(&store, key), TaskStatus::Succeeded);
}

#[test]
fn stale_generation_cannot_finish_after_takeover() {
    let mut store = library(10);
    let key = resource_key();
    store.request(key, 11).unwrap();
    let first = store.acquire_lease("first", 20).unwrap();
    let claimed = store.claim_next("first", first, 20).unwrap();
    store
        .advance("first", claimed, TaskStage::Organizing, 20)
        .unwrap();
    let run_id = store
        .start_enrichment("first", claimed, &config(), None, 20)
        .unwrap()
        .unwrap();
    let second = store.acquire_lease("second", 40).unwrap();
    assert_eq!(store.interrupt_stale_running(second, 40), 1);
    assert!(!store
        .advance("first", claimed, TaskStage::Organizing, 41)
        .unwrap());
    assert!(!store
        .complete_resource("first", claimed, run_id, answer("不应写入"), 41)
        .unwrap());
    assert_eq!(status(&store, key), TaskStatus::Interrupted);
    assert_eq!(purpose_zh(&store, RESOURCE_ID), None);
}

#[test]
fn a_living_lease_is_not_taken_over() {
    let mut store = library(1);
    let first = store.acquire_lease("first", 20).unwrap();
    assert_eq!(store.acquire_lease("second", 21), None);
    assert!(store.heartbeat("first", first, 30));
    assert!(!store.heartbeat("second", first, 30));
    store.release_lease("first", first);
    let second = store.acquire_lease("second", 31).unwrap();
    assert_eq!(second, first + 1);
}

#[test]
fn requests_for_missing_targets_and_during_maintenance_are_refused() {
    let mut store = library(1);
    let missing = TaskKey::new(TaskKind::ArticleSummary, 99);
    assert_eq!(
        store.request(missing, 1).unwrap_err(),
        StoreFailure::TargetNotFound(missing)
    );
    store.fenced = true;
    let refused = store.request(article_key(), 1).unwrap_err();
    assert_eq!(refused, StoreFailure::Maintenance);
    assert!(refused.message().contains("MAINTENANCE_IN_PROGRESS"));
    assert!(store.tasks.is_empty());
}

#[test]
fn transient_failures_are_tried_again_by_themselves() {
    let mut store = library(1);
    let key = article_key();
    let generation = store.acquire_lease("engine", 10).unwrap();
    store.request(key, 10).unwrap();
    let task = store.claim_next("engine", generation, 10).unwrap();
    assert!(store
        .fail("engine", task, None, "HTTP 503 from server", 11)
        .unwrap());
    let snapshot = store.latest_snapshot(key).unwrap();
    assert_eq!(snapshot.status, TaskStatus::Queued);
    assert!(snapshot.automatic_retry);
    assert_eq!(snapshot.attempt_number, 2);
    assert!(store.claim_next("engine", generation, 11).is_none());
    let second = store.claim_next("engine", generation, 12).unwrap();
    assert!(store
        .fail("engine", second, None, "HTTP 503 from server", 20)
        .unwrap());
    assert!(store.claim_next("engine", generation, 21).is_none());
    let third = store.claim_next("engine", generation, 22).unwrap();
    assert!(store
        .fail("engine", third, None, "HTTP 503 from server", 23)
        .unwrap());
    let ended = store.latest_snapshot(key).unwrap();
    assert_eq!(ended.status, TaskStatus::Failed);
    assert_eq!(ended.error_kind, Some(ErrorKind::Transient));
}

#[test]
fn rejected_keys_are_not_tried_again() {
    let mut store = library(1);
    let key = article_key();
    let generation = store.acquire_lease("engine", 10).unwrap();
    store.request(key, 10).unwrap();
    let task = store.claim_next("engine", generation, 10).unwrap();
    assert!(store
        .fail("engine", task, None, "HTTP 401 unauthorized", 11)
        .unwrap());
    let ended = store.latest_snapshot(key).unwrap();
    assert_eq!(ended.status, TaskStatus::Failed);
    assert_eq!(ended.error_kind, Some(ErrorKind::Authentication));
}

#[test]
fn active_targets_cannot_be_deleted() {
    let mut store = library(1);
    store.request(resource_key(), 1).unwrap();
    assert_eq!(
        store.prepare_delete(resource_key()).unwrap_err(),
        StoreFailure::ResourceProcessingActive(RESOURCE_ID)
    );
    store.request(article_key(), 1).unwrap();
    assert_eq!(
        store.prepare_delete(article_key()).unwrap_err(),
        StoreFailure::ArticleSummaryActive(ARTICLE_ID)
    );
    let generation = store.acquire_lease("engine", 2).unwrap();
    let task = store.claim_next("engine", generation, 2).unwrap();
    assert_eq!(task.key, resource_key());
    assert!(store
        .complete_resource_without_enrichment("engine", task, 3)
        .unwrap());
    assert!(!store.is_active(resource_key()));
    store.prepare_delete(resource_key()).unwrap();
    assert!(store.latest_snapshot(resource_key()).is_none());
}

#[test]
fn old_ends_are_forgotten() {
    let mut store = library(1);
    let generation = store.acquire_lease("engine", 2).unwrap();
    store.request(resource_key(), 2).unwrap();
    let task = store.claim_next("engine", generation, 2).unwrap();
    store
        .complete_resource_without_enrichment("engine", task, 3)
        .unwrap();
    store.prune_terminal_history(4).unwrap();
    assert_eq!(store.attempts.len(), 1);
    store.fenced = true;
    assert_eq!(
        store.prune_terminal_history(4).unwrap_err(),
        StoreFailure::Maintenance
    );
}

#[test]
fn a_fetched_page_is_kept_with_its_digest() {
    let mut store = library(1);
    let generation = store.acquire_lease("engine", 2).unwrap();
    store.request(resource_key(), 2).unwrap();
    let task = store.claim_next("engine", generation, 2).unwrap();
    let input = SnapshotInput {
        fetched_url: Some("https://example.com/design".into()),
        http_status: Some(200),
        title: Some("Design".into()),
        cleaned_content: Some("abc".into()),
        fetch_error: None,
    };
    assert!(store
        .record_snapshot_and_advance("engine", task, &input, 3)
        .unwrap());
    let kept = store.snapshots.last().unwrap();
    assert_eq!(kept.cleaned_content.as_deref(), Some("abc"));
    assert_eq!(kept.content_hash.len(), 64);
    assert_ne!(kept.content_hash, "abc");
    assert_eq!(store.resources[0].latest_snapshot_id, Some(kept.id));
    assert_eq!(
        store.latest_snapshot(resource_key()).unwrap().current_stage,
        Some(TaskStage::Organizing)
    );
}

#[test]
fn work_is_bounded() {
    let store = library(1);
    let mut engine = Bench::start(ExecutorPolicy::Acquire, "engine", &store);
    engine.state.lease_acquired(1, 0);
    assert_eq!(MAX_CONCURRENCY, 2);
    engine.state.task_started(1);
    assert_eq!(engine.state.claim_generation(), Some(1));
    assert_eq!(
        engine.state.command(EngineCommand::TestConnection, 1),
        CommandAction::TestConnection { generation: 1 }
    );
    assert_eq!(engine.state.claim_generation(), None);
    let told = engine
        .state
        .connection_finished(1, true, Ok("正常".into()));
    assert_eq!(told, ConnectionState::Succeeded("正常".into()));
    assert_eq!(engine.state.claim_generation(), Some(1));
}

#[test]
fn a_lost_lease_stops_new_work() {
    let store = library(1);
    let mut engine = Bench::start(ExecutorPolicy::Acquire, "engine", &store);
    engine.state.lease_acquired(1, 0);
    assert_eq!(engine.state.heartbeat_due(4_999), None);
    assert_eq!(engine.state.heartbeat_due(5_000), Some(1));
    engine.state.heartbeat_told(false, 5_000);
    assert_eq!(engine.state.claim_generation(), None);
}

#[test]
fn shutting_down_waits_only_so_long() {
    let store = library(1);
    let mut engine = Bench::start(ExecutorPolicy::Acquire, "engine", &store);
    engine.state.lease_acquired(3, 0);
    engine.state.task_started(9);
    engine.state.command(EngineCommand::Shutdown, 1_000);
    assert_eq!(engine.state.safe_point(1_000), None);
    let departure = loop_until_departure(&mut engine.state, 1_000, 4_000);
    assert_eq!(departure.interrupt, Some(3));
    assert_eq!(departure.exit, EngineExit::Shutdown);
}

fn loop_until_departure(state: &mut EngineState, from: u64, to: u64) -> Departure {
    let mut now = from;
    while now <= to {
        if let Some(departure) = state.safe_point(now) {
            return departure;
        }
        now += 50;
    }
    panic!("no safe point before {to}");
}

#[test]
fn unreadable_changes_are_told_once() {
    let store = library(1);
    let mut engine = Bench::start(ExecutorPolicy::Acquire, "engine", &store);
    assert!(engine.state.changes_unreadable("disk error").is_some());
    assert!(engine.state.changes_unreadable("disk error").is_none());
    let (keys, recovered) = engine.state.changes_read(&[]);
    assert!(keys.is_empty());
    assert!(recovered.is_some());
}

#[test]
fn a_failed_loop_is_reported_without_its_secrets() {
    match after_loop(LoopEnd::Failed {
        description: "Authorization: Bearer token\nretry later".into(),
    }) {
        HostNext::StopWith(KnowledgeNotice::ModuleFault {
            technical_detail, ..
        }) => assert_eq!(technical_detail, "retry later"),
        other => panic!("unexpected {other:?}"),
    }
    assert!(matches!(
        after_loop(LoopEnd::Rejected),
        HostNext::Wait { quiesced: false }
    ));
    assert!(matches!(
        after_loop(LoopEnd::Exit(EngineExit::Shutdown)),
        HostNext::Stop
    ));
}

#[test]
fn errors_are_classed_by_what_they_say() {
    assert_eq!(classify_error("request timeout").0, ErrorKind::Transient);
    assert_eq!(
        classify_error("HTTP 401 unauthorized").0,
        ErrorKind::Authentication
    );
    assert!(sanitize_detail(&"长".repeat(6_000)).len() <= 4_096 * 4);
}

#[test]
fn private_resources_end_without_the_provider() {
    let (phase, action) = execute_resource(
        ResourcePhase::Loading,
        true,
        ResourceEvent::Loaded {
            stored: true,
            privacy: ResourcePrivacy::Private,
        },
    );
    assert!(matches!(
        action,
        ResourceAction::Advance(TaskStage::Organizing)
    ));
    let (phase, action) = execute_resource(phase, true, ResourceEvent::Moved(true));
    assert_eq!(phase, ResourcePhase::Ended);
    assert!(matches!(action, ResourceAction::CompleteWithoutEnrichment));
}

#[test]
fn a_resource_without_content_is_fetched_first() {
    let (phase, action) = execute_resource(
        ResourcePhase::Loading,
        true,
        ResourceEvent::Loaded {
            stored: false,
            privacy: ResourcePrivacy::Public,
        },
    );
    assert_eq!(phase, ResourcePhase::Fetching);
    assert!(matches!(action, ResourceAction::Fetch));
    let (phase, action) = execute_resource(
        phase,
        true,
        ResourceEvent::Failed {
            description: "refused".into(),
        },
    );
    assert_eq!(phase, ResourcePhase::Ended);
    match action {
        ResourceAction::Fail { description } => assert_eq!(description, "资源网页抓取失败: refused"),
        other => panic!("unexpected {other:?}"),
    }
}

#[test]
fn an_article_is_sent_with_what_it_has() {
    match execute_article(ArticleEvent::Loaded {
        title: None,
        content: Some("Body".into()),
    }) {
        ArticleAction::AskProvider { title, content } => {
            assert_eq!(title, "");
            assert_eq!(content, "Body");
        }
        other => panic!("unexpected {other:?}"),
    }
}

#[test]
fn a_missing_key_stops_the_provider() {
    assert!(provider_key(None).is_err());
    assert_eq!(provider_key(Some("key".into())), Ok("key".to_string()));
}

#[test]
fn a_connection_is_judged_by_its_answer() {
    assert!(connection_verdict("   ", "model").is_err());
    assert!(connection_verdict("OK", "model").unwrap().contains("model"));
}

#[test]
fn stored_names_read_back_as_what_they_name() {
    for kind in [TaskKind::ResourceCompletion, TaskKind::ArticleSummary] {
        assert_eq!(TaskKind::parse(kind.as_str()), Ok(kind));
    }
    for status in [
        TaskStatus::Queued,
        TaskStatus::Running,
        TaskStatus::Succeeded,
        TaskStatus::Failed,
        TaskStatus::Interrupted,
    ] {
        assert_eq!(TaskStatus::parse(status.as_str()), Ok(status));
    }
    for stage in [
        TaskStage::Fetching,
        TaskStage::Organizing,
        TaskStage::Summarizing,
    ] {
        assert_eq!(
            TaskStage::parse(Some(stage.as_str().to_string())),
            Ok(Some(stage))
        );
    }
    for kind in [
        ErrorKind::Transient,
        ErrorKind::Authentication,
        ErrorKind::Security,
        ErrorKind::Input,
        ErrorKind::ProviderOutput,
        ErrorKind::Storage,
        ErrorKind::Interrupted,
    ] {
        assert_eq!(
            ErrorKind::parse(Some(kind.as_str().to_string())),
            Ok(Some(kind))
        );
    }
    assert_eq!(TaskStage::parse(None), Ok(None));
    assert!(TaskKind::parse("other").is_err());
    assert!(TaskStatus::parse("other").is_err());
}

#[test]
fn tasks_are_taken_up_in_the_order_they_are_due() {
    let mut store = library(1);
    let generation = store.acquire_lease("engine", 1).unwrap();
    store.request(article_key(), 5).unwrap();
    store.request(resource_key(), 4).unwrap();
    assert!(store.claim_next("engine", generation, 3).is_none());
    let first = store.claim_next("engine", generation, 9).unwrap();
    assert_eq!(first.key, resource_key());
    let second = store.claim_next("engine", generation, 9).unwrap();
    assert_eq!(second.key, article_key());
    assert!(store.claim_next("engine", generation, 9).is_none());
}

#[test]
fn a_stopping_engine_stays_stopping() {
    let store = library(1);
    let mut engine = Bench::start(ExecutorPolicy::Acquire, "engine", &store);
    engine.state.lease_acquired(1, 0);
    engine.state.command(EngineCommand::Shutdown, 1);
    engine.state.command(
        EngineCommand::Request {
            key: resource_key(),
        },
        2,
    );
    engine.state.command(EngineCommand::Resume, 3);
    assert_eq!(engine.state.claim_generation(), None);
    assert!(engine.state.core.shutting_down);
    assert!(!engine.state.begin_lease_attempt(100_000));
}

#[test]
fn the_completion_of_a_resource_ends() {
    let mut phase = ResourcePhase::Loading;
    let mut steps = 0;
    let mut events = vec![
        ResourceEvent::Answered,
        ResourceEvent::Prepared {
            has_input: true,
            run_id: Some(4),
        },
        ResourceEvent::Loaded {
            stored: true,
            privacy: ResourcePrivacy::Public,
        },
        ResourceEvent::Moved(true),
        ResourceEvent::Fetched {
            final_url: "https://example.com/".into(),
            title: None,
            content: "text".into(),
        },
        ResourceEvent::Loaded {
            stored: false,
            privacy: ResourcePrivacy::Public,
        },
    ];
    while let Some(event) = events.pop() {
        let (next, action) = execute_resource(phase, true, event);
        phase = next;
        steps += 1;
        if steps == 6 {
            assert!(matches!(action, ResourceAction::Complete { run_id: 4 }));
        }
    }
    assert_eq!(phase, ResourcePhase::Ended);
}

#[test]
fn an_empty_page_fails_the_completion() {
    let (phase, action) = execute_resource(
        ResourcePhase::Fetching,
        true,
        ResourceEvent::Fetched {
            final_url: "https://example.com/".into(),
            title: None,
            content: "  \n".into(),
        },
    );
    assert_eq!(phase, ResourcePhase::Ended);
    match action {
        ResourceAction::Fail { description } => assert_eq!(description, "资源网页没有可处理正文"),
        other => panic!("unexpected {other:?}"),
    }
}

#[test]
fn exhausted_counters_are_told() {
    let mut store = library(1);
    assert!(store.can_advance());
    store.next_task_id = i64::MAX;
    assert!(!store.can_advance());
    store.next_task_id = 1;
    store.resources[0].source_failure_count = i64::MAX;
    assert!(!store.can_advance());
}

#[test]
fn credential_lines_leave_nothing_behind() {
    let with = "first\nAuthorization: Bearer token\r\nlast line";
    assert_eq!(sanitize_detail(with), sanitize_detail("first\nlast line"));
    assert_eq!(sanitize_detail(with), "first last line");
    assert!(!sanitize_detail("a\nb\r\nc").contains(['\n', '\r']));
}

#[test]
fn an_observer_claims_nothing_and_a_quiesced_engine_stops_claiming() {
    let mut store = library(1);
    store.request(resource_key(), 1).unwrap();
    let mut observer = Bench::start(ExecutorPolicy::ObserveOnly, "observer", &store);
    assert!(!observer.acquire(&mut store, 5_000));
    assert!(!observer.claim(&mut store, 5_000));
    assert_eq!(status(&store, resource_key()), TaskStatus::Queued);

    let mut engine = Bench::start(ExecutorPolicy::Acquire, "engine", &store);
    assert!(engine.acquire(&mut store, 6_000));
    engine
        .state
        .command(EngineCommand::Quiesce { deadline: 9_000 }, 6_000);
    assert!(!engine.claim(&mut store, 6_000));
    let refused = engine
        .state
        .command(EngineCommand::Request { key: resource_key() }, 6_000);
    assert_eq!(
        refused,
        CommandAction::Refuse(Refusal::RequestDuringMaintenance)
    );
    assert_eq!(status(&store, resource_key()), TaskStatus::Queued);
}
