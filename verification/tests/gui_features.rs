use shiyue::config::parse_duration;
use shiyue::feed_subscription::{ChangeDisposition, InitialRefreshOutcome};
use shiyue::gui::excerpt_thought_feature::{CommentDialog, ExcerptTarget};
use shiyue::gui::feed_subscription_feature::{
    add_notice, delete_question, disabled_feed_status, retry_notice, settings_notice, AddDraft,
    DeleteDraft, HistoryAction, HistorySection, SettingsDraft,
};
use shiyue::gui::knowledge_feature::{KnowledgeFeature, TaskView};
use shiyue::gui::library_search_feature::accepts_search_response;
use shiyue::gui::resource_feature::{
    self, curation_changed, deleted, editor_saved, editor_step, imported, resource_saved_notice,
    missing_description, processing_state, render_enrichment, EditorDraft, EditorInput,
    EditorStep, ImportDraft, InteractionIntent, MissingDescription, ProcessingState,
};
use shiyue::gui::selection::SelectedQuote;
use shiyue::gui::web_clipping_feature::{
    consume_terminal, DeleteWebClipDialog, WebClipDialog,
};
use shiyue::gui_modal::ModalHostAction;
use shiyue::history_backfill_workflow::{BackfillSnapshot, BackfillStatus};
use shiyue::knowledge_workflow::types::{
    ConnectionState, KnowledgeNotice, TaskKey, TaskKind, TaskSnapshot, TaskStatus,
};
use shiyue::model::Feed;
use shiyue::resource_library::{
    Category, HandoffDisposition, ImportCandidate, Resource, ResourceCurationState, ResourceDetail,
    ResourceHandoff, ResourceHealth, ResourcePrivacy,
};

#[test]
fn comment_draft_dirty_state_is_owned_by_the_draft() {
    let quote = SelectedQuote {
        article_id: 7,
        text: "excerpt".into(),
        start_offset: Some(0),
        end_offset: Some(7),
        anchor_prefix: String::new(),
        anchor_suffix: String::new(),
    };
    let draft = CommentDialog {
        quote,
        target: ExcerptTarget::Existing(3),
        draft: "edited".into(),
        original: "original".into(),
        error: None,
        focus_input: false,
    };
    assert!(draft.is_dirty());
}

#[test]
fn add_draft_dirty_state_only_tracks_user_input() {
    let mut draft = AddDraft::default();
    assert!(!draft.is_dirty());
    draft.url = "  https://example.com/feed.xml  ".into();
    assert!(draft.is_dirty());
}

fn example_feed() -> Feed {
    Feed {
        id: 7,
        url: "https://example.com/feed.xml".into(),
        title: Some("Example".into()),
        interval_secs: Some(1800),
        last_fetch: None,
        next_fetch: 0,
        last_error: None,
        fail_count: 0,
        disabled: false,
    }
}

#[test]
fn settings_draft_dirty_state_tracks_only_editable_values() {
    let mut draft = SettingsDraft::from_feed(&example_feed());
    assert_eq!(draft.feed_id(), 7);
    assert!(!draft.is_dirty());
    draft.disabled = true;
    assert!(draft.is_dirty());
}

#[test]
fn settings_interval_uses_the_shared_duration_parser() {
    assert_eq!(parse_duration("30m").unwrap(), 1800);
    assert_eq!(parse_duration("0s").unwrap(), 0);
}

#[test]
fn disabled_feed_status_explains_failure_state_and_manual_pause() {
    assert_eq!(disabled_feed_status(true, 10), "已暂停（连续失败 10 次）");
    assert_eq!(disabled_feed_status(true, 0), "已暂停");
    assert!(disabled_feed_status(false, 10).is_empty());
}

#[test]
fn retry_notice_explains_refresh_lifecycle() {
    assert_eq!(
        retry_notice(
            ChangeDisposition::Changed,
            &Some(InitialRefreshOutcome::Queued)
        ),
        "订阅已重新启用，正在刷新"
    );
    assert_eq!(
        retry_notice(
            ChangeDisposition::Changed,
            &Some(InitialRefreshOutcome::Deferred)
        ),
        "订阅已重新启用，将在资料维护结束后刷新"
    );
    assert_eq!(
        retry_notice(
            ChangeDisposition::Changed,
            &Some(InitialRefreshOutcome::Degraded {
                technical_detail: Some("timeout".into()),
            })
        ),
        "订阅已重新启用，但刷新失败，请查看错误详情"
    );
}

#[test]
fn starts_without_pending_work_or_connection_state() {
    let feature = KnowledgeFeature::new();
    assert!(!feature.connection_busy());
    assert!(feature.settings_message().is_none());
    assert_eq!(feature.watched_keys().len(), 0);
}

#[test]
fn search_adapters_reject_late_background_results() {
    assert!(accepts_search_response(Some(9), 9));
    assert!(!accepts_search_response(Some(10), 9));
    assert!(!accepts_search_response(None, 9));
}

/// The resource that a draft makes.
fn created(draft: &resource_feature::AddDraft) -> Resource {
    let request = draft.request();
    Resource {
        id: 1,
        url: request.url,
        kind: request.kind,
        title: request.title,
        purpose_zh: None,
        use_when_zh: None,
        private_note: request.private_note,
        privacy: request.privacy,
        curation_state: ResourceCurationState::Active,
        health: ResourceHealth::Unknown,
        manual_rating: request.manual_rating,
        capabilities: Vec::new(),
        limitations: Vec::new(),
        pricing: None,
        requires_login: None,
        languages: Vec::new(),
    }
}

#[test]
fn editor_draft_tracks_changes_against_its_authoritative_snapshot() {
    let mut add = resource_feature::AddDraft {
        url: "https://example.com/tool".into(),
        note: "opening note".into(),
        private: false,
        error: None,
        focus_input: false,
    };
    let resource = created(&add);
    let mut draft = EditorDraft::open(resource.id, Some(&resource));

    assert!(!draft.is_dirty());
    draft.values.note = "edited note".into();
    assert!(draft.is_dirty());

    add.note = "opening note".into();
    assert!(add.is_dirty());
}

#[test]
fn editor_reconciliation_keeps_local_edits_and_hydrates_untouched_fields() {
    let add = resource_feature::AddDraft {
        url: "https://example.com/reconcile".into(),
        note: "authoritative note".into(),
        private: true,
        error: None,
        focus_input: false,
    };
    let resource = created(&add);
    let mut draft = EditorDraft::open(resource.id, None);
    draft.values.title = "local title".into();

    draft.reconcile(&resource);

    assert_eq!(draft.values.title, "local title");
    assert_eq!(draft.values.note, "authoritative note");
    assert!(draft.values.private);
    assert!(draft.is_dirty());
}

#[test]
fn editor_save_preserves_authoritative_categories_tags_and_use_when() {
    let add = resource_feature::AddDraft {
        url: "https://example.com/preserved".into(),
        note: String::new(),
        private: false,
        error: None,
        focus_input: false,
    };
    let mut resource = created(&add);
    resource.title = Some("Original".into());
    resource.purpose_zh = Some("Original purpose".into());
    resource.use_when_zh = Some("需要架构资料时".into());
    resource.manual_rating = Some(3);
    let detail = ResourceDetail {
        resource,
        categories: vec![Category::Docs],
        tags: vec!["architecture".into()],
    };
    let mut draft = EditorDraft::open(1, Some(&detail.resource));
    draft.values.title = "Edited".into();
    draft.values.purpose_zh = "Edited purpose".into();

    let input = EditorInput {
        discard_intent: None,
        close: false,
        save: true,
        enrich: false,
    };
    let EditorStep::Save { edit, retry } = editor_step(&draft, Some(&detail), input) else {
        panic!("the edit is saved");
    };
    let outcome = editor_saved(retry, None);

    assert_eq!(outcome.interaction, InteractionIntent::FinishPanel);
    assert_eq!(edit.title.as_deref(), Some("Edited"));
    assert_eq!(edit.purpose_zh.as_deref(), Some("Edited purpose"));
    assert_eq!(edit.use_when_zh.as_deref(), Some("需要架构资料时"));
    assert_eq!(edit.categories, vec![Category::Docs]);
    assert_eq!(edit.tags, detail.tags);
    assert_eq!(edit.manual_rating, Some(3));
}

#[test]
fn import_and_delete_helpers_return_adoptable_projections() {
    let article_id = 41;
    let import = ImportDraft::prepare(vec![ImportCandidate {
        article_id,
        title: Some("Clipping".into()),
        url: "https://example.com/clipping".into(),
        already_imported: false,
    }]);
    assert_eq!(import.selected, vec![article_id]);

    let outcome = imported(ModalHostAction::Nothing, Ok((1, Vec::new())));
    assert!(outcome.adopt);
    assert_eq!(outcome.interaction, InteractionIntent::CompleteModal);

    let transitioned = curation_changed(Ok(Vec::new()));
    assert!(transitioned.adopt);
    assert_eq!(transitioned.notice.as_deref(), Some("资源状态已更新"));

    let removed = deleted(ModalHostAction::Nothing, None);
    assert!(removed.adopt);
}

#[test]
fn deferred_processing_handoff_is_visible_in_save_notice() {
    let message = resource_saved_notice(
        "资源网址已保存；断网也不会丢失",
        &[ResourceHandoff {
            resource_id: 7,
            disposition: HandoffDisposition::Deferred {
                user_message: "资源已保存，后台整理暂未启动，可稍后重试".into(),
                technical_detail: "KNOWLEDGE_PROCESSING_NOT_CONNECTED".into(),
            },
        }],
    );
    assert!(message.contains("后台整理暂未启动"));
    assert!(message.contains("KNOWLEDGE_PROCESSING_NOT_CONNECTED"));
}

#[test]
fn empty_web_clip_draft_is_clean() {
    assert!(!WebClipDialog::default().is_dirty());
}

#[test]
fn web_clip_draft_tracks_source_and_optional_fields() {
    let mut draft = WebClipDialog {
        source: "https://example.com/article".into(),
        ..Default::default()
    };
    assert!(draft.is_dirty());
    draft.source.clear();
    draft.title = "Title".into();
    assert!(draft.is_dirty());
}

#[test]
fn delete_draft_keeps_article_identity() {
    let draft = DeleteWebClipDialog::new(42, "Example".into());
    assert_eq!(draft.article_id, 42);
    assert_eq!(draft.title, "Example");
}

#[test]
fn durations_are_read_by_their_unit() {
    assert_eq!(parse_duration("90s"), Some(90));
    assert_eq!(parse_duration("2h"), Some(7200));
    assert_eq!(parse_duration("1d"), Some(86_400));
    assert_eq!(parse_duration(""), None);
    assert_eq!(parse_duration("m"), None);
    assert_eq!(parse_duration("30"), None);
    assert_eq!(parse_duration("9223372036854775807h"), None);
}

#[test]
fn an_ended_capture_is_told_once() {
    let mut consumed = None;
    assert!(consume_terminal(&mut consumed, 7, 3));
    assert!(!consume_terminal(&mut consumed, 7, 3));
    assert!(consume_terminal(&mut consumed, 7, 4));
    assert!(consume_terminal(&mut consumed, 8, 4));
}

#[test]
fn notices_name_how_a_first_refresh_went() {
    assert_ne!(
        add_notice(&Some(InitialRefreshOutcome::Queued)),
        add_notice(&Some(InitialRefreshOutcome::Deferred))
    );
    assert_ne!(
        settings_notice(&None),
        settings_notice(&Some(InitialRefreshOutcome::Deferred))
    );
}

#[test]
fn the_delete_question_names_the_feed() {
    let draft = DeleteDraft::new(7, "Rust Blog".into());
    assert!(delete_question(&draft).contains("Rust Blog"));
}

#[test]
fn unselected_candidates_are_not_imported() {
    let candidate = |article_id, already_imported| ImportCandidate {
        article_id,
        title: None,
        url: "https://example.com/".into(),
        already_imported,
    };
    let mut import = ImportDraft::prepare(vec![candidate(1, false), candidate(2, true)]);
    assert!(import.is_selected(1));
    assert!(!import.is_selected(2));
    assert!(!import.is_dirty());
    import.set_selected(1, false);
    assert!(!import.is_selected(1));
    assert!(import.is_dirty());
    import.set_selected(1, true);
    assert!(!import.is_dirty());
}

#[test]
fn a_failed_change_keeps_the_editor_open() {
    let outcome = editor_saved(None, Some("磁盘已满".into()));
    assert_eq!(outcome.interaction, InteractionIntent::Nothing);
    assert!(!outcome.adopt);
    assert!(outcome.notice.unwrap().contains("磁盘已满"));
}

#[test]
fn connection_news_is_shown_and_kept() {
    let mut feature = KnowledgeFeature::new();
    feature.connection_test_begun(None);
    assert!(feature.connection_busy());
    feature.connection_test_begun(Some("offline".into()));
    assert!(!feature.connection_busy());
    assert_eq!(
        feature.connection_state,
        Some(ConnectionState::Failed {
            detail: "offline".into()
        })
    );
    feature.api_key_saved(Some("locked".into()));
    assert!(feature.settings_message().unwrap().contains("locked"));
    feature.requested(TaskKey::new(TaskKind::ArticleSummary, 7));
    assert_eq!(feature.watched_keys().len(), 1);
    let told = feature.receive_updates(Vec::<KnowledgeNotice>::new());
    assert!(told.is_empty());
}

fn task_view(key: TaskKey, loading: bool, status: TaskStatus) -> TaskView {
    TaskView {
        key,
        loading,
        snapshot: Some(TaskSnapshot {
            task_id: 1,
            key,
            status,
            current_stage: None,
            attempt_number: 1,
            automatic_retry: false,
            error_kind: None,
            user_message: None,
            technical_detail: None,
            change_seq: 1,
        }),
    }
}

#[test]
fn tasks_are_watched_once_and_until_they_end() {
    let key = TaskKey::new(TaskKind::ArticleSummary, 7);
    let mut feature = KnowledgeFeature::new();
    feature.requested(key);
    feature.requested(key);
    assert_eq!(feature.watched_keys().len(), 1);
    feature.receive_updates(vec![
        KnowledgeNotice::Changed(key),
        KnowledgeNotice::Changed(key),
    ]);
    let waiting = feature.publish_pending_notices(&[task_view(key, true, TaskStatus::Succeeded)]);
    assert!(waiting.is_empty());
    assert_eq!(feature.watched_keys().len(), 1);
    let told = feature.publish_pending_notices(&[task_view(key, false, TaskStatus::Succeeded)]);
    assert_eq!(told, vec!["AI 总结和中文翻译已保存"]);
    assert!(feature.watched_keys().is_empty());
    assert!(feature.pending_notices.is_empty());
}

#[test]
fn module_faults_are_told_at_once() {
    let mut feature = KnowledgeFeature::new();
    let told = feature.receive_updates(vec![
        KnowledgeNotice::ModuleFault {
            user_message: "后台知识处理模块已停止".into(),
            technical_detail: "disk".into(),
        },
        KnowledgeNotice::ConnectionChanged(ConnectionState::Succeeded("正常".into())),
    ]);
    assert_eq!(told, vec!["后台知识处理模块已停止"]);
    assert_eq!(feature.settings_message().map(|m| m.as_str()), Some("正常"));
}

#[test]
fn an_import_that_stopped_can_be_continued() {
    let snapshot = |status, has_more, failed| BackfillSnapshot {
        status,
        feed_id: Some(7),
        discovered: 60,
        processed: 50,
        inserted: 49,
        failed,
        batch_size: 50,
        has_more,
        last_error: None,
        source_description: String::new(),
    };
    let waiting = HistorySection::new(snapshot(BackfillStatus::WaitingNextBatch, true, 0), 7);
    assert!(waiting.offer(HistoryAction::Next).is_some());
    let paused = HistorySection::new(snapshot(BackfillStatus::Paused, true, 0), 7);
    assert!(paused.offer(HistoryAction::Resume).is_some());
    let busy = HistorySection::new(snapshot(BackfillStatus::Fetching, true, 0), 7);
    assert!(busy.offer(HistoryAction::Pause).is_some());
    let other = HistorySection::new(snapshot(BackfillStatus::Fetching, true, 0), 8);
    assert!(other.other_busy);
    let done = HistorySection::new(snapshot(BackfillStatus::Completed, false, 1), 7);
    assert!(done.offer(HistoryAction::Retry).is_some());
    assert_eq!(
        done.completion_note(),
        Some("已读完发现的页面；不代表网站全部历史文章。")
    );
}

#[test]
fn processing_is_shown_by_its_stage() {
    let view = task_view(
        TaskKey::new(TaskKind::ResourceCompletion, 1),
        false,
        TaskStatus::Failed,
    );
    let mut task = view.snapshot.unwrap();
    match processing_state(&task) {
        ProcessingState::Failed(detail) => assert_eq!(detail, "未知错误"),
        other => panic!("unexpected {other:?}"),
    }
    task.technical_detail = Some("timeout".into());
    match processing_state(&task) {
        ProcessingState::Failed(detail) => assert_eq!(detail, "timeout"),
        other => panic!("unexpected {other:?}"),
    }
    task.status = TaskStatus::Running;
    assert!(matches!(processing_state(&task), ProcessingState::Busy(_)));
    task.status = TaskStatus::Succeeded;
    assert!(matches!(processing_state(&task), ProcessingState::Done));
}

#[test]
fn private_resources_are_kept_undescribed() {
    let mut draft = resource_feature::AddDraft::default();
    draft.url = "https://example.com/tool".into();
    let mut detail = ResourceDetail {
        resource: created(&draft),
        categories: Vec::new(),
        tags: Vec::new(),
    };
    assert!(matches!(
        missing_description(&detail),
        Some(MissingDescription::OfferProcessing)
    ));
    detail.resource.privacy = ResourcePrivacy::Private;
    assert!(matches!(
        missing_description(&detail),
        Some(MissingDescription::KeptPrivate)
    ));
    detail.resource.capabilities = vec!["查找素材".into()];
    assert!(missing_description(&detail).is_none());
    assert!(render_enrichment(&detail)
        .iter()
        .any(|line| line.contains("查找素材")));
}
