use shiyue::gui::modal_state::BackupEntry;
use shiyue::gui::navigation::feed_unread_index;
use shiyue::gui::pages::archive::{page_body, shown_title, PageBody};
use shiyue::gui::pages::article_list::{
    batch_label, count_label, heading, list_state, menu_entry, meta_line, row_label, ListState,
    MenuEntry,
};
use shiyue::gui::pages::dashboard::{
    continue_with, failed_feed_count, metric_route, metric_value, reading_offer, recent_label,
    refresh_all_label, refresh_all_notice,
    refresh_line, retry_notice, retryable_feeds, sum_unread, Metric,
};
use shiyue::gui::pages::excerpts::{article_collection, excerpt_row, LibraryExcerpt};
use shiyue::gui::pages::messages::{
    connection_step, last_maintenance, maintenance_stage_label, notice_mark, notice_over,
    refresh_ended, refresh_failure_detail, ConnectionStep, MaintenanceStage, MaintenanceStatus,
};
use shiyue::gui::pages::reader::{
    action_button, change_done, excerpt_choice, mark_unread, remove_saved_article,
    request_delete_excerpt, summary_busy, summary_failure, toggle_star, ArticleChange,
    ExcerptChoice, ExcerptDeletion, ReaderAction, Removal,
};
use shiyue::gui::pages::resources::{
    card_actions, filter_label, page_state, resource_card, Freshness,
};
use shiyue::gui::pages::sidebar::{
    feed_key_target, feed_row, refresh_progress, refresh_status_line, ListKey, NavigationEntry,
    SidebarCounts,
};
use shiyue::gui::pages::storage::{
    action_done, backup_bytes, confirmation, failed_participants_line, network_mode_changed,
    network_mode_label, scale_changed, scale_label, storage_call, BackupProtection, Confirmation,
    NetworkMode, StorageAction, StorageCall,
};
use shiyue::gui::selection::{ExcerptView, TextAnchor};
use shiyue::gui_state::{ArticleCollection, Notice, Route};
use shiyue::knowledge_workflow::types::{TaskKey, TaskKind, TaskSnapshot, TaskStatus};
use shiyue::model::{Article, Feed};
use shiyue::resource_library::{
    Resource, ResourceCollection, ResourceCounts, ResourceCurationState, ResourceHealth,
    ResourceKind, ResourcePrivacy,
};
use shiyue::rss_refresh::{
    FeedRefresh, RefreshFailure, RefreshRunSnapshot, RefreshRunStatus, RefreshSnapshot,
};

fn article(id: i64) -> Article {
    Article {
        id,
        feed_id: 7,
        entry_id: format!("entry-{id}"),
        url: None,
        title: Some(format!("Article {id}")),
        author: None,
        published: None,
        content: None,
        is_read: false,
        starred: false,
        read_later: false,
        archived: false,
        fetched_at: 1,
    }
}

fn feed(id: i64) -> Feed {
    Feed {
        id,
        url: format!("https://example.com/{id}.xml"),
        title: Some(format!("Feed {id}")),
        last_fetch: None,
        next_fetch: 0,
        last_error: None,
        fail_count: 0,
        disabled: false,
        interval_secs: None,
    }
}

fn run(status: RefreshRunStatus) -> RefreshRunSnapshot {
    RefreshRunSnapshot {
        run_id: 4,
        status,
        target_count: 3,
        completed_count: 2,
        failed_feed_count: 1,
        new_article_count: 12,
        feeds: vec![FeedRefresh {
            feed_id: 7,
            url: "https://example.com/feed.xml".into(),
            title: None,
            failure: Some(RefreshFailure {
                kind: "network".into(),
                technical_detail: "timeout".into(),
            }),
        }],
        module_failure: None,
    }
}

#[test]
fn lists_are_labelled() {
    assert_eq!(count_label(12), "12 篇");
    assert_eq!(batch_label(0), "已选 0 篇");
    assert_eq!(heading(Some(ArticleCollection::Saved)), "文章收藏");
    assert_eq!(heading(None), "文章");
    assert_eq!(list_state(false, true, 0), ListState::NothingSaved);
    assert_eq!(list_state(true, true, 0), ListState::Loading);
    assert_eq!(list_state(false, false, 0), ListState::Listed);
}

#[test]
fn rows_show_what_is_unread_and_kept() {
    let mut row = article(1);
    assert_eq!(row_label(&row, false), "● Article 1");
    row.is_read = true;
    row.starred = true;
    assert_eq!(row_label(&row, false), "Article 1 ★");
    assert_eq!(row_label(&row, true), "Article 1  ◫");
    row.author = Some("Alice".into());
    assert_eq!(meta_line(&row), "Alice");
    row.published = Some(0);
    assert!(meta_line(&row).starts_with("Alice  ·  "));
}

#[test]
fn saved_articles_can_only_be_removed() {
    let row = article(1);
    assert_eq!(
        menu_entry(MenuEntry::Remove, &row, false, true),
        Some("取消文章收藏")
    );
    assert_eq!(menu_entry(MenuEntry::Remove, &row, false, false), None);
    assert_eq!(menu_entry(MenuEntry::MarkUnread, &row, false, true), None);
    assert_eq!(
        menu_entry(MenuEntry::ToggleReadLater, &row, false, false),
        Some("加入稍后读")
    );
}

#[test]
fn the_dashboard_counts() {
    let mut feeds = vec![feed(7), feed(9)];
    feeds[1].last_error = Some("timeout".into());
    let index = feed_unread_index(&[(7, 3), (9, 4), (11, 50)]);
    assert_eq!(sum_unread(&feeds, &index), 7);
    assert_eq!(failed_feed_count(&feeds), 1);
    assert_eq!(
        metric_route(Metric::FailedFeeds, &feeds),
        Route::Articles(ArticleCollection::Feed(Some(9)))
    );
    assert_eq!(metric_value(3, true), "3");
    assert_eq!(metric_value(3, false), "加载中…");
    let offer = reading_offer(&article(1), &feeds, &[2]);
    assert!(!offer.saved);
    assert!(reading_offer(&article(2), &feeds, &[2]).saved);
    assert_eq!(recent_label(&offer), "Article 1  ·  Feed 7");
    assert_eq!(continue_with(None, &[article(2)]).unwrap().id, 2);
    assert!(continue_with(None, &[]).is_none());
}

#[test]
fn refreshing_is_shown() {
    assert_eq!(refresh_all_notice(None), "已开始刷新全部订阅");
    assert_eq!(
        refresh_all_notice(Some("offline".into())),
        "无法启动订阅刷新：offline"
    );
    let idle = RefreshSnapshot {
        paused_for_maintenance: false,
        current: None,
        last_completed: Some(run(RefreshRunStatus::Degraded)),
    };
    assert_eq!(refresh_line(&idle).as_deref(), Some("上次刷新有 1 个订阅失败"));
    assert_eq!(
        refresh_status_line(&idle).as_deref(),
        Some("上次刷新有 1 个订阅失败")
    );
    assert_eq!(retryable_feeds(&idle), vec![7]);
    assert_eq!(retry_notice(0), "已重试失败订阅");
    assert_eq!(retry_notice(2), "有 2 个订阅无法启动重试");
    let busy = RefreshSnapshot {
        paused_for_maintenance: false,
        current: Some(run(RefreshRunStatus::Fetching)),
        last_completed: None,
    };
    assert_eq!(
        refresh_line(&busy).as_deref(),
        Some("正在刷新 2/3 · 失败 1 · 新增 12")
    );
    assert_eq!(
        refresh_progress(&run(RefreshRunStatus::Fetching)),
        "2/3 · 失败 1 · 新增 12"
    );
    assert!(retryable_feeds(&busy).is_empty());
    assert_eq!(refresh_all_label(&busy), "刷新中…");
    assert_eq!(refresh_all_label(&idle), "刷新全部订阅");
}

#[test]
fn a_refresh_ends_only_once() {
    let completed = Some(run(RefreshRunStatus::Failed));
    let mut last = None;
    let end = refresh_ended(4, &completed, &mut last, true).unwrap();
    assert!(end.reload);
    assert!(end.announce);
    assert_eq!(end.notice.as_deref(), Some("订阅刷新失败（1 个源）"));
    assert!(refresh_ended(4, &completed, &mut last, true).is_none());
    assert!(refresh_ended(5, &completed, &mut last, true).is_none());
    assert_eq!(
        refresh_failure_detail(&run(RefreshRunStatus::Failed)),
        "timeout"
    );
}

#[test]
fn failures_stay_longer() {
    let plain = Notice {
        message: "已保存".into(),
        created: 1_000,
    };
    assert!(!notice_over(&plain, 5_000));
    assert!(notice_over(&plain, 5_001));
    let failure = Notice {
        message: "保存失败".into(),
        created: 1_000,
    };
    assert!(!notice_over(&failure, 13_000));
    assert!(notice_over(&failure, 13_001));
    assert_eq!(notice_mark("保存失败"), "!");
    assert_eq!(notice_mark("已保存"), "✓");
}

#[test]
fn maintenance_is_told_in_words() {
    assert_eq!(
        maintenance_stage_label(Some(MaintenanceStage::Validating)),
        "正在检查资料库完整性"
    );
    assert_eq!(last_maintenance(MaintenanceStatus::Running), None);
    assert_eq!(
        last_maintenance(MaintenanceStatus::Succeeded).as_deref(),
        Some("最近一次资料维护：成功")
    );
    assert_eq!(connection_step(true, true), ConnectionStep::Close);
    assert_eq!(connection_step(false, false), ConnectionStep::Reopen);
    assert_eq!(connection_step(false, true), ConnectionStep::Keep);
}

#[test]
fn the_sidebar_marks_feeds() {
    let mut row = feed(7);
    assert_eq!(feed_row(&row, 0, Route::Storage).text, "  Feed 7 (0)");
    assert_eq!(feed_row(&row, 3, Route::Storage).text, "● Feed 7 (3)");
    row.fail_count = 2;
    let failing = feed_row(&row, 3, Route::Articles(ArticleCollection::Feed(Some(7))));
    assert_eq!(failing.text, "⚠ Feed 7 (3)");
    assert_eq!(failing.status.as_deref(), Some("失败 2"));
    assert!(failing.selected);
    row.disabled = true;
    let paused = feed_row(&row, 3, Route::Storage);
    assert_eq!(paused.text, "✗ Feed 7 (3)");
    assert!(paused.offers_retry);
    let counts = SidebarCounts {
        saved: 1,
        read_later: 2,
        excerpts: 3,
        archived: 4,
    };
    assert_eq!(
        NavigationEntry::Archive.trailing(counts).as_deref(),
        Some("4")
    );
    assert_eq!(NavigationEntry::Resources.trailing(counts), None);
    assert!(NavigationEntry::Storage.is_selected(Route::Storage));
}

#[test]
fn keys_walk_the_feeds() {
    let feeds = vec![feed(1), feed(2), feed(3)];
    assert_eq!(feed_key_target(&feeds, 2, ListKey::Up), Some(1));
    assert_eq!(feed_key_target(&feeds, 3, ListKey::Down), None);
    assert_eq!(feed_key_target(&feeds, 2, ListKey::Home), Some(1));
    assert_eq!(feed_key_target(&feeds, 2, ListKey::End), Some(3));
    assert_eq!(feed_key_target(&feeds, 2, ListKey::Enter), Some(2));
}

#[test]
fn articles_change_by_their_present_state() {
    let mut articles = vec![article(1)];
    assert!(mark_unread(&articles, 1).is_none());
    articles[0].is_read = true;
    assert!(matches!(
        mark_unread(&articles, 1),
        Some(ArticleChange::SetRead {
            article_id: 1,
            target: false
        })
    ));
    let change = toggle_star(&articles, 1).unwrap();
    assert!(change_done(change).is_some());
    assert!(toggle_star(&articles, 9).is_none());
    assert!(matches!(
        remove_saved_article(&articles, true, 1),
        Removal::AskToDelete { article_id: 1, .. }
    ));
    let star = action_button(ReaderAction::Star, &articles[0], false);
    assert!(!star.active);
    assert!(star.enabled);
}

#[test]
fn excerpts_with_a_thought_are_deleted_with_care() {
    let mut excerpt = ExcerptView {
        id: 3,
        article_id: 1,
        selected_text: "text".into(),
        anchor: TextAnchor {
            start_offset: None,
            end_offset: None,
            prefix: String::new(),
            suffix: String::new(),
        },
        thought: None,
    };
    assert_eq!(request_delete_excerpt(&excerpt), ExcerptDeletion::Now);
    excerpt.thought = Some("thought".into());
    assert_eq!(request_delete_excerpt(&excerpt), ExcerptDeletion::Ask);
    assert_eq!(excerpt_choice(true, true, true), ExcerptChoice::EditThought);
    assert_eq!(excerpt_choice(false, false, false), ExcerptChoice::Nothing);
}

#[test]
fn library_excerpts_lead_to_their_article() {
    let excerpt = LibraryExcerpt {
        id: 3,
        article_id: 1,
        feed_id: 7,
        web_clipping: false,
        legacy: false,
        unresolved: true,
        updated_at: 0,
        selected_text: "text".into(),
        anchor: TextAnchor {
            start_offset: None,
            end_offset: None,
            prefix: String::new(),
            suffix: String::new(),
        },
        thought: None,
        article_title: None,
    };
    assert_eq!(
        article_collection(&excerpt),
        ArticleCollection::Feed(Some(7))
    );
    let row = excerpt_row(&excerpt);
    assert!(row.unresolved_mark);
    assert!(!row.thought_mark);
    assert!(row.quote.contains("text"));
}

fn resource() -> Resource {
    Resource {
        id: 5,
        url: "https://koboyo.com/icons?q=app".into(),
        kind: ResourceKind::Site,
        title: None,
        purpose_zh: Some("图标".into()),
        use_when_zh: None,
        private_note: Some("note".into()),
        privacy: ResourcePrivacy::Public,
        curation_state: ResourceCurationState::Active,
        health: ResourceHealth::Healthy,
        manual_rating: Some(4),
        capabilities: Vec::new(),
        limitations: Vec::new(),
        pricing: None,
        requires_login: None,
        languages: Vec::new(),
    }
}

#[test]
fn private_resources_are_not_offered_for_processing() {
    let mut kept = resource();
    assert_eq!(resource_card(&kept).domain, "koboyo.com");
    assert!(card_actions(&kept).processing_label.is_some());
    kept.privacy = ResourcePrivacy::Private;
    assert!(card_actions(&kept).processing_label.is_none());
    assert_ne!(
        card_actions(&kept).transition,
        ResourceCurationState::Active
    );
    let counts = ResourceCounts {
        active: 3,
        pending_review: 0,
        broken: 1,
        archived: 2,
    };
    assert!(filter_label(ResourceCollection::Active, counts).contains('3'));
    assert!(page_state(None, false).loading);
    let failed = page_state(
        Some(&Freshness::Failed {
            technical_detail: "disk".into(),
        }),
        true,
    );
    assert!(failed.error.unwrap().contains("disk"));
}

#[test]
fn running_summaries_are_busy() {
    let task = |status| {
        Some(TaskSnapshot {
            task_id: 1,
            key: TaskKey::new(TaskKind::ArticleSummary, 5),
            status,
            current_stage: None,
            attempt_number: 1,
            automatic_retry: false,
            error_kind: None,
            user_message: None,
            technical_detail: Some("detail".into()),
            change_seq: 1,
        })
    };
    assert!(summary_busy(&task(TaskStatus::Running)));
    assert!(summary_busy(&task(TaskStatus::Queued)));
    assert!(!summary_busy(&task(TaskStatus::Failed)));
    assert!(!summary_busy(&None));
    assert_eq!(
        summary_failure(&task(TaskStatus::Failed)).as_deref(),
        Some("detail")
    );
    assert!(summary_failure(&task(TaskStatus::Succeeded)).is_none());
}

#[test]
fn storage_is_counted_and_confirmed() {
    let entry = |size| BackupEntry {
        path: "backup.zip".into(),
        size,
        protected: false,
        modified: 0,
    };
    assert_eq!(backup_bytes(&[entry(3), entry(4)]), 7);
    assert_eq!(confirmation(true, true, false), Confirmation::Proceed);
    assert_eq!(confirmation(true, false, true), Confirmation::Close);
    assert_eq!(confirmation(true, false, false), Confirmation::Stay);
    assert_eq!(scale_label(125), "125%");
    assert_eq!(failed_participants_line(&[]), None);
    assert!(
        failed_participants_line(&["rss".to_string(), "ai".to_string()])
            .unwrap()
            .contains("rss")
    );
    assert!(action_done(StorageAction::Check, Err("disk".into())).contains("disk"));
}

#[test]
fn empty_pages_are_told_from_loading_ones() {
    assert_eq!(page_body(true, 0), PageBody::Loading);
    assert_eq!(page_body(false, 0), PageBody::Empty);
    assert_eq!(page_body(false, 1), PageBody::Rows);
    assert_eq!(shown_title(&None, "无标题"), "无标题");
}

#[test]
fn settings_are_told_when_they_change() {
    assert_eq!(scale_changed(125, None), "界面缩放已设为 125%");
    assert_eq!(
        scale_changed(125, Some("disk".into())),
        "界面缩放未修改：disk"
    );
    assert_eq!(
        network_mode_changed(None),
        "网络模式已保存，重启后对后台请求生效"
    );
    assert_eq!(
        network_mode_changed(Some("disk".into())),
        "网络模式未修改：disk"
    );
    assert_ne!(
        network_mode_label(NetworkMode::Strict),
        network_mode_label(NetworkMode::TunCompatible)
    );
}

#[test]
fn storage_actions_name_their_limits() {
    assert_eq!(
        storage_call(StorageAction::PruneImages),
        StorageCall::PruneImages { limit: 512 * 1024 * 1024 }
    );
    assert_eq!(
        storage_call(StorageAction::PruneBackups),
        StorageCall::PruneBackups { keep: 10 }
    );
    assert_eq!(
        storage_call(StorageAction::Backup(BackupProtection::WindowsUser)),
        StorageCall::CreateBackup(BackupProtection::WindowsUser)
    );
    assert_eq!(storage_call(StorageAction::Check), StorageCall::CheckIntegrity);
    assert_eq!(storage_call(StorageAction::ClearImages), StorageCall::ClearImages);
    assert_eq!(storage_call(StorageAction::OpenFolder), StorageCall::OpenFolder);
}
