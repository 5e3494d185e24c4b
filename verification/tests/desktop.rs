use shiyue::feed_subscription::{ChangeDisposition, InitialRefreshOutcome};
use shiyue::gui::desktop::{ArticleBatchAction, Desktop, ReadingPosition, Screen};
use shiyue::gui::excerpt_thought_feature::{self, ExcerptScope};
use shiyue::gui::feed_subscription_feature::{
    self, add_step, added, delete_step, deleted, panel_step, settings_saved, AddStep, DeleteDraft,
    DeleteStep, HistoryAction, HistorySection, PanelInput, PanelStep, SettingsDraft,
};
use shiyue::gui::library_search_feature::{
    history_label, modal_answered, open_search_result, Opening, SearchBody, SearchFeature,
};
use shiyue::gui::modal_state::ModalState;
use shiyue::gui::navigation::ProjectionScope;
use shiyue::gui::pages::excerpts::LibraryExcerpt;
use shiyue::gui::selection::{ExcerptView, SelectedQuote, SelectionAction, TextAnchor};
use shiyue::gui::web_clipping_feature::{
    apply_web_clipping_terminal, capture_begun, save_step, CaptureState, SaveStep, WebClipDialog,
};
use shiyue::gui_modal::ModalHostAction;
use shiyue::gui_state::{ArticleCollection, ModalKind, Route};
use shiyue::history_backfill_workflow::{Backfill, BackfillStatus};
use shiyue::knowledge_workflow::types::{TaskKey, TaskKind};
use shiyue::library_search::{
    ArticleTarget, LibrarySearchResult, PrimaryIdentity, SearchHistoryEntry, SearchOutcome,
};
use shiyue::model::{Article, Feed};

fn article(id: i64) -> Article {
    Article {
        id,
        feed_id: 7,
        entry_id: format!("entry-{id}"),
        url: None,
        title: Some(format!("Article {id}")),
        author: None,
        published: None,
        content: None,
        is_read: false,
        starred: false,
        read_later: false,
        archived: false,
        fetched_at: 1,
    }
}

fn feed(id: i64) -> Feed {
    Feed {
        id,
        url: format!("https://example.com/{id}.xml"),
        title: Some(format!("Feed {id}")),
        last_fetch: None,
        next_fetch: 0,
        last_error: None,
        fail_count: 0,
        disabled: false,
        interval_secs: Some(1800),
    }
}

fn desktop() -> Desktop {
    let mut desktop = Desktop::new(
        Route::Articles(ArticleCollection::Feed(Some(7))),
        Vec::new(),
        None,
    );
    desktop.reload(Ok(vec![feed(7), feed(9)]), 0);
    desktop
}

#[test]
fn selections_are_remembered_by_list() {
    let mut desktop = desktop();
    desktop.select_article(11);
    assert_eq!(desktop.sel_article_id, Some(11));
    desktop.select_saved_articles(1);
    assert_eq!(
        desktop.ui.route(),
        Route::Articles(ArticleCollection::Saved)
    );
    assert_eq!(desktop.sel_article_id, None);
    desktop.select_feed(7, 2);
    desktop.reconcile_articles(&[article(11), article(12)]);
    assert_eq!(desktop.sel_article_id, Some(11));
    desktop.reconcile_articles(&[article(12)]);
    assert_eq!(desktop.sel_article_id, None);
}

#[test]
fn a_removed_feed_is_left() {
    let mut desktop = desktop();
    desktop.reload(Ok(vec![feed(9)]), 3);
    assert_ne!(
        desktop.ui.route(),
        Route::Articles(ArticleCollection::Feed(Some(7)))
    );
    desktop.reload(Err("disk".into()), 4);
    assert_eq!(desktop.feeds.len(), 1);
    assert!(desktop.ui.notice().unwrap().message.contains("disk"));
}

#[test]
fn dirty_drafts_are_guarded() {
    let mut desktop = desktop();
    let mut draft = feed_subscription_feature::AddDraft::default();
    draft.url = "https://example.com".into();
    desktop.open_modal(ModalState::AddFeed(draft), 1);
    assert!(!desktop.navigate(Route::Storage, 2));
    assert_eq!(desktop.ui.modal_kind(), Some(ModalKind::AddFeed));
    desktop.apply_modal_host_action(ModalHostAction::KeepEditing, 3);
    assert_eq!(desktop.ui.discard_owner(), None);
    desktop.close_modal(4);
    desktop.apply_modal_host_action(ModalHostAction::ConfirmDiscard, 5);
    assert!(!desktop.ui.has_modal());
}

#[test]
fn settings_panels_follow_their_feed() {
    let mut desktop = desktop();
    desktop.set_feed_settings_panel(Some(&feed(7)), 1);
    assert!(desktop.ui.panel().is_some());
    desktop.select_feed(9, 2);
    assert!(desktop.ui.panel().is_none());
}

#[test]
fn routes_are_stored_by_key() {
    let mut desktop = desktop();
    desktop.navigate(Route::Resources, 1);
    assert_eq!(desktop.route_storage_key.as_deref(), Some("resources"));
    assert_eq!(desktop.stored_route(), "resources");
    desktop.select_feed(9, 2);
    assert_eq!(desktop.stored_route(), "articles:feed:9");
    desktop.select_read_later(3);
    assert_eq!(
        desktop.ui.route(),
        Route::Articles(ArticleCollection::ReadLater)
    );
}

#[test]
fn the_visible_page_decides_what_is_read() {
    let desktop = desktop();
    assert_eq!(
        desktop.desktop_article_projection_scope(),
        ProjectionScope::Feed(7)
    );
    assert_eq!(
        desktop.current_excerpt_projection_scope(),
        ExcerptScope::Library
    );
    let key = TaskKey::new(TaskKind::ArticleSummary, 3);
    let demand = desktop.demand(&[key]);
    assert!(demand.knowledge.contains(&key));
    assert!(demand.articles.contains(&ProjectionScope::Feed(7)));
}

#[test]
fn batches_act_on_what_was_chosen() {
    let mut desktop = desktop();
    assert!(desktop.begin_batch_action(1).is_none());
    desktop.toggle_batch_mode();
    desktop.toggle_batch_article(11, true);
    desktop.toggle_batch_article(12, true);
    desktop.toggle_batch_article(11, false);
    assert!(!desktop.in_batch(11));
    assert_eq!(desktop.begin_batch_action(2), Some(vec![12]));
    desktop.batch_done(ArticleBatchAction::Archive, 1, 3);
    assert!(desktop.batch_selection.is_empty());
    assert!(desktop.ui.notice().is_some());
}

#[test]
fn reading_marks_after_the_delay_only_in_view() {
    let mut desktop = desktop();
    assert!(!desktop.update_delayed_read_marking(Some(11), true, true, 0));
    assert!(!desktop.update_delayed_read_marking(Some(11), true, false, 5_000));
    assert!(!desktop.update_delayed_read_marking(Some(11), true, true, 10_000));
    assert!(desktop.update_delayed_read_marking(Some(11), true, true, 20_000));
}

#[test]
fn a_popover_belongs_to_one_selection() {
    let mut desktop = desktop();
    let quote = SelectedQuote {
        article_id: 11,
        text: "text".into(),
        start_offset: None,
        end_offset: None,
        anchor_prefix: String::new(),
        anchor_suffix: String::new(),
    };
    desktop.open_selection_popover(quote.clone());
    let first = desktop.ui.popover().unwrap().generation;
    desktop.open_selection_popover(quote);
    assert_ne!(desktop.ui.popover().unwrap().generation, first);
    desktop.clear_selection_popover();
    assert!(desktop.ui.popover().is_none());
}

#[test]
fn reading_positions_are_restored() {
    let mut desktop = Desktop::new(
        Route::Articles(ArticleCollection::Feed(Some(7))),
        vec![ReadingPosition {
            article_id: 11,
            offset: 1_109_393_408,
        }],
        Some(11),
    );
    desktop.select_article(11);
    assert_eq!(
        desktop.pending_body_scroll.map(|p| (p.article_id, p.offset)),
        Some((11, 1_109_393_408))
    );
}

#[test]
fn adding_a_feed_selects_it() {
    let mut draft = feed_subscription_feature::AddDraft::default();
    draft.url = " https://example.com/feed.xml ".into();
    assert!(matches!(
        add_step(&draft, ModalHostAction::Nothing, true, true, false),
        AddStep::Apply(_)
    ));
    assert!(matches!(
        add_step(&draft, ModalHostAction::Nothing, true, false, true),
        AddStep::Finish(_)
    ));
    let outcome = added(
        &mut draft,
        ModalHostAction::Nothing,
        Ok((9, Some(InitialRefreshOutcome::Queued))),
    );
    assert_eq!(outcome.select_feed_id, Some(9));
    let mut desktop = desktop();
    desktop.apply_feed_feature_outcome(outcome, Some(Ok(vec![feed(7), feed(9)])), 5);
    assert_eq!(
        desktop.ui.route(),
        Route::Articles(ArticleCollection::Feed(Some(9)))
    );
    let refused = added(&mut draft, ModalHostAction::Nothing, Err("bad".into()));
    assert_eq!(refused.select_feed_id, None);
    assert!(draft.error.unwrap().contains("bad"));
}

#[test]
fn deleting_a_feed_asks_and_tells() {
    let draft = DeleteDraft::new(7, "Feed 7".into());
    assert!(matches!(
        delete_step(&draft, ModalHostAction::Nothing, true, true, false),
        DeleteStep::Apply(_)
    ));
    let gone = deleted(ModalHostAction::Nothing, Ok(ChangeDisposition::Deleted));
    assert!(gone.reload);
    let failed = deleted(ModalHostAction::Nothing, Err("disk".into()));
    assert!(failed.notice.unwrap().contains("disk"));
}

#[test]
fn settings_are_saved_by_what_changed() {
    let mut draft = SettingsDraft::from_feed(&feed(7));
    draft.interval_draft = "2h".into();
    let input = PanelInput {
        discard_intent: None,
        history_action: None,
        close: false,
        save: true,
    };
    match panel_step(&mut draft, input) {
        PanelStep::Apply(changes) => assert_eq!(changes.len(), 1),
        other => panic!("unexpected {other:?}"),
    }
    draft.interval_draft = "soon".into();
    let input = PanelInput {
        discard_intent: None,
        history_action: None,
        close: false,
        save: true,
    };
    assert!(matches!(
        panel_step(&mut draft, input),
        PanelStep::Finish(_)
    ));
    assert!(draft.error.is_some());
    let outcome = settings_saved(&mut draft, Ok(None));
    assert!(outcome.reload);
}

#[test]
fn an_idle_import_can_be_started() {
    let section = HistorySection::new(Backfill::new().snapshot, 7);
    assert_eq!(section.history.status, BackfillStatus::Idle);
    assert!(section.offer(HistoryAction::Start).is_some());
    assert!(section.offer(HistoryAction::Pause).is_none());
}

fn hit(primary: PrimaryIdentity, targets: Vec<ArticleTarget>) -> LibrarySearchResult {
    LibrarySearchResult {
        primary,
        title: Some("Found".into()),
        url: None,
        privacy: None,
        health: None,
        archived: false,
        updated_at: 0,
        evidence: Vec::new(),
        factors: Vec::new(),
        article_targets: targets,
    }
}

#[test]
fn only_the_newest_search_is_answered() {
    let mut feature = SearchFeature::new();
    let mut dialog = feature.new_dialog(Vec::new());
    dialog.query = "  ".into();
    assert!(feature.run_modal_search(&mut dialog).is_none());
    dialog.query = "rust".into();
    let (first, request) = feature.run_modal_search(&mut dialog).unwrap();
    assert_eq!(request.query, "rust");
    assert!(matches!(dialog.body(), SearchBody::Searching));
    dialog.query = "verus".into();
    let (second, _) = feature.run_modal_search(&mut dialog).unwrap();
    let answer = |query: &str| {
        Ok(SearchOutcome {
            query: query.into(),
            results: vec![hit(PrimaryIdentity::Resource(3), Vec::new())],
            warnings: Vec::new(),
        })
    };
    modal_answered(&mut dialog, first, answer("rust"), Vec::new());
    assert!(dialog.results.is_empty());
    modal_answered(&mut dialog, second, answer("verus"), Vec::new());
    assert_eq!(dialog.results.len(), 1);
    assert_eq!(dialog.active_request, None);
}

#[test]
fn a_failed_search_is_shown() {
    let mut feature = SearchFeature::new();
    let (id, _) = feature.start_resource_search("rust".into()).unwrap();
    feature.resource_answered(id, Err("索引失败".into()));
    assert!(!feature.resource_searching);
    assert!(feature.resource_error.as_ref().unwrap().contains("索引失败"));
    let label = history_label(&SearchHistoryEntry {
        query: "rust".into(),
        result_count: 3,
    });
    assert!(label.contains("rust"));
}

#[test]
fn results_open_where_they_are() {
    let target = ArticleTarget {
        article_id: 11,
        feed_id: 7,
        selection_id: Some(3),
        archived: false,
        web_clipping: false,
    };
    assert!(matches!(
        open_search_result(&hit(PrimaryIdentity::Resource(5), vec![target])),
        Opening::Resource(5)
    ));
    let opening = open_search_result(&hit(PrimaryIdentity::Article(11), vec![target]));
    assert_eq!(opening.passage(), Some((11, 3)));
    let mut desktop = desktop();
    desktop.open_result(opening, None, 4);
    assert_eq!(desktop.sel_article_id, Some(11));
    assert!(matches!(
        open_search_result(&hit(PrimaryIdentity::Article(11), Vec::new())),
        Opening::Nowhere
    ));
}

#[test]
fn a_capture_runs_once() {
    let mut dialog = WebClipDialog::default();
    dialog.source = "https://example.com/a".into();
    match save_step(&mut dialog, &None, ModalHostAction::Nothing, true, false) {
        SaveStep::Begin(request, _) => assert_eq!(request.source, "https://example.com/a"),
        other => panic!("unexpected {other:?}"),
    }
    capture_begun(&mut dialog, Ok(6));
    assert!(dialog.owns_capture(6));
    assert!(!dialog.owns_capture(5));
    let plan = apply_web_clipping_terminal(true, CaptureState::Succeeded { article_id: 11 });
    assert_eq!(plan.show_article, Some(11));
    assert!(plan.complete_modal);
    let mut desktop = desktop();
    desktop.navigate(Route::Storage, 1);
    desktop.open_web_clip_dialog(1);
    assert_eq!(desktop.ui.modal_kind(), None);
    desktop.select_saved_articles(2);
    desktop.open_web_clip_dialog(3);
    assert_eq!(desktop.ui.modal_kind(), Some(ModalKind::SaveWebPage));
    desktop.adopt_capture_end(plan, 4);
    assert_eq!(desktop.ui.modal_kind(), None);
    assert_eq!(desktop.sel_article_id, Some(11));
}

#[test]
fn a_failed_thought_is_told() {
    let outcome = excerpt_thought_feature::apply_change(
        excerpt_thought_feature::DirectChange::RemoveThought,
        Some("disk".into()),
    );
    assert!(!outcome.adopt);
    assert!(outcome.notice.unwrap().contains("disk"));
}

#[test]
fn articles_are_opened_where_they_were_left() {
    let mut desktop = desktop();
    desktop.select_article(11);
    desktop.body_scrolled(11, 1_109_393_408, Some(1_109_393_408));
    desktop.select_article(12);
    assert_eq!(desktop.take_pending_scroll(12), None);
    desktop.select_article(11);
    assert_eq!(desktop.take_pending_scroll(12), None);
    assert_eq!(desktop.take_pending_scroll(11), Some(1_109_393_408));
    assert_eq!(desktop.take_pending_scroll(11), None);
}

#[test]
fn a_passage_that_was_waited_for_is_found_or_gone() {
    let excerpt = |id| ExcerptView {
        id,
        article_id: 11,
        selected_text: "text".into(),
        anchor: TextAnchor {
            start_offset: None,
            end_offset: None,
            prefix: String::new(),
            suffix: String::new(),
        },
        thought: None,
    };
    let mut desktop = desktop();
    desktop.excerpts_known(ExcerptScope::Article(11), &[excerpt(3)]);
    assert_eq!(desktop.pending_selection_anchor, None);
    desktop.pending_excerpt_selection_id = Some((11, 3));
    desktop.excerpts_known(ExcerptScope::Library, &[excerpt(3)]);
    assert_eq!(desktop.pending_selection_anchor, None);
    desktop.excerpts_known(ExcerptScope::Article(11), &[excerpt(2), excerpt(3)]);
    assert_eq!(desktop.take_anchor(12), None);
    assert_eq!(
        desktop.take_anchor(11),
        Some(SelectedQuote::from_excerpt(&excerpt(3)))
    );
    assert_eq!(desktop.take_anchor(11), None);
    desktop.pending_excerpt_selection_id = Some((11, 9));
    desktop.excerpts_known(ExcerptScope::Article(11), &[excerpt(3)]);
    assert_eq!(desktop.pending_selection_anchor, None);
    assert_eq!(desktop.pending_excerpt_selection_id, None);
    desktop.passage_restored(11, None, true, 5);
    assert_eq!(
        desktop.ui.notice().unwrap().message,
        "正文已更新，暂时找不到这段摘录"
    );
}

#[test]
fn an_answered_popover_is_closed() {
    let quote = SelectedQuote {
        article_id: 11,
        text: "text".into(),
        start_offset: None,
        end_offset: None,
        anchor_prefix: String::new(),
        anchor_suffix: String::new(),
    };
    let mut desktop = desktop();
    desktop.open_selection_popover(quote);
    desktop.popover_answered(true, None, 1);
    assert!(desktop.ui.popover().is_some());
    desktop.popover_answered(true, Some(SelectionAction::Copy), 2);
    assert!(desktop.ui.popover().is_none());
    assert_eq!(desktop.ui.notice().unwrap().message, "已复制选中的文字");
    desktop.popover_answered(false, None, 3);
    assert_eq!(desktop.ui.notice().unwrap().created, 2);
}

#[test]
fn offered_and_restored_articles_are_opened_where_they_belong() {
    let mut offered = desktop();
    offered.open_offer(11, 9, false, 1);
    assert_eq!(
        offered.ui.route(),
        Route::Articles(ArticleCollection::Feed(Some(9)))
    );
    assert_eq!(offered.sel_article_id, Some(11));
    offered.open_offer(12, 9, true, 2);
    assert_eq!(offered.ui.route(), Route::Articles(ArticleCollection::Saved));
    assert_eq!(offered.sel_article_id, Some(12));

    let mut restored = desktop();
    restored.article_restored(9, 13, 3);
    assert_eq!(
        restored.ui.route(),
        Route::Articles(ArticleCollection::Feed(Some(9)))
    );
    assert_eq!(restored.sel_article_id, Some(13));
    assert_eq!(restored.ui.notice().unwrap().message, "文章已恢复并打开");
}

#[test]
fn opening_an_excerpt_looks_for_its_passage() {
    let mut excerpt = LibraryExcerpt {
        id: 3,
        article_id: 11,
        feed_id: 9,
        web_clipping: true,
        legacy: false,
        unresolved: false,
        updated_at: 0,
        selected_text: "text".into(),
        anchor: TextAnchor {
            start_offset: Some(4),
            end_offset: Some(8),
            prefix: "before".into(),
            suffix: "after".into(),
        },
        thought: None,
        article_title: None,
    };
    let mut desktop = desktop();
    desktop.open_excerpt(&excerpt, 5);
    assert_eq!(desktop.ui.route(), Route::Articles(ArticleCollection::Saved));
    assert_eq!(
        desktop.ui.notice().unwrap().message,
        "已打开原文章，正在定位摘录"
    );
    let quote = desktop.take_anchor(11).unwrap();
    assert_eq!(quote.text, "text");
    assert_eq!((quote.start_offset, quote.end_offset), (Some(4), Some(8)));
    assert_eq!(quote.anchor_suffix, "after");
    excerpt.web_clipping = false;
    desktop.open_excerpt(&excerpt, 6);
    assert_eq!(
        desktop.ui.route(),
        Route::Articles(ArticleCollection::Feed(Some(9)))
    );
}

#[test]
fn a_closed_library_shows_its_maintenance_alone() {
    let mut desktop = desktop();
    let route = desktop.ui.route();
    assert_eq!(desktop.screen(false, true), Screen::Maintenance);
    assert_eq!(
        desktop.screen(true, true),
        Screen::Page { route, search: true }
    );
    assert_eq!(
        desktop.screen(true, false),
        Screen::Page { route, search: false }
    );
    desktop.open_modal(
        ModalState::DeleteFeed(DeleteDraft::new(7, "Feed".into())),
        1,
    );
    assert_eq!(
        desktop.screen(true, true),
        Screen::Page { route, search: false }
    );
}
