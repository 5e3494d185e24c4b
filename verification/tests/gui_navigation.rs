use shiyue::address::resource_domain;
use shiyue::gui::excerpt_thought_feature::{CommentDialog, ExcerptTarget};
use shiyue::gui::feed_subscription_feature::SettingsDraft;
use shiyue::gui::modal_state::{tag_names, ModalState, PanelState, TagDialog};
use shiyue::gui::navigation::{
    article_navigation_target, article_position, feed_navigation_target, feed_unread_index,
    projection_scope_for_route, reconcile_article_selection, ProjectionScope,
};
use shiyue::gui::reading::DelayedReadMarking;
use shiyue::gui::search_text::{highlight, search_match_ranges, search_preview};
use shiyue::gui::selection::SelectedQuote;
use shiyue::gui::web_clipping_feature::WebClipDialog;
use shiyue::gui_state::{ArticleCollection, ModalPayload, PanelPayload, Route};
use shiyue::model::{Article, Feed};

fn article(id: i64) -> Article {
    Article {
        id,
        feed_id: 7,
        entry_id: format!("entry-{id}"),
        url: None,
        title: Some(format!("Article {id}")),
        author: None,
        published: None,
        content: None,
        is_read: false,
        starred: false,
        read_later: false,
        archived: false,
        fetched_at: 1,
    }
}

fn feed(id: i64) -> Feed {
    Feed {
        id,
        url: format!("https://example.com/{id}.xml"),
        title: Some(format!("Feed {id}")),
        last_fetch: None,
        next_fetch: 0,
        last_error: None,
        fail_count: 0,
        disabled: false,
        interval_secs: None,
    }
}

#[test]
fn desktop_routes_map_to_article_library_scopes() {
    assert_eq!(
        projection_scope_for_route(Route::Articles(ArticleCollection::Feed(Some(7)))),
        Some(ProjectionScope::Feed(7))
    );
    assert_eq!(
        projection_scope_for_route(Route::Articles(ArticleCollection::Saved)),
        Some(ProjectionScope::ArticleBookmarks)
    );
    assert_eq!(
        projection_scope_for_route(Route::Articles(ArticleCollection::ReadLater)),
        Some(ProjectionScope::ReadLater)
    );
    assert_eq!(
        projection_scope_for_route(Route::Articles(ArticleCollection::Feed(None))),
        Some(ProjectionScope::All)
    );
    assert_eq!(
        projection_scope_for_route(Route::Archive),
        Some(ProjectionScope::Archive)
    );
    assert_eq!(projection_scope_for_route(Route::Resources), None);
}

#[test]
fn article_selection_keeps_present_choice_restores_memory_and_drops_missing_rows() {
    let articles = vec![article(11), article(12)];

    assert_eq!(
        reconcile_article_selection(Some(11), Some(12), &articles),
        Some(11)
    );
    assert_eq!(
        reconcile_article_selection(Some(99), Some(12), &articles),
        Some(12)
    );
    assert_eq!(
        reconcile_article_selection(None, Some(12), &articles),
        Some(12)
    );
    assert_eq!(
        reconcile_article_selection(Some(99), Some(98), &articles),
        None
    );
}

#[test]
fn article_keyboard_navigation_stays_in_list_bounds() {
    let articles = vec![article(11), article(12), article(13)];

    assert_eq!(article_navigation_target(&articles, 12, -1), Some(11));
    assert_eq!(article_navigation_target(&articles, 12, 1), Some(13));
    assert_eq!(article_navigation_target(&articles, 11, -1), None);
    assert_eq!(article_navigation_target(&articles, 13, 1), None);
    assert_eq!(article_position(&articles, 13), Some(2));
    assert_eq!(article_position(&articles, 99), None);
}

#[test]
fn feed_keyboard_navigation_stays_in_list_bounds() {
    let feeds = vec![feed(11), feed(12), feed(13)];

    assert_eq!(feed_navigation_target(&feeds, 12, -1), Some(11));
    assert_eq!(feed_navigation_target(&feeds, 12, 1), Some(13));
    assert_eq!(feed_navigation_target(&feeds, 11, -1), None);
    assert_eq!(feed_navigation_target(&feeds, 13, 1), None);
}

#[test]
fn feed_unread_index_keeps_the_projection_count_for_each_feed() {
    let index = feed_unread_index(&[(7, 3), (9, 0), (11, 42)]);

    assert_eq!(index.get(7), Some(3));
    assert_eq!(index.get(9), Some(0));
    assert_eq!(index.get(11), Some(42));
    assert_eq!(index.get(13), None);
}

#[test]
fn delayed_read_marking_requires_ten_continuous_seconds() {
    let start: u64 = 5_000;
    let mut marking = DelayedReadMarking::default();

    assert!(!marking.observe(Some(7), true, start));
    assert!(!marking.observe(Some(7), true, start + 9_000));
    assert!(marking.observe(Some(7), true, start + 10_000));
}

#[test]
fn delayed_read_marking_pauses_for_blockers_and_resets_on_article_change() {
    let start: u64 = 5_000;
    let mut marking = DelayedReadMarking::default();

    assert!(!marking.observe(Some(7), true, start));
    assert!(!marking.observe(Some(7), true, start + 6_000));
    assert!(!marking.observe(Some(7), false, start + 20_000));
    assert!(!marking.observe(Some(7), true, start + 25_000));
    assert!(marking.observe(Some(7), true, start + 29_000));

    assert!(!marking.observe(Some(8), true, start + 40_000));
    assert!(!marking.observe(None, true, start + 50_000));
}

#[test]
fn resource_domain_keeps_cards_scannable_without_query_noise() {
    assert_eq!(
        resource_domain("https://koboyo.com/icons?q=app+icon"),
        "koboyo.com"
    );
    assert_eq!(resource_domain("not a url"), "not a url");
}

#[test]
fn actual_modal_payloads_derive_dirty_state_from_their_drafts() {
    let mut tags = TagDialog {
        article_id: 7,
        draft: "rust".into(),
        original: "rust".into(),
        focus_input: false,
    };
    assert!(!ModalState::EditTags(tags.clone()).is_dirty());
    tags.draft.push_str(", architecture");
    assert!(ModalState::EditTags(tags).is_dirty());

    let web = WebClipDialog::default();
    assert!(!ModalState::SaveWebPage(web).is_dirty());

    let quote = SelectedQuote {
        article_id: 7,
        text: "excerpt".into(),
        start_offset: Some(0),
        end_offset: Some(7),
        anchor_prefix: String::new(),
        anchor_suffix: String::new(),
    };
    let mut thought = CommentDialog {
        quote,
        target: ExcerptTarget::Existing(3),
        draft: "current thought".into(),
        original: "current thought".into(),
        error: None,
        focus_input: false,
    };
    assert!(!ModalState::WriteThought(thought.clone()).is_dirty());
    thought = CommentDialog {
        draft: "edited thought".into(),
        ..thought
    };
    assert!(ModalState::WriteThought(thought).is_dirty());
}

#[test]
fn feed_settings_panel_remains_owned_by_its_feed_route() {
    let feed = Feed {
        id: 7,
        url: "https://example.com/feed.xml".into(),
        title: Some("Rust Blog".into()),
        interval_secs: Some(3600),
        last_fetch: Some(0),
        next_fetch: 0,
        last_error: None,
        fail_count: 0,
        disabled: false,
    };
    let panel = PanelState::FeedSettings(SettingsDraft::from_feed(&feed));
    assert!(!panel.is_dirty());
    assert!(panel.is_compatible(Route::Articles(ArticleCollection::Feed(Some(7)))));
    assert!(!panel.is_compatible(Route::Articles(ArticleCollection::Feed(Some(8)))));
}

#[test]
fn search_preview_strips_html_and_centers_unicode_matches() {
    let source = "<p>开头是一段说明。</p><p>这里包含关键架构决策，后面还有补充内容。</p>";
    let preview = search_preview(source, "架构", 12).unwrap();
    assert!(preview.contains("关键架构决策"));
    assert!(!preview.contains('<'));

    let plain = search_preview("摘录中提到状态机", "状态机", 40).unwrap();
    assert_eq!(plain, "摘录中提到状态机");
}

#[test]
fn search_highlight_ranges_cover_all_unicode_and_case_insensitive_matches() {
    let text = "乡音让内容有乡音，也支持 CloudFlare 与 cloudflare。";
    let chinese = search_match_ranges(text, "乡音");
    assert_eq!(
        chinese
            .iter()
            .map(|range| &text[range.start..range.end])
            .collect::<Vec<_>>(),
        ["乡音", "乡音"]
    );

    let english = search_match_ranges(text, "CLOUDFLARE");
    assert_eq!(
        english
            .iter()
            .map(|range| &text[range.start..range.end])
            .collect::<Vec<_>>(),
        ["CloudFlare", "cloudflare"]
    );
    let multiple = search_match_ranges(text, "乡音 cloudflare");
    assert_eq!(multiple.len(), 4);
    assert!(search_match_ranges(text, "不存在").is_empty());
    assert!(search_match_ranges(text, "   ").is_empty());
}

#[test]
fn a_missing_article_leads_nowhere() {
    let articles = vec![article(11), article(12), article(13)];
    assert_eq!(article_navigation_target(&articles, 99, 1), None);
    assert_eq!(article_navigation_target(&articles, 11, 2), Some(13));
    assert_eq!(article_navigation_target(&articles, 11, isize::MAX), None);
    assert_eq!(article_navigation_target(&[], 11, 0), None);
}

#[test]
fn later_counts_replace_earlier_ones() {
    let index = feed_unread_index(&[(7, 3), (7, 5)]);
    assert_eq!(index.get(7), Some(5));
}

#[test]
fn reading_that_stops_never_marks() {
    let mut marking = DelayedReadMarking::default();
    assert!(!marking.observe(Some(7), true, 0));
    assert!(!marking.observe(None, true, 5_000));
    assert!(!marking.observe(Some(7), true, 6_000));
    assert!(!marking.observe(Some(7), true, 15_999));
    assert!(marking.observe(Some(7), true, 16_000));
    marking.reset_for(None);
    assert!(!marking.observe(Some(7), true, 30_000));
}

#[test]
fn tag_names_are_split_at_commas_and_trimmed() {
    assert_eq!(tag_names(" rust , 架构，,rust"), vec!["rust", "架构", "rust"]);
    let dialog = TagDialog::open(7, &["rust".to_string(), "架构".to_string()]);
    assert!(!dialog.is_dirty());
    assert_eq!(tag_names(&dialog.draft), vec!["rust", "架构"]);
}

#[test]
fn adjacent_matches_are_separate_from_the_text_around_them() {
    let ranges = search_match_ranges("aXaXb", "x b");
    let found: Vec<(usize, usize)> = ranges.iter().map(|r| (r.start, r.end)).collect();
    assert_eq!(found, vec![(1, 2), (3, 5)]);
}

#[test]
fn characters_that_lower_to_several_are_still_matched() {
    let text = "aİb";
    let ranges = search_match_ranges(text, "İ");
    assert_eq!(ranges.len(), 1);
    assert_eq!(&text[ranges[0].start..ranges[0].end], "İ");
}

#[test]
fn previews_are_cut_around_the_match() {
    let long = "一二三四五六七八九十甲乙丙丁";
    let preview = search_preview(long, "甲", 6).unwrap();
    assert!(preview.contains("甲"));
    assert!(preview.starts_with('…'));
    let start = search_preview(long, "没有", 6).unwrap();
    assert!(start.starts_with('一'));
    assert!(start.ends_with('…'));
}

#[test]
fn highlighted_text_is_cut_where_matches_begin_and_end() {
    let text = "乡音让内容有乡音";
    let parts: Vec<(String, bool)> = highlight(text, "乡音")
        .into_iter()
        .map(|piece| (piece.text, piece.highlighted))
        .collect();
    assert_eq!(
        parts,
        vec![
            ("乡音".to_string(), true),
            ("让内容有".to_string(), false),
            ("乡音".to_string(), true),
        ]
    );
    let whole: String = parts.into_iter().map(|part| part.0).collect();
    assert_eq!(whole, text);
    assert!(highlight("", "乡音").is_empty());
}
