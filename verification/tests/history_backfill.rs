use shiyue::history_backfill_workflow::{
    append_entries, article_from_document, article_retry, article_source, ArchiveFetch, ArticleSource, Backfill,
    BackfillStatus, BatchStep, Command, Control, Readable, WorkerAction, BATCH_SIZE,
    PAGES_PER_BATCH,
};
use shiyue::history_discovery::page::{Entry, FetchedWebClip, SourceKind};
use shiyue::history_discovery::pager::Pager;
use shiyue::model::NewArticle;

fn entry(id: usize) -> Entry {
    let url = format!("https://blog.test/posts/{id}");
    Entry {
        article: NewArticle {
            entry_id: url.clone(),
            url: Some(url),
            title: Some(format!("Post {id}")),
            author: None,
            published: None,
            content: None,
        },
        fetch_body: true,
    }
}

fn pager(pending: &[&str]) -> Pager {
    Pager {
        kind: SourceKind::Archive,
        description: "网站归档".into(),
        pending: pending.iter().map(|p| p.to_string()).collect(),
        visited: Vec::new(),
    }
}

fn started(entries: &[Entry], pending: &[&str]) -> Backfill {
    let mut backfill = Backfill::new();
    let action = backfill.command(Command::Start {
        feed_id: 7,
        feed_url: "https://blog.test/feed".into(),
    });
    assert!(matches!(action, WorkerAction::Discover { feed_id: 7, .. }));
    backfill.discovered(7, pager(pending), entries);
    backfill
}

fn run_batch(backfill: &mut Backfill) {
    let batch = backfill.begin_batch().unwrap();
    while let BatchStep::FetchArticle = backfill.batch_step(batch) {
        assert!(backfill.current_entry().is_some());
        backfill.article_done(Some(1));
    }
    backfill.finish_batch();
}

#[test]
fn a_batch_ends_after_its_articles() {
    let entries: Vec<Entry> = (0..60).map(entry).collect();
    let mut backfill = started(&entries, &[]);
    run_batch(&mut backfill);
    assert_eq!(BATCH_SIZE, 50);
    assert_eq!(backfill.snapshot.processed, 50);
    assert_eq!(backfill.snapshot.inserted, 50);
    assert_eq!(backfill.snapshot.status, BackfillStatus::WaitingNextBatch);
    assert!(backfill.snapshot.has_more);
    run_batch(&mut backfill);
    assert_eq!(backfill.snapshot.processed, 60);
    assert_eq!(backfill.snapshot.status, BackfillStatus::Completed);
    assert!(!backfill.snapshot.has_more);
}

#[test]
fn an_article_is_imported_once() {
    let entries = vec![entry(1), entry(2), entry(1)];
    let mut backfill = started(&entries, &[]);
    assert_eq!(backfill.snapshot.discovered, 2);
    run_batch(&mut backfill);
    assert_eq!(backfill.snapshot.processed, 2);
}

#[test]
fn failed_articles_are_kept_for_a_retry() {
    let mut backfill = started(&[entry(1), entry(2)], &[]);
    let batch = backfill.begin_batch().unwrap();
    assert!(matches!(backfill.batch_step(batch), BatchStep::FetchArticle));
    backfill.article_done(None);
    backfill.article_done(Some(1));
    backfill.finish_batch();
    assert_eq!(backfill.snapshot.failed, 1);
    let again = backfill.begin_retry();
    assert_eq!(again.len(), 1);
    for failed in again {
        backfill.retried(failed, Some(1));
    }
    backfill.finish_retry();
    assert_eq!(backfill.snapshot.failed, 0);
    assert_eq!(backfill.snapshot.inserted, 2);
}

#[test]
fn a_page_is_fetched_where_the_list_runs_out() {
    let mut backfill = started(&[], &["https://blog.test/archives?page=2"]);
    let batch = backfill.begin_batch().unwrap();
    assert!(matches!(backfill.batch_step(batch), BatchStep::FetchPage));
    let address = backfill.next_page_address().unwrap();
    assert_eq!(address, "https://blog.test/archives?page=2");
    let document = FetchedWebClip {
        original_url: address.clone(),
        final_url: address,
        html: r#"<h2><a href="/posts/1">One</a></h2>"#.into(),
    };
    let batch = backfill.page_fetched(batch, &document).unwrap();
    assert!(matches!(backfill.batch_step(batch), BatchStep::FetchArticle));
    backfill.article_done(Some(1));
    assert_eq!(backfill.snapshot.discovered, 1);
    assert_eq!(backfill.snapshot.processed, 1);
    assert_eq!(PAGES_PER_BATCH, 10);
}

#[test]
fn a_page_that_fails_keeps_its_place() {
    let mut backfill = started(&[], &["https://blog.test/archives?page=2"]);
    backfill.begin_batch().unwrap();
    let first = backfill.next_page_address();
    backfill.page_failed("timeout".into());
    assert_eq!(backfill.snapshot.status, BackfillStatus::Failed);
    assert_eq!(backfill.snapshot.last_error.as_deref(), Some("timeout"));
    assert_eq!(backfill.next_page_address(), first);
}

#[test]
fn pausing_holds_the_batch() {
    let mut backfill = started(&[entry(1), entry(2)], &[]);
    backfill.begin_batch().unwrap();
    backfill.article_done(Some(1));
    assert!(!matches!(
        backfill.control(Some(Command::Pause)),
        Control::GoOn
    ));
    assert_eq!(backfill.snapshot.status, BackfillStatus::Paused);
    assert_eq!(backfill.snapshot.processed, 1);
    backfill.control(Some(Command::Resume));
    assert!(matches!(backfill.control(None), Control::GoOn));
}

#[test]
fn a_failed_discovery_is_told() {
    let mut backfill = Backfill::new();
    backfill.command(Command::Start {
        feed_id: 7,
        feed_url: "https://blog.test/feed".into(),
    });
    backfill.discovery_failed("订阅源无法解析".into());
    assert_eq!(backfill.snapshot.status, BackfillStatus::Failed);
    assert_eq!(
        backfill.snapshot.last_error.as_deref(),
        Some("订阅源无法解析")
    );
}

#[test]
fn shutting_down_stops_the_worker() {
    let mut backfill = started(&[entry(1)], &[]);
    assert!(matches!(
        backfill.command(Command::Shutdown),
        WorkerAction::Stop
    ));
}

#[test]
fn fetching_an_archive_gives_up() {
    let mut fetch = ArchiveFetch::begin("https://blog.test/archives");
    let mut tries = 0;
    while fetch.address().is_some() {
        fetch.failed("HTTP 503");
        tries += 1;
        assert!(tries < 100);
    }
    assert!(tries > 0);
}

#[test]
fn only_a_busy_server_is_waited_for() {
    assert_eq!(article_retry(0, "HTTP 404"), Some(0));
    assert!(article_retry(0, "HTTP 429").unwrap() > 0);
    assert!(article_retry(1, "HTTP 429") > article_retry(0, "HTTP 429"));
    assert_eq!(article_retry(9, "HTTP 429"), None);
}

#[test]
fn listed_articles_need_no_page() {
    let mut listed = entry(1);
    listed.fetch_body = false;
    assert!(matches!(article_source(&listed), ArticleSource::Listed(_)));
    match article_source(&entry(1)) {
        ArticleSource::Page(url) => assert_eq!(url, "https://blog.test/posts/1"),
        other => panic!("unexpected {other:?}"),
    }
    let mut lost = entry(1);
    lost.article.url = None;
    assert!(matches!(
        article_source(&lost),
        ArticleSource::MissingAddress
    ));
}

#[test]
fn an_article_is_made_of_its_page() {
    let fetched = FetchedWebClip {
        original_url: "https://blog.test/2026/08/26/post".into(),
        final_url: "https://blog.test/2026/08/26/post".into(),
        html: r#"<meta name="author" content="Alice"><p>Body</p>"#.into(),
    };
    let made = article_from_document(
        &entry(1),
        &fetched,
        Readable {
            title: Some("Read title".into()),
            content: "<p>Body</p>".into(),
        },
    )
    .unwrap();
    assert_eq!(made.content.as_deref(), Some("<p>Body</p>"));
    assert_eq!(made.author.as_deref(), Some("Alice"));
    assert_eq!(made.published, Some(1787702400));
    assert!(made.title.is_some());
}

#[test]
fn a_retry_that_fails_keeps_the_article() {
    let mut backfill = started(&[entry(1)], &[]);
    backfill.begin_batch().unwrap();
    backfill.article_done(None);
    backfill.finish_batch();
    for failed in backfill.begin_retry() {
        backfill.retried(failed, None);
    }
    backfill.finish_retry();
    assert_eq!(backfill.snapshot.failed, 1);
    assert_eq!(backfill.begin_retry().len(), 1);
}

#[test]
fn listing_the_same_entries_again_adds_none() {
    let entries: Vec<Entry> = (0..3).map(entry).collect();
    let mut backfill = started(&entries, &[]);
    let state = backfill.state.as_mut().unwrap();
    append_entries(state, &entries);
    append_entries(state, &[entry(1), entry(7)]);
    append_entries(state, &[entry(1), entry(7)]);
    assert_eq!(state.entries.len(), 4);
}
