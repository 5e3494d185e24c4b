use shiyue::history_discovery::discovery::{Opening, PROBE_LIMIT};
use shiyue::history_discovery::page::{
    archive_candidates, archive_label, date_path, parse_archive, parse_feed, DiscoveryFailure,
    Entry, FetchedWebClip, SourceKind,
};
use shiyue::history_discovery::pager::Pager;

fn doc(url: &str, html: &str) -> FetchedWebClip {
    FetchedWebClip {
        original_url: url.into(),
        final_url: url.into(),
        html: html.into(),
    }
}

fn atom(next: &str) -> String {
    format!(
        r#"<feed xmlns="http://www.w3.org/2005/Atom">
      <id>test</id><title>Blog</title><updated>2026-09-01T00:00:00Z</updated>
      <link rel="alternate" href="https://blog.test/"/>{next}
      <entry><id>entry-one</id><title>One</title><link href="/2026/09/one.html"/>
      <published>2026-09-01T00:00:00Z</published><updated>2026-09-01T00:00:00Z</updated>
      <author><name>Alice</name></author><content type="html">Full body</content></entry>
    </feed>"#
    )
}

fn archive() -> &'static str {
    r#"<main><h1>Archives</h1><a href="/2026/09/one.html#comments">One</a>
    <a href="/2026/08/two.html">Two</a>
    <aside><a href="/2026/08/ad.html">Advertisement</a></aside>
    <nav><a href="/archives?page=2" rel="next">下一页</a></nav></main>"#
}

/// Searches the history of a feed; `fetch` gives the page at an address.
fn discover(
    feed_url: &str,
    fetch: &mut dyn FnMut(&str, SourceKind) -> Option<FetchedWebClip>,
) -> Result<(Pager, Vec<Entry>), DiscoveryFailure> {
    let document = fetch(feed_url, SourceKind::Feed).expect("the feed is there");
    let opening = Opening::begin(feed_url, &document)?;
    let homepage = fetch(&opening.home.clone(), SourceKind::Archive);
    let mut search = opening.home_fetched(homepage);
    while let Some(candidate) = search.next_probe() {
        let page = fetch(&candidate, SourceKind::Archive);
        if let Some(found) = search.probed(&candidate, page)? {
            return Ok(found);
        }
    }
    Ok(search.conclude())
}

/// Reads the next page of a history; `None` where it could not be fetched.
fn next_page(
    pager: &mut Pager,
    fetch: &mut dyn FnMut(&str) -> Option<FetchedWebClip>,
) -> Option<Vec<Entry>> {
    let address = pager.next_address()?;
    let document = fetch(&address)?;
    Some(pager.page_fetched(&document).unwrap())
}

#[test]
fn discovers_arbitrary_site_archive_and_rejects_blogroll() {
    let (mut pager, entries) = discover("https://blog.test/feed", &mut |url, kind| {
        let html = match url {
            "https://blog.test/feed" => {
                assert_eq!(kind, SourceKind::Feed);
                atom("")
            }
            "https://blog.test/" => r#"<a href="/archives">文章归档</a>"#.into(),
            "https://blog.test/archives" => archive().into(),
            "https://blog.test/archives?page=2" => archive().replace("one.html", "three.html"),
            _ => "<h1>Not an archive</h1>".into(),
        };
        Some(doc(url, &html))
    })
    .unwrap();
    assert_eq!(pager.kind, SourceKind::Archive);
    assert_eq!(entries.len(), 2);
    assert!(entries.iter().all(|entry| entry.fetch_body));
    assert!(!entries[0].article.url.as_ref().unwrap().contains('#'));
    assert!(pager.has_more());
    while pager.has_more() {
        next_page(&mut pager, &mut |url| Some(doc(url, archive()))).unwrap();
    }
    assert!(!pager.has_more(), "self-loop must terminate");
}

#[test]
fn feedburner_uses_publisher_home_and_date_archive_without_domain_rule() {
    let mut requests: Vec<String> = Vec::new();
    let (pager, entries) = discover("https://proxy.test/source", &mut |url, _| {
        requests.push(url.to_owned());
        let html = match url {
            "https://proxy.test/source" => atom(""),
            "https://blog.test/" => r#"<a href="/all">按日期排列</a>"#.into(),
            "https://blog.test/all" => {
                r#"<a href="/2026/09/">九月</a><a href="/2026/08/">八月</a>"#.into()
            }
            "https://blog.test/2026/09/" => archive().into(),
            _ => "<h1>Not an archive</h1>".into(),
        };
        Some(doc(url, &html))
    })
    .unwrap();
    assert_eq!(pager.kind, SourceKind::Archive);
    assert_eq!(entries.len(), 2);
    assert!(pager.pending.contains(&"https://blog.test/2026/08/".into()));
    assert!(!requests.contains(&"https://proxy.test/".into()));
}

#[test]
fn falls_back_to_relative_feed_paging_and_preserves_metadata() {
    let (mut pager, entries) = discover("https://blog.test/feed", &mut |url, _| {
        Some(doc(
            url,
            &if url.ends_with("/feed") {
                atom(r#"<link rel="next" href="?page=2"/>"#)
            } else {
                "<a href='/about'>About</a>".into()
            },
        ))
    })
    .unwrap();
    assert_eq!(pager.kind, SourceKind::Feed);
    assert!(!entries[0].fetch_body);
    assert_eq!(entries[0].article.author.as_deref(), Some("Alice"));
    assert!(entries[0].article.published.is_some());
    assert_eq!(entries[0].article.content.as_deref(), Some("Full body"));
    let mut attempts = 0;
    assert!(next_page(&mut pager, &mut |url| {
        assert_eq!(url, "https://blog.test/feed?page=2");
        attempts += 1;
        None
    })
    .is_none());
    assert!(pager.has_more());
    next_page(&mut pager, &mut |url| {
        attempts += 1;
        Some(doc(url, &atom("")))
    })
    .unwrap();
    assert_eq!(attempts, 2);
    assert!(!pager.has_more());
}

#[test]
fn rss_atom_namespace_paging_and_archive_relations_are_supported() {
    let rss = r#"<rss version="2.0" xmlns:atom="http://www.w3.org/2005/Atom"><channel>
      <title>Blog</title><link>https://blog.test/</link><description>Blog</description>
      <atom:link rel="next" href="?page=2"/>
      <item><guid>one</guid><title>One</title><link>https://blog.test/one</link></item>
    </channel></rss>"#;
    let page = parse_feed(&doc("https://blog.test/feed", rss)).unwrap();
    assert_eq!(page.pages, vec!["https://blog.test/feed?page=2"]);
    let page = parse_feed(&doc(
        "https://blog.test/feed",
        &atom(r#"<link rel="prev-archive" href="old.atom"/>"#),
    ))
    .unwrap();
    assert_eq!(page.pages, vec!["https://blog.test/old.atom"]);
}

#[test]
fn bad_archive_and_unreachable_home_do_not_claim_full_history() {
    for home_fails in [false, true] {
        let (pager, _) = discover("https://blog.test/feed", &mut |url, _| {
            if url.ends_with("/feed") {
                return Some(doc(url, &atom("")));
            }
            if home_fails {
                return None;
            }
            Some(doc(
                url,
                if url.ends_with("/archives") {
                    "<h1>Login required</h1>"
                } else {
                    r#"<a href="/archives">Archives</a>"#
                },
            ))
        })
        .unwrap();
        assert_eq!(pager.kind, SourceKind::Feed);
        assert!(!pager.has_more());
        assert!(pager.description.contains("只能读取当前条目"));
    }
}

#[test]
fn archive_discovery_stays_same_site_and_rejects_unsafe_schemes() {
    let links = archive_candidates(
        r#"<a href="https://evil.test/archives">Archives</a>
        <a href="javascript:alert(1)">Archives</a><a href="/archives">Archives</a>
        <a href="/archives#x">Archives</a>"#,
        "https://blog.test/",
    );
    assert_eq!(links, vec!["https://blog.test/archives"]);
}

#[test]
fn keeps_the_single_article_on_a_final_archive_page() {
    let page = parse_archive(
        &doc(
            "https://blog.test/archives?page=99",
            r#"<main><h2><a href="/very-first-post">First post</a></h2></main>"#,
        ),
        &[],
    )
    .unwrap();
    assert_eq!(page.entries.len(), 1);
    assert!(page.pages.is_empty());
}

#[test]
fn pages_that_are_no_feed_are_refused() {
    let refused = parse_feed(&doc("https://blog.test/feed", "<h1>Hello</h1>")).unwrap_err();
    let error = "unable to parse feed: no root element";
    assert_eq!(refused, DiscoveryFailure::NotAFeed(error.into()));
    assert_eq!(refused.text(), error);
    assert_eq!(
        parse_feed(&doc("no address", &atom(""))).unwrap_err(),
        DiscoveryFailure::BadAddress("relative URL without a base".into())
    );
}

#[test]
fn archives_without_entries_are_refused() {
    assert_eq!(
        parse_archive(&doc("https://blog.test/archives", "<h1>Empty</h1>"), &[]).unwrap_err(),
        DiscoveryFailure::NoEntries
    );
    assert_eq!(
        parse_archive(&doc("no address", archive()), &[]).unwrap_err(),
        DiscoveryFailure::BadAddress("relative URL without a base".into())
    );
}

#[test]
fn an_archive_that_leads_away_is_left() {
    let (mut pager, _) = discover("https://blog.test/feed", &mut |url, _| {
        let html = match url {
            "https://blog.test/feed" => atom(""),
            "https://blog.test/" => r#"<a href="/archives">文章归档</a>"#.into(),
            "https://blog.test/archives" => archive().into(),
            _ => "<h1>Not an archive</h1>".into(),
        };
        Some(doc(url, &html))
    })
    .unwrap();
    let address = pager.next_address().unwrap();
    let away = FetchedWebClip {
        original_url: address,
        final_url: "https://other.test/archives".into(),
        html: archive().into(),
    };
    assert_eq!(
        pager.page_fetched(&away).unwrap_err(),
        DiscoveryFailure::LeftTheSite
    );
}

#[test]
fn sampled_articles_are_found_without_a_date() {
    let page = doc(
        "https://blog.test/archives",
        r#"<a href="/posts/one">One</a><a href="/about">About</a>"#,
    );
    assert_eq!(
        parse_archive(&page, &[]).unwrap_err(),
        DiscoveryFailure::NoEntries
    );
    let found = parse_archive(&page, &["https://blog.test/posts/one".to_string()]).unwrap();
    assert_eq!(found.entries.len(), 1);
    assert_eq!(found.entries[0].article.title.as_deref(), Some("One"));
}

#[test]
fn older_pages_come_in_descending_order_and_once() {
    let page = parse_archive(
        &doc(
            "https://blog.test/archives",
            r#"<a href="/2026/07/">七月</a><a href="/2026/09/">九月</a><a href="/2026/07/#a">七月</a>"#,
        ),
        &[],
    )
    .unwrap();
    assert_eq!(
        page.pages,
        vec!["https://blog.test/2026/09/", "https://blog.test/2026/07/"]
    );
}

#[test]
fn dated_paths_are_told_from_date_indexes() {
    assert_eq!(date_path("/2026/09/one.html"), (true, false));
    assert_eq!(date_path("/2026/09/"), (true, true));
    assert_eq!(date_path("/2026/index.html"), (true, true));
    assert_eq!(date_path("/about"), (false, false));
    assert_eq!(date_path("/1899/"), (false, false));
}

#[test]
fn archive_links_are_known_by_their_text() {
    assert!(archive_label("  Archives "));
    assert!(archive_label("全部文章"));
    assert!(!archive_label("关于"));
}

#[test]
fn a_search_asks_for_few_pages() {
    let mut asked = 0;
    let links: String = (0..40)
        .map(|i| format!("<a href='/archives/{i}'>Archive {i}</a>"))
        .collect();
    let (pager, _) = discover("https://blog.test/feed", &mut |url, _| {
        asked += 1;
        let html = match url {
            "https://blog.test/feed" => atom(""),
            "https://blog.test/" => links.clone(),
            _ => "<h1>Not an archive</h1>".into(),
        };
        Some(doc(url, &html))
    })
    .unwrap();
    assert_eq!(pager.kind, SourceKind::Feed);
    assert!(asked <= 2 + PROBE_LIMIT);
}
