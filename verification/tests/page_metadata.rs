use shiyue::address::{
    archive_candidates_for, canonical_article_identity, is_feed_mirror, same_site, web_url,
};
use shiyue::calendar::{format_timestamp, parse_published_value};
use shiyue::json::{clean_author, json_article, json_author_name};
use shiyue::page_metadata::{date_from_url, extract_metadata};

#[test]
fn date_from_url_supports_compact_article_dates() {
    let expected = chrono::NaiveDate::from_ymd_opt(2026, 8, 26)
        .unwrap()
        .and_hms_opt(0, 0, 0)
        .unwrap()
        .and_utc()
        .timestamp();
    assert_eq!(
        date_from_url("https://blog.solazy.me/20260826/"),
        Some(expected)
    );
}

#[test]
fn date_from_url_supports_segmented_article_dates() {
    let expected = chrono::NaiveDate::from_ymd_opt(2026, 8, 26)
        .unwrap()
        .and_hms_opt(0, 0, 0)
        .unwrap()
        .and_utc()
        .timestamp();
    assert_eq!(
        date_from_url("https://example.com/2026/08/26/article"),
        Some(expected)
    );
}

#[test]
fn date_from_url_does_not_fabricate_a_day_from_year_and_month() {
    assert_eq!(date_from_url("https://example.com/2026/08/article"), None);
}

#[test]
fn metadata_parser_reads_common_author_and_published_markup() {
    let (author, published) = extract_metadata(
        r#"<p class="vcard author">作者：<a class="fn">阮一峰</a></p>
           <abbr class="published" title="2026-08-07T08:08:27+08:00">2026年8月7日</abbr>"#,
    );
    assert_eq!(author.as_deref(), Some("阮一峰"));
    assert_eq!(published, Some(1786061307));
}

#[test]
fn metadata_parser_reads_minute_precision_datetime() {
    let (_, published) = extract_metadata(r#"<time datetime="2026-08-26T15:00Z">"#);
    assert_eq!(published, Some(1787756400));
}

#[test]
fn linked_data_names_author_and_date() {
    let html = r#"<script type="application/ld+json">
        {"@graph": [{"@type": "WebSite"},
          {"@type": "BlogPosting", "author": {"name": "Alice"}, "datePublished": "2026-08-26"}]}
    </script>"#;
    let (author, published) = extract_metadata(html);
    assert_eq!(author.as_deref(), Some("Alice"));
    assert_eq!(published, Some(1787702400));
}

#[test]
fn pages_without_metadata_have_none() {
    assert_eq!(extract_metadata("<p>text</p>"), (None, None));
}

#[test]
fn dates_out_of_the_calendar_are_no_dates() {
    assert_eq!(date_from_url("https://example.com/20261340/"), None);
    assert_eq!(date_from_url("https://example.com/2026/02/30/x"), None);
    assert_eq!(date_from_url("no address"), None);
}

#[test]
fn published_values_are_read_in_three_precisions() {
    assert_eq!(
        parse_published_value("2026-08-07T08:08:27+08:00"),
        Some(1786061307)
    );
    assert_eq!(parse_published_value("2026-08-26T15:00Z"), Some(1787756400));
    assert_eq!(parse_published_value("2026-08-26"), Some(1787702400));
    assert_eq!(parse_published_value("yesterday"), None);
}

#[test]
fn times_are_shown_to_the_minute() {
    assert_eq!(format_timestamp(1787756400), "2026-08-26 15:00");
    assert_eq!(format_timestamp(0), "1970-01-01 00:00");
    assert_eq!(format_timestamp(i64::MAX), "");
}

#[test]
fn links_are_resolved_without_their_fragment() {
    assert_eq!(
        web_url("https://blog.test/a/", "../b?q=1#c"),
        Some("https://blog.test/b?q=1".to_string())
    );
    assert_eq!(web_url("https://blog.test/", "javascript:alert(1)"), None);
    assert_eq!(web_url("no address", "/b"), None);
}

#[test]
fn sites_are_the_same_with_and_without_www() {
    assert!(same_site(
        &Some("www.blog.test".into()),
        "https://blog.test/x"
    ));
    assert!(!same_site(&Some("blog.test".into()), "https://evil.test/x"));
    assert!(!same_site(&Some("blog.test".into()), "no address"));
    assert!(is_feed_mirror(&Some("feeds.feedburner.com".into())));
    assert!(!is_feed_mirror(&Some("blog.test".into())));
}

#[test]
fn article_identities_ignore_case_slash_and_fragment() {
    assert_eq!(
        canonical_article_identity("https://Blog.test/Post/#top"),
        "https://blog.test/post"
    );
    assert_eq!(
        canonical_article_identity("https://blog.test/post/index.html"),
        canonical_article_identity("https://blog.test/post")
    );
    assert_eq!(
        canonical_article_identity("https://blog.test/"),
        "https://blog.test"
    );
    assert_ne!(
        canonical_article_identity("https://blog.test/post"),
        canonical_article_identity("https://blog.test/other")
    );
    assert_eq!(canonical_article_identity(" No Address "), "no address");
}

#[test]
fn archived_addresses_are_tried_in_order() {
    assert_eq!(
        archive_candidates_for("http://blog.test/archives"),
        vec!["https://blog.test/archives", "http://blog.test/archives"]
    );
    assert_eq!(
        archive_candidates_for("https://blog.test/archives"),
        vec!["https://blog.test/archives"]
    );
    assert_eq!(archive_candidates_for("no address"), vec!["no address"]);
}

#[test]
fn json_articles_are_found_in_lists_and_graphs() {
    assert!(json_article(r#"[{"@type": "NewsArticle"}]"#).is_some());
    assert!(json_article(r#"{"@type": ["Thing", "Article"]}"#).is_some());
    assert!(json_article(r#"{"@type": "WebSite"}"#).is_none());
    assert!(json_article("not json").is_none());
}

#[test]
fn json_authors_are_names_objects_or_lists() {
    assert_eq!(json_author_name(r#""Alice""#).as_deref(), Some("Alice"));
    assert_eq!(
        json_author_name(r#"{"name": " Alice "}"#).as_deref(),
        Some("Alice")
    );
    assert_eq!(
        json_author_name(r#"[{"name": "Alice"}, {"name": "Bob"}]"#).as_deref(),
        Some("Alice")
    );
    assert_eq!(json_author_name("7"), None);
    assert_eq!(clean_author("  "), None);
}

#[test]
fn attributes_of_another_namespace_are_not_taken_for_plain_ones() {
    let html = r#"<svg><text itemprop="datePublished" xlink:title="2026-08-26">2026-08-07</text></svg>"#;
    let (_, published) = extract_metadata(html);
    assert_eq!(published, parse_published_value("2026-08-07"));
}

#[test]
fn dates_are_counted_from_1970() {
    let day = |path: &str| date_from_url(&format!("https://example.com/{path}/x"));
    assert_eq!(day("1970/01/01"), Some(0));
    assert_eq!(day("1969/12/31"), Some(-86_400));
    assert_eq!(day("2000/03/01"), Some(951_868_800));
    assert_eq!(day("2024/02/29"), Some(1_709_164_800));
    assert_eq!(day("2100/02/29"), None);
    assert_eq!(day("1/01/01"), Some(-62_135_596_800));
    assert_eq!(day("262142/12/31"), Some(8_210_266_790_400));
    assert_eq!(day("262143/01/01"), None);
}
