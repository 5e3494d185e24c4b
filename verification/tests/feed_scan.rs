use shiyue::feed_scan::{can_be_parsed, NESTING_LIMIT, RECURSION_LIMIT};
use shiyue::history_discovery::page::{parse_feed, DiscoveryFailure, FetchedWebClip, Page};
use shiyue::play_time::can_be_read;

fn read(html: &str) -> Result<Page, DiscoveryFailure> {
    parse_feed(&FetchedWebClip {
        original_url: "https://blog.test/feed".into(),
        final_url: "https://blog.test/feed".into(),
        html: html.into(),
    })
}

const DOCTYPE: &str = r#"<!DOCTYPE rss PUBLIC "-//Test//DTD RSS//EN" "http://example.com/a>b.dtd">"#;

/// A podcast with one item.
fn podcast_as(encoding: &str, doctype: &str, item: &str) -> String {
    format!(
        r#"<?xml version="1.0" encoding="{encoding}"?>
<!-- generator="a > b" -->
{doctype}
<rss version="2.0" xmlns:itunes="http://www.itunes.com/dtds/podcast-1.0.dtd"
     xmlns:media="http://search.yahoo.com/mrss/">
<channel><title>播客</title><link>https://blog.test/</link><description>d</description>
<itunes:category text="Arts"><itunes:category text="Books"/></itunes:category>
<item><guid>1234567890123456789012345</guid><title>One &amp; two</title>
<link>https://blog.test/12345678901234567890?a=1&amp;b=2</link>
<description><![CDATA[<p>]] > <b>unclosed <br> 99999999999999999999</p>]]></description>
{item}</item></channel></rss>"#
    )
}

fn podcast(item: &str) -> String {
    podcast_as("UTF-8", DOCTYPE, item)
}

fn accepted(html: &str) {
    let page = read(html).unwrap();
    assert_eq!(page.entries.len(), 1, "{html}");
    assert_eq!(
        page.entries[0].article.entry_id,
        "1234567890123456789012345"
    );
}

fn refused(html: &str) -> bool {
    read(html).unwrap_err() == DiscoveryFailure::NotAFeed("订阅源无法解析".into())
}

#[test]
fn podcasts_are_read() {
    for item in [
        "<itunes:duration>01:02:03</itunes:duration>",
        "<itunes:duration>3723.5</itunes:duration>",
        "<itunes:duration\n>18446744073709551615</itunes:duration>",
        "<itunes:duration/>",
        "<itunes:duration><![CDATA[00:30:00]]></itunes:duration>",
        "<itunes:duration><!-- 时长 -->00:30:00<?x 12345678901234567890?></itunes:duration>",
        "<itunes:duration>10分钟</itunes:duration>",
        "<itunes:duration>一小时</itunes:duration>",
        "<itunes:duration>about 5 &amp; a half &unknown; minutes</itunes:duration>",
        "<itunes:duration>&#49;&#x32;</itunes:duration>",
        "<itunes:duration>99999999999999999999 then 00:10:00</itunes:duration>",
        "<itunes:duration>1.99999999999999999999999999999999999999999999</itunes:duration>",
        "<itunes:duration a='>'>00:10:00</itunes:duration>",
        "<itunes:duration>00:10</itunes:duration><!-- 时长 --><itunes:author>作者</itunes:author>",
        r#"<media:thumbnail url="https://i.test/12345678901234567890.jpg?a=1&amp;b=2" time="12:05:01.123"/>"#,
        r#"<media:text type="plain" lang="en" start="00:00:03.000" end="00:00:10.000">It's</media:text>"#,
        r#"<media:text bare start = '1' x=1 end="第1秒">t</media:text>"#,
        r#"<media:text title="x start='99999999999999999999'">t</media:text>"#,
        r#"<media:text end="&#57;&unknown;99999999999999999999">t</media:text>"#,
        r#"<media:text start="&unknown; 5" start="99999999999999999999">t</media:text>"#,
        r#"<media:content url="https://i.test/a b.mp3" duration="99999999999999999999"/>"#,
        r#"<enclosure url='https://i.test/a.mp3' length="12345678901234567890123"/>"#,
        "<x:odd>\u{1}\u{1b}\0</x:odd>",
    ] {
        accepted(&podcast(item));
    }
}

#[test]
fn document_types_are_passed_over() {
    for doctype in [
        "<!DOCTYPE rss>",
        "<!doctype rss [<!ENTITY a '9>'><!-- <rss> > --><?x > ?>]>",
        "<!DOCTYPE rss [<!ELEMENT rss (channel)><!ATTLIST rss a CDATA \">\"> %pe; <!X>] >",
    ] {
        accepted(&podcast_as("UTF-8", doctype, ""));
    }
}

#[test]
fn durations_that_cannot_be_held_are_refused() {
    for item in [
        "<itunes:duration>99999999999999999999</itunes:duration>",
        "<itunes:duration>18446744073709551616</itunes:duration>",
        "<itunes:duration>18446744073709551615.9</itunes:duration>",
        "<itunes:duration>9999999999999999:00:00</itunes:duration>",
        "<itunes:duration>٣٣:٠٠:٠٠</itunes:duration>",
        "<itunes:duration>1.٣</itunes:duration>",
        "<itunes:duration>１０</itunes:duration>",
        "<itunes:duration>9999999999&#57;9999999999</itunes:duration>",
        "<itunes:duration>&#x663;</itunes:duration>",
        "<itunes:duration>&x99999999999999999999;</itunes:duration>",
        "<itunes:duration>9999999999<!-- -->9999999999</itunes:duration>",
        "<itunes:duration><![CDATA[99999999999999999999]]></itunes:duration>",
        "<itunes:duration><![CDATA[9999999999]]>9999999999</itunes:duration>",
        "<itunes:duration><![CDATA[9999999999]]><![CDATA[9999999999]]></itunes:duration>",
        "<itunes:duration a='>'>99999999999999999999</itunes:duration>",
        "<itunes:duration>99999999999999999999<b/></itunes:duration>",
        r#"<x:duration xmlns:x="http://www.itunes.com/dtds/podcast-1.0.dtd">99999999999999999999</x:duration>"#,
    ] {
        assert!(refused(&podcast(item)), "{item}");
    }
}

#[test]
fn times_that_cannot_be_held_are_refused() {
    for item in [
        r#"<media:thumbnail url="u" time="99999999999999999999"/>"#,
        r#"<media:text start="99999999999999999999">t</media:text>"#,
        r#"<media:text end = '٣'>t</media:text>"#,
        r#"<media:text end="&#1635;">t</media:text>"#,
        r#"<media:text end="&unknown;99999999999999999999">t</media:text>"#,
        r#"<media:text a="1" a='x start="99999999999999999999"'>t</media:text>"#,
        r#"<media:content><media:thumbnail url="u" time="99999999999999999999"/></media:content>"#,
    ] {
        assert!(refused(&podcast(item)), "{item}");
    }
}

#[test]
fn deep_recursion_is_refused_and_other_nesting_is_not() {
    let nested = |tag: &str, depth: usize| {
        let mut item = String::new();
        for _ in 0..depth {
            item.push_str(&format!("<{tag} url='https://i.test/a.mp3'>"));
        }
        for _ in 0..depth {
            item.push_str(&format!("</{tag}>"));
        }
        podcast(&item)
    };
    accepted(&nested("media:content", RECURSION_LIMIT));
    assert!(refused(&nested("media:content", RECURSION_LIMIT + 1)));
    assert!(refused(&nested("media:content", 200_000)));
    accepted(&nested("x:div", 3_000));
    // `rss`, `channel` and `item` are open already.
    assert!(can_be_parsed(&nested("p", NESTING_LIMIT - 3)));
    assert!(!can_be_parsed(&nested("p", NESTING_LIMIT - 2)));
    let hidden = "<itunes:category text='a'><!-- </itunes:category> -->".repeat(200);
    assert!(!can_be_parsed(&podcast(&hidden)));
    let beside = "<itunes:category text='a'><b/></itunes:category >".repeat(2_000);
    assert!(can_be_parsed(&podcast(&beside)));
}

#[test]
fn other_encodings_do_not_change_what_is_read() {
    accepted(&podcast_as("utf-8", DOCTYPE, "<x>\0</x>"));
    accepted(&podcast_as("UTF8", DOCTYPE, "<itunes:duration>10分钟</itunes:duration>"));
    assert!(!can_be_parsed(&podcast_as("utf-16", DOCTYPE, "<x>\0</x>")));
    assert!(!can_be_parsed(&podcast_as(
        "gbk",
        DOCTYPE,
        "<itunes:duration>10分钟</itunes:duration>"
    )));
    assert!(can_be_parsed(&podcast_as(
        "gbk",
        DOCTYPE,
        "<itunes:duration>00:10:00</itunes:duration>"
    )));
    assert!(!can_be_parsed("<\0?\0x"));
}

#[test]
fn feeds_are_read_up_to_markup_that_stops_the_parser() {
    for rest in ["<!x", "<![if x]>", "<?>", "<!- x -->"] {
        let deep = "<media:content>".repeat(1_000);
        accepted(&format!("{}{rest}{deep}", podcast("")));
    }
    assert!(can_be_parsed("<!-- - -- ---><rss a='\"'></rss></rss>"));
    assert!(can_be_parsed("no markup at all"));
}

#[test]
fn json_feeds_are_read_as_they_are() {
    let html = "<br>".repeat(300);
    let json = format!(
        r#"{{"version":"https://jsonfeed.org/version/1","title":"t","items":[
        {{"id":"one","url":"https://blog.test/one","content_html":"{html}"}}]}}"#
    );
    let page = read(&json).unwrap();
    assert_eq!(page.entries.len(), 1);
    assert_eq!(page.entries[0].article.entry_id, "one");
}

#[test]
fn entries_keep_the_identity_that_the_feed_gives() {
    let feed = |item: &str| {
        format!(
            r#"<rss version="2.0"><channel><title>t</title><link>https://blog.test/</link>
            <description>d</description><item>{item}</item></channel></rss>"#
        )
    };
    let id = |item: &str| {
        read(&feed(item)).unwrap().entries[0]
            .article
            .entry_id
            .clone()
    };
    assert_eq!(id("<guid>given</guid><title>t</title>"), "given");
    let linked = "<title>t</title><link>https://blog.test/one</link>";
    assert_eq!(id(linked), id(linked));
    assert!(!id(linked).is_empty());
    assert_ne!(id("<title>t</title>"), id("<title>t</title>"));
}

#[test]
fn play_times_are_told_from_what_cannot_be_held() {
    let reads = |text: &str| {
        let codes: Vec<u32> = text.chars().map(u32::from).collect();
        can_be_read(&codes)
    };
    assert!(reads("12:05:35.123"));
    assert!(reads("123.45"));
    assert!(reads(""));
    assert!(reads("5124095576030431:00:15"));
    assert!(!reads("5124095576030431:00:16"));
    assert!(!reads("5124095576030431:00:15.5"));
    assert!(reads("5124095576030431:00:14.5"));
    assert!(!reads("1:2３:45"));
    assert!(reads("1:2a:45 ３"));
    assert!(!reads("1:00:0３"));
}
