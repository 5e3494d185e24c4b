//! Where the links of archive pages, home pages and feeds lead.

use vstd::prelude::*;

use crate::address::{host_of, on_site, url_parsed, url_read};
use crate::feed_document::{FeedView, LinkView};
use crate::history_discovery::discovery::unusable_feed;
use crate::history_discovery::page::{
    archive_links, archive_page, archive_text, bad_address, dated, failure_text, feed_page,
    further_pages_are_in_descending_order, gather, href_of, index_part, link_role, link_title,
    listed, listing_part, older_page, page_furniture, path_of, path_parts, related, resolve,
    title_class, title_element, within, year_part, year_position, EntryView, FailureView,
};
use crate::markup::{attribute, AncestorView, NodeView};
use crate::number::natural_up_to;
use crate::text::{contains, ends_with, join, lowered, split, trim, words};

verus! {

/// A link on the page at `page` leads to `url`, another page of the same site.
pub open spec fn leads_to(node: NodeView, page: Seq<char>, url: Seq<char>) -> bool {
    resolve(page, href_of(node)) == Some(url) && url != page && on_site(
        host_of(url_parsed(page)),
        url_parsed(url),
    )
}

proof fn lemma_not_gathered(
    nodes: Seq<NodeView>,
    page: Seq<char>,
    samples: Seq<Seq<char>>,
    url: Seq<char>,
)
    requires
        forall|j: int| 0 <= j < nodes.len() ==> !leads_to(#[trigger] nodes[j], page, url),
    ensures
        !gather(nodes, page, samples).seen.contains(url),
        !gather(nodes, page, samples).pages.contains(url),
        forall|k: int|
            0 <= k < gather(nodes, page, samples).entries.len() ==> (#[trigger] gather(
                nodes,
                page,
                samples,
            ).entries[k]).article.url != Some(url),
    decreases nodes.len(),
{
    if nodes.len() > 0 {
        let rest = nodes.drop_last();
        assert forall|j: int| 0 <= j < rest.len() implies !leads_to(
            #[trigger] rest[j],
            page,
            url,
        ) by {
            assert(rest[j] == nodes[j]);
        }
        lemma_not_gathered(rest, page, samples, url);
        assert(!leads_to(nodes[nodes.len() - 1], page, url));
        let before = gather(rest, page, samples);
        let after = gather(nodes, page, samples);
        assert forall|k: int| 0 <= k < after.entries.len() implies (
        #[trigger] after.entries[k]).article.url != Some(url) by {
            if k < before.entries.len() {
                assert(after.entries[k] == before.entries[k]);
            }
        }
    }
}

proof fn lemma_first_link(
    nodes: Seq<NodeView>,
    page: Seq<char>,
    samples: Seq<Seq<char>>,
    i: int,
    url: Seq<char>,
)
    requires
        0 <= i < nodes.len(),
        leads_to(nodes[i], page, url),
        forall|j: int| 0 <= j < i ==> !leads_to(#[trigger] nodes[j], page, url),
    ensures
        ({
            let all = gather(nodes, page, samples);
            let title = link_title(nodes[i]);
            let role = link_role(
                nodes[i],
                path_of(url_parsed(url)),
                lowered(title),
                samples.contains(url),
            );
            &&& all.seen.contains(url)
            &&& all.pages.contains(url) <==> title.len() > 0 && role is OlderPage
            &&& title.len() > 0 && role is Article ==> all.entries.contains(listed(url, title))
            &&& forall|k: int|
                0 <= k < all.entries.len() && (#[trigger] all.entries[k]).article.url == Some(url)
                    ==> title.len() > 0 && role is Article && all.entries[k] == listed(url, title)
        }),
    decreases nodes.len(),
{
    let rest = nodes.drop_last();
    let before = gather(rest, page, samples);
    let all = gather(nodes, page, samples);
    let title = link_title(nodes[i]);
    let last = nodes.last();
    if i < nodes.len() - 1 {
        assert(rest[i] == nodes[i]);
        assert forall|j: int| 0 <= j < i implies !leads_to(#[trigger] rest[j], page, url) by {
            assert(rest[j] == nodes[j]);
        }
        lemma_first_link(rest, page, samples, i, url);
        if all.seen.len() > before.seen.len() {
            let other = resolve(page, href_of(last))->0;
            assert(other != url);
            let k = choose|k: int| 0 <= k < before.seen.len() && before.seen[k] == url;
            assert(all.seen[k] == url);
            if before.pages.contains(url) {
                let p = choose|p: int| 0 <= p < before.pages.len() && before.pages[p] == url;
                assert(all.pages[p] == url);
            }
            if all.pages.contains(url) {
                let p = choose|p: int| 0 <= p < all.pages.len() && all.pages[p] == url;
                assert(before.pages[p] == url);
            }
            if before.entries.contains(listed(url, title)) {
                let e = choose|e: int|
                    0 <= e < before.entries.len() && before.entries[e] == listed(url, title);
                assert(all.entries[e] == listed(url, title));
            }
            assert forall|k: int|
                0 <= k < all.entries.len() && (#[trigger] all.entries[k]).article.url == Some(
                    url,
                ) implies k < before.entries.len() && before.entries[k] == all.entries[k] by {}
        }
    } else {
        assert forall|j: int| 0 <= j < rest.len() implies !leads_to(
            #[trigger] rest[j],
            page,
            url,
        ) by {
            assert(rest[j] == nodes[j]);
        }
        lemma_not_gathered(rest, page, samples, url);
        assert(all.seen[all.seen.len() - 1] == url);
        if all.pages.len() > before.pages.len() {
            assert(all.pages[all.pages.len() - 1] == url);
        }
        if all.entries.len() > before.entries.len() {
            assert(all.entries[all.entries.len() - 1] == listed(url, title));
        }
        assert forall|k: int|
            0 <= k < all.entries.len() && (#[trigger] all.entries[k]).article.url == Some(
                url,
            ) implies k == before.entries.len() by {
            if k < before.entries.len() {
                assert(all.entries[k] == before.entries[k]);
            }
        }
    }
}

/// Of the links to an address the first counts. It leads to a further page of
/// the archive exactly where it stands as the next or the previous page, is
/// named as one (an older, a previous month or a next page), or has the path
/// of a list of a year, a month or a day. It lists an article exactly where it
/// does not, stands neither in the navigation nor in the head, foot or margin
/// of the page, is no list of a tag, a category or a search, and is told as an
/// article by its date, by the feed, or by the heading that it stands in.
pub proof fn labelled_links_lead_to_further_pages(
    nodes: Seq<NodeView>,
    page: Seq<char>,
    samples: Seq<Seq<char>>,
    i: int,
    url: Seq<char>,
)
    requires
        0 <= i < nodes.len(),
        leads_to(nodes[i], page, url),
        forall|j: int| 0 <= j < i ==> !leads_to(#[trigger] nodes[j], page, url),
        link_title(nodes[i]).len() > 0,
    ensures
        ({
            let found = archive_page(nodes, page, samples);
            let node = nodes[i];
            let title = link_title(node);
            let low = lowered(title);
            let path = path_of(url_parsed(url));
            let labelled = contains(low, "上月"@) || contains(low, "上一月"@) || contains(
                low,
                "下一页"@,
            ) || contains(low, "更早"@) || contains(low, "older"@) || contains(
                low,
                "previous month"@,
            ) || contains(low, "next page"@);
            let further = attribute(node, "rel"@) == Some("next"@) || attribute(node, "rel"@)
                == Some("prev"@) || labelled || dated(path).1;
            let framed = exists|a: int|
                0 <= a < node.ancestors.len() && ((#[trigger] node.ancestors[a]).name == "nav"@
                    || node.ancestors[a].name == "footer"@ || node.ancestors[a].name == "aside"@
                    || node.ancestors[a].name == "header"@);
            let listing = exists|k: int|
                0 <= k < split(path, '/').len() && ((#[trigger] split(path, '/')[k]) == "tag"@
                    || split(path, '/')[k] == "tags"@ || split(path, '/')[k] == "category"@
                    || split(path, '/')[k] == "categories"@ || split(path, '/')[k]
                    == "search"@);
            let headed = exists|a: int|
                0 <= a < node.ancestors.len() && ((#[trigger] node.ancestors[a]).name == "h2"@
                    || node.ancestors[a].name == "h3"@ || node.ancestors[a].classes.contains(
                    "post-title"@,
                ) || node.ancestors[a].classes.contains("entry-title"@)
                    || node.ancestors[a].classes.contains("archive-item"@)
                    || node.ancestors[a].classes.contains("archive__item-title"@)
                    || node.ancestors[a].classes.contains("post-link"@)
                    || node.ancestors[a].classes.contains("archive-article-title"@)
                    || node.ancestors[a].classes.contains("archive-post-title"@));
            let article = !further && !framed && !listing && (dated(path).0 || samples.contains(
                url,
            ) || headed) && !ends_with(path, "/archives.html"@);
            &&& found.pages.contains(url) <==> further
            &&& article ==> found.entries.contains(
                (EntryView {
                    article: crate::model::NewArticleView {
                        entry_id: url,
                        url: Some(url),
                        title: Some(title),
                        author: None,
                        published: None,
                        content: None,
                    },
                    fetch_body: true,
                }),
            )
            &&& !article ==> forall|k: int|
                0 <= k < found.entries.len() ==> (#[trigger] found.entries[k]).article.url != Some(
                    url,
                )
        }),
{
    let node = nodes[i];
    let path = path_of(url_parsed(url));
    lemma_first_link(nodes, page, samples, i, url);
    further_pages_are_in_descending_order(gather(nodes, page, samples).pages);
    let parts = split(path, '/');
    if exists|a: int|
        0 <= a < node.ancestors.len() && ((#[trigger] node.ancestors[a]).name == "nav"@
            || node.ancestors[a].name == "footer"@ || node.ancestors[a].name == "aside"@
            || node.ancestors[a].name == "header"@) {
        let a = choose|a: int|
            0 <= a < node.ancestors.len() && ((#[trigger] node.ancestors[a]).name == "nav"@
                || node.ancestors[a].name == "footer"@ || node.ancestors[a].name == "aside"@
                || node.ancestors[a].name == "header"@);
        assert(page_furniture(node.ancestors[a]));
        assert(within(node, |a: AncestorView| page_furniture(a)));
    }
    if exists|k: int|
        0 <= k < parts.len() && ((#[trigger] parts[k]) == "tag"@ || parts[k] == "tags"@ || parts[k]
            == "category"@ || parts[k] == "categories"@ || parts[k] == "search"@) {
        let k = choose|k: int|
            0 <= k < parts.len() && ((#[trigger] parts[k]) == "tag"@ || parts[k] == "tags"@
                || parts[k] == "category"@ || parts[k] == "categories"@ || parts[k] == "search"@);
        assert(listing_part(parts[k]));
    } else {
        assert forall|k: int| 0 <= k < parts.len() implies !listing_part(#[trigger] parts[k]) by {}
    }
    assert forall|a: AncestorView| #[trigger] title_element(a) <==> (a.name == "h2"@ || a.name
        == "h3"@ || a.classes.contains("post-title"@) || a.classes.contains("entry-title"@)
        || a.classes.contains("archive-item"@) || a.classes.contains("archive__item-title"@)
        || a.classes.contains("post-link"@) || a.classes.contains("archive-article-title"@)
        || a.classes.contains("archive-post-title"@)) by {
        lemma_title_classes(a.classes);
    }
    assert forall|a: int| 0 <= a < node.ancestors.len() && title_element(
        #[trigger] node.ancestors[a],
    ) implies within(node, |a: AncestorView| title_element(a)) by {}
}

proof fn lemma_title_classes(classes: Seq<Seq<char>>)
    ensures
        (exists|i: int| 0 <= i < classes.len() && title_class(#[trigger] classes[i])) <==> (
        classes.contains("post-title"@) || classes.contains("entry-title"@) || classes.contains(
            "archive-item"@,
        ) || classes.contains("archive__item-title"@) || classes.contains("post-link"@)
            || classes.contains("archive-article-title"@) || classes.contains(
            "archive-post-title"@,
        )),
{
    if exists|i: int| 0 <= i < classes.len() && title_class(#[trigger] classes[i]) {
        let i = choose|i: int| 0 <= i < classes.len() && title_class(#[trigger] classes[i]);
        assert(classes.contains(classes[i]));
    }
    assert forall|c: Seq<char>| #[trigger] classes.contains(c) && title_class(c) implies exists|
        i: int,
    |
        0 <= i < classes.len() && title_class(#[trigger] classes[i]) by {
        let i = choose|i: int| 0 <= i < classes.len() && classes[i] == c;
        assert(title_class(classes[i]));
    }
    assert(title_class("post-title"@) && title_class("entry-title"@) && title_class(
        "archive-item"@,
    ) && title_class("archive__item-title"@) && title_class("post-link"@) && title_class(
        "archive-article-title"@,
    ) && title_class("archive-post-title"@));
}

/// A path has a year in it where one of its parts is a number from 1900 to 2200
/// in four digits. It is then that of a list where nothing but numbers of one
/// or two digits, index files and empty parts follow the first of them.
pub proof fn dated_paths_name_a_year(path: Seq<char>, i: int)
    requires
        0 <= i < path_parts(path).len(),
        path_parts(path)[i].len() == 4,
        natural_up_to(path_parts(path)[i], 65_535) matches Some(year) && 1900 <= year <= 2200,
        forall|j: int|
            0 <= j < i ==> !((#[trigger] path_parts(path)[j]).len() == 4 && (natural_up_to(
                path_parts(path)[j],
                65_535,
            ) matches Some(year) && 1900 <= year <= 2200)),
    ensures
        dated(path).0,
        dated(path).1 <==> forall|k: int|
            i < k < path_parts(path).len() ==> ((#[trigger] path_parts(path)[k]).len() == 0
                || path_parts(path)[k] == "index.html"@ || (path_parts(path)[k].len() <= 2
                && natural_up_to(path_parts(path)[k], 255) is Some)),
{
    let parts = path_parts(path);
    lemma_first_year(parts, i);
    assert forall|k: int| i < k < parts.len() implies index_part(#[trigger] parts[k]) == (
    parts[k].len() == 0 || parts[k] == "index.html"@ || (parts[k].len() <= 2 && natural_up_to(
        parts[k],
        255,
    ) is Some)) by {}
}

/// A path without a year has no date.
pub proof fn paths_without_a_year_are_undated(path: Seq<char>)
    requires
        forall|j: int|
            0 <= j < path_parts(path).len() ==> !((#[trigger] path_parts(path)[j]).len() == 4 && (
            natural_up_to(path_parts(path)[j], 65_535) matches Some(year) && 1900 <= year
                <= 2200)),
    ensures
        dated(path) == (false, false),
{
    lemma_no_year(path_parts(path));
}

proof fn lemma_no_year(parts: Seq<Seq<char>>)
    requires
        forall|j: int| 0 <= j < parts.len() ==> !year_part(#[trigger] parts[j]),
    ensures
        year_position(parts) is None,
    decreases parts.len(),
{
    if parts.len() > 0 {
        let rest = parts.drop_last();
        assert forall|j: int| 0 <= j < rest.len() implies !year_part(#[trigger] rest[j]) by {
            assert(rest[j] == parts[j]);
        }
        lemma_no_year(rest);
        assert(!year_part(parts[parts.len() - 1]));
    }
}

proof fn lemma_first_year(parts: Seq<Seq<char>>, i: int)
    requires
        0 <= i < parts.len(),
        year_part(parts[i]),
        forall|j: int| 0 <= j < i ==> !year_part(#[trigger] parts[j]),
    ensures
        year_position(parts) == Some(i),
    decreases parts.len(),
{
    let rest = parts.drop_last();
    if i < rest.len() {
        assert(rest[i] == parts[i]);
        assert forall|j: int| 0 <= j < i implies !year_part(#[trigger] rest[j]) by {
            assert(rest[j] == parts[j]);
        }
        lemma_first_year(rest, i);
    } else {
        assert forall|j: int| 0 <= j < rest.len() implies !year_part(#[trigger] rest[j]) by {
            assert(rest[j] == parts[j]);
        }
        lemma_no_year(rest);
    }
}

/// A link of a home page that is named or marked as its archive, and leads to a
/// page of the same site.
pub open spec fn names_an_archive(node: NodeView, base: Seq<char>, url: Seq<char>) -> bool {
    let low = lowered(trim(node.text));
    &&& resolve(base, href_of(node)) == Some(url)
    &&& on_site(host_of(url_parsed(base)), url_parsed(url))
    &&& (contains(low, "归档"@) || contains(low, "历史文章"@) || contains(low, "按日期"@) || contains(
        low,
        "archive"@,
    ) || contains(low, "所有文章"@) || contains(low, "全部文章"@) || contains(low, "往期文章"@)
        || contains(low, "all posts"@) || attribute(node, "rel"@) == Some("archives"@))
}

/// The archives that a home page names are the first six addresses of its own
/// site behind links that are called an archive, or all posts, or marked as
/// archives; each once.
pub proof fn home_pages_name_their_archives(nodes: Seq<NodeView>, base: Seq<char>)
    ensures
        ({
            let found = archive_links(nodes, base);
            &&& found.len() <= 6
            &&& forall|a: int, b: int|
                0 <= a < b < found.len() ==> #[trigger] found[a] != #[trigger] found[b]
            &&& forall|k: int|
                0 <= k < found.len() ==> exists|i: int|
                    0 <= i < nodes.len() && names_an_archive(#[trigger] nodes[i], base, #[trigger] found[k])
            &&& forall|i: int, url: Seq<char>|
                0 <= i < nodes.len() && #[trigger] names_an_archive(nodes[i], base, url)
                    && found.len() < 6 ==> found.contains(url)
        }),
    decreases nodes.len(),
{
    if nodes.len() > 0 {
        let rest = nodes.drop_last();
        home_pages_name_their_archives(rest, base);
        let before = archive_links(rest, base);
        let found = archive_links(nodes, base);
        let last = nodes.len() - 1;
        assert forall|k: int| 0 <= k < found.len() implies exists|i: int|
            0 <= i < nodes.len() && names_an_archive(#[trigger] nodes[i], base, #[trigger] found[k]) by {
            if k < before.len() {
                assert(found[k] == before[k]);
                let i = choose|i: int|
                    0 <= i < rest.len() && names_an_archive(#[trigger] rest[i], base, before[k]);
                assert(rest[i] == nodes[i]);
                assert(names_an_archive(nodes[i], base, found[k]));
            } else {
                assert(names_an_archive(nodes[last], base, found[k]));
            }
        }
        assert forall|i: int, url: Seq<char>|
            0 <= i < nodes.len() && #[trigger] names_an_archive(nodes[i], base, url) && found.len()
                < 6 implies found.contains(url) by {
            if i < last {
                assert(rest[i] == nodes[i]);
                assert(names_an_archive(rest[i], base, url));
                let k = choose|k: int| 0 <= k < before.len() && before[k] == url;
                assert(found[k] == url);
            } else if before.contains(url) {
                let k = choose|k: int| 0 <= k < before.len() && before[k] == url;
                assert(found[k] == url);
            } else {
                assert(found[found.len() - 1] == url);
            }
        }
    }
}

/// A feed lists its first two thousand entries in their order, each with its
/// own identity, title, first author and first link; the day it was published
/// goes before the day of its last change, and its content before its summary.
/// Their pages need not be fetched.
pub proof fn feeds_list_their_entries(feed: FeedView, ids: Seq<Seq<char>>, base: Seq<char>, i: int)
    requires
        0 <= i < feed.entries.len(),
        i < 2000,
    ensures
        ({
            let found = feed_page(feed, ids, base);
            let e = feed.entries[i];
            let a = found.entries[i].article;
            &&& found.entries.len() == (if feed.entries.len() <= 2000 {
                feed.entries.len()
            } else {
                2000
            })
            &&& !found.entries[i].fetch_body
            &&& a.title == e.title
            &&& e.id is Some ==> a.entry_id == e.id->0
            &&& e.id is None ==> a.entry_id == ids[i]
            &&& e.links.len() > 0 ==> a.url == resolve(base, e.links[0])
            &&& e.links.len() == 0 ==> a.url is None
            &&& e.authors.len() > 0 ==> a.author == Some(e.authors[0])
            &&& e.authors.len() == 0 ==> a.author is None
            &&& e.published is Some ==> a.published == e.published
            &&& e.published is None ==> a.published == e.updated
            &&& e.content is Some ==> a.content == e.content
            &&& e.content is None ==> a.content == e.summary
        }),
{
}

/// The older page of a feed is the one that its first archive link gives, or
/// else the one that its first paging link gives.
pub proof fn feeds_lead_to_their_older_page(links: Seq<LinkView>, base: Seq<char>, i: int)
    requires
        0 <= i < links.len(),
    ensures
        links[i].rel == Some("prev-archive"@) && (forall|j: int|
            0 <= j < i ==> (#[trigger] links[j]).rel != Some("prev-archive"@)) && resolve(
            base,
            links[i].href,
        ) is Some ==> older_page(links, base) == seq![resolve(base, links[i].href)->0],
        links[i].rel == Some("next"@) && (forall|j: int|
            0 <= j < i ==> (#[trigger] links[j]).rel != Some("next"@)) && (forall|j: int|
            0 <= j < links.len() ==> (#[trigger] links[j]).rel != Some("prev-archive"@))
            && resolve(base, links[i].href) is Some ==> older_page(links, base) == seq![
            resolve(base, links[i].href)->0,
        ],
        (forall|j: int|
            0 <= j < links.len() ==> (#[trigger] links[j]).rel != Some("prev-archive"@)
                && links[j].rel != Some("next"@)) ==> older_page(links, base).len() == 0,
{
    lemma_related(links, "prev-archive"@, base, i);
    lemma_related(links, "next"@, base, i);
}

proof fn lemma_related(links: Seq<LinkView>, rel: Seq<char>, base: Seq<char>, i: int)
    ensures
        0 <= i < links.len() && links[i].rel == Some(rel) && (forall|j: int|
            0 <= j < i ==> (#[trigger] links[j]).rel != Some(rel)) ==> related(links, rel, base)
            == resolve(base, links[i].href),
        (forall|j: int| 0 <= j < links.len() ==> (#[trigger] links[j]).rel != Some(rel)) ==> related(
            links,
            rel,
            base,
        ) is None,
    decreases links.len(),
{
    if links.len() > 0 {
        let rest = links.skip(1);
        lemma_related(rest, rel, base, i - 1);
        assert forall|j: int| 0 <= j < rest.len() implies #[trigger] rest[j] == links[j + 1] by {}
        if i > 0 && i < links.len() {
            assert(rest[i - 1] == links[i]);
        }
    }
}

/// A link leads where its `href` attribute says, and is called by its words
/// with single blanks between them.
pub proof fn links_are_read_from_their_attribute(node: NodeView)
    ensures
        attribute(node, "href"@) matches Some(href) ==> href_of(node) == href,
        attribute(node, "href"@) is None ==> href_of(node).len() == 0,
        link_title(node) == join(words(node.text), " "@),
{
}

/// A label is that of an archive where it speaks of one, or of all posts.
pub proof fn archives_are_told_by_their_label(lower: Seq<char>)
    ensures
        archive_text(lower) <==> contains(lower, "归档"@) || contains(lower, "历史文章"@) || contains(
            lower,
            "按日期"@,
        ) || contains(lower, "archive"@) || contains(lower, "所有文章"@) || contains(
            lower,
            "全部文章"@,
        ) || contains(lower, "往期文章"@) || contains(lower, "all posts"@),
{
}

/// A failure is told by its own reason, by what was not found, or by where the
/// search had led.
pub proof fn failures_of_discovery_are_told(error: Seq<char>, raw: Seq<char>)
    ensures
        failure_text(FailureView::NotAFeed(error)) == error,
        failure_text(FailureView::BadAddress(error)) == error,
        failure_text(FailureView::NoEntries) == "未发现历史条目"@,
        failure_text(FailureView::LeftTheSite) == "归档页跳转到了其他网站，已停止继续回补"@,
        url_read(raw) matches Err(reason) ==> bad_address(raw) == FailureView::BadAddress(reason),
        unusable_feed(raw) == (if url_parsed(raw) is None {
            bad_address(raw)
        } else {
            FailureView::BadAddress("网页地址无效"@)
        }),
{
}

} // verus!
