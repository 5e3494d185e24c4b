//! What feeds and archive pages list.

use vstd::prelude::*;

use crate::address::{
    host_of, link_target, on_site, parse_url, read_url, same_host, same_site, url_joined, url_parsed,
    url_read, web_url, UrlView,
};
use crate::feed_document::{
    feed_read, link_views, read_feed, FeedDocument, FeedEntry, FeedEntryView, FeedLink, FeedView,
    LinkView,
};
use crate::markup::{
    attribute, html_selected, node_views, select, Ancestor, AncestorView, HtmlNode, NodeView,
};
use crate::model::{NewArticle, NewArticleView};
use crate::number::{natural_up_to, parse_natural};
use crate::text::{
    chars_of, comes_before, contains, contains_text, drop_leading, drop_trailing, ends_with,
    ends_with_text, holds_text, is_before, join, join_parts, lemma_texts_push, lowercase, lowered,
    same_text, split, split_at_char, split_words, string_of, text_opt, texts, trim, trimmed, views,
    without_leading, without_trailing, words,
};

verus! {

#[derive(Debug, Clone, Copy, PartialEq, Eq, Structural)]
pub enum SourceKind {
    Feed,
    Archive,
}

/// A page that was fetched.
#[derive(Debug, Clone, PartialEq, Eq)]
pub struct FetchedWebClip {
    pub original_url: String,
    pub final_url: String,
    pub html: String,
}

/// An article that a source lists. Where `fetch_body` is set, its own page is
/// still to be read.
#[derive(Debug, Clone, PartialEq, Eq)]
pub struct Entry {
    pub article: NewArticle,
    pub fetch_body: bool,
}

pub ghost struct EntryView {
    pub article: NewArticleView,
    pub fetch_body: bool,
}

impl View for Entry {
    type V = EntryView;

    open spec fn view(&self) -> EntryView {
        EntryView { article: self.article@, fetch_body: self.fetch_body }
    }
}

pub open spec fn entry_views(s: Seq<Entry>) -> Seq<EntryView> {
    s.map_values(|e: Entry| e@)
}

impl Entry {
    pub fn copied(&self) -> (r: Entry)
        ensures
            r@ == self@,
    {
        Entry { article: self.article.copied(), fetch_body: self.fetch_body }
    }
}

/// What a page lists: articles, and further pages.
#[derive(Debug)]
pub struct Page {
    pub entries: Vec<Entry>,
    pub pages: Vec<String>,
}

pub ghost struct PageView {
    pub entries: Seq<EntryView>,
    pub pages: Seq<Seq<char>>,
}

impl View for Page {
    type V = PageView;

    open spec fn view(&self) -> PageView {
        PageView { entries: entry_views(self.entries@), pages: texts(self.pages@) }
    }
}

/// Why a document is of no use. What a parser refused comes with the text of
/// its error.
#[derive(Debug, PartialEq, Eq)]
pub enum DiscoveryFailure {
    NotAFeed(String),
    BadAddress(String),
    NoEntries,
    LeftTheSite,
}

pub ghost enum FailureView {
    NotAFeed(Seq<char>),
    BadAddress(Seq<char>),
    NoEntries,
    LeftTheSite,
}

impl View for DiscoveryFailure {
    type V = FailureView;

    open spec fn view(&self) -> FailureView {
        match self {
            DiscoveryFailure::NotAFeed(error) => FailureView::NotAFeed(error@),
            DiscoveryFailure::BadAddress(error) => FailureView::BadAddress(error@),
            DiscoveryFailure::NoEntries => FailureView::NoEntries,
            DiscoveryFailure::LeftTheSite => FailureView::LeftTheSite,
        }
    }
}

pub open spec fn failure_text(failure: FailureView) -> Seq<char> {
    match failure {
        FailureView::NotAFeed(error) => error,
        FailureView::BadAddress(error) => error,
        FailureView::NoEntries => "未发现历史条目"@,
        FailureView::LeftTheSite => "归档页跳转到了其他网站，已停止继续回补"@,
    }
}

impl DiscoveryFailure {
    pub fn text(self) -> (r: String)
        ensures
            r@ == failure_text(self@),
    {
        match self {
            DiscoveryFailure::NotAFeed(error) => error,
            DiscoveryFailure::BadAddress(error) => error,
            DiscoveryFailure::NoEntries => "未发现历史条目".to_owned(),
            DiscoveryFailure::LeftTheSite => "归档页跳转到了其他网站，已停止继续回补".to_owned(),
        }
    }
}

/// An address that cannot be read, with the reason.
pub open spec fn bad_address(raw: Seq<char>) -> FailureView {
    FailureView::BadAddress(url_read(raw)->Err_0)
}

// ---- feeds ------------------------------------------------------------------

/// The article that a feed entry describes. `id` is an identity that came about
/// by chance.
pub open spec fn article_of(id: Seq<char>, e: FeedEntryView) -> NewArticleView {
    NewArticleView {
        entry_id: match e.id {
            Some(known) => known,
            None => id,
        },
        url: if e.links.len() > 0 {
            Some(e.links[0])
        } else {
            None
        },
        title: e.title,
        author: if e.authors.len() > 0 {
            Some(e.authors[0])
        } else {
            None
        },
        published: if e.published is Some {
            e.published
        } else {
            e.updated
        },
        content: if e.content is Some {
            e.content
        } else {
            e.summary
        },
    }
}

pub fn entry_to_article(entry: &FeedEntry) -> (r: NewArticle)
    ensures
        r@ == article_of(entry.id@, entry@),
{
    NewArticle {
        entry_id: entry.id.clone(),
        url: if entry.links.len() > 0 {
            proof {
                assert(texts(entry.links@)[0] == entry.links@[0]@);
            }
            Some(entry.links[0].clone())
        } else {
            None
        },
        title: crate::model::copy_text(&entry.title),
        author: if entry.authors.len() > 0 {
            proof {
                assert(texts(entry.authors@)[0] == entry.authors@[0]@);
            }
            Some(entry.authors[0].clone())
        } else {
            None
        },
        published: if entry.published.is_some() { entry.published } else { entry.updated },
        content: if entry.content.is_some() {
            crate::model::copy_text(&entry.content)
        } else {
            crate::model::copy_text(&entry.summary)
        },
    }
}

/// The page that a link of the feed leads to.
pub open spec fn resolve(base: Seq<char>, href: Seq<char>) -> Option<Seq<char>> {
    link_target(href, url_joined(base, href))
}

/// Where the first link with this relation leads.
pub open spec fn related(links: Seq<LinkView>, rel: Seq<char>, base: Seq<char>) -> Option<Seq<char>>
    decreases links.len(),
{
    if links.len() == 0 {
        None
    } else if links[0].rel == Some(rel) {
        resolve(base, links[0].href)
    } else {
        related(links.skip(1), rel, base)
    }
}

/// The older page of a feed: an archive relation before a paging one.
pub open spec fn older_page(links: Seq<LinkView>, base: Seq<char>) -> Seq<Seq<char>> {
    match related(links, "prev-archive"@, base) {
        Some(url) => seq![url],
        None => match related(links, "next"@, base) {
            Some(url) => seq![url],
            None => Seq::empty(),
        },
    }
}

/// How many entries of a feed are read.
pub const FEED_ENTRY_LIMIT: usize = 2000;

pub open spec fn feed_entry(id: Seq<char>, e: FeedEntryView, base: Seq<char>) -> EntryView {
    let article = article_of(id, e);
    EntryView {
        article: NewArticleView {
            url: match article.url {
                Some(href) => resolve(base, href),
                None => None,
            },
            ..article
        },
        fetch_body: false,
    }
}

/// What a feed lists, given the identities of its entries.
pub open spec fn feed_page(feed: FeedView, ids: Seq<Seq<char>>, base: Seq<char>) -> PageView {
    PageView {
        entries: Seq::new(
            if feed.entries.len() <= FEED_ENTRY_LIMIT {
                feed.entries.len()
            } else {
                FEED_ENTRY_LIMIT as nat
            },
            |i: int| feed_entry(ids[i], feed.entries[i], base),
        ),
        pages: older_page(feed.links, base),
    }
}

pub open spec fn entry_ids(entries: Seq<FeedEntry>) -> Seq<Seq<char>> {
    entries.map_values(|e: FeedEntry| e.id@)
}

fn find_related(links: &[FeedLink], rel: &str, base: &str) -> (r: Option<String>)
    ensures
        text_opt(r) == related(link_views(links@), rel@, base@),
{
    let ghost all = link_views(links@);
    let mut i: usize = 0;
    proof {
        assert(all.skip(0) =~= all);
    }
    while i < links.len()
        invariant
            i <= links.len(),
            all == link_views(links@),
            related(all, rel@, base@) == related(all.skip(i as int), rel@, base@),
        decreases links.len() - i,
    {
        proof {
            assert(all.skip(i as int)[0] == links@[i as int]@);
            assert(all.skip(i as int).skip(1) =~= all.skip(i + 1));
        }
        let matching: bool = match &links[i].rel {
            Some(value) => same_text(value, rel),
            None => false,
        };
        if matching {
            return web_url(base, &links[i].href);
        }
        i += 1;
    }
    None
}

/// What a feed that was read from `base` lists.
pub fn page_of_feed(feed: &FeedDocument, base: &str) -> (r: Page)
    ensures
        r@ == feed_page(feed@, entry_ids(feed.entries@), base@),
{
    let mut pages: Vec<String> = Vec::new();
    match find_related(&feed.links, "prev-archive", base) {
        Some(url) => pages.push(url),
        None => match find_related(&feed.links, "next", base) {
            Some(url) => pages.push(url),
            None => {},
        },
    }
    let mut entries: Vec<Entry> = Vec::new();
    let ghost whole = feed_page(feed@, entry_ids(feed.entries@), base@);
    let mut i: usize = 0;
    while i < feed.entries.len() && i < FEED_ENTRY_LIMIT
        invariant
            i <= feed.entries.len(),
            i <= FEED_ENTRY_LIMIT,
            whole == feed_page(feed@, entry_ids(feed.entries@), base@),
            entries@.len() == i,
            forall|k: int| 0 <= k < i ==> (#[trigger] entries@[k])@ == whole.entries[k],
        decreases feed.entries.len() - i,
    {
        let mut article = entry_to_article(&feed.entries[i]);
        let url = match &article.url {
            Some(href) => web_url(base, href),
            None => None,
        };
        article.url = url;
        proof {
            assert(feed@.entries[i as int] == feed.entries@[i as int]@);
        }
        entries.push(Entry { article, fetch_body: false });
        i += 1;
    }
    let page = Page { entries, pages };
    proof {
        assert(page@.entries =~= whole.entries);
        assert(page@.pages =~= whole.pages);
    }
    page
}

/// What a fetched feed lists.
pub fn parse_feed(document: &FetchedWebClip) -> (r: Result<Page, DiscoveryFailure>)
    ensures
        match r {
            Ok(page) => feed_read(document.html@) is Ok && url_parsed(document.final_url@) is Some
                && exists|ids: Seq<Seq<char>>| #[trigger]
                feed_page(feed_read(document.html@)->Ok_0, ids, document.final_url@) == page@,
            Err(failure) => match feed_read(document.html@) {
                Err(error) => failure@ == FailureView::NotAFeed(error),
                Ok(_) => url_parsed(document.final_url@) is None && failure@ == bad_address(
                    document.final_url@,
                ),
            },
        },
{
    match read_feed(&document.html) {
        Err(error) => Err(DiscoveryFailure::NotAFeed(error)),
        Ok(feed) => {
            if let Err(error) = read_url(&document.final_url) {
                return Err(DiscoveryFailure::BadAddress(error));
            }
            let page = page_of_feed(&feed, &document.final_url);
            proof {
                assert(feed_read(document.html@) == Ok::<FeedView, Seq<char>>(feed@));
                let ids = entry_ids(feed.entries@);
                assert(feed_page(
                    feed_read(document.html@)->Ok_0,
                    ids,
                    document.final_url@,
                ) == page@);
            }
            Ok(page)
        },
    }
}

// ---- archive pages ----------------------------------------------------------

/// The text of a link to an archive.
pub open spec fn archive_text(lower: Seq<char>) -> bool {
    contains(lower, "归档"@) || contains(lower, "历史文章"@) || contains(lower, "按日期"@) || contains(
        lower,
        "archive"@,
    ) || contains(lower, "所有文章"@) || contains(lower, "全部文章"@) || contains(lower, "往期文章"@)
        || contains(lower, "all posts"@)
}

pub fn is_archive_text(lower: &str) -> (r: bool)
    ensures
        r == archive_text(lower@),
{
    let t = chars_of(lower);
    contains_text(&t, "归档") || contains_text(&t, "历史文章") || contains_text(&t, "按日期")
        || contains_text(&t, "archive") || contains_text(&t, "所有文章") || contains_text(
        &t,
        "全部文章",
    ) || contains_text(&t, "往期文章") || contains_text(&t, "all posts")
}

pub fn archive_label(text: &str) -> (r: bool)
    ensures
        r == archive_text(lowered(trim(text@))),
{
    is_archive_text(&lowercase(&trimmed(text)))
}

/// How many archive links of a home page are followed.
pub const CANDIDATE_LIMIT: usize = 6;

pub open spec fn href_of(node: NodeView) -> Seq<char> {
    match attribute(node, "href"@) {
        Some(href) => href,
        None => Seq::empty(),
    }
}

/// The archive pages that a home page's links lead to: on its own site, each
/// once, and not too many.
pub open spec fn archive_links(nodes: Seq<NodeView>, base: Seq<char>) -> Seq<Seq<char>>
    decreases nodes.len(),
{
    if nodes.len() == 0 {
        Seq::empty()
    } else {
        let found = archive_links(nodes.drop_last(), base);
        let node = nodes.last();
        let target = resolve(base, href_of(node));
        if found.len() < CANDIDATE_LIMIT && (archive_text(lowered(trim(node.text))) || attribute(
            node,
            "rel"@,
        ) == Some("archives"@)) && target is Some && on_site(
            host_of(url_parsed(base)),
            url_parsed(target->0),
        ) && !found.contains(target->0) {
            found.push(target->0)
        } else {
            found
        }
    }
}

fn href_text(node: &HtmlNode) -> (r: String)
    ensures
        r@ == href_of(node@),
{
    match node.attr("href") {
        Some(value) => value.clone(),
        None => String::new(),
    }
}

pub fn archive_candidates(html: &str, base: &str) -> (r: Vec<String>)
    ensures
        texts(r@) == (if url_parsed(base@) is Some {
            archive_links(html_selected(html@, "a[href]"@), base@)
        } else {
            Seq::empty()
        }),
{
    let mut r: Vec<String> = Vec::new();
    let host = match parse_url(base) {
        Some(parts) => parts.host,
        None => {
            proof {
                assert(texts(r@) =~= Seq::empty());
            }
            return r;
        },
    };
    let nodes = select(html, "a[href]");
    let ghost all = node_views(nodes@);
    let mut i: usize = 0;
    proof {
        assert(texts(r@) =~= Seq::<Seq<char>>::empty());
    }
    while i < nodes.len()
        invariant
            i <= nodes.len(),
            all == node_views(nodes@),
            url_parsed(base@) is Some,
            text_opt(host) == host_of(url_parsed(base@)),
            texts(r@) == archive_links(all.take(i as int), base@),
        decreases nodes.len() - i,
    {
        proof {
            assert(all.take(i + 1).drop_last() =~= all.take(i as int));
            assert(all.take(i + 1).last() == nodes@[i as int]@);
        }
        let node = &nodes[i];
        if r.len() < CANDIDATE_LIMIT && (archive_label(&node.text) || node.attr_is(
            "rel",
            "archives",
        )) {
            match web_url(base, &href_text(node)) {
                Some(url) => {
                    if same_site(&host, &url) && !holds_text(&r, &url) {
                        proof {
                            lemma_texts_push(r@, url);
                        }
                        r.push(url);
                    }
                },
                None => {},
            }
        }
        i += 1;
    }
    proof {
        assert(all.take(all.len() as int) =~= all);
    }
    r
}

/// A part of a path that writes a year.
pub open spec fn year_part(part: Seq<char>) -> bool {
    part.len() == 4 && natural_up_to(part, 65_535) is Some && 1900 <= natural_up_to(
        part,
        65_535,
    )->0 <= 2200
}

/// A part of a path that may stand behind the year in the address of a list.
pub open spec fn index_part(part: Seq<char>) -> bool {
    part.len() == 0 || part == "index.html"@ || (part.len() <= 2 && natural_up_to(
        part,
        255,
    ) is Some)
}

/// The parts of a path, without slashes at both ends.
pub open spec fn path_parts(path: Seq<char>) -> Seq<Seq<char>> {
    split(drop_trailing(drop_leading(path, '/'), '/'), '/')
}

/// Where the first year stands.
pub open spec fn year_position(parts: Seq<Seq<char>>) -> Option<int>
    decreases parts.len(),
{
    if parts.len() == 0 {
        None
    } else {
        match year_position(parts.drop_last()) {
            Some(i) => Some(i),
            None => if year_part(parts.last()) {
                Some(parts.len() - 1)
            } else {
                None
            },
        }
    }
}

/// Whether a path has a year in it, and whether it then is the path of a list.
pub open spec fn dated(path: Seq<char>) -> (bool, bool) {
    let parts = path_parts(path);
    match year_position(parts) {
        Some(i) => (
            true,
            forall|k: int| i < k < parts.len() ==> index_part(#[trigger] parts[k]),
        ),
        None => (false, false),
    }
}

fn is_year(part: &[char]) -> (r: bool)
    ensures
        r == year_part(part@),
{
    if part.len() != 4 {
        return false;
    }
    match parse_natural(part, 65_535) {
        Some(year) => 1900 <= year && year <= 2200,
        None => false,
    }
}

fn is_index_part(part: &[char]) -> (r: bool)
    ensures
        r == index_part(part@),
{
    part.len() == 0 || same_text(&string_of(part), "index.html") || (part.len() <= 2
        && parse_natural(part, 255).is_some())
}

proof fn lemma_year_position(parts: Seq<Seq<char>>)
    ensures
        match year_position(parts) {
            Some(i) => 0 <= i < parts.len(),
            None => true,
        },
    decreases parts.len(),
{
    if parts.len() > 0 {
        lemma_year_position(parts.drop_last());
    }
}

pub fn date_path(path: &str) -> (r: (bool, bool))
    ensures
        r == dated(path@),
{
    let chars = chars_of(path);
    let open = without_leading(&chars, '/');
    let inner = without_trailing(&open, '/');
    let parts = split_at_char(&inner, '/');
    let ghost all = views(parts@);
    let mut year: Option<usize> = None;
    let mut i: usize = 0;
    while i < parts.len()
        invariant
            i <= parts.len(),
            all == views(parts@),
            match year {
                Some(k) => k < i && year_position(all.take(i as int)) == Some(k as int),
                None => year_position(all.take(i as int)) is None,
            },
        decreases parts.len() - i,
    {
        proof {
            assert(all.take(i + 1).drop_last() =~= all.take(i as int));
            assert(all.take(i + 1).last() == parts@[i as int]@);
        }
        if year.is_none() && is_year(&parts[i]) {
            year = Some(i);
        }
        i += 1;
    }
    proof {
        assert(all.take(all.len() as int) =~= all);
    }
    match year {
        None => (false, false),
        Some(at) => {
            let mut k: usize = at + 1;
            while k < parts.len()
                invariant
                    at < k <= parts.len(),
                    all == views(parts@),
                    all == path_parts(path@),
                    year_position(all) == Some(at as int),
                    forall|j: int| at < j < k ==> index_part(#[trigger] all[j]),
                decreases parts.len() - k,
            {
                proof {
                    assert(all[k as int] == parts@[k as int]@);
                }
                if !is_index_part(&parts[k]) {
                    return (true, false);
                }
                k += 1;
            }
            (true, true)
        },
    }
}

/// What a link on an archive page is.
#[derive(Debug, Clone, Copy, PartialEq, Eq, Structural)]
pub enum LinkRole {
    Ignored,
    OlderPage,
    Article,
}

pub open spec fn older_text(lower: Seq<char>) -> bool {
    contains(lower, "上月"@) || contains(lower, "上一月"@) || contains(lower, "下一页"@) || contains(
        lower,
        "更早"@,
    ) || contains(lower, "older"@) || contains(lower, "previous month"@) || contains(
        lower,
        "next page"@,
    )
}

pub open spec fn page_furniture(a: AncestorView) -> bool {
    a.name == "nav"@ || a.name == "footer"@ || a.name == "aside"@ || a.name == "header"@
}

pub open spec fn title_class(class: Seq<char>) -> bool {
    class == "post-title"@ || class == "entry-title"@ || class == "archive-item"@ || class
        == "archive__item-title"@ || class == "post-link"@ || class == "archive-article-title"@
        || class == "archive-post-title"@
}

pub open spec fn title_element(a: AncestorView) -> bool {
    a.name == "h2"@ || a.name == "h3"@ || exists|i: int|
        0 <= i < a.classes.len() && title_class(#[trigger] a.classes[i])
}

pub open spec fn within(node: NodeView, p: spec_fn(AncestorView) -> bool) -> bool {
    exists|i: int| 0 <= i < node.ancestors.len() && p(#[trigger] node.ancestors[i])
}

/// A part of a path that no article has.
pub open spec fn listing_part(part: Seq<char>) -> bool {
    part == "tag"@ || part == "tags"@ || part == "category"@ || part == "categories"@ || part
        == "search"@
}

/// The role of a link with a title, on an archive page.
pub open spec fn link_role(
    node: NodeView,
    path: Seq<char>,
    lower_title: Seq<char>,
    sampled: bool,
) -> LinkRole {
    let (has_year, is_list) = dated(path);
    if attribute(node, "rel"@) == Some("next"@) || attribute(node, "rel"@) == Some("prev"@)
        || older_text(lower_title) || is_list {
        LinkRole::OlderPage
    } else if within(node, |a: AncestorView| page_furniture(a)) {
        LinkRole::Ignored
    } else if exists|i: int|
        0 <= i < split(path, '/').len() && listing_part(#[trigger] split(path, '/')[i]) {
        LinkRole::Ignored
    } else if !(has_year || sampled || within(node, |a: AncestorView| title_element(a))) {
        LinkRole::Ignored
    } else if ends_with(path, "/archives.html"@) {
        LinkRole::Ignored
    } else {
        LinkRole::Article
    }
}

fn is_older_text(lower: &str) -> (r: bool)
    ensures
        r == older_text(lower@),
{
    let t = chars_of(lower);
    contains_text(&t, "上月") || contains_text(&t, "上一月") || contains_text(&t, "下一页")
        || contains_text(&t, "更早") || contains_text(&t, "older") || contains_text(
        &t,
        "previous month",
    ) || contains_text(&t, "next page")
}

fn is_furniture(a: &Ancestor) -> (r: bool)
    ensures
        r == page_furniture(a@),
{
    same_text(&a.name, "nav") || same_text(&a.name, "footer") || same_text(&a.name, "aside")
        || same_text(&a.name, "header")
}

fn is_title_class(class: &str) -> (r: bool)
    ensures
        r == title_class(class@),
{
    same_text(class, "post-title") || same_text(class, "entry-title") || same_text(
        class,
        "archive-item",
    ) || same_text(class, "archive__item-title") || same_text(class, "post-link") || same_text(
        class,
        "archive-article-title",
    ) || same_text(class, "archive-post-title")
}

fn is_title_element(a: &Ancestor) -> (r: bool)
    ensures
        r == title_element(a@),
{
    if same_text(&a.name, "h2") || same_text(&a.name, "h3") {
        return true;
    }
    let mut i: usize = 0;
    while i < a.classes.len()
        invariant
            i <= a.classes.len(),
            forall|k: int| 0 <= k < i ==> !title_class(#[trigger] a@.classes[k]),
        decreases a.classes.len() - i,
    {
        if is_title_class(&a.classes[i]) {
            proof {
                assert(title_class(a@.classes[i as int]));
            }
            return true;
        }
        i += 1;
    }
    false
}

fn in_furniture(node: &HtmlNode) -> (r: bool)
    ensures
        r == within(node@, |a: AncestorView| page_furniture(a)),
{
    let ghost p = |a: AncestorView| page_furniture(a);
    let mut i: usize = 0;
    while i < node.ancestors.len()
        invariant
            i <= node.ancestors.len(),
            p == (|a: AncestorView| page_furniture(a)),
            forall|k: int| 0 <= k < i ==> !p(#[trigger] node@.ancestors[k]),
        decreases node.ancestors.len() - i,
    {
        if is_furniture(&node.ancestors[i]) {
            proof {
                assert(p(node@.ancestors[i as int]));
            }
            return true;
        }
        i += 1;
    }
    false
}

fn in_title(node: &HtmlNode) -> (r: bool)
    ensures
        r == within(node@, |a: AncestorView| title_element(a)),
{
    let ghost p = |a: AncestorView| title_element(a);
    let mut i: usize = 0;
    while i < node.ancestors.len()
        invariant
            i <= node.ancestors.len(),
            p == (|a: AncestorView| title_element(a)),
            forall|k: int| 0 <= k < i ==> !p(#[trigger] node@.ancestors[k]),
        decreases node.ancestors.len() - i,
    {
        if is_title_element(&node.ancestors[i]) {
            proof {
                assert(p(node@.ancestors[i as int]));
            }
            return true;
        }
        i += 1;
    }
    false
}

fn has_listing_part(path: &[char]) -> (r: bool)
    ensures
        r == (exists|i: int|
            0 <= i < split(path@, '/').len() && listing_part(#[trigger] split(path@, '/')[i])),
{
    let parts = split_at_char(path, '/');
    let mut i: usize = 0;
    while i < parts.len()
        invariant
            i <= parts.len(),
            views(parts@) == split(path@, '/'),
            forall|k: int| 0 <= k < i ==> !listing_part(#[trigger] split(path@, '/')[k]),
        decreases parts.len() - i,
    {
        let part = string_of(&parts[i]);
        proof {
            assert(views(parts@)[i as int] == parts@[i as int]@);
        }
        if same_text(&part, "tag") || same_text(&part, "tags") || same_text(&part, "category")
            || same_text(&part, "categories") || same_text(&part, "search") {
            proof {
                assert(listing_part(split(path@, '/')[i as int]));
            }
            return true;
        }
        i += 1;
    }
    false
}

/// Decides what a titled link is, given its path, its lowered title and
/// whether the feed lists it.
pub fn role_of(node: &HtmlNode, path: &str, lower_title: &str, sampled: bool) -> (r: LinkRole)
    ensures
        r == link_role(node@, path@, lower_title@, sampled),
{
    let (has_year, is_list) = date_path(path);
    let chars = chars_of(path);
    if node.attr_is("rel", "next") || node.attr_is("rel", "prev") || is_older_text(lower_title)
        || is_list {
        return LinkRole::OlderPage;
    }
    if in_furniture(node) {
        return LinkRole::Ignored;
    }
    if has_listing_part(&chars) {
        return LinkRole::Ignored;
    }
    if !(has_year || sampled || in_title(node)) {
        return LinkRole::Ignored;
    }
    if ends_with_text(&chars, "/archives.html") {
        return LinkRole::Ignored;
    }
    LinkRole::Article
}

/// What has been gathered from the links of an archive page so far.
pub ghost struct Gathered {
    pub seen: Seq<Seq<char>>,
    pub entries: Seq<EntryView>,
    pub pages: Seq<Seq<char>>,
}

/// The text of a link, with single spaces between its words.
pub open spec fn link_title(node: NodeView) -> Seq<char> {
    join(words(node.text), " "@)
}

/// An article of which only the address and the title are known.
pub open spec fn listed(url: Seq<char>, title: Seq<char>) -> EntryView {
    EntryView {
        article: NewArticleView {
            entry_id: url,
            url: Some(url),
            title: Some(title),
            author: None,
            published: None,
            content: None,
        },
        fetch_body: true,
    }
}

/// A link that leads to another page of the site and was not met before.
pub open spec fn fresh_link(node: NodeView, page: Seq<char>, seen: Seq<Seq<char>>) -> bool {
    let target = resolve(page, href_of(node));
    target is Some && on_site(host_of(url_parsed(page)), url_parsed(target->0)) && target->0 != page
        && !seen.contains(target->0)
}

pub open spec fn path_of(url: Option<UrlView>) -> Seq<char> {
    match url {
        Some(parts) => parts.path,
        None => Seq::empty(),
    }
}

pub open spec fn gather(
    nodes: Seq<NodeView>,
    page: Seq<char>,
    samples: Seq<Seq<char>>,
) -> Gathered
    decreases nodes.len(),
{
    if nodes.len() == 0 {
        Gathered { seen: Seq::empty(), entries: Seq::empty(), pages: Seq::empty() }
    } else {
        let so_far = gather(nodes.drop_last(), page, samples);
        let node = nodes.last();
        if !fresh_link(node, page, so_far.seen) {
            so_far
        } else {
            let url = resolve(page, href_of(node))->0;
            let title = link_title(node);
            let noted = Gathered { seen: so_far.seen.push(url), ..so_far };
            if title.len() == 0 {
                noted
            } else {
                match link_role(
                    node,
                    path_of(url_parsed(url)),
                    lowered(title),
                    samples.contains(url),
                ) {
                    LinkRole::Ignored => noted,
                    LinkRole::OlderPage => Gathered { pages: noted.pages.push(url), ..noted },
                    LinkRole::Article => Gathered {
                        entries: noted.entries.push(listed(url, title)),
                        ..noted
                    },
                }
            }
        }
    }
}

/// How many texts at the front come after `x`.
pub open spec fn rank(sorted: Seq<Seq<char>>, x: Seq<char>) -> nat
    decreases sorted.len(),
{
    if sorted.len() == 0 || !comes_before(x, sorted[0]) {
        0
    } else {
        1 + rank(sorted.skip(1), x)
    }
}

/// `x` put in its place among texts in descending order.
pub open spec fn placed(sorted: Seq<Seq<char>>, x: Seq<char>) -> Seq<Seq<char>> {
    let at = rank(sorted, x) as int;
    if at < sorted.len() && sorted[at] == x {
        sorted
    } else {
        sorted.insert(at, x)
    }
}

/// The texts in descending order, each once.
pub open spec fn descending(all: Seq<Seq<char>>) -> Seq<Seq<char>>
    decreases all.len(),
{
    if all.len() == 0 {
        Seq::empty()
    } else {
        placed(descending(all.drop_last()), all.last())
    }
}

pub open spec fn in_descending_order(all: Seq<Seq<char>>) -> bool {
    forall|i: int, j: int| 0 <= i < j < all.len() ==> comes_before(#[trigger] all[j], #[trigger] all[i])
}

proof fn lemma_rank(sorted: Seq<Seq<char>>, x: Seq<char>)
    ensures
        rank(sorted, x) <= sorted.len(),
        forall|k: int| 0 <= k < rank(sorted, x) ==> comes_before(x, #[trigger] sorted[k]),
        rank(sorted, x) < sorted.len() ==> !comes_before(x, sorted[rank(sorted, x) as int]),
    decreases sorted.len(),
{
    if sorted.len() > 0 && comes_before(x, sorted[0]) {
        let rest = sorted.skip(1);
        lemma_rank(rest, x);
        let n = rank(rest, x) as int;
        assert forall|k: int| 0 <= k < rank(sorted, x) implies comes_before(
            x,
            #[trigger] sorted[k],
        ) by {
            if k > 0 {
                assert(sorted[k] == rest[k - 1]);
            }
        }
        if n < rest.len() {
            assert(rest[n] == sorted[n + 1]);
        }
    }
}

proof fn lemma_before_total(a: Seq<char>, b: Seq<char>)
    ensures
        comes_before(a, b) || comes_before(b, a) || a == b,
    decreases a.len(),
{
    if a.len() > 0 && b.len() > 0 && a[0] == b[0] {
        lemma_before_total(a.skip(1), b.skip(1));
        if a.skip(1) == b.skip(1) {
            assert(a =~= seq![a[0]] + a.skip(1));
            assert(b =~= seq![b[0]] + b.skip(1));
        }
    } else if a.len() == 0 && b.len() == 0 {
        assert(a =~= b);
    }
}

proof fn lemma_before_transitive(a: Seq<char>, b: Seq<char>, c: Seq<char>)
    requires
        comes_before(a, b),
        comes_before(b, c),
    ensures
        comes_before(a, c),
    decreases a.len(),
{
    if a.len() > 0 && a[0] == b[0] && b[0] == c[0] {
        lemma_before_transitive(a.skip(1), b.skip(1), c.skip(1));
    }
}

proof fn lemma_placed(sorted: Seq<Seq<char>>, x: Seq<char>)
    requires
        in_descending_order(sorted),
    ensures
        in_descending_order(placed(sorted, x)),
        forall|y: Seq<char>| #[trigger]
            placed(sorted, x).contains(y) <==> sorted.contains(y) || y == x,
{
    lemma_rank(sorted, x);
    let at = rank(sorted, x) as int;
    let r = placed(sorted, x);
    if at < sorted.len() && sorted[at] == x {
        assert(sorted.contains(x));
    } else {
        assert forall|i: int, j: int| 0 <= i < j < r.len() implies comes_before(
            #[trigger] r[j],
            #[trigger] r[i],
        ) by {
            if i < at && j == at {
                assert(comes_before(x, sorted[i]));
            } else if i == at {
                assert(r[j] == sorted[j - 1]);
                lemma_before_total(x, sorted[at]);
                if j - 1 > at {
                    lemma_before_transitive(sorted[j - 1], sorted[at], x);
                }
            } else {
                let a = if i < at { i } else { i - 1 };
                let b = if j < at { j } else { j - 1 };
                assert(r[i] == sorted[a] && r[j] == sorted[b]);
            }
        }
        assert forall|y: Seq<char>| #[trigger] r.contains(y) <==> sorted.contains(y) || y == x by {
            assert(r[at] == x);
            if sorted.contains(y) {
                let k = choose|k: int| 0 <= k < sorted.len() && sorted[k] == y;
                assert(r[if k < at { k } else { k + 1 }] == y);
            }
            if r.contains(y) && y != x {
                let k = choose|k: int| 0 <= k < r.len() && r[k] == y;
                assert(sorted[if k < at { k } else { k - 1 }] == y);
            }
        }
    }
}

/// The further pages of an archive are visited from the latest address down,
/// and none is lost or repeated.
pub proof fn further_pages_are_in_descending_order(all: Seq<Seq<char>>)
    ensures
        in_descending_order(descending(all)),
        forall|y: Seq<char>| #[trigger] descending(all).contains(y) <==> all.contains(y),
    decreases all.len(),
{
    if all.len() > 0 {
        let rest = all.drop_last();
        further_pages_are_in_descending_order(rest);
        lemma_placed(descending(rest), all.last());
        assert forall|y: Seq<char>| #[trigger] descending(all).contains(y) <==> all.contains(y) by {
            assert(descending(all) == placed(descending(rest), all.last()));
            assert(placed(descending(rest), all.last()).contains(y) <==> descending(rest).contains(y) || y == all.last());
            if rest.contains(y) {
                let k = choose|k: int| 0 <= k < rest.len() && rest[k] == y;
                assert(all[k] == y);
            }
            if all.contains(y) && y != all.last() {
                let k = choose|k: int| 0 <= k < all.len() && all[k] == y;
                assert(rest[k] == y);
            }
            assert(all[all.len() - 1] == all.last());
        }
    }
}

fn place(sorted: &mut Vec<String>, x: String)
    ensures
        texts(final(sorted)@) == placed(texts(old(sorted)@), x@),
{
    let ghost all = texts(sorted@);
    let wanted = chars_of(&x);
    let mut i: usize = 0;
    proof {
        assert(all.skip(0) =~= all);
        lemma_rank(all, x@);
    }
    while i < sorted.len() && is_before(&wanted, &chars_of(&sorted[i]))
        invariant
            i <= sorted.len(),
            wanted@ == x@,
            all == texts(sorted@),
            rank(all, x@) == i + rank(all.skip(i as int), x@),
        decreases sorted.len() - i,
    {
        proof {
            assert(all.skip(i as int)[0] == all[i as int]);
            assert(all.skip(i as int).skip(1) =~= all.skip(i + 1));
        }
        i += 1;
    }
    proof {
        if i < sorted@.len() {
            assert(all.skip(i as int)[0] == all[i as int]);
        }
        assert(rank(all, x@) == i);
    }
    if i < sorted.len() && same_text(&sorted[i], &x) {
        return ;
    }
    sorted.insert(i, x);
    proof {
        assert(texts(sorted@) =~= all.insert(i as int, x@));
    }
}

/// What an archive page lists, given its links.
pub open spec fn archive_page(
    nodes: Seq<NodeView>,
    page: Seq<char>,
    samples: Seq<Seq<char>>,
) -> PageView {
    let all = gather(nodes, page, samples);
    PageView { entries: all.entries, pages: descending(all.pages) }
}

fn title_text(node: &HtmlNode) -> (r: String)
    ensures
        r@ == link_title(node@),
{
    string_of(&join_parts(&split_words(&chars_of(&node.text)), " "))
}

/// What the links of the archive page at `page` list. `samples` are the
/// addresses that the feed lists.
pub fn read_links(nodes: &[HtmlNode], page: &str, samples: &[String]) -> (r: Page)
    ensures
        r@ == archive_page(node_views(nodes@), page@, texts(samples@)),
{
    let host = match parse_url(page) {
        Some(parts) => parts.host,
        None => None,
    };
    let ghost all = node_views(nodes@);
    let mut seen: Vec<String> = Vec::new();
    let mut entries: Vec<Entry> = Vec::new();
    let mut older: Vec<String> = Vec::new();
    let mut sorted: Vec<String> = Vec::new();
    let mut i: usize = 0;
    proof {
        assert(texts(seen@) =~= Seq::<Seq<char>>::empty());
        assert(texts(older@) =~= Seq::<Seq<char>>::empty());
        assert(texts(sorted@) =~= Seq::<Seq<char>>::empty());
        assert(entry_views(entries@) =~= Seq::<EntryView>::empty());
        assert(all.take(0) =~= Seq::<NodeView>::empty());
    }
    while i < nodes.len()
        invariant
            i <= nodes.len(),
            all == node_views(nodes@),
            text_opt(host) == host_of(url_parsed(page@)),
            texts(seen@) == gather(all.take(i as int), page@, texts(samples@)).seen,
            entry_views(entries@) == gather(all.take(i as int), page@, texts(samples@)).entries,
            texts(older@) == gather(all.take(i as int), page@, texts(samples@)).pages,
            texts(sorted@) == descending(texts(older@)),
        decreases nodes.len() - i,
    {
        proof {
            assert(all.take(i + 1).drop_last() =~= all.take(i as int));
            assert(all.take(i + 1).last() == nodes@[i as int]@);
        }
        let node = &nodes[i];
        i += 1;
        match web_url(page, &href_text(node)) {
            None => {},
            Some(url) => {
                let read = parse_url(&url);
                let fresh: bool = match &read {
                    Some(parts) => same_host(&parts.host, &host) && !same_text(&url, page)
                        && !holds_text(&seen, &url),
                    None => false,
                };
                if fresh {
                    proof {
                        lemma_texts_push(seen@, url);
                    }
                    seen.push(url.clone());
                    let title = title_text(node);
                    if chars_of(&title).len() > 0 {
                        let path = match read {
                            Some(parts) => parts.path,
                            None => String::new(),
                        };
                        let lower = lowercase(&title);
                        match role_of(node, &path, &lower, holds_text(samples, &url)) {
                            LinkRole::Ignored => {},
                            LinkRole::OlderPage => {
                                proof {
                                    lemma_texts_push(older@, url);
                                    assert(texts(older@).push(url@).drop_last() =~= texts(older@));
                                }
                                place(&mut sorted, url.clone());
                                older.push(url);
                            },
                            LinkRole::Article => {
                                let article = NewArticle {
                                    entry_id: url.clone(),
                                    url: Some(url),
                                    title: Some(title),
                                    author: None,
                                    published: None,
                                    content: None,
                                };
                                let entry = Entry { article, fetch_body: true };
                                let ghost known = entries@;
                                entries.push(entry);
                                proof {
                                    assert(entry_views(entries@) =~= entry_views(known).push(
                                        entry@,
                                    ));
                                }
                            },
                        }
                    }
                }
            },
        }
    }
    proof {
        assert(all.take(all.len() as int) =~= all);
    }
    Page { entries, pages: sorted }
}

/// What an archive page lists. `samples` are the addresses that the feed
/// lists.
pub fn parse_archive(document: &FetchedWebClip, samples: &[String]) -> (r: Result<
    Page,
    DiscoveryFailure,
>)
    ensures
        ({
            let page = archive_page(
                html_selected(document.html@, "a[href]"@),
                document.final_url@,
                texts(samples@),
            );
            match r {
                Ok(found) => url_parsed(document.final_url@) is Some && found@ == page && (
                page.entries.len() > 0 || page.pages.len() > 0),
                Err(failure) => if url_parsed(document.final_url@) is None {
                    failure@ == bad_address(document.final_url@)
                } else {
                    failure@ is NoEntries && page.entries.len() == 0 && page.pages.len() == 0
                },
            }
        }),
{
    if let Err(error) = read_url(&document.final_url) {
        return Err(DiscoveryFailure::BadAddress(error));
    }
    let nodes = select(&document.html, "a[href]");
    let page = read_links(&nodes, &document.final_url, samples);
    if page.entries.len() == 0 && page.pages.len() == 0 {
        return Err(DiscoveryFailure::NoEntries);
    }
    Ok(page)
}

} // verus!
