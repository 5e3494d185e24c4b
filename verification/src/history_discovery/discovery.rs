//! Finding the archive of a feed's site, one fetch at a time.
//!
//! `Opening::begin` takes the fetched feed and names the home page to fetch;
//! `Opening::home_fetched` then gives a `Discovery`, which names the pages to
//! probe one after the other and takes in what was fetched for each.

use vstd::prelude::*;

use crate::address::{
    feed_mirror, host_of, is_feed_mirror, join_url, on_site, parse_url, read_url, same_site, url_joined,
    url_parsed, web_url, UrlView,
};
use crate::feed_document::{feed_read, link_views, read_feed, FeedDocument, FeedLink, FeedView, LinkView};
use crate::history_discovery::page::{
    archive_candidates, archive_links, archive_page, bad_address, entry_ids, entry_views, feed_page,
    page_of_feed, parse_archive, resolve, DiscoveryFailure, Entry, EntryView, FailureView, FetchedWebClip,
    Page, PageView, SourceKind,
};
use crate::history_discovery::pager::{Pager, PagerView};
use crate::markup::html_selected;
use crate::text::{
    chars_of, contains, contains_text, holds_text, lemma_texts_push, same_text, text_opt, texts,
};

verus! {

/// A feed that was read, before its home page was fetched.
#[derive(Debug)]
pub struct Opening {
    pub feed_url: String,
    pub final_url: String,
    pub page: Page,
    pub home: String,
}

pub ghost struct OpeningView {
    pub feed_url: Seq<char>,
    pub final_url: Seq<char>,
    pub page: PageView,
    pub home: Seq<char>,
}

impl View for Opening {
    type V = OpeningView;

    open spec fn view(&self) -> OpeningView {
        OpeningView {
            feed_url: self.feed_url@,
            final_url: self.final_url@,
            page: self.page@,
            home: self.home@,
        }
    }
}

/// A link of a feed that may lead to its home page.
pub open spec fn leads_home(link: LinkView) -> bool {
    (link.rel is None || link.rel == Some("alternate"@)) && (link.media_type is None || contains(
        link.media_type->0,
        "html"@,
    ))
}

/// Where the first link home leads.
pub open spec fn home_link(links: Seq<LinkView>, base: Seq<char>) -> Option<Seq<char>>
    decreases links.len(),
{
    if links.len() == 0 {
        None
    } else if leads_home(links[0]) {
        resolve(base, links[0].href)
    } else {
        home_link(links.skip(1), base)
    }
}

pub open spec fn plain_of(url: Option<UrlView>) -> Option<Seq<char>> {
    match url {
        Some(parts) => Some(parts.plain),
        None => None,
    }
}

/// The address of the first article that a feed lists.
pub open spec fn first_article(entries: Seq<EntryView>) -> Option<Seq<char>> {
    if entries.len() > 0 {
        entries[0].article.url
    } else {
        None
    }
}

/// The home page of a feed: the one it names, else the root of its first
/// article's site, else the root of its own.
pub open spec fn home_page(
    links: Seq<LinkView>,
    entries: Seq<EntryView>,
    base: Seq<char>,
) -> Option<Seq<char>> {
    let by_article = match first_article(entries) {
        Some(url) => plain_of(url_joined(url, "/"@)),
        None => None,
    };
    match home_link(links, base) {
        Some(url) => Some(url),
        None => match by_article {
            Some(url) => Some(url),
            None => plain_of(url_joined(base, "/"@)),
        },
    }
}

pub open spec fn opened(
    feed_url: Seq<char>,
    final_url: Seq<char>,
    feed: FeedView,
    ids: Seq<Seq<char>>,
) -> Option<OpeningView> {
    let page = feed_page(feed, ids, final_url);
    match home_page(feed.links, page.entries, final_url) {
        Some(home) => if url_parsed(final_url) is Some {
            Some(OpeningView { feed_url, final_url, page, home })
        } else {
            None
        },
        None => None,
    }
}

/// A feed whose own address cannot be read, or has no home page below it.
pub open spec fn unusable_feed(final_url: Seq<char>) -> FailureView {
    if url_parsed(final_url) is None {
        bad_address(final_url)
    } else {
        FailureView::BadAddress("网页地址无效"@)
    }
}

pub open spec fn opening_view(opening: Result<Opening, DiscoveryFailure>) -> Option<OpeningView> {
    match opening {
        Ok(value) => Some(value@),
        Err(_) => None,
    }
}

fn is_home_link(link: &FeedLink) -> (r: bool)
    ensures
        r == leads_home(link@),
{
    let related: bool = match &link.rel {
        None => true,
        Some(rel) => same_text(rel, "alternate"),
    };
    let readable: bool = match &link.media_type {
        None => true,
        Some(kind) => contains_text(&chars_of(kind), "html"),
    };
    related && readable
}

fn find_home_link(links: &[FeedLink], base: &str) -> (r: Option<String>)
    ensures
        text_opt(r) == home_link(link_views(links@), base@),
{
    let ghost all = link_views(links@);
    let mut i: usize = 0;
    proof {
        assert(all.skip(0) =~= all);
    }
    while i < links.len()
        invariant
            i <= links.len(),
            all == link_views(links@),
            home_link(all, base@) == home_link(all.skip(i as int), base@),
        decreases links.len() - i,
    {
        proof {
            assert(all.skip(i as int)[0] == links@[i as int]@);
            assert(all.skip(i as int).skip(1) =~= all.skip(i + 1));
        }
        if is_home_link(&links[i]) {
            return web_url(base, &links[i].href);
        }
        i += 1;
    }
    None
}

fn joined_text(base: &str, href: &str) -> (r: Option<String>)
    ensures
        text_opt(r) == plain_of(url_joined(base@, href@)),
{
    match join_url(base, href) {
        Some(parts) => Some(parts.plain),
        None => None,
    }
}

fn first_url(entries: &[Entry]) -> (r: Option<String>)
    ensures
        text_opt(r) == first_article(entry_views(entries@)),
{
    if entries.len() > 0 {
        proof {
            assert(entry_views(entries@)[0] == entries@[0]@);
        }
        crate::model::copy_text(&entries[0].article.url)
    } else {
        None
    }
}

impl Opening {
    /// Reads what the feed lists. A feed whose own address cannot be joined
    /// with a path has no home page.
    pub fn of_feed(feed_url: &str, final_url: &str, feed: &FeedDocument) -> (r: Result<
        Opening,
        DiscoveryFailure,
    >)
        ensures
            opening_view(r) == opened(feed_url@, final_url@, feed@, entry_ids(feed.entries@)),
            r matches Err(failure) ==> failure@ == unusable_feed(final_url@),
    {
        if let Err(error) = read_url(final_url) {
            return Err(DiscoveryFailure::BadAddress(error));
        }
        let page = page_of_feed(feed, final_url);
        let by_article: Option<String> = match first_url(&page.entries) {
            Some(url) => joined_text(&url, "/"),
            None => None,
        };
        let home: Option<String> = match find_home_link(&feed.links, final_url) {
            Some(url) => Some(url),
            None => match by_article {
                Some(url) => Some(url),
                None => joined_text(final_url, "/"),
            },
        };
        match home {
            Some(home) => Ok(
                Opening {
                    feed_url: feed_url.to_owned(),
                    final_url: final_url.to_owned(),
                    page,
                    home,
                },
            ),
            None => Err(DiscoveryFailure::BadAddress("网页地址无效".to_owned())),
        }
    }

    /// Reads the feed that was fetched from `feed_url`.
    pub fn begin(feed_url: &str, document: &FetchedWebClip) -> (r: Result<
        Opening,
        DiscoveryFailure,
    >)
        ensures
            match feed_read(document.html@) {
                Err(error) => r matches Err(failure) && failure@ == FailureView::NotAFeed(error),
                Ok(feed) => exists|ids: Seq<Seq<char>>|
                    #![trigger opened(feed_url@, document.final_url@, feed, ids)]
                    opening_view(r) == opened(feed_url@, document.final_url@, feed, ids) && (
                    r matches Err(failure) ==> failure@ == unusable_feed(document.final_url@)),
            },
    {
        match read_feed(&document.html) {
            Err(error) => Err(DiscoveryFailure::NotAFeed(error)),
            Ok(feed) => {
                let r = Opening::of_feed(feed_url, &document.final_url, &feed);
                proof {
                    assert(feed_read(document.html@) == Ok::<FeedView, Seq<char>>(feed@));
                    let ids = entry_ids(feed.entries@);
                    assert(opening_view(r) == opened(
                        feed_url@,
                        document.final_url@,
                        feed_read(document.html@)->Ok_0,
                        ids,
                    ));
                }
                r
            },
        }
    }
}

// ---- candidates -------------------------------------------------------------

/// The candidates with an address on the feed's own site added.
pub open spec fn with_candidate(
    candidates: Seq<Seq<char>>,
    host: Option<Seq<char>>,
    address: Option<Seq<char>>,
) -> Seq<Seq<char>> {
    if address is Some && on_site(host, url_parsed(address->0)) && !candidates.contains(address->0) {
        candidates.push(address->0)
    } else {
        candidates
    }
}

/// The candidates with the usual addresses of an archive below `base` added.
pub open spec fn with_usual_paths(
    candidates: Seq<Seq<char>>,
    host: Option<Seq<char>>,
    base: Seq<char>,
) -> Seq<Seq<char>> {
    let a = with_candidate(candidates, host, plain_of(url_joined(base, "/archives.html"@)));
    let b = with_candidate(a, host, plain_of(url_joined(base, "/archive.html"@)));
    let c = with_candidate(b, host, plain_of(url_joined(base, "/archives"@)));
    let d = with_candidate(c, host, plain_of(url_joined(base, "/archive"@)));
    with_candidate(d, host, plain_of(url_joined(base, "/blog/archives.html"@)))
}

/// The first article's address, where it is the publisher's own.
pub open spec fn publisher(entries: Seq<EntryView>) -> Option<Seq<char>> {
    match first_article(entries) {
        Some(url) => match url_parsed(url) {
            Some(parts) => if feed_mirror(parts.host) {
                None
            } else {
                Some(url)
            },
            None => None,
        },
        None => None,
    }
}

/// The addresses whose sites may hold the archive. A mirror of the feed does
/// only where nothing else is known.
pub open spec fn archive_bases(entries: Seq<EntryView>, base: Seq<char>) -> Seq<Seq<char>> {
    let host = host_of(url_parsed(base));
    match publisher(entries) {
        Some(url) => if !feed_mirror(host) && host_of(url_parsed(url)) != host {
            seq![url, base]
        } else {
            seq![url]
        },
        None => seq![base],
    }
}

/// All pages to probe: those that the home page links to, then the usual ones.
pub open spec fn all_candidates(linked: Seq<Seq<char>>, entries: Seq<EntryView>, base: Seq<char>) -> Seq<
    Seq<char>,
> {
    let host = host_of(url_parsed(base));
    let bases = archive_bases(entries, base);
    let first = with_usual_paths(linked, host, bases[0]);
    if bases.len() > 1 {
        with_usual_paths(first, host, bases[1])
    } else {
        first
    }
}

fn add_candidate(candidates: &mut Vec<String>, host: &Option<String>, base: &str, path: &str)
    ensures
        texts(final(candidates)@) == with_candidate(
            texts(old(candidates)@),
            text_opt(*host),
            plain_of(url_joined(base@, path@)),
        ),
{
    match joined_text(base, path) {
        Some(url) => {
            if same_site(host, &url) && !holds_text(candidates.as_slice(), &url) {
                proof {
                    lemma_texts_push(candidates@, url);
                }
                candidates.push(url);
            }
        },
        None => {},
    }
}

fn add_usual_paths(candidates: &mut Vec<String>, host: &Option<String>, base: &str)
    ensures
        texts(final(candidates)@) == with_usual_paths(
            texts(old(candidates)@),
            text_opt(*host),
            base@,
        ),
{
    add_candidate(candidates, host, base, "/archives.html");
    add_candidate(candidates, host, base, "/archive.html");
    add_candidate(candidates, host, base, "/archives");
    add_candidate(candidates, host, base, "/archive");
    add_candidate(candidates, host, base, "/blog/archives.html");
}

fn same_optional(a: &Option<String>, b: &Option<String>) -> (r: bool)
    ensures
        r == (text_opt(*a) == text_opt(*b)),
{
    match (a, b) {
        (Some(x), Some(y)) => same_text(x, y),
        (None, None) => true,
        _ => false,
    }
}

/// The pages to probe, given those that the home page links to.
pub fn collect_candidates(linked: Vec<String>, entries: &[Entry], base: &str) -> (r: Vec<String>)
    ensures
        texts(r@) == all_candidates(texts(linked@), entry_views(entries@), base@),
{
    let host: Option<String> = match parse_url(base) {
        Some(parts) => parts.host,
        None => None,
    };
    let mut candidates = linked;
    let mut add_own: bool = true;
    match first_url(entries) {
        Some(url) => match parse_url(&url) {
            Some(parts) => {
                if !is_feed_mirror(&parts.host) {
                    add_usual_paths(&mut candidates, &host, &url);
                    add_own = !is_feed_mirror(&host) && !same_optional(&parts.host, &host);
                }
            },
            None => {},
        },
        None => {},
    }
    if add_own {
        add_usual_paths(&mut candidates, &host, base);
    }
    candidates
}

// ---- probing ----------------------------------------------------------------

/// How many pages are probed at most.
pub const PROBE_LIMIT: usize = 6;

/// How many articles make a page an archive.
pub const ARCHIVE_ENTRIES: usize = 2;

/// A search for the archive that is under way.
#[derive(Debug)]
pub struct Discovery {
    pub opening: Opening,
    pub candidates: Vec<String>,
    pub checked: Vec<String>,
    pub rounds: usize,
    pub failed: bool,
}

pub ghost struct DiscoveryView {
    pub opening: OpeningView,
    pub candidates: Seq<Seq<char>>,
    pub checked: Seq<Seq<char>>,
    pub rounds: nat,
    pub failed: bool,
}

impl View for Discovery {
    type V = DiscoveryView;

    open spec fn view(&self) -> DiscoveryView {
        DiscoveryView {
            opening: self.opening@,
            candidates: texts(self.candidates@),
            checked: texts(self.checked@),
            rounds: self.rounds as nat,
            failed: self.failed,
        }
    }
}

/// The search once the home page was fetched, or could not be.
pub open spec fn started(opening: OpeningView, home: Option<(Seq<char>, Seq<char>)>) -> DiscoveryView {
    let linked = match home {
        Some((html, final_url)) => if url_parsed(final_url) is Some {
            archive_links(html_selected(html, "a[href]"@), final_url)
        } else {
            Seq::empty()
        },
        None => Seq::empty(),
    };
    DiscoveryView {
        opening,
        candidates: all_candidates(linked, opening.page.entries, opening.final_url),
        checked: Seq::empty(),
        rounds: 0,
        failed: home is None,
    }
}

pub open spec fn fetched(document: Option<FetchedWebClip>) -> Option<(Seq<char>, Seq<char>)> {
    match document {
        Some(page) => Some((page.html@, page.final_url@)),
        None => None,
    }
}

impl Opening {
    /// Goes on to probe once the home page was fetched, or could not be.
    pub fn home_fetched(self, homepage: Option<FetchedWebClip>) -> (r: Discovery)
        ensures
            r@ == started(self@, fetched(homepage)),
    {
        let failed: bool = homepage.is_none();
        let linked: Vec<String> = match &homepage {
            Some(page) => archive_candidates(&page.html, &page.final_url),
            None => Vec::new(),
        };
        proof {
            if failed {
                assert(texts(linked@) =~= Seq::<Seq<char>>::empty());
            }
        }
        let candidates = collect_candidates(linked, &self.page.entries, &self.final_url);
        let checked: Vec<String> = Vec::new();
        proof {
            assert(texts(checked@) =~= Seq::<Seq<char>>::empty());
        }
        Discovery { opening: self, candidates, checked, rounds: 0, failed }
    }
}

/// The search and the page that is probed next, if one is: the first
/// candidate that was not probed before.
pub open spec fn next_probe(s: DiscoveryView) -> (DiscoveryView, Option<Seq<char>>)
    decreases PROBE_LIMIT - s.rounds,
{
    if s.rounds >= PROBE_LIMIT || s.candidates.len() == 0 {
        (s, None)
    } else {
        let url = s.candidates[0];
        let rest = DiscoveryView {
            candidates: s.candidates.skip(1),
            rounds: s.rounds + 1,
            ..s
        };
        if s.checked.contains(url) {
            next_probe(rest)
        } else {
            (DiscoveryView { checked: s.checked.push(url), ..rest }, Some(url))
        }
    }
}

/// The addresses of the articles that the feed lists.
pub open spec fn sampled(entries: Seq<EntryView>) -> Seq<Seq<char>>
    decreases entries.len(),
{
    if entries.len() == 0 {
        Seq::empty()
    } else {
        let rest = sampled(entries.drop_last());
        match entries.last().article.url {
            Some(url) => rest.push(url),
            None => rest,
        }
    }
}

fn sample_urls(entries: &[Entry]) -> (r: Vec<String>)
    ensures
        texts(r@) == sampled(entry_views(entries@)),
{
    let ghost all = entry_views(entries@);
    let mut r: Vec<String> = Vec::new();
    let mut i: usize = 0;
    proof {
        assert(texts(r@) =~= Seq::<Seq<char>>::empty());
    }
    while i < entries.len()
        invariant
            i <= entries.len(),
            all == entry_views(entries@),
            texts(r@) == sampled(all.take(i as int)),
        decreases entries.len() - i,
    {
        proof {
            assert(all.take(i + 1).drop_last() =~= all.take(i as int));
            assert(all.take(i + 1).last() == entries@[i as int]@);
        }
        match &entries[i].article.url {
            Some(url) => {
                let copy = url.clone();
                proof {
                    lemma_texts_push(r@, copy);
                }
                r.push(copy);
            },
            None => {},
        }
        i += 1;
    }
    proof {
        assert(all.take(all.len() as int) =~= all);
    }
    r
}

/// What came of a probe.
pub ghost enum Verdict {
    /// The candidate is no address, so the search cannot go on.
    Unusable,
    /// The page cannot be read as an archive of this site.
    Unreachable,
    Dismissed,
    /// The page is an archive.
    Archive(PageView),
    /// The page is none, but links to pages that may be.
    Further(PageView),
}

/// How a probed page is judged.
pub open spec fn verdict(
    s: DiscoveryView,
    candidate: Seq<char>,
    document: Option<(Seq<char>, Seq<char>)>,
) -> Verdict {
    match document {
        None => Verdict::Unreachable,
        Some((html, final_url)) => {
            let page = archive_page(
                html_selected(html, "a[href]"@),
                final_url,
                sampled(s.opening.page.entries),
            );
            if url_parsed(candidate) is None {
                Verdict::Unusable
            } else if !on_site(host_of(url_parsed(candidate)), url_parsed(final_url)) {
                Verdict::Unreachable
            } else if page.entries.len() >= ARCHIVE_ENTRIES {
                Verdict::Archive(page)
            } else if page.entries.len() == 0 && page.pages.len() == 0 {
                Verdict::Dismissed
            } else {
                Verdict::Further(page)
            }
        },
    }
}

/// The search after a probe that found no archive.
pub open spec fn after_probe(s: DiscoveryView, v: Verdict) -> DiscoveryView {
    match v {
        Verdict::Unreachable => DiscoveryView { failed: true, ..s },
        Verdict::Further(page) => DiscoveryView { candidates: page.pages + s.candidates, ..s },
        _ => s,
    }
}

/// The pager that reads on from an archive page.
pub open spec fn archive_pager(
    s: DiscoveryView,
    candidate: Seq<char>,
    final_url: Seq<char>,
    page: PageView,
) -> PagerView {
    PagerView {
        kind: SourceKind::Archive,
        description: "自动检测：使用归档页 "@ + final_url,
        pending: page.pages + s.candidates,
        visited: seq![final_url, candidate],
    }
}

/// What a search without an archive found out.
pub open spec fn summary(failed: bool, paged: bool) -> Seq<char> {
    (if failed {
        "归档页检测未完成或不可访问"@
    } else {
        "未发现可验证的归档页"@
    }) + (if paged {
        "；使用 RSS/Atom 历史分页。"@
    } else {
        "；订阅源未提供历史分页，只能读取当前条目。"@
    })
}

/// The pager that reads the feed's own pages.
pub open spec fn feed_pager(s: DiscoveryView) -> PagerView {
    PagerView {
        kind: SourceKind::Feed,
        description: summary(s.failed, s.opening.page.pages.len() > 0),
        pending: s.opening.page.pages,
        visited: seq![s.opening.feed_url, s.opening.final_url],
    }
}

fn copy_texts(all: &[String]) -> (r: Vec<String>)
    ensures
        texts(r@) == texts(all@),
{
    let mut r: Vec<String> = Vec::new();
    let mut i: usize = 0;
    while i < all.len()
        invariant
            i <= all.len(),
            r@.len() == i,
            forall|k: int| 0 <= k < i ==> (#[trigger] r@[k])@ == all@[k]@,
        decreases all.len() - i,
    {
        r.push(all[i].clone());
        i += 1;
    }
    proof {
        assert(texts(r@) =~= texts(all@));
    }
    r
}

fn chained(front: Vec<String>, back: &[String]) -> (r: Vec<String>)
    ensures
        texts(r@) == texts(front@) + texts(back@),
{
    let mut r = front;
    let mut copy = copy_texts(back);
    let ghost start = r@;
    let ghost tail = copy@;
    r.append(&mut copy);
    proof {
        assert(r@ =~= start + tail);
        assert(texts(r@) =~= texts(start) + texts(tail));
    }
    r
}

impl Discovery {
    /// The page to probe next. There is none once enough pages were probed or
    /// no candidate is left.
    pub fn next_probe(&mut self) -> (r: Option<String>)
        ensures
            final(self)@ == next_probe(old(self)@).0,
            text_opt(r) == next_probe(old(self)@).1,
    {
        let ghost start = self@;
        while self.rounds < PROBE_LIMIT && self.candidates.len() > 0
            invariant
                start == old(self)@,
                next_probe(self@) == next_probe(start),
            decreases PROBE_LIMIT - self.rounds,
        {
            let ghost before = self@;
            let url = self.candidates.remove(0);
            self.rounds = self.rounds + 1;
            proof {
                assert(texts(self.candidates@) =~= before.candidates.skip(1));
                assert(url@ == before.candidates[0]);
            }
            if !holds_text(&self.checked, &url) {
                let copy = url.clone();
                proof {
                    lemma_texts_push(self.checked@, copy);
                }
                self.checked.push(copy);
                proof {
                    assert(self@.checked == before.checked.push(url@));
                    assert(next_probe(before) == (self@, Some(url@)));
                }
                return Some(url);
            }
        }
        None
    }

    /// Takes in what was fetched for a candidate, or that it could not be.
    /// Where the page is an archive, gives back its entries and a pager for
    /// the rest.
    pub fn probed(&mut self, candidate: &str, document: Option<FetchedWebClip>) -> (r: Result<
        Option<(Pager, Vec<Entry>)>,
        DiscoveryFailure,
    >)
        ensures
            ({
                let s = old(self)@;
                let v = verdict(s, candidate@, fetched(document));
                &&& final(self)@ == after_probe(s, v)
                &&& match r {
                    Ok(Some((pager, entries))) => v matches Verdict::Archive(page) && pager@
                        == archive_pager(s, candidate@, document->0.final_url@, page)
                        && entry_views(entries@) == page.entries,
                    Ok(None) => v is Unreachable || v is Dismissed || v is Further,
                    Err(failure) => v is Unusable && failure@ == bad_address(candidate@),
                }
            }),
    {
        let ghost s = self@;
        let document = match document {
            None => {
                self.failed = true;
                return Ok(None);
            },
            Some(page) => page,
        };
        let host = match read_url(candidate) {
            Err(error) => {
                return Err(DiscoveryFailure::BadAddress(error));
            },
            Ok(parts) => parts.host,
        };
        if !same_site(&host, &document.final_url) {
            self.failed = true;
            return Ok(None);
        }
        let samples = sample_urls(&self.opening.page.entries);
        match parse_archive(&document, &samples) {
            Err(_) => Ok(None),
            Ok(page) => {
                if page.entries.len() >= ARCHIVE_ENTRIES {
                    let mut description = "自动检测：使用归档页 ".to_owned();
                    description.append(&document.final_url);
                    let mut visited: Vec<String> = Vec::new();
                    visited.push(document.final_url);
                    visited.push(candidate.to_owned());
                    let pager = Pager {
                        kind: SourceKind::Archive,
                        description,
                        pending: chained(page.pages, &self.candidates),
                        visited,
                    };
                    proof {
                        assert(pager@.visited =~= seq![document.final_url@, candidate@]);
                        assert(self@ == s);
                    }
                    return Ok(Some((pager, page.entries)));
                }
                let candidates = chained(page.pages, &self.candidates);
                self.candidates = candidates;
                Ok(None)
            },
        }
    }

    /// Falls back on the feed itself where no archive was found.
    pub fn conclude(self) -> (r: (Pager, Vec<Entry>))
        ensures
            r.0@ == feed_pager(self@),
            entry_views(r.1@) == self@.opening.page.entries,
    {
        let mut description = if self.failed {
            "归档页检测未完成或不可访问".to_owned()
        } else {
            "未发现可验证的归档页".to_owned()
        };
        if self.opening.page.pages.len() == 0 {
            description.append("；订阅源未提供历史分页，只能读取当前条目。");
        } else {
            description.append("；使用 RSS/Atom 历史分页。");
        }
        let mut visited: Vec<String> = Vec::new();
        visited.push(self.opening.feed_url);
        visited.push(self.opening.final_url);
        let pager = Pager {
            kind: SourceKind::Feed,
            description,
            pending: self.opening.page.pages,
            visited,
        };
        proof {
            assert(pager@.visited =~= seq![self@.opening.feed_url, self@.opening.final_url]);
        }
        (pager, self.opening.page.entries)
    }
}

// ---- what holds of every search ----------------------------------------------

/// A search probes a limited number of pages, and none twice.
pub proof fn probing_is_bounded(s: DiscoveryView)
    requires
        s.rounds <= PROBE_LIMIT,
    ensures
        next_probe(s).0.rounds <= PROBE_LIMIT,
        match next_probe(s).1 {
            Some(url) => s.rounds < next_probe(s).0.rounds && !s.checked.contains(url)
                && next_probe(s).0.checked == s.checked.push(url),
            None => next_probe(s).0.checked == s.checked,
        },
        next_probe(s).0.opening == s.opening,
        next_probe(s).0.failed == s.failed,
    decreases PROBE_LIMIT - s.rounds,
{
    if s.rounds < PROBE_LIMIT && s.candidates.len() > 0 && s.checked.contains(s.candidates[0]) {
        probing_is_bounded(
            DiscoveryView { candidates: s.candidates.skip(1), rounds: s.rounds + 1, ..s },
        );
    }
}

/// A failed or empty search never claims more than the feed itself offers:
/// what it reads is the feed's own entries, and more follow only where the
/// feed names another page.
pub proof fn a_failed_search_claims_only_the_feed(s: DiscoveryView)
    ensures
        feed_pager(s).kind is Feed,
        feed_pager(s).pending == s.opening.page.pages,
        s.opening.page.pages.len() == 0 ==> !crate::history_discovery::pager::more_pending(
            feed_pager(s),
        ) && contains(feed_pager(s).description, "只能读取当前条目"@),
{
    if s.opening.page.pages.len() == 0 {
        let head = if s.failed {
            "归档页检测未完成或不可访问"@
        } else {
            "未发现可验证的归档页"@
        };
        let tail = "；订阅源未提供历史分页，只能读取当前条目。"@;
        let phrase = "只能读取当前条目"@;
        let text = feed_pager(s).description;
        reveal_strlit("；订阅源未提供历史分页，只能读取当前条目。");
        reveal_strlit("只能读取当前条目");
        assert(phrase.len() == 8 && tail.len() == 21);
        assert(text == head + tail);
        let at = head.len() as int + 12;
        assert(tail.subrange(12, 20) =~= phrase);
        assert(text.subrange(at, at + 8) =~= tail.subrange(12, 20));
        assert(crate::text::occurs_at(text, phrase, at));
    }
}

/// Every candidate that a home page links to is on that page's site, and there
/// are not many.
pub proof fn linked_candidates_stay_on_the_site(
    nodes: Seq<crate::markup::NodeView>,
    base: Seq<char>,
)
    ensures
        archive_links(nodes, base).len() <= crate::history_discovery::page::CANDIDATE_LIMIT,
        forall|i: int|
            0 <= i < archive_links(nodes, base).len() ==> on_site(
                host_of(url_parsed(base)),
                url_parsed(#[trigger] archive_links(nodes, base)[i]),
            ),
    decreases nodes.len(),
{
    if nodes.len() > 0 {
        linked_candidates_stay_on_the_site(nodes.drop_last(), base);
    }
}

/// The home page of a feed is where its first link to a page leads, one that
/// has no relation or is an alternate, and is written in HTML if anything;
/// without one, the root of its first article, and then its own.
pub proof fn feeds_lead_home(links: Seq<LinkView>, entries: Seq<EntryView>, base: Seq<char>, i: int)
    ensures
        0 <= i < links.len() && home_shaped(links[i]) && (forall|j: int|
            0 <= j < i ==> !home_shaped(#[trigger] links[j])) && resolve(base, links[i].href) is Some
            ==> home_page(links, entries, base) == resolve(base, links[i].href),
        (forall|j: int| 0 <= j < links.len() ==> !home_shaped(#[trigger] links[j]))
            && entries.len() > 0 ==> (entries[0].article.url matches Some(url) ==> (url_joined(
            url,
            "/"@,
        ) matches Some(root) ==> home_page(links, entries, base) == Some(root.plain))),
        (forall|j: int| 0 <= j < links.len() ==> !home_shaped(#[trigger] links[j])) && (
        entries.len() == 0 || entries[0].article.url is None) ==> (url_joined(
            base,
            "/"@,
        ) matches Some(root) ==> home_page(links, entries, base) == Some(root.plain)),
{
    lemma_home_link(links, base, i);
}

/// A link that may lead to the home page of a feed.
pub open spec fn home_shaped(link: LinkView) -> bool {
    (link.rel is None || link.rel == Some("alternate"@)) && (link.media_type matches Some(kind)
        ==> contains(kind, "html"@))
}

proof fn lemma_home_link(links: Seq<LinkView>, base: Seq<char>, i: int)
    ensures
        0 <= i < links.len() && home_shaped(links[i]) && (forall|j: int|
            0 <= j < i ==> !home_shaped(#[trigger] links[j])) ==> home_link(links, base) == resolve(
            base,
            links[i].href,
        ),
        (forall|j: int| 0 <= j < links.len() ==> !home_shaped(#[trigger] links[j])) ==> home_link(
            links,
            base,
        ) is None,
    decreases links.len(),
{
    if links.len() > 0 {
        let rest = links.skip(1);
        lemma_home_link(rest, base, i - 1);
        assert forall|j: int| 0 <= j < rest.len() implies #[trigger] rest[j] == links[j + 1] by {}
        if 0 < i < links.len() {
            assert(rest[i - 1] == links[i]);
        }
    }
}

proof fn lemma_candidate(
    candidates: Seq<Seq<char>>,
    host: Option<Seq<char>>,
    address: Option<Seq<char>>,
)
    ensures
        ({
            let n = with_candidate(candidates, host, address);
            &&& candidates.len() <= n.len()
            &&& forall|k: int| 0 <= k < candidates.len() ==> #[trigger] n[k] == candidates[k]
            &&& forall|x: Seq<char>| #[trigger] candidates.contains(x) ==> n.contains(x)
            &&& address matches Some(url) ==> on_site(host, url_parsed(url)) ==> n.contains(url)
            &&& forall|k: int|
                candidates.len() <= k < n.len() ==> on_site(host, url_parsed(#[trigger] n[k]))
                    && Some(n[k]) == address
        }),
{
    let n = with_candidate(candidates, host, address);
    assert forall|x: Seq<char>| #[trigger] candidates.contains(x) implies n.contains(x) by {
        let k = choose|k: int| 0 <= k < candidates.len() && candidates[k] == x;
        assert(n[k] == x);
    }
    if address is Some && on_site(host, url_parsed(address->0)) && !candidates.contains(
        address->0,
    ) {
        assert(n[n.len() - 1] == address->0);
    }
}

/// One of the five usual places of an archive.
pub open spec fn usual_place(base: Seq<char>, url: Seq<char>) -> bool {
    let at = |path: Seq<char>| url_joined(base, path) matches Some(parts) && parts.plain == url;
    at("/archives.html"@) || at("/archive.html"@) || at("/archives"@) || at("/archive"@) || at(
        "/blog/archives.html"@,
    )
}

proof fn lemma_usual_paths(
    candidates: Seq<Seq<char>>,
    host: Option<Seq<char>>,
    base: Seq<char>,
    url: Seq<char>,
)
    ensures
        ({
            let n = with_usual_paths(candidates, host, base);
            &&& candidates.len() <= n.len()
            &&& forall|k: int| 0 <= k < candidates.len() ==> #[trigger] n[k] == candidates[k]
            &&& candidates.contains(url) ==> n.contains(url)
            &&& usual_place(base, url) && on_site(host, url_parsed(url)) ==> n.contains(url)
            &&& forall|k: int|
                candidates.len() <= k < n.len() ==> on_site(host, url_parsed(#[trigger] n[k]))
                    && usual_place(base, n[k])
        }),
{
    let a = with_candidate(candidates, host, plain_of(url_joined(base, "/archives.html"@)));
    let b = with_candidate(a, host, plain_of(url_joined(base, "/archive.html"@)));
    let c = with_candidate(b, host, plain_of(url_joined(base, "/archives"@)));
    let d = with_candidate(c, host, plain_of(url_joined(base, "/archive"@)));
    let e = with_candidate(d, host, plain_of(url_joined(base, "/blog/archives.html"@)));
    lemma_candidate(candidates, host, plain_of(url_joined(base, "/archives.html"@)));
    lemma_candidate(a, host, plain_of(url_joined(base, "/archive.html"@)));
    lemma_candidate(b, host, plain_of(url_joined(base, "/archives"@)));
    lemma_candidate(c, host, plain_of(url_joined(base, "/archive"@)));
    lemma_candidate(d, host, plain_of(url_joined(base, "/blog/archives.html"@)));
    assert forall|k: int| candidates.len() <= k < e.len() implies on_site(
        host,
        url_parsed(#[trigger] e[k]),
    ) && usual_place(base, e[k]) by {
        if k < a.len() {
            assert(a[k] == b[k] && b[k] == c[k] && c[k] == d[k] && d[k] == e[k]);
        } else if k < b.len() {
            assert(b[k] == c[k] && c[k] == d[k] && d[k] == e[k]);
        } else if k < c.len() {
            assert(c[k] == d[k] && d[k] == e[k]);
        } else if k < d.len() {
            assert(d[k] == e[k]);
        }
    }
}

/// The archive of a site is sought where its home page links to one first, and
/// then at the five usual places of the site that publishes its articles, and
/// of its own where that is another; never on another site than the feed's.
pub proof fn archives_are_sought_at_the_usual_places(
    linked: Seq<Seq<char>>,
    entries: Seq<EntryView>,
    base: Seq<char>,
    url: Seq<char>,
)
    ensures
        ({
            let n = all_candidates(linked, entries, base);
            let host = host_of(url_parsed(base));
            let from = if entries.len() > 0 && (entries[0].article.url matches Some(first) && (
            url_parsed(first) matches Some(parts) && !feed_mirror(parts.host))) {
                entries[0].article.url->0
            } else {
                base
            };
            &&& linked.len() <= n.len()
            &&& forall|k: int| 0 <= k < linked.len() ==> #[trigger] n[k] == linked[k]
            &&& usual_place(from, url) && on_site(host, url_parsed(url)) ==> n.contains(url)
            &&& from != base && !feed_mirror(host) && host_of(url_parsed(from)) != host
                && usual_place(base, url) && on_site(host, url_parsed(url)) ==> n.contains(url)
            &&& forall|k: int|
                linked.len() <= k < n.len() ==> on_site(host, url_parsed(#[trigger] n[k])) && (
                usual_place(from, n[k]) || usual_place(base, n[k]))
        }),
{
    let host = host_of(url_parsed(base));
    let bases = archive_bases(entries, base);
    let first = with_usual_paths(linked, host, bases[0]);
    lemma_usual_paths(linked, host, bases[0], url);
    if bases.len() > 1 {
        lemma_usual_paths(first, host, bases[1], url);
        let n = with_usual_paths(first, host, bases[1]);
        assert forall|k: int| linked.len() <= k < n.len() implies on_site(
            host,
            url_parsed(#[trigger] n[k]),
        ) && (usual_place(bases[0], n[k]) || usual_place(bases[1], n[k])) by {
            if k < first.len() {
                assert(n[k] == first[k]);
            }
        }
        assert forall|k: int| 0 <= k < linked.len() implies #[trigger] n[k] == linked[k] by {
            assert(n[k] == first[k]);
        }
    }
}

/// A search begins with nothing checked; it is incomplete from the start where
/// the home page could not be read.
pub proof fn searches_begin_unchecked(
    opening: OpeningView,
    home: Option<(Seq<char>, Seq<char>)>,
)
    ensures
        started(opening, home).opening == opening,
        started(opening, home).checked.len() == 0,
        started(opening, home).rounds == 0,
        started(opening, home).failed <==> home is None,
        home is None ==> started(opening, home).candidates == all_candidates(
            Seq::empty(),
            opening.page.entries,
            opening.final_url,
        ),
        home matches Some((html, final_url)) ==> (url_parsed(final_url) is Some ==> started(
            opening,
            home,
        ).candidates == all_candidates(
            archive_links(html_selected(html, "a[href]"@), final_url),
            opening.page.entries,
            opening.final_url,
        )),
{
}

/// Of the candidates the first that was not checked is probed, and six are
/// looked at in all.
pub proof fn the_first_unchecked_candidate_is_probed(s: DiscoveryView)
    ensures
        s.rounds >= 6 ==> next_probe(s) == (s, None::<Seq<char>>),
        s.candidates.len() == 0 ==> next_probe(s) == (s, None::<Seq<char>>),
        s.rounds < 6 && s.candidates.len() > 0 && !s.checked.contains(s.candidates[0])
            ==> next_probe(s).1 == Some(s.candidates[0]) && next_probe(s).0.candidates
            == s.candidates.skip(1) && next_probe(s).0.rounds == s.rounds + 1,
{
}

/// A page counts as an archive where it is still on the site of the candidate
/// and lists two articles or more. One that lists fewer may lead to one, one
/// that lists nothing is set aside, and one that cannot be read or left the
/// site leaves the search incomplete.
pub proof fn archives_list_two_articles(
    s: DiscoveryView,
    candidate: Seq<char>,
    html: Seq<char>,
    final_url: Seq<char>,
)
    requires
        url_parsed(candidate) is Some,
    ensures
        ({
            let v = verdict(s, candidate, Some((html, final_url)));
            let stays = on_site(host_of(url_parsed(candidate)), url_parsed(final_url));
            let page = archive_page(
                html_selected(html, "a[href]"@),
                final_url,
                sampled(s.opening.page.entries),
            );
            &&& v is Archive <==> stays && page.entries.len() >= 2
            &&& v is Further <==> stays && page.entries.len() < 2 && (page.entries.len() > 0
                || page.pages.len() > 0)
            &&& v is Dismissed <==> stays && page.entries.len() == 0 && page.pages.len() == 0
            &&& v is Unreachable <==> !stays
            &&& v matches Verdict::Archive(found) ==> found == page
            &&& v matches Verdict::Further(found) ==> found == page
            &&& after_probe(s, v).failed == (s.failed || !stays)
            &&& v is Further ==> after_probe(s, v).candidates == page.pages + s.candidates
            &&& !(v is Further) ==> after_probe(s, v).candidates == s.candidates
            &&& after_probe(s, v).opening == s.opening && after_probe(s, v).checked == s.checked
        }),
        verdict(s, candidate, None) is Unreachable,
        after_probe(s, verdict(s, candidate, None)).failed,
{
}

/// The articles that a feed lists are known by their addresses.
pub proof fn feeds_sample_their_articles(entries: Seq<EntryView>, url: Seq<char>)
    ensures
        sampled(entries).contains(url) <==> exists|i: int|
            0 <= i < entries.len() && (#[trigger] entries[i]).article.url == Some(url),
    decreases entries.len(),
{
    if entries.len() > 0 {
        let rest = entries.drop_last();
        let before = sampled(rest);
        let all = sampled(entries);
        feeds_sample_their_articles(rest, url);
        assert forall|i: int| 0 <= i < rest.len() implies #[trigger] rest[i] == entries[i] by {}
        if before.contains(url) {
            let k = choose|k: int| 0 <= k < before.len() && before[k] == url;
            assert(all[k] == url);
            let i = choose|i: int|
                0 <= i < rest.len() && (#[trigger] rest[i]).article.url == Some(url);
            assert(entries[i].article.url == Some(url));
        }
        if entries.last().article.url == Some(url) {
            assert(all[all.len() - 1] == url);
            assert(entries[entries.len() - 1].article.url == Some(url));
        }
        if all.contains(url) && !before.contains(url) {
            let k = choose|k: int| 0 <= k < all.len() && all[k] == url;
            if k < before.len() {
                assert(before[k] == url);
            }
            assert(entries[entries.len() - 1].article.url == Some(url));
        }
        if exists|i: int|
            0 <= i < entries.len() && (#[trigger] entries[i]).article.url == Some(url) {
            let i = choose|i: int|
                0 <= i < entries.len() && (#[trigger] entries[i]).article.url == Some(url);
            if i < rest.len() {
                assert(rest[i].article.url == Some(url));
            }
        }
    }
}

/// An archive that was found says where, and goes on with its own further
/// pages before the other candidates; its own addresses are not read again.
pub proof fn found_archives_go_on_with_their_pages(
    s: DiscoveryView,
    candidate: Seq<char>,
    final_url: Seq<char>,
    page: PageView,
)
    ensures
        ({
            let p = archive_pager(s, candidate, final_url, page);
            &&& p.kind is Archive
            &&& p.description == "自动检测：使用归档页 "@ + final_url
            &&& p.pending == page.pages + s.candidates
            &&& p.visited.contains(final_url) && p.visited.contains(candidate)
            &&& p.visited.len() == 2
        }),
{
    let p = archive_pager(s, candidate, final_url, page);
    assert(p.visited[0] == final_url && p.visited[1] == candidate);
}

/// Without an archive the feed is read; what is said of it tells apart whether
/// the search was complete, and whether the feed has older pages.
pub proof fn searches_tell_how_they_ended(s: DiscoveryView)
    ensures
        ({
            let p = feed_pager(s);
            let paged = s.opening.page.pages.len() > 0;
            &&& s.failed && paged ==> p.description == "归档页检测未完成或不可访问"@
                + "；使用 RSS/Atom 历史分页。"@
            &&& !s.failed && paged ==> p.description == "未发现可验证的归档页"@
                + "；使用 RSS/Atom 历史分页。"@
            &&& s.failed && !paged ==> p.description == "归档页检测未完成或不可访问"@
                + "；订阅源未提供历史分页，只能读取当前条目。"@
            &&& !s.failed && !paged ==> p.description == "未发现可验证的归档页"@
                + "；订阅源未提供历史分页，只能读取当前条目。"@
            &&& p.visited == seq![s.opening.feed_url, s.opening.final_url]
        }),
{
}

/// A search opens with the feed as it was read: under the address that was
/// asked for, at the one where it was found, and with its home page.
pub proof fn searches_open_with_the_feed(
    feed_url: Seq<char>,
    final_url: Seq<char>,
    feed: FeedView,
    ids: Seq<Seq<char>>,
)
    ensures
        opened(feed_url, final_url, feed, ids) matches Some(opening) ==> {
            &&& opening.feed_url == feed_url
            &&& opening.final_url == final_url
            &&& opening.page == feed_page(feed, ids, final_url)
            &&& home_page(feed.links, opening.page.entries, final_url) == Some(opening.home)
        },
        url_parsed(final_url) is Some && home_page(
            feed.links,
            feed_page(feed, ids, final_url).entries,
            final_url,
        ) is Some ==> opened(feed_url, final_url, feed, ids) is Some,
{
}

} // verus!
