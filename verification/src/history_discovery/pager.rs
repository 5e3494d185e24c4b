//! Walking the older pages of a source, one page at a time.

use vstd::prelude::*;

use crate::address::{host_of, on_site, read_url, same_site, url_parsed};
use crate::feed_document::feed_read;
use crate::history_discovery::page::{
    archive_page, bad_address, entry_views, feed_page, parse_archive, parse_feed, DiscoveryFailure,
    Entry, FailureView, FetchedWebClip, Page, PageView, SourceKind,
};
use crate::markup::html_selected;
use crate::text::{holds_text, lemma_texts_push, text_opt, texts};

verus! {

/// The pages of a source that are still to be read, and those that were.
#[derive(Debug)]
pub struct Pager {
    pub kind: SourceKind,
    pub description: String,
    pub pending: Vec<String>,
    pub visited: Vec<String>,
}

pub ghost struct PagerView {
    pub kind: SourceKind,
    pub description: Seq<char>,
    pub pending: Seq<Seq<char>>,
    pub visited: Seq<Seq<char>>,
}

impl View for Pager {
    type V = PagerView;

    open spec fn view(&self) -> PagerView {
        PagerView {
            kind: self.kind,
            description: self.description@,
            pending: texts(self.pending@),
            visited: texts(self.visited@),
        }
    }
}

/// Some pending page was not visited.
pub open spec fn more_pending(p: PagerView) -> bool {
    exists|i: int| 0 <= i < p.pending.len() && !p.visited.contains(#[trigger] p.pending[i])
}

/// The pending pages from the first on that was not visited.
pub open spec fn unvisited(pending: Seq<Seq<char>>, visited: Seq<Seq<char>>) -> Seq<Seq<char>>
    decreases pending.len(),
{
    if pending.len() > 0 && visited.contains(pending[0]) {
        unvisited(pending.skip(1), visited)
    } else {
        pending
    }
}

/// The pager once visited pages have left the front of the queue.
pub open spec fn at_next(p: PagerView) -> PagerView {
    PagerView { pending: unvisited(p.pending, p.visited), ..p }
}

/// The queue with the pages that it lacks.
pub open spec fn enqueued(
    pending: Seq<Seq<char>>,
    visited: Seq<Seq<char>>,
    pages: Seq<Seq<char>>,
) -> Seq<Seq<char>>
    decreases pages.len(),
{
    if pages.len() == 0 {
        pending
    } else {
        let so_far = enqueued(pending, visited, pages.drop_last());
        let url = pages.last();
        if !visited.contains(url) && !so_far.contains(url) {
            so_far.push(url)
        } else {
            so_far
        }
    }
}

/// The pager after the page at the front turned out to be known already.
pub open spec fn passed_over(p: PagerView) -> PagerView {
    PagerView { pending: p.pending.skip(1), visited: p.visited.push(p.pending[0]), ..p }
}

/// The pager after the page at the front was read.
pub open spec fn advanced(p: PagerView, final_url: Seq<char>, page: PageView) -> PagerView {
    let visited = p.visited.push(p.pending[0]).push(final_url);
    PagerView { pending: enqueued(p.pending.skip(1), visited, page.pages), visited, ..p }
}

/// `page` is what the document lists.
pub open spec fn page_lists(
    kind: SourceKind,
    html: Seq<char>,
    final_url: Seq<char>,
    page: PageView,
) -> bool {
    match kind {
        SourceKind::Feed => feed_read(html) is Ok && url_parsed(final_url) is Some
            && exists|ids: Seq<Seq<char>>| #[trigger]
            feed_page(feed_read(html)->Ok_0, ids, final_url) == page,
        SourceKind::Archive => {
            let found = archive_page(html_selected(html, "a[href]"@), final_url, Seq::empty());
            url_parsed(final_url) is Some && page == found && (found.entries.len() > 0
                || found.pages.len() > 0)
        },
    }
}

/// Why the document lists nothing.
pub open spec fn page_refusal(kind: SourceKind, html: Seq<char>, final_url: Seq<char>) -> Option<
    FailureView,
> {
    match kind {
        SourceKind::Feed => match feed_read(html) {
            Err(error) => Some(FailureView::NotAFeed(error)),
            Ok(_) => if url_parsed(final_url) is None {
                Some(bad_address(final_url))
            } else {
                None
            },
        },
        SourceKind::Archive => {
            let found = archive_page(html_selected(html, "a[href]"@), final_url, Seq::empty());
            if url_parsed(final_url) is None {
                Some(bad_address(final_url))
            } else if found.entries.len() == 0 && found.pages.len() == 0 {
                Some(FailureView::NoEntries)
            } else {
                None
            }
        },
    }
}

/// Why a fetched document cannot stand for the page at the front.
pub open spec fn fetch_refusal(p: PagerView, html: Seq<char>, final_url: Seq<char>) -> Option<
    FailureView,
> {
    let asked = url_parsed(p.pending[0]);
    if p.kind is Archive && asked is None {
        Some(bad_address(p.pending[0]))
    } else if p.kind is Archive && !on_site(host_of(asked), url_parsed(final_url)) {
        Some(FailureView::LeftTheSite)
    } else if p.visited.contains(final_url) {
        None
    } else {
        page_refusal(p.kind, html, final_url)
    }
}

fn enqueue(pending: &mut Vec<String>, visited: &[String], pages: &[String])
    ensures
        texts(final(pending)@) == enqueued(texts(old(pending)@), texts(visited@), texts(pages@)),
{
    let ghost start = texts(pending@);
    let ghost all = texts(pages@);
    let mut i: usize = 0;
    while i < pages.len()
        invariant
            i <= pages.len(),
            all == texts(pages@),
            texts(pending@) == enqueued(start, texts(visited@), all.take(i as int)),
        decreases pages.len() - i,
    {
        proof {
            assert(all.take(i + 1).drop_last() =~= all.take(i as int));
            assert(all.take(i + 1).last() == pages@[i as int]@);
        }
        if !holds_text(visited, &pages[i]) && !holds_text(pending.as_slice(), &pages[i]) {
            let url = pages[i].clone();
            proof {
                lemma_texts_push(pending@, url);
            }
            pending.push(url);
        }
        i += 1;
    }
    proof {
        assert(all.take(all.len() as int) =~= all);
    }
}

fn read_page(kind: SourceKind, document: &FetchedWebClip) -> (r: Result<Page, DiscoveryFailure>)
    ensures
        match r {
            Ok(page) => page_lists(kind, document.html@, document.final_url@, page@)
                && page_refusal(kind, document.html@, document.final_url@) is None,
            Err(failure) => page_refusal(kind, document.html@, document.final_url@) == Some(
                failure@,
            ),
        },
{
    match kind {
        SourceKind::Feed => parse_feed(document),
        SourceKind::Archive => {
            let none: Vec<String> = Vec::new();
            proof {
                assert(texts(none@) =~= Seq::<Seq<char>>::empty());
            }
            parse_archive(document, &none)
        },
    }
}

impl Pager {
    pub fn has_more(&self) -> (r: bool)
        ensures
            r == more_pending(self@),
    {
        let mut i: usize = 0;
        while i < self.pending.len()
            invariant
                i <= self.pending.len(),
                forall|k: int|
                    0 <= k < i ==> self@.visited.contains(#[trigger] self@.pending[k]),
            decreases self.pending.len() - i,
        {
            if !holds_text(&self.visited, &self.pending[i]) {
                proof {
                    assert(!self@.visited.contains(self@.pending[i as int]));
                }
                return true;
            }
            i += 1;
        }
        false
    }

    /// The address of the next page, which then stands at the front.
    pub fn next_address(&mut self) -> (r: Option<String>)
        ensures
            final(self)@ == at_next(old(self)@),
            text_opt(r) == (if at_next(old(self)@).pending.len() > 0 {
                Some(at_next(old(self)@).pending[0])
            } else {
                None
            }),
    {
        let ghost start = self@;
        while self.pending.len() > 0 && holds_text(&self.visited, &self.pending[0])
            invariant
                at_next(self@) == at_next(start),
            decreases self.pending.len(),
        {
            let ghost before = self@;
            let _ = self.pending.remove(0);
            proof {
                assert(self@.pending =~= before.pending.skip(1));
            }
        }
        if self.pending.len() > 0 {
            Some(self.pending[0].clone())
        } else {
            None
        }
    }

    /// Takes in what was fetched for the page at the front and gives back its
    /// entries. The page leaves the front only when it could be read, so one
    /// that could not can be tried again.
    pub fn page_fetched(&mut self, document: &FetchedWebClip) -> (r: Result<
        Vec<Entry>,
        DiscoveryFailure,
    >)
        ensures
            ({
                let p = old(self)@;
                let final_url = document.final_url@;
                match r {
                    Ok(entries) => if p.pending.len() == 0 {
                        final(self)@ == p && entries@.len() == 0
                    } else if p.visited.contains(final_url) {
                        fetch_refusal(p, document.html@, final_url) is None && final(self)@
                            == passed_over(p) && entries@.len() == 0
                    } else {
                        fetch_refusal(p, document.html@, final_url) is None
                            && exists|page: PageView|
                            page_lists(p.kind, document.html@, final_url, page) && final(self)@
                                == #[trigger] advanced(p, final_url, page) && entry_views(entries@)
                                == page.entries
                    },
                    Err(failure) => p.pending.len() > 0 && fetch_refusal(
                        p,
                        document.html@,
                        final_url,
                    ) == Some(failure@) && final(self)@ == p,
                }
            }),
    {
        let ghost p = self@;
        if self.pending.len() == 0 {
            return Ok(Vec::new());
        }
        let url = self.pending[0].clone();
        match self.kind {
            SourceKind::Archive => match read_url(&url) {
                Err(error) => {
                    return Err(DiscoveryFailure::BadAddress(error));
                },
                Ok(parts) => if !same_site(&parts.host, &document.final_url) {
                    return Err(DiscoveryFailure::LeftTheSite);
                },
            },
            SourceKind::Feed => {},
        }
        if holds_text(&self.visited, &document.final_url) {
            let _ = self.pending.remove(0);
            proof {
                assert(texts(self.pending@) =~= p.pending.skip(1));
                lemma_texts_push(self.visited@, url);
            }
            self.visited.push(url);
            return Ok(Vec::new());
        }
        match read_page(self.kind, document) {
            Err(failure) => Err(failure),
            Ok(page) => {
                let _ = self.pending.remove(0);
                let reached = document.final_url.clone();
                proof {
                    assert(texts(self.pending@) =~= p.pending.skip(1));
                    lemma_texts_push(self.visited@, url);
                    lemma_texts_push(self.visited@.push(url), reached);
                }
                self.visited.push(url);
                self.visited.push(reached);
                enqueue(&mut self.pending, &self.visited, &page.pages);
                proof {
                    assert(self@ == advanced(p, document.final_url@, page@));
                }
                Ok(page.entries)
            },
        }
    }
}

proof fn lemma_unvisited(pending: Seq<Seq<char>>, visited: Seq<Seq<char>>)
    ensures
        unvisited(pending, visited).len() <= pending.len(),
        unvisited(pending, visited).len() > 0 ==> !visited.contains(
            unvisited(pending, visited)[0],
        ),
        unvisited(unvisited(pending, visited), visited) == unvisited(pending, visited),
        unvisited(pending, visited).len() > 0 <==> exists|i: int|
            0 <= i < pending.len() && !visited.contains(#[trigger] pending[i]),
    decreases pending.len(),
{
    if pending.len() > 0 && visited.contains(pending[0]) {
        let rest = pending.skip(1);
        lemma_unvisited(rest, visited);
        if exists|i: int| 0 <= i < rest.len() && !visited.contains(#[trigger] rest[i]) {
            let i = choose|i: int| 0 <= i < rest.len() && !visited.contains(#[trigger] rest[i]);
            assert(pending[i + 1] == rest[i]);
        }
        if exists|i: int| 0 <= i < pending.len() && !visited.contains(#[trigger] pending[i]) {
            let i = choose|i: int|
                0 <= i < pending.len() && !visited.contains(#[trigger] pending[i]);
            assert(rest[i - 1] == pending[i]);
        }
    } else if pending.len() > 0 {
        assert(!visited.contains(pending[0]));
    }
}

/// Asking for the next page gives one exactly where more are pending, never
/// one that was visited, and gives the same one when asked again.
pub proof fn the_next_page_is_new_and_stable(p: PagerView)
    ensures
        more_pending(p) <==> at_next(p).pending.len() > 0,
        at_next(p).pending.len() > 0 ==> !p.visited.contains(at_next(p).pending[0]),
        at_next(at_next(p)) == at_next(p),
{
    lemma_unvisited(p.pending, p.visited);
}

/// A page that was read, or that led to one already read, is never asked for
/// again, so a page that lists itself does not keep the walk going.
pub proof fn no_page_is_read_twice(p: PagerView, final_url: Seq<char>, page: PageView)
    requires
        p.pending.len() > 0,
    ensures
        at_next(advanced(p, final_url, page)).pending.len() > 0 ==> at_next(
            advanced(p, final_url, page),
        ).pending[0] != p.pending[0] && at_next(advanced(p, final_url, page)).pending[0]
            != final_url,
        at_next(passed_over(p)).pending.len() > 0 ==> at_next(passed_over(p)).pending[0]
            != p.pending[0],
        forall|url: Seq<char>| #[trigger]
            p.visited.contains(url) ==> advanced(p, final_url, page).visited.contains(url)
                && passed_over(p).visited.contains(url),
{
    let after = advanced(p, final_url, page);
    let n = p.visited.len() as int;
    lemma_unvisited(after.pending, after.visited);
    lemma_unvisited(passed_over(p).pending, passed_over(p).visited);
    assert(after.visited[n] == p.pending[0]);
    assert(after.visited[n + 1] == final_url);
    assert(passed_over(p).visited[n] == p.pending[0]);
    assert forall|url: Seq<char>| #[trigger] p.visited.contains(url) implies after.visited.contains(
        url,
    ) && passed_over(p).visited.contains(url) by {
        let k = choose|k: int| 0 <= k < p.visited.len() && p.visited[k] == url;
        assert(after.visited[k] == url && passed_over(p).visited[k] == url);
    }
}

/// Pages that a page leads to are queued behind the others, each once, unless
/// they were read already; nothing that was queued is lost.
pub proof fn new_pages_are_queued_once(
    pending: Seq<Seq<char>>,
    visited: Seq<Seq<char>>,
    pages: Seq<Seq<char>>,
)
    ensures
        ({
            let n = enqueued(pending, visited, pages);
            &&& n.len() >= pending.len()
            &&& forall|k: int| 0 <= k < pending.len() ==> #[trigger] n[k] == pending[k]
            &&& forall|k: int|
                pending.len() <= k < n.len() ==> pages.contains(#[trigger] n[k])
                    && !visited.contains(n[k]) && !pending.contains(n[k])
            &&& forall|k: int|
                0 <= k < pages.len() && !visited.contains(#[trigger] pages[k]) ==> n.contains(
                    pages[k],
                )
            &&& forall|a: int, b: int|
                pending.len() <= a < b < n.len() ==> #[trigger] n[a] != #[trigger] n[b]
        }),
    decreases pages.len(),
{
    if pages.len() > 0 {
        let rest = pages.drop_last();
        new_pages_are_queued_once(pending, visited, rest);
        let before = enqueued(pending, visited, rest);
        let n = enqueued(pending, visited, pages);
        let last = pages.len() - 1;
        assert forall|k: int| 0 <= k < before.len() implies #[trigger] n[k] == before[k] by {}
        assert forall|k: int| pending.len() <= k < n.len() implies pages.contains(#[trigger] n[k])
            && !visited.contains(n[k]) && !pending.contains(n[k]) by {
            if k < before.len() {
                assert(n[k] == before[k]);
                let j = choose|j: int| 0 <= j < rest.len() && rest[j] == before[k];
                assert(pages[j] == n[k]);
            } else {
                assert(n[k] == pages[last]);
                if pending.contains(n[k]) {
                    let j = choose|j: int| 0 <= j < pending.len() && pending[j] == n[k];
                    assert(before[j] == n[k]);
                }
            }
        }
        assert forall|k: int|
            0 <= k < pages.len() && !visited.contains(#[trigger] pages[k]) implies n.contains(
            pages[k],
        ) by {
            if k < last {
                assert(rest[k] == pages[k]);
                let j = choose|j: int| 0 <= j < before.len() && before[j] == pages[k];
                assert(n[j] == pages[k]);
            } else if before.contains(pages[k]) {
                let j = choose|j: int| 0 <= j < before.len() && before[j] == pages[k];
                assert(n[j] == pages[k]);
            } else {
                assert(n[n.len() - 1] == pages[k]);
            }
        }
        assert forall|a: int, b: int| pending.len() <= a < b < n.len() implies #[trigger] n[a]
            != #[trigger] n[b] by {
            if b == before.len() {
                assert(before[a] == n[a]);
            }
        }
    }
}

/// The next page is the first queued one that was not read yet, and those
/// behind it stay queued.
pub proof fn pages_are_read_in_their_order(p: PagerView, i: int)
    requires
        0 <= i < p.pending.len(),
        !p.visited.contains(p.pending[i]),
        forall|j: int| 0 <= j < i ==> p.visited.contains(#[trigger] p.pending[j]),
    ensures
        at_next(p).pending == p.pending.skip(i),
        at_next(p).visited == p.visited,
    decreases p.pending.len(),
{
    if i > 0 {
        let rest = PagerView { pending: p.pending.skip(1), ..p };
        assert(rest.pending[i - 1] == p.pending[i]);
        assert forall|j: int| 0 <= j < i - 1 implies p.visited.contains(
            #[trigger] rest.pending[j],
        ) by {
            assert(p.visited.contains(p.pending[j + 1]));
        }
        pages_are_read_in_their_order(rest, i - 1);
        assert(p.visited.contains(p.pending[0]));
        assert(rest.pending.skip(i - 1) =~= p.pending.skip(i));
    } else {
        assert(p.pending.skip(0) =~= p.pending);
    }
}

/// A page that was read is not asked for again, under the address that was
/// asked for or the one where it was found.
pub proof fn read_pages_are_remembered(p: PagerView, final_url: Seq<char>, page: PageView)
    requires
        p.pending.len() > 0,
    ensures
        advanced(p, final_url, page).visited == p.visited.push(p.pending[0]).push(final_url),
        advanced(p, final_url, page).kind == p.kind,
        advanced(p, final_url, page).description == p.description,
        passed_over(p).visited == p.visited.push(p.pending[0]),
        passed_over(p).pending == p.pending.skip(1),
        forall|k: int|
            0 <= k < p.pending.len() - 1 ==> (#[trigger] advanced(p, final_url, page).pending[k])
                == p.pending[k + 1],
{
    new_pages_are_queued_once(
        p.pending.skip(1),
        p.visited.push(p.pending[0]).push(final_url),
        page.pages,
    );
}

/// An archive stays on its site: a page that was found on another is refused.
/// A page that was read before is not, and any other only where it lists
/// nothing, or cannot be read.
pub proof fn archives_stay_on_their_site(p: PagerView, html: Seq<char>, final_url: Seq<char>)
    requires
        p.pending.len() > 0,
        url_parsed(p.pending[0]) is Some,
    ensures
        fetch_refusal(p, html, final_url) == Some(FailureView::LeftTheSite) <==> p.kind is Archive
            && !on_site(host_of(url_parsed(p.pending[0])), url_parsed(final_url)),
        p.kind is Feed && p.visited.contains(final_url) ==> fetch_refusal(
            p,
            html,
            final_url,
        ) is None,
        p.kind is Feed && !p.visited.contains(final_url) ==> (fetch_refusal(
            p,
            html,
            final_url,
        ) is None <==> feed_read(html) is Ok && url_parsed(final_url) is Some),
        p.kind is Archive && on_site(host_of(url_parsed(p.pending[0])), url_parsed(final_url))
            && !p.visited.contains(final_url) ==> (fetch_refusal(p, html, final_url) is None <==> {
            let found = archive_page(html_selected(html, "a[href]"@), final_url, Seq::empty());
            found.entries.len() > 0 || found.pages.len() > 0
        }),
{
}

/// A page is read as what its source is: as a feed, or as an archive by its
/// links, without the addresses of the feed.
pub proof fn pages_are_read_as_their_source(
    kind: SourceKind,
    html: Seq<char>,
    final_url: Seq<char>,
    page: PageView,
)
    requires
        page_lists(kind, html, final_url, page),
    ensures
        url_parsed(final_url) is Some,
        kind is Archive ==> page == archive_page(
            html_selected(html, "a[href]"@),
            final_url,
            Seq::empty(),
        ) && (page.entries.len() > 0 || page.pages.len() > 0),
        kind is Feed ==> feed_read(html) is Ok && exists|ids: Seq<Seq<char>>| #[trigger]
            feed_page(feed_read(html)->Ok_0, ids, final_url) == page,
{
}

} // verus!
