//! Which part of the library the desktop shows, and moving through its lists.

use vstd::prelude::*;

use crate::gui_state::{ArticleCollection, Route};
use crate::model::{Article, Feed};

verus! {

/// A part of the article library.
#[derive(Debug, Clone, Copy, PartialEq, Eq, Structural)]
pub enum ProjectionScope {
    All,
    Feed(i64),
    ArticleBookmarks,
    ReadLater,
    Archive,
    Article(i64),
    Unread,
}

/// The part of the article library that a route shows.
pub open spec fn scope_of(route: Route) -> Option<ProjectionScope> {
    match route {
        Route::Articles(ArticleCollection::Saved) => Some(ProjectionScope::ArticleBookmarks),
        Route::Articles(ArticleCollection::ReadLater) => Some(ProjectionScope::ReadLater),
        Route::Articles(ArticleCollection::SearchResult(id)) => Some(ProjectionScope::Article(id)),
        Route::Articles(ArticleCollection::Feed(Some(id))) => Some(ProjectionScope::Feed(id)),
        Route::Articles(ArticleCollection::Feed(None)) => Some(ProjectionScope::All),
        Route::Archive => Some(ProjectionScope::Archive),
        _ => None,
    }
}

pub fn projection_scope_for_route(route: Route) -> (r: Option<ProjectionScope>)
    ensures
        r == scope_of(route),
{
    match route {
        Route::Dashboard => None,
        Route::Articles(ArticleCollection::Saved) => Some(ProjectionScope::ArticleBookmarks),
        Route::Articles(ArticleCollection::ReadLater) => Some(ProjectionScope::ReadLater),
        Route::Articles(ArticleCollection::SearchResult(id)) => Some(ProjectionScope::Article(id)),
        Route::Articles(ArticleCollection::Feed(Some(id))) => Some(ProjectionScope::Feed(id)),
        Route::Articles(ArticleCollection::Feed(None)) => Some(ProjectionScope::All),
        Route::Archive => Some(ProjectionScope::Archive),
        Route::Resources | Route::Excerpts | Route::Storage => None,
    }
}

pub open spec fn article_ids(articles: Seq<Article>) -> Seq<i64> {
    articles.map_values(|a: Article| a.id)
}

pub open spec fn feed_ids(feeds: Seq<Feed>) -> Seq<i64> {
    feeds.map_values(|f: Feed| f.id)
}

/// Where `id` first stands.
pub open spec fn place_of(ids: Seq<i64>, id: i64) -> Option<int>
    decreases ids.len(),
{
    if ids.len() == 0 {
        None
    } else {
        match place_of(ids.drop_last(), id) {
            Some(i) => Some(i),
            None => if ids.last() == id {
                Some(ids.len() - 1)
            } else {
                None
            },
        }
    }
}

pub proof fn lemma_place_of(ids: Seq<i64>, id: i64)
    ensures
        match place_of(ids, id) {
            Some(i) => 0 <= i < ids.len() && ids[i] == id,
            None => !ids.contains(id),
        },
    decreases ids.len(),
{
    if ids.len() > 0 {
        let rest = ids.drop_last();
        lemma_place_of(rest, id);
        if place_of(ids, id) is None && ids.contains(id) {
            let k = choose|k: int| 0 <= k < ids.len() && ids[k] == id;
            assert(rest[k] == id);
        }
    }
}

pub fn article_position(articles: &[Article], id: i64) -> (r: Option<usize>)
    ensures
        match r {
            Some(i) => i < articles@.len() && place_of(article_ids(articles@), id) == Some(
                i as int,
            ),
            None => place_of(article_ids(articles@), id) is None,
        },
{
    let ghost all = article_ids(articles@);
    let mut found: Option<usize> = None;
    let mut i: usize = 0;
    while i < articles.len()
        invariant
            i <= articles.len(),
            all == article_ids(articles@),
            match found {
                Some(k) => k < i && place_of(all.take(i as int), id) == Some(k as int),
                None => place_of(all.take(i as int), id) is None,
            },
        decreases articles.len() - i,
    {
        proof {
            assert(all.take(i + 1).drop_last() =~= all.take(i as int));
            assert(all.take(i + 1).last() == articles@[i as int].id);
        }
        if found.is_none() && articles[i].id == id {
            found = Some(i);
        }
        i += 1;
    }
    proof {
        assert(all.take(all.len() as int) =~= all);
    }
    found
}

pub fn feed_position(feeds: &[Feed], id: i64) -> (r: Option<usize>)
    ensures
        match r {
            Some(i) => i < feeds@.len() && place_of(feed_ids(feeds@), id) == Some(i as int),
            None => place_of(feed_ids(feeds@), id) is None,
        },
{
    let ghost all = feed_ids(feeds@);
    let mut found: Option<usize> = None;
    let mut i: usize = 0;
    while i < feeds.len()
        invariant
            i <= feeds.len(),
            all == feed_ids(feeds@),
            match found {
                Some(k) => k < i && place_of(all.take(i as int), id) == Some(k as int),
                None => place_of(all.take(i as int), id) is None,
            },
        decreases feeds.len() - i,
    {
        proof {
            assert(all.take(i + 1).drop_last() =~= all.take(i as int));
            assert(all.take(i + 1).last() == feeds@[i as int].id);
        }
        if found.is_none() && feeds[i].id == id {
            found = Some(i);
        }
        i += 1;
    }
    proof {
        assert(all.take(all.len() as int) =~= all);
    }
    found
}

pub open spec fn listed(ids: Seq<i64>, id: Option<i64>) -> bool {
    id is Some && ids.contains(id->0)
}

/// The selection once the list has changed: kept where it is still listed,
/// else the remembered one where that is listed.
pub open spec fn reconciled_selection(
    selected: Option<i64>,
    remembered: Option<i64>,
    ids: Seq<i64>,
) -> Option<i64> {
    if listed(ids, selected) {
        selected
    } else if listed(ids, remembered) {
        remembered
    } else {
        None
    }
}

pub fn is_listed(articles: &[Article], id: Option<i64>) -> (r: bool)
    ensures
        r == listed(article_ids(articles@), id),
{
    match id {
        None => false,
        Some(id) => {
            proof {
                lemma_place_of(article_ids(articles@), id);
            }
            article_position(articles, id).is_some()
        },
    }
}

pub fn reconcile_article_selection(
    selected: Option<i64>,
    remembered: Option<i64>,
    articles: &[Article],
) -> (r: Option<i64>)
    ensures
        r == reconciled_selection(selected, remembered, article_ids(articles@)),
{
    if is_listed(articles, selected) {
        selected
    } else if is_listed(articles, remembered) {
        remembered
    } else {
        None
    }
}

/// The entry `delta` places further on, where the current one is listed and
/// the list reaches that far.
pub open spec fn moved(ids: Seq<i64>, current: i64, delta: int) -> Option<i64> {
    match place_of(ids, current) {
        Some(i) => if 0 <= i + delta < ids.len() {
            Some(ids[i + delta])
        } else {
            None
        },
        None => None,
    }
}

/// The index `delta` places further on.
fn shifted(index: usize, delta: isize, len: usize) -> (r: Option<usize>)
    requires
        index < len,
    ensures
        match r {
            Some(i) => i < len && i == index + delta,
            None => !(0 <= index + delta < len),
        },
{
    if delta >= 0 {
        let ahead: usize = delta as usize;
        if ahead < len - index {
            Some(index + ahead)
        } else {
            None
        }
    } else {
        let back: usize = (-(delta + 1)) as usize;
        if back < index {
            Some(index - back - 1)
        } else {
            None
        }
    }
}

pub fn article_navigation_target(articles: &[Article], current_id: i64, delta: isize) -> (r: Option<
    i64,
>)
    ensures
        r == moved(article_ids(articles@), current_id, delta as int),
{
    match article_position(articles, current_id) {
        None => None,
        Some(index) => match shifted(index, delta, articles.len()) {
            None => None,
            Some(target) => Some(articles[target].id),
        },
    }
}

pub fn feed_navigation_target(feeds: &[Feed], current_id: i64, delta: isize) -> (r: Option<i64>)
    ensures
        r == moved(feed_ids(feeds@), current_id, delta as int),
{
    match feed_position(feeds, current_id) {
        None => None,
        Some(index) => match shifted(index, delta, feeds.len()) {
            None => None,
            Some(target) => Some(feeds[target].id),
        },
    }
}

/// Moving on and back again leads to where it began, and never off the list.
pub proof fn moving_stays_in_the_list(ids: Seq<i64>, current: i64, delta: int)
    requires
        ids.no_duplicates(),
        moved(ids, current, delta) is Some,
    ensures
        ids.contains(moved(ids, current, delta)->0),
        moved(ids, moved(ids, current, delta)->0, -delta) == Some(current),
{
    lemma_place_of(ids, current);
    let target = moved(ids, current, delta)->0;
    let at = place_of(ids, current)->0 + delta;
    assert(ids[at] == target);
    lemma_place_of(ids, target);
    assert(place_of(ids, target) == Some(at));
}

/// How many unread articles a feed has, given the counts of all feeds; the
/// last count of a feed stands.
pub open spec fn unread_count(entries: Seq<(i64, usize)>, id: i64) -> Option<usize>
    decreases entries.len(),
{
    if entries.len() == 0 {
        None
    } else if entries.last().0 == id {
        Some(entries.last().1)
    } else {
        unread_count(entries.drop_last(), id)
    }
}

/// The unread counts of the feeds, each feed once.
#[derive(Debug)]
pub struct UnreadIndex {
    pub entries: Vec<(i64, usize)>,
}

pub fn feed_unread_index(entries: &[(i64, usize)]) -> (r: UnreadIndex)
    ensures
        r.entries@ == entries@,
{
    let mut copy: Vec<(i64, usize)> = Vec::new();
    let mut i: usize = 0;
    while i < entries.len()
        invariant
            i <= entries.len(),
            copy@ == entries@.take(i as int),
        decreases entries.len() - i,
    {
        copy.push(entries[i]);
        i += 1;
    }
    proof {
        assert(entries@.take(entries@.len() as int) =~= entries@);
    }
    UnreadIndex { entries: copy }
}

impl UnreadIndex {
    pub fn get(&self, id: i64) -> (r: Option<usize>)
        ensures
            r == unread_count(self.entries@, id),
    {
        let mut i: usize = self.entries.len();
        proof {
            assert(self.entries@.take(i as int) =~= self.entries@);
        }
        while i > 0
            invariant
                i <= self.entries.len(),
                unread_count(self.entries@, id) == unread_count(self.entries@.take(i as int), id),
            decreases i,
        {
            proof {
                assert(self.entries@.take(i as int).drop_last() =~= self.entries@.take(i - 1));
            }
            if self.entries[i - 1].0 == id {
                return Some(self.entries[i - 1].1);
            }
            i -= 1;
        }
        None
    }
}

/// Each page of articles shows its own articles: those of a feed or of all
/// feeds, the bookmarked ones, those to be read later, the archived ones, or
/// the one that was searched for. Other pages show none.
pub proof fn pages_show_their_articles(route: Route, id: i64)
    ensures
        scope_of(Route::Articles(ArticleCollection::Feed(Some(id)))) == Some(
            ProjectionScope::Feed(id),
        ),
        scope_of(Route::Articles(ArticleCollection::Feed(None))) == Some(ProjectionScope::All),
        scope_of(Route::Articles(ArticleCollection::Saved)) == Some(
            ProjectionScope::ArticleBookmarks,
        ),
        scope_of(Route::Articles(ArticleCollection::ReadLater)) == Some(ProjectionScope::ReadLater),
        scope_of(Route::Articles(ArticleCollection::SearchResult(id))) == Some(
            ProjectionScope::Article(id),
        ),
        scope_of(Route::Archive) == Some(ProjectionScope::Archive),
        scope_of(route) is None <==> route is Dashboard || route is Resources || route is Excerpts
            || route is Storage,
{
}

/// Moving goes from an article to the one that stands as many places further,
/// and nowhere from the ends of the list.
pub proof fn moving_counts_places(ids: Seq<i64>, i: int, delta: int)
    requires
        ids.no_duplicates(),
        0 <= i < ids.len(),
    ensures
        0 <= i + delta < ids.len() ==> moved(ids, ids[i], delta) == Some(ids[i + delta]),
        !(0 <= i + delta < ids.len()) ==> moved(ids, ids[i], delta) is None,
        forall|other: int| !ids.contains(other as i64) && i64::MIN <= other <= i64::MAX
            ==> #[trigger] moved(ids, other as i64, delta) is None,
{
    lemma_place_of(ids, ids[i]);
    assert forall|other: int| !ids.contains(other as i64) && i64::MIN <= other
        <= i64::MAX implies #[trigger] moved(ids, other as i64, delta) is None by {
        lemma_place_of(ids, other as i64);
    }
}

/// A selection stays while its article is listed; otherwise the remembered one
/// comes back where it is listed, and else nothing is selected.
pub proof fn selections_stay_or_come_back(
    selected: Option<i64>,
    remembered: Option<i64>,
    ids: Seq<i64>,
)
    ensures
        selected is Some && ids.contains(selected->0) ==> reconciled_selection(
            selected,
            remembered,
            ids,
        ) == selected,
        !(selected is Some && ids.contains(selected->0)) && remembered is Some && ids.contains(
            remembered->0,
        ) ==> reconciled_selection(selected, remembered, ids) == remembered,
        !(selected is Some && ids.contains(selected->0)) && !(remembered is Some && ids.contains(
            remembered->0,
        )) ==> reconciled_selection(selected, remembered, ids) is None,
{
}

/// The unread articles of a feed are the last that were counted.
pub proof fn the_last_count_of_a_feed_holds(entries: Seq<(i64, usize)>, k: int)
    requires
        0 <= k < entries.len(),
        forall|j: int| k < j < entries.len() ==> (#[trigger] entries[j]).0 != entries[k].0,
    ensures
        unread_count(entries, entries[k].0) == Some(entries[k].1),
    decreases entries.len(),
{
    if k < entries.len() - 1 {
        let rest = entries.drop_last();
        assert(entries[entries.len() - 1].0 != entries[k].0);
        assert forall|j: int| k < j < rest.len() implies (#[trigger] rest[j]).0 != rest[k].0 by {
            assert(rest[j] == entries[j]);
        }
        the_last_count_of_a_feed_holds(rest, k);
    }
}

} // verus!
