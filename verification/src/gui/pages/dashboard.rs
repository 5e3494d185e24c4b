//! The overview: counts, the state of the refresh and what to read next.

use vstd::prelude::*;

use crate::gui::navigation::{unread_count, UnreadIndex};
use crate::gui::pages::archive::{shown_title, title_or};
use crate::gui::pages::sidebar::{progress_text, refresh_progress};
use crate::gui_state::{ArticleCollection, Route};
use crate::model::{Article, Feed};
use crate::number::{decimal, decimal_usize};
use crate::rss_refresh::{FeedRefresh, RefreshRunSnapshot, RefreshRunStatus, RefreshSnapshot};
use crate::text::text_opt;

verus! {

/// How many unread articles the feeds have that are not paused.
pub open spec fn total_unread(feeds: Seq<Feed>, entries: Seq<(i64, usize)>) -> int
    decreases feeds.len(),
{
    if feeds.len() == 0 {
        0
    } else {
        let feed = feeds.last();
        total_unread(feeds.drop_last(), entries) + (if feed.disabled {
            0
        } else {
            match unread_count(entries, feed.id) {
                Some(n) => n as int,
                None => 0,
            }
        })
    }
}

proof fn lemma_total_unread(feeds: Seq<Feed>, entries: Seq<(i64, usize)>, i: int)
    requires
        0 <= i <= feeds.len(),
    ensures
        0 <= total_unread(feeds.take(i), entries) <= total_unread(feeds, entries),
    decreases feeds.len(),
{
    if i == feeds.len() {
        assert(feeds.take(i) =~= feeds);
        if i > 0 {
            lemma_total_unread(feeds.drop_last(), entries, i - 1);
            assert(feeds.drop_last().take(i - 1) =~= feeds.drop_last());
        }
    } else {
        lemma_total_unread(feeds.drop_last(), entries, i);
        assert(feeds.drop_last().take(i) =~= feeds.take(i));
    }
}

pub fn sum_unread(feeds: &[Feed], index: &UnreadIndex) -> (r: usize)
    requires
        total_unread(feeds@, index.entries@) <= usize::MAX,
    ensures
        r == total_unread(feeds@, index.entries@),
{
    let mut total: usize = 0;
    let mut i: usize = 0;
    while i < feeds.len()
        invariant
            i <= feeds.len(),
            total == total_unread(feeds@.take(i as int), index.entries@),
            total_unread(feeds@, index.entries@) <= usize::MAX,
        decreases feeds.len() - i,
    {
        proof {
            assert(feeds@.take(i + 1).drop_last() =~= feeds@.take(i as int));
            assert(feeds@.take(i + 1).last() == feeds@[i as int]);
            lemma_total_unread(feeds@, index.entries@, i + 1);
        }
        if !feeds[i].disabled {
            match index.get(feeds[i].id) {
                Some(n) => {
                    total = total + n;
                },
                None => {},
            }
        }
        i += 1;
    }
    proof {
        assert(feeds@.take(feeds@.len() as int) =~= feeds@);
    }
    total
}

/// How many feeds failed when they were fetched last.
pub open spec fn failing(feeds: Seq<Feed>) -> nat
    decreases feeds.len(),
{
    if feeds.len() == 0 {
        0
    } else {
        failing(feeds.drop_last()) + (if feeds.last().last_error is Some {
            1nat
        } else {
            0
        })
    }
}

pub fn failed_feed_count(feeds: &[Feed]) -> (r: usize)
    ensures
        r == failing(feeds@),
        r <= feeds@.len(),
{
    let mut count: usize = 0;
    let mut i: usize = 0;
    while i < feeds.len()
        invariant
            i <= feeds.len(),
            count <= i,
            count == failing(feeds@.take(i as int)),
        decreases feeds.len() - i,
    {
        proof {
            assert(feeds@.take(i + 1).drop_last() =~= feeds@.take(i as int));
            assert(feeds@.take(i + 1).last() == feeds@[i as int]);
        }
        if feeds[i].last_error.is_some() {
            count = count + 1;
        }
        i += 1;
    }
    proof {
        assert(feeds@.take(feeds@.len() as int) =~= feeds@);
    }
    count
}

/// The first feed that failed.
pub open spec fn first_failing(feeds: Seq<Feed>) -> Option<i64>
    decreases feeds.len(),
{
    if feeds.len() == 0 {
        None
    } else if feeds[0].last_error is Some {
        Some(feeds[0].id)
    } else {
        first_failing(feeds.skip(1))
    }
}

/// A figure of the overview, and the page that it leads to.
#[derive(Debug, Clone, Copy, PartialEq, Eq, Structural)]
pub enum Metric {
    Unread,
    ReadLater,
    Bookmarks,
    Excerpts,
    Resources,
    FailedFeeds,
}

pub open spec fn metric_text(metric: Metric) -> Seq<char> {
    match metric {
        Metric::Unread => "未读文章"@,
        Metric::ReadLater => "稍后读"@,
        Metric::Bookmarks => "文章收藏"@,
        Metric::Excerpts => "摘录与想法"@,
        Metric::Resources => "资源"@,
        Metric::FailedFeeds => "刷新失败"@,
    }
}

/// The unread figure counts every feed that is not paused, so it leads to all
/// articles and not to one feed.
pub open spec fn metric_target(metric: Metric, feeds: Seq<Feed>) -> Route {
    match metric {
        Metric::Unread => Route::Articles(ArticleCollection::Feed(None)),
        Metric::ReadLater => Route::Articles(ArticleCollection::ReadLater),
        Metric::Bookmarks => Route::Articles(ArticleCollection::Saved),
        Metric::Excerpts => Route::Excerpts,
        Metric::Resources => Route::Resources,
        Metric::FailedFeeds => Route::Articles(ArticleCollection::Feed(first_failing(feeds))),
    }
}

pub fn metric_label(metric: Metric) -> (r: &'static str)
    ensures
        r@ == metric_text(metric),
{
    match metric {
        Metric::Unread => "未读文章",
        Metric::ReadLater => "稍后读",
        Metric::Bookmarks => "文章收藏",
        Metric::Excerpts => "摘录与想法",
        Metric::Resources => "资源",
        Metric::FailedFeeds => "刷新失败",
    }
}

pub fn metric_route(metric: Metric, feeds: &[Feed]) -> (r: Route)
    ensures
        r == metric_target(metric, feeds@),
{
    match metric {
        Metric::Unread => Route::Articles(ArticleCollection::Feed(None)),
        Metric::ReadLater => Route::Articles(ArticleCollection::ReadLater),
        Metric::Bookmarks => Route::Articles(ArticleCollection::Saved),
        Metric::Excerpts => Route::Excerpts,
        Metric::Resources => Route::Resources,
        Metric::FailedFeeds => Route::Articles(ArticleCollection::Feed(find_failing(feeds))),
    }
}

fn find_failing(feeds: &[Feed]) -> (r: Option<i64>)
    ensures
        r == first_failing(feeds@),
{
    let mut i: usize = 0;
    proof {
        assert(feeds@.skip(0) =~= feeds@);
    }
    while i < feeds.len()
        invariant
            i <= feeds.len(),
            first_failing(feeds@) == first_failing(feeds@.skip(i as int)),
        decreases feeds.len() - i,
    {
        proof {
            assert(feeds@.skip(i as int)[0] == feeds@[i as int]);
            assert(feeds@.skip(i as int).skip(1) =~= feeds@.skip(i + 1));
        }
        if feeds[i].last_error.is_some() {
            return Some(feeds[i].id);
        }
        i += 1;
    }
    None
}

/// What a figure shows. Until it is known, it says so.
pub fn metric_value(value: usize, ready: bool) -> (r: String)
    ensures
        r@ == (if ready {
            decimal(value as nat)
        } else {
            "加载中…"@
        }),
{
    if ready {
        decimal_usize(value)
    } else {
        "加载中…".to_owned()
    }
}

// ---- the refresh --------------------------------------------------------------------------

pub open spec fn last_run_text(run: RefreshRunSnapshot) -> Seq<char> {
    match run.status {
        RefreshRunStatus::Succeeded => "上次刷新成功"@,
        RefreshRunStatus::Degraded => "上次刷新有 "@ + decimal(run.failed_feed_count as nat)
            + " 个订阅失败"@,
        RefreshRunStatus::Failed => "上次刷新失败，请重试"@,
        RefreshRunStatus::Interrupted => "上次刷新被中断"@,
        RefreshRunStatus::Fetching | RefreshRunStatus::Committing => "刷新状态未知"@,
    }
}

/// The line of the overview on the refresh.
pub open spec fn refresh_text(snapshot: RefreshSnapshot) -> Option<Seq<char>> {
    match snapshot.current {
        Some(run) => Some("正在刷新 "@ + progress_text(run)),
        None => match snapshot.last_completed {
            Some(run) => Some(last_run_text(run)),
            None => None,
        },
    }
}

fn last_run_line(run: &RefreshRunSnapshot) -> (r: String)
    ensures
        r@ == last_run_text(*run),
{
    match run.status {
        RefreshRunStatus::Succeeded => "上次刷新成功".to_owned(),
        RefreshRunStatus::Degraded => {
            let mut text = "上次刷新有 ".to_owned();
            text.append(&decimal_usize(run.failed_feed_count));
            text.append(" 个订阅失败");
            text
        },
        RefreshRunStatus::Failed => "上次刷新失败，请重试".to_owned(),
        RefreshRunStatus::Interrupted => "上次刷新被中断".to_owned(),
        RefreshRunStatus::Fetching | RefreshRunStatus::Committing => "刷新状态未知".to_owned(),
    }
}

pub fn refresh_line(snapshot: &RefreshSnapshot) -> (r: Option<String>)
    ensures
        text_opt(r) == refresh_text(*snapshot),
{
    match &snapshot.current {
        Some(run) => {
            let mut text = "正在刷新 ".to_owned();
            text.append(&refresh_progress(run));
            Some(text)
        },
        None => match &snapshot.last_completed {
            Some(run) => Some(last_run_line(run)),
            None => None,
        },
    }
}

/// What the button says that refreshes all subscriptions.
pub fn refresh_all_label(snapshot: &RefreshSnapshot) -> (r: &'static str)
    ensures
        r@ == (if snapshot.current is Some {
            "刷新中…"@
        } else {
            "刷新全部订阅"@
        }),
{
    if snapshot.current.is_some() {
        "刷新中…"
    } else {
        "刷新全部订阅"
    }
}

/// What the reader is told once all subscriptions were asked to refresh.
pub fn refresh_all_notice(failure: Option<String>) -> (r: String)
    ensures
        r@ == (match failure {
            None => "已开始刷新全部订阅"@,
            Some(error) => "无法启动订阅刷新："@ + error@,
        }),
{
    match failure {
        None => "已开始刷新全部订阅".to_owned(),
        Some(error) => {
            let mut text = "无法启动订阅刷新：".to_owned();
            text.append(&error);
            text
        },
    }
}

/// The feeds that failed in a run.
pub open spec fn failed_in(feeds: Seq<FeedRefresh>) -> Seq<i64>
    decreases feeds.len(),
{
    if feeds.len() == 0 {
        Seq::empty()
    } else {
        let earlier = failed_in(feeds.drop_last());
        if feeds.last().failure is Some {
            earlier.push(feeds.last().feed_id)
        } else {
            earlier
        }
    }
}

/// The feeds that can be tried again: those that failed in the last run, while
/// none is running.
pub fn retryable_feeds(snapshot: &RefreshSnapshot) -> (r: Vec<i64>)
    ensures
        r@ == (match (snapshot.current, snapshot.last_completed) {
            (None, Some(run)) => failed_in(run.feeds@),
            _ => Seq::empty(),
        }),
{
    let mut r: Vec<i64> = Vec::new();
    if snapshot.current.is_some() {
        return r;
    }
    match &snapshot.last_completed {
        None => {},
        Some(run) => {
            let feeds = &run.feeds;
            let mut i: usize = 0;
            while i < feeds.len()
                invariant
                    i <= feeds.len(),
                    r@ == failed_in(feeds@.take(i as int)),
                decreases feeds.len() - i,
            {
                proof {
                    assert(feeds@.take(i + 1).drop_last() =~= feeds@.take(i as int));
                    assert(feeds@.take(i + 1).last() == feeds@[i as int]);
                }
                if feeds[i].failure.is_some() {
                    r.push(feeds[i].feed_id);
                }
                i += 1;
            }
            proof {
                assert(feeds@.take(feeds@.len() as int) =~= feeds@);
            }
        },
    }
    r
}

/// What the reader is told once the failed feeds were tried again.
pub fn retry_notice(refused: usize) -> (r: String)
    ensures
        r@ == (if refused == 0 {
            "已重试失败订阅"@
        } else {
            "有 "@ + decimal(refused as nat) + " 个订阅无法启动重试"@
        }),
{
    if refused == 0 {
        return "已重试失败订阅".to_owned();
    }
    let mut text = "有 ".to_owned();
    text.append(&decimal_usize(refused));
    text.append(" 个订阅无法启动重试");
    text
}

// ---- reading on ------------------------------------------------------------------------------

/// How many unread articles the overview lists.
pub const RECENT_LIMIT: usize = 8;

/// The title of the feed that an article belongs to.
pub open spec fn source_title(feeds: Seq<Feed>, feed_id: i64) -> Seq<char>
    decreases feeds.len(),
{
    if feeds.len() == 0 {
        "订阅文章"@
    } else if feeds[0].id == feed_id {
        match feeds[0].title {
            Some(title) => title@,
            None => "订阅文章"@,
        }
    } else {
        source_title(feeds.skip(1), feed_id)
    }
}

pub fn feed_title_of(feeds: &[Feed], feed_id: i64) -> (r: String)
    ensures
        r@ == source_title(feeds@, feed_id),
{
    let mut i: usize = 0;
    proof {
        assert(feeds@.skip(0) =~= feeds@);
    }
    while i < feeds.len()
        invariant
            i <= feeds.len(),
            source_title(feeds@, feed_id) == source_title(feeds@.skip(i as int), feed_id),
        decreases feeds.len() - i,
    {
        proof {
            assert(feeds@.skip(i as int)[0] == feeds@[i as int]);
            assert(feeds@.skip(i as int).skip(1) =~= feeds@.skip(i + 1));
        }
        if feeds[i].id == feed_id {
            return match &feeds[i].title {
                Some(title) => title.clone(),
                None => "订阅文章".to_owned(),
            };
        }
        i += 1;
    }
    "订阅文章".to_owned()
}

/// An article that the overview offers.
#[derive(Debug)]
pub struct ReadingOffer {
    pub article_id: i64,
    pub feed_id: i64,
    pub title: String,
    pub source: String,
    /// It is opened among the saved articles.
    pub saved: bool,
}

fn holds_id(ids: &[i64], id: i64) -> (r: bool)
    ensures
        r == ids@.contains(id),
{
    let mut i: usize = 0;
    while i < ids.len()
        invariant
            i <= ids.len(),
            forall|k: int| 0 <= k < i ==> ids@[k] != id,
        decreases ids.len() - i,
    {
        if ids[i] == id {
            return true;
        }
        i += 1;
    }
    false
}

/// The offer to read an article. `fixed_bookmarks` are the saved pages.
pub fn reading_offer(article: &Article, feeds: &[Feed], fixed_bookmarks: &[i64]) -> (r:
    ReadingOffer)
    ensures
        r.saved == fixed_bookmarks@.contains(article.id),
        r.article_id == article.id,
        r.feed_id == article.feed_id,
        r.title@ == title_or(text_opt(article.title), "无标题文章"@),
        r.source@ == source_title(feeds@, article.feed_id),
{
    ReadingOffer {
        article_id: article.id,
        feed_id: article.feed_id,
        title: shown_title(&article.title, "无标题文章"),
        source: feed_title_of(feeds, article.feed_id),
        saved: holds_id(fixed_bookmarks, article.id),
    }
}

/// The article to read on with: the one that was opened last, or else the
/// first unread one.
pub fn continue_with<'a>(last_opened: Option<&'a Article>, unread: &'a [Article]) -> (r: Option<
    &'a Article,
>)
    ensures
        match last_opened {
            Some(article) => r == Some(article),
            None => match r {
                Some(article) => unread@.len() > 0 && *article == unread@[0],
                None => unread@.len() == 0,
            },
        },
{
    match last_opened {
        Some(article) => Some(article),
        None => if unread.len() > 0 {
            Some(&unread[0])
        } else {
            None
        },
    }
}

/// How many of the unread articles are listed.
pub fn recent_count(unread: usize) -> (r: usize)
    ensures
        r == (if unread <= RECENT_LIMIT {
            unread
        } else {
            RECENT_LIMIT
        }),
{
    if unread <= RECENT_LIMIT {
        unread
    } else {
        RECENT_LIMIT
    }
}

/// The label of a listed article.
pub fn recent_label(offer: &ReadingOffer) -> (r: String)
    ensures
        r@ == offer.title@ + "  ·  "@ + offer.source@,
{
    let mut text = offer.title.clone();
    text.append("  ·  ");
    text.append(&offer.source);
    text
}

/// The unread articles are counted over the feeds that are enabled.
pub proof fn disabled_feeds_count_no_unread(feeds: Seq<Feed>, feed: Feed, entries: Seq<(i64, usize)>)
    ensures
        total_unread(Seq::empty(), entries) == 0,
        feed.disabled ==> total_unread(feeds.push(feed), entries) == total_unread(feeds, entries),
        !feed.disabled ==> (unread_count(entries, feed.id) matches Some(n) ==> total_unread(
            feeds.push(feed),
            entries,
        ) == total_unread(feeds, entries) + n),
        !feed.disabled && unread_count(entries, feed.id) is None ==> total_unread(
            feeds.push(feed),
            entries,
        ) == total_unread(feeds, entries),
        feed.last_error is Some ==> failing(feeds.push(feed)) == failing(feeds) + 1,
        feed.last_error is None ==> failing(feeds.push(feed)) == failing(feeds),
        failing(Seq::empty()) == 0,
{
    assert(feeds.push(feed).drop_last() =~= feeds);
}

/// Each figure leads to what it counts; that of the failed feeds to the first
/// of them.
pub proof fn figures_lead_to_what_they_count(feeds: Seq<Feed>)
    ensures
        metric_target(Metric::Unread, feeds) == Route::Articles(ArticleCollection::Feed(None)),
        metric_target(Metric::ReadLater, feeds) == Route::Articles(ArticleCollection::ReadLater),
        metric_target(Metric::Bookmarks, feeds) == Route::Articles(ArticleCollection::Saved),
        metric_target(Metric::Excerpts, feeds) == Route::Excerpts,
        metric_target(Metric::Resources, feeds) == Route::Resources,
        forall|i: int|
            0 <= i < feeds.len() && (#[trigger] feeds[i]).last_error is Some && (forall|j: int|
                0 <= j < i ==> (#[trigger] feeds[j]).last_error is None) ==> metric_target(
                Metric::FailedFeeds,
                feeds,
            ) == Route::Articles(ArticleCollection::Feed(Some(feeds[i].id))),
        (forall|j: int| 0 <= j < feeds.len() ==> (#[trigger] feeds[j]).last_error is None)
            ==> metric_target(Metric::FailedFeeds, feeds) == Route::Articles(
            ArticleCollection::Feed(None),
        ),
        metric_text(Metric::Unread) == "未读文章"@,
        metric_text(Metric::ReadLater) == "稍后读"@,
        metric_text(Metric::Bookmarks) == "文章收藏"@,
        metric_text(Metric::Excerpts) == "摘录与想法"@,
        metric_text(Metric::Resources) == "资源"@,
        metric_text(Metric::FailedFeeds) == "刷新失败"@,
{
    lemma_first_failing(feeds);
}

proof fn lemma_first_failing(feeds: Seq<Feed>)
    ensures
        forall|i: int|
            0 <= i < feeds.len() && (#[trigger] feeds[i]).last_error is Some && (forall|j: int|
                0 <= j < i ==> (#[trigger] feeds[j]).last_error is None) ==> first_failing(feeds)
                == Some(feeds[i].id),
        (forall|j: int| 0 <= j < feeds.len() ==> (#[trigger] feeds[j]).last_error is None)
            ==> first_failing(feeds) is None,
    decreases feeds.len(),
{
    if feeds.len() > 0 {
        let rest = feeds.skip(1);
        lemma_first_failing(rest);
        assert forall|j: int| 0 <= j < rest.len() implies #[trigger] rest[j] == feeds[j + 1] by {}
        assert forall|i: int|
            0 <= i < feeds.len() && (#[trigger] feeds[i]).last_error is Some && (forall|j: int|
                0 <= j < i ==> (#[trigger] feeds[j]).last_error is None) implies first_failing(
            feeds,
        ) == Some(feeds[i].id) by {
            if i > 0 {
                assert(feeds[0].last_error is None);
                assert(rest[i - 1] == feeds[i]);
                assert forall|j: int| 0 <= j < i - 1 implies (
                #[trigger] rest[j]).last_error is None by {
                    assert(feeds[j + 1].last_error is None);
                }
            }
        }
    }
}

/// The line on refreshing tells of the run that goes on, and else how the last
/// one ended.
pub proof fn refreshing_is_told(snapshot: RefreshSnapshot, run: RefreshRunSnapshot)
    ensures
        snapshot.current matches Some(now) ==> refresh_text(snapshot) == Some(
            "正在刷新 "@ + progress_text(now),
        ),
        snapshot.current is None ==> (snapshot.last_completed matches Some(last) ==> refresh_text(
            snapshot,
        ) == Some(last_run_text(last))),
        snapshot.current is None && snapshot.last_completed is None ==> refresh_text(
            snapshot,
        ) is None,
        run.status is Succeeded ==> last_run_text(run) == "上次刷新成功"@,
        run.status is Degraded ==> last_run_text(run) == "上次刷新有 "@ + decimal(
            run.failed_feed_count as nat,
        ) + " 个订阅失败"@,
        run.status is Failed ==> last_run_text(run) == "上次刷新失败，请重试"@,
        run.status is Interrupted ==> last_run_text(run) == "上次刷新被中断"@,
        run.status is Fetching || run.status is Committing ==> last_run_text(run)
            == "刷新状态未知"@,
{
}

/// The feeds to try again are those that failed, in their order.
pub proof fn failed_feeds_are_tried_again(feeds: Seq<FeedRefresh>, feed: FeedRefresh)
    ensures
        failed_in(Seq::empty()).len() == 0,
        feed.failure is Some ==> failed_in(feeds.push(feed)) == failed_in(feeds).push(feed.feed_id),
        feed.failure is None ==> failed_in(feeds.push(feed)) == failed_in(feeds),
{
    assert(feeds.push(feed).drop_last() =~= feeds);
}

/// An article is shown with the title of its feed, and at most eight are
/// recent.
pub proof fn articles_name_their_feed(feeds: Seq<Feed>, i: int)
    requires
        0 <= i < feeds.len(),
        forall|j: int| 0 <= j < i ==> (#[trigger] feeds[j]).id != feeds[i].id,
    ensures
        feeds[i].title matches Some(title) ==> source_title(feeds, feeds[i].id) == title@,
        feeds[i].title is None ==> source_title(feeds, feeds[i].id) == "订阅文章"@,
        RECENT_LIMIT == 8,
    decreases feeds.len(),
{
    if i > 0 {
        let rest = feeds.skip(1);
        assert(feeds[0].id != feeds[i].id);
        assert(rest[i - 1] == feeds[i]);
        assert forall|j: int| 0 <= j < i - 1 implies (#[trigger] rest[j]).id != rest[i - 1].id by {
            assert(rest[j] == feeds[j + 1]);
        }
        articles_name_their_feed(rest, i - 1);
    }
}

} // verus!
