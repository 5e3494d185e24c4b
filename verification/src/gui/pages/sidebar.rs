//! The sidebar: the ways to the pages, the state of the refresh and the feeds.

use vstd::prelude::*;

use crate::gui::feed_subscription_feature::{disabled_feed_status, disabled_text};
use crate::gui::navigation::{feed_ids, feed_navigation_target, moved};
use crate::gui_state::{ArticleCollection, Route};
use crate::model::Feed;
use crate::number::{decimal, decimal_i64, decimal_usize, signed};
use crate::rss_refresh::{RefreshRunSnapshot, RefreshRunStatus, RefreshSnapshot};
use crate::text::text_opt;

verus! {

/// An entry of the sidebar that leads to a page.
#[derive(Debug, Clone, Copy, PartialEq, Eq, Structural)]
pub enum NavigationEntry {
    Dashboard,
    Saved,
    Resources,
    ReadLater,
    Excerpts,
    Archive,
    Storage,
}

pub open spec fn entry_route(entry: NavigationEntry) -> Route {
    match entry {
        NavigationEntry::Dashboard => Route::Dashboard,
        NavigationEntry::Saved => Route::Articles(ArticleCollection::Saved),
        NavigationEntry::Resources => Route::Resources,
        NavigationEntry::ReadLater => Route::Articles(ArticleCollection::ReadLater),
        NavigationEntry::Excerpts => Route::Excerpts,
        NavigationEntry::Archive => Route::Archive,
        NavigationEntry::Storage => Route::Storage,
    }
}

pub open spec fn entry_label(entry: NavigationEntry) -> Seq<char> {
    match entry {
        NavigationEntry::Dashboard => "总览"@,
        NavigationEntry::Saved => "文章收藏"@,
        NavigationEntry::Resources => "资源库"@,
        NavigationEntry::ReadLater => "稍后读"@,
        NavigationEntry::Excerpts => "摘录与想法"@,
        NavigationEntry::Archive => "已归档"@,
        NavigationEntry::Storage => "资料库管理"@,
    }
}

/// The counts that the sidebar shows.
#[derive(Debug, Clone, Copy, PartialEq, Eq, Structural)]
pub struct SidebarCounts {
    pub saved: usize,
    pub read_later: usize,
    pub excerpts: usize,
    pub archived: usize,
}

pub open spec fn entry_count(entry: NavigationEntry, counts: SidebarCounts) -> Option<usize> {
    match entry {
        NavigationEntry::Saved => Some(counts.saved),
        NavigationEntry::ReadLater => Some(counts.read_later),
        NavigationEntry::Excerpts => Some(counts.excerpts),
        NavigationEntry::Archive => Some(counts.archived),
        _ => None,
    }
}

impl NavigationEntry {
    pub fn route(self) -> (r: Route)
        ensures
            r == entry_route(self),
    {
        match self {
            NavigationEntry::Dashboard => Route::Dashboard,
            NavigationEntry::Saved => Route::Articles(ArticleCollection::Saved),
            NavigationEntry::Resources => Route::Resources,
            NavigationEntry::ReadLater => Route::Articles(ArticleCollection::ReadLater),
            NavigationEntry::Excerpts => Route::Excerpts,
            NavigationEntry::Archive => Route::Archive,
            NavigationEntry::Storage => Route::Storage,
        }
    }

    pub fn label(self) -> (r: &'static str)
        ensures
            r@ == entry_label(self),
    {
        match self {
            NavigationEntry::Dashboard => "总览",
            NavigationEntry::Saved => "文章收藏",
            NavigationEntry::Resources => "资源库",
            NavigationEntry::ReadLater => "稍后读",
            NavigationEntry::Excerpts => "摘录与想法",
            NavigationEntry::Archive => "已归档",
            NavigationEntry::Storage => "资料库管理",
        }
    }

    /// The count that stands behind the label.
    pub fn trailing(self, counts: SidebarCounts) -> (r: Option<String>)
        ensures
            text_opt(r) == (match entry_count(self, counts) {
                Some(n) => Some(decimal(n as nat)),
                None => None,
            }),
    {
        match self {
            NavigationEntry::Saved => Some(decimal_usize(counts.saved)),
            NavigationEntry::ReadLater => Some(decimal_usize(counts.read_later)),
            NavigationEntry::Excerpts => Some(decimal_usize(counts.excerpts)),
            NavigationEntry::Archive => Some(decimal_usize(counts.archived)),
            _ => None,
        }
    }

    pub fn is_selected(self, route: Route) -> (r: bool)
        ensures
            r == (route == entry_route(self)),
    {
        route == self.route()
    }
}

// ---- the refresh ---------------------------------------------------------------------

pub open spec fn progress_text(run: RefreshRunSnapshot) -> Seq<char> {
    decimal(run.completed_count as nat) + "/"@ + decimal(run.target_count as nat) + " · 失败 "@
        + decimal(run.failed_feed_count as nat) + " · 新增 "@ + decimal(
        run.new_article_count as nat,
    )
}

/// How far a refresh has come.
pub fn refresh_progress(run: &RefreshRunSnapshot) -> (r: String)
    ensures
        r@ == progress_text(*run),
{
    let mut text = decimal_usize(run.completed_count);
    text.append("/");
    text.append(&decimal_usize(run.target_count));
    text.append(" · 失败 ");
    text.append(&decimal_usize(run.failed_feed_count));
    text.append(" · 新增 ");
    text.append(&decimal_usize(run.new_article_count));
    text
}

/// The line of the sidebar on the refresh: a running one, a pause, or feeds
/// that failed last time.
pub open spec fn status_line(snapshot: RefreshSnapshot) -> Option<Seq<char>> {
    match snapshot.current {
        Some(run) => Some("刷新 "@ + progress_text(run)),
        None => if snapshot.paused_for_maintenance {
            Some("资料维护中，订阅刷新已暂停"@)
        } else {
            match snapshot.last_completed {
                Some(run) => if run.status is Degraded || run.status is Failed {
                    Some(
                        "上次刷新有 "@ + decimal(run.failed_feed_count as nat) + " 个订阅失败"@,
                    )
                } else {
                    None
                },
                None => None,
            }
        },
    }
}

pub fn refresh_status_line(snapshot: &RefreshSnapshot) -> (r: Option<String>)
    ensures
        text_opt(r) == status_line(*snapshot),
{
    match &snapshot.current {
        Some(run) => {
            let mut text = "刷新 ".to_owned();
            text.append(&refresh_progress(run));
            return Some(text);
        },
        None => {},
    }
    if snapshot.paused_for_maintenance {
        return Some("资料维护中，订阅刷新已暂停".to_owned());
    }
    match &snapshot.last_completed {
        Some(run) => match run.status {
            RefreshRunStatus::Degraded | RefreshRunStatus::Failed => {
                let mut text = "上次刷新有 ".to_owned();
                text.append(&decimal_usize(run.failed_feed_count));
                text.append(" 个订阅失败");
                Some(text)
            },
            _ => None,
        },
        None => None,
    }
}

// ---- the feeds -------------------------------------------------------------------------

pub open spec fn feed_title(feed: Feed) -> Seq<char> {
    match feed.title {
        Some(title) => title@,
        None => feed.url@,
    }
}

/// The title of a feed, or its address where it has none.
pub fn title_of_feed(feed: &Feed) -> (r: String)
    ensures
        r@ == feed_title(*feed),
{
    match &feed.title {
        Some(title) => title.clone(),
        None => feed.url.clone(),
    }
}

/// The mark in front of a feed: paused, failing, or with unread articles.
pub open spec fn feed_mark(feed: Feed, unread: usize) -> Seq<char> {
    if feed.disabled {
        "✗"@
    } else if feed.fail_count > 0 {
        "⚠"@
    } else if unread > 0 {
        "●"@
    } else {
        " "@
    }
}

/// What stands behind a feed that is paused or fails.
pub open spec fn feed_status(feed: Feed) -> Option<Seq<char>> {
    if feed.disabled {
        Some(disabled_text(feed.disabled, feed.fail_count))
    } else if feed.fail_count > 0 {
        Some("失败 "@ + signed(feed.fail_count as int))
    } else {
        None
    }
}

/// One row of the feed list.
#[derive(Debug)]
pub struct FeedRow {
    pub text: String,
    pub selected: bool,
    pub prominent: bool,
    pub status: Option<String>,
    /// A paused feed can be tried again at once.
    pub offers_retry: bool,
}

pub fn feed_row(feed: &Feed, unread: usize, route: Route) -> (r: FeedRow)
    ensures
        r.text@ == feed_mark(*feed, unread) + " "@ + feed_title(*feed) + " ("@ + decimal(
            unread as nat,
        ) + ")"@,
        r.selected == (route == Route::Articles(ArticleCollection::Feed(Some(feed.id)))),
        r.prominent == (r.selected || unread > 0),
        text_opt(r.status) == feed_status(*feed),
        r.offers_retry == feed.disabled,
{
    let mut text = if feed.disabled {
        "✗".to_owned()
    } else if feed.fail_count > 0 {
        "⚠".to_owned()
    } else if unread > 0 {
        "●".to_owned()
    } else {
        " ".to_owned()
    };
    text.append(" ");
    text.append(&title_of_feed(feed));
    text.append(" (");
    text.append(&decimal_usize(unread));
    text.append(")");
    let status: Option<String> = if feed.disabled {
        Some(disabled_feed_status(feed.disabled, feed.fail_count))
    } else if feed.fail_count > 0 {
        let mut line = "失败 ".to_owned();
        line.append(&decimal_i64(feed.fail_count));
        Some(line)
    } else {
        None
    };
    let selected: bool = route == Route::Articles(ArticleCollection::Feed(Some(feed.id)));
    FeedRow {
        text,
        selected,
        prominent: selected || unread > 0,
        status,
        offers_retry: feed.disabled,
    }
}

/// A key that moves through a list.
#[derive(Debug, Clone, Copy, PartialEq, Eq, Structural)]
pub enum ListKey {
    Up,
    Down,
    Home,
    End,
    Enter,
}

/// The feed that a key leads to from another.
pub open spec fn feed_by_key(ids: Seq<i64>, current: i64, key: ListKey) -> Option<i64> {
    match key {
        ListKey::Up => moved(ids, current, -1),
        ListKey::Down => moved(ids, current, 1),
        ListKey::Home => if ids.len() > 0 {
            Some(ids[0])
        } else {
            None
        },
        ListKey::End => if ids.len() > 0 {
            Some(ids.last())
        } else {
            None
        },
        ListKey::Enter => Some(current),
    }
}

pub fn feed_key_target(feeds: &[Feed], current: i64, key: ListKey) -> (r: Option<i64>)
    ensures
        r == feed_by_key(feed_ids(feeds@), current, key),
{
    match key {
        ListKey::Up => feed_navigation_target(feeds, current, -1),
        ListKey::Down => feed_navigation_target(feeds, current, 1),
        ListKey::Home => if feeds.len() > 0 {
            Some(feeds[0].id)
        } else {
            None
        },
        ListKey::End => if feeds.len() > 0 {
            Some(feeds[feeds.len() - 1].id)
        } else {
            None
        },
        ListKey::Enter => Some(current),
    }
}

/// Each entry leads to its page, under its name, with the count of what is
/// there.
pub proof fn entries_lead_to_their_page(counts: SidebarCounts)
    ensures
        entry_route(NavigationEntry::Dashboard) == Route::Dashboard,
        entry_route(NavigationEntry::Saved) == Route::Articles(ArticleCollection::Saved),
        entry_route(NavigationEntry::Resources) == Route::Resources,
        entry_route(NavigationEntry::ReadLater) == Route::Articles(ArticleCollection::ReadLater),
        entry_route(NavigationEntry::Excerpts) == Route::Excerpts,
        entry_route(NavigationEntry::Archive) == Route::Archive,
        entry_route(NavigationEntry::Storage) == Route::Storage,
        entry_label(NavigationEntry::Dashboard) == "总览"@,
        entry_label(NavigationEntry::Saved) == "文章收藏"@,
        entry_label(NavigationEntry::Resources) == "资源库"@,
        entry_label(NavigationEntry::ReadLater) == "稍后读"@,
        entry_label(NavigationEntry::Excerpts) == "摘录与想法"@,
        entry_label(NavigationEntry::Archive) == "已归档"@,
        entry_label(NavigationEntry::Storage) == "资料库管理"@,
        entry_count(NavigationEntry::Saved, counts) == Some(counts.saved),
        entry_count(NavigationEntry::ReadLater, counts) == Some(counts.read_later),
        entry_count(NavigationEntry::Excerpts, counts) == Some(counts.excerpts),
        entry_count(NavigationEntry::Archive, counts) == Some(counts.archived),
        entry_count(NavigationEntry::Dashboard, counts) is None,
        entry_count(NavigationEntry::Resources, counts) is None,
        entry_count(NavigationEntry::Storage, counts) is None,
{
}

/// A feed is marked as disabled, in trouble, or with something to read, in this
/// order; its status tells of the first two. It is shown by its title, or its
/// address.
pub proof fn feeds_are_marked(feed: Feed, unread: usize)
    ensures
        feed.disabled ==> feed_mark(feed, unread) == "✗"@,
        !feed.disabled && feed.fail_count > 0 ==> feed_mark(feed, unread) == "⚠"@,
        !feed.disabled && feed.fail_count <= 0 && unread > 0 ==> feed_mark(feed, unread) == "●"@,
        !feed.disabled && feed.fail_count <= 0 && unread == 0 ==> feed_mark(feed, unread) == " "@,
        feed.disabled && feed.fail_count > 0 ==> feed_status(feed) == Some(
            "已暂停（连续失败 "@ + signed(feed.fail_count as int) + " 次）"@,
        ),
        feed.disabled && feed.fail_count <= 0 ==> feed_status(feed) == Some("已暂停"@),
        !feed.disabled && feed.fail_count > 0 ==> feed_status(feed) == Some(
            "失败 "@ + signed(feed.fail_count as int),
        ),
        !feed.disabled && feed.fail_count <= 0 ==> feed_status(feed) is None,
        feed.title matches Some(title) ==> feed_title(feed) == title@,
        feed.title is None ==> feed_title(feed) == feed.url@,
{
}

/// The line on refreshing tells of the run that goes on; else that it rests for
/// maintenance; else of the failures of the last run.
pub proof fn the_sidebar_tells_of_refreshing(snapshot: RefreshSnapshot)
    ensures
        snapshot.current matches Some(run) ==> status_line(snapshot) == Some(
            "刷新 "@ + (decimal(run.completed_count as nat) + "/"@ + decimal(
                run.target_count as nat,
            ) + " · 失败 "@ + decimal(run.failed_feed_count as nat) + " · 新增 "@ + decimal(
                run.new_article_count as nat,
            )),
        ),
        snapshot.current is None && snapshot.paused_for_maintenance ==> status_line(snapshot)
            == Some("资料维护中，订阅刷新已暂停"@),
        snapshot.current is None && !snapshot.paused_for_maintenance ==> {
            &&& snapshot.last_completed is None ==> status_line(snapshot) is None
            &&& snapshot.last_completed matches Some(run) ==> {
                &&& run.status is Degraded || run.status is Failed ==> status_line(snapshot)
                    == Some("上次刷新有 "@ + decimal(run.failed_feed_count as nat) + " 个订阅失败"@)
                &&& !(run.status is Degraded) && !(run.status is Failed) ==> status_line(
                    snapshot,
                ) is None
            }
        },
{
}

/// The keys go to the feed before or behind, to the first, to the last, or stay.
pub proof fn keys_go_through_the_feeds(ids: Seq<i64>, i: int)
    requires
        ids.no_duplicates(),
        0 <= i < ids.len(),
    ensures
        i > 0 ==> feed_by_key(ids, ids[i], ListKey::Up) == Some(ids[i - 1]),
        i == 0 ==> feed_by_key(ids, ids[i], ListKey::Up) is None,
        i < ids.len() - 1 ==> feed_by_key(ids, ids[i], ListKey::Down) == Some(ids[i + 1]),
        i == ids.len() - 1 ==> feed_by_key(ids, ids[i], ListKey::Down) is None,
        feed_by_key(ids, ids[i], ListKey::Home) == Some(ids[0]),
        feed_by_key(ids, ids[i], ListKey::End) == Some(ids[ids.len() - 1]),
        feed_by_key(ids, ids[i], ListKey::Enter) == Some(ids[i]),
{
    crate::gui::navigation::moving_counts_places(ids, i, -1);
    crate::gui::navigation::moving_counts_places(ids, i, 1);
}

} // verus!
