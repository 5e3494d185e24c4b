//! The list of articles of a collection.

use vstd::prelude::*;

use crate::calendar::{format_timestamp, shown_time};
use crate::gui_state::ArticleCollection;
use crate::model::Article;
use crate::number::{decimal, decimal_usize};
use crate::text::text_opt;

verus! {

pub open spec fn collection_title(collection: Option<ArticleCollection>) -> Seq<char> {
    match collection {
        Some(ArticleCollection::Saved) => "文章收藏"@,
        Some(ArticleCollection::ReadLater) => "稍后读"@,
        Some(ArticleCollection::SearchResult(_)) => "搜索结果"@,
        _ => "文章"@,
    }
}

pub fn heading(collection: Option<ArticleCollection>) -> (r: &'static str)
    ensures
        r@ == collection_title(collection),
{
    match collection {
        Some(ArticleCollection::Saved) => "文章收藏",
        Some(ArticleCollection::ReadLater) => "稍后读",
        Some(ArticleCollection::SearchResult(_)) => "搜索结果",
        _ => "文章",
    }
}

pub fn count_label(count: usize) -> (r: String)
    ensures
        r@ == decimal(count as nat) + " 篇"@,
{
    let mut text = decimal_usize(count);
    text.append(" 篇");
    text
}

pub fn batch_label(count: usize) -> (r: String)
    ensures
        r@ == "已选 "@ + decimal(count as nat) + " 篇"@,
{
    let mut text = "已选 ".to_owned();
    text.append(&decimal_usize(count));
    text.append(" 篇");
    text
}

/// What takes the place of an empty list.
#[derive(Debug, Clone, Copy, PartialEq, Eq, Structural)]
pub enum ListState {
    Loading,
    NothingSaved,
    Listed,
}

pub fn list_state(loading: bool, saved: bool, count: usize) -> (r: ListState)
    ensures
        r == (if loading {
            ListState::Loading
        } else if saved && count == 0 {
            ListState::NothingSaved
        } else {
            ListState::Listed
        }),
{
    if loading {
        ListState::Loading
    } else if saved && count == 0 {
        ListState::NothingSaved
    } else {
        ListState::Listed
    }
}

/// The line below a title: the author and the time, where they are known.
pub open spec fn meta_text(author: Option<Seq<char>>, published: Option<i64>) -> Seq<char> {
    match (author, published) {
        (Some(name), Some(time)) => name + "  ·  "@ + shown_time(time),
        (Some(name), None) => name,
        (None, Some(time)) => shown_time(time),
        (None, None) => Seq::empty(),
    }
}

pub fn meta_line(article: &Article) -> (r: String)
    ensures
        r@ == meta_text(text_opt(article.author), article.published),
{
    match (&article.author, article.published) {
        (Some(author), Some(time)) => {
            let mut text = author.clone();
            text.append("  ·  ");
            text.append(&format_timestamp(time));
            text
        },
        (Some(author), None) => author.clone(),
        (None, Some(time)) => format_timestamp(time),
        (None, None) => String::new(),
    }
}

/// The title of an article with the marks round it: unread in front, saved
/// page or bookmark behind.
pub open spec fn row_text(article: Article, web_clip: bool) -> Seq<char> {
    (if article.is_read {
        Seq::empty()
    } else {
        "● "@
    }) + (match article.title {
        Some(title) => title@,
        None => Seq::empty(),
    }) + (if web_clip {
        "  ◫"@
    } else if article.starred {
        " ★"@
    } else {
        Seq::empty()
    })
}

pub fn row_label(article: &Article, web_clip: bool) -> (r: String)
    ensures
        r@ == row_text(*article, web_clip),
{
    let mut text = if article.is_read { String::new() } else { "● ".to_owned() };
    match &article.title {
        Some(title) => {
            text.append(title);
        },
        None => {
            proof {
                assert(text@ + Seq::<char>::empty() =~= text@);
            }
        },
    }
    if web_clip {
        text.append("  ◫");
    } else if article.starred {
        text.append(" ★");
    } else {
        proof {
            assert(text@ + Seq::<char>::empty() =~= text@);
        }
    }
    text
}

/// The entries of an article's menu.
#[derive(Debug, Clone, Copy, PartialEq, Eq, Structural)]
pub enum MenuEntry {
    /// Takes an article out of the saved ones.
    Remove,
    MarkUnread,
    ToggleStar,
    ToggleReadLater,
    EditTags,
    Archive,
}

/// A saved article can only be removed; another one offers everything else.
pub open spec fn in_menu(entry: MenuEntry, saved: bool) -> bool {
    (entry is Remove) == saved
}

pub open spec fn menu_text(entry: MenuEntry, article: Article, web_clip: bool) -> Seq<char> {
    match entry {
        MenuEntry::Remove => if web_clip {
            "删除本地网页…"@
        } else {
            "取消文章收藏"@
        },
        MenuEntry::MarkUnread => "标为未读"@,
        MenuEntry::ToggleStar => if article.starred {
            "取消文章收藏"@
        } else {
            "收藏文章"@
        },
        MenuEntry::ToggleReadLater => if article.read_later {
            "移出稍后读"@
        } else {
            "加入稍后读"@
        },
        MenuEntry::EditTags => "编辑标签…"@,
        MenuEntry::Archive => "归档文章"@,
    }
}

/// The label of a menu entry, where the collection offers it.
pub fn menu_entry(entry: MenuEntry, article: &Article, web_clip: bool, saved: bool) -> (r: Option<
    &'static str,
>)
    ensures
        match r {
            Some(label) => in_menu(entry, saved) && label@ == menu_text(entry, *article, web_clip),
            None => !in_menu(entry, saved),
        },
{
    let removes: bool = match entry {
        MenuEntry::Remove => true,
        _ => false,
    };
    if removes != saved {
        return None;
    }
    Some(
        match entry {
            MenuEntry::Remove => if web_clip {
                "删除本地网页…"
            } else {
                "取消文章收藏"
            },
            MenuEntry::MarkUnread => "标为未读",
            MenuEntry::ToggleStar => if article.starred {
                "取消文章收藏"
            } else {
                "收藏文章"
            },
            MenuEntry::ToggleReadLater => if article.read_later {
                "移出稍后读"
            } else {
                "加入稍后读"
            },
            MenuEntry::EditTags => "编辑标签…",
            MenuEntry::Archive => "归档文章",
        },
    )
}

/// A row shows a dot before an article that was not read, and behind its title
/// a frame for a clipping, or a star for an article that is starred.
pub proof fn rows_mark_what_is_unread_and_starred(article: Article, web_clip: bool)
    ensures
        ({
            let title = match article.title {
                Some(title) => title@,
                None => Seq::empty(),
            };
            &&& !article.is_read && web_clip ==> row_text(article, web_clip) == "● "@ + title
                + "  ◫"@
            &&& !article.is_read && !web_clip && article.starred ==> row_text(article, web_clip)
                == "● "@ + title + " ★"@
            &&& !article.is_read && !web_clip && !article.starred ==> row_text(article, web_clip)
                == "● "@ + title
            &&& article.is_read && web_clip ==> row_text(article, web_clip) == title + "  ◫"@
            &&& article.is_read && !web_clip && article.starred ==> row_text(article, web_clip)
                == title + " ★"@
            &&& article.is_read && !web_clip && !article.starred ==> row_text(article, web_clip)
                == title
        }),
{
    let title = match article.title {
        Some(title) => title@,
        None => Seq::empty(),
    };
    assert(Seq::<char>::empty() + title =~= title);
    assert(title + Seq::<char>::empty() =~= title);
    assert("● "@ + title + Seq::<char>::empty() =~= "● "@ + title);
}

/// The menu offers what would change the article: it takes a bookmark from one
/// that has it, and so with what is to be read later. Saved articles are only
/// taken out, clippings by being deleted.
pub proof fn menus_offer_the_change(entry: MenuEntry, article: Article, web_clip: bool, saved: bool)
    ensures
        in_menu(entry, saved) <==> (saved && entry is Remove) || (!saved && !(entry is Remove)),
        entry is Remove && web_clip ==> menu_text(entry, article, web_clip) == "删除本地网页…"@,
        entry is Remove && !web_clip ==> menu_text(entry, article, web_clip) == "取消文章收藏"@,
        entry is MarkUnread ==> menu_text(entry, article, web_clip) == "标为未读"@,
        entry is ToggleStar && article.starred ==> menu_text(entry, article, web_clip)
            == "取消文章收藏"@,
        entry is ToggleStar && !article.starred ==> menu_text(entry, article, web_clip)
            == "收藏文章"@,
        entry is ToggleReadLater && article.read_later ==> menu_text(entry, article, web_clip)
            == "移出稍后读"@,
        entry is ToggleReadLater && !article.read_later ==> menu_text(entry, article, web_clip)
            == "加入稍后读"@,
        entry is EditTags ==> menu_text(entry, article, web_clip) == "编辑标签…"@,
        entry is Archive ==> menu_text(entry, article, web_clip) == "归档文章"@,
{
}

/// Author and time are shown as far as they are known, the author first.
pub proof fn authors_stand_before_times(author: Option<Seq<char>>, published: Option<i64>)
    ensures
        author matches Some(name) ==> (published matches Some(time) ==> meta_text(author, published)
            == name + "  ·  "@ + shown_time(time)),
        published is None ==> (author matches Some(name) ==> meta_text(author, published) == name),
        author is None ==> (published matches Some(time) ==> meta_text(author, published)
            == shown_time(time)),
        author is None && published is None ==> meta_text(author, published).len() == 0,
{
}

/// Lists have the names of their collections.
pub proof fn lists_are_named(id: i64, feed: Option<i64>)
    ensures
        collection_title(Some(ArticleCollection::Saved)) == "文章收藏"@,
        collection_title(Some(ArticleCollection::ReadLater)) == "稍后读"@,
        collection_title(Some(ArticleCollection::SearchResult(id))) == "搜索结果"@,
        collection_title(Some(ArticleCollection::Feed(feed))) == "文章"@,
        collection_title(None) == "文章"@,
{
}

} // verus!
