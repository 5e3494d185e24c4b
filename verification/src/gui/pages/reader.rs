//! The article on display: its actions, and the changes that they make.

use vstd::prelude::*;

use crate::gui::navigation::{article_ids, article_position, lemma_place_of, place_of};
use crate::gui::selection::ExcerptView;
use crate::knowledge_workflow::types::{TaskSnapshot, TaskStatus};
use crate::model::Article;
use crate::text::text_opt;

verus! {

#[derive(Debug, Clone, Copy, PartialEq, Eq, Structural)]
pub enum ReaderAction {
    Star,
    ReadLater,
    Read,
    Archive,
}

/// How an action is offered.
#[derive(Debug, Clone, Copy)]
pub struct ActionButton {
    pub label: &'static str,
    pub active: bool,
    pub enabled: bool,
}

pub open spec fn action_text(action: ReaderAction, article: Article, web_clip: bool) -> Seq<char> {
    match action {
        ReaderAction::Star => if web_clip {
            "已保存网页"@
        } else if article.starred {
            "已收藏"@
        } else {
            "收藏"@
        },
        ReaderAction::ReadLater => if article.read_later {
            "已在稍后读"@
        } else {
            "稍后读"@
        },
        ReaderAction::Read => if article.is_read {
            "标为未读"@
        } else {
            "标为已读"@
        },
        ReaderAction::Archive => if article.archived {
            "已归档"@
        } else {
            "归档"@
        },
    }
}

pub open spec fn action_active(action: ReaderAction, article: Article, web_clip: bool) -> bool {
    match action {
        ReaderAction::Star => web_clip || article.starred,
        ReaderAction::ReadLater => article.read_later,
        ReaderAction::Read => article.is_read,
        ReaderAction::Archive => article.archived,
    }
}

/// A saved page stays as it is: it can be neither taken out of the bookmarks
/// nor archived here.
pub open spec fn action_enabled(action: ReaderAction, article: Article, web_clip: bool) -> bool {
    match action {
        ReaderAction::Star => !web_clip,
        ReaderAction::Archive => !article.archived && !web_clip,
        _ => true,
    }
}

pub fn action_button(action: ReaderAction, article: &Article, web_clip: bool) -> (r: ActionButton)
    ensures
        r.label@ == action_text(action, *article, web_clip),
        r.active == action_active(action, *article, web_clip),
        r.enabled == action_enabled(action, *article, web_clip),
{
    match action {
        ReaderAction::Star => ActionButton {
            label: if web_clip {
                "已保存网页"
            } else if article.starred {
                "已收藏"
            } else {
                "收藏"
            },
            active: web_clip || article.starred,
            enabled: !web_clip,
        },
        ReaderAction::ReadLater => ActionButton {
            label: if article.read_later {
                "已在稍后读"
            } else {
                "稍后读"
            },
            active: article.read_later,
            enabled: true,
        },
        ReaderAction::Read => ActionButton {
            label: if article.is_read {
                "标为未读"
            } else {
                "标为已读"
            },
            active: article.is_read,
            enabled: true,
        },
        ReaderAction::Archive => ActionButton {
            label: if article.archived {
                "已归档"
            } else {
                "归档"
            },
            active: article.archived,
            enabled: !article.archived && !web_clip,
        },
    }
}

// ---- changes ------------------------------------------------------------------------------

/// A change to an article.
#[derive(Debug, Clone, Copy, PartialEq, Eq, Structural)]
pub enum ArticleChange {
    SetRead { article_id: i64, target: bool },
    SetBookmark { article_id: i64, target: bool },
    SetReadLater { article_id: i64, target: bool },
    SetArchived { article_id: i64, target: bool },
}

/// The article with this identity.
pub open spec fn found(articles: Seq<Article>, id: i64) -> Option<Article> {
    match place_of(article_ids(articles), id) {
        Some(i) => Some(articles[i]),
        None => None,
    }
}

fn find_article(articles: &[Article], id: i64) -> (r: Option<&Article>)
    ensures
        match r {
            Some(article) => found(articles@, id) == Some(*article),
            None => found(articles@, id) is None,
        },
{
    match article_position(articles, id) {
        Some(i) => Some(&articles[i]),
        None => None,
    }
}

/// Only an article that was read can be marked unread.
pub fn mark_unread(articles: &[Article], id: i64) -> (r: Option<ArticleChange>)
    ensures
        r == (match found(articles@, id) {
            Some(article) => if article.is_read {
                Some(ArticleChange::SetRead { article_id: id, target: false })
            } else {
                None
            },
            None => None,
        }),
{
    match find_article(articles, id) {
        Some(article) => if article.is_read {
            Some(ArticleChange::SetRead { article_id: id, target: false })
        } else {
            None
        },
        None => None,
    }
}

pub fn toggle_star(articles: &[Article], id: i64) -> (r: Option<ArticleChange>)
    ensures
        r == (match found(articles@, id) {
            Some(article) => Some(
                ArticleChange::SetBookmark { article_id: id, target: !article.starred },
            ),
            None => None,
        }),
{
    match find_article(articles, id) {
        Some(article) => Some(
            ArticleChange::SetBookmark { article_id: id, target: !article.starred },
        ),
        None => None,
    }
}

pub fn toggle_read_later(articles: &[Article], id: i64) -> (r: Option<ArticleChange>)
    ensures
        r == (match found(articles@, id) {
            Some(article) => Some(
                ArticleChange::SetReadLater { article_id: id, target: !article.read_later },
            ),
            None => None,
        }),
{
    match find_article(articles, id) {
        Some(article) => Some(
            ArticleChange::SetReadLater { article_id: id, target: !article.read_later },
        ),
        None => None,
    }
}

/// What the reader is told once a change was made. A restored article is
/// opened, and the reader is told then.
pub open spec fn change_notice(change: ArticleChange) -> Option<Seq<char>> {
    match change {
        ArticleChange::SetRead { .. } => None,
        ArticleChange::SetBookmark { target, .. } => Some(
            if target {
                "已收藏文章，可在左侧「文章收藏」查看"@
            } else {
                "已取消文章收藏"@
            },
        ),
        ArticleChange::SetReadLater { target, .. } => Some(
            if target {
                "已加入稍后读"@
            } else {
                "已移出稍后读"@
            },
        ),
        ArticleChange::SetArchived { target, .. } => if target {
            Some("文章已归档，后续刷新不会重新出现"@)
        } else {
            None
        },
    }
}

pub fn change_done(change: ArticleChange) -> (r: Option<&'static str>)
    ensures
        match r {
            Some(text) => change_notice(change) == Some(text@),
            None => change_notice(change) is None,
        },
{
    match change {
        ArticleChange::SetRead { .. } => None,
        ArticleChange::SetBookmark { target, .. } => Some(
            if target {
                "已收藏文章，可在左侧「文章收藏」查看"
            } else {
                "已取消文章收藏"
            },
        ),
        ArticleChange::SetReadLater { target, .. } => Some(
            if target {
                "已加入稍后读"
            } else {
                "已移出稍后读"
            },
        ),
        ArticleChange::SetArchived { target, .. } => if target {
            Some("文章已归档，后续刷新不会重新出现")
        } else {
            None
        },
    }
}

/// What a failed change is called.
pub open spec fn change_name(change: ArticleChange, automatic: bool) -> Seq<char> {
    match change {
        ArticleChange::SetRead { target, .. } => if automatic {
            "自动标记已读"@
        } else if target {
            "标记已读"@
        } else {
            "标记未读"@
        },
        ArticleChange::SetBookmark { target, .. } => if target {
            "收藏文章"@
        } else {
            "取消文章收藏"@
        },
        ArticleChange::SetReadLater { .. } => "更新稍后读"@,
        ArticleChange::SetArchived { target, .. } => if target {
            "归档文章"@
        } else {
            "恢复文章"@
        },
    }
}

/// What the reader is told of a change that failed. `automatic` says that
/// nobody asked for it.
pub fn change_failed(change: ArticleChange, automatic: bool, message: &str) -> (r: String)
    ensures
        r@ == change_name(change, automatic) + "失败："@ + message@,
{
    let mut text = match change {
        ArticleChange::SetRead { target, .. } => if automatic {
            "自动标记已读".to_owned()
        } else if target {
            "标记已读".to_owned()
        } else {
            "标记未读".to_owned()
        },
        ArticleChange::SetBookmark { target, .. } => if target {
            "收藏文章".to_owned()
        } else {
            "取消文章收藏".to_owned()
        },
        ArticleChange::SetReadLater { .. } => "更新稍后读".to_owned(),
        ArticleChange::SetArchived { target, .. } => if target {
            "归档文章".to_owned()
        } else {
            "恢复文章".to_owned()
        },
    };
    text.append("失败：");
    text.append(message);
    text
}

/// What taking an article out of the saved ones means.
#[derive(Debug)]
pub enum Removal {
    /// A saved page is deleted for good, which has to be confirmed.
    AskToDelete { article_id: i64, title: String },
    /// A bookmark is taken away.
    Change(ArticleChange),
    Nothing,
}

pub fn remove_saved_article(articles: &[Article], web_clip: bool, id: i64) -> (r: Removal)
    ensures
        if web_clip {
            r matches Removal::AskToDelete { article_id, title } && article_id == id && title@ == (
            match found(articles@, id) {
                Some(article) => match article.title {
                    Some(text) => text@,
                    None => "未命名网页"@,
                },
                None => "未命名网页"@,
            })
        } else {
            match found(articles@, id) {
                Some(article) => r == Removal::Change(
                    ArticleChange::SetBookmark { article_id: id, target: !article.starred },
                ),
                None => r is Nothing,
            }
        },
{
    if web_clip {
        let title: String = match find_article(articles, id) {
            Some(article) => match &article.title {
                Some(text) => text.clone(),
                None => "未命名网页".to_owned(),
            },
            None => "未命名网页".to_owned(),
        };
        return Removal::AskToDelete { article_id: id, title };
    }
    match toggle_star(articles, id) {
        Some(change) => Removal::Change(change),
        None => Removal::Nothing,
    }
}

// ---- summaries and excerpts ---------------------------------------------------------------------

pub open spec fn busy(task: Option<TaskSnapshot>) -> bool {
    task is Some && (task->0.status is Queued || task->0.status is Running)
}

pub fn summary_busy(task: &Option<TaskSnapshot>) -> (r: bool)
    ensures
        r == busy(*task),
{
    match task {
        Some(task) => match task.status {
            TaskStatus::Queued | TaskStatus::Running => true,
            _ => false,
        },
        None => false,
    }
}

pub fn summary_label(task: &Option<TaskSnapshot>, has_summary: bool) -> (r: &'static str)
    ensures
        r@ == (if busy(*task) {
            "AI 处理中…"@
        } else if has_summary {
            "重新总结与翻译"@
        } else {
            "AI 总结与翻译"@
        }),
{
    if summary_busy(task) {
        "AI 处理中…"
    } else if has_summary {
        "重新总结与翻译"
    } else {
        "AI 总结与翻译"
    }
}

/// The technical detail of a summary that failed.
pub fn summary_failure(task: &Option<TaskSnapshot>) -> (r: Option<String>)
    ensures
        text_opt(r) == (match *task {
            Some(task) => if task.status is Failed || task.status is Interrupted {
                Some(
                    match task.technical_detail {
                        Some(detail) => detail@,
                        None => "未知错误"@,
                    },
                )
            } else {
                None
            },
            None => None,
        }),
{
    match task {
        Some(task) => match task.status {
            TaskStatus::Failed | TaskStatus::Interrupted => Some(
                match &task.technical_detail {
                    Some(detail) => detail.clone(),
                    None => "未知错误".to_owned(),
                },
            ),
            _ => None,
        },
        None => None,
    }
}

/// How an excerpt is deleted: one with a thought only after a question.
#[derive(Debug, Clone, Copy, PartialEq, Eq, Structural)]
pub enum ExcerptDeletion {
    Ask,
    Now,
}

pub fn request_delete_excerpt(excerpt: &ExcerptView) -> (r: ExcerptDeletion)
    ensures
        r is Ask <==> excerpt.thought is Some,
{
    if excerpt.thought.is_some() {
        ExcerptDeletion::Ask
    } else {
        ExcerptDeletion::Now
    }
}

/// What the reader did with a list of excerpts. Only the first of several
/// choices counts.
#[derive(Debug, Clone, Copy, PartialEq, Eq, Structural)]
pub enum ExcerptChoice {
    EditThought,
    RemoveThought,
    DeleteExcerpt,
    Nothing,
}

pub fn excerpt_choice(edit: bool, remove: bool, delete: bool) -> (r: ExcerptChoice)
    ensures
        r == (if edit {
            ExcerptChoice::EditThought
        } else if remove {
            ExcerptChoice::RemoveThought
        } else if delete {
            ExcerptChoice::DeleteExcerpt
        } else {
            ExcerptChoice::Nothing
        }),
{
    if edit {
        ExcerptChoice::EditThought
    } else if remove {
        ExcerptChoice::RemoveThought
    } else if delete {
        ExcerptChoice::DeleteExcerpt
    } else {
        ExcerptChoice::Nothing
    }
}

/// A button shows as pressed what is so of the article, and says it, or what it
/// would change. Clippings cannot be starred or archived, and what is archived
/// cannot be archived again.
pub proof fn buttons_show_what_is_so(action: ReaderAction, article: Article, web_clip: bool)
    ensures
        action_active(ReaderAction::Star, article, web_clip) <==> web_clip || article.starred,
        action_active(ReaderAction::ReadLater, article, web_clip) <==> article.read_later,
        action_active(ReaderAction::Read, article, web_clip) <==> article.is_read,
        action_active(ReaderAction::Archive, article, web_clip) <==> article.archived,
        action_enabled(action, article, web_clip) <==> !(action is Star && web_clip) && !(
        action is Archive && (web_clip || article.archived)),
        web_clip ==> action_text(ReaderAction::Star, article, web_clip) == "已保存网页"@,
        !web_clip && article.starred ==> action_text(ReaderAction::Star, article, web_clip)
            == "已收藏"@,
        !web_clip && !article.starred ==> action_text(ReaderAction::Star, article, web_clip)
            == "收藏"@,
        article.read_later ==> action_text(ReaderAction::ReadLater, article, web_clip)
            == "已在稍后读"@,
        !article.read_later ==> action_text(ReaderAction::ReadLater, article, web_clip)
            == "稍后读"@,
        article.is_read ==> action_text(ReaderAction::Read, article, web_clip) == "标为未读"@,
        !article.is_read ==> action_text(ReaderAction::Read, article, web_clip) == "标为已读"@,
        article.archived ==> action_text(ReaderAction::Archive, article, web_clip) == "已归档"@,
        !article.archived ==> action_text(ReaderAction::Archive, article, web_clip) == "归档"@,
{
}

/// What was changed is told, but for reading; and what could not be is named.
pub proof fn changes_of_articles_are_told(id: i64, target: bool, automatic: bool)
    ensures
        change_notice(ArticleChange::SetRead { article_id: id, target }) is None,
        change_notice(ArticleChange::SetBookmark { article_id: id, target: true }) == Some(
            "已收藏文章，可在左侧「文章收藏」查看"@,
        ),
        change_notice(ArticleChange::SetBookmark { article_id: id, target: false }) == Some(
            "已取消文章收藏"@,
        ),
        change_notice(ArticleChange::SetReadLater { article_id: id, target: true }) == Some(
            "已加入稍后读"@,
        ),
        change_notice(ArticleChange::SetReadLater { article_id: id, target: false }) == Some(
            "已移出稍后读"@,
        ),
        change_notice(ArticleChange::SetArchived { article_id: id, target: true }) == Some(
            "文章已归档，后续刷新不会重新出现"@,
        ),
        change_notice(ArticleChange::SetArchived { article_id: id, target: false }) is None,
        change_name(ArticleChange::SetRead { article_id: id, target }, true) == "自动标记已读"@,
        change_name(ArticleChange::SetRead { article_id: id, target: true }, false)
            == "标记已读"@,
        change_name(ArticleChange::SetRead { article_id: id, target: false }, false)
            == "标记未读"@,
        change_name(ArticleChange::SetBookmark { article_id: id, target: true }, automatic)
            == "收藏文章"@,
        change_name(ArticleChange::SetBookmark { article_id: id, target: false }, automatic)
            == "取消文章收藏"@,
        change_name(ArticleChange::SetReadLater { article_id: id, target }, automatic)
            == "更新稍后读"@,
        change_name(ArticleChange::SetArchived { article_id: id, target: true }, automatic)
            == "归档文章"@,
        change_name(ArticleChange::SetArchived { article_id: id, target: false }, automatic)
            == "恢复文章"@,
{
}

/// An article is found by its number, and a summary is under way while its task
/// waits or runs.
pub proof fn articles_are_found_by_number(articles: Seq<Article>, id: i64, task: Option<TaskSnapshot>)
    ensures
        found(articles, id) matches Some(article) ==> article.id == id && articles.contains(
            article,
        ),
        found(articles, id) is None <==> forall|i: int|
            0 <= i < articles.len() ==> (#[trigger] articles[i]).id != id,
        busy(task) <==> (task matches Some(shown) && (shown.status is Queued
            || shown.status is Running)),
{
    let ids = article_ids(articles);
    lemma_place_of(ids, id);
    match place_of(ids, id) {
        Some(i) => {
            assert(articles[i].id == ids[i]);
        },
        None => {
            assert forall|i: int| 0 <= i < articles.len() implies (#[trigger] articles[i]).id
                != id by {
                assert(ids[i] == articles[i].id);
            }
        },
    }
}

} // verus!
