//! The records that the desktop and the library exchange.

use vstd::prelude::*;

use crate::text::text_opt;

verus! {

/// An article that is about to be stored.
#[derive(Debug, Clone, PartialEq, Eq)]
pub struct NewArticle {
    pub entry_id: String,
    pub url: Option<String>,
    pub title: Option<String>,
    pub author: Option<String>,
    pub published: Option<i64>,
    pub content: Option<String>,
}

pub ghost struct NewArticleView {
    pub entry_id: Seq<char>,
    pub url: Option<Seq<char>>,
    pub title: Option<Seq<char>>,
    pub author: Option<Seq<char>>,
    pub published: Option<i64>,
    pub content: Option<Seq<char>>,
}

impl View for NewArticle {
    type V = NewArticleView;

    open spec fn view(&self) -> NewArticleView {
        NewArticleView {
            entry_id: self.entry_id@,
            url: text_opt(self.url),
            title: text_opt(self.title),
            author: text_opt(self.author),
            published: self.published,
            content: text_opt(self.content),
        }
    }
}

/// A copy of an optional text.
pub fn copy_text(text: &Option<String>) -> (r: Option<String>)
    ensures
        text_opt(r) == text_opt(*text),
{
    match text {
        Some(value) => Some(value.clone()),
        None => None,
    }
}

impl NewArticle {
    pub fn copied(&self) -> (r: NewArticle)
        ensures
            r@ == self@,
    {
        NewArticle {
            entry_id: self.entry_id.clone(),
            url: copy_text(&self.url),
            title: copy_text(&self.title),
            author: copy_text(&self.author),
            published: self.published,
            content: copy_text(&self.content),
        }
    }
}

/// A stored article.
#[derive(Debug, Clone, PartialEq, Eq)]
pub struct Article {
    pub id: i64,
    pub feed_id: i64,
    pub entry_id: String,
    pub url: Option<String>,
    pub title: Option<String>,
    pub author: Option<String>,
    pub published: Option<i64>,
    pub content: Option<String>,
    pub is_read: bool,
    pub starred: bool,
    pub read_later: bool,
    pub archived: bool,
    pub fetched_at: i64,
}

/// A subscription.
#[derive(Debug, Clone, PartialEq, Eq)]
pub struct Feed {
    pub id: i64,
    pub url: String,
    pub title: Option<String>,
    pub last_fetch: Option<i64>,
    pub next_fetch: i64,
    pub last_error: Option<String>,
    pub fail_count: i64,
    pub disabled: bool,
    pub interval_secs: Option<i64>,
}

} // verus!
