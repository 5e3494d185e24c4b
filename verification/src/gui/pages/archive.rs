//! The page of archived articles.

use vstd::prelude::*;

use crate::calendar::{format_timestamp, shown_time};
use crate::model::Article;
use crate::number::{decimal, decimal_usize};
use crate::text::{is_blank, text_opt, trim};

verus! {

/// What a library page shows in place of its rows.
#[derive(Debug, Clone, Copy, PartialEq, Eq, Structural)]
pub enum PageBody {
    Loading,
    Empty,
    Rows,
}

pub fn page_body(loading: bool, count: usize) -> (r: PageBody)
    ensures
        r == (if loading {
            PageBody::Loading
        } else if count == 0 {
            PageBody::Empty
        } else {
            PageBody::Rows
        }),
{
    if loading {
        PageBody::Loading
    } else if count == 0 {
        PageBody::Empty
    } else {
        PageBody::Rows
    }
}

pub fn page_title(count: usize) -> (r: String)
    ensures
        r@ == "已归档文章 · "@ + decimal(count as nat),
{
    let mut text = "已归档文章 · ".to_owned();
    text.append(&decimal_usize(count));
    text
}

/// A title that is not blank, or what stands in its place.
pub open spec fn title_or(title: Option<Seq<char>>, fallback: Seq<char>) -> Seq<char> {
    if title is Some && trim(title->0).len() > 0 {
        title->0
    } else {
        fallback
    }
}

pub fn shown_title(title: &Option<String>, fallback: &str) -> (r: String)
    ensures
        r@ == title_or(text_opt(*title), fallback@),
{
    match title {
        Some(text) => if is_blank(text) {
            fallback.to_owned()
        } else {
            text.clone()
        },
        None => fallback.to_owned(),
    }
}

/// An archived article as the page shows it: with the time it was published,
/// or else fetched.
#[derive(Debug)]
pub struct ArchiveRow {
    pub title: String,
    pub date: String,
}

pub fn archive_row(article: &Article) -> (r: ArchiveRow)
    ensures
        r.title@ == title_or(text_opt(article.title), "未命名文章"@),
        r.date@ == shown_time(
            match article.published {
                Some(time) => time,
                None => article.fetched_at,
            },
        ),
{
    ArchiveRow {
        title: shown_title(&article.title, "未命名文章"),
        date: format_timestamp(
            match article.published {
                Some(time) => time,
                None => article.fetched_at,
            },
        ),
    }
}

/// A title that is missing or blank is shown as what stands for it.
pub proof fn blank_titles_are_replaced(title: Option<Seq<char>>, fallback: Seq<char>)
    ensures
        title is Some && trim(title->0).len() > 0 ==> title_or(title, fallback) == title->0,
        !(title is Some && trim(title->0).len() > 0) ==> title_or(title, fallback) == fallback,
{
}

} // verus!
