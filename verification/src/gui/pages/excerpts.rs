//! The page of excerpts and thoughts.

use vstd::prelude::*;

use crate::calendar::{format_timestamp, shown_time};
use crate::gui::pages::archive::{shown_title, title_or};
use crate::gui::selection::TextAnchor;
use crate::gui_state::ArticleCollection;
use crate::number::{decimal, decimal_usize};
use crate::text::text_opt;

verus! {

/// An excerpt with what the page shows of its article.
#[derive(Debug, Clone, PartialEq, Eq)]
pub struct LibraryExcerpt {
    pub id: i64,
    pub article_id: i64,
    pub feed_id: i64,
    pub web_clipping: bool,
    pub legacy: bool,
    pub unresolved: bool,
    pub updated_at: i64,
    pub selected_text: String,
    pub anchor: TextAnchor,
    pub thought: Option<String>,
    pub article_title: Option<String>,
}

pub fn page_title(count: usize) -> (r: String)
    ensures
        r@ == "摘录与想法 · "@ + decimal(count as nat),
{
    let mut text = "摘录与想法 · ".to_owned();
    text.append(&decimal_usize(count));
    text
}

pub fn page_note(thoughts: usize) -> (r: String)
    ensures
        r@ == "摘录用于保留原文片段；其中 "@ + decimal(thoughts as nat) + " 条附有个人想法。"@,
{
    let mut text = "摘录用于保留原文片段；其中 ".to_owned();
    text.append(&decimal_usize(thoughts));
    text.append(" 条附有个人想法。");
    text
}

/// One row of the page. The marks say that it has a thought, that it comes
/// from an older version, and that its passage was not found again.
#[derive(Debug)]
pub struct ExcerptRow {
    pub quote: String,
    pub thought_mark: bool,
    pub legacy_mark: bool,
    pub unresolved_mark: bool,
    pub updated: String,
    pub article: String,
    pub edit_label: &'static str,
    pub offers_removal: bool,
}

pub fn excerpt_row(excerpt: &LibraryExcerpt) -> (r: ExcerptRow)
    ensures
        r.quote@ == "“"@ + excerpt.selected_text@ + "”"@,
        r.thought_mark == excerpt.thought is Some,
        r.legacy_mark == excerpt.legacy,
        r.unresolved_mark == excerpt.unresolved,
        r.updated@ == shown_time(excerpt.updated_at),
        r.article@ == title_or(text_opt(excerpt.article_title), "未命名文章"@),
        r.edit_label@ == (if excerpt.thought is Some {
            "编辑想法"@
        } else {
            "写想法"@
        }),
        r.offers_removal == excerpt.thought is Some,
{
    let mut quote = "“".to_owned();
    quote.append(&excerpt.selected_text);
    quote.append("”");
    ExcerptRow {
        quote,
        thought_mark: excerpt.thought.is_some(),
        legacy_mark: excerpt.legacy,
        unresolved_mark: excerpt.unresolved,
        updated: format_timestamp(excerpt.updated_at),
        article: shown_title(&excerpt.article_title, "未命名文章"),
        edit_label: if excerpt.thought.is_some() {
            "编辑想法"
        } else {
            "写想法"
        },
        offers_removal: excerpt.thought.is_some(),
    }
}

/// The collection in which the article of an excerpt is opened.
pub open spec fn source_collection(excerpt: LibraryExcerpt) -> ArticleCollection {
    if excerpt.web_clipping {
        ArticleCollection::Saved
    } else {
        ArticleCollection::Feed(Some(excerpt.feed_id))
    }
}

pub fn article_collection(excerpt: &LibraryExcerpt) -> (r: ArticleCollection)
    ensures
        r == source_collection(*excerpt),
{
    if excerpt.web_clipping {
        ArticleCollection::Saved
    } else {
        ArticleCollection::Feed(Some(excerpt.feed_id))
    }
}

/// An excerpt leads to its article: a clipping among the saved ones, and any
/// other in its feed.
pub proof fn excerpts_lead_to_their_article(excerpt: LibraryExcerpt)
    ensures
        excerpt.web_clipping ==> source_collection(excerpt) is Saved,
        !excerpt.web_clipping ==> source_collection(excerpt) == ArticleCollection::Feed(
            Some(excerpt.feed_id),
        ),
{
}

} // verus!
