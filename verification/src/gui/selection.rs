//! Text that the reader selected in an article.

use vstd::prelude::*;

verus! {

/// Where an excerpt stands in the text of its article.
#[derive(Debug, Clone, PartialEq, Eq)]
pub struct TextAnchor {
    pub start_offset: Option<i64>,
    pub end_offset: Option<i64>,
    pub prefix: String,
    pub suffix: String,
}

/// A selection that is to become an excerpt.
#[derive(Debug, Clone, PartialEq, Eq)]
pub struct ExcerptCapture {
    pub article_id: i64,
    pub selected_text: String,
    pub anchor: TextAnchor,
}

/// A stored excerpt and the thought that is attached to it.
#[derive(Debug, Clone, PartialEq, Eq)]
pub struct ExcerptView {
    pub id: i64,
    pub article_id: i64,
    pub selected_text: String,
    pub anchor: TextAnchor,
    pub thought: Option<String>,
}

/// The selection that an action works on.
#[derive(Debug, Clone, PartialEq, Eq)]
pub struct SelectedQuote {
    pub article_id: i64,
    pub text: String,
    pub start_offset: Option<i64>,
    pub end_offset: Option<i64>,
    pub anchor_prefix: String,
    pub anchor_suffix: String,
}

pub ghost struct QuoteView {
    pub article_id: i64,
    pub text: Seq<char>,
    pub start_offset: Option<i64>,
    pub end_offset: Option<i64>,
    pub anchor_prefix: Seq<char>,
    pub anchor_suffix: Seq<char>,
}

impl View for SelectedQuote {
    type V = QuoteView;

    open spec fn view(&self) -> QuoteView {
        QuoteView {
            article_id: self.article_id,
            text: self.text@,
            start_offset: self.start_offset,
            end_offset: self.end_offset,
            anchor_prefix: self.anchor_prefix@,
            anchor_suffix: self.anchor_suffix@,
        }
    }
}

pub open spec fn quote_view(quote: Option<SelectedQuote>) -> Option<QuoteView> {
    match quote {
        Some(value) => Some(value@),
        None => None,
    }
}

/// The passage that stands at an anchor in an article.
pub open spec fn passage_at(article_id: i64, text: Seq<char>, anchor: TextAnchor) -> QuoteView {
    QuoteView {
        article_id,
        text,
        start_offset: anchor.start_offset,
        end_offset: anchor.end_offset,
        anchor_prefix: anchor.prefix@,
        anchor_suffix: anchor.suffix@,
    }
}

impl SelectedQuote {
    /// The passage that stands at an anchor in an article.
    pub fn at(article_id: i64, text: &str, anchor: &TextAnchor) -> (r: SelectedQuote)
        ensures
            r@ == passage_at(article_id, text@, *anchor),
    {
        SelectedQuote {
            article_id,
            text: text.to_owned(),
            start_offset: anchor.start_offset,
            end_offset: anchor.end_offset,
            anchor_prefix: anchor.prefix.clone(),
            anchor_suffix: anchor.suffix.clone(),
        }
    }

    pub fn capture(&self) -> (r: ExcerptCapture)
        ensures
            r.article_id == self.article_id,
            r.selected_text@ == self.text@,
            r.anchor.start_offset == self.start_offset,
            r.anchor.end_offset == self.end_offset,
            r.anchor.prefix@ == self.anchor_prefix@,
            r.anchor.suffix@ == self.anchor_suffix@,
    {
        ExcerptCapture {
            article_id: self.article_id,
            selected_text: self.text.clone(),
            anchor: TextAnchor {
                start_offset: self.start_offset,
                end_offset: self.end_offset,
                prefix: self.anchor_prefix.clone(),
                suffix: self.anchor_suffix.clone(),
            },
        }
    }

    /// The quote is the passage that an excerpt keeps.
    pub open spec fn quotes(self, excerpt: ExcerptView) -> bool {
        &&& self.article_id == excerpt.article_id
        &&& self.text@ == excerpt.selected_text@
        &&& self.start_offset == excerpt.anchor.start_offset
        &&& self.end_offset == excerpt.anchor.end_offset
        &&& self.anchor_prefix@ == excerpt.anchor.prefix@
        &&& self.anchor_suffix@ == excerpt.anchor.suffix@
    }

    pub fn from_excerpt(excerpt: &ExcerptView) -> (r: SelectedQuote)
        ensures
            r.quotes(*excerpt),
    {
        SelectedQuote {
            article_id: excerpt.article_id,
            text: excerpt.selected_text.clone(),
            start_offset: excerpt.anchor.start_offset,
            end_offset: excerpt.anchor.end_offset,
            anchor_prefix: excerpt.anchor.prefix.clone(),
            anchor_suffix: excerpt.anchor.suffix.clone(),
        }
    }
}

/// The popover over a selection. A later selection has another generation, so
/// that closing the earlier popover does not close the later one.
#[derive(Debug, Clone)]
pub struct SelectionPopoverState {
    pub quote: SelectedQuote,
    pub generation: u64,
}

#[derive(Debug, Clone, Copy, PartialEq, Eq, Structural)]
pub enum SelectionAction {
    Copy,
    Favorite,
    Comment,
}

/// A passage is known by its article, its text, and where it stands between
/// what comes before and behind it.
pub proof fn passages_keep_their_place(article_id: i64, text: Seq<char>, anchor: TextAnchor)
    ensures
        ({
            let quote = passage_at(article_id, text, anchor);
            &&& quote.article_id == article_id
            &&& quote.text == text
            &&& quote.start_offset == anchor.start_offset
            &&& quote.end_offset == anchor.end_offset
            &&& quote.anchor_prefix == anchor.prefix@
            &&& quote.anchor_suffix == anchor.suffix@
        }),
{
}

/// What quotes an excerpt is its own passage, in its own place.
pub proof fn quotes_stand_for_their_excerpt(quote: SelectedQuote, excerpt: ExcerptView)
    requires
        quote.quotes(excerpt),
    ensures
        quote@ == passage_at(excerpt.article_id, excerpt.selected_text@, excerpt.anchor),
{
}

} // verus!
