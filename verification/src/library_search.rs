//! What a search of the library finds.

use vstd::prelude::*;

verus! {

#[derive(Debug, Clone, Copy, PartialEq, Eq, Structural)]
pub enum PrimaryIdentity {
    Resource(i64),
    Article(i64),
}

/// Why a result was found.
#[derive(Debug, Clone, PartialEq, Eq)]
pub struct Evidence {
    pub kind: String,
    pub source_id: i64,
    pub article_id: Option<i64>,
    pub field: String,
    pub text: String,
}

/// Where the article of a result can be opened.
#[derive(Debug, Clone, Copy, PartialEq, Eq, Structural)]
pub struct ArticleTarget {
    pub article_id: i64,
    pub feed_id: i64,
    pub selection_id: Option<i64>,
    pub archived: bool,
    pub web_clipping: bool,
}

#[derive(Debug, Clone, PartialEq, Eq)]
pub struct LibrarySearchResult {
    pub primary: PrimaryIdentity,
    pub title: Option<String>,
    pub url: Option<String>,
    pub privacy: Option<String>,
    pub health: Option<String>,
    pub archived: bool,
    pub updated_at: i64,
    pub evidence: Vec<Evidence>,
    pub factors: Vec<String>,
    pub article_targets: Vec<ArticleTarget>,
}

#[derive(Debug, Clone, PartialEq, Eq)]
pub enum SearchWarning {
    HistoryNotRecorded { technical_detail: String },
}

#[derive(Debug, Clone, PartialEq, Eq)]
pub struct SearchOutcome {
    pub query: String,
    pub results: Vec<LibrarySearchResult>,
    pub warnings: Vec<SearchWarning>,
}

/// A query that was asked before.
#[derive(Debug, Clone, PartialEq, Eq)]
pub struct SearchHistoryEntry {
    pub query: String,
    pub result_count: i64,
}

#[derive(Debug, Clone, Copy, PartialEq, Eq, Structural)]
pub enum SearchScope {
    Curated,
    AllArticles,
    Archive,
}

#[derive(Debug, Clone, Copy, PartialEq, Eq, Structural)]
pub enum ResultType {
    All,
    Resource,
    Article,
}

#[derive(Debug, Clone, Copy, PartialEq, Eq, Structural)]
pub enum SearchOrigin {
    Human,
    Agent,
}

#[derive(Debug, Clone, PartialEq, Eq)]
pub struct SearchRequest {
    pub query: String,
    pub scope: SearchScope,
    pub result_type: ResultType,
    pub origin: SearchOrigin,
    pub limit: usize,
}

#[derive(Debug, Clone, Copy, PartialEq, Eq, Structural)]
pub enum SearchFailureKind {
    Input,
    Maintenance,
    Storage,
    Index,
}

} // verus!
