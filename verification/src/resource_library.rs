//! The websites that the reader keeps.

use vstd::prelude::*;

pub use crate::knowledge_workflow::rows::{ResourceHealth, ResourcePrivacy};

verus! {

#[derive(Debug, Clone, Copy, PartialEq, Eq, Structural)]
pub enum ResourceKind {
    Site,
    Page,
    Article,
}

#[derive(Debug, Clone, Copy, PartialEq, Eq, Structural)]
pub enum ResourceCurationState {
    PendingReview,
    Active,
    Archived,
}

#[derive(Debug, Clone, Copy, PartialEq, Eq, Structural)]
pub enum ResourceSource {
    Gui,
    CliAgent,
}

#[derive(Debug, Clone, Copy, PartialEq, Eq, Structural)]
pub enum ResourceCollection {
    Active,
    PendingReview,
    Broken,
    Archived,
}

#[derive(Debug, Clone, Copy, PartialEq, Eq, Structural)]
pub enum Category {
    Tool,
    AssetLibrary,
    Docs,
    Blog,
    Inspiration,
    Service,
    Repository,
    Other,
}

#[derive(Debug, Clone, Copy, PartialEq, Eq, Structural)]
pub enum Pricing {
    Free,
    Freemium,
    Paid,
    Unknown,
}

#[derive(Debug, Clone, PartialEq, Eq)]
pub struct Resource {
    pub id: i64,
    pub url: String,
    pub kind: ResourceKind,
    pub title: Option<String>,
    pub purpose_zh: Option<String>,
    pub use_when_zh: Option<String>,
    pub private_note: Option<String>,
    pub privacy: ResourcePrivacy,
    pub curation_state: ResourceCurationState,
    pub health: ResourceHealth,
    pub manual_rating: Option<i64>,
    pub capabilities: Vec<String>,
    pub limitations: Vec<String>,
    pub pricing: Option<Pricing>,
    pub requires_login: Option<bool>,
    pub languages: Vec<String>,
}

#[derive(Debug, Clone, PartialEq, Eq)]
pub struct ResourceDetail {
    pub resource: Resource,
    pub categories: Vec<Category>,
    pub tags: Vec<String>,
}

/// How many resources each collection holds.
#[derive(Debug, Clone, Copy, PartialEq, Eq, Structural)]
pub struct ResourceCounts {
    pub active: usize,
    pub pending_review: usize,
    pub broken: usize,
    pub archived: usize,
}

#[derive(Debug, Clone, PartialEq, Eq)]
pub struct CreateResource {
    pub url: String,
    pub parent_resource_id: Option<i64>,
    pub linked_article_id: Option<i64>,
    pub kind: ResourceKind,
    pub title: Option<String>,
    pub private_note: Option<String>,
    pub privacy: ResourcePrivacy,
    pub source: ResourceSource,
    pub manual_rating: Option<i64>,
}

/// An edit by hand. It gives every editable value, changed or not.
#[derive(Debug, Clone, PartialEq, Eq)]
pub struct CompleteManualEdit {
    pub resource_id: i64,
    pub title: Option<String>,
    pub purpose_zh: Option<String>,
    pub use_when_zh: Option<String>,
    pub private_note: Option<String>,
    pub privacy: ResourcePrivacy,
    pub manual_rating: Option<i64>,
    pub categories: Vec<Category>,
    pub tags: Vec<String>,
}

/// A saved page that can be kept as a resource.
#[derive(Debug, Clone, PartialEq, Eq)]
pub struct ImportCandidate {
    pub article_id: i64,
    pub title: Option<String>,
    pub url: String,
    pub already_imported: bool,
}

/// Whether a saved resource was handed to background processing.
#[derive(Debug, Clone, PartialEq, Eq)]
pub enum HandoffDisposition {
    Accepted,
    NotNeeded,
    Deferred { user_message: String, technical_detail: String },
}

#[derive(Debug, Clone, PartialEq, Eq)]
pub struct ResourceHandoff {
    pub resource_id: i64,
    pub disposition: HandoffDisposition,
}

} // verus!
