//! What a refresh of the subscriptions reports.

use vstd::prelude::*;

verus! {

#[derive(Debug, Clone, Copy, PartialEq, Eq, Structural)]
pub enum RefreshRunStatus {
    Fetching,
    Committing,
    Succeeded,
    Degraded,
    Failed,
    Interrupted,
}

#[derive(Debug, Clone, PartialEq, Eq)]
pub struct RefreshFailure {
    pub kind: String,
    pub technical_detail: String,
}

/// What a run did for one feed.
#[derive(Debug, Clone, PartialEq, Eq)]
pub struct FeedRefresh {
    pub feed_id: i64,
    pub url: String,
    pub title: Option<String>,
    pub failure: Option<RefreshFailure>,
}

#[derive(Debug, Clone, PartialEq, Eq)]
pub struct RefreshRunSnapshot {
    pub run_id: u64,
    pub status: RefreshRunStatus,
    pub target_count: usize,
    pub completed_count: usize,
    pub failed_feed_count: usize,
    pub new_article_count: usize,
    pub feeds: Vec<FeedRefresh>,
    pub module_failure: Option<RefreshFailure>,
}

#[derive(Debug, Clone, PartialEq, Eq)]
pub struct RefreshSnapshot {
    pub paused_for_maintenance: bool,
    pub current: Option<RefreshRunSnapshot>,
    pub last_completed: Option<RefreshRunSnapshot>,
}

} // verus!
