//! What comes of a change to a subscription.

use vstd::prelude::*;

verus! {

#[derive(Debug, Clone, Copy, PartialEq, Eq, Structural)]
pub enum ChangeDisposition {
    Created,
    Changed,
    Unchanged,
    Deleted,
    NotFound,
}

/// What became of the refresh that a change asked for.
#[derive(Debug, Clone, PartialEq, Eq)]
pub enum InitialRefreshOutcome {
    Queued,
    Deferred,
    Succeeded { new_articles: usize },
    Degraded { technical_detail: Option<String> },
}

/// A change to make to a subscription.
#[derive(Debug, Clone, PartialEq, Eq)]
pub enum SubscriptionChange {
    Add { url: String },
    Delete { target: String },
    Enable { id: i64 },
    Disable { id: i64 },
    SetInterval { id: i64, seconds: i64 },
}

pub ghost enum ChangeView {
    Add(Seq<char>),
    Delete(Seq<char>),
    Enable(i64),
    Disable(i64),
    SetInterval(i64, i64),
}

impl View for SubscriptionChange {
    type V = ChangeView;

    open spec fn view(&self) -> ChangeView {
        match self {
            SubscriptionChange::Add { url } => ChangeView::Add(url@),
            SubscriptionChange::Delete { target } => ChangeView::Delete(target@),
            SubscriptionChange::Enable { id } => ChangeView::Enable(*id),
            SubscriptionChange::Disable { id } => ChangeView::Disable(*id),
            SubscriptionChange::SetInterval { id, seconds } => ChangeView::SetInterval(
                *id,
                *seconds,
            ),
        }
    }
}

pub open spec fn change_views(changes: Seq<SubscriptionChange>) -> Seq<ChangeView> {
    changes.map_values(|c: SubscriptionChange| c@)
}

} // verus!
