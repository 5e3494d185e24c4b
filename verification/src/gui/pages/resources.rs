//! The page of the resource library.

use vstd::prelude::*;

use crate::address::{host_of, resource_domain, url_parsed};
use crate::library_search::{LibrarySearchResult, PrimaryIdentity};
use crate::number::{decimal, decimal_i64, decimal_usize, signed};
use crate::resource_library::{
    Resource, ResourceCollection, ResourceCounts, ResourceCurationState, ResourceHealth,
    ResourceKind, ResourcePrivacy,
};
use crate::text::text_opt;

verus! {

/// How far the resources of a collection are known.
#[derive(Debug, Clone, PartialEq, Eq)]
pub enum Freshness {
    Loading,
    Refreshing,
    Current,
    Failed { technical_detail: String },
    Maintenance,
}

/// What the page shows besides the cards.
#[derive(Debug)]
pub struct PageState {
    pub loading: bool,
    pub loading_more: bool,
    pub error: Option<String>,
}

/// `known` says that some resources are at hand; without anything known of
/// the collection it is loading.
pub fn page_state(freshness: Option<&Freshness>, known: bool) -> (r: PageState)
    ensures
        r.loading == (match freshness {
            Some(state) => !known && (*state is Loading || *state is Refreshing),
            None => true,
        }),
        r.loading_more == (freshness is Some && known && *freshness->0 is Refreshing),
        text_opt(r.error) == (match freshness {
            Some(Freshness::Failed { technical_detail }) => Some(
                "读取资源失败："@ + technical_detail@,
            ),
            _ => None,
        }),
{
    match freshness {
        None => PageState { loading: true, loading_more: false, error: None },
        Some(state) => {
            let (waiting, refreshing): (bool, bool) = match state {
                Freshness::Loading => (true, false),
                Freshness::Refreshing => (true, true),
                _ => (false, false),
            };
            PageState {
                loading: !known && waiting,
                loading_more: known && refreshing,
                error: match state {
                    Freshness::Failed { technical_detail } => {
                        let mut text = "读取资源失败：".to_owned();
                        text.append(technical_detail);
                        Some(text)
                    },
                    _ => None,
                },
            }
        },
    }
}

pub open spec fn filter_text(filter: ResourceCollection, counts: ResourceCounts) -> Seq<char> {
    match filter {
        ResourceCollection::Active => "我的资源 "@ + decimal(counts.active as nat),
        ResourceCollection::PendingReview => "等待确认 "@ + decimal(counts.pending_review as nat),
        ResourceCollection::Broken => "失效 "@ + decimal(counts.broken as nat),
        ResourceCollection::Archived => "归档 "@ + decimal(counts.archived as nat),
    }
}

pub fn filter_label(filter: ResourceCollection, counts: ResourceCounts) -> (r: String)
    ensures
        r@ == filter_text(filter, counts),
{
    let (label, count): (&str, usize) = match filter {
        ResourceCollection::Active => ("我的资源 ", counts.active),
        ResourceCollection::PendingReview => ("等待确认 ", counts.pending_review),
        ResourceCollection::Broken => ("失效 ", counts.broken),
        ResourceCollection::Archived => ("归档 ", counts.archived),
    };
    let mut text = label.to_owned();
    text.append(&decimal_usize(count));
    text
}

pub open spec fn filter_hint(filter: ResourceCollection) -> Seq<char> {
    match filter {
        ResourceCollection::Active => "这些网站已经确认，AI 搜索资源时会返回它们。"@,
        ResourceCollection::PendingReview =>
            "通过 CLI 添加的网站先放在这里。确认收藏后，AI 才能在默认搜索中找到。"@,
        ResourceCollection::Broken => "抓取失败或网址失效的资源，可以重试或归档。"@,
        ResourceCollection::Archived => "暂时不用的资源，不会出现在 AI 默认搜索结果中。"@,
    }
}

pub fn filter_note(filter: ResourceCollection) -> (r: &'static str)
    ensures
        r@ == filter_hint(filter),
{
    match filter {
        ResourceCollection::Active => "这些网站已经确认，AI 搜索资源时会返回它们。",
        ResourceCollection::PendingReview =>
            "通过 CLI 添加的网站先放在这里。确认收藏后，AI 才能在默认搜索中找到。",
        ResourceCollection::Broken => "抓取失败或网址失效的资源，可以重试或归档。",
        ResourceCollection::Archived => "暂时不用的资源，不会出现在 AI 默认搜索结果中。",
    }
}

pub fn page_title(count: usize) -> (r: String)
    ensures
        r@ == "资源库 · "@ + decimal(count as nat),
{
    let mut text = "资源库 · ".to_owned();
    text.append(&decimal_usize(count));
    text
}

// ---- search results -----------------------------------------------------------------------

pub fn results_label(count: usize) -> (r: String)
    ensures
        r@ == "与 CLI 相同的统一搜索结果："@ + decimal(count as nat) + " 条"@,
{
    let mut text = "与 CLI 相同的统一搜索结果：".to_owned();
    text.append(&decimal_usize(count));
    text.append(" 条");
    text
}

pub open spec fn result_kind(primary: PrimaryIdentity) -> Seq<char> {
    match primary {
        PrimaryIdentity::Resource(_) => "[网站资源]"@,
        PrimaryIdentity::Article(_) => "[收藏文章]"@,
    }
}

/// A search result as the page shows it.
#[derive(Debug)]
pub struct ResultRow {
    pub kind: &'static str,
    pub title: String,
    pub evidence: Option<String>,
}

pub fn result_row(result: &LibrarySearchResult) -> (r: ResultRow)
    ensures
        r.kind@ == result_kind(result.primary),
        r.title@ == (match result.title {
            Some(title) => title@,
            None => "未命名"@,
        }),
        text_opt(r.evidence) == (if result.evidence@.len() > 0 {
            Some(result.evidence@[0].text@)
        } else {
            None
        }),
{
    ResultRow {
        kind: match result.primary {
            PrimaryIdentity::Resource(_) => "[网站资源]",
            PrimaryIdentity::Article(_) => "[收藏文章]",
        },
        title: match &result.title {
            Some(title) => title.clone(),
            None => "未命名".to_owned(),
        },
        evidence: if result.evidence.len() > 0 {
            Some(result.evidence[0].text.clone())
        } else {
            None
        },
    }
}

// ---- cards ------------------------------------------------------------------------------------

pub open spec fn kind_text(kind: ResourceKind) -> Seq<char> {
    match kind {
        ResourceKind::Site => "网站"@,
        ResourceKind::Page => "网页"@,
        ResourceKind::Article => "文章"@,
    }
}

/// What a card says of the state of its resource: its curation before its
/// health.
pub open spec fn status_text(curation: ResourceCurationState, health: ResourceHealth) -> Seq<char> {
    match (curation, health) {
        (ResourceCurationState::PendingReview, _) => "待确认"@,
        (ResourceCurationState::Archived, _) => "已归档"@,
        (ResourceCurationState::Active, ResourceHealth::Broken) => "源站失效"@,
        (ResourceCurationState::Active, ResourceHealth::Unknown) => "待检查"@,
        (ResourceCurationState::Active, ResourceHealth::Healthy) => "可供 AI 搜索"@,
    }
}

pub open spec fn card_title(resource: Resource) -> Seq<char> {
    match resource.title {
        Some(title) => title@,
        None => "尚未整理的网站"@,
    }
}

/// A resource as the page shows it.
#[derive(Debug)]
pub struct ResourceCard {
    pub domain: String,
    pub kind: &'static str,
    pub title: String,
    pub purpose: Option<String>,
    pub note: Option<String>,
    pub status: &'static str,
    pub privacy: &'static str,
    pub rating: Option<String>,
}

pub fn resource_card(resource: &Resource) -> (r: ResourceCard)
    ensures
        r.domain@ == (match host_of(url_parsed(resource.url@)) {
            Some(host) => host,
            None => resource.url@,
        }),
        r.kind@ == kind_text(resource.kind),
        r.title@ == card_title(*resource),
        text_opt(r.purpose) == text_opt(resource.purpose_zh),
        text_opt(r.note) == (match resource.private_note {
            Some(note) => Some("备注："@ + note@),
            None => None,
        }),
        r.status@ == status_text(resource.curation_state, resource.health),
        r.privacy@ == (if resource.privacy is Private {
            "私密"@
        } else {
            "公开"@
        }),
        text_opt(r.rating) == (match resource.manual_rating {
            Some(rating) => Some("评分 "@ + signed(rating as int) + "/5"@),
            None => None,
        }),
{
    ResourceCard {
        domain: resource_domain(&resource.url),
        kind: match resource.kind {
            ResourceKind::Site => "网站",
            ResourceKind::Page => "网页",
            ResourceKind::Article => "文章",
        },
        title: match &resource.title {
            Some(title) => title.clone(),
            None => "尚未整理的网站".to_owned(),
        },
        purpose: crate::model::copy_text(&resource.purpose_zh),
        note: match &resource.private_note {
            Some(note) => {
                let mut text = "备注：".to_owned();
                text.append(note);
                Some(text)
            },
            None => None,
        },
        status: match (resource.curation_state, resource.health) {
            (ResourceCurationState::PendingReview, _) => "待确认",
            (ResourceCurationState::Archived, _) => "已归档",
            (ResourceCurationState::Active, ResourceHealth::Broken) => "源站失效",
            (ResourceCurationState::Active, ResourceHealth::Unknown) => "待检查",
            (ResourceCurationState::Active, ResourceHealth::Healthy) => "可供 AI 搜索",
        },
        privacy: match resource.privacy {
            ResourcePrivacy::Private => "私密",
            ResourcePrivacy::Public => "公开",
        },
        rating: match resource.manual_rating {
            Some(rating) => {
                let mut text = "评分 ".to_owned();
                text.append(&decimal_i64(rating));
                text.append("/5");
                Some(text)
            },
            None => None,
        },
    }
}

/// Where the card's button moves its resource.
pub open spec fn transition_target(curation: ResourceCurationState) -> ResourceCurationState {
    match curation {
        ResourceCurationState::PendingReview => ResourceCurationState::Active,
        ResourceCurationState::Active => ResourceCurationState::Archived,
        ResourceCurationState::Archived => ResourceCurationState::Active,
    }
}

pub open spec fn transition_text(curation: ResourceCurationState) -> Seq<char> {
    match curation {
        ResourceCurationState::PendingReview => "确认收藏"@,
        ResourceCurationState::Active => "归档"@,
        ResourceCurationState::Archived => "恢复"@,
    }
}

/// Processing can be asked for: only of a public resource that is in use.
pub open spec fn offers_processing(resource: Resource) -> bool {
    resource.privacy is Public && resource.curation_state !is Archived
}

/// A resource in use cannot be deleted; it has to be archived first.
pub open spec fn offers_deletion(resource: Resource) -> bool {
    resource.curation_state is PendingReview || resource.curation_state is Archived
}

/// The buttons of a card.
#[derive(Debug)]
pub struct CardActions {
    pub transition_label: &'static str,
    pub transition: ResourceCurationState,
    pub processing_label: Option<&'static str>,
    pub deletion: bool,
}

pub fn card_actions(resource: &Resource) -> (r: CardActions)
    ensures
        r.transition == transition_target(resource.curation_state),
        r.transition_label@ == transition_text(resource.curation_state),
        match r.processing_label {
            Some(label) => offers_processing(*resource) && label@ == (
            if resource.purpose_zh is None {
                "补全描述"@
            } else {
                "重新补全"@
            }),
            None => !offers_processing(*resource),
        },
        r.deletion == offers_deletion(*resource),
{
    let public: bool = match resource.privacy {
        ResourcePrivacy::Public => true,
        ResourcePrivacy::Private => false,
    };
    let archived: bool = match resource.curation_state {
        ResourceCurationState::Archived => true,
        _ => false,
    };
    CardActions {
        transition_label: match resource.curation_state {
            ResourceCurationState::PendingReview => "确认收藏",
            ResourceCurationState::Active => "归档",
            ResourceCurationState::Archived => "恢复",
        },
        transition: match resource.curation_state {
            ResourceCurationState::PendingReview => ResourceCurationState::Active,
            ResourceCurationState::Active => ResourceCurationState::Archived,
            ResourceCurationState::Archived => ResourceCurationState::Active,
        },
        processing_label: if public && !archived {
            Some(
                if resource.purpose_zh.is_none() {
                    "补全描述"
                } else {
                    "重新补全"
                },
            )
        } else {
            None
        },
        deletion: match resource.curation_state {
            ResourceCurationState::PendingReview | ResourceCurationState::Archived => true,
            ResourceCurationState::Active => false,
        },
    }
}

/// What the question before a deletion calls the resource.
pub fn deletion_title(resource: &Resource) -> (r: String)
    ensures
        r@ == (match resource.title {
            Some(title) => title@,
            None => "Resource #"@ + signed(resource.id as int),
        }),
{
    match &resource.title {
        Some(title) => title.clone(),
        None => {
            let mut text = "Resource #".to_owned();
            text.append(&decimal_i64(resource.id));
            text
        },
    }
}

/// A private resource is never offered to processing, one in use is never
/// offered for deletion, and archiving and restoring undo each other.
pub proof fn cards_respect_privacy_and_use(resource: Resource)
    ensures
        resource.privacy is Private ==> !offers_processing(resource),
        resource.curation_state is Active ==> !offers_deletion(resource),
        resource.curation_state !is PendingReview ==> transition_target(
            transition_target(resource.curation_state),
        ) == resource.curation_state,
{
}

/// Filters show their own count, and are explained.
pub proof fn filters_show_their_count(counts: ResourceCounts)
    ensures
        filter_text(ResourceCollection::Active, counts) == "我的资源 "@ + decimal(
            counts.active as nat,
        ),
        filter_text(ResourceCollection::PendingReview, counts) == "等待确认 "@ + decimal(
            counts.pending_review as nat,
        ),
        filter_text(ResourceCollection::Broken, counts) == "失效 "@ + decimal(
            counts.broken as nat,
        ),
        filter_text(ResourceCollection::Archived, counts) == "归档 "@ + decimal(
            counts.archived as nat,
        ),
        filter_hint(ResourceCollection::Active) == "这些网站已经确认，AI 搜索资源时会返回它们。"@,
        filter_hint(ResourceCollection::PendingReview)
            == "通过 CLI 添加的网站先放在这里。确认收藏后，AI 才能在默认搜索中找到。"@,
        filter_hint(ResourceCollection::Broken) == "抓取失败或网址失效的资源，可以重试或归档。"@,
        filter_hint(ResourceCollection::Archived)
            == "暂时不用的资源，不会出现在 AI 默认搜索结果中。"@,
{
}

/// A card tells what a resource is and how it stands: whether it waits for the
/// reader, was put away, or is in use, and then whether its source is there.
pub proof fn cards_tell_how_a_resource_stands(
    resource: Resource,
    primary: PrimaryIdentity,
    health: ResourceHealth,
)
    ensures
        primary is Resource ==> result_kind(primary) == "[网站资源]"@,
        primary is Article ==> result_kind(primary) == "[收藏文章]"@,
        resource.kind is Site ==> kind_text(resource.kind) == "网站"@,
        resource.kind is Page ==> kind_text(resource.kind) == "网页"@,
        resource.kind is Article ==> kind_text(resource.kind) == "文章"@,
        status_text(ResourceCurationState::PendingReview, health) == "待确认"@,
        status_text(ResourceCurationState::Archived, health) == "已归档"@,
        health is Broken ==> status_text(ResourceCurationState::Active, health) == "源站失效"@,
        health is Unknown ==> status_text(ResourceCurationState::Active, health) == "待检查"@,
        health is Healthy ==> status_text(ResourceCurationState::Active, health)
            == "可供 AI 搜索"@,
        resource.title matches Some(title) ==> card_title(resource) == title@,
        resource.title is None ==> card_title(resource) == "尚未整理的网站"@,
{
}

/// A resource that waits is confirmed, one in use is put away, and one that was
/// put away comes back. Only public resources that are not put away are
/// processed, and only those that are not in use are deleted.
pub proof fn cards_offer_the_next_step(resource: Resource)
    ensures
        transition_target(ResourceCurationState::PendingReview) is Active,
        transition_target(ResourceCurationState::Active) is Archived,
        transition_target(ResourceCurationState::Archived) is Active,
        transition_text(ResourceCurationState::PendingReview) == "确认收藏"@,
        transition_text(ResourceCurationState::Active) == "归档"@,
        transition_text(ResourceCurationState::Archived) == "恢复"@,
        offers_processing(resource) <==> resource.privacy is Public && !(
        resource.curation_state is Archived),
        offers_deletion(resource) <==> !(resource.curation_state is Active),
{
}

} // verus!
