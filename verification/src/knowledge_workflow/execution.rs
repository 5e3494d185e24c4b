//! How one claimed task is carried out: the next thing to do after each
//! thing that happened.

use vstd::prelude::*;

use crate::knowledge_workflow::rows::{ResourcePrivacy, SnapshotInput};
use crate::knowledge_workflow::types::TaskStage;
use crate::text::{is_blank, text_opt, trim};

verus! {

/// Where the completion of a resource stands.
#[derive(Debug, Clone, Copy, PartialEq, Eq, Structural)]
pub enum ResourcePhase {
    Loading,
    Fetching,
    Recording,
    Reloading,
    Advancing { privacy: ResourcePrivacy },
    Preparing,
    Asking { run_id: i64 },
    Ended,
}

/// What happened.
#[derive(Debug)]
pub enum ResourceEvent {
    /// The resource was read; `stored` says that it has content already.
    Loaded { stored: bool, privacy: ResourcePrivacy },
    Fetched { final_url: String, title: Option<String>, content: String },
    /// The store was asked to move on; `false` where the fence is lost.
    Moved(bool),
    /// The provider's input was built, if there is any, and a run was opened,
    /// unless the fence is lost.
    Prepared { has_input: bool, run_id: Option<i64> },
    Answered,
    /// The last thing that was asked for failed.
    Failed { description: String },
}

/// What is done next.
#[derive(Debug)]
pub enum ResourceAction {
    Fetch,
    Record(SnapshotInput),
    Reload,
    Advance(TaskStage),
    CompleteWithoutEnrichment,
    Prepare,
    AskProvider { run_id: i64 },
    Complete { run_id: i64 },
    FailRun { run_id: i64, description: String },
    Fail { description: String },
    /// Nothing is left to do for this executor.
    Stop,
}

/// Whether a resource that has content goes to the provider.
pub open spec fn gate_phase(privacy: ResourcePrivacy, enabled: bool) -> ResourcePhase {
    if privacy is Public && enabled {
        ResourcePhase::Preparing
    } else {
        ResourcePhase::Ended
    }
}

pub open spec fn gate_action(privacy: ResourcePrivacy, enabled: bool, action: ResourceAction) -> bool {
    if privacy is Private {
        action is CompleteWithoutEnrichment
    } else if !enabled {
        action is Fail && action->Fail_description@ == "AI 资源整理未启用"@
    } else {
        action is Prepare
    }
}

fn gate(privacy: ResourcePrivacy, enabled: bool) -> (r: (ResourcePhase, ResourceAction))
    ensures
        r.0 == gate_phase(privacy, enabled),
        gate_action(privacy, enabled, r.1),
{
    match privacy {
        ResourcePrivacy::Private => (
            ResourcePhase::Ended,
            ResourceAction::CompleteWithoutEnrichment,
        ),
        ResourcePrivacy::Public => if enabled {
            (ResourcePhase::Preparing, ResourceAction::Prepare)
        } else {
            (
                ResourcePhase::Ended,
                ResourceAction::Fail { description: "AI 资源整理未启用".to_owned() },
            )
        },
    }
}

/// `context` before what went wrong.
fn in_context(context: &str, description: &str) -> (r: String)
    ensures
        r@ == context@ + ": "@ + description@,
{
    let mut text = context.to_owned();
    text.append(": ");
    text.append(description);
    text
}

/// How a failed step is described.
pub open spec fn failure_description(phase: ResourcePhase, description: Seq<char>) -> Seq<char> {
    match phase {
        ResourcePhase::Loading => "目标 Resource 不存在"@ + ": "@ + description,
        ResourcePhase::Fetching => "资源网页抓取失败"@ + ": "@ + description,
        _ => description,
    }
}

/// `event` may happen in `phase`.
pub open spec fn expected(phase: ResourcePhase, event: ResourceEvent) -> bool {
    match phase {
        ResourcePhase::Loading => event is Loaded || event is Failed,
        ResourcePhase::Fetching => event is Fetched || event is Failed,
        ResourcePhase::Recording => event is Moved || event is Failed,
        ResourcePhase::Reloading => event is Loaded || event is Failed,
        ResourcePhase::Advancing { .. } => event is Moved || event is Failed,
        ResourcePhase::Preparing => event is Prepared || event is Failed,
        ResourcePhase::Asking { .. } => event is Answered || event is Failed,
        ResourcePhase::Ended => false,
    }
}

/// The phase after an event, and what is done then.
pub open spec fn resource_step(
    phase: ResourcePhase,
    enabled: bool,
    event: ResourceEvent,
    next: ResourcePhase,
    action: ResourceAction,
) -> bool {
    match event {
        ResourceEvent::Failed { description } => next is Ended && (match phase {
            ResourcePhase::Asking { run_id } => action is FailRun && action->FailRun_run_id
                == run_id && action->FailRun_description@ == description@,
            _ => action is Fail && action->Fail_description@ == failure_description(
                phase,
                description@,
            ),
        }),
        ResourceEvent::Loaded { stored, privacy } => if phase is Reloading {
            next == gate_phase(privacy, enabled) && gate_action(privacy, enabled, action)
        } else if stored {
            next == (ResourcePhase::Advancing { privacy }) && action == ResourceAction::Advance(
                TaskStage::Organizing,
            )
        } else {
            next is Fetching && action is Fetch
        },
        ResourceEvent::Fetched { final_url, title, content } => if trim(content@).len() == 0 {
            next is Ended && action is Fail && action->Fail_description@
                == "资源网页没有可处理正文"@
        } else {
            next is Recording && action is Record && ({
                let input = action->Record_0;
                &&& text_opt(input.fetched_url) == Some(final_url@)
                &&& input.http_status == Some(200i64)
                &&& text_opt(input.title) == text_opt(title)
                &&& text_opt(input.cleaned_content) == Some(content@)
                &&& input.fetch_error is None
            })
        },
        ResourceEvent::Moved(held) => if !held {
            next is Ended && action is Stop
        } else {
            match phase {
                ResourcePhase::Advancing { privacy } => next == gate_phase(privacy, enabled)
                    && gate_action(privacy, enabled, action),
                _ => next is Reloading && action is Reload,
            }
        },
        ResourceEvent::Prepared { has_input, run_id } => if !has_input {
            next is Ended && action is Fail && action->Fail_description@
                == "Resource 缺少可整理内容"@
        } else {
            match run_id {
                Some(id) => next == (ResourcePhase::Asking { run_id: id }) && action == (
                ResourceAction::AskProvider { run_id: id }),
                None => next is Ended && action is Fail && action->Fail_description@
                    == "EXECUTOR_FENCE_LOST"@,
            }
        },
        ResourceEvent::Answered => next is Ended && (match phase {
            ResourcePhase::Asking { run_id } => action == (ResourceAction::Complete { run_id }),
            _ => true,
        }),
    }
}

/// Decides the next step of the completion of a resource. `enabled` says that
/// enrichment is switched on.
pub fn execute_resource(phase: ResourcePhase, enabled: bool, event: ResourceEvent) -> (r: (
    ResourcePhase,
    ResourceAction,
))
    requires
        expected(phase, event),
    ensures
        resource_step(phase, enabled, event, r.0, r.1),
{
    match event {
        ResourceEvent::Failed { description } => match phase {
            ResourcePhase::Asking { run_id } => (
                ResourcePhase::Ended,
                ResourceAction::FailRun { run_id, description },
            ),
            ResourcePhase::Loading => (
                ResourcePhase::Ended,
                ResourceAction::Fail {
                    description: in_context("目标 Resource 不存在", &description),
                },
            ),
            ResourcePhase::Fetching => (
                ResourcePhase::Ended,
                ResourceAction::Fail { description: in_context("资源网页抓取失败", &description) },
            ),
            _ => (ResourcePhase::Ended, ResourceAction::Fail { description }),
        },
        ResourceEvent::Loaded { stored, privacy } => if matches!(phase, ResourcePhase::Reloading) {
            gate(privacy, enabled)
        } else if stored {
            (
                ResourcePhase::Advancing { privacy },
                ResourceAction::Advance(TaskStage::Organizing),
            )
        } else {
            (ResourcePhase::Fetching, ResourceAction::Fetch)
        },
        ResourceEvent::Fetched { final_url, title, content } => if is_blank(&content) {
            (
                ResourcePhase::Ended,
                ResourceAction::Fail { description: "资源网页没有可处理正文".to_owned() },
            )
        } else {
            (
                ResourcePhase::Recording,
                ResourceAction::Record(
                    SnapshotInput {
                        fetched_url: Some(final_url),
                        http_status: Some(200),
                        title,
                        cleaned_content: Some(content),
                        fetch_error: None,
                    },
                ),
            )
        },
        ResourceEvent::Moved(held) => if !held {
            (ResourcePhase::Ended, ResourceAction::Stop)
        } else {
            match phase {
                ResourcePhase::Advancing { privacy } => gate(privacy, enabled),
                _ => (ResourcePhase::Reloading, ResourceAction::Reload),
            }
        },
        ResourceEvent::Prepared { has_input, run_id } => if !has_input {
            (
                ResourcePhase::Ended,
                ResourceAction::Fail { description: "Resource 缺少可整理内容".to_owned() },
            )
        } else {
            match run_id {
                Some(id) => (
                    ResourcePhase::Asking { run_id: id },
                    ResourceAction::AskProvider { run_id: id },
                ),
                None => (
                    ResourcePhase::Ended,
                    ResourceAction::Fail { description: "EXECUTOR_FENCE_LOST".to_owned() },
                ),
            }
        },
        ResourceEvent::Answered => match phase {
            ResourcePhase::Asking { run_id } => (
                ResourcePhase::Ended,
                ResourceAction::Complete { run_id },
            ),
            _ => (ResourcePhase::Ended, ResourceAction::Stop),
        },
    }
}

/// A phase from which the provider is about to be asked.
pub open spec fn leads_to_provider(phase: ResourcePhase) -> bool {
    phase is Preparing || phase is Asking
}

/// The privacy that the step rests on: the one just read, or the one kept
/// since it was read.
pub open spec fn known_privacy(phase: ResourcePhase, event: ResourceEvent) -> Option<
    ResourcePrivacy,
> {
    match event {
        ResourceEvent::Loaded { privacy, .. } => Some(privacy),
        _ => match phase {
            ResourcePhase::Advancing { privacy } => Some(privacy),
            _ => None,
        },
    }
}

/// A private resource never reaches the provider: the way there opens only on
/// a resource that was read as public, with enrichment switched on.
pub proof fn private_resources_are_never_sent(
    phase: ResourcePhase,
    enabled: bool,
    event: ResourceEvent,
    next: ResourcePhase,
    action: ResourceAction,
)
    requires
        expected(phase, event),
        resource_step(phase, enabled, event, next, action),
    ensures
        leads_to_provider(next) && !leads_to_provider(phase) ==> enabled && known_privacy(
            phase,
            event,
        ) == Some(ResourcePrivacy::Public),
        action is AskProvider ==> leads_to_provider(phase),
        known_privacy(phase, event) == Some(ResourcePrivacy::Private) ==> !leads_to_provider(next)
            && !(action is AskProvider) && !(action is Prepare),
{
}

/// How far the completion of a resource has come.
pub open spec fn distance(phase: ResourcePhase) -> nat {
    match phase {
        ResourcePhase::Loading => 6,
        ResourcePhase::Fetching => 5,
        ResourcePhase::Recording => 4,
        ResourcePhase::Reloading => 3,
        ResourcePhase::Advancing { .. } => 3,
        ResourcePhase::Preparing => 2,
        ResourcePhase::Asking { .. } => 1,
        ResourcePhase::Ended => 0,
    }
}

/// Every step brings the completion closer to its end.
pub proof fn completion_always_ends(
    phase: ResourcePhase,
    enabled: bool,
    event: ResourceEvent,
    next: ResourcePhase,
    action: ResourceAction,
)
    requires
        expected(phase, event),
        resource_step(phase, enabled, event, next, action),
    ensures
        distance(next) < distance(phase),
{
}

// ---- articles ---------------------------------------------------------------

#[derive(Debug)]
pub enum ArticleEvent {
    Loaded { title: Option<String>, content: Option<String> },
    LoadFailed { description: String },
    Answered { summary: String, translation: String },
    ProviderFailed { description: String },
}

#[derive(Debug)]
pub enum ArticleAction {
    AskProvider { title: String, content: String },
    Complete { summary: String, translation: String },
    Fail { description: String },
}

pub open spec fn text_or_empty(text: Option<String>) -> Seq<char> {
    match text {
        Some(value) => value@,
        None => Seq::empty(),
    }
}

fn or_empty(text: Option<String>) -> (r: String)
    ensures
        r@ == text_or_empty(text),
{
    match text {
        Some(value) => value,
        None => String::new(),
    }
}

/// Decides the next step of the summary of an article.
pub fn execute_article(event: ArticleEvent) -> (r: ArticleAction)
    ensures
        match event {
            ArticleEvent::Loaded { title, content } => r is AskProvider && r->title@
                == text_or_empty(title) && r->content@ == text_or_empty(content),
            ArticleEvent::LoadFailed { description } => r is Fail && r->description@
                == "目标 Article 不存在"@ + ": "@ + description@,
            ArticleEvent::Answered { summary, translation } => r == (ArticleAction::Complete {
                summary,
                translation,
            }),
            ArticleEvent::ProviderFailed { description } => r == (ArticleAction::Fail {
                description,
            }),
        },
{
    match event {
        ArticleEvent::Loaded { title, content } => ArticleAction::AskProvider {
            title: or_empty(title),
            content: or_empty(content),
        },
        ArticleEvent::LoadFailed { description } => ArticleAction::Fail {
            description: in_context("目标 Article 不存在", &description),
        },
        ArticleEvent::Answered { summary, translation } => ArticleAction::Complete {
            summary,
            translation,
        },
        ArticleEvent::ProviderFailed { description } => ArticleAction::Fail { description },
    }
}

/// The key that the provider is asked with.
pub fn provider_key(stored: Option<String>) -> (r: Result<String, String>)
    ensures
        match stored {
            Some(key) => r == Ok::<String, String>(key),
            None => r is Err && r->Err_0@
                == "请先在“资料库管理”中保存 DeepSeek API Key"@,
        },
{
    match stored {
        Some(key) => Ok(key),
        None => Err("请先在“资料库管理”中保存 DeepSeek API Key".to_owned()),
    }
}

/// What a connection test concludes from the provider's raw answer.
pub fn connection_verdict(raw: &str, model: &str) -> (r: Result<String, String>)
    ensures
        match r {
            Ok(message) => trim(raw@).len() > 0 && message@ == "DeepSeek 连接成功 · "@ + model@,
            Err(message) => trim(raw@).len() == 0 && message@ == "AI Provider 返回空响应"@,
        },
{
    if is_blank(raw) {
        Err("AI Provider 返回空响应".to_owned())
    } else {
        let mut message = "DeepSeek 连接成功 · ".to_owned();
        message.append(model);
        Ok(message)
    }
}

/// A resource that has its page is organized at once; one that has not is
/// fetched first, and its page recorded as it was found. A page without text
/// fails, and so does a resource with nothing to say of it.
pub proof fn resources_are_fetched_recorded_and_organized(
    phase: ResourcePhase,
    enabled: bool,
    event: ResourceEvent,
    next: ResourcePhase,
    action: ResourceAction,
)
    requires
        expected(phase, event),
        resource_step(phase, enabled, event, next, action),
    ensures
        phase is Loading ==> (event matches ResourceEvent::Loaded { stored, privacy } ==> if stored {
            action == ResourceAction::Advance(TaskStage::Organizing) && next == (
            ResourcePhase::Advancing { privacy })
        } else {
            action is Fetch && next is Fetching
        }),
        event matches ResourceEvent::Fetched { final_url, title, content } ==> {
            &&& trim(content@).len() == 0 ==> action is Fail && next is Ended
            &&& trim(content@).len() > 0 ==> (action matches ResourceAction::Record(input)
                && text_opt(input.fetched_url) == Some(final_url@) && input.http_status == Some(
                200i64,
            ) && text_opt(input.title) == text_opt(title) && text_opt(input.cleaned_content)
                == Some(content@) && input.fetch_error is None) && next is Recording
        },
        event == ResourceEvent::Moved(false) ==> action is Stop && next is Ended,
        phase is Recording && event == ResourceEvent::Moved(true) ==> action is Reload
            && next is Reloading,
        event matches ResourceEvent::Prepared { has_input, run_id } ==> {
            &&& !has_input ==> action is Fail && next is Ended
            &&& has_input && run_id is None ==> action is Fail && next is Ended
            &&& has_input ==> (run_id matches Some(id) ==> action == (ResourceAction::AskProvider {
                run_id: id,
            }) && next == (ResourcePhase::Asking { run_id: id }))
        },
        phase matches ResourcePhase::Asking { run_id } ==> {
            &&& event is Answered ==> action == (ResourceAction::Complete { run_id })
            &&& event matches ResourceEvent::Failed { description } ==> (
            action matches ResourceAction::FailRun { run_id: failed, description: told } && failed
                == run_id && told@ == description@)
        },
        event is Failed ==> next is Ended && (action is Fail || action is FailRun),
{
}

/// A resource is organized by the provider exactly where it is public and the
/// provider is enabled. A private one is complete without; a public one fails
/// where the provider is not enabled.
pub proof fn only_public_resources_are_organized(
    privacy: ResourcePrivacy,
    enabled: bool,
    action: ResourceAction,
)
    requires
        gate_action(privacy, enabled, action),
    ensures
        action is Prepare <==> privacy is Public && enabled,
        action is CompleteWithoutEnrichment <==> privacy is Private,
        action is Fail <==> privacy is Public && !enabled,
        action is Fail ==> action->Fail_description@ == "AI 资源整理未启用"@,
        gate_phase(privacy, enabled) is Preparing <==> privacy is Public && enabled,
        gate_phase(privacy, enabled) is Ended <==> !(privacy is Public && enabled),
{
}

/// A failure says what was being done.
pub proof fn failures_say_what_was_done(phase: ResourcePhase, description: Seq<char>)
    ensures
        phase is Loading ==> failure_description(phase, description) == "目标 Resource 不存在"@
            + ": "@ + description,
        phase is Fetching ==> failure_description(phase, description) == "资源网页抓取失败"@
            + ": "@ + description,
        !(phase is Loading) && !(phase is Fetching) ==> failure_description(phase, description)
            == description,
{
}

/// A failure of its own is told by what was missing or lost.
pub proof fn own_failures_say_what_was_missing(
    phase: ResourcePhase,
    enabled: bool,
    event: ResourceEvent,
    next: ResourcePhase,
    action: ResourceAction,
)
    requires
        expected(phase, event),
        resource_step(phase, enabled, event, next, action),
    ensures
        event matches ResourceEvent::Fetched { content, .. } ==> (trim(content@).len() == 0 ==> (
        action matches ResourceAction::Fail { description } && description@
            == "资源网页没有可处理正文"@)),
        event matches ResourceEvent::Prepared { has_input, run_id } ==> {
            &&& !has_input ==> (action matches ResourceAction::Fail { description } && description@
                == "Resource 缺少可整理内容"@)
            &&& has_input && run_id is None ==> (action matches ResourceAction::Fail { description }
                && description@ == "EXECUTOR_FENCE_LOST"@)
        },
{
}

} // verus!
