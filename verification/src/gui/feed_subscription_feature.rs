//! Maintaining feed subscriptions: the drafts of its modals and its panel,
//! the checks on them, and what to tell the reader afterwards.

use vstd::prelude::*;

use crate::config::{duration_seconds, parse_duration};
use crate::feed_subscription::{
    change_views, ChangeDisposition, ChangeView, InitialRefreshOutcome, SubscriptionChange,
};
use crate::gui_modal::ModalHostAction;
use crate::history_backfill_workflow::{BackfillSnapshot, BackfillStatus, SnapshotView};
use crate::model::Feed;
use crate::number::{decimal, decimal_i64, decimal_usize, signed};
use crate::text::{is_blank, same_text, text_opt, trim, trimmed};

verus! {

/// A subscription that is being added.
#[derive(Debug)]
pub struct AddDraft {
    pub url: String,
    pub error: Option<String>,
    pub focus_input: bool,
}

impl Default for AddDraft {
    fn default() -> (r: AddDraft)
        ensures
            r.url@.len() == 0,
            r.error is None,
            r.focus_input,
            !r.dirty(),
    {
        proof {
            reveal_strlit("");
        }
        AddDraft { url: "".to_owned(), error: None, focus_input: true }
    }
}

impl AddDraft {
    pub open spec fn dirty(self) -> bool {
        trim(self.url@).len() > 0
    }

    pub fn is_dirty(&self) -> (r: bool)
        ensures
            r == self.dirty(),
    {
        !is_blank(&self.url)
    }
}

/// The settings of a subscription that are being edited.
#[derive(Debug, Clone)]
pub struct SettingsDraft {
    pub feed_id: i64,
    pub title: String,
    pub url: String,
    pub disabled: bool,
    pub original_disabled: bool,
    pub interval_draft: String,
    pub original_interval: String,
    pub error: Option<String>,
}

/// How an interval is shown for editing.
pub open spec fn interval_text(seconds: Option<i64>) -> Seq<char> {
    match seconds {
        Some(n) => signed(n as int) + "s"@,
        None => Seq::empty(),
    }
}

fn write_interval(seconds: Option<i64>) -> (r: String)
    ensures
        r@ == interval_text(seconds),
{
    match seconds {
        Some(n) => {
            let mut text = decimal_i64(n);
            text.append("s");
            text
        },
        None => String::new(),
    }
}

impl SettingsDraft {
    pub open spec fn interval_changed(self) -> bool {
        trim(self.interval_draft@) != self.original_interval@
    }

    pub open spec fn dirty(self) -> bool {
        self.disabled != self.original_disabled || self.interval_changed()
    }

    /// The draft shows a feed's settings and nothing has been changed yet.
    pub open spec fn shows(self, feed: Feed) -> bool {
        &&& self.feed_id == feed.id
        &&& self.title@ == (match feed.title {
            Some(title) => title@,
            None => feed.url@,
        })
        &&& self.url@ == feed.url@
        &&& self.disabled == feed.disabled
        &&& self.original_disabled == feed.disabled
        &&& self.interval_draft@ == interval_text(feed.interval_secs)
        &&& self.original_interval@ == interval_text(feed.interval_secs)
        &&& self.error is None
    }

    pub fn from_feed(feed: &Feed) -> (r: SettingsDraft)
        ensures
            r.shows(*feed),
            !r.dirty(),
    {
        let interval = write_interval(feed.interval_secs);
        proof {
            lemma_interval_is_trimmed(feed.interval_secs);
        }
        SettingsDraft {
            feed_id: feed.id,
            title: match &feed.title {
                Some(title) => title.clone(),
                None => feed.url.clone(),
            },
            url: feed.url.clone(),
            disabled: feed.disabled,
            original_disabled: feed.disabled,
            interval_draft: interval.clone(),
            original_interval: interval,
            error: None,
        }
    }

    pub fn feed_id(&self) -> (r: i64)
        ensures
            r == self.feed_id,
    {
        self.feed_id
    }

    pub fn is_dirty(&self) -> (r: bool)
        ensures
            r == self.dirty(),
    {
        self.disabled != self.original_disabled || !same_text(
            &trimmed(&self.interval_draft),
            &self.original_interval,
        )
    }
}

proof fn lemma_decimal_first(n: nat)
    ensures
        decimal(n).len() > 0,
        !crate::text::white_space(decimal(n)[0]),
    decreases n,
{
    if n >= 10 {
        lemma_decimal_first(n / 10);
    }
}

proof fn lemma_interval_is_trimmed(seconds: Option<i64>)
    ensures
        trim(interval_text(seconds)) == interval_text(seconds),
{
    let text = interval_text(seconds);
    match seconds {
        None => {},
        Some(n) => {
            reveal_strlit("s");
            if n < 0 {
                lemma_decimal_first((-n) as nat);
            } else {
                lemma_decimal_first(n as nat);
            }
            assert(text.last() == 's');
            assert(text[0] == signed(n as int)[0]);
        },
    }
}

/// A subscription that is about to be deleted.
#[derive(Debug, Clone)]
pub struct DeleteDraft {
    pub id: i64,
    pub title: String,
}

impl DeleteDraft {
    pub fn new(id: i64, title: String) -> (r: DeleteDraft)
        ensures
            r.id == id,
            r.title@ == title@,
    {
        DeleteDraft { id, title }
    }
}

#[derive(Debug, Clone, Copy, PartialEq, Eq, Structural)]
pub enum InteractionIntent {
    Nothing,
    CompleteModal,
    ClosePanel,
    FinishPanel,
    KeepEditing,
    ConfirmDiscard,
}

/// What the desktop does after a modal or the panel was shown.
#[derive(Debug)]
pub struct Outcome {
    pub modal_action: ModalHostAction,
    pub interaction: InteractionIntent,
    pub reload: bool,
    pub select_feed_id: Option<i64>,
    pub notice: Option<String>,
}

pub ghost struct OutcomeView {
    pub modal_action: ModalHostAction,
    pub interaction: InteractionIntent,
    pub reload: bool,
    pub select_feed_id: Option<i64>,
    pub notice: Option<Seq<char>>,
}

impl View for Outcome {
    type V = OutcomeView;

    open spec fn view(&self) -> OutcomeView {
        OutcomeView {
            modal_action: self.modal_action,
            interaction: self.interaction,
            reload: self.reload,
            select_feed_id: self.select_feed_id,
            notice: text_opt(self.notice),
        }
    }
}

pub open spec fn idle(modal_action: ModalHostAction) -> OutcomeView {
    OutcomeView {
        modal_action,
        interaction: InteractionIntent::Nothing,
        reload: false,
        select_feed_id: None,
        notice: None,
    }
}

impl Outcome {
    pub fn idle(modal_action: ModalHostAction) -> (r: Outcome)
        ensures
            r@ == idle(modal_action),
    {
        Outcome {
            modal_action,
            interaction: InteractionIntent::Nothing,
            reload: false,
            select_feed_id: None,
            notice: None,
        }
    }

    fn telling(notice: String) -> (r: Outcome)
        ensures
            r@ == (OutcomeView { notice: Some(notice@), ..idle(ModalHostAction::Nothing) }),
    {
        let mut outcome = Outcome::idle(ModalHostAction::Nothing);
        outcome.notice = Some(notice);
        outcome
    }

    fn intending(interaction: InteractionIntent) -> (r: Outcome)
        ensures
            r@ == (OutcomeView { interaction, ..idle(ModalHostAction::Nothing) }),
    {
        let mut outcome = Outcome::idle(ModalHostAction::Nothing);
        outcome.interaction = interaction;
        outcome
    }
}

// ---- the history section of the panel ----------------------------------------

#[derive(Debug, Clone, Copy, PartialEq, Eq, Structural)]
pub enum HistoryAction {
    Start,
    Next,
    Pause,
    Resume,
    Retry,
}

/// What the panel of a feed shows of an import. An import of another feed is
/// not shown.
pub open spec fn shown_history(history: SnapshotView, feed_id: i64) -> SnapshotView {
    if history.feed_id == Some(feed_id) {
        history
    } else {
        SnapshotView {
            status: BackfillStatus::Idle,
            discovered: 0,
            processed: 0,
            inserted: 0,
            failed: 0,
            has_more: false,
            last_error: None,
            source_description: "自动检测归档页，未发现时使用 RSS/Atom 分页"@,
            ..history
        }
    }
}

/// Another feed is being imported.
pub open spec fn other_busy(history: SnapshotView, feed_id: i64) -> bool {
    history.feed_id != Some(feed_id) && history.status is Fetching
}

pub open spec fn history_counts(history: SnapshotView) -> Seq<char> {
    "已发现 "@ + decimal(history.discovered) + " · 已处理 "@ + decimal(history.processed) + " · 新增 "@
        + decimal(history.inserted) + " · 失败 "@ + decimal(history.failed)
}

pub open spec fn history_batch(history: SnapshotView) -> Seq<char> {
    "按每批 "@ + decimal(history.batch_size) + " 篇抓取，历史文章默认标记为已读。"@
}

/// Whether the panel offers an action on an import, and whether it shows it
/// as running.
pub open spec fn offers(history: SnapshotView, action: HistoryAction) -> bool {
    match action {
        HistoryAction::Start => history.status is Idle || history.status is Completed
            || history.status is Failed,
        HistoryAction::Next => history.has_more && (history.status is Failed
            || history.status is WaitingNextBatch),
        HistoryAction::Pause => history.status is WaitingNextBatch || history.status is Fetching,
        HistoryAction::Resume => history.status is Paused,
        HistoryAction::Retry => history.failed > 0,
    }
}

/// The label under which an action is offered.
pub open spec fn offer_label(history: SnapshotView, action: HistoryAction) -> Seq<char> {
    match action {
        HistoryAction::Start => "开始历史回补"@,
        HistoryAction::Next => if history.status is Failed {
            "重试当前分页"@
        } else {
            "抓取下一批（50 篇）"@
        },
        HistoryAction::Pause => "暂停"@,
        HistoryAction::Resume => "继续"@,
        HistoryAction::Retry => "重试失败"@,
    }
}

/// The history section of a feed's panel.
#[derive(Debug)]
pub struct HistorySection {
    pub history: BackfillSnapshot,
    pub other_busy: bool,
}

impl HistorySection {
    pub fn new(snapshot: BackfillSnapshot, feed_id: i64) -> (r: HistorySection)
        ensures
            r.history@ == shown_history(snapshot@, feed_id),
            r.other_busy == other_busy(snapshot@, feed_id),
    {
        let mut history = snapshot;
        let own: bool = match history.feed_id {
            Some(id) => id == feed_id,
            None => false,
        };
        let other_busy: bool = !own && history.status == BackfillStatus::Fetching;
        if !own {
            history.status = BackfillStatus::Idle;
            history.discovered = 0;
            history.processed = 0;
            history.inserted = 0;
            history.failed = 0;
            history.has_more = false;
            history.last_error = None;
            history.source_description = "自动检测归档页，未发现时使用 RSS/Atom 分页".to_owned();
        }
        HistorySection { history, other_busy }
    }

    pub fn counts(&self) -> (r: String)
        ensures
            r@ == history_counts(self.history@),
    {
        let mut text = "已发现 ".to_owned();
        text.append(&decimal_usize(self.history.discovered));
        text.append(" · 已处理 ");
        text.append(&decimal_usize(self.history.processed));
        text.append(" · 新增 ");
        text.append(&decimal_usize(self.history.inserted));
        text.append(" · 失败 ");
        text.append(&decimal_usize(self.history.failed));
        text
    }

    pub fn batch_note(&self) -> (r: String)
        ensures
            r@ == history_batch(self.history@),
    {
        let mut text = "按每批 ".to_owned();
        text.append(&decimal_usize(self.history.batch_size));
        text.append(" 篇抓取，历史文章默认标记为已读。");
        text
    }

    /// The label under which the section offers an action, if it does.
    pub fn offer(&self, action: HistoryAction) -> (r: Option<&'static str>)
        ensures
            match r {
                Some(label) => offers(self.history@, action) && label@ == offer_label(
                    self.history@,
                    action,
                ),
                None => !offers(self.history@, action),
            },
    {
        let status = self.history.status;
        match action {
            HistoryAction::Start => match status {
                BackfillStatus::Idle | BackfillStatus::Completed | BackfillStatus::Failed => Some(
                    "开始历史回补",
                ),
                _ => None,
            },
            HistoryAction::Next => if !self.history.has_more {
                None
            } else {
                match status {
                    BackfillStatus::Failed => Some("重试当前分页"),
                    BackfillStatus::WaitingNextBatch => Some("抓取下一批（50 篇）"),
                    _ => None,
                }
            },
            HistoryAction::Pause => match status {
                BackfillStatus::WaitingNextBatch | BackfillStatus::Fetching => Some("暂停"),
                _ => None,
            },
            HistoryAction::Resume => match status {
                BackfillStatus::Paused => Some("继续"),
                _ => None,
            },
            HistoryAction::Retry => if self.history.failed > 0 {
                Some("重试失败")
            } else {
                None
            },
        }
    }

    /// A complete import still does not cover the whole site.
    pub fn completion_note(&self) -> (r: Option<&'static str>)
        ensures
            match r {
                Some(note) => self.history@.status is Completed && note@
                    == "已读完发现的页面；不代表网站全部历史文章。"@,
                None => self.history@.status !is Completed,
            },
    {
        match self.history.status {
            BackfillStatus::Completed => Some("已读完发现的页面；不代表网站全部历史文章。"),
            _ => None,
        }
    }
}

/// At every moment the panel offers a way to go on with an import, and never
/// to start one that is running or waiting.
pub proof fn an_import_can_always_be_continued(history: SnapshotView)
    requires
        history.status is WaitingNextBatch ==> history.has_more,
    ensures
        offers(history, HistoryAction::Start) || offers(history, HistoryAction::Next) || offers(
            history,
            HistoryAction::Pause,
        ) || offers(history, HistoryAction::Resume),
        offers(history, HistoryAction::Start) ==> history.status !is Fetching
            && history.status !is WaitingNextBatch && history.status !is Paused,
        !(offers(history, HistoryAction::Pause) && offers(history, HistoryAction::Resume)),
{
}

// ---- saving the settings -------------------------------------------------------

/// What the reader did in the panel.
#[derive(Debug, Clone, Copy, PartialEq, Eq, Structural)]
pub struct PanelInput {
    pub discard_intent: Option<InteractionIntent>,
    pub history_action: Option<HistoryAction>,
    pub close: bool,
    pub save: bool,
}

/// What follows from it.
#[derive(Debug)]
pub enum PanelStep {
    /// Nothing outside the panel.
    Finish(Outcome),
    /// The import is told.
    History(HistoryAction),
    /// The changes are made, in order.
    Apply(Vec<SubscriptionChange>),
}

/// Why an edited interval cannot be saved.
pub open spec fn interval_refusal(draft: SettingsDraft) -> Option<Seq<char>> {
    let interval = trim(draft.interval_draft@);
    if !draft.interval_changed() {
        None
    } else if interval.len() == 0 {
        Some("当前版本暂不支持清除单源间隔，请输入新的间隔"@)
    } else {
        match duration_seconds(interval) {
            Some(seconds) => if seconds > 0 {
                None
            } else {
                Some("请输入大于 0 的间隔，例如 30m 或 6h"@)
            },
            None => Some("请输入大于 0 的间隔，例如 30m 或 6h"@),
        }
    }
}

/// The changes that saving makes: the interval before the switch.
pub open spec fn settings_changes(draft: SettingsDraft) -> Seq<ChangeView> {
    let interval = if draft.interval_changed() {
        seq![
            ChangeView::SetInterval(
                draft.feed_id,
                duration_seconds(trim(draft.interval_draft@))->0,
            ),
        ]
    } else {
        Seq::empty()
    };
    let switch = if draft.disabled != draft.original_disabled {
        seq![
            if draft.disabled {
                ChangeView::Disable(draft.feed_id)
            } else {
                ChangeView::Enable(draft.feed_id)
            },
        ]
    } else {
        Seq::empty()
    };
    interval + switch
}

/// Decides what follows from what the reader did in the panel. An answered
/// question comes first, then the import, then closing, then saving.
pub fn panel_step(draft: &mut SettingsDraft, input: PanelInput) -> (r: PanelStep)
    ensures
        ({
            let saving = input.discard_intent is None && input.history_action is None
                && !input.close && input.save;
            let refusal = interval_refusal(*old(draft));
            &&& match input.discard_intent {
                Some(intent) => r matches PanelStep::Finish(outcome) && outcome@ == (OutcomeView {
                    interaction: intent,
                    ..idle(ModalHostAction::Nothing)
                }),
                None => match input.history_action {
                    Some(action) => r == PanelStep::History(action),
                    None => if input.close {
                        r matches PanelStep::Finish(outcome) && outcome@ == (OutcomeView {
                            interaction: InteractionIntent::ClosePanel,
                            ..idle(ModalHostAction::Nothing)
                        })
                    } else if !input.save || refusal is Some {
                        r matches PanelStep::Finish(outcome) && outcome@ == idle(
                            ModalHostAction::Nothing,
                        )
                    } else {
                        r matches PanelStep::Apply(changes) && change_views(changes@)
                            == settings_changes(*old(draft))
                    },
                },
            }
            &&& if saving && refusal is Some {
                text_opt(final(draft).error) == refusal && *final(draft) == (SettingsDraft {
                    error: final(draft).error,
                    ..*old(draft)
                })
            } else {
                *final(draft) == *old(draft)
            }
        }),
{
    match input.discard_intent {
        Some(intent) => {
            return PanelStep::Finish(Outcome::intending(intent));
        },
        None => {},
    }
    match input.history_action {
        Some(action) => {
            return PanelStep::History(action);
        },
        None => {},
    }
    if input.close {
        return PanelStep::Finish(Outcome::intending(InteractionIntent::ClosePanel));
    }
    if !input.save {
        return PanelStep::Finish(Outcome::idle(ModalHostAction::Nothing));
    }
    let mut changes: Vec<SubscriptionChange> = Vec::new();
    let interval = trimmed(&draft.interval_draft);
    if !same_text(&interval, &draft.original_interval) {
        if crate::text::chars_of(&interval).len() == 0 {
            draft.error = Some("当前版本暂不支持清除单源间隔，请输入新的间隔".to_owned());
            return PanelStep::Finish(Outcome::idle(ModalHostAction::Nothing));
        }
        let seconds: i64 = match parse_duration(&interval) {
            Some(value) => value,
            None => 0,
        };
        if seconds <= 0 {
            draft.error = Some("请输入大于 0 的间隔，例如 30m 或 6h".to_owned());
            return PanelStep::Finish(Outcome::idle(ModalHostAction::Nothing));
        }
        changes.push(SubscriptionChange::SetInterval { id: draft.feed_id, seconds });
    }
    if draft.disabled != draft.original_disabled {
        if draft.disabled {
            changes.push(SubscriptionChange::Disable { id: draft.feed_id });
        } else {
            changes.push(SubscriptionChange::Enable { id: draft.feed_id });
        }
    }
    proof {
        assert(change_views(changes@) =~= settings_changes(*old(draft)));
    }
    PanelStep::Apply(changes)
}

pub open spec fn history_told(result: Result<(), Seq<char>>) -> Seq<char> {
    match result {
        Ok(_) => "历史回补任务已更新"@,
        Err(error) => "无法更新历史回补："@ + error,
    }
}

/// What the panel tells the reader once the import was told, or could not be.
pub fn history_outcome(error: Option<String>) -> (r: Outcome)
    ensures
        r@ == (OutcomeView {
            notice: Some(
                history_told(
                    match error {
                        None => Ok(()),
                        Some(text) => Err(text@),
                    },
                ),
            ),
            ..idle(ModalHostAction::Nothing)
        }),
{
    match error {
        None => Outcome::telling("历史回补任务已更新".to_owned()),
        Some(error) => {
            let mut text = "无法更新历史回补：".to_owned();
            text.append(&error);
            Outcome::telling(text)
        },
    }
}

/// What follows once the settings were saved, or could not be. `refresh` is
/// what became of the refresh that enabling asks for; a failure stays in the
/// draft.
pub fn settings_saved(
    draft: &mut SettingsDraft,
    result: Result<Option<InitialRefreshOutcome>, String>,
) -> (r: Outcome)
    ensures
        match result {
            Ok(refresh) => *final(draft) == *old(draft) && r@ == (OutcomeView {
                interaction: InteractionIntent::FinishPanel,
                reload: true,
                notice: Some(settings_text(refresh)),
                ..idle(ModalHostAction::Nothing)
            }),
            Err(message) => r@ == idle(ModalHostAction::Nothing) && *final(draft) == (
            SettingsDraft { error: Some(message), ..*old(draft) }),
        },
{
    match result {
        Ok(refresh) => Outcome {
            modal_action: ModalHostAction::Nothing,
            interaction: InteractionIntent::FinishPanel,
            reload: true,
            select_feed_id: None,
            notice: Some(settings_notice(&refresh).to_owned()),
        },
        Err(message) => {
            draft.error = Some(message);
            Outcome::idle(ModalHostAction::Nothing)
        },
    }
}

// ---- the modals ------------------------------------------------------------------

/// What the reader did in the modal that adds a subscription; `submit` is the
/// submitted address without blanks around it.
#[derive(Debug)]
pub enum AddStep {
    Finish(Outcome),
    Apply(SubscriptionChange),
}

/// Decides what follows in the modal that adds a subscription. Cancelling asks
/// the host to close, so that unsaved input is asked about.
pub fn add_step(draft: &AddDraft, action: ModalHostAction, shown: bool, submit: bool, cancel: bool) -> (r:
    AddStep)
    ensures
        if shown && !cancel && submit {
            r matches AddStep::Apply(change) && change@ == ChangeView::Add(trim(draft.url@))
        } else {
            r matches AddStep::Finish(outcome) && outcome@ == idle(
                if shown && cancel {
                    ModalHostAction::RequestClose
                } else {
                    action
                },
            )
        },
{
    if !shown {
        return AddStep::Finish(Outcome::idle(action));
    }
    if cancel {
        return AddStep::Finish(Outcome::idle(ModalHostAction::RequestClose));
    }
    if submit {
        AddStep::Apply(SubscriptionChange::Add { url: trimmed(&draft.url) })
    } else {
        AddStep::Finish(Outcome::idle(action))
    }
}

/// What follows once the subscription was added, or could not be. A failure
/// stays in the draft.
pub fn added(
    draft: &mut AddDraft,
    action: ModalHostAction,
    result: Result<(i64, Option<InitialRefreshOutcome>), String>,
) -> (r: Outcome)
    ensures
        match result {
            Ok((id, refresh)) => *final(draft) == *old(draft) && r@ == (OutcomeView {
                modal_action: action,
                interaction: InteractionIntent::CompleteModal,
                reload: true,
                select_feed_id: Some(id),
                notice: Some(add_text(refresh)),
            }),
            Err(message) => r@ == idle(action) && *final(draft) == (AddDraft {
                error: Some(message),
                ..*old(draft)
            }),
        },
{
    match result {
        Ok((id, refresh)) => Outcome {
            modal_action: action,
            interaction: InteractionIntent::CompleteModal,
            reload: true,
            select_feed_id: Some(id),
            notice: Some(add_notice(&refresh).to_owned()),
        },
        Err(message) => {
            draft.error = Some(message);
            Outcome::idle(action)
        },
    }
}

#[derive(Debug)]
pub enum DeleteStep {
    Finish(Outcome),
    Apply(SubscriptionChange),
}

/// Decides what follows in the modal that deletes a subscription.
pub fn delete_step(
    draft: &DeleteDraft,
    action: ModalHostAction,
    shown: bool,
    delete: bool,
    cancel: bool,
) -> (r: DeleteStep)
    ensures
        if shown && !cancel && delete {
            r matches DeleteStep::Apply(change) && change@ == ChangeView::Delete(
                signed(draft.id as int),
            )
        } else {
            r matches DeleteStep::Finish(outcome) && outcome@ == (OutcomeView {
                interaction: if shown && cancel {
                    InteractionIntent::CompleteModal
                } else {
                    InteractionIntent::Nothing
                },
                ..idle(action)
            })
        },
{
    let mut outcome = Outcome::idle(action);
    if !shown {
        return DeleteStep::Finish(outcome);
    }
    if cancel {
        outcome.interaction = InteractionIntent::CompleteModal;
        return DeleteStep::Finish(outcome);
    }
    if delete {
        DeleteStep::Apply(SubscriptionChange::Delete { target: decimal_i64(draft.id) })
    } else {
        DeleteStep::Finish(outcome)
    }
}

/// What follows once the subscription was deleted, or could not be.
pub fn deleted(action: ModalHostAction, result: Result<ChangeDisposition, String>) -> (r: Outcome)
    ensures
        r@ == (OutcomeView {
            interaction: InteractionIntent::CompleteModal,
            reload: result matches Ok(disposition) && disposition is Deleted,
            notice: Some(
                match result {
                    Ok(disposition) => if disposition is Deleted {
                        "订阅已删除"@
                    } else {
                        "没有找到该订阅"@
                    },
                    Err(message) => message@,
                },
            ),
            ..idle(action)
        }),
{
    let mut outcome = Outcome::idle(action);
    outcome.interaction = InteractionIntent::CompleteModal;
    match result {
        Ok(ChangeDisposition::Deleted) => {
            outcome.reload = true;
            outcome.notice = Some("订阅已删除".to_owned());
        },
        Ok(_) => {
            outcome.notice = Some("没有找到该订阅".to_owned());
        },
        Err(message) => {
            outcome.notice = Some(message);
        },
    }
    outcome
}

/// The question before a subscription is deleted.
pub fn delete_question(draft: &DeleteDraft) -> (r: String)
    ensures
        r@ == "确定删除订阅“"@ + draft.title@ + "”吗？"@,
{
    let mut text = "确定删除订阅“".to_owned();
    text.append(&draft.title);
    text.append("”吗？");
    text
}

/// What follows once a paused feed was enabled again, or could not be.
pub fn retry_disabled_feed(
    result: Result<(ChangeDisposition, Option<InitialRefreshOutcome>), String>,
) -> (r: Outcome)
    ensures
        r@ == (OutcomeView {
            reload: result matches Ok((disposition, _)) && disposition !is NotFound,
            notice: Some(
                match result {
                    Ok((disposition, refresh)) => retry_text(disposition, refresh),
                    Err(message) => message@,
                },
            ),
            ..idle(ModalHostAction::Nothing)
        }),
{
    match result {
        Ok((disposition, refresh)) => {
            let mut outcome = Outcome::telling(retry_notice(disposition, &refresh).to_owned());
            outcome.reload = disposition != ChangeDisposition::NotFound;
            outcome
        },
        Err(message) => Outcome::telling(message),
    }
}

// ---- texts -----------------------------------------------------------------------

pub open spec fn disabled_text(disabled: bool, fail_count: i64) -> Seq<char> {
    if !disabled {
        Seq::empty()
    } else if fail_count > 0 {
        "已暂停（连续失败 "@ + signed(fail_count as int) + " 次）"@
    } else {
        "已暂停"@
    }
}

/// Why a feed is paused: by hand, or after failures.
pub fn disabled_feed_status(disabled: bool, fail_count: i64) -> (r: String)
    ensures
        r@ == disabled_text(disabled, fail_count),
{
    if !disabled {
        String::new()
    } else if fail_count > 0 {
        let mut text = "已暂停（连续失败 ".to_owned();
        text.append(&decimal_i64(fail_count));
        text.append(" 次）");
        text
    } else {
        "已暂停".to_owned()
    }
}

pub open spec fn add_text(refresh: Option<InitialRefreshOutcome>) -> Seq<char> {
    match refresh {
        Some(InitialRefreshOutcome::Deferred) => "订阅已添加，将在资料维护结束后刷新"@,
        Some(InitialRefreshOutcome::Queued) => "订阅已添加，正在抓取文章"@,
        _ => "订阅已添加"@,
    }
}

pub fn add_notice(refresh: &Option<InitialRefreshOutcome>) -> (r: &'static str)
    ensures
        r@ == add_text(*refresh),
{
    match refresh {
        Some(InitialRefreshOutcome::Deferred) => "订阅已添加，将在资料维护结束后刷新",
        Some(InitialRefreshOutcome::Queued) => "订阅已添加，正在抓取文章",
        _ => "订阅已添加",
    }
}

pub open spec fn settings_text(refresh: Option<InitialRefreshOutcome>) -> Seq<char> {
    match refresh {
        Some(InitialRefreshOutcome::Queued) => "订阅设置已保存，正在刷新"@,
        Some(InitialRefreshOutcome::Deferred) => "订阅设置已保存，将在资料维护结束后刷新"@,
        _ => "订阅设置已保存"@,
    }
}

pub fn settings_notice(refresh: &Option<InitialRefreshOutcome>) -> (r: &'static str)
    ensures
        r@ == settings_text(*refresh),
{
    match refresh {
        Some(InitialRefreshOutcome::Queued) => "订阅设置已保存，正在刷新",
        Some(InitialRefreshOutcome::Deferred) => "订阅设置已保存，将在资料维护结束后刷新",
        _ => "订阅设置已保存",
    }
}

pub open spec fn retry_text(
    disposition: ChangeDisposition,
    refresh: Option<InitialRefreshOutcome>,
) -> Seq<char> {
    if disposition is NotFound {
        "没有找到该订阅"@
    } else {
        match refresh {
            Some(InitialRefreshOutcome::Queued) => "订阅已重新启用，正在刷新"@,
            Some(InitialRefreshOutcome::Deferred) => "订阅已重新启用，将在资料维护结束后刷新"@,
            Some(InitialRefreshOutcome::Succeeded { .. }) => "订阅已重新启用并刷新成功"@,
            Some(InitialRefreshOutcome::Degraded { .. }) => "订阅已重新启用，但刷新失败，请查看错误详情"@,
            None => "订阅已重新启用"@,
        }
    }
}

pub fn retry_notice(disposition: ChangeDisposition, refresh: &Option<InitialRefreshOutcome>) -> (r:
    &'static str)
    ensures
        r@ == retry_text(disposition, *refresh),
{
    if disposition == ChangeDisposition::NotFound {
        return "没有找到该订阅";
    }
    match refresh {
        Some(InitialRefreshOutcome::Queued) => "订阅已重新启用，正在刷新",
        Some(InitialRefreshOutcome::Deferred) => "订阅已重新启用，将在资料维护结束后刷新",
        Some(InitialRefreshOutcome::Succeeded { .. }) => "订阅已重新启用并刷新成功",
        Some(InitialRefreshOutcome::Degraded { .. }) => "订阅已重新启用，但刷新失败，请查看错误详情",
        None => "订阅已重新启用",
    }
}

// ---- what is offered and told --------------------------------------------------------

/// An import may start where none runs, go on with its next batch where one
/// waits or failed and something is left, pause while it runs or waits, go on
/// where it is paused, and try again what failed.
pub proof fn imports_offer_what_can_be_done(history: SnapshotView)
    ensures
        offers(history, HistoryAction::Start) <==> history.status is Idle
            || history.status is Completed || history.status is Failed,
        offers(history, HistoryAction::Next) <==> history.has_more && (history.status is Failed
            || history.status is WaitingNextBatch),
        offers(history, HistoryAction::Pause) <==> history.status is WaitingNextBatch
            || history.status is Fetching,
        offers(history, HistoryAction::Resume) <==> history.status is Paused,
        offers(history, HistoryAction::Retry) <==> history.failed > 0,
        offer_label(history, HistoryAction::Start) == "开始历史回补"@,
        history.status is Failed ==> offer_label(history, HistoryAction::Next) == "重试当前分页"@,
        !(history.status is Failed) ==> offer_label(history, HistoryAction::Next)
            == "抓取下一批（50 篇）"@,
        offer_label(history, HistoryAction::Pause) == "暂停"@,
        offer_label(history, HistoryAction::Resume) == "继续"@,
        offer_label(history, HistoryAction::Retry) == "重试失败"@,
{
}

/// The import that is shown is the feed's own; another feed's is shown as none,
/// but blocks while it fetches.
pub proof fn imports_are_shown_with_their_feed(history: SnapshotView, feed_id: i64)
    ensures
        history.feed_id == Some(feed_id) ==> shown_history(history, feed_id) == history,
        history.feed_id != Some(feed_id) ==> {
            let shown = shown_history(history, feed_id);
            shown.status is Idle && shown.discovered == 0 && shown.processed == 0 && shown.inserted
                == 0 && shown.failed == 0 && !shown.has_more && shown.last_error is None
        },
        other_busy(history, feed_id) <==> history.feed_id != Some(feed_id)
            && history.status is Fetching,
        history_counts(history) == "已发现 "@ + decimal(history.discovered) + " · 已处理 "@ + decimal(
            history.processed,
        ) + " · 新增 "@ + decimal(history.inserted) + " · 失败 "@ + decimal(history.failed),
        history_batch(history) == "按每批 "@ + decimal(history.batch_size)
            + " 篇抓取，历史文章默认标记为已读。"@,
{
}

/// The settings of a feed are unsaved exactly while it is switched otherwise or
/// its interval is written otherwise than it was.
pub proof fn settings_are_unsaved_while_they_differ(draft: SettingsDraft, add: AddDraft, seconds: i64)
    ensures
        draft.dirty() <==> draft.disabled != draft.original_disabled || trim(draft.interval_draft@)
            != draft.original_interval@,
        add.dirty() <==> trim(add.url@).len() > 0,
        interval_text(Some(seconds)) == signed(seconds as int) + "s"@,
        interval_text(None).len() == 0,
{
}

/// A changed interval is refused where it is empty, or no duration longer than
/// nothing. What is saved is what was changed and nothing else: the interval in
/// seconds, then the switch.
pub proof fn settings_change_what_was_changed(draft: SettingsDraft)
    ensures
        ({
            let written = trim(draft.interval_draft@);
            let changed = written != draft.original_interval@;
            let valid = duration_seconds(written) matches Some(seconds) && seconds > 0;
            &&& interval_refusal(draft) is None <==> !changed || (written.len() > 0 && valid)
            &&& changed && written.len() == 0 ==> interval_refusal(draft) == Some(
                "当前版本暂不支持清除单源间隔，请输入新的间隔"@,
            )
            &&& changed && written.len() > 0 && !valid ==> interval_refusal(draft) == Some(
                "请输入大于 0 的间隔，例如 30m 或 6h"@,
            )
            &&& interval_refusal(draft) is None ==> {
                let changes = settings_changes(draft);
                let switched = draft.disabled != draft.original_disabled;
                &&& changes.len() == (if changed {
                    1int
                } else {
                    0
                }) + (if switched {
                    1int
                } else {
                    0
                })
                &&& changed ==> changes[0] == ChangeView::SetInterval(
                    draft.feed_id,
                    duration_seconds(written)->0,
                )
                &&& switched && draft.disabled ==> changes.last() == ChangeView::Disable(
                    draft.feed_id,
                )
                &&& switched && !draft.disabled ==> changes.last() == ChangeView::Enable(
                    draft.feed_id,
                )
            }
        }),
{
}

/// What was done to a feed is told with what becomes of its refresh.
pub proof fn changes_of_feeds_are_told(
    refresh: Option<InitialRefreshOutcome>,
    disposition: ChangeDisposition,
    disabled: bool,
    fail_count: i64,
    error: Seq<char>,
)
    ensures
        refresh matches Some(InitialRefreshOutcome::Deferred) ==> add_text(refresh)
            == "订阅已添加，将在资料维护结束后刷新"@ && settings_text(refresh)
            == "订阅设置已保存，将在资料维护结束后刷新"@,
        refresh matches Some(InitialRefreshOutcome::Queued) ==> add_text(refresh)
            == "订阅已添加，正在抓取文章"@ && settings_text(refresh) == "订阅设置已保存，正在刷新"@,
        refresh is None ==> add_text(refresh) == "订阅已添加"@ && settings_text(refresh)
            == "订阅设置已保存"@,
        refresh is Some && (refresh->0 is Succeeded || refresh->0 is Degraded) ==> add_text(refresh)
            == "订阅已添加"@ && settings_text(refresh) == "订阅设置已保存"@,
        disposition is NotFound ==> retry_text(disposition, refresh) == "没有找到该订阅"@,
        !(disposition is NotFound) ==> {
            &&& refresh is None ==> retry_text(disposition, refresh) == "订阅已重新启用"@
            &&& refresh matches Some(outcome) ==> {
                &&& outcome is Queued ==> retry_text(disposition, refresh)
                    == "订阅已重新启用，正在刷新"@
                &&& outcome is Deferred ==> retry_text(disposition, refresh)
                    == "订阅已重新启用，将在资料维护结束后刷新"@
                &&& outcome is Succeeded ==> retry_text(disposition, refresh)
                    == "订阅已重新启用并刷新成功"@
                &&& outcome is Degraded ==> retry_text(disposition, refresh)
                    == "订阅已重新启用，但刷新失败，请查看错误详情"@
            }
        },
        !disabled ==> disabled_text(disabled, fail_count).len() == 0,
        disabled && fail_count > 0 ==> disabled_text(disabled, fail_count) == "已暂停（连续失败 "@
            + signed(fail_count as int) + " 次）"@,
        disabled && fail_count <= 0 ==> disabled_text(disabled, fail_count) == "已暂停"@,
        history_told(Ok(())) == "历史回补任务已更新"@,
        history_told(Err(error)) == "无法更新历史回补："@ + error,
{
}

/// The settings of a feed begin with how it stands: its title or address,
/// whether it is disabled, and its interval.
pub proof fn settings_begin_with_the_feed(draft: SettingsDraft, feed: Feed)
    requires
        draft.shows(feed),
    ensures
        draft.feed_id == feed.id,
        feed.title matches Some(title) ==> draft.title@ == title@,
        feed.title is None ==> draft.title@ == feed.url@,
        draft.url@ == feed.url@,
        draft.disabled == feed.disabled,
        draft.original_disabled == feed.disabled,
        feed.interval_secs matches Some(seconds) ==> draft.interval_draft@ == signed(seconds as int)
            + "s"@,
        feed.interval_secs is None ==> draft.interval_draft@.len() == 0,
        draft.original_interval@ == draft.interval_draft@,
        draft.error is None,
{
}

/// An outcome that does nothing tells nothing, closes nothing and chooses
/// nothing.
pub proof fn idle_outcomes_do_nothing(modal_action: ModalHostAction)
    ensures
        idle(modal_action).modal_action == modal_action,
        idle(modal_action).interaction is Nothing,
        !idle(modal_action).reload,
        idle(modal_action).select_feed_id is None,
        idle(modal_action).notice is None,
{
}

} // verus!
