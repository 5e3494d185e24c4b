//! Saving and deleting web pages: the drafts of the modals, and what follows
//! from a capture that runs in the background.

use vstd::prelude::*;

use crate::gui_modal::ModalHostAction;
use crate::text::{is_blank, text_opt, trim, trimmed};

verus! {

/// How far a capture has come. A capture that ended says how.
#[derive(Debug, Clone, PartialEq, Eq)]
pub enum CaptureState {
    Fetching,
    Preparing,
    Committing,
    Succeeded { article_id: i64 },
    Failed { user_message: String },
    Cancelled { maintenance: bool, user_message: String },
}

impl CaptureState {
    pub open spec fn terminal(self) -> bool {
        self is Succeeded || self is Failed || self is Cancelled
    }

    pub fn is_terminal(&self) -> (r: bool)
        ensures
            r == self.terminal(),
    {
        match self {
            CaptureState::Fetching | CaptureState::Preparing | CaptureState::Committing => false,
            CaptureState::Succeeded { .. } | CaptureState::Failed { .. }
            | CaptureState::Cancelled { .. } => true,
        }
    }
}

/// A web page that is being saved. The source is an address, or pasted HTML
/// whose relative links are read against `base_url`.
#[derive(Debug)]
pub struct WebClipDialog {
    pub source: String,
    pub title: String,
    pub base_url: String,
    pub capture: Option<u64>,
    pub error: Option<String>,
    pub focus_input: bool,
}

impl Default for WebClipDialog {
    fn default() -> (r: WebClipDialog)
        ensures
            r.blank(),
            !r.dirty(),
    {
        proof {
            reveal_strlit("");
        }
        WebClipDialog {
            source: "".to_owned(),
            title: "".to_owned(),
            base_url: "".to_owned(),
            capture: None,
            error: None,
            focus_input: true,
        }
    }
}

impl WebClipDialog {
    /// Nothing has been entered yet.
    pub open spec fn blank(self) -> bool {
        &&& self.source@.len() == 0
        &&& self.title@.len() == 0
        &&& self.base_url@.len() == 0
        &&& self.capture is None
        &&& self.error is None
        &&& self.focus_input
    }

    pub open spec fn dirty(self) -> bool {
        trim(self.source@).len() > 0 || trim(self.title@).len() > 0 || trim(self.base_url@).len()
            > 0 || self.capture is Some
    }

    pub fn is_dirty(&self) -> (r: bool)
        ensures
            r == self.dirty(),
    {
        !is_blank(&self.source) || !is_blank(&self.title) || !is_blank(&self.base_url)
            || self.capture.is_some()
    }

    pub fn owns_capture(&self, id: u64) -> (r: bool)
        ensures
            r == (self.capture == Some(id)),
    {
        match self.capture {
            Some(own) => own == id,
            None => false,
        }
    }

    /// The capture ended without a saved page; the draft stays.
    pub fn fail_capture(&mut self, message: String)
        ensures
            *final(self) == (WebClipDialog { capture: None, error: Some(message), ..*old(self) }),
    {
        self.capture = None;
        self.error = Some(message);
    }
}

/// A saved page that is about to be deleted.
#[derive(Debug, Clone)]
pub struct DeleteWebClipDialog {
    pub article_id: i64,
    pub title: String,
}

impl DeleteWebClipDialog {
    pub fn new(article_id: i64, title: String) -> (r: DeleteWebClipDialog)
        ensures
            r.article_id == article_id,
            r.title@ == title@,
    {
        DeleteWebClipDialog { article_id, title }
    }
}

#[derive(Debug, Clone, Copy, PartialEq, Eq, Structural)]
pub enum InteractionIntent {
    Nothing,
    CompleteModal,
}

/// What the desktop does after a modal was shown.
#[derive(Debug)]
pub struct Outcome {
    pub modal_action: ModalHostAction,
    pub interaction: InteractionIntent,
    pub deleted_article_id: Option<i64>,
    pub notice: Option<String>,
}

pub ghost struct OutcomeView {
    pub modal_action: ModalHostAction,
    pub interaction: InteractionIntent,
    pub deleted_article_id: Option<i64>,
    pub notice: Option<Seq<char>>,
}

impl View for Outcome {
    type V = OutcomeView;

    open spec fn view(&self) -> OutcomeView {
        OutcomeView {
            modal_action: self.modal_action,
            interaction: self.interaction,
            deleted_article_id: self.deleted_article_id,
            notice: text_opt(self.notice),
        }
    }
}

pub open spec fn idle(modal_action: ModalHostAction) -> OutcomeView {
    OutcomeView {
        modal_action,
        interaction: InteractionIntent::Nothing,
        deleted_article_id: None,
        notice: None,
    }
}

impl Outcome {
    pub fn idle(modal_action: ModalHostAction) -> (r: Outcome)
        ensures
            r@ == idle(modal_action),
    {
        Outcome {
            modal_action,
            interaction: InteractionIntent::Nothing,
            deleted_article_id: None,
            notice: None,
        }
    }
}

// ---- saving -----------------------------------------------------------------------

/// A capture of the dialog is running.
pub open spec fn active(state: Option<CaptureState>) -> bool {
    state is Some && !state->0.terminal()
}

pub fn capture_active(state: &Option<CaptureState>) -> (r: bool)
    ensures
        r == active(*state),
{
    match state {
        Some(state) => !state.is_terminal(),
        None => false,
    }
}

pub open spec fn import_text(state: Option<CaptureState>) -> Seq<char> {
    match state {
        Some(CaptureState::Fetching) => "正在抓取…"@,
        Some(CaptureState::Preparing) => "正在整理…"@,
        Some(CaptureState::Committing) => "正在保存…"@,
        _ => "保存网页"@,
    }
}

pub fn import_label(state: &Option<CaptureState>) -> (r: &'static str)
    ensures
        r@ == import_text(*state),
{
    match state {
        Some(CaptureState::Fetching) => "正在抓取…",
        Some(CaptureState::Preparing) => "正在整理…",
        Some(CaptureState::Committing) => "正在保存…",
        _ => "保存网页",
    }
}

pub fn cancel_label(state: &Option<CaptureState>) -> (r: &'static str)
    ensures
        r@ == (if active(*state) {
            "关闭窗口"@
        } else {
            "取消"@
        }),
{
    if capture_active(state) {
        "关闭窗口"
    } else {
        "取消"
    }
}

/// What a capture is asked to save.
#[derive(Debug, Clone, PartialEq, Eq)]
pub struct CaptureRequest {
    pub source: String,
    pub title_override: Option<String>,
    pub pasted_html_base_url: Option<String>,
}

/// A text without blanks around it, where something is left of it.
pub open spec fn non_empty(text: Seq<char>) -> Option<Seq<char>> {
    if trim(text).len() > 0 {
        Some(trim(text))
    } else {
        None
    }
}

pub fn non_empty_owned(value: &str) -> (r: Option<String>)
    ensures
        text_opt(r) == non_empty(value@),
{
    if is_blank(value) {
        None
    } else {
        Some(trimmed(value))
    }
}

/// What the save modal asks for after it was shown.
#[derive(Debug)]
pub enum SaveStep {
    Finish(Outcome),
    /// The capture, if one is running, is cancelled, and the modal closes.
    Cancel(Outcome),
    /// A capture begins.
    Begin(CaptureRequest, Outcome),
}

/// Decides what follows in the save modal. Cancelling wins over saving, and
/// nothing is saved while a capture is running.
pub fn save_step(
    dialog: &mut WebClipDialog,
    state: &Option<CaptureState>,
    action: ModalHostAction,
    import: bool,
    cancel: bool,
) -> (r: SaveStep)
    ensures
        ({
            let begins = !cancel && import && !active(*state);
            &&& *final(dialog) == (if begins {
                WebClipDialog { error: None, ..*old(dialog) }
            } else {
                *old(dialog)
            })
            &&& match r {
                SaveStep::Cancel(outcome) => cancel && outcome@ == (OutcomeView {
                    interaction: InteractionIntent::CompleteModal,
                    ..idle(action)
                }),
                SaveStep::Begin(request, outcome) => begins && outcome@ == idle(action)
                    && request.source@ == old(dialog).source@ && text_opt(request.title_override)
                    == non_empty(old(dialog).title@) && text_opt(request.pasted_html_base_url)
                    == non_empty(old(dialog).base_url@),
                SaveStep::Finish(outcome) => !cancel && !begins && outcome@ == idle(action),
            }
        }),
{
    let mut outcome = Outcome::idle(action);
    if cancel {
        outcome.interaction = InteractionIntent::CompleteModal;
        return SaveStep::Cancel(outcome);
    }
    if !import || capture_active(state) {
        return SaveStep::Finish(outcome);
    }
    let request = CaptureRequest {
        source: dialog.source.clone(),
        title_override: non_empty_owned(&dialog.title),
        pasted_html_base_url: non_empty_owned(&dialog.base_url),
    };
    dialog.error = None;
    SaveStep::Begin(request, outcome)
}

/// A capture began, or was refused.
pub fn capture_begun(dialog: &mut WebClipDialog, result: Result<u64, String>)
    ensures
        *final(dialog) == (match result {
            Ok(id) => WebClipDialog { capture: Some(id), ..*old(dialog) },
            Err(message) => WebClipDialog { error: Some(message), ..*old(dialog) },
        }),
{
    match result {
        Ok(id) => {
            dialog.capture = Some(id);
        },
        Err(message) => {
            dialog.error = Some(message);
        },
    }
}

// ---- deleting ---------------------------------------------------------------------

pub fn delete_question(dialog: &DeleteWebClipDialog) -> (r: String)
    ensures
        r@ == "确定永久删除「"@ + dialog.title@ + "」吗？"@,
{
    let mut text = "确定永久删除「".to_owned();
    text.append(&dialog.title);
    text.append("」吗？");
    text
}

/// What the delete modal asks for after it was shown.
#[derive(Debug)]
pub enum DeleteStep {
    Finish(Outcome),
    /// The page with this article is deleted.
    Delete(i64),
}

pub fn delete_step(
    dialog: &DeleteWebClipDialog,
    action: ModalHostAction,
    shown: bool,
    delete: bool,
    cancel: bool,
) -> (r: DeleteStep)
    ensures
        match r {
            DeleteStep::Delete(id) => shown && !cancel && delete && id == dialog.article_id,
            DeleteStep::Finish(outcome) => !(shown && !cancel && delete) && outcome@ == (
            OutcomeView {
                interaction: if shown && cancel {
                    InteractionIntent::CompleteModal
                } else {
                    InteractionIntent::Nothing
                },
                ..idle(action)
            }),
        },
{
    let mut outcome = Outcome::idle(action);
    if shown && cancel {
        outcome.interaction = InteractionIntent::CompleteModal;
        return DeleteStep::Finish(outcome);
    }
    if shown && delete {
        DeleteStep::Delete(dialog.article_id)
    } else {
        DeleteStep::Finish(outcome)
    }
}

/// The page was deleted, or could not be.
pub fn deleted(dialog: &DeleteWebClipDialog, action: ModalHostAction, failure: Option<String>) -> (r:
    Outcome)
    ensures
        r@ == (OutcomeView {
            modal_action: action,
            interaction: InteractionIntent::CompleteModal,
            deleted_article_id: match failure {
                None => Some(dialog.article_id),
                Some(_) => None,
            },
            notice: Some(
                match failure {
                    None => "本地网页已永久删除"@,
                    Some(message) => message@,
                },
            ),
        }),
{
    let mut outcome = Outcome::idle(action);
    outcome.interaction = InteractionIntent::CompleteModal;
    match failure {
        None => {
            outcome.deleted_article_id = Some(dialog.article_id);
            outcome.notice = Some("本地网页已永久删除".to_owned());
        },
        Some(message) => {
            outcome.notice = Some(message);
        },
    }
    outcome
}

// ---- captures that ended --------------------------------------------------------------

/// The capture that was handled last: its identity and its revision.
#[derive(Debug, Clone, Copy, PartialEq, Eq, Structural)]
pub struct ConsumedCapture {
    pub id: u64,
    pub revision: u64,
}

/// Notes that a capture's end is handled, and says whether it was not before.
pub fn consume_terminal(consumed: &mut Option<ConsumedCapture>, id: u64, revision: u64) -> (r: bool)
    ensures
        *final(consumed) == Some(ConsumedCapture { id, revision }),
        r == (*old(consumed) != Some(ConsumedCapture { id, revision })),
{
    let fresh: bool = match consumed {
        Some(known) => !(known.id == id && known.revision == revision),
        None => true,
    };
    *consumed = Some(ConsumedCapture { id, revision });
    fresh
}

/// What follows from the end of a capture.
#[derive(Debug)]
pub struct TerminalPlan {
    pub complete_modal: bool,
    pub fail_dialog: Option<String>,
    /// The saved page that is shown.
    pub show_article: Option<i64>,
    pub notice: Option<String>,
}

pub ghost struct PlanView {
    pub complete_modal: bool,
    pub fail_dialog: Option<Seq<char>>,
    pub show_article: Option<i64>,
    pub notice: Option<Seq<char>>,
}

impl View for TerminalPlan {
    type V = PlanView;

    open spec fn view(&self) -> PlanView {
        PlanView {
            complete_modal: self.complete_modal,
            fail_dialog: text_opt(self.fail_dialog),
            show_article: self.show_article,
            notice: text_opt(self.notice),
        }
    }
}

/// `owned` says that the open modal belongs to the capture. A failure is shown
/// there, or as a notice where the modal was closed meanwhile. A cancelled
/// capture says nothing, unless maintenance stopped it.
pub open spec fn terminal_plan(owned: bool, state: CaptureState) -> PlanView {
    let nothing = PlanView {
        complete_modal: false,
        fail_dialog: None,
        show_article: None,
        notice: None,
    };
    match state {
        CaptureState::Succeeded { article_id } => PlanView {
            complete_modal: owned,
            show_article: Some(article_id),
            notice: Some("正文快照已保存到本机；网页图片仍需联网加载"@),
            ..nothing
        },
        CaptureState::Failed { user_message } => if owned {
            PlanView { fail_dialog: Some(user_message@), ..nothing }
        } else {
            PlanView { notice: Some(user_message@), ..nothing }
        },
        CaptureState::Cancelled { maintenance, user_message } => if maintenance && owned {
            PlanView { fail_dialog: Some(user_message@), ..nothing }
        } else if maintenance {
            PlanView { notice: Some(user_message@), ..nothing }
        } else {
            PlanView { complete_modal: owned, ..nothing }
        },
        _ => nothing,
    }
}

pub fn apply_web_clipping_terminal(owned: bool, state: CaptureState) -> (r: TerminalPlan)
    ensures
        r@ == terminal_plan(owned, state),
{
    let mut plan = TerminalPlan {
        complete_modal: false,
        fail_dialog: None,
        show_article: None,
        notice: None,
    };
    match state {
        CaptureState::Succeeded { article_id } => {
            plan.complete_modal = owned;
            plan.show_article = Some(article_id);
            plan.notice = Some("正文快照已保存到本机；网页图片仍需联网加载".to_owned());
        },
        CaptureState::Failed { user_message } => {
            if owned {
                plan.fail_dialog = Some(user_message);
            } else {
                plan.notice = Some(user_message);
            }
        },
        CaptureState::Cancelled { maintenance, user_message } => {
            if maintenance {
                if owned {
                    plan.fail_dialog = Some(user_message);
                } else {
                    plan.notice = Some(user_message);
                }
            } else {
                plan.complete_modal = owned;
            }
        },
        CaptureState::Fetching | CaptureState::Preparing | CaptureState::Committing => {},
    }
    plan
}

/// A failed capture is always told, once: in its modal where that is open,
/// else as a notice. A modal that belongs to a capture which ended closes or
/// says why not.
pub proof fn ended_captures_are_told_once(owned: bool, state: CaptureState)
    requires
        state.terminal(),
    ensures
        state is Failed ==> (terminal_plan(owned, state).fail_dialog is Some
            <==> terminal_plan(owned, state).notice is None),
        owned ==> (terminal_plan(owned, state).complete_modal <==> terminal_plan(
            owned,
            state,
        ).fail_dialog is None),
        !owned ==> !terminal_plan(owned, state).complete_modal && terminal_plan(
            owned,
            state,
        ).fail_dialog is None,
        state is Succeeded <==> terminal_plan(owned, state).show_article is Some,
{
}

/// A capture is under way until it succeeded, failed or was cancelled; the
/// button says what it does meanwhile.
pub proof fn captures_say_what_they_do(state: CaptureState)
    ensures
        active(Some(state)) <==> state is Fetching || state is Preparing || state is Committing,
        !active(None),
        state is Fetching ==> import_text(Some(state)) == "正在抓取…"@,
        state is Preparing ==> import_text(Some(state)) == "正在整理…"@,
        state is Committing ==> import_text(Some(state)) == "正在保存…"@,
        !active(Some(state)) ==> import_text(Some(state)) == "保存网页"@,
        import_text(None) == "保存网页"@,
{
}

/// The dialog is unsaved while anything is written in it or a capture of its
/// own is under way; blank texts are none.
pub proof fn clippings_are_unsaved_while_written(dialog: WebClipDialog, text: Seq<char>)
    ensures
        dialog.dirty() <==> trim(dialog.source@).len() > 0 || trim(dialog.title@).len() > 0 || trim(
            dialog.base_url@,
        ).len() > 0 || dialog.capture is Some,
        trim(text).len() > 0 ==> non_empty(text) == Some(trim(text)),
        trim(text).len() == 0 ==> non_empty(text) is None,
{
}

/// A page that was saved is shown and told of, and closes the dialog that asked
/// for it. A failure is told in that dialog, and by a notice where the dialog
/// is gone. A capture that the reader cancelled is not told of; one that
/// maintenance cancelled is told as a failure is.
pub proof fn the_end_of_a_capture_is_told(owned: bool, state: CaptureState)
    ensures
        ({
            let plan = terminal_plan(owned, state);
            &&& state matches CaptureState::Succeeded { article_id } ==> plan.show_article == Some(
                article_id,
            ) && plan.complete_modal == owned && plan.fail_dialog is None && plan.notice == Some(
                "正文快照已保存到本机；网页图片仍需联网加载"@,
            )
            &&& state matches CaptureState::Failed { user_message } ==> plan.show_article is None
                && (if owned {
                plan.fail_dialog == Some(user_message@) && plan.notice is None
            } else {
                plan.fail_dialog is None && plan.notice == Some(user_message@)
            })
            &&& state matches CaptureState::Cancelled { maintenance, user_message } ==> {
                &&& plan.show_article is None
                &&& maintenance && owned ==> plan.fail_dialog == Some(user_message@)
                    && !plan.complete_modal
                &&& maintenance && !owned ==> plan.notice == Some(user_message@)
                &&& !maintenance ==> plan.complete_modal == owned && plan.fail_dialog is None
                    && plan.notice is None
            }
        }),
{
}

/// A new dialog is empty, and takes the focus.
pub proof fn new_dialogs_are_empty(dialog: WebClipDialog, modal_action: ModalHostAction)
    requires
        dialog.blank(),
    ensures
        dialog.source@.len() == 0,
        dialog.title@.len() == 0,
        dialog.base_url@.len() == 0,
        dialog.capture is None,
        dialog.error is None,
        dialog.focus_input,
        idle(modal_action).modal_action == modal_action,
        idle(modal_action).interaction is Nothing,
        idle(modal_action).deleted_article_id is None,
        idle(modal_action).notice is None,
{
}

} // verus!
