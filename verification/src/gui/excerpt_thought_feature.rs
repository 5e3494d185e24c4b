//! Excerpts and thoughts: the drafts of the modals, the checks on them and
//! what to tell the reader afterwards.

use vstd::prelude::*;

use crate::gui::selection::{ExcerptCapture, ExcerptView, SelectedQuote};
use crate::gui_modal::ModalHostAction;
use crate::text::{is_blank, same_text, text_opt, trim};

verus! {

/// The part of the library that is read again after a change.
#[derive(Debug, Clone, Copy, PartialEq, Eq, Structural)]
pub enum ExcerptScope {
    Library,
    Article(i64),
}

/// What a thought is attached to.
#[derive(Debug, Clone, PartialEq, Eq)]
pub enum ExcerptTarget {
    Existing(i64),
    Captured(ExcerptCapture),
}

/// A thought that is being written.
#[derive(Debug, Clone)]
pub struct CommentDialog {
    pub quote: SelectedQuote,
    pub target: ExcerptTarget,
    pub draft: String,
    pub original: String,
    pub error: Option<String>,
    pub focus_input: bool,
}

impl CommentDialog {
    pub open spec fn dirty(self) -> bool {
        self.draft@ != self.original@
    }

    pub fn is_dirty(&self) -> (r: bool)
        ensures
            r == self.dirty(),
    {
        !same_text(&self.draft, &self.original)
    }
}

/// An excerpt that is about to be deleted.
#[derive(Debug, Clone)]
pub struct DeleteExcerptDialog {
    pub excerpt_id: i64,
    pub selected_text: String,
    pub has_thought: bool,
    pub refresh_scope: ExcerptScope,
}

/// The thought of an excerpt, or nothing.
pub open spec fn thought_of(excerpt: ExcerptView) -> Seq<char> {
    match excerpt.thought {
        Some(text) => text@,
        None => Seq::empty(),
    }
}

fn thought_text(excerpt: &ExcerptView) -> (r: String)
    ensures
        r@ == thought_of(*excerpt),
{
    match &excerpt.thought {
        Some(text) => text.clone(),
        None => String::new(),
    }
}

/// Opens a thought on a selection. `existing` is the stored excerpt of the
/// same passage, if there is one.
pub fn new_comment_dialog(quote: SelectedQuote, existing: Option<&ExcerptView>) -> (r: CommentDialog)
    ensures
        r.quote == quote,
        match existing {
            Some(excerpt) => r.target == ExcerptTarget::Existing(excerpt.id) && r.draft@
                == thought_of(*excerpt),
            None => (r.target matches ExcerptTarget::Captured(capture) && capture.article_id
                == quote.article_id && capture.selected_text@ == quote.text@
                && capture.anchor.start_offset == quote.start_offset && capture.anchor.end_offset
                == quote.end_offset && capture.anchor.prefix@ == quote.anchor_prefix@
                && capture.anchor.suffix@ == quote.anchor_suffix@) && r.draft@.len() == 0,
        },
        r.original@ == r.draft@,
        r.error is None,
        r.focus_input,
        !r.dirty(),
{
    let target = match existing {
        Some(excerpt) => ExcerptTarget::Existing(excerpt.id),
        None => ExcerptTarget::Captured(quote.capture()),
    };
    let draft = match existing {
        Some(excerpt) => thought_text(excerpt),
        None => String::new(),
    };
    CommentDialog {
        quote,
        target,
        original: draft.clone(),
        draft,
        error: None,
        focus_input: true,
    }
}

/// Opens the thought of a stored excerpt.
pub fn new_edit_dialog(excerpt: &ExcerptView) -> (r: CommentDialog)
    ensures
        r.quote.quotes(*excerpt),
        r.target == ExcerptTarget::Existing(excerpt.id),
        r.draft@ == thought_of(*excerpt),
        r.original@ == r.draft@,
        r.error is None,
        r.focus_input,
        !r.dirty(),
{
    let draft = thought_text(excerpt);
    CommentDialog {
        quote: SelectedQuote::from_excerpt(excerpt),
        target: ExcerptTarget::Existing(excerpt.id),
        original: draft.clone(),
        draft,
        error: None,
        focus_input: true,
    }
}

pub fn new_delete_dialog(excerpt: &ExcerptView, refresh_scope: ExcerptScope) -> (r:
    DeleteExcerptDialog)
    ensures
        r.excerpt_id == excerpt.id,
        r.selected_text@ == excerpt.selected_text@,
        r.has_thought == excerpt.thought is Some,
        r.refresh_scope == refresh_scope,
{
    DeleteExcerptDialog {
        excerpt_id: excerpt.id,
        selected_text: excerpt.selected_text.clone(),
        has_thought: excerpt.thought.is_some(),
        refresh_scope,
    }
}

#[derive(Debug, Clone, Copy, PartialEq, Eq, Structural)]
pub enum InteractionIntent {
    Nothing,
    CloseModal,
    CompleteModal,
}

#[derive(Debug, Clone, Copy, PartialEq, Eq, Structural)]
pub struct DeleteRequest {
    pub excerpt_id: i64,
    pub scope: ExcerptScope,
}

/// What the desktop does after a modal was shown or a change was made.
/// `adopt` says that the library's new state is taken over.
#[derive(Debug)]
pub struct Outcome {
    pub modal_action: ModalHostAction,
    pub interaction: InteractionIntent,
    pub adopt: bool,
    pub notice: Option<String>,
    pub pending_delete: Option<DeleteRequest>,
}

pub ghost struct OutcomeView {
    pub modal_action: ModalHostAction,
    pub interaction: InteractionIntent,
    pub adopt: bool,
    pub notice: Option<Seq<char>>,
    pub pending_delete: Option<DeleteRequest>,
}

impl View for Outcome {
    type V = OutcomeView;

    open spec fn view(&self) -> OutcomeView {
        OutcomeView {
            modal_action: self.modal_action,
            interaction: self.interaction,
            adopt: self.adopt,
            notice: text_opt(self.notice),
            pending_delete: self.pending_delete,
        }
    }
}

pub open spec fn idle(modal_action: ModalHostAction) -> OutcomeView {
    OutcomeView {
        modal_action,
        interaction: InteractionIntent::Nothing,
        adopt: false,
        notice: None,
        pending_delete: None,
    }
}

impl Outcome {
    pub fn idle(modal_action: ModalHostAction) -> (r: Outcome)
        ensures
            r@ == idle(modal_action),
    {
        Outcome {
            modal_action,
            interaction: InteractionIntent::Nothing,
            adopt: false,
            notice: None,
            pending_delete: None,
        }
    }
}

/// A change that is made without a modal.
#[derive(Debug, Clone, Copy, PartialEq, Eq, Structural)]
pub enum DirectChange {
    EnsureExcerpt,
    RemoveThought,
    DeleteExcerpt,
}

pub open spec fn change_name(change: DirectChange) -> Seq<char> {
    match change {
        DirectChange::EnsureExcerpt => "摘录"@,
        DirectChange::RemoveThought => "删除想法"@,
        DirectChange::DeleteExcerpt => "删除摘录"@,
    }
}

pub open spec fn change_done(change: DirectChange) -> Seq<char> {
    match change {
        DirectChange::EnsureExcerpt => "已摘录，可在左侧「摘录与想法」查看"@,
        DirectChange::RemoveThought => "想法已删除，摘录仍然保留"@,
        DirectChange::DeleteExcerpt => "摘录已删除"@,
    }
}

/// What follows once a change was made, or could not be.
pub fn apply_change(change: DirectChange, failure: Option<String>) -> (r: Outcome)
    ensures
        r@ == (match failure {
            None => OutcomeView {
                adopt: true,
                notice: Some(change_done(change)),
                ..idle(ModalHostAction::Nothing)
            },
            Some(message) => OutcomeView {
                notice: Some(change_name(change) + "失败："@ + message@),
                ..idle(ModalHostAction::Nothing)
            },
        }),
{
    let mut outcome = Outcome::idle(ModalHostAction::Nothing);
    match failure {
        None => {
            outcome.adopt = true;
            outcome.notice = Some(
                match change {
                    DirectChange::EnsureExcerpt => "已摘录，可在左侧「摘录与想法」查看",
                    DirectChange::RemoveThought => "想法已删除，摘录仍然保留",
                    DirectChange::DeleteExcerpt => "摘录已删除",
                }.to_owned(),
            );
        },
        Some(message) => {
            let mut text = match change {
                DirectChange::EnsureExcerpt => "摘录",
                DirectChange::RemoveThought => "删除想法",
                DirectChange::DeleteExcerpt => "删除摘录",
            }.to_owned();
            text.append("失败：");
            text.append(&message);
            outcome.notice = Some(text);
        },
    }
    outcome
}

/// What the thought modal asks for after it was shown.
#[derive(Debug)]
pub enum ThoughtStep {
    Finish(Outcome),
    /// The draft is stored, and the article's excerpts are read again.
    Put(ExcerptScope),
}

/// Decides what follows in the thought modal. A blank thought is not stored.
pub fn thought_step(
    dialog: &mut CommentDialog,
    action: ModalHostAction,
    submit: bool,
    cancel: bool,
) -> (r: ThoughtStep)
    ensures
        ({
            let refused = !cancel && submit && trim(old(dialog).draft@).len() == 0;
            &&& if refused {
                text_opt(final(dialog).error) == Some("想法内容不能为空"@) && *final(dialog) == (
                CommentDialog { error: final(dialog).error, ..*old(dialog) })
            } else {
                *final(dialog) == *old(dialog)
            }
            &&& match r {
                ThoughtStep::Put(scope) => !cancel && submit && !refused && scope
                    == ExcerptScope::Article(old(dialog).quote.article_id),
                ThoughtStep::Finish(outcome) => (cancel || !submit || refused) && outcome@ == (
                OutcomeView {
                    interaction: if cancel {
                        InteractionIntent::CloseModal
                    } else {
                        InteractionIntent::Nothing
                    },
                    ..idle(action)
                }),
            }
        }),
{
    let mut outcome = Outcome::idle(action);
    if cancel {
        outcome.interaction = InteractionIntent::CloseModal;
        return ThoughtStep::Finish(outcome);
    }
    if !submit {
        return ThoughtStep::Finish(outcome);
    }
    if is_blank(&dialog.draft) {
        dialog.error = Some("想法内容不能为空".to_owned());
        return ThoughtStep::Finish(outcome);
    }
    ThoughtStep::Put(ExcerptScope::Article(dialog.quote.article_id))
}

/// The thought was stored, or could not be. A failure stays in the dialog.
pub fn thought_put(dialog: &mut CommentDialog, action: ModalHostAction, failure: Option<String>) -> (r:
    Outcome)
    ensures
        match failure {
            None => *final(dialog) == *old(dialog) && r@ == (OutcomeView {
                interaction: InteractionIntent::CompleteModal,
                adopt: true,
                notice: Some("想法已保存，可在左侧「摘录与想法」查看"@),
                ..idle(ModalHostAction::Nothing)
            }),
            Some(message) => r@ == idle(action) && text_opt(final(dialog).error) == Some(
                "想法保存失败："@ + message@,
            ) && *final(dialog) == (CommentDialog { error: final(dialog).error, ..*old(dialog) }),
        },
{
    match failure {
        None => Outcome {
            modal_action: ModalHostAction::Nothing,
            interaction: InteractionIntent::CompleteModal,
            adopt: true,
            notice: Some("想法已保存，可在左侧「摘录与想法」查看".to_owned()),
            pending_delete: None,
        },
        Some(message) => {
            let mut text = "想法保存失败：".to_owned();
            text.append(&message);
            dialog.error = Some(text);
            Outcome::idle(action)
        },
    }
}

/// Decides what follows in the modal that deletes an excerpt. The excerpt is
/// deleted once the modal is closed.
pub fn delete_step(
    dialog: &DeleteExcerptDialog,
    action: ModalHostAction,
    confirm: bool,
    cancel: bool,
) -> (r: Outcome)
    ensures
        r@ == (if cancel {
            OutcomeView { interaction: InteractionIntent::CloseModal, ..idle(action) }
        } else if confirm {
            OutcomeView {
                interaction: InteractionIntent::CompleteModal,
                pending_delete: Some(
                    DeleteRequest { excerpt_id: dialog.excerpt_id, scope: dialog.refresh_scope },
                ),
                ..idle(action)
            }
        } else {
            idle(action)
        }),
{
    let mut outcome = Outcome::idle(action);
    if cancel {
        outcome.interaction = InteractionIntent::CloseModal;
    } else if confirm {
        outcome.interaction = InteractionIntent::CompleteModal;
        outcome.pending_delete = Some(
            DeleteRequest { excerpt_id: dialog.excerpt_id, scope: dialog.refresh_scope },
        );
    }
    outcome
}

/// A thought is unsaved exactly while it differs from the one it began with.
/// What was changed is told by its name, and that a thought can go without its
/// excerpt.
pub proof fn thoughts_are_told_in_their_words(dialog: CommentDialog, excerpt: ExcerptView, change: DirectChange)
    ensures
        dialog.dirty() <==> dialog.draft@ != dialog.original@,
        excerpt.thought matches Some(text) ==> thought_of(excerpt) == text@,
        excerpt.thought is None ==> thought_of(excerpt).len() == 0,
        change is EnsureExcerpt ==> change_name(change) == "摘录"@ && change_done(change)
            == "已摘录，可在左侧「摘录与想法」查看"@,
        change is RemoveThought ==> change_name(change) == "删除想法"@ && change_done(change)
            == "想法已删除，摘录仍然保留"@,
        change is DeleteExcerpt ==> change_name(change) == "删除摘录"@ && change_done(change)
            == "摘录已删除"@,
{
}

/// An outcome that does nothing tells nothing, closes nothing and deletes
/// nothing.
pub proof fn idle_outcomes_do_nothing(modal_action: ModalHostAction)
    ensures
        idle(modal_action).modal_action == modal_action,
        idle(modal_action).interaction is Nothing,
        !idle(modal_action).adopt,
        idle(modal_action).notice is None,
        idle(modal_action).pending_delete is None,
{
}

} // verus!
