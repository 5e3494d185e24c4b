//! What the desktop does after a feature was shown or a change was made.

use vstd::prelude::*;

use crate::gui::desktop::{
    article_selected, collection_selected, collections_are_opened, dispatched, host_acted,
    lemma_effects_keep_route, lemma_navigated, modal_opened, reloaded, told, without_popover,
    Desktop, DesktopView,
};
use crate::gui::excerpt_thought_feature;
use crate::gui::feed_subscription_feature;
use crate::gui::library_search_feature::{opening_text, Opening};
use crate::gui::modal_state::{ModalState, PanelState};
use crate::gui::resource_feature;
use crate::gui::web_clipping_feature;
use crate::gui_state::{panel_finished, ArticleCollection, NoticeView, Route, UiAction, UiView};
use crate::model::Feed;
use crate::text::text_opt;

verus! {

pub open spec fn noticed(d: DesktopView, message: Option<Seq<char>>, now: u64) -> DesktopView {
    match message {
        Some(text) => told(d, text, now),
        None => d,
    }
}

pub open spec fn panel_closed(d: DesktopView) -> DesktopView {
    DesktopView { ui: panel_finished(d.ui), ..d }
}

// ---- feeds ------------------------------------------------------------------------------

pub open spec fn feed_interacted(
    d: DesktopView,
    intent: feed_subscription_feature::InteractionIntent,
    now: u64,
) -> DesktopView {
    match intent {
        feed_subscription_feature::InteractionIntent::Nothing => d,
        feed_subscription_feature::InteractionIntent::CompleteModal => dispatched(
            d,
            UiAction::CompleteModal,
            now,
        ),
        feed_subscription_feature::InteractionIntent::ClosePanel => dispatched(
            d,
            UiAction::SetPanel(None),
            now,
        ),
        feed_subscription_feature::InteractionIntent::FinishPanel => panel_closed(d),
        feed_subscription_feature::InteractionIntent::KeepEditing => dispatched(
            d,
            UiAction::KeepEditing,
            now,
        ),
        feed_subscription_feature::InteractionIntent::ConfirmDiscard => dispatched(
            d,
            UiAction::ConfirmDiscard,
            now,
        ),
    }
}

/// The feeds, read again after the outcome asked for it.
pub open spec fn feeds_loaded(
    d: DesktopView,
    loaded: Option<Result<Vec<Feed>, String>>,
    now: u64,
) -> DesktopView {
    match loaded {
        Some(Ok(feeds)) => reloaded(d, feeds@, now),
        Some(Err(message)) => reloaded(told(d, message@, now), d.feeds, now),
        None => d,
    }
}

pub open spec fn feed_outcome(
    d: DesktopView,
    outcome: feed_subscription_feature::OutcomeView,
    loaded: Option<Result<Vec<Feed>, String>>,
    now: u64,
) -> DesktopView {
    let hosted = host_acted(d, outcome.modal_action, now);
    let interacted = feed_interacted(hosted, outcome.interaction, now);
    let listed = feeds_loaded(interacted, loaded, now);
    let selected = match outcome.select_feed_id {
        Some(id) => collection_selected(listed, ArticleCollection::Feed(Some(id)), now),
        None => listed,
    };
    noticed(selected, outcome.notice, now)
}

// ---- resources ----------------------------------------------------------------------------

pub open spec fn resource_interacted(
    d: DesktopView,
    intent: resource_feature::InteractionIntent,
    now: u64,
) -> DesktopView {
    match intent {
        resource_feature::InteractionIntent::Nothing => d,
        resource_feature::InteractionIntent::CompleteModal => dispatched(
            d,
            UiAction::CompleteModal,
            now,
        ),
        resource_feature::InteractionIntent::ClosePanel => dispatched(
            d,
            UiAction::SetPanel(None),
            now,
        ),
        resource_feature::InteractionIntent::FinishPanel => panel_closed(d),
        resource_feature::InteractionIntent::KeepEditing => dispatched(d, UiAction::KeepEditing, now),
        resource_feature::InteractionIntent::ConfirmDiscard => dispatched(
            d,
            UiAction::ConfirmDiscard,
            now,
        ),
    }
}

pub open spec fn resource_outcome(
    d: DesktopView,
    outcome: resource_feature::OutcomeView,
    now: u64,
) -> DesktopView {
    let hosted = host_acted(d, outcome.modal_action, now);
    noticed(resource_interacted(hosted, outcome.interaction, now), outcome.notice, now)
}

/// What the reader is told once a resource was handed to processing again, or
/// could not be.
pub open spec fn requeue_text(failure: Option<Seq<char>>) -> Seq<char> {
    match failure {
        None => "已重新加入后台处理队列"@,
        Some(error) => "无法重试后台任务："@ + error,
    }
}

// ---- excerpts and saved pages ----------------------------------------------------------------

pub open spec fn excerpt_outcome(
    d: DesktopView,
    outcome: excerpt_thought_feature::OutcomeView,
    now: u64,
) -> DesktopView {
    let hosted = host_acted(d, outcome.modal_action, now);
    let interacted = match outcome.interaction {
        excerpt_thought_feature::InteractionIntent::Nothing => hosted,
        excerpt_thought_feature::InteractionIntent::CloseModal => dispatched(
            hosted,
            UiAction::CloseModal,
            now,
        ),
        excerpt_thought_feature::InteractionIntent::CompleteModal => dispatched(
            hosted,
            UiAction::CompleteModal,
            now,
        ),
    };
    noticed(interacted, outcome.notice, now)
}

/// The selection without an article that was deleted.
pub open spec fn deselected(d: DesktopView, deleted: Option<i64>) -> DesktopView {
    if deleted is Some && d.selected == deleted {
        DesktopView { selected: None, body: None, ..d }
    } else {
        d
    }
}

pub open spec fn clipping_outcome(
    d: DesktopView,
    outcome: web_clipping_feature::OutcomeView,
    now: u64,
) -> DesktopView {
    let hosted = host_acted(d, outcome.modal_action, now);
    let left = deselected(hosted, outcome.deleted_article_id);
    let interacted = match outcome.interaction {
        web_clipping_feature::InteractionIntent::Nothing => left,
        web_clipping_feature::InteractionIntent::CompleteModal => dispatched(
            left,
            UiAction::CompleteModal,
            now,
        ),
    };
    noticed(interacted, outcome.notice, now)
}

pub open spec fn failed_dialog(modal: ModalState, message: String) -> ModalState {
    match modal {
        ModalState::SaveWebPage(dialog) => ModalState::SaveWebPage(
            web_clipping_feature::WebClipDialog {
                capture: None,
                error: Some(message),
                ..dialog
            },
        ),
        other => other,
    }
}

/// The desktop after the end of a capture. The open modal belongs to it where
/// it saves a page with this capture.
pub open spec fn owns(d: DesktopView, capture: u64) -> bool {
    d.ui.modal matches Some(ModalState::SaveWebPage(dialog)) && dialog.capture == Some(capture)
}

pub open spec fn capture_ended(
    d: DesktopView,
    plan: web_clipping_feature::TerminalPlan,
    now: u64,
) -> DesktopView {
    let completed = if plan.complete_modal {
        dispatched(d, UiAction::CompleteModal, now)
    } else {
        d
    };
    let shown = match plan.show_article {
        Some(id) => article_selected(
            dispatched(
                completed,
                UiAction::Navigate(Route::Articles(ArticleCollection::Saved)),
                now,
            ),
            id,
        ),
        None => completed,
    };
    let told_dialog = match plan.fail_dialog {
        Some(message) => DesktopView {
            ui: UiView {
                modal: match shown.ui.modal {
                    Some(modal) => Some(failed_dialog(modal, message)),
                    None => None,
                },
                ..shown.ui
            },
            ..shown
        },
        None => shown,
    };
    noticed(told_dialog, text_opt(plan.notice), now)
}

// ---- search results ------------------------------------------------------------------------------

/// The desktop with a search result opened. A resource opens the editor that
/// is handed in.
pub open spec fn result_opened(
    d: DesktopView,
    opening: Opening,
    editor: Option<PanelState>,
    now: u64,
) -> DesktopView {
    match opening {
        Opening::Nowhere => told(d, opening_text(opening), now),
        Opening::Resource(_) => {
            let there = dispatched(d, UiAction::Navigate(Route::Resources), now);
            let open = dispatched(there, UiAction::SetPanel(editor), now);
            told(dispatched(open, UiAction::CompleteModal, now), opening_text(opening), now)
        },
        Opening::Archived(target) => {
            let marked = DesktopView { pending_excerpt: passage_of(opening), ..d };
            let there = dispatched(
                marked,
                UiAction::Navigate(
                    Route::Articles(ArticleCollection::SearchResult(target.article_id)),
                ),
                now,
            );
            let shown = without_popover(
                DesktopView { selected: Some(target.article_id), body: None, ..there },
            );
            told(dispatched(shown, UiAction::CompleteModal, now), opening_text(opening), now)
        },
        Opening::Clipping(target) => {
            let marked = DesktopView { pending_excerpt: passage_of(opening), ..d };
            let there = collection_selected(marked, ArticleCollection::Saved, now);
            let shown = article_selected(there, target.article_id);
            told(dispatched(shown, UiAction::CompleteModal, now), opening_text(opening), now)
        },
        Opening::Feed(target) => {
            let marked = DesktopView { pending_excerpt: passage_of(opening), ..d };
            let there = collection_selected(
                marked,
                ArticleCollection::Feed(Some(target.feed_id)),
                now,
            );
            let shown = article_selected(there, target.article_id);
            told(dispatched(shown, UiAction::CompleteModal, now), opening_text(opening), now)
        },
    }
}

/// The passage that a result brings into view.
pub open spec fn passage_of(opening: Opening) -> Option<(i64, i64)> {
    match opening {
        Opening::Archived(t) | Opening::Clipping(t) | Opening::Feed(t) => match t.selection_id {
            Some(selection) => Some((t.article_id, selection)),
            None => None,
        },
        _ => None,
    }
}

impl Desktop {
    fn notice_if(&mut self, message: Option<String>, now: u64)
        ensures
            final(self)@ == noticed(old(self)@, text_opt(message), now),
    {
        match message {
            Some(text) => self.notice(&text, now),
            None => {},
        }
    }

    /// Adopts the outcome of the subscription feature. `loaded` are the feeds,
    /// read again where the outcome asks for it.
    pub fn apply_feed_feature_outcome(
        &mut self,
        outcome: feed_subscription_feature::Outcome,
        loaded: Option<Result<Vec<Feed>, String>>,
        now: u64,
    )
        ensures
            final(self)@ == feed_outcome(old(self)@, outcome@, loaded, now),
    {
        self.apply_modal_host_action(outcome.modal_action, now);
        match outcome.interaction {
            feed_subscription_feature::InteractionIntent::Nothing => {},
            feed_subscription_feature::InteractionIntent::CompleteModal => self.complete_modal(now),
            feed_subscription_feature::InteractionIntent::ClosePanel => self.dispatch(
                UiAction::SetPanel(None),
                now,
            ),
            feed_subscription_feature::InteractionIntent::FinishPanel => self.finish_panel(),
            feed_subscription_feature::InteractionIntent::KeepEditing => self.dispatch(
                UiAction::KeepEditing,
                now,
            ),
            feed_subscription_feature::InteractionIntent::ConfirmDiscard => self.dispatch(
                UiAction::ConfirmDiscard,
                now,
            ),
        }
        match loaded {
            Some(feeds) => self.reload(feeds, now),
            None => {},
        }
        match outcome.select_feed_id {
            Some(id) => self.select_feed(id, now),
            None => {},
        }
        self.notice_if(outcome.notice, now);
    }

    /// Adopts the outcome of the resource feature, but for a retry.
    pub fn apply_resource_feature_outcome(&mut self, outcome: resource_feature::Outcome, now: u64)
        ensures
            final(self)@ == resource_outcome(old(self)@, outcome@, now),
    {
        self.apply_modal_host_action(outcome.modal_action, now);
        match outcome.interaction {
            resource_feature::InteractionIntent::Nothing => {},
            resource_feature::InteractionIntent::CompleteModal => self.complete_modal(now),
            resource_feature::InteractionIntent::ClosePanel => self.dispatch(
                UiAction::SetPanel(None),
                now,
            ),
            resource_feature::InteractionIntent::FinishPanel => self.finish_panel(),
            resource_feature::InteractionIntent::KeepEditing => self.dispatch(
                UiAction::KeepEditing,
                now,
            ),
            resource_feature::InteractionIntent::ConfirmDiscard => self.dispatch(
                UiAction::ConfirmDiscard,
                now,
            ),
        }
        self.notice_if(outcome.notice, now);
    }

    /// A resource was handed to processing again, or could not be.
    pub fn resource_requeued(&mut self, failure: Option<String>, now: u64)
        ensures
            final(self)@ == told(old(self)@, requeue_text(text_opt(failure)), now),
    {
        match failure {
            None => self.notice("已重新加入后台处理队列", now),
            Some(error) => {
                let mut text = "无法重试后台任务：".to_owned();
                text.append(&error);
                self.notice(&text, now);
            },
        }
    }

    /// Adopts the outcome of the excerpt feature, but for a deletion that is
    /// still to be made.
    pub fn apply_excerpt_thought_feature_outcome(
        &mut self,
        outcome: excerpt_thought_feature::Outcome,
        now: u64,
    )
        ensures
            final(self)@ == excerpt_outcome(old(self)@, outcome@, now),
    {
        self.apply_modal_host_action(outcome.modal_action, now);
        match outcome.interaction {
            excerpt_thought_feature::InteractionIntent::Nothing => {},
            excerpt_thought_feature::InteractionIntent::CloseModal => self.close_modal(now),
            excerpt_thought_feature::InteractionIntent::CompleteModal => self.complete_modal(now),
        }
        self.notice_if(outcome.notice, now);
    }

    pub fn apply_web_clipping_feature_outcome(
        &mut self,
        outcome: web_clipping_feature::Outcome,
        now: u64,
    )
        ensures
            final(self)@ == clipping_outcome(old(self)@, outcome@, now),
    {
        self.apply_modal_host_action(outcome.modal_action, now);
        match (outcome.deleted_article_id, self.sel_article_id) {
            (Some(deleted), Some(selected)) => {
                if deleted == selected {
                    self.sel_article_id = None;
                    self.body_article_id = None;
                }
            },
            _ => {},
        }
        match outcome.interaction {
            web_clipping_feature::InteractionIntent::Nothing => {},
            web_clipping_feature::InteractionIntent::CompleteModal => self.complete_modal(now),
        }
        self.notice_if(outcome.notice, now);
    }

    /// Whether the open modal belongs to a capture.
    pub fn owns_capture(&self, capture: u64) -> (r: bool)
        ensures
            r == owns(self@, capture),
    {
        match self.ui.modal() {
            Some(ModalState::SaveWebPage(dialog)) => dialog.owns_capture(capture),
            _ => false,
        }
    }

    fn fail_clip_dialog(&mut self, message: String)
        ensures
            final(self)@ == (DesktopView {
                ui: UiView {
                    modal: match old(self)@.ui.modal {
                        Some(modal) => Some(failed_dialog(modal, message)),
                        None => None,
                    },
                    ..old(self)@.ui
                },
                ..old(self)@
            }),
    {
        match self.ui.modal_mut() {
            Some(modal) => match modal {
                ModalState::SaveWebPage(dialog) => dialog.fail_capture(message),
                _ => {},
            },
            None => {},
        }
    }

    /// Adopts the end of a capture.
    pub fn adopt_capture_end(&mut self, plan: web_clipping_feature::TerminalPlan, now: u64)
        ensures
            final(self)@ == capture_ended(old(self)@, plan, now),
    {
        if plan.complete_modal {
            self.complete_modal(now);
        }
        match plan.show_article {
            Some(id) => {
                self.dispatch(
                    UiAction::Navigate(Route::Articles(ArticleCollection::Saved)),
                    now,
                );
                self.select_article(id);
            },
            None => {},
        }
        match plan.fail_dialog {
            Some(message) => self.fail_clip_dialog(message),
            None => {},
        }
        self.notice_if(plan.notice, now);
    }

    /// Opens a search result.
    pub fn open_result(&mut self, opening: Opening, editor: Option<PanelState>, now: u64)
        ensures
            final(self)@ == result_opened(old(self)@, opening, editor, now),
    {
        match opening {
            Opening::Nowhere => {},
            Opening::Resource(_) => {
                self.dispatch(UiAction::Navigate(Route::Resources), now);
                self.dispatch(UiAction::SetPanel(editor), now);
                self.complete_modal(now);
            },
            Opening::Archived(target) => {
                self.pending_excerpt_selection_id = opening.passage();
                self.dispatch(
                    UiAction::Navigate(
                        Route::Articles(ArticleCollection::SearchResult(target.article_id)),
                    ),
                    now,
                );
                self.sel_article_id = Some(target.article_id);
                self.body_article_id = None;
                self.clear_selection_popover();
                self.complete_modal(now);
            },
            Opening::Clipping(target) => {
                self.pending_excerpt_selection_id = opening.passage();
                self.select_saved_articles(now);
                self.select_article(target.article_id);
                self.complete_modal(now);
            },
            Opening::Feed(target) => {
                self.pending_excerpt_selection_id = opening.passage();
                self.select_feed(target.feed_id, now);
                self.select_article(target.article_id);
                self.complete_modal(now);
            },
        }
        self.notice(opening.notice(), now);
    }

    /// Opens the modal that saves a web page, unless it is open already.
    pub fn open_web_clip_dialog(&mut self, now: u64)
        ensures
            ({
                let d = old(self)@;
                if d.ui.modal matches Some(ModalState::SaveWebPage(_)) {
                    final(self)@ == without_popover(d)
                } else {
                    exists|dialog: web_clipping_feature::WebClipDialog|
                        dialog.blank() && final(self)@ == without_popover(
                            #[trigger] modal_opened(d, ModalState::SaveWebPage(dialog), now),
                        )
                }
            }),
    {
        let open: bool = match self.ui.modal() {
            Some(ModalState::SaveWebPage(_)) => true,
            _ => false,
        };
        if !open {
            let dialog = web_clipping_feature::WebClipDialog::default();
            self.open_modal(ModalState::SaveWebPage(dialog), now);
        }
        self.clear_selection_popover();
    }
}

// ---- what follows --------------------------------------------------------------------

/// Whatever a feature has to tell is told.
pub proof fn features_are_heard(
    d: DesktopView,
    feed: feed_subscription_feature::OutcomeView,
    loaded: Option<Result<Vec<Feed>, String>>,
    resource: resource_feature::OutcomeView,
    excerpt: excerpt_thought_feature::OutcomeView,
    clipping: web_clipping_feature::OutcomeView,
    plan: web_clipping_feature::TerminalPlan,
    now: u64,
)
    ensures
        feed.notice matches Some(text) ==> feed_outcome(d, feed, loaded, now).ui.notice == Some(
            NoticeView { message: text, created: now },
        ),
        resource.notice matches Some(text) ==> resource_outcome(d, resource, now).ui.notice == Some(
            NoticeView { message: text, created: now },
        ),
        excerpt.notice matches Some(text) ==> excerpt_outcome(d, excerpt, now).ui.notice == Some(
            NoticeView { message: text, created: now },
        ),
        clipping.notice matches Some(text) ==> clipping_outcome(d, clipping, now).ui.notice == Some(
            NoticeView { message: text, created: now },
        ),
        plan.notice matches Some(text) ==> capture_ended(d, plan, now).ui.notice == Some(
            NoticeView { message: text@, created: now },
        ),
{
}

/// A feature that is done with its modal has it closed, and one that is done
/// with its panel has that closed; one that gives its panel up is asked about
/// unsaved input first.
pub proof fn features_close_what_they_are_done_with(d: DesktopView, now: u64)
    ensures
        feed_interacted(
            d,
            feed_subscription_feature::InteractionIntent::CompleteModal,
            now,
        ).ui.modal is None,
        feed_interacted(
            d,
            feed_subscription_feature::InteractionIntent::FinishPanel,
            now,
        ).ui.panel is None,
        feed_interacted(d, feed_subscription_feature::InteractionIntent::Nothing, now) == d,
        feed_interacted(
            d,
            feed_subscription_feature::InteractionIntent::KeepEditing,
            now,
        ).ui.pending is None,
        !crate::gui_state::panel_dirty(d.ui) ==> feed_interacted(
            d,
            feed_subscription_feature::InteractionIntent::ClosePanel,
            now,
        ).ui.panel is None,
        crate::gui_state::panel_dirty(d.ui) ==> feed_interacted(
            d,
            feed_subscription_feature::InteractionIntent::ClosePanel,
            now,
        ).ui.panel == d.ui.panel,
        resource_interacted(
            d,
            resource_feature::InteractionIntent::CompleteModal,
            now,
        ).ui.modal is None,
        resource_interacted(
            d,
            resource_feature::InteractionIntent::FinishPanel,
            now,
        ).ui.panel is None,
        resource_interacted(d, resource_feature::InteractionIntent::Nothing, now) == d,
        resource_interacted(
            d,
            resource_feature::InteractionIntent::KeepEditing,
            now,
        ).ui.pending is None,
        !crate::gui_state::panel_dirty(d.ui) ==> resource_interacted(
            d,
            resource_feature::InteractionIntent::ClosePanel,
            now,
        ).ui.panel is None,
        crate::gui_state::panel_dirty(d.ui) ==> resource_interacted(
            d,
            resource_feature::InteractionIntent::ClosePanel,
            now,
        ).ui.panel == d.ui.panel,
{
    reveal_with_fuel(crate::gui::desktop::after_effects, 2);
}

/// An excerpt that was dealt with closes its modal; one that is given up asks
/// first where something is unsaved.
pub proof fn excerpts_close_their_modal(
    d: DesktopView,
    outcome: excerpt_thought_feature::OutcomeView,
    now: u64,
)
    requires
        outcome.modal_action is Nothing,
    ensures
        outcome.interaction is CompleteModal ==> excerpt_outcome(d, outcome, now).ui.modal is None,
        outcome.interaction is CloseModal && crate::gui_state::guardian(d.ui) is None
            ==> excerpt_outcome(d, outcome, now).ui.modal is None,
        outcome.interaction is CloseModal && crate::gui_state::guardian(d.ui) is Some
            ==> excerpt_outcome(d, outcome, now).ui.modal == d.ui.modal,
        outcome.interaction is Nothing ==> excerpt_outcome(d, outcome, now).ui.modal
            == d.ui.modal,
{
    reveal_with_fuel(crate::gui::desktop::after_effects, 2);
}

/// A feed that was chosen is gone to, once its feeds are known.
pub proof fn chosen_feeds_are_gone_to(
    d: DesktopView,
    outcome: feed_subscription_feature::OutcomeView,
    id: i64,
    now: u64,
)
    requires
        outcome.modal_action is Nothing,
        outcome.interaction is Nothing,
        outcome.select_feed_id == Some(id),
        crate::gui_state::guardian(d.ui) is None,
    ensures
        feed_outcome(d, outcome, None, now).ui.route == Route::Articles(
            ArticleCollection::Feed(Some(id)),
        ),
{
    collections_are_opened(d, ArticleCollection::Feed(Some(id)), now);
}

/// A page that was deleted is no longer selected; another stays.
pub proof fn deleted_pages_are_deselected(d: DesktopView, deleted: Option<i64>)
    ensures
        deleted is Some && d.selected == deleted ==> deselected(d, deleted).selected is None
            && deselected(d, deleted).body is None,
        !(deleted is Some && d.selected == deleted) ==> deselected(d, deleted) == d,
{
}

/// Trying again tells that the task waits anew, or why it does not.
pub proof fn requeuing_is_told(failure: Option<Seq<char>>)
    ensures
        failure is None ==> requeue_text(failure) == "已重新加入后台处理队列"@,
        failure matches Some(error) ==> requeue_text(failure) == "无法重试后台任务："@ + error,
{
}

/// A capture that failed is told in its dialog, which can be used again; other
/// modals are left alone.
pub proof fn failed_captures_are_told_in_their_dialog(modal: ModalState, message: String)
    ensures
        modal matches ModalState::SaveWebPage(dialog) ==> (failed_dialog(
            modal,
            message,
        ) matches ModalState::SaveWebPage(after) && after.capture is None && after.error == Some(
            message,
        ) && after.source == dialog.source && after.title == dialog.title && after.base_url
            == dialog.base_url),
        !(modal is SaveWebPage) ==> failed_dialog(modal, message) == modal,
{
}

/// A page that was saved is shown among the saved ones, and its modal closes.
pub proof fn saved_pages_are_shown(
    d: DesktopView,
    plan: web_clipping_feature::TerminalPlan,
    id: i64,
    now: u64,
)
    requires
        plan.complete_modal,
        plan.show_article == Some(id),
        plan.fail_dialog is None,
        !crate::gui_state::panel_dirty(d.ui),
    ensures
        capture_ended(d, plan, now).selected == Some(id),
        capture_ended(d, plan, now).ui.modal is None,
        capture_ended(d, plan, now).ui.route == Route::Articles(ArticleCollection::Saved),
{
    let completed = dispatched(d, UiAction::CompleteModal, now);
    assert(crate::gui_state::guardian(completed.ui) is None);
    if completed.ui.route != Route::Articles(ArticleCollection::Saved) {
        lemma_navigated(completed, Route::Articles(ArticleCollection::Saved), now);
    }
    let action = UiAction::<
        ModalState,
        PanelState,
        crate::gui::selection::SelectionPopoverState,
    >::Navigate(Route::Articles(ArticleCollection::Saved));
    reveal_with_fuel(crate::gui::desktop::after_effects, 4);
    let effects = crate::gui_state::effects_of(completed.ui, action);
    if completed.ui.route != Route::Articles(ArticleCollection::Saved) {
        assert(effects.len() == 2);
        assert(effects.drop_last().last() == effects[0]);
    }
}

/// A result that is opened shows its article in its place, with the passage
/// that was found to be brought into view, and closes the search; one that
/// leads nowhere changes nothing but says so.
pub proof fn opened_results_show_their_article(
    d: DesktopView,
    opening: Opening,
    editor: Option<PanelState>,
    now: u64,
)
    requires
        crate::gui_state::guardian(d.ui) is None,
    ensures
        ({
            let n = result_opened(d, opening, editor, now);
            &&& n.ui.notice matches Some(notice) && notice.created == now && notice.message
                == opening_text(opening)
            &&& opening is Nowhere ==> n.selected == d.selected && n.ui.route == d.ui.route
                && n.ui.modal == d.ui.modal
            &&& !(opening is Nowhere) ==> n.ui.modal is None
            &&& opening is Resource ==> n.ui.route == Route::Resources
            &&& opening matches Opening::Archived(target) ==> n.selected == Some(target.article_id)
                && n.ui.route == Route::Articles(
                ArticleCollection::SearchResult(target.article_id),
            )
            &&& opening matches Opening::Clipping(target) ==> n.selected == Some(target.article_id)
                && n.ui.route == Route::Articles(ArticleCollection::Saved)
            &&& opening matches Opening::Feed(target) ==> n.selected == Some(target.article_id)
                && n.ui.route == Route::Articles(ArticleCollection::Feed(Some(target.feed_id)))
        }),
        opening matches Opening::Feed(target) ==> (target.selection_id matches Some(selection)
            ==> passage_of(opening) == Some((target.article_id, selection))),
        opening matches Opening::Clipping(target) ==> (target.selection_id matches Some(selection)
            ==> passage_of(opening) == Some((target.article_id, selection))),
        opening matches Opening::Archived(target) ==> (target.selection_id matches Some(selection)
            ==> passage_of(opening) == Some((target.article_id, selection))),
        opening is Resource || opening is Nowhere ==> passage_of(opening) is None,
{
    let marked = DesktopView { pending_excerpt: passage_of(opening), ..d };
    reveal_with_fuel(crate::gui::desktop::after_effects, 2);
    match opening {
        Opening::Nowhere => {},
        Opening::Resource(_) => {
            if d.ui.route != Route::Resources {
                lemma_navigated(d, Route::Resources, now);
            }
            let there = dispatched(d, UiAction::Navigate(Route::Resources), now);
            let action = UiAction::<
                ModalState,
                PanelState,
                crate::gui::selection::SelectionPopoverState,
            >::SetPanel(editor);
            let effects = crate::gui_state::effects_of(there.ui, action);
            lemma_effects_keep_route(
                DesktopView { ui: crate::gui_state::reduced(there.ui, action), ..there },
                effects,
                now,
            );
        },
        Opening::Archived(target) => {
            let route = Route::Articles(ArticleCollection::SearchResult(target.article_id));
            if d.ui.route != route {
                lemma_navigated(marked, route, now);
            }
        },
        Opening::Clipping(_) => {
            collections_are_opened(marked, ArticleCollection::Saved, now);
        },
        Opening::Feed(target) => {
            collections_are_opened(marked, ArticleCollection::Feed(Some(target.feed_id)), now);
        },
    }
}

} // verus!
