use shiyue::gui_state::{
    ArticleCollection, DiscardOwner, ModalKind, ModalPayload, PanelPayload, Route, UiAction, UiEffect,
    UiState,
};

#[derive(Debug, Clone, PartialEq, Eq)]
struct TestModal {
    kind: ModalKind,
    dirty: bool,
    request_id: Option<u64>,
}

impl ModalPayload for TestModal {
    fn kind_of(&self) -> ModalKind {
        self.kind
    }

    fn dirty(&self) -> bool {
        self.dirty
    }

    fn request_of(&self) -> Option<u64> {
        self.request_id
    }

    fn kind(&self) -> ModalKind {
        self.kind
    }

    fn is_dirty(&self) -> bool {
        self.dirty
    }

    fn active_request_id(&self) -> Option<u64> {
        self.request_id
    }
}

#[derive(Debug, Clone, PartialEq, Eq)]
struct TestPanel(bool);

impl PanelPayload for TestPanel {
    fn dirty(&self) -> bool {
        self.0
    }

    fn fits(&self, route: Route) -> bool {
        route == Route::Resources
    }

    fn is_dirty(&self) -> bool {
        self.0
    }

    fn is_compatible(&self, route: Route) -> bool {
        route == Route::Resources
    }
}

type State = UiState<TestModal, TestPanel, u64>;

fn modal(kind: ModalKind, dirty: bool) -> TestModal {
    TestModal {
        kind,
        dirty,
        request_id: None,
    }
}

#[test]
fn clean_navigation_is_mutually_exclusive_and_persisted() {
    let mut state = State::default();
    state.reduce(UiAction::OpenModal(modal(ModalKind::Search, false)));
    let effects = state.reduce(UiAction::Navigate(Route::Resources));
    assert_eq!(state.route(), Route::Resources);
    assert!(!state.has_modal());
    assert_eq!(
        effects,
        vec![
            UiEffect::RouteChanged {
                from: Route::default(),
                to: Route::Resources
            },
            UiEffect::PersistRoute("resources".into())
        ]
    );
}

#[test]
fn dirty_modal_guards_and_then_continues_the_requested_navigation() {
    let mut state = State::default();
    state.reduce(UiAction::OpenModal(modal(ModalKind::AddFeed, true)));
    assert!(state.reduce(UiAction::Navigate(Route::Storage)).is_empty());
    assert_eq!(state.route(), Route::default());
    assert_eq!(state.discard_owner(), Some(DiscardOwner::Modal));
    let effects = state.reduce(UiAction::ConfirmDiscard);
    assert_eq!(state.route(), Route::Storage);
    assert!(!state.has_modal());
    assert_eq!(
        effects,
        vec![
            UiEffect::RouteChanged {
                from: Route::default(),
                to: Route::Storage
            },
            UiEffect::PersistRoute("storage".into())
        ]
    );
}

#[test]
fn keeping_editing_clears_the_pending_transition() {
    let mut state = State::default();
    state.reduce(UiAction::OpenModal(modal(ModalKind::AddFeed, true)));
    state.reduce(UiAction::CloseModal);
    state.reduce(UiAction::KeepEditing);
    assert_eq!(state.discard_owner(), None);
    assert_eq!(state.modal_kind(), Some(ModalKind::AddFeed));
}

#[test]
fn opening_a_clean_modal_replaces_it_without_an_implicit_queue() {
    let mut state = State::default();
    state.reduce(UiAction::OpenModal(modal(ModalKind::Search, false)));
    state.reduce(UiAction::OpenModal(modal(ModalKind::DeleteFeed, false)));
    assert_eq!(state.modal_kind(), Some(ModalKind::DeleteFeed));
    state.reduce(UiAction::CompleteModal);
    assert_eq!(state.modal_kind(), None);
}

#[test]
fn opening_over_a_dirty_modal_requires_one_explicit_discard() {
    let mut state = State::default();
    state.reduce(UiAction::OpenModal(modal(ModalKind::AddFeed, true)));
    state.reduce(UiAction::OpenModal(modal(ModalKind::Search, false)));
    assert_eq!(state.modal_kind(), Some(ModalKind::AddFeed));
    assert_eq!(state.discard_owner(), Some(DiscardOwner::Modal));
    state.reduce(UiAction::ConfirmDiscard);
    assert_eq!(state.modal_kind(), Some(ModalKind::Search));
    state.reduce(UiAction::CloseModal);
    assert_eq!(state.modal_kind(), None);
}

#[test]
fn incompatible_modal_is_rejected_without_a_blocker() {
    let mut state = State::default();
    let effects = state.reduce(UiAction::OpenModal(TestModal {
        kind: ModalKind::AddResource,
        dirty: false,
        request_id: None,
    }));
    assert!(!state.has_modal());
    assert!(matches!(
        effects.as_slice(),
        [UiEffect::InvalidTransition(_)]
    ));
}

#[test]
fn dirty_panel_guards_route_change_and_is_removed_after_confirmation() {
    let mut state = State::default();
    state.reduce(UiAction::Navigate(Route::Resources));
    state.reduce(UiAction::SetPanel(Some(TestPanel(true))));
    state.reduce(UiAction::Navigate(Route::Archive));
    assert_eq!(state.discard_owner(), Some(DiscardOwner::Panel));
    state.reduce(UiAction::ConfirmDiscard);
    assert_eq!(state.route(), Route::Archive);
    assert!(state.panel().is_none());
}

#[test]
fn modal_opening_clears_popover_and_prevents_new_popovers() {
    let mut state = State::default();
    state.reduce(UiAction::SetPopover(Some(1)));
    state.reduce(UiAction::OpenModal(modal(ModalKind::Search, false)));
    assert!(state.popover().is_none());
    state.reduce(UiAction::SetPopover(Some(2)));
    assert!(state.popover().is_none());
}

#[test]
fn notice_is_owned_and_cleared_by_the_reducer() {
    let mut state = State::default();
    state.show_notice("saved", 7);
    assert_eq!(
        state.notice().map(|notice| notice.message.as_str()),
        Some("saved")
    );
    state.reduce(UiAction::ClearNotice);
    assert!(state.notice().is_none());
}

#[test]
fn only_stable_routes_have_restore_keys() {
    let transient = Route::Articles(ArticleCollection::SearchResult(9));
    assert_eq!(transient.stable_key(), None);
    let route = Route::from_stable_key("articles:feed:42").unwrap();
    assert_eq!(route, Route::Articles(ArticleCollection::Feed(Some(42))));
}

#[test]
fn every_modal_kind_has_an_explicit_route_compatibility_policy() {
    let routes = [
        Route::default(),
        Route::Resources,
        Route::Excerpts,
        Route::Archive,
        Route::Storage,
    ];
    let cases = [
        (ModalKind::AddFeed, [true, true, true, true, true]),
        (ModalKind::DeleteFeed, [true, true, true, true, true]),
        (ModalKind::Search, [true, true, true, true, true]),
        (ModalKind::EditTags, [true, false, false, false, false]),
        (ModalKind::WriteThought, [true, false, false, false, false]),
        (ModalKind::SaveWebPage, [true, false, false, false, false]),
        (ModalKind::DeleteWebPage, [true, false, false, false, false]),
        (ModalKind::AddResource, [false, true, false, false, false]),
        (
            ModalKind::DeleteResource,
            [false, true, false, false, false],
        ),
        (
            ModalKind::ImportResources,
            [false, true, false, false, false],
        ),
        (ModalKind::RestoreBackup, [false, false, false, false, true]),
        (ModalKind::ClearImages, [false, false, false, false, true]),
    ];
    for (kind, expected) in cases {
        for (route, expected) in routes.into_iter().zip(expected) {
            assert_eq!(kind.is_compatible(route), expected, "{kind:?} on {route:?}");
        }
    }
}

#[test]
fn only_the_current_request_can_change_a_modal() {
    let mut state = State::default();
    state.reduce(UiAction::OpenModal(TestModal {
        kind: ModalKind::SaveWebPage,
        dirty: true,
        request_id: Some(7),
    }));
    assert!(state.accepts_modal_event(ModalKind::SaveWebPage, 7));
    assert!(!state.accepts_modal_event(ModalKind::SaveWebPage, 6));
    state.reduce(UiAction::CompleteModal);
    assert!(!state.accepts_modal_event(ModalKind::SaveWebPage, 7));
}

#[test]
fn discarding_an_async_modal_invalidates_late_results() {
    let mut state = State::default();
    state.reduce(UiAction::OpenModal(TestModal {
        kind: ModalKind::SaveWebPage,
        dirty: true,
        request_id: Some(41),
    }));
    state.reduce(UiAction::CloseModal);
    assert_eq!(state.discard_owner(), Some(DiscardOwner::Modal));
    assert!(state.accepts_modal_event(ModalKind::SaveWebPage, 41));

    state.reduce(UiAction::ConfirmDiscard);
    assert!(!state.has_modal());
    assert!(!state.accepts_modal_event(ModalKind::SaveWebPage, 41));
}

#[test]
fn unavailable_route_replacement_is_an_explicit_reducer_transition() {
    let mut state = State::default();
    state.reduce(UiAction::OpenModal(modal(ModalKind::AddFeed, true)));
    let effects = state.reduce(UiAction::ReplaceUnavailableRoute(Route::Resources));
    assert_eq!(state.route(), Route::Resources);
    assert!(!state.has_modal());
    assert!(matches!(
        effects.as_slice(),
        [UiEffect::RouteChanged { .. }, UiEffect::PersistRoute(_)]
    ));
}

#[test]
fn stable_keys_read_back_as_their_routes() {
    let routes = [
        Route::Articles(ArticleCollection::Feed(None)),
        Route::Articles(ArticleCollection::Feed(Some(42))),
        Route::Articles(ArticleCollection::Saved),
        Route::Articles(ArticleCollection::ReadLater),
        Route::Resources,
        Route::Excerpts,
        Route::Archive,
        Route::Storage,
    ];
    for route in routes {
        let key = route.stable_key().unwrap();
        assert_eq!(Route::from_stable_key(&key), Some(route));
    }
    assert_eq!(
        Route::Articles(ArticleCollection::Feed(Some(42))).stable_key(),
        Some("articles:feed:42".to_string())
    );
    assert_eq!(Route::from_stable_key("articles:feed:x"), None);
    assert_eq!(Route::from_stable_key("elsewhere"), None);
}

#[test]
fn a_rejected_modal_names_its_reason_and_changes_nothing() {
    let mut state = State::default();
    state.reduce(UiAction::SetPopover(Some(3)));
    let effects = state.reduce(UiAction::OpenModal(modal(ModalKind::ClearImages, false)));
    assert_eq!(effects.len(), 1);
    assert_eq!(state.route(), Route::default());
    assert_eq!(state.popover(), Some(&3));
}
