//! Pure desktop interaction state.
//!
//! One route, at most one blocking modal, one panel that belongs to the route,
//! one popover, one notice, and one guarded transition.

use vstd::prelude::*;

use crate::number::{decimal_i64, parse_i64, parsed_i64, reading_a_numeral_restores_the_number, signed};
use crate::text::{chars_of, copy_range, same_text, starts_with, starts_with_text, string_of};

verus! {

#[derive(Debug, Clone, Copy, PartialEq, Eq, Hash, Structural)]
pub enum ArticleCollection {
    Feed(Option<i64>),
    Saved,
    ReadLater,
    SearchResult(i64),
}

#[derive(Debug, Clone, Copy, PartialEq, Eq, Hash, Structural)]
pub enum Route {
    Dashboard,
    Articles(ArticleCollection),
    Resources,
    Excerpts,
    Archive,
    Storage,
}

/// The route of a new session: all articles.
pub open spec fn home() -> Route {
    Route::Articles(ArticleCollection::Feed(None))
}

impl Default for Route {
    fn default() -> (r: Route)
        ensures
            r == home(),
    {
        Route::Articles(ArticleCollection::Feed(None))
    }
}

/// The key under which a route is restored, for the routes that are.
pub open spec fn restore_key(route: Route) -> Option<Seq<char>> {
    match route {
        Route::Articles(ArticleCollection::Feed(Some(feed_id))) => Some(
            "articles:feed:"@ + signed(feed_id as int),
        ),
        Route::Articles(ArticleCollection::Feed(None)) => Some("articles"@),
        Route::Articles(ArticleCollection::Saved) => Some("articles:saved"@),
        Route::Articles(ArticleCollection::ReadLater) => Some("articles:read-later"@),
        Route::Articles(ArticleCollection::SearchResult(_)) => None,
        Route::Resources => Some("resources"@),
        Route::Excerpts => Some("excerpts"@),
        Route::Archive => Some("archive"@),
        Route::Storage => Some("storage"@),
        Route::Dashboard => None,
    }
}

/// The route that a key restores.
pub open spec fn restored(key: Seq<char>) -> Option<Route> {
    if key == "articles"@ {
        Some(home())
    } else if key == "articles:saved"@ {
        Some(Route::Articles(ArticleCollection::Saved))
    } else if key == "articles:read-later"@ {
        Some(Route::Articles(ArticleCollection::ReadLater))
    } else if key == "resources"@ {
        Some(Route::Resources)
    } else if key == "excerpts"@ {
        Some(Route::Excerpts)
    } else if key == "archive"@ {
        Some(Route::Archive)
    } else if key == "storage"@ {
        Some(Route::Storage)
    } else if starts_with(key, "articles:feed:"@) {
        match parsed_i64(key.skip("articles:feed:"@.len() as int)) {
            Some(id) => Some(Route::Articles(ArticleCollection::Feed(Some(id)))),
            None => None,
        }
    } else {
        None
    }
}

impl Route {
    pub fn same(self, other: Route) -> (r: bool)
        ensures
            r == (self == other),
    {
        self == other
    }

    pub fn is_articles(self) -> (r: bool)
        ensures
            r == (self is Articles),
    {
        matches!(self, Route::Articles(_))
    }

    pub fn article_collection(self) -> (r: Option<ArticleCollection>)
        ensures
            r == (match self {
                Route::Articles(collection) => Some(collection),
                _ => None,
            }),
    {
        match self {
            Route::Articles(collection) => Some(collection),
            _ => None,
        }
    }

    pub fn stable_key(self) -> (r: Option<String>)
        ensures
            match r {
                Some(key) => restore_key(self) == Some(key@),
                None => restore_key(self) is None,
            },
    {
        match self {
            Route::Articles(ArticleCollection::Feed(Some(feed_id))) => {
                let mut key = "articles:feed:".to_owned();
                key.append(&decimal_i64(feed_id));
                Some(key)
            },
            Route::Articles(ArticleCollection::Feed(None)) => Some("articles".to_owned()),
            Route::Articles(ArticleCollection::Saved) => Some("articles:saved".to_owned()),
            Route::Articles(ArticleCollection::ReadLater) => Some("articles:read-later".to_owned()),
            Route::Articles(ArticleCollection::SearchResult(_)) => None,
            Route::Resources => Some("resources".to_owned()),
            Route::Excerpts => Some("excerpts".to_owned()),
            Route::Archive => Some("archive".to_owned()),
            Route::Storage => Some("storage".to_owned()),
            Route::Dashboard => None,
        }
    }

    pub fn from_stable_key(value: &str) -> (r: Option<Route>)
        ensures
            r == restored(value@),
    {
        if same_text(value, "articles") {
            return Some(Route::default());
        }
        if same_text(value, "articles:saved") {
            return Some(Route::Articles(ArticleCollection::Saved));
        }
        if same_text(value, "articles:read-later") {
            return Some(Route::Articles(ArticleCollection::ReadLater));
        }
        if same_text(value, "resources") {
            return Some(Route::Resources);
        }
        if same_text(value, "excerpts") {
            return Some(Route::Excerpts);
        }
        if same_text(value, "archive") {
            return Some(Route::Archive);
        }
        if same_text(value, "storage") {
            return Some(Route::Storage);
        }
        let chars = chars_of(value);
        if !starts_with_text(&chars, "articles:feed:") {
            return None;
        }
        let prefix = chars_of("articles:feed:");
        let rest = copy_range(&chars, prefix.len(), chars.len());
        proof {
            assert(rest@ =~= value@.skip("articles:feed:"@.len() as int));
        }
        match parse_i64(&string_of(&rest)) {
            Some(id) => Some(Route::Articles(ArticleCollection::Feed(Some(id)))),
            None => None,
        }
    }
}

/// A restored key leads back to the route that wrote it.
pub proof fn restored_routes_are_the_saved_ones(route: Route)
    requires
        restore_key(route) is Some,
    ensures
        restored(restore_key(route)->0) == Some(route),
{
    reveal_strlit("articles");
    reveal_strlit("articles:saved");
    reveal_strlit("articles:read-later");
    reveal_strlit("articles:feed:");
    reveal_strlit("resources");
    reveal_strlit("excerpts");
    reveal_strlit("archive");
    reveal_strlit("storage");
    assert("articles"@.len() == 8 && "articles:saved"@.len() == 14);
    assert("articles:read-later"@.len() == 19 && "articles:feed:"@.len() == 14);
    assert("resources"@.len() == 9 && "excerpts"@.len() == 8 && "archive"@.len() == 7);
    assert("storage"@.len() == 7);
    assert("excerpts"@[0] == 'e' && "articles"@[0] == 'a' && "archive"@[0] == 'a');
    assert("storage"@[0] == 's' && "resources"@[0] == 'r');
    match route {
        Route::Articles(ArticleCollection::Feed(Some(id))) => {
            reading_a_numeral_restores_the_number(id);
            let prefix = "articles:feed:"@;
            let digits = signed(id as int);
            let key = prefix + digits;
            assert(digits.len() > 0) by {
                if digits.len() == 0 {
                    assert(parsed_i64(digits) is None);
                }
            }
            assert(key.skip(14) =~= digits);
            assert(key.subrange(0, 14) =~= prefix);
            assert(key[9] == 'f');
            assert("articles:read-later"@[9] == 'r');
            assert("articles:saved"@[9] == 's');
            assert(key[0] == 'a');
            assert(key.len() > 14);
        },
        _ => {},
    }
}

#[derive(Debug, Clone, Copy, PartialEq, Eq, Structural)]
pub enum ModalKind {
    AddFeed,
    DeleteFeed,
    Search,
    EditTags,
    WriteThought,
    DeleteExcerpt,
    SaveWebPage,
    DeleteWebPage,
    AddResource,
    DeleteResource,
    ImportResources,
    RestoreBackup,
    ClearImages,
}

/// The routes on which a modal may open.
pub open spec fn compatible(kind: ModalKind, route: Route) -> bool {
    match kind {
        ModalKind::AddFeed | ModalKind::DeleteFeed | ModalKind::Search => true,
        ModalKind::AddResource | ModalKind::DeleteResource | ModalKind::ImportResources =>
            route is Resources,
        ModalKind::RestoreBackup | ModalKind::ClearImages => route is Storage,
        ModalKind::EditTags | ModalKind::WriteThought | ModalKind::SaveWebPage
        | ModalKind::DeleteWebPage => route is Articles,
        ModalKind::DeleteExcerpt => route is Articles || route is Excerpts,
    }
}

impl ModalKind {
    pub fn is_compatible(self, route: Route) -> (r: bool)
        ensures
            r == compatible(self, route),
    {
        match self {
            ModalKind::AddFeed | ModalKind::DeleteFeed | ModalKind::Search => true,
            ModalKind::AddResource | ModalKind::DeleteResource | ModalKind::ImportResources =>
                matches!(route, Route::Resources),
            ModalKind::RestoreBackup | ModalKind::ClearImages => matches!(route, Route::Storage),
            ModalKind::EditTags | ModalKind::WriteThought | ModalKind::SaveWebPage
            | ModalKind::DeleteWebPage => route.is_articles(),
            ModalKind::DeleteExcerpt => route.is_articles() || matches!(route, Route::Excerpts),
        }
    }
}

/// What a blocking modal holds.
pub trait ModalPayload: Sized {
    spec fn kind_of(&self) -> ModalKind;

    spec fn dirty(&self) -> bool;

    spec fn request_of(&self) -> Option<u64>;

    fn kind(&self) -> (r: ModalKind)
        ensures
            r == self.kind_of(),
    ;

    /// Whether closing the modal would lose input.
    fn is_dirty(&self) -> (r: bool)
        ensures
            r == self.dirty(),
    ;

    /// The background request whose result the modal awaits.
    fn active_request_id(&self) -> (r: Option<u64>)
        ensures
            r == self.request_of(),
    ;

    fn is_compatible(&self, route: Route) -> (r: bool)
        ensures
            r == compatible(self.kind_of(), route),
    {
        self.kind().is_compatible(route)
    }
}

/// What an editing panel holds.
pub trait PanelPayload: Sized {
    spec fn dirty(&self) -> bool;

    spec fn fits(&self, route: Route) -> bool;

    fn is_dirty(&self) -> (r: bool)
        ensures
            r == self.dirty(),
    ;

    fn is_compatible(&self, route: Route) -> (r: bool)
        ensures
            r == self.fits(route),
    ;
}

#[derive(Debug, Clone, Copy, PartialEq, Eq, Structural)]
pub enum DiscardOwner {
    Modal,
    Panel,
}

/// A message to the reader and the time it appeared, in milliseconds of the
/// desktop's clock.
#[derive(Debug, Clone, PartialEq, Eq)]
pub struct Notice {
    pub message: String,
    pub created: u64,
}

pub ghost struct NoticeView {
    pub message: Seq<char>,
    pub created: u64,
}

impl View for Notice {
    type V = NoticeView;

    open spec fn view(&self) -> NoticeView {
        NoticeView { message: self.message@, created: self.created }
    }
}

#[derive(Debug, Clone, PartialEq, Eq)]
pub enum UiEffect {
    RouteChanged { from: Route, to: Route },
    PersistRoute(String),
    InvalidTransition(String),
}

pub ghost enum EffectView {
    RouteChanged { from: Route, to: Route },
    PersistRoute(Seq<char>),
    InvalidTransition(Seq<char>),
}

impl View for UiEffect {
    type V = EffectView;

    open spec fn view(&self) -> EffectView {
        match *self {
            UiEffect::RouteChanged { from, to } => EffectView::RouteChanged { from, to },
            UiEffect::PersistRoute(key) => EffectView::PersistRoute(key@),
            UiEffect::InvalidTransition(message) => EffectView::InvalidTransition(message@),
        }
    }
}

pub open spec fn effect_views(effects: Seq<UiEffect>) -> Seq<EffectView> {
    effects.map_values(|e: UiEffect| e@)
}

pub enum UiAction<M, P, O> {
    Navigate(Route),
    ReplaceUnavailableRoute(Route),
    OpenModal(M),
    CloseModal,
    CompleteModal,
    SetPanel(Option<P>),
    SetPopover(Option<O>),
    KeepEditing,
    ConfirmDiscard,
    ClearNotice,
}

/// A transition that waits for the reader to give up unsaved input.
pub enum PendingTransition<M, P> {
    Navigate(Route),
    OpenModal(M),
    CloseModal,
    SetPanel(Option<P>),
}

pub struct UiState<M, P, O> {
    route: Route,
    modal: Option<M>,
    panel: Option<P>,
    popover: Option<O>,
    notice: Option<Notice>,
    pending: Option<PendingTransition<M, P>>,
    discard_owner: Option<DiscardOwner>,
}

#[verifier::reject_recursive_types(M)]
#[verifier::reject_recursive_types(P)]
#[verifier::reject_recursive_types(O)]
pub ghost struct UiView<M, P, O> {
    pub route: Route,
    pub modal: Option<M>,
    pub panel: Option<P>,
    pub popover: Option<O>,
    pub notice: Option<NoticeView>,
    pub pending: Option<PendingTransition<M, P>>,
    pub discard_owner: Option<DiscardOwner>,
}

impl<M, P, O> View for UiState<M, P, O> {
    type V = UiView<M, P, O>;

    closed spec fn view(&self) -> UiView<M, P, O> {
        UiView {
            route: self.route,
            modal: self.modal,
            panel: self.panel,
            popover: self.popover,
            notice: match self.notice {
                Some(notice) => Some(notice@),
                None => None,
            },
            pending: self.pending,
            discard_owner: self.discard_owner,
        }
    }
}

// ---- the model --------------------------------------------------------------

/// Nothing is open on the route.
pub open spec fn fresh<M, P, O>(route: Route, notice: Option<NoticeView>) -> UiView<M, P, O> {
    UiView {
        route,
        modal: None,
        panel: None,
        popover: None,
        notice,
        pending: None,
        discard_owner: None,
    }
}

pub open spec fn modal_dirty<M: ModalPayload, P, O>(s: UiView<M, P, O>) -> bool {
    s.modal is Some && s.modal->0.dirty()
}

pub open spec fn panel_dirty<M, P: PanelPayload, O>(s: UiView<M, P, O>) -> bool {
    s.panel is Some && s.panel->0.dirty()
}

/// Who would lose unsaved input: the modal before the panel.
pub open spec fn guardian<M: ModalPayload, P: PanelPayload, O>(s: UiView<M, P, O>) -> Option<
    DiscardOwner,
> {
    if modal_dirty(s) {
        Some(DiscardOwner::Modal)
    } else if panel_dirty(s) {
        Some(DiscardOwner::Panel)
    } else {
        None
    }
}

pub open spec fn settled<M, P, O>(s: UiView<M, P, O>) -> UiView<M, P, O> {
    UiView { pending: None, discard_owner: None, ..s }
}

/// The transition waits for the owner of the unsaved input.
pub open spec fn guarded<M: ModalPayload, P: PanelPayload, O>(
    s: UiView<M, P, O>,
    pending: PendingTransition<M, P>,
) -> UiView<M, P, O> {
    UiView { pending: Some(pending), discard_owner: guardian(s), ..s }
}

/// On the new route: no modal, no popover, and the panel only where it fits.
pub open spec fn navigated<M, P: PanelPayload, O>(s: UiView<M, P, O>, route: Route) -> UiView<
    M,
    P,
    O,
> {
    settled(
        UiView {
            route,
            modal: None,
            popover: None,
            panel: if s.panel is Some && !s.panel->0.fits(route) {
                None
            } else {
                s.panel
            },
            ..s
        },
    )
}

pub open spec fn navigation_effects(from: Route, to: Route) -> Seq<EffectView> {
    seq![
        EffectView::RouteChanged { from, to },
        EffectView::PersistRoute(
            match restore_key(to) {
                Some(key) => key,
                None => "articles"@,
            },
        ),
    ]
}

pub open spec fn discarded<M, P: PanelPayload, O>(s: UiView<M, P, O>) -> UiView<M, P, O> {
    match s.pending {
        None => UiView { discard_owner: None, ..s },
        Some(PendingTransition::Navigate(route)) => navigated(
            UiView { modal: None, panel: None, ..s },
            route,
        ),
        Some(PendingTransition::OpenModal(modal)) => settled(
            UiView { modal: Some(modal), popover: None, ..s },
        ),
        Some(PendingTransition::CloseModal) => settled(UiView { modal: None, ..s }),
        Some(PendingTransition::SetPanel(panel)) => settled(UiView { panel, ..s }),
    }
}

/// The state after an action.
pub open spec fn reduced<M: ModalPayload, P: PanelPayload, O>(
    s: UiView<M, P, O>,
    action: UiAction<M, P, O>,
) -> UiView<M, P, O> {
    match action {
        UiAction::Navigate(route) => if route == s.route {
            s
        } else if guardian(s) is Some {
            guarded(s, PendingTransition::Navigate(route))
        } else {
            navigated(s, route)
        },
        UiAction::ReplaceUnavailableRoute(route) => navigated(s, route),
        UiAction::OpenModal(modal) => if !compatible(modal.kind_of(), s.route) {
            s
        } else if modal_dirty(s) {
            guarded(s, PendingTransition::OpenModal(modal))
        } else {
            settled(UiView { modal: Some(modal), popover: None, ..s })
        },
        UiAction::CloseModal => if s.modal is None {
            s
        } else if guardian(s) is Some {
            guarded(s, PendingTransition::CloseModal)
        } else {
            settled(UiView { modal: None, ..s })
        },
        UiAction::CompleteModal => settled(UiView { modal: None, ..s }),
        UiAction::SetPanel(panel) => if panel is Some && !panel->0.fits(s.route) {
            s
        } else if panel_dirty(s) {
            guarded(s, PendingTransition::SetPanel(panel))
        } else {
            settled(UiView { panel, ..s })
        },
        UiAction::SetPopover(popover) => UiView {
            popover: if s.modal is None {
                popover
            } else {
                None
            },
            ..s
        },
        UiAction::KeepEditing => settled(s),
        UiAction::ConfirmDiscard => discarded(s),
        UiAction::ClearNotice => UiView { notice: None, ..s },
    }
}

/// What the desktop is asked to do about an action.
pub open spec fn effects_of<M: ModalPayload, P: PanelPayload, O>(
    s: UiView<M, P, O>,
    action: UiAction<M, P, O>,
) -> Seq<EffectView> {
    match action {
        UiAction::Navigate(route) => if route != s.route && guardian(s) is None {
            navigation_effects(s.route, route)
        } else {
            Seq::empty()
        },
        UiAction::ReplaceUnavailableRoute(route) => navigation_effects(s.route, route),
        UiAction::OpenModal(modal) => if !compatible(modal.kind_of(), s.route) {
            seq![EffectView::InvalidTransition("当前页面不能打开这个操作"@)]
        } else {
            Seq::empty()
        },
        UiAction::SetPanel(panel) => if panel is Some && !panel->0.fits(s.route) {
            seq![EffectView::InvalidTransition("当前页面不能打开这个编辑区"@)]
        } else {
            Seq::empty()
        },
        UiAction::ConfirmDiscard => match s.pending {
            Some(PendingTransition::Navigate(route)) => navigation_effects(s.route, route),
            _ => Seq::empty(),
        },
        _ => Seq::empty(),
    }
}

// ---- the reducer ------------------------------------------------------------

impl<M, P, O> Default for UiState<M, P, O> {
    fn default() -> (r: UiState<M, P, O>)
        ensures
            r@ == fresh::<M, P, O>(home(), None),
    {
        UiState {
            route: Route::default(),
            modal: None,
            panel: None,
            popover: None,
            notice: None,
            pending: None,
            discard_owner: None,
        }
    }
}

fn no_effects() -> (r: Vec<UiEffect>)
    ensures
        effect_views(r@) == Seq::<EffectView>::empty(),
{
    let r: Vec<UiEffect> = Vec::new();
    proof {
        assert(effect_views(r@) =~= Seq::<EffectView>::empty());
    }
    r
}

fn invalid(message: &str) -> (r: Vec<UiEffect>)
    ensures
        effect_views(r@) == seq![EffectView::InvalidTransition(message@)],
{
    let mut r: Vec<UiEffect> = Vec::new();
    r.push(UiEffect::InvalidTransition(message.to_owned()));
    proof {
        assert(effect_views(r@) =~= seq![EffectView::InvalidTransition(message@)]);
    }
    r
}

impl<M: ModalPayload, P: PanelPayload, O> UiState<M, P, O> {
    /// Applies an action and gives what the desktop is asked to do about it.
    pub fn reduce(&mut self, action: UiAction<M, P, O>) -> (r: Vec<UiEffect>)
        ensures
            final(self)@ == reduced(old(self)@, action),
            effect_views(r@) == effects_of(old(self)@, action),
    {
        match action {
            UiAction::Navigate(route) => self.request_navigate(route),
            UiAction::ReplaceUnavailableRoute(route) => self.apply_navigate(route),
            UiAction::OpenModal(modal) => self.request_open_modal(modal),
            UiAction::CloseModal => self.request_close_modal(),
            UiAction::CompleteModal => {
                self.complete_modal();
                no_effects()
            },
            UiAction::SetPanel(panel) => self.request_set_panel(panel),
            UiAction::SetPopover(popover) => {
                self.set_popover(popover);
                no_effects()
            },
            UiAction::KeepEditing => {
                self.keep_editing();
                no_effects()
            },
            UiAction::ConfirmDiscard => self.confirm_discard(),
            UiAction::ClearNotice => {
                self.clear_notice();
                no_effects()
            },
        }
    }

    pub fn route(&self) -> (r: Route)
        ensures
            r == self@.route,
    {
        self.route
    }

    /// Starts on a route with nothing open. The notice stays.
    pub fn initialize_route(&mut self, route: Route)
        ensures
            final(self)@ == fresh::<M, P, O>(route, old(self)@.notice),
    {
        self.route = route;
        self.modal = None;
        self.panel = None;
        self.popover = None;
        self.pending = None;
        self.discard_owner = None;
    }

    fn request_navigate(&mut self, route: Route) -> (r: Vec<UiEffect>)
        ensures
            final(self)@ == reduced(old(self)@, UiAction::Navigate(route)),
            effect_views(r@) == effects_of(old(self)@, UiAction::<M, P, O>::Navigate(route)),
    {
        if route == self.route {
            return no_effects();
        }
        if self.guard(PendingTransition::Navigate(route)) {
            return no_effects();
        }
        self.apply_navigate(route)
    }

    pub fn modal(&self) -> (r: Option<&M>)
        ensures
            match r {
                Some(modal) => self@.modal == Some(*modal),
                None => self@.modal is None,
            },
    {
        self.modal.as_ref()
    }

    /// The open modal, to be edited in place.
    pub fn modal_mut(&mut self) -> (r: Option<&mut M>)
        ensures
            match r {
                Some(modal) => old(self)@.modal == Some(*modal) && final(self)@ == (UiView {
                    modal: Some(*final(modal)),
                    ..old(self)@
                }),
                None => old(self)@.modal is None && final(self)@ == old(self)@,
            },
    {
        self.modal.as_mut()
    }

    pub fn modal_kind(&self) -> (r: Option<ModalKind>)
        ensures
            r == (match self@.modal {
                Some(modal) => Some(modal.kind_of()),
                None => None,
            }),
    {
        match &self.modal {
            Some(modal) => Some(modal.kind()),
            None => None,
        }
    }

    /// Whether a background result still belongs to the open modal.
    pub fn accepts_modal_event(&self, kind: ModalKind, request_id: u64) -> (r: bool)
        ensures
            r == accepts(self@, kind, request_id),
    {
        match &self.modal {
            Some(modal) => modal.kind() == kind && (match modal.active_request_id() {
                Some(active) => active == request_id,
                None => false,
            }),
            None => false,
        }
    }

    pub fn has_modal(&self) -> (r: bool)
        ensures
            r == self@.modal is Some,
    {
        self.modal.is_some()
    }

    fn modal_is_dirty(&self) -> (r: bool)
        ensures
            r == modal_dirty(self@),
    {
        match &self.modal {
            Some(modal) => modal.is_dirty(),
            None => false,
        }
    }

    fn panel_is_dirty(&self) -> (r: bool)
        ensures
            r == panel_dirty(self@),
    {
        match &self.panel {
            Some(panel) => panel.is_dirty(),
            None => false,
        }
    }

    fn request_open_modal(&mut self, modal: M) -> (r: Vec<UiEffect>)
        ensures
            final(self)@ == reduced(old(self)@, UiAction::OpenModal(modal)),
            effect_views(r@) == effects_of(old(self)@, UiAction::<M, P, O>::OpenModal(modal)),
    {
        if !modal.is_compatible(self.route) {
            return invalid("当前页面不能打开这个操作");
        }
        if self.modal_is_dirty() {
            self.guard(PendingTransition::OpenModal(modal));
            return no_effects();
        }
        self.modal = Some(modal);
        self.popover = None;
        self.pending = None;
        self.discard_owner = None;
        no_effects()
    }

    fn request_close_modal(&mut self) -> (r: Vec<UiEffect>)
        ensures
            final(self)@ == reduced(old(self)@, UiAction::CloseModal),
            effect_views(r@) == Seq::<EffectView>::empty(),
    {
        if self.modal.is_none() {
            return no_effects();
        }
        if self.guard(PendingTransition::CloseModal) {
            return no_effects();
        }
        self.modal = None;
        self.pending = None;
        self.discard_owner = None;
        no_effects()
    }

    fn complete_modal(&mut self)
        ensures
            final(self)@ == reduced(old(self)@, UiAction::CompleteModal),
    {
        self.modal = None;
        self.pending = None;
        self.discard_owner = None;
    }

    pub fn panel(&self) -> (r: Option<&P>)
        ensures
            match r {
                Some(panel) => self@.panel == Some(*panel),
                None => self@.panel is None,
            },
    {
        self.panel.as_ref()
    }

    /// The open panel, to be edited in place.
    pub fn panel_mut(&mut self) -> (r: Option<&mut P>)
        ensures
            match r {
                Some(panel) => old(self)@.panel == Some(*panel) && final(self)@ == (UiView {
                    panel: Some(*final(panel)),
                    ..old(self)@
                }),
                None => old(self)@.panel is None && final(self)@ == old(self)@,
            },
    {
        self.panel.as_mut()
    }

    fn request_set_panel(&mut self, panel: Option<P>) -> (r: Vec<UiEffect>)
        ensures
            final(self)@ == reduced(old(self)@, UiAction::SetPanel(panel)),
            effect_views(r@) == effects_of(old(self)@, UiAction::<M, P, O>::SetPanel(panel)),
    {
        let fits: bool = match &panel {
            Some(candidate) => candidate.is_compatible(self.route),
            None => true,
        };
        if !fits {
            return invalid("当前页面不能打开这个编辑区");
        }
        if self.panel_is_dirty() {
            self.guard(PendingTransition::SetPanel(panel));
            return no_effects();
        }
        self.panel = panel;
        self.pending = None;
        self.discard_owner = None;
        no_effects()
    }

    /// The panel's work is done; a question about its input is withdrawn.
    pub fn finish_panel(&mut self)
        ensures
            final(self)@ == panel_finished(old(self)@),
    {
        self.panel = None;
        if matches!(self.discard_owner, Some(DiscardOwner::Panel)) {
            self.pending = None;
            self.discard_owner = None;
        }
    }

    pub fn popover(&self) -> (r: Option<&O>)
        ensures
            match r {
                Some(popover) => self@.popover == Some(*popover),
                None => self@.popover is None,
            },
    {
        self.popover.as_ref()
    }

    pub fn set_popover(&mut self, popover: Option<O>)
        ensures
            final(self)@ == reduced(old(self)@, UiAction::SetPopover(popover)),
    {
        if self.modal.is_none() {
            self.popover = popover;
        } else {
            self.popover = None;
        }
    }

    pub fn show_notice(&mut self, message: &str, created: u64)
        ensures
            final(self)@ == (UiView {
                notice: Some(NoticeView { message: message@, created }),
                ..old(self)@
            }),
    {
        self.notice = Some(Notice { message: message.to_owned(), created });
    }

    pub fn notice(&self) -> (r: Option<&Notice>)
        ensures
            match r {
                Some(notice) => self@.notice == Some(notice@),
                None => self@.notice is None,
            },
    {
        self.notice.as_ref()
    }

    pub fn clear_notice(&mut self)
        ensures
            final(self)@ == reduced(old(self)@, UiAction::ClearNotice),
    {
        self.notice = None;
    }

    pub fn discard_owner(&self) -> (r: Option<DiscardOwner>)
        ensures
            r == self@.discard_owner,
    {
        self.discard_owner
    }

    pub fn keep_editing(&mut self)
        ensures
            final(self)@ == reduced(old(self)@, UiAction::KeepEditing),
    {
        self.pending = None;
        self.discard_owner = None;
    }

    pub fn confirm_discard(&mut self) -> (r: Vec<UiEffect>)
        ensures
            final(self)@ == reduced(old(self)@, UiAction::ConfirmDiscard),
            effect_views(r@) == effects_of(old(self)@, UiAction::<M, P, O>::ConfirmDiscard),
    {
        let pending = self.pending.take();
        self.discard_owner = None;
        match pending {
            None => no_effects(),
            Some(PendingTransition::Navigate(route)) => {
                self.modal = None;
                self.panel = None;
                self.apply_navigate(route)
            },
            Some(PendingTransition::OpenModal(modal)) => {
                self.modal = Some(modal);
                self.popover = None;
                no_effects()
            },
            Some(PendingTransition::CloseModal) => {
                self.modal = None;
                no_effects()
            },
            Some(PendingTransition::SetPanel(panel)) => {
                self.panel = panel;
                no_effects()
            },
        }
    }

    /// Holds a transition back while input would be lost.
    fn guard(&mut self, pending: PendingTransition<M, P>) -> (r: bool)
        ensures
            r == guardian(old(self)@) is Some,
            final(self)@ == (if r {
                guarded(old(self)@, pending)
            } else {
                old(self)@
            }),
    {
        if self.modal_is_dirty() {
            self.pending = Some(pending);
            self.discard_owner = Some(DiscardOwner::Modal);
            return true;
        }
        if self.panel_is_dirty() {
            self.pending = Some(pending);
            self.discard_owner = Some(DiscardOwner::Panel);
            return true;
        }
        false
    }

    fn apply_navigate(&mut self, route: Route) -> (r: Vec<UiEffect>)
        ensures
            final(self)@ == navigated(old(self)@, route),
            effect_views(r@) == navigation_effects(old(self)@.route, route),
    {
        let previous = self.route;
        self.route = route;
        self.modal = None;
        self.popover = None;
        let fits: bool = match &self.panel {
            Some(panel) => panel.is_compatible(route),
            None => true,
        };
        if !fits {
            self.panel = None;
        }
        self.pending = None;
        self.discard_owner = None;
        let key = match route.stable_key() {
            Some(key) => key,
            None => "articles".to_owned(),
        };
        let mut effects: Vec<UiEffect> = Vec::new();
        effects.push(UiEffect::RouteChanged { from: previous, to: route });
        effects.push(UiEffect::PersistRoute(key));
        proof {
            assert(effect_views(effects@) =~= navigation_effects(previous, route));
        }
        effects
    }
}

pub open spec fn panel_finished<M, P, O>(s: UiView<M, P, O>) -> UiView<M, P, O> {
    if s.discard_owner == Some(DiscardOwner::Panel) {
        settled(UiView { panel: None, ..s })
    } else {
        UiView { panel: None, ..s }
    }
}

/// The open modal awaits exactly this result.
pub open spec fn accepts<M: ModalPayload, P, O>(
    s: UiView<M, P, O>,
    kind: ModalKind,
    request_id: u64,
) -> bool {
    s.modal is Some && s.modal->0.kind_of() == kind && s.modal->0.request_of() == Some(request_id)
}

// ---- laws -------------------------------------------------------------------

/// What every state of the desktop satisfies: a transition waits exactly
/// while somebody is asked about unsaved input, no popover stands beside a
/// modal, and the open modal and the panel fit the route.
pub open spec fn coherent<M: ModalPayload, P: PanelPayload, O>(s: UiView<M, P, O>) -> bool {
    &&& s.pending is Some <==> s.discard_owner is Some
    &&& s.modal is Some ==> s.popover is None
    &&& s.modal is Some ==> compatible(s.modal->0.kind_of(), s.route)
    &&& s.panel is Some ==> s.panel->0.fits(s.route)
    &&& match s.pending {
        Some(PendingTransition::OpenModal(modal)) => compatible(modal.kind_of(), s.route),
        Some(PendingTransition::SetPanel(Some(panel))) => panel.fits(s.route),
        _ => true,
    }
}

/// A new session is coherent, and every action and finished panel keeps it so.
pub proof fn reducing_keeps_coherence<M: ModalPayload, P: PanelPayload, O>(
    s: UiView<M, P, O>,
    action: UiAction<M, P, O>,
    route: Route,
    notice: Option<NoticeView>,
)
    requires
        coherent(s),
    ensures
        coherent(fresh::<M, P, O>(route, notice)),
        coherent(reduced(s, action)),
        coherent(panel_finished(s)),
{
}

/// The action asks for a change that the reader may have to confirm.
pub open spec fn guards<M, P, O>(action: UiAction<M, P, O>) -> bool {
    action is Navigate || action is OpenModal || action is CloseModal || action is SetPanel
}

/// Unsaved input is not lost by asking: while the modal has some, navigating,
/// closing it or opening another one leaves it open and asks; while the panel
/// has some, so do navigating and replacing the panel.
pub proof fn unsaved_input_is_guarded<M: ModalPayload, P: PanelPayload, O>(
    s: UiView<M, P, O>,
    action: UiAction<M, P, O>,
)
    requires
        guards(action),
    ensures
        modal_dirty(s) ==> reduced(s, action).modal == s.modal,
        panel_dirty(s) ==> reduced(s, action).panel == s.panel,
        guardian(s) is Some ==> reduced(s, action).route == s.route,
        modal_dirty(s) && action is CloseModal ==> reduced(s, action).discard_owner == Some(
            DiscardOwner::Modal,
        ),
{
}

/// Keeping on editing leaves everything as it was before the question.
pub proof fn keeping_editing_undoes_the_question<M: ModalPayload, P: PanelPayload, O>(
    s: UiView<M, P, O>,
    action: UiAction<M, P, O>,
)
    requires
        guards(action),
        guardian(s) is Some,
        s.pending is None,
        s.discard_owner is None,
        action is OpenModal ==> modal_dirty(s),
        action is SetPanel ==> panel_dirty(s),
    ensures
        reduced(reduced(s, action), UiAction::KeepEditing) == s,
{
}

/// Confirming a held navigation arrives where an unguarded one would, with
/// the input given up.
pub proof fn confirming_completes_the_navigation<M: ModalPayload, P: PanelPayload, O>(
    s: UiView<M, P, O>,
    route: Route,
)
    requires
        guardian(s) is Some,
        route != s.route,
    ensures
        ({
            let done = reduced(reduced(s, UiAction::Navigate(route)), UiAction::ConfirmDiscard);
            &&& done == fresh::<M, P, O>(route, s.notice)
            &&& effects_of(reduced(s, UiAction::Navigate(route)), UiAction::<M, P, O>::ConfirmDiscard)
                == navigation_effects(s.route, route)
        }),
{
}

/// Once a modal is closed or completed, no late result reaches it.
pub proof fn closed_modals_accept_nothing<M: ModalPayload, P: PanelPayload, O>(
    s: UiView<M, P, O>,
    kind: ModalKind,
    request_id: u64,
)
    ensures
        !accepts(reduced(s, UiAction::CompleteModal), kind, request_id),
        !accepts(
            reduced(reduced(s, UiAction::CloseModal), UiAction::ConfirmDiscard),
            kind,
            request_id,
        ) || s.modal is None,
{
}

// ---- what each action does -------------------------------------------------------

/// The names under which routes are kept: every page has one but the dashboard
/// and the results of a search.
pub proof fn routes_are_kept_under_their_names(route: Route, id: i64)
    ensures
        restore_key(Route::Articles(ArticleCollection::Feed(Some(id)))) == Some(
            "articles:feed:"@ + signed(id as int),
        ),
        restore_key(Route::Articles(ArticleCollection::Feed(None))) == Some("articles"@),
        restore_key(Route::Articles(ArticleCollection::Saved)) == Some("articles:saved"@),
        restore_key(Route::Articles(ArticleCollection::ReadLater)) == Some("articles:read-later"@),
        restore_key(Route::Resources) == Some("resources"@),
        restore_key(Route::Excerpts) == Some("excerpts"@),
        restore_key(Route::Archive) == Some("archive"@),
        restore_key(Route::Storage) == Some("storage"@),
        restore_key(route) is None <==> route is Dashboard || (route matches Route::Articles(
            collection,
        ) && collection is SearchResult),
{
}

/// Feeds and the search can be reached from every page; other modals only from
/// the page that they are about.
pub proof fn modals_belong_to_their_page(kind: ModalKind, route: Route)
    ensures
        compatible(kind, route) <==> {
            ||| kind is AddFeed || kind is DeleteFeed || kind is Search
            ||| route is Resources && (kind is AddResource || kind is DeleteResource
                || kind is ImportResources)
            ||| route is Storage && (kind is RestoreBackup || kind is ClearImages)
            ||| route is Articles && (kind is EditTags || kind is WriteThought
                || kind is SaveWebPage || kind is DeleteWebPage || kind is DeleteExcerpt)
            ||| route is Excerpts && kind is DeleteExcerpt
        },
{
}

/// Without unsaved input one goes where one wants to: the modal and the popover
/// close, a panel stays where it fits the new page, and the page is kept for
/// the next start. Going where one is changes nothing.
pub proof fn navigation_goes_where_it_is_told<M: ModalPayload, P: PanelPayload, O>(
    s: UiView<M, P, O>,
    route: Route,
)
    ensures
        route == s.route ==> reduced(s, UiAction::Navigate(route)) == s && effects_of(
            s,
            UiAction::Navigate(route),
        ).len() == 0,
        route != s.route && guardian(s) is None ==> {
            let n = reduced(s, UiAction::Navigate(route));
            &&& n.route == route
            &&& n.modal is None && n.popover is None
            &&& n.panel == (if s.panel is Some && s.panel->0.fits(route) {
                s.panel
            } else {
                None
            })
            &&& n.pending is None && n.discard_owner is None && n.notice == s.notice
            &&& effects_of(s, UiAction::Navigate(route)) == seq![
                EffectView::RouteChanged { from: s.route, to: route },
                EffectView::PersistRoute(
                    match restore_key(route) {
                        Some(key) => key,
                        None => "articles"@,
                    },
                ),
            ]
        },
        route != s.route && guardian(s) is Some ==> {
            let n = reduced(s, UiAction::Navigate(route));
            &&& n.route == s.route && n.modal == s.modal && n.panel == s.panel
            &&& n.pending == Some(PendingTransition::<M, P>::Navigate(route))
            &&& n.discard_owner is Some
            &&& effects_of(s, UiAction::Navigate(route)).len() == 0
        },
        reduced(s, UiAction::ReplaceUnavailableRoute(route)).route == route,
        reduced(s, UiAction::ReplaceUnavailableRoute(route)).modal is None,
{
}

/// A modal opens where it belongs and nothing unsaved stands in its way, and
/// takes the place of the popover; where it does not belong it is refused, and
/// the refusal is told.
pub proof fn modals_open_where_they_belong<M: ModalPayload, P: PanelPayload, O>(
    s: UiView<M, P, O>,
    modal: M,
)
    ensures
        !compatible(modal.kind_of(), s.route) ==> reduced(s, UiAction::OpenModal(modal)) == s
            && effects_of(s, UiAction::OpenModal(modal)) == seq![
            EffectView::InvalidTransition("当前页面不能打开这个操作"@),
        ],
        compatible(modal.kind_of(), s.route) && !modal_dirty(s) ==> {
            let n = reduced(s, UiAction::OpenModal(modal));
            n.modal == Some(modal) && n.popover is None && n.route == s.route && n.panel == s.panel
                && n.pending is None && effects_of(s, UiAction::OpenModal(modal)).len() == 0
        },
        compatible(modal.kind_of(), s.route) && modal_dirty(s) ==> reduced(
            s,
            UiAction::OpenModal(modal),
        ).pending == Some(PendingTransition::<M, P>::OpenModal(modal)),
{
}

/// A modal closes at once where nothing is unsaved, and always where it is
/// done.
pub proof fn modals_close<M: ModalPayload, P: PanelPayload, O>(s: UiView<M, P, O>)
    ensures
        guardian(s) is None ==> reduced(s, UiAction::CloseModal).modal is None,
        s.modal is Some && guardian(s) is Some ==> reduced(s, UiAction::CloseModal).pending == Some(
            PendingTransition::<M, P>::CloseModal,
        ),
        reduced(s, UiAction::CompleteModal).modal is None,
        reduced(s, UiAction::CompleteModal).pending is None,
        reduced(s, UiAction::CompleteModal).panel == s.panel,
        reduced(s, UiAction::CompleteModal).route == s.route,
{
}

/// A panel is shown where it fits the page and nothing unsaved stands in its
/// place; where it does not fit it is refused, and the refusal is told.
pub proof fn panels_open_where_they_fit<M: ModalPayload, P: PanelPayload, O>(
    s: UiView<M, P, O>,
    panel: Option<P>,
)
    ensures
        panel is Some && !panel->0.fits(s.route) ==> reduced(s, UiAction::SetPanel(panel)) == s
            && effects_of(s, UiAction::SetPanel(panel)) == seq![
            EffectView::InvalidTransition("当前页面不能打开这个编辑区"@),
        ],
        (panel is Some ==> panel->0.fits(s.route)) && !panel_dirty(s) ==> reduced(
            s,
            UiAction::SetPanel(panel),
        ).panel == panel && effects_of(s, UiAction::SetPanel(panel)).len() == 0,
        (panel is Some ==> panel->0.fits(s.route)) && panel_dirty(s) ==> reduced(
            s,
            UiAction::SetPanel(panel),
        ).pending == Some(PendingTransition::<M, P>::SetPanel(panel)),
        panel_finished(s).panel is None,
        panel_finished(s).modal == s.modal,
{
}

/// A popover is shown only where no modal is, and a notice goes when it is
/// cleared; neither touches anything else.
pub proof fn popovers_yield_to_modals<M: ModalPayload, P: PanelPayload, O>(
    s: UiView<M, P, O>,
    popover: Option<O>,
)
    ensures
        s.modal is None ==> reduced(s, UiAction::SetPopover(popover)).popover == popover,
        s.modal is Some ==> reduced(s, UiAction::SetPopover(popover)).popover is None,
        reduced(s, UiAction::SetPopover(popover)).modal == s.modal,
        reduced(s, UiAction::SetPopover(popover)).route == s.route,
        reduced(s, UiAction::ClearNotice).notice is None,
        reduced(s, UiAction::ClearNotice).route == s.route,
        reduced(s, UiAction::ClearNotice).modal == s.modal,
{
}

/// Who gives unsaved input up gets what was asked for.
pub proof fn discarding_completes_what_was_asked<M: ModalPayload, P: PanelPayload, O>(
    s: UiView<M, P, O>,
)
    ensures
        ({
            let n = reduced(s, UiAction::ConfirmDiscard);
            &&& n.discard_owner is None
            &&& n.pending is None
            &&& s.pending matches Some(PendingTransition::Navigate(route)) ==> n.route == route
                && n.modal is None && n.panel is None && n.popover is None
            &&& s.pending matches Some(PendingTransition::OpenModal(modal)) ==> n.modal == Some(
                modal,
            ) && n.popover is None && n.panel == s.panel
            &&& s.pending matches Some(PendingTransition::CloseModal) ==> n.modal is None
                && n.panel == s.panel
            &&& s.pending matches Some(PendingTransition::SetPanel(panel)) ==> n.panel == panel
                && n.modal == s.modal
            &&& s.pending is None ==> n.modal == s.modal && n.panel == s.panel && n.route
                == s.route
        }),
{
}

/// Unsaved input of the modal is asked about before that of the panel.
pub proof fn modals_are_asked_about_first<M: ModalPayload, P: PanelPayload, O>(s: UiView<M, P, O>)
    ensures
        guardian(s) == Some(DiscardOwner::Modal) <==> s.modal is Some && s.modal->0.dirty(),
        guardian(s) == Some(DiscardOwner::Panel) <==> !(s.modal is Some && s.modal->0.dirty())
            && s.panel is Some && s.panel->0.dirty(),
{
}

} // verus!
