//! What the desktop shows and what is selected in it.

use vstd::prelude::*;

use crate::gui::excerpt_thought_feature::ExcerptScope;
use crate::gui::feed_subscription_feature;
use crate::gui::modal_state::{ModalState, PanelState};
use crate::gui::navigation::{
    article_ids, feed_ids, feed_position, lemma_place_of, projection_scope_for_route,
    reconcile_article_selection, reconciled_selection, scope_of, ProjectionScope,
};
use crate::gui::pages::excerpts::{article_collection, source_collection, LibraryExcerpt};
use crate::gui::reading::{observed, unwatched, DelayedReadMarking};
use crate::gui::selection::{
    passage_at, quote_view, ExcerptView, QuoteView, SelectedQuote, SelectionAction,
    SelectionPopoverState,
};
use crate::gui_modal::ModalHostAction;
use crate::gui_state::{
    effect_views, effects_of, fresh, panel_finished, reduced, restore_key, ArticleCollection,
    EffectView, ModalPayload, NoticeView, Route, UiAction, UiEffect, UiState, UiView,
};
use crate::knowledge_workflow::types::{TaskKey, TaskKind};
use crate::model::{Article, Feed};
use crate::resource_library::ResourceCollection;
use crate::text::text_opt;

verus! {

/// A scroll offset, as the bits of the number that the interface works with.
/// Offsets are only kept and handed back.
pub type Scroll = u32;

/// What was selected and how far it was scrolled when a collection was left.
#[derive(Debug, Clone, Copy, PartialEq, Eq, Structural)]
pub struct ArticleRouteMemory {
    pub selected_article_id: Option<i64>,
    pub body_scroll: Scroll,
}

#[derive(Debug, Clone, Copy, PartialEq, Eq, Structural)]
pub struct MemoryEntry {
    pub collection: ArticleCollection,
    pub memory: ArticleRouteMemory,
}

/// How far an article was read.
#[derive(Debug, Clone, Copy, PartialEq, Eq, Structural)]
pub struct ReadingPosition {
    pub article_id: i64,
    pub offset: Scroll,
}

/// What is remembered of a collection.
pub open spec fn recall(memory: Seq<MemoryEntry>, collection: ArticleCollection) -> Option<
    ArticleRouteMemory,
>
    decreases memory.len(),
{
    if memory.len() == 0 {
        None
    } else if memory.last().collection == collection {
        Some(memory.last().memory)
    } else {
        recall(memory.drop_last(), collection)
    }
}

pub open spec fn of_another(collection: ArticleCollection) -> spec_fn(MemoryEntry) -> bool {
    |e: MemoryEntry| e.collection != collection
}

/// The memory with a new entry for a collection in place of the old one.
pub open spec fn remember(
    memory: Seq<MemoryEntry>,
    collection: ArticleCollection,
    entry: ArticleRouteMemory,
) -> Seq<MemoryEntry> {
    memory.filter(of_another(collection)).push(MemoryEntry { collection, memory: entry })
}

/// How far an article was read, where that is known.
pub open spec fn position_of(positions: Seq<ReadingPosition>, id: i64) -> Option<Scroll>
    decreases positions.len(),
{
    if positions.len() == 0 {
        None
    } else if positions.last().article_id == id {
        Some(positions.last().offset)
    } else {
        position_of(positions.drop_last(), id)
    }
}

pub open spec fn of_another_article(id: i64) -> spec_fn(ReadingPosition) -> bool {
    |p: ReadingPosition| p.article_id != id
}

pub open spec fn with_position(positions: Seq<ReadingPosition>, id: i64, offset: Scroll) -> Seq<
    ReadingPosition,
> {
    positions.filter(of_another_article(id)).push(ReadingPosition { article_id: id, offset })
}

/// What was remembered last of a collection is recalled, and nothing else
/// changes.
pub proof fn the_latest_memory_is_recalled(
    memory: Seq<MemoryEntry>,
    collection: ArticleCollection,
    other: ArticleCollection,
    entry: ArticleRouteMemory,
)
    ensures
        recall(remember(memory, collection, entry), collection) == Some(entry),
        other != collection ==> recall(remember(memory, collection, entry), other) == recall(
            memory,
            other,
        ),
{
    let kept = memory.filter(of_another(collection));
    let after = remember(memory, collection, entry);
    assert(after.drop_last() =~= kept);
    if other != collection {
        lemma_recall_filtered(memory, collection, other);
    }
}

proof fn lemma_recall_filtered(
    memory: Seq<MemoryEntry>,
    collection: ArticleCollection,
    other: ArticleCollection,
)
    requires
        other != collection,
    ensures
        recall(memory.filter(of_another(collection)), other) == recall(memory, other),
    decreases memory.len(),
{
    reveal(Seq::filter);
    if memory.len() > 0 {
        let rest = memory.drop_last();
        lemma_recall_filtered(rest, collection, other);
        let kept = rest.filter(of_another(collection));
        if memory.last().collection != collection {
            assert(memory.filter(of_another(collection)) =~= kept.push(memory.last()));
            assert(kept.push(memory.last()).drop_last() =~= kept);
        }
    }
}

/// The interaction state of the desktop.
pub struct Desktop {
    pub ui: UiState<ModalState, PanelState, SelectionPopoverState>,
    pub feeds: Vec<Feed>,
    pub sel_article_id: Option<i64>,
    pub body_article_id: Option<i64>,
    pub last_opened_article_id: Option<i64>,
    pub article_route_memory: Vec<MemoryEntry>,
    pub current_body_scroll: Scroll,
    pub reading_positions: Vec<ReadingPosition>,
    pub pending_body_scroll: Option<ReadingPosition>,
    pub delayed_read_marking: DelayedReadMarking,
    pub route_storage_key: Option<String>,
    pub selection_popup_shown: bool,
    pub selection_popup_generation: u64,
    /// The figures of the storage page have to be read again.
    pub storage_stale: bool,
    /// An excerpt to be brought into view: an article and the excerpt.
    pub pending_excerpt_selection_id: Option<(i64, i64)>,
    /// A passage to be looked for when its article is shown.
    pub pending_selection_anchor: Option<SelectedQuote>,
    pub resource_filter: ResourceCollection,
    pub batch_mode: bool,
    pub batch_selection: Vec<i64>,
}

#[verifier::ext_equal]
pub ghost struct DesktopView {
    pub ui: UiView<ModalState, PanelState, SelectionPopoverState>,
    pub feeds: Seq<Feed>,
    pub selected: Option<i64>,
    pub body: Option<i64>,
    pub last_opened: Option<i64>,
    pub memory: Seq<MemoryEntry>,
    pub scroll: Scroll,
    pub positions: Seq<ReadingPosition>,
    pub pending_scroll: Option<ReadingPosition>,
    pub reading: DelayedReadMarking,
    pub route_key: Option<Seq<char>>,
    pub popup_shown: bool,
    pub popup_generation: u64,
    pub storage_stale: bool,
    pub pending_excerpt: Option<(i64, i64)>,
    pub pending_anchor: Option<QuoteView>,
    pub resource_filter: ResourceCollection,
    pub batch_mode: bool,
    pub batch_selection: Seq<i64>,
}

impl View for Desktop {
    type V = DesktopView;

    open spec fn view(&self) -> DesktopView {
        DesktopView {
            ui: self.ui@,
            feeds: self.feeds@,
            selected: self.sel_article_id,
            body: self.body_article_id,
            last_opened: self.last_opened_article_id,
            memory: self.article_route_memory@,
            scroll: self.current_body_scroll,
            positions: self.reading_positions@,
            pending_scroll: self.pending_body_scroll,
            reading: self.delayed_read_marking,
            route_key: text_opt(self.route_storage_key),
            popup_shown: self.selection_popup_shown,
            popup_generation: self.selection_popup_generation,
            storage_stale: self.storage_stale,
            pending_excerpt: self.pending_excerpt_selection_id,
            pending_anchor: quote_view(self.pending_selection_anchor),
            resource_filter: self.resource_filter,
            batch_mode: self.batch_mode,
            batch_selection: self.batch_selection@,
        }
    }
}

// ---- reading positions ----------------------------------------------------------------

proof fn lemma_position_filtered(positions: Seq<ReadingPosition>, id: i64, other: i64)
    requires
        other != id,
    ensures
        position_of(positions.filter(of_another_article(id)), other) == position_of(
            positions,
            other,
        ),
    decreases positions.len(),
{
    reveal(Seq::filter);
    if positions.len() > 0 {
        let rest = positions.drop_last();
        lemma_position_filtered(rest, id, other);
        let kept = rest.filter(of_another_article(id));
        if positions.last().article_id != id {
            assert(kept.push(positions.last()).drop_last() =~= kept);
        }
    }
}

/// An article that is opened again after another opens where it was left, and
/// what is kept of other articles stays.
pub proof fn articles_open_where_they_were_left(
    d: DesktopView,
    id: i64,
    offset: Scroll,
    position: Scroll,
    other: i64,
)
    requires
        other != id,
    ensures
        article_selected(
            article_selected(scrolled(d, id, offset, Some(position)), other),
            id,
        ).pending_scroll == Some(ReadingPosition { article_id: id, offset: position }),
        position_of(scrolled(d, id, offset, Some(position)).positions, other) == position_of(
            d.positions,
            other,
        ),
{
    let after = with_position(d.positions, id, position);
    assert(after.last() == (ReadingPosition { article_id: id, offset: position }));
    lemma_position_filtered(d.positions, id, other);
    assert(after.drop_last() =~= d.positions.filter(of_another_article(id)));
}

// ---- effects --------------------------------------------------------------------------

pub open spec fn collection_of(route: Route) -> Option<ArticleCollection> {
    match route {
        Route::Articles(collection) => Some(collection),
        _ => None,
    }
}

pub open spec fn without_popover(d: DesktopView) -> DesktopView {
    DesktopView { ui: reduced(d.ui, UiAction::SetPopover(None)), popup_shown: false, ..d }
}

pub open spec fn told(d: DesktopView, message: Seq<char>, now: u64) -> DesktopView {
    DesktopView {
        ui: UiView { notice: Some(NoticeView { message, created: now }), ..d.ui },
        ..d
    }
}

/// The desktop after one effect. Leaving a collection remembers what was
/// selected there.
pub open spec fn after_effect(d: DesktopView, effect: EffectView, now: u64) -> DesktopView {
    match effect {
        EffectView::RouteChanged { from, to } => without_popover(
            DesktopView {
                memory: match collection_of(from) {
                    Some(collection) => remember(
                        d.memory,
                        collection,
                        ArticleRouteMemory {
                            selected_article_id: d.selected,
                            body_scroll: d.scroll,
                        },
                    ),
                    None => d.memory,
                },
                selected: None,
                body: None,
                scroll: 0,
                reading: unwatched(None),
                storage_stale: d.storage_stale || to == Route::Storage,
                ..d
            },
        ),
        EffectView::PersistRoute(key) => DesktopView { route_key: Some(key), ..d },
        EffectView::InvalidTransition(message) => told(d, message, now),
    }
}

pub open spec fn after_effects(d: DesktopView, effects: Seq<EffectView>, now: u64) -> DesktopView
    decreases effects.len(),
{
    if effects.len() == 0 {
        d
    } else {
        after_effect(after_effects(d, effects.drop_last(), now), effects.last(), now)
    }
}

/// The desktop after an action and the effects that it has.
pub open spec fn dispatched(
    d: DesktopView,
    action: UiAction<ModalState, PanelState, SelectionPopoverState>,
    now: u64,
) -> DesktopView {
    after_effects(
        DesktopView { ui: reduced(d.ui, action), ..d },
        effects_of(d.ui, action),
        now,
    )
}

pub open spec fn modal_opened(d: DesktopView, modal: ModalState, now: u64) -> DesktopView {
    let after = dispatched(d, UiAction::OpenModal(modal), now);
    if after.ui.modal is Some {
        DesktopView { popup_shown: false, ..after }
    } else {
        after
    }
}

/// The desktop after what the host of a modal asks for.
pub open spec fn host_acted(d: DesktopView, action: ModalHostAction, now: u64) -> DesktopView {
    match action {
        ModalHostAction::Nothing => d,
        ModalHostAction::RequestClose => dispatched(d, UiAction::CloseModal, now),
        ModalHostAction::KeepEditing => dispatched(d, UiAction::KeepEditing, now),
        ModalHostAction::ConfirmDiscard => dispatched(d, UiAction::ConfirmDiscard, now),
    }
}

/// The desktop with an article selected. Another article than before is shown
/// where it was left, and its reading time starts from nothing.
pub open spec fn article_selected(d: DesktopView, id: i64) -> DesktopView {
    let shown = if d.selected != Some(id) {
        without_popover(
            DesktopView {
                body: None,
                scroll: 0,
                pending_scroll: match position_of(d.positions, id) {
                    Some(offset) => Some(ReadingPosition { article_id: id, offset }),
                    None => None,
                },
                reading: unwatched(Some(id)),
                ..d
            },
        )
    } else {
        d
    };
    DesktopView { selected: Some(id), last_opened: Some(id), ..shown }
}

/// The desktop after the body of an article was shown at an offset.
pub open spec fn scrolled(
    d: DesktopView,
    article_id: i64,
    offset: Scroll,
    position: Option<Scroll>,
) -> DesktopView {
    DesktopView {
        scroll: offset,
        positions: match position {
            Some(kept) => with_position(d.positions, article_id, kept),
            None => d.positions,
        },
        ..d
    }
}

/// The desktop with a collection shown.
pub open spec fn collection_selected(d: DesktopView, collection: ArticleCollection, now: u64) -> DesktopView {
    if d.ui.route == Route::Articles(collection) {
        d
    } else {
        dispatched(d, UiAction::Navigate(Route::Articles(collection)), now)
    }
}

/// The desktop with the article of an excerpt opened.
pub open spec fn excerpt_opened(d: DesktopView, excerpt: LibraryExcerpt, now: u64) -> DesktopView {
    let shown = article_selected(
        collection_selected(d, source_collection(excerpt), now),
        excerpt.article_id,
    );
    let passage = passage_at(excerpt.article_id, excerpt.selected_text@, excerpt.anchor);
    told(
        DesktopView { pending_anchor: Some(passage), ..shown },
        "已打开原文章，正在定位摘录"@,
        now,
    )
}

/// What the window shows: the page on maintenance, or that of a route, with
/// the search opened over it where it was asked for.
#[derive(Debug, Clone, Copy, PartialEq, Eq, Structural)]
pub enum Screen {
    Maintenance,
    Page { route: Route, search: bool },
}

/// The route that takes the place of one whose feed is gone: the first feed.
pub open spec fn replacement_route(feeds: Seq<Feed>) -> Route {
    Route::Articles(
        ArticleCollection::Feed(
            if feeds.len() > 0 {
                Some(feeds[0].id)
            } else {
                None
            },
        ),
    )
}

/// The desktop with the feeds read again.
pub open spec fn reloaded(d: DesktopView, feeds: Seq<Feed>, now: u64) -> DesktopView {
    let with_feeds = DesktopView { feeds, ..d };
    match d.ui.route {
        Route::Articles(ArticleCollection::Feed(selected)) => if selected is Some && feed_ids(
            feeds,
        ).contains(selected->0) {
            with_feeds
        } else {
            dispatched(
                with_feeds,
                UiAction::ReplaceUnavailableRoute(replacement_route(feeds)),
                now,
            )
        },
        _ => with_feeds,
    }
}

/// What is remembered as selected on the route.
pub open spec fn remembered_selection(d: DesktopView) -> Option<i64> {
    match collection_of(d.ui.route) {
        Some(collection) => match recall(d.memory, collection) {
            Some(memory) => memory.selected_article_id,
            None => None,
        },
        None => None,
    }
}

/// Where the article that is restored was left.
pub open spec fn restored_offset(d: DesktopView, collection: ArticleCollection, id: i64) -> Scroll {
    match recall(d.memory, collection) {
        Some(memory) => memory.body_scroll,
        None => match position_of(d.positions, id) {
            Some(offset) => offset,
            None => 0,
        },
    }
}

/// The desktop once the articles of the route are known: a selection that is
/// no longer listed is dropped, and without one the remembered selection comes
/// back.
pub open spec fn articles_known(d: DesktopView, ids: Seq<i64>) -> DesktopView {
    let chosen = reconciled_selection(d.selected, remembered_selection(d), ids);
    let kept = if d.selected is Some && chosen != d.selected {
        without_popover(DesktopView { selected: None, body: None, ..d })
    } else {
        d
    };
    if kept.selected is None && chosen is Some && collection_of(d.ui.route) is Some {
        DesktopView {
            selected: chosen,
            pending_scroll: Some(
                ReadingPosition {
                    article_id: chosen->0,
                    offset: restored_offset(d, collection_of(d.ui.route)->0, chosen->0),
                },
            ),
            ..kept
        }
    } else {
        kept
    }
}

fn recall_memory(memory: &[MemoryEntry], collection: ArticleCollection) -> (r: Option<
    ArticleRouteMemory,
>)
    ensures
        r == recall(memory@, collection),
{
    let mut i: usize = memory.len();
    proof {
        assert(memory@.take(i as int) =~= memory@);
    }
    while i > 0
        invariant
            i <= memory.len(),
            recall(memory@, collection) == recall(memory@.take(i as int), collection),
        decreases i,
    {
        proof {
            assert(memory@.take(i as int).drop_last() =~= memory@.take(i - 1));
        }
        if memory[i - 1].collection == collection {
            return Some(memory[i - 1].memory);
        }
        i -= 1;
    }
    None
}

fn remember_memory(
    memory: &mut Vec<MemoryEntry>,
    collection: ArticleCollection,
    entry: ArticleRouteMemory,
)
    ensures
        final(memory)@ == remember(old(memory)@, collection, entry),
{
    let ghost before = memory@;
    let mut kept: Vec<MemoryEntry> = Vec::new();
    let mut i: usize = 0;
    proof {
        reveal(Seq::filter);
    }
    while i < memory.len()
        invariant
            i <= memory.len(),
            memory@ == before,
            kept@ == before.take(i as int).filter(of_another(collection)),
        decreases memory.len() - i,
    {
        proof {
            reveal(Seq::filter);
            assert(before.take(i + 1).drop_last() =~= before.take(i as int));
        }
        if memory[i].collection != collection {
            kept.push(memory[i]);
        }
        i += 1;
    }
    proof {
        assert(before.take(before.len() as int) =~= before);
    }
    kept.push(MemoryEntry { collection, memory: entry });
    *memory = kept;
}

fn find_position(positions: &[ReadingPosition], id: i64) -> (r: Option<Scroll>)
    ensures
        r == position_of(positions@, id),
{
    let mut i: usize = positions.len();
    proof {
        assert(positions@.take(i as int) =~= positions@);
    }
    while i > 0
        invariant
            i <= positions.len(),
            position_of(positions@, id) == position_of(positions@.take(i as int), id),
        decreases i,
    {
        proof {
            assert(positions@.take(i as int).drop_last() =~= positions@.take(i - 1));
        }
        if positions[i - 1].article_id == id {
            return Some(positions[i - 1].offset);
        }
        i -= 1;
    }
    None
}

fn remember_position(positions: &mut Vec<ReadingPosition>, id: i64, offset: Scroll)
    ensures
        final(positions)@ == with_position(old(positions)@, id, offset),
{
    let ghost before = positions@;
    let mut kept: Vec<ReadingPosition> = Vec::new();
    let mut i: usize = 0;
    proof {
        reveal(Seq::filter);
    }
    while i < positions.len()
        invariant
            i <= positions.len(),
            positions@ == before,
            kept@ == before.take(i as int).filter(of_another_article(id)),
        decreases positions.len() - i,
    {
        proof {
            reveal(Seq::filter);
            assert(before.take(i + 1).drop_last() =~= before.take(i as int));
        }
        if positions[i].article_id != id {
            kept.push(positions[i]);
        }
        i += 1;
    }
    proof {
        assert(before.take(before.len() as int) =~= before);
    }
    kept.push(ReadingPosition { article_id: id, offset });
    *positions = kept;
}

/// The passage of the first excerpt with this number.
pub open spec fn sought(excerpts: Seq<ExcerptView>, id: i64) -> Option<QuoteView>
    decreases excerpts.len(),
{
    if excerpts.len() == 0 {
        None
    } else if excerpts[0].id == id {
        Some(
            passage_at(
                excerpts[0].article_id,
                excerpts[0].selected_text@,
                excerpts[0].anchor,
            ),
        )
    } else {
        sought(excerpts.skip(1), id)
    }
}

fn find_excerpt(excerpts: &[ExcerptView], id: i64) -> (r: Option<SelectedQuote>)
    ensures
        quote_view(r) == sought(excerpts@, id),
{
    let mut i: usize = 0;
    proof {
        assert(excerpts@.skip(0) =~= excerpts@);
    }
    while i < excerpts.len()
        invariant
            i <= excerpts.len(),
            sought(excerpts@, id) == sought(excerpts@.skip(i as int), id),
        decreases excerpts.len() - i,
    {
        proof {
            assert(excerpts@.skip(i as int)[0] == excerpts@[i as int]);
            assert(excerpts@.skip(i as int).skip(1) =~= excerpts@.skip(i + 1));
        }
        let excerpt = &excerpts[i];
        if excerpt.id == id {
            return Some(
                SelectedQuote::at(excerpt.article_id, &excerpt.selected_text, &excerpt.anchor),
            );
        }
        i += 1;
    }
    None
}

fn same_id(a: Option<i64>, b: Option<i64>) -> (r: bool)
    ensures
        r == (a == b),
{
    match (a, b) {
        (Some(x), Some(y)) => x == y,
        (None, None) => true,
        _ => false,
    }
}

impl Desktop {
    /// Opens the desktop on a route, with what was kept of the last session.
    pub fn new(
        route: Route,
        reading_positions: Vec<ReadingPosition>,
        last_opened_article_id: Option<i64>,
    ) -> (r: Desktop)
        ensures
            r@ == (DesktopView {
                ui: fresh(route, None),
                feeds: Seq::empty(),
                selected: None,
                body: None,
                last_opened: if last_opened_article_id is Some && last_opened_article_id->0 > 0 {
                    last_opened_article_id
                } else {
                    None
                },
                memory: Seq::empty(),
                scroll: 0,
                positions: reading_positions@,
                pending_scroll: None,
                reading: unwatched(None),
                route_key: restore_key(route),
                popup_shown: false,
                popup_generation: 0,
                storage_stale: true,
                pending_excerpt: None,
                pending_anchor: None,
                resource_filter: ResourceCollection::Active,
                batch_mode: false,
                batch_selection: Seq::empty(),
            }),
    {
        let mut ui: UiState<ModalState, PanelState, SelectionPopoverState> = UiState::default();
        ui.initialize_route(route);
        let last_opened: Option<i64> = match last_opened_article_id {
            Some(id) => if id > 0 {
                Some(id)
            } else {
                None
            },
            None => None,
        };
        Desktop {
            ui,
            feeds: Vec::new(),
            sel_article_id: None,
            body_article_id: None,
            last_opened_article_id: last_opened,
            article_route_memory: Vec::new(),
            current_body_scroll: 0,
            reading_positions,
            pending_body_scroll: None,
            delayed_read_marking: DelayedReadMarking::default(),
            route_storage_key: route.stable_key(),
            selection_popup_shown: false,
            selection_popup_generation: 0,
            storage_stale: true,
            pending_excerpt_selection_id: None,
            pending_selection_anchor: None,
            resource_filter: ResourceCollection::Active,
            batch_mode: false,
            batch_selection: Vec::new(),
        }
    }

    /// Tells the reader something.
    pub fn notice(&mut self, message: &str, now: u64)
        ensures
            final(self)@ == told(old(self)@, message@, now),
    {
        self.ui.show_notice(message, now);
    }

    pub fn clear_selection_popover(&mut self)
        ensures
            final(self)@ == without_popover(old(self)@),
    {
        self.ui.set_popover(None);
        self.selection_popup_shown = false;
    }

    fn apply_effect(&mut self, effect: &UiEffect, now: u64)
        ensures
            final(self)@ == after_effect(old(self)@, effect@, now),
    {
        match effect {
            UiEffect::RouteChanged { from, to } => {
                match from.article_collection() {
                    Some(collection) => {
                        let entry = ArticleRouteMemory {
                            selected_article_id: self.sel_article_id,
                            body_scroll: self.current_body_scroll,
                        };
                        remember_memory(&mut self.article_route_memory, collection, entry);
                    },
                    None => {},
                }
                self.sel_article_id = None;
                self.body_article_id = None;
                self.current_body_scroll = 0;
                self.delayed_read_marking.reset_for(None);
                if *to == Route::Storage {
                    self.storage_stale = true;
                }
                self.clear_selection_popover();
            },
            UiEffect::PersistRoute(key) => {
                self.route_storage_key = Some(key.clone());
            },
            UiEffect::InvalidTransition(message) => {
                self.notice(message, now);
            },
        }
    }

    pub fn apply_ui_effects(&mut self, effects: Vec<UiEffect>, now: u64)
        ensures
            final(self)@ == after_effects(old(self)@, effect_views(effects@), now),
    {
        let ghost start = self@;
        let ghost all = effect_views(effects@);
        let mut i: usize = 0;
        while i < effects.len()
            invariant
                i <= effects.len(),
                all == effect_views(effects@),
                self@ == after_effects(start, all.take(i as int), now),
            decreases effects.len() - i,
        {
            proof {
                assert(all.take(i + 1).drop_last() =~= all.take(i as int));
                assert(all.take(i + 1).last() == effects@[i as int]@);
            }
            self.apply_effect(&effects[i], now);
            i += 1;
        }
        proof {
            assert(all.take(all.len() as int) =~= all);
        }
    }

    /// Applies an action and its effects.
    pub fn dispatch(
        &mut self,
        action: UiAction<ModalState, PanelState, SelectionPopoverState>,
        now: u64,
    )
        ensures
            final(self)@ == dispatched(old(self)@, action, now),
    {
        let effects = self.ui.reduce(action);
        self.apply_ui_effects(effects, now);
    }

    /// Goes to a route, and says whether the desktop is there now.
    pub fn navigate(&mut self, route: Route, now: u64) -> (r: bool)
        ensures
            final(self)@ == dispatched(old(self)@, UiAction::Navigate(route), now),
            r == (final(self)@.ui.route == route),
    {
        self.dispatch(UiAction::Navigate(route), now);
        self.ui.route() == route
    }

    pub fn open_modal(&mut self, modal: ModalState, now: u64)
        ensures
            final(self)@ == modal_opened(old(self)@, modal, now),
    {
        self.dispatch(UiAction::OpenModal(modal), now);
        if self.ui.has_modal() {
            self.selection_popup_shown = false;
        }
    }

    pub fn close_modal(&mut self, now: u64)
        ensures
            final(self)@ == dispatched(old(self)@, UiAction::CloseModal, now),
    {
        self.dispatch(UiAction::CloseModal, now);
    }

    pub fn complete_modal(&mut self, now: u64)
        ensures
            final(self)@ == dispatched(old(self)@, UiAction::CompleteModal, now),
    {
        self.dispatch(UiAction::CompleteModal, now);
    }

    pub fn apply_modal_host_action(&mut self, action: ModalHostAction, now: u64)
        ensures
            final(self)@ == host_acted(old(self)@, action, now),
    {
        match action {
            ModalHostAction::Nothing => {},
            ModalHostAction::RequestClose => self.dispatch(UiAction::CloseModal, now),
            ModalHostAction::KeepEditing => self.dispatch(UiAction::KeepEditing, now),
            ModalHostAction::ConfirmDiscard => self.dispatch(UiAction::ConfirmDiscard, now),
        }
    }

    /// Opens the settings of a feed, or closes the panel.
    pub fn set_feed_settings_panel(&mut self, feed: Option<&Feed>, now: u64)
        ensures
            exists|panel: Option<PanelState>|
                #![trigger dispatched(old(self)@, UiAction::SetPanel(panel), now)]
                final(self)@ == dispatched(old(self)@, UiAction::SetPanel(panel), now)
                    && match feed {
                    Some(feed) => panel matches Some(PanelState::FeedSettings(draft))
                        && draft.shows(*feed) && !draft.dirty(),
                    None => panel is None,
                },
    {
        let panel: Option<PanelState> = match feed {
            Some(feed) => Some(
                PanelState::FeedSettings(
                    feed_subscription_feature::SettingsDraft::from_feed(feed),
                ),
            ),
            None => None,
        };
        proof {
            assert(dispatched(self@, UiAction::SetPanel(panel), now) == dispatched(
                old(self)@,
                UiAction::SetPanel(panel),
                now,
            ));
        }
        self.dispatch(UiAction::SetPanel(panel), now);
    }

    /// The work of a panel is done.
    pub fn finish_panel(&mut self)
        ensures
            final(self)@ == (DesktopView { ui: panel_finished(old(self)@.ui), ..old(self)@ }),
    {
        self.ui.finish_panel();
    }

    /// Only switches the article. It counts as read once it has been visible
    /// for a while.
    pub fn select_article(&mut self, id: i64)
        ensures
            final(self)@ == article_selected(old(self)@, id),
    {
        if !same_id(self.sel_article_id, Some(id)) {
            self.body_article_id = None;
            self.current_body_scroll = 0;
            self.pending_body_scroll = match find_position(&self.reading_positions, id) {
                Some(offset) => Some(ReadingPosition { article_id: id, offset }),
                None => None,
            };
            self.delayed_read_marking.reset_for(Some(id));
            self.clear_selection_popover();
        }
        self.sel_article_id = Some(id);
        self.last_opened_article_id = Some(id);
    }

    pub fn select_collection(&mut self, collection: ArticleCollection, now: u64)
        ensures
            final(self)@ == collection_selected(old(self)@, collection, now),
    {
        let route = Route::Articles(collection);
        if self.ui.route() != route {
            self.dispatch(UiAction::Navigate(route), now);
        }
    }

    pub fn select_feed(&mut self, id: i64, now: u64)
        ensures
            final(self)@ == collection_selected(
                old(self)@,
                ArticleCollection::Feed(Some(id)),
                now,
            ),
    {
        self.select_collection(ArticleCollection::Feed(Some(id)), now);
    }

    pub fn select_saved_articles(&mut self, now: u64)
        ensures
            final(self)@ == collection_selected(old(self)@, ArticleCollection::Saved, now),
    {
        self.select_collection(ArticleCollection::Saved, now);
    }

    pub fn select_read_later(&mut self, now: u64)
        ensures
            final(self)@ == collection_selected(old(self)@, ArticleCollection::ReadLater, now),
    {
        self.select_collection(ArticleCollection::ReadLater, now);
    }

    /// Opens an article that the overview offers, in the saved articles or in
    /// its feed.
    pub fn open_offer(&mut self, article_id: i64, feed_id: i64, saved: bool, now: u64)
        ensures
            final(self)@ == article_selected(
                collection_selected(
                    old(self)@,
                    if saved {
                        ArticleCollection::Saved
                    } else {
                        ArticleCollection::Feed(Some(feed_id))
                    },
                    now,
                ),
                article_id,
            ),
    {
        if saved {
            self.select_saved_articles(now);
        } else {
            self.select_feed(feed_id, now);
        }
        self.select_article(article_id);
    }

    /// An archived article was restored: it is opened in its feed.
    pub fn article_restored(&mut self, feed_id: i64, article_id: i64, now: u64)
        ensures
            final(self)@ == told(
                article_selected(
                    collection_selected(
                        old(self)@,
                        ArticleCollection::Feed(Some(feed_id)),
                        now,
                    ),
                    article_id,
                ),
                "文章已恢复并打开"@,
                now,
            ),
    {
        self.select_feed(feed_id, now);
        self.select_article(article_id);
        self.notice("文章已恢复并打开", now);
    }

    /// Opens the article of an excerpt, where its passage is looked for.
    pub fn open_excerpt(&mut self, excerpt: &LibraryExcerpt, now: u64)
        ensures
            final(self)@ == excerpt_opened(old(self)@, *excerpt, now),
    {
        self.select_collection(article_collection(excerpt), now);
        self.select_article(excerpt.article_id);
        self.pending_selection_anchor = Some(
            SelectedQuote::at(excerpt.article_id, &excerpt.selected_text, &excerpt.anchor),
        );
        self.notice("已打开原文章，正在定位摘录", now);
    }

    /// What the window shows. While the library is closed, that is the page on
    /// its maintenance alone. `find` says that the keys of the search were
    /// pressed.
    pub fn screen(&self, library_open: bool, find: bool) -> (r: Screen)
        ensures
            r == (if !library_open {
                Screen::Maintenance
            } else {
                Screen::Page { route: self@.ui.route, search: find && self@.ui.modal is None }
            }),
    {
        if !library_open {
            Screen::Maintenance
        } else {
            Screen::Page { route: self.ui.route(), search: find && !self.ui.has_modal() }
        }
    }

    fn leave_missing_feed(&mut self, now: u64)
        ensures
            final(self)@ == reloaded(old(self)@, old(self)@.feeds, now),
    {
        match self.ui.route() {
            Route::Articles(ArticleCollection::Feed(selected)) => {
                let valid: bool = match selected {
                    Some(id) => {
                        proof {
                            lemma_place_of(feed_ids(self.feeds@), id);
                        }
                        feed_position(&self.feeds, id).is_some()
                    },
                    None => false,
                };
                if !valid {
                    let first: Option<i64> = if self.feeds.len() > 0 {
                        Some(self.feeds[0].id)
                    } else {
                        None
                    };
                    self.dispatch(
                        UiAction::ReplaceUnavailableRoute(
                            Route::Articles(ArticleCollection::Feed(first)),
                        ),
                        now,
                    );
                }
            },
            _ => {},
        }
    }

    /// The feeds were read again, or could not be. A route whose feed is gone
    /// gives way to the first feed.
    pub fn reload(&mut self, feeds: Result<Vec<Feed>, String>, now: u64)
        ensures
            final(self)@ == (match feeds {
                Ok(feeds) => reloaded(old(self)@, feeds@, now),
                Err(message) => reloaded(
                    told(old(self)@, message@, now),
                    old(self)@.feeds,
                    now,
                ),
            }),
    {
        match feeds {
            Ok(feeds) => {
                self.feeds = feeds;
            },
            Err(message) => {
                self.notice(&message, now);
            },
        }
        self.leave_missing_feed(now);
    }

    /// The articles of the route are known.
    pub fn reconcile_articles(&mut self, articles: &[Article])
        ensures
            final(self)@ == articles_known(old(self)@, article_ids(articles@)),
    {
        let collection = self.ui.route().article_collection();
        let memory: Option<ArticleRouteMemory> = match collection {
            Some(collection) => recall_memory(&self.article_route_memory, collection),
            None => None,
        };
        let remembered: Option<i64> = match memory {
            Some(memory) => memory.selected_article_id,
            None => None,
        };
        let chosen = reconcile_article_selection(self.sel_article_id, remembered, articles);
        if self.sel_article_id.is_some() && !same_id(chosen, self.sel_article_id) {
            self.sel_article_id = None;
            self.body_article_id = None;
            self.clear_selection_popover();
        }
        if self.sel_article_id.is_none() && collection.is_some() {
            match chosen {
                Some(id) => {
                    let offset: Scroll = match memory {
                        Some(memory) => memory.body_scroll,
                        None => match find_position(&self.reading_positions, id) {
                            Some(offset) => offset,
                            None => 0,
                        },
                    };
                    self.sel_article_id = Some(id);
                    self.pending_body_scroll = Some(ReadingPosition { article_id: id, offset });
                },
                None => {},
            }
        }
    }

    /// Whether the article on display has now been visible long enough to
    /// count as read. Behind a modal or in the background it does not.
    pub fn update_delayed_read_marking(
        &mut self,
        article_id: Option<i64>,
        body_rendered: bool,
        focused: bool,
        now: u64,
    ) -> (r: bool)
        ensures
            ({
                let eligible = body_rendered && focused && old(self)@.ui.modal is None;
                let (reading, read) = observed(old(self)@.reading, article_id, eligible, now);
                r == read && final(self)@ == (DesktopView { reading, ..old(self)@ })
            }),
    {
        let eligible: bool = body_rendered && focused && !self.ui.has_modal();
        self.delayed_read_marking.observe(article_id, eligible, now)
    }

    /// The reader answered the popover of a selection, or left it.
    pub fn popover_answered(&mut self, open: bool, action: Option<SelectionAction>, now: u64)
        ensures
            final(self)@ == (if old(self)@.ui.popover is None || (open && action is None) {
                old(self)@
            } else if action == Some(SelectionAction::Copy) {
                told(without_popover(old(self)@), "已复制选中的文字"@, now)
            } else {
                without_popover(old(self)@)
            }),
    {
        if self.ui.popover().is_none() || (open && action.is_none()) {
            return ;
        }
        self.clear_selection_popover();
        match action {
            Some(SelectionAction::Copy) => self.notice("已复制选中的文字", now),
            _ => {},
        }
    }

    /// The excerpts of a scope are known. Where a passage of theirs was waited
    /// for, it is now looked for in the article, or given up if it is gone.
    pub fn excerpts_known(&mut self, scope: ExcerptScope, excerpts: &[ExcerptView])
        ensures
            final(self)@ == (match old(self)@.pending_excerpt {
                Some((article_id, excerpt_id)) => if scope == ExcerptScope::Article(article_id) {
                    DesktopView {
                        pending_excerpt: None,
                        pending_anchor: sought(excerpts@, excerpt_id),
                        ..old(self)@
                    }
                } else {
                    old(self)@
                },
                None => old(self)@,
            }),
    {
        match self.pending_excerpt_selection_id {
            Some((article_id, excerpt_id)) => match scope {
                ExcerptScope::Article(known) => if known == article_id {
                    self.pending_excerpt_selection_id = None;
                    self.pending_selection_anchor = find_excerpt(excerpts, excerpt_id);
                },
                ExcerptScope::Library => {},
            },
            None => {},
        }
    }

    /// The passage that is to be looked for in an article that is shown now.
    /// One of another article goes on waiting.
    pub fn take_anchor(&mut self, article_id: i64) -> (r: Option<SelectedQuote>)
        ensures
            match old(self)@.pending_anchor {
                Some(quote) => if quote.article_id == article_id {
                    quote_view(r) == Some(quote) && final(self)@ == (DesktopView {
                        pending_anchor: None,
                        ..old(self)@
                    })
                } else {
                    r is None && final(self)@ == old(self)@
                },
                None => r is None && final(self)@ == old(self)@,
            },
    {
        let waits: bool = match &self.pending_selection_anchor {
            Some(quote) => quote.article_id == article_id,
            None => false,
        };
        if waits {
            self.pending_selection_anchor.take()
        } else {
            None
        }
    }

    /// Where the body of an article is to be scrolled to before it is shown.
    /// What waits for another article goes on waiting.
    pub fn take_pending_scroll(&mut self, article_id: i64) -> (r: Option<Scroll>)
        ensures
            match old(self)@.pending_scroll {
                Some(position) => if position.article_id == article_id {
                    r == Some(position.offset) && final(self)@ == (DesktopView {
                        pending_scroll: None,
                        ..old(self)@
                    })
                } else {
                    r is None && final(self)@ == old(self)@
                },
                None => r is None && final(self)@ == old(self)@,
            },
    {
        match self.pending_body_scroll {
            Some(position) => if position.article_id == article_id {
                self.pending_body_scroll = None;
                Some(position.offset)
            } else {
                None
            },
            None => None,
        }
    }

    /// The body of an article was shown at an offset. `position` is what is
    /// kept of it, unless the body was not drawn or the offset is no number.
    pub fn body_scrolled(&mut self, article_id: i64, offset: Scroll, position: Option<Scroll>)
        ensures
            final(self)@ == scrolled(old(self)@, article_id, offset, position),
    {
        self.current_body_scroll = offset;
        match position {
            Some(kept) => remember_position(&mut self.reading_positions, article_id, kept),
            None => {},
        }
    }

    /// A passage that was looked for in the body was found at an offset, or
    /// was not found.
    pub fn passage_restored(
        &mut self,
        article_id: i64,
        found: Option<Scroll>,
        failed: bool,
        now: u64,
    )
        ensures
            final(self)@ == match found {
                Some(offset) => told(
                    DesktopView {
                        pending_scroll: Some(ReadingPosition { article_id, offset }),
                        ..old(self)@
                    },
                    "已定位到摘录原文"@,
                    now,
                ),
                None => if failed {
                    told(old(self)@, "正文已更新，暂时找不到这段摘录"@, now)
                } else {
                    old(self)@
                },
            },
    {
        match found {
            Some(offset) => {
                self.pending_body_scroll = Some(ReadingPosition { article_id, offset });
                self.notice("已定位到摘录原文", now);
            },
            None => if failed {
                self.notice("正文已更新，暂时找不到这段摘录", now);
            },
        }
    }

    /// A passage was selected: its popover opens, under a new generation.
    pub fn open_selection_popover(&mut self, quote: SelectedQuote)
        ensures
            ({
                let d = old(self)@;
                let generation = if d.popup_generation == u64::MAX {
                    0
                } else {
                    (d.popup_generation + 1) as u64
                };
                final(self)@ == (DesktopView {
                    ui: reduced(
                        d.ui,
                        UiAction::SetPopover(Some(SelectionPopoverState { quote, generation })),
                    ),
                    popup_shown: true,
                    popup_generation: generation,
                    ..d
                })
            }),
    {
        self.selection_popup_generation = self.selection_popup_generation.wrapping_add(1);
        let generation: u64 = self.selection_popup_generation;
        self.ui.set_popover(Some(SelectionPopoverState { quote, generation }));
        self.selection_popup_shown = true;
    }

    /// The key under which the route is stored when the session ends.
    pub fn stored_route(&self) -> (r: String)
        ensures
            r@ == (match self@.route_key {
                Some(key) => key,
                None => "articles"@,
            }),
    {
        match &self.route_storage_key {
            Some(key) => key.clone(),
            None => "articles".to_owned(),
        }
    }
}

// ---- what the desktop needs to know ------------------------------------------------------

#[derive(Debug, Clone, Copy, PartialEq, Eq, Structural)]
pub enum ResourceDemand {
    Collection(ResourceCollection),
    Detail(i64),
}

/// The parts of the library that the desktop shows.
#[derive(Debug)]
pub struct Demand {
    pub articles: Vec<ProjectionScope>,
    pub excerpts: Vec<ExcerptScope>,
    pub resources: Vec<ResourceDemand>,
    pub knowledge: Vec<TaskKey>,
}

pub open spec fn article_scope(d: DesktopView) -> ProjectionScope {
    match scope_of(d.ui.route) {
        Some(scope) => scope,
        None => ProjectionScope::ArticleBookmarks,
    }
}

pub open spec fn excerpt_scope(d: DesktopView) -> ExcerptScope {
    match (d.ui.route, d.selected) {
        (Route::Articles(_), Some(id)) => ExcerptScope::Article(id),
        _ => ExcerptScope::Library,
    }
}

/// The resource that is being edited.
pub open spec fn edited_resource(d: DesktopView) -> Option<i64> {
    match d.ui.panel {
        Some(PanelState::ResourceEditor(draft)) => Some(draft.id),
        _ => None,
    }
}

pub open spec fn demanded_articles(d: DesktopView) -> Seq<ProjectionScope> {
    let own = seq![article_scope(d)];
    if d.ui.route == Route::Dashboard {
        let unread = own.push(ProjectionScope::Unread);
        match d.last_opened {
            Some(id) => unread.push(ProjectionScope::Article(id)),
            None => unread,
        }
    } else {
        own
    }
}

pub open spec fn demanded_excerpts(d: DesktopView) -> Seq<ExcerptScope> {
    let own = seq![excerpt_scope(d)];
    if d.ui.route == Route::Dashboard {
        own.push(ExcerptScope::Library)
    } else {
        own
    }
}

pub open spec fn demanded_resources(d: DesktopView) -> Seq<ResourceDemand> {
    if d.ui.route == Route::Dashboard {
        seq![ResourceDemand::Collection(ResourceCollection::Active)]
    } else if d.ui.route == Route::Resources {
        let shown = seq![ResourceDemand::Collection(d.resource_filter)];
        match edited_resource(d) {
            Some(id) => shown.push(ResourceDemand::Detail(id)),
            None => shown,
        }
    } else {
        Seq::empty()
    }
}

pub open spec fn demanded_knowledge(d: DesktopView, watched: Seq<TaskKey>) -> Seq<TaskKey> {
    let shown = if d.ui.route == Route::Resources && edited_resource(d) is Some {
        seq![TaskKey { kind: TaskKind::ResourceCompletion, target_id: edited_resource(d)->0 }]
    } else if collection_of(d.ui.route) is Some && d.selected is Some {
        seq![TaskKey { kind: TaskKind::ArticleSummary, target_id: d.selected->0 }]
    } else {
        Seq::empty()
    };
    shown + watched
}

impl Desktop {
    pub fn desktop_article_projection_scope(&self) -> (r: ProjectionScope)
        ensures
            r == article_scope(self@),
    {
        match projection_scope_for_route(self.ui.route()) {
            Some(scope) => scope,
            None => ProjectionScope::ArticleBookmarks,
        }
    }

    pub fn current_excerpt_projection_scope(&self) -> (r: ExcerptScope)
        ensures
            r == excerpt_scope(self@),
    {
        match self.ui.route() {
            Route::Articles(_) => match self.sel_article_id {
                Some(id) => ExcerptScope::Article(id),
                None => ExcerptScope::Library,
            },
            _ => ExcerptScope::Library,
        }
    }

    pub fn edited_resource(&self) -> (r: Option<i64>)
        ensures
            r == edited_resource(self@),
    {
        match self.ui.panel() {
            Some(PanelState::ResourceEditor(draft)) => Some(draft.id()),
            _ => None,
        }
    }

    /// What the desktop shows now; `watched` are the tasks that are waited for.
    pub fn demand(&self, watched: &[TaskKey]) -> (r: Demand)
        ensures
            r.articles@ == demanded_articles(self@),
            r.excerpts@ == demanded_excerpts(self@),
            r.resources@ == demanded_resources(self@),
            r.knowledge@ == demanded_knowledge(self@, watched@),
    {
        let route = self.ui.route();
        let dashboard: bool = route == Route::Dashboard;
        let mut articles: Vec<ProjectionScope> = Vec::new();
        articles.push(self.desktop_article_projection_scope());
        if dashboard {
            articles.push(ProjectionScope::Unread);
            match self.last_opened_article_id {
                Some(id) => articles.push(ProjectionScope::Article(id)),
                None => {},
            }
        }
        let mut excerpts: Vec<ExcerptScope> = Vec::new();
        excerpts.push(self.current_excerpt_projection_scope());
        let mut resources: Vec<ResourceDemand> = Vec::new();
        let mut knowledge: Vec<TaskKey> = Vec::new();
        if dashboard {
            excerpts.push(ExcerptScope::Library);
            resources.push(ResourceDemand::Collection(ResourceCollection::Active));
        }
        if route == Route::Resources {
            resources.push(ResourceDemand::Collection(self.resource_filter));
            match self.edited_resource() {
                Some(id) => {
                    resources.push(ResourceDemand::Detail(id));
                    knowledge.push(TaskKey::new(TaskKind::ResourceCompletion, id));
                },
                None => {},
            }
        }
        if route.article_collection().is_some() {
            match self.sel_article_id {
                Some(id) => knowledge.push(TaskKey::new(TaskKind::ArticleSummary, id)),
                None => {},
            }
        }
        let ghost shown = knowledge@;
        let mut i: usize = 0;
        while i < watched.len()
            invariant
                i <= watched.len(),
                knowledge@ == shown + watched@.take(i as int),
            decreases watched.len() - i,
        {
            knowledge.push(watched[i]);
            i += 1;
        }
        proof {
            assert(watched@.take(watched@.len() as int) =~= watched@);
            assert(articles@ =~= demanded_articles(self@));
            assert(excerpts@ =~= demanded_excerpts(self@));
            assert(resources@ =~= demanded_resources(self@));
            assert(knowledge@ =~= demanded_knowledge(self@, watched@));
        }
        Demand { articles, excerpts, resources, knowledge }
    }
}

// ---- batches ---------------------------------------------------------------------------------

pub open spec fn other_id(id: i64) -> spec_fn(i64) -> bool {
    |k: i64| k != id
}

/// The batch with an article taken in or left out.
pub open spec fn toggled(batch: Seq<i64>, id: i64, selected: bool) -> Seq<i64> {
    if !selected {
        batch.filter(other_id(id))
    } else if batch.contains(id) {
        batch
    } else {
        batch.push(id)
    }
}

#[derive(Debug, Clone, Copy, PartialEq, Eq, Structural)]
pub enum ArticleBatchAction {
    Archive,
    Bookmark,
    ReadLater,
}

pub open spec fn batch_text(action: ArticleBatchAction, changed: nat) -> Seq<char> {
    "已批量"@ + (match action {
        ArticleBatchAction::Archive => "归档"@,
        ArticleBatchAction::Bookmark => "收藏"@,
        ArticleBatchAction::ReadLater => "加入稍后读"@,
    }) + " "@ + crate::number::decimal(changed) + " 篇文章"@
}

impl Desktop {
    pub fn toggle_batch_mode(&mut self)
        ensures
            final(self)@ == (DesktopView {
                batch_mode: !old(self)@.batch_mode,
                batch_selection: if old(self)@.batch_mode {
                    Seq::empty()
                } else {
                    old(self)@.batch_selection
                },
                ..old(self)@
            }),
    {
        self.batch_mode = !self.batch_mode;
        if !self.batch_mode {
            self.batch_selection = Vec::new();
        }
    }

    pub fn in_batch(&self, id: i64) -> (r: bool)
        ensures
            r == self@.batch_selection.contains(id),
    {
        let mut i: usize = 0;
        while i < self.batch_selection.len()
            invariant
                i <= self.batch_selection.len(),
                forall|k: int| 0 <= k < i ==> self.batch_selection@[k] != id,
            decreases self.batch_selection.len() - i,
        {
            if self.batch_selection[i] == id {
                assert(self@.batch_selection[i as int] == id);
                return true;
            }
            i += 1;
        }
        false
    }

    pub fn toggle_batch_article(&mut self, id: i64, selected: bool)
        ensures
            final(self)@ == (DesktopView {
                batch_selection: toggled(old(self)@.batch_selection, id, selected),
                ..old(self)@
            }),
    {
        if selected {
            if !self.in_batch(id) {
                self.batch_selection.push(id);
            }
        } else {
            let ghost before = self.batch_selection@;
            let mut kept: Vec<i64> = Vec::new();
            let mut i: usize = 0;
            proof {
                reveal(Seq::filter);
            }
            while i < self.batch_selection.len()
                invariant
                    i <= self.batch_selection.len(),
                    self.batch_selection@ == before,
                    kept@ == before.take(i as int).filter(other_id(id)),
                decreases self.batch_selection.len() - i,
            {
                proof {
                    reveal(Seq::filter);
                    assert(before.take(i + 1).drop_last() =~= before.take(i as int));
                }
                if self.batch_selection[i] != id {
                    kept.push(self.batch_selection[i]);
                }
                i += 1;
            }
            proof {
                assert(before.take(before.len() as int) =~= before);
            }
            self.batch_selection = kept;
        }
    }

    /// The articles that a batch action works on. Without any, the reader is
    /// told so.
    pub fn begin_batch_action(&mut self, now: u64) -> (r: Option<Vec<i64>>)
        ensures
            match r {
                Some(ids) => ids@ == old(self)@.batch_selection && ids@.len() > 0 && final(self)@
                    == old(self)@,
                None => old(self)@.batch_selection.len() == 0 && final(self)@ == told(
                    old(self)@,
                    "请先勾选文章"@,
                    now,
                ),
            },
    {
        if self.batch_selection.len() == 0 {
            self.notice("请先勾选文章", now);
            return None;
        }
        let mut ids: Vec<i64> = Vec::new();
        let mut i: usize = 0;
        while i < self.batch_selection.len()
            invariant
                i <= self.batch_selection.len(),
                ids@ == self.batch_selection@.take(i as int),
            decreases self.batch_selection.len() - i,
        {
            ids.push(self.batch_selection[i]);
            i += 1;
        }
        proof {
            assert(self.batch_selection@.take(self.batch_selection@.len() as int)
                =~= self.batch_selection@);
        }
        Some(ids)
    }

    /// The batch action changed this many articles; the batch is empty again.
    pub fn batch_done(&mut self, action: ArticleBatchAction, changed: usize, now: u64)
        ensures
            final(self)@ == told(
                DesktopView { batch_selection: Seq::empty(), ..old(self)@ },
                batch_text(action, changed as nat),
                now,
            ),
    {
        self.batch_selection = Vec::new();
        let mut text = "已批量".to_owned();
        text.append(
            match action {
                ArticleBatchAction::Archive => "归档",
                ArticleBatchAction::Bookmark => "收藏",
                ArticleBatchAction::ReadLater => "加入稍后读",
            },
        );
        text.append(" ");
        text.append(&crate::number::decimal_usize(changed));
        text.append(" 篇文章");
        self.notice(&text, now);
    }
}

// ---- what holds of every session ----------------------------------------------------------------

/// Going from a collection to another route remembers the selection, and
/// nothing is selected there at first.
pub proof fn leaving_remembers_the_selection(
    d: DesktopView,
    collection: ArticleCollection,
    route: Route,
    now: u64,
)
    requires
        d.ui.route == Route::Articles(collection),
        route != d.ui.route,
        crate::gui_state::guardian(d.ui) is None,
    ensures
        ({
            let after = dispatched(d, UiAction::Navigate(route), now);
            after.ui.route == route && after.selected is None && !after.popup_shown
                && after.memory == remember(
                d.memory,
                collection,
                ArticleRouteMemory { selected_article_id: d.selected, body_scroll: d.scroll },
            )
        }),
{
    lemma_navigated(d, route, now);
}

/// Leaving a collection for another route and coming back brings back the
/// article that was selected there, at the place where it was left, as long as
/// it is listed.
pub proof fn returning_restores_the_selection(
    d: DesktopView,
    collection: ArticleCollection,
    route: Route,
    id: i64,
    ids: Seq<i64>,
    now: u64,
    later: u64,
)
    requires
        d.ui.route == Route::Articles(collection),
        route != d.ui.route,
        crate::gui_state::guardian(d.ui) is None,
        d.selected == Some(id),
        ids.contains(id),
    ensures
        ({
            let there = dispatched(d, UiAction::Navigate(route), now);
            let back = dispatched(there, UiAction::Navigate(d.ui.route), later);
            let shown = articles_known(back, ids);
            &&& shown.ui.route == d.ui.route
            &&& shown.selected == Some(id)
            &&& shown.pending_scroll == Some(
                ReadingPosition { article_id: id, offset: d.scroll },
            )
        }),
{
    let there = dispatched(d, UiAction::Navigate(route), now);
    let left = ArticleRouteMemory { selected_article_id: d.selected, body_scroll: d.scroll };
    lemma_navigated(d, route, now);
    lemma_navigated(there, d.ui.route, later);
    the_latest_memory_is_recalled(d.memory, collection, collection, left);
    if let Some(other) = collection_of(route) {
        the_latest_memory_is_recalled(
            there.memory,
            other,
            collection,
            ArticleRouteMemory { selected_article_id: None, body_scroll: there.scroll },
        );
    }
}

/// Navigation that nothing holds up.
pub proof fn lemma_navigated(d: DesktopView, route: Route, now: u64)
    requires
        route != d.ui.route,
        crate::gui_state::guardian(d.ui) is None,
    ensures
        ({
            let moved = DesktopView { ui: reduced(d.ui, UiAction::Navigate(route)), ..d };
            let after = dispatched(d, UiAction::Navigate(route), now);
            &&& after.ui.route == route
            &&& crate::gui_state::guardian(after.ui) is None
            &&& after.selected is None
            &&& !after.popup_shown
            &&& after.memory == after_effect(
                moved,
                EffectView::RouteChanged { from: d.ui.route, to: route },
                now,
            ).memory
        }),
{
    let effects = effects_of(
        d.ui,
        UiAction::<ModalState, PanelState, SelectionPopoverState>::Navigate(route),
    );
    let moved = DesktopView { ui: reduced(d.ui, UiAction::Navigate(route)), ..d };
    assert(effects.len() == 2);
    assert(effects.drop_last().len() == 1);
    assert(effects.drop_last().drop_last().len() == 0);
    assert(after_effects(moved, effects.drop_last().drop_last(), now) == moved);
    assert(after_effects(moved, effects.drop_last(), now) == after_effect(moved, effects[0], now));
}

/// After the feeds were read again, a feed route shows a feed that exists, or
/// no feed where there is none.
pub proof fn reloading_leaves_no_missing_feed(d: DesktopView, feeds: Seq<Feed>, now: u64)
    ensures
        match reloaded(d, feeds, now).ui.route {
            Route::Articles(ArticleCollection::Feed(Some(id))) => feed_ids(feeds).contains(id),
            Route::Articles(ArticleCollection::Feed(None)) => feeds.len() == 0,
            _ => true,
        },
{
    let route = replacement_route(feeds);
    let with_feeds = DesktopView { feeds, ..d };
    let action = UiAction::<ModalState, PanelState, SelectionPopoverState>::ReplaceUnavailableRoute(
        route,
    );
    let moved = DesktopView { ui: reduced(with_feeds.ui, action), ..with_feeds };
    lemma_effects_keep_route(moved, effects_of(with_feeds.ui, action), now);
    if feeds.len() > 0 {
        assert(feed_ids(feeds)[0] == feeds[0].id);
    }
}

pub proof fn lemma_effects_keep_route(d: DesktopView, effects: Seq<EffectView>, now: u64)
    ensures
        after_effects(d, effects, now).ui.route == d.ui.route,
    decreases effects.len(),
{
    if effects.len() > 0 {
        lemma_effects_keep_route(d, effects.drop_last(), now);
    }
}

// ---- what each move does ---------------------------------------------------------

/// Selecting an article shows it from where it was left, with its body still to
/// come and the time of reading starting anew; selecting the one that is shown
/// changes nothing of it. Either way it is the one that was opened last.
pub proof fn selected_articles_are_shown(d: DesktopView, id: i64)
    ensures
        ({
            let n = article_selected(d, id);
            &&& n.selected == Some(id)
            &&& n.last_opened == Some(id)
            &&& d.selected == Some(id) ==> n == (DesktopView { last_opened: Some(id), ..d })
            &&& d.selected != Some(id) ==> {
                &&& n.body is None
                &&& n.scroll == 0
                &&& n.reading.article_id == Some(id) && n.reading.elapsed == 0
                &&& !n.popup_shown && n.ui.popover is None
                &&& n.pending_scroll == (match position_of(d.positions, id) {
                    Some(offset) => Some(ReadingPosition { article_id: id, offset }),
                    None => None,
                })
            }
            &&& n.ui.route == d.ui.route && n.memory == d.memory && n.positions == d.positions
        }),
{
}

/// A place in an article is kept as long as no other is kept for it.
pub proof fn kept_places_are_found(
    positions: Seq<ReadingPosition>,
    id: i64,
    other: i64,
    offset: Scroll,
)
    ensures
        position_of(with_position(positions, id, offset), id) == Some(offset),
        other != id ==> position_of(with_position(positions, id, offset), other) == position_of(
            positions,
            other,
        ),
{
    let n = with_position(positions, id, offset);
    assert(n.drop_last() =~= positions.filter(of_another_article(id)));
    if other != id {
        lemma_position_filtered(positions, id, other);
    }
}

/// A collection is opened by going to its page, unless it is shown already.
pub proof fn collections_are_opened(d: DesktopView, collection: ArticleCollection, now: u64)
    requires
        crate::gui_state::guardian(d.ui) is None,
    ensures
        collection_selected(d, collection, now).ui.route == Route::Articles(collection),
        d.ui.route == Route::Articles(collection) ==> collection_selected(d, collection, now) == d,
        d.ui.route != Route::Articles(collection) ==> collection_selected(
            d,
            collection,
            now,
        ).selected is None,
{
    let action = UiAction::<ModalState, PanelState, SelectionPopoverState>::Navigate(
        Route::Articles(collection),
    );
    let effects = effects_of(d.ui, action);
    reveal_with_fuel(after_effects, 4);
    if d.ui.route != Route::Articles(collection) {
        assert(effects.len() == 2);
        assert(effects.drop_last().last() == effects[0]);
    }
}

/// Leaving a page for another forgets what is shown of it, closes the popover,
/// and has the figures of the storage page read anew where that is where one
/// goes. What is kept of the former page is its selection and its place.
pub proof fn leaving_a_page_forgets_what_is_shown(
    d: DesktopView,
    from: Route,
    to: Route,
    key: Seq<char>,
    message: Seq<char>,
    now: u64,
)
    ensures
        ({
            let n = after_effect(d, EffectView::RouteChanged { from, to }, now);
            &&& n.selected is None && n.body is None && n.scroll == 0
            &&& !n.popup_shown && n.ui.popover is None
            &&& n.reading.article_id is None && n.reading.elapsed == 0
            &&& n.storage_stale <==> d.storage_stale || to is Storage
            &&& from matches Route::Articles(collection) ==> recall(n.memory, collection) == Some(
                ArticleRouteMemory { selected_article_id: d.selected, body_scroll: d.scroll },
            )
            &&& !(from is Articles) ==> n.memory == d.memory
            &&& n.positions == d.positions && n.feeds == d.feeds && n.last_opened == d.last_opened
        }),
        after_effect(d, EffectView::PersistRoute(key), now) == (DesktopView {
            route_key: Some(key),
            ..d
        }),
        after_effect(d, EffectView::InvalidTransition(message), now).ui.notice == Some(
            NoticeView { message, created: now },
        ),
        after_effect(d, EffectView::InvalidTransition(message), now).selected == d.selected,
{
    if let Route::Articles(collection) = from {
        the_latest_memory_is_recalled(
            d.memory,
            collection,
            collection,
            ArticleRouteMemory { selected_article_id: d.selected, body_scroll: d.scroll },
        );
    }
}

/// A notice shows what is told and when, and nothing else changes.
pub proof fn notices_show_what_is_told(d: DesktopView, message: Seq<char>, now: u64)
    ensures
        told(d, message, now).ui.notice == Some(NoticeView { message, created: now }),
        told(d, message, now).ui.route == d.ui.route,
        told(d, message, now).ui.modal == d.ui.modal,
        told(d, message, now).ui.panel == d.ui.panel,
        told(d, message, now).selected == d.selected,
        told(d, message, now).memory == d.memory,
{
}

/// A modal that opens hides the popup of a selection; one that is refused
/// leaves it.
pub proof fn modals_hide_the_popup(d: DesktopView, modal: ModalState, now: u64)
    requires
        crate::gui_state::compatible(modal.kind_of(), d.ui.route),
        !crate::gui_state::modal_dirty(d.ui),
    ensures
        modal_opened(d, modal, now).ui.modal == Some(modal),
        !modal_opened(d, modal, now).popup_shown,
        modal_opened(d, modal, now).ui.route == d.ui.route,
        modal_opened(d, modal, now).selected == d.selected,
{
    let action = UiAction::<ModalState, PanelState, SelectionPopoverState>::OpenModal(modal);
    assert(effects_of(d.ui, action).len() == 0);
}

/// The frame of a modal asks for what its buttons say.
pub proof fn modal_frames_ask_for_what_they_say(d: DesktopView, now: u64)
    ensures
        host_acted(d, ModalHostAction::Nothing, now) == d,
        host_acted(d, ModalHostAction::RequestClose, now) == dispatched(
            d,
            UiAction::CloseModal,
            now,
        ),
        host_acted(d, ModalHostAction::KeepEditing, now) == dispatched(
            d,
            UiAction::KeepEditing,
            now,
        ),
        host_acted(d, ModalHostAction::ConfirmDiscard, now) == dispatched(
            d,
            UiAction::ConfirmDiscard,
            now,
        ),
{
}

/// An excerpt opens its article in its collection, and its passage is looked
/// for there.
pub proof fn excerpts_open_at_their_passage(d: DesktopView, excerpt: LibraryExcerpt, now: u64)
    requires
        crate::gui_state::guardian(d.ui) is None,
    ensures
        ({
            let n = excerpt_opened(d, excerpt, now);
            &&& n.selected == Some(excerpt.article_id)
            &&& n.ui.route == Route::Articles(
                if excerpt.web_clipping {
                    ArticleCollection::Saved
                } else {
                    ArticleCollection::Feed(Some(excerpt.feed_id))
                },
            )
            &&& n.pending_anchor matches Some(passage) && passage.article_id == excerpt.article_id
                && passage.text == excerpt.selected_text@ && passage.start_offset
                == excerpt.anchor.start_offset && passage.end_offset == excerpt.anchor.end_offset
                && passage.anchor_prefix == excerpt.anchor.prefix@ && passage.anchor_suffix
                == excerpt.anchor.suffix@
            &&& n.ui.notice matches Some(notice) && notice.message == "已打开原文章，正在定位摘录"@
                && notice.created == now
        }),
{
    collections_are_opened(d, source_collection(excerpt), now);
}

/// Reloading the feeds keeps the page where its feed is still there, and any
/// page that is not one of a feed; otherwise it goes to the first feed.
pub proof fn reloading_keeps_the_page(d: DesktopView, feeds: Seq<Feed>, now: u64)
    ensures
        reloaded(d, feeds, now).feeds == feeds,
        !(d.ui.route matches Route::Articles(collection) && collection is Feed) ==> reloaded(
            d,
            feeds,
            now,
        ) == (DesktopView { feeds, ..d }),
        d.ui.route matches Route::Articles(ArticleCollection::Feed(Some(id))) ==> (feed_ids(
            feeds,
        ).contains(id) ==> reloaded(d, feeds, now) == (DesktopView { feeds, ..d })),
        feeds.len() > 0 ==> replacement_route(feeds) == Route::Articles(
            ArticleCollection::Feed(Some(feeds[0].id)),
        ),
        feeds.len() == 0 ==> replacement_route(feeds) == Route::Articles(
            ArticleCollection::Feed(None),
        ),
{
    let route = replacement_route(feeds);
    let action = UiAction::<
        ModalState,
        PanelState,
        SelectionPopoverState,
    >::ReplaceUnavailableRoute(route);
    let with_feeds = DesktopView { feeds, ..d };
    reveal_with_fuel(after_effects, 4);
    let effects = effects_of(with_feeds.ui, action);
    assert(effects.len() == 2);
    assert(effects.drop_last().last() == effects[0]);
}

/// The selected article stays while it is listed. Otherwise the one that was
/// selected on this page before is shown again where it was left, and else
/// none.
pub proof fn listed_articles_keep_the_selection(d: DesktopView, ids: Seq<i64>)
    ensures
        d.selected is Some && ids.contains(d.selected->0) ==> articles_known(d, ids) == d,
        !(d.selected is Some && ids.contains(d.selected->0)) ==> (
        d.ui.route matches Route::Articles(collection) ==> (recall(
            d.memory,
            collection,
        ) matches Some(memory) ==> (memory.selected_article_id matches Some(id) ==> (ids.contains(
            id,
        ) ==> articles_known(d, ids).selected == Some(id) && articles_known(
            d,
            ids,
        ).pending_scroll == Some(ReadingPosition { article_id: id, offset: memory.body_scroll }))))),
        articles_known(d, ids).selected matches Some(id) ==> ids.contains(id),
{
}

/// An excerpt that is looked for is found by its number.
pub proof fn sought_excerpts_are_found(excerpts: Seq<ExcerptView>, i: int)
    requires
        0 <= i < excerpts.len(),
        forall|j: int| 0 <= j < i ==> (#[trigger] excerpts[j]).id != excerpts[i].id,
    ensures
        sought(excerpts, excerpts[i].id) == Some(
            passage_at(excerpts[i].article_id, excerpts[i].selected_text@, excerpts[i].anchor),
        ),
    decreases excerpts.len(),
{
    if i > 0 {
        let rest = excerpts.skip(1);
        assert(rest[i - 1] == excerpts[i]);
        assert(excerpts[0].id != excerpts[i].id);
        assert forall|j: int| 0 <= j < i - 1 implies (#[trigger] rest[j]).id != rest[i - 1].id by {
            assert(rest[j] == excerpts[j + 1]);
        }
        sought_excerpts_are_found(rest, i - 1);
    }
}

/// A page demands what it shows: its articles, the excerpts of the article that
/// is read, or else all; the dashboard also the unread articles, the one that
/// was opened last, and the active resources; the resource page the resources
/// of its filter, and the one that is edited.
pub proof fn pages_demand_what_they_show(d: DesktopView, watched: Seq<TaskKey>)
    ensures
        scope_of(d.ui.route) matches Some(scope) ==> demanded_articles(d)[0] == scope,
        scope_of(d.ui.route) is None ==> demanded_articles(d)[0] is ArticleBookmarks,
        demanded_articles(d).contains(ProjectionScope::Unread) <==> d.ui.route is Dashboard,
        d.ui.route is Dashboard ==> (d.last_opened matches Some(id) ==> demanded_articles(
            d,
        ).contains(ProjectionScope::Article(id))),
        d.ui.route is Articles ==> (d.selected matches Some(id) ==> demanded_excerpts(d)[0]
            == ExcerptScope::Article(id)),
        !(d.ui.route is Articles && d.selected is Some) ==> demanded_excerpts(d)[0] is Library,
        d.ui.route is Dashboard ==> demanded_resources(d) == seq![
            ResourceDemand::Collection(ResourceCollection::Active),
        ],
        d.ui.route is Resources ==> demanded_resources(d)[0] == ResourceDemand::Collection(
            d.resource_filter,
        ),
        d.ui.route is Resources ==> (d.ui.panel matches Some(PanelState::ResourceEditor(draft))
            ==> demanded_resources(d).contains(ResourceDemand::Detail(draft.id))),
        !(d.ui.route is Dashboard) && !(d.ui.route is Resources) ==> demanded_resources(d).len()
            == 0,
        d.ui.route is Resources ==> (d.ui.panel matches Some(PanelState::ResourceEditor(draft))
            ==> demanded_knowledge(d, watched)[0] == (TaskKey {
            kind: TaskKind::ResourceCompletion,
            target_id: draft.id,
        })),
        d.ui.route is Articles ==> (d.selected matches Some(id) ==> demanded_knowledge(
            d,
            watched,
        )[0] == (TaskKey { kind: TaskKind::ArticleSummary, target_id: id })),
        forall|k: int|
            0 <= k < watched.len() ==> demanded_knowledge(d, watched).contains(
                #[trigger] watched[k],
            ),
{
    let all = demanded_knowledge(d, watched);
    let more = all.len() - watched.len();
    assert forall|k: int| 0 <= k < watched.len() implies all.contains(#[trigger] watched[k]) by {
        assert(all[more + k] == watched[k]);
    }
    let articles = demanded_articles(d);
    if d.ui.route == Route::Dashboard {
        assert(articles[1] == ProjectionScope::Unread);
        if d.last_opened is Some {
            assert(articles[2] == ProjectionScope::Article(d.last_opened->0));
        }
    } else {
        assert(articles.len() == 1);
        assert(articles[0] != ProjectionScope::Unread);
    }
    if d.ui.route == Route::Resources && edited_resource(d) is Some {
        assert(demanded_resources(d)[1] == ResourceDemand::Detail(edited_resource(d)->0));
    }
}

/// Ticking an article takes it into the batch once, and unticking takes it out;
/// the others stay.
pub proof fn batches_hold_what_is_ticked(batch: Seq<i64>, id: i64, selected: bool, other: i64)
    ensures
        toggled(batch, id, selected).contains(id) <==> selected,
        other != id ==> (toggled(batch, id, selected).contains(other) <==> batch.contains(other)),
{
    lemma_unticked(batch, id, other);
    lemma_unticked(batch, id, id);
    let longer = batch.push(id);
    assert(longer[batch.len() as int] == id);
    if batch.contains(other) {
        let k = choose|k: int| 0 <= k < batch.len() && batch[k] == other;
        assert(longer[k] == other);
    }
    if longer.contains(other) && other != id {
        let k = choose|k: int| 0 <= k < longer.len() && longer[k] == other;
        assert(batch[k] == other);
    }
}

proof fn lemma_unticked(batch: Seq<i64>, id: i64, other: i64)
    ensures
        batch.filter(other_id(id)).contains(other) <==> batch.contains(other) && other != id,
    decreases batch.len(),
{
    reveal(Seq::filter);
    if batch.len() > 0 {
        let rest = batch.drop_last();
        lemma_unticked(rest, id, other);
        let kept = batch.filter(other_id(id));
        let before = rest.filter(other_id(id));
        assert(batch[batch.len() - 1] == batch.last());
        if before.contains(other) {
            let k = choose|k: int| 0 <= k < before.len() && before[k] == other;
            assert(kept[k] == other);
        }
        if rest.contains(other) {
            let k = choose|k: int| 0 <= k < rest.len() && rest[k] == other;
            assert(batch[k] == other);
        }
        if batch.last() != id {
            assert(kept[kept.len() - 1] == batch.last());
        }
        if batch.contains(other) && batch.last() != other {
            let k = choose|k: int| 0 <= k < batch.len() && batch[k] == other;
            assert(rest[k] == other);
        }
        if kept.contains(other) && !before.contains(other) {
            let k = choose|k: int| 0 <= k < kept.len() && kept[k] == other;
            if k < before.len() {
                assert(before[k] == other);
            }
        }
    }
}

/// A batch tells what was done to how many articles.
pub proof fn batches_tell_what_they_did(action: ArticleBatchAction, changed: nat)
    ensures
        action is Archive ==> batch_text(action, changed) == "已批量"@ + "归档"@ + " "@
            + crate::number::decimal(changed) + " 篇文章"@,
        action is Bookmark ==> batch_text(action, changed) == "已批量"@ + "收藏"@ + " "@
            + crate::number::decimal(changed) + " 篇文章"@,
        action is ReadLater ==> batch_text(action, changed) == "已批量"@ + "加入稍后读"@ + " "@
            + crate::number::decimal(changed) + " 篇文章"@,
{
}

} // verus!
