//! Maintaining resources: the drafts of the modals and the editor, the checks
//! on them, and what to tell the reader afterwards.

use vstd::prelude::*;

use crate::gui::web_clipping_feature::{non_empty, non_empty_owned};
use crate::gui_modal::ModalHostAction;
use crate::knowledge_workflow::types::{TaskSnapshot, TaskStage, TaskStatus};
use crate::model::copy_text;
use crate::number::{decimal, decimal_usize};
use crate::resource_library::{
    Category, CompleteManualEdit, CreateResource, HandoffDisposition, ImportCandidate, Pricing,
    Resource, ResourceDetail, ResourceHandoff, ResourceKind, ResourcePrivacy, ResourceSource,
};
use crate::text::{
    chars_of, copy_range, is_blank, join, join_texts, lemma_texts_push, same_text, string_of,
    text_opt, texts, trim,
};

verus! {

/// A resource that is being added.
#[derive(Debug)]
pub struct AddDraft {
    pub url: String,
    pub note: String,
    pub private: bool,
    pub error: Option<String>,
    pub focus_input: bool,
}

impl Default for AddDraft {
    fn default() -> (r: AddDraft)
        ensures
            r.url@.len() == 0,
            r.note@.len() == 0,
            !r.private,
            r.error is None,
            r.focus_input,
            !r.dirty(),
    {
        proof {
            reveal_strlit("");
        }
        AddDraft {
            url: "".to_owned(),
            note: "".to_owned(),
            private: false,
            error: None,
            focus_input: true,
        }
    }
}

pub open spec fn privacy_of(private: bool) -> ResourcePrivacy {
    if private {
        ResourcePrivacy::Private
    } else {
        ResourcePrivacy::Public
    }
}

fn privacy(private: bool) -> (r: ResourcePrivacy)
    ensures
        r == privacy_of(private),
{
    if private {
        ResourcePrivacy::Private
    } else {
        ResourcePrivacy::Public
    }
}

impl AddDraft {
    pub open spec fn dirty(self) -> bool {
        trim(self.url@).len() > 0 || trim(self.note@).len() > 0 || self.private
    }

    pub fn is_dirty(&self) -> (r: bool)
        ensures
            r == self.dirty(),
    {
        !is_blank(&self.url) || !is_blank(&self.note) || self.private
    }

    /// The resource that the draft describes.
    pub fn request(&self) -> (r: CreateResource)
        ensures
            r.url@ == self.url@,
            r.parent_resource_id is None,
            r.linked_article_id is None,
            r.kind is Page,
            r.title is None,
            text_opt(r.private_note) == non_empty(self.note@),
            r.privacy == privacy_of(self.private),
            r.source is Gui,
            r.manual_rating is None,
    {
        CreateResource {
            url: self.url.clone(),
            parent_resource_id: None,
            linked_article_id: None,
            kind: ResourceKind::Page,
            title: None,
            private_note: non_empty_owned(&self.note),
            privacy: privacy(self.private),
            source: ResourceSource::Gui,
            manual_rating: None,
        }
    }
}

// ---- the editor ---------------------------------------------------------------------

/// The values of a resource that can be edited.
#[derive(Debug, Clone, PartialEq, Eq)]
pub struct EditorValues {
    pub title: String,
    pub purpose_zh: String,
    pub note: String,
    pub private: bool,
    pub rating: i64,
}

pub ghost struct ValuesView {
    pub title: Seq<char>,
    pub purpose_zh: Seq<char>,
    pub note: Seq<char>,
    pub private: bool,
    pub rating: i64,
}

impl View for EditorValues {
    type V = ValuesView;

    open spec fn view(&self) -> ValuesView {
        ValuesView {
            title: self.title@,
            purpose_zh: self.purpose_zh@,
            note: self.note@,
            private: self.private,
            rating: self.rating,
        }
    }
}

pub open spec fn text_or_empty(text: Option<String>) -> Seq<char> {
    match text {
        Some(value) => value@,
        None => Seq::empty(),
    }
}

fn copy_or_empty(text: &Option<String>) -> (r: String)
    ensures
        r@ == text_or_empty(*text),
{
    match text {
        Some(value) => value.clone(),
        None => String::new(),
    }
}

/// What the editor shows of a stored resource.
pub open spec fn stored_values(resource: Resource) -> ValuesView {
    ValuesView {
        title: text_or_empty(resource.title),
        purpose_zh: text_or_empty(resource.purpose_zh),
        note: text_or_empty(resource.private_note),
        private: resource.privacy is Private,
        rating: match resource.manual_rating {
            Some(rating) => rating,
            None => 0,
        },
    }
}

pub open spec fn blank_values() -> ValuesView {
    ValuesView {
        title: Seq::empty(),
        purpose_zh: Seq::empty(),
        note: Seq::empty(),
        private: false,
        rating: 0,
    }
}

impl EditorValues {
    pub fn from_resource(resource: &Resource) -> (r: EditorValues)
        ensures
            r@ == stored_values(*resource),
    {
        EditorValues {
            title: copy_or_empty(&resource.title),
            purpose_zh: copy_or_empty(&resource.purpose_zh),
            note: copy_or_empty(&resource.private_note),
            private: resource.privacy == ResourcePrivacy::Private,
            rating: match resource.manual_rating {
                Some(rating) => rating,
                None => 0,
            },
        }
    }

    fn blank() -> (r: EditorValues)
        ensures
            r@ == blank_values(),
    {
        EditorValues {
            title: String::new(),
            purpose_zh: String::new(),
            note: String::new(),
            private: false,
            rating: 0,
        }
    }

    fn copied(&self) -> (r: EditorValues)
        ensures
            r@ == self@,
    {
        EditorValues {
            title: self.title.clone(),
            purpose_zh: self.purpose_zh.clone(),
            note: self.note.clone(),
            private: self.private,
            rating: self.rating,
        }
    }
}

/// A resource that is being edited. Until it is `hydrated`, the stored values
/// are not known.
#[derive(Debug, Clone, PartialEq, Eq)]
pub struct EditorDraft {
    pub id: i64,
    pub hydrated: bool,
    pub values: EditorValues,
    pub original: EditorValues,
}

pub ghost struct DraftView {
    pub id: i64,
    pub hydrated: bool,
    pub values: ValuesView,
    pub original: ValuesView,
}

impl View for EditorDraft {
    type V = DraftView;

    open spec fn view(&self) -> DraftView {
        DraftView {
            id: self.id,
            hydrated: self.hydrated,
            values: self.values@,
            original: self.original@,
        }
    }
}

/// The stored value where the reader has not changed it, else the reader's.
pub open spec fn merged<T>(draft: T, original: T, stored: T) -> T {
    if draft == original {
        stored
    } else {
        draft
    }
}

/// The draft once the stored values are known. It takes them in once, and
/// keeps what the reader has changed.
pub open spec fn reconciled(d: DraftView, stored: ValuesView) -> DraftView {
    if d.hydrated {
        d
    } else {
        DraftView {
            hydrated: true,
            values: ValuesView {
                title: merged(d.values.title, d.original.title, stored.title),
                purpose_zh: merged(d.values.purpose_zh, d.original.purpose_zh, stored.purpose_zh),
                note: merged(d.values.note, d.original.note, stored.note),
                private: merged(d.values.private, d.original.private, stored.private),
                rating: merged(d.values.rating, d.original.rating, stored.rating),
            },
            original: stored,
            ..d
        }
    }
}

fn merged_text(draft: &String, original: &String, stored: &String) -> (r: String)
    ensures
        r@ == merged(draft@, original@, stored@),
{
    if same_text(draft, original) {
        stored.clone()
    } else {
        draft.clone()
    }
}

impl EditorDraft {
    pub open spec fn dirty(self) -> bool {
        self@.values != self@.original
    }

    pub fn open(resource_id: i64, resource: Option<&Resource>) -> (r: EditorDraft)
        ensures
            r@ == ({
                let values = match resource {
                    Some(stored) => stored_values(*stored),
                    None => blank_values(),
                };
                DraftView {
                    id: resource_id,
                    hydrated: resource is Some,
                    values,
                    original: values,
                }
            }),
            !r.dirty(),
    {
        let values = match resource {
            Some(stored) => EditorValues::from_resource(stored),
            None => EditorValues::blank(),
        };
        EditorDraft {
            id: resource_id,
            hydrated: resource.is_some(),
            values: values.copied(),
            original: values,
        }
    }

    pub fn id(&self) -> (r: i64)
        ensures
            r == self.id,
    {
        self.id
    }

    pub fn is_dirty(&self) -> (r: bool)
        ensures
            r == self.dirty(),
    {
        !same_text(&self.values.title, &self.original.title) || !same_text(
            &self.values.purpose_zh,
            &self.original.purpose_zh,
        ) || !same_text(&self.values.note, &self.original.note) || self.values.private
            != self.original.private || self.values.rating != self.original.rating
    }

    pub fn reconcile(&mut self, resource: &Resource)
        ensures
            final(self)@ == reconciled(old(self)@, stored_values(*resource)),
    {
        if self.hydrated {
            return ;
        }
        let stored = EditorValues::from_resource(resource);
        let values = EditorValues {
            title: merged_text(&self.values.title, &self.original.title, &stored.title),
            purpose_zh: merged_text(
                &self.values.purpose_zh,
                &self.original.purpose_zh,
                &stored.purpose_zh,
            ),
            note: merged_text(&self.values.note, &self.original.note, &stored.note),
            private: if self.values.private == self.original.private {
                stored.private
            } else {
                self.values.private
            },
            rating: if self.values.rating == self.original.rating {
                stored.rating
            } else {
                self.values.rating
            },
        };
        self.values = values;
        self.original = stored;
        self.hydrated = true;
    }

    /// The edit writes the draft's values and keeps what the draft does not
    /// show.
    pub open spec fn saves(self, detail: ResourceDetail, edit: CompleteManualEdit) -> bool {
        &&& edit.resource_id == self.id
        &&& text_opt(edit.title) == non_empty(self.values.title@)
        &&& text_opt(edit.purpose_zh) == non_empty(self.values.purpose_zh@)
        &&& text_opt(edit.use_when_zh) == text_opt(detail.resource.use_when_zh)
        &&& text_opt(edit.private_note) == non_empty(self.values.note@)
        &&& edit.privacy == privacy_of(self.values.private)
        &&& edit.manual_rating == (if self.values.rating > 0 {
            Some(self.values.rating)
        } else {
            None
        })
        &&& edit.categories@ == detail.categories@
        &&& texts(edit.tags@) == texts(detail.tags@)
    }

    /// The edit that saving makes. What the editor does not show is kept as it
    /// is stored.
    pub fn edit(&self, detail: &ResourceDetail) -> (r: CompleteManualEdit)
        ensures
            self.saves(*detail, r),
    {
        CompleteManualEdit {
            resource_id: self.id,
            title: non_empty_owned(&self.values.title),
            purpose_zh: non_empty_owned(&self.values.purpose_zh),
            use_when_zh: copy_text(&detail.resource.use_when_zh),
            private_note: non_empty_owned(&self.values.note),
            privacy: privacy(self.values.private),
            manual_rating: if self.values.rating > 0 {
                Some(self.values.rating)
            } else {
                None
            },
            categories: copy_categories(&detail.categories),
            tags: copy_all(&detail.tags),
        }
    }
}

fn copy_categories(all: &[Category]) -> (r: Vec<Category>)
    ensures
        r@ == all@,
{
    let mut r: Vec<Category> = Vec::new();
    let mut i: usize = 0;
    while i < all.len()
        invariant
            i <= all.len(),
            r@ == all@.take(i as int),
        decreases all.len() - i,
    {
        r.push(all[i]);
        i += 1;
    }
    r
}

fn copy_all(all: &[String]) -> (r: Vec<String>)
    ensures
        texts(r@) == texts(all@),
{
    let mut r: Vec<String> = Vec::new();
    let mut i: usize = 0;
    while i < all.len()
        invariant
            i <= all.len(),
            r@.len() == i,
            forall|k: int| 0 <= k < i ==> (#[trigger] r@[k])@ == all@[k]@,
        decreases all.len() - i,
    {
        r.push(all[i].clone());
        i += 1;
    }
    proof {
        assert(texts(r@) =~= texts(all@));
    }
    r
}

/// What the reader changed before the stored values arrived is kept, what the
/// reader left alone is filled in, and a second arrival changes nothing.
pub proof fn reconciling_keeps_the_readers_changes(d: DraftView, stored: ValuesView, later: ValuesView)
    requires
        !d.hydrated,
    ensures
        ({
            let after = reconciled(d, stored).values;
            &&& d.values.title != d.original.title ==> after.title == d.values.title
            &&& d.values.title == d.original.title ==> after.title == stored.title
            &&& d.values.purpose_zh != d.original.purpose_zh ==> after.purpose_zh
                == d.values.purpose_zh
            &&& d.values.purpose_zh == d.original.purpose_zh ==> after.purpose_zh
                == stored.purpose_zh
            &&& d.values.note != d.original.note ==> after.note == d.values.note
            &&& d.values.note == d.original.note ==> after.note == stored.note
            &&& d.values.private != d.original.private ==> after.private == d.values.private
            &&& d.values.private == d.original.private ==> after.private == stored.private
            &&& d.values.rating != d.original.rating ==> after.rating == d.values.rating
            &&& d.values.rating == d.original.rating ==> after.rating == stored.rating
        }),
        reconciled(d, stored).original == stored,
        d.values == d.original ==> reconciled(d, stored).values == reconciled(d, stored).original,
        reconciled(reconciled(d, stored), later) == reconciled(d, stored),
{
}

// ---- importing ------------------------------------------------------------------------

/// A resource that is about to be deleted.
#[derive(Debug, Clone)]
pub struct DeleteDraft {
    pub id: i64,
    pub title: String,
}

impl DeleteDraft {
    pub fn new(id: i64, title: String) -> (r: DeleteDraft)
        ensures
            r.id == id,
            r.title@ == title@,
    {
        DeleteDraft { id, title }
    }
}

/// Saved pages that are about to be imported.
#[derive(Debug)]
pub struct ImportDraft {
    pub candidates: Vec<ImportCandidate>,
    pub selected: Vec<i64>,
    pub initial_selected: Vec<i64>,
}

/// Both hold the same articles.
pub open spec fn same_ids(a: Seq<i64>, b: Seq<i64>) -> bool {
    (forall|i: int| 0 <= i < a.len() ==> b.contains(#[trigger] a[i])) && (forall|i: int|
        0 <= i < b.len() ==> a.contains(#[trigger] b[i]))
}

/// The articles that are not imported yet, each once.
pub open spec fn importable(candidates: Seq<ImportCandidate>) -> Seq<i64>
    decreases candidates.len(),
{
    if candidates.len() == 0 {
        Seq::empty()
    } else {
        let earlier = importable(candidates.drop_last());
        let last = candidates.last();
        if last.already_imported || earlier.contains(last.article_id) {
            earlier
        } else {
            earlier.push(last.article_id)
        }
    }
}

fn holds_id(all: &[i64], id: i64) -> (r: bool)
    ensures
        r == all@.contains(id),
{
    let mut i: usize = 0;
    while i < all.len()
        invariant
            i <= all.len(),
            forall|k: int| 0 <= k < i ==> all@[k] != id,
        decreases all.len() - i,
    {
        if all[i] == id {
            assert(all@[i as int] == id);
            return true;
        }
        i += 1;
    }
    false
}

fn all_held(part: &[i64], whole: &[i64]) -> (r: bool)
    ensures
        r == (forall|i: int| 0 <= i < part@.len() ==> whole@.contains(#[trigger] part@[i])),
{
    let mut i: usize = 0;
    while i < part.len()
        invariant
            i <= part.len(),
            forall|k: int| 0 <= k < i ==> whole@.contains(#[trigger] part@[k]),
        decreases part.len() - i,
    {
        if !holds_id(whole, part[i]) {
            assert(!whole@.contains(part@[i as int]));
            return false;
        }
        i += 1;
    }
    true
}

fn importable_ids(candidates: &[ImportCandidate]) -> (r: Vec<i64>)
    ensures
        r@ == importable(candidates@),
{
    let mut r: Vec<i64> = Vec::new();
    let mut i: usize = 0;
    while i < candidates.len()
        invariant
            i <= candidates.len(),
            r@ == importable(candidates@.take(i as int)),
        decreases candidates.len() - i,
    {
        proof {
            assert(candidates@.take(i + 1).drop_last() =~= candidates@.take(i as int));
            assert(candidates@.take(i + 1).last() == candidates@[i as int]);
        }
        if !candidates[i].already_imported && !holds_id(&r, candidates[i].article_id) {
            r.push(candidates[i].article_id);
        }
        i += 1;
    }
    proof {
        assert(candidates@.take(candidates@.len() as int) =~= candidates@);
    }
    r
}

impl ImportDraft {
    pub open spec fn dirty(self) -> bool {
        !same_ids(self.selected@, self.initial_selected@)
    }

    /// Everything that is not imported yet is selected at first.
    pub fn prepare(candidates: Vec<ImportCandidate>) -> (r: ImportDraft)
        ensures
            r.candidates == candidates,
            r.selected@ == importable(candidates@),
            r.initial_selected@ == importable(candidates@),
            !r.dirty(),
    {
        ImportDraft {
            selected: importable_ids(&candidates),
            initial_selected: importable_ids(&candidates),
            candidates,
        }
    }

    pub fn is_dirty(&self) -> (r: bool)
        ensures
            r == self.dirty(),
    {
        !(all_held(&self.selected, &self.initial_selected) && all_held(
            &self.initial_selected,
            &self.selected,
        ))
    }

    pub fn is_selected(&self, article_id: i64) -> (r: bool)
        ensures
            r == self.selected@.contains(article_id),
    {
        holds_id(&self.selected, article_id)
    }

    /// A box was checked or unchecked.
    pub fn set_selected(&mut self, article_id: i64, checked: bool)
        ensures
            final(self).candidates == old(self).candidates,
            final(self).initial_selected == old(self).initial_selected,
            final(self).selected@ == (if !checked {
                old(self).selected@.filter(not_id(article_id))
            } else if old(self).selected@.contains(article_id) {
                old(self).selected@
            } else {
                old(self).selected@.push(article_id)
            }),
    {
        if checked {
            if !holds_id(&self.selected, article_id) {
                self.selected.push(article_id);
            }
        } else {
            self.selected = without_id(&self.selected, article_id);
        }
    }

    pub fn button_label(&self) -> (r: String)
        ensures
            r@ == "导入选中的 "@ + decimal(self.selected@.len()) + " 项"@,
    {
        let mut text = "导入选中的 ".to_owned();
        text.append(&decimal_usize(self.selected.len()));
        text.append(" 项");
        text
    }
}

pub open spec fn not_id(id: i64) -> spec_fn(i64) -> bool {
    |k: i64| k != id
}

fn without_id(all: &[i64], id: i64) -> (r: Vec<i64>)
    ensures
        r@ == all@.filter(not_id(id)),
{
    let mut r: Vec<i64> = Vec::new();
    let mut i: usize = 0;
    proof {
        reveal(Seq::filter);
    }
    while i < all.len()
        invariant
            i <= all.len(),
            r@ == all@.take(i as int).filter(not_id(id)),
        decreases all.len() - i,
    {
        proof {
            reveal(Seq::filter);
            assert(all@.take(i + 1).drop_last() =~= all@.take(i as int));
        }
        if all[i] != id {
            r.push(all[i]);
        }
        i += 1;
    }
    proof {
        assert(all@.take(all@.len() as int) =~= all@);
    }
    r
}

pub fn candidate_title(candidate: &ImportCandidate) -> (r: String)
    ensures
        r@ == (match candidate.title {
            Some(title) => title@,
            None => candidate.url@,
        }),
{
    match &candidate.title {
        Some(title) => title.clone(),
        None => candidate.url.clone(),
    }
}

pub fn candidate_note(candidate: &ImportCandidate) -> (r: String)
    ensures
        r@ == (if candidate.already_imported {
            candidate.url@ + " · 已导入"@
        } else {
            candidate.url@
        }),
{
    let mut text = candidate.url.clone();
    if candidate.already_imported {
        text.append(" · 已导入");
    }
    text
}

// ---- outcomes ---------------------------------------------------------------------------

#[derive(Debug, Clone, Copy, PartialEq, Eq, Structural)]
pub enum InteractionIntent {
    Nothing,
    CompleteModal,
    ClosePanel,
    FinishPanel,
    KeepEditing,
    ConfirmDiscard,
}

/// What the desktop does after a modal or the editor was shown. `adopt` says
/// that the library's new state is taken over.
#[derive(Debug)]
pub struct Outcome {
    pub modal_action: ModalHostAction,
    pub interaction: InteractionIntent,
    pub adopt: bool,
    pub notice: Option<String>,
    pub retry_resource_id: Option<i64>,
}

pub ghost struct OutcomeView {
    pub modal_action: ModalHostAction,
    pub interaction: InteractionIntent,
    pub adopt: bool,
    pub notice: Option<Seq<char>>,
    pub retry_resource_id: Option<i64>,
}

impl View for Outcome {
    type V = OutcomeView;

    open spec fn view(&self) -> OutcomeView {
        OutcomeView {
            modal_action: self.modal_action,
            interaction: self.interaction,
            adopt: self.adopt,
            notice: text_opt(self.notice),
            retry_resource_id: self.retry_resource_id,
        }
    }
}

pub open spec fn idle(modal_action: ModalHostAction) -> OutcomeView {
    OutcomeView {
        modal_action,
        interaction: InteractionIntent::Nothing,
        adopt: false,
        notice: None,
        retry_resource_id: None,
    }
}

impl Outcome {
    pub fn idle(modal_action: ModalHostAction) -> (r: Outcome)
        ensures
            r@ == idle(modal_action),
    {
        Outcome {
            modal_action,
            interaction: InteractionIntent::Nothing,
            adopt: false,
            notice: None,
            retry_resource_id: None,
        }
    }
}

/// How much of a technical detail a notice shows, in characters.
pub const DETAIL_CHARS: usize = 240;

pub open spec fn shortened(detail: Seq<char>) -> Seq<char> {
    if detail.len() <= DETAIL_CHARS {
        detail
    } else {
        detail.take(DETAIL_CHARS as int)
    }
}

/// The first handoff that was put off, as a notice shows it.
pub open spec fn put_off(handoffs: Seq<ResourceHandoff>) -> Option<Seq<char>>
    decreases handoffs.len(),
{
    if handoffs.len() == 0 {
        None
    } else {
        match handoffs[0].disposition {
            HandoffDisposition::Deferred { user_message, technical_detail } => Some(
                user_message@ + "（技术详情："@ + shortened(technical_detail@) + "）"@,
            ),
            _ => put_off(handoffs.skip(1)),
        }
    }
}

/// What a notice says of a saved resource: also that its processing was put
/// off, where it was.
pub open spec fn saved_text(base: Seq<char>, handoffs: Seq<ResourceHandoff>) -> Seq<char> {
    match put_off(handoffs) {
        Some(message) => base + "；"@ + message,
        None => base,
    }
}

fn shorten(detail: &str) -> (r: String)
    ensures
        r@ == shortened(detail@),
{
    let chars = chars_of(detail);
    if chars.len() <= DETAIL_CHARS {
        detail.to_owned()
    } else {
        let head = copy_range(&chars, 0, DETAIL_CHARS);
        proof {
            assert(head@ =~= chars@.take(DETAIL_CHARS as int));
        }
        string_of(&head)
    }
}

pub fn resource_saved_notice(base: &str, handoffs: &[ResourceHandoff]) -> (r: String)
    ensures
        r@ == saved_text(base@, handoffs@),
{
    let mut i: usize = 0;
    proof {
        assert(handoffs@.skip(0) =~= handoffs@);
    }
    while i < handoffs.len()
        invariant
            i <= handoffs.len(),
            put_off(handoffs@) == put_off(handoffs@.skip(i as int)),
        decreases handoffs.len() - i,
    {
        proof {
            assert(handoffs@.skip(i as int)[0] == handoffs@[i as int]);
            assert(handoffs@.skip(i as int).skip(1) =~= handoffs@.skip(i + 1));
        }
        match &handoffs[i].disposition {
            HandoffDisposition::Deferred { user_message, technical_detail } => {
                let mut message = user_message.clone();
                message.append("（技术详情：");
                message.append(&shorten(technical_detail));
                message.append("）");
                let mut text = base.to_owned();
                text.append("；");
                text.append(&message);
                return text;
            },
            _ => {},
        }
        i += 1;
    }
    base.to_owned()
}

fn prefixed(prefix: &str, message: &str) -> (r: String)
    ensures
        r@ == prefix@ + message@,
{
    let mut text = prefix.to_owned();
    text.append(message);
    text
}

/// The resource was moved to another collection, or could not be.
pub fn curation_changed(result: Result<Vec<ResourceHandoff>, String>) -> (r: Outcome)
    ensures
        r@ == (match result {
            Ok(handoffs) => OutcomeView {
                adopt: true,
                notice: Some(saved_text("资源状态已更新"@, handoffs@)),
                ..idle(ModalHostAction::Nothing)
            },
            Err(error) => OutcomeView {
                notice: Some("操作失败："@ + error@),
                ..idle(ModalHostAction::Nothing)
            },
        }),
{
    let mut outcome = Outcome::idle(ModalHostAction::Nothing);
    match result {
        Ok(handoffs) => {
            outcome.adopt = true;
            outcome.notice = Some(resource_saved_notice("资源状态已更新", &handoffs));
        },
        Err(error) => {
            outcome.notice = Some(prefixed("操作失败：", &error));
        },
    }
    outcome
}

/// The resource was added, or could not be. A failure stays in the draft.
pub fn added(
    draft: &mut AddDraft,
    action: ModalHostAction,
    result: Result<Vec<ResourceHandoff>, String>,
) -> (r: Outcome)
    ensures
        match result {
            Ok(handoffs) => *final(draft) == *old(draft) && r@ == (OutcomeView {
                interaction: InteractionIntent::CompleteModal,
                adopt: true,
                notice: Some(saved_text("资源网址已保存；断网也不会丢失"@, handoffs@)),
                ..idle(action)
            }),
            Err(error) => r@ == idle(action) && *final(draft) == (AddDraft {
                error: Some(error),
                ..*old(draft)
            }),
        },
{
    let mut outcome = Outcome::idle(action);
    match result {
        Ok(handoffs) => {
            outcome.interaction = InteractionIntent::CompleteModal;
            outcome.adopt = true;
            outcome.notice = Some(
                resource_saved_notice("资源网址已保存；断网也不会丢失", &handoffs),
            );
        },
        Err(error) => {
            draft.error = Some(error);
        },
    }
    outcome
}

pub fn delete_question(draft: &DeleteDraft) -> (r: String)
    ensures
        r@ == "确定永久删除「"@ + draft.title@ + "」吗？"@,
{
    let mut text = "确定永久删除「".to_owned();
    text.append(&draft.title);
    text.append("」吗？");
    text
}

/// What the delete modal asks for after it was shown.
#[derive(Debug)]
pub enum DeleteStep {
    Finish(Outcome),
    Delete(i64),
}

pub fn delete_step(
    draft: &DeleteDraft,
    action: ModalHostAction,
    shown: bool,
    confirm: bool,
    cancel: bool,
) -> (r: DeleteStep)
    ensures
        match r {
            DeleteStep::Delete(id) => shown && !cancel && confirm && id == draft.id,
            DeleteStep::Finish(outcome) => !(shown && !cancel && confirm) && outcome@ == (
            OutcomeView {
                interaction: if shown && cancel {
                    InteractionIntent::CompleteModal
                } else {
                    InteractionIntent::Nothing
                },
                ..idle(action)
            }),
        },
{
    let mut outcome = Outcome::idle(action);
    if shown && cancel {
        outcome.interaction = InteractionIntent::CompleteModal;
        return DeleteStep::Finish(outcome);
    }
    if shown && confirm {
        DeleteStep::Delete(draft.id)
    } else {
        DeleteStep::Finish(outcome)
    }
}

/// The resource was deleted, or could not be.
pub fn deleted(action: ModalHostAction, failure: Option<String>) -> (r: Outcome)
    ensures
        r@ == (OutcomeView {
            interaction: InteractionIntent::CompleteModal,
            adopt: failure is None,
            notice: Some(
                match failure {
                    None => "资源已永久删除"@,
                    Some(error) => "删除失败："@ + error@,
                },
            ),
            ..idle(action)
        }),
{
    let mut outcome = Outcome::idle(action);
    outcome.interaction = InteractionIntent::CompleteModal;
    match failure {
        None => {
            outcome.adopt = true;
            outcome.notice = Some("资源已永久删除".to_owned());
        },
        Some(error) => {
            outcome.notice = Some(prefixed("删除失败：", &error));
        },
    }
    outcome
}

/// The pages were imported, with their number, or could not be.
pub fn imported(
    action: ModalHostAction,
    result: Result<(usize, Vec<ResourceHandoff>), String>,
) -> (r: Outcome)
    ensures
        r@ == (match result {
            Ok((count, handoffs)) => OutcomeView {
                interaction: InteractionIntent::CompleteModal,
                adopt: true,
                notice: Some(
                    saved_text(
                        "已导入 "@ + decimal(count as nat) + " 个资源，正在后台补全描述"@,
                        handoffs@,
                    ),
                ),
                ..idle(action)
            },
            Err(error) => OutcomeView {
                notice: Some("导入失败："@ + error@),
                ..idle(action)
            },
        }),
{
    let mut outcome = Outcome::idle(action);
    match result {
        Ok((count, handoffs)) => {
            outcome.interaction = InteractionIntent::CompleteModal;
            outcome.adopt = true;
            let mut base = "已导入 ".to_owned();
            base.append(&decimal_usize(count));
            base.append(" 个资源，正在后台补全描述");
            outcome.notice = Some(resource_saved_notice(&base, &handoffs));
        },
        Err(error) => {
            outcome.notice = Some(prefixed("导入失败：", &error));
        },
    }
    outcome
}

/// What the reader did in the editor.
#[derive(Debug, Clone, Copy, PartialEq, Eq, Structural)]
pub struct EditorInput {
    pub discard_intent: Option<InteractionIntent>,
    pub close: bool,
    pub save: bool,
    pub enrich: bool,
}

/// What follows from it. `retry` is the resource that is processed again.
#[derive(Debug)]
pub enum EditorStep {
    Finish(Outcome),
    Save { edit: CompleteManualEdit, retry: Option<i64> },
}

/// Decides what follows from what the reader did in the editor. An answered
/// question comes first, then closing; saving and processing again go
/// together. Without the stored resource nothing can be saved.
pub fn editor_step(draft: &EditorDraft, detail: Option<&ResourceDetail>, input: EditorInput) -> (r:
    EditorStep)
    ensures
        ({
            let retry = if input.enrich {
                Some(draft.id)
            } else {
                None
            };
            match input.discard_intent {
                Some(intent) => r matches EditorStep::Finish(outcome) && outcome@ == (OutcomeView {
                    interaction: intent,
                    ..idle(ModalHostAction::Nothing)
                }),
                None => if input.close {
                    r matches EditorStep::Finish(outcome) && outcome@ == (OutcomeView {
                        interaction: InteractionIntent::ClosePanel,
                        ..idle(ModalHostAction::Nothing)
                    })
                } else if input.save && detail is Some {
                    r matches EditorStep::Save { edit, retry: again } && again == retry
                        && draft.saves(*detail->0, edit)
                } else {
                    r matches EditorStep::Finish(outcome) && outcome@ == (OutcomeView {
                        notice: if input.save {
                            Some("保存失败：资源详情读取失败"@)
                        } else {
                            None
                        },
                        retry_resource_id: retry,
                        ..idle(ModalHostAction::Nothing)
                    })
                },
            }
        }),
{
    let mut outcome = Outcome::idle(ModalHostAction::Nothing);
    match input.discard_intent {
        Some(intent) => {
            outcome.interaction = intent;
            return EditorStep::Finish(outcome);
        },
        None => {},
    }
    if input.close {
        outcome.interaction = InteractionIntent::ClosePanel;
        return EditorStep::Finish(outcome);
    }
    let retry: Option<i64> = if input.enrich { Some(draft.id) } else { None };
    if input.save {
        match detail {
            Some(detail) => {
                return EditorStep::Save { edit: draft.edit(detail), retry };
            },
            None => {
                outcome.notice = Some("保存失败：资源详情读取失败".to_owned());
            },
        }
    }
    outcome.retry_resource_id = retry;
    EditorStep::Finish(outcome)
}

/// The edit was stored, or could not be.
pub fn editor_saved(retry: Option<i64>, failure: Option<String>) -> (r: Outcome)
    ensures
        r@ == (match failure {
            None => OutcomeView {
                interaction: InteractionIntent::FinishPanel,
                adopt: true,
                notice: Some("资源已更新"@),
                retry_resource_id: retry,
                ..idle(ModalHostAction::Nothing)
            },
            Some(error) => OutcomeView {
                notice: Some("保存失败："@ + error@),
                retry_resource_id: retry,
                ..idle(ModalHostAction::Nothing)
            },
        }),
{
    let mut outcome = Outcome::idle(ModalHostAction::Nothing);
    outcome.retry_resource_id = retry;
    match failure {
        None => {
            outcome.interaction = InteractionIntent::FinishPanel;
            outcome.adopt = true;
            outcome.notice = Some("资源已更新".to_owned());
        },
        Some(error) => {
            outcome.notice = Some(prefixed("保存失败：", &error));
        },
    }
    outcome
}

// ---- what the editor shows ----------------------------------------------------------------

/// What the editor shows of the background task of a resource.
#[derive(Debug)]
pub enum ProcessingState {
    Busy(&'static str),
    /// It can be tried again; the technical detail is at hand.
    Failed(String),
    Done,
}

pub open spec fn stage_text(stage: Option<TaskStage>) -> Seq<char> {
    match stage {
        Some(TaskStage::Fetching) => "正在抓取网页"@,
        Some(TaskStage::Organizing) => "正在整理描述"@,
        Some(TaskStage::Summarizing) => "正在总结文章"@,
        None => "等待后台处理"@,
    }
}

pub fn processing_state(task: &TaskSnapshot) -> (r: ProcessingState)
    ensures
        match task.status {
            TaskStatus::Queued | TaskStatus::Running => r matches ProcessingState::Busy(text)
                && text@ == stage_text(task.current_stage),
            TaskStatus::Failed | TaskStatus::Interrupted => r matches ProcessingState::Failed(
                detail,
            ) && detail@ == (match task.technical_detail {
                Some(text) => text@,
                None => "未知错误"@,
            }),
            TaskStatus::Succeeded => r is Done,
        },
{
    match task.status {
        TaskStatus::Queued | TaskStatus::Running => ProcessingState::Busy(
            match task.current_stage {
                Some(TaskStage::Fetching) => "正在抓取网页",
                Some(TaskStage::Organizing) => "正在整理描述",
                Some(TaskStage::Summarizing) => "正在总结文章",
                None => "等待后台处理",
            },
        ),
        TaskStatus::Failed | TaskStatus::Interrupted => ProcessingState::Failed(
            match &task.technical_detail {
                Some(text) => text.clone(),
                None => "未知错误".to_owned(),
            },
        ),
        TaskStatus::Succeeded => ProcessingState::Done,
    }
}

/// Processing has described the resource.
pub open spec fn described(detail: ResourceDetail) -> bool {
    let resource = detail.resource;
    resource.purpose_zh is Some || resource.use_when_zh is Some || resource.capabilities@.len() > 0
        || resource.limitations@.len() > 0 || detail.categories@.len() > 0 || detail.tags@.len() > 0
        || resource.pricing is Some || resource.requires_login is Some || resource.languages@.len()
        > 0
}

pub fn has_ai_details(detail: &ResourceDetail) -> (r: bool)
    ensures
        r == described(*detail),
{
    let resource = &detail.resource;
    resource.purpose_zh.is_some() || resource.use_when_zh.is_some() || resource.capabilities.len()
        > 0 || resource.limitations.len() > 0 || detail.categories.len() > 0 || detail.tags.len()
        > 0 || resource.pricing.is_some() || resource.requires_login.is_some()
        || resource.languages.len() > 0
}

pub open spec fn category_text(category: Category) -> Seq<char> {
    match category {
        Category::Tool => "工具"@,
        Category::AssetLibrary => "素材库"@,
        Category::Docs => "文档"@,
        Category::Blog => "博客"@,
        Category::Inspiration => "灵感"@,
        Category::Service => "服务"@,
        Category::Repository => "代码仓库"@,
        Category::Other => "其他"@,
    }
}

pub fn category_label(category: Category) -> (r: &'static str)
    ensures
        r@ == category_text(category),
{
    match category {
        Category::Tool => "工具",
        Category::AssetLibrary => "素材库",
        Category::Docs => "文档",
        Category::Blog => "博客",
        Category::Inspiration => "灵感",
        Category::Service => "服务",
        Category::Repository => "代码仓库",
        Category::Other => "其他",
    }
}

pub open spec fn pricing_text(pricing: Option<Pricing>) -> Seq<char> {
    match pricing {
        Some(Pricing::Free) => "免费"@,
        Some(Pricing::Freemium) => "部分免费"@,
        Some(Pricing::Paid) => "付费"@,
        Some(Pricing::Unknown) => "未知"@,
        None => "未判断"@,
    }
}

pub fn pricing_label(pricing: Option<Pricing>) -> (r: &'static str)
    ensures
        r@ == pricing_text(pricing),
{
    match pricing {
        Some(Pricing::Free) => "免费",
        Some(Pricing::Freemium) => "部分免费",
        Some(Pricing::Paid) => "付费",
        Some(Pricing::Unknown) => "未知",
        None => "未判断",
    }
}

pub open spec fn login_text(requires_login: Option<bool>) -> Seq<char> {
    match requires_login {
        Some(true) => "需要"@,
        Some(false) => "不需要"@,
        None => "未判断"@,
    }
}

/// The lines with a label and a value below it added, where there is one.
pub open spec fn with_pair(lines: Seq<Seq<char>>, label: Seq<char>, value: Option<Seq<char>>) -> Seq<
    Seq<char>,
> {
    match value {
        Some(text) => lines.push(label).push(text),
        None => lines,
    }
}

/// The lines with a labelled list added, where it holds something.
pub open spec fn with_list(lines: Seq<Seq<char>>, label: Seq<char>, all: Seq<Seq<char>>) -> Seq<
    Seq<char>,
> {
    if all.len() > 0 {
        lines.push(label + join(all, "、"@))
    } else {
        lines
    }
}

/// The lines with the price, the login and the languages added, where one of
/// them is known.
pub open spec fn with_facts(lines: Seq<Seq<char>>, resource: Resource) -> Seq<Seq<char>> {
    if resource.pricing is Some || resource.requires_login is Some || resource.languages@.len() > 0 {
        lines.push(
            "价格："@ + pricing_text(resource.pricing) + "　登录："@ + login_text(
                resource.requires_login,
            ) + "　语言："@ + (if resource.languages@.len() == 0 {
                "未判断"@
            } else {
                join(texts(resource.languages@), "、"@)
            }),
        )
    } else {
        lines
    }
}

pub open spec fn category_texts(all: Seq<Category>) -> Seq<Seq<char>> {
    all.map_values(|c: Category| category_text(c))
}

/// The lines that the editor shows of a resource's description.
pub open spec fn description_lines(detail: ResourceDetail) -> Seq<Seq<char>> {
    let resource = detail.resource;
    let a = with_pair(Seq::empty(), "用途描述"@, text_opt(resource.purpose_zh));
    let b = with_pair(a, "适合什么时候使用"@, text_opt(resource.use_when_zh));
    let c = with_list(b, "主要能力："@, texts(resource.capabilities@));
    let d = with_list(c, "限制："@, texts(resource.limitations@));
    let e = with_list(d, "分类："@, category_texts(detail.categories@));
    let f = with_list(e, "标签："@, texts(detail.tags@));
    with_facts(f, resource)
}

fn category_labels(all: &[Category]) -> (r: Vec<String>)
    ensures
        texts(r@) == category_texts(all@),
{
    let mut r: Vec<String> = Vec::new();
    let mut i: usize = 0;
    while i < all.len()
        invariant
            i <= all.len(),
            r@.len() == i,
            forall|k: int| 0 <= k < i ==> (#[trigger] r@[k])@ == category_text(all@[k]),
        decreases all.len() - i,
    {
        r.push(category_label(all[i]).to_owned());
        i += 1;
    }
    proof {
        assert(texts(r@) =~= category_texts(all@));
    }
    r
}

fn add_line(lines: &mut Vec<String>, line: String)
    ensures
        texts(final(lines)@) == texts(old(lines)@).push(line@),
{
    proof {
        lemma_texts_push(lines@, line);
    }
    lines.push(line);
}

fn add_pair(lines: &mut Vec<String>, label: &str, value: &Option<String>)
    ensures
        texts(final(lines)@) == with_pair(texts(old(lines)@), label@, text_opt(*value)),
{
    match value {
        Some(text) => {
            add_line(lines, label.to_owned());
            add_line(lines, text.clone());
        },
        None => {},
    }
}

fn add_list(lines: &mut Vec<String>, label: &str, all: &[String])
    ensures
        texts(final(lines)@) == with_list(texts(old(lines)@), label@, texts(all@)),
{
    if all.len() > 0 {
        add_line(lines, prefixed(label, &join_texts(all, "、")));
    }
}

fn add_facts(lines: &mut Vec<String>, resource: &Resource)
    ensures
        texts(final(lines)@) == with_facts(texts(old(lines)@), *resource),
{
    if resource.pricing.is_some() || resource.requires_login.is_some() || resource.languages.len()
        > 0 {
        let mut text = "价格：".to_owned();
        text.append(pricing_label(resource.pricing));
        text.append("　登录：");
        text.append(
            match resource.requires_login {
                Some(true) => "需要",
                Some(false) => "不需要",
                None => "未判断",
            },
        );
        text.append("　语言：");
        if resource.languages.len() == 0 {
            text.append("未判断");
        } else {
            text.append(&join_texts(&resource.languages, "、"));
        }
        add_line(lines, text);
    }
}

/// The description of a resource, line by line.
pub fn render_enrichment(detail: &ResourceDetail) -> (r: Vec<String>)
    ensures
        texts(r@) == description_lines(*detail),
{
    let resource = &detail.resource;
    let mut lines: Vec<String> = Vec::new();
    proof {
        assert(texts(lines@) =~= Seq::<Seq<char>>::empty());
    }
    add_pair(&mut lines, "用途描述", &resource.purpose_zh);
    add_pair(&mut lines, "适合什么时候使用", &resource.use_when_zh);
    add_list(&mut lines, "主要能力：", &resource.capabilities);
    add_list(&mut lines, "限制：", &resource.limitations);
    add_list(&mut lines, "分类：", &category_labels(&detail.categories));
    add_list(&mut lines, "标签：", &detail.tags);
    add_facts(&mut lines, resource);
    lines
}

/// What the editor offers where a resource is not described yet.
#[derive(Debug, Clone, Copy, PartialEq, Eq, Structural)]
pub enum MissingDescription {
    /// A private resource is never sent to the provider.
    KeptPrivate,
    OfferProcessing,
}

pub fn missing_description(detail: &ResourceDetail) -> (r: Option<MissingDescription>)
    ensures
        r == (if described(*detail) {
            None
        } else if detail.resource.privacy is Private {
            Some(MissingDescription::KeptPrivate)
        } else {
            Some(MissingDescription::OfferProcessing)
        }),
{
    if has_ai_details(detail) {
        None
    } else if detail.resource.privacy == ResourcePrivacy::Private {
        Some(MissingDescription::KeptPrivate)
    } else {
        Some(MissingDescription::OfferProcessing)
    }
}

// ---- what editing and showing mean -----------------------------------------------------

/// The editor begins with what is stored, an unrated resource at zero, and is
/// unsaved exactly while one of its fields differs from what it began with.
pub proof fn editors_begin_with_what_is_stored(resource: Resource, draft: EditorDraft)
    ensures
        ({
            let v = stored_values(resource);
            &&& resource.title matches Some(text) ==> v.title == text@
            &&& resource.title is None ==> v.title.len() == 0
            &&& resource.purpose_zh matches Some(text) ==> v.purpose_zh == text@
            &&& resource.purpose_zh is None ==> v.purpose_zh.len() == 0
            &&& resource.private_note matches Some(text) ==> v.note == text@
            &&& resource.private_note is None ==> v.note.len() == 0
            &&& v.private <==> resource.privacy is Private
            &&& resource.manual_rating matches Some(rating) ==> v.rating == rating
            &&& resource.manual_rating is None ==> v.rating == 0
        }),
        draft.dirty() <==> draft.values.title@ != draft.original.title@
            || draft.values.purpose_zh@ != draft.original.purpose_zh@ || draft.values.note@
            != draft.original.note@ || draft.values.private != draft.original.private
            || draft.values.rating != draft.original.rating,
{
}

/// What is saved of a draft is what it says, with blank texts and a rating of
/// zero as none; what the editor does not show stays as it is.
pub proof fn saving_keeps_what_is_not_edited(
    draft: EditorDraft,
    detail: ResourceDetail,
    edit: CompleteManualEdit,
)
    requires
        draft.saves(detail, edit),
    ensures
        edit.resource_id == draft.id,
        text_opt(edit.title) == (if trim(draft.values.title@).len() > 0 {
            Some(trim(draft.values.title@))
        } else {
            None
        }),
        text_opt(edit.purpose_zh) == (if trim(draft.values.purpose_zh@).len() > 0 {
            Some(trim(draft.values.purpose_zh@))
        } else {
            None
        }),
        text_opt(edit.private_note) == (if trim(draft.values.note@).len() > 0 {
            Some(trim(draft.values.note@))
        } else {
            None
        }),
        edit.privacy is Private <==> draft.values.private,
        draft.values.rating > 0 ==> edit.manual_rating == Some(draft.values.rating),
        draft.values.rating <= 0 ==> edit.manual_rating is None,
        text_opt(edit.use_when_zh) == text_opt(detail.resource.use_when_zh),
        edit.categories@ == detail.categories@,
        texts(edit.tags@) == texts(detail.tags@),
{
}

/// A new resource is unsaved while anything is written of it, and private
/// exactly where it was ticked.
pub proof fn new_resources_are_unsaved_while_written(draft: AddDraft, private: bool)
    ensures
        draft.dirty() <==> trim(draft.url@).len() > 0 || trim(draft.note@).len() > 0
            || draft.private,
        privacy_of(private) is Private <==> private,
{
}

/// What can be imported is each candidate that was not imported yet, once.
pub proof fn only_new_candidates_are_importable(candidates: Seq<ImportCandidate>)
    ensures
        importable(candidates).no_duplicates(),
        forall|k: int|
            0 <= k < candidates.len() && !(#[trigger] candidates[k]).already_imported
                ==> importable(candidates).contains(candidates[k].article_id),
        forall|id: i64| #[trigger]
            importable(candidates).contains(id) ==> exists|k: int|
                0 <= k < candidates.len() && (#[trigger] candidates[k]).article_id == id
                    && !candidates[k].already_imported,
    decreases candidates.len(),
{
    if candidates.len() > 0 {
        let rest = candidates.drop_last();
        only_new_candidates_are_importable(rest);
        let before = importable(rest);
        let all = importable(candidates);
        let last = candidates.last();
        assert(candidates[candidates.len() - 1] == last);
        assert forall|k: int|
            0 <= k < candidates.len() && !(
            #[trigger] candidates[k]).already_imported implies all.contains(
            candidates[k].article_id,
        ) by {
            if k < rest.len() {
                assert(rest[k] == candidates[k]);
                let j = choose|j: int|
                    0 <= j < before.len() && before[j] == candidates[k].article_id;
                assert(all[j] == candidates[k].article_id);
            } else if !before.contains(last.article_id) {
                assert(all[all.len() - 1] == last.article_id);
            }
        }
        assert forall|id: i64| #[trigger] all.contains(id) implies exists|k: int|
            0 <= k < candidates.len() && (#[trigger] candidates[k]).article_id == id
                && !candidates[k].already_imported by {
            if before.contains(id) {
                let k = choose|k: int|
                    0 <= k < rest.len() && (#[trigger] rest[k]).article_id == id
                        && !rest[k].already_imported;
                assert(candidates[k] == rest[k]);
            } else {
                let j = choose|j: int| 0 <= j < all.len() && all[j] == id;
                if j < before.len() {
                    assert(before[j] == id);
                }
                assert(candidates[candidates.len() - 1].article_id == id);
            }
        }
    }
}

/// A choice of imports is unsaved while it differs as a choice from the one it
/// began with, in whatever order.
pub proof fn choices_differ_by_what_they_hold(draft: ImportDraft, id: i64)
    requires
        !draft.dirty(),
    ensures
        draft.selected@.contains(id) <==> draft.initial_selected@.contains(id),
{
    if draft.selected@.contains(id) {
        let k = choose|k: int| 0 <= k < draft.selected@.len() && draft.selected@[k] == id;
        assert(draft.initial_selected@.contains(draft.selected@[k]));
    }
    if draft.initial_selected@.contains(id) {
        let k = choose|k: int|
            0 <= k < draft.initial_selected@.len() && draft.initial_selected@[k] == id;
        assert(draft.selected@.contains(draft.initial_selected@[k]));
    }
}

/// What was put off is told behind what was saved, once, with the first 240
/// characters of its detail.
pub proof fn put_off_work_is_told(base: Seq<char>, handoffs: Seq<ResourceHandoff>, i: int)
    requires
        0 <= i < handoffs.len(),
        forall|j: int| 0 <= j < i ==> !((#[trigger] handoffs[j]).disposition is Deferred),
    ensures
        handoffs[i].disposition matches HandoffDisposition::Deferred {
            user_message,
            technical_detail,
        } ==> saved_text(base, handoffs) == base + "；"@ + (user_message@ + "（技术详情："@ + (
        if technical_detail@.len() <= 240 {
            technical_detail@
        } else {
            technical_detail@.take(240)
        }) + "）"@),
    decreases handoffs.len(),
{
    if i > 0 {
        let rest = handoffs.skip(1);
        assert(rest[i - 1] == handoffs[i]);
        assert(!(handoffs[0].disposition is Deferred));
        assert forall|j: int| 0 <= j < i - 1 implies !((
        #[trigger] rest[j]).disposition is Deferred) by {
            assert(rest[j] == handoffs[j + 1]);
        }
        put_off_work_is_told(base, rest, i - 1);
    }
}

/// Where nothing was put off, what was saved is all that is told.
pub proof fn saved_work_is_told_plainly(base: Seq<char>, handoffs: Seq<ResourceHandoff>)
    requires
        forall|j: int|
            0 <= j < handoffs.len() ==> !((#[trigger] handoffs[j]).disposition is Deferred),
    ensures
        saved_text(base, handoffs) == base,
    decreases handoffs.len(),
{
    if handoffs.len() > 0 {
        let rest = handoffs.skip(1);
        assert(!(handoffs[0].disposition is Deferred));
        assert forall|j: int| 0 <= j < rest.len() implies !((
        #[trigger] rest[j]).disposition is Deferred) by {
            assert(rest[j] == handoffs[j + 1]);
        }
        saved_work_is_told_plainly(base, rest);
    }
}

/// A resource is described where any of its nine descriptions is there.
pub proof fn any_description_describes(detail: ResourceDetail)
    ensures
        !described(detail) <==> detail.resource.purpose_zh is None
            && detail.resource.use_when_zh is None && detail.resource.capabilities@.len() == 0
            && detail.resource.limitations@.len() == 0 && detail.categories@.len() == 0
            && detail.tags@.len() == 0 && detail.resource.pricing is None
            && detail.resource.requires_login is None && detail.resource.languages@.len() == 0,
{
}

/// Stages, categories, prices and logins are shown in their words.
pub proof fn resource_words_are_fixed(
    stage: TaskStage,
    category: Category,
    pricing: Pricing,
)
    ensures
        stage is Fetching ==> stage_text(Some(stage)) == "正在抓取网页"@,
        stage is Organizing ==> stage_text(Some(stage)) == "正在整理描述"@,
        stage is Summarizing ==> stage_text(Some(stage)) == "正在总结文章"@,
        stage_text(None) == "等待后台处理"@,
        category is Tool ==> category_text(category) == "工具"@,
        category is AssetLibrary ==> category_text(category) == "素材库"@,
        category is Docs ==> category_text(category) == "文档"@,
        category is Blog ==> category_text(category) == "博客"@,
        category is Inspiration ==> category_text(category) == "灵感"@,
        category is Service ==> category_text(category) == "服务"@,
        category is Repository ==> category_text(category) == "代码仓库"@,
        category is Other ==> category_text(category) == "其他"@,
        pricing is Free ==> pricing_text(Some(pricing)) == "免费"@,
        pricing is Freemium ==> pricing_text(Some(pricing)) == "部分免费"@,
        pricing is Paid ==> pricing_text(Some(pricing)) == "付费"@,
        pricing is Unknown ==> pricing_text(Some(pricing)) == "未知"@,
        pricing_text(None) == "未判断"@,
        login_text(Some(true)) == "需要"@,
        login_text(Some(false)) == "不需要"@,
        login_text(None) == "未判断"@,
{
}

/// The description of a resource shows everything that is known of it, under
/// its name, and in this order: its purpose and its use, what it can do and
/// what it cannot, its categories and its tags, and at last its price, its
/// login and its languages.
pub proof fn descriptions_show_what_is_known(detail: ResourceDetail)
    ensures
        ({
            let r = detail.resource;
            let told = description_lines(detail);
            let pairs = (if r.purpose_zh is Some {
                2int
            } else {
                0
            }) + (if r.use_when_zh is Some {
                2int
            } else {
                0
            });
            let lists = (if r.capabilities@.len() > 0 {
                1int
            } else {
                0
            }) + (if r.limitations@.len() > 0 {
                1int
            } else {
                0
            }) + (if detail.categories@.len() > 0 {
                1int
            } else {
                0
            }) + (if detail.tags@.len() > 0 {
                1int
            } else {
                0
            });
            let facts = r.pricing is Some || r.requires_login is Some || r.languages@.len() > 0;
            &&& told.len() == pairs + lists + (if facts {
                1int
            } else {
                0
            })
            &&& r.purpose_zh matches Some(text) ==> told[0] == "用途描述"@ && told[1] == text@
            &&& r.use_when_zh matches Some(text) ==> told[pairs - 2] == "适合什么时候使用"@
                && told[pairs - 1] == text@
            &&& r.capabilities@.len() > 0 ==> told[pairs] == "主要能力："@ + join(
                texts(r.capabilities@),
                "、"@,
            )
            &&& r.limitations@.len() > 0 ==> told.contains(
                "限制："@ + join(texts(r.limitations@), "、"@),
            )
            &&& detail.categories@.len() > 0 ==> told.contains(
                "分类："@ + join(category_texts(detail.categories@), "、"@),
            )
            &&& detail.tags@.len() > 0 ==> told.contains(
                "标签："@ + join(texts(detail.tags@), "、"@),
            )
            &&& facts ==> told.last() == "价格："@ + pricing_text(r.pricing) + "　登录："@
                + login_text(r.requires_login) + "　语言："@ + (if r.languages@.len() == 0 {
                "未判断"@
            } else {
                join(texts(r.languages@), "、"@)
            })
        }),
{
    let r = detail.resource;
    let told = description_lines(detail);
    let a = with_pair(Seq::empty(), "用途描述"@, text_opt(r.purpose_zh));
    let b = with_pair(a, "适合什么时候使用"@, text_opt(r.use_when_zh));
    let c = with_list(b, "主要能力："@, texts(r.capabilities@));
    let d = with_list(c, "限制："@, texts(r.limitations@));
    let e = with_list(d, "分类："@, category_texts(detail.categories@));
    let f = with_list(e, "标签："@, texts(detail.tags@));
    if r.limitations@.len() > 0 {
        assert(told[c.len() as int] == "限制："@ + join(texts(r.limitations@), "、"@));
    }
    if detail.categories@.len() > 0 {
        assert(told[d.len() as int] == "分类："@ + join(
            category_texts(detail.categories@),
            "、"@,
        ));
    }
    if detail.tags@.len() > 0 {
        assert(told[e.len() as int] == "标签："@ + join(texts(detail.tags@), "、"@));
    }
}

/// An outcome that does nothing tells nothing, closes nothing and tries nothing
/// again.
pub proof fn idle_outcomes_do_nothing(modal_action: ModalHostAction)
    ensures
        idle(modal_action).modal_action == modal_action,
        idle(modal_action).interaction is Nothing,
        !idle(modal_action).adopt,
        idle(modal_action).notice is None,
        idle(modal_action).retry_resource_id is None,
        blank_values().title.len() == 0,
        blank_values().purpose_zh.len() == 0,
        blank_values().note.len() == 0,
        !blank_values().private,
        blank_values().rating == 0,
{
}

/// Unticking takes an article out of the choice, and no other.
pub proof fn unticked_articles_leave_the_choice(id: i64, other: i64)
    ensures
        (not_id(id))(other) <==> other != id,
{
}

} // verus!
