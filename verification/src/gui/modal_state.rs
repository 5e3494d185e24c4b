//! What the modals and panels of the desktop hold.

use vstd::prelude::*;

use crate::gui::excerpt_thought_feature::{CommentDialog, DeleteExcerptDialog};
use crate::gui::feed_subscription_feature;
use crate::gui::library_search_feature::SearchDialog;
use crate::gui::resource_feature;
use crate::gui::web_clipping_feature::{DeleteWebClipDialog, WebClipDialog};
use crate::gui_state::{ArticleCollection, ModalKind, ModalPayload, PanelPayload, Route};
use crate::text::{
    chars_of, join, join_texts, lemma_texts_push, same_text, string_of, texts, trim, trim_chars,
};

verus! {

/// The tags of an article that are being edited.
#[derive(Debug, Clone)]
pub struct TagDialog {
    pub article_id: i64,
    pub draft: String,
    pub original: String,
    pub focus_input: bool,
}

/// A character that separates tags.
pub open spec fn separates(c: char) -> bool {
    c == ',' || c == '，' || c == '\n'
}

/// The names that a draft writes down: the parts between separators, without
/// blanks around them, where something is left. `current` is the part that
/// has begun.
pub open spec fn names_in(draft: Seq<char>, current: Seq<char>) -> Seq<Seq<char>>
    decreases draft.len(),
{
    let name = if trim(current).len() > 0 {
        seq![trim(current)]
    } else {
        Seq::empty()
    };
    if draft.len() == 0 {
        name
    } else if separates(draft[0]) {
        name + names_in(draft.skip(1), Seq::empty())
    } else {
        names_in(draft.skip(1), current.push(draft[0]))
    }
}

fn add_name(names: &mut Vec<String>, current: &[char])
    ensures
        texts(final(names)@) == texts(old(names)@) + (if trim(current@).len() > 0 {
            seq![trim(current@)]
        } else {
            Seq::empty()
        }),
{
    let name = trim_chars(current);
    if name.len() > 0 {
        let text = string_of(&name);
        proof {
            lemma_texts_push(names@, text);
            assert(texts(names@).push(text@) =~= texts(names@) + seq![trim(current@)]);
        }
        names.push(text);
    } else {
        proof {
            assert(texts(names@) + Seq::<Seq<char>>::empty() =~= texts(names@));
        }
    }
}

/// The tag names that a draft writes down.
pub fn tag_names(draft: &str) -> (r: Vec<String>)
    ensures
        texts(r@) == names_in(draft@, Seq::empty()),
{
    let chars = chars_of(draft);
    let mut names: Vec<String> = Vec::new();
    let mut current: Vec<char> = Vec::new();
    let mut i: usize = 0;
    proof {
        assert(chars@.skip(0) =~= chars@);
        assert(texts(names@) + names_in(chars@, current@) =~= names_in(draft@, Seq::empty()));
    }
    while i < chars.len()
        invariant
            i <= chars.len(),
            texts(names@) + names_in(chars@.skip(i as int), current@) == names_in(
                draft@,
                Seq::empty(),
            ),
        decreases chars.len() - i,
    {
        let ghost rest = chars@.skip(i as int);
        let ghost known = texts(names@);
        proof {
            assert(rest[0] == chars@[i as int]);
            assert(rest.skip(1) =~= chars@.skip(i + 1));
        }
        let c = chars[i];
        if c == ',' || c == '，' || c == '\n' {
            add_name(&mut names, &current);
            proof {
                let name = if trim(current@).len() > 0 {
                    seq![trim(current@)]
                } else {
                    Seq::empty()
                };
                assert(known + (name + names_in(rest.skip(1), Seq::empty())) =~= (known + name)
                    + names_in(rest.skip(1), Seq::empty()));
            }
            current = Vec::new();
        } else {
            current.push(c);
        }
        i += 1;
    }
    proof {
        assert(chars@.skip(i as int) =~= Seq::<char>::empty());
    }
    add_name(&mut names, &current);
    names
}

impl TagDialog {
    pub open spec fn dirty(self) -> bool {
        self.draft@ != self.original@
    }

    pub fn is_dirty(&self) -> (r: bool)
        ensures
            r == self.dirty(),
    {
        !same_text(&self.draft, &self.original)
    }

    /// Opens the tags of an article.
    pub fn open(article_id: i64, tags: &[String]) -> (r: TagDialog)
        ensures
            r.article_id == article_id,
            r.draft@ == join(texts(tags@), ", "@),
            r.original@ == r.draft@,
            r.focus_input,
            !r.dirty(),
    {
        let draft = join_texts(tags, ", ");
        TagDialog { article_id, original: draft.clone(), draft, focus_input: true }
    }
}

proof fn lemma_plain_names(name: Seq<char>, current: Seq<char>)
    requires
        forall|i: int| 0 <= i < name.len() ==> !separates(#[trigger] name[i]),
    ensures
        names_in(name, current) == names_in(Seq::empty(), current + name),
    decreases name.len(),
{
    if name.len() == 0 {
        assert(current + name =~= current);
        assert(name =~= Seq::<char>::empty());
    } else {
        lemma_plain_names(name.skip(1), current.push(name[0]));
        assert(current.push(name[0]) + name.skip(1) =~= current + name);
    }
}

proof fn lemma_names_split(s: Seq<char>, t: Seq<char>, current: Seq<char>)
    ensures
        names_in(s.push(',') + t, current) == names_in(s, current) + names_in(t, Seq::empty()),
    decreases s.len(),
{
    let whole = s.push(',') + t;
    if s.len() == 0 {
        assert(whole.skip(1) =~= t);
    } else {
        assert(whole[0] == s[0]);
        assert(whole.skip(1) =~= s.skip(1).push(',') + t);
        if separates(s[0]) {
            lemma_names_split(s.skip(1), t, Seq::empty());
            let name = if trim(current).len() > 0 {
                seq![trim(current)]
            } else {
                Seq::empty()
            };
            assert(name + (names_in(s.skip(1), Seq::empty()) + names_in(t, Seq::empty())) =~= (name
                + names_in(s.skip(1), Seq::empty())) + names_in(t, Seq::empty()));
        } else {
            lemma_names_split(s.skip(1), t, current.push(s[0]));
        }
    }
}

/// A name that can be written down between commas.
pub open spec fn writable(name: Seq<char>) -> bool {
    name.len() > 0 && trim(name) == name && forall|i: int|
        0 <= i < name.len() ==> !separates(#[trigger] name[i])
}

proof fn lemma_one_name(name: Seq<char>)
    requires
        writable(name),
    ensures
        names_in(name, Seq::empty()) == seq![name],
        names_in(seq![' '] + name, Seq::empty()) == seq![name],
{
    lemma_plain_names(name, Seq::empty());
    assert(Seq::<char>::empty() + name =~= name);
    let spaced = seq![' '] + name;
    assert(spaced[0] == ' ' && !separates(' '));
    assert(spaced.skip(1) =~= name);
    lemma_plain_names(name, seq![' ']);
    assert(Seq::<char>::empty().push(' ') =~= seq![' ']);
    assert(crate::text::trim_start(spaced) == crate::text::trim_start(name));
}

/// Tags that are opened and saved unchanged are the same tags.
pub proof fn unchanged_tags_stay(names: Seq<Seq<char>>)
    requires
        forall|i: int| 0 <= i < names.len() ==> writable(#[trigger] names[i]),
    ensures
        names_in(join(names, ", "@), Seq::empty()) == names,
    decreases names.len(),
{
    reveal_strlit(", ");
    if names.len() == 0 {
        assert(names_in(join(names, ", "@), Seq::empty()) =~= names);
    } else if names.len() == 1 {
        lemma_one_name(names[0]);
        assert(join(names, ", "@) =~= names[0]);
        assert(seq![names[0]] =~= names);
    } else {
        let rest = names.drop_last();
        let last = names.last();
        unchanged_tags_stay(rest);
        lemma_one_name(last);
        assert(join(names, ", "@) =~= join(rest, ", "@).push(',') + (seq![' '] + last));
        lemma_names_split(join(rest, ", "@), seq![' '] + last, Seq::empty());
        assert(rest + seq![last] =~= names);
    }
}

/// A stored copy of the database.
#[derive(Debug, Clone, PartialEq, Eq)]
pub struct BackupEntry {
    pub path: String,
    pub size: u64,
    pub protected: bool,
    pub modified: i64,
}

#[derive(Debug)]
pub enum ModalState {
    AddFeed(feed_subscription_feature::AddDraft),
    DeleteFeed(feed_subscription_feature::DeleteDraft),
    Search(SearchDialog),
    EditTags(TagDialog),
    WriteThought(CommentDialog),
    DeleteExcerpt(DeleteExcerptDialog),
    SaveWebPage(WebClipDialog),
    DeleteWebPage(DeleteWebClipDialog),
    AddResource(resource_feature::AddDraft),
    DeleteResource(resource_feature::DeleteDraft),
    ImportResources(resource_feature::ImportDraft),
    RestoreBackup(BackupEntry),
    ClearImages,
}

impl ModalPayload for ModalState {
    open spec fn kind_of(&self) -> ModalKind {
        match self {
            ModalState::AddFeed(_) => ModalKind::AddFeed,
            ModalState::DeleteFeed(_) => ModalKind::DeleteFeed,
            ModalState::Search(_) => ModalKind::Search,
            ModalState::EditTags(_) => ModalKind::EditTags,
            ModalState::WriteThought(_) => ModalKind::WriteThought,
            ModalState::DeleteExcerpt(_) => ModalKind::DeleteExcerpt,
            ModalState::SaveWebPage(_) => ModalKind::SaveWebPage,
            ModalState::DeleteWebPage(_) => ModalKind::DeleteWebPage,
            ModalState::AddResource(_) => ModalKind::AddResource,
            ModalState::DeleteResource(_) => ModalKind::DeleteResource,
            ModalState::ImportResources(_) => ModalKind::ImportResources,
            ModalState::RestoreBackup(_) => ModalKind::RestoreBackup,
            ModalState::ClearImages => ModalKind::ClearImages,
        }
    }

    open spec fn dirty(&self) -> bool {
        match self {
            ModalState::AddFeed(draft) => draft.dirty(),
            ModalState::EditTags(dialog) => dialog.dirty(),
            ModalState::WriteThought(dialog) => dialog.dirty(),
            ModalState::SaveWebPage(dialog) => dialog.dirty(),
            ModalState::AddResource(draft) => draft.dirty(),
            ModalState::ImportResources(draft) => draft.dirty(),
            _ => false,
        }
    }

    open spec fn request_of(&self) -> Option<u64> {
        None
    }

    fn kind(&self) -> (r: ModalKind) {
        match self {
            ModalState::AddFeed(_) => ModalKind::AddFeed,
            ModalState::DeleteFeed(_) => ModalKind::DeleteFeed,
            ModalState::Search(_) => ModalKind::Search,
            ModalState::EditTags(_) => ModalKind::EditTags,
            ModalState::WriteThought(_) => ModalKind::WriteThought,
            ModalState::DeleteExcerpt(_) => ModalKind::DeleteExcerpt,
            ModalState::SaveWebPage(_) => ModalKind::SaveWebPage,
            ModalState::DeleteWebPage(_) => ModalKind::DeleteWebPage,
            ModalState::AddResource(_) => ModalKind::AddResource,
            ModalState::DeleteResource(_) => ModalKind::DeleteResource,
            ModalState::ImportResources(_) => ModalKind::ImportResources,
            ModalState::RestoreBackup(_) => ModalKind::RestoreBackup,
            ModalState::ClearImages => ModalKind::ClearImages,
        }
    }

    fn is_dirty(&self) -> (r: bool) {
        match self {
            ModalState::AddFeed(draft) => draft.is_dirty(),
            ModalState::EditTags(dialog) => dialog.is_dirty(),
            ModalState::WriteThought(dialog) => dialog.is_dirty(),
            ModalState::SaveWebPage(dialog) => dialog.is_dirty(),
            ModalState::AddResource(draft) => draft.is_dirty(),
            ModalState::ImportResources(draft) => draft.is_dirty(),
            ModalState::Search(_) | ModalState::DeleteFeed(_) | ModalState::DeleteExcerpt(_)
            | ModalState::DeleteWebPage(_) | ModalState::DeleteResource(_)
            | ModalState::RestoreBackup(_) | ModalState::ClearImages => false,
        }
    }

    fn active_request_id(&self) -> (r: Option<u64>) {
        None
    }
}

#[derive(Debug)]
pub enum PanelState {
    ResourceEditor(resource_feature::EditorDraft),
    FeedSettings(feed_subscription_feature::SettingsDraft),
}

impl PanelPayload for PanelState {
    open spec fn dirty(&self) -> bool {
        match self {
            PanelState::ResourceEditor(draft) => draft.dirty(),
            PanelState::FeedSettings(draft) => draft.dirty(),
        }
    }

    open spec fn fits(&self, route: Route) -> bool {
        match self {
            PanelState::ResourceEditor(_) => route == Route::Resources,
            PanelState::FeedSettings(draft) => route == Route::Articles(
                ArticleCollection::Feed(Some(draft.feed_id)),
            ),
        }
    }

    fn is_dirty(&self) -> (r: bool) {
        match self {
            PanelState::ResourceEditor(draft) => draft.is_dirty(),
            PanelState::FeedSettings(draft) => draft.is_dirty(),
        }
    }

    fn is_compatible(&self, route: Route) -> (r: bool) {
        match self {
            PanelState::ResourceEditor(_) => route == Route::Resources,
            PanelState::FeedSettings(draft) => route == Route::Articles(
                ArticleCollection::Feed(Some(draft.feed_id())),
            ),
        }
    }
}

/// Only what can be written in is ever unsaved, exactly while it differs from
/// what it began with; a confirmation never is. A panel stays with its page:
/// the editor of resources with the resources, the settings of a feed with the
/// feed.
pub proof fn drafts_are_unsaved_while_they_differ(modal: ModalState, panel: PanelState, route: Route)
    ensures
        modal matches ModalState::EditTags(dialog) ==> (modal.dirty() <==> dialog.draft@
            != dialog.original@),
        modal is DeleteFeed || modal is Search || modal is DeleteExcerpt || modal is DeleteWebPage
            || modal is DeleteResource || modal is RestoreBackup || modal is ClearImages
            ==> !modal.dirty(),
        modal matches ModalState::AddFeed(draft) ==> modal.dirty() == draft.dirty(),
        modal matches ModalState::WriteThought(dialog) ==> modal.dirty() == dialog.dirty(),
        modal matches ModalState::SaveWebPage(dialog) ==> modal.dirty() == dialog.dirty(),
        modal matches ModalState::AddResource(draft) ==> modal.dirty() == draft.dirty(),
        modal matches ModalState::ImportResources(draft) ==> modal.dirty() == draft.dirty(),
        panel matches PanelState::ResourceEditor(draft) ==> panel.dirty() == draft.dirty() && (
        panel.fits(route) <==> route is Resources),
        panel matches PanelState::FeedSettings(draft) ==> panel.dirty() == draft.dirty() && (
        panel.fits(route) <==> route == Route::Articles(
            ArticleCollection::Feed(Some(draft.feed_id)),
        )),
{
}

/// A draft is separated into tags at commas of either script and at the ends of
/// lines, and nowhere else.
pub proof fn commas_and_lines_separate_tags(c: char)
    ensures
        separates(c) <==> c == ',' || c == '，' || c == '\n',
{
}

} // verus!
