//! How blocking modals are presented and closed.

use vstd::prelude::*;

use crate::gui_state::ModalKind;

verus! {

#[derive(Debug, Clone, Copy, PartialEq, Eq, Structural)]
pub enum InitialFocus {
    Nothing,
    PrimaryField,
}

#[derive(Debug, Clone, Copy, PartialEq, Eq, Structural)]
pub enum Chrome {
    Default,
    Reader,
}

/// The window of a modal. Sizes are in points.
#[derive(Debug, Clone, Copy, PartialEq, Eq)]
pub struct ModalLayout {
    pub resizable: bool,
    pub default_width: Option<u32>,
    pub default_size: Option<(u32, u32)>,
    pub min_size: Option<(u32, u32)>,
    pub centered: bool,
    pub initial_focus: InitialFocus,
    pub chrome: Chrome,
}

#[derive(Debug, Clone, Copy)]
pub struct ModalPresentation {
    pub title: &'static str,
    pub id: &'static str,
    pub layout: ModalLayout,
}

pub open spec fn modal_title(kind: ModalKind) -> Seq<char> {
    match kind {
        ModalKind::AddFeed => "添加订阅"@,
        ModalKind::DeleteFeed => "删除订阅"@,
        ModalKind::Search => "全文搜索"@,
        ModalKind::EditTags => "文章标签"@,
        ModalKind::WriteThought => "写想法"@,
        ModalKind::DeleteExcerpt => "删除摘录"@,
        ModalKind::SaveWebPage => "保存网页"@,
        ModalKind::DeleteWebPage => "删除本地网页"@,
        ModalKind::AddResource => "添加资源网站"@,
        ModalKind::DeleteResource => "永久删除资源"@,
        ModalKind::ImportResources => "导入已有网页收藏"@,
        ModalKind::RestoreBackup => "恢复数据库备份？"@,
        ModalKind::ClearImages => "清空图片缓存？"@,
    }
}

pub open spec fn modal_id(kind: ModalKind) -> Seq<char> {
    match kind {
        ModalKind::AddFeed => "modal-add-feed"@,
        ModalKind::DeleteFeed => "modal-delete-feed"@,
        ModalKind::Search => "library-full-text-search"@,
        ModalKind::EditTags => "modal-edit-tags"@,
        ModalKind::WriteThought => "modal-write-thought"@,
        ModalKind::DeleteExcerpt => "modal-delete-excerpt"@,
        ModalKind::SaveWebPage => "modal-save-web-page"@,
        ModalKind::DeleteWebPage => "modal-delete-web-page"@,
        ModalKind::AddResource => "modal-add-resource"@,
        ModalKind::DeleteResource => "modal-delete-resource"@,
        ModalKind::ImportResources => "modal-import-resources"@,
        ModalKind::RestoreBackup => "modal-restore-backup"@,
        ModalKind::ClearImages => "modal-clear-images"@,
    }
}

pub open spec fn modal_layout(kind: ModalKind) -> ModalLayout {
    match kind {
        ModalKind::AddFeed => ModalLayout { resizable: false, default_width: Some(480), default_size: None, min_size: None, centered: false, initial_focus: InitialFocus::PrimaryField, chrome: Chrome::Default },
        ModalKind::DeleteFeed => ModalLayout { resizable: false, default_width: None, default_size: None, min_size: None, centered: true, initial_focus: InitialFocus::Nothing, chrome: Chrome::Default },
        ModalKind::Search => ModalLayout { resizable: true, default_width: None, default_size: Some((760, 640)), min_size: Some((520, 420)), centered: false, initial_focus: InitialFocus::PrimaryField, chrome: Chrome::Reader },
        ModalKind::EditTags => ModalLayout { resizable: false, default_width: Some(430), default_size: None, min_size: None, centered: false, initial_focus: InitialFocus::PrimaryField, chrome: Chrome::Default },
        ModalKind::WriteThought => ModalLayout { resizable: true, default_width: Some(460), default_size: None, min_size: None, centered: false, initial_focus: InitialFocus::PrimaryField, chrome: Chrome::Default },
        ModalKind::DeleteExcerpt => ModalLayout { resizable: false, default_width: Some(440), default_size: None, min_size: None, centered: false, initial_focus: InitialFocus::Nothing, chrome: Chrome::Default },
        ModalKind::SaveWebPage => ModalLayout { resizable: true, default_width: Some(620), default_size: None, min_size: Some((480, 0)), centered: false, initial_focus: InitialFocus::PrimaryField, chrome: Chrome::Reader },
        ModalKind::DeleteWebPage => ModalLayout { resizable: false, default_width: Some(420), default_size: None, min_size: None, centered: false, initial_focus: InitialFocus::Nothing, chrome: Chrome::Default },
        ModalKind::AddResource => ModalLayout { resizable: false, default_width: Some(520), default_size: None, min_size: None, centered: false, initial_focus: InitialFocus::PrimaryField, chrome: Chrome::Default },
        ModalKind::DeleteResource => ModalLayout { resizable: false, default_width: None, default_size: None, min_size: None, centered: true, initial_focus: InitialFocus::Nothing, chrome: Chrome::Default },
        ModalKind::ImportResources => ModalLayout { resizable: true, default_width: None, default_size: Some((650, 520)), min_size: None, centered: false, initial_focus: InitialFocus::Nothing, chrome: Chrome::Default },
        ModalKind::RestoreBackup => ModalLayout { resizable: false, default_width: None, default_size: None, min_size: None, centered: true, initial_focus: InitialFocus::Nothing, chrome: Chrome::Default },
        ModalKind::ClearImages => ModalLayout { resizable: false, default_width: None, default_size: None, min_size: None, centered: true, initial_focus: InitialFocus::Nothing, chrome: Chrome::Default },
    }
}

fn layout_of(kind: ModalKind) -> (r: ModalLayout)
    ensures
        r == modal_layout(kind),
{
    match kind {
        ModalKind::AddFeed => ModalLayout { resizable: false, default_width: Some(480), default_size: None, min_size: None, centered: false, initial_focus: InitialFocus::PrimaryField, chrome: Chrome::Default },
        ModalKind::DeleteFeed => ModalLayout { resizable: false, default_width: None, default_size: None, min_size: None, centered: true, initial_focus: InitialFocus::Nothing, chrome: Chrome::Default },
        ModalKind::Search => ModalLayout { resizable: true, default_width: None, default_size: Some((760, 640)), min_size: Some((520, 420)), centered: false, initial_focus: InitialFocus::PrimaryField, chrome: Chrome::Reader },
        ModalKind::EditTags => ModalLayout { resizable: false, default_width: Some(430), default_size: None, min_size: None, centered: false, initial_focus: InitialFocus::PrimaryField, chrome: Chrome::Default },
        ModalKind::WriteThought => ModalLayout { resizable: true, default_width: Some(460), default_size: None, min_size: None, centered: false, initial_focus: InitialFocus::PrimaryField, chrome: Chrome::Default },
        ModalKind::DeleteExcerpt => ModalLayout { resizable: false, default_width: Some(440), default_size: None, min_size: None, centered: false, initial_focus: InitialFocus::Nothing, chrome: Chrome::Default },
        ModalKind::SaveWebPage => ModalLayout { resizable: true, default_width: Some(620), default_size: None, min_size: Some((480, 0)), centered: false, initial_focus: InitialFocus::PrimaryField, chrome: Chrome::Reader },
        ModalKind::DeleteWebPage => ModalLayout { resizable: false, default_width: Some(420), default_size: None, min_size: None, centered: false, initial_focus: InitialFocus::Nothing, chrome: Chrome::Default },
        ModalKind::AddResource => ModalLayout { resizable: false, default_width: Some(520), default_size: None, min_size: None, centered: false, initial_focus: InitialFocus::PrimaryField, chrome: Chrome::Default },
        ModalKind::DeleteResource => ModalLayout { resizable: false, default_width: None, default_size: None, min_size: None, centered: true, initial_focus: InitialFocus::Nothing, chrome: Chrome::Default },
        ModalKind::ImportResources => ModalLayout { resizable: true, default_width: None, default_size: Some((650, 520)), min_size: None, centered: false, initial_focus: InitialFocus::Nothing, chrome: Chrome::Default },
        ModalKind::RestoreBackup => ModalLayout { resizable: false, default_width: None, default_size: None, min_size: None, centered: true, initial_focus: InitialFocus::Nothing, chrome: Chrome::Default },
        ModalKind::ClearImages => ModalLayout { resizable: false, default_width: None, default_size: None, min_size: None, centered: true, initial_focus: InitialFocus::Nothing, chrome: Chrome::Default },
    }
}

/// The title, identity and window of each modal.
pub fn presentation(kind: ModalKind) -> (r: ModalPresentation)
    ensures
        r.title@ == modal_title(kind),
        r.id@ == modal_id(kind),
        r.layout == modal_layout(kind),
{
    let layout = layout_of(kind);
    match kind {
        ModalKind::AddFeed => ModalPresentation { title: "添加订阅", id: "modal-add-feed", layout },
        ModalKind::DeleteFeed => ModalPresentation { title: "删除订阅", id: "modal-delete-feed", layout },
        ModalKind::Search => ModalPresentation { title: "全文搜索", id: "library-full-text-search", layout },
        ModalKind::EditTags => ModalPresentation { title: "文章标签", id: "modal-edit-tags", layout },
        ModalKind::WriteThought => ModalPresentation { title: "写想法", id: "modal-write-thought", layout },
        ModalKind::DeleteExcerpt => ModalPresentation { title: "删除摘录", id: "modal-delete-excerpt", layout },
        ModalKind::SaveWebPage => ModalPresentation { title: "保存网页", id: "modal-save-web-page", layout },
        ModalKind::DeleteWebPage => ModalPresentation { title: "删除本地网页", id: "modal-delete-web-page", layout },
        ModalKind::AddResource => ModalPresentation { title: "添加资源网站", id: "modal-add-resource", layout },
        ModalKind::DeleteResource => ModalPresentation { title: "永久删除资源", id: "modal-delete-resource", layout },
        ModalKind::ImportResources => ModalPresentation { title: "导入已有网页收藏", id: "modal-import-resources", layout },
        ModalKind::RestoreBackup => ModalPresentation { title: "恢复数据库备份？", id: "modal-restore-backup", layout },
        ModalKind::ClearImages => ModalPresentation { title: "清空图片缓存？", id: "modal-clear-images", layout },
    }
}

#[derive(Debug, Clone, Copy, PartialEq, Eq, Structural)]
pub enum ModalHostAction {
    Nothing,
    RequestClose,
    KeepEditing,
    ConfirmDiscard,
}

/// An explicit choice wins. Escape answers an open question with going on
/// editing; otherwise it closes, as the window's own button does.
pub open spec fn resolved(
    open: bool,
    escape: bool,
    discard_pending: bool,
    explicit: ModalHostAction,
) -> ModalHostAction {
    if explicit !is Nothing {
        explicit
    } else if escape && discard_pending {
        ModalHostAction::KeepEditing
    } else if escape || !open {
        ModalHostAction::RequestClose
    } else {
        ModalHostAction::Nothing
    }
}

pub fn resolve_action(
    open: bool,
    escape: bool,
    discard_pending: bool,
    explicit: ModalHostAction,
) -> (r: ModalHostAction)
    ensures
        r == resolved(open, escape, discard_pending, explicit),
{
    if explicit != ModalHostAction::Nothing {
        return explicit;
    }
    if escape && discard_pending {
        ModalHostAction::KeepEditing
    } else if escape || !open {
        ModalHostAction::RequestClose
    } else {
        ModalHostAction::Nothing
    }
}

/// The modals that delete or replace something.
pub open spec fn destructive(kind: ModalKind) -> bool {
    kind is DeleteFeed || kind is DeleteExcerpt || kind is DeleteWebPage || kind is DeleteResource
        || kind is RestoreBackup || kind is ClearImages
}

/// A destructive modal never takes the focus, so that a stray key cannot
/// confirm it.
pub proof fn destructive_modals_take_no_focus(kind: ModalKind)
    requires
        destructive(kind),
    ensures
        modal_layout(kind).initial_focus is Nothing,
{
}

/// Every modal has a title and an identity of its own.
pub proof fn modals_are_told_apart(a: ModalKind, b: ModalKind)
    ensures
        modal_title(a).len() > 0,
        modal_id(a) == modal_id(b) ==> a == b,
{
    reveal_strlit("添加订阅");
    reveal_strlit("删除订阅");
    reveal_strlit("全文搜索");
    reveal_strlit("文章标签");
    reveal_strlit("写想法");
    reveal_strlit("删除摘录");
    reveal_strlit("保存网页");
    reveal_strlit("删除本地网页");
    reveal_strlit("添加资源网站");
    reveal_strlit("永久删除资源");
    reveal_strlit("导入已有网页收藏");
    reveal_strlit("恢复数据库备份？");
    reveal_strlit("清空图片缓存？");
    reveal_strlit("modal-add-feed");
    reveal_strlit("modal-delete-feed");
    reveal_strlit("library-full-text-search");
    reveal_strlit("modal-edit-tags");
    reveal_strlit("modal-write-thought");
    reveal_strlit("modal-delete-excerpt");
    reveal_strlit("modal-save-web-page");
    reveal_strlit("modal-delete-web-page");
    reveal_strlit("modal-add-resource");
    reveal_strlit("modal-delete-resource");
    reveal_strlit("modal-import-resources");
    reveal_strlit("modal-restore-backup");
    reveal_strlit("modal-clear-images");
    assert("modal-add-feed"@.len() == 14);
    assert("modal-delete-feed"@.len() == 17);
    assert("library-full-text-search"@.len() == 24);
    assert("modal-edit-tags"@.len() == 15);
    assert("modal-write-thought"@.len() == 19);
    assert("modal-delete-excerpt"@.len() == 20);
    assert("modal-save-web-page"@.len() == 19);
    assert("modal-delete-web-page"@.len() == 21);
    assert("modal-add-resource"@.len() == 18);
    assert("modal-delete-resource"@.len() == 21);
    assert("modal-import-resources"@.len() == 22);
    assert("modal-restore-backup"@.len() == 20);
    assert("modal-clear-images"@.len() == 18);
    assert("modal-write-thought"@[6] == 'w' && "modal-save-web-page"@[6] == 's');
    assert("modal-delete-excerpt"@[6] == 'd' && "modal-restore-backup"@[6] == 'r');
    assert("modal-delete-web-page"@[13] == 'w' && "modal-delete-resource"@[13] == 'r');
    assert("modal-add-resource"@[6] == 'a' && "modal-clear-images"@[6] == 'c');
}

/// A button of the modal says what is to be done. Otherwise the escape key goes
/// back to editing where unsaved input is being asked about, and asks to close
/// the modal elsewhere, as closing its window does.
pub proof fn escaping_closes_or_keeps_editing(
    open: bool,
    escape: bool,
    discard_pending: bool,
    explicit: ModalHostAction,
)
    ensures
        explicit !is Nothing ==> resolved(open, escape, discard_pending, explicit) == explicit,
        explicit is Nothing ==> {
            let action = resolved(open, escape, discard_pending, explicit);
            &&& action is KeepEditing <==> escape && discard_pending
            &&& action is RequestClose <==> (escape && !discard_pending) || (!escape && !open)
            &&& action is Nothing <==> !escape && open
        },
{
}

/// The titles of the modals.
pub proof fn modals_have_their_titles()
    ensures
        modal_title(ModalKind::AddFeed) == "添加订阅"@,
        modal_title(ModalKind::DeleteFeed) == "删除订阅"@,
        modal_title(ModalKind::Search) == "全文搜索"@,
        modal_title(ModalKind::EditTags) == "文章标签"@,
        modal_title(ModalKind::WriteThought) == "写想法"@,
        modal_title(ModalKind::DeleteExcerpt) == "删除摘录"@,
        modal_title(ModalKind::SaveWebPage) == "保存网页"@,
        modal_title(ModalKind::DeleteWebPage) == "删除本地网页"@,
        modal_title(ModalKind::AddResource) == "添加资源网站"@,
        modal_title(ModalKind::DeleteResource) == "永久删除资源"@,
        modal_title(ModalKind::ImportResources) == "导入已有网页收藏"@,
        modal_title(ModalKind::RestoreBackup) == "恢复数据库备份？"@,
        modal_title(ModalKind::ClearImages) == "清空图片缓存？"@,
{
}

/// A modal in which something is written takes the focus; the three that may
/// grow with what they show can be resized, and so can the search.
pub proof fn writing_modals_take_the_focus(kind: ModalKind)
    ensures
        modal_layout(kind).initial_focus is PrimaryField <==> kind is AddFeed || kind is Search
            || kind is EditTags || kind is WriteThought || kind is SaveWebPage
            || kind is AddResource,
        modal_layout(kind).resizable <==> kind is Search || kind is WriteThought
            || kind is SaveWebPage || kind is ImportResources,
        modal_layout(kind).centered <==> kind is DeleteFeed || kind is DeleteResource
            || kind is RestoreBackup || kind is ClearImages,
        modal_layout(kind).chrome is Reader <==> kind is Search || kind is SaveWebPage,
{
}

/// A modal keeps its place under its own name.
pub proof fn modals_have_their_names()
    ensures
        modal_id(ModalKind::AddFeed) == "modal-add-feed"@,
        modal_id(ModalKind::DeleteFeed) == "modal-delete-feed"@,
        modal_id(ModalKind::Search) == "library-full-text-search"@,
        modal_id(ModalKind::EditTags) == "modal-edit-tags"@,
        modal_id(ModalKind::WriteThought) == "modal-write-thought"@,
        modal_id(ModalKind::DeleteExcerpt) == "modal-delete-excerpt"@,
        modal_id(ModalKind::SaveWebPage) == "modal-save-web-page"@,
        modal_id(ModalKind::DeleteWebPage) == "modal-delete-web-page"@,
        modal_id(ModalKind::AddResource) == "modal-add-resource"@,
        modal_id(ModalKind::DeleteResource) == "modal-delete-resource"@,
        modal_id(ModalKind::ImportResources) == "modal-import-resources"@,
        modal_id(ModalKind::RestoreBackup) == "modal-restore-backup"@,
        modal_id(ModalKind::ClearImages) == "modal-clear-images"@,
{
}

/// Modals open in the size that they need: the search and the import as they
/// are, the others as wide as what is written in them.
pub proof fn modals_open_in_their_size()
    ensures
        modal_layout(ModalKind::AddFeed).default_width == Some(480u32),
        modal_layout(ModalKind::EditTags).default_width == Some(430u32),
        modal_layout(ModalKind::WriteThought).default_width == Some(460u32),
        modal_layout(ModalKind::DeleteExcerpt).default_width == Some(440u32),
        modal_layout(ModalKind::SaveWebPage).default_width == Some(620u32),
        modal_layout(ModalKind::SaveWebPage).min_size == Some((480u32, 0u32)),
        modal_layout(ModalKind::DeleteWebPage).default_width == Some(420u32),
        modal_layout(ModalKind::AddResource).default_width == Some(520u32),
        modal_layout(ModalKind::Search).default_size == Some((760u32, 640u32)),
        modal_layout(ModalKind::Search).min_size == Some((520u32, 420u32)),
        modal_layout(ModalKind::ImportResources).default_size == Some((650u32, 520u32)),
{
}

} // verus!
