use std::collections::HashSet;

use shiyue::gui_modal::{presentation, resolve_action, InitialFocus, ModalHostAction};
use shiyue::gui_state::ModalKind;

const ALL_KINDS: [ModalKind; 13] = [
    ModalKind::AddFeed,
    ModalKind::DeleteFeed,
    ModalKind::Search,
    ModalKind::EditTags,
    ModalKind::WriteThought,
    ModalKind::DeleteExcerpt,
    ModalKind::SaveWebPage,
    ModalKind::DeleteWebPage,
    ModalKind::AddResource,
    ModalKind::DeleteResource,
    ModalKind::ImportResources,
    ModalKind::RestoreBackup,
    ModalKind::ClearImages,
];

#[test]
fn every_modal_has_unique_explicit_presentation_metadata() {
    let mut ids = HashSet::new();
    for kind in ALL_KINDS {
        let spec = presentation(kind);
        assert!(!spec.title.is_empty());
        assert!(ids.insert(spec.id), "duplicate id for {kind:?}");
    }
}

#[test]
fn presentation_matrix_is_stable_for_every_modal_kind() {
    let expected = [
        (ModalKind::AddFeed, false, InitialFocus::PrimaryField),
        (ModalKind::DeleteFeed, false, InitialFocus::Nothing),
        (ModalKind::Search, true, InitialFocus::PrimaryField),
        (ModalKind::EditTags, false, InitialFocus::PrimaryField),
        (ModalKind::WriteThought, true, InitialFocus::PrimaryField),
        (ModalKind::DeleteExcerpt, false, InitialFocus::Nothing),
        (ModalKind::SaveWebPage, true, InitialFocus::PrimaryField),
        (ModalKind::DeleteWebPage, false, InitialFocus::Nothing),
        (ModalKind::AddResource, false, InitialFocus::PrimaryField),
        (ModalKind::DeleteResource, false, InitialFocus::Nothing),
        (ModalKind::ImportResources, true, InitialFocus::Nothing),
        (ModalKind::RestoreBackup, false, InitialFocus::Nothing),
        (ModalKind::ClearImages, false, InitialFocus::Nothing),
    ];
    for (kind, resizable, initial_focus) in expected {
        let spec = presentation(kind);
        assert_eq!(spec.layout.resizable, resizable, "{kind:?}");
        assert_eq!(spec.layout.initial_focus, initial_focus, "{kind:?}");
    }

    assert_eq!(
        presentation(ModalKind::Search).layout.default_size,
        Some((760, 640))
    );
    assert_eq!(
        presentation(ModalKind::Search).layout.min_size,
        Some((520, 420))
    );
    assert!(presentation(ModalKind::DeleteFeed).layout.centered);
    assert!(presentation(ModalKind::RestoreBackup).layout.centered);
}

#[test]
fn close_and_escape_share_the_dirty_guard() {
    assert_eq!(
        resolve_action(false, false, false, ModalHostAction::Nothing),
        ModalHostAction::RequestClose
    );
    assert_eq!(
        resolve_action(true, true, false, ModalHostAction::Nothing),
        ModalHostAction::RequestClose
    );
    assert_eq!(
        resolve_action(true, true, true, ModalHostAction::Nothing),
        ModalHostAction::KeepEditing
    );
    assert_eq!(
        resolve_action(true, false, true, ModalHostAction::ConfirmDiscard),
        ModalHostAction::ConfirmDiscard
    );
}

#[test]
fn destructive_modals_never_request_primary_focus() {
    for kind in [
        ModalKind::DeleteFeed,
        ModalKind::DeleteExcerpt,
        ModalKind::DeleteWebPage,
        ModalKind::DeleteResource,
        ModalKind::RestoreBackup,
        ModalKind::ClearImages,
    ] {
        assert_eq!(presentation(kind).layout.initial_focus, InitialFocus::Nothing);
    }
}

#[test]
fn an_open_modal_without_input_does_nothing() {
    assert_eq!(
        resolve_action(true, false, false, ModalHostAction::Nothing),
        ModalHostAction::Nothing
    );
}
