use nota_core::editor_view::EditorViewMode;
use nota_core::ui::responsive_navigation::{
    is_view_mode_available, normalize_view_mode, NoteListPersistence, ResponsiveNavigation,
    StoredNoteListState, ViewportClass,
};

#[test]
fn wide_viewports_show_the_note_list_by_default_even_when_storage_was_closed() {
    let navigation =
        ResponsiveNavigation::initial(ViewportClass::Wide, StoredNoteListState::Closed);

    assert!(navigation.is_note_list_visible());
}

#[test]
fn compact_viewports_restore_the_stored_note_list_state() {
    assert!(
        ResponsiveNavigation::initial(ViewportClass::Compact, StoredNoteListState::Open)
            .is_note_list_visible()
    );
    assert!(
        !ResponsiveNavigation::initial(ViewportClass::Compact, StoredNoteListState::Closed)
            .is_note_list_visible()
    );
}

#[test]
fn selecting_a_note_on_compact_viewports_returns_to_the_writing_surface() {
    let mut navigation =
        ResponsiveNavigation::initial(ViewportClass::Compact, StoredNoteListState::Open);

    navigation.note_selected();

    assert!(!navigation.is_note_list_visible());
}

#[test]
fn selecting_a_note_on_wide_viewports_keeps_the_note_list_available() {
    let mut navigation =
        ResponsiveNavigation::initial(ViewportClass::Wide, StoredNoteListState::Closed);

    navigation.note_selected();

    assert!(navigation.is_note_list_visible());
}

#[test]
fn top_bar_navigation_toggles_the_note_list() {
    let mut navigation =
        ResponsiveNavigation::initial(ViewportClass::Compact, StoredNoteListState::Closed);

    navigation.toggle_note_list();
    assert!(navigation.is_note_list_visible());

    navigation.toggle_note_list();
    assert!(!navigation.is_note_list_visible());
}

#[test]
fn reclassifying_to_wide_restores_the_desktop_note_list_default() {
    let mut navigation =
        ResponsiveNavigation::initial(ViewportClass::Compact, StoredNoteListState::Closed);

    navigation.reclassify_viewport(ViewportClass::Wide);

    assert!(navigation.is_note_list_visible());
    assert_eq!(navigation.persistence(), NoteListPersistence::Skip);
}

#[test]
fn split_view_mode_is_only_available_on_wide_viewports() {
    assert!(!is_view_mode_available(
        ViewportClass::Compact,
        EditorViewMode::Split
    ));
    assert_eq!(
        normalize_view_mode(ViewportClass::Compact, EditorViewMode::Split),
        EditorViewMode::Write
    );
    assert!(is_view_mode_available(
        ViewportClass::Wide,
        EditorViewMode::Split
    ));
}

#[test]
fn wide_viewport_defaults_do_not_overwrite_compact_note_list_persistence() {
    let navigation =
        ResponsiveNavigation::initial(ViewportClass::Wide, StoredNoteListState::Closed);

    assert!(navigation.is_note_list_visible());
    assert_eq!(navigation.persistence(), NoteListPersistence::Skip);

    let compact_navigation =
        ResponsiveNavigation::initial(ViewportClass::Compact, StoredNoteListState::Open);
    assert_eq!(
        compact_navigation.persistence(),
        NoteListPersistence::Persist(StoredNoteListState::Open)
    );
}

#[test]
fn compact_toggle_is_persisted_and_twice_restores_the_state() {
    let mut navigation =
        ResponsiveNavigation::initial(ViewportClass::Compact, StoredNoteListState::Open);
    let before = navigation;
    navigation.toggle_note_list();
    assert_eq!(
        navigation.persistence(),
        NoteListPersistence::Persist(StoredNoteListState::Closed)
    );
    navigation.toggle_note_list();
    assert_eq!(navigation, before);
}

#[test]
fn reclassifying_to_compact_keeps_the_current_visibility() {
    let mut navigation =
        ResponsiveNavigation::initial(ViewportClass::Wide, StoredNoteListState::Closed);
    navigation.reclassify_viewport(ViewportClass::Compact);
    assert!(navigation.is_note_list_visible());
    assert_eq!(
        navigation.persistence(),
        NoteListPersistence::Persist(StoredNoteListState::Open)
    );
}

#[test]
fn write_and_preview_modes_are_available_everywhere() {
    for viewport in [ViewportClass::Compact, ViewportClass::Wide] {
        for mode in [EditorViewMode::Write, EditorViewMode::Preview] {
            assert!(is_view_mode_available(viewport, mode));
            assert_eq!(normalize_view_mode(viewport, mode), mode);
        }
    }
    assert_eq!(
        normalize_view_mode(ViewportClass::Wide, EditorViewMode::Split),
        EditorViewMode::Split
    );
}
