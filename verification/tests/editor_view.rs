use nota_core::editor_view::{EditorViewMode, ViewportClass, VisibleEditorSurfaces};

#[test]
fn split_view_is_only_available_on_wide_viewports() {
    assert_eq!(
        EditorViewMode::Split.normalized_for(ViewportClass::Compact),
        EditorViewMode::Write
    );
    assert_eq!(
        EditorViewMode::Split.normalized_for(ViewportClass::Wide),
        EditorViewMode::Split
    );
}

#[test]
fn view_modes_explain_visible_surfaces() {
    assert_eq!(
        EditorViewMode::Write.surfaces(),
        VisibleEditorSurfaces {
            writing: true,
            preview: false
        }
    );
    assert_eq!(
        EditorViewMode::Preview.surfaces(),
        VisibleEditorSurfaces {
            writing: false,
            preview: true
        }
    );
    assert_eq!(
        EditorViewMode::Split.surfaces(),
        VisibleEditorSurfaces {
            writing: true,
            preview: true
        }
    );
}

#[test]
fn normalizing_a_view_mode_twice_changes_nothing_more() {
    for mode in [EditorViewMode::Write, EditorViewMode::Preview, EditorViewMode::Split] {
        for viewport in [ViewportClass::Compact, ViewportClass::Wide] {
            let once = mode.normalized_for(viewport);
            assert_eq!(once.normalized_for(viewport), once);
        }
    }
    assert_eq!(
        EditorViewMode::Preview.normalized_for(ViewportClass::Compact),
        EditorViewMode::Preview
    );
}
