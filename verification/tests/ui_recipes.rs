use nota_core::ui_recipes::{
    app_title_text, backup_footer_button, backup_import_preview, compact_controls,
    compact_help_button, compact_segmented_button, danger_footer_button, editor_body_text,
    editor_footer, empty_state_body_text, empty_state_placeholder_text, empty_state_title_text,
    note_list_meta_row, note_list_title_text, note_measure, note_row, note_title_text,
    preview_body_text, preview_title_text, recovery_action_button, recovery_danger_button,
    search_hint, search_hint_code, search_input, sidebar_footer, tag_pill,
};

#[test]
fn ui_recipes_shared_footer_recipes_keep_sidebar_and_editor_rhythm_consistent() {
    let sidebar = sidebar_footer();
    let editor = editor_footer();

    for classes in [&sidebar, &editor] {
        assert!(classes.contains("h-[45px]"));
        assert!(classes.contains("px-3"));
        assert!(classes.contains("py-1.5"));
        assert!(classes.contains("text-[11px]"));
        assert!(classes.contains("leading-4"));
        assert!(classes.contains("border-t"));
        assert!(classes.contains("border-apple-gray-300"));
        assert!(classes.contains("dark:border-apple-dark-border"));
        assert!(classes.contains("flex"));
        assert!(classes.contains("items-center"));
    }

    assert!(sidebar.contains("justify-between"));
    assert!(!sidebar.contains("flex-wrap"));
    assert!(editor.contains("flex-wrap"));
    assert!(editor.contains("justify-center"));
}

#[test]
fn ui_recipes_compact_control_recipes_keep_button_sizing_and_visibility_stable() {
    let controls = compact_controls();
    let idle = compact_segmented_button(false, false);
    let active = compact_segmented_button(true, false);
    let split = compact_segmented_button(false, true);
    let help = compact_help_button();
    let backup = backup_footer_button();
    let danger = danger_footer_button();
    let recovery = recovery_action_button();
    let recovery_danger = recovery_danger_button();

    assert!(controls.contains("gap-x-2"));
    assert!(controls.contains("gap-y-1"));

    for classes in [&idle, &active, &help] {
        assert!(classes.contains("rounded-md"));
        assert!(classes.contains("h-9"));
        assert!(classes.contains("md:px-1.5"));
        assert!(classes.contains("md:py-0.5"));
        assert!(classes.contains("md:text-[11px]"));
    }

    assert!(idle.contains("min-w-[2.25rem]"));
    assert!(active.contains("min-w-[2.25rem]"));
    assert!(help.contains("w-9"));

    for classes in [&backup, &danger, &recovery, &recovery_danger] {
        assert!(classes.contains("rounded-md"));
        assert!(classes.contains("text-[11px]"));
    }

    assert!(split.starts_with("hidden lg:inline-flex"));
    assert!(active.contains("border-apple-yellow"));
    assert!(backup.contains("h-7"));
    assert!(recovery.contains("h-9"));
    assert!(recovery_danger.contains("h-9"));
    assert!(danger.contains("text-red"));
    assert!(recovery_danger.contains("text-red"));
}

#[test]
fn ui_recipes_search_hint_tag_and_selected_note_recipes_are_theme_aware() {
    let search = search_hint();
    let search_input = search_input();
    let search_code = search_hint_code();
    let tag = tag_pill();
    let selected = note_row(true);
    let idle = note_row(false);

    assert!(search.contains("absolute"));
    assert!(search.contains("top-full"));
    assert!(search.contains("z-30"));
    assert!(search.contains("p-2"));
    assert!(search.contains("shadow-sm"));
    assert!(search.contains("text-gray-900"));
    assert!(search.contains("dark:text-white"));
    assert!(search_input.contains("bg-apple-gray-200"));
    assert!(!search_input.contains(&["bg", "black"].join("-")));
    assert!(search_code.contains("bg-apple-gray-200"));
    assert!(!search_code.contains(&["bg", "black"].join("-")));

    assert!(tag.contains("rounded-full"));
    assert!(tag.contains("text-xs"));
    assert!(tag.contains("dark:bg-white/10"));

    assert!(selected.contains("border-apple-yellow"));
    assert!(selected.contains("ring-1"));
    assert!(selected.contains("dark:bg-apple-yellow/20"));
    assert!(idle.contains("hover:bg-apple-gray-200"));
}

#[test]
fn ui_recipes_typography_recipes_keep_app_roles_on_the_documented_scale() {
    let app_title = app_title_text();
    let empty_title = empty_state_title_text();
    let note_list_title = note_list_title_text();

    assert!(app_title.contains("text-xl"));
    assert!(app_title.contains("font-bold"));
    assert!(app_title.contains("leading-[1.3]"));
    assert!(note_title_text().contains("text-2xl"));
    assert!(note_title_text().contains("md:text-3xl"));
    assert!(note_title_text().contains("font-bold"));
    assert_eq!(preview_title_text(), note_title_text());

    assert!(empty_title.contains("text-2xl"));
    assert!(empty_title.contains("font-semibold"));
    assert!(empty_title.contains("leading-8"));
    assert!(empty_state_body_text().contains("text-sm"));
    assert!(empty_state_body_text().contains("leading-6"));
    assert!(empty_state_placeholder_text().contains("text-xl"));
    assert!(empty_state_placeholder_text().contains("font-semibold"));

    assert!(note_list_title.contains("text-sm"));
    assert!(note_list_title.contains("font-semibold"));
    assert!(note_list_title.contains("leading-5"));
    assert!(note_list_meta_row().contains("text-[13px]"));
    assert!(note_list_meta_row().contains("leading-5"));

    assert!(editor_body_text().contains("text-base"));
    assert!(editor_body_text().contains("leading-7"));
    assert!(editor_body_text().contains("font-mono"));
    assert!(preview_body_text().contains("prose-base"));
    assert!(preview_body_text().contains("prose-yellow"));
    assert!(preview_body_text().contains("dark:prose-invert"));
    assert!(preview_body_text().contains("max-w-[72ch]"));
    assert!(note_measure().contains("max-w-[72ch]"));
    assert!(backup_import_preview().contains("text-xs"));
    assert!(backup_import_preview().contains("leading-5"));
}

