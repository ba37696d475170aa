use nota_core::ui::recipes::{
    app_title_text, backup_footer_button, backup_footer_missing_status_dot,
    backup_footer_recent_status_dot, backup_footer_stale_status_dot, backup_footer_summary,
    backup_import_preview, button_label_text, compact_controls, compact_help_button,
    compact_segmented_button, danger_footer_button, editor_body_text, editor_footer,
    editor_footer_mode_group, editor_footer_spacer, editor_footer_stats, empty_state_body_text,
    empty_state_placeholder_text, empty_state_title_text, global_notification,
    global_notification_outlet, modal_body_text, modal_description_text, modal_title_text,
    note_list_meta_row, note_list_title_text, note_measure, note_row, note_title_text,
    pane_inline_inset, pane_top_inset, preview_body_text, preview_title_text,
    recovery_action_button, recovery_danger_button, search_hint, search_hint_code, search_input,
    sidebar_footer, tag_pill, ui_body_text, ui_control_text, ui_label_text,
    GlobalNotificationTone, COMPACT_FOOTER_HEIGHT_CLASS, NOTE_MEASURE_CLASS,
    PANE_INLINE_INSET_CLASS, PANE_TOP_INSET_CLASS, UI_BODY_TEXT_CLASS, UI_CONTROL_TEXT_CLASS,
    UI_LABEL_TEXT_CLASS,
};

#[test]
fn recipes_shared_footer_recipes_keep_sidebar_and_editor_rhythm_consistent() {
    let sidebar = sidebar_footer();
    let editor = editor_footer();

    for classes in [&sidebar, &editor] {
        assert_eq!(classes.matches(COMPACT_FOOTER_HEIGHT_CLASS).count(), 1);
        assert!(classes.contains("py-1.5"));
        assert!(classes.contains(UI_LABEL_TEXT_CLASS));
        assert!(classes.contains("border-t"));
        assert!(classes.contains("dark:border-apple-notebook-darkBorder"));
        assert!(classes.contains("flex"));
        assert!(classes.contains("items-center"));
    }

    assert!(sidebar.contains("border-apple-notebook-borderStrong"));
    assert!(editor.contains("border-apple-notebook-border"));
    assert!(sidebar.contains("px-3"));
    assert!(editor.contains("px-4"));
    assert!(sidebar.contains("justify-between"));
    assert!(!sidebar.contains("flex-wrap"));
    assert!(!editor.contains("flex-wrap"));
    assert!(editor.contains("justify-between"));
    assert!(backup_footer_summary().contains("inline-flex"));
    assert!(backup_footer_missing_status_dot().contains("bg-apple-notebook-muted/60"));
    assert!(backup_footer_recent_status_dot().contains("bg-emerald-500"));
    assert!(backup_footer_stale_status_dot().contains("bg-apple-notebook-amber"));
    assert!(editor_footer_stats().contains("sm:flex"));
    assert!(editor_footer_mode_group().contains("justify-center"));
    assert!(editor_footer_spacer().contains("flex-1"));
    assert!(editor_footer_spacer().contains("sm:block"));
}

#[test]
fn recipes_compact_control_recipes_keep_button_sizing_and_visibility_stable() {
    let controls = compact_controls();
    let idle = compact_segmented_button(false, false);
    let active = compact_segmented_button(true, false);
    let split = compact_segmented_button(false, true);
    let help = compact_help_button();
    let backup = backup_footer_button();
    let danger = danger_footer_button();
    let recovery = recovery_action_button();
    let recovery_danger = recovery_danger_button();

    assert!(controls.contains("gap-x-1"));
    assert!(!controls.contains("gap-y-1"));

    for classes in [&idle, &active, &help] {
        assert!(classes.contains("rounded-md"));
        assert!(classes.contains("h-11"));
        assert!(classes.contains("md:h-6"));
        assert!(classes.contains("md:px-2"));
        assert!(classes.contains("md:py-0"));
        assert!(classes.contains(UI_CONTROL_TEXT_CLASS));
    }

    assert!(idle.contains("min-w-[2.75rem]"));
    assert!(active.contains("min-w-[2.75rem]"));
    assert!(help.contains("w-11"));

    for classes in [&backup, &danger, &recovery, &recovery_danger] {
        assert!(classes.contains("rounded-md"));
        assert!(classes.contains(UI_LABEL_TEXT_CLASS));
    }

    assert!(split.starts_with("hidden lg:inline-flex"));
    assert!(active.contains("border-apple-notebook-amberBorder"));
    assert!(backup.contains("h-11"));
    assert!(backup.contains("md:h-auto"));
    assert!(recovery.contains("h-9"));
    assert!(recovery_danger.contains("h-9"));
    assert!(danger.contains("text-red"));
    assert!(recovery_danger.contains("text-red"));
}

#[test]
fn recipes_search_hint_tag_and_selected_note_recipes_are_theme_aware() {
    let search = search_hint();
    let search_input = search_input();
    let search_code = search_hint_code();
    let tag = tag_pill();
    let selected = note_row(true);
    let idle = note_row(false);

    assert!(search.contains("absolute"));
    assert!(search.contains("pointer-events-none"));
    assert!(search.contains("top-full"));
    assert!(search.contains("z-30"));
    assert!(search.contains("p-2"));
    assert!(search.contains("shadow-sm"));
    assert!(search.contains("text-apple-notebook-graphite"));
    assert!(search.contains("dark:text-apple-notebook-frame"));
    assert!(search_input.contains("bg-apple-notebook-border"));
    assert!(!search_input.contains(&["bg", "black"].join("-")));
    assert!(search_code.contains("bg-apple-notebook-border"));
    assert!(!search_code.contains(&["bg", "black"].join("-")));

    assert!(tag.contains("rounded-full"));
    assert!(tag.contains("inline-flex"));
    assert!(tag.contains("h-11"));
    assert!(tag.contains("md:h-auto"));
    assert!(tag.contains(UI_CONTROL_TEXT_CLASS));
    assert!(tag.contains("dark:bg-white/10"));

    assert!(selected.contains("border-apple-notebook-amberBorder"));
    assert!(selected.contains("ring-1"));
    assert!(selected.contains("dark:bg-apple-notebook-amber/25"));
    assert!(idle.contains("hover:bg-apple-notebook-border"));
}

#[test]
fn global_notification_recipe_owns_position_size_and_tone_treatment() {
    let outlet = global_notification_outlet();
    let progress = global_notification(GlobalNotificationTone::Progress);
    let success = global_notification(GlobalNotificationTone::Success);
    let error = global_notification(GlobalNotificationTone::Error);

    assert!(outlet.contains("fixed"));
    assert!(outlet.contains("bottom-16"));
    assert!(outlet.contains("sm:bottom-auto"));
    assert!(outlet.contains("sm:top-5"));
    assert!(outlet.contains("right-3"));
    assert!(outlet.contains("sm:right-5"));
    assert!(outlet.contains("z-50"));
    assert!(outlet.contains("pointer-events-none"));

    for classes in [&progress, &success, &error] {
        assert!(classes.contains("pointer-events-auto"));
        assert!(classes.contains("rounded-md"));
        assert!(classes.contains("border"));
        assert!(classes.contains("shadow-sm"));
        assert!(classes.contains(UI_CONTROL_TEXT_CLASS));
        assert!(classes.contains("max-w-[11rem]"));
        assert!(classes.contains("truncate"));
    }

    assert!(progress.contains("bg-apple-yellow/10"));
    assert!(success.contains("bg-emerald-500/10"));
    assert!(error.contains("bg-red-500/10"));
}

#[test]
fn recipes_typography_recipes_keep_app_roles_on_the_documented_scale() {
    let app_title = app_title_text();
    let empty_title = empty_state_title_text();
    let note_list_title = note_list_title_text();

    assert!(app_title.contains("text-xl"));
    assert!(app_title.contains("font-bold"));
    assert!(app_title.contains("leading-[1.3]"));
    assert!(note_title_text().contains("text-xl"));
    assert!(note_title_text().contains("md:text-2xl"));
    assert!(note_title_text().contains("font-semibold"));
    assert_eq!(preview_title_text(), note_title_text());

    assert!(empty_title.contains("text-2xl"));
    assert!(empty_title.contains("font-semibold"));
    assert!(empty_title.contains("leading-8"));
    assert!(empty_state_body_text().contains("text-sm"));
    assert!(empty_state_body_text().contains("leading-6"));
    assert!(empty_state_placeholder_text().contains("text-xl"));
    assert!(empty_state_placeholder_text().contains("font-semibold"));

    assert!(note_list_title.contains("text-sm"));
    assert!(note_list_title.contains("font-semibold"));
    assert!(note_list_title.contains("leading-5"));
    assert!(note_list_meta_row().contains("text-[11px]"));
    assert!(note_list_meta_row().contains("leading-4"));
    assert!(note_list_meta_row().contains("mt-0.5"));

    assert!(editor_body_text().contains("text-sm"));
    assert!(editor_body_text().contains("leading-6"));
    assert!(editor_body_text().contains("font-mono"));
    assert!(preview_body_text().contains("prose-sm"));
    assert!(preview_body_text().contains("prose-yellow"));
    assert!(preview_body_text().contains("dark:prose-invert"));
    assert!(preview_body_text().contains("max-w-[72ch]"));
    assert_eq!(note_measure(), NOTE_MEASURE_CLASS);
    assert_eq!(pane_inline_inset(), PANE_INLINE_INSET_CLASS);
    assert_eq!(pane_top_inset(), PANE_TOP_INSET_CLASS);
    assert!(pane_top_inset().contains("pt-4"));
    assert_eq!(ui_label_text(), UI_LABEL_TEXT_CLASS);
    assert_eq!(ui_control_text(), UI_CONTROL_TEXT_CLASS);
    assert_eq!(ui_body_text(), UI_BODY_TEXT_CLASS);
    assert!(modal_title_text().contains("text-xl"));
    assert!(modal_title_text().contains("font-semibold"));
    assert!(modal_description_text().contains(UI_BODY_TEXT_CLASS));
    assert_eq!(modal_body_text(), UI_BODY_TEXT_CLASS);
    assert!(button_label_text().contains("text-xs"));
    assert!(backup_import_preview().contains(UI_BODY_TEXT_CLASS));
}

