use nota_core::editor_chrome::{
    edit_tags_button_classes, editor_area_footer_classes, editor_body_textarea_classes,
    editor_view_button_classes, editor_view_controls_classes, formatting_tool_button_classes,
    formatting_tools_classes, markdown_help_button_classes, note_title_textarea_classes,
    notification_classes, notification_outlet_classes, preview_pane_classes,
    sidebar_toggle_button_classes, tag_input_classes,
};
use nota_core::notifications::NotificationTone;

#[test]
fn compact_editor_view_controls_keep_touch_sized_targets() {
    let sidebar = sidebar_toggle_button_classes();
    let footer = editor_area_footer_classes();
    let controls = editor_view_controls_classes();
    let write = editor_view_button_classes(false, false);
    let preview = editor_view_button_classes(true, false);
    let help = markdown_help_button_classes();

    assert!(footer.contains("h-[45px]"));
    assert!(footer.contains("px-3"));
    assert!(footer.contains("py-1.5"));
    assert!(footer.contains("text-[11px]"));
    assert!(footer.contains("leading-4"));
    assert!(footer.contains("border-t"));
    assert!(footer.contains("border-apple-gray-300"));
    assert!(footer.contains("justify-center"));
    assert!(controls.contains("flex"));
    assert!(controls.contains("gap-x-2"));
    assert!(controls.contains("gap-y-1"));
    assert!(sidebar.contains("h-11"));
    assert!(sidebar.contains("w-11"));
    assert!(sidebar.contains("lg:hidden"));
    assert!(write.contains("inline-flex"));
    for classes in [&write, &preview, &help] {
        assert!(classes.contains("h-9"));
        assert!(classes.contains("md:px-1.5"));
        assert!(classes.contains("md:py-0.5"));
        assert!(classes.contains("md:text-[11px]"));
    }
    assert!(write.contains("min-w-[2.25rem]"));
    assert!(preview.contains("min-w-[2.25rem]"));
    assert!(help.contains("w-9"));
}

#[test]
fn split_mode_control_stays_desktop_only() {
    let split = editor_view_button_classes(false, true);

    assert!(split.contains("hidden"));
    assert!(split.contains("lg:inline-flex"));
    assert!(split.starts_with("hidden lg:inline-flex"));
    assert!(!split.starts_with("inline-flex"));
}

#[test]
fn formatting_tools_live_inside_the_writing_surface() {
    let toolbar = formatting_tools_classes();
    let button = formatting_tool_button_classes();

    assert!(toolbar.contains("flex"));
    assert!(toolbar.contains("border-y"));
    assert!(toolbar.contains("px-6"));
    assert!(toolbar.contains("md:px-8"));
    assert!(!toolbar.contains("sticky"));
    assert!(button.contains("rounded"));
    assert!(button.contains("h-9"));
    assert!(button.contains("min-w-[2.25rem]"));
    assert!(button.contains("md:p-1.5"));
}

#[test]
fn note_title_editor_wraps_long_titles_without_horizontal_overflow() {
    let title = note_title_textarea_classes(false);

    assert!(title.contains("w-full"));
    assert!(title.contains("min-w-0"));
    assert!(title.contains("break-words"));
    assert!(title.contains("whitespace-pre-wrap"));
    assert!(title.contains("[field-sizing:content]"));
    assert!(title.contains("overflow-hidden"));
    assert!(title.contains("resize-none"));
}

#[test]
fn split_title_editor_is_quieter_than_single_pane_title() {
    let single = note_title_textarea_classes(false);
    let split = note_title_textarea_classes(true);

    assert!(single.contains("text-2xl"));
    assert!(single.contains("md:text-3xl"));
    assert!(split.contains("text-xl"));
    assert!(split.contains("md:text-2xl"));
}

#[test]
fn edit_tags_button_keeps_mobile_touch_target_and_desktop_density() {
    let button = edit_tags_button_classes();

    assert!(button.contains("h-9"));
    assert!(button.contains("md:h-auto"));
    assert!(button.contains("md:px-2"));
    assert!(button.contains("md:py-0.5"));
}

#[test]
fn editor_body_text_matches_preview_scale() {
    let editor_body = editor_body_textarea_classes();
    let preview = preview_pane_classes(false);

    assert!(editor_body.contains("text-base"));
    assert!(editor_body.contains("max-w-[56rem]"));
    assert!(!editor_body.contains("md:text-lg"));
    assert!(preview.contains("prose-base"));
}

#[test]
fn split_preview_uses_the_same_body_scale_as_preview() {
    let split_preview = preview_pane_classes(true);

    assert!(split_preview.contains("prose-base"));
    assert!(split_preview.contains("shadow-inner"));
}

#[test]
fn editor_global_notification_classes_are_visible_but_compact() {
    let outlet = notification_outlet_classes();
    let progress = notification_classes(NotificationTone::Progress);
    let success = notification_classes(NotificationTone::Success);
    let error = notification_classes(NotificationTone::Error);

    assert!(outlet.contains("fixed"));
    assert!(outlet.contains("bottom-16"));
    assert!(outlet.contains("sm:bottom-auto"));
    assert!(outlet.contains("sm:top-3"));
    assert!(outlet.contains("right-3"));
    assert!(outlet.contains("z-50"));
    assert!(outlet.contains("pointer-events-none"));

    for classes in [&progress, &success, &error] {
        assert!(classes.contains("pointer-events-auto"));
        assert!(classes.contains("rounded-md"));
        assert!(classes.contains("border"));
        assert!(classes.contains("shadow-sm"));
        assert!(classes.contains("text-xs"));
        assert!(classes.contains("max-w-[11rem]"));
        assert!(classes.contains("truncate"));
    }

    assert!(progress.contains("bg-apple-yellow/10"));
    assert!(success.contains("bg-emerald-500/10"));
    assert!(error.contains("bg-red-500/10"));
}

#[test]
fn tag_input_and_preview_pane_carry_theme_text_and_surfaces() {
    let tag_input = tag_input_classes();
    assert!(tag_input.starts_with("w-full max-w-xl"));
    assert!(tag_input.contains("text-sm"));
    assert_ne!(preview_pane_classes(true), preview_pane_classes(false));
    assert!(!preview_pane_classes(false).contains("shadow-inner"));
    assert!(!notification_outlet_classes().contains("sm:top-5"));
}
