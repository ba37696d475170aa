use nota_core::data_url::percent_encode_data_url;
use nota_core::sidebar_chrome::{
    backup_footer_button_classes, note_list_title_classes, search_syntax_hint_classes,
    sidebar_footer_classes, sidebar_state_class, SIDEBAR_BASE_CLASS,
};

#[test]
fn sidebar_backup_download_data_url_percent_encodes_json_content() {
    assert_eq!(
        percent_encode_data_url("{\"title\":\"日本語 note\"}"),
        "%7B%22title%22%3A%22%E6%97%A5%E6%9C%AC%E8%AA%9E%20note%22%7D"
    );
}

#[test]
fn compact_open_note_list_uses_the_full_viewport_width_before_desktop() {
    let class = sidebar_state_class(true);

    assert!(class.contains("w-full"));
    assert!(class.contains("lg:w-80"));
}

#[test]
fn search_syntax_hint_is_a_popup_layer_not_permanent_sidebar_content() {
    let class = search_syntax_hint_classes();

    assert!(class.contains("absolute"));
    assert!(class.contains("top-full"));
    assert!(class.contains("z-30"));
    assert!(class.contains("shadow-lg"));
}

#[test]
fn backup_controls_live_in_a_single_sidebar_footer_row() {
    let footer = sidebar_footer_classes();
    let button = backup_footer_button_classes();

    assert!(footer.contains("h-12"));
    assert!(footer.contains("flex"));
    assert!(footer.contains("items-center"));
    assert!(button.contains("rounded-md"));
    assert!(!footer.contains("details"));
}

#[test]
fn note_list_titles_can_truncate_inside_mobile_flex_rows() {
    let title = note_list_title_classes();

    assert!(title.contains("min-w-0"));
    assert!(title.contains("flex-1"));
    assert!(title.contains("truncate"));
}

#[test]
fn backup_controls_backup_download_data_url_percent_encodes_json_content() {
    assert_eq!(
        percent_encode_data_url("{\"title\":\"日本語 note\"}"),
        "%7B%22title%22%3A%22%E6%97%A5%E6%9C%AC%E8%AA%9E%20note%22%7D"
    );
}

#[test]
fn unreserved_characters_pass_through_the_data_url_encoding() {
    assert_eq!(percent_encode_data_url("Az09-_.~"), "Az09-_.~");
    assert_eq!(percent_encode_data_url(""), "");
    assert_eq!(percent_encode_data_url("\n/+"), "%0A%2F%2B");
}

#[test]
fn closed_sidebar_slides_away_inside_its_frame() {
    assert!(sidebar_state_class(false).contains("-translate-x-full"));
    assert!(SIDEBAR_BASE_CLASS.contains("lg:relative"));
}

#[test]
fn encoded_data_urls_hold_only_url_safe_characters() {
    let encoded = percent_encode_data_url("{\"a\": [1, 2]} ünïcode <tag>");
    assert!(encoded
        .chars()
        .all(|c| c.is_ascii_alphanumeric() || "-_.~%".contains(c)));
    assert!(encoded.len() <= 3 * "{\"a\": [1, 2]} ünïcode <tag>".len());
}
