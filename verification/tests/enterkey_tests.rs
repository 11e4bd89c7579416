use civitai_tui::app::App;
use civitai_tui::enterkey::{SettingsEnter, SettingsValues};
use civitai_tui::forms::MainTab;
use civitai_tui::image::ParsedUsedModel;
use civitai_tui::searchform::ImageSearchFormState;

fn values() -> SettingsValues {
    SettingsValues {
        api_key: Some("SECRET-REDACTED".to_string()),
        comfyui_path: None,
        liked_model_file_path: Some("/data/liked.json".to_string()),
        model_search_cache_path: Some("/cache/models".to_string()),
        model_search_cache_ttl_hours: 24,
        image_cache_path: None,
        image_search_cache_ttl_minutes: 15,
        image_detail_cache_ttl_minutes: 0,
        image_cache_ttl_minutes: 1440,
        download_history_file_path: Some("/data/history.json".to_string()),
    }
}

fn app_on(field: usize) -> App {
    let mut app = App::new(Vec::new(), Vec::new());
    app.settings_form.focused_field = field;
    app
}

fn image_form() -> ImageSearchFormState<&'static str, &'static str, &'static str, &'static str> {
    ImageSearchFormState::new(
        vec!["Newest"],
        vec!["Image"],
        "image".to_string(),
        vec!["SDXL"],
        vec!["Square"],
    )
}

#[test]
fn enter_starts_editing_from_the_current_value() {
    let v = values();
    let cases: [(usize, &str); 11] = [
        (0, "SECRET-REDACTED"),
        (1, ""),
        (2, "/data/liked.json"),
        (3, "/cache/models"),
        (4, "24"),
        (5, ""),
        (6, "15"),
        (7, "0"),
        (8, "1440"),
        (11, "/data/history.json"),
        (13, "24"),
    ];
    for (field, text) in cases {
        let mut app = app_on(field);
        assert_eq!(app.enter_settings_field(&v), SettingsEnter::Editing);
        assert!(app.settings_form.editing);
        assert_eq!(app.settings_form.input_buffer, text, "field {field}");
        assert_eq!(app.settings_form.focused_field, field);
    }
}

#[test]
fn enter_on_quick_settings_asks_the_caller() {
    let v = values();
    let mut app = app_on(9);
    assert_eq!(app.enter_settings_field(&v), SettingsEnter::NextMediaQuality);
    assert!(!app.settings_form.editing);
    let mut app = app_on(10);
    assert_eq!(app.enter_settings_field(&v), SettingsEnter::ToggleDebugLogging);
    assert!(!app.settings_form.editing);
    let mut app = app_on(12);
    assert_eq!(app.enter_settings_field(&v), SettingsEnter::ClearCaches);
    assert_eq!(app.status, "Clearing cache storage...");
    assert!(!app.settings_form.editing);
}

#[test]
fn quick_setting_save_failure_is_remembered() {
    let mut app = App::new(Vec::new(), Vec::new());
    app.note_quick_setting_saved(Some("disk full"), true);
    assert_eq!(app.last_error.as_deref(), Some("Failed to save config: disk full"));
    assert!(app.show_status_modal);

    app.show_status_modal = false;
    app.note_quick_setting_saved(None, false);
    assert_eq!(app.last_error.as_deref(), Some("Failed to save config: disk full"));
    assert!(!app.show_status_modal);

    app.note_quick_setting_saved(None, true);
    assert_eq!(app.last_error, None);
}

#[test]
fn used_model_opens_its_details() {
    let mut app = App::new(Vec::new(), Vec::new());
    let m = ParsedUsedModel {
        label: "Juggernaut XL".to_string(),
        query_name: Some("juggernaut".to_string()),
        model_id: Some(133005),
        version_id: Some(456194),
        navigable: true,
    };
    let r = app.open_image_used_model(&m);
    assert_eq!(r, Some((133005, Some(456194), "juggernaut".to_string())));
    assert!(app.show_image_model_detail_modal);
    assert_eq!(app.status, "Opening model details: Juggernaut XL");

    let mut app = App::new(Vec::new(), Vec::new());
    let m = ParsedUsedModel { query_name: None, version_id: None, ..m };
    let r = app.open_image_used_model(&m);
    assert_eq!(r, Some((133005, None, "Juggernaut XL".to_string())));
}

#[test]
fn used_model_without_id_or_link_is_not_opened() {
    let mut app = App::new(Vec::new(), Vec::new());
    let before = app.status.clone();
    let m = ParsedUsedModel {
        label: "embedding".to_string(),
        query_name: None,
        model_id: Some(1),
        version_id: None,
        navigable: false,
    };
    assert_eq!(app.open_image_used_model(&m), None);
    assert_eq!(app.status, before);
    assert!(!app.show_image_model_detail_modal);

    let m = ParsedUsedModel { model_id: None, navigable: true, ..m };
    assert_eq!(app.open_image_used_model(&m), None);
    assert_eq!(app.status, "Selected model item has no model id.");
    assert!(!app.show_image_model_detail_modal);
}

#[test]
fn model_version_images_open_on_the_images_tab() {
    let mut app = App::new(Vec::new(), Vec::new());
    let mut form = image_form();
    assert!(app.open_images_for_version(&mut form, Some(42), true));
    assert_eq!(form.linked_model_version_id, Some(42));
    assert_eq!(app.active_tab, MainTab::Images);
    assert_eq!(app.status, "Opening images for model version 42...");

    let mut app = App::new(Vec::new(), Vec::new());
    let before = app.status.clone();
    let mut form = image_form();
    assert!(!app.open_images_for_version(&mut form, Some(7), false));
    assert_eq!(form.linked_model_version_id, Some(7));
    assert_eq!(app.active_tab, MainTab::Images);
    assert_eq!(app.status, before);
}

#[test]
fn model_without_version_opens_no_images() {
    let mut app = App::new(Vec::new(), Vec::new());
    let tab = app.active_tab;
    let mut form = image_form();
    assert!(!app.open_images_for_version(&mut form, None, true));
    assert_eq!(form.linked_model_version_id, None);
    assert_eq!(app.active_tab, tab);
    assert_eq!(app.status, "Selected model has no model version id to open images.");
}
