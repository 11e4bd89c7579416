use civitai_tui::app::App;
use civitai_tui::keys::KeyCode;
use civitai_tui::settings::{parse_u64, SettingsChange, SettingsStep};

fn chars(s: &str) -> Vec<char> {
    s.chars().collect()
}

fn editing(field: usize, buffer: &str) -> App {
    let mut app = App::new(Vec::new(), Vec::new());
    app.settings_form.editing = true;
    app.settings_form.focused_field = field;
    app.settings_form.input_buffer = buffer.to_string();
    app
}

#[test]
fn numbers_parse_as_std_does() {
    assert_eq!(parse_u64(&chars("42")), Some(42));
    assert_eq!(parse_u64(&chars("+7")), Some(7));
    assert_eq!(parse_u64(&chars("007")), Some(7));
    assert_eq!(parse_u64(&chars("18446744073709551615")), Some(u64::MAX));
    for bad in ["", "+", "-1", "1a", "18446744073709551616", " 1"] {
        assert_eq!(parse_u64(&chars(bad)), None, "{bad:?}");
        assert_eq!(bad.parse::<u64>().ok(), None);
    }
}

#[test]
fn editing_keys_change_the_buffer() {
    let mut app = editing(0, "ab");
    assert!(matches!(app.handle_settings_edit_key(KeyCode::Char('c')), SettingsStep::Nothing));
    assert_eq!(app.settings_form.input_buffer, "abc");
    app.handle_settings_edit_key(KeyCode::Backspace);
    assert_eq!(app.settings_form.input_buffer, "ab");
    app.handle_settings_edit_key(KeyCode::Esc);
    assert!(!app.settings_form.editing);
}

#[test]
fn enter_asks_for_the_field_change() {
    let mut app = editing(4, " 12 ");
    assert!(matches!(
        app.handle_settings_edit_key(KeyCode::Enter),
        SettingsStep::Save(SettingsChange::ModelSearchCacheTtlHours(12))
    ));
    let mut app = editing(8, "0");
    assert!(matches!(
        app.handle_settings_edit_key(KeyCode::Enter),
        SettingsStep::Save(SettingsChange::ImageCacheTtlMinutes(0))
    ));
    let mut app = editing(1, "   ");
    assert!(matches!(
        app.handle_settings_edit_key(KeyCode::Enter),
        SettingsStep::Save(SettingsChange::ComfyuiPath(None))
    ));
    let mut app = editing(1, " /opt/comfy ");
    match app.handle_settings_edit_key(KeyCode::Enter) {
        SettingsStep::CheckComfyuiPath(p) => assert_eq!(p, "/opt/comfy"),
        _ => panic!("path to check"),
    }
    app.note_invalid_comfyui_path("not a folder");
    assert_eq!(app.status, "Invalid ComfyUI path");
    assert_eq!(app.last_error.as_deref(), Some("not a folder"));
    let mut app = editing(0, "");
    assert!(matches!(app.handle_settings_edit_key(KeyCode::Enter), SettingsStep::Save(SettingsChange::ApiKey(None))));
    let mut app = editing(2, "/tmp/liked.json");
    match app.handle_settings_edit_key(KeyCode::Enter) {
        SettingsStep::Save(SettingsChange::LikedModelFile(Some(p))) => assert_eq!(p, "/tmp/liked.json"),
        _ => panic!("liked file"),
    }
    let mut app = editing(10, "");
    assert!(matches!(app.handle_settings_edit_key(KeyCode::Enter), SettingsStep::Save(SettingsChange::ToggleDebugLogging)));
    let mut app = editing(12, "");
    assert!(matches!(app.handle_settings_edit_key(KeyCode::Enter), SettingsStep::ClearCaches));
    assert_eq!(app.status, "Clearing cache storage...");
}

#[test]
fn bad_numbers_keep_editing_with_an_error() {
    let mut app = editing(6, "0");
    assert!(matches!(app.handle_settings_edit_key(KeyCode::Enter), SettingsStep::Nothing));
    assert_eq!(app.status, "Invalid image search cache TTL value");
    assert_eq!(app.last_error.as_deref(), Some("Image search cache TTL must be a positive integer"));
    assert!(app.show_status_modal);
    assert!(app.settings_form.editing);
    let mut app = editing(4, "x");
    app.handle_settings_edit_key(KeyCode::Enter);
    assert_eq!(app.status, "Invalid cache TTL value");
}

#[test]
fn saving_settings_reports_the_outcome() {
    let mut app = editing(3, "");
    app.finish_settings_save(Some("disk full"));
    assert_eq!(app.last_error.as_deref(), Some("Failed to save config: disk full"));
    assert!(app.show_status_modal);
    assert!(!app.settings_form.editing);
    let mut app = editing(3, "");
    app.finish_settings_save(None);
    assert_eq!(app.status, "Settings saved to config.json");
    assert_eq!(app.last_error, None);
    assert!(!app.show_status_modal);
}
