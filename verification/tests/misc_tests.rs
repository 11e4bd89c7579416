use civitai_tui::active::DownloadEnd;
use civitai_tui::app::App;
use civitai_tui::downloads::{DownloadHistoryStatus, DownloadKey, DownloadState};
use civitai_tui::image::{image_media_url, image_username, ImageHit};
use civitai_tui::status::{StatusEvent, StatusLevel};
use civitai_tui::templates::{ModelSearchTemplate, SearchTemplateStore, SearchTemplates};
use civitai_tui::forms::SearchTemplateKind;
use civitai_tui::text::{
    build_horizontal_item_window, compact_cell_text, format_time_ago, is_error_status,
    next_markdown_token, rotate_left_chars, time_ago_label, wrap_text_lines,
};
use std::time::SystemTime;

fn hit() -> ImageHit {
    ImageHit {
        hide_meta: None,
        prompt: None,
        metadata: None,
        generation: None,
        metadata_resources: Vec::new(),
        base_model: None,
        username: Some("  ".to_string()),
        thumbnail_url: Some(" ".to_string()),
        original_media_url: Some("https://image/orig.png".to_string()),
        stats: None,
        tag_names: Vec::new(),
    }
}

#[test]
fn blank_username_and_thumbnail_are_skipped() {
    let mut h = hit();
    assert_eq!(image_username(&h), None);
    assert_eq!(image_media_url(&h).as_deref(), Some("https://image/orig.png"));
    h.username = Some("artist".to_string());
    h.thumbnail_url = Some("https://image/thumb.png".to_string());
    assert_eq!(image_username(&h).as_deref(), Some("artist"));
    assert_eq!(image_media_url(&h).as_deref(), Some("https://image/thumb.png"));
}

#[test]
fn marquee_rotation_and_cell_cutting() {
    assert_eq!(rotate_left_chars("abcdef", 2), "cdefab");
    assert_eq!(rotate_left_chars("abc", 7), "bca");
    assert_eq!(rotate_left_chars("", 3), "");
    assert_eq!(compact_cell_text("portrait".to_string(), 4), "port");
    assert_eq!(compact_cell_text("abc".to_string(), 10), "abc");
    assert_eq!(compact_cell_text("abc".to_string(), 0), "");
}

#[test]
fn wrapped_lines_fill_the_box() {
    assert_eq!(wrap_text_lines("abcdefg", 3, 5), vec!["abc", "def", "g"]);
    assert_eq!(wrap_text_lines("abcdefg", 3, 2), vec!["abc", "def"]);
    assert_eq!(wrap_text_lines("", 3, 2), vec![""]);
    assert!(wrap_text_lines("abc", 0, 2).is_empty());
}

#[test]
fn horizontal_window_keeps_the_selected_item() {
    let items: Vec<(String, bool)> = ["alpha", "beta", "gamma", "delta", "epsilon"]
        .iter()
        .enumerate()
        .map(|(i, s)| (s.to_string(), i == 3))
        .collect();
    let window = build_horizontal_item_window(&items, 12);
    assert!(window.iter().any(|(s, selected)| *selected && s == "delta"));
    assert!(window.len() < items.len());
}

#[test]
fn time_ago_uses_the_largest_unit() {
    assert_eq!(time_ago_label(59), "59s");
    assert_eq!(time_ago_label(61), "1m");
    assert_eq!(time_ago_label(7200), "2h");
    assert_eq!(time_ago_label(90_000), "1d");
    assert!(format_time_ago(SystemTime::now()).ends_with('s'));
}

#[test]
fn error_statuses_are_recognised() {
    assert!(is_error_status("Download FAILED"));
    assert!(is_error_status("network error"));
    assert!(!is_error_status("Searching models"));
}

#[test]
fn markdown_tokens_prefer_bold_on_ties() {
    assert_eq!(next_markdown_token("a **b**"), Some((2, "**")));
    assert_eq!(next_markdown_token("see https://x"), Some((4, "https://")));
    assert_eq!(next_markdown_token("plain"), None);
}

#[test]
fn status_details_and_previews() {
    let mut app = App::new(Vec::new(), Vec::new());
    app.set_status_detail("Loaded", "42 models");
    assert_eq!(app.status_detail.as_deref(), Some("42 models"));
    assert_eq!(app.status_level, StatusLevel::Info);
    app.begin_status_history_modal();
    assert!(app.show_status_history_modal);
    assert_eq!(app.selected_status_history_index, 0);
    let preview = StatusEvent::info_detail("Saved", "line one\nline two").history_preview_at("12:00:00");
    assert!(preview.contains("12:00:00"));
    assert!(preview.contains("Saved"));
    assert!(!preview.contains('\n'));
}

#[test]
fn downloads_move_through_states_into_history() {
    let mut app = App::new(Vec::new(), Vec::new());
    let a = DownloadKey::new(1, 10, "a.safetensors");
    let b = DownloadKey::new(2, 20, "b.safetensors");
    app.on_download_started(a.clone(), "A".to_string(), 100, None);
    app.on_download_started(b.clone(), "B".to_string(), 100, None);
    assert!(app.has_active_download());
    app.select_next_download();
    assert_eq!(app.selected_download_id(), Some(b.clone()));
    app.select_previous_download();
    assert_eq!(app.selected_download_id(), Some(a.clone()));
    app.on_download_state(&a, DownloadState::Paused);
    assert!(app.active_downloads.iter().any(|t| t.key == a && t.state == DownloadState::Paused));
    app.on_download_finished(&a, DownloadEnd::Failed("disk full".to_string()));
    assert_eq!(app.active_downloads.len(), 1);
    assert!(matches!(
        app.download_history.last().map(|e| &e.status),
        Some(DownloadHistoryStatus::Failed(reason)) if reason == "disk full"
    ));
    assert_eq!(app.last_error.as_deref(), Some("disk full"));
    app.on_download_finished(&b, DownloadEnd::Completed);
    assert!(!app.has_active_download());
    assert_eq!(app.download_history.len(), 2);
    assert_eq!(app.selected_download_history_entry().map(|e| e.model_id), Some(2));
    app.select_next_history();
    assert_eq!(app.selected_history_entry_index(), Some(0));
    let removed = app.remove_selected_history().expect("removed");
    assert_eq!(removed.model_id, 1);
    assert_eq!(app.download_history.len(), 1);
}

#[test]
fn prompts_can_be_dismissed() {
    let mut app = App::new(Vec::new(), Vec::new());
    app.show_resume_download_modal = true;
    app.cancel_resume_download_modal();
    assert!(!app.show_resume_download_modal);
    app.show_exit_confirm_modal = true;
    app.cancel_exit_confirm_modal();
    assert!(!app.show_exit_confirm_modal);
    app.clear_interrupted_download_sessions();
    assert!(app.interrupted_download_sessions.is_empty());
}

#[test]
fn templates_save_sorted_and_list_names() {
    let mut t: SearchTemplates<u8, u8> = SearchTemplates::new(SearchTemplateStore {
        model_templates: vec![ModelSearchTemplate { name: "zeta".to_string(), state: 1 }],
        image_templates: Vec::new(),
    });
    t.open_search_template_modal(SearchTemplateKind::Model);
    t.begin_search_template_save();
    t.search_template_name_draft = "  Alpha ".to_string();
    let n = t.save_current_search_template(7, 0);
    assert_eq!(n.text, "Saved template \"Alpha\"");
    assert_eq!(t.search_template_names(), vec!["Alpha".to_string(), "zeta".to_string()]);
    t.begin_search_template_save();
    t.search_template_name_draft = "ZETA".to_string();
    t.save_current_search_template(9, 0);
    assert_eq!(t.model_search_templates.len(), 2);
    assert_eq!(t.model_search_templates[1].state, 9);
    t.begin_search_template_save();
    let n = t.save_current_search_template(1, 1);
    assert_eq!(n.level, StatusLevel::Warn);
}
