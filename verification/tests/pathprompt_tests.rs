use civitai_tui::keys::KeyCode;
use civitai_tui::app::App;
use civitai_tui::forms::{AppMode, BookmarkPathAction};
use civitai_tui::liked::ModelSearchSortBy;
use civitai_tui::models::{MediaDelivery, ModelHit};
use civitai_tui::pathprompt::LikedPathPrompt;
use civitai_tui::savedmodels::{LikedFilter, LikedModels};
use civitai_tui::status::StatusLevel;

fn delivery() -> MediaDelivery {
    MediaDelivery { base_url: "https://media.example".to_string(), namespace: "ns".to_string() }
}

fn model(id: u64) -> ModelHit {
    ModelHit {
        id,
        name: Some(format!("model {id}")),
        username: None,
        category: None,
        tags: Vec::new(),
        model_type: None,
        metrics: None,
        version: None,
        versions: Vec::new(),
        images: Vec::new(),
        last_version_at_unix: None,
        primary_model_version_id: None,
        model_page_url: String::new(),
        default_download_file_name: String::new(),
        nsfw: None,
        description: None,
    }
}

fn all() -> LikedFilter {
    LikedFilter {
        query: String::new(),
        types: Vec::new(),
        base_models: Vec::new(),
        period: None,
        now: 0,
        sort: ModelSearchSortBy::Relevance,
    }
}

#[test]
fn prompts_start_from_the_file_in_use() {
    let mut app = App::new(Vec::new(), Vec::new());
    let mut p = LikedPathPrompt::new();
    app.begin_liked_model_export_prompt(&mut p, Some("/home/u/liked.json"));
    assert_eq!(p.draft, "/home/u/liked.json");
    assert!(p.is_liked_model_export_prompt());
    assert_eq!(app.mode, AppMode::BookmarkPathPrompt);
    assert_eq!(app.status, "Liked export path. Enter to confirm, Esc to cancel.");

    p.set_liked_model_file_path("/tmp/chosen.json".to_string());
    app.begin_liked_model_import_prompt(&mut p, Some("/home/u/liked.json"));
    assert_eq!(p.draft, "/tmp/chosen.json");
    assert!(!p.is_liked_model_export_prompt());
    assert_eq!(app.status, "Liked import path. Enter to confirm, Esc to cancel.");

    let mut p = LikedPathPrompt::new();
    app.begin_liked_model_import_prompt(&mut p, None);
    assert_eq!(p.draft, "");
}

#[test]
fn cancelling_the_prompt_says_so() {
    let mut app = App::new(Vec::new(), Vec::new());
    let mut p = LikedPathPrompt::new();
    app.begin_liked_model_export_prompt(&mut p, None);
    app.cancel_liked_model_path_prompt(&mut p);
    assert_eq!(p.action, None);
    assert_eq!(app.mode, AppMode::Browsing);
    assert_eq!(app.status, "Liked path input cancelled.");
}

#[test]
fn confirming_hands_back_the_action_and_file() {
    let mut app = App::new(Vec::new(), Vec::new());
    let mut p = LikedPathPrompt::new();
    app.begin_liked_model_export_prompt(&mut p, None);
    p.draft = "  /data/out.json ".to_string();
    let r = app.apply_liked_model_path_prompt(&mut p, None);
    assert_eq!(r, Some((BookmarkPathAction::Export, "/data/out.json".to_string())));
    assert_eq!(p.file_path.as_deref(), Some("/data/out.json"));
    assert_eq!(p.action, None);
    assert_eq!(app.mode, AppMode::Browsing);

    app.begin_liked_model_import_prompt(&mut p, None);
    p.draft = "   ".to_string();
    let r = app.apply_liked_model_path_prompt(&mut p, Some("/default.json"));
    assert_eq!(r, Some((BookmarkPathAction::Import, "/data/out.json".to_string())));
}

#[test]
fn confirming_without_a_file_warns() {
    let mut app = App::new(Vec::new(), Vec::new());
    let mut p = LikedPathPrompt::new();
    app.begin_liked_model_import_prompt(&mut p, None);
    let r = app.apply_liked_model_path_prompt(&mut p, None);
    assert_eq!(r, None);
    assert_eq!(app.status, "No liked model file path configured.");
    assert_eq!(app.status_level, StatusLevel::Warn);
    assert_eq!(app.mode, AppMode::Browsing);

    let mut p = LikedPathPrompt::new();
    app.mode = AppMode::BookmarkPathPrompt;
    assert_eq!(app.apply_liked_model_path_prompt(&mut p, Some("/x.json")), None);
    assert_eq!(app.mode, AppMode::Browsing);
}

#[test]
fn exports_are_reported() {
    let mut app = App::new(Vec::new(), Vec::new());
    app.note_liked_export(3, "/data/out.json", None);
    assert_eq!(app.status, "Exported 3 liked models");
    assert_eq!(app.status_detail.as_deref(), Some("Destination: /data/out.json"));
    app.note_liked_export(3, "/data/out.json", Some("permission denied"));
    assert_eq!(app.status, "Failed to export liked models");
    assert_eq!(app.status_level, StatusLevel::Error);
    assert!(app.show_status_modal);
}

#[test]
fn imports_add_only_new_models() {
    let mut app = App::new(Vec::new(), Vec::new());
    let mut liked = LikedModels::new(vec![model(1), model(2)]);
    assert!(app.import_liked_models(&mut liked, vec![model(2), model(3), model(4), model(3)], &all(), &delivery()));
    let ids: Vec<u64> = liked.liked_models.iter().map(|m| m.id).collect();
    assert_eq!(ids, vec![1, 2, 3, 4]);
    assert_eq!(liked.visible_liked_models().len(), 4);
    assert_eq!(app.status, "Imported 2 new liked model(s).");

    assert!(app.import_liked_models(&mut liked, vec![model(1)], &all(), &delivery()));
    assert_eq!(app.status, "Import completed, no new liked models.");

    assert!(!app.import_liked_models(&mut liked, Vec::new(), &all(), &delivery()));
    assert_eq!(app.status, "No liked models found in import file.");
    assert_eq!(app.status_level, StatusLevel::Warn);
}

#[test]
fn prompt_keys_edit_confirm_and_cancel() {
    let mut app = App::new(Vec::new(), Vec::new());
    let mut p = LikedPathPrompt::new();
    app.begin_liked_model_export_prompt(&mut p, None);
    for c in "/a.jsonx".chars() {
        assert_eq!(app.handle_liked_path_prompt_key(&mut p, KeyCode::Char(c), None), None);
    }
    app.handle_liked_path_prompt_key(&mut p, KeyCode::Backspace, None);
    assert_eq!(p.draft, "/a.json");
    assert_eq!(
        app.handle_liked_path_prompt_key(&mut p, KeyCode::Enter, None),
        Some((BookmarkPathAction::Export, "/a.json".to_string()))
    );
    app.begin_liked_model_import_prompt(&mut p, None);
    assert_eq!(app.handle_liked_path_prompt_key(&mut p, KeyCode::Esc, None), None);
    assert_eq!(app.status, "Liked path input cancelled.");
    assert_eq!(app.handle_liked_path_prompt_key(&mut p, KeyCode::Up, None), None);
}
