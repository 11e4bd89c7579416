use civitai_tui::keys::KeyCode;
use civitai_tui::app::App;
use civitai_tui::forms::{AppMode, MainTab};
use civitai_tui::savedimages::{image_matches_query, SavedImage, SavedImages};

fn image(id: u64, base_model: &str) -> SavedImage<()> {
    SavedImage { id, username: None, base_model: Some(base_model.to_string()), metadata_text: None, item: () }
}

fn visible_ids(s: &SavedImages<()>) -> Vec<u64> {
    s.visible_image_bookmarks_cache.iter().map(|p| s.image_bookmarks[*p].id).collect()
}

#[test]
fn image_liked_visibility_cache_updates_when_query_changes() {
    let mut app = App::new(Vec::new(), Vec::new());
    let mut saved = SavedImages::new(vec![image(10, "Flux.1 D"), image(20, "SDXL")]);
    saved.refresh_visible_image_bookmarks_cache();

    assert_eq!(saved.visible_image_bookmarks_cache.len(), 2);

    saved.image_bookmark_query_draft = "flux".to_string();
    app.apply_image_bookmark_query(&mut saved);

    assert_eq!(saved.visible_image_bookmarks_cache.len(), 1);
    assert_eq!(visible_ids(&saved), vec![10]);
    assert_eq!(app.status, "Image bookmark query applied: flux");
    assert_eq!(app.mode, AppMode::Browsing);
}

#[test]
fn image_liked_selection_clamps_after_filtered_removal() {
    let mut app = App::new(Vec::new(), Vec::new());
    app.active_tab = MainTab::SavedImages;
    let mut saved = SavedImages::new(vec![image(10, "Flux.1 D"), image(20, "Flux.1 D")]);
    saved.refresh_visible_image_bookmarks_cache();
    saved.image_bookmark_query = "flux".to_string();
    saved.refresh_visible_image_bookmarks_cache();
    saved.selected_image_bookmark_index = 1;

    app.toggle_bookmark_for_selected_image(&mut saved, image(20, "Flux.1 D"));

    assert_eq!(saved.visible_image_bookmarks_cache.len(), 1);
    assert_eq!(saved.selected_image_bookmark_index, 0);
    assert_eq!(app.status, "Removed image bookmark: 20");
}

#[test]
fn filter_reads_id_author_base_model_and_metadata() {
    let q = |s: &str| -> Vec<char> { s.chars().collect() };
    let img = SavedImage {
        id: 4321,
        username: Some("PixelMage".to_string()),
        base_model: Some("SDXL 1.0".to_string()),
        metadata_text: Some("{\"Sampler\":\"Euler A\"}".to_string()),
        item: (),
    };
    assert!(image_matches_query(&img, &q("")));
    assert!(image_matches_query(&img, &q("32")));
    assert!(image_matches_query(&img, &q("pixelm")));
    assert!(image_matches_query(&img, &q("sdxl")));
    assert!(image_matches_query(&img, &q("euler a")));
    assert!(!image_matches_query(&img, &q("flux")));
    // The filter itself is lowered before it is compared.
    assert!(!image_matches_query(&img, &q("SDXL")));
}

#[test]
fn saving_then_forgetting_restores_the_list() {
    let mut app = App::new(Vec::new(), Vec::new());
    let mut saved = SavedImages::new(vec![image(1, "SDXL")]);
    app.toggle_bookmark_for_selected_image(&mut saved, image(2, "Flux.1 D"));
    assert_eq!(app.status, "Added image bookmark: 2");
    assert!(saved.is_image_bookmarked(2));
    assert_eq!(visible_ids(&saved), vec![1, 2]);
    app.toggle_bookmark_for_selected_image(&mut saved, image(2, "Flux.1 D"));
    assert!(!saved.is_image_bookmarked(2));
    assert_eq!(visible_ids(&saved), vec![1]);
}

#[test]
fn duplicates_keep_the_first() {
    let mut saved = SavedImages::new(vec![image(1, "a"), image(2, "b"), image(1, "c")]);
    saved.deduplicate_image_bookmarks();
    let bases: Vec<String> = saved.image_bookmarks.iter().map(|i| i.base_model.clone().unwrap()).collect();
    assert_eq!(bases, vec!["a".to_string(), "b".to_string()]);
}

#[test]
fn filter_prompt_opens_and_cancels() {
    let mut app = App::new(Vec::new(), Vec::new());
    let mut saved = SavedImages::new(vec![image(1, "SDXL")]);
    saved.image_bookmark_query = "sd".to_string();
    app.begin_image_bookmark_search(&mut saved);
    assert_eq!(saved.image_bookmark_query_draft, "sd");
    assert_eq!(app.mode, AppMode::SearchSavedImages);
    assert_eq!(app.status, "Search image bookmarks. Enter apply, Esc cancel");
    saved.image_bookmark_query_draft = "other".to_string();
    app.cancel_image_bookmark_search(&mut saved);
    assert_eq!(saved.image_bookmark_query_draft, "sd");
    assert_eq!(app.mode, AppMode::Browsing);
    assert_eq!(app.status, "Image bookmark search cancelled.");

    saved.image_bookmark_query_draft = String::new();
    app.apply_image_bookmark_query(&mut saved);
    assert_eq!(app.status, "Image bookmark query applied: <all>");

    saved.selected_image_bookmark_index = 5;
    saved.clamp_image_bookmark_selection();
    assert_eq!(saved.selected_image_bookmark_index, 0);
}

#[test]
fn filter_prompt_keys_type_and_apply() {
    let mut app = App::new(Vec::new(), Vec::new());
    let mut saved = SavedImages::new(vec![image(10, "Flux.1 D"), image(20, "SDXL")]);
    for c in "sdxlz".chars() {
        app.handle_image_liked_search_key(&mut saved, KeyCode::Char(c));
    }
    app.handle_image_liked_search_key(&mut saved, KeyCode::Backspace);
    assert_eq!(saved.image_bookmark_query_draft, "sdxl");
    app.handle_image_liked_search_key(&mut saved, KeyCode::Enter);
    assert_eq!(saved.image_bookmark_query, "sdxl");
    assert_eq!(visible_ids(&saved), vec![20]);
    saved.image_bookmark_query_draft = String::new();
    app.handle_image_liked_search_key(&mut saved, KeyCode::Esc);
    assert_eq!(visible_ids(&saved), vec![10, 20]);
}
