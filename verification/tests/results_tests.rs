use civitai_tui::app::App;
use civitai_tui::browse::{BrowseLists, ImageFeed, ModelPaging};
use civitai_tui::models::{MediaDelivery, ModelHit, ModelVersionRecord};
use civitai_tui::results::{
    append_unique_models, has_displayable_model_version, known_version_ids, new_image_positions,
    next_feed_page_after_load, sort_displayable_first, ModelResults,
};

fn delivery() -> MediaDelivery {
    MediaDelivery { base_url: "https://media.example/".to_string(), namespace: "/ns/".to_string() }
}

fn hit(id: u64) -> ModelHit {
    ModelHit {
        id,
        name: None,
        username: None,
        category: None,
        tags: Vec::new(),
        model_type: None,
        metrics: None,
        version: None,
        versions: Vec::new(),
        images: Vec::new(),
        last_version_at_unix: None,
        primary_model_version_id: None,
        model_page_url: format!("https://civitai.com/models/{id}"),
        default_download_file_name: format!("model-{id}.bin"),
        nsfw: None,
        description: None,
    }
}

fn version(id: u64) -> ModelVersionRecord {
    ModelVersionRecord {
        id,
        name: None,
        base_model: None,
        created_at: None,
        updated_at: None,
        early_access_time_frame: None,
        description: None,
        stats: None,
        files: Vec::new(),
        images: Vec::new(),
    }
}

fn with_versions(id: u64, ids: &[u64]) -> ModelHit {
    ModelHit { versions: ids.iter().map(|v| version(*v)).collect(), ..hit(id) }
}

fn ids(models: &[ModelHit]) -> Vec<u64> {
    models.iter().map(|m| m.id).collect()
}

fn lists() -> BrowseLists {
    BrowseLists { image_index: 0, saved_image_index: 0, model_selected: None }
}

#[test]
fn models_with_a_version_count_as_displayable() {
    let d = delivery();
    assert!(!has_displayable_model_version(&hit(1), &d));
    assert!(has_displayable_model_version(&with_versions(2, &[20]), &d));
    let primary = ModelHit { primary_model_version_id: Some(30), ..hit(3) };
    assert!(has_displayable_model_version(&primary, &d));
}

#[test]
fn displayable_models_come_first_in_order() {
    let d = delivery();
    let models = vec![hit(1), with_versions(2, &[20]), hit(3), with_versions(4, &[40])];
    let sorted = sort_displayable_first(models, &d);
    assert_eq!(ids(&sorted), vec![2, 4, 1, 3]);
}

#[test]
fn appending_skips_listed_ids() {
    let mut models = vec![hit(1), hit(2)];
    append_unique_models(&mut models, vec![hit(2), hit(3), hit(3), hit(4)]);
    assert_eq!(ids(&models), vec![1, 2, 3, 4]);
}

#[test]
fn version_ids_follow_the_models() {
    let d = delivery();
    let models = vec![with_versions(1, &[11, 12]), hit(2), with_versions(3, &[31])];
    assert_eq!(known_version_ids(&models, &d), vec![11, 12, 31]);
}

#[test]
fn first_page_replaces_results_and_selects_the_first() {
    let d = delivery();
    let mut r = ModelResults { models: vec![hit(9)], paging: ModelPaging { has_more: false, loading_more: true, next_page: None } };
    let mut l = lists();
    r.set_results(&mut l, vec![hit(1), with_versions(2, &[20])], true, Some(2), &d);
    assert_eq!(ids(&r.models), vec![2, 1]);
    assert_eq!(r.paging, ModelPaging { has_more: true, loading_more: false, next_page: Some(2) });
    assert_eq!(l.model_selected, Some(0));
}

#[test]
fn further_pages_add_new_models() {
    let d = delivery();
    let mut r = ModelResults { models: vec![with_versions(1, &[10])], paging: ModelPaging { has_more: true, loading_more: true, next_page: Some(2) } };
    r.append_results(vec![hit(5), with_versions(1, &[10]), with_versions(6, &[60])], false, None, &d);
    assert_eq!(ids(&r.models), vec![1, 6, 5]);
    assert_eq!(r.paging, ModelPaging { has_more: false, loading_more: false, next_page: None });

    r.append_results(Vec::new(), true, Some(4), &d);
    assert_eq!(ids(&r.models), vec![1, 6, 5]);
    assert_eq!(r.paging, ModelPaging { has_more: true, loading_more: false, next_page: Some(4) });
}

#[test]
fn image_feed_pages_keep_the_selection_in_range() {
    let mut f = ImageFeed { loaded: false, loading: true, has_more: true, next_page: None };
    let mut selected = 9;
    f.set_results(&mut selected, 4, Some(2));
    assert_eq!(f, ImageFeed { loaded: true, loading: false, has_more: true, next_page: Some(2) });
    assert_eq!(selected, 3);
    f.set_results(&mut selected, 0, None);
    assert_eq!(selected, 0);
    assert!(!f.has_more);

    let mut f = ImageFeed { loaded: true, loading: true, has_more: true, next_page: Some(2) };
    let mut selected = 5;
    f.append_results(&mut selected, 8, None);
    assert_eq!(f, ImageFeed { loaded: true, loading: false, has_more: false, next_page: None });
    assert_eq!(selected, 5);
    f.append_results(&mut selected, 3, Some(7));
    assert_eq!(selected, 2);
    assert!(f.has_more);

    let mut f = ImageFeed { loaded: true, loading: true, has_more: false, next_page: None };
    f.reset();
    assert_eq!(f, ImageFeed { loaded: false, loading: false, has_more: true, next_page: None });
}

#[test]
fn only_unknown_images_are_added() {
    assert_eq!(new_image_positions(&vec![1, 2], &vec![2, 3, 1, 4]), vec![1, 3]);
    assert_eq!(new_image_positions(&Vec::new(), &vec![5, 5]), vec![0, 1]);
    assert_eq!(new_image_positions(&vec![1], &Vec::new()), Vec::<usize>::new());
}

#[test]
fn searches_sent_say_so() {
    let mut app = App::new(Vec::new(), Vec::new());
    let mut p = ModelPaging { has_more: false, loading_more: true, next_page: Some(3) };
    app.note_model_search_sent(&mut p, "flux");
    assert_eq!(p, ModelPaging { has_more: true, loading_more: false, next_page: Some(3) });
    assert_eq!(app.status, "Searching for models: 'flux'...");

    let mut f = ImageFeed { loaded: false, loading: false, has_more: true, next_page: None };
    app.note_image_search_sent(&mut f);
    assert!(f.loading);
    assert_eq!(app.status, "Searching image feed...");
}

#[test]
fn loads_are_reported() {
    let mut app = App::new(Vec::new(), Vec::new());
    let before = app.status.clone();
    app.note_images_loaded(false, 0, 12);
    assert_eq!(app.status, before);
    app.active_tab = civitai_tui::forms::MainTab::Images;
    app.note_images_loaded(false, 0, 12);
    assert_eq!(app.status, "Loaded 12 images");
    app.note_images_loaded(true, 12, 20);
    assert_eq!(app.status, "Loaded 8 more images (total 20)");
    app.note_models_loaded(false, 0, 50);
    assert_eq!(app.status, "Found 50 models");
    app.note_models_loaded(true, 10, 60);
    assert_eq!(app.status, "Loaded 10 more models (total 60)");
    app.note_model_details_loaded(Some("Flux"));
    assert_eq!(app.status, "Loaded model details: Flux");
    app.note_model_details_loaded(None);
    assert_eq!(app.status, "Loaded model details");

    assert_eq!(next_feed_page_after_load(0, false, Some(3)), Some(3));
    assert_eq!(next_feed_page_after_load(5, false, Some(3)), None);
    assert_eq!(next_feed_page_after_load(5, true, Some(3)), Some(3));
}
