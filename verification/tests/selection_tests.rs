use civitai_tui::app::App;
use civitai_tui::browse::{BrowseLists, ModelPaging};
use civitai_tui::forms::MainTab;
use civitai_tui::liked::ModelSearchSortBy;
use civitai_tui::models::{MediaDelivery, ModelHit, ModelVersionRecord};
use civitai_tui::picks::DetailPicks;
use civitai_tui::results::ModelResults;
use civitai_tui::savedmodels::{LikedFilter, LikedModels};
use civitai_tui::image::ParsedUsedModel;
use civitai_tui::selection::{model_detail_request, selected_image_used_model, selected_model_in_active_view, selected_model_version};

fn delivery() -> MediaDelivery {
    MediaDelivery { base_url: "https://media.example/".to_string(), namespace: "/ns/".to_string() }
}

fn hit(id: u64, name: &str) -> ModelHit {
    ModelHit {
        id,
        name: Some(name.to_string()),
        username: None,
        category: None,
        tags: Vec::new(),
        model_type: None,
        metrics: None,
        version: None,
        versions: Vec::new(),
        images: Vec::new(),
        last_version_at_unix: None,
        primary_model_version_id: None,
        model_page_url: String::new(),
        default_download_file_name: String::new(),
        nsfw: None,
        description: None,
    }
}

fn version(id: u64, name: &str) -> ModelVersionRecord {
    ModelVersionRecord {
        id,
        name: Some(name.to_string()),
        base_model: None,
        created_at: None,
        updated_at: None,
        early_access_time_frame: None,
        description: None,
        stats: None,
        files: Vec::new(),
        images: Vec::new(),
    }
}

fn all() -> LikedFilter {
    LikedFilter {
        query: String::new(),
        types: Vec::new(),
        base_models: Vec::new(),
        period: None,
        now: 0,
        sort: ModelSearchSortBy::Relevance,
    }
}

fn results(models: Vec<ModelHit>) -> ModelResults {
    ModelResults { models, paging: ModelPaging { has_more: false, loading_more: false, next_page: None } }
}

#[test]
fn the_selected_model_depends_on_the_tab() {
    let r = results(vec![hit(1, "a"), hit(2, "b")]);
    let mut liked = LikedModels::new(vec![hit(7, "x"), hit(8, "y")]);
    liked.refresh_visible_liked_models_cache(&all(), &delivery());
    liked.selected = Some(1);
    let l = BrowseLists { image_index: 0, saved_image_index: 0, model_selected: None };

    assert_eq!(selected_model_in_active_view(MainTab::Models, &l, &r, &liked).map(|m| m.id), Some(1));
    let l2 = BrowseLists { model_selected: Some(1), ..l };
    assert_eq!(selected_model_in_active_view(MainTab::Models, &l2, &r, &liked).map(|m| m.id), Some(2));
    let l3 = BrowseLists { model_selected: Some(5), ..l };
    assert!(selected_model_in_active_view(MainTab::Models, &l3, &r, &liked).is_none());
    assert_eq!(selected_model_in_active_view(MainTab::SavedModels, &l, &r, &liked).map(|m| m.id), Some(8));
    assert!(selected_model_in_active_view(MainTab::Images, &l, &r, &liked).is_none());
}

#[test]
fn the_shown_version_is_the_picked_one_or_the_primary() {
    let d = delivery();
    let m = ModelHit { versions: vec![version(10, "v1"), version(11, "v2")], ..hit(1, "a") };
    let mut picks = DetailPicks::new();
    assert_eq!(selected_model_version(&m, &picks, &d), Some((1, 10)));
    picks.version_index.insert(1, 1);
    assert_eq!(selected_model_version(&m, &picks, &d), Some((1, 11)));
    picks.version_index.insert(1, 9);
    assert_eq!(selected_model_version(&m, &picks, &d), Some((1, 11)));

    let bare = hit(2, "b");
    assert_eq!(selected_model_version(&bare, &picks, &d), None);
}

#[test]
fn downloads_name_the_model_version_and_file() {
    let d = delivery();
    let m = ModelHit { versions: vec![version(10, "v1"), version(11, "v2")], ..hit(1, "Juggernaut") };
    let mut picks = DetailPicks::new();
    picks.version_index.insert(1, 1);
    picks.file_index.insert(11, 2);
    let mut app = App::new(Vec::new(), Vec::new());
    assert_eq!(app.request_download_for_model(&m, &picks, &d, true), Some((11, 2)));
    assert_eq!(app.status, "Initiated download for Juggernaut (v: v2, file: 3)");

    let before = app.status.clone();
    assert_eq!(app.request_download_for_model(&m, &picks, &d, false), None);
    assert_eq!(app.status, before);
    assert_eq!(app.request_download_for_model(&hit(3, "c"), &picks, &d, true), None);

    assert!(app.request_image_download(55, true));
    assert_eq!(app.status, "Downloading image 55...");
    assert!(!app.request_image_download(56, false));
    assert_eq!(app.status, "Downloading image 55...");
}

fn used(label: &str) -> ParsedUsedModel {
    ParsedUsedModel { label: label.to_string(), query_name: None, model_id: None, version_id: None, navigable: false }
}

#[test]
fn the_picked_used_model_is_kept_in_the_list() {
    let mut picks = DetailPicks::new();
    assert!(selected_image_used_model(&picks, 1, Vec::new()).is_none());
    let r = selected_image_used_model(&picks, 1, vec![used("a"), used("b")]).unwrap();
    assert_eq!(r.label, "a");
    picks.image_model_index.insert(1, 1);
    assert_eq!(selected_image_used_model(&picks, 1, vec![used("a"), used("b"), used("c")]).unwrap().label, "b");
    picks.image_model_index.insert(1, 7);
    assert_eq!(selected_image_used_model(&picks, 1, vec![used("a"), used("b")]).unwrap().label, "b");
}

#[test]
fn detail_window_picks_the_named_version() {
    let d = delivery();
    let m = ModelHit { versions: vec![version(10, "v1"), version(11, "v2")], ..hit(1, "a") };
    let mut picks = DetailPicks::new();
    let mut shown = None;
    let mut app = App::new(Vec::new(), Vec::new());
    app.open_image_model_detail_modal(&mut picks, &mut shown, m, Some(11), &d);
    assert!(app.show_image_model_detail_modal);
    assert_eq!(shown.as_ref().map(|m| m.id), Some(1));
    assert_eq!(picks.selected_version_index(1), 1);

    let m = ModelHit { versions: vec![version(20, "w")], ..hit(2, "b") };
    app.open_image_model_detail_modal(&mut picks, &mut shown, m, Some(99), &d);
    assert_eq!(picks.selected_version_index(2), 0);
    assert!(picks.version_index.get(&2).is_none());

    app.close_image_model_detail_modal(&mut shown);
    assert!(!app.show_image_model_detail_modal && shown.is_none());
    app.begin_image_model_detail_modal_loading(&mut shown);
    assert!(app.show_image_model_detail_modal && shown.is_none());
}

#[test]
fn side_panel_details_are_asked_for_the_selected_model() {
    let m = hit(4, "Flux Dev");
    assert_eq!(model_detail_request(true, Some(&m), true), Some((4, "Flux Dev".to_string())));
    assert_eq!(model_detail_request(false, Some(&m), true), None);
    assert_eq!(model_detail_request(true, Some(&m), false), None);
    assert_eq!(model_detail_request(true, None, true), None);
}

#[test]
fn fetched_details_replace_the_listed_model() {
    let d = delivery();
    let mut r = results(vec![hit(1, "old"), hit(2, "b")]);
    r.apply_model_detail(hit(1, "new"));
    assert_eq!(r.models[0].name.as_deref(), Some("new"));
    r.apply_model_detail(hit(9, "other"));
    assert_eq!(r.models.len(), 2);

    let mut liked = LikedModels::new(vec![hit(1, "old")]);
    liked.apply_model_detail(hit(1, "new"), &all(), &d);
    assert_eq!(liked.liked_models[0].name.as_deref(), Some("new"));
    assert_eq!(liked.visible_liked_models().len(), 1);
}
