use civitai_tui::app::App;
use civitai_tui::forms::{MainTab, SearchPeriod};
use civitai_tui::liked::{FilterName, ModelSearchSortBy};
use civitai_tui::models::{MediaDelivery, ModelHit, ParsedModelMetrics};
use civitai_tui::savedmodels::{LikedFilter, LikedModels};
use civitai_tui::status::StatusLevel;

fn delivery() -> MediaDelivery {
    MediaDelivery { base_url: "https://media.example".to_string(), namespace: "ns".to_string() }
}

fn model(id: u64, name: &str) -> ModelHit {
    ModelHit {
        id,
        name: Some(name.to_string()),
        username: None,
        category: None,
        tags: Vec::new(),
        model_type: None,
        metrics: None,
        version: None,
        versions: Vec::new(),
        images: Vec::new(),
        last_version_at_unix: None,
        primary_model_version_id: None,
        model_page_url: String::new(),
        default_download_file_name: String::new(),
        nsfw: None,
        description: None,
    }
}

fn filter(query: &str) -> LikedFilter {
    LikedFilter {
        query: query.to_string(),
        types: Vec::new(),
        base_models: Vec::new(),
        period: None,
        now: 0,
        sort: ModelSearchSortBy::Relevance,
    }
}

fn ids(liked: &LikedModels) -> Vec<u64> {
    liked.visible_liked_models().iter().map(|m| m.id).collect()
}

#[test]
fn liked_visibility_cache_updates_when_query_is_applied() {
    let mut liked = LikedModels::new(vec![model(1, "Flux Portrait"), model(2, "Anime Landscape")]);
    liked.refresh_visible_liked_models_cache(&filter(""), &delivery());

    assert_eq!(liked.visible_liked_models().len(), 2);

    let notice = liked.apply_liked_model_query(&filter("flux"), &delivery());

    assert_eq!(liked.visible_liked_models().len(), 1);
    assert_eq!(liked.visible_liked_models()[0].id, 1);
    assert_eq!(notice.text, "Liked filter applied: flux");
}

#[test]
fn liked_selection_clamps_after_filtered_removal() {
    let mut app = App::new(Vec::new(), Vec::new());
    app.active_tab = MainTab::SavedModels;
    let mut liked = LikedModels::new(vec![model(1, "Flux Portrait"), model(2, "Flux Landscape")]);
    liked.refresh_visible_liked_models_cache(&filter(""), &delivery());
    liked.refresh_visible_liked_models_cache(&filter("flux"), &delivery());
    liked.selected = Some(1);

    let selected = model(2, "Flux Landscape");
    let notice = liked.toggle_like_for_selected_model(selected, &filter("flux"), &delivery(), app.active_tab == MainTab::SavedModels);

    assert_eq!(liked.visible_liked_models().len(), 1);
    assert_eq!(liked.selected, Some(0));
    assert_eq!(notice.text, "Removed liked: Flux Landscape");
}

#[test]
fn saving_a_model_keeps_one_of_each_id() {
    let mut liked = LikedModels::new(vec![model(1, "A"), model(1, "A again"), model(2, "B")]);
    liked.deduplicate_liked_models();
    assert_eq!(liked.liked_models.iter().map(|m| m.name.clone().unwrap()).collect::<Vec<_>>(), vec!["A", "B"]);
    let notice = liked.toggle_like_for_selected_model(model(3, "C"), &filter(""), &delivery(), false);
    assert_eq!(notice.text, "Added liked: C");
    assert!(liked.is_model_liked(3));
    assert_eq!(ids(&liked), vec![1, 2, 3]);
}

#[test]
fn filters_combine_text_type_period_and_order() {
    let mut a = model(1, "Flux Lora");
    a.model_type = Some("LORA".to_string());
    a.metrics = Some(ParsedModelMetrics {
        download_count: 5,
        thumbs_up_count: 0,
        favorite_count: 0,
        comment_count: 0,
        collected_count: 0,
        tipped_amount_count: 0,
        rating_count: 0,
        rating_bits: 0,
    });
    a.last_version_at_unix = Some(1_000_000);
    let mut b = model(2, "Flux Checkpoint");
    b.model_type = Some("Checkpoint".to_string());
    let mut c = model(3, "flux lora two");
    c.model_type = Some("lora".to_string());
    c.metrics = a.metrics.map(|m| ParsedModelMetrics { download_count: 50, ..m });
    c.last_version_at_unix = Some(10);
    let mut liked = LikedModels::new(vec![a, b, c]);
    let mut f = filter("  FLUX ");
    f.types = vec![FilterName { query_value: "LORA".to_string(), label: "LoRA".to_string() }];
    f.sort = ModelSearchSortBy::MostDownloaded;
    liked.refresh_visible_liked_models_cache(&f, &delivery());
    assert_eq!(ids(&liked), vec![3, 1]);
    f.period = Some(SearchPeriod::Day);
    f.now = 1_000_100;
    liked.refresh_visible_liked_models_cache(&f, &delivery());
    assert_eq!(ids(&liked), vec![1]);
}

#[test]
fn removing_a_saved_model_asks_first() {
    let mut app = App::new(Vec::new(), Vec::new());
    let mut liked = LikedModels::new(vec![model(1, "One"), model(2, "Two")]);
    liked.refresh_visible_liked_models_cache(&filter(""), &delivery());
    app.request_liked_model_remove_selected(&mut liked);
    assert!(!app.show_like_confirm_modal);

    app.active_tab = MainTab::SavedModels;
    liked.selected = Some(1);
    app.request_liked_model_remove_selected(&mut liked);
    assert!(app.show_like_confirm_modal);
    assert_eq!(liked.pending_liked_model_remove_id, Some(2));

    let notice = liked.confirm_remove_selected_like(&filter(""), &delivery()).expect("removed");
    assert_eq!(notice.level, StatusLevel::Info);
    assert_eq!(notice.text, "Removed liked: Two");
    assert_eq!(ids(&liked), vec![1]);
    assert_eq!(liked.selected, Some(0));
    assert!(liked.confirm_remove_selected_like(&filter(""), &delivery()).is_none());

    liked.pending_liked_model_remove_id = Some(9);
    let gone = liked.confirm_remove_selected_like(&filter(""), &delivery()).expect("warning");
    assert_eq!(gone.level, StatusLevel::Warn);
    assert_eq!(gone.text, "Liked already removed.");

    app.cancel_like_remove(&mut liked);
    assert!(!app.show_like_confirm_modal);

    let mut empty = LikedModels::new(Vec::new());
    app.request_liked_model_remove_selected(&mut empty);
    assert_eq!(app.status, "No liked model selected");
}
