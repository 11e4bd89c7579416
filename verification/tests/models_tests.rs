use civitai_tui::covers::{
    image_model_detail_neighbor_cover_urls, image_model_detail_selected_cover, selected_model_neighbor_cover_urls,
    selected_model_version_with_cover_url,
};
use civitai_tui::liked::{
    liked_model_matches_base_model, liked_model_matches_query, liked_model_matches_type, sort_liked_models,
    FilterName, ModelSearchSortBy,
};
use civitai_tui::metadata::JsonValue;
use civitai_tui::models::{
    build_download_file_name, build_model_url, category_name, creator_name, default_base_model,
    model_metrics, model_name, model_versions, selected_version, tag_names, MediaDelivery, ModelFileRecord,
    ModelHit, ModelImageRecord, ModelVersionRecord, ParsedModelMetrics,
};

fn delivery() -> MediaDelivery {
    MediaDelivery { base_url: "https://media.example/".to_string(), namespace: "/ns/".to_string() }
}

fn hit(id: u64) -> ModelHit {
    ModelHit {
        id,
        name: None,
        username: None,
        category: None,
        tags: Vec::new(),
        model_type: None,
        metrics: None,
        version: None,
        versions: Vec::new(),
        images: Vec::new(),
        last_version_at_unix: None,
        primary_model_version_id: None,
        model_page_url: format!("https://civitai.com/models/{id}"),
        default_download_file_name: format!("model-{id}.bin"),
        nsfw: None,
        description: None,
    }
}

fn version(id: u64, name: Option<&str>) -> ModelVersionRecord {
    ModelVersionRecord {
        id,
        name: name.map(str::to_string),
        base_model: None,
        created_at: None,
        updated_at: None,
        early_access_time_frame: None,
        description: None,
        stats: None,
        files: Vec::new(),
        images: Vec::new(),
    }
}

fn image(url: &str, version_id: Option<u64>) -> ModelImageRecord {
    ModelImageRecord {
        id: None,
        model_version_id: version_id,
        url: url.to_string(),
        width: None,
        height: None,
        nsfw: None,
        meta: None,
    }
}

fn metrics(download_count: u64) -> ParsedModelMetrics {
    ParsedModelMetrics {
        download_count,
        thumbs_up_count: 0,
        favorite_count: 0,
        comment_count: 0,
        collected_count: 0,
        tipped_amount_count: 0,
        rating_count: 0,
        rating_bits: 0,
    }
}

fn named(text: &str) -> FilterName {
    FilterName { query_value: text.to_string(), label: text.to_string() }
}

#[test]
fn leaves_files_empty_until_detail_payload_arrives() {
    let mut h = hit(42);
    h.version = Some(version(7, Some("v1")));

    let versions = model_versions(&h, &delivery());

    assert_eq!(versions.len(), 1);
    assert!(versions[0].files.is_empty());
}

#[test]
fn filters_liked_models_by_type_and_base_model() {
    let mut model = hit(1);
    model.name = Some("Flux Lora".to_string());
    model.model_type = Some("LORA".to_string());
    let mut v = version(10, None);
    v.base_model = Some("Flux.1 D".to_string());
    model.version = Some(v);

    let type_filter = vec![FilterName { query_value: "LORA".to_string(), label: "LoRA".to_string() }];
    let base_filter = vec![named("Flux.1 D")];

    assert!(liked_model_matches_type(&model, &type_filter));
    assert!(liked_model_matches_base_model(&model, &base_filter, &delivery()));
}

#[test]
fn sorts_liked_models_by_download_count() {
    let mut items = Vec::new();
    for (id, count) in [(1u64, 5u64), (2, 99), (3, 42)] {
        let mut m = hit(id);
        m.metrics = Some(metrics(count));
        items.push(m);
    }

    sort_liked_models(&mut items, &ModelSearchSortBy::MostDownloaded);

    assert_eq!(items.iter().map(|item| item.id).collect::<Vec<_>>(), vec![2, 3, 1]);
}

#[test]
fn unnamed_models_and_versions_are_named_by_id() {
    let mut h = hit(42);
    h.name = Some("   ".to_string());
    h.version = Some(version(7, None));
    assert_eq!(model_name(&h), "Model 42");
    let versions = model_versions(&h, &delivery());
    assert_eq!(versions[0].name, "Version 7");
}

#[test]
fn reports_of_one_version_are_merged() {
    let mut h = hit(1);
    h.version = Some(version(7, Some("v1")));
    let mut again = version(7, Some("other"));
    again.base_model = Some("SDXL 1.0".to_string());
    again.files.push(ModelFileRecord {
        id: Some(3),
        name: None,
        file_type: Some("Model".to_string()),
        size_kb_bits: None,
        format: None,
        fp: None,
        primary: true,
        download_url: None,
        pickle_scan_result: None,
        virus_scan_result: None,
    });
    h.versions.push(again);
    h.versions.push(version(8, Some("v2")));

    let versions = model_versions(&h, &delivery());

    assert_eq!(versions.len(), 2);
    assert_eq!(versions[0].id, 7);
    assert_eq!(versions[0].name, "v1");
    assert_eq!(versions[0].base_model.as_deref(), Some("SDXL 1.0"));
    assert_eq!(versions[0].files.len(), 1);
    assert_eq!(versions[0].files[0].name, "Unnamed file");
    assert_eq!(versions[1].id, 8);
}

#[test]
fn primary_version_stands_in_when_none_is_reported() {
    let mut h = hit(5);
    h.primary_model_version_id = Some(77);
    let versions = model_versions(&h, &delivery());
    assert_eq!(versions.len(), 1);
    assert_eq!(versions[0].id, 77);
    assert_eq!(versions[0].name, "Version 77");

    let none = hit(6);
    assert!(model_versions(&none, &delivery()).is_empty());
    assert!(selected_version(&none, 0, &delivery()).is_none());
}

#[test]
fn model_images_go_to_their_versions() {
    let mut h = hit(1);
    h.versions.push(version(7, Some("a")));
    h.versions.push(version(8, Some("b")));
    h.images.push(image("abc.png", Some(8)));
    h.images.push(image("  https://cdn.example/x.png ", Some(9)));
    h.images.push(image("   ", Some(8)));

    let versions = model_versions(&h, &delivery());

    assert_eq!(versions[1].images.len(), 1);
    assert_eq!(versions[1].images[0].url, "https://media.example/ns/abc.png/original=true");
    assert_eq!(versions[0].images.len(), 2);
    assert_eq!(versions[0].images[1].url, "https://cdn.example/x.png");
}

#[test]
fn image_metadata_is_carried_over() {
    let mut h = hit(1);
    let mut v = version(7, Some("a"));
    let mut img = image("https://cdn.example/y.png", Some(7));
    img.meta = Some(JsonValue::Object(vec![("prompt".to_string(), JsonValue::Text("sky".to_string()))]));
    v.images.push(img);
    h.version = Some(v);

    let versions = model_versions(&h, &delivery());

    match &versions[0].images[0].meta {
        Some(JsonValue::Object(entries)) => {
            assert_eq!(entries[0].0, "prompt");
            assert!(matches!(&entries[0].1, JsonValue::Text(t) if t == "sky"));
        },
        _ => panic!("metadata lost"),
    }
}

#[test]
fn model_counters_fill_zero_version_counters() {
    let mut h = hit(1);
    h.metrics = Some(ParsedModelMetrics { thumbs_up_count: 4, ..metrics(10) });
    let mut v = version(7, None);
    v.stats = Some(metrics(3));
    h.version = Some(v);

    let versions = model_versions(&h, &delivery());

    assert_eq!(versions[0].stats.download_count, 3);
    assert_eq!(versions[0].stats.thumbs_up_count, 4);
    assert_eq!(model_metrics(&h).download_count, 10);
}

#[test]
fn selected_version_clamps_to_last() {
    let mut h = hit(1);
    h.versions.push(version(7, Some("a")));
    h.versions.push(version(8, Some("b")));
    assert_eq!(selected_version(&h, 9, &delivery()).map(|v| v.id), Some(8));
    assert_eq!(selected_version(&h, 0, &delivery()).map(|v| v.id), Some(7));
}

#[test]
fn base_model_comes_from_first_version() {
    let mut h = hit(1);
    h.versions.push(version(7, Some("a")));
    let mut second = version(8, Some("b"));
    second.base_model = Some("Pony".to_string());
    h.versions.push(second);
    assert_eq!(default_base_model(&h, &delivery()), None);

    let mut v = version(9, None);
    v.base_model = Some("SD 1.5".to_string());
    h.version = Some(v);
    assert_eq!(default_base_model(&h, &delivery()).as_deref(), Some("SD 1.5"));
}

#[test]
fn builds_model_page_addresses() {
    let h = hit(12);
    assert_eq!(build_model_url(&h, Some(34)), "https://civitai.com/models/12?modelVersionId=34");
    assert_eq!(build_model_url(&h, None), "https://civitai.com/models/12");
}

#[test]
fn download_file_name_uses_model_and_version_names() {
    let mut h = hit(1);
    h.name = Some("My Model".to_string());
    h.version = Some(version(7, Some("v1.0 release")));
    let mut file = version(7, None);
    file.files.push(ModelFileRecord {
        id: None,
        name: Some("weights.safetensors".to_string()),
        file_type: None,
        size_kb_bits: None,
        format: None,
        fp: None,
        primary: false,
        download_url: None,
        pickle_scan_result: None,
        virus_scan_result: None,
    });
    h.versions.push(file);
    let versions = model_versions(&h, &delivery());
    let name = build_download_file_name(&h, &versions[0], &versions[0].files[0]);
    assert_eq!(name, "My Model_v1.0 release.safetensors");
}

#[test]
fn names_tags_and_category_of_a_model() {
    let mut h = hit(1);
    h.username = Some(" ".to_string());
    h.category = Some("character".to_string());
    h.tags = vec![Some("anime".to_string()), None, Some("girl".to_string())];
    assert_eq!(creator_name(&h), None);
    assert_eq!(category_name(&h).as_deref(), Some("character"));
    assert_eq!(tag_names(&h), vec!["anime".to_string(), "girl".to_string()]);
    h.username = Some("maker".to_string());
    assert_eq!(creator_name(&h).as_deref(), Some("maker"));
}

#[test]
fn liked_query_matches_lower_cased_name() {
    let mut h = hit(1);
    h.name = Some("Flux Portrait".to_string());
    assert!(liked_model_matches_query(&h, ""));
    assert!(liked_model_matches_query(&h, "flux"));
    assert!(!liked_model_matches_query(&h, "anime"));
    assert!(!liked_model_matches_query(&h, "Flux"));
}

#[test]
fn type_filter_rejects_models_without_a_type() {
    let h = hit(1);
    assert!(liked_model_matches_type(&h, &Vec::new()));
    assert!(!liked_model_matches_type(&h, &vec![named("LORA")]));
    let mut typed = hit(2);
    typed.model_type = Some("Checkpoint".to_string());
    assert!(!liked_model_matches_type(&typed, &vec![named("LORA")]));
}

#[test]
fn sorts_by_rating_and_newest_and_keeps_relevance() {
    let mut items = Vec::new();
    for (id, rating, count) in [(1u64, -1.0f64, 5u64), (2, 4.5, 1), (3, 4.5, 9), (4, 0.0, 0)] {
        let mut m = hit(id);
        m.metrics = Some(ParsedModelMetrics { rating_bits: rating.to_bits(), rating_count: count, ..metrics(0) });
        items.push(m);
    }
    sort_liked_models(&mut items, &ModelSearchSortBy::HighestRated);
    assert_eq!(items.iter().map(|item| item.id).collect::<Vec<_>>(), vec![3, 2, 4, 1]);

    let mut dated = Vec::new();
    for (id, at) in [(1u64, Some(-50i64)), (2, None), (3, Some(100)), (4, Some(-50))] {
        let mut m = hit(id);
        m.last_version_at_unix = at;
        dated.push(m);
    }
    sort_liked_models(&mut dated, &ModelSearchSortBy::Newest);
    assert_eq!(dated.iter().map(|item| item.id).collect::<Vec<_>>(), vec![3, 2, 1, 4]);

    sort_liked_models(&mut dated, &ModelSearchSortBy::Relevance);
    assert_eq!(dated.iter().map(|item| item.id).collect::<Vec<_>>(), vec![3, 2, 1, 4]);
}

#[test]
fn covers_around_the_selected_version() {
    let mut h = hit(1);
    for id in 1..=6u64 {
        let mut v = version(id, Some("v"));
        let mut img = image(&format!("https://cdn.example/{id}.png"), Some(id));
        if id == 3 {
            img.width = Some(640);
            img.height = Some(480);
        }
        if id != 5 {
            v.images.push(img);
        }
        h.versions.push(v);
    }
    let versions = model_versions(&h, &delivery());
    let jobs = selected_model_neighbor_cover_urls(&versions, 3, 2, &vec![2], &vec![6]);
    assert_eq!(
        jobs,
        vec![
            (3, Some("https://cdn.example/3.png".to_string()), Some((640, 480))),
            (5, None, None),
        ]
    );
    let wide = selected_model_neighbor_cover_urls(&versions, 99, 1, &Vec::new(), &Vec::new());
    assert_eq!(wide.iter().map(|j| j.0).collect::<Vec<_>>(), vec![5]);

    let chosen = selected_model_version_with_cover_url(1, &versions, 2, &Vec::new());
    assert_eq!(chosen, Some((1, (3, Some("https://cdn.example/3.png".to_string()), Some((640, 480))))));
    assert_eq!(selected_model_version_with_cover_url(1, &versions, 2, &vec![3]), None);
    assert_eq!(selected_model_version_with_cover_url(1, &Vec::new(), 0, &Vec::new()), None);

    assert_eq!(image_model_detail_selected_cover(&versions, 0, &Vec::new()).map(|j| j.0), Some(1));
    let around = image_model_detail_neighbor_cover_urls(&versions, 0, 1, &Vec::new(), &Vec::new());
    assert_eq!(around.iter().map(|j| j.0).collect::<Vec<_>>(), vec![2]);
}
