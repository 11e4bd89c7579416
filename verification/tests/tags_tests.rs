use civitai_tui::image::ImageHit;
use civitai_tui::tags::{
    accept_image_tag_suggestion, image_tag_suggestions, merge_image_tag_catalog_from_hits,
};

fn catalog() -> Vec<String> {
    ["anime", "Animal", "landscape", "portrait", "semi-anime", "Zoo"]
        .iter()
        .map(|s| s.to_string())
        .collect()
}

fn hit_with_tags(tags: &[&str]) -> ImageHit {
    ImageHit {
        hide_meta: None,
        prompt: None,
        metadata: None,
        generation: None,
        metadata_resources: Vec::new(),
        base_model: None,
        username: None,
        thumbnail_url: None,
        original_media_url: None,
        stats: None,
        tag_names: tags.iter().map(|t| Some(t.to_string())).collect(),
    }
}

#[test]
fn suggestions_start_with_the_typed_tag_then_contain_it() {
    let offers = image_tag_suggestions(&catalog(), "portrait, ani", 5);
    assert_eq!(offers, vec!["anime".to_string(), "Animal".to_string(), "semi-anime".to_string()]);
}

#[test]
fn suggestions_skip_chosen_tags_and_respect_the_limit() {
    assert_eq!(image_tag_suggestions(&catalog(), "Anime, ", 2), vec!["Animal".to_string(), "landscape".to_string()]);
    assert!(image_tag_suggestions(&catalog(), "ani", 0).is_empty());
    assert_eq!(image_tag_suggestions(&catalog(), "ANI", 1), vec!["anime".to_string()]);
}

#[test]
fn accepting_replaces_the_typed_tag() {
    let mut query = "portrait, lands".to_string();
    assert!(accept_image_tag_suggestion(&mut query, &catalog()));
    assert_eq!(query, "portrait, landscape");

    let mut query = "portrait,".to_string();
    assert!(accept_image_tag_suggestion(&mut query, &catalog()));
    assert_eq!(query, "portrait, anime");

    let mut query = "xyz".to_string();
    assert!(!accept_image_tag_suggestion(&mut query, &catalog()));
    assert_eq!(query, "xyz");
}

#[test]
fn merging_adds_new_tags_and_sorts() {
    let mut tags = vec!["portrait".to_string(), "Anime".to_string()];
    let changed = merge_image_tag_catalog_from_hits(
        &mut tags,
        &[hit_with_tags(&[" anime ", "Zebra"]), hit_with_tags(&["city", "zebra", "  "])],
    );
    assert!(changed);
    assert_eq!(tags, vec!["Anime".to_string(), "city".to_string(), "portrait".to_string(), "Zebra".to_string()]);

    let unchanged = merge_image_tag_catalog_from_hits(&mut tags, &[hit_with_tags(&["CITY"])]);
    assert!(!unchanged);
    assert_eq!(tags.len(), 4);
}

#[test]
fn merged_catalog_stays_sorted_and_unique() {
    let mut tags = vec!["anime".to_string(), "City".to_string(), "portrait".to_string()];
    merge_image_tag_catalog_from_hits(
        &mut tags,
        &[hit_with_tags(&["Beach", "city", "anime", "ZOO"]), hit_with_tags(&["beach", "Apple"])],
    );
    assert_eq!(tags, vec!["anime", "Apple", "Beach", "City", "portrait", "ZOO"]);
    let keys: Vec<String> = tags.iter().map(|t| t.to_lowercase()).collect();
    for w in keys.windows(2) {
        assert!(w[0] < w[1]);
    }
}
