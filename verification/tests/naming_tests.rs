use civitai_tui::forms::{created_at_window_at, liked_model_matches_period, period_to_created_at, SearchPeriod};
use civitai_tui::paths::{
    build_model_download_file_name, normalize_base_model_component, normalize_model_type_folder,
    normalize_path_component, sanitize_path_component,
};
use std::time::{SystemTime, UNIX_EPOCH};

#[test]
fn builds_model_file_name_from_model_and_version_names() {
    let name = build_model_download_file_name(
        Some("My Model"),
        Some("v1.0 release"),
        "weights.safetensors",
        "fallback.bin",
    );

    assert_eq!(name, "My Model_v1.0 release.safetensors");
}

#[test]
fn creates_expected_created_at_window() {
    let range = period_to_created_at("Week").expect("week range");
    let (start, end) = range.split_once('-').expect("range");
    let start = start.parse::<u64>().expect("start");
    let end = end.parse::<u64>().expect("end");

    assert_eq!(end.saturating_sub(start), 7 * 24 * 60 * 60);
}

#[test]
fn filters_liked_models_by_recency() {
    let now = SystemTime::now()
        .duration_since(UNIX_EPOCH)
        .expect("time")
        .as_secs() as i64;
    let fresh = Some(now - 60);
    let stale = Some(now - (10 * 24 * 60 * 60));

    assert!(liked_model_matches_period(fresh, Some(SearchPeriod::Day)));
    assert!(!liked_model_matches_period(stale, Some(SearchPeriod::Day)));
}

#[test]
fn created_at_window_clamps_and_rejects_unknown_periods() {
    assert_eq!(created_at_window_at("Day", 100_000).as_deref(), Some("13600-100000"));
    assert_eq!(created_at_window_at("Year", 5).as_deref(), Some("0-5"));
    assert_eq!(created_at_window_at("AllTime", 5), None);
    assert_eq!(created_at_window_at("day", 5), None);
    assert_eq!(period_to_created_at("AllTime"), None);
}

#[test]
fn periods_and_labels() {
    let all = SearchPeriod::all();
    assert_eq!(all.len(), 5);
    assert_eq!(all[0], SearchPeriod::AllTime);
    assert_eq!(all[4].label(), "Day");
    assert!(liked_model_matches_period(None, Some(SearchPeriod::Day)));
    assert!(liked_model_matches_period(Some(0), Some(SearchPeriod::AllTime)));
    assert!(liked_model_matches_period(Some(0), None));
}

#[test]
fn sanitizes_and_normalizes_path_components() {
    assert_eq!(sanitize_path_component("  a/b:c*?.  "), "a_b_c__");
    assert_eq!(sanitize_path_component(" ..hidden.. "), "hidden");
    assert_eq!(normalize_path_component(" ... "), "unknown");
    assert_eq!(normalize_base_model_component("Flux.1 Dev"), "flux.1 dev");
    assert_eq!(normalize_model_type_folder(Some("LORA")), "loras");
    assert_eq!(normalize_model_type_folder(Some("Checkpoint")), "checkpoints");
    assert_eq!(normalize_model_type_folder(Some("TextualInversion")), "embeddings");
    assert_eq!(normalize_model_type_folder(Some("Poses")), "poses");
    assert_eq!(normalize_model_type_folder(None), "uncategorized");
}

#[test]
fn file_name_falls_back_and_keeps_extension() {
    assert_eq!(
        build_model_download_file_name(None, None, "  ", "fallback.bin"),
        "fallback.bin"
    );
    assert_eq!(
        build_model_download_file_name(Some("a/b"), None, "x.pt", "f"),
        "a_b_unknown-version.pt"
    );
    assert_eq!(
        build_model_download_file_name(Some("m"), Some("v"), "noext", "f"),
        "m_v"
    );
}
