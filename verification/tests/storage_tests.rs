use civitai_tui::catalog::{keep_first_by_id, normalize_loaded_tags, normalize_tags_for_saving};
use civitai_tui::downloads::{paused_sessions_in_history, resume_probe_paths, DownloadHistoryEntry, DownloadHistoryStatus};
use civitai_tui::paths::{model_download_dir, resolve_image_download_target_dir, resolve_model_download_target_dir};
use std::path::Path;
use std::time::{Duration, SystemTime};

#[test]
fn loads_bookmarks_without_duplicates() {
    let bookmarks = vec![(1u64, "One"), (1u64, "Duplicate"), (2u64, "Two")];

    let kept = keep_first_by_id(bookmarks);

    assert_eq!(kept.iter().map(|item| item.0).collect::<Vec<_>>(), vec![1, 2]);
    assert_eq!(kept[0].1, "One");
}

#[test]
fn normalizes_image_tag_catalog_before_saving() {
    let tags = vec![
        "  Flux ".to_string(),
        "flux".to_string(),
        "".to_string(),
        "Anime".to_string(),
    ];

    let parsed = normalize_tags_for_saving(&tags);

    assert_eq!(parsed, vec!["Anime".to_string(), "Flux".to_string()]);
}

#[test]
fn loaded_tags_keep_first_spelling_sorted() {
    let tags = vec![
        "Portrait".to_string(),
        "  ".to_string(),
        "anime".to_string(),
        "ANIME".to_string(),
    ];
    assert_eq!(normalize_loaded_tags(&tags), vec!["anime".to_string(), "Portrait".to_string()]);
}

fn entry(filename: &str, path: Option<&str>, downloaded: u64, created: SystemTime, model_id: u64, version_id: u64) -> DownloadHistoryEntry {
    DownloadHistoryEntry {
        model_id,
        version_id,
        filename: filename.to_string(),
        model_name: "A".to_string(),
        file_path: path.map(|p| p.to_string()),
        downloaded_bytes: downloaded,
        total_bytes: 100,
        status: DownloadHistoryStatus::Paused,
        created_at: created,
    }
}

#[test]
fn collects_only_resumable_paused_sessions() {
    let file_path = "/tmp/civitai-cli-storage/partial.safetensors";
    let now = SystemTime::UNIX_EPOCH + Duration::from_secs(1_700_000_000);
    let history = vec![
        entry("a.safetensors", Some(file_path), 50, now, 1, 10),
        entry("a-new.safetensors", Some(file_path), 75, now + Duration::from_secs(1), 1, 10),
        entry("b.safetensors", None, 25, now, 2, 20),
    ];

    let sessions = paused_sessions_in_history(&history, &[true, true, false]);

    assert_eq!(sessions.len(), 1);
    assert_eq!(sessions[0].model_id, 1);
    assert_eq!(sessions[0].downloaded_bytes, 75);
}

#[test]
fn paused_sessions_skip_missing_finished_and_empty_files() {
    let now = SystemTime::UNIX_EPOCH;
    let mut done = entry("done", Some("/tmp/done"), 100, now, 3, 30);
    done.total_bytes = 100;
    let history = vec![
        entry("gone", Some("/tmp/gone"), 10, now, 1, 10),
        entry("empty", Some("/tmp/empty"), 0, now, 2, 20),
        done,
        entry("ok", Some("/tmp/ok"), 10, now, 4, 40),
    ];
    let sessions = paused_sessions_in_history(&history, &[false, true, true, true]);
    assert_eq!(sessions.len(), 1);
    assert_eq!(sessions[0].filename, "ok");
}

#[test]
fn lowercases_base_model_folder_for_model_downloads() {
    let root = Path::new("/tmp").join("civitai-cli-model-path-test");

    let path = model_download_dir(&root.to_string_lossy(), Some("LORA"), Some("Flux.1 Dev"));

    assert_eq!(Path::new(&path), root.join("models").join("loras").join("flux.1 dev"));
}

#[test]
fn unknown_base_model_gets_its_own_folder() {
    let path = model_download_dir("/data", None, None);
    assert!(path.starts_with("/data/models/"));
    assert!(path.ends_with("/unknown-base"));
}

#[test]
fn download_folders_go_under_comfyui_or_the_working_folder() {
    let comfy = resolve_model_download_target_dir(Some("/opt/comfy"), "/home/u", Some("Checkpoint"), Some("SDXL 1.0"));
    assert_eq!(Path::new(&comfy), Path::new("/opt/comfy/models/checkpoints/sdxl 1.0"));
    let local = resolve_model_download_target_dir(None, "/home/u", Some("LORA"), None);
    assert_eq!(Path::new(&local), Path::new("/home/u/downloads/models/loras/unknown-base"));

    assert_eq!(resolve_image_download_target_dir(Some("/opt/comfy"), "/home/u"), "/opt/comfy/input/civitai-cli");
    assert_eq!(resolve_image_download_target_dir(None, "/home/u"), "/home/u/downloads/images");
}

#[test]
fn only_resumable_entries_are_probed_on_disk() {
    let paused = entry("part.bin", Some("/tmp/part.bin"), 10, SystemTime::now(), 1, 2);
    let done = DownloadHistoryEntry { status: DownloadHistoryStatus::Completed, ..paused.clone() };
    let no_bytes = DownloadHistoryEntry { downloaded_bytes: 0, ..paused.clone() };
    let probes = resume_probe_paths(&[paused, done, no_bytes]);
    assert_eq!(probes, vec![Some("/tmp/part.bin".to_string()), None, None]);
}
