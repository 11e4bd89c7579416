use civitai_tui::app::App;
use civitai_tui::downloads::{DownloadHistoryEntry, DownloadHistoryStatus, DownloadKey, DownloadState};
use civitai_tui::downloadtab::FileDeleteOutcome;
use std::time::SystemTime;

fn entry(model_id: u64, version_id: u64, name: &str, path: Option<&str>, downloaded: u64, total: u64) -> DownloadHistoryEntry {
    DownloadHistoryEntry {
        model_id,
        version_id,
        filename: format!("{name}.safetensors"),
        model_name: name.to_string(),
        file_path: path.map(str::to_string),
        downloaded_bytes: downloaded,
        total_bytes: total,
        status: DownloadHistoryStatus::Completed,
        created_at: SystemTime::UNIX_EPOCH,
    }
}

fn app_with(history: Vec<DownloadHistoryEntry>) -> App {
    App::new(history, Vec::new())
}

#[test]
fn download_tab_selection_walks_history_or_running_downloads() {
    let mut app = app_with(vec![entry(1, 10, "One", None, 0, 0), entry(2, 20, "Two", None, 0, 0), entry(3, 30, "Three", None, 0, 0)]);
    app.step_download_selection(true);
    assert_eq!(app.selected_history_index, 1);
    app.step_download_selection(false);
    app.step_download_selection(false);
    assert_eq!(app.selected_history_index, 0);

    app.on_download_started(DownloadKey::new(1, 10, "a"), "A".to_string(), 100, None);
    app.on_download_started(DownloadKey::new(2, 20, "b"), "B".to_string(), 100, None);
    app.step_download_selection(true);
    app.step_download_selection(true);
    assert_eq!(app.selected_download_index, 1);
    assert_eq!(app.selected_history_index, 0);
}

#[test]
fn settings_focus_stays_among_its_fields() {
    let mut app = app_with(Vec::new());
    app.step_settings_field(false);
    assert_eq!(app.settings_form.focused_field, 0);
    for _ in 0..20 {
        app.step_settings_field(true);
    }
    assert_eq!(app.settings_form.focused_field, 12);
}

#[test]
fn deleting_history_cancels_its_running_download() {
    let mut app = app_with(vec![entry(1, 10, "One", None, 0, 0), entry(2, 20, "Two", None, 0, 0)]);
    assert_eq!(app.delete_selected_history(), None);
    assert_eq!(app.status, "Deleted history for Two");
    assert_eq!(app.download_history.len(), 1);

    app.on_download_started(DownloadKey::new(1, 10, "One.safetensors"), "One".to_string(), 100, None);
    let key = app.delete_selected_history().expect("running download");
    assert_eq!(key.model_id, 1);
    assert_eq!(app.status, "Deleted history for One and cancelled active download");
    assert_eq!(app.delete_selected_history(), None);
    assert_eq!(app.status, "No download history selected");
}

#[test]
fn deleting_history_with_its_file_reports_the_outcome() {
    let mut app = app_with(vec![entry(2, 20, "Two", Some("/tmp/two.part"), 5, 10)]);
    let (removed, key) = app.take_selected_history_for_deletion().expect("selected entry");
    assert_eq!(removed.model_name, "Two");
    assert!(key.is_none());
    app.note_history_file_deletion(&removed.model_name, FileDeleteOutcome::Failed("denied".to_string()), true);
    assert_eq!(app.status, "Failed to delete file for Two: denied (and cancelled active download)");
    assert_eq!(app.last_error.as_deref(), Some("denied"));
    assert!(app.show_status_modal);
    app.note_history_file_deletion("Two", FileDeleteOutcome::Deleted, false);
    assert_eq!(app.status, "Deleted history and file for Two");
    assert_eq!(app.last_error, None);
    app.note_history_file_deletion("Two", FileDeleteOutcome::NoPath, false);
    assert_eq!(app.status, "No file path recorded for Two");
    assert!(app.take_selected_history_for_deletion().is_none());
    assert_eq!(app.status, "No download history selected");
}

#[test]
fn pause_key_reports_the_selected_download_state() {
    let mut app = app_with(Vec::new());
    assert!(app.selected_download_to_toggle().is_none());
    app.on_download_started(DownloadKey::new(4, 40, "d"), "D".to_string(), 100, None);
    let (key, state) = app.selected_download_to_toggle().expect("running download");
    assert_eq!(key.model_id, 4);
    assert_eq!(state, DownloadState::Running);
}

#[test]
fn resuming_history_checks_before_handing_it_back() {
    let mut done = app_with(vec![entry(1, 10, "One", Some("/"), 10, 10)]);
    assert!(done.resume_selected_history(true).is_none());
    assert_eq!(done.status, "Selected item already complete.");

    let mut no_path = app_with(vec![entry(1, 10, "One", None, 1, 10)]);
    assert!(no_path.resume_selected_history(true).is_none());
    assert_eq!(no_path.status, "Selected history has no file path.");

    let mut missing = app_with(vec![entry(1, 10, "One", Some("/no/such/dir/one.part"), 1, 10)]);
    assert!(missing.resume_selected_history(true).is_none());
    assert_eq!(missing.status, "Cannot resume: partial file not found.");
    assert_eq!(missing.last_error.as_deref(), Some("Missing partial file"));

    let mut idle = app_with(vec![entry(2, 20, "Two", Some("/"), 3, 10)]);
    assert!(idle.resume_selected_history(false).is_none());
    assert_eq!(idle.download_history.len(), 1);

    let mut app = app_with(vec![entry(2, 20, "Two", Some("/"), 3, 10), entry(2, 20, "Two", Some("/"), 3, 10)]);
    let request = app.resume_selected_history(true).expect("resumed");
    assert_eq!((request.model_id, request.version_id, request.downloaded_bytes, request.total_bytes), (2, 20, 3, 10));
    assert_eq!(app.status, "Resuming Two (v20)...");
    assert!(app.download_history.is_empty());

    let mut running = app_with(vec![entry(5, 50, "Five", Some("/"), 3, 10)]);
    running.on_download_started(DownloadKey::new(5, 50, "Five.safetensors"), "Five".to_string(), 10, None);
    assert!(running.resume_selected_history(true).is_none());
    assert_eq!(running.status, "Download already active for selected model.");
}
