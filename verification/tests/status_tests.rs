use civitai_tui::app::App;
use civitai_tui::status::{
    is_status_stale, unix_seconds_from, unix_seconds_of, StatusEvent, StatusHistoryFilter, StatusLevel,
};
use std::time::{Duration, SystemTime};

#[test]
fn marks_old_status_as_stale() {
    let old = SystemTime::now() - Duration::from_secs(4);
    assert!(is_status_stale(old));
}

#[test]
fn keeps_recent_status_as_fresh() {
    let recent = SystemTime::now() - Duration::from_secs(2);
    assert!(!is_status_stale(recent));
}

#[test]
fn status_history_records_new_snapshots_without_duplicates() {
    let mut app = App::new(Vec::new(), Vec::new());

    app.set_status("Searching models");
    app.set_status("Searching models");
    app.set_error("Search failed", "network");

    assert_eq!(app.status_history[0].summary, "Search failed");
    assert_eq!(app.status_history[0].detail.as_deref(), Some("network"));
    assert_eq!(app.status_history[1].summary, "Searching models");
}

#[test]
fn status_history_selection_clamps_to_bounds() {
    let mut app = App::new(Vec::new(), Vec::new());
    app.status_history = vec![StatusEvent::info("Newest"), StatusEvent::warn("Older")];

    app.select_next_status_history();
    app.select_next_status_history();
    assert_eq!(app.selected_status_history_index, 1);

    app.select_previous_status_history();
    assert_eq!(app.selected_status_history_index, 0);

    app.selected_status_history_index = 99;
    app.clamp_selected_status_history_index();
    assert_eq!(app.selected_status_history_index, 1);
}

#[test]
fn level_and_filter_labels() {
    assert_eq!(StatusLevel::Info.label(), "INFO");
    assert_eq!(StatusLevel::Warn.label(), "WARN");
    assert_eq!(StatusLevel::Debug.label(), "DEBUG");
    assert_eq!(StatusLevel::Error.label(), "ERROR");
    assert_eq!(StatusHistoryFilter::All.label(), "All");
    assert_eq!(StatusHistoryFilter::Error.label(), "Error");
    assert!(StatusHistoryFilter::All.matches(StatusLevel::Debug));
    assert!(StatusHistoryFilter::Warn.matches(StatusLevel::Warn));
    assert!(!StatusHistoryFilter::Warn.matches(StatusLevel::Error));
}

#[test]
fn constructors_set_level_detail_and_modal() {
    let e = StatusEvent::error_detail("Boom", "disk full");
    assert_eq!(e.level, StatusLevel::Error);
    assert_eq!(e.detail.as_deref(), Some("disk full"));
    assert!(e.show_modal);
    let i = StatusEvent::info_detail("Loaded", "3 items");
    assert_eq!(i.level, StatusLevel::Info);
    assert!(!i.show_modal);
    let d = StatusEvent::debug("trace");
    assert_eq!(d.level, StatusLevel::Debug);
    assert!(d.detail.is_none());
}

#[test]
fn full_text_lists_detail_after_blank_line() {
    let e = StatusEvent::error_detail("Search failed", "network");
    assert_eq!(
        e.full_text_at("2024-01-02 03:04:05"),
        "Time: 2024-01-02 03:04:05\nLevel: ERROR\nSummary: Search failed\n\nDetail:\nnetwork"
    );
    let blank = StatusEvent::info_detail("Ready", "  \n ");
    assert_eq!(
        blank.full_text_at("t"),
        "Time: t\nLevel: INFO\nSummary: Ready"
    );
}

#[test]
fn history_preview_flattens_detail_lines() {
    let e = StatusEvent::error_detail("Search failed", "line one\nline two");
    assert_eq!(
        e.history_preview_at("03:04:05"),
        "03:04:05 [ERROR] Search failed | line one line two"
    );
    let w = StatusEvent::warn("Careful");
    assert_eq!(w.history_preview_at("10:00:00"), "10:00:00 [WARN] Careful");
}

#[test]
fn formatted_times_have_expected_shape() {
    let t: i64 = 1_700_000_000;
    let clock = civitai_tui::status::format_status_time_only(t);
    assert_eq!(clock.len(), 8);
    assert_eq!(clock.as_bytes()[2], b':');
    let stamp = civitai_tui::status::format_status_timestamp(t);
    assert_eq!(stamp.len(), 19);
    assert_eq!(stamp.as_bytes()[4], b'-');
    assert_eq!(
        civitai_tui::status::format_time_in_offset(1_700_000_000, 0, "[hour]:[minute]:[second]"),
        "22:13:20"
    );
    assert_eq!(
        civitai_tui::status::format_time_in_offset(
            1_700_000_000,
            3600,
            "[year]-[month]-[day] [hour]:[minute]:[second]"
        ),
        "2023-11-14 23:13:20"
    );
}

#[test]
fn error_status_remembers_detail_and_filter_resets_selection() {
    let mut app = App::new(Vec::new(), Vec::new());
    app.set_error("Download failed", "timeout");
    assert_eq!(app.last_error.as_deref(), Some("timeout"));
    assert!(app.show_status_modal);
    app.set_status("Ready");
    assert!(app.last_error.is_none());
    app.selected_status_history_index = 2;
    app.set_status_history_filter(StatusHistoryFilter::Error);
    assert_eq!(app.selected_status_history_index, 0);
    assert_eq!(app.filtered_status_history().len(), 1);
    assert_eq!(
        app.selected_status_history_entry().map(|e| e.summary.clone()),
        Some("Download failed".to_string())
    );
    app.select_last_status_history();
    assert_eq!(app.selected_status_history_index, 0);
}

#[test]
fn sync_records_remembered_error() {
    let mut app = App::new(Vec::new(), Vec::new());
    app.status = "Save failed".to_string();
    app.last_error = Some("permission denied".to_string());
    app.sync_status_history_from_fields();
    assert_eq!(app.status_history[0].level, StatusLevel::Error);
    assert_eq!(app.status_history[0].detail.as_deref(), Some("permission denied"));
    let before = app.status_history.len();
    app.sync_status_history_from_fields();
    assert_eq!(app.status_history.len(), before);
}

#[test]
fn history_keeps_at_most_two_hundred_entries() {
    let mut app = App::new(Vec::new(), Vec::new());
    for i in 0..250u32 {
        app.set_status(&format!("message {i}"));
    }
    assert_eq!(app.status_history.len(), 200);
    assert_eq!(app.status_history[0].summary, "message 249");
}

#[test]
fn unix_seconds_round_down_and_never_overflow() {
    assert_eq!(unix_seconds_from(Ok((5, 0))), Some(5));
    assert_eq!(unix_seconds_from(Ok((5, 999_999_999))), Some(5));
    assert_eq!(unix_seconds_from(Err((1, 0))), Some(-1));
    assert_eq!(unix_seconds_from(Err((1, 500_000_000))), Some(-2));
    assert_eq!(unix_seconds_from(Ok((u64::MAX, 0))), None);
    assert_eq!(unix_seconds_from(Err((1u64 << 63, 0))), Some(i64::MIN));
    assert_eq!(unix_seconds_from(Err((1u64 << 63, 1))), None);
    assert_eq!(unix_seconds_of(SystemTime::UNIX_EPOCH), Some(0));
    assert_eq!(unix_seconds_of(SystemTime::UNIX_EPOCH + Duration::from_millis(2500)), Some(2));
    assert_eq!(unix_seconds_of(SystemTime::UNIX_EPOCH - Duration::from_millis(1500)), Some(-2));
}

#[test]
fn far_times_are_stamped_without_panicking() {
    let e = StatusEvent { recorded_unix: None, ..StatusEvent::info("later") };
    assert_eq!(e.full_text(), "Time: \nLevel: INFO\nSummary: later");
    assert_eq!(e.history_preview(), " [INFO] later");
    let far = StatusEvent { recorded_unix: Some(i64::MAX), ..StatusEvent::info("far") };
    assert!(far.full_text().ends_with("Summary: far"));
}

#[test]
fn stamps_show_the_recorded_moment() {
    let e = StatusEvent { recorded_unix: Some(1_700_000_000), ..StatusEvent::info("saved") };
    let stamp = civitai_tui::status::format_status_timestamp(1_700_000_000);
    assert_eq!(e.full_text(), format!("Time: {stamp}\nLevel: INFO\nSummary: saved"));
    let clock = civitai_tui::status::format_status_time_only(1_700_000_000);
    assert_eq!(e.history_preview(), format!("{clock} [INFO] saved"));
    let fresh = StatusEvent::info("now");
    let now = unix_seconds_of(SystemTime::now()).unwrap();
    let recorded = fresh.recorded_unix.unwrap();
    assert!(recorded <= now && now - recorded <= 1);
}
