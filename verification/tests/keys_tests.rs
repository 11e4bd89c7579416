use civitai_tui::app::App;
use civitai_tui::downloads::{
    DownloadHistoryEntry, DownloadHistoryStatus, DownloadKey, InterruptedDownloadSession,
};
use civitai_tui::forms::{AppMode, MainTab, SearchTemplateKind};
use civitai_tui::keys::{
    KeyCode, KeyPress, ModalAction, ModalKeyOutcome, ModalWork, ModelDetailAction, TabSwitch,
};
use civitai_tui::status::StatusHistoryFilter;
use civitai_tui::templates::{ModelSearchTemplate, SearchTemplateStore, SearchTemplates};
use std::time::{Duration, SystemTime};

fn press(code: KeyCode) -> KeyPress {
    KeyPress { code, shift: false, control: false }
}

fn templates() -> SearchTemplates<u32, u32> {
    SearchTemplates::new(SearchTemplateStore {
        model_templates: vec![
            ModelSearchTemplate { name: "anime".to_string(), state: 1 },
            ModelSearchTemplate { name: "flux".to_string(), state: 2 },
        ],
        image_templates: Vec::new(),
    })
}

fn session(model_id: u64, version_id: u64, path: Option<&str>) -> InterruptedDownloadSession {
    InterruptedDownloadSession {
        model_id,
        version_id,
        filename: format!("m{model_id}.safetensors"),
        model_name: format!("Model {model_id}"),
        file_path: path.map(|p| p.to_string()),
        downloaded_bytes: 10,
        total_bytes: 100,
        created_at: SystemTime::UNIX_EPOCH + Duration::from_secs(1_700_000_000),
    }
}

#[test]
fn tab_switch_is_blocked_during_search_mode() {
    let mut app = App::new(Vec::new(), Vec::new());
    app.mode = AppMode::SearchForm;

    let result = app.handle_tab_switch_key(false, KeyCode::Char('3'));

    assert!(result.is_none());
    assert!(app.active_tab == MainTab::Models);
}

#[test]
fn tab_switch_is_blocked_while_editing_settings() {
    let mut app = App::new(Vec::new(), Vec::new());
    app.active_tab = MainTab::Settings;
    app.settings_form.editing = true;

    let result = app.handle_tab_switch_key(false, KeyCode::Char('2'));

    assert!(result.is_none());
    assert!(app.active_tab == MainTab::Settings);
}

#[test]
fn tab_keys_switch_and_wrap() {
    let mut app = App::new(Vec::new(), Vec::new());
    let r = app.handle_tab_switch_key(false, KeyCode::Char('5'));
    assert_eq!(r, Some(TabSwitch { from: MainTab::Models, to: MainTab::Downloads }));
    app.handle_tab_switch_key(false, KeyCode::Tab);
    assert!(app.active_tab == MainTab::Settings);
    app.handle_tab_switch_key(false, KeyCode::Tab);
    assert!(app.active_tab == MainTab::Models);
    app.handle_tab_switch_key(false, KeyCode::BackTab);
    assert!(app.active_tab == MainTab::Settings);
    assert!(app.handle_tab_switch_key(true, KeyCode::Char('1')).is_none());
    assert!(app.handle_tab_switch_key(false, KeyCode::Char('x')).is_none());
}

#[test]
fn no_window_leaves_keys_alone() {
    let mut app = App::new(Vec::new(), Vec::new());
    let mut t = templates();
    assert!(app.handle_modal_key(&mut t, press(KeyCode::Char('q'))).is_none());
}

#[test]
fn status_windows_take_keys_first() {
    let mut app = App::new(Vec::new(), Vec::new());
    let mut t = templates();
    app.show_status_modal = true;
    app.show_help_modal = true;
    let r = app.handle_modal_key(&mut t, press(KeyCode::Char('x'))).expect("consumed");
    assert_eq!(r.0, ModalKeyOutcome::Consumed);
    assert!(app.show_status_modal);
    app.handle_modal_key(&mut t, press(KeyCode::Esc));
    assert!(!app.show_status_modal);
    assert!(app.show_help_modal);
    app.handle_modal_key(&mut t, press(KeyCode::Char('?')));
    assert!(!app.show_help_modal);
}

#[test]
fn history_window_filters_and_copies() {
    let mut app = App::new(Vec::new(), Vec::new());
    let mut t = templates();
    app.set_warn("Careful");
    app.show_status_history_modal = true;
    app.handle_modal_key(&mut t, press(KeyCode::Char('2')));
    assert_eq!(app.status_history_filter, StatusHistoryFilter::Warn);
    match app.handle_modal_key(&mut t, press(KeyCode::Char('y'))) {
        Some((ModalKeyOutcome::Consumed, ModalWork::CopyStatusMessage(text))) => {
            assert!(text.contains("Careful"));
            assert!(text.contains("Level: WARN") || text.contains("WARN"));
        }
        _ => panic!("expected a copy"),
    }
    app.handle_modal_key(&mut t, press(KeyCode::Char('M')));
    assert!(!app.show_status_history_modal);
}

#[test]
fn prompt_window_scrolls_without_going_below_zero() {
    let mut app = App::new(Vec::new(), Vec::new());
    let mut t = templates();
    app.show_image_prompt_modal = true;
    app.handle_modal_key(&mut t, press(KeyCode::Up));
    assert_eq!(app.image_prompt_scroll, 0);
    app.handle_modal_key(&mut t, press(KeyCode::Char('j')));
    app.handle_modal_key(&mut t, press(KeyCode::Down));
    assert_eq!(app.image_prompt_scroll, 2);
    app.handle_modal_key(&mut t, press(KeyCode::Enter));
    assert!(!app.show_image_prompt_modal);
}

#[test]
fn detail_window_hands_model_actions_back() {
    let app = App::new(Vec::new(), Vec::new());
    let mut shown = app;
    shown.show_image_model_detail_modal = true;
    let up = KeyPress { code: KeyCode::Up, shift: true, control: false };
    assert_eq!(
        shown.modal_key_action(false, false, up),
        Some(ModalAction::ModelDetail(ModelDetailAction::PreviousFile))
    );
    assert_eq!(
        shown.modal_key_action(false, false, press(KeyCode::Up)),
        Some(ModalAction::Ignore)
    );
    let mut t = templates();
    match shown.handle_modal_key(&mut t, press(KeyCode::Esc)) {
        Some((_, ModalWork::ModelDetail(ModelDetailAction::Close))) => {}
        _ => panic!("expected close"),
    }
    assert!(!shown.show_image_model_detail_modal);
}

#[test]
fn template_window_types_names_and_deletes() {
    let mut app = App::new(Vec::new(), Vec::new());
    let mut t = templates();
    t.open_search_template_modal(SearchTemplateKind::Model);
    app.handle_modal_key(&mut t, press(KeyCode::Char('s')));
    assert!(t.search_template_name_editing);
    assert_eq!(app.status, "Type a template name and press Enter to save");
    app.handle_modal_key(&mut t, press(KeyCode::Char('a')));
    app.handle_modal_key(&mut t, press(KeyCode::Char('b')));
    app.handle_modal_key(&mut t, press(KeyCode::Backspace));
    assert_eq!(t.search_template_name_draft, "a");
    match app.handle_modal_key(&mut t, press(KeyCode::Enter)) {
        Some((_, ModalWork::SaveTemplate)) => {}
        _ => panic!("expected save"),
    }
    app.handle_modal_key(&mut t, press(KeyCode::Esc));
    assert!(!t.search_template_name_editing);
    assert_eq!(app.status, "Template save cancelled");

    app.handle_modal_key(&mut t, press(KeyCode::Char('j')));
    assert_eq!(t.selected_search_template_index, 1);
    match app.handle_modal_key(&mut t, press(KeyCode::Char('d'))) {
        Some((_, ModalWork::PersistTemplates)) => {}
        _ => panic!("expected persist"),
    }
    assert_eq!(t.model_search_templates.len(), 1);
    assert_eq!(app.status, "Deleted template \"flux\"");
    match app.handle_modal_key(&mut t, press(KeyCode::Char('l'))) {
        Some((_, ModalWork::LoadTemplate(0))) => {}
        _ => panic!("expected load"),
    }
    assert!(!t.show_search_template_modal);
}

#[test]
fn resume_prompt_deletes_sessions_and_their_history() {
    let entry = DownloadHistoryEntry {
        model_id: 1,
        version_id: 10,
        filename: "m1.safetensors".to_string(),
        model_name: "Model 1".to_string(),
        file_path: Some("/tmp/m1.part".to_string()),
        downloaded_bytes: 10,
        total_bytes: 100,
        status: DownloadHistoryStatus::Completed,
        created_at: SystemTime::UNIX_EPOCH,
    };
    let mut app = App::new(vec![entry], vec![session(1, 10, Some("/tmp/m1.part"))]);
    assert!(app.show_resume_download_modal);
    let mut t = templates();
    match app.handle_modal_key(&mut t, press(KeyCode::Char('d'))) {
        Some((ModalKeyOutcome::Consumed, ModalWork::DeleteSessionFiles(files))) => {
            assert_eq!(files.len(), 1);
            assert_eq!(files[0].file_path.as_deref(), Some("/tmp/m1.part"));
        }
        _ => panic!("expected deletion"),
    }
    assert!(app.download_history.is_empty());
    assert!(app.interrupted_download_sessions.is_empty());
    assert!(!app.show_resume_download_modal);
    assert_eq!(app.status, "Interrupted downloads removed.");
}

#[test]
fn resume_prompt_hands_sessions_back() {
    let mut app = App::new(Vec::new(), vec![session(2, 20, None)]);
    let mut t = templates();
    match app.handle_modal_key(&mut t, press(KeyCode::Char('Y'))) {
        Some((_, ModalWork::ResumeSessions(ss))) => assert_eq!(ss[0].model_id, 2),
        _ => panic!("expected resume"),
    }
    assert!(app.interrupted_download_sessions.is_empty());
    assert_eq!(app.status, "Interrupted downloads resumed.");
}

#[test]
fn exit_prompt_pauses_active_downloads_and_quits() {
    let mut app = App::new(Vec::new(), Vec::new());
    let key = DownloadKey::new(3, 30, "m3.safetensors");
    app.on_download_started(key.clone(), "Model 3".to_string(), 100, Some("/tmp/m3.part".to_string()));
    app.on_download_progress(&key, 40, 100);
    app.begin_exit_confirm_modal();
    let mut t = templates();
    match app.handle_modal_key(&mut t, press(KeyCode::Char('y'))) {
        Some((ModalKeyOutcome::Break, ModalWork::PauseAndQuit(keys))) => {
            assert_eq!(keys, vec![key.clone()]);
        }
        _ => panic!("expected pause and quit"),
    }
    assert_eq!(app.interrupted_download_sessions.len(), 1);
    assert_eq!(app.interrupted_download_sessions[0].downloaded_bytes, 40);
    assert!(matches!(app.download_history.last().map(|e| &e.status), Some(DownloadHistoryStatus::Paused)));
    assert!(!app.show_exit_confirm_modal);
}

#[test]
fn file_failures_and_save_outcomes_are_remembered() {
    let mut app = App::new(Vec::new(), Vec::new());
    app.note_file_delete_failure("denied");
    assert_eq!(app.last_error.as_deref(), Some("Failed to delete file: denied"));
    assert!(app.show_status_modal);
    app.record_save_outcome(None);
    assert_eq!(app.last_error, None);
}
