use civitai_tui::app::App;
use civitai_tui::forms::{MainTab, SearchTemplateKind};
use civitai_tui::keys::{KeyCode, KeyPress};
use civitai_tui::tabkeys::{
    is_ctrl_c_exit, modifier_key_action_for, tab_key_action_for, ModifierAction, TabAction,
};
use civitai_tui::templates::{SearchTemplateStore, SearchTemplates};

fn templates() -> SearchTemplates<u8, u8> {
    SearchTemplates::new(SearchTemplateStore { model_templates: Vec::new(), image_templates: Vec::new() })
}

fn press(code: KeyCode, shift: bool, control: bool) -> KeyPress {
    KeyPress { code, shift, control }
}

#[test]
fn leaving_asks_first_while_downloading() {
    assert_eq!(tab_key_action_for(MainTab::Models, KeyCode::Char('q'), false, false), TabAction::Exit);
    assert_eq!(tab_key_action_for(MainTab::Models, KeyCode::Esc, false, true), TabAction::ConfirmExit);
    assert_eq!(tab_key_action_for(MainTab::Images, KeyCode::Char('c'), true, false), TabAction::Exit);
    assert_eq!(tab_key_action_for(MainTab::Images, KeyCode::Char('c'), false, false), TabAction::CopyAction);
    assert_eq!(tab_key_action_for(MainTab::Images, KeyCode::Esc, true, false), TabAction::Unhandled);
    assert!(is_ctrl_c_exit(press(KeyCode::Char('c'), false, true)));
    assert!(!is_ctrl_c_exit(press(KeyCode::Char('c'), false, false)));
}

#[test]
fn keys_depend_on_the_tab() {
    assert_eq!(tab_key_action_for(MainTab::Models, KeyCode::Char(']'), false, false), TabAction::NextVersion);
    assert_eq!(tab_key_action_for(MainTab::Images, KeyCode::Char(']'), false, false), TabAction::Nothing);
    assert_eq!(tab_key_action_for(MainTab::Downloads, KeyCode::Char('J'), false, false), TabAction::NextHistory);
    assert_eq!(tab_key_action_for(MainTab::SavedModels, KeyCode::Char('K'), false, false), TabAction::PreviousFile);
    assert_eq!(tab_key_action_for(MainTab::SavedImages, KeyCode::Char('m'), false, false), TabAction::OpenPrompt);
    assert_eq!(tab_key_action_for(MainTab::Settings, KeyCode::Char('m'), false, false), TabAction::OpenStatus);
    assert_eq!(
        tab_key_action_for(MainTab::Images, KeyCode::Char('T'), false, false),
        TabAction::OpenTemplates(SearchTemplateKind::Image)
    );
    assert_eq!(tab_key_action_for(MainTab::Models, KeyCode::Char('e'), false, false), TabAction::Nothing);
    assert_eq!(tab_key_action_for(MainTab::SavedModels, KeyCode::Char('i'), false, false), TabAction::ImportBookmarks);
    assert_eq!(tab_key_action_for(MainTab::Models, KeyCode::Tab, false, false), TabAction::Unhandled);
}

#[test]
fn tab_keys_open_windows_held_by_the_app() {
    let mut app = App::new(Vec::new(), Vec::new());
    let mut t = templates();
    app.active_tab = MainTab::Images;
    app.image_prompt_scroll = 7;
    assert_eq!(app.handle_tab_key(&mut t, KeyCode::Char('m'), false), TabAction::OpenPrompt);
    assert!(app.show_image_prompt_modal);
    assert_eq!(app.image_prompt_scroll, 0);
    assert_eq!(app.status, "Prompt viewer opened");

    assert_eq!(app.handle_tab_key(&mut t, KeyCode::Char('M'), false), TabAction::OpenStatusHistory);
    assert!(app.show_status_history_modal);
    assert_eq!(app.status, "Status history opened");

    assert_eq!(app.handle_tab_key(&mut t, KeyCode::Char('?'), false), TabAction::Help);
    assert!(app.show_help_modal);

    app.active_tab = MainTab::Models;
    assert_eq!(
        app.handle_tab_key(&mut t, KeyCode::Char('T'), false),
        TabAction::OpenTemplates(SearchTemplateKind::Model)
    );
    assert!(t.show_search_template_modal);

    assert_eq!(app.handle_tab_key(&mut t, KeyCode::Char('d'), false), TabAction::DownloadOrDelete);
}

#[test]
fn modifier_keys_page_and_step() {
    assert_eq!(
        modifier_key_action_for(MainTab::Models, press(KeyCode::Char('d'), false, true)),
        Some(ModifierAction::PageDown)
    );
    assert_eq!(
        modifier_key_action_for(MainTab::SavedModels, press(KeyCode::Down, true, false)),
        Some(ModifierAction::NextFile)
    );
    assert_eq!(
        modifier_key_action_for(MainTab::Images, press(KeyCode::Up, true, false)),
        Some(ModifierAction::PreviousImageModel)
    );
    assert_eq!(modifier_key_action_for(MainTab::Images, press(KeyCode::Char('d'), false, true)), None);
    assert_eq!(modifier_key_action_for(MainTab::Downloads, press(KeyCode::Up, true, false)), None);
}
