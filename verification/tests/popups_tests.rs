use civitai_tui::app::App;
use civitai_tui::forms::{AppMode, ImageSearchFormSection, MainTab, SearchFormSection};
use civitai_tui::popups::{
    image_quick_search_lines, image_search_boxes, model_quick_search_lines, model_search_boxes, option_marks,
};
use civitai_tui::screen::{tab_titles, Overlay, ScreenPopup};
use civitai_tui::searchform::{ImageSearchFormState, SearchFormState};

#[test]
fn quick_search_popup_summarises_the_filters() {
    let mut fm = SearchFormState::new(vec!["Highest Rated", "Newest"], 0, vec!["LORA"], vec!["SDXL"]);
    fm.query = "flux".to_string();
    fm.tag_query = "anime, , detailed".to_string();
    fm.selected_types.push(0);
    fm.selected_period = 2;
    let lines = model_quick_search_lines(&fm, Some("Highest Rated"));
    assert_eq!(lines[0], " Query: flux█");
    assert_eq!(lines[1], "");
    assert_eq!(lines[2], " Current: sort=Highest Rated | types=1 | tags=2 | bases=0 | period=Month ");
    assert_eq!(lines[3], " [Type] Query | [Enter] Apply | [Esc] Cancel | [f] Open Builder ");
    fm.selected_period = 9;
    assert_eq!(
        model_quick_search_lines(&fm, None)[2],
        " Current: sort=Relevance | types=1 | tags=2 | bases=0 | period=AllTime "
    );

    let form = ImageSearchFormState::new(vec!["Newest"], vec!["image"], "image".to_string(), vec!["SDXL"], vec!["Square"]);
    assert_eq!(
        image_quick_search_lines(&form, Some("Newest"))[2],
        " Current: sort=Newest | types=1 | tags=0 | bases=0 | ratios=0 | period=AllTime "
    );
}

#[test]
fn builder_boxes_show_focus_and_what_is_set() {
    let mut fm = SearchFormState::new(vec!["Newest"], 0, vec!["LORA"], vec!["SDXL"]);
    fm.focused_section = SearchFormSection::Tag;
    fm.tag_query = " x ".to_string();
    let boxes = model_search_boxes(&fm);
    let view: Vec<(&str, bool, bool)> = boxes.iter().map(|b| (b.title, b.focused, b.configured)).collect();
    assert_eq!(
        view,
        vec![
            (" Query ", false, false),
            (" Sort ", false, true),
            (" Period ", false, true),
            (" Type ", false, false),
            (" Tags ", true, true),
            (" Base Model ", false, false),
        ]
    );
    let mut form = ImageSearchFormState::new(vec!["Newest"], vec!["image"], "image".to_string(), vec!["SDXL"], vec!["Square"]);
    form.focused_section = ImageSearchFormSection::AspectRatio;
    let boxes = image_search_boxes(&form);
    assert_eq!(boxes.len(), 7);
    assert_eq!(boxes[3].title, " Media Type ");
    assert!(boxes[3].configured);
    assert!(boxes[6].focused && !boxes[6].configured);
    assert_eq!(option_marks(3, 1, &vec![0, 2]), vec![(false, true), (true, false), (false, true)]);
}

#[test]
fn screen_plan_follows_tab_mode_and_windows() {
    assert_eq!(tab_titles()[3], " Image Bookmarks (4) ");
    let mut app = App::new(Vec::new(), Vec::new());
    app.active_tab = MainTab::SavedModels;
    app.mode = AppMode::BookmarkPathPrompt;
    app.show_help_modal = true;
    app.show_exit_confirm_modal = true;
    let plan = app.screen_plan(true);
    assert_eq!(plan.tab_index, 1);
    assert!(!plan.name_rolling);
    assert!(plan.model_sidebar);
    assert_eq!(plan.popup, ScreenPopup::PathPrompt);
    assert_eq!(plan.overlays, vec![Overlay::Help, Overlay::ExitConfirm]);

    app.active_tab = MainTab::Images;
    app.mode = AppMode::Browsing;
    let plan = app.screen_plan(true);
    assert_eq!(plan.tab_index, 2);
    assert!(plan.name_rolling && !plan.model_sidebar);
    assert_eq!(plan.popup, ScreenPopup::NoPopup);
}

#[test]
fn the_loop_waits_longer_while_typing() {
    assert_eq!(civitai_tui::screen::poll_timeout_ms(AppMode::SearchForm), 200);
    assert_eq!(civitai_tui::screen::poll_timeout_ms(AppMode::BookmarkPathPrompt), 200);
    assert_eq!(civitai_tui::screen::poll_timeout_ms(AppMode::Browsing), 50);
    let stages = civitai_tui::screen::key_stages();
    assert_eq!(stages.len(), 5);
    assert_eq!(stages[0], civitai_tui::screen::KeyStage::Window);
    assert_eq!(stages[4], civitai_tui::screen::KeyStage::TabKeys);
}
