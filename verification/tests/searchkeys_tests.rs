use civitai_tui::app::App;
use civitai_tui::downloads::DownloadKey;
use civitai_tui::forms::{AppMode, ImageSearchFormSection, MainTab, SearchFormMode, SearchFormSection};
use civitai_tui::searchform::{ImageSearchFormState, SearchFormState};
use civitai_tui::searchkeys::{CAction, SearchOpening};

type ModelForm = SearchFormState<&'static str, &'static str, &'static str>;
type ImageForm = ImageSearchFormState<&'static str, &'static str, &'static str, &'static str>;

fn forms() -> (ModelForm, ImageForm, ModelForm) {
    let model = SearchFormState::new(vec!["Highest Rated", "Newest"], 0, vec!["LORA"], vec!["SDXL"]);
    let image = ImageSearchFormState::new(vec!["Newest"], vec!["image"], "image".to_string(), vec!["SDXL"], vec!["Square"]);
    let liked = SearchFormState::new(vec!["Highest Rated", "Newest"], 0, vec!["LORA"], vec!["SDXL"]);
    (model, image, liked)
}

fn app_on(tab: MainTab) -> App {
    let mut app = App::new(Vec::new(), Vec::new());
    app.active_tab = tab;
    app
}

#[test]
fn quick_search_opens_the_tabs_search() {
    let (mut m, mut i, mut l) = forms();
    let mut app = app_on(MainTab::Models);
    m.mode = SearchFormMode::Builder;
    assert_eq!(app.handle_quick_search(&mut m, &mut i, &mut l), SearchOpening::Opened);
    assert_eq!(app.mode, AppMode::SearchForm);
    assert_eq!(m.mode, SearchFormMode::Quick);
    assert_eq!(app.status, "Quick search. Type query, Enter apply, Esc cancel.");

    let mut app = app_on(MainTab::Images);
    assert_eq!(app.handle_quick_search(&mut m, &mut i, &mut l), SearchOpening::Opened);
    assert_eq!(app.mode, AppMode::SearchImages);
    assert_eq!(app.status, "Quick image search. Type query, Enter apply, Esc cancel.");

    let mut app = app_on(MainTab::SavedModels);
    l.mode = SearchFormMode::Builder;
    assert_eq!(app.handle_quick_search(&mut m, &mut i, &mut l), SearchOpening::Opened);
    assert_eq!(app.mode, AppMode::SearchSavedModels);
    assert_eq!(l.mode, SearchFormMode::Quick);
    assert_eq!(app.status, "Filter bookmarks. Enter apply, Esc cancel");

    let mut app = app_on(MainTab::SavedImages);
    assert_eq!(app.handle_quick_search(&mut m, &mut i, &mut l), SearchOpening::SavedImagesFilter);
    let mut app = app_on(MainTab::Downloads);
    assert_eq!(app.handle_quick_search(&mut m, &mut i, &mut l), SearchOpening::Nothing);
    assert_eq!(app.mode, AppMode::Browsing);
}

#[test]
fn filter_builder_opens_with_its_keys_shown() {
    let (mut m, mut i, mut l) = forms();
    let mut app = app_on(MainTab::Models);
    assert_eq!(app.handle_filter_builder(&mut m, &mut i, &mut l), SearchOpening::Opened);
    assert_eq!(m.mode, SearchFormMode::Builder);
    assert_eq!(m.focused_section, SearchFormSection::Sort);
    assert_eq!(app.status, "Search builder. Up/Down sections, Left/Right options, Space toggle, Enter apply.");

    let mut app = app_on(MainTab::Images);
    app.handle_filter_builder(&mut m, &mut i, &mut l);
    assert_eq!(i.focused_section, ImageSearchFormSection::Sort);
    assert_eq!(app.status, "Image filters. Up/Down sections, Left/Right options, Space toggle, Enter apply.");

    let mut app = app_on(MainTab::SavedModels);
    app.handle_filter_builder(&mut m, &mut i, &mut l);
    assert_eq!(app.mode, AppMode::SearchSavedModels);
    assert_eq!(l.mode, SearchFormMode::Builder);
    assert_eq!(app.status, "Bookmark filters. Up/Down sections, Left/Right options, Space toggle, Enter apply.");

    let mut app = app_on(MainTab::Settings);
    assert_eq!(app.handle_filter_builder(&mut m, &mut i, &mut l), SearchOpening::Nothing);
}

#[test]
fn c_key_acts_per_tab() {
    let mut app = app_on(MainTab::Models);
    assert!(matches!(app.handle_c_action(true, None, None), CAction::ClearSearchCache));
    assert_eq!(app.status, "Clearing cached search results...");
    let mut app = app_on(MainTab::Models);
    let before = app.status.clone();
    assert!(matches!(app.handle_c_action(false, None, None), CAction::Nothing));
    assert_eq!(app.status, before);

    let mut app = app_on(MainTab::Images);
    assert!(matches!(app.handle_c_action(true, Some((42, true)), None), CAction::CopyWorkflow(42)));
    assert!(matches!(app.handle_c_action(true, Some((42, false)), None), CAction::Nothing));
    assert_eq!(app.status, "No Comfy workflow metadata for current image");

    let mut app = app_on(MainTab::Downloads);
    let key = DownloadKey::new(1, 2, "model.safetensors");
    match app.handle_c_action(true, None, Some(key.clone())) {
        CAction::CancelDownload(k) => assert_eq!(k, key),
        _ => panic!("cancel expected"),
    }
    assert!(matches!(app.handle_c_action(false, None, Some(key)), CAction::Nothing));
}

#[test]
fn workflow_copies_are_reported() {
    let mut app = App::new(Vec::new(), Vec::new());
    app.note_workflow_copied(42, None);
    assert_eq!(app.status, "Copied Comfy workflow for image 42");
    app.note_workflow_copied(42, Some("no clipboard"));
    assert_eq!(app.status, "Failed to copy workflow");
    assert_eq!(app.last_error.as_deref(), Some("no clipboard"));
    assert!(app.show_status_modal);
}
