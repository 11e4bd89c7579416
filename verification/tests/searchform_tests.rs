use civitai_tui::app::App;
use civitai_tui::forms::{AppMode, ImageSearchFormSection, SearchFormMode, SearchFormSection, SearchTemplateKind};
use civitai_tui::keys::KeyCode;
use civitai_tui::searchform::{FormKey, ImageSearchFormState, SearchFormState, SearchWork};
use civitai_tui::templates::{SearchTemplateStore, SearchTemplates};

fn model_form() -> SearchFormState<&'static str, &'static str, &'static str> {
    SearchFormState::new(
        vec!["Highest Rated", "Relevance", "Newest"],
        1,
        vec!["Checkpoint", "LORA", "VAE"],
        vec!["SDXL", "Flux.1 D"],
    )
}

#[test]
fn switching_to_builder_moves_focus_off_query() {
    let mut form = ImageSearchFormState::new(
        vec!["Newest"],
        vec!["image", "video"],
        "image".to_string(),
        vec!["SDXL"],
        vec!["Square"],
    );

    form.begin_builder();

    assert_eq!(form.mode, SearchFormMode::Builder);
    assert_eq!(form.focused_section, ImageSearchFormSection::Sort);
}

#[test]
fn builds_model_search_options_from_form_state() {
    let mut form = model_form();
    form.query = " flux ".to_string();
    form.tag_query = "anime, detailed, ".to_string();
    form.selected_types.push(1);
    form.selected_base_models.push(1);
    form.selected_period = 2;

    let options = form.build_options();

    assert_eq!(options.query.as_deref(), Some("flux"));
    assert_eq!(options.tags, vec!["anime".to_string(), "detailed".to_string()]);
    assert_eq!(options.type_positions, vec![1]);
    assert_eq!(options.base_positions, vec![1]);
    assert!(options.created_at.is_some());
    assert_eq!(options.limit, 50);
    assert_eq!(options.sort_position, 1);
}

#[test]
fn typing_edits_the_focused_box() {
    let mut form = model_form();
    assert_eq!(form.handle_key(KeyCode::Char('a')), FormKey::Handled);
    assert_eq!(form.handle_key(KeyCode::Char('T')), FormKey::Handled);
    assert_eq!(form.query, "aT");
    form.handle_key(KeyCode::Backspace);
    assert_eq!(form.query, "a");
    assert_eq!(form.handle_key(KeyCode::Down), FormKey::Handled);
    assert_eq!(form.focused_section, SearchFormSection::Query);
}

#[test]
fn builder_keys_move_focus_cursors_and_toggle() {
    let mut form = model_form();
    form.handle_key(KeyCode::Char('f'));
    assert_eq!(form.query, "f");
    form.begin_builder();
    assert_eq!(form.mode, SearchFormMode::Builder);
    assert_eq!(form.focused_section, SearchFormSection::Sort);
    form.handle_key(KeyCode::Right);
    form.handle_key(KeyCode::Right);
    assert_eq!(form.selected_sort, 0);
    form.handle_key(KeyCode::Left);
    assert_eq!(form.selected_sort, 2);
    form.handle_key(KeyCode::Down);
    form.handle_key(KeyCode::Down);
    assert_eq!(form.focused_section, SearchFormSection::Type);
    form.handle_key(KeyCode::Right);
    form.handle_key(KeyCode::Char(' '));
    assert_eq!(form.selected_types, vec![1]);
    form.handle_key(KeyCode::Char(' '));
    assert!(form.selected_types.is_empty());
    form.handle_key(KeyCode::Up);
    form.handle_key(KeyCode::Up);
    form.handle_key(KeyCode::Up);
    assert_eq!(form.focused_section, SearchFormSection::Query);
    assert_eq!(form.handle_key(KeyCode::Tab), FormKey::Ignored);
}

#[test]
fn model_search_keys_leave_the_form_or_open_templates() {
    let mut app = App::new(Vec::new(), Vec::new());
    app.mode = AppMode::SearchForm;
    let mut templates: SearchTemplates<u8, u8> =
        SearchTemplates::new(SearchTemplateStore { model_templates: Vec::new(), image_templates: Vec::new() });
    let mut form = model_form();
    form.begin_builder();
    let r = app.handle_model_search_key(&mut form, &mut templates, KeyCode::Char('T'));
    assert_eq!(r, (FormKey::Templates, SearchWork::Nothing));
    assert!(templates.show_search_template_modal);
    assert!(templates.search_template_kind == SearchTemplateKind::Model);
    assert_eq!(app.status, "Model search templates opened");
    let r = app.handle_model_search_key(&mut form, &mut templates, KeyCode::Enter);
    assert_eq!(r, (FormKey::Enter, SearchWork::RunModelSearch));
    assert!(app.mode == AppMode::Browsing);
    app.note_model_search_started("flux");
    assert_eq!(app.status, "Searching for models: 'flux'...");
}

#[test]
fn liked_filter_keys_apply_the_filter() {
    let mut app = App::new(Vec::new(), Vec::new());
    let mut form = model_form();
    assert_eq!(app.handle_liked_search_key(&mut form, KeyCode::Esc), (FormKey::Escape, SearchWork::ApplyLikedQuery));
    assert_eq!(app.handle_liked_search_key(&mut form, KeyCode::Char('x')), (FormKey::Handled, SearchWork::Nothing));
}

#[test]
fn builds_image_search_options_with_linked_model_version() {
    let mut form = ImageSearchFormState::new(
        vec!["Newest", "Most Reactions"],
        vec!["image", "video"],
        "image".to_string(),
        vec!["SDXL 1.0", "Flux.1 D"],
        vec!["Square", "Landscape", "Portrait"],
    );
    form.query = "portrait".to_string();
    form.tag_query = "studio, cinematic".to_string();
    form.selected_base_models.push("Flux.1 D".to_string());
    form.selected_aspect_ratios.push("Landscape".to_string());
    form.set_linked_model_version(Some(42));

    let options = form.build_options();

    assert_eq!(options.query.as_deref(), Some("portrait"));
    assert_eq!(options.tags, vec!["studio".to_string(), "cinematic".to_string()]);
    assert_eq!(options.base_models, vec!["Flux.1 D".to_string()]);
    assert_eq!(options.aspect_ratios, vec!["Landscape".to_string()]);
    assert_eq!(
        options.extras,
        vec![("modelVersionId".to_string(), "42".to_string())]
    );
}

#[test]
fn image_search_options_without_link_have_no_extras() {
    let form = ImageSearchFormState::new(
        vec!["Newest", "Most Reactions"],
        vec!["image", "video"],
        "image".to_string(),
        vec!["SDXL 1.0"],
        vec!["Square"],
    );
    let options = form.build_options();
    assert_eq!(options.query, None);
    assert!(options.tags.is_empty());
    assert_eq!(options.media_types, vec!["image".to_string()]);
    assert!(options.extras.is_empty());
    assert_eq!(options.limit, 50);
    assert_eq!(options.sort_position, 0);
    assert_eq!(options.created_at, None);
}

#[test]
fn chosen_positions_stay_ascending() {
    let mut form = SearchFormState::new(vec!["Newest"], 0, vec!["Checkpoint", "LORA", "VAE"], vec!["SDXL"]);
    form.begin_builder();
    form.focused_section = SearchFormSection::Type;
    form.type_cursor = 2;
    form.handle_key(KeyCode::Char(' '));
    form.type_cursor = 0;
    form.handle_key(KeyCode::Char(' '));
    form.type_cursor = 1;
    form.handle_key(KeyCode::Char(' '));
    assert_eq!(form.selected_types, vec![0, 1, 2]);
    form.type_cursor = 1;
    form.handle_key(KeyCode::Char(' '));
    assert_eq!(form.selected_types, vec![0, 2]);
}
