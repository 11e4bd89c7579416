use civitai_tui::app::App;
use civitai_tui::forms::{AppMode, ImageSearchFormSection, SearchFormMode, SearchTemplateKind};
use civitai_tui::imageform::{ImageOptionKeys, ImageSearchWork};
use civitai_tui::keys::KeyCode;
use civitai_tui::searchform::{FormKey, ImageSearchFormState};
use civitai_tui::templates::{SearchTemplateStore, SearchTemplates};

fn image_form() -> ImageSearchFormState<&'static str, &'static str, &'static str, &'static str> {
    ImageSearchFormState::new(
        vec!["Newest", "Most Reactions"],
        vec!["Image", "Video"],
        "image".to_string(),
        vec!["SDXL", "Flux.1 D"],
        vec!["Square", "Portrait"],
    )
}

fn keys() -> ImageOptionKeys {
    ImageOptionKeys {
        media_types: vec!["image".to_string(), "video".to_string()],
        base_models: vec!["SDXL 1.0".to_string(), "Flux.1 D".to_string()],
        aspect_ratios: vec!["Square".to_string(), "Portrait".to_string()],
    }
}

#[test]
fn image_form_takes_typed_text_in_query_and_tag_boxes() {
    let mut form = image_form();
    let k = keys();
    assert_eq!(form.handle_key(KeyCode::Char('c'), &k), FormKey::Handled);
    assert_eq!(form.handle_key(KeyCode::Char('a'), &k), FormKey::Handled);
    assert_eq!(form.handle_key(KeyCode::Backspace, &k), FormKey::Handled);
    assert_eq!(form.query, "c");
    assert_eq!(form.handle_key(KeyCode::Char('f'), &k), FormKey::Handled);
    assert_eq!(form.query, "cf");
    assert_eq!(form.handle_key(KeyCode::Tab, &k), FormKey::Ignored);
}

#[test]
fn image_builder_cycles_through_its_seven_boxes() {
    let mut form = image_form();
    let k = keys();
    form.begin_builder();
    assert_eq!(form.focused_section, ImageSearchFormSection::Sort);
    let mut seen = Vec::new();
    for _ in 0..7 {
        form.handle_key(KeyCode::Down, &k);
        seen.push(form.focused_section);
    }
    assert_eq!(
        seen,
        vec![
            ImageSearchFormSection::Period,
            ImageSearchFormSection::MediaType,
            ImageSearchFormSection::Tag,
            ImageSearchFormSection::BaseModel,
            ImageSearchFormSection::AspectRatio,
            ImageSearchFormSection::Query,
            ImageSearchFormSection::Sort,
        ]
    );
    form.handle_key(KeyCode::Up, &k);
    form.handle_key(KeyCode::Up, &k);
    assert_eq!(form.focused_section, ImageSearchFormSection::AspectRatio);
}

#[test]
fn space_toggles_the_option_under_the_cursor() {
    let mut form = image_form();
    let k = keys();
    form.begin_builder();
    form.focused_section = ImageSearchFormSection::MediaType;
    assert_eq!(form.selected_media_types, vec!["image".to_string()]);
    form.handle_key(KeyCode::Right, &k);
    form.handle_key(KeyCode::Char(' '), &k);
    assert_eq!(form.selected_media_types, vec!["image".to_string(), "video".to_string()]);
    form.handle_key(KeyCode::Left, &k);
    form.handle_key(KeyCode::Char(' '), &k);
    assert_eq!(form.selected_media_types, vec!["video".to_string()]);

    form.focused_section = ImageSearchFormSection::BaseModel;
    form.handle_key(KeyCode::Char(' '), &k);
    assert_eq!(form.selected_base_models, vec!["SDXL 1.0".to_string()]);
    form.focused_section = ImageSearchFormSection::AspectRatio;
    form.handle_key(KeyCode::Left, &k);
    form.handle_key(KeyCode::Char(' '), &k);
    assert_eq!(form.selected_aspect_ratios, vec!["Portrait".to_string()]);
}

#[test]
fn image_search_keys_run_the_search_or_complete_tags() {
    let mut app = App::new(Vec::new(), Vec::new());
    app.mode = AppMode::SearchImages;
    let mut templates: SearchTemplates<u8, u8> =
        SearchTemplates::new(SearchTemplateStore { model_templates: Vec::new(), image_templates: Vec::new() });
    let mut form = image_form();
    let k = keys();
    let catalog = vec!["portrait".to_string(), "landscape".to_string()];
    form.begin_builder();
    form.focused_section = ImageSearchFormSection::Tag;
    form.tag_query = "por".to_string();

    let r = app.handle_image_search_key(&mut form, &mut templates, &catalog, &k, KeyCode::Right);
    assert_eq!(r, (FormKey::CompleteTag, ImageSearchWork::Nothing));
    assert_eq!(form.tag_query, "portrait");
    assert_eq!(app.status, "Accepted image tag suggestion.");

    let r = app.handle_image_search_key(&mut form, &mut templates, &catalog, &k, KeyCode::Char('T'));
    assert_eq!(r.0, FormKey::Handled);
    assert_eq!(form.tag_query, "portraitT");

    form.focused_section = ImageSearchFormSection::Sort;
    let r = app.handle_image_search_key(&mut form, &mut templates, &catalog, &k, KeyCode::Char('T'));
    assert_eq!(r, (FormKey::Templates, ImageSearchWork::Nothing));
    assert!(templates.search_template_kind == SearchTemplateKind::Image);
    assert_eq!(app.status, "Image search templates opened");

    let r = app.handle_image_search_key(&mut form, &mut templates, &catalog, &k, KeyCode::Esc);
    assert_eq!(r, (FormKey::Escape, ImageSearchWork::RunImageSearch));
    assert!(app.mode == AppMode::Browsing);
    assert!(form.mode == SearchFormMode::Builder);
}

#[test]
fn chosen_values_stay_sorted_whatever_the_order_they_are_chosen_in() {
    let mut form = image_form();
    let k = keys();
    form.begin_builder();
    form.focused_section = ImageSearchFormSection::BaseModel;
    form.handle_key(KeyCode::Right, &k);
    form.handle_key(KeyCode::Char(' '), &k);
    form.handle_key(KeyCode::Left, &k);
    form.handle_key(KeyCode::Char(' '), &k);
    assert_eq!(form.selected_base_models, vec!["Flux.1 D".to_string(), "SDXL 1.0".to_string()]);
    form.focused_section = ImageSearchFormSection::MediaType;
    form.handle_key(KeyCode::Char(' '), &k);
    form.handle_key(KeyCode::Right, &k);
    form.handle_key(KeyCode::Char(' '), &k);
    form.handle_key(KeyCode::Left, &k);
    form.handle_key(KeyCode::Char(' '), &k);
    assert_eq!(form.selected_media_types, vec!["image".to_string(), "video".to_string()]);
}
