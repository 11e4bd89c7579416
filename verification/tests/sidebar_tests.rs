use civitai_tui::models::{model_versions, MediaDelivery, ModelFileRecord, ModelHit, ModelVersionRecord};
use civitai_tui::sidebar::{
    active_file, file_list_lines, sidebar_description, sidebar_detail_rows, sidebar_header_lines, version_items,
    versions_title, SidebarFigures,
};

fn delivery() -> MediaDelivery {
    MediaDelivery { base_url: "https://media.example/".to_string(), namespace: "/ns/".to_string() }
}

fn file(name: &str, primary: bool, fp: Option<&str>) -> ModelFileRecord {
    ModelFileRecord {
        id: None,
        name: Some(name.to_string()),
        file_type: None,
        size_kb_bits: None,
        format: Some("SafeTensor".to_string()),
        fp: fp.map(str::to_string),
        primary,
        download_url: None,
        pickle_scan_result: None,
        virus_scan_result: None,
    }
}

fn version(id: u64, name: &str, base: Option<&str>, files: Vec<ModelFileRecord>) -> ModelVersionRecord {
    ModelVersionRecord {
        id,
        name: Some(name.to_string()),
        base_model: base.map(str::to_string),
        created_at: None,
        updated_at: None,
        early_access_time_frame: None,
        description: None,
        stats: None,
        files,
        images: Vec::new(),
    }
}

fn hit() -> ModelHit {
    ModelHit {
        id: 42,
        name: Some("Juggernaut".to_string()),
        username: Some("kandoo".to_string()),
        category: Some("style".to_string()),
        tags: Vec::new(),
        model_type: Some("Checkpoint".to_string()),
        metrics: None,
        version: None,
        versions: vec![
            version(7, "v9", Some("SDXL 1.0"), vec![file("a.safetensors", false, Some("fp16")), file("b.safetensors", true, None)]),
            version(8, "v8", None, Vec::new()),
        ],
        images: Vec::new(),
        last_version_at_unix: None,
        primary_model_version_id: None,
        model_page_url: "https://civitai.com/models/42".to_string(),
        default_download_file_name: String::new(),
        nsfw: Some(true),
        description: None,
    }
}

#[test]
fn header_names_the_model_and_the_shown_version() {
    let m = hit();
    let vs = model_versions(&m, &delivery());
    let lines = sidebar_header_lines(&m, Some(&vs[0]), 200);
    assert_eq!(lines[0], "Juggernaut");
    assert_eq!(lines[1], "Checkpoint | by kandoo | NSFW");
    assert_eq!(lines[2], "https://civitai.com/models/42?modelVersionId=7");
    assert_eq!(lines[3], "Selected: v9 | SDXL 1.0");
    let narrow = sidebar_header_lines(&m, None, 7);
    assert_eq!(narrow, vec!["Jugge", "Check", "https"]);
}

#[test]
fn version_strip_marks_the_shown_one() {
    let vs = model_versions(&hit(), &delivery());
    let items = version_items(&vs, 5);
    assert_eq!(items, vec![("v9".to_string(), false), ("v8".to_string(), true)]);
    assert_eq!(versions_title(1, 2), " Versions (2 / 2)");
    assert_eq!(versions_title(0, 0), " Versions (0 / 0)");
}

#[test]
fn file_list_marks_picked_and_primary_files() {
    let vs = model_versions(&hit(), &delivery());
    let sizes = vec![Some("2.0 GB".to_string()), None];
    let lines = file_list_lines(&vs[0], 0, &sizes, 100, 10);
    assert_eq!(lines, vec!["> a.safetensors | SafeTensor/fp16 | 2.0 GB", "* b.safetensors | SafeTensor"]);
    let short = file_list_lines(&vs[0], 1, &sizes, 100, 3);
    assert_eq!(short, vec!["  a.safetensors | SafeTensor/fp16 | 2.0 GB"]);
    assert_eq!(file_list_lines(&vs[1], 0, &Vec::new(), 100, 10), vec!["No files available for this version."]);
    assert_eq!(active_file(&vs[0].files, 1), Some(1));
    assert_eq!(active_file(&vs[0].files, 9), Some(1));
    assert_eq!(active_file(&vs[1].files, 0), None);
}

#[test]
fn metadata_rows_fall_back_in_order() {
    let m = hit();
    let vs = model_versions(&m, &delivery());
    let figures = SidebarFigures {
        downloads: "  1.2K".to_string(),
        likes: "   30".to_string(),
        comments: "    2".to_string(),
        rating: "4.8".to_string(),
        size: None,
    };
    let rows = sidebar_detail_rows(&m, Some(&vs[1]), Some("SD 1.5".to_string()), None, &figures);
    assert_eq!(rows[0], "Type       Checkpoint");
    assert_eq!(rows[1], "Base       SD 1.5");
    assert_eq!(rows[4], "Comments       2");
    assert_eq!(rows[6], "Format     N/A");
    assert_eq!(rows[7], "Size       N/A");
    let rows = sidebar_detail_rows(&m, Some(&vs[0]), None, Some("SafeTensor".to_string()), &figures);
    assert_eq!(rows[1], "Base       SDXL 1.0");
    assert_eq!(rows[6], "Format     SafeTensor");
}

#[test]
fn description_falls_back_to_category() {
    let m = hit();
    assert_eq!(sidebar_description(&m, None), "Category: style");
    let own = ModelHit { description: Some("<p>hi</p>".to_string()), ..hit() };
    assert_eq!(sidebar_description(&own, None), "<p>hi</p>");
    let bare = ModelHit { category: None, ..hit() };
    assert_eq!(sidebar_description(&bare, None), "No description available.");
}
