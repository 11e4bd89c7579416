use civitai_tui::image::{
    image_generation_info, image_negative_prompt, image_prompt, image_stats, image_tags,
    image_used_model_entries, image_used_models, comfy_workflow_node_count, GenerationData,
    GenerationMeta, GenerationResource, ImageHit, ParsedGenerationInfo, ParsedImageStats,
};
use civitai_tui::metadata::{
    collect_generation_info, count_workflow_nodes, extract_comfy_workflow,
    extract_negative_prompt_from_metadata, extract_negative_prompt_from_prompt_graph,
    extract_prompt_from_metadata, is_comfy_like, value_string, JsonValue,
};

fn text(s: &str) -> JsonValue {
    JsonValue::Text(s.to_string())
}

fn number(s: &str) -> JsonValue {
    JsonValue::Number(s.to_string())
}

fn object(entries: Vec<(&str, JsonValue)>) -> JsonValue {
    JsonValue::Object(entries.into_iter().map(|(k, v)| (k.to_string(), v)).collect())
}

fn empty_hit() -> ImageHit {
    ImageHit {
        hide_meta: Some(false),
        prompt: None,
        metadata: None,
        generation: None,
        metadata_resources: Vec::new(),
        base_model: None,
        username: None,
        thumbnail_url: None,
        original_media_url: None,
        stats: None,
        tag_names: Vec::new(),
    }
}

fn resource(name: &str, kind: &str, model_id: u64, version_id: Option<u64>) -> GenerationResource {
    GenerationResource {
        model_name: Some(name.to_string()),
        model_type: Some(kind.to_string()),
        model_id: Some(model_id),
        version_id,
        model_version_id: Some(5),
    }
}

#[test]
fn value_string_reads_text_numbers_and_flags() {
    assert_eq!(value_string(&text("Euler")).as_deref(), Some("Euler"));
    assert_eq!(value_string(&text("   ")), None);
    assert_eq!(value_string(&number("7.5")).as_deref(), Some("7.5"));
    assert_eq!(value_string(&JsonValue::Bool(true)).as_deref(), Some("true"));
    assert_eq!(value_string(&JsonValue::Null), None);
    assert_eq!(value_string(&JsonValue::Array(vec![text("x")])), None);
}

#[test]
fn prompt_comes_from_first_readable_key_then_nested_meta() {
    let meta = object(vec![("prompt", text("  ")), ("Prompt", text("castle"))]);
    assert_eq!(extract_prompt_from_metadata(&meta).as_deref(), Some("castle"));

    let nested = object(vec![("meta", object(vec![("positivePrompt", text("forest"))]))]);
    assert_eq!(extract_prompt_from_metadata(&nested).as_deref(), Some("forest"));

    let comfy = object(vec![("meta", text("{bad")), ("comfy", object(vec![("prompt", text("river"))]))]);
    assert_eq!(extract_prompt_from_metadata(&comfy).as_deref(), Some("river"));

    assert_eq!(extract_prompt_from_metadata(&text("prompt")), None);
}

#[test]
fn negative_prompt_falls_back_to_prompt_graph() {
    let graph = object(vec![(
        "7",
        object(vec![(
            "inputs",
            object(vec![("seed", number("1")), ("Text_Negative", text("blurry"))]),
        )]),
    )]);
    assert_eq!(extract_negative_prompt_from_prompt_graph(&graph).as_deref(), Some("blurry"));

    let meta = object(vec![("prompt", graph)]);
    assert_eq!(extract_negative_prompt_from_metadata(&meta).as_deref(), Some("blurry"));

    let direct = object(vec![("negPrompt", text("noise")), ("negativePrompt", text(""))]);
    assert_eq!(extract_negative_prompt_from_metadata(&direct).as_deref(), Some("noise"));

    let listed = JsonValue::Array(vec![JsonValue::Null, object(vec![("negative", number("3"))])]);
    assert_eq!(extract_negative_prompt_from_prompt_graph(&listed).as_deref(), Some("3"));
}

#[test]
fn comfy_workflows_are_recognised_and_counted() {
    let workflow = object(vec![
        ("links", JsonValue::Array(vec![])),
        ("nodes", JsonValue::Array(vec![object(vec![("id", number("1"))]), object(vec![])])),
    ]);
    assert!(is_comfy_like(&workflow));
    assert_eq!(count_workflow_nodes(&workflow), Some(2));

    let api = object(vec![
        ("3", object(vec![("class_type", text("KSampler"))])),
        ("4", object(vec![("inputs", object(vec![]))])),
        ("5", text("x")),
    ]);
    assert!(is_comfy_like(&api));
    assert_eq!(count_workflow_nodes(&api), Some(2));

    let list = JsonValue::Array(vec![object(vec![("type", text("Loader"))]), JsonValue::Null]);
    assert!(is_comfy_like(&list));
    assert_eq!(count_workflow_nodes(&list), Some(2));

    assert!(!is_comfy_like(&object(vec![("nodes", JsonValue::Array(vec![]))])));
    assert_eq!(count_workflow_nodes(&object(vec![("a", number("1"))])), None);
    assert_eq!(count_workflow_nodes(&text("x")), None);
}

#[test]
fn comfy_workflow_search_order() {
    let graph = object(vec![("1", object(vec![("class_type", text("A"))]))]);
    let meta = object(vec![
        ("prompt", graph),
        ("comfy", object(vec![("workflow", text("not a graph"))])),
    ]);
    let found = extract_comfy_workflow(&meta).expect("workflow");
    assert_eq!(count_workflow_nodes(found), Some(1));

    let nested = object(vec![("meta", object(vec![(
        "workflow",
        JsonValue::Array(vec![object(vec![("inputs", JsonValue::Null)])]),
    )]))]);
    assert_eq!(extract_comfy_workflow(&nested).and_then(count_workflow_nodes), Some(1));

    assert!(extract_comfy_workflow(&object(vec![("comfy", text("[broken"))])).is_none());
}

#[test]
fn generation_info_keeps_first_values_found() {
    let value = object(vec![
        ("CFGScale", number("7")),
        ("nested", JsonValue::Array(vec![object(vec![
            ("cfg", number("9")),
            ("sampler_name", text("euler")),
            ("noise_seed", number("42")),
        ])])),
        ("Steps", number("20")),
    ]);
    let mut info = ParsedGenerationInfo { cfg_scale: None, steps: Some("30".to_string()), sampler: None, seed: None };
    collect_generation_info(&value, &mut info);
    assert_eq!(info.cfg_scale.as_deref(), Some("7"));
    assert_eq!(info.steps.as_deref(), Some("30"));
    assert_eq!(info.sampler.as_deref(), Some("euler"));
    assert_eq!(info.seed.as_deref(), Some("42"));
}

#[test]
fn image_fields_from_recorded_generation_data() {
    let mut hit = empty_hit();
    hit.generation = Some(GenerationData {
        meta: Some(GenerationMeta {
            prompt: Some("sunrise".to_string()),
            negative_prompt: Some("noise".to_string()),
            cfg_scale: Some("7".to_string()),
            steps: Some("20".to_string()),
            sampler: Some("Euler".to_string()),
            seed: Some("42".to_string()),
            comfy_workflow: Some(object(vec![
                ("nodes", JsonValue::Array(vec![object(vec![("id", number("1")), ("type", text("KSampler"))])])),
                ("links", JsonValue::Array(vec![])),
            ])),
            comfy_prompt: None,
        }),
        resources: vec![resource("Foo", "LORA", 99, Some(77))],
    });

    assert_eq!(image_prompt(&hit).as_deref(), Some("sunrise"));
    assert_eq!(image_negative_prompt(&hit).as_deref(), Some("noise"));
    assert_eq!(comfy_workflow_node_count(&hit), Some(1));
    assert_eq!(image_used_models(&hit), vec!["LORA: Foo".to_string()]);

    let info = image_generation_info(&hit);
    assert_eq!(info.cfg_scale.as_deref(), Some("7"));
    assert_eq!(info.steps.as_deref(), Some("20"));
    assert_eq!(info.sampler.as_deref(), Some("Euler"));
    assert_eq!(info.seed.as_deref(), Some("42"));
}

#[test]
fn image_fields_fall_back_when_metadata_is_unreadable() {
    let mut hit = empty_hit();
    hit.prompt = Some("plain prompt".to_string());
    hit.metadata = Some(object(vec![("meta", text("{bad")), ("comfy", text("[broken"))]));

    assert_eq!(image_prompt(&hit).as_deref(), Some("plain prompt"));
    assert_eq!(image_negative_prompt(&hit), None);
    assert_eq!(comfy_workflow_node_count(&hit), None);
    assert!(image_used_models(&hit).is_empty());
}

#[test]
fn hidden_metadata_shows_no_prompts() {
    let mut hit = empty_hit();
    hit.hide_meta = Some(true);
    hit.prompt = Some("secret".to_string());
    assert_eq!(image_prompt(&hit), None);
    assert_eq!(image_negative_prompt(&hit), None);
}

#[test]
fn used_models_list_base_model_first_without_repeats() {
    let mut hit = empty_hit();
    hit.base_model = Some("SDXL".to_string());
    hit.metadata_resources = vec![
        resource("  Foo ", "LoRA", 1, None),
        resource("foo", "lora", 2, Some(3)),
        resource("Bar", "upscaler", 4, None),
        resource("   ", "checkpoint", 5, None),
        resource("Base", "Checkpoint", 6, Some(8)),
    ];
    let entries = image_used_model_entries(&hit);
    let labels: Vec<&str> = entries.iter().map(|e| e.label.as_str()).collect();
    assert_eq!(labels, vec!["Base Model: SDXL", "LoRA: Foo", "Checkpoint: Base"]);
    assert!(!entries[0].navigable);
    assert_eq!(entries[1].query_name.as_deref(), Some("Foo"));
    assert_eq!(entries[1].model_id, Some(1));
    assert_eq!(entries[1].version_id, Some(5));
    assert_eq!(entries[2].version_id, Some(8));
}

#[test]
fn generation_resources_take_precedence_over_metadata_resources() {
    let mut hit = empty_hit();
    hit.metadata_resources = vec![resource("Meta", "lora", 1, None)];
    hit.generation = Some(GenerationData { meta: None, resources: vec![resource("Gen", "vae", 2, None)] });
    assert_eq!(image_used_models(&hit), vec!["vae: Gen".to_string()]);

    hit.generation = Some(GenerationData { meta: None, resources: Vec::new() });
    assert_eq!(image_used_models(&hit), vec!["lora: Meta".to_string()]);
}

#[test]
fn stats_and_tags() {
    let mut hit = empty_hit();
    assert_eq!(image_stats(&hit).likes, 0);
    hit.stats = Some(ParsedImageStats { reactions: 1, comments: 2, collected: 3, buzz: 4, likes: 5, hearts: 6 });
    assert_eq!(image_stats(&hit).hearts, 6);
    hit.tag_names = vec![Some("anime".to_string()), None, Some(" ".to_string()), Some("portrait".to_string())];
    assert_eq!(image_tags(&hit), vec!["anime".to_string(), "portrait".to_string()]);
}
