use vstd::prelude::*;

use crate::chars::{
    ascii_lower_chars, ascii_lower_seq, chars_equal, chars_of, concat_chars, is_blank, is_blank_chars,
    string_of, trim, trim_chars,
};
use crate::metadata::{
    InfoTexts, JsonValue, collect_generation_info, collect_info, comfy_like, count_workflow_nodes,
    extract_comfy_workflow, extract_negative_prompt_from_metadata, extract_prompt_from_metadata,
    info_texts, is_comfy_like, metadata_negative_prompt, metadata_prompt, metadata_workflow, opt_text,
    workflow_node_count,
};

verus! {

/// The reaction counts of an image.
#[derive(Clone, Copy, Debug)]
pub struct ParsedImageStats {
    pub reactions: u64,
    pub comments: u64,
    pub collected: u64,
    pub buzz: u64,
    pub likes: u64,
    pub hearts: u64,
}

/// The sampler settings an image was generated with, as text.
#[derive(Clone, Debug)]
pub struct ParsedGenerationInfo {
    pub cfg_scale: Option<String>,
    pub steps: Option<String>,
    pub sampler: Option<String>,
    pub seed: Option<String>,
}

/// A model used to generate an image, as listed beside it.
#[derive(Debug)]
pub struct ParsedUsedModel {
    pub label: String,
    pub query_name: Option<String>,
    pub model_id: Option<u64>,
    pub version_id: Option<u64>,
    pub navigable: bool,
}

/// A resource listed in an image's generation data.
#[derive(Debug)]
pub struct GenerationResource {
    pub model_name: Option<String>,
    pub model_type: Option<String>,
    pub model_id: Option<u64>,
    pub version_id: Option<u64>,
    pub model_version_id: Option<u64>,
}

/// Resource types worth listing, in lower case.
pub open spec fn is_supported_type_name(s: Seq<char>) -> bool {
    ||| s == "checkpoint"@
    ||| s == "lora"@
    ||| s == "lycoris"@
    ||| s == "textualinversion"@
    ||| s == "textual inversion"@
    ||| s == "embedding"@
    ||| s == "hypernetwork"@
    ||| s == "controlnet"@
    ||| s == "vae"@
    ||| s == "unet"@
    ||| s == "clip"@
    ||| s == "model"@
}

/// A resource type is listed when, trimmed and in ASCII lower case, it is a
/// supported type name.
pub open spec fn supported_resource_type(value: Seq<char>) -> bool {
    is_supported_type_name(ascii_lower_seq(trim(value)))
}

/// Whether a generation resource type is worth listing.
pub fn is_supported_generation_resource_type(value: &str) -> (b: bool)
    ensures
        b == supported_resource_type(value@),
{
    let cs = chars_of(value);
    let t = trim_chars(&cs);
    let s = ascii_lower_chars(&t);
    chars_equal(&s, "checkpoint") || chars_equal(&s, "lora") || chars_equal(&s, "lycoris")
        || chars_equal(&s, "textualinversion") || chars_equal(&s, "textual inversion")
        || chars_equal(&s, "embedding") || chars_equal(&s, "hypernetwork") || chars_equal(
        &s,
        "controlnet",
    ) || chars_equal(&s, "vae") || chars_equal(&s, "unet") || chars_equal(&s, "clip")
        || chars_equal(&s, "model")
}

/// What a listed model shows: label, search name, model id, version id and
/// whether it can be opened.
pub type UsedModelView = (Seq<char>, Option<Seq<char>>, Option<u64>, Option<u64>, bool);

/// The view of a listed model.
pub open spec fn used_model_view(m: ParsedUsedModel) -> UsedModelView {
    (m.label@, opt_text(m.query_name), m.model_id, m.version_id, m.navigable)
}

/// The views of a list of listed models.
pub open spec fn used_model_views(s: Seq<ParsedUsedModel>) -> Seq<UsedModelView> {
    s.map_values(|m: ParsedUsedModel| used_model_view(m))
}

/// The listing of a resource: `<type>: <name>`, searching for the trimmed name,
/// for a resource with a non-blank name and a supported type; its version is
/// `version_id`, else `model_version_id`.
pub open spec fn resource_listing(r: GenerationResource) -> Option<UsedModelView> {
    match (r.model_name, r.model_type) {
        (Some(name), Some(ty)) => if supported_resource_type(ty@) && trim(name@).len() > 0 {
            Some(
                (
                    ty@ + ": "@ + trim(name@),
                    Some(trim(name@)),
                    r.model_id,
                    match r.version_id {
                        Some(v) => Some(v),
                        None => r.model_version_id,
                    },
                    true,
                ),
            )
        } else {
            None
        },
        _ => None,
    }
}

/// The listing of a generation resource, when it is worth listing.
pub fn parsed_used_model_from_generation_resource(resource: &GenerationResource) -> (r: Option<
    ParsedUsedModel,
>)
    ensures
        match r {
            Some(m) => resource_listing(*resource) == Some(used_model_view(m)),
            None => resource_listing(*resource) is None,
        },
{
    let name = match &resource.model_name {
        Some(n) => n,
        None => return None,
    };
    let trimmed = trim_chars(&chars_of(name.as_str()));
    let ty = match &resource.model_type {
        Some(t) => t,
        None => return None,
    };
    if !is_supported_generation_resource_type(ty.as_str()) {
        return None;
    }
    if trimmed.len() == 0 {
        return None;
    }
    let label = concat_chars(&concat_chars(&chars_of(ty.as_str()), &chars_of(": ")), &trimmed);
    let version_id = match resource.version_id {
        Some(v) => Some(v),
        None => resource.model_version_id,
    };
    Some(
        ParsedUsedModel {
            label: string_of(label.as_slice()),
            query_name: Some(string_of(trimmed.as_slice())),
            model_id: resource.model_id,
            version_id,
            navigable: true,
        },
    )
}

/// The lower-case keys of the labels listed so far.
pub open spec fn label_keys(values: Seq<UsedModelView>) -> Seq<Seq<char>> {
    values.map_values(|m: UsedModelView| ascii_lower_seq(m.0))
}

/// Adding a listing: it is appended unless one with the same label, ignoring
/// ASCII case, is already there.
pub open spec fn push_listing(values: Seq<UsedModelView>, item: UsedModelView) -> Seq<UsedModelView> {
    if label_keys(values).contains(ascii_lower_seq(item.0)) {
        values
    } else {
        values.push(item)
    }
}

/// The seen-label set holds the lower-case key of each listed label, in order.
pub open spec fn seen_matches(values: Seq<ParsedUsedModel>, seen: Seq<String>) -> bool {
    &&& seen.len() == values.len()
    &&& forall|i: int| 0 <= i < seen.len() ==> (#[trigger] seen[i])@ == ascii_lower_seq(values[i].label@)
}

fn seen_contains(seen: &Vec<String>, key: &Vec<char>) -> (r: bool)
    ensures
        r == exists|i: int| 0 <= i < seen@.len() && (#[trigger] seen@[i])@ == key@,
{
    let mut i: usize = 0;
    while i < seen.len()
        invariant
            i <= seen@.len(),
            forall|j: int| 0 <= j < i ==> (#[trigger] seen@[j])@ != key@,
        decreases seen@.len() - i,
    {
        let s = chars_of(seen[i].as_str());
        if same_chars(&s, key) {
            return true;
        }
        i = i + 1;
    }
    false
}

pub(crate) fn same_chars(a: &Vec<char>, b: &Vec<char>) -> (r: bool)
    ensures
        r == (a@ == b@),
{
    if a.len() != b.len() {
        return false;
    }
    let mut i: usize = 0;
    while i < a.len()
        invariant
            a@.len() == b@.len(),
            i <= a@.len(),
            forall|k: int| 0 <= k < i ==> a@[k] == b@[k],
        decreases a@.len() - i,
    {
        if a[i] != b[i] {
            return false;
        }
        i = i + 1;
    }
    assert(a@ =~= b@);
    true
}

/// Adds a listing unless one with the same label, ignoring ASCII case, is
/// already there; `seen_labels` keeps the lower-case labels listed.
pub fn push_used_model(
    values: &mut Vec<ParsedUsedModel>,
    seen_labels: &mut Vec<String>,
    item: ParsedUsedModel,
)
    requires
        seen_matches(old(values)@, old(seen_labels)@),
    ensures
        seen_matches(final(values)@, final(seen_labels)@),
        used_model_views(final(values)@) == push_listing(
            used_model_views(old(values)@),
            used_model_view(item),
        ),
{
    let key = ascii_lower_chars(&chars_of(item.label.as_str()));
    let ghost views = used_model_views(values@);
    let ghost keys = label_keys(views);
    let found = seen_contains(seen_labels, &key);
    proof {
        if found {
            let i = choose|i: int| 0 <= i < seen_labels@.len() && (#[trigger] seen_labels@[i])@ == key@;
            assert(keys[i] == key@);
        } else {
            assert forall|i: int| 0 <= i < keys.len() implies keys[i] != key@ by {
                assert(seen_labels@[i]@ == keys[i]);
            }
        }
    }
    if !found {
        seen_labels.push(string_of(key.as_slice()));
        values.push(item);
        proof {
            assert(used_model_views(values@) =~= views.push(used_model_view(item)));
        }
    }
}

/// Generation settings an image's generation data records.
pub struct GenerationMeta {
    pub prompt: Option<String>,
    pub negative_prompt: Option<String>,
    /// The cfg scale, as the number's text.
    pub cfg_scale: Option<String>,
    /// The step count, as the number's text.
    pub steps: Option<String>,
    pub sampler: Option<String>,
    /// The seed, as the number's text.
    pub seed: Option<String>,
    /// The ComfyUI graph recorded as the workflow.
    pub comfy_workflow: Option<JsonValue>,
    /// The ComfyUI graph recorded as the prompt.
    pub comfy_prompt: Option<JsonValue>,
}

/// An image's generation data.
pub struct GenerationData {
    pub meta: Option<GenerationMeta>,
    pub resources: Vec<GenerationResource>,
}

/// An image found by a search, with what the details screen reads of it.
pub struct ImageHit {
    pub hide_meta: Option<bool>,
    pub prompt: Option<String>,
    pub metadata: Option<JsonValue>,
    /// The metadata's generation data, when it reads as such.
    pub generation: Option<GenerationData>,
    /// The metadata's own resource list, when it reads as such (else empty).
    pub metadata_resources: Vec<GenerationResource>,
    pub base_model: Option<String>,
    pub username: Option<String>,
    pub thumbnail_url: Option<String>,
    pub original_media_url: Option<String>,
    pub stats: Option<ParsedImageStats>,
    pub tag_names: Vec<Option<String>>,
}

/// Present and not blank.
pub open spec fn non_blank(s: Option<String>) -> Option<Seq<char>> {
    match s {
        Some(v) => if is_blank(v@) {
            None
        } else {
            Some(v@)
        },
        None => None,
    }
}

pub(crate) fn non_blank_string(s: &Option<String>) -> (r: Option<String>)
    ensures
        opt_text(r) == non_blank(*s),
{
    match s {
        Some(v) => if is_blank_chars(&chars_of(v.as_str())) {
            None
        } else {
            Some(v.clone())
        },
        None => None,
    }
}

/// The name of the image's author, when not blank.
pub fn image_username(hit: &ImageHit) -> (r: Option<String>)
    ensures
        opt_text(r) == non_blank(hit.username),
{
    non_blank_string(&hit.username)
}

/// Where the image's media is: its thumbnail, when not blank, else its
/// original media.
pub fn image_media_url(hit: &ImageHit) -> (r: Option<String>)
    ensures
        opt_text(r) == match non_blank(hit.thumbnail_url) {
            Some(t) => Some(t),
            None => opt_text(hit.original_media_url),
        },
{
    match non_blank_string(&hit.thumbnail_url) {
        Some(t) => Some(t),
        None => hit.original_media_url.clone(),
    }
}

/// The image hides its generation data.
pub open spec fn meta_hidden(hit: ImageHit) -> bool {
    hit.hide_meta == Some(true)
}

/// The generation settings recorded for the image, if any.
pub open spec fn generation_meta(hit: ImageHit) -> Option<GenerationMeta> {
    match hit.generation {
        Some(g) => g.meta,
        None => None,
    }
}

/// The prompt shown for an image: none when it hides its generation data;
/// else the one its generation data records, else its own prompt when not
/// blank, else the one its metadata holds.
pub open spec fn shown_prompt(hit: ImageHit) -> Option<Seq<char>> {
    if meta_hidden(hit) {
        None
    } else {
        match generation_meta(hit) {
            Some(meta) if meta.prompt is Some => opt_text(meta.prompt),
            _ => if non_blank(hit.prompt) is Some {
                non_blank(hit.prompt)
            } else {
                match hit.metadata {
                    Some(m) => metadata_prompt(m),
                    None => None,
                }
            },
        }
    }
}

/// The prompt shown for an image.
pub fn image_prompt(hit: &ImageHit) -> (r: Option<String>)
    ensures
        opt_text(r) == shown_prompt(*hit),
{
    if hit.hide_meta == Some(true) {
        return None;
    }
    if let Some(data) = &hit.generation {
        if let Some(meta) = &data.meta {
            if let Some(p) = &meta.prompt {
                return Some(p.clone());
            }
        }
    }
    if let Some(p) = non_blank_string(&hit.prompt) {
        return Some(p);
    }
    match &hit.metadata {
        Some(m) => extract_prompt_from_metadata(m),
        None => None,
    }
}

/// The negative prompt shown for an image: none when it hides its generation
/// data; else the one its generation data records, else the one its metadata
/// holds.
pub open spec fn shown_negative_prompt(hit: ImageHit) -> Option<Seq<char>> {
    if meta_hidden(hit) {
        None
    } else {
        match generation_meta(hit) {
            Some(meta) if meta.negative_prompt is Some => opt_text(meta.negative_prompt),
            _ => match hit.metadata {
                Some(m) => metadata_negative_prompt(m),
                None => None,
            },
        }
    }
}

/// The negative prompt shown for an image.
pub fn image_negative_prompt(hit: &ImageHit) -> (r: Option<String>)
    ensures
        opt_text(r) == shown_negative_prompt(*hit),
{
    if hit.hide_meta == Some(true) {
        return None;
    }
    if let Some(data) = &hit.generation {
        if let Some(meta) = &data.meta {
            if let Some(p) = &meta.negative_prompt {
                return Some(p.clone());
            }
        }
    }
    match &hit.metadata {
        Some(m) => extract_negative_prompt_from_metadata(m),
        None => None,
    }
}

/// The reaction counts of an image, all zero when it has none.
pub fn image_stats(hit: &ImageHit) -> (r: ParsedImageStats)
    ensures
        match hit.stats {
            Some(s) => r == s,
            None => r == (ParsedImageStats {
                reactions: 0,
                comments: 0,
                collected: 0,
                buzz: 0,
                likes: 0,
                hearts: 0,
            }),
        },
{
    match hit.stats {
        Some(s) => s,
        None => ParsedImageStats { reactions: 0, comments: 0, collected: 0, buzz: 0, likes: 0, hearts: 0 },
    }
}

/// The tags of an image that are present and not blank, in order.
pub open spec fn shown_tags(tags: Seq<Option<String>>) -> Seq<Seq<char>>
    decreases tags.len(),
{
    if tags.len() == 0 {
        seq![]
    } else {
        let rest = shown_tags(tags.drop_last());
        match non_blank(tags.last()) {
            Some(t) => rest.push(t),
            None => rest,
        }
    }
}

/// The tags of an image that are present and not blank.
pub fn image_tags(hit: &ImageHit) -> (r: Vec<String>)
    ensures
        r@.map_values(|s: String| s@) == shown_tags(hit.tag_names@),
{
    let mut r: Vec<String> = Vec::new();
    let mut i: usize = 0;
    while i < hit.tag_names.len()
        invariant
            i <= hit.tag_names@.len(),
            r@.map_values(|s: String| s@) == shown_tags(hit.tag_names@.subrange(0, i as int)),
        decreases hit.tag_names@.len() - i,
    {
        let ghost before = r@;
        proof {
            assert(hit.tag_names@.subrange(0, i + 1).drop_last() =~= hit.tag_names@.subrange(
                0,
                i as int,
            ));
        }
        if let Some(t) = non_blank_string(&hit.tag_names[i]) {
            r.push(t);
            proof {
                assert(r@.map_values(|s: String| s@) =~= before.map_values(|s: String| s@).push(
                    r@.last()@,
                ));
            }
        }
        i = i + 1;
    }
    assert(hit.tag_names@.subrange(0, hit.tag_names@.len() as int) =~= hit.tag_names@);
    r
}

/// The resources an image lists: those of its generation data, when there
/// are some, else those of its metadata.
pub open spec fn hit_resources(hit: ImageHit) -> Seq<GenerationResource> {
    match hit.generation {
        Some(g) => if g.resources@.len() > 0 {
            g.resources@
        } else {
            hit.metadata_resources@
        },
        None => hit.metadata_resources@,
    }
}

/// The listings a run of resources adds, one after another, to those so far.
pub open spec fn listings_of(values: Seq<UsedModelView>, rs: Seq<GenerationResource>) -> Seq<
    UsedModelView,
>
    decreases rs.len(),
{
    if rs.len() == 0 {
        values
    } else {
        let next = match resource_listing(rs[0]) {
            Some(v) => push_listing(values, v),
            None => values,
        };
        listings_of(next, rs.drop_first())
    }
}

/// The listing of the base model an image was generated on.
pub open spec fn base_model_listing(base: Seq<char>) -> UsedModelView {
    ("Base Model: "@ + base, None, None, None, false)
}

/// The models listed beside an image: its base model, when not blank, then
/// the listing of each resource it names, skipping labels already listed
/// (ignoring ASCII case).
pub open spec fn image_listings(hit: ImageHit) -> Seq<UsedModelView> {
    let start = match non_blank(hit.base_model) {
        Some(b) => seq![base_model_listing(b)],
        None => seq![],
    };
    listings_of(start, hit_resources(hit))
}

/// The models listed beside an image.
pub fn image_used_model_entries(hit: &ImageHit) -> (r: Vec<ParsedUsedModel>)
    ensures
        used_model_views(r@) == image_listings(*hit),
{
    let mut values: Vec<ParsedUsedModel> = Vec::new();
    let mut seen_labels: Vec<String> = Vec::new();
    if let Some(base) = non_blank_string(&hit.base_model) {
        let label = concat_chars(&chars_of("Base Model: "), &chars_of(base.as_str()));
        let item = ParsedUsedModel {
            label: string_of(label.as_slice()),
            query_name: None,
            model_id: None,
            version_id: None,
            navigable: false,
        };
        proof {
            assert(used_model_views(values@) =~= seq![]);
            assert(label_keys(seq![]) =~= seq![]);
        }
        push_used_model(&mut values, &mut seen_labels, item);
        proof {
            assert(used_model_views(values@) =~= seq![base_model_listing(base@)]);
        }
    } else {
        assert(used_model_views(values@) =~= seq![]);
    }
    let resources = match &hit.generation {
        Some(g) => if g.resources.len() > 0 {
            &g.resources
        } else {
            &hit.metadata_resources
        },
        None => &hit.metadata_resources,
    };
    assert(resources@ == hit_resources(*hit));
    let ghost start = used_model_views(values@);
    let mut i: usize = 0;
    assert(resources@.subrange(0, resources@.len() as int) =~= resources@);
    while i < resources.len()
        invariant
            i <= resources@.len(),
            seen_matches(values@, seen_labels@),
            listings_of(start, resources@) == listings_of(
                used_model_views(values@),
                resources@.subrange(i as int, resources@.len() as int),
            ),
        decreases resources@.len() - i,
    {
        let ghost rest = resources@.subrange(i as int, resources@.len() as int);
        assert(rest[0] == resources@[i as int]);
        assert(rest.drop_first() =~= resources@.subrange(i + 1, resources@.len() as int));
        if let Some(item) = parsed_used_model_from_generation_resource(&resources[i]) {
            push_used_model(&mut values, &mut seen_labels, item);
        }
        i = i + 1;
    }
    assert(resources@.subrange(i as int, resources@.len() as int) =~= seq![]);
    values
}

/// The labels of the models listed beside an image.
pub fn image_used_models(hit: &ImageHit) -> (r: Vec<String>)
    ensures
        r@.map_values(|s: String| s@) == image_listings(*hit).map_values(|v: UsedModelView| v.0),
{
    let entries = image_used_model_entries(hit);
    let mut r: Vec<String> = Vec::new();
    let mut i: usize = 0;
    while i < entries.len()
        invariant
            i <= entries@.len(),
            used_model_views(entries@) == image_listings(*hit),
            r@.map_values(|s: String| s@) == used_model_views(entries@).subrange(0, i as int).map_values(
                |v: UsedModelView| v.0,
            ),
        decreases entries@.len() - i,
    {
        let ghost before = r@;
        assert(used_model_views(entries@)[i as int].0 == entries@[i as int].label@);
        r.push(entries[i].label.clone());
        proof {
            assert(r@.map_values(|s: String| s@) =~= before.map_values(|s: String| s@).push(
                entries@[i as int].label@,
            ));
            assert(used_model_views(entries@).subrange(0, i + 1).map_values(|v: UsedModelView| v.0)
                =~= used_model_views(entries@).subrange(0, i as int).map_values(
                |v: UsedModelView| v.0,
            ).push(entries@[i as int].label@));
        }
        i = i + 1;
    }
    proof {
        assert(used_model_views(entries@).subrange(0, entries@.len() as int) =~= used_model_views(
            entries@,
        ));
    }
    r
}

/// The ComfyUI workflow of an image: the workflow its generation data
/// records, else the prompt graph it records, each when shaped like a
/// workflow; else the one its metadata holds.
pub open spec fn hit_workflow(hit: ImageHit) -> Option<JsonValue> {
    let recorded = match generation_meta(hit) {
        Some(meta) => match meta.comfy_workflow {
            Some(w) if comfy_like(w) => Some(w),
            _ => match meta.comfy_prompt {
                Some(p) if comfy_like(p) => Some(p),
                _ => None,
            },
        },
        None => None,
    };
    if recorded is Some {
        recorded
    } else {
        match hit.metadata {
            Some(m) => metadata_workflow(m),
            None => None,
        }
    }
}

/// The ComfyUI workflow of an image.
pub fn comfy_workflow_value(hit: &ImageHit) -> (r: Option<&JsonValue>)
    ensures
        match r {
            Some(w) => hit_workflow(*hit) == Some(*w),
            None => hit_workflow(*hit) is None,
        },
{
    if let Some(data) = &hit.generation {
        if let Some(meta) = &data.meta {
            if let Some(w) = &meta.comfy_workflow {
                if is_comfy_like(w) {
                    return Some(w);
                }
            }
            if let Some(p) = &meta.comfy_prompt {
                if is_comfy_like(p) {
                    return Some(p);
                }
            }
        }
    }
    match &hit.metadata {
        Some(m) => extract_comfy_workflow(m),
        None => None,
    }
}

/// The number of nodes of an image's ComfyUI workflow.
pub fn comfy_workflow_node_count(hit: &ImageHit) -> (r: Option<usize>)
    ensures
        match r {
            Some(n) => hit_workflow(*hit) is Some && workflow_node_count(hit_workflow(*hit).unwrap())
                == Some(n as nat),
            None => hit_workflow(*hit) is None || workflow_node_count(hit_workflow(*hit).unwrap()) is None,
        },
{
    match comfy_workflow_value(hit) {
        Some(w) => count_workflow_nodes(w),
        None => None,
    }
}

/// The sampler settings recorded in an image's generation data.
pub open spec fn recorded_texts(hit: ImageHit) -> InfoTexts {
    match generation_meta(hit) {
        Some(meta) => (opt_text(meta.cfg_scale), opt_text(meta.steps), opt_text(meta.sampler), opt_text(meta.seed)),
        None => (None, None, None, None),
    }
}

/// The sampler settings shown for an image: those its generation data
/// records, then the empty ones filled from its metadata, then from its
/// workflow.
pub open spec fn shown_generation_texts(hit: ImageHit) -> InfoTexts {
    let t1 = recorded_texts(hit);
    let t2 = match hit.metadata {
        Some(m) => collect_info(m, t1),
        None => t1,
    };
    match hit_workflow(hit) {
        Some(w) => collect_info(w, t2),
        None => t2,
    }
}

/// The sampler settings shown for an image.
pub fn image_generation_info(hit: &ImageHit) -> (r: ParsedGenerationInfo)
    ensures
        info_texts(r) == shown_generation_texts(*hit),
{
    let mut info = ParsedGenerationInfo { cfg_scale: None, steps: None, sampler: None, seed: None };
    if let Some(data) = &hit.generation {
        if let Some(meta) = &data.meta {
            info.cfg_scale = meta.cfg_scale.clone();
            info.steps = meta.steps.clone();
            info.sampler = meta.sampler.clone();
            info.seed = meta.seed.clone();
        }
    }
    if let Some(m) = &hit.metadata {
        collect_generation_info(m, &mut info);
    }
    if let Some(w) = comfy_workflow_value(hit) {
        collect_generation_info(w, &mut info);
    }
    info
}


/// No two listings have the same label ignoring ASCII case.
pub open spec fn labels_distinct(vs: Seq<UsedModelView>) -> bool {
    forall|i: int, j: int|
        0 <= i < j < vs.len() ==> ascii_lower_seq(#[trigger] vs[i].0) != ascii_lower_seq(#[trigger] vs[j].0)
}

proof fn lemma_push_listing_distinct(vs: Seq<UsedModelView>, item: UsedModelView)
    requires
        labels_distinct(vs),
    ensures
        labels_distinct(push_listing(vs, item)),
{
    if !label_keys(vs).contains(ascii_lower_seq(item.0)) {
        let ws = vs.push(item);
        assert forall|i: int, j: int| 0 <= i < j < ws.len() implies ascii_lower_seq(#[trigger] ws[i].0)
            != ascii_lower_seq(#[trigger] ws[j].0) by {
            if j == vs.len() {
                assert(label_keys(vs)[i] == ascii_lower_seq(vs[i].0));
            } else {
                assert(ws[i] == vs[i] && ws[j] == vs[j]);
            }
        }
    }
}

proof fn lemma_listings_distinct(vs: Seq<UsedModelView>, rs: Seq<GenerationResource>)
    requires
        labels_distinct(vs),
    ensures
        labels_distinct(listings_of(vs, rs)),
    decreases rs.len(),
{
    if rs.len() > 0 {
        let next = match resource_listing(rs[0]) {
            Some(v) => push_listing(vs, v),
            None => vs,
        };
        if let Some(v) = resource_listing(rs[0]) {
            lemma_push_listing_distinct(vs, v);
        }
        lemma_listings_distinct(next, rs.drop_first());
    }
}

/// The models listed beside an image never repeat a label, ignoring ASCII
/// case.
pub proof fn law_listed_labels_distinct(hit: ImageHit)
    ensures
        labels_distinct(image_listings(hit)),
{
    let start = match non_blank(hit.base_model) {
        Some(b) => seq![base_model_listing(b)],
        None => seq![],
    };
    lemma_listings_distinct(start, hit_resources(hit));
}

/// An image that hides its generation data shows no prompt and no negative
/// prompt.
pub proof fn law_hidden_meta_shows_no_prompt(hit: ImageHit)
    requires
        hit.hide_meta == Some(true),
    ensures
        shown_prompt(hit) is None,
        shown_negative_prompt(hit) is None,
{
}

} // verus!
