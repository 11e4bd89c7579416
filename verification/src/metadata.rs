use vstd::prelude::*;

use crate::chars::{
    ascii_lower_chars, ascii_lower_seq, chars_equal, chars_of, is_blank, is_blank_chars,
};
use crate::image::ParsedGenerationInfo;
use crate::text::{contains_seq, find_char};

verus! {

/// A JSON value as image metadata holds it. A number keeps the text it is
/// written with; an object keeps its entries in the order they are walked.
pub enum JsonValue {
    Null,
    Bool(bool),
    Number(String),
    Text(String),
    Array(Vec<JsonValue>),
    Object(Vec<(String, JsonValue)>),
}

/// The position of the first entry with the given key, or -1.
pub open spec fn key_index(s: Seq<(String, JsonValue)>, key: Seq<char>) -> int
    decreases s.len(),
{
    if s.len() == 0 {
        -1
    } else if s[0].0@ == key {
        0
    } else {
        let r = key_index(s.drop_first(), key);
        if r < 0 {
            -1
        } else {
            r + 1
        }
    }
}

/// `key_index` names the first entry with the key, and -1 when there is none.
pub proof fn lemma_key_index(s: Seq<(String, JsonValue)>, key: Seq<char>)
    ensures
        -1 <= key_index(s, key) < s.len(),
        key_index(s, key) >= 0 ==> s[key_index(s, key)].0@ == key,
        forall|j: int| 0 <= j < s.len() && (key_index(s, key) < 0 || j < key_index(s, key)) ==> (
        #[trigger] s[j]).0@ != key,
    decreases s.len(),
{
    if s.len() > 0 {
        lemma_key_index(s.drop_first(), key);
        assert forall|j: int|
            0 <= j < s.len() && (key_index(s, key) < 0 || j < key_index(s, key)) implies (
        #[trigger] s[j]).0@ != key by {
            if j > 0 {
                assert(s[j] == s.drop_first()[j - 1]);
            }
        }
    }
}

proof fn lemma_key_index_at(s: Seq<(String, JsonValue)>, key: Seq<char>, i: int)
    requires
        0 <= i <= s.len(),
        forall|j: int| 0 <= j < i ==> (#[trigger] s[j]).0@ != key,
        i < s.len() ==> s[i].0@ == key,
    ensures
        key_index(s, key) == if i < s.len() { i } else { -1 },
    decreases s.len(),
{
    if s.len() > 0 && i > 0 {
        assert forall|j: int| 0 <= j < i - 1 implies (#[trigger] s.drop_first()[j]).0@ != key by {
            assert(s.drop_first()[j] == s[j + 1]);
        }
        lemma_key_index_at(s.drop_first(), key, i - 1);
    }
}

/// The value under a key of an object: that of its first entry with the key.
pub open spec fn lookup(v: JsonValue, key: Seq<char>) -> Option<JsonValue> {
    match v {
        JsonValue::Object(entries) => {
            let i = key_index(entries@, key);
            if 0 <= i < entries@.len() {
                Some(entries@[i].1)
            } else {
                None
            }
        },
        _ => None,
    }
}

/// An object that has the key.
pub open spec fn has_key(v: JsonValue, key: Seq<char>) -> bool {
    lookup(v, key) is Some
}

/// The position of the first entry with the given key.
pub fn entry_index(entries: &Vec<(String, JsonValue)>, key: &str) -> (r: Option<usize>)
    ensures
        match r {
            Some(i) => key_index(entries@, key@) == i && i < entries@.len(),
            None => key_index(entries@, key@) == -1,
        },
{
    let mut i: usize = 0;
    while i < entries.len()
        invariant
            i <= entries@.len(),
            forall|j: int| 0 <= j < i ==> (#[trigger] entries@[j]).0@ != key@,
        decreases entries@.len() - i,
    {
        if chars_equal(&chars_of(entries[i].0.as_str()), key) {
            proof {
                lemma_key_index_at(entries@, key@, i as int);
            }
            return Some(i);
        }
        i = i + 1;
    }
    proof {
        lemma_key_index_at(entries@, key@, i as int);
    }
    None
}

/// The value under a key of an object (`Value::get` with a key).
pub fn get<'a>(v: &'a JsonValue, key: &str) -> (r: Option<&'a JsonValue>)
    ensures
        match r {
            Some(x) => lookup(*v, key@) == Some(*x),
            None => lookup(*v, key@) is None,
        },
{
    match v {
        JsonValue::Object(entries) => match entry_index(entries, key) {
            Some(i) => Some(&entries[i].1),
            None => None,
        },
        _ => None,
    }
}

/// The text a value reads as: a non-blank string, a number as written, or
/// `true`/`false`.
pub open spec fn scalar_text(v: JsonValue) -> Option<Seq<char>> {
    match v {
        JsonValue::Text(raw) => if is_blank(raw@) {
            None
        } else {
            Some(raw@)
        },
        JsonValue::Number(raw) => Some(raw@),
        JsonValue::Bool(b) => Some(
            if b {
                "true"@
            } else {
                "false"@
            },
        ),
        _ => None,
    }
}

/// The text of an optional string.
pub open spec fn opt_text(s: Option<String>) -> Option<Seq<char>> {
    match s {
        Some(v) => Some(v@),
        None => None,
    }
}

/// The text a value reads as, if it reads as text.
pub fn value_string(value: &JsonValue) -> (r: Option<String>)
    ensures
        opt_text(r) == scalar_text(*value),
{
    match value {
        JsonValue::Text(raw) => {
            if is_blank_chars(&chars_of(raw.as_str())) {
                None
            } else {
                Some(raw.clone())
            }
        },
        JsonValue::Number(raw) => Some(raw.clone()),
        JsonValue::Bool(b) => {
            if *b {
                Some("true".to_owned())
            } else {
                Some("false".to_owned())
            }
        },
        _ => None,
    }
}


/// The text under a key of an object, when it reads as text.
pub open spec fn field_text(v: JsonValue, key: Seq<char>) -> Option<Seq<char>> {
    match lookup(v, key) {
        Some(x) => scalar_text(x),
        None => None,
    }
}

fn field_string(v: &JsonValue, key: &str) -> (r: Option<String>)
    ensures
        opt_text(r) == field_text(*v, key@),
{
    match get(v, key) {
        Some(x) => value_string(x),
        None => None,
    }
}

/// The prompt written in image metadata: the first of `prompt`, `Prompt` and
/// `positivePrompt` that reads as text, else the one found under `meta`, else
/// the one found under `comfy`.
pub open spec fn metadata_prompt(m: JsonValue) -> Option<Seq<char>>
    decreases m,
{
    match m {
        JsonValue::Object(entries) => {
            let es = entries@;
            if field_text(m, "prompt"@) is Some {
                field_text(m, "prompt"@)
            } else if field_text(m, "Prompt"@) is Some {
                field_text(m, "Prompt"@)
            } else if field_text(m, "positivePrompt"@) is Some {
                field_text(m, "positivePrompt"@)
            } else {
                let i = key_index(es, "meta"@);
                let from_meta = if 0 <= i < es.len() {
                    metadata_prompt(es[i].1)
                } else {
                    None
                };
                if from_meta is Some {
                    from_meta
                } else {
                    let j = key_index(es, "comfy"@);
                    if 0 <= j < es.len() {
                        metadata_prompt(es[j].1)
                    } else {
                        None
                    }
                }
            }
        },
        _ => None,
    }
}

/// The prompt written in image metadata.
pub fn extract_prompt_from_metadata(metadata: &JsonValue) -> (r: Option<String>)
    ensures
        opt_text(r) == metadata_prompt(*metadata),
    decreases metadata,
{
    match metadata {
        JsonValue::Object(entries) => {
            if let Some(v) = field_string(metadata, "prompt") {
                return Some(v);
            }
            if let Some(v) = field_string(metadata, "Prompt") {
                return Some(v);
            }
            if let Some(v) = field_string(metadata, "positivePrompt") {
                return Some(v);
            }
            if let Some(i) = entry_index(entries, "meta") {
                if let Some(v) = extract_prompt_from_metadata(&entries[i].1) {
                    return Some(v);
                }
            }
            match entry_index(entries, "comfy") {
                Some(j) => extract_prompt_from_metadata(&entries[j].1),
                None => None,
            }
        },
        _ => None,
    }
}

/// A key that names a negative prompt: in ASCII lower case it mentions
/// "negative" (or is "text_negative").
pub open spec fn names_negative(key: Seq<char>) -> bool {
    let k = ascii_lower_seq(key);
    contains_seq(k, "negative"@) || k == "text_negative"@
}

/// The negative prompt of a prompt graph: walking the graph depth first, in
/// entry order, the first entry whose key names a negative prompt and whose
/// value reads as text.
pub open spec fn graph_negative(v: JsonValue) -> Option<Seq<char>>
    decreases v,
{
    match v {
        JsonValue::Object(entries) => graph_negative_entries(entries@),
        JsonValue::Array(items) => graph_negative_items(items@),
        _ => None,
    }
}

/// `graph_negative` over a run of object entries.
pub open spec fn graph_negative_entries(s: Seq<(String, JsonValue)>) -> Option<Seq<char>>
    decreases s,
{
    if s.len() == 0 {
        None
    } else if names_negative(s[0].0@) && scalar_text(s[0].1) is Some {
        scalar_text(s[0].1)
    } else if graph_negative(s[0].1) is Some {
        graph_negative(s[0].1)
    } else {
        graph_negative_entries(s.drop_first())
    }
}

/// `graph_negative` over a run of array items.
pub open spec fn graph_negative_items(s: Seq<JsonValue>) -> Option<Seq<char>>
    decreases s,
{
    if s.len() == 0 {
        None
    } else if graph_negative(s[0]) is Some {
        graph_negative(s[0])
    } else {
        graph_negative_items(s.drop_first())
    }
}

fn key_names_negative(key: &str) -> (b: bool)
    ensures
        b == names_negative(key@),
{
    let k = ascii_lower_chars(&chars_of(key));
    let pat = chars_of("negative");
    let found = find_char(k.as_slice(), pat.as_slice());
    proof {
        crate::text::lemma_first_occurrence_found(k@, pat@);
    }
    found.is_some() || chars_equal(&k, "text_negative")
}

/// The negative prompt of a prompt graph.
pub fn extract_negative_prompt_from_prompt_graph(value: &JsonValue) -> (r: Option<String>)
    ensures
        opt_text(r) == graph_negative(*value),
    decreases value,
{
    match value {
        JsonValue::Object(map) => {
            let mut i: usize = 0;
            assert(map@.subrange(0, map@.len() as int) =~= map@);
            while i < map.len()
                invariant
                    *value == JsonValue::Object(*map),
                    i <= map@.len(),
                    graph_negative_entries(map@) == graph_negative_entries(
                        map@.subrange(i as int, map@.len() as int),
                    ),
                decreases map@.len() - i,
            {
                let ghost rest = map@.subrange(i as int, map@.len() as int);
                assert(rest[0] == map@[i as int]);
                assert(rest.drop_first() =~= map@.subrange(i + 1, map@.len() as int));
                if key_names_negative(map[i].0.as_str()) {
                    if let Some(text) = value_string(&map[i].1) {
                        return Some(text);
                    }
                }
                if let Some(found) = extract_negative_prompt_from_prompt_graph(&map[i].1) {
                    return Some(found);
                }
                i = i + 1;
            }
            None
        },
        JsonValue::Array(items) => {
            let mut i: usize = 0;
            assert(items@.subrange(0, items@.len() as int) =~= items@);
            while i < items.len()
                invariant
                    *value == JsonValue::Array(*items),
                    i <= items@.len(),
                    graph_negative_items(items@) == graph_negative_items(
                        items@.subrange(i as int, items@.len() as int),
                    ),
                decreases items@.len() - i,
            {
                let ghost rest = items@.subrange(i as int, items@.len() as int);
                assert(rest[0] == items@[i as int]);
                assert(rest.drop_first() =~= items@.subrange(i + 1, items@.len() as int));
                if let Some(found) = extract_negative_prompt_from_prompt_graph(&items[i]) {
                    return Some(found);
                }
                i = i + 1;
            }
            None
        },
        _ => None,
    }
}


/// The negative prompt written in image metadata: the first of
/// `negativePrompt`, `negative_prompt` and `negPrompt` that reads as text, else
/// the one found under `meta`, else under `comfy`, else, when there is a
/// `prompt` entry, the negative prompt of that prompt graph.
pub open spec fn metadata_negative_prompt(m: JsonValue) -> Option<Seq<char>>
    decreases m,
{
    match m {
        JsonValue::Object(entries) => {
            let es = entries@;
            if field_text(m, "negativePrompt"@) is Some {
                field_text(m, "negativePrompt"@)
            } else if field_text(m, "negative_prompt"@) is Some {
                field_text(m, "negative_prompt"@)
            } else if field_text(m, "negPrompt"@) is Some {
                field_text(m, "negPrompt"@)
            } else {
                let i = key_index(es, "meta"@);
                let from_meta = if 0 <= i < es.len() {
                    metadata_negative_prompt(es[i].1)
                } else {
                    None
                };
                let j = key_index(es, "comfy"@);
                let from_comfy = if 0 <= j < es.len() {
                    metadata_negative_prompt(es[j].1)
                } else {
                    None
                };
                let k = key_index(es, "prompt"@);
                if from_meta is Some {
                    from_meta
                } else if from_comfy is Some {
                    from_comfy
                } else if 0 <= k < es.len() {
                    graph_negative(es[k].1)
                } else {
                    None
                }
            }
        },
        _ => None,
    }
}

/// The negative prompt written in image metadata.
pub fn extract_negative_prompt_from_metadata(metadata: &JsonValue) -> (r: Option<String>)
    ensures
        opt_text(r) == metadata_negative_prompt(*metadata),
    decreases metadata,
{
    match metadata {
        JsonValue::Object(entries) => {
            if let Some(v) = field_string(metadata, "negativePrompt") {
                return Some(v);
            }
            if let Some(v) = field_string(metadata, "negative_prompt") {
                return Some(v);
            }
            if let Some(v) = field_string(metadata, "negPrompt") {
                return Some(v);
            }
            if let Some(i) = entry_index(entries, "meta") {
                if let Some(v) = extract_negative_prompt_from_metadata(&entries[i].1) {
                    return Some(v);
                }
            }
            if let Some(j) = entry_index(entries, "comfy") {
                if let Some(v) = extract_negative_prompt_from_metadata(&entries[j].1) {
                    return Some(v);
                }
            }
            match entry_index(entries, "prompt") {
                Some(k) => extract_negative_prompt_from_prompt_graph(&entries[k].1),
                None => None,
            }
        },
        _ => None,
    }
}

/// An object describing a node: it has `class_type` or `inputs`.
pub open spec fn is_node_object(v: JsonValue) -> bool {
    has_key(v, "class_type"@) || has_key(v, "inputs"@)
}

/// An array item describing a node: it has `type`, `class_type` or `inputs`.
pub open spec fn is_node_item(v: JsonValue) -> bool {
    has_key(v, "type"@) || is_node_object(v)
}

/// A value shaped like a ComfyUI workflow: an object with `nodes` and `links`,
/// an object with a node among its values, or an array with a node among its
/// items.
pub open spec fn comfy_like(v: JsonValue) -> bool {
    match v {
        JsonValue::Object(entries) => {
            ||| (has_key(v, "nodes"@) && has_key(v, "links"@))
            ||| exists|i: int| 0 <= i < entries@.len() && is_node_object(#[trigger] entries@[i].1)
        },
        JsonValue::Array(items) => exists|i: int|
            0 <= i < items@.len() && is_node_item(#[trigger] items@[i]),
        _ => false,
    }
}

fn node_object(v: &JsonValue) -> (b: bool)
    ensures
        b == is_node_object(*v),
{
    get(v, "class_type").is_some() || get(v, "inputs").is_some()
}

fn node_item(v: &JsonValue) -> (b: bool)
    ensures
        b == is_node_item(*v),
{
    get(v, "type").is_some() || node_object(v)
}

fn any_node_entry(entries: &Vec<(String, JsonValue)>) -> (b: bool)
    ensures
        b == exists|i: int| 0 <= i < entries@.len() && is_node_object(#[trigger] entries@[i].1),
{
    let mut i: usize = 0;
    while i < entries.len()
        invariant
            i <= entries@.len(),
            forall|j: int| 0 <= j < i ==> !is_node_object(#[trigger] entries@[j].1),
        decreases entries@.len() - i,
    {
        if node_object(&entries[i].1) {
            assert(is_node_object(entries@[i as int].1));
            return true;
        }
        i = i + 1;
    }
    false
}

fn any_node_item(items: &Vec<JsonValue>) -> (b: bool)
    ensures
        b == exists|i: int| 0 <= i < items@.len() && is_node_item(#[trigger] items@[i]),
{
    let mut i: usize = 0;
    while i < items.len()
        invariant
            i <= items@.len(),
            forall|j: int| 0 <= j < i ==> !is_node_item(#[trigger] items@[j]),
        decreases items@.len() - i,
    {
        if node_item(&items[i]) {
            assert(is_node_item(items@[i as int]));
            return true;
        }
        i = i + 1;
    }
    false
}

/// Whether a value is shaped like a ComfyUI workflow.
pub fn is_comfy_like(value: &JsonValue) -> (b: bool)
    ensures
        b == comfy_like(*value),
{
    match value {
        JsonValue::Object(entries) => (get(value, "nodes").is_some() && get(value, "links").is_some())
            || any_node_entry(entries),
        JsonValue::Array(items) => any_node_item(items),
        _ => false,
    }
}

/// The value if it is shaped like a workflow.
pub open spec fn workflow_candidate(x: Option<JsonValue>) -> Option<JsonValue> {
    match x {
        Some(w) => if comfy_like(w) {
            Some(w)
        } else {
            None
        },
        None => None,
    }
}

/// The ComfyUI workflow in image metadata: under `comfy`, its `workflow`
/// then its `prompt`; then the `workflow`, `comfy`, `nodes` and `prompt`
/// entries; then the one found under `meta`; then the metadata itself; each
/// only when shaped like a workflow.
pub open spec fn metadata_workflow(m: JsonValue) -> Option<JsonValue>
    decreases m,
{
    let from_comfy = match lookup(m, "comfy"@) {
        Some(c) => if workflow_candidate(lookup(c, "workflow"@)) is Some {
            workflow_candidate(lookup(c, "workflow"@))
        } else {
            workflow_candidate(lookup(c, "prompt"@))
        },
        None => None,
    };
    let from_meta = match m {
        JsonValue::Object(entries) => {
            let i = key_index(entries@, "meta"@);
            if 0 <= i < entries@.len() {
                metadata_workflow(entries@[i].1)
            } else {
                None
            }
        },
        _ => None,
    };
    if from_comfy is Some {
        from_comfy
    } else if workflow_candidate(lookup(m, "workflow"@)) is Some {
        workflow_candidate(lookup(m, "workflow"@))
    } else if workflow_candidate(lookup(m, "comfy"@)) is Some {
        workflow_candidate(lookup(m, "comfy"@))
    } else if workflow_candidate(lookup(m, "nodes"@)) is Some {
        workflow_candidate(lookup(m, "nodes"@))
    } else if workflow_candidate(lookup(m, "prompt"@)) is Some {
        workflow_candidate(lookup(m, "prompt"@))
    } else if from_meta is Some {
        from_meta
    } else if comfy_like(m) {
        Some(m)
    } else {
        None
    }
}

fn candidate<'a>(x: Option<&'a JsonValue>) -> (r: Option<&'a JsonValue>)
    ensures
        match r {
            Some(w) => x == Some(w) && comfy_like(*w),
            None => x is None || !comfy_like(*x.unwrap()),
        },
{
    match x {
        Some(w) => if is_comfy_like(w) {
            Some(w)
        } else {
            None
        },
        None => None,
    }
}

/// The ComfyUI workflow in image metadata.
pub fn extract_comfy_workflow<'a>(metadata: &'a JsonValue) -> (r: Option<&'a JsonValue>)
    ensures
        match r {
            Some(w) => metadata_workflow(*metadata) == Some(*w),
            None => metadata_workflow(*metadata) is None,
        },
    decreases metadata,
{
    if let Some(comfy) = get(metadata, "comfy") {
        if let Some(w) = candidate(get(comfy, "workflow")) {
            return Some(w);
        }
        if let Some(p) = candidate(get(comfy, "prompt")) {
            return Some(p);
        }
    }
    if let Some(w) = candidate(get(metadata, "workflow")) {
        return Some(w);
    }
    if let Some(w) = candidate(get(metadata, "comfy")) {
        return Some(w);
    }
    if let Some(w) = candidate(get(metadata, "nodes")) {
        return Some(w);
    }
    if let Some(w) = candidate(get(metadata, "prompt")) {
        return Some(w);
    }
    if let JsonValue::Object(entries) = metadata {
        if let Some(i) = entry_index(entries, "meta") {
            if let Some(found) = extract_comfy_workflow(&entries[i].1) {
                return Some(found);
            }
        }
    }
    if is_comfy_like(metadata) {
        Some(metadata)
    } else {
        None
    }
}


/// How many entries of an object describe a node.
pub open spec fn count_node_entries(s: Seq<(String, JsonValue)>) -> nat
    decreases s.len(),
{
    if s.len() == 0 {
        0
    } else {
        count_node_entries(s.drop_last()) + if is_node_object(s.last().1) {
            1nat
        } else {
            0nat
        }
    }
}

/// The number of nodes of a workflow: the length of its `nodes` array; else,
/// for an object, how many of its values describe a node, when some do; else,
/// for an array, its length.
pub open spec fn workflow_node_count(v: JsonValue) -> Option<nat> {
    match lookup(v, "nodes"@) {
        Some(JsonValue::Array(nodes)) => Some(nodes@.len()),
        _ => match v {
            JsonValue::Object(entries) => if count_node_entries(entries@) > 0 {
                Some(count_node_entries(entries@))
            } else {
                None
            },
            JsonValue::Array(items) => Some(items@.len()),
            _ => None,
        },
    }
}

proof fn lemma_count_node_entries_bound(s: Seq<(String, JsonValue)>)
    ensures
        count_node_entries(s) <= s.len(),
    decreases s.len(),
{
    if s.len() > 0 {
        lemma_count_node_entries_bound(s.drop_last());
    }
}

/// The number of nodes of a workflow.
pub fn count_workflow_nodes(value: &JsonValue) -> (r: Option<usize>)
    ensures
        match r {
            Some(n) => workflow_node_count(*value) == Some(n as nat),
            None => workflow_node_count(*value) is None,
        },
{
    if let Some(JsonValue::Array(nodes)) = get(value, "nodes") {
        return Some(nodes.len());
    }
    match value {
        JsonValue::Object(entries) => {
            let mut count: usize = 0;
            let mut i: usize = 0;
            while i < entries.len()
                invariant
                    i <= entries@.len(),
                    count == count_node_entries(entries@.subrange(0, i as int)),
                decreases entries@.len() - i,
            {
                proof {
                    let p = entries@.subrange(0, i + 1);
                    assert(p.drop_last() =~= entries@.subrange(0, i as int));
                    lemma_count_node_entries_bound(entries@.subrange(0, i as int));
                }
                if node_object(&entries[i].1) {
                    count = count + 1;
                }
                i = i + 1;
            }
            assert(entries@.subrange(0, entries@.len() as int) =~= entries@);
            if count > 0 {
                Some(count)
            } else {
                None
            }
        },
        JsonValue::Array(items) => Some(items.len()),
        _ => None,
    }
}

/// The texts a generation info holds: cfg scale, steps, sampler and seed.
pub type InfoTexts = (Option<Seq<char>>, Option<Seq<char>>, Option<Seq<char>>, Option<Seq<char>>);

/// The texts of a generation info.
pub open spec fn info_texts(info: ParsedGenerationInfo) -> InfoTexts {
    (opt_text(info.cfg_scale), opt_text(info.steps), opt_text(info.sampler), opt_text(info.seed))
}

/// Keys, in lower case, that hold the cfg scale.
pub open spec fn is_cfg_key(k: Seq<char>) -> bool {
    k == "cfg"@ || k == "cfgscale"@ || k == "guidance"@ || k == "guidance_scale"@
}

/// Keys, in lower case, that hold the sampler.
pub open spec fn is_sampler_key(k: Seq<char>) -> bool {
    k == "sampler"@ || k == "sampler_name"@ || k == "samplername"@
}

/// Keys, in lower case, that hold the seed.
pub open spec fn is_seed_key(k: Seq<char>) -> bool {
    k == "seed"@ || k == "noise_seed"@
}

/// What one object entry adds: the text of its value fills the slot its key
/// (in ASCII lower case) names, when that slot is still empty.
pub open spec fn info_step(key: Seq<char>, nested: JsonValue, t: InfoTexts) -> InfoTexts {
    let k = ascii_lower_seq(key);
    if is_cfg_key(k) {
        if t.0 is None {
            (scalar_text(nested), t.1, t.2, t.3)
        } else {
            t
        }
    } else if k == "steps"@ {
        if t.1 is None {
            (t.0, scalar_text(nested), t.2, t.3)
        } else {
            t
        }
    } else if is_sampler_key(k) {
        if t.2 is None {
            (t.0, t.1, scalar_text(nested), t.3)
        } else {
            t
        }
    } else if is_seed_key(k) {
        if t.3 is None {
            (t.0, t.1, t.2, scalar_text(nested))
        } else {
            t
        }
    } else {
        t
    }
}

/// The generation texts gathered from a value: walking it depth first, each
/// object entry in order adds what `info_step` says, then what its value holds.
pub open spec fn collect_info(v: JsonValue, t: InfoTexts) -> InfoTexts
    decreases v,
{
    match v {
        JsonValue::Object(entries) => collect_info_entries(entries@, t),
        JsonValue::Array(items) => collect_info_items(items@, t),
        _ => t,
    }
}

/// `collect_info` over a run of object entries.
pub open spec fn collect_info_entries(s: Seq<(String, JsonValue)>, t: InfoTexts) -> InfoTexts
    decreases s,
{
    if s.len() == 0 {
        t
    } else {
        collect_info_entries(s.drop_first(), collect_info(s[0].1, info_step(s[0].0@, s[0].1, t)))
    }
}

/// `collect_info` over a run of array items.
pub open spec fn collect_info_items(s: Seq<JsonValue>, t: InfoTexts) -> InfoTexts
    decreases s,
{
    if s.len() == 0 {
        t
    } else {
        collect_info_items(s.drop_first(), collect_info(s[0], t))
    }
}

fn apply_info_step(key: &str, nested: &JsonValue, info: &mut ParsedGenerationInfo)
    ensures
        info_texts(*final(info)) == info_step(key@, *nested, info_texts(*old(info))),
{
    let k = ascii_lower_chars(&chars_of(key));
    if chars_equal(&k, "cfg") || chars_equal(&k, "cfgscale") || chars_equal(&k, "guidance")
        || chars_equal(&k, "guidance_scale") {
        if info.cfg_scale.is_none() {
            info.cfg_scale = value_string(nested);
        }
    } else if chars_equal(&k, "steps") {
        if info.steps.is_none() {
            info.steps = value_string(nested);
        }
    } else if chars_equal(&k, "sampler") || chars_equal(&k, "sampler_name") || chars_equal(
        &k,
        "samplername",
    ) {
        if info.sampler.is_none() {
            info.sampler = value_string(nested);
        }
    } else if chars_equal(&k, "seed") || chars_equal(&k, "noise_seed") {
        if info.seed.is_none() {
            info.seed = value_string(nested);
        }
    }
}

/// Fills the empty slots of a generation info from what a value holds.
pub fn collect_generation_info(value: &JsonValue, info: &mut ParsedGenerationInfo)
    ensures
        info_texts(*final(info)) == collect_info(*value, info_texts(*old(info))),
    decreases value,
{
    match value {
        JsonValue::Object(map) => {
            let ghost t0 = info_texts(*info);
            let mut i: usize = 0;
            assert(map@.subrange(0, map@.len() as int) =~= map@);
            while i < map.len()
                invariant
                    *value == JsonValue::Object(*map),
                    i <= map@.len(),
                    collect_info_entries(map@, t0) == collect_info_entries(
                        map@.subrange(i as int, map@.len() as int),
                        info_texts(*info),
                    ),
                decreases map@.len() - i,
            {
                let ghost rest = map@.subrange(i as int, map@.len() as int);
                assert(rest[0] == map@[i as int]);
                assert(rest.drop_first() =~= map@.subrange(i + 1, map@.len() as int));
                apply_info_step(map[i].0.as_str(), &map[i].1, info);
                assert(decreases_to!(*value => value->Object_0));
                assert(decreases_to!(*value => map@[i as int].1));
                collect_generation_info(&map[i].1, info);
                i = i + 1;
            }
        },
        JsonValue::Array(items) => {
            let ghost t0 = info_texts(*info);
            let mut i: usize = 0;
            assert(items@.subrange(0, items@.len() as int) =~= items@);
            while i < items.len()
                invariant
                    *value == JsonValue::Array(*items),
                    i <= items@.len(),
                    collect_info_items(items@, t0) == collect_info_items(
                        items@.subrange(i as int, items@.len() as int),
                        info_texts(*info),
                    ),
                decreases items@.len() - i,
            {
                let ghost rest = items@.subrange(i as int, items@.len() as int);
                assert(rest[0] == items@[i as int]);
                assert(rest.drop_first() =~= items@.subrange(i + 1, items@.len() as int));
                assert(decreases_to!(*value => value->Array_0));
                assert(decreases_to!(*value => items@[i as int]));
                collect_generation_info(&items[i], info);
                i = i + 1;
            }
        },
        _ => {},
    }
}

} // verus!
