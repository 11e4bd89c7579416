use vstd::prelude::*;

use crate::render::{join_path, joined_path};
use crate::chars::{
    ascii_lower_chars, ascii_lower_seq, chars_equal, chars_of, concat_chars, string_of, strip_chars,
    strip_end, strip_start, trim, trim_dots,
};

verus! {

/// Characters that cannot stand in a file name on common systems.
pub open spec fn is_path_unsafe(c: char) -> bool {
    c == '/' || c == '\\' || c == ':' || c == '*' || c == '?' || c == '"' || c == '<' || c == '>'
        || c == '|'
}

/// Unsafe characters replaced by `_`.
pub open spec fn replace_unsafe(s: Seq<char>) -> Seq<char> {
    s.map_values(|c: char| if is_path_unsafe(c) { '_' } else { c })
}

/// A file-name component: unsafe characters become `_`, then surrounding white
/// space and then surrounding dots are removed.
pub open spec fn sanitized(s: Seq<char>) -> Seq<char> {
    trim_dots(trim(replace_unsafe(s)))
}

/// A component that is never empty: `unknown` stands in for an empty one.
pub open spec fn normalized_component(s: Seq<char>) -> Seq<char> {
    if sanitized(s).len() == 0 {
        "unknown"@
    } else {
        sanitized(s)
    }
}

/// The folder of a model type under `models`: the usual ComfyUI folders for
/// known types (compared without ASCII case), the sanitized lower-case type
/// for others, `uncategorized` when there is none.
pub open spec fn model_type_folder(model_type: Option<Seq<char>>) -> Seq<char> {
    let lower = match model_type {
        Some(t) => ascii_lower_seq(t),
        None => Seq::empty(),
    };
    if lower == "checkpoint"@ {
        "checkpoints"@
    } else if lower == "lora"@ {
        "loras"@
    } else if lower == "textualinversion"@ {
        "embeddings"@
    } else if lower == "controlnet"@ {
        "controlnet"@
    } else if lower == "vae"@ {
        "vae"@
    } else if lower.len() > 0 {
        sanitized(lower)
    } else {
        "uncategorized"@
    }
}

fn sanitize_chars(value: &Vec<char>) -> (r: Vec<char>)
    ensures
        r@ == sanitized(value@),
{
    let mut replaced: Vec<char> = Vec::new();
    let mut i: usize = 0;
    while i < value.len()
        invariant
            i <= value@.len(),
            replaced@ == replace_unsafe(value@.subrange(0, i as int)),
        decreases value@.len() - i,
    {
        let c = value[i];
        let unsafe_char = c == '/' || c == '\\' || c == ':' || c == '*' || c == '?' || c == '"'
            || c == '<' || c == '>' || c == '|';
        replaced.push(if unsafe_char { '_' } else { c });
        i = i + 1;
        assert(replaced@ =~= replace_unsafe(value@.subrange(0, i as int)));
    }
    assert(value@.subrange(0, value@.len() as int) =~= value@);
    let trimmed = strip_chars(&replaced, false);
    strip_chars(&trimmed, true)
}

/// A text made safe as a single file-name component.
pub fn sanitize_path_component(value: &str) -> (r: String)
    ensures
        r@ == sanitized(value@),
{
    let cs = chars_of(value);
    string_of(sanitize_chars(&cs).as_slice())
}

fn normalize_chars(value: &Vec<char>) -> (r: Vec<char>)
    ensures
        r@ == normalized_component(value@),
{
    let s = sanitize_chars(value);
    if s.len() == 0 {
        chars_of("unknown")
    } else {
        s
    }
}

/// A safe file-name component that is never empty.
pub fn normalize_path_component(value: &str) -> (r: String)
    ensures
        r@ == normalized_component(value@),
{
    let cs = chars_of(value);
    string_of(normalize_chars(&cs).as_slice())
}

/// The folder of a base model: the normalized component in ASCII lower case.
pub fn normalize_base_model_component(value: &str) -> (r: String)
    ensures
        r@ == ascii_lower_seq(normalized_component(value@)),
{
    let cs = chars_of(value);
    let n = normalize_chars(&cs);
    string_of(ascii_lower_chars(&n).as_slice())
}

/// The folder of a model type under `models`.
pub fn normalize_model_type_folder(model_type: Option<&str>) -> (r: String)
    ensures
        r@ == model_type_folder(
            match model_type {
                Some(t) => Some(t@),
                None => None,
            },
        ),
{
    let raw = match model_type {
        Some(t) => chars_of(t),
        None => Vec::new(),
    };
    let lower = ascii_lower_chars(&raw);
    proof {
        assert(ascii_lower_seq(Seq::<char>::empty()) =~= Seq::<char>::empty());
    }
    if chars_equal(&lower, "checkpoint") {
        "checkpoints".to_owned()
    } else if chars_equal(&lower, "lora") {
        "loras".to_owned()
    } else if chars_equal(&lower, "textualinversion") {
        "embeddings".to_owned()
    } else if chars_equal(&lower, "controlnet") {
        "controlnet".to_owned()
    } else if chars_equal(&lower, "vae") {
        "vae".to_owned()
    } else if lower.len() > 0 {
        string_of(sanitize_chars(&lower).as_slice())
    } else {
        "uncategorized".to_owned()
    }
}

/// What `Path::extension` gives for a path, as text; empty when it has none.
pub uninterp spec fn path_extension(path: Seq<char>) -> Seq<char>;

/// `Path::extension` of a path given as text, lossily converted back to text
/// (which loses nothing for a path that came from text); empty when none.
#[verifier::external_body]
fn file_extension(path: &str) -> (r: String)
    ensures
        r@ == path_extension(path@),
{
    std::path::Path::new(path).extension().unwrap_or_default().to_string_lossy().to_string()
}

/// The text of an optional string, or a default.
pub open spec fn or_default(s: Option<Seq<char>>, default: Seq<char>) -> Seq<char> {
    match s {
        Some(v) => v,
        None => default,
    }
}

/// The file name a model download is saved as: `<model>_<version>` (each a
/// normalized component, `unknown-model` and `unknown-version` standing in for
/// missing names) or, when the original name is blank, the sanitized fallback;
/// then the sanitized extension of the trimmed original name, when it has one.
pub open spec fn model_download_file_name(
    model_name: Option<Seq<char>>,
    version_name: Option<Seq<char>>,
    original_file_name: Seq<char>,
    fallback: Seq<char>,
) -> Seq<char> {
    let original = trim(original_file_name);
    let ext = path_extension(original);
    let model_part = normalized_component(or_default(model_name, "unknown-model"@));
    let version_part = normalized_component(or_default(version_name, "unknown-version"@));
    let stem = if original.len() == 0 {
        sanitized(fallback)
    } else {
        sanitized(model_part + "_"@ + version_part)
    };
    if ext.len() == 0 {
        stem
    } else {
        stem + "."@ + sanitized(ext)
    }
}

/// The file name a model download is saved as.
pub fn build_model_download_file_name(
    model_name: Option<&str>,
    version_name: Option<&str>,
    original_file_name: &str,
    fallback: &str,
) -> (r: String)
    ensures
        r@ == model_download_file_name(
            match model_name {
                Some(m) => Some(m@),
                None => None,
            },
            match version_name {
                Some(v) => Some(v@),
                None => None,
            },
            original_file_name@,
            fallback@,
        ),
{
    let original_chars = chars_of(original_file_name);
    let original_trimmed = strip_chars(&original_chars, false);
    let original = string_of(original_trimmed.as_slice());
    let ext = file_extension(original.as_str());
    let model_raw = match model_name {
        Some(m) => chars_of(m),
        None => chars_of("unknown-model"),
    };
    let version_raw = match version_name {
        Some(v) => chars_of(v),
        None => chars_of("unknown-version"),
    };
    let model_part = normalize_chars(&model_raw);
    let version_part = normalize_chars(&version_raw);
    let stem = if original_trimmed.len() == 0 {
        sanitize_chars(&chars_of(fallback))
    } else {
        let joined = concat_chars(&concat_chars(&model_part, &chars_of("_")), &version_part);
        sanitize_chars(&joined)
    };
    let ext_chars = chars_of(ext.as_str());
    if ext_chars.len() == 0 {
        string_of(stem.as_slice())
    } else {
        let with_dot = concat_chars(&stem, &chars_of("."));
        string_of(concat_chars(&with_dot, &sanitize_chars(&ext_chars)).as_slice())
    }
}


/// The folder a model's files go to under a download root:
/// `<root>/models/<type folder>/<base model folder>`, the base model taken as
/// `unknown-base` when it is not known.
pub fn model_download_dir(root: &str, model_type: Option<&str>, base_model: Option<&str>) -> (r: String)
    ensures
        r@ == joined_path(
            joined_path(
                joined_path(root@, "models"@),
                model_type_folder(
                    match model_type {
                        Some(t) => Some(t@),
                        None => None,
                    },
                ),
            ),
            ascii_lower_seq(
                normalized_component(
                    match base_model {
                        Some(b) => b@,
                        None => "unknown-base"@,
                    },
                ),
            ),
        ),
{
    let models = join_path(root, "models");
    let folder = normalize_model_type_folder(model_type);
    let typed = join_path(models.as_str(), folder.as_str());
    let base = match base_model {
        Some(b) => b,
        None => "unknown-base",
    };
    let base_folder = normalize_base_model_component(base);
    join_path(typed.as_str(), base_folder.as_str())
}

/// The folder a model's files go to: under the ComfyUI folder when one is
/// configured, else under `downloads` in the working folder `cwd` (see
/// `model_download_dir`).
pub fn resolve_model_download_target_dir(
    comfyui_path: Option<&str>,
    cwd: &str,
    model_type: Option<&str>,
    base_model: Option<&str>,
) -> (r: String)
    ensures
        ({
            let root = match comfyui_path {
                Some(c) => c@,
                None => joined_path(cwd@, "downloads"@),
            };
            r@ == joined_path(
                joined_path(
                    joined_path(root, "models"@),
                    model_type_folder(
                        match model_type {
                            Some(t) => Some(t@),
                            None => None,
                        },
                    ),
                ),
                ascii_lower_seq(
                    normalized_component(
                        match base_model {
                            Some(b) => b@,
                            None => "unknown-base"@,
                        },
                    ),
                ),
            )
        }),
{
    match comfyui_path {
        Some(c) => model_download_dir(c, model_type, base_model),
        None => {
            let root = join_path(cwd, "downloads");
            model_download_dir(root.as_str(), model_type, base_model)
        },
    }
}

/// The folder images are saved to: `input/civitai-cli` in the ComfyUI folder
/// when one is configured, else `downloads/images` in the working folder.
pub fn resolve_image_download_target_dir(comfyui_path: Option<&str>, cwd: &str) -> (r: String)
    ensures
        r@ == match comfyui_path {
            Some(c) => joined_path(joined_path(c@, "input"@), "civitai-cli"@),
            None => joined_path(joined_path(cwd@, "downloads"@), "images"@),
        },
{
    match comfyui_path {
        Some(c) => {
            let input = join_path(c, "input");
            join_path(input.as_str(), "civitai-cli")
        },
        None => {
            let downloads = join_path(cwd, "downloads");
            join_path(downloads.as_str(), "images")
        },
    }
}

/// The known model types go to the folders ComfyUI reads, whatever their
/// ASCII case: `checkpoint` to `checkpoints`, `lora` to `loras`,
/// `textualinversion` to `embeddings`, `controlnet` to `controlnet` and `vae`
/// to `vae`; a model without a type goes to `uncategorized`; and two types
/// that differ only in ASCII case share a folder.
pub proof fn law_model_types_go_to_comfyui_folders(t: Seq<char>, u: Seq<char>)
    ensures
        ascii_lower_seq(t) == seq!['c', 'h', 'e', 'c', 'k', 'p', 'o', 'i', 'n', 't'] ==> model_type_folder(Some(t))
            == seq!['c', 'h', 'e', 'c', 'k', 'p', 'o', 'i', 'n', 't', 's'],
        ascii_lower_seq(t) == seq!['l', 'o', 'r', 'a'] ==> model_type_folder(Some(t)) == seq!['l', 'o', 'r', 'a', 's'],
        ascii_lower_seq(t) == seq!['t', 'e', 'x', 't', 'u', 'a', 'l', 'i', 'n', 'v', 'e', 'r', 's', 'i', 'o', 'n']
            ==> model_type_folder(Some(t)) == seq!['e', 'm', 'b', 'e', 'd', 'd', 'i', 'n', 'g', 's'],
        ascii_lower_seq(t) == seq!['c', 'o', 'n', 't', 'r', 'o', 'l', 'n', 'e', 't'] ==> model_type_folder(Some(t))
            == seq!['c', 'o', 'n', 't', 'r', 'o', 'l', 'n', 'e', 't'],
        ascii_lower_seq(t) == seq!['v', 'a', 'e'] ==> model_type_folder(Some(t)) == seq!['v', 'a', 'e'],
        model_type_folder(None) == seq!['u', 'n', 'c', 'a', 't', 'e', 'g', 'o', 'r', 'i', 'z', 'e', 'd'],
        ascii_lower_seq(t) == ascii_lower_seq(u) ==> model_type_folder(Some(t)) == model_type_folder(Some(u)),
{
    reveal_strlit("checkpoint");
    reveal_strlit("checkpoints");
    reveal_strlit("lora");
    reveal_strlit("loras");
    reveal_strlit("textualinversion");
    reveal_strlit("embeddings");
    reveal_strlit("controlnet");
    reveal_strlit("vae");
    reveal_strlit("uncategorized");
    let lower = ascii_lower_seq(t);
    assert("checkpoint"@ =~= seq!['c', 'h', 'e', 'c', 'k', 'p', 'o', 'i', 'n', 't']);
    assert("checkpoints"@ =~= seq!['c', 'h', 'e', 'c', 'k', 'p', 'o', 'i', 'n', 't', 's']);
    assert("lora"@ =~= seq!['l', 'o', 'r', 'a']);
    assert("loras"@ =~= seq!['l', 'o', 'r', 'a', 's']);
    assert("textualinversion"@ =~= seq!['t', 'e', 'x', 't', 'u', 'a', 'l', 'i', 'n', 'v', 'e', 'r', 's', 'i', 'o', 'n']);
    assert("embeddings"@ =~= seq!['e', 'm', 'b', 'e', 'd', 'd', 'i', 'n', 'g', 's']);
    assert("controlnet"@ =~= seq!['c', 'o', 'n', 't', 'r', 'o', 'l', 'n', 'e', 't']);
    assert("vae"@ =~= seq!['v', 'a', 'e']);
    assert("uncategorized"@ =~= seq!['u', 'n', 'c', 'a', 't', 'e', 'g', 'o', 'r', 'i', 'z', 'e', 'd']);
    if lower == "controlnet"@ {
        assert(lower[1] != "checkpoint"@[1]);
    }
    let empty: Seq<char> = Seq::empty();
    assert(empty.len() != "checkpoint"@.len());
    assert(empty.len() != "lora"@.len());
    assert(empty.len() != "textualinversion"@.len());
    assert(empty.len() != "controlnet"@.len());
    assert(empty.len() != "vae"@.len());
}

/// No character of the text is unsafe in a file name.
pub open spec fn path_safe(s: Seq<char>) -> bool {
    forall|i: int| 0 <= i < s.len() ==> !is_path_unsafe(#[trigger] s[i])
}

proof fn lemma_strip_keeps_safe(s: Seq<char>, dots: bool)
    requires
        path_safe(s),
    ensures
        path_safe(strip_start(s, dots)),
        path_safe(strip_end(s, dots)),
    decreases s.len(),
{
    if s.len() > 0 {
        let f = s.drop_first();
        let l = s.drop_last();
        assert forall|i: int| 0 <= i < f.len() implies !is_path_unsafe(#[trigger] f[i]) by {
            assert(f[i] == s[i + 1]);
        }
        assert forall|i: int| 0 <= i < l.len() implies !is_path_unsafe(#[trigger] l[i]) by {
            assert(l[i] == s[i]);
        }
        lemma_strip_keeps_safe(f, dots);
        lemma_strip_keeps_safe(l, dots);
    }
}

proof fn lemma_sanitized_safe(s: Seq<char>)
    ensures
        path_safe(sanitized(s)),
{
    let r = replace_unsafe(s);
    assert forall|i: int| 0 <= i < r.len() implies !is_path_unsafe(#[trigger] r[i]) by {}
    lemma_strip_keeps_safe(r, false);
    lemma_strip_keeps_safe(strip_start(r, false), false);
    let t = trim(r);
    lemma_strip_keeps_safe(t, true);
    lemma_strip_keeps_safe(strip_start(t, true), true);
}

/// Folder and file names made from model data never hold a path separator or
/// another character that cannot stand in a file name: a sanitized component,
/// a normalized one (which is never empty), a model type folder, and a model
/// download's file name.
pub proof fn law_names_are_path_safe(
    s: Seq<char>,
    model_type: Option<Seq<char>>,
    model_name: Option<Seq<char>>,
    version_name: Option<Seq<char>>,
    original_file_name: Seq<char>,
    fallback: Seq<char>,
)
    ensures
        path_safe(sanitized(s)),
        path_safe(normalized_component(s)),
        normalized_component(s).len() > 0,
        path_safe(model_type_folder(model_type)),
        path_safe(model_download_file_name(model_name, version_name, original_file_name, fallback)),
{
    reveal_strlit("unknown");
    reveal_strlit("checkpoints");
    reveal_strlit("loras");
    reveal_strlit("embeddings");
    reveal_strlit("controlnet");
    reveal_strlit("vae");
    reveal_strlit("uncategorized");
    reveal_strlit("_");
    reveal_strlit(".");
    lemma_sanitized_safe(s);
    let lower = match model_type {
        Some(t) => ascii_lower_seq(t),
        None => Seq::empty(),
    };
    lemma_sanitized_safe(lower);
    let original = trim(original_file_name);
    let ext = path_extension(original);
    let model_part = normalized_component(or_default(model_name, "unknown-model"@));
    let version_part = normalized_component(or_default(version_name, "unknown-version"@));
    lemma_sanitized_safe(fallback);
    lemma_sanitized_safe(model_part + "_"@ + version_part);
    lemma_sanitized_safe(ext);
    let stem = if original.len() == 0 {
        sanitized(fallback)
    } else {
        sanitized(model_part + "_"@ + version_part)
    };
    let full = stem + "."@ + sanitized(ext);
    assert forall|i: int| 0 <= i < full.len() implies !is_path_unsafe(#[trigger] full[i]) by {
        if i < stem.len() {
            assert(full[i] == stem[i]);
        } else if i == stem.len() {
            assert(full[i] == '.');
        } else {
            assert(full[i] == sanitized(ext)[i - stem.len() - 1]);
        }
    }
}

} // verus!
