use vstd::prelude::*;

use crate::chars::{chars_of, decimal, decimal_chars, string_of, trim, trim_chars};
use crate::image::{non_blank, non_blank_string};
use crate::metadata::{opt_text, JsonValue};
use crate::paths::{build_model_download_file_name, model_download_file_name};
use crate::tags::starts_with;
use crate::text::matches_at_char;

verus! {

/// A JSON value as a mathematical tree: texts as character sequences.
pub enum JsonTree {
    Null,
    Bool(bool),
    Number(Seq<char>),
    Text(Seq<char>),
    Array(Seq<JsonTree>),
    Object(Seq<(Seq<char>, JsonTree)>),
}

/// The tree a JSON value stands for.
pub open spec fn json_view(v: JsonValue) -> JsonTree
    decreases v,
{
    match v {
        JsonValue::Null => JsonTree::Null,
        JsonValue::Bool(b) => JsonTree::Bool(b),
        JsonValue::Number(n) => JsonTree::Number(n@),
        JsonValue::Text(t) => JsonTree::Text(t@),
        JsonValue::Array(items) => JsonTree::Array(json_items_view(items@)),
        JsonValue::Object(entries) => JsonTree::Object(json_entries_view(entries@)),
    }
}

/// The trees of a run of array items.
pub open spec fn json_items_view(s: Seq<JsonValue>) -> Seq<JsonTree>
    decreases s,
{
    if s.len() == 0 {
        Seq::empty()
    } else {
        json_items_view(s.drop_last()).push(json_view(s.last()))
    }
}

/// The keys and trees of a run of object entries.
pub open spec fn json_entries_view(s: Seq<(String, JsonValue)>) -> Seq<(Seq<char>, JsonTree)>
    decreases s,
{
    if s.len() == 0 {
        Seq::empty()
    } else {
        json_entries_view(s.drop_last()).push((s.last().0@, json_view(s.last().1)))
    }
}

/// A copy of a JSON value.
pub fn copy_json(v: &JsonValue) -> (r: JsonValue)
    ensures
        json_view(r) == json_view(*v),
    decreases v,
{
    match v {
        JsonValue::Null => JsonValue::Null,
        JsonValue::Bool(b) => JsonValue::Bool(*b),
        JsonValue::Number(n) => JsonValue::Number(n.clone()),
        JsonValue::Text(t) => JsonValue::Text(t.clone()),
        JsonValue::Array(items) => {
            let mut out: Vec<JsonValue> = Vec::new();
            let mut i: usize = 0;
            while i < items.len()
                invariant
                    *v == JsonValue::Array(*items),
                    i <= items@.len(),
                    json_items_view(out@) == json_items_view(items@.subrange(0, i as int)),
                decreases items@.len() - i,
            {
                assert(decreases_to!(*v => v->Array_0));
                assert(decreases_to!(*v => items@[i as int]));
                let c = copy_json(&items[i]);
                let ghost before = out@;
                out.push(c);
                proof {
                    assert(out@.drop_last() =~= before);
                    assert(items@.subrange(0, i + 1).drop_last() =~= items@.subrange(0, i as int));
                }
                i = i + 1;
            }
            assert(items@.subrange(0, items@.len() as int) =~= items@);
            JsonValue::Array(out)
        },
        JsonValue::Object(entries) => {
            let mut out: Vec<(String, JsonValue)> = Vec::new();
            let mut i: usize = 0;
            while i < entries.len()
                invariant
                    *v == JsonValue::Object(*entries),
                    i <= entries@.len(),
                    json_entries_view(out@) == json_entries_view(entries@.subrange(0, i as int)),
                decreases entries@.len() - i,
            {
                assert(decreases_to!(*v => v->Object_0));
                assert(decreases_to!(*v => entries@[i as int].1));
                let key = entries[i].0.clone();
                let c = copy_json(&entries[i].1);
                let ghost before = out@;
                out.push((key, c));
                proof {
                    assert(out@.drop_last() =~= before);
                    assert(entries@.subrange(0, i + 1).drop_last() =~= entries@.subrange(0, i as int));
                }
                i = i + 1;
            }
            assert(entries@.subrange(0, entries@.len() as int) =~= entries@);
            JsonValue::Object(out)
        },
    }
}

/// Counters of a model or of one of its versions, as the search reports them.
/// The rating is kept as the bit pattern of its `f64`.
#[derive(Clone, Copy, Debug, PartialEq, Eq, Structural)]
pub struct ParsedModelMetrics {
    pub download_count: u64,
    pub thumbs_up_count: u64,
    pub favorite_count: u64,
    pub comment_count: u64,
    pub collected_count: u64,
    pub tipped_amount_count: u64,
    pub rating_count: u64,
    pub rating_bits: u64,
}

/// A file of a model version, as the search reports it.
pub struct ModelFileRecord {
    pub id: Option<u64>,
    pub name: Option<String>,
    pub file_type: Option<String>,
    pub size_kb_bits: Option<u64>,
    pub format: Option<String>,
    pub fp: Option<String>,
    pub primary: bool,
    pub download_url: Option<String>,
    pub pickle_scan_result: Option<String>,
    pub virus_scan_result: Option<String>,
}

/// A sample image of a model, as the search reports it.
pub struct ModelImageRecord {
    pub id: Option<u64>,
    pub model_version_id: Option<u64>,
    pub url: String,
    pub width: Option<u32>,
    pub height: Option<u32>,
    pub nsfw: Option<String>,
    pub meta: Option<JsonValue>,
}

/// A model version, as the search reports it.
pub struct ModelVersionRecord {
    pub id: u64,
    pub name: Option<String>,
    pub base_model: Option<String>,
    pub created_at: Option<String>,
    pub updated_at: Option<String>,
    pub early_access_time_frame: Option<u64>,
    pub description: Option<String>,
    pub stats: Option<ParsedModelMetrics>,
    pub files: Vec<ModelFileRecord>,
    pub images: Vec<ModelImageRecord>,
}

/// A model found by a search: what the screens read of it. The search's own
/// answers for the model's primary version, its page and its default file
/// name are kept as they came.
pub struct ModelHit {
    pub id: u64,
    pub name: Option<String>,
    pub username: Option<String>,
    pub category: Option<String>,
    pub tags: Vec<Option<String>>,
    pub model_type: Option<String>,
    pub metrics: Option<ParsedModelMetrics>,
    pub version: Option<ModelVersionRecord>,
    pub versions: Vec<ModelVersionRecord>,
    pub images: Vec<ModelImageRecord>,
    pub last_version_at_unix: Option<i64>,
    pub primary_model_version_id: Option<u64>,
    pub model_page_url: String,
    pub default_download_file_name: String,
    /// Whether the model is marked as adult content.
    pub nsfw: Option<bool>,
    /// The model's own description, when it carries one.
    pub description: Option<String>,
}

/// Where relative media paths are served from.
pub struct MediaDelivery {
    pub base_url: String,
    pub namespace: String,
}

/// A file of a version, ready to show and download.
pub struct ParsedModelFile {
    pub id: Option<u64>,
    pub name: String,
    pub file_type: Option<String>,
    pub size_kb_bits: Option<u64>,
    pub format: Option<String>,
    pub fp: Option<String>,
    pub primary: bool,
    pub download_url: Option<String>,
    pub pickle_scan_result: Option<String>,
    pub virus_scan_result: Option<String>,
}

/// A sample image of a version, with a full address.
pub struct ParsedModelImage {
    pub id: Option<u64>,
    pub model_version_id: Option<u64>,
    pub url: String,
    pub width: Option<u32>,
    pub height: Option<u32>,
    pub nsfw: Option<String>,
    pub meta: Option<JsonValue>,
}

/// A version of a model, merged from what the search reported of it.
pub struct ParsedModelVersion {
    pub id: u64,
    pub name: String,
    pub base_model: Option<String>,
    pub created_at: Option<String>,
    pub updated_at: Option<String>,
    pub early_access_time_frame: Option<u64>,
    pub description: Option<String>,
    pub stats: ParsedModelMetrics,
    pub files: Vec<ParsedModelFile>,
    pub images: Vec<ParsedModelImage>,
}

/// A parsed file, its texts as character sequences.
pub struct FileView {
    pub id: Option<u64>,
    pub name: Seq<char>,
    pub file_type: Option<Seq<char>>,
    pub size_kb_bits: Option<u64>,
    pub format: Option<Seq<char>>,
    pub fp: Option<Seq<char>>,
    pub primary: bool,
    pub download_url: Option<Seq<char>>,
    pub pickle_scan_result: Option<Seq<char>>,
    pub virus_scan_result: Option<Seq<char>>,
}

/// A parsed image, its texts as character sequences.
pub struct ImageView {
    pub id: Option<u64>,
    pub model_version_id: Option<u64>,
    pub url: Seq<char>,
    pub width: Option<u32>,
    pub height: Option<u32>,
    pub nsfw: Option<Seq<char>>,
    pub meta: Option<JsonTree>,
}

/// A parsed version, its texts as character sequences.
pub struct VersionView {
    pub id: u64,
    pub name: Seq<char>,
    pub base_model: Option<Seq<char>>,
    pub created_at: Option<Seq<char>>,
    pub updated_at: Option<Seq<char>>,
    pub early_access_time_frame: Option<u64>,
    pub description: Option<Seq<char>>,
    pub stats: ParsedModelMetrics,
    pub files: Seq<FileView>,
    pub images: Seq<ImageView>,
}

/// The tree of an optional JSON value.
pub open spec fn opt_json(v: Option<JsonValue>) -> Option<JsonTree> {
    match v {
        Some(j) => Some(json_view(j)),
        None => None,
    }
}

impl View for ParsedModelFile {
    type V = FileView;

    open spec fn view(&self) -> FileView {
        FileView {
            id: self.id,
            name: self.name@,
            file_type: opt_text(self.file_type),
            size_kb_bits: self.size_kb_bits,
            format: opt_text(self.format),
            fp: opt_text(self.fp),
            primary: self.primary,
            download_url: opt_text(self.download_url),
            pickle_scan_result: opt_text(self.pickle_scan_result),
            virus_scan_result: opt_text(self.virus_scan_result),
        }
    }
}

impl View for ParsedModelImage {
    type V = ImageView;

    open spec fn view(&self) -> ImageView {
        ImageView {
            id: self.id,
            model_version_id: self.model_version_id,
            url: self.url@,
            width: self.width,
            height: self.height,
            nsfw: opt_text(self.nsfw),
            meta: opt_json(self.meta),
        }
    }
}

/// The views of parsed files.
pub open spec fn file_views(s: Seq<ParsedModelFile>) -> Seq<FileView> {
    s.map_values(|f: ParsedModelFile| f@)
}

/// The views of parsed images.
pub open spec fn image_views(s: Seq<ParsedModelImage>) -> Seq<ImageView> {
    s.map_values(|i: ParsedModelImage| i@)
}

impl View for ParsedModelVersion {
    type V = VersionView;

    open spec fn view(&self) -> VersionView {
        VersionView {
            id: self.id,
            name: self.name@,
            base_model: opt_text(self.base_model),
            created_at: opt_text(self.created_at),
            updated_at: opt_text(self.updated_at),
            early_access_time_frame: self.early_access_time_frame,
            description: opt_text(self.description),
            stats: self.stats,
            files: file_views(self.files@),
            images: image_views(self.images@),
        }
    }
}

/// The views of parsed versions.
pub open spec fn version_views(s: Seq<ParsedModelVersion>) -> Seq<VersionView> {
    s.map_values(|v: ParsedModelVersion| v@)
}

/// Counters that are all zero.
pub open spec fn no_metrics() -> ParsedModelMetrics {
    ParsedModelMetrics {
        download_count: 0,
        thumbs_up_count: 0,
        favorite_count: 0,
        comment_count: 0,
        collected_count: 0,
        tipped_amount_count: 0,
        rating_count: 0,
        rating_bits: 0,
    }
}

/// The counters reported, or zeros when none were.
pub open spec fn metrics_of(m: Option<ParsedModelMetrics>) -> ParsedModelMetrics {
    match m {
        Some(x) => x,
        None => no_metrics(),
    }
}

/// The bit pattern is that of a zero `f64` (positive or negative).
pub open spec fn is_zero_rating(bits: u64) -> bool {
    bits == 0 || bits == 0x8000_0000_0000_0000u64
}

/// Each counter that is zero takes the other's value.
pub open spec fn merged_metrics(t: ParsedModelMetrics, i: ParsedModelMetrics) -> ParsedModelMetrics {
    ParsedModelMetrics {
        download_count: if t.download_count == 0 { i.download_count } else { t.download_count },
        thumbs_up_count: if t.thumbs_up_count == 0 { i.thumbs_up_count } else { t.thumbs_up_count },
        favorite_count: if t.favorite_count == 0 { i.favorite_count } else { t.favorite_count },
        comment_count: if t.comment_count == 0 { i.comment_count } else { t.comment_count },
        collected_count: if t.collected_count == 0 { i.collected_count } else { t.collected_count },
        tipped_amount_count: if t.tipped_amount_count == 0 {
            i.tipped_amount_count
        } else {
            t.tipped_amount_count
        },
        rating_count: if t.rating_count == 0 { i.rating_count } else { t.rating_count },
        rating_bits: if is_zero_rating(t.rating_bits) { i.rating_bits } else { t.rating_bits },
    }
}

/// A copy of an optional text.
pub fn copy_opt_string(s: &Option<String>) -> (r: Option<String>)
    ensures
        r == *s,
{
    match s {
        Some(v) => Some(v.clone()),
        None => None,
    }
}

fn copy_opt_json(v: &Option<JsonValue>) -> (r: Option<JsonValue>)
    ensures
        opt_json(r) == opt_json(*v),
{
    match v {
        Some(j) => Some(copy_json(j)),
        None => None,
    }
}

/// The counters of a model: those the search reported, or zeros.
pub fn model_metrics(hit: &ModelHit) -> (r: ParsedModelMetrics)
    ensures
        r == metrics_of(hit.metrics),
{
    parse_metrics(&hit.metrics)
}

fn parse_metrics(m: &Option<ParsedModelMetrics>) -> (r: ParsedModelMetrics)
    ensures
        r == metrics_of(*m),
{
    match m {
        Some(x) => *x,
        None => ParsedModelMetrics {
            download_count: 0,
            thumbs_up_count: 0,
            favorite_count: 0,
            comment_count: 0,
            collected_count: 0,
            tipped_amount_count: 0,
            rating_count: 0,
            rating_bits: 0,
        },
    }
}

/// Fills each zero counter of `target` from `incoming`.
pub fn merge_metrics(target: &mut ParsedModelMetrics, incoming: &ParsedModelMetrics)
    ensures
        *final(target) == merged_metrics(*old(target), *incoming),
{
    if target.download_count == 0 {
        target.download_count = incoming.download_count;
    }
    if target.thumbs_up_count == 0 {
        target.thumbs_up_count = incoming.thumbs_up_count;
    }
    if target.favorite_count == 0 {
        target.favorite_count = incoming.favorite_count;
    }
    if target.comment_count == 0 {
        target.comment_count = incoming.comment_count;
    }
    if target.collected_count == 0 {
        target.collected_count = incoming.collected_count;
    }
    if target.tipped_amount_count == 0 {
        target.tipped_amount_count = incoming.tipped_amount_count;
    }
    if target.rating_count == 0 {
        target.rating_count = incoming.rating_count;
    }
    if target.rating_bits == 0 || target.rating_bits == 0x8000_0000_0000_0000u64 {
        target.rating_bits = incoming.rating_bits;
    }
}

/// The name shown for a model: its name, when not blank, else `Model <id>`.
pub open spec fn model_name_text(hit: ModelHit) -> Seq<char> {
    match non_blank(hit.name) {
        Some(t) => t,
        None => "Model "@ + decimal(hit.id as nat),
    }
}

fn labelled_number(label: &str, n: u64) -> (r: String)
    ensures
        r@ == label@ + decimal(n as nat),
{
    let mut s = String::from_str(label);
    let digits = string_of(decimal_chars(n).as_slice());
    s.append(digits.as_str());
    s
}

/// The name shown for a model.
pub fn model_name(hit: &ModelHit) -> (r: String)
    ensures
        r@ == model_name_text(*hit),
{
    match non_blank_string(&hit.name) {
        Some(n) => n,
        None => labelled_number("Model ", hit.id),
    }
}

/// The model's author, when the name is not blank.
pub fn creator_name(hit: &ModelHit) -> (r: Option<String>)
    ensures
        opt_text(r) == non_blank(hit.username),
{
    non_blank_string(&hit.username)
}

/// The model's category, when it has one.
pub fn category_name(hit: &ModelHit) -> (r: Option<String>)
    ensures
        r == hit.category,
{
    copy_opt_string(&hit.category)
}

/// The texts present in a run of optional texts, in order.
pub open spec fn present_texts(s: Seq<Option<String>>) -> Seq<Seq<char>>
    decreases s.len(),
{
    if s.len() == 0 {
        Seq::empty()
    } else {
        let r = present_texts(s.drop_last());
        match s.last() {
            Some(t) => r.push(t@),
            None => r,
        }
    }
}

/// The names of the model's tags, in order, skipping tags without one.
pub fn tag_names(hit: &ModelHit) -> (r: Vec<String>)
    ensures
        r@.map_values(|t: String| t@) == present_texts(hit.tags@),
{
    let mut out: Vec<String> = Vec::new();
    let mut i: usize = 0;
    while i < hit.tags.len()
        invariant
            i <= hit.tags@.len(),
            out@.map_values(|t: String| t@) == present_texts(hit.tags@.subrange(0, i as int)),
        decreases hit.tags@.len() - i,
    {
        proof {
            assert(hit.tags@.subrange(0, i + 1).drop_last() =~= hit.tags@.subrange(0, i as int));
        }
        if let Some(t) = &hit.tags[i] {
            out.push(t.clone());
        }
        assert(out@.map_values(|t: String| t@) =~= present_texts(hit.tags@.subrange(0, i + 1)));
        i = i + 1;
    }
    assert(hit.tags@.subrange(0, hit.tags@.len() as int) =~= hit.tags@);
    out
}

/// A file as the version lists it: unnamed files are called `Unnamed file`.
pub open spec fn file_view_of(r: ModelFileRecord) -> FileView {
    FileView {
        id: r.id,
        name: match r.name {
            Some(n) => n@,
            None => "Unnamed file"@,
        },
        file_type: opt_text(r.file_type),
        size_kb_bits: r.size_kb_bits,
        format: opt_text(r.format),
        fp: opt_text(r.fp),
        primary: r.primary,
        download_url: opt_text(r.download_url),
        pickle_scan_result: opt_text(r.pickle_scan_result),
        virus_scan_result: opt_text(r.virus_scan_result),
    }
}

fn parse_file(r: &ModelFileRecord) -> (f: ParsedModelFile)
    ensures
        f@ == file_view_of(*r),
{
    ParsedModelFile {
        id: r.id,
        name: match &r.name {
            Some(n) => n.clone(),
            None => String::from_str("Unnamed file"),
        },
        file_type: copy_opt_string(&r.file_type),
        size_kb_bits: r.size_kb_bits,
        format: copy_opt_string(&r.format),
        fp: copy_opt_string(&r.fp),
        primary: r.primary,
        download_url: copy_opt_string(&r.download_url),
        pickle_scan_result: copy_opt_string(&r.pickle_scan_result),
        virus_scan_result: copy_opt_string(&r.virus_scan_result),
    }
}

/// The files of a version, in order.
pub fn parse_files(items: &Vec<ModelFileRecord>) -> (r: Vec<ParsedModelFile>)
    ensures
        file_views(r@) == items@.map_values(|x: ModelFileRecord| file_view_of(x)),
{
    let mut out: Vec<ParsedModelFile> = Vec::new();
    let mut i: usize = 0;
    while i < items.len()
        invariant
            i <= items@.len(),
            out@.len() == i,
            file_views(out@) == items@.subrange(0, i as int).map_values(|x: ModelFileRecord| file_view_of(x)),
        decreases items@.len() - i,
    {
        let f = parse_file(&items[i]);
        let ghost prev = out@;
        out.push(f);
        proof {
            let a = file_views(out@);
            let b = items@.subrange(0, i + 1).map_values(|x: ModelFileRecord| file_view_of(x));
            assert forall|j: int| 0 <= j < a.len() implies a[j] == b[j] by {
                if j < i {
                    assert(out@[j] == prev[j]);
                    assert(file_views(prev)[j] == prev[j]@);
                }
            }
            assert(a =~= b);
        }
        i = i + 1;
    }
    assert(items@.subrange(0, items@.len() as int) =~= items@);
    out
}

/// `s` with every trailing `c` taken off.
pub open spec fn drop_end_char(s: Seq<char>, c: char) -> Seq<char>
    decreases s.len(),
{
    if s.len() > 0 && s.last() == c {
        drop_end_char(s.drop_last(), c)
    } else {
        s
    }
}

/// `s` with every leading `c` taken off.
pub open spec fn drop_start_char(s: Seq<char>, c: char) -> Seq<char>
    decreases s.len(),
{
    if s.len() > 0 && s[0] == c {
        drop_start_char(s.drop_first(), c)
    } else {
        s
    }
}

fn strip_char_ends(s: &str, c: char, front: bool) -> (r: Vec<char>)
    ensures
        r@ == if front { drop_end_char(drop_start_char(s@, c), c) } else { drop_end_char(s@, c) },
{
    let cs = chars_of(s);
    let mut start: usize = 0;
    assert(cs@.subrange(0, cs@.len() as int) =~= cs@);
    if front {
        while start < cs.len() && cs[start] == c
            invariant
                start <= cs@.len(),
                drop_start_char(cs@, c) == drop_start_char(cs@.subrange(start as int, cs@.len() as int), c),
            decreases cs@.len() - start,
        {
            let ghost t = cs@.subrange(start as int, cs@.len() as int);
            assert(t.drop_first() =~= cs@.subrange(start + 1, cs@.len() as int));
            start = start + 1;
        }
    }
    let ghost mid = cs@.subrange(start as int, cs@.len() as int);
    proof {
        if front {
            let t = cs@.subrange(start as int, cs@.len() as int);
            assert(!(t.len() > 0 && t[0] == c));
            assert(drop_start_char(cs@, c) == t);
        } else {
            assert(mid =~= cs@);
        }
    }
    let mut end: usize = cs.len();
    while end > start && cs[end - 1] == c
        invariant
            start <= end <= cs@.len(),
            drop_end_char(mid, c) == drop_end_char(cs@.subrange(start as int, end as int), c),
        decreases end,
    {
        let ghost t = cs@.subrange(start as int, end as int);
        assert(t.drop_last() =~= cs@.subrange(start as int, end - 1));
        end = end - 1;
    }
    let mut out: Vec<char> = Vec::new();
    let mut k: usize = start;
    while k < end
        invariant
            start <= k <= end <= cs@.len(),
            out@ == cs@.subrange(start as int, k as int),
        decreases end - k,
    {
        out.push(cs[k]);
        assert(out@ =~= cs@.subrange(start as int, k + 1));
        k = k + 1;
    }
    proof {
        let t = cs@.subrange(start as int, end as int);
        assert(!(t.len() > 0 && t.last() == c));
    }
    out
}

/// The full address of a model image: blank gives none; a web address is kept
/// (trimmed); another path is served from the delivery base, under its
/// namespace, at its original size.
pub open spec fn normalized_image_url(raw: Seq<char>, base: Seq<char>, namespace: Seq<char>) -> Option<Seq<char>> {
    let t = trim(raw);
    if t.len() == 0 {
        None
    } else if starts_with(t, "http://"@) || starts_with(t, "https://"@) {
        Some(t)
    } else {
        Some(drop_end_char(base, '/') + "/"@ + drop_end_char(drop_start_char(namespace, '/'), '/') + "/"@ + t
            + "/original=true"@)
    }
}

fn normalize_model_image_url(raw: &str, delivery: &MediaDelivery) -> (r: Option<String>)
    ensures
        opt_text(r) == normalized_image_url(raw@, delivery.base_url@, delivery.namespace@),
{
    let t = trim_chars(&chars_of(raw));
    if t.len() == 0 {
        return None;
    }
    let http = chars_of("http://");
    let https = chars_of("https://");
    if matches_at_char(t.as_slice(), http.as_slice(), 0) || matches_at_char(t.as_slice(), https.as_slice(), 0) {
        return Some(string_of(t.as_slice()));
    }
    let base = strip_char_ends(delivery.base_url.as_str(), '/', false);
    let ns = strip_char_ends(delivery.namespace.as_str(), '/', true);
    let mut s = string_of(base.as_slice());
    s.append("/");
    s.append(string_of(ns.as_slice()).as_str());
    s.append("/");
    s.append(string_of(t.as_slice()).as_str());
    s.append("/original=true");
    Some(s)
}

/// An image as the version shows it, when its address is not blank.
pub open spec fn image_view_of(r: ModelImageRecord, base: Seq<char>, namespace: Seq<char>) -> Option<ImageView> {
    match normalized_image_url(r.url@, base, namespace) {
        Some(u) => Some(
            ImageView {
                id: r.id,
                model_version_id: r.model_version_id,
                url: u,
                width: r.width,
                height: r.height,
                nsfw: opt_text(r.nsfw),
                meta: opt_json(r.meta),
            },
        ),
        None => None,
    }
}

/// The images of a run of records, in order, skipping those without an address.
pub open spec fn parsed_images(s: Seq<ModelImageRecord>, base: Seq<char>, namespace: Seq<char>) -> Seq<ImageView>
    decreases s.len(),
{
    if s.len() == 0 {
        Seq::empty()
    } else {
        let r = parsed_images(s.drop_last(), base, namespace);
        match image_view_of(s.last(), base, namespace) {
            Some(v) => r.push(v),
            None => r,
        }
    }
}

/// The images of a run of records, with full addresses.
pub fn parse_images(items: &Vec<ModelImageRecord>, delivery: &MediaDelivery) -> (r: Vec<ParsedModelImage>)
    ensures
        image_views(r@) == parsed_images(items@, delivery.base_url@, delivery.namespace@),
{
    let ghost base = delivery.base_url@;
    let ghost ns = delivery.namespace@;
    let mut out: Vec<ParsedModelImage> = Vec::new();
    let mut i: usize = 0;
    while i < items.len()
        invariant
            i <= items@.len(),
            base == delivery.base_url@,
            ns == delivery.namespace@,
            image_views(out@) == parsed_images(items@.subrange(0, i as int), base, ns),
        decreases items@.len() - i,
    {
        proof {
            assert(items@.subrange(0, i + 1).drop_last() =~= items@.subrange(0, i as int));
        }
        let item = &items[i];
        let ghost prev = out@;
        if let Some(url) = normalize_model_image_url(item.url.as_str(), delivery) {
            out.push(
                ParsedModelImage {
                    id: item.id,
                    model_version_id: item.model_version_id,
                    url,
                    width: item.width,
                    height: item.height,
                    nsfw: copy_opt_string(&item.nsfw),
                    meta: copy_opt_json(&item.meta),
                },
            );
            assert(image_views(out@) =~= image_views(prev).push(out@.last()@));
        }
        assert(image_views(out@) =~= parsed_images(items@.subrange(0, i + 1), base, ns));
        i = i + 1;
    }
    assert(items@.subrange(0, items@.len() as int) =~= items@);
    out
}

/// A version as the search's record of it reads: unnamed versions are called
/// `Version <id>`.
pub open spec fn version_view_of(r: ModelVersionRecord, base: Seq<char>, namespace: Seq<char>) -> VersionView {
    VersionView {
        id: r.id,
        name: match non_blank(r.name) {
            Some(t) => t,
            None => "Version "@ + decimal(r.id as nat),
        },
        base_model: opt_text(r.base_model),
        created_at: opt_text(r.created_at),
        updated_at: opt_text(r.updated_at),
        early_access_time_frame: r.early_access_time_frame,
        description: opt_text(r.description),
        stats: metrics_of(r.stats),
        files: r.files@.map_values(|x: ModelFileRecord| file_view_of(x)),
        images: parsed_images(r.images@, base, namespace),
    }
}

fn parse_version(r: &ModelVersionRecord, delivery: &MediaDelivery) -> (v: ParsedModelVersion)
    ensures
        v@ == version_view_of(*r, delivery.base_url@, delivery.namespace@),
{
    let name = match non_blank_string(&r.name) {
        Some(n) => n,
        None => labelled_number("Version ", r.id),
    };
    ParsedModelVersion {
        id: r.id,
        name,
        base_model: copy_opt_string(&r.base_model),
        created_at: copy_opt_string(&r.created_at),
        updated_at: copy_opt_string(&r.updated_at),
        early_access_time_frame: r.early_access_time_frame,
        description: copy_opt_string(&r.description),
        stats: parse_metrics(&r.stats),
        files: parse_files(&r.files),
        images: parse_images(&r.images, delivery),
    }
}

/// Two reports of one version merged: what the first lacks (an empty name, a
/// missing text or time frame, no images, no files, zero counters) is taken
/// from the second.
pub open spec fn merged_version(e: VersionView, i: VersionView) -> VersionView {
    VersionView {
        id: e.id,
        name: if e.name.len() == 0 && i.name.len() != 0 { i.name } else { e.name },
        base_model: if e.base_model is None { i.base_model } else { e.base_model },
        created_at: if e.created_at is None { i.created_at } else { e.created_at },
        updated_at: if e.updated_at is None { i.updated_at } else { e.updated_at },
        early_access_time_frame: if e.early_access_time_frame is None {
            i.early_access_time_frame
        } else {
            e.early_access_time_frame
        },
        description: if e.description is None { i.description } else { e.description },
        stats: merged_metrics(e.stats, i.stats),
        files: if e.files.len() == 0 { i.files } else { e.files },
        images: if e.images.len() == 0 { i.images } else { e.images },
    }
}

/// `j` is the first position of a version with the given id.
pub open spec fn first_with_id(vs: Seq<VersionView>, id: u64, j: int) -> bool {
    &&& 0 <= j < vs.len()
    &&& vs[j].id == id
    &&& forall|k: int| 0 <= k < j ==> #[trigger] vs[k].id != id
}

/// The first position of a version with the given id, if there is one.
pub open spec fn find_version(vs: Seq<VersionView>, id: u64) -> Option<int> {
    if exists|j: int| first_with_id(vs, id, j) {
        Some(choose|j: int| first_with_id(vs, id, j))
    } else {
        None
    }
}

/// A version added to a list: merged into the first with its id, else
/// appended.
pub open spec fn pushed_or_merged(vs: Seq<VersionView>, v: VersionView) -> Seq<VersionView> {
    match find_version(vs, v.id) {
        Some(j) => vs.update(j, merged_version(vs[j], v)),
        None => vs.push(v),
    }
}

/// A run of versions added one after another to an empty list.
pub open spec fn gathered(rs: Seq<VersionView>) -> Seq<VersionView>
    decreases rs.len(),
{
    if rs.len() == 0 {
        Seq::empty()
    } else {
        pushed_or_merged(gathered(rs.drop_last()), rs.last())
    }
}

fn merge_version(e: ParsedModelVersion, i: ParsedModelVersion) -> (r: ParsedModelVersion)
    ensures
        r@ == merged_version(e@, i@),
{
    let ParsedModelVersion {
        id,
        name,
        base_model,
        created_at,
        updated_at,
        early_access_time_frame,
        description,
        stats,
        files,
        images,
    } = e;
    let ParsedModelVersion {
        id: _,
        name: i_name,
        base_model: i_base_model,
        created_at: i_created_at,
        updated_at: i_updated_at,
        early_access_time_frame: i_early,
        description: i_description,
        stats: i_stats,
        files: i_files,
        images: i_images,
    } = i;
    let name = if chars_of(name.as_str()).len() == 0 && chars_of(i_name.as_str()).len() != 0 {
        i_name
    } else {
        name
    };
    let mut stats = stats;
    merge_metrics(&mut stats, &i_stats);
    ParsedModelVersion {
        id,
        name,
        base_model: if base_model.is_none() { i_base_model } else { base_model },
        created_at: if created_at.is_none() { i_created_at } else { created_at },
        updated_at: if updated_at.is_none() { i_updated_at } else { updated_at },
        early_access_time_frame: if early_access_time_frame.is_none() { i_early } else { early_access_time_frame },
        description: if description.is_none() { i_description } else { description },
        stats,
        files: if files.len() == 0 { i_files } else { files },
        images: if images.len() == 0 { i_images } else { images },
    }
}

/// Adds a version to the list: merges it into the first version with its id,
/// else appends it.
pub fn push_or_merge_version(versions: &mut Vec<ParsedModelVersion>, incoming: ParsedModelVersion)
    ensures
        version_views(final(versions)@) == pushed_or_merged(version_views(old(versions)@), incoming@),
{
    let ghost vs = version_views(versions@);
    let mut j: usize = 0;
    while j < versions.len() && versions[j].id != incoming.id
        invariant
            j <= versions@.len(),
            vs == version_views(versions@),
            forall|k: int| 0 <= k < j ==> #[trigger] versions@[k].id != incoming.id,
        decreases versions@.len() - j,
    {
        j = j + 1;
    }
    if j < versions.len() {
        proof {
            assert(first_with_id(vs, incoming.id, j as int)) by {
                assert forall|k: int| 0 <= k < j implies #[trigger] vs[k].id != incoming.id by {
                    assert(vs[k] == versions@[k]@);
                }
            }
            let c = choose|c: int| first_with_id(vs, incoming.id, c);
            assert(first_with_id(vs, incoming.id, c));
            if c < j {
                assert(vs[c] == versions@[c]@);
            } else if c > j {
                assert(vs[j as int].id != incoming.id);
            }
            assert(find_version(vs, incoming.id) == Some(j as int));
        }
        let ghost before = versions@;
        let existing = versions.remove(j);
        let merged = merge_version(existing, incoming);
        versions.insert(j, merged);
        proof {
            assert(versions@ =~= before.update(j as int, merged));
            assert(version_views(versions@) =~= vs.update(j as int, merged_version(vs[j as int], incoming@)));
        }
    } else {
        proof {
            assert forall|c: int| !first_with_id(vs, incoming.id, c) by {
                if 0 <= c < vs.len() {
                    assert(vs[c] == versions@[c]@);
                }
            }
        }
        let ghost before = versions@;
        versions.push(incoming);
        assert(version_views(versions@) =~= vs.push(incoming@));
    }
}

/// The versions a hit reports, in order: its own version first, then its list.
pub open spec fn record_versions(hit: ModelHit, base: Seq<char>, namespace: Seq<char>) -> Seq<VersionView> {
    let first = match hit.version {
        Some(v) => seq![version_view_of(v, base, namespace)],
        None => Seq::empty(),
    };
    first + hit.versions@.map_values(|v: ModelVersionRecord| version_view_of(v, base, namespace))
}

/// The version that stands for a model whose search reported no version but
/// a primary version id.
pub open spec fn fallback_version(hit: ModelHit, id: u64) -> VersionView {
    VersionView {
        id,
        name: "Version "@ + decimal(id as nat),
        base_model: match hit.version {
            Some(v) => opt_text(v.base_model),
            None => None,
        },
        created_at: None,
        updated_at: None,
        early_access_time_frame: None,
        description: None,
        stats: no_metrics(),
        files: Seq::empty(),
        images: Seq::empty(),
    }
}

/// The versions gathered from a hit's reports, or the primary version when
/// there are none.
pub open spec fn collected_versions(hit: ModelHit, base: Seq<char>, namespace: Seq<char>) -> Seq<VersionView> {
    let vs = gathered(record_versions(hit, base, namespace));
    if vs.len() == 0 {
        match hit.primary_model_version_id {
            Some(id) => seq![fallback_version(hit, id)],
            None => vs,
        }
    } else {
        vs
    }
}

/// The images among `top` that belong to the version with the given id, in order.
pub open spec fn images_for(top: Seq<ImageView>, id: u64) -> Seq<ImageView>
    decreases top.len(),
{
    if top.len() == 0 {
        Seq::empty()
    } else {
        let r = images_for(top.drop_last(), id);
        if top.last().model_version_id == Some(id) {
            r.push(top.last())
        } else {
            r
        }
    }
}

/// A version without images takes the model's images that belong to it, if any.
pub open spec fn with_matching_images(v: VersionView, top: Seq<ImageView>) -> VersionView {
    if v.images.len() == 0 && images_for(top, v.id).len() > 0 {
        VersionView { images: images_for(top, v.id), ..v }
    } else {
        v
    }
}

/// The model's own images handed to its versions: each version without images
/// takes those that belong to it; then the first version, if still without
/// images, takes them all. Nothing changes when the model has no images.
pub open spec fn with_images(vs: Seq<VersionView>, top: Seq<ImageView>) -> Seq<VersionView> {
    if top.len() == 0 {
        vs
    } else {
        let a = vs.map_values(|v: VersionView| with_matching_images(v, top));
        if a.len() > 0 && a[0].images.len() == 0 {
            a.update(0, VersionView { images: top, ..a[0] })
        } else {
            a
        }
    }
}

/// Each version's zero counters filled from the model's counters.
pub open spec fn with_model_metrics(vs: Seq<VersionView>, m: ParsedModelMetrics) -> Seq<VersionView> {
    vs.map_values(|v: VersionView| VersionView { stats: merged_metrics(v.stats, m), ..v })
}

/// The versions of a model, as the screens show them.
pub open spec fn model_versions_view(hit: ModelHit, base: Seq<char>, namespace: Seq<char>) -> Seq<VersionView> {
    with_model_metrics(
        with_images(collected_versions(hit, base, namespace), parsed_images(hit.images@, base, namespace)),
        metrics_of(hit.metrics),
    )
}

fn collect_versions(hit: &ModelHit, delivery: &MediaDelivery) -> (r: Vec<ParsedModelVersion>)
    ensures
        version_views(r@) == collected_versions(*hit, delivery.base_url@, delivery.namespace@),
{
    let ghost base = delivery.base_url@;
    let ghost ns = delivery.namespace@;
    let ghost rs = record_versions(*hit, base, ns);
    let mut versions: Vec<ParsedModelVersion> = Vec::new();
    let mut f: usize = 0;
    assert(version_views(versions@) =~= Seq::<VersionView>::empty());
    if let Some(v) = &hit.version {
        let pv = parse_version(v, delivery);
        push_or_merge_version(&mut versions, pv);
        f = 1;
        proof {
            let p1 = rs.subrange(0, 1);
            assert(p1.drop_last() =~= Seq::<VersionView>::empty());
            assert(gathered(p1.drop_last()) =~= Seq::<VersionView>::empty());
            assert(p1.last() == version_view_of(*v, base, ns));
        }
    } else {
        assert(rs.subrange(0, 0) =~= Seq::<VersionView>::empty());
    }
    assert(version_views(versions@) == gathered(rs.subrange(0, f as int)));
    let mut i: usize = 0;
    while i < hit.versions.len()
        invariant
            base == delivery.base_url@,
            ns == delivery.namespace@,
            rs == record_versions(*hit, base, ns),
            f == (if hit.version is Some { 1usize } else { 0usize }),
            i <= hit.versions@.len(),
            rs.len() == f + hit.versions@.len(),
            version_views(versions@) == gathered(rs.subrange(0, f + i)),
        decreases hit.versions@.len() - i,
    {
        let pv = parse_version(&hit.versions[i], delivery);
        assert(rs[f + i] == version_view_of(hit.versions@[i as int], base, ns));
        push_or_merge_version(&mut versions, pv);
        assert(rs.subrange(0, f + i + 1).drop_last() =~= rs.subrange(0, f + i));
        i = i + 1;
    }
    assert(rs.subrange(0, rs.len() as int) =~= rs);
    if versions.len() == 0 {
        if let Some(id) = hit.primary_model_version_id {
            let base_model = match &hit.version {
                Some(v) => copy_opt_string(&v.base_model),
                None => None,
            };
            versions.push(
                ParsedModelVersion {
                    id,
                    name: labelled_number("Version ", id),
                    base_model,
                    created_at: None,
                    updated_at: None,
                    early_access_time_frame: None,
                    description: None,
                    stats: parse_metrics(&None),
                    files: Vec::new(),
                    images: Vec::new(),
                },
            );
            proof {
                let fv = versions@[0]@;
                assert(fv.files =~= Seq::<FileView>::empty());
                assert(fv.images =~= Seq::<ImageView>::empty());
                assert(version_views(versions@) =~= seq![fallback_version(*hit, id)]);
            }
        }
    }
    versions
}

fn copy_image(i: &ParsedModelImage) -> (r: ParsedModelImage)
    ensures
        r@ == i@,
{
    ParsedModelImage {
        id: i.id,
        model_version_id: i.model_version_id,
        url: i.url.clone(),
        width: i.width,
        height: i.height,
        nsfw: copy_opt_string(&i.nsfw),
        meta: copy_opt_json(&i.meta),
    }
}

fn matching_images(top: &Vec<ParsedModelImage>, id: u64) -> (r: Vec<ParsedModelImage>)
    ensures
        image_views(r@) == images_for(image_views(top@), id),
{
    let mut out: Vec<ParsedModelImage> = Vec::new();
    let mut i: usize = 0;
    while i < top.len()
        invariant
            i <= top@.len(),
            image_views(out@) == images_for(image_views(top@.subrange(0, i as int)), id),
        decreases top@.len() - i,
    {
        proof {
            assert(image_views(top@.subrange(0, i + 1)).drop_last() =~= image_views(top@.subrange(0, i as int)));
        }
        let ghost prev = out@;
        if top[i].model_version_id == Some(id) {
            out.push(copy_image(&top[i]));
            assert(image_views(out@) =~= image_views(prev).push(out@.last()@));
        }
        assert(image_views(out@) =~= images_for(image_views(top@.subrange(0, i + 1)), id));
        i = i + 1;
    }
    assert(top@.subrange(0, top@.len() as int) =~= top@);
    out
}

fn copy_images(top: &Vec<ParsedModelImage>) -> (r: Vec<ParsedModelImage>)
    ensures
        image_views(r@) == image_views(top@),
{
    let mut out: Vec<ParsedModelImage> = Vec::new();
    let mut i: usize = 0;
    while i < top.len()
        invariant
            i <= top@.len(),
            out@.len() == i,
            image_views(out@) == image_views(top@.subrange(0, i as int)),
        decreases top@.len() - i,
    {
        let ghost prev = out@;
        out.push(copy_image(&top[i]));
        proof {
            let a = image_views(out@);
            let b = image_views(top@.subrange(0, i + 1));
            assert forall|j: int| 0 <= j < a.len() implies a[j] == b[j] by {
                if j < i {
                    assert(out@[j] == prev[j]);
                    assert(image_views(prev)[j] == prev[j]@);
                }
            }
            assert(a =~= b);
        }
        i = i + 1;
    }
    assert(top@.subrange(0, top@.len() as int) =~= top@);
    out
}

fn attach_images(versions: Vec<ParsedModelVersion>, top: &Vec<ParsedModelImage>) -> (r: Vec<ParsedModelVersion>)
    ensures
        version_views(r@) == with_images(version_views(versions@), image_views(top@)),
{
    if top.len() == 0 {
        return versions;
    }
    let ghost vs = version_views(versions@);
    let ghost t = image_views(top@);
    let n = versions.len();
    let mut rest = versions;
    let mut out: Vec<ParsedModelVersion> = Vec::new();
    let mut i: usize = 0;
    while i < n
        invariant
            n == vs.len(),
            t == image_views(top@),
            t.len() > 0,
            i <= n,
            rest@.len() == n - i,
            out@.len() == i,
            version_views(rest@) == vs.subrange(i as int, n as int),
            version_views(out@) == vs.subrange(0, i as int).map_values(|v: VersionView| with_matching_images(v, t)),
        decreases n - i,
    {
        let ghost before = rest@;
        assert(version_views(before)[0] == vs[i as int]);
        let mut v = rest.remove(0);
        proof {
            let a = version_views(rest@);
            let b = vs.subrange(i + 1, n as int);
            assert forall|k: int| 0 <= k < a.len() implies a[k] == b[k] by {
                assert(rest@[k] == before[k + 1]);
                assert(version_views(before)[k + 1] == before[k + 1]@);
            }
            assert(a =~= b);
        }
        if v.images.len() == 0 {
            let m = matching_images(top, v.id);
            if m.len() > 0 {
                v.images = m;
            }
        }
        assert(v@ == with_matching_images(vs[i as int], t));
        let ghost prev_out = out@;
        out.push(v);
        proof {
            let a = version_views(out@);
            let b = vs.subrange(0, i + 1).map_values(|v: VersionView| with_matching_images(v, t));
            assert forall|k: int| 0 <= k < a.len() implies a[k] == b[k] by {
                if k < i {
                    assert(out@[k] == prev_out[k]);
                    assert(version_views(prev_out)[k] == prev_out[k]@);
                }
            }
            assert(a =~= b);
        }
        i = i + 1;
    }
    assert(vs.subrange(0, n as int) =~= vs);
    if out.len() > 0 && out[0].images.len() == 0 {
        let ghost before = out@;
        let mut first = out.remove(0);
        first.images = copy_images(top);
        out.insert(0, first);
        assert(out@ =~= before.update(0, first));
        assert(version_views(out@) =~= version_views(before).update(0, VersionView { images: t, ..version_views(before)[0] }));
    }
    out
}

fn merge_model_metrics(versions: Vec<ParsedModelVersion>, m: &ParsedModelMetrics) -> (r: Vec<ParsedModelVersion>)
    ensures
        version_views(r@) == with_model_metrics(version_views(versions@), *m),
{
    let ghost vs = version_views(versions@);
    let n = versions.len();
    let mut rest = versions;
    let mut out: Vec<ParsedModelVersion> = Vec::new();
    let mut i: usize = 0;
    while i < n
        invariant
            n == vs.len(),
            i <= n,
            rest@.len() == n - i,
            out@.len() == i,
            version_views(rest@) == vs.subrange(i as int, n as int),
            version_views(out@) == with_model_metrics(vs.subrange(0, i as int), *m),
        decreases n - i,
    {
        let ghost before = rest@;
        assert(version_views(before)[0] == vs[i as int]);
        let mut v = rest.remove(0);
        proof {
            let a = version_views(rest@);
            let b = vs.subrange(i + 1, n as int);
            assert forall|k: int| 0 <= k < a.len() implies a[k] == b[k] by {
                assert(rest@[k] == before[k + 1]);
                assert(version_views(before)[k + 1] == before[k + 1]@);
            }
            assert(a =~= b);
        }
        merge_metrics(&mut v.stats, m);
        assert(v@ == VersionView { stats: merged_metrics(vs[i as int].stats, *m), ..vs[i as int] });
        let ghost prev_out = out@;
        out.push(v);
        proof {
            let a = version_views(out@);
            let b = with_model_metrics(vs.subrange(0, i + 1), *m);
            assert forall|k: int| 0 <= k < a.len() implies a[k] == b[k] by {
                if k < i {
                    assert(out@[k] == prev_out[k]);
                    assert(version_views(prev_out)[k] == prev_out[k]@);
                }
            }
            assert(a =~= b);
        }
        i = i + 1;
    }
    assert(vs.subrange(0, n as int) =~= vs);
    out
}

/// The versions of a model: the versions it reports, merged by id in the order
/// they come (its own version first); the primary version when it reports none;
/// the model's images handed to versions without images; and the model's
/// counters filling each version's zero counters.
pub fn model_versions(hit: &ModelHit, delivery: &MediaDelivery) -> (r: Vec<ParsedModelVersion>)
    ensures
        version_views(r@) == model_versions_view(*hit, delivery.base_url@, delivery.namespace@),
{
    let collected = collect_versions(hit, delivery);
    let top = parse_images(&hit.images, delivery);
    let with_top_images = attach_images(collected, &top);
    let m = model_metrics(hit);
    merge_model_metrics(with_top_images, &m)
}

/// The version at a position, the last one when the position is past the end.
pub open spec fn version_at(vs: Seq<VersionView>, index: usize) -> Option<VersionView> {
    if vs.len() == 0 {
        None
    } else if index < vs.len() {
        Some(vs[index as int])
    } else {
        Some(vs.last())
    }
}

/// The version at a position of the model's versions, clamped to the last one;
/// none when the model has no version.
pub fn selected_version(hit: &ModelHit, index: usize, delivery: &MediaDelivery) -> (r: Option<ParsedModelVersion>)
    ensures
        match r {
            Some(v) => version_at(model_versions_view(*hit, delivery.base_url@, delivery.namespace@), index)
                == Some(v@),
            None => version_at(model_versions_view(*hit, delivery.base_url@, delivery.namespace@), index) is None,
        },
{
    let mut versions = model_versions(hit, delivery);
    let ghost vs = version_views(versions@);
    if versions.len() == 0 {
        return None;
    }
    let safe = if index < versions.len() {
        index
    } else {
        versions.len() - 1
    };
    let v = versions.remove(safe);
    assert(vs[safe as int] == v@);
    Some(v)
}

/// The base model of a model: that of its first version, else that of the
/// version the search reported with it.
pub open spec fn default_base_model_text(hit: ModelHit, base: Seq<char>, namespace: Seq<char>) -> Option<Seq<char>> {
    let first = version_at(model_versions_view(hit, base, namespace), 0);
    if first is Some && first->0.base_model is Some {
        first->0.base_model
    } else {
        match hit.version {
            Some(v) => opt_text(v.base_model),
            None => None,
        }
    }
}

/// The base model a model is filed under.
pub fn default_base_model(hit: &ModelHit, delivery: &MediaDelivery) -> (r: Option<String>)
    ensures
        opt_text(r) == default_base_model_text(*hit, delivery.base_url@, delivery.namespace@),
{
    if let Some(v) = selected_version(hit, 0, delivery) {
        if v.base_model.is_some() {
            return v.base_model;
        }
    }
    match &hit.version {
        Some(v) => copy_opt_string(&v.base_model),
        None => None,
    }
}

/// The page of a model on the site, at a version when one is given.
pub open spec fn model_url_text(hit: ModelHit, version_id: Option<u64>) -> Seq<char> {
    match version_id {
        Some(v) => "https://civitai.com/models/"@ + decimal(hit.id as nat) + "?modelVersionId="@ + decimal(
            v as nat,
        ),
        None => hit.model_page_url@,
    }
}

/// The address of a model's page, at a version when one is given.
pub fn build_model_url(hit: &ModelHit, version_id: Option<u64>) -> (r: String)
    ensures
        r@ == model_url_text(*hit, version_id),
{
    match version_id {
        Some(v) => {
            let mut s = labelled_number("https://civitai.com/models/", hit.id);
            let tail = labelled_number("?modelVersionId=", v);
            s.append(tail.as_str());
            s
        },
        None => hit.model_page_url.clone(),
    }
}

/// The file name a download of a version's file is saved as: named after the
/// model and the version, with the file's extension.
pub fn build_download_file_name(hit: &ModelHit, version: &ParsedModelVersion, file: &ParsedModelFile) -> (r: String)
    ensures
        r@ == model_download_file_name(
            opt_text(hit.name),
            Some(version.name@),
            file.name@,
            hit.default_download_file_name@,
        ),
{
    let model_name: Option<&str> = match &hit.name {
        Some(n) => Some(n.as_str()),
        None => None,
    };
    build_model_download_file_name(
        model_name,
        Some(version.name.as_str()),
        file.name.as_str(),
        hit.default_download_file_name.as_str(),
    )
}

/// No two versions share an id.
pub open spec fn ids_distinct(vs: Seq<VersionView>) -> bool {
    forall|i: int, j: int| 0 <= i < j < vs.len() ==> #[trigger] vs[i].id != #[trigger] vs[j].id
}

proof fn lemma_pushed_or_merged_distinct(vs: Seq<VersionView>, v: VersionView)
    requires
        ids_distinct(vs),
    ensures
        ids_distinct(pushed_or_merged(vs, v)),
{
    match find_version(vs, v.id) {
        Some(j) => {
            let c = choose|c: int| first_with_id(vs, v.id, c);
            assert(first_with_id(vs, v.id, c));
            let r = pushed_or_merged(vs, v);
            assert forall|a: int, b: int| 0 <= a < b < r.len() implies #[trigger] r[a].id != #[trigger] r[b].id by {
                assert(r[a].id == vs[a].id);
                assert(r[b].id == vs[b].id);
            }
        },
        None => {
            let r = vs.push(v);
            assert forall|a: int, b: int| 0 <= a < b < r.len() implies #[trigger] r[a].id != #[trigger] r[b].id by {
                if b == vs.len() && vs[a].id == v.id {
                    assert forall|k: int| 0 <= k < a implies #[trigger] vs[k].id != v.id by {
                        assert(vs[k].id != vs[a].id);
                    }
                    assert(first_with_id(vs, v.id, a));
                }
            }
        },
    }
}

proof fn lemma_gathered_distinct(rs: Seq<VersionView>)
    ensures
        ids_distinct(gathered(rs)),
    decreases rs.len(),
{
    if rs.len() > 0 {
        lemma_gathered_distinct(rs.drop_last());
        lemma_pushed_or_merged_distinct(gathered(rs.drop_last()), rs.last());
    }
}

/// The versions of a model never list one version twice: reports of one id
/// are merged into a single version.
pub proof fn law_model_versions_distinct(hit: ModelHit, base: Seq<char>, namespace: Seq<char>)
    ensures
        ids_distinct(model_versions_view(hit, base, namespace)),
{
    lemma_gathered_distinct(record_versions(hit, base, namespace));
    let c = collected_versions(hit, base, namespace);
    assert(ids_distinct(c));
    let t = parsed_images(hit.images@, base, namespace);
    let w = with_images(c, t);
    assert forall|i: int| 0 <= i < w.len() implies #[trigger] w[i].id == c[i].id by {
        if t.len() > 0 {
            let a = c.map_values(|v: VersionView| with_matching_images(v, t));
            assert(a[i].id == c[i].id);
        }
    }
    assert(w.len() == c.len());
    let r = model_versions_view(hit, base, namespace);
    assert forall|i: int, j: int| 0 <= i < j < r.len() implies #[trigger] r[i].id != #[trigger] r[j].id by {
        assert(r[i].id == w[i].id);
        assert(r[j].id == w[j].id);
    }
}

} // verus!
