use vstd::prelude::*;

use crate::chars::{chars_of, decimal, decimal_chars, string_of};
use crate::image::{non_blank, non_blank_string};
use crate::metadata::opt_text;
use crate::models::{
    build_model_url, model_name, model_name_text, model_url_text, FileView, ModelHit, ParsedModelFile,
    ParsedModelVersion, VersionView,
};
use crate::text::{compact_cell_text, compacted};

verus! {

/// A text, or a fallback when it is absent.
pub open spec fn or_text(s: Option<Seq<char>>, fallback: Seq<char>) -> Seq<char> {
    match s {
        Some(t) => t,
        None => fallback,
    }
}

/// The width inside a bordered box of `width` cells.
pub open spec fn inner_width(width: u16) -> nat {
    if width >= 2 {
        (width - 2) as nat
    } else {
        0
    }
}

/// The line naming the model's kind and author, with `| NSFW` for adult
/// content.
pub open spec fn kind_line(m: ModelHit) -> Seq<char> {
    let head = or_text(opt_text(m.model_type), "Model"@) + " | by "@ + or_text(non_blank(m.username), "unknown"@);
    if m.nsfw == Some(true) {
        head + " | NSFW"@
    } else {
        head
    }
}

/// The header of the model side panel, each line cut to the box: the model's
/// name; its kind and author; its page address (at the shown version); and,
/// with a shown version, `Selected:` with its name and base model.
pub open spec fn sidebar_header(m: ModelHit, v: Option<VersionView>, width: u16) -> Seq<Seq<char>> {
    let w = inner_width(width);
    let lines = seq![
        compacted(model_name_text(m), w),
        compacted(kind_line(m), w),
        compacted(
            model_url_text(
                m,
                match v {
                    Some(x) => Some(x.id),
                    None => None,
                },
            ),
            w,
        ),
    ];
    match v {
        Some(x) => lines.push(compacted("Selected: "@ + x.name + " | "@ + or_text(x.base_model, "Unknown base"@), w)),
        None => lines,
    }
}

fn text_or(s: &Option<String>, fallback: &str) -> (r: String)
    ensures
        r@ == or_text(opt_text(*s), fallback@),
{
    match s {
        Some(t) => t.clone(),
        None => String::from_str(fallback),
    }
}

fn inner_width_of(width: u16) -> (r: usize)
    ensures
        r == inner_width(width),
{
    if width >= 2 {
        (width - 2) as usize
    } else {
        0
    }
}

/// The header lines of the model side panel (see `sidebar_header`).
pub fn sidebar_header_lines(m: &ModelHit, version: Option<&ParsedModelVersion>, width: u16) -> (r: Vec<String>)
    ensures
        r@.map_values(|s: String| s@) == sidebar_header(
            *m,
            match version {
                Some(v) => Some(v@),
                None => None,
            },
            width,
        ),
{
    let w = inner_width_of(width);
    let mut r: Vec<String> = Vec::new();
    r.push(compact_cell_text(model_name(m), w));
    let mut kind = text_or(&m.model_type, "Model");
    kind.append(" | by ");
    let creator = non_blank_string(&m.username);
    kind.append(text_or(&creator, "unknown").as_str());
    match m.nsfw {
        Some(true) => kind.append(" | NSFW"),
        _ => {},
    }
    r.push(compact_cell_text(kind, w));
    let version_id = match version {
        Some(v) => Some(v.id),
        None => None,
    };
    r.push(compact_cell_text(build_model_url(m, version_id), w));
    match version {
        Some(v) => {
            let mut line = String::from_str("Selected: ");
            line.append(v.name.as_str());
            line.append(" | ");
            line.append(text_or(&v.base_model, "Unknown base").as_str());
            r.push(compact_cell_text(line, w));
        },
        None => {},
    }
    let ghost vv = match version {
        Some(v) => Some(v@),
        None => None,
    };
    assert(r@.map_values(|s: String| s@) =~= sidebar_header(*m, vv, width));
    r
}

/// The title of the version strip: the shown version's place among them,
/// counted from one, or `0 / 0` without versions.
pub open spec fn versions_title_text(selected: nat, total: nat) -> Seq<char> {
    if total > 0 {
        " Versions ("@ + decimal(selected + 1) + " / "@ + decimal(total) + ")"@
    } else {
        " Versions (0 / 0)"@
    }
}

/// The title of the version strip (see `versions_title_text`).
pub fn versions_title(selected: usize, total: usize) -> (r: String)
    requires
        selected < usize::MAX,
    ensures
        r@ == versions_title_text(selected as nat, total as nat),
{
    if total > 0 {
        let mut t = String::from_str(" Versions (");
        t.append(string_of(decimal_chars((selected + 1) as u64).as_slice()).as_str());
        t.append(" / ");
        t.append(string_of(decimal_chars(total as u64).as_slice()).as_str());
        t.append(")");
        t
    } else {
        String::from_str(" Versions (0 / 0)")
    }
}

/// The position of the version shown among `len`: the picked one, the last
/// when the pick is past the end (the first for no versions).
pub open spec fn shown_version_index(picked: usize, len: nat) -> nat {
    if len == 0 {
        0
    } else if picked < len {
        picked as nat
    } else {
        (len - 1) as nat
    }
}

/// The version names for the strip, the shown one marked.
pub fn version_items(versions: &Vec<ParsedModelVersion>, picked: usize) -> (r: Vec<(String, bool)>)
    ensures
        r@.len() == versions@.len(),
        forall|i: int|
            0 <= i < r@.len() ==> (#[trigger] r@[i]).0@ == versions@[i].name@ && r@[i].1 == (i == shown_version_index(
                picked,
                versions@.len(),
            )),
{
    let n = versions.len();
    let shown = if n == 0 {
        0
    } else if picked < n {
        picked
    } else {
        n - 1
    };
    let mut r: Vec<(String, bool)> = Vec::new();
    let mut i: usize = 0;
    while i < n
        invariant
            n == versions@.len(),
            i <= n,
            shown == shown_version_index(picked, n as nat),
            r@.len() == i,
            forall|k: int| 0 <= k < i ==> (#[trigger] r@[k]).0@ == versions@[k].name@ && r@[k].1 == (k == shown),
        decreases n - i,
    {
        r.push((versions[i].name.clone(), i == shown));
        i = i + 1;
    }
    r
}

/// The file a version shows: the picked one, else its primary file, else its
/// first; none when it has no files.
pub open spec fn active_file_index(files: Seq<FileView>, picked: usize) -> Option<int> {
    if picked < files.len() {
        Some(picked as int)
    } else if exists|i: int| 0 <= i < files.len() && files[i].primary {
        Some(choose|i: int| 0 <= i < files.len() && files[i].primary && forall|j: int| 0 <= j < i ==> !files[j].primary)
    } else if files.len() > 0 {
        Some(0)
    } else {
        None
    }
}

/// The position of the file a version shows (see `active_file_index`).
pub fn active_file(files: &Vec<ParsedModelFile>, picked: usize) -> (r: Option<usize>)
    ensures
        match r {
            Some(i) => active_file_index(files@.map_values(|f: ParsedModelFile| f@), picked) == Some(i as int),
            None => active_file_index(files@.map_values(|f: ParsedModelFile| f@), picked) is None,
        },
{
    let ghost fv = files@.map_values(|f: ParsedModelFile| f@);
    if picked < files.len() {
        return Some(picked);
    }
    let mut i: usize = 0;
    while i < files.len()
        invariant
            i <= files@.len(),
            fv == files@.map_values(|f: ParsedModelFile| f@),
            picked >= files@.len(),
            forall|j: int| 0 <= j < i ==> !fv[j].primary,
        decreases files@.len() - i,
    {
        if files[i].primary {
            proof {
                assert(exists|k: int| 0 <= k < fv.len() && fv[k].primary && forall|j: int| 0 <= j < k ==> !fv[j].primary);
                let c = choose|c: int| 0 <= c < fv.len() && fv[c].primary && forall|j: int| 0 <= j < c ==> !fv[j].primary;
                assert(c == i as int) by {
                    if c < i {
                    } else if c > i {
                        assert(fv[i as int].primary);
                    }
                }
            }
            return Some(i);
        }
        i = i + 1;
    }
    proof {
        assert forall|j: int| 0 <= j < fv.len() implies !fv[j].primary by {}
    }
    if files.len() > 0 {
        Some(0)
    } else {
        None
    }
}

/// One line of the file list: a marker (`> ` for the picked file, `* ` for
/// the primary one), the name, the format (`file` when unknown) with its
/// precision after a slash, and the size text when there is one.
pub open spec fn file_line_text(f: FileView, picked: bool, size: Option<Seq<char>>) -> Seq<char> {
    let marker = if picked {
        "> "@
    } else if f.primary {
        "* "@
    } else {
        "  "@
    };
    let head = marker + f.name + " | "@ + or_text(f.format, "file"@);
    let with_fp = match f.fp {
        Some(p) => head + "/"@ + p,
        None => head,
    };
    match size {
        Some(s) => with_fp + " | "@ + s,
        None => with_fp,
    }
}

/// The file list of the model side panel, for a box of `width` by `height`
/// cells: one line per file as far as the box holds, each cut to its width
/// (`sizes` holds each file's size as shown, formatted by the caller), or a
/// note that the version has no files.
pub open spec fn file_list_text(
    files: Seq<FileView>,
    picked: usize,
    sizes: Seq<Option<String>>,
    width: u16,
    height: u16,
) -> Seq<Seq<char>> {
    if files.len() == 0 {
        seq!["No files available for this version."@]
    } else {
        let shown = if inner_width(height) < files.len() {
            inner_width(height)
        } else {
            files.len()
        };
        Seq::new(
            shown,
            |i: int| compacted(file_line_text(files[i], i == picked, opt_text(sizes[i])), inner_width(width)),
        )
    }
}

fn file_line(f: &ParsedModelFile, picked: bool, size: &Option<String>, w: usize) -> (r: String)
    ensures
        r@ == compacted(file_line_text(f@, picked, opt_text(*size)), w as nat),
{
    let mut s = if picked {
        String::from_str("> ")
    } else if f.primary {
        String::from_str("* ")
    } else {
        String::from_str("  ")
    };
    s.append(f.name.as_str());
    s.append(" | ");
    s.append(text_or(&f.format, "file").as_str());
    match &f.fp {
        Some(p) => {
            s.append("/");
            s.append(p.as_str());
        },
        None => {},
    }
    match size {
        Some(z) => {
            s.append(" | ");
            s.append(z.as_str());
        },
        None => {},
    }
    compact_cell_text(s, w)
}

/// The file list of the model side panel (see `file_list_text`).
pub fn file_list_lines(
    version: &ParsedModelVersion,
    picked: usize,
    sizes: &Vec<Option<String>>,
    width: u16,
    height: u16,
) -> (r: Vec<String>)
    requires
        sizes@.len() == version.files@.len(),
    ensures
        r@.map_values(|s: String| s@) == file_list_text(
            version.files@.map_values(|f: ParsedModelFile| f@),
            picked,
            sizes@,
            width,
            height,
        ),
{
    let ghost fv = version.files@.map_values(|f: ParsedModelFile| f@);
    let n = version.files.len();
    if n == 0 {
        let r = vec![String::from_str("No files available for this version.")];
        assert(r@.map_values(|s: String| s@) =~= file_list_text(fv, picked, sizes@, width, height));
        return r;
    }
    let rows = inner_width_of(height);
    let shown = if rows < n {
        rows
    } else {
        n
    };
    let w = inner_width_of(width);
    let mut r: Vec<String> = Vec::new();
    let mut i: usize = 0;
    while i < shown
        invariant
            n == version.files@.len(),
            fv == version.files@.map_values(|f: ParsedModelFile| f@),
            sizes@.len() == n,
            shown <= n,
            i <= shown,
            w == inner_width(width),
            r@.len() == i,
            forall|k: int|
                0 <= k < i ==> (#[trigger] r@[k])@ == compacted(
                    file_line_text(fv[k], k == picked, opt_text(sizes@[k])),
                    w as nat,
                ),
        decreases shown - i,
    {
        let line = file_line(&version.files[i], i == picked, &sizes[i], w);
        r.push(line);
        i = i + 1;
    }
    assert(r@.map_values(|s: String| s@) =~= file_list_text(fv, picked, sizes@, width, height));
    r
}

/// The description the side panel shows: the model's own description; else
/// the shown version's, when not empty; else its category; else a note that
/// there is none.
pub open spec fn sidebar_description_text(m: ModelHit, v: Option<VersionView>) -> Seq<char> {
    match m.description {
        Some(d) => d@,
        None => {
            let from_version = match v {
                Some(x) => match x.description {
                    Some(d) => if d.len() > 0 {
                        Some(d)
                    } else {
                        None
                    },
                    None => None,
                },
                None => None,
            };
            match from_version {
                Some(d) => d,
                None => match m.category {
                    Some(c) => "Category: "@ + c@,
                    None => "No description available."@,
                },
            }
        },
    }
}

/// The description the side panel shows (see `sidebar_description_text`).
pub fn sidebar_description(m: &ModelHit, version: Option<&ParsedModelVersion>) -> (r: String)
    ensures
        r@ == sidebar_description_text(
            *m,
            match version {
                Some(v) => Some(v@),
                None => None,
            },
        ),
{
    match &m.description {
        Some(d) => return d.clone(),
        None => {},
    }
    match version {
        Some(v) => match &v.description {
            Some(d) => {
                if chars_of(d.as_str()).len() > 0 {
                    return d.clone();
                }
            },
            None => {},
        },
        None => {},
    }
    match &m.category {
        Some(c) => {
            let mut t = String::from_str("Category: ");
            t.append(c.as_str());
            t
        },
        None => String::from_str("No description available."),
    }
}

/// The figures of the metadata box that are formatted by the caller (the
/// counters and rating in short form, the size of the shown file).
pub struct SidebarFigures {
    pub downloads: String,
    pub likes: String,
    pub comments: String,
    pub rating: String,
    pub size: Option<String>,
}

/// The metadata box of the model side panel: a label padded to ten cells and
/// a value per row — the kind, the base model (the shown version's, else the
/// model's default, else `Unknown`), the figures, and the shown file's format
/// and size (`N/A` when unknown).
pub open spec fn detail_rows_text(
    m: ModelHit,
    v: Option<VersionView>,
    default_base: Option<Seq<char>>,
    format: Option<Seq<char>>,
    figures: SidebarFigures,
) -> Seq<Seq<char>> {
    let base = match v {
        Some(x) => match x.base_model {
            Some(b) => Some(b),
            None => default_base,
        },
        None => default_base,
    };
    seq![
        "Type       "@ + or_text(opt_text(m.model_type), "Model"@),
        "Base       "@ + or_text(base, "Unknown"@),
        "Down       "@ + figures.downloads@,
        "Likes      "@ + figures.likes@,
        "Comments   "@ + figures.comments@,
        "Rating     "@ + figures.rating@,
        "Format     "@ + or_text(format, "N/A"@),
        "Size       "@ + or_text(opt_text(figures.size), "N/A"@),
    ]
}

fn labelled(label: &str, value: &str) -> (r: String)
    ensures
        r@ == label@ + value@,
{
    let mut t = String::from_str(label);
    t.append(value);
    t
}

/// The rows of the metadata box (see `detail_rows_text`), the model's default
/// base model and the shown file's format given.
pub fn sidebar_detail_rows(
    m: &ModelHit,
    version: Option<&ParsedModelVersion>,
    default_base: Option<String>,
    format: Option<String>,
    figures: &SidebarFigures,
) -> (r: Vec<String>)
    ensures
        r@.map_values(|s: String| s@) == detail_rows_text(
            *m,
            match version {
                Some(v) => Some(v@),
                None => None,
            },
            opt_text(default_base),
            opt_text(format),
            *figures,
        ),
{
    let base = match version {
        Some(v) => match &v.base_model {
            Some(b) => Some(b.clone()),
            None => default_base,
        },
        None => default_base,
    };
    let mut r: Vec<String> = Vec::new();
    r.push(labelled("Type       ", text_or(&m.model_type, "Model").as_str()));
    r.push(labelled("Base       ", text_or(&base, "Unknown").as_str()));
    r.push(labelled("Down       ", figures.downloads.as_str()));
    r.push(labelled("Likes      ", figures.likes.as_str()));
    r.push(labelled("Comments   ", figures.comments.as_str()));
    r.push(labelled("Rating     ", figures.rating.as_str()));
    r.push(labelled("Format     ", text_or(&format, "N/A").as_str()));
    r.push(labelled("Size       ", text_or(&figures.size, "N/A").as_str()));
    let ghost vv = match version {
        Some(v) => Some(v@),
        None => None,
    };
    assert(r@.map_values(|s: String| s@) =~= detail_rows_text(*m, vv, opt_text(default_base), opt_text(format), *figures));
    r
}

proof fn lemma_first_primary(files: Seq<FileView>, k: int)
    requires
        0 <= k < files.len(),
        files[k].primary,
    ensures
        exists|i: int| 0 <= i < files.len() && files[i].primary && forall|j: int| 0 <= j < i ==> !files[j].primary,
    decreases k,
{
    if exists|j: int| 0 <= j < k && files[j].primary {
        let j = choose|j: int| 0 <= j < k && files[j].primary;
        lemma_first_primary(files, j);
    } else {
        assert(forall|j: int| 0 <= j < k ==> !files[j].primary);
    }
}


/// The sidebar always shows a version and a file that exist: the picked
/// version when there is one, else the last; the picked file when there is
/// one, else the first primary file, else the first file; no file only when
/// the version has none.
pub proof fn law_sidebar_shows_existing_version_and_file(picked: usize, len: nat, files: Seq<FileView>)
    ensures
        len > 0 ==> shown_version_index(picked, len) < len,
        picked < len ==> shown_version_index(picked, len) == picked,
        (active_file_index(files, picked) is Some) == (files.len() > 0),
        active_file_index(files, picked) matches Some(i) ==> 0 <= i < files.len(),
        picked < files.len() ==> active_file_index(files, picked) == Some(picked as int),
        picked >= files.len() && (exists|k: int| 0 <= k < files.len() && #[trigger] files[k].primary)
            ==> (active_file_index(files, picked) matches Some(i) && files[i].primary && forall|j: int|
            0 <= j < i ==> !(#[trigger] files[j]).primary),
{
    if exists|k: int| 0 <= k < files.len() && #[trigger] files[k].primary {
        let k = choose|k: int| 0 <= k < files.len() && #[trigger] files[k].primary;
        lemma_first_primary(files, k);
    }
}

} // verus!
