use vstd::prelude::*;

use crate::chars::{decimal, decimal_chars, string_of};

verus! {

/// The pixel size images are decoded to.
#[derive(Clone, Copy, Debug, PartialEq, Eq, Structural)]
pub struct MediaRenderRequest {
    pub width: u32,
    pub height: u32,
}

/// `n` scaled by `num / den` and rounded to the nearest integer, halves up.
pub open spec fn scaled_round(n: int, num: int, den: int) -> int {
    (2 * n * num + den) / (2 * den)
}

/// The larger of two numbers.
pub open spec fn at_least(v: int, floor: int) -> int {
    if v < floor {
        floor
    } else {
        v
    }
}

fn scale_round(n: u16, num: u32, den: u32, floor: u32) -> (r: u32)
    requires
        0 < num < den <= 100,
        floor <= 100,
    ensures
        r == at_least(scaled_round(n as int, num as int, den as int), floor as int),
        r <= at_least(n as int, floor as int),
{
    let n32 = n as u32;
    assert(2 * n32 * num + den <= 2 * 65535 * 100 + 100) by (nonlinear_arith)
        requires
            n32 <= 65535,
            num <= 100,
            den <= 100,
    ;
    let v: u32 = (2 * n32 * num + den) / (2 * den);
    assert(v <= n32) by (nonlinear_arith)
        requires
            v == (2 * n32 * num + den) / (2 * den),
            0 < num < den,
    ;
    if v < floor {
        floor
    } else {
        v
    }
}

/// The decode size for the image panel of a terminal: 46% of the columns (at
/// least 24) at 14 pixels each, by 72% of the rows (at least 12) at 28 pixels
/// each, each share rounded to the nearest cell.
pub fn image_render_request_for_size(cols: u16, rows: u16) -> (r: MediaRenderRequest)
    ensures
        r.width == at_least(scaled_round(cols as int, 23, 50), 24) * 14,
        r.height == at_least(scaled_round(rows as int, 18, 25), 12) * 28,
{
    let panel_width = scale_round(cols, 23, 50, 24);
    let panel_height = scale_round(rows, 18, 25, 12);
    MediaRenderRequest { width: panel_width * 14, height: panel_height * 28 }
}

/// The decode size for a model cover: 38% of the columns (at least 18) at 12
/// pixels each, by 38% of the rows (at least 10) at 24 pixels each, each share
/// rounded to the nearest cell.
pub fn model_cover_render_request_for_size(cols: u16, rows: u16) -> (r: MediaRenderRequest)
    ensures
        r.width == at_least(scaled_round(cols as int, 19, 50), 18) * 12,
        r.height == at_least(scaled_round(rows as int, 19, 50), 10) * 24,
{
    let panel_width = scale_round(cols, 19, 50, 18);
    let panel_height = scale_round(rows, 19, 50, 10);
    MediaRenderRequest { width: panel_width * 12, height: panel_height * 24 }
}

/// `<quality>:<width>x<height>`.
pub open spec fn render_key(request: MediaRenderRequest, quality_label: Seq<char>) -> Seq<char> {
    quality_label + ":"@ + decimal(request.width as nat) + "x"@ + decimal(request.height as nat)
}

/// The cache key of a decode size at a media quality, given the quality's label.
pub fn render_request_key(request: MediaRenderRequest, quality_label: &str) -> (r: String)
    ensures
        r@ == render_key(request, quality_label@),
{
    let width = string_of(decimal_chars(request.width as u64).as_slice());
    let height = string_of(decimal_chars(request.height as u64).as_slice());
    let mut r = String::new();
    r.append(quality_label);
    r.append(":");
    r.append(width.as_str());
    r.append("x");
    r.append(height.as_str());
    r
}

/// The cache key of a decoded image: the decode size key, then `@` and the size
/// of the area it is drawn in.
pub fn image_render_cache_key(
    request: MediaRenderRequest,
    quality_label: &str,
    area_width: u16,
    area_height: u16,
) -> (r: String)
    ensures
        r@ == render_key(request, quality_label@) + "@"@ + decimal(area_width as nat) + "x"@
            + decimal(area_height as nat),
{
    let mut r = render_request_key(request, quality_label);
    let width = string_of(decimal_chars(area_width as u64).as_slice());
    let height = string_of(decimal_chars(area_height as u64).as_slice());
    r.append("@");
    r.append(width.as_str());
    r.append("x");
    r.append(height.as_str());
    r
}

/// What `Path::join` gives for a directory and a relative name, as text.
pub uninterp spec fn joined_path(dir: Seq<char>, name: Seq<char>) -> Seq<char>;

/// `Path::join`, on paths given as text.
#[verifier::external_body]
pub(crate) fn join_path(dir: &str, name: &str) -> (r: String)
    ensures
        r@ == joined_path(dir@, name@),
{
    std::path::Path::new(dir).join(name).to_string_lossy().to_string()
}

/// Where fetch debugging goes: `fetch_debug.log` in the configuration directory,
/// else in the search cache directory; nowhere when neither is known.
pub fn debug_fetch_log_path(config_dir: Option<&str>, search_cache_dir: Option<&str>) -> (r: Option<String>)
    ensures
        match (config_dir, search_cache_dir) {
            (Some(d), _) => r matches Some(p) && p@ == joined_path(d@, "fetch_debug.log"@),
            (None, Some(d)) => r matches Some(p) && p@ == joined_path(d@, "fetch_debug.log"@),
            (None, None) => r is None,
        },
{
    match config_dir {
        Some(d) => Some(join_path(d, "fetch_debug.log")),
        None => match search_cache_dir {
            Some(d) => Some(join_path(d, "fetch_debug.log")),
            None => None,
        },
    }
}

} // verus!
