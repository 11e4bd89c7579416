use vstd::prelude::*;

use crate::models::{version_views, ParsedModelVersion, VersionView};

verus! {

/// A version's cover to fetch: its id, its first image's address and that
/// image's size when both sides are known.
pub type CoverJob = (u64, Option<String>, Option<(u32, u32)>);

/// The cover of a version: its first image, if it has one.
pub open spec fn version_cover(v: VersionView) -> (u64, Option<Seq<char>>, Option<(u32, u32)>) {
    if v.images.len() > 0 {
        let i = v.images[0];
        (
            v.id,
            Some(i.url),
            match (i.width, i.height) {
                (Some(w), Some(h)) => Some((w, h)),
                _ => None,
            },
        )
    } else {
        (v.id, None, None)
    }
}

/// A job as its texts.
pub open spec fn job_view(j: CoverJob) -> (u64, Option<Seq<char>>, Option<(u32, u32)>) {
    (
        j.0,
        match j.1 {
            Some(u) => Some(u@),
            None => None,
        },
        j.2,
    )
}

/// The selected position, clamped to the last version.
pub open spec fn center_of(len: nat, selected: usize) -> int {
    if selected < len { selected as int } else { len - 1 }
}

/// Version `idx` is a neighbour of the selected one worth fetching: within
/// `radius` of it (but not it), its cover neither cached nor failed.
pub open spec fn wanted_neighbor(
    vs: Seq<VersionView>,
    idx: int,
    selected: usize,
    radius: usize,
    cached: Seq<u64>,
    failed: Seq<u64>,
) -> bool {
    let center = center_of(vs.len(), selected);
    let start = if center >= radius { center - radius } else { 0 };
    let end = if center + radius < vs.len() - 1 { center + radius } else { vs.len() - 1 };
    &&& !cached.contains(vs[idx].id)
    &&& !failed.contains(vs[idx].id)
    &&& idx != center
    &&& start <= idx <= end
}

/// The covers of the first `k` versions worth fetching around the selected
/// one, in order.
pub open spec fn neighbor_covers(
    vs: Seq<VersionView>,
    k: int,
    selected: usize,
    radius: usize,
    cached: Seq<u64>,
    failed: Seq<u64>,
) -> Seq<(u64, Option<Seq<char>>, Option<(u32, u32)>)>
    decreases k,
{
    if k <= 0 {
        Seq::empty()
    } else {
        let r = neighbor_covers(vs, k - 1, selected, radius, cached, failed);
        if wanted_neighbor(vs, k - 1, selected, radius, cached, failed) {
            r.push(version_cover(vs[k - 1]))
        } else {
            r
        }
    }
}

fn contains_id(ids: &Vec<u64>, id: u64) -> (r: bool)
    ensures
        r == ids@.contains(id),
{
    let mut i: usize = 0;
    while i < ids.len()
        invariant
            i <= ids@.len(),
            forall|k: int| 0 <= k < i ==> ids@[k] != id,
        decreases ids@.len() - i,
    {
        if ids[i] == id {
            assert(ids@[i as int] == id);
            return true;
        }
        i = i + 1;
    }
    false
}

fn cover_of(v: &ParsedModelVersion) -> (r: CoverJob)
    ensures
        job_view(r) == version_cover(v@),
{
    if v.images.len() > 0 {
        let i = &v.images[0];
        assert(v@.images[0] == v.images@[0]@);
        let size = match (i.width, i.height) {
            (Some(w), Some(h)) => Some((w, h)),
            _ => None,
        };
        (v.id, Some(i.url.clone()), size)
    } else {
        (v.id, None, None)
    }
}

/// The covers to fetch ahead for the versions around the selected one (see
/// `wanted_neighbor`); `cached` and `failed` are the version ids whose cover is
/// already held or could not be fetched.
pub fn selected_model_neighbor_cover_urls(
    versions: &Vec<ParsedModelVersion>,
    selected: usize,
    radius: usize,
    cached: &Vec<u64>,
    failed: &Vec<u64>,
) -> (r: Vec<CoverJob>)
    requires
        versions@.len() > 0 ==> center_of(versions@.len(), selected) + radius <= usize::MAX,
    ensures
        r@.map_values(|j: CoverJob| job_view(j)) == neighbor_covers(
            version_views(versions@),
            versions@.len() as int,
            selected,
            radius,
            cached@,
            failed@,
        ),
{
    let ghost vs = version_views(versions@);
    let n = versions.len();
    if n == 0 {
        let r: Vec<CoverJob> = Vec::new();
        assert(r@.map_values(|j: CoverJob| job_view(j)) =~= Seq::<(u64, Option<Seq<char>>, Option<(u32, u32)>)>::empty());
        return r;
    }
    let center: usize = if selected < n {
        selected
    } else {
        n - 1
    };
    let start: usize = if center >= radius {
        center - radius
    } else {
        0
    };
    let end: usize = if center + radius < n - 1 {
        center + radius
    } else {
        n - 1
    };
    let mut out: Vec<CoverJob> = Vec::new();
    let mut k: usize = 0;
    assert(out@.map_values(|j: CoverJob| job_view(j)) =~= Seq::<(u64, Option<Seq<char>>, Option<(u32, u32)>)>::empty());
    while k < n
        invariant
            n == versions@.len(),
            n > 0,
            vs == version_views(versions@),
            center == center_of(vs.len(), selected),
            start == (if center >= radius { center - radius } else { 0 }),
            end == (if center + radius < vs.len() - 1 { center + radius } else { vs.len() - 1 }),
            k <= n,
            out@.map_values(|j: CoverJob| job_view(j)) == neighbor_covers(vs, k as int, selected, radius, cached@, failed@),
        decreases n - k,
    {
        let v = &versions[k];
        assert(vs[k as int] == v@);
        let ghost before = out@;
        if !contains_id(cached, v.id) && !contains_id(failed, v.id) && k != center && k >= start && k <= end {
            out.push(cover_of(v));
            assert(out@.map_values(|j: CoverJob| job_view(j)) =~= before.map_values(|j: CoverJob| job_view(j)).push(
                version_cover(vs[k as int]),
            ));
        }
        k = k + 1;
    }
    out
}

/// The cover of the version at a position (the last one past the end), none
/// when there are no versions or its cover could not be fetched before.
pub open spec fn selected_cover(vs: Seq<VersionView>, index: usize, failed: Seq<u64>) -> Option<
    (u64, Option<Seq<char>>, Option<(u32, u32)>),
> {
    if vs.len() == 0 {
        None
    } else {
        let v = vs[center_of(vs.len(), index)];
        if failed.contains(v.id) {
            None
        } else {
            Some(version_cover(v))
        }
    }
}

/// The selected version's cover to show, with the model's id first.
pub fn selected_model_version_with_cover_url(
    model_id: u64,
    versions: &Vec<ParsedModelVersion>,
    index: usize,
    failed: &Vec<u64>,
) -> (r: Option<(u64, CoverJob)>)
    ensures
        match selected_cover(version_views(versions@), index, failed@) {
            Some(c) => r matches Some((m, j)) && m == model_id && job_view(j) == c,
            None => r is None,
        },
{
    let n = versions.len();
    if n == 0 {
        return None;
    }
    let at: usize = if index < n {
        index
    } else {
        n - 1
    };
    let v = &versions[at];
    assert(version_views(versions@)[at as int] == v@);
    if contains_id(failed, v.id) {
        return None;
    }
    Some((model_id, cover_of(v)))
}

/// The covers to fetch ahead around the version selected in the image's model
/// window (see `wanted_neighbor`).
pub fn image_model_detail_neighbor_cover_urls(
    versions: &Vec<ParsedModelVersion>,
    selected: usize,
    radius: usize,
    cached: &Vec<u64>,
    failed: &Vec<u64>,
) -> (r: Vec<CoverJob>)
    requires
        versions@.len() > 0 ==> center_of(versions@.len(), selected) + radius <= usize::MAX,
    ensures
        r@.map_values(|j: CoverJob| job_view(j)) == neighbor_covers(
            version_views(versions@),
            versions@.len() as int,
            selected,
            radius,
            cached@,
            failed@,
        ),
{
    selected_model_neighbor_cover_urls(versions, selected, radius, cached, failed)
}

/// The cover of the version selected in the image's model window (see
/// `selected_cover`).
pub fn image_model_detail_selected_cover(versions: &Vec<ParsedModelVersion>, index: usize, failed: &Vec<u64>) -> (r: Option<CoverJob>)
    ensures
        match selected_cover(version_views(versions@), index, failed@) {
            Some(c) => r matches Some(j) && job_view(j) == c,
            None => r is None,
        },
{
    match selected_model_version_with_cover_url(0, versions, index, failed) {
        Some((_, job)) => Some(job),
        None => None,
    }
}

} // verus!
