use vstd::prelude::*;

use std::collections::{HashMap, HashSet};

use crate::covers::{job_view, selected_cover, CoverJob};
use crate::forms::MainTab;
use crate::models::{version_views, ParsedModelVersion};

verus! {

broadcast use vstd::std_specs::hash::group_hash_axioms;

/// What is known of the pictures drawn so far, by image or version id: which
/// ids have one, and the render request each was drawn for.
pub struct RenderCache {
    pub cached: HashSet<u64>,
    pub request_keys: HashMap<u64, String>,
}

/// Whether, by the ids drawn and their requests, the picture of an id is
/// drawn for the given request.
pub open spec fn drawn_for(cached: Set<u64>, keys: Map<u64, String>, id: u64, key: Seq<char>) -> bool {
    cached.contains(id) && keys.contains_key(id) && keys[id]@ == key
}

/// Whether the picture of an id is drawn for the given request.
pub open spec fn cached_for(c: RenderCache, id: u64, key: Seq<char>) -> bool {
    drawn_for(c.cached@, c.request_keys@, id, key)
}

/// What reloading the selected model's cover comes to.
pub enum CoverReload {
    /// No model cover to reload (another tab, no selection, or no worker).
    Nothing,
    /// The cover is drawn for the current request: draw it again from the
    /// kept bytes.
    Rebuild { version_id: u64 },
    /// The cover is to be fetched first.
    Fetch { version_id: u64, job: Option<CoverJob> },
}

impl RenderCache {
    /// Nothing drawn.
    pub fn new() -> (c: RenderCache)
        ensures
            c.cached@ == Set::<u64>::empty(),
            c.request_keys@ == Map::<u64, String>::empty(),
    {
        RenderCache { cached: HashSet::new(), request_keys: HashMap::new() }
    }

    /// Whether the picture of an id is drawn for the given request.
    pub fn has_cached_request(&self, id: u64, key: &String) -> (b: bool)
        ensures
            b == cached_for(*self, id, key@),
    {
        if !self.cached.contains(&id) {
            return false;
        }
        match self.request_keys.get(&id) {
            Some(k) => *k == *key,
            None => false,
        }
    }

    /// A picture was drawn for a request.
    pub fn record(&mut self, id: u64, key: String)
        ensures
            final(self).cached@ == old(self).cached@.insert(id),
            final(self).request_keys@ == old(self).request_keys@.insert(id, key),
    {
        self.cached.insert(id);
        self.request_keys.insert(id, key);
    }

    /// Forgets the picture of an id.
    pub fn forget(&mut self, id: u64)
        ensures
            final(self).cached@ == old(self).cached@.remove(id),
            final(self).request_keys@ == old(self).request_keys@.remove(id),
    {
        self.cached.remove(&id);
        self.request_keys.remove(&id);
    }

    /// Forgets every picture.
    pub fn clear(&mut self)
        ensures
            final(self).cached@ == Set::<u64>::empty(),
            final(self).request_keys@ == Map::<u64, String>::empty(),
    {
        self.cached.clear();
        self.request_keys.clear();
    }
}

/// Reloads the cover of the selected model version on a model tab: when it is
/// drawn for the current request and its bytes are kept, it is drawn again
/// from them; when it is not, it is forgotten and fetched first (with the
/// cover the version shows, `index` being the picked version). Nothing
/// without a selection or a worker to ask.
pub fn reload_selected_model_cover(
    tab: MainTab,
    selected: Option<(u64, u64)>,
    cache: &mut RenderCache,
    key: &String,
    has_bytes: bool,
    worker_ready: bool,
    versions: &Vec<ParsedModelVersion>,
    index: usize,
    failed: &Vec<u64>,
) -> (r: CoverReload)
    ensures
        !(tab == MainTab::Models || tab == MainTab::SavedModels) || selected is None || !worker_ready ==> r
            is Nothing && *final(cache) == *old(cache),
        (tab == MainTab::Models || tab == MainTab::SavedModels) && worker_ready ==> match selected {
            Some((_, version_id)) => if cached_for(*old(cache), version_id, key@) {
                &&& *final(cache) == *old(cache)
                &&& if has_bytes {
                    r == (CoverReload::Rebuild { version_id })
                } else {
                    r is Nothing
                }
            } else {
                &&& final(cache).cached@ == old(cache).cached@.remove(version_id)
                &&& final(cache).request_keys@ == old(cache).request_keys@.remove(version_id)
                &&& r matches CoverReload::Fetch { version_id: v, job } && v == version_id && match selected_cover(
                    version_views(versions@),
                    index,
                    failed@,
                ) {
                    Some(c) => job matches Some(j) && job_view(j) == c,
                    None => job is None,
                }
            },
            None => true,
        },
{
    if !(tab == MainTab::Models || tab == MainTab::SavedModels) {
        return CoverReload::Nothing;
    }
    let version_id = match selected {
        Some((_, v)) => v,
        None => return CoverReload::Nothing,
    };
    if !worker_ready {
        return CoverReload::Nothing;
    }
    if cache.has_cached_request(version_id, key) {
        if has_bytes {
            CoverReload::Rebuild { version_id }
        } else {
            CoverReload::Nothing
        }
    } else {
        cache.forget(version_id);
        let job = match crate::covers::image_model_detail_selected_cover(versions, index, failed) {
            Some(j) => Some(j),
            None => None,
        };
        CoverReload::Fetch { version_id, job }
    }
}

/// The cover of the selected version is to be fetched first unless it is
/// drawn for the current request.
pub fn cover_priority_wanted(cache: &RenderCache, version_id: u64, key: &String) -> (b: bool)
    ensures
        b == !cached_for(*cache, version_id, key@),
{
    !cache.has_cached_request(version_id, key)
}

/// The selected image is to be drawn, on an image tab, unless it is drawn for
/// the current request.
pub fn image_load_wanted(tab: MainTab, image_id: Option<u64>, cache: &RenderCache, key: &String) -> (b: bool)
    ensures
        b == ((tab == MainTab::Images || tab == MainTab::SavedImages) && match image_id {
            Some(id) => !cached_for(*cache, id, key@),
            None => false,
        }),
{
    if !(tab == MainTab::Images || tab == MainTab::SavedImages) {
        return false;
    }
    match image_id {
        Some(id) => !cache.has_cached_request(id, key),
        None => false,
    }
}

/// After a change of media quality every picture is drawn again: both caches
/// and the list of covers that failed are emptied.
pub fn forget_all_media(images: &mut RenderCache, covers: &mut RenderCache, failed: &mut Vec<u64>)
    ensures
        final(images).cached@ == Set::<u64>::empty(),
        final(images).request_keys@ == Map::<u64, String>::empty(),
        final(covers).cached@ == Set::<u64>::empty(),
        final(covers).request_keys@ == Map::<u64, String>::empty(),
        final(failed)@ == Seq::<u64>::empty(),
{
    images.clear();
    covers.clear();
    failed.clear();
}

/// A picture recorded for a request is then found drawn for it, and no
/// longer once it is forgotten; recording leaves the other ids as they were.
pub proof fn law_record_then_forget(cached: Set<u64>, keys: Map<u64, String>, id: u64, key: String, other: u64, other_key: Seq<char>)
    requires
        other != id,
    ensures
        drawn_for(cached.insert(id), keys.insert(id, key), id, key@),
        !drawn_for(cached.insert(id).remove(id), keys.insert(id, key).remove(id), id, key@),
        drawn_for(cached.insert(id), keys.insert(id, key), other, other_key) == drawn_for(cached, keys, other, other_key),
{
}

} // verus!
