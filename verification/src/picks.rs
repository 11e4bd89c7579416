use vstd::prelude::*;

use std::collections::HashMap;

use crate::forms::MainTab;

verus! {

broadcast use vstd::std_specs::hash::group_hash_axioms;

/// What the detail panes have picked, remembered per item: the version of
/// each model (by model id), the file of each version (by version id), and
/// the used model of each image (by image id). An item never picked is at
/// its first entry.
pub struct DetailPicks {
    pub version_index: HashMap<u64, usize>,
    pub file_index: HashMap<u64, usize>,
    pub image_model_index: HashMap<u64, usize>,
}

/// The position picked for a key, the first when none was.
pub open spec fn picked(m: Map<u64, usize>, key: u64) -> usize {
    if m.contains_key(key) {
        m[key]
    } else {
        0
    }
}

/// The position among `len` entries that a pick names: itself when within
/// the list, the last entry when past its end; none for an empty list.
pub open spec fn pick_within(index: usize, len: nat) -> Option<int> {
    if len == 0 {
        None
    } else if index < len {
        Some(index as int)
    } else {
        Some(len - 1)
    }
}

/// The map with a key given the first position unless it has one.
pub open spec fn with_default(m: Map<u64, usize>, key: u64) -> Map<u64, usize> {
    if m.contains_key(key) {
        m
    } else {
        m.insert(key, 0)
    }
}

fn get_or_first(m: &HashMap<u64, usize>, key: u64) -> (r: usize)
    ensures
        r == picked(m@, key),
{
    match m.get(&key) {
        Some(v) => *v,
        None => 0,
    }
}

fn ensure_entry(m: &mut HashMap<u64, usize>, key: u64)
    ensures
        final(m)@ == with_default(old(m)@, key),
{
    if !m.contains_key(&key) {
        m.insert(key, 0);
    }
}

impl DetailPicks {
    /// Nothing picked yet.
    pub fn new() -> (p: DetailPicks)
        ensures
            p.version_index@ == Map::<u64, usize>::empty(),
            p.file_index@ == Map::<u64, usize>::empty(),
            p.image_model_index@ == Map::<u64, usize>::empty(),
    {
        DetailPicks { version_index: HashMap::new(), file_index: HashMap::new(), image_model_index: HashMap::new() }
    }

    /// The version picked for a model.
    pub fn selected_version_index(&self, model_id: u64) -> (r: usize)
        ensures
            r == picked(self.version_index@, model_id),
    {
        get_or_first(&self.version_index, model_id)
    }

    /// The file picked for a version.
    pub fn selected_file_index(&self, version_id: u64) -> (r: usize)
        ensures
            r == picked(self.file_index@, version_id),
    {
        get_or_first(&self.file_index, version_id)
    }

    /// The used model picked for an image.
    pub fn selected_image_model_index(&self, image_id: u64) -> (r: usize)
        ensures
            r == picked(self.image_model_index@, image_id),
    {
        get_or_first(&self.image_model_index, image_id)
    }

    /// Picks the next version of a model whose versions have the given ids,
    /// staying on the last one; the newly picked version starts at its first
    /// file unless it has a pick.
    pub fn select_next_version(&mut self, model_id: u64, version_ids: &Vec<u64>)
        ensures
            ({
                let cur = picked(old(self).version_index@, model_id);
                if cur + 1 < version_ids@.len() {
                    &&& final(self).version_index@ == old(self).version_index@.insert(model_id, (cur + 1) as usize)
                    &&& final(self).file_index@ == with_default(old(self).file_index@, version_ids@[cur + 1])
                } else {
                    &&& final(self).version_index@ == old(self).version_index@
                    &&& final(self).file_index@ == old(self).file_index@
                }
            }),
            final(self).image_model_index@ == old(self).image_model_index@,
    {
        let cur = get_or_first(&self.version_index, model_id);
        if version_ids.len() > 0 && cur < version_ids.len() - 1 {
            let next = cur + 1;
            self.version_index.insert(model_id, next);
            ensure_entry(&mut self.file_index, version_ids[next]);
        }
    }

    /// Picks the previous version of a model whose versions have the given
    /// ids, staying on the first one; the newly picked version (the last one
    /// when the pick was past the end) starts at its first file unless it has
    /// a pick.
    pub fn select_previous_version(&mut self, model_id: u64, version_ids: &Vec<u64>)
        ensures
            ({
                let cur = picked(old(self).version_index@, model_id);
                if cur > 0 {
                    &&& final(self).version_index@ == old(self).version_index@.insert(model_id, (cur - 1) as usize)
                    &&& final(self).file_index@ == match pick_within((cur - 1) as usize, version_ids@.len()) {
                        Some(p) => with_default(old(self).file_index@, version_ids@[p]),
                        None => old(self).file_index@,
                    }
                } else {
                    &&& final(self).version_index@ == old(self).version_index@
                    &&& final(self).file_index@ == old(self).file_index@
                }
            }),
            final(self).image_model_index@ == old(self).image_model_index@,
    {
        let cur = get_or_first(&self.version_index, model_id);
        if cur > 0 {
            let next = cur - 1;
            self.version_index.insert(model_id, next);
            let n = version_ids.len();
            if n > 0 {
                let p = if next < n {
                    next
                } else {
                    n - 1
                };
                ensure_entry(&mut self.file_index, version_ids[p]);
            }
        }
    }

    /// Picks the next file of the picked version of a model, staying on the
    /// last one; the versions are given by their ids and file counts, and a
    /// pick past the end names the last version.
    pub fn select_next_file(&mut self, model_id: u64, version_ids: &Vec<u64>, file_counts: &Vec<usize>)
        requires
            version_ids@.len() == file_counts@.len(),
        ensures
            final(self).version_index@ == old(self).version_index@,
            final(self).image_model_index@ == old(self).image_model_index@,
            final(self).file_index@ == match pick_within(
                picked(old(self).version_index@, model_id),
                version_ids@.len(),
            ) {
                Some(p) => if file_counts@[p] == 0 {
                    old(self).file_index@
                } else {
                    let v = version_ids@[p];
                    let cur = picked(old(self).file_index@, v);
                    if cur + 1 < file_counts@[p] {
                        old(self).file_index@.insert(v, (cur + 1) as usize)
                    } else {
                        with_default(old(self).file_index@, v)
                    }
                },
                None => old(self).file_index@,
            },
    {
        let vi = get_or_first(&self.version_index, model_id);
        let n = version_ids.len();
        if n == 0 {
            return;
        }
        let p = if vi < n {
            vi
        } else {
            n - 1
        };
        let count = file_counts[p];
        if count == 0 {
            return;
        }
        let v = version_ids[p];
        let cur = get_or_first(&self.file_index, v);
        if cur < count - 1 {
            self.file_index.insert(v, cur + 1);
        } else {
            ensure_entry(&mut self.file_index, v);
        }
    }

    /// Picks the previous file of the picked version of a model, staying on
    /// the first one (which the version then has as its pick).
    pub fn select_previous_file(&mut self, model_id: u64, version_ids: &Vec<u64>)
        ensures
            final(self).version_index@ == old(self).version_index@,
            final(self).image_model_index@ == old(self).image_model_index@,
            final(self).file_index@ == match pick_within(
                picked(old(self).version_index@, model_id),
                version_ids@.len(),
            ) {
                Some(p) => {
                    let v = version_ids@[p];
                    let cur = picked(old(self).file_index@, v);
                    if cur > 0 {
                        old(self).file_index@.insert(v, (cur - 1) as usize)
                    } else {
                        with_default(old(self).file_index@, v)
                    }
                },
                None => old(self).file_index@,
            },
    {
        let vi = get_or_first(&self.version_index, model_id);
        let n = version_ids.len();
        if n == 0 {
            return;
        }
        let p = if vi < n {
            vi
        } else {
            n - 1
        };
        let v = version_ids[p];
        let cur = get_or_first(&self.file_index, v);
        if cur > 0 {
            self.file_index.insert(v, cur - 1);
        } else {
            ensure_entry(&mut self.file_index, v);
        }
    }

    /// On an image tab, picks the next of the `used` models of an image,
    /// staying on the last one; nothing for an image without used models or
    /// on another tab.
    pub fn select_next_image_model(&mut self, tab: MainTab, image_id: u64, used: usize)
        ensures
            final(self).version_index@ == old(self).version_index@,
            final(self).file_index@ == old(self).file_index@,
            final(self).image_model_index@ == if (tab == MainTab::Images || tab == MainTab::SavedImages) && used > 0 {
                let cur = picked(old(self).image_model_index@, image_id);
                if cur + 1 < used {
                    old(self).image_model_index@.insert(image_id, (cur + 1) as usize)
                } else {
                    with_default(old(self).image_model_index@, image_id)
                }
            } else {
                old(self).image_model_index@
            },
    {
        if !(tab == MainTab::Images || tab == MainTab::SavedImages) || used == 0 {
            return;
        }
        let cur = get_or_first(&self.image_model_index, image_id);
        if cur < used - 1 {
            self.image_model_index.insert(image_id, cur + 1);
        } else {
            ensure_entry(&mut self.image_model_index, image_id);
        }
    }

    /// On an image tab, picks the previous used model of an image, staying on
    /// the first one (which the image then has as its pick).
    pub fn select_previous_image_model(&mut self, tab: MainTab, image_id: u64)
        ensures
            final(self).version_index@ == old(self).version_index@,
            final(self).file_index@ == old(self).file_index@,
            final(self).image_model_index@ == if tab == MainTab::Images || tab == MainTab::SavedImages {
                let cur = picked(old(self).image_model_index@, image_id);
                if cur > 0 {
                    old(self).image_model_index@.insert(image_id, (cur - 1) as usize)
                } else {
                    with_default(old(self).image_model_index@, image_id)
                }
            } else {
                old(self).image_model_index@
            },
    {
        if !(tab == MainTab::Images || tab == MainTab::SavedImages) {
            return;
        }
        let cur = get_or_first(&self.image_model_index, image_id);
        if cur > 0 {
            self.image_model_index.insert(image_id, cur - 1);
        } else {
            ensure_entry(&mut self.image_model_index, image_id);
        }
    }
}

/// Stepping to the next version and back leaves the model at the version it
/// was on, when it was not on the last one.
pub proof fn law_version_pick_round_trip(m: Map<u64, usize>, model_id: u64, len: nat)
    requires
        picked(m, model_id) + 1 < len,
        len <= usize::MAX,
    ensures
        ({
            let down = m.insert(model_id, (picked(m, model_id) + 1) as usize);
            picked(down.insert(model_id, (picked(down, model_id) - 1) as usize), model_id) == picked(m, model_id)
        }),
{
}

} // verus!
