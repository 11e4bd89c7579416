use vstd::prelude::*;

use crate::app::App;
use crate::browse::{current, BrowseLists};
use crate::chars::{decimal, decimal_chars, string_of};
use crate::forms::MainTab;
use crate::image::ParsedUsedModel;
use crate::models::{
    model_name, model_name_text, model_versions, model_versions_view, selected_version, version_at,
    MediaDelivery, ModelHit, ParsedModelVersion, VersionView,
};
use crate::picks::{picked, DetailPicks};
use crate::results::ModelResults;
use crate::savedmodels::{positions_fit, refreshed, LikedFilter, LikedModels};

verus! {

/// The model selected on the tab: on the model results the selected one (the
/// first when none is), on the saved models the selected shown one; none on
/// other tabs or past the end of the list.
pub open spec fn active_model(tab: MainTab, lists: BrowseLists, models: Seq<ModelHit>, liked: LikedModels) -> Option<
    ModelHit,
> {
    if tab == MainTab::Models {
        let i = current(lists.model_selected);
        if i < models.len() {
            Some(models[i])
        } else {
            None
        }
    } else if tab == MainTab::SavedModels {
        let i = current(liked.selected);
        if i < liked.visible_liked_models_cache@.len() {
            Some(liked.liked_models@[liked.visible_liked_models_cache@[i] as int])
        } else {
            None
        }
    } else {
        None
    }
}

/// The version a model shows, by id: the picked one among its versions
/// (the last when the pick is past the end), else its primary version.
pub open spec fn shown_version_id(m: ModelHit, index: usize, base: Seq<char>, namespace: Seq<char>) -> Option<u64> {
    match version_at(model_versions_view(m, base, namespace), index) {
        Some(v) => Some(v.id),
        None => m.primary_model_version_id,
    }
}

/// The model selected on the tab (see `active_model`).
pub fn selected_model_in_active_view<'a>(
    tab: MainTab,
    lists: &BrowseLists,
    results: &'a ModelResults,
    liked: &'a LikedModels,
) -> (r: Option<&'a ModelHit>)
    requires
        positions_fit(*liked),
    ensures
        match r {
            Some(m) => active_model(tab, *lists, results.models@, *liked) == Some(*m),
            None => active_model(tab, *lists, results.models@, *liked) is None,
        },
{
    match tab {
        MainTab::Models => {
            let i = match lists.model_selected {
                Some(i) => i,
                None => 0,
            };
            if i < results.models.len() {
                Some(&results.models[i])
            } else {
                None
            }
        },
        MainTab::SavedModels => {
            let i = match liked.selected {
                Some(i) => i,
                None => 0,
            };
            if i < liked.visible_liked_models_cache.len() {
                let p = liked.visible_liked_models_cache[i];
                Some(&liked.liked_models[p])
            } else {
                None
            }
        },
        _ => None,
    }
}

/// The model and version ids the selected model shows (see
/// `shown_version_id`), with the version picked for the model.
pub fn selected_model_version(m: &ModelHit, picks: &DetailPicks, delivery: &MediaDelivery) -> (r: Option<(u64, u64)>)
    ensures
        match shown_version_id(*m, picked(picks.version_index@, m.id), delivery.base_url@, delivery.namespace@) {
            Some(v) => r == Some((m.id, v)),
            None => r is None,
        },
{
    let index = picks.selected_version_index(m.id);
    match selected_version(m, index, delivery) {
        Some(v) => Some((m.id, v.id)),
        None => match m.primary_model_version_id {
            Some(p) => Some((m.id, p)),
            None => None,
        },
    }
}

impl App {
    /// Asks for the picked file of the picked version of a model to be
    /// downloaded, when a worker is there to ask: the status line names the
    /// model, the version and the file (counted from one), and the version id
    /// and file position are handed back. Nothing for a model without
    /// versions.
    pub fn request_download_for_model(
        &mut self,
        m: &ModelHit,
        picks: &DetailPicks,
        delivery: &MediaDelivery,
        worker_ready: bool,
    ) -> (r: Option<(u64, usize)>)
        requires
            forall|k: u64| #[trigger] picks.file_index@.contains_key(k) ==> picks.file_index@[k] < usize::MAX,
        ensures
            ({
                let vs = model_versions_view(*m, delivery.base_url@, delivery.namespace@);
                match version_at(vs, picked(picks.version_index@, m.id)) {
                    Some(v) => if worker_ready {
                        let f = picked(picks.file_index@, v.id);
                        &&& r == Some((v.id, f))
                        &&& final(self).status@ == "Initiated download for "@ + model_name_text(*m)
                            + " (v: "@ + v.name + ", file: "@ + decimal((f + 1) as nat) + ")"@
                        &&& *final(self) == (App { status: final(self).status, ..*old(self) })
                    } else {
                        r is None && *final(self) == *old(self)
                    },
                    None => r is None && *final(self) == *old(self),
                }
            }),
    {
        let index = picks.selected_version_index(m.id);
        let v = match selected_version(m, index, delivery) {
            Some(v) => v,
            None => return None,
        };
        if !worker_ready {
            return None;
        }
        let f = picks.selected_file_index(v.id);
        let mut text = String::from_str("Initiated download for ");
        text.append(model_name(m).as_str());
        text.append(" (v: ");
        text.append(v.name.as_str());
        text.append(", file: ");
        text.append(string_of(decimal_chars((f + 1) as u64).as_slice()).as_str());
        text.append(")");
        self.status = text;
        Some((v.id, f))
    }

    /// Asks for the selected image to be downloaded, when a worker is there
    /// to ask, saying so.
    pub fn request_image_download(&mut self, image_id: u64, worker_ready: bool) -> (asked: bool)
        ensures
            asked == worker_ready,
            !worker_ready ==> *final(self) == *old(self),
            worker_ready ==> crate::searchkeys::says_info(
                *old(self),
                *final(self),
                "Downloading image "@ + decimal(image_id as nat) + "..."@,
            ),
    {
        if !worker_ready {
            return false;
        }
        let mut text = String::from_str("Downloading image ");
        text.append(string_of(decimal_chars(image_id).as_slice()).as_str());
        text.append("...");
        self.set_status(text.as_str());
        true
    }
}

/// The used model picked for an image among its listed ones (the last when
/// the pick is past the end); none when it lists none.
pub fn selected_image_used_model(
    picks: &DetailPicks,
    image_id: u64,
    entries: Vec<ParsedUsedModel>,
) -> (r: Option<ParsedUsedModel>)
    ensures
        ({
            let i = picked(picks.image_model_index@, image_id);
            if entries@.len() == 0 {
                r is None
            } else if i < entries@.len() {
                r == Some(entries@[i as int])
            } else {
                r == Some(entries@.last())
            }
        }),
{
    let n = entries.len();
    if n == 0 {
        return None;
    }
    let i = picks.selected_image_model_index(image_id);
    let k = if i < n {
        i
    } else {
        n - 1
    };
    let mut rest = entries;
    Some(rest.swap_remove(k))
}

/// The position of the first version with the given id, if any.
fn version_position(versions: &Vec<ParsedModelVersion>, version_id: u64) -> (r: Option<usize>)
    ensures
        match r {
            Some(i) => i < versions@.len() && versions@[i as int].id == version_id && forall|j: int|
                0 <= j < i ==> versions@[j].id != version_id,
            None => forall|j: int| 0 <= j < versions@.len() ==> versions@[j].id != version_id,
        },
{
    let mut i: usize = 0;
    while i < versions.len()
        invariant
            i <= versions@.len(),
            forall|j: int| 0 <= j < i ==> versions@[j].id != version_id,
        decreases versions@.len() - i,
    {
        if versions[i].id == version_id {
            return Some(i);
        }
        i = i + 1;
    }
    None
}

/// The position of the first version with the given id among a model's
/// versions.
pub open spec fn version_index_of(vs: Seq<VersionView>, version_id: u64) -> Option<int> {
    if exists|i: int| 0 <= i < vs.len() && vs[i].id == version_id {
        Some(choose|i: int| 0 <= i < vs.len() && vs[i].id == version_id && forall|j: int| 0 <= j < i ==> vs[j].id != version_id)
    } else {
        None
    }
}

impl App {
    /// Opens the detail window of a model used by an image: the version the
    /// image names, when the model has it, becomes the model's picked version;
    /// the model is shown in the window.
    pub fn open_image_model_detail_modal(
        &mut self,
        picks: &mut DetailPicks,
        shown: &mut Option<ModelHit>,
        model: ModelHit,
        version_id: Option<u64>,
        delivery: &MediaDelivery,
    )
        ensures
            *final(self) == (App { show_image_model_detail_modal: true, ..*old(self) }),
            *final(shown) == Some(model),
            final(picks).file_index@ == old(picks).file_index@,
            final(picks).image_model_index@ == old(picks).image_model_index@,
            final(picks).version_index@ == match version_id {
                Some(v) => match version_index_of(model_versions_view(model, delivery.base_url@, delivery.namespace@), v) {
                    Some(i) => old(picks).version_index@.insert(model.id, i as usize),
                    None => old(picks).version_index@,
                },
                None => old(picks).version_index@,
            },
    {
        match version_id {
            Some(v) => {
                let versions = model_versions(&model, delivery);
                let ghost vs = model_versions_view(model, delivery.base_url@, delivery.namespace@);
                proof {
                    assert(vs.len() == versions@.len());
                    assert(forall|j: int| 0 <= j < versions@.len() ==> vs[j] == #[trigger] versions@[j]@);
                }
                match version_position(&versions, v) {
                    Some(i) => {
                        proof {
                            assert(vs[i as int].id == v);
                            let c = choose|c: int|
                                0 <= c < vs.len() && vs[c].id == v && forall|j: int| 0 <= j < c ==> vs[j].id != v;
                            assert(c == i as int) by {
                                if c < i {
                                    assert(versions@[c]@ == vs[c]);
                                } else if c > i {
                                    assert(vs[i as int].id == v);
                                }
                            }
                        }
                        picks.version_index.insert(model.id, i);
                    },
                    None => {
                        proof {
                            assert forall|j: int| 0 <= j < vs.len() implies vs[j].id != v by {
                                assert(versions@[j]@ == vs[j]);
                            }
                        }
                    },
                }
            },
            None => {},
        }
        *shown = Some(model);
        self.show_image_model_detail_modal = true;
    }

    /// Opens the model detail window while its model is still being fetched.
    pub fn begin_image_model_detail_modal_loading(&mut self, shown: &mut Option<ModelHit>)
        ensures
            *final(self) == (App { show_image_model_detail_modal: true, ..*old(self) }),
            *final(shown) is None,
    {
        self.show_image_model_detail_modal = true;
        *shown = None;
    }

    /// Closes the model detail window.
    pub fn close_image_model_detail_modal(&mut self, shown: &mut Option<ModelHit>)
        ensures
            *final(self) == (App { show_image_model_detail_modal: false, ..*old(self) }),
            *final(shown) is None,
    {
        self.show_image_model_detail_modal = false;
        *shown = None;
    }
}

/// Whether the details of the selected model are to be fetched for the side
/// panel: the panel is shown, a model is selected and a worker is there to
/// ask; hands back its id and name.
pub fn model_detail_request(show_model_details: bool, selected: Option<&ModelHit>, worker_ready: bool) -> (r: Option<(u64, String)>)
    ensures
        match selected {
            Some(m) => if show_model_details && worker_ready {
                r matches Some((id, name)) && id == m.id && name@ == model_name_text(*m)
            } else {
                r is None
            },
            None => r is None,
        },
{
    if !show_model_details || !worker_ready {
        return None;
    }
    match selected {
        Some(m) => Some((m.id, model_name(m))),
        None => None,
    }
}

/// The list with its first model of the given model's id replaced by it.
pub open spec fn replaced_first(s: Seq<ModelHit>, m: ModelHit) -> Seq<ModelHit> {
    if exists|i: int| 0 <= i < s.len() && s[i].id == m.id {
        let i = choose|i: int| 0 <= i < s.len() && s[i].id == m.id && forall|j: int| 0 <= j < i ==> s[j].id != m.id;
        s.update(i, m)
    } else {
        s
    }
}

fn replace_first(models: &mut Vec<ModelHit>, m: ModelHit) -> (found: bool)
    ensures
        final(models)@ == replaced_first(old(models)@, m),
        found == exists|i: int| 0 <= i < old(models)@.len() && old(models)@[i].id == m.id,
        !found ==> *final(models) == *old(models),
{
    let mut i: usize = 0;
    while i < models.len()
        invariant
            i <= models@.len(),
            *models == *old(models),
            forall|j: int| 0 <= j < i ==> models@[j].id != m.id,
        decreases models@.len() - i,
    {
        if models[i].id == m.id {
            let ghost s = models@;
            proof {
                let c = choose|c: int| 0 <= c < s.len() && s[c].id == m.id && forall|j: int| 0 <= j < c ==> s[j].id != m.id;
                assert(c == i as int) by {
                    if c < i {
                    } else if c > i {
                        assert(s[i as int].id == m.id);
                    }
                }
            }
            models.set(i, m);
            return true;
        }
        i = i + 1;
    }
    false
}

impl ModelResults {
    /// The fetched details of a model replace it in the results.
    pub fn apply_model_detail(&mut self, m: ModelHit)
        ensures
            final(self).models@ == replaced_first(old(self).models@, m),
            final(self).paging == old(self).paging,
    {
        replace_first(&mut self.models, m);
    }
}

impl LikedModels {
    /// The fetched details of a model replace it among the saved models,
    /// whose shown list is then worked out again; nothing changes when it is
    /// not saved.
    pub fn apply_model_detail(&mut self, m: ModelHit, f: &LikedFilter, delivery: &MediaDelivery)
        ensures
            final(self).liked_models@ == replaced_first(old(self).liked_models@, m),
            final(self).selected == old(self).selected,
            final(self).pending_liked_model_remove_id == old(self).pending_liked_model_remove_id,
            (exists|i: int| 0 <= i < old(self).liked_models@.len() && old(self).liked_models@[i].id == m.id) ==> refreshed(
                LikedModels { liked_models: final(self).liked_models, ..*old(self) },
                *final(self),
                *f,
                delivery.base_url@,
                delivery.namespace@,
            ),
            !(exists|i: int| 0 <= i < old(self).liked_models@.len() && old(self).liked_models@[i].id == m.id)
                ==> *final(self) == *old(self),
    {
        if replace_first(&mut self.liked_models, m) {
            self.refresh_visible_liked_models_cache(f, delivery);
        }
    }
}

} // verus!
