use vstd::prelude::*;

use crate::app::App;
use crate::forms::{AppMode, MainTab};
use crate::status::{StatusEvent, StatusLevel};
use crate::app::{event_says, status_applied};
use crate::savedmodels::{clamped_selection, LikedModels};

verus! {

/// The selections of three browsing lists: the image feed and the saved
/// images by position, the model results by an optional position (none
/// before anything was chosen). The saved models' selection is kept with
/// them (see `LikedModels`) and handed to the steps that move it.
#[derive(Clone, Copy, Debug, PartialEq, Eq, Structural)]
pub struct BrowseLists {
    pub image_index: usize,
    pub saved_image_index: usize,
    pub model_selected: Option<usize>,
}

/// How many entries each browsing list shows.
#[derive(Clone, Copy, Debug, PartialEq, Eq, Structural)]
pub struct ListSizes {
    pub images: usize,
    pub saved_images: usize,
    pub models: usize,
    pub saved_models: usize,
}

/// Where the paging of model results stands.
#[derive(Clone, Copy, Debug, PartialEq, Eq, Structural)]
pub struct ModelPaging {
    pub has_more: bool,
    pub loading_more: bool,
    pub next_page: Option<u32>,
}

/// Where the image feed stands.
#[derive(Clone, Copy, Debug, PartialEq, Eq, Structural)]
pub struct ImageFeed {
    pub loaded: bool,
    pub loading: bool,
    pub has_more: bool,
    pub next_page: Option<u32>,
}

/// What follows a step down a browsing list.
#[derive(Clone, Copy, Debug, PartialEq, Eq, Structural)]
pub struct SelectionFollowUp {
    /// The selected model changed: its details are to be fetched.
    pub detail: bool,
    /// The next page of model results is to be fetched.
    pub more_models: bool,
    /// The page of the image feed to fetch next, when one is due.
    pub more_images_page: Option<u32>,
    /// The selected image is to be shown (an image tab is open).
    pub load_image: bool,
    /// The covers around the selected model are to be fetched first.
    pub covers: bool,
}

/// What follows a tab switch.
#[derive(Clone, Copy, Debug, PartialEq, Eq, Structural)]
pub struct TabSwitch {
    /// The image feed is to be fetched, if it was not yet.
    pub request_feed: bool,
    /// The selected image is to be shown.
    pub load_image: bool,
}

/// How many entries from the end of the model results a selection must reach
/// for the next page to be fetched.
pub const MODEL_PREFETCH_THRESHOLD: usize = 30;

/// How many entries from the end of the image feed a selection must reach for
/// the next page to be fetched.
pub const IMAGE_PREFETCH_THRESHOLD: usize = 5;

/// The current position of an optional selection, the first when none.
pub open spec fn current(sel: Option<usize>) -> int {
    match sel {
        Some(i) => i as int,
        None => 0,
    }
}

/// Whether a selection is an image tab's.
pub open spec fn is_image_tab(tab: MainTab) -> bool {
    tab == MainTab::Images || tab == MainTab::SavedImages
}

/// Whether a selection is a model tab's.
pub open spec fn is_model_tab(tab: MainTab) -> bool {
    tab == MainTab::Models || tab == MainTab::SavedModels
}

impl BrowseLists {
    /// Steps one entry down the list of the tab, staying on the last one. On
    /// the model results a missing selection counts as the first entry; on the
    /// saved models (selection `saved`) it becomes the first entry. Hands back
    /// whether a model selection moved.
    pub fn select_next(&mut self, saved: &mut Option<usize>, tab: MainTab, sizes: ListSizes) -> (detail: bool)
        ensures
            (*final(self), *final(saved)) == stepped_next(*old(self), *old(saved), tab, sizes),
            detail == (is_model_tab(tab) && (*final(self), *final(saved)) != (*old(self), *old(saved))),
    {
        match tab {
            MainTab::Images => {
                if sizes.images > 0 && self.image_index < sizes.images - 1 {
                    self.image_index = self.image_index + 1;
                }
                false
            },
            MainTab::SavedImages => {
                if sizes.saved_images > 0 && self.saved_image_index < sizes.saved_images - 1 {
                    self.saved_image_index = self.saved_image_index + 1;
                }
                false
            },
            MainTab::Models => {
                let cur = match self.model_selected {
                    Some(i) => i,
                    None => 0,
                };
                if sizes.models > 0 && cur < sizes.models - 1 {
                    self.model_selected = Some(cur + 1);
                    true
                } else {
                    false
                }
            },
            MainTab::SavedModels => {
                match *saved {
                    Some(cur) => {
                        if sizes.saved_models > 0 && cur < sizes.saved_models - 1 {
                            *saved = Some(cur + 1);
                            true
                        } else {
                            false
                        }
                    },
                    None => {
                        if sizes.saved_models > 0 {
                            *saved = Some(0);
                            true
                        } else {
                            false
                        }
                    },
                }
            },
            _ => false,
        }
    }

    /// Steps one entry up the list of the tab, staying on the first one; a
    /// missing model selection counts as the first entry. Hands back whether
    /// a model selection moved.
    pub fn select_previous(&mut self, saved: &mut Option<usize>, tab: MainTab) -> (detail: bool)
        ensures
            (*final(self), *final(saved)) == stepped_previous(*old(self), *old(saved), tab),
            detail == (is_model_tab(tab) && (*final(self), *final(saved)) != (*old(self), *old(saved))),
    {
        match tab {
            MainTab::Images => {
                if self.image_index > 0 {
                    self.image_index = self.image_index - 1;
                }
                false
            },
            MainTab::SavedImages => {
                if self.saved_image_index > 0 {
                    self.saved_image_index = self.saved_image_index - 1;
                }
                false
            },
            MainTab::Models => {
                let cur = match self.model_selected {
                    Some(i) => i,
                    None => 0,
                };
                if cur > 0 {
                    self.model_selected = Some(cur - 1);
                    true
                } else {
                    false
                }
            },
            MainTab::SavedModels => {
                let cur = match *saved {
                    Some(i) => i,
                    None => 0,
                };
                if cur > 0 {
                    *saved = Some(cur - 1);
                    true
                } else {
                    false
                }
            },
            _ => false,
        }
    }

    /// Jumps to the first entry of the tab's list (no selection on an empty
    /// model list). Hands back whether a model was selected.
    pub fn jump_first(&mut self, saved: &mut Option<usize>, tab: MainTab, sizes: ListSizes) -> (detail: bool)
        ensures
            tab == MainTab::Images ==> !detail && *final(self) == (BrowseLists { image_index: 0, ..*old(self) })
                && *final(saved) == *old(saved),
            tab == MainTab::SavedImages ==> !detail && *final(self) == (BrowseLists {
                saved_image_index: 0,
                ..*old(self)
            }) && *final(saved) == *old(saved),
            tab == MainTab::Models ==> detail == (sizes.models > 0) && *final(self) == (BrowseLists {
                model_selected: if detail {
                    Some(0)
                } else {
                    None
                },
                ..*old(self)
            }) && *final(saved) == *old(saved),
            tab == MainTab::SavedModels ==> detail == (sizes.saved_models > 0) && *final(saved) == (if detail {
                Some(0usize)
            } else {
                None
            }) && *final(self) == *old(self),
            !is_image_tab(tab) && !is_model_tab(tab) ==> !detail && *final(self) == *old(self) && *final(saved)
                == *old(saved),
    {
        match tab {
            MainTab::Images => {
                self.image_index = 0;
                false
            },
            MainTab::SavedImages => {
                self.saved_image_index = 0;
                false
            },
            MainTab::Models => {
                if sizes.models == 0 {
                    self.model_selected = None;
                    false
                } else {
                    self.model_selected = Some(0);
                    true
                }
            },
            MainTab::SavedModels => {
                if sizes.saved_models == 0 {
                    *saved = None;
                    false
                } else {
                    *saved = Some(0);
                    true
                }
            },
            _ => false,
        }
    }

    /// Jumps to the last entry of the tab's list (no selection on an empty
    /// model list; an empty image list keeps its position). Hands back whether
    /// a model was selected.
    pub fn jump_last(&mut self, saved: &mut Option<usize>, tab: MainTab, sizes: ListSizes) -> (detail: bool)
        ensures
            tab == MainTab::Images ==> !detail && *final(self) == (BrowseLists {
                image_index: if sizes.images > 0 {
                    (sizes.images - 1) as usize
                } else {
                    old(self).image_index
                },
                ..*old(self)
            }) && *final(saved) == *old(saved),
            tab == MainTab::SavedImages ==> !detail && *final(self) == (BrowseLists {
                saved_image_index: if sizes.saved_images > 0 {
                    (sizes.saved_images - 1) as usize
                } else {
                    old(self).saved_image_index
                },
                ..*old(self)
            }) && *final(saved) == *old(saved),
            tab == MainTab::Models ==> detail == (sizes.models > 0) && *final(self) == (BrowseLists {
                model_selected: if detail {
                    Some((sizes.models - 1) as usize)
                } else {
                    None
                },
                ..*old(self)
            }) && *final(saved) == *old(saved),
            tab == MainTab::SavedModels ==> detail == (sizes.saved_models > 0) && *final(saved) == (if detail {
                Some((sizes.saved_models - 1) as usize)
            } else {
                None
            }) && *final(self) == *old(self),
            !is_image_tab(tab) && !is_model_tab(tab) ==> !detail && *final(self) == *old(self) && *final(saved)
                == *old(saved),
    {
        match tab {
            MainTab::Images => {
                if sizes.images > 0 {
                    self.image_index = sizes.images - 1;
                }
                false
            },
            MainTab::SavedImages => {
                if sizes.saved_images > 0 {
                    self.saved_image_index = sizes.saved_images - 1;
                }
                false
            },
            MainTab::Models => {
                if sizes.models == 0 {
                    self.model_selected = None;
                    false
                } else {
                    self.model_selected = Some(sizes.models - 1);
                    true
                }
            },
            MainTab::SavedModels => {
                if sizes.saved_models == 0 {
                    *saved = None;
                    false
                } else {
                    *saved = Some(sizes.saved_models - 1);
                    true
                }
            },
            _ => false,
        }
    }

    /// Keeps the saved-image position within a list of `len`: the first when
    /// it is empty, the last entry when past its end.
    pub fn clamp_saved_images(&mut self, len: usize)
        ensures
            *final(self) == (BrowseLists {
                saved_image_index: if len == 0 {
                    0
                } else if old(self).saved_image_index >= len {
                    (len - 1) as usize
                } else {
                    old(self).saved_image_index
                },
                ..*old(self)
            }),
    {
        if len == 0 {
            self.saved_image_index = 0;
        } else if self.saved_image_index >= len {
            self.saved_image_index = len - 1;
        }
    }
}

/// Whether another page of model results may be asked for: on the model tab,
/// with results shown, more to come and none being fetched.
pub fn can_request_more_models(tab: MainTab, models: usize, paging: &ModelPaging) -> (b: bool)
    ensures
        b == (tab == MainTab::Models && models > 0 && paging.has_more && !paging.loading_more),
{
    tab == MainTab::Models && models > 0 && paging.has_more && !paging.loading_more
}

/// Whether another page of the image feed may be asked for: on the image tab,
/// with images shown, more to come, none being fetched, and the selection
/// within `threshold` entries of the end.
pub fn can_request_more_images(tab: MainTab, images: usize, selected: usize, feed: &ImageFeed, threshold: usize) -> (b: bool)
    ensures
        b == (tab == MainTab::Images && images > 0 && feed.has_more && !feed.loading && selected + threshold
            >= images),
{
    tab == MainTab::Images && images > 0 && feed.has_more && !feed.loading && (threshold >= images || selected
        >= images - threshold)
}

/// Whether the model selection is close enough to the end of `len` results
/// for the next page to be fetched.
pub fn near_end_of_models(selected: Option<usize>, len: usize) -> (b: bool)
    ensures
        b == match selected {
            Some(s) => s + MODEL_PREFETCH_THRESHOLD >= len,
            None => false,
        },
{
    match selected {
        Some(s) => {
            let trigger = if len >= MODEL_PREFETCH_THRESHOLD {
                len - MODEL_PREFETCH_THRESHOLD
            } else {
                0
            };
            s >= trigger
        },
        None => false,
    }
}

impl ModelPaging {
    /// Marks the next page of model results as being fetched, when it may be
    /// asked for, and hands back the page to ask for (none for the first).
    pub fn begin_loading_more(&mut self, tab: MainTab, models: usize) -> (r: Option<Option<u32>>)
        ensures
            tab == MainTab::Models && models > 0 && old(self).has_more && !old(self).loading_more ==> r
                == Some(old(self).next_page) && *final(self) == (ModelPaging { loading_more: true, ..*old(self) }),
            !(tab == MainTab::Models && models > 0 && old(self).has_more && !old(self).loading_more) ==> r is None
                && *final(self) == *old(self),
    {
        if !can_request_more_models(tab, models, self) {
            return None;
        }
        self.loading_more = true;
        Some(self.next_page)
    }
}

impl ImageFeed {
    /// Whether the feed is to be fetched: the first page when none was
    /// loaded, or the given next page when it is the one due; never while a
    /// fetch is under way.
    pub fn wants_fetch(&self, next_page: Option<u32>) -> (b: bool)
        ensures
            b == (!self.loading && match next_page {
                None => !self.loaded,
                Some(p) => self.next_page == Some(p),
            }),
    {
        if self.loading {
            return false;
        }
        match next_page {
            None => !self.loaded,
            Some(p) => match self.next_page {
                Some(q) => p == q,
                None => false,
            },
        }
    }
}

/// What follows a step down a browsing list: the model's details when the
/// model selection moved; the next page of models when the model selection
/// came near the end and more may be asked for; the next page of images
/// when the image selection came near the end of the feed and a page is due;
/// the selected image on the image tabs; the covers on the model tabs.
pub fn next_selection_follow_up(
    tab: MainTab,
    detail: bool,
    lists: &BrowseLists,
    sizes: ListSizes,
    paging: &ModelPaging,
    feed: &ImageFeed,
) -> (f: SelectionFollowUp)
    ensures
        f.detail == detail,
        f.more_models == (tab == MainTab::Models && sizes.models > 0 && paging.has_more && !paging.loading_more
            && match lists.model_selected {
            Some(s) => s + MODEL_PREFETCH_THRESHOLD >= sizes.models,
            None => false,
        }),
        f.more_images_page == (if tab == MainTab::Images && sizes.images > 0 && feed.has_more && !feed.loading
            && lists.image_index + IMAGE_PREFETCH_THRESHOLD >= sizes.images {
            feed.next_page
        } else {
            None
        }),
        f.load_image == is_image_tab(tab),
        f.covers == is_model_tab(tab),
{
    let more_models = can_request_more_models(tab, sizes.models, paging) && near_end_of_models(
        lists.model_selected,
        sizes.models,
    );
    let more_images_page = if can_request_more_images(
        tab,
        sizes.images,
        lists.image_index,
        feed,
        IMAGE_PREFETCH_THRESHOLD,
    ) {
        feed.next_page
    } else {
        None
    };
    SelectionFollowUp {
        detail,
        more_models,
        more_images_page,
        load_image: tab == MainTab::Images || tab == MainTab::SavedImages,
        covers: tab == MainTab::Models || tab == MainTab::SavedModels,
    }
}

impl App {
    /// Opens a tab in browsing mode, keeping the saved lists' selections
    /// within their shown lists; the image feed is to be fetched when the
    /// image tab is entered from another, and the selected image shown on the
    /// image tabs.
    pub fn switch_tab(&mut self, lists: &mut BrowseLists, liked: &mut LikedModels, target: MainTab, sizes: ListSizes) -> (s: TabSwitch)
        ensures
            *final(self) == (App { active_tab: target, mode: AppMode::Browsing, ..*old(self) }),
            target == MainTab::SavedModels ==> final(liked).selected == clamped_selection(
                old(liked).selected,
                old(liked).visible_liked_models_cache@.len(),
            ) && final(liked).liked_models == old(liked).liked_models && final(liked).visible_liked_models_cache
                == old(liked).visible_liked_models_cache && final(liked).pending_liked_model_remove_id == old(
                liked,
            ).pending_liked_model_remove_id,
            target != MainTab::SavedModels ==> *final(liked) == *old(liked),
            target == MainTab::SavedImages ==> *final(lists) == (BrowseLists {
                saved_image_index: if sizes.saved_images == 0 {
                    0
                } else if old(lists).saved_image_index >= sizes.saved_images {
                    (sizes.saved_images - 1) as usize
                } else {
                    old(lists).saved_image_index
                },
                ..*old(lists)
            }),
            target != MainTab::SavedImages ==> *final(lists) == *old(lists),
            s.request_feed == (target == MainTab::Images && old(self).active_tab != MainTab::Images),
            s.load_image == is_image_tab(target),
    {
        let prev = self.active_tab;
        self.active_tab = target;
        self.mode = AppMode::Browsing;
        match target {
            MainTab::SavedModels => liked.clamp_liked_model_selection(),
            MainTab::SavedImages => lists.clamp_saved_images(sizes.saved_images),
            _ => {},
        }
        TabSwitch {
            request_feed: target == MainTab::Images && prev != MainTab::Images,
            load_image: target == MainTab::Images || target == MainTab::SavedImages,
        }
    }

    /// The image feed was asked for: it is being fetched, and the status line
    /// says whether more images or the first ones are on their way.
    pub fn note_image_feed_requested(&mut self, feed: &mut ImageFeed)
        ensures
            *final(feed) == (ImageFeed { loading: true, ..*old(feed) }),
            exists|e: StatusEvent|
                event_says(
                    e,
                    StatusLevel::Info,
                    if old(feed).loaded {
                        "Loading more images..."@
                    } else {
                        "Fetching image feed..."@
                    },
                    None,
                    false,
                ) && #[trigger] status_applied(*old(self), *final(self), e),
    {
        feed.loading = true;
        if feed.loaded {
            self.set_status("Loading more images...");
        } else {
            self.set_status("Fetching image feed...");
        }
    }

    /// More model results were asked for: the status line says so.
    pub fn note_more_models_requested(&mut self)
        ensures
            final(self).status@ == "Loading more results..."@,
            *final(self) == (App { status: final(self).status, ..*old(self) }),
    {
        self.status = String::from_str("Loading more results...");
    }
}

/// A step down and back up a browsing list that does not end on its last entry
/// comes back to where it was.
pub proof fn law_next_then_previous_returns(l: BrowseLists, saved: Option<usize>, tab: MainTab, sizes: ListSizes)
    requires
        tab == MainTab::Images ==> l.image_index + 1 < sizes.images,
        tab == MainTab::SavedImages ==> l.saved_image_index + 1 < sizes.saved_images,
        tab == MainTab::Models ==> l.model_selected is Some && l.model_selected->0 + 1 < sizes.models,
        tab == MainTab::SavedModels ==> saved is Some && saved->0 + 1 < sizes.saved_models,
    ensures
        ({
            let (down, down_saved) = stepped_next(l, saved, tab, sizes);
            stepped_previous(down, down_saved, tab) == (l, saved)
        }),
{
}

/// The selections after a step down (as `select_next` makes it).
pub open spec fn stepped_next(l: BrowseLists, saved: Option<usize>, tab: MainTab, sizes: ListSizes) -> (BrowseLists, Option<usize>) {
    if tab == MainTab::Images {
        (BrowseLists {
            image_index: if l.image_index + 1 < sizes.images {
                (l.image_index + 1) as usize
            } else {
                l.image_index
            },
            ..l
        }, saved)
    } else if tab == MainTab::SavedImages {
        (BrowseLists {
            saved_image_index: if l.saved_image_index + 1 < sizes.saved_images {
                (l.saved_image_index + 1) as usize
            } else {
                l.saved_image_index
            },
            ..l
        }, saved)
    } else if tab == MainTab::Models {
        let cur = current(l.model_selected);
        (BrowseLists {
            model_selected: if cur + 1 < sizes.models {
                Some((cur + 1) as usize)
            } else {
                l.model_selected
            },
            ..l
        }, saved)
    } else if tab == MainTab::SavedModels {
        (l, match saved {
            Some(cur) => if cur + 1 < sizes.saved_models {
                Some((cur + 1) as usize)
            } else {
                Some(cur)
            },
            None => if sizes.saved_models > 0 {
                Some(0)
            } else {
                None
            },
        })
    } else {
        (l, saved)
    }
}

/// The selections after a step up (as `select_previous` makes it).
pub open spec fn stepped_previous(l: BrowseLists, saved: Option<usize>, tab: MainTab) -> (BrowseLists, Option<usize>) {
    if tab == MainTab::Images {
        (BrowseLists {
            image_index: if l.image_index > 0 {
                (l.image_index - 1) as usize
            } else {
                0
            },
            ..l
        }, saved)
    } else if tab == MainTab::SavedImages {
        (BrowseLists {
            saved_image_index: if l.saved_image_index > 0 {
                (l.saved_image_index - 1) as usize
            } else {
                0
            },
            ..l
        }, saved)
    } else if tab == MainTab::Models {
        let cur = current(l.model_selected);
        (BrowseLists {
            model_selected: if cur > 0 {
                Some((cur - 1) as usize)
            } else {
                l.model_selected
            },
            ..l
        }, saved)
    } else if tab == MainTab::SavedModels {
        let cur = current(saved);
        (l, if cur > 0 {
            Some((cur - 1) as usize)
        } else {
            saved
        })
    } else {
        (l, saved)
    }
}

/// The next page of models is asked for once the selection is thirty or fewer
/// entries from the end of the results, and the next page of images once it is
/// five or fewer from the end of the feed.
pub proof fn law_prefetch_distances(selected: int, len: int)
    ensures
        selected + MODEL_PREFETCH_THRESHOLD >= len <==> len - selected <= 30,
        selected + IMAGE_PREFETCH_THRESHOLD >= len <==> len - selected <= 5,
{
}

} // verus!
