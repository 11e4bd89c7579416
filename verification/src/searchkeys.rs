use vstd::prelude::*;

use crate::app::{event_says, status_applied, App};
use crate::chars::{decimal, decimal_chars, string_of};
use crate::downloads::DownloadKey;
use crate::forms::{AppMode, ImageSearchFormSection, MainTab, SearchFormMode, SearchFormSection};
use crate::searchform::{ImageSearchFormState, SearchFormState};
use crate::status::{StatusEvent, StatusLevel};

verus! {

/// What opening a search on a tab came to.
#[derive(Clone, Copy, Debug, PartialEq, Eq, Structural)]
pub enum SearchOpening {
    /// The search form of the tab opened.
    Opened,
    /// The saved images' filter prompt is to open.
    SavedImagesFilter,
    /// Nothing on this tab.
    Nothing,
}

/// What `c` asks for on a tab.
pub enum CAction {
    /// Clear the cached search results.
    ClearSearchCache,
    /// Copy the Comfy workflow of the image with this id.
    CopyWorkflow(u64),
    /// Cancel this download.
    CancelDownload(DownloadKey),
    /// Nothing to do.
    Nothing,
}

/// The status a change was shown with.
pub open spec fn says_info(a: App, b: App, summary: Seq<char>) -> bool {
    exists|e: StatusEvent| event_says(e, StatusLevel::Info, summary, None, false) && #[trigger] status_applied(a, b, e)
}

impl App {
    /// `/` on a tab: the model or image search opens as a one-line quick
    /// search; the saved models' filter (`liked_draft`, a copy of the filter
    /// in force) opens as a quick search too; on the saved images the filter
    /// prompt is to open.
    pub fn handle_quick_search<S, T, B, S2, M2, B2, A2>(
        &mut self,
        model_form: &mut SearchFormState<S, T, B>,
        image_form: &mut ImageSearchFormState<S2, M2, B2, A2>,
        liked_draft: &mut SearchFormState<S, T, B>,
    ) -> (r: SearchOpening)
        ensures
            old(self).active_tab == MainTab::Models ==> {
                &&& r == SearchOpening::Opened
                &&& *final(model_form) == (SearchFormState {
                    mode: SearchFormMode::Quick,
                    focused_section: SearchFormSection::Query,
                    ..*old(model_form)
                })
                &&& *final(image_form) == *old(image_form) && *final(liked_draft) == *old(liked_draft)
                &&& final(self).status@ == "Quick search. Type query, Enter apply, Esc cancel."@
                &&& *final(self) == (App { mode: AppMode::SearchForm, status: final(self).status, ..*old(self) })
            },
            old(self).active_tab == MainTab::Images ==> {
                &&& r == SearchOpening::Opened
                &&& *final(image_form) == (ImageSearchFormState {
                    mode: SearchFormMode::Quick,
                    focused_section: ImageSearchFormSection::Query,
                    ..*old(image_form)
                })
                &&& *final(model_form) == *old(model_form) && *final(liked_draft) == *old(liked_draft)
                &&& final(self).status@ == "Quick image search. Type query, Enter apply, Esc cancel."@
                &&& *final(self) == (App { mode: AppMode::SearchImages, status: final(self).status, ..*old(self) })
            },
            old(self).active_tab == MainTab::SavedModels ==> {
                &&& r == SearchOpening::Opened
                &&& *final(liked_draft) == (SearchFormState {
                    mode: SearchFormMode::Quick,
                    focused_section: SearchFormSection::Query,
                    ..*old(liked_draft)
                })
                &&& *final(model_form) == *old(model_form) && *final(image_form) == *old(image_form)
                &&& final(self).mode == AppMode::SearchSavedModels
                &&& says_info(
                    *old(self),
                    App { mode: old(self).mode, ..*final(self) },
                    "Filter bookmarks. Enter apply, Esc cancel"@,
                )
            },
            old(self).active_tab != MainTab::Models && old(self).active_tab != MainTab::Images
                && old(self).active_tab != MainTab::SavedModels ==> {
                &&& r == if old(self).active_tab == MainTab::SavedImages {
                    SearchOpening::SavedImagesFilter
                } else {
                    SearchOpening::Nothing
                }
                &&& *final(self) == *old(self)
                &&& *final(model_form) == *old(model_form)
                &&& *final(image_form) == *old(image_form)
                &&& *final(liked_draft) == *old(liked_draft)
            },
    {
        match self.active_tab {
            MainTab::Models => {
                self.mode = AppMode::SearchForm;
                model_form.begin_quick_search();
                self.status = String::from_str("Quick search. Type query, Enter apply, Esc cancel.");
                SearchOpening::Opened
            },
            MainTab::Images => {
                self.mode = AppMode::SearchImages;
                image_form.begin_quick_search();
                self.status = String::from_str("Quick image search. Type query, Enter apply, Esc cancel.");
                SearchOpening::Opened
            },
            MainTab::SavedModels => {
                let ghost before = *self;
                self.set_status("Filter bookmarks. Enter apply, Esc cancel");
                let ghost shown = *self;
                self.mode = AppMode::SearchSavedModels;
                assert(App { mode: before.mode, ..*self } == shown);
                liked_draft.begin_quick_search();
                SearchOpening::Opened
            },
            MainTab::SavedImages => SearchOpening::SavedImagesFilter,
            _ => SearchOpening::Nothing,
        }
    }

    /// `f` on a tab: the model or image search opens its filter builder, and
    /// so does the saved models' filter (`liked_draft`, a copy of the filter
    /// in force); the status line tells the builder's keys.
    pub fn handle_filter_builder<S, T, B, S2, M2, B2, A2>(
        &mut self,
        model_form: &mut SearchFormState<S, T, B>,
        image_form: &mut ImageSearchFormState<S2, M2, B2, A2>,
        liked_draft: &mut SearchFormState<S, T, B>,
    ) -> (r: SearchOpening)
        ensures
            old(self).active_tab == MainTab::Models ==> {
                &&& r == SearchOpening::Opened
                &&& *final(model_form) == (SearchFormState {
                    mode: SearchFormMode::Builder,
                    focused_section: if old(model_form).focused_section == SearchFormSection::Query {
                        SearchFormSection::Sort
                    } else {
                        old(model_form).focused_section
                    },
                    ..*old(model_form)
                })
                &&& *final(image_form) == *old(image_form) && *final(liked_draft) == *old(liked_draft)
                &&& final(self).status@
                    == "Search builder. Up/Down sections, Left/Right options, Space toggle, Enter apply."@
                &&& *final(self) == (App { mode: AppMode::SearchForm, status: final(self).status, ..*old(self) })
            },
            old(self).active_tab == MainTab::Images ==> {
                &&& r == SearchOpening::Opened
                &&& *final(image_form) == (ImageSearchFormState {
                    mode: SearchFormMode::Builder,
                    focused_section: if old(image_form).focused_section == ImageSearchFormSection::Query {
                        ImageSearchFormSection::Sort
                    } else {
                        old(image_form).focused_section
                    },
                    ..*old(image_form)
                })
                &&& *final(model_form) == *old(model_form) && *final(liked_draft) == *old(liked_draft)
                &&& final(self).status@
                    == "Image filters. Up/Down sections, Left/Right options, Space toggle, Enter apply."@
                &&& *final(self) == (App { mode: AppMode::SearchImages, status: final(self).status, ..*old(self) })
            },
            old(self).active_tab == MainTab::SavedModels ==> {
                &&& r == SearchOpening::Opened
                &&& *final(liked_draft) == (SearchFormState {
                    mode: SearchFormMode::Builder,
                    focused_section: if old(liked_draft).focused_section == SearchFormSection::Query {
                        SearchFormSection::Sort
                    } else {
                        old(liked_draft).focused_section
                    },
                    ..*old(liked_draft)
                })
                &&& *final(model_form) == *old(model_form) && *final(image_form) == *old(image_form)
                &&& final(self).mode == AppMode::SearchSavedModels
                &&& final(self).status@
                    == "Bookmark filters. Up/Down sections, Left/Right options, Space toggle, Enter apply."@
                &&& exists|mid: App|
                    #[trigger] says_info(*old(self), mid, "Filter bookmarks. Enter apply, Esc cancel"@) && *final(self)
                        == (App { mode: AppMode::SearchSavedModels, status: final(self).status, ..mid })
            },
            old(self).active_tab != MainTab::Models && old(self).active_tab != MainTab::Images
                && old(self).active_tab != MainTab::SavedModels ==> {
                &&& r == SearchOpening::Nothing
                &&& *final(self) == *old(self)
                &&& *final(model_form) == *old(model_form)
                &&& *final(image_form) == *old(image_form)
                &&& *final(liked_draft) == *old(liked_draft)
            },
    {
        match self.active_tab {
            MainTab::Models => {
                self.mode = AppMode::SearchForm;
                model_form.begin_builder();
                self.status = String::from_str(
                    "Search builder. Up/Down sections, Left/Right options, Space toggle, Enter apply.",
                );
                SearchOpening::Opened
            },
            MainTab::Images => {
                self.mode = AppMode::SearchImages;
                image_form.begin_builder();
                self.status = String::from_str(
                    "Image filters. Up/Down sections, Left/Right options, Space toggle, Enter apply.",
                );
                SearchOpening::Opened
            },
            MainTab::SavedModels => {
                self.set_status("Filter bookmarks. Enter apply, Esc cancel");
                let ghost mid = *self;
                self.mode = AppMode::SearchSavedModels;
                liked_draft.begin_builder();
                self.status = String::from_str(
                    "Bookmark filters. Up/Down sections, Left/Right options, Space toggle, Enter apply.",
                );
                assert(says_info(*old(self), mid, "Filter bookmarks. Enter apply, Esc cancel"@));
                assert(*self == (App { mode: AppMode::SearchSavedModels, status: self.status, ..mid }));
                SearchOpening::Opened
            },
            _ => SearchOpening::Nothing,
        }
    }

    /// `c` on a tab: with a worker, the model tab clears the cached search
    /// results, saying so; on an image tab the selected image's Comfy
    /// workflow is to be copied, or the status line says it has none; on the
    /// downloads tab the selected download is to be cancelled.
    pub fn handle_c_action(
        &mut self,
        worker_ready: bool,
        image: Option<(u64, bool)>,
        download: Option<DownloadKey>,
    ) -> (r: CAction)
        ensures
            old(self).active_tab == MainTab::Models ==> if worker_ready {
                &&& r is ClearSearchCache
                &&& final(self).status@ == "Clearing cached search results..."@
                &&& *final(self) == (App { status: final(self).status, ..*old(self) })
            } else {
                r is Nothing && *final(self) == *old(self)
            },
            old(self).active_tab == MainTab::Images || old(self).active_tab == MainTab::SavedImages ==> match image {
                Some((id, true)) => r == CAction::CopyWorkflow(id) && *final(self) == *old(self),
                Some((_, false)) => {
                    &&& r is Nothing
                    &&& final(self).status@ == "No Comfy workflow metadata for current image"@
                    &&& *final(self) == (App { status: final(self).status, ..*old(self) })
                },
                None => r is Nothing && *final(self) == *old(self),
            },
            old(self).active_tab == MainTab::Downloads ==> *final(self) == *old(self) && match download {
                Some(k) => if worker_ready {
                    r == CAction::CancelDownload(k)
                } else {
                    r is Nothing
                },
                None => r is Nothing,
            },
            old(self).active_tab == MainTab::SavedModels || old(self).active_tab == MainTab::Settings ==> r is Nothing
                && *final(self) == *old(self),
    {
        match self.active_tab {
            MainTab::Models => {
                if worker_ready {
                    self.status = String::from_str("Clearing cached search results...");
                    CAction::ClearSearchCache
                } else {
                    CAction::Nothing
                }
            },
            MainTab::Images | MainTab::SavedImages => match image {
                Some((id, has_workflow)) => {
                    if has_workflow {
                        CAction::CopyWorkflow(id)
                    } else {
                        self.status = String::from_str("No Comfy workflow metadata for current image");
                        CAction::Nothing
                    }
                },
                None => CAction::Nothing,
            },
            MainTab::Downloads => match download {
                Some(k) => {
                    if worker_ready {
                        CAction::CancelDownload(k)
                    } else {
                        CAction::Nothing
                    }
                },
                None => CAction::Nothing,
            },
            _ => CAction::Nothing,
        }
    }

    /// Says how copying an image's Comfy workflow went: a failure is
    /// remembered and the status window opened.
    pub fn note_workflow_copied(&mut self, image_id: u64, error: Option<&str>)
        ensures
            match error {
                None => {
                    &&& final(self).status@ == "Copied Comfy workflow for image "@ + decimal(image_id as nat)
                    &&& *final(self) == (App { status: final(self).status, ..*old(self) })
                },
                Some(e) => {
                    &&& final(self).status@ == "Failed to copy workflow"@
                    &&& final(self).last_error matches Some(x) && x@ == e@
                    &&& *final(self) == (App {
                        status: final(self).status,
                        last_error: final(self).last_error,
                        show_status_modal: true,
                        ..*old(self)
                    })
                },
            },
    {
        match error {
            None => {
                let mut text = String::from_str("Copied Comfy workflow for image ");
                text.append(string_of(decimal_chars(image_id).as_slice()).as_str());
                self.status = text;
            },
            Some(e) => {
                self.last_error = Some(String::from_str(e));
                self.show_status_modal = true;
                self.status = String::from_str("Failed to copy workflow");
            },
        }
    }
}

} // verus!
