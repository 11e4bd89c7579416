use vstd::prelude::*;

use crate::app::App;
use crate::forms::{AppMode, MainTab};

verus! {

/// The popup drawn over a tab's content.
#[derive(Clone, Copy, Debug, PartialEq, Eq, Structural)]
pub enum ScreenPopup {
    NoPopup,
    ModelSearch,
    SavedModelSearch,
    PathPrompt,
    ImageSearch,
    SavedImageSearch,
}

/// The windows drawn over the whole screen, in drawing order (later ones on
/// top).
#[derive(Clone, Copy, Debug, PartialEq, Eq, Structural)]
pub enum Overlay {
    Status,
    Help,
    LikeConfirm,
    ExitConfirm,
    ResumeDownloads,
}

/// What the screen shows: the highlighted tab, whether long names scroll in
/// the lists, whether the model lists show the side panel, the popup over the
/// tab, and the windows over the screen.
pub struct ScreenPlan {
    pub tab_index: usize,
    pub name_rolling: bool,
    pub model_sidebar: bool,
    pub popup: ScreenPopup,
    pub overlays: Vec<Overlay>,
}

/// The titles of the tab bar, in order.
pub open spec fn tab_titles_text() -> Seq<Seq<char>> {
    seq![
        " Models (1) "@,
        " Bookmarks (2) "@,
        " Image Feed (3) "@,
        " Image Bookmarks (4) "@,
        " Downloads (5) "@,
        " Settings (6) "@,
    ]
}

/// The titles of the tab bar, in order.
pub fn tab_titles() -> (r: Vec<&'static str>)
    ensures
        r@.map_values(|s: &'static str| s@) == tab_titles_text(),
{
    let r = vec![" Models (1) ", " Bookmarks (2) ", " Image Feed (3) ", " Image Bookmarks (4) ", " Downloads (5) ", " Settings (6) "];
    assert(r@.map_values(|s: &'static str| s@) =~= tab_titles_text());
    r
}

/// The place of a tab in the tab bar.
pub open spec fn tab_index(tab: MainTab) -> nat {
    match tab {
        MainTab::Models => 0,
        MainTab::SavedModels => 1,
        MainTab::Images => 2,
        MainTab::SavedImages => 3,
        MainTab::Downloads => 4,
        MainTab::Settings => 5,
    }
}

/// Long names scroll in the lists unless a search form or a prompt is open.
pub open spec fn rolling_enabled(mode: AppMode) -> bool {
    !(mode == AppMode::SearchForm || mode == AppMode::SearchImages || mode == AppMode::SearchSavedModels || mode
        == AppMode::SearchSavedImages || mode == AppMode::BookmarkPathPrompt)
}

/// The popup over a tab: the tab's search form when its search mode is on,
/// and on the saved models also the path prompt.
pub open spec fn popup_for(tab: MainTab, mode: AppMode) -> ScreenPopup {
    if tab == MainTab::Models && mode == AppMode::SearchForm {
        ScreenPopup::ModelSearch
    } else if tab == MainTab::SavedModels && mode == AppMode::SearchSavedModels {
        ScreenPopup::SavedModelSearch
    } else if tab == MainTab::SavedModels && mode == AppMode::BookmarkPathPrompt {
        ScreenPopup::PathPrompt
    } else if tab == MainTab::Images && mode == AppMode::SearchImages {
        ScreenPopup::ImageSearch
    } else if tab == MainTab::SavedImages && mode == AppMode::SearchSavedImages {
        ScreenPopup::SavedImageSearch
    } else {
        ScreenPopup::NoPopup
    }
}

/// The windows open over the screen, in drawing order.
pub open spec fn overlays_for(a: App) -> Seq<Overlay> {
    let s1 = if a.show_status_modal {
        seq![Overlay::Status]
    } else {
        Seq::empty()
    };
    let s2 = if a.show_help_modal {
        s1.push(Overlay::Help)
    } else {
        s1
    };
    let s3 = if a.show_like_confirm_modal {
        s2.push(Overlay::LikeConfirm)
    } else {
        s2
    };
    let s4 = if a.show_exit_confirm_modal {
        s3.push(Overlay::ExitConfirm)
    } else {
        s3
    };
    if a.show_resume_download_modal {
        s4.push(Overlay::ResumeDownloads)
    } else {
        s4
    }
}

impl App {
    /// What the screen shows now (see `ScreenPlan`); the side panel is shown
    /// on the model tabs when `show_model_details` asks for it.
    pub fn screen_plan(&self, show_model_details: bool) -> (p: ScreenPlan)
        ensures
            p.tab_index == tab_index(self.active_tab),
            p.name_rolling == rolling_enabled(self.mode),
            p.model_sidebar == (show_model_details && (self.active_tab == MainTab::Models || self.active_tab
                == MainTab::SavedModels)),
            p.popup == popup_for(self.active_tab, self.mode),
            p.overlays@ == overlays_for(*self),
    {
        let tab_index: usize = match self.active_tab {
            MainTab::Models => 0,
            MainTab::SavedModels => 1,
            MainTab::Images => 2,
            MainTab::SavedImages => 3,
            MainTab::Downloads => 4,
            MainTab::Settings => 5,
        };
        let m = self.mode;
        let name_rolling = !(m == AppMode::SearchForm || m == AppMode::SearchImages || m == AppMode::SearchSavedModels
            || m == AppMode::SearchSavedImages || m == AppMode::BookmarkPathPrompt);
        let t = self.active_tab;
        let popup = if t == MainTab::Models && m == AppMode::SearchForm {
            ScreenPopup::ModelSearch
        } else if t == MainTab::SavedModels && m == AppMode::SearchSavedModels {
            ScreenPopup::SavedModelSearch
        } else if t == MainTab::SavedModels && m == AppMode::BookmarkPathPrompt {
            ScreenPopup::PathPrompt
        } else if t == MainTab::Images && m == AppMode::SearchImages {
            ScreenPopup::ImageSearch
        } else if t == MainTab::SavedImages && m == AppMode::SearchSavedImages {
            ScreenPopup::SavedImageSearch
        } else {
            ScreenPopup::NoPopup
        };
        let mut overlays: Vec<Overlay> = Vec::new();
        if self.show_status_modal {
            overlays.push(Overlay::Status);
        }
        if self.show_help_modal {
            overlays.push(Overlay::Help);
        }
        if self.show_like_confirm_modal {
            overlays.push(Overlay::LikeConfirm);
        }
        if self.show_exit_confirm_modal {
            overlays.push(Overlay::ExitConfirm);
        }
        if self.show_resume_download_modal {
            overlays.push(Overlay::ResumeDownloads);
        }
        assert(overlays@ =~= overlays_for(*self));
        ScreenPlan {
            tab_index,
            name_rolling,
            model_sidebar: show_model_details && (t == MainTab::Models || t == MainTab::SavedModels),
            popup,
            overlays,
        }
    }
}

/// The handlers a key is offered to, in turn, until one takes it: the open
/// window, the mode (search forms, prompts, the settings editor), the tab
/// switch keys, the modifier keys, and the tab's own keys.
#[derive(Clone, Copy, Debug, PartialEq, Eq, Structural)]
pub enum KeyStage {
    Window,
    Mode,
    TabSwitch,
    Modifier,
    TabKeys,
}

/// The order in which a key is offered to the handlers.
pub open spec fn key_stages_order() -> Seq<KeyStage> {
    seq![KeyStage::Window, KeyStage::Mode, KeyStage::TabSwitch, KeyStage::Modifier, KeyStage::TabKeys]
}

/// The order in which a key is offered to the handlers (see `KeyStage`).
pub fn key_stages() -> (r: Vec<KeyStage>)
    ensures
        r@ == key_stages_order(),
{
    let r = vec![KeyStage::Window, KeyStage::Mode, KeyStage::TabSwitch, KeyStage::Modifier, KeyStage::TabKeys];
    assert(r@ =~= key_stages_order());
    r
}

/// How long, in milliseconds, the event loop waits for a key before it draws
/// again: longer while the user types in a search form or a prompt.
pub fn poll_timeout_ms(mode: AppMode) -> (r: u64)
    ensures
        r == if rolling_enabled(mode) {
            50u64
        } else {
            200u64
        },
{
    if mode == AppMode::SearchForm || mode == AppMode::SearchImages || mode == AppMode::SearchSavedModels || mode
        == AppMode::SearchSavedImages || mode == AppMode::BookmarkPathPrompt {
        200
    } else {
        50
    }
}

} // verus!
