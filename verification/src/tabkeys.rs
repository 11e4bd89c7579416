use vstd::prelude::*;

use crate::app::App;
use crate::forms::{MainTab, SearchTemplateKind};
use crate::keys::{
    help_window_action, history_window_action, prompt_window_action, status_window_action, template_window_action,
    KeyCode, KeyPress, ModalAction,
};
use crate::searchform::templates_opened;
use crate::templates::SearchTemplates;

verus! {

/// What a key pressed on a tab asks for.
#[derive(Clone, Copy, Debug, PartialEq, Eq, Structural)]
pub enum TabAction {
    /// Leave the program (no download is running).
    Exit,
    /// Ask before leaving, since downloads are running.
    ConfirmExit,
    Enter,
    Left,
    Right,
    ToggleBookmark,
    NextSelection,
    PreviousSelection,
    Down,
    Up,
    PreviousVersion,
    NextVersion,
    NextFile,
    PreviousFile,
    NextHistory,
    PreviousHistory,
    DownloadOrDelete,
    DeleteWithFile,
    PauseOrDownload,
    CopyAction,
    OpenPrompt,
    OpenStatus,
    OpenTemplates(SearchTemplateKind),
    OpenStatusHistory,
    ToggleAdvancedMetadata,
    CopyImagePageUrl,
    CopyWorkflow,
    SaveWorkflow,
    ToggleModelDetails,
    RefreshOrResume,
    QuickSearch,
    FilterBuilder,
    JumpFirst,
    JumpLast,
    Help,
    ExportBookmarks,
    ImportBookmarks,
    /// The key is taken and nothing follows on this tab.
    Nothing,
    /// The key means nothing on a tab.
    Unhandled,
}

/// The tab lists models.
pub open spec fn is_model_tab(t: MainTab) -> bool {
    t == MainTab::Models || t == MainTab::SavedModels
}

/// The tab lists images.
pub open spec fn is_image_tab(t: MainTab) -> bool {
    t == MainTab::Images || t == MainTab::SavedImages
}

/// What a key asks for on a tab. `ctrl_c` says the key is the Control-C that
/// leaves the program; `downloading` that a download is running.
pub open spec fn tab_key_action(tab: MainTab, code: KeyCode, ctrl_c: bool, downloading: bool) -> TabAction {
    let leave = if downloading { TabAction::ConfirmExit } else { TabAction::Exit };
    match code {
        KeyCode::Char('q') if !ctrl_c => leave,
        KeyCode::Esc if !ctrl_c => leave,
        KeyCode::Char('c') if ctrl_c => leave,
        KeyCode::Enter => TabAction::Enter,
        KeyCode::Left | KeyCode::Char('h') => TabAction::Left,
        KeyCode::Right | KeyCode::Char('l') => TabAction::Right,
        KeyCode::Char('b') => TabAction::ToggleBookmark,
        KeyCode::Char('j') => TabAction::NextSelection,
        KeyCode::Char('k') => TabAction::PreviousSelection,
        KeyCode::Down => TabAction::Down,
        KeyCode::Up => TabAction::Up,
        KeyCode::Char('[') => if is_model_tab(tab) { TabAction::PreviousVersion } else { TabAction::Nothing },
        KeyCode::Char(']') => if is_model_tab(tab) { TabAction::NextVersion } else { TabAction::Nothing },
        KeyCode::Char('J') => if is_model_tab(tab) {
            TabAction::NextFile
        } else if tab == MainTab::Downloads {
            TabAction::NextHistory
        } else {
            TabAction::Nothing
        },
        KeyCode::Char('K') => if is_model_tab(tab) {
            TabAction::PreviousFile
        } else if tab == MainTab::Downloads {
            TabAction::PreviousHistory
        } else {
            TabAction::Nothing
        },
        KeyCode::Char('d') => TabAction::DownloadOrDelete,
        KeyCode::Char('D') => TabAction::DeleteWithFile,
        KeyCode::Char('p') => TabAction::PauseOrDownload,
        KeyCode::Char('c') => TabAction::CopyAction,
        KeyCode::Char('m') => if is_image_tab(tab) { TabAction::OpenPrompt } else { TabAction::OpenStatus },
        KeyCode::Char('T') => if is_model_tab(tab) {
            TabAction::OpenTemplates(SearchTemplateKind::Model)
        } else if is_image_tab(tab) {
            TabAction::OpenTemplates(SearchTemplateKind::Image)
        } else {
            TabAction::Nothing
        },
        KeyCode::Char('M') => TabAction::OpenStatusHistory,
        KeyCode::Char('a') => if is_image_tab(tab) { TabAction::ToggleAdvancedMetadata } else { TabAction::Nothing },
        KeyCode::Char('o') => if is_image_tab(tab) { TabAction::CopyImagePageUrl } else { TabAction::Nothing },
        KeyCode::Char('w') => TabAction::CopyWorkflow,
        KeyCode::Char('W') => TabAction::SaveWorkflow,
        KeyCode::Char('v') => if is_model_tab(tab) { TabAction::ToggleModelDetails } else { TabAction::Nothing },
        KeyCode::Char('r') => TabAction::RefreshOrResume,
        KeyCode::Char('/') => TabAction::QuickSearch,
        KeyCode::Char('f') => TabAction::FilterBuilder,
        KeyCode::Char('g') => TabAction::JumpFirst,
        KeyCode::Char('G') => TabAction::JumpLast,
        KeyCode::Char('?') => TabAction::Help,
        KeyCode::Char('e') => if tab == MainTab::SavedModels { TabAction::ExportBookmarks } else { TabAction::Nothing },
        KeyCode::Char('i') => if tab == MainTab::SavedModels { TabAction::ImportBookmarks } else { TabAction::Nothing },
        _ => TabAction::Unhandled,
    }
}

/// What a key asks for on a tab (see `tab_key_action`).
pub fn tab_key_action_for(tab: MainTab, code: KeyCode, ctrl_c: bool, downloading: bool) -> (r: TabAction)
    ensures
        r == tab_key_action(tab, code, ctrl_c, downloading),
{
    let models = tab == MainTab::Models || tab == MainTab::SavedModels;
    let images = tab == MainTab::Images || tab == MainTab::SavedImages;
    let leave = if downloading { TabAction::ConfirmExit } else { TabAction::Exit };
    match code {
        KeyCode::Char('q') if !ctrl_c => leave,
        KeyCode::Esc if !ctrl_c => leave,
        KeyCode::Char('c') if ctrl_c => leave,
        KeyCode::Enter => TabAction::Enter,
        KeyCode::Left | KeyCode::Char('h') => TabAction::Left,
        KeyCode::Right | KeyCode::Char('l') => TabAction::Right,
        KeyCode::Char('b') => TabAction::ToggleBookmark,
        KeyCode::Char('j') => TabAction::NextSelection,
        KeyCode::Char('k') => TabAction::PreviousSelection,
        KeyCode::Down => TabAction::Down,
        KeyCode::Up => TabAction::Up,
        KeyCode::Char('[') => if models { TabAction::PreviousVersion } else { TabAction::Nothing },
        KeyCode::Char(']') => if models { TabAction::NextVersion } else { TabAction::Nothing },
        KeyCode::Char('J') => if models {
            TabAction::NextFile
        } else if tab == MainTab::Downloads {
            TabAction::NextHistory
        } else {
            TabAction::Nothing
        },
        KeyCode::Char('K') => if models {
            TabAction::PreviousFile
        } else if tab == MainTab::Downloads {
            TabAction::PreviousHistory
        } else {
            TabAction::Nothing
        },
        KeyCode::Char('d') => TabAction::DownloadOrDelete,
        KeyCode::Char('D') => TabAction::DeleteWithFile,
        KeyCode::Char('p') => TabAction::PauseOrDownload,
        KeyCode::Char('c') => TabAction::CopyAction,
        KeyCode::Char('m') => if images { TabAction::OpenPrompt } else { TabAction::OpenStatus },
        KeyCode::Char('T') => if models {
            TabAction::OpenTemplates(SearchTemplateKind::Model)
        } else if images {
            TabAction::OpenTemplates(SearchTemplateKind::Image)
        } else {
            TabAction::Nothing
        },
        KeyCode::Char('M') => TabAction::OpenStatusHistory,
        KeyCode::Char('a') => if images { TabAction::ToggleAdvancedMetadata } else { TabAction::Nothing },
        KeyCode::Char('o') => if images { TabAction::CopyImagePageUrl } else { TabAction::Nothing },
        KeyCode::Char('w') => TabAction::CopyWorkflow,
        KeyCode::Char('W') => TabAction::SaveWorkflow,
        KeyCode::Char('v') => if models { TabAction::ToggleModelDetails } else { TabAction::Nothing },
        KeyCode::Char('r') => TabAction::RefreshOrResume,
        KeyCode::Char('/') => TabAction::QuickSearch,
        KeyCode::Char('f') => TabAction::FilterBuilder,
        KeyCode::Char('g') => TabAction::JumpFirst,
        KeyCode::Char('G') => TabAction::JumpLast,
        KeyCode::Char('?') => TabAction::Help,
        KeyCode::Char('e') => if tab == MainTab::SavedModels { TabAction::ExportBookmarks } else { TabAction::Nothing },
        KeyCode::Char('i') => if tab == MainTab::SavedModels { TabAction::ImportBookmarks } else { TabAction::Nothing },
        _ => TabAction::Unhandled,
    }
}

/// The actions a tab key asks for that the screen state held here carries out
/// itself.
pub open spec fn done_here(a: TabAction) -> bool {
    a == TabAction::ConfirmExit || a == TabAction::OpenPrompt || a == TabAction::OpenStatus || a is OpenTemplates
        || a == TabAction::OpenStatusHistory || a == TabAction::Help || a == TabAction::NextHistory || a
        == TabAction::PreviousHistory
}

impl App {
    /// Handles a key on a tab: works out what it asks for (see
    /// `tab_key_action`) and carries out what concerns the state held here: the
    /// exit prompt, the prompt viewer (scrolled to the top), the status window,
    /// the templates, the status history, the help window and the download
    /// history's selection. Everything else is handed back, untouched.
    pub fn handle_tab_key<M, I>(&mut self, templates: &mut SearchTemplates<M, I>, code: KeyCode, ctrl_c: bool) -> (r: TabAction)
        ensures
            r == tab_key_action(old(self).active_tab, code, ctrl_c, old(self).active_downloads@.len() > 0),
            !done_here(r) ==> *final(self) == *old(self) && *final(templates) == *old(templates),
            r is OpenTemplates ==> templates_opened(*old(self), *final(self), *old(templates), *final(templates), r->0),
            !(r is OpenTemplates) ==> *final(templates) == *old(templates),
            r == TabAction::ConfirmExit ==> final(self).show_exit_confirm_modal && final(self).active_downloads
                == old(self).active_downloads && final(self).download_history == old(self).download_history,
            r == TabAction::OpenPrompt ==> *final(self) == (App {
                show_image_prompt_modal: true,
                image_prompt_scroll: 0,
                status: final(self).status,
                ..*old(self)
            }) && final(self).status@ == "Prompt viewer opened"@,
            r == TabAction::OpenStatus ==> *final(self) == (App { show_status_modal: true, ..*old(self) }),
            r == TabAction::Help ==> *final(self) == (App { show_help_modal: true, ..*old(self) }),
            r == TabAction::OpenStatusHistory ==> final(self).show_status_history_modal
                && final(self).selected_status_history_index == 0 && final(self).status@ == "Status history opened"@
                && final(self).status_history == old(self).status_history,
            r == TabAction::NextHistory ==> final(self).selected_history_index == if old(self).selected_history_index
                + 1 < old(self).download_history@.len() {
                old(self).selected_history_index + 1
            } else {
                old(self).selected_history_index as int
            },
            r == TabAction::PreviousHistory ==> final(self).selected_history_index == if old(
                self,
            ).selected_history_index > 0 {
                old(self).selected_history_index - 1
            } else {
                0
            },
    {
        let downloading = self.has_active_download();
        let action = tab_key_action_for(self.active_tab, code, ctrl_c, downloading);
        match action {
            TabAction::ConfirmExit => self.begin_exit_confirm_modal(),
            TabAction::OpenPrompt => {
                self.show_image_prompt_modal = true;
                self.image_prompt_scroll = 0;
                self.status = String::from_str("Prompt viewer opened");
            },
            TabAction::OpenStatus => {
                self.show_status_modal = true;
            },
            TabAction::OpenTemplates(kind) => {
                let n = templates.open_search_template_modal(kind);
                self.apply_notice(&n);
            },
            TabAction::OpenStatusHistory => {
                self.begin_status_history_modal();
                self.status = String::from_str("Status history opened");
            },
            TabAction::Help => {
                self.show_help_modal = true;
            },
            TabAction::NextHistory => self.select_next_history(),
            TabAction::PreviousHistory => self.select_previous_history(),
            _ => {},
        }
        action
    }
}

/// Control-C, which asks to leave.
pub open spec fn is_ctrl_c(press: KeyPress) -> bool {
    press.code == KeyCode::Char('c') && press.control
}

/// Whether a key press is the Control-C that asks to leave.
pub fn is_ctrl_c_exit(press: KeyPress) -> (b: bool)
    ensures
        b == is_ctrl_c(press),
{
    press.code == KeyCode::Char('c') && press.control
}

/// What a key held with Control or Shift asks for on a tab.
#[derive(Clone, Copy, Debug, PartialEq, Eq, Structural)]
pub enum ModifierAction {
    /// Move the model list's selection ten down.
    PageDown,
    /// Move the model list's selection ten up.
    PageUp,
    NextFile,
    PreviousFile,
    NextImageModel,
    PreviousImageModel,
}

/// What a key held with a modifier asks for: on a model tab, Control-D and
/// Control-U page the list and Shift-Down and Shift-Up step through the
/// version's files; on an image tab, Shift-Down and Shift-Up step through the
/// models the image used. None when the key is left to the plain keys.
pub open spec fn modifier_key_action(tab: MainTab, press: KeyPress) -> Option<ModifierAction> {
    if is_model_tab(tab) {
        if press.control && press.code == KeyCode::Char('d') {
            Some(ModifierAction::PageDown)
        } else if press.control && press.code == KeyCode::Char('u') {
            Some(ModifierAction::PageUp)
        } else if press.shift && press.code == KeyCode::Up {
            Some(ModifierAction::PreviousFile)
        } else if press.shift && press.code == KeyCode::Down {
            Some(ModifierAction::NextFile)
        } else {
            None
        }
    } else if is_image_tab(tab) && press.shift {
        if press.code == KeyCode::Up {
            Some(ModifierAction::PreviousImageModel)
        } else if press.code == KeyCode::Down {
            Some(ModifierAction::NextImageModel)
        } else {
            None
        }
    } else {
        None
    }
}

/// What a key held with a modifier asks for on a tab (see
/// `modifier_key_action`).
pub fn modifier_key_action_for(tab: MainTab, press: KeyPress) -> (r: Option<ModifierAction>)
    ensures
        r == modifier_key_action(tab, press),
{
    if tab == MainTab::Models || tab == MainTab::SavedModels {
        if press.control && press.code == KeyCode::Char('d') {
            return Some(ModifierAction::PageDown);
        }
        if press.control && press.code == KeyCode::Char('u') {
            return Some(ModifierAction::PageUp);
        }
        if press.shift && press.code == KeyCode::Up {
            return Some(ModifierAction::PreviousFile);
        }
        if press.shift && press.code == KeyCode::Down {
            return Some(ModifierAction::NextFile);
        }
        None
    } else if (tab == MainTab::Images || tab == MainTab::SavedImages) && press.shift {
        if press.code == KeyCode::Up {
            Some(ModifierAction::PreviousImageModel)
        } else if press.code == KeyCode::Down {
            Some(ModifierAction::NextImageModel)
        } else {
            None
        }
    } else {
        None
    }
}

/// The keys that leave the program ask first exactly while a download is
/// running: `q` and Escape (unless the key is the exit Control-C) and the exit
/// Control-C.
pub proof fn law_leaving_confirms_while_downloading(tab: MainTab, code: KeyCode, ctrl_c: bool, downloading: bool)
    requires
        (!ctrl_c && (code == KeyCode::Char('q') || code == KeyCode::Esc)) || (ctrl_c && code == KeyCode::Char('c')),
    ensures
        tab_key_action(tab, code, ctrl_c, downloading) == if downloading {
            TabAction::ConfirmExit
        } else {
            TabAction::Exit
        },
{
}

/// The key that opens a window from a tab also closes it, and so does Escape:
/// `m` the status window (the prompt viewer on the image tabs), `M` the status
/// history, `?` the help window and `T` the search templates of the model and
/// image tabs.
pub proof fn law_opening_key_closes_window(tab: MainTab, downloading: bool)
    ensures
        !is_image_tab(tab) ==> tab_key_action(tab, KeyCode::Char('m'), false, downloading) == TabAction::OpenStatus
            && status_window_action(KeyCode::Char('m')) == ModalAction::CloseStatus
            && status_window_action(KeyCode::Esc) == ModalAction::CloseStatus,
        is_image_tab(tab) ==> tab_key_action(tab, KeyCode::Char('m'), false, downloading) == TabAction::OpenPrompt
            && prompt_window_action(KeyCode::Char('m')) == ModalAction::ClosePrompt
            && prompt_window_action(KeyCode::Esc) == ModalAction::ClosePrompt,
        tab_key_action(tab, KeyCode::Char('M'), false, downloading) == TabAction::OpenStatusHistory,
        history_window_action(KeyCode::Char('M')) == ModalAction::CloseStatusHistory,
        history_window_action(KeyCode::Esc) == ModalAction::CloseStatusHistory,
        tab_key_action(tab, KeyCode::Char('?'), false, downloading) == TabAction::Help,
        help_window_action(KeyCode::Char('?')) == ModalAction::CloseHelp,
        help_window_action(KeyCode::Esc) == ModalAction::CloseHelp,
        (is_model_tab(tab) || is_image_tab(tab)) ==> tab_key_action(tab, KeyCode::Char('T'), false, downloading)
            is OpenTemplates,
        template_window_action(KeyCode::Char('T'), false) == ModalAction::CloseTemplates,
        template_window_action(KeyCode::Esc, false) == ModalAction::CloseTemplates,
{
}

} // verus!
